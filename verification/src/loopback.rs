//! Whether an endpoint host names the local machine: `localhost` in any
//! ASCII case, an IPv4 address in `127.0.0.0/8`, or the IPv6 address `::1`,
//! each in the textual forms that the standard address parsers accept.
use vstd::prelude::*;
use vstd::string::*;

use crate::text::{chars_of, split_chars, split_seq, sub_chars, is_digit};
use crate::version::{decimal_value, digit_value};

verus! {

/// ASCII hexadecimal digit.
pub open spec fn is_hex_char(c: char) -> bool {
    ('0' <= c && c <= '9') || ('a' <= c && c <= 'f') || ('A' <= c && c <= 'F')
}

/// Value of one hexadecimal digit.
pub open spec fn hex_char_value(c: char) -> int {
    if '0' <= c && c <= '9' {
        c as int - '0' as int
    } else if 'a' <= c && c <= 'f' {
        c as int - 'a' as int + 10
    } else {
        c as int - 'A' as int + 10
    }
}

/// Value of a hexadecimal digit string.
pub open spec fn hex_value(s: Seq<char>) -> int
    decreases s.len(),
{
    if s.len() == 0 {
        0
    } else {
        hex_value(s.drop_last()) * 16 + hex_char_value(s.last())
    }
}

/// One IPv6 group: one to four hexadecimal digits.
pub open spec fn is_hex_group(s: Seq<char>) -> bool {
    &&& 1 <= s.len() <= 4
    &&& forall|i: int| 0 <= i < s.len() ==> is_hex_char(#[trigger] s[i])
}

/// One IPv4 octet: one to three decimal digits, no leading zero, at most 255.
pub open spec fn is_dec_octet(s: Seq<char>) -> bool {
    &&& 1 <= s.len() <= 3
    &&& forall|i: int| 0 <= i < s.len() ==> is_digit(#[trigger] s[i])
    &&& (s.len() == 1 || s[0] != '0')
    &&& decimal_value(s) <= 255
}

/// Dotted-quad IPv4 text.
pub open spec fn is_ipv4(s: Seq<char>) -> bool {
    let p = split_seq(s, '.');
    &&& p.len() == 4
    &&& forall|k: int| 0 <= k < 4 ==> is_dec_octet(#[trigger] p[k])
}

/// The two 16-bit words of an IPv4 address.
pub open spec fn ipv4_words(s: Seq<char>) -> Seq<int> {
    let p = split_seq(s, '.');
    seq![
        (decimal_value(p[0]) * 256 + decimal_value(p[1])) as int,
        (decimal_value(p[2]) * 256 + decimal_value(p[3])) as int,
    ]
}

/// Every part is an IPv6 group.
pub open spec fn all_hex_groups(parts: Seq<Seq<char>>) -> bool {
    forall|k: int| 0 <= k < parts.len() ==> is_hex_group(#[trigger] parts[k])
}

/// Values of IPv6 groups.
pub open spec fn hex_values(parts: Seq<Seq<char>>) -> Seq<int> {
    parts.map_values(|p: Seq<char>| hex_value(p))
}

/// Whether the last part is an embedded IPv4 address.
pub open spec fn ends_in_ipv4(parts: Seq<Seq<char>>) -> bool {
    parts.len() > 0 && is_ipv4(parts.last())
}

/// Groups that may end in an embedded IPv4 address.
pub open spec fn tail_groups_ok(parts: Seq<Seq<char>>) -> bool {
    if ends_in_ipv4(parts) {
        all_hex_groups(parts.drop_last())
    } else {
        all_hex_groups(parts)
    }
}

/// The 16-bit values of such groups, an IPv4 ending giving two.
pub open spec fn tail_values(parts: Seq<Seq<char>>) -> Seq<int> {
    if ends_in_ipv4(parts) {
        hex_values(parts.drop_last()) + ipv4_words(parts.last())
    } else {
        hex_values(parts)
    }
}

/// `i` is the position of the first `::` in `s`.
pub open spec fn is_first_double_colon(s: Seq<char>, i: int) -> bool {
    &&& 0 <= i && i + 1 < s.len()
    &&& s[i] == ':' && s[i + 1] == ':'
    &&& forall|j: int| 0 <= j < i ==> !(#[trigger] s[j] == ':' && s[j + 1] == ':')
}

/// The eight 16-bit groups of IPv6 text, or `None` when it is not IPv6 text.
/// A `::` stands for the zero groups that the parts around it leave out.
pub open spec fn ipv6_groups(s: Seq<char>) -> Option<Seq<int>> {
    if exists|i: int| is_first_double_colon(s, i) {
        let i = choose|i: int| is_first_double_colon(s, i);
        let head = s.take(i);
        let tail = s.skip(i + 2);
        let head_ok = head.len() == 0 || all_hex_groups(split_seq(head, ':'));
        let tail_ok = tail.len() == 0 || tail_groups_ok(split_seq(tail, ':'));
        let hv = if head.len() == 0 {
            Seq::<int>::empty()
        } else {
            hex_values(split_seq(head, ':'))
        };
        let tv = if tail.len() == 0 {
            Seq::<int>::empty()
        } else {
            tail_values(split_seq(tail, ':'))
        };
        if head_ok && tail_ok && hv.len() + tv.len() <= 7 {
            Some(hv + Seq::new((8 - hv.len() - tv.len()) as nat, |k: int| 0int) + tv)
        } else {
            None
        }
    } else {
        let p = split_seq(s, ':');
        if tail_groups_ok(p) && tail_values(p).len() == 8 {
            Some(tail_values(p))
        } else {
            None
        }
    }
}

/// The groups of `::1`.
pub open spec fn ipv6_loopback_groups() -> Seq<int> {
    seq![0int, 0int, 0int, 0int, 0int, 0int, 0int, 1int]
}

/// ASCII lower-case code of a character.
pub open spec fn ascii_lower_code(c: char) -> u32 {
    if 'A' <= c && c <= 'Z' {
        (c as u32 + 32) as u32
    } else {
        c as u32
    }
}

/// Equality ignoring ASCII case.
pub open spec fn eq_ignore_ascii_case(a: Seq<char>, b: Seq<char>) -> bool {
    &&& a.len() == b.len()
    &&& forall|i: int| 0 <= i < a.len() ==> ascii_lower_code(#[trigger] a[i]) == ascii_lower_code(b[i])
}

/// Whether a host names the local machine.
pub open spec fn is_loopback_host(h: Seq<char>) -> bool {
    ||| eq_ignore_ascii_case(h, "localhost"@)
    ||| is_ipv4(h) && decimal_value(split_seq(h, '.')[0]) == 127
    ||| ipv6_groups(h) == Some(ipv6_loopback_groups())
}

/// Views of character vectors.
pub open spec fn views(v: Seq<Vec<char>>) -> Seq<Seq<char>> {
    v.map_values(|p: Vec<char>| p@)
}

/// Integer values of a word list.
pub open spec fn ints(v: Seq<u32>) -> Seq<int> {
    v.map_values(|x: u32| x as int)
}

spec fn pow16(n: nat) -> int
    decreases n,
{
    if n == 0 {
        1
    } else {
        16 * pow16((n - 1) as nat)
    }
}

spec fn pow10(n: nat) -> int
    decreases n,
{
    if n == 0 {
        1
    } else {
        10 * pow10((n - 1) as nat)
    }
}

/// Value of an IPv6 group, or `None` when the text is not one.
fn hex_group_value(p: &Vec<char>) -> (r: Option<u32>)
    ensures
        r matches Some(v) ==> is_hex_group(p@) && v == hex_value(p@),
        r is None ==> !is_hex_group(p@),
{
    if p.len() < 1 || p.len() > 4 {
        return None;
    }
    let mut acc: u32 = 0;
    let mut i: usize = 0;
    proof {
        assert(p@.take(0) =~= Seq::<char>::empty());
        reveal_with_fuel(pow16, 5);
    }
    while i < p.len()
        invariant
            1 <= p@.len() <= 4,
            i <= p@.len(),
            forall|j: int| 0 <= j < i ==> is_hex_char(#[trigger] p@[j]),
            acc == hex_value(p@.take(i as int)),
            acc < pow16(i as nat),
            pow16(4) == 65536,
        decreases p@.len() - i,
    {
        let c = p[i];
        let d: u32 = if '0' <= c && c <= '9' {
            (c as u32) - ('0' as u32)
        } else if 'a' <= c && c <= 'f' {
            (c as u32) - ('a' as u32) + 10
        } else if 'A' <= c && c <= 'F' {
            (c as u32) - ('A' as u32) + 10
        } else {
            return None;
        };
        proof {
            assert(p@.take(i + 1).drop_last() =~= p@.take(i as int));
            assert(p@.take(i + 1).last() == c);
            assert(pow16((i + 1) as nat) == 16 * pow16(i as nat));
            assert(pow16(i as nat) <= 4096) by {
                reveal_with_fuel(pow16, 5);
            }
            assert(acc * 16 + d < 16 * pow16(i as nat)) by (nonlinear_arith)
                requires
                    acc < pow16(i as nat),
                    d < 16,
            ;
        }
        acc = acc * 16 + d;
        i = i + 1;
    }
    assert(p@.take(p@.len() as int) =~= p@);
    Some(acc)
}

/// Value of an IPv4 octet, or `None` when the text is not one.
fn dec_octet_value(p: &Vec<char>) -> (r: Option<u32>)
    ensures
        r matches Some(v) ==> is_dec_octet(p@) && v == decimal_value(p@),
        r is None ==> !is_dec_octet(p@),
{
    if p.len() < 1 || p.len() > 3 {
        return None;
    }
    if p.len() > 1 && p[0] == '0' {
        return None;
    }
    let mut acc: u32 = 0;
    let mut i: usize = 0;
    proof {
        assert(p@.take(0) =~= Seq::<char>::empty());
        reveal_with_fuel(pow10, 4);
    }
    while i < p.len()
        invariant
            1 <= p@.len() <= 3,
            i <= p@.len(),
            forall|j: int| 0 <= j < i ==> is_digit(#[trigger] p@[j]),
            acc == decimal_value(p@.take(i as int)),
            acc < pow10(i as nat),
            pow10(3) == 1000,
        decreases p@.len() - i,
    {
        let c = p[i];
        if !('0' <= c && c <= '9') {
            return None;
        }
        let d: u32 = (c as u32) - ('0' as u32);
        proof {
            assert(p@.take(i + 1).drop_last() =~= p@.take(i as int));
            assert(p@.take(i + 1).last() == c);
            assert(d == digit_value(c));
            assert(pow10((i + 1) as nat) == 10 * pow10(i as nat));
            assert(pow10(i as nat) <= 100) by {
                reveal_with_fuel(pow10, 4);
            }
            assert(acc * 10 + d < 10 * pow10(i as nat)) by (nonlinear_arith)
                requires
                    acc < pow10(i as nat),
                    d < 10,
            ;
        }
        acc = acc * 10 + d;
        i = i + 1;
    }
    assert(p@.take(p@.len() as int) =~= p@);
    if acc > 255 {
        return None;
    }
    Some(acc)
}

/// The four octets of dotted-quad text, or `None` when it is not one.
fn ipv4_octets(s: &Vec<char>) -> (r: Option<Vec<u32>>)
    ensures
        r matches Some(o) ==> is_ipv4(s@) && o@.len() == 4 && forall|k: int|
            0 <= k < 4 ==> #[trigger] o@[k] == decimal_value(split_seq(s@, '.')[k]),
        r is None ==> !is_ipv4(s@),
{
    let parts = split_chars(s, '.');
    if parts.len() != 4 {
        return None;
    }
    let ghost p = split_seq(s@, '.');
    let mut out: Vec<u32> = Vec::new();
    let mut k: usize = 0;
    while k < 4
        invariant
            parts@.len() == 4,
            p == split_seq(s@, '.'),
            p.len() == 4,
            forall|m: int| 0 <= m < 4 ==> #[trigger] parts@[m]@ == p[m],
            k <= 4,
            out@.len() == k,
            forall|m: int| 0 <= m < k ==> is_dec_octet(#[trigger] p[m]),
            forall|m: int| 0 <= m < k ==> #[trigger] out@[m] == decimal_value(p[m]),
        decreases 4 - k,
    {
        match dec_octet_value(&parts[k]) {
            Some(v) => {
                out.push(v);
            },
            None => {
                assert(!is_dec_octet(p[k as int]));
                return None;
            },
        }
        k = k + 1;
    }
    Some(out)
}

/// Whether the first `n` parts are all IPv6 groups, with their values.
fn hex_prefix_values(parts: &Vec<Vec<char>>, n: usize) -> (r: Option<Vec<u32>>)
    requires
        n <= parts@.len(),
    ensures
        r matches Some(g) ==> all_hex_groups(views(parts@).take(n as int)) && ints(g@) == hex_values(
            views(parts@).take(n as int),
        ),
        r is None ==> !all_hex_groups(views(parts@).take(n as int)),
{
    let ghost pv = views(parts@).take(n as int);
    let mut out: Vec<u32> = Vec::new();
    let mut k: usize = 0;
    while k < n
        invariant
            n <= parts@.len(),
            pv == views(parts@).take(n as int),
            k <= n,
            out@.len() == k,
            forall|m: int| 0 <= m < k ==> is_hex_group(#[trigger] pv[m]),
            forall|m: int| 0 <= m < k ==> #[trigger] out@[m] == hex_value(pv[m]),
        decreases n - k,
    {
        match hex_group_value(&parts[k]) {
            Some(v) => {
                out.push(v);
            },
            None => {
                assert(pv[k as int] == parts@[k as int]@);
                assert(!is_hex_group(pv[k as int]));
                return None;
            },
        }
        k = k + 1;
    }
    assert(ints(out@) =~= hex_values(pv));
    Some(out)
}

/// The values of groups that may end in an embedded IPv4 address.
fn tail_group_values(parts: &Vec<Vec<char>>) -> (r: Option<Vec<u32>>)
    ensures
        r matches Some(g) ==> tail_groups_ok(views(parts@)) && ints(g@) == tail_values(views(parts@)),
        r is None ==> !tail_groups_ok(views(parts@)),
{
    let ghost pv = views(parts@);
    let n = parts.len();
    let last_v4 = if n > 0 {
        ipv4_octets(&parts[n - 1])
    } else {
        None
    };
    proof {
        if n > 0 {
            assert(pv.last() == parts@[n - 1]@);
        }
    }
    match last_v4 {
        Some(o) => {
            assert(pv.take(n - 1) =~= pv.drop_last());
            match hex_prefix_values(parts, n - 1) {
                Some(mut g) => {
                    let ghost hv = ints(g@);
                    assert(o@[0] <= 255 && o@[1] <= 255 && o@[2] <= 255 && o@[3] <= 255);
                    g.push(o[0] * 256 + o[1]);
                    g.push(o[2] * 256 + o[3]);
                    assert(ints(g@) =~= hv + ipv4_words(pv.last()));
                    Some(g)
                },
                None => None,
            }
        },
        None => {
            assert(pv.take(n as int) =~= pv);
            hex_prefix_values(parts, n)
        },
    }
}

proof fn lemma_first_double_colon_unique(s: Seq<char>, i: int, j: int)
    requires
        is_first_double_colon(s, i),
        is_first_double_colon(s, j),
    ensures
        i == j,
{
    if i < j {
        assert(s[i] == ':' && s[i + 1] == ':');
    } else if j < i {
        assert(s[j] == ':' && s[j + 1] == ':');
    }
}

/// The eight groups of IPv6 text, as [`ipv6_groups`] states.
fn ipv6_group_values(s: &Vec<char>) -> (r: Option<Vec<u32>>)
    ensures
        r matches Some(g) ==> ipv6_groups(s@) == Some(ints(g@)) && g@.len() == 8,
        r is None ==> ipv6_groups(s@) is None,
{
    let mut i: usize = 0;
    let mut found = false;
    while s.len() > 0 && i < s.len() - 1
        invariant_except_break
            !found,
            forall|j: int| 0 <= j < i ==> !(#[trigger] s@[j] == ':' && s@[j + 1] == ':'),
        invariant
            i <= s@.len(),
        ensures
            found ==> is_first_double_colon(s@, i as int),
            !found ==> forall|j: int| 0 <= j && j + 1 < s@.len() ==> !(#[trigger] s@[j] == ':' && s@[j + 1] == ':'),
        decreases s@.len() - i,
    {
        if s[i] == ':' && s[i + 1] == ':' {
            found = true;
            break;
        }
        i = i + 1;
    }
    if found {
        proof {
            assert(exists|k: int| is_first_double_colon(s@, k));
            let c = choose|k: int| is_first_double_colon(s@, k);
            lemma_first_double_colon_unique(s@, c, i as int);
        }
        let n = s.len();
        assert(i + 1 < n);
        let second: usize = i + 1;
        let head = sub_chars(s, 0, i);
        let tail = sub_chars(s, second + 1, s.len());
        assert(head@ =~= s@.take(i as int));
        assert(tail@ =~= s@.skip(i + 2));
        let hv: Vec<u32> = if head.len() == 0 {
            Vec::new()
        } else {
            let hp = split_chars(&head, ':');
            assert(views(hp@) =~= split_seq(head@, ':'));
            assert(views(hp@).take(hp@.len() as int) =~= views(hp@));
            match hex_prefix_values(&hp, hp.len()) {
                Some(g) => g,
                None => {
                    return None;
                },
            }
        };
        let tv: Vec<u32> = if tail.len() == 0 {
            Vec::new()
        } else {
            let tp = split_chars(&tail, ':');
            assert(views(tp@) =~= split_seq(tail@, ':'));
            match tail_group_values(&tp) {
                Some(g) => g,
                None => {
                    return None;
                },
            }
        };
        if hv.len() > 7 || tv.len() > 7 - hv.len() {
            return None;
        }
        let mut out: Vec<u32> = Vec::new();
        let mut k: usize = 0;
        while k < hv.len()
            invariant
                k <= hv@.len(),
                out@ == hv@.take(k as int),
            decreases hv@.len() - k,
        {
            out.push(hv[k]);
            k = k + 1;
            assert(out@ =~= hv@.take(k as int));
        }
        let zeros = 8 - hv.len() - tv.len();
        let mut z: usize = 0;
        assert(hv@.take(hv@.len() as int) =~= hv@);
        while z < zeros
            invariant
                z <= zeros,
                out@.len() == hv@.len() + z,
                forall|m: int| 0 <= m < hv@.len() ==> #[trigger] out@[m] == hv@[m],
                forall|m: int| hv@.len() <= m < out@.len() ==> #[trigger] out@[m] == 0,
            decreases zeros - z,
        {
            out.push(0);
            z = z + 1;
        }
        let mut t: usize = 0;
        while t < tv.len()
            invariant
                t <= tv@.len(),
                out@.len() == hv@.len() + zeros + t,
                forall|m: int| 0 <= m < hv@.len() ==> #[trigger] out@[m] == hv@[m],
                forall|m: int| hv@.len() <= m < hv@.len() + zeros ==> #[trigger] out@[m] == 0,
                forall|m: int| 0 <= m < t ==> #[trigger] out@[hv@.len() + zeros + m] == tv@[m],
            decreases tv@.len() - t,
        {
            out.push(tv[t]);
            t = t + 1;
        }
        proof {
            let hvi = ints(hv@);
            let tvi = ints(tv@);
            let zs = Seq::new((8 - hvi.len() - tvi.len()) as nat, |k: int| 0int);
            assert forall|m: int| 0 <= m < 8 implies #[trigger] ints(out@)[m] == (hvi + zs + tvi)[m] by {
                if m >= hv@.len() + zeros {
                    assert(out@[hv@.len() + zeros + (m - hv@.len() - zeros)] == tv@[m - hv@.len() - zeros]);
                }
            }
            assert(ints(out@) =~= hvi + zs + tvi);
        }
        Some(out)
    } else {
        proof {
            assert(!exists|k: int| is_first_double_colon(s@, k));
        }
        let p = split_chars(s, ':');
        assert(views(p@) =~= split_seq(s@, ':'));
        match tail_group_values(&p) {
            Some(g) => {
                if g.len() == 8 {
                    Some(g)
                } else {
                    None
                }
            },
            None => None,
        }
    }
}

/// Whether an endpoint host names the local machine.
pub fn host_is_loopback(host: &str) -> (r: bool)
    ensures
        r == is_loopback_host(host@),
{
    let h = chars_of(host);
    let target = chars_of("localhost");
    proof {
        reveal_strlit("localhost");
    }
    let mut same = h.len() == target.len();
    if same {
        let mut i: usize = 0;
        while i < h.len()
            invariant
                h@.len() == target@.len(),
                h@ == host@,
                target@ == "localhost"@,
                i <= h@.len(),
                same == forall|j: int| 0 <= j < i ==> ascii_lower_code(#[trigger] h@[j]) == ascii_lower_code(
                    target@[j],
                ),
            decreases h@.len() - i,
        {
            let a = h[i];
            let b = target[i];
            let la: u32 = if 'A' <= a && a <= 'Z' { (a as u32) + 32 } else { a as u32 };
            let lb: u32 = if 'A' <= b && b <= 'Z' { (b as u32) + 32 } else { b as u32 };
            if la != lb {
                same = false;
            }
            i = i + 1;
        }
    }
    let v4 = match ipv4_octets(&h) {
        Some(o) => o[0] == 127,
        None => false,
    };
    let v6 = match ipv6_group_values(&h) {
        Some(g) => {
            let r = g[0] == 0 && g[1] == 0 && g[2] == 0 && g[3] == 0 && g[4] == 0 && g[5] == 0
                && g[6] == 0 && g[7] == 1;
            proof {
                if r {
                    assert(ints(g@) =~= ipv6_loopback_groups());
                } else if ints(g@) == ipv6_loopback_groups() {
                    assert(ints(g@)[0] == 0 && ints(g@)[1] == 0 && ints(g@)[2] == 0);
                    assert(ints(g@)[3] == 0 && ints(g@)[4] == 0 && ints(g@)[5] == 0);
                    assert(ints(g@)[6] == 0 && ints(g@)[7] == 1);
                }
            }
            r
        },
        None => false,
    };
    same || v4 || v6
}

} // verus!
