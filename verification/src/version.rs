//! Dotted version numbers: component extraction and ordering.
use vstd::prelude::*;

use crate::text::{chars_of, is_digit, split_chars, split_seq};

verus! {

/// Result of comparing two version strings.
#[derive(Debug, Clone, Copy, PartialEq, Eq, Structural)]
pub enum VersionOrder {
    Less,
    Equal,
    Greater,
}

/// Value of one ASCII decimal digit.
pub open spec fn digit_value(c: char) -> nat {
    (c as int - '0' as int) as nat
}

/// Decimal value of a digit sequence.
pub open spec fn decimal_value(d: Seq<char>) -> nat
    decreases d.len(),
{
    if d.len() == 0 {
        0
    } else {
        decimal_value(d.drop_last()) * 10 + digit_value(d.last())
    }
}

/// Number of leading ASCII digits of `s`.
pub open spec fn digit_prefix_len(s: Seq<char>) -> nat
    decreases s.len(),
{
    if s.len() == 0 || !is_digit(s[0]) {
        0
    } else {
        1 + digit_prefix_len(s.drop_first())
    }
}

/// Numeric value of one dot-separated part: its leading digits read as a
/// `u64`, or 0 when there are none or they do not fit.
pub open spec fn component_value(part: Seq<char>) -> u64 {
    let d = part.take(digit_prefix_len(part) as int);
    if d.len() > 0 && decimal_value(d) <= u64::MAX {
        decimal_value(d) as u64
    } else {
        0
    }
}

/// Numeric components of a version string.
pub open spec fn version_components(v: Seq<char>) -> Seq<u64> {
    split_seq(v, '.').map_values(|p: Seq<char>| component_value(p))
}

/// Component `i`, or 0 past the end.
pub open spec fn comp_at(c: Seq<u64>, i: int) -> u64 {
    if 0 <= i < c.len() {
        c[i]
    } else {
        0
    }
}

/// Lexicographic comparison of zero-padded components from index `i` on.
pub open spec fn order_from(a: Seq<u64>, b: Seq<u64>, i: int, n: int) -> VersionOrder
    decreases n - i,
{
    if i >= n {
        VersionOrder::Equal
    } else if comp_at(a, i) < comp_at(b, i) {
        VersionOrder::Less
    } else if comp_at(a, i) > comp_at(b, i) {
        VersionOrder::Greater
    } else {
        order_from(a, b, i + 1, n)
    }
}

/// Comparison of two component lists, shorter lists padded with zeros.
pub open spec fn compare_components(a: Seq<u64>, b: Seq<u64>) -> VersionOrder {
    order_from(a, b, 0, if a.len() >= b.len() { a.len() as int } else { b.len() as int })
}

/// Comparison of two version strings.
pub open spec fn compare_version_text(left: Seq<char>, right: Seq<char>) -> VersionOrder {
    compare_components(version_components(left), version_components(right))
}

/// The opposite comparison outcome.
pub open spec fn flip(o: VersionOrder) -> VersionOrder {
    match o {
        VersionOrder::Less => VersionOrder::Greater,
        VersionOrder::Equal => VersionOrder::Equal,
        VersionOrder::Greater => VersionOrder::Less,
    }
}

pub(crate) proof fn lemma_decimal_monotone(d: Seq<char>, i: int, j: int)
    requires
        0 <= i <= j <= d.len(),
    ensures
        decimal_value(d.take(i)) <= decimal_value(d.take(j)),
    decreases j - i,
{
    if i < j {
        lemma_decimal_monotone(d, i, j - 1);
        assert(d.take(j).drop_last() =~= d.take(j - 1));
        let v = decimal_value(d.take(j - 1));
        assert(v <= v * 10) by (nonlinear_arith);
    }
}

/// Numeric value of one version part.
fn component_value_exec(part: &Vec<char>) -> (r: u64)
    ensures
        r == component_value(part@),
{
    let mut i: usize = 0;
    let mut acc: u64 = 0;
    let mut overflow = false;
    assert(part@.skip(0) =~= part@);
    while i < part.len() && '0' <= part[i] && part[i] <= '9'
        invariant
            i <= part@.len(),
            forall|j: int| 0 <= j < i ==> is_digit(#[trigger] part@[j]),
            digit_prefix_len(part@) == i + digit_prefix_len(part@.skip(i as int)),
            !overflow ==> acc == decimal_value(part@.take(i as int)),
            overflow ==> decimal_value(part@.take(i as int)) > u64::MAX,
        decreases part@.len() - i,
    {
        let c = part[i];
        let d = (c as u32 - '0' as u32) as u64;
        proof {
            assert(part@.skip(i as int).drop_first() =~= part@.skip(i + 1));
            assert(part@.take(i + 1).drop_last() =~= part@.take(i as int));
            assert(part@.take(i + 1).last() == c);
            assert(d == digit_value(c));
        }
        if overflow {
            proof {
                let v = decimal_value(part@.take(i as int));
                assert(v <= v * 10) by (nonlinear_arith);
            }
        } else if acc > (u64::MAX - d) / 10 {
            proof {
                assert(acc * 10 + d > u64::MAX) by (nonlinear_arith)
                    requires
                        acc > (u64::MAX - d) / 10,
                        d <= 9,
                ;
            }
            overflow = true;
        } else {
            proof {
                assert(acc * 10 + d <= u64::MAX) by (nonlinear_arith)
                    requires
                        acc <= (u64::MAX - d) / 10,
                        d <= 9,
                ;
            }
            acc = acc * 10 + d;
        }
        i = i + 1;
    }
    proof {
        if i < part@.len() {
            assert(!is_digit(part@.skip(i as int)[0]));
        }
        assert(digit_prefix_len(part@) == i);
    }
    if i > 0 && !overflow {
        acc
    } else {
        0
    }
}

/// Numeric components of a version string, as `version_components` states.
pub fn version_components_exec(version: &str) -> (r: Vec<u64>)
    ensures
        r@ == version_components(version@),
{
    let chars = chars_of(version);
    let parts = split_chars(&chars, '.');
    let mut out: Vec<u64> = Vec::new();
    let mut k: usize = 0;
    while k < parts.len()
        invariant
            k <= parts@.len(),
            parts@.len() == split_seq(chars@, '.').len(),
            forall|m: int| 0 <= m < parts@.len() ==> #[trigger] parts@[m]@ == split_seq(chars@, '.')[m],
            out@.len() == k,
            forall|m: int| 0 <= m < k ==> #[trigger] out@[m] == component_value(split_seq(chars@, '.')[m]),
        decreases parts@.len() - k,
    {
        let v = component_value_exec(&parts[k]);
        out.push(v);
        k = k + 1;
    }
    assert(out@ =~= version_components(version@));
    out
}

/// Compares two version strings component by component.
pub fn compare_versions(left: &str, right: &str) -> (r: VersionOrder)
    ensures
        r == compare_version_text(left@, right@),
{
    let a = version_components_exec(left);
    let b = version_components_exec(right);
    let n = if a.len() >= b.len() { a.len() } else { b.len() };
    let mut i: usize = 0;
    while i < n
        invariant
            i <= n,
            a@ == version_components(left@),
            b@ == version_components(right@),
            n == (if a@.len() >= b@.len() { a@.len() } else { b@.len() }),
            order_from(a@, b@, 0, n as int) == order_from(a@, b@, i as int, n as int),
        decreases n - i,
    {
        let x = if i < a.len() { a[i] } else { 0 };
        let y = if i < b.len() { b[i] } else { 0 };
        if x < y {
            return VersionOrder::Less;
        }
        if x > y {
            return VersionOrder::Greater;
        }
        i = i + 1;
    }
    VersionOrder::Equal
}

proof fn lemma_order_from_flip(a: Seq<u64>, b: Seq<u64>, i: int, n: int)
    ensures
        order_from(a, b, i, n) == flip(order_from(b, a, i, n)),
    decreases n - i,
{
    if i < n {
        lemma_order_from_flip(a, b, i + 1, n);
    }
}

proof fn lemma_order_from_refl(a: Seq<u64>, i: int, n: int)
    ensures
        order_from(a, a, i, n) == VersionOrder::Equal,
    decreases n - i,
{
    if i < n {
        lemma_order_from_refl(a, i + 1, n);
    }
}

proof fn lemma_order_from_extend(a: Seq<u64>, b: Seq<u64>, i: int, n: int, m: int)
    requires
        0 <= i,
        a.len() <= n <= m,
        b.len() <= n,
    ensures
        order_from(a, b, i, n) == order_from(a, b, i, m),
    decreases m - i,
{
    if i < m {
        if i < n {
            lemma_order_from_extend(a, b, i + 1, n, m);
        } else {
            lemma_order_from_extend(a, b, i + 1, n, m);
            lemma_order_from_refl_zero(a, b, i, n, m);
        }
    }
}

proof fn lemma_order_from_refl_zero(a: Seq<u64>, b: Seq<u64>, i: int, n: int, m: int)
    requires
        0 <= i,
        a.len() <= n,
        b.len() <= n,
        n <= i,
    ensures
        order_from(a, b, i, m) == VersionOrder::Equal,
    decreases m - i,
{
    if i < m {
        lemma_order_from_refl_zero(a, b, i + 1, n, m);
    }
}

proof fn lemma_order_from_trans(a: Seq<u64>, b: Seq<u64>, c: Seq<u64>, i: int, n: int)
    requires
        order_from(a, b, i, n) != VersionOrder::Greater,
        order_from(b, c, i, n) != VersionOrder::Greater,
    ensures
        order_from(a, c, i, n) != VersionOrder::Greater,
        (order_from(a, b, i, n) == VersionOrder::Less || order_from(b, c, i, n) == VersionOrder::Less)
            ==> order_from(a, c, i, n) == VersionOrder::Less,
    decreases n - i,
{
    if i < n && comp_at(a, i) == comp_at(b, i) && comp_at(b, i) == comp_at(c, i) {
        lemma_order_from_trans(a, b, c, i + 1, n);
    }
}

/// Version comparison is antisymmetric: swapping the operands flips the
/// outcome, so `a` is below `b` exactly when `b` is above `a`.
pub proof fn law_compare_antisymmetric(left: Seq<char>, right: Seq<char>)
    ensures
        compare_version_text(left, right) == flip(compare_version_text(right, left)),
{
    let a = version_components(left);
    let b = version_components(right);
    lemma_order_from_flip(a, b, 0, if a.len() >= b.len() { a.len() as int } else { b.len() as int });
}

/// Every version compares equal to itself.
pub proof fn law_compare_reflexive(v: Seq<char>)
    ensures
        compare_version_text(v, v) == VersionOrder::Equal,
{
    let a = version_components(v);
    lemma_order_from_refl(a, 0, a.len() as int);
}

/// Version comparison is transitive: `a <= b` and `b <= c` give `a <= c`,
/// strictly when either step is strict.
pub proof fn law_compare_transitive(a: Seq<char>, b: Seq<char>, c: Seq<char>)
    requires
        compare_version_text(a, b) != VersionOrder::Greater,
        compare_version_text(b, c) != VersionOrder::Greater,
    ensures
        compare_version_text(a, c) != VersionOrder::Greater,
        (compare_version_text(a, b) == VersionOrder::Less || compare_version_text(b, c)
            == VersionOrder::Less) ==> compare_version_text(a, c) == VersionOrder::Less,
{
    let x = version_components(a);
    let y = version_components(b);
    let z = version_components(c);
    let mut m = x.len() as int;
    if y.len() > m {
        m = y.len() as int;
    }
    if z.len() > m {
        m = z.len() as int;
    }
    let nxy = if x.len() >= y.len() { x.len() as int } else { y.len() as int };
    let nyz = if y.len() >= z.len() { y.len() as int } else { z.len() as int };
    let nxz = if x.len() >= z.len() { x.len() as int } else { z.len() as int };
    lemma_order_from_extend(x, y, 0, nxy, m);
    lemma_order_from_extend(y, z, 0, nyz, m);
    lemma_order_from_extend(x, z, 0, nxz, m);
    lemma_order_from_trans(x, y, z, 0, m);
}

} // verus!
