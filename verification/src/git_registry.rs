//! Git-forge package registry: endpoint policy, index rows and artifact
//! verification.
use vstd::prelude::*;
use vstd::string::*;
use vstd::utf8::encode_utf8;
use sha2::Digest;

use crate::crates_io::{
    cache_artifact_path_with_file, cache_path_spec, is_best_pick, any_ok, pick_best, strings_view,
    CratesIoSpec, ResolvedCratesIoSource, VersionReq,
};
use crate::error::CliError;
use crate::loopback::is_loopback_host;
use crate::text::{
    chars_of, concat2, decimal_string, decimal_text, hex_string, hex_text, hex_upper, hex_upper_exec,
    hex_lower, owned, push_char, split_chars, split_seq, string_of, trim_chars, trim_spec,
    trim_end_char, trim_end_char_spec, has_prefix, starts_with_chars, byte_hex_lower,
};

verus! {

broadcast use vstd::string::group_string_axioms;

/// Environment variable that opts in to fetching from a non-loopback host
/// over insecure `http://`.
pub const GIT_REGISTRY_ALLOW_INSECURE_ENV: &'static str = "SIM_GIT_REGISTRY_ALLOW_INSECURE";

/// Environment variable that enables git-registry-backed artifact resolution.
pub const GIT_REGISTRY_ENDPOINT_ENV: &'static str = "SIM_GIT_REGISTRY_ENDPOINT";

/// Maximum bytes accepted for a registry index response.
pub const MAX_INDEX_BYTES: usize = 1048576;

/// Maximum bytes accepted for a registry artifact response.
pub const MAX_ARTIFACT_BYTES: usize = 67108864;

// ---------------------------------------------------------------------------
// Index rows
// ---------------------------------------------------------------------------

/// The whitespace `str::split_ascii_whitespace` splits on.
pub open spec fn is_ascii_ws(c: char) -> bool {
    c == ' ' || c == '\t' || c == '\n' || c == '\x0C' || c == '\r'
}

/// Tokens of `s` separated by runs of ASCII whitespace.
pub open spec fn ascii_tokens(s: Seq<char>) -> Seq<Seq<char>>
    decreases s.len(),
{
    if s.len() == 0 {
        Seq::<Seq<char>>::empty()
    } else {
        let prev = ascii_tokens(s.drop_last());
        let c = s.last();
        if is_ascii_ws(c) {
            prev
        } else if s.len() >= 2 && !is_ascii_ws(s[s.len() - 2]) {
            prev.update(prev.len() - 1, prev.last().push(c))
        } else {
            prev.push(seq![c])
        }
    }
}

/// Splits on runs of ASCII whitespace.
pub fn ascii_tokens_exec(s: &Vec<char>) -> (r: Vec<Vec<char>>)
    ensures
        r@.len() == ascii_tokens(s@).len(),
        forall|k: int| 0 <= k < r@.len() ==> #[trigger] r@[k]@ == ascii_tokens(s@)[k],
{
    let mut toks: Vec<Vec<char>> = Vec::new();
    let mut cur: Vec<char> = Vec::new();
    let mut in_tok = false;
    let mut i: usize = 0;
    while i < s.len()
        invariant
            i <= s@.len(),
            in_tok == (i > 0 && !is_ascii_ws(s@[i - 1])),
            !in_tok ==> toks@.len() == ascii_tokens(s@.take(i as int)).len(),
            !in_tok ==> forall|k: int|
                0 <= k < toks@.len() ==> #[trigger] toks@[k]@ == ascii_tokens(s@.take(i as int))[k],
            in_tok ==> toks@.len() + 1 == ascii_tokens(s@.take(i as int)).len(),
            in_tok ==> forall|k: int|
                0 <= k < toks@.len() ==> #[trigger] toks@[k]@ == ascii_tokens(s@.take(i as int))[k],
            in_tok ==> cur@ == ascii_tokens(s@.take(i as int)).last(),
        decreases s@.len() - i,
    {
        let c = s[i];
        proof {
            assert(s@.take(i + 1).drop_last() =~= s@.take(i as int));
            assert(s@.take(i + 1).last() == c);
            if i > 0 {
                assert(s@.take(i + 1)[i - 1] == s@[i - 1]);
            }
        }
        let ws = c == ' ' || c == '\t' || c == '\n' || c == '\x0C' || c == '\r';
        if ws {
            if in_tok {
                toks.push(cur);
                cur = Vec::new();
            }
            in_tok = false;
        } else {
            if !in_tok {
                cur = Vec::new();
                assert(cur@ =~= Seq::<char>::empty());
            }
            cur.push(c);
            in_tok = true;
            proof {
                assert(cur@ =~= ascii_tokens(s@.take(i + 1)).last());
            }
        }
        i = i + 1;
    }
    assert(s@.take(s@.len() as int) =~= s@);
    if in_tok {
        toks.push(cur);
    }
    toks
}

/// Message for a row lacking a field.
pub open spec fn row_shape_msg() -> Seq<char> {
    "git registry index row must use: <version> <file-name> <sha256-hex>"@
}

/// Message for a row with extra fields.
pub open spec fn row_extra_msg() -> Seq<char> {
    "git registry index row has too many fields; expected: <version> <file-name> <sha256-hex>"@
}

/// Whether a file name is a single safe path component.
pub open spec fn is_safe_file_name(f: Seq<char>) -> bool {
    f.len() > 0 && f != "."@ && f != ".."@ && !crate::text::has_char(f, '/')
        && !crate::text::has_char(f, '\\')
}

/// Checks that an index file name is one safe path component.
pub fn safe_artifact_file_name(file_name: &str) -> (r: Result<String, CliError>)
    ensures
        r matches Ok(s) ==> is_safe_file_name(file_name@) && s@ == file_name@,
        r matches Err(e) ==> !is_safe_file_name(file_name@) && e.message@
            == "git registry artifact file name is not a safe path component: "@ + file_name@,
{
    proof {
        reveal_strlit(".");
        reveal_strlit("..");
    }
    let f = chars_of(file_name);
    let dot = f.len() == 1 && f[0] == '.';
    let dotdot = f.len() == 2 && f[0] == '.' && f[1] == '.';
    assert(dot <==> f@ == "."@) by {
        if f@.len() == 1 && f@[0] == '.' {
            assert(f@ =~= "."@);
        }
    }
    assert(dotdot <==> f@ == ".."@) by {
        if f@.len() == 2 && f@[0] == '.' && f@[1] == '.' {
            assert(f@ =~= ".."@);
        }
    }
    if f.len() == 0 || dot || dotdot || crate::text::contains_char(&f, '/')
        || crate::text::contains_char(&f, '\\') {
        return Err(CliError::new(concat2(
            "git registry artifact file name is not a safe path component: ",
            file_name,
        )));
    }
    Ok(owned(file_name))
}

/// Value of an ASCII hexadecimal digit byte.
pub open spec fn hex_digit_value(b: u8) -> Option<u8> {
    if 48 <= b <= 57 {
        Some((b - 48) as u8)
    } else if 97 <= b <= 102 {
        Some((b - 97 + 10) as u8)
    } else if 65 <= b <= 70 {
        Some((b - 65 + 10) as u8)
    } else {
        None
    }
}

/// Decodes one hexadecimal digit byte.
pub fn hex_nibble(byte: u8) -> (r: Result<u8, CliError>)
    ensures
        r matches Ok(v) ==> hex_digit_value(byte) == Some(v),
        r matches Err(e) ==> hex_digit_value(byte) is None && e.message@
            == "git registry artifact sha256 contains non-hex byte 0x"@ + byte_hex_lower(byte),
{
    if 48 <= byte && byte <= 57 {
        Ok(byte - 48)
    } else if 97 <= byte && byte <= 102 {
        Ok(byte - 97 + 10)
    } else if 65 <= byte && byte <= 70 {
        Ok(byte - 65 + 10)
    } else {
        let mut m = owned("git registry artifact sha256 contains non-hex byte 0x");
        push_char(&mut m, crate::text::hex_lower_exec(byte / 16));
        push_char(&mut m, crate::text::hex_lower_exec(byte % 16));
        assert(m@ =~= "git registry artifact sha256 contains non-hex byte 0x"@ + byte_hex_lower(byte));
        Err(CliError::new(m))
    }
}

/// Bytes decoded from pairs of hex digits, or the first offending byte.
pub open spec fn decode_hex_pairs(b: Seq<u8>) -> Result<Seq<u8>, u8>
    decreases b.len(),
{
    if b.len() < 2 {
        Ok(Seq::<u8>::empty())
    } else {
        match hex_digit_value(b[0]) {
            None => Err(b[0]),
            Some(hi) => match hex_digit_value(b[1]) {
                None => Err(b[1]),
                Some(lo) => match decode_hex_pairs(b.skip(2)) {
                    Err(x) => Err(x),
                    Ok(rest) => Ok(seq![(hi * 16 + lo) as u8] + rest),
                },
            },
        }
    }
}

/// Prefixes the bytes of an `Ok` outcome.
pub open spec fn prepend_ok(prefix: Seq<u8>, r: Result<Seq<u8>, u8>) -> Result<Seq<u8>, u8> {
    match r {
        Err(x) => Err(x),
        Ok(rest) => Ok(prefix + rest),
    }
}

proof fn lemma_prepend_ok_assoc(a: Seq<u8>, b: Seq<u8>, r: Result<Seq<u8>, u8>)
    ensures
        prepend_ok(a, prepend_ok(b, r)) == prepend_ok(a + b, r),
{
    match r {
        Err(x) => {},
        Ok(rest) => {
            assert(a + (b + rest) =~= (a + b) + rest);
        },
    }
}

/// What parsing a digest text yields: 32 bytes or the error message.
pub open spec fn parse_sha_spec(hex: Seq<char>) -> Result<Seq<u8>, Seq<char>> {
    let b = encode_utf8(hex);
    if b.len() != 64 {
        Err("git registry artifact sha256 must be 64 hex characters, got "@ + decimal_text(
            b.len(),
        ))
    } else {
        match decode_hex_pairs(b) {
            Ok(v) => Ok(v),
            Err(x) => Err("git registry artifact sha256 contains non-hex byte 0x"@ + byte_hex_lower(
                x,
            )),
        }
    }
}

proof fn lemma_decode_hex_len(b: Seq<u8>)
    requires
        decode_hex_pairs(b) is Ok,
    ensures
        decode_hex_pairs(b)->Ok_0.len() == b.len() / 2,
    decreases b.len(),
{
    if b.len() >= 2 {
        lemma_decode_hex_len(b.skip(2));
    }
}

/// Parses a 64-digit hexadecimal SHA-256 digest.
pub fn parse_sha256_hex(hex: &str) -> (r: Result<Vec<u8>, CliError>)
    ensures
        r matches Ok(v) ==> parse_sha_spec(hex@) == Ok::<Seq<u8>, Seq<char>>(v@) && v@.len() == 32,
        r matches Err(e) ==> parse_sha_spec(hex@) == Err::<Seq<u8>, Seq<char>>(e.message@),
{
    let b = hex.as_bytes();
    assert(b@ == encode_utf8(hex@));
    if b.len() != 64 {
        let m = concat2(
            "git registry artifact sha256 must be 64 hex characters, got ",
            decimal_string(b.len()).as_str(),
        );
        return Err(CliError::new(m));
    }
    let mut out: Vec<u8> = Vec::new();
    let mut i: usize = 0;
    proof {
        assert(b@.skip(0) =~= b@);
        match decode_hex_pairs(b@) {
            Err(x) => {},
            Ok(rest) => {
                assert(Seq::<u8>::empty() + rest =~= rest);
            },
        }
    }
    while i < 32
        invariant
            i <= 32,
            b@.len() == 64,
            b@ == encode_utf8(hex@),
            decode_hex_pairs(b@) == prepend_ok(out@, decode_hex_pairs(b@.skip(2 * i))),
            out@.len() == i,
        decreases 32 - i,
    {
        let hi = b[2 * i];
        let lo = b[2 * i + 1];
        let ghost t = b@.skip(2 * i as int);
        proof {
            assert(t[0] == hi);
            assert(t[1] == lo);
            assert(t.skip(2) =~= b@.skip(2 * i + 2));
        }
        let h = match hex_nibble(hi) {
            Ok(h) => h,
            Err(e) => {
                return Err(e);
            },
        };
        let l = match hex_nibble(lo) {
            Ok(l) => l,
            Err(e) => {
                return Err(e);
            },
        };
        let v: u8 = h * 16 + l;
        let ghost old_out = out@;
        proof {
            assert(decode_hex_pairs(t) == prepend_ok(seq![v], decode_hex_pairs(t.skip(2))));
            lemma_prepend_ok_assoc(out@, seq![v], decode_hex_pairs(t.skip(2)));
        }
        out.push(v);
        proof {
            assert(out@ =~= old_out + seq![v]);
            assert(b@.skip(2 * (i + 1)) =~= t.skip(2));
        }
        i = i + 1;
    }
    proof {
        assert(b@.skip(64) =~= Seq::<u8>::empty());
        assert(out@ + Seq::<u8>::empty() =~= out@);
    }
    Ok(out)
}

/// Hex digit `i` of the text of `b`.
spec fn hex_digit_at(b: Seq<u8>, i: int) -> char {
    if i % 2 == 0 {
        hex_lower((b[i / 2] / 16) as nat)
    } else {
        hex_lower((b[i / 2] % 16) as nat)
    }
}

/// Each byte of a digest shows as two lower-case hex digits.
proof fn lemma_hex_text_index(b: Seq<u8>)
    ensures
        hex_text(b).len() == 2 * b.len(),
        forall|i: int| 0 <= i < 2 * b.len() ==> #[trigger] hex_text(b)[i] == hex_digit_at(b, i),
    decreases b.len(),
{
    if b.len() > 0 {
        let p = b.drop_last();
        lemma_hex_text_index(p);
        assert forall|i: int| 0 <= i < 2 * b.len() implies #[trigger] hex_text(b)[i] == hex_digit_at(
            b,
            i,
        ) by {
            if i < 2 * p.len() {
                assert(hex_text(b)[i] == hex_text(p)[i]);
                assert(p[i / 2] == b[i / 2]);
            } else {
                assert(i / 2 == b.len() - 1);
            }
        }
    }
}

/// A lower-case hex digit decodes to its value.
proof fn lemma_hex_lower_value(d: nat)
    requires
        d < 16,
    ensures
        hex_digit_value(hex_lower(d) as u8) == Some(d as u8),
        '\0' <= hex_lower(d) <= '\u{7f}',
{
}

/// Decoding pairs of hex digits reads each pair as one byte.
proof fn lemma_decode_pairs_index(x: Seq<u8>)
    requires
        x.len() % 2 == 0,
        forall|i: int| 0 <= i < x.len() ==> #[trigger] hex_digit_value(x[i]) is Some,
    ensures
        decode_hex_pairs(x) matches Ok(v) && v.len() == x.len() / 2 && forall|k: int|
            0 <= k < v.len() ==> #[trigger] v[k] == (hex_digit_value(x[2 * k])->0 * 16
                + hex_digit_value(x[2 * k + 1])->0) as u8,
    decreases x.len(),
{
    if x.len() >= 2 {
        let rest = x.skip(2);
        assert forall|i: int| 0 <= i < rest.len() implies #[trigger] hex_digit_value(rest[i]) is Some by {
            assert(rest[i] == x[i + 2]);
        }
        lemma_decode_pairs_index(rest);
        assert(hex_digit_value(x[0]) is Some);
        assert(hex_digit_value(x[1]) is Some);
        let v = decode_hex_pairs(x)->Ok_0;
        let w = decode_hex_pairs(rest)->Ok_0;
        assert forall|k: int| 0 <= k < v.len() implies #[trigger] v[k] == (hex_digit_value(
            x[2 * k],
        )->0 * 16 + hex_digit_value(x[2 * k + 1])->0) as u8 by {
            if k > 0 {
                assert(v[k] == w[k - 1]);
                assert(rest[2 * (k - 1)] == x[2 * k]);
                assert(rest[2 * (k - 1) + 1] == x[2 * k + 1]);
            }
        }
    }
}

/// A digest's hex text parses back to the digest.
pub proof fn law_digest_hex_roundtrip(b: Seq<u8>)
    requires
        b.len() == 32,
    ensures
        parse_sha_spec(hex_text(b)) == Ok::<Seq<u8>, Seq<char>>(b),
{
    let t = hex_text(b);
    lemma_hex_text_index(b);
    assert forall|i: int| 0 <= i < t.len() implies '\0' <= #[trigger] t[i] <= '\u{7f}' by {
        assert(t[i] == hex_digit_at(b, i));
        lemma_hex_lower_value((b[i / 2] / 16) as nat);
        lemma_hex_lower_value((b[i / 2] % 16) as nat);
    }
    assert(vstd::utf8::is_ascii_chars(t));
    vstd::utf8::is_ascii_chars_encode_utf8(t);
    let x = encode_utf8(t);
    assert(x.len() == 64);
    assert forall|i: int| 0 <= i < x.len() implies #[trigger] hex_digit_value(x[i]) is Some by {
        assert(x[i] == t[i] as u8);
        assert(t[i] == hex_digit_at(b, i));
        lemma_hex_lower_value((b[i / 2] / 16) as nat);
        lemma_hex_lower_value((b[i / 2] % 16) as nat);
    }
    lemma_decode_pairs_index(x);
    let v = decode_hex_pairs(x)->Ok_0;
    assert forall|k: int| 0 <= k < 32 implies v[k] == b[k] by {
        assert(x[2 * k] == t[2 * k] as u8);
        assert(x[2 * k + 1] == t[2 * k + 1] as u8);
        assert(t[2 * k] == hex_digit_at(b, 2 * k));
        assert(t[2 * k + 1] == hex_digit_at(b, 2 * k + 1));
        assert((2 * k) / 2 == k && (2 * k) % 2 == 0);
        assert((2 * k + 1) / 2 == k && (2 * k + 1) % 2 == 1);
        lemma_hex_lower_value((b[k] / 16) as nat);
        lemma_hex_lower_value((b[k] % 16) as nat);
        assert(v[k] == (hex_digit_value(x[2 * k])->0 * 16 + hex_digit_value(x[2 * k + 1])->0) as u8);
        assert(b[k] == (b[k] / 16) * 16 + b[k] % 16);
    }
    assert(v =~= b);
}

/// Lower-case hexadecimal text of a digest.
pub fn sha256_hex(bytes: &Vec<u8>) -> (s: String)
    ensures
        s@ == hex_text(bytes@),
{
    hex_string(bytes.as_slice())
}

/// One parsed index row.
#[derive(Clone, Debug, PartialEq, Eq)]
pub struct IndexedArtifact {
    /// Version text.
    pub version: String,
    /// Safe artifact file name.
    pub file_name: String,
    /// Expected SHA-256 digest (32 bytes).
    pub sha256: Vec<u8>,
}

/// Mathematical form of an index row.
pub struct IndexRow {
    pub version: Seq<char>,
    pub file_name: Seq<char>,
    pub sha256: Seq<u8>,
}

impl IndexedArtifact {
    pub open spec fn view(&self) -> IndexRow {
        IndexRow { version: self.version@, file_name: self.file_name@, sha256: self.sha256@ }
    }

    /// A copy of this row.
    pub fn clone_row(&self) -> (r: Self)
        ensures
            r.view() == self.view(),
    {
        IndexedArtifact {
            version: self.version.clone(),
            file_name: self.file_name.clone(),
            sha256: copy_bytes(&self.sha256),
        }
    }
}

/// A copy of a byte vector.
pub fn copy_bytes(v: &Vec<u8>) -> (r: Vec<u8>)
    ensures
        r@ == v@,
{
    let mut r: Vec<u8> = Vec::new();
    let mut i: usize = 0;
    while i < v.len()
        invariant
            i <= v@.len(),
            r@ == v@.take(i as int),
        decreases v@.len() - i,
    {
        r.push(v[i]);
        i = i + 1;
        assert(r@ =~= v@.take(i as int));
    }
    assert(v@.take(v@.len() as int) =~= v@);
    r
}

/// What one index line yields: nothing (blank or comment), a row, or the
/// error message.
pub open spec fn index_row_spec(line: Seq<char>) -> Result<Option<IndexRow>, Seq<char>> {
    let t = trim_spec(line);
    if t.len() == 0 || t[0] == '#' {
        Ok(None)
    } else {
        let toks = ascii_tokens(t);
        if toks.len() == 0 {
            Ok(None)
        } else if toks.len() < 3 {
            Err(row_shape_msg())
        } else if toks.len() > 3 {
            Err(row_extra_msg())
        } else if !is_safe_file_name(toks[1]) {
            Err("git registry artifact file name is not a safe path component: "@ + toks[1])
        } else {
            match parse_sha_spec(toks[2]) {
                Err(e) => Err(e),
                Ok(d) => Ok(Some(IndexRow { version: toks[0], file_name: toks[1], sha256: d })),
            }
        }
    }
}

/// Parses one `<version> <file-name> <sha256-hex>` index row; blank lines
/// and `#` comments yield `None`.
pub fn index_artifact(line: &str) -> (r: Result<Option<IndexedArtifact>, CliError>)
    ensures
        r matches Ok(None) ==> index_row_spec(line@) == Ok::<Option<IndexRow>, Seq<char>>(None),
        r matches Ok(Some(a)) ==> index_row_spec(line@) == Ok::<Option<IndexRow>, Seq<char>>(
            Some(a.view()),
        ) && a.sha256@.len() == 32,
        r matches Err(e) ==> index_row_spec(line@) == Err::<Option<IndexRow>, Seq<char>>(e.message@),
{
    let chars = chars_of(line);
    let t = trim_chars(&chars);
    if t.len() == 0 || t[0] == '#' {
        return Ok(None);
    }
    let toks = ascii_tokens_exec(&t);
    if toks.len() == 0 {
        return Ok(None);
    }
    if toks.len() < 3 {
        return Err(CliError::msg("git registry index row must use: <version> <file-name> <sha256-hex>"));
    }
    if toks.len() > 3 {
        return Err(CliError::msg(
            "git registry index row has too many fields; expected: <version> <file-name> <sha256-hex>",
        ));
    }
    let version = string_of(&toks[0]);
    let file_text = string_of(&toks[1]);
    let sha_text = string_of(&toks[2]);
    let file_name = safe_artifact_file_name(file_text.as_str())?;
    let sha256 = parse_sha256_hex(sha_text.as_str())?;
    Ok(Some(IndexedArtifact { version, file_name, sha256 }))
}

/// Mathematical form of a list of rows.
pub open spec fn rows_view(v: Seq<IndexedArtifact>) -> Seq<IndexRow> {
    v.map_values(|a: IndexedArtifact| a.view())
}

/// The lines of a text as `str::lines` yields them, before any `\r` is
/// dropped (every index row is trimmed, so a trailing `\r` does not matter).
pub open spec fn text_lines(s: Seq<char>) -> Seq<Seq<char>> {
    let parts = split_seq(s, '\n');
    if parts.last().len() == 0 {
        parts.drop_last()
    } else {
        parts
    }
}

/// Rows of an index, or the message of its first malformed line.
pub open spec fn index_rows(lines: Seq<Seq<char>>) -> Result<Seq<IndexRow>, Seq<char>>
    decreases lines.len(),
{
    if lines.len() == 0 {
        Ok(Seq::<IndexRow>::empty())
    } else {
        match index_rows(lines.drop_last()) {
            Err(e) => Err(e),
            Ok(rows) => match index_row_spec(lines.last()) {
                Err(e) => Err(e),
                Ok(None) => Ok(rows),
                Ok(Some(row)) => Ok(rows.push(row)),
            },
        }
    }
}

/// Versions of a list of rows.
pub open spec fn row_versions(rows: Seq<IndexRow>) -> Seq<Seq<char>> {
    rows.map_values(|r: IndexRow| r.version)
}

/// Which rows satisfy a requirement.
pub open spec fn row_flags(rows: Seq<IndexRow>, req: VersionReq) -> Seq<bool> {
    rows.map_values(|r: IndexRow| req.matches_spec(r.version))
}

/// Message when no row satisfies the requirement.
pub open spec fn no_version_msg(spec: CratesIoSpec) -> Seq<char> {
    "git registry has no version matching "@ + spec.requirement.view().raw + " for "@ + spec.package@
}

proof fn lemma_index_rows_err_sticks(lines: Seq<Seq<char>>, k: int, e: Seq<char>)
    requires
        0 <= k <= lines.len(),
        index_rows(lines.take(k)) == Err::<Seq<IndexRow>, Seq<char>>(e),
    ensures
        index_rows(lines.take(lines.len() as int)) == Err::<Seq<IndexRow>, Seq<char>>(e),
    decreases lines.len() - k,
{
    if k < lines.len() {
        assert(lines.take(k + 1).drop_last() =~= lines.take(k));
        lemma_index_rows_err_sticks(lines, k + 1, e);
    }
}

/// Parses all rows of an index text.
pub fn parse_index(index: &str) -> (r: Result<Vec<IndexedArtifact>, CliError>)
    ensures
        r matches Ok(rows) ==> index_rows(text_lines(index@)) == Ok::<Seq<IndexRow>, Seq<char>>(
            rows_view(rows@),
        ),
        r matches Ok(rows) ==> forall|k: int| 0 <= k < rows@.len() ==> #[trigger] rows@[k].sha256@.len() == 32,
        r matches Err(e) ==> index_rows(text_lines(index@)) == Err::<Seq<IndexRow>, Seq<char>>(
            e.message@,
        ),
{
    let chars = chars_of(index);
    let parts = split_chars(&chars, '\n');
    proof {
        crate::text::lemma_split_nonempty(chars@, '\n');
    }
    let n = if parts[parts.len() - 1].len() == 0 { parts.len() - 1 } else { parts.len() };
    let ghost lines = text_lines(index@);
    assert(lines.len() == n);
    assert forall|k: int| 0 <= k < n implies #[trigger] lines[k] == parts@[k]@ by {}
    let mut rows: Vec<IndexedArtifact> = Vec::new();
    let mut k: usize = 0;
    proof {
        assert(lines.take(0) =~= Seq::<Seq<char>>::empty());
        assert(rows_view(rows@) =~= Seq::<IndexRow>::empty());
    }
    while k < n
        invariant
            k <= n,
            n <= parts@.len(),
            lines.len() == n,
            lines == text_lines(index@),
            forall|m: int| 0 <= m < n ==> #[trigger] lines[m] == parts@[m]@,
            index_rows(lines.take(k as int)) == Ok::<Seq<IndexRow>, Seq<char>>(
                rows_view(rows@),
            ),
            forall|m: int| 0 <= m < rows@.len() ==> #[trigger] rows@[m].sha256@.len() == 32,
        decreases n - k,
    {
        let line = string_of(&parts[k]);
        let row = index_artifact(line.as_str());
        proof {
            assert(lines.take(k + 1).drop_last() =~= lines.take(k as int));
            assert(lines.take(k + 1).last() == line@);
        }
        let ghost prev = rows_view(rows@);
        proof {
            assert(index_rows(lines.take(k + 1)) == match index_row_spec(line@) {
                Err(e) => Err(e),
                Ok(None) => Ok(prev),
                Ok(Some(row)) => Ok(prev.push(row)),
            });
        }
        match row {
            Err(e) => {
                proof {
                    assert(index_row_spec(line@) == Err::<Option<IndexRow>, Seq<char>>(e.message@));
                    assert(index_rows(lines.take(k + 1)) == Err::<Seq<IndexRow>, Seq<char>>(e.message@));
                    lemma_index_rows_err_sticks(lines, k as int + 1, e.message@);
                    assert(lines.take(n as int) =~= lines);
                    assert(index_rows(lines) == Err::<Seq<IndexRow>, Seq<char>>(e.message@));
                }
                return Err(e);
            },
            Ok(None) => {},
            Ok(Some(a)) => {
                let ghost av = a.view();
                let ghost old_rows = rows@;
                rows.push(a);
                proof {
                    assert(rows@ == old_rows.push(rows@.last()));
                    assert(rows_view(rows@) =~= prev.push(av));
                }
            },
        }
        k = k + 1;
    }
    assert(lines.take(n as int) =~= lines);
    Ok(rows)
}

/// What selecting a version from an index yields: the newest matching row
/// (first in index order among equals), or the error message.
pub open spec fn select_spec(index: Seq<char>, want: CratesIoSpec, row: IndexRow) -> bool {
    match index_rows(text_lines(index)) {
        Ok(rows) => exists|i: int|
            #[trigger] is_best_pick(row_versions(rows), row_flags(rows, want.requirement), i)
                && rows[i] == row,
        Err(_) => false,
    }
}

/// Selects the newest index row matching a spec's requirement.
pub fn select_version(spec: &CratesIoSpec, index: &str) -> (r: Result<IndexedArtifact, CliError>)
    ensures
        r matches Ok(a) ==> select_spec(index@, *spec, a.view()) && a.sha256@.len() == 32,
        r matches Err(e) ==> match index_rows(text_lines(index@)) {
            Err(m) => e.message@ == m,
            Ok(rows) => !any_ok(row_flags(rows, spec.requirement)) && e.message@ == no_version_msg(
                *spec,
            ),
        },
{
    let rows = parse_index(index)?;
    let ghost rs = rows_view(rows@);
    let mut versions: Vec<String> = Vec::new();
    let mut flags: Vec<bool> = Vec::new();
    let mut k: usize = 0;
    while k < rows.len()
        invariant
            k <= rows@.len(),
            rs == rows_view(rows@),
            versions@.len() == k,
            flags@.len() == k,
            forall|m: int| 0 <= m < k ==> #[trigger] versions@[m]@ == rows@[m].version@,
            forall|m: int|
                0 <= m < k ==> #[trigger] flags@[m] == spec.requirement.matches_spec(rows@[m].version@),
        decreases rows@.len() - k,
    {
        versions.push(rows[k].version.clone());
        flags.push(spec.requirement.matches(rows[k].version.as_str()));
        k = k + 1;
    }
    assert(strings_view(versions@) =~= row_versions(rs));
    assert(flags@ =~= row_flags(rs, spec.requirement));
    match pick_best(&versions, &flags) {
        Some(i) => {
            let a = rows[i].clone_row();
            proof {
                assert(rs[i as int] == a.view());
                assert(is_best_pick(row_versions(rs), row_flags(rs, spec.requirement), i as int));
                assert(rows@[i as int].sha256@.len() == 32);
                assert(index_rows(text_lines(index@)) == Ok::<Seq<IndexRow>, Seq<char>>(rs));
                let ii = i as int;
                assert(is_best_pick(row_versions(rs), row_flags(rs, spec.requirement), ii) && rs[ii] == a.view());
                assert(exists|j: int| #[trigger] is_best_pick(row_versions(rs), row_flags(rs, spec.requirement), j) && rs[j] == a.view());
                assert(select_spec(index@, *spec, a.view())) by {
                    let rows2 = index_rows(text_lines(index@))->Ok_0;
                    assert(rows2 == rs);
                }
            }
            Ok(a)
        },
        None => {
            let mut m = owned("git registry has no version matching ");
            m.append(spec.requirement.as_str());
            m.append(" for ");
            m.append(spec.package.as_str());
            Err(CliError::new(m))
        },
    }
}

// ---------------------------------------------------------------------------
// Endpoint policy
// ---------------------------------------------------------------------------

/// What `sim_lib_net_http::Url::parse` yields for a URL text: the host on
/// success, the error's display text on failure.
pub uninterp spec fn parsed_url_host(url: Seq<char>) -> Result<Seq<char>, Seq<char>>;

/// Mathematical form of a text result.
pub open spec fn text_result(r: Result<String, String>) -> Result<Seq<char>, Seq<char>> {
    match r {
        Ok(h) => Ok(h@),
        Err(m) => Err(m@),
    }
}

/// Parses an absolute HTTP URL with `sim_lib_net_http::Url::parse` and hands
/// back its host, or the error's display text.
#[verifier::external_body]
fn url_host(url: &str) -> (r: Result<String, String>)
    ensures
        text_result(r) == parsed_url_host(url@),
{
    match sim_lib_net_http::Url::parse(url) {
        Ok(parsed) => Ok(parsed.host().to_owned()),
        Err(error) => Err(format!("{error}")),
    }
}

/// The endpoint text after trimming whitespace and trailing slashes.
pub open spec fn trimmed_endpoint(endpoint: Seq<char>) -> Seq<char> {
    trim_end_char_spec(trim_spec(endpoint), '/')
}

/// Message refusing a remote cleartext host.
pub open spec fn remote_host_msg(host: Seq<char>) -> Seq<char> {
    "git registry endpoint host "@ + host
        + " is not loopback; refusing an unauthenticated http:// fetch to a remote host (set "@
        + GIT_REGISTRY_ALLOW_INSECURE_ENV@ + " to override)"@
}

/// What admitting a trimmed `http://` endpoint yields, given what parsing it
/// gave: the endpoint, or the error message.
pub open spec fn admit_spec(
    endpoint: Seq<char>,
    parsed: Result<Seq<char>, Seq<char>>,
    allow_insecure_remote: bool,
) -> Result<Seq<char>, Seq<char>> {
    match parsed {
        Err(m) => Err("git registry URL: "@ + m),
        Ok(host) => if !is_loopback_host(host) && !allow_insecure_remote {
            Err(remote_host_msg(host))
        } else {
            Ok(endpoint)
        },
    }
}

/// What normalizing an endpoint yields: the trimmed endpoint, or the error
/// message.
pub open spec fn endpoint_spec(endpoint: Seq<char>, allow_insecure_remote: bool) -> Result<
    Seq<char>,
    Seq<char>,
> {
    let e = trimmed_endpoint(endpoint);
    if e.len() == 0 {
        Err("git registry endpoint is empty"@)
    } else if !has_prefix(e, "http://"@) {
        Err("git registry endpoint must use http:// in this build"@)
    } else {
        admit_spec(e, parsed_url_host(e), allow_insecure_remote)
    }
}

/// Admits an endpoint given the outcome of parsing it: a parse failure is
/// reported, and a host that is not loopback is refused unless cleartext
/// fetches to remote hosts are allowed.
pub fn admit_endpoint(
    endpoint: String,
    parsed: Result<String, String>,
    allow_insecure_remote: bool,
) -> (r: Result<String, CliError>)
    ensures
        match admit_spec(endpoint@, text_result(parsed), allow_insecure_remote) {
            Ok(e) => r matches Ok(s) && s@ == e,
            Err(m) => r matches Err(x) && x.message@ == m,
        },
{
    match parsed {
        Err(m) => Err(CliError::new(concat2("git registry URL: ", m.as_str()))),
        Ok(host) => {
            if !crate::loopback::host_is_loopback(host.as_str()) && !allow_insecure_remote {
                let mut m = concat2("git registry endpoint host ", host.as_str());
                m.append(
                    " is not loopback; refusing an unauthenticated http:// fetch to a remote host (set ",
                );
                m.append(GIT_REGISTRY_ALLOW_INSECURE_ENV);
                m.append(" to override)");
                Err(CliError::new(m))
            } else {
                Ok(endpoint)
            }
        },
    }
}

/// Trims an endpoint, requires `http://`, and confines cleartext fetches to
/// loopback hosts unless `allow_insecure_remote` is set.
pub fn normalize_endpoint(endpoint: &str, allow_insecure_remote: bool) -> (r: Result<
    String,
    CliError,
>)
    ensures
        match endpoint_spec(endpoint@, allow_insecure_remote) {
            Ok(e) => r matches Ok(s) && s@ == e,
            Err(m) => r matches Err(x) && x.message@ == m,
        },
{
    proof {
        reveal_strlit("http://");
    }
    let chars = chars_of(endpoint);
    let t = trim_chars(&chars);
    let e = trim_end_char(&t, '/');
    if e.len() == 0 {
        return Err(CliError::msg("git registry endpoint is empty"));
    }
    let prefix = chars_of("http://");
    if !starts_with_chars(&e, &prefix) {
        return Err(CliError::msg("git registry endpoint must use http:// in this build"));
    }
    let text = string_of(&e);
    let parsed = url_host(text.as_str());
    admit_endpoint(text, parsed, allow_insecure_remote)
}

// ---------------------------------------------------------------------------
// URLs and cache paths
// ---------------------------------------------------------------------------

/// Bytes kept as they are in a URL path component.
pub open spec fn is_unreserved(b: u8) -> bool {
    (65 <= b <= 90) || (97 <= b <= 122) || (48 <= b <= 57) || b == 45 || b == 95 || b == 46
}

/// One byte of a URL path component: itself, or `%XX` in upper-case hex.
pub open spec fn byte_escape(b: u8) -> Seq<char> {
    if is_unreserved(b) {
        seq![b as char]
    } else {
        seq!['%', hex_upper((b / 16) as nat), hex_upper((b % 16) as nat)]
    }
}

/// Percent-encoding of a byte sequence.
pub open spec fn percent_encode(b: Seq<u8>) -> Seq<char>
    decreases b.len(),
{
    if b.len() == 0 {
        Seq::<char>::empty()
    } else {
        percent_encode(b.drop_last()) + byte_escape(b.last())
    }
}

/// Percent-encodes one URL path component; an empty one is refused.
pub fn url_path_component(component: &str) -> (r: Result<String, CliError>)
    ensures
        component@.len() == 0 ==> (r matches Err(e) && e.message@
            == "git registry URL component is empty"@),
        component@.len() > 0 ==> (r matches Ok(s) && s@ == percent_encode(encode_utf8(component@))),
{
    let b = component.as_bytes();
    assert(b@ == encode_utf8(component@));
    if component.is_empty() {
        return Err(CliError::msg("git registry URL component is empty"));
    }
    let mut out = String::new();
    let mut i: usize = 0;
    while i < b.len()
        invariant
            i <= b@.len(),
            out@ == percent_encode(b@.take(i as int)),
        decreases b@.len() - i,
    {
        let x = b[i];
        if (65 <= x && x <= 90) || (97 <= x && x <= 122) || (48 <= x && x <= 57) || x == 45 || x == 95
            || x == 46 {
            push_char(&mut out, x as char);
        } else {
            push_char(&mut out, '%');
            push_char(&mut out, hex_upper_exec(x / 16));
            push_char(&mut out, hex_upper_exec(x % 16));
        }
        proof {
            assert(b@.take(i + 1).drop_last() =~= b@.take(i as int));
            assert(out@ =~= percent_encode(b@.take(i + 1)));
        }
        i = i + 1;
    }
    assert(b@.take(b@.len() as int) =~= b@);
    Ok(out)
}

/// An endpoint accepted without the cleartext override is `http://` text
/// whose host names the local machine.
pub proof fn law_cleartext_confined_to_loopback(endpoint: Seq<char>)
    ensures
        endpoint_spec(endpoint, false) matches Ok(e) ==> {
            &&& e == trimmed_endpoint(endpoint)
            &&& has_prefix(e, "http://"@)
            &&& parsed_url_host(e) matches Ok(h)
            &&& is_loopback_host(h)
        },
{
}

/// A percent-encoded component holds only unreserved ASCII and `%`
/// escapes, so it never adds a path separator to a URL.
pub proof fn law_percent_encoding_stays_one_segment(b: Seq<u8>)
    ensures
        forall|i: int| 0 <= i < percent_encode(b).len() ==> {
            let c = #[trigger] percent_encode(b)[i];
            &&& c != '/'
            &&& c != '?'
            &&& c != '#'
            &&& (c == '%' || ('0' <= c <= '9') || ('A' <= c <= 'Z') || ('a' <= c <= 'z') || c == '-'
                || c == '_' || c == '.')
        },
    decreases b.len(),
{
    if b.len() > 0 {
        law_percent_encoding_stays_one_segment(b.drop_last());
        let p = percent_encode(b.drop_last());
        let e = byte_escape(b.last());
        assert forall|i: int| 0 <= i < percent_encode(b).len() implies {
            let c = #[trigger] percent_encode(b)[i];
            &&& c != '/'
            &&& c != '?'
            &&& c != '#'
            &&& (c == '%' || ('0' <= c <= '9') || ('A' <= c <= 'Z') || ('a' <= c <= 'z') || c == '-'
                || c == '_' || c == '.')
        } by {
            if i < p.len() {
                assert(percent_encode(b)[i] == p[i]);
            } else {
                assert(percent_encode(b)[i] == e[i - p.len()]);
            }
        }
    }
}

/// `sha256-<hex>-<file-name>`.
pub open spec fn content_addressed_spec(file_name: Seq<char>, sha256: Seq<u8>) -> Seq<char> {
    "sha256-"@ + hex_text(sha256) + "-"@ + file_name
}

/// Cache file name that carries the artifact's digest.
pub fn content_addressed_file_name(file_name: &str, sha256: &Vec<u8>) -> (r: String)
    ensures
        r@ == content_addressed_spec(file_name@, sha256@),
{
    let mut r = owned("sha256-");
    r.append(sha256_hex(sha256).as_str());
    r.append("-");
    r.append(file_name);
    r
}

/// Cache path of a verified artifact.
pub open spec fn verified_path_spec(cache_dir: Seq<char>, package: Seq<char>, row: IndexRow) -> Seq<
    char,
> {
    cache_path_spec(
        cache_dir,
        package,
        row.version,
        content_addressed_spec(row.file_name, row.sha256),
    )
}

/// Cache path of a verified artifact: under the package and version, named
/// by its digest and file name.
pub fn verified_cache_artifact_path(cache_dir: &str, package: &str, selected: &IndexedArtifact) -> (r:
    String)
    ensures
        r@ == verified_path_spec(cache_dir@, package@, selected.view()),
{
    let name = content_addressed_file_name(selected.file_name.as_str(), &selected.sha256);
    cache_artifact_path_with_file(cache_dir, package, selected.version.as_str(), name.as_str())
}

// ---------------------------------------------------------------------------
// Artifact verification
// ---------------------------------------------------------------------------

/// The SHA-256 digest that `sha2::Sha256::digest` computes of a byte string.
pub uninterp spec fn sha256_digest(bytes: Seq<u8>) -> Seq<u8>;

/// Computes a SHA-256 digest with `sha2::Sha256::digest`; the digest has 32
/// bytes.
#[verifier::external_body]
fn sha256(input: &[u8]) -> (r: Vec<u8>)
    ensures
        r@ == sha256_digest(input@),
        r@.len() == 32,
{
    sha2::Sha256::digest(input).to_vec()
}

/// Message for a digest mismatch.
pub open spec fn mismatch_msg(package: Seq<char>, row: IndexRow, got: Seq<u8>) -> Seq<char> {
    "git registry artifact "@ + package + "@"@ + row.version + " hash mismatch (expected "@
        + hex_text(row.sha256) + ", got "@ + hex_text(got) + ")"@
}

/// Checks a computed digest against the index row.
pub fn check_artifact_digest(got: &Vec<u8>, spec: &CratesIoSpec, selected: &IndexedArtifact) -> (r:
    Result<(), CliError>)
    ensures
        got@ == selected.sha256@ ==> r is Ok,
        got@ != selected.sha256@ ==> (r matches Err(e) && e.message@ == mismatch_msg(
            spec.package@,
            selected.view(),
            got@,
        )),
{
    let mut same = got.len() == selected.sha256.len();
    let mut i: usize = 0;
    if same {
        assert(got@.take(0) =~= selected.sha256@.take(0));
        while i < got.len()
            invariant
                got@.len() == selected.sha256@.len(),
                i <= got@.len(),
                same == (got@.take(i as int) == selected.sha256@.take(i as int)),
            decreases got@.len() - i,
        {
            proof {
                if got@.take(i as int) == selected.sha256@.take(i as int) {
                    if got@[i as int] == selected.sha256@[i as int] {
                        assert(got@.take(i + 1) =~= got@.take(i as int).push(got@[i as int]));
                        assert(selected.sha256@.take(i + 1) =~= selected.sha256@.take(i as int).push(
                            selected.sha256@[i as int],
                        ));
                    } else {
                        assert(got@.take(i + 1)[i as int] != selected.sha256@.take(i + 1)[i as int]);
                    }
                } else {
                    assert(got@.take(i + 1).take(i as int) =~= got@.take(i as int));
                    assert(selected.sha256@.take(i + 1).take(i as int) =~= selected.sha256@.take(
                        i as int,
                    ));
                }
            }
            if got[i] != selected.sha256[i] {
                same = false;
            }
            i = i + 1;
        }
        assert(got@.take(got@.len() as int) =~= got@);
        assert(selected.sha256@.take(got@.len() as int) =~= selected.sha256@);
    }
    if same {
        Ok(())
    } else {
        let mut m = concat2("git registry artifact ", spec.package.as_str());
        m.append("@");
        m.append(selected.version.as_str());
        m.append(" hash mismatch (expected ");
        m.append(sha256_hex(&selected.sha256).as_str());
        m.append(", got ");
        m.append(sha256_hex(got).as_str());
        m.append(")");
        Err(CliError::new(m))
    }
}

/// Verifies artifact bytes against the digest of their index row.
pub fn verify_artifact_bytes(bytes: &[u8], spec: &CratesIoSpec, selected: &IndexedArtifact) -> (r:
    Result<(), CliError>)
    ensures
        sha256_digest(bytes@) == selected.sha256@ ==> r is Ok,
        sha256_digest(bytes@) != selected.sha256@ ==> (r matches Err(e) && e.message@
            == mismatch_msg(spec.package@, selected.view(), sha256_digest(bytes@))),
{
    let got = sha256(bytes);
    check_artifact_digest(&got, spec, selected)
}

/// Checks the size of a cached artifact before it is read.
pub fn check_cached_size(artifact: &str, len: u64) -> (r: Result<(), CliError>)
    ensures
        len <= MAX_ARTIFACT_BYTES ==> r is Ok,
        len > MAX_ARTIFACT_BYTES ==> (r matches Err(e) && e.message@
            == "cached git registry artifact "@ + artifact@ + " exceeds "@ + decimal_text(
            MAX_ARTIFACT_BYTES as nat,
        ) + " bytes"@),
{
    if len > MAX_ARTIFACT_BYTES as u64 {
        let mut m = concat2("cached git registry artifact ", artifact);
        m.append(" exceeds ");
        m.append(decimal_string(MAX_ARTIFACT_BYTES).as_str());
        m.append(" bytes");
        Err(CliError::new(m))
    } else {
        Ok(())
    }
}

// ---------------------------------------------------------------------------
// The resolver
// ---------------------------------------------------------------------------

/// Networked resolver for SIM library artifacts hosted by a git-forge package
/// registry: it reads `packages/<package>/index.txt` from an explicit
/// `http://` endpoint, selects the newest matching version, and verifies the
/// fetched artifact against the row's SHA-256 digest before caching it under
/// a digest-named file.
#[derive(Clone, Debug, PartialEq, Eq)]
pub struct GitRegistryResolver {
    endpoint: String,
    cache_dir: String,
}

impl GitRegistryResolver {
    /// The endpoint this resolver fetches from.
    pub closed spec fn endpoint_view(&self) -> Seq<char> {
        self.endpoint@
    }

    /// The cache root this resolver writes into.
    pub closed spec fn cache_dir_view(&self) -> Seq<char> {
        self.cache_dir@
    }

    /// Builds a resolver that fetches only from loopback hosts.
    pub fn new(endpoint: &str, cache_dir: String) -> (r: Result<Self, CliError>)
        ensures
            match endpoint_spec(endpoint@, false) {
                Ok(e) => r matches Ok(g) && g.endpoint_view() == e && g.cache_dir_view() == cache_dir@,
                Err(m) => r matches Err(x) && x.message@ == m,
            },
    {
        Self::with_policy(endpoint, cache_dir, false)
    }

    /// Builds a resolver with an explicit cleartext-remote policy.
    pub fn with_policy(endpoint: &str, cache_dir: String, allow_insecure_remote: bool) -> (r: Result<
        Self,
        CliError,
    >)
        ensures
            match endpoint_spec(endpoint@, allow_insecure_remote) {
                Ok(e) => r matches Ok(g) && g.endpoint_view() == e && g.cache_dir_view() == cache_dir@,
                Err(m) => r matches Err(x) && x.message@ == m,
            },
    {
        let endpoint = normalize_endpoint(endpoint, allow_insecure_remote)?;
        Ok(GitRegistryResolver { endpoint, cache_dir })
    }

    /// Returns the endpoint this resolver fetches from.
    pub fn endpoint(&self) -> (r: &str)
        ensures
            r@ == self.endpoint_view(),
    {
        self.endpoint.as_str()
    }

    /// Returns the cache root this resolver writes into.
    pub fn cache_dir(&self) -> (r: &str)
        ensures
            r@ == self.cache_dir_view(),
    {
        self.cache_dir.as_str()
    }

    /// A copy of this resolver.
    pub fn copy(&self) -> (r: Self)
        ensures
            r.endpoint_view() == self.endpoint_view(),
            r.cache_dir_view() == self.cache_dir_view(),
    {
        GitRegistryResolver { endpoint: self.endpoint.clone(), cache_dir: self.cache_dir.clone() }
    }

    /// `ENDPOINT/packages/<package>/index.txt`.
    pub open spec fn index_url_spec(&self, package: Seq<char>) -> Seq<char> {
        self.endpoint_view() + "/packages/"@ + percent_encode(encode_utf8(package)) + "/index.txt"@
    }

    /// URL of a package's version index.
    pub fn index_url(&self, package: &str) -> (r: Result<String, CliError>)
        ensures
            package@.len() == 0 ==> (r matches Err(e) && e.message@
                == "git registry URL component is empty"@),
            package@.len() > 0 ==> (r matches Ok(u) && u@ == self.index_url_spec(package@)),
    {
        let p = url_path_component(package)?;
        let mut u = concat2(self.endpoint.as_str(), "/packages/");
        u.append(p.as_str());
        u.append("/index.txt");
        Ok(u)
    }

    /// `ENDPOINT/packages/<package>/<version>/<file-name>`.
    pub open spec fn artifact_url_spec(
        &self,
        package: Seq<char>,
        version: Seq<char>,
        file_name: Seq<char>,
    ) -> Seq<char> {
        self.endpoint_view() + "/packages/"@ + percent_encode(encode_utf8(package)) + "/"@
            + percent_encode(encode_utf8(version)) + "/"@ + percent_encode(encode_utf8(file_name))
    }

    /// URL of one artifact file.
    pub fn artifact_url(&self, package: &str, version: &str, file_name: &str) -> (r: Result<
        String,
        CliError,
    >)
        ensures
            package@.len() > 0 && version@.len() > 0 && file_name@.len() > 0 ==> (r matches Ok(u)
                && u@ == self.artifact_url_spec(package@, version@, file_name@)),
            package@.len() == 0 || version@.len() == 0 || file_name@.len() == 0 ==> (r matches Err(
                e,
            ) && e.message@ == "git registry URL component is empty"@),
    {
        let p = url_path_component(package)?;
        let v = url_path_component(version)?;
        let f = url_path_component(file_name)?;
        let mut u = concat2(self.endpoint.as_str(), "/packages/");
        u.append(p.as_str());
        u.append("/");
        u.append(v.as_str());
        u.append("/");
        u.append(f.as_str());
        Ok(u)
    }

    /// Selects the newest row of a fetched index text that matches the spec.
    pub fn select_version(&self, spec: &CratesIoSpec, index: &str) -> (r: Result<
        IndexedArtifact,
        CliError,
    >)
        ensures
            r matches Ok(a) ==> select_spec(index@, *spec, a.view()) && a.sha256@.len() == 32,
            r matches Err(e) ==> match index_rows(text_lines(index@)) {
                Err(m) => e.message@ == m,
                Ok(rows) => !any_ok(row_flags(rows, spec.requirement)) && e.message@
                    == no_version_msg(*spec),
            },
    {
        select_version(spec, index)
    }

    /// Where the verified artifact of a selected row is cached.
    pub fn artifact_path(&self, spec: &CratesIoSpec, selected: &IndexedArtifact) -> (r: String)
        ensures
            r@ == verified_path_spec(self.cache_dir_view(), spec.package@, selected.view()),
    {
        verified_cache_artifact_path(self.cache_dir.as_str(), spec.package.as_str(), selected)
    }

    /// The resolved source once the artifact at `artifact` is verified.
    pub fn resolved(&self, spec: &CratesIoSpec, selected: &IndexedArtifact) -> (r:
        ResolvedCratesIoSource)
        ensures
            r.requested.view() == spec.view(),
            r.package@ == spec.package@,
            r.version@ == selected.version@,
            r.artifact@ == verified_path_spec(self.cache_dir_view(), spec.package@, selected.view()),
    {
        ResolvedCratesIoSource {
            requested: spec.copy(),
            package: spec.package.clone(),
            version: selected.version.clone(),
            artifact: self.artifact_path(spec, selected),
        }
    }
}

} // verus!
