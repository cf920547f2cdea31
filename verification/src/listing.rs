//! Offline crates.io artifact listings: their order (package name, newest
//! version first, artifact path, source) and their rendering.
use vstd::prelude::*;
use vstd::string::*;

use crate::version::{flip, VersionOrder};

verus! {

broadcast use vstd::string::group_string_axioms;

// ---------------------------------------------------------------------------
// Text order
// ---------------------------------------------------------------------------

/// Lexicographic order of two texts by character value, from position `i`
/// on; a proper prefix comes first.
pub open spec fn text_order_from(a: Seq<char>, b: Seq<char>, i: int) -> VersionOrder
    decreases a.len() - i,
{
    if i >= a.len() {
        if i >= b.len() {
            VersionOrder::Equal
        } else {
            VersionOrder::Less
        }
    } else if i >= b.len() {
        VersionOrder::Greater
    } else if a[i] < b[i] {
        VersionOrder::Less
    } else if a[i] > b[i] {
        VersionOrder::Greater
    } else {
        text_order_from(a, b, i + 1)
    }
}

/// Lexicographic order of two texts, the order of `str`'s comparison.
pub open spec fn text_order(a: Seq<char>, b: Seq<char>) -> VersionOrder {
    text_order_from(a, b, 0)
}

proof fn lemma_text_order_flip(a: Seq<char>, b: Seq<char>, i: int)
    requires
        0 <= i,
        i <= a.len(),
        i <= b.len(),
        a.take(i) == b.take(i),
    ensures
        text_order_from(b, a, i) == flip(text_order_from(a, b, i)),
        text_order_from(a, b, i) == VersionOrder::Equal ==> a == b,
    decreases a.len() - i,
{
    if i >= a.len() && i >= b.len() {
        assert(a =~= a.take(i));
        assert(b =~= b.take(i));
    } else if i < a.len() && i < b.len() && a[i] == b[i] {
        assert(a.take(i + 1) =~= a.take(i).push(a[i]));
        assert(b.take(i + 1) =~= b.take(i).push(b[i]));
        lemma_text_order_flip(a, b, i + 1);
    }
}

proof fn lemma_text_order_trans(a: Seq<char>, b: Seq<char>, c: Seq<char>, i: int)
    requires
        0 <= i,
        i <= a.len(),
        i <= b.len(),
        i <= c.len(),
        a.take(i) == b.take(i),
        b.take(i) == c.take(i),
        text_order_from(a, b, i) != VersionOrder::Greater,
        text_order_from(b, c, i) != VersionOrder::Greater,
    ensures
        text_order_from(a, c, i) != VersionOrder::Greater,
        (text_order_from(a, b, i) == VersionOrder::Less || text_order_from(b, c, i)
            == VersionOrder::Less) ==> text_order_from(a, c, i) == VersionOrder::Less,
    decreases a.len() - i,
{
    if i < a.len() && i < b.len() && i < c.len() && a[i] == b[i] && b[i] == c[i] {
        assert(a.take(i + 1) =~= a.take(i).push(a[i]));
        assert(b.take(i + 1) =~= b.take(i).push(b[i]));
        assert(c.take(i + 1) =~= c.take(i).push(c[i]));
        lemma_text_order_trans(a, b, c, i + 1);
    }
}

/// Text order is a total order: swapping flips it, only equal texts are
/// equal, and it is transitive, strictly when either step is strict.
pub proof fn law_text_order(a: Seq<char>, b: Seq<char>, c: Seq<char>)
    ensures
        text_order(b, a) == flip(text_order(a, b)),
        text_order(a, b) == VersionOrder::Equal <==> a == b,
        text_order(a, b) != VersionOrder::Greater && text_order(b, c) != VersionOrder::Greater
            ==> text_order(a, c) != VersionOrder::Greater,
        text_order(a, b) != VersionOrder::Greater && text_order(b, c) != VersionOrder::Greater && (
        text_order(a, b) == VersionOrder::Less || text_order(b, c) == VersionOrder::Less)
            ==> text_order(a, c) == VersionOrder::Less,
{
    assert(a.take(0) =~= b.take(0));
    assert(b.take(0) =~= c.take(0));
    lemma_text_order_flip(a, b, 0);
    if text_order(a, b) != VersionOrder::Greater && text_order(b, c) != VersionOrder::Greater {
        lemma_text_order_trans(a, b, c, 0);
    }
    if a == b {
        lemma_text_order_refl(a, 0);
    }
}

proof fn lemma_text_order_refl(a: Seq<char>, i: int)
    requires
        0 <= i,
    ensures
        text_order_from(a, a, i) == VersionOrder::Equal,
    decreases a.len() - i,
{
    if i < a.len() {
        lemma_text_order_refl(a, i + 1);
    }
}


/// Compares two texts.
pub fn text_order_exec(a: &Vec<char>, b: &Vec<char>) -> (r: VersionOrder)
    ensures
        r == text_order(a@, b@),
{
    let mut i: usize = 0;
    while i < a.len() && i < b.len()
        invariant
            i <= a@.len(),
            i <= b@.len(),
            text_order(a@, b@) == text_order_from(a@, b@, i as int),
        decreases a@.len() - i,
    {
        let x = a[i];
        let y = b[i];
        if x < y {
            return VersionOrder::Less;
        }
        if x > y {
            return VersionOrder::Greater;
        }
        i = i + 1;
    }
    if i >= a.len() {
        if i >= b.len() {
            VersionOrder::Equal
        } else {
            VersionOrder::Less
        }
    } else {
        VersionOrder::Greater
    }
}

// ---------------------------------------------------------------------------
// Path order
// ---------------------------------------------------------------------------

/// The token of a root component.
pub open spec fn root_token() -> Seq<char> {
    seq!['\x01']
}

/// The token of a current-directory component.
pub open spec fn cur_token() -> Seq<char> {
    seq!['\x02']
}

/// The token of a parent-directory component.
pub open spec fn parent_token() -> Seq<char> {
    seq!['\x03']
}

/// The token of a named component.
pub open spec fn name_token(name: Seq<char>) -> Seq<char> {
    seq!['\x04'] + name
}

/// The components of the `/`-separated segments of a path, each as a token
/// whose text order is the components' order (root, current directory,
/// parent directory, then names by their text): empty segments and `.`
/// are dropped, but for a `.` that begins a relative path.
pub open spec fn segment_tokens(segs: Seq<Seq<char>>, rooted: bool) -> Seq<Seq<char>>
    decreases segs.len(),
{
    if segs.len() == 0 {
        Seq::empty()
    } else {
        let prev = segment_tokens(segs.drop_last(), rooted);
        let seg = segs.last();
        if seg.len() == 0 {
            prev
        } else if seg == seq!['.'] {
            if segs.len() == 1 && !rooted {
                prev.push(cur_token())
            } else {
                prev
            }
        } else if seg == seq!['.', '.'] {
            prev.push(parent_token())
        } else {
            prev.push(name_token(seg))
        }
    }
}

/// The component tokens of a path: a root when it begins with `/`, then
/// those of its segments.
pub open spec fn path_tokens(p: Seq<char>) -> Seq<Seq<char>> {
    let rooted = p.len() > 0 && p[0] == '/';
    (if rooted {
        seq![root_token()]
    } else {
        Seq::empty()
    }) + segment_tokens(crate::text::split_seq(p, '/'), rooted)
}

/// Lexicographic order of token sequences from position `i` on.
pub open spec fn tokens_order_from(a: Seq<Seq<char>>, b: Seq<Seq<char>>, i: int) -> VersionOrder
    decreases a.len() - i,
{
    if i >= a.len() {
        if i >= b.len() {
            VersionOrder::Equal
        } else {
            VersionOrder::Less
        }
    } else if i >= b.len() {
        VersionOrder::Greater
    } else if text_order(a[i], b[i]) != VersionOrder::Equal {
        text_order(a[i], b[i])
    } else {
        tokens_order_from(a, b, i + 1)
    }
}

/// The order of two paths: component by component, as paths compare.
pub open spec fn path_order(p: Seq<char>, q: Seq<char>) -> VersionOrder {
    tokens_order_from(path_tokens(p), path_tokens(q), 0)
}

proof fn lemma_tokens_order_flip(a: Seq<Seq<char>>, b: Seq<Seq<char>>, i: int)
    requires
        0 <= i,
    ensures
        tokens_order_from(b, a, i) == flip(tokens_order_from(a, b, i)),
    decreases a.len() - i,
{
    if i < a.len() && i < b.len() {
        law_text_order(a[i], b[i], b[i]);
        if text_order(a[i], b[i]) == VersionOrder::Equal {
            lemma_tokens_order_flip(a, b, i + 1);
        }
    }
}

proof fn lemma_tokens_order_trans(a: Seq<Seq<char>>, b: Seq<Seq<char>>, c: Seq<Seq<char>>, i: int)
    requires
        0 <= i,
        tokens_order_from(a, b, i) != VersionOrder::Greater,
        tokens_order_from(b, c, i) != VersionOrder::Greater,
    ensures
        tokens_order_from(a, c, i) != VersionOrder::Greater,
        (tokens_order_from(a, b, i) == VersionOrder::Less || tokens_order_from(b, c, i)
            == VersionOrder::Less) ==> tokens_order_from(a, c, i) == VersionOrder::Less,
    decreases a.len() - i,
{
    if i < a.len() && i < b.len() && i < c.len() {
        law_text_order(a[i], b[i], c[i]);
        law_text_order(a[i], c[i], c[i]);
        if text_order(a[i], b[i]) == VersionOrder::Equal && text_order(b[i], c[i])
            == VersionOrder::Equal {
            lemma_tokens_order_trans(a, b, c, i + 1);
        }
    }
}

/// Path order is a total preorder: swapping flips it, and it is
/// transitive, strictly when either step is strict.
pub proof fn law_path_order(p: Seq<char>, q: Seq<char>, r: Seq<char>)
    ensures
        path_order(q, p) == flip(path_order(p, q)),
        path_order(p, q) != VersionOrder::Greater && path_order(q, r) != VersionOrder::Greater
            ==> path_order(p, r) != VersionOrder::Greater,
        path_order(p, q) != VersionOrder::Greater && path_order(q, r) != VersionOrder::Greater && (
        path_order(p, q) == VersionOrder::Less || path_order(q, r) == VersionOrder::Less)
            ==> path_order(p, r) == VersionOrder::Less,
{
    lemma_tokens_order_flip(path_tokens(p), path_tokens(q), 0);
    if path_order(p, q) != VersionOrder::Greater && path_order(q, r) != VersionOrder::Greater {
        lemma_tokens_order_trans(path_tokens(p), path_tokens(q), path_tokens(r), 0);
    }
}


/// The texts of character vectors.
pub open spec fn char_vecs_view(v: Seq<Vec<char>>) -> Seq<Seq<char>> {
    v.map_values(|x: Vec<char>| x@)
}

fn segment_tokens_exec(segs: &Vec<Vec<char>>, rooted: bool, start: Vec<Vec<char>>) -> (r: Vec<Vec<char>>)
    ensures
        char_vecs_view(r@) == char_vecs_view(start@) + segment_tokens(char_vecs_view(segs@), rooted),
{
    let mut out = start;
    let ghost base = char_vecs_view(out@);
    let mut k: usize = 0;
    assert(char_vecs_view(segs@).take(0) =~= Seq::<Seq<char>>::empty());
    assert(base + segment_tokens(Seq::<Seq<char>>::empty(), rooted) =~= base);
    while k < segs.len()
        invariant
            k <= segs@.len(),
            char_vecs_view(out@) == base + segment_tokens(char_vecs_view(segs@).take(k as int), rooted),
        decreases segs@.len() - k,
    {
        let seg = &segs[k];
        let ghost sv = char_vecs_view(segs@);
        proof {
            assert(sv.take(k + 1).drop_last() =~= sv.take(k as int));
            assert(sv.take(k + 1).last() == seg@);
        }
        let ghost prev = char_vecs_view(out@);
        if seg.len() == 0 {
        } else if seg.len() == 1 && seg[0] == '.' {
            assert(seg@ =~= seq!['.']);
            if k == 0 && !rooted {
                let mut t: Vec<char> = Vec::new();
                t.push('\x02');
                assert(t@ =~= cur_token());
                out.push(t);
                assert(char_vecs_view(out@) =~= prev.push(cur_token()));
            }
        } else if seg.len() == 2 && seg[0] == '.' && seg[1] == '.' {
            assert(seg@ =~= seq!['.', '.']);
            let mut t: Vec<char> = Vec::new();
            t.push('\x03');
            assert(t@ =~= parent_token());
            out.push(t);
            assert(char_vecs_view(out@) =~= prev.push(parent_token()));
        } else {
            assert(seg@ != seq!['.']) by {
                if seg@ == seq!['.'] {
                    assert(seg@.len() == 1 && seg@[0] == '.');
                }
            }
            assert(seg@ != seq!['.', '.']) by {
                if seg@ == seq!['.', '.'] {
                    assert(seg@.len() == 2 && seg@[0] == '.' && seg@[1] == '.');
                }
            }
            let mut t: Vec<char> = Vec::new();
            t.push('\x04');
            let mut j: usize = 0;
            while j < seg.len()
                invariant
                    j <= seg@.len(),
                    t@ == seq!['\x04'] + seg@.take(j as int),
                decreases seg@.len() - j,
            {
                t.push(seg[j]);
                j = j + 1;
                assert(t@ =~= seq!['\x04'] + seg@.take(j as int));
            }
            assert(seg@.take(seg@.len() as int) =~= seg@);
            out.push(t);
            assert(char_vecs_view(out@) =~= prev.push(name_token(seg@)));
        }
        k = k + 1;
        proof {
            assert(base + segment_tokens(sv.take(k as int), rooted) =~= char_vecs_view(out@));
        }
    }
    assert(char_vecs_view(segs@).take(segs@.len() as int) =~= char_vecs_view(segs@));
    out
}

/// The component tokens of a path.
pub fn path_tokens_exec(p: &str) -> (r: Vec<Vec<char>>)
    ensures
        char_vecs_view(r@) == path_tokens(p@),
{
    let chars = crate::text::chars_of(p);
    let rooted = chars.len() > 0 && chars[0] == '/';
    let parts = crate::text::split_chars(&chars, '/');
    assert(char_vecs_view(parts@) =~= crate::text::split_seq(p@, '/'));
    let mut start: Vec<Vec<char>> = Vec::new();
    if rooted {
        let mut t: Vec<char> = Vec::new();
        t.push('\x01');
        start.push(t);
        assert(char_vecs_view(start@) =~= seq![root_token()]);
    } else {
        assert(char_vecs_view(start@) =~= Seq::<Seq<char>>::empty());
    }
    segment_tokens_exec(&parts, rooted, start)
}

/// Compares two token sequences.
fn tokens_order_exec(a: &Vec<Vec<char>>, b: &Vec<Vec<char>>) -> (r: VersionOrder)
    ensures
        r == tokens_order_from(char_vecs_view(a@), char_vecs_view(b@), 0),
{
    let ghost av = char_vecs_view(a@);
    let ghost bv = char_vecs_view(b@);
    let mut i: usize = 0;
    while i < a.len() && i < b.len()
        invariant
            av == char_vecs_view(a@),
            bv == char_vecs_view(b@),
            i <= a@.len(),
            i <= b@.len(),
            tokens_order_from(av, bv, 0) == tokens_order_from(av, bv, i as int),
        decreases a@.len() - i,
    {
        let o = text_order_exec(&a[i], &b[i]);
        assert(av[i as int] == a@[i as int]@ && bv[i as int] == b@[i as int]@);
        match o {
            VersionOrder::Equal => {},
            _ => {
                return o;
            },
        }
        i = i + 1;
    }
    if i >= a.len() {
        if i >= b.len() {
            VersionOrder::Equal
        } else {
            VersionOrder::Less
        }
    } else {
        VersionOrder::Greater
    }
}

/// Compares two paths component by component.
pub fn path_order_exec(p: &str, q: &str) -> (r: VersionOrder)
    ensures
        r == path_order(p@, q@),
{
    let a = path_tokens_exec(p);
    let b = path_tokens_exec(q);
    tokens_order_exec(&a, &b)
}


// ---------------------------------------------------------------------------
// Listings and their order
// ---------------------------------------------------------------------------

/// Where an offline crates.io artifact listing came from.
#[derive(Clone, Copy, Debug, PartialEq, Eq, PartialOrd, Ord, Structural)]
pub enum CratesIoListingSource {
    Cache,
    Registry,
}

/// A crates.io artifact available without network access.
#[derive(Clone, Debug, PartialEq, Eq)]
pub struct CratesIoListing {
    pub package: String,
    pub version: String,
    pub artifact: String,
    pub source: CratesIoListingSource,
}

/// Mathematical form of a listing.
pub struct ListingView {
    pub package: Seq<char>,
    pub version: Seq<char>,
    pub artifact: Seq<char>,
    pub source: CratesIoListingSource,
}

impl CratesIoListing {
    pub open spec fn view(&self) -> ListingView {
        ListingView {
            package: self.package@,
            version: self.version@,
            artifact: self.artifact@,
            source: self.source,
        }
    }

    /// A copy of this listing.
    pub fn copy(&self) -> (r: Self)
        ensures
            r.view() == self.view(),
    {
        CratesIoListing {
            package: self.package.clone(),
            version: self.version.clone(),
            artifact: self.artifact.clone(),
            source: self.source,
        }
    }
}

pub open spec fn listing_views(v: Seq<CratesIoListing>) -> Seq<ListingView> {
    v.map_values(|x: CratesIoListing| x.view())
}

/// Cache listings come before registry listings.
pub open spec fn source_order(a: CratesIoListingSource, b: CratesIoListingSource) -> VersionOrder {
    if a == b {
        VersionOrder::Equal
    } else if a == CratesIoListingSource::Cache {
        VersionOrder::Less
    } else {
        VersionOrder::Greater
    }
}

/// `first`, or `next` where `first` ties.
pub open spec fn then_order(first: VersionOrder, next: VersionOrder) -> VersionOrder {
    if first == VersionOrder::Equal {
        next
    } else {
        first
    }
}

/// The order of listings: by package name, then newest version first, then
/// artifact path, then source.
pub open spec fn listing_order(a: ListingView, b: ListingView) -> VersionOrder {
    then_order(
        text_order(a.package, b.package),
        then_order(
            crate::version::compare_version_text(b.version, a.version),
            then_order(path_order(a.artifact, b.artifact), source_order(a.source, b.source)),
        ),
    )
}

/// Outcomes of comparing `a` with `b`, `b` with `c` and `a` with `c` that
/// a total preorder allows.
pub open spec fn chain_ok(ab: VersionOrder, bc: VersionOrder, ac: VersionOrder) -> bool {
    &&& (ab != VersionOrder::Greater && bc != VersionOrder::Greater ==> ac != VersionOrder::Greater)
    &&& (ab != VersionOrder::Greater && bc != VersionOrder::Greater && (ab == VersionOrder::Less || bc
        == VersionOrder::Less) ==> ac == VersionOrder::Less)
    &&& (ab == VersionOrder::Equal && bc == VersionOrder::Equal ==> ac == VersionOrder::Equal)
}

proof fn lemma_then_chain(
    xab: VersionOrder,
    xbc: VersionOrder,
    xac: VersionOrder,
    yab: VersionOrder,
    ybc: VersionOrder,
    yac: VersionOrder,
)
    requires
        chain_ok(xab, xbc, xac),
        chain_ok(yab, ybc, yac),
    ensures
        chain_ok(then_order(xab, yab), then_order(xbc, ybc), then_order(xac, yac)),
{
}

/// A component order that flips and is transitive also keeps ties
/// transitive.
proof fn lemma_chain_from_laws(
    ab: VersionOrder,
    bc: VersionOrder,
    ac: VersionOrder,
    ba: VersionOrder,
    cb: VersionOrder,
    ca: VersionOrder,
)
    requires
        ba == flip(ab),
        cb == flip(bc),
        ca == flip(ac),
        ab != VersionOrder::Greater && bc != VersionOrder::Greater ==> ac != VersionOrder::Greater,
        ab != VersionOrder::Greater && bc != VersionOrder::Greater && (ab == VersionOrder::Less || bc
            == VersionOrder::Less) ==> ac == VersionOrder::Less,
        cb != VersionOrder::Greater && ba != VersionOrder::Greater ==> ca != VersionOrder::Greater,
    ensures
        chain_ok(ab, bc, ac),
{
}

/// The listing order is a total preorder: swapping flips it, and it is
/// transitive, strictly when either step is strict, ties included.
pub proof fn law_listing_order(a: ListingView, b: ListingView, c: ListingView)
    ensures
        listing_order(b, a) == flip(listing_order(a, b)),
        chain_ok(listing_order(a, b), listing_order(b, c), listing_order(a, c)),
{
    law_text_order(a.package, b.package, c.package);
    law_text_order(c.package, b.package, a.package);
    law_text_order(a.package, c.package, c.package);
    lemma_chain_from_laws(
        text_order(a.package, b.package),
        text_order(b.package, c.package),
        text_order(a.package, c.package),
        text_order(b.package, a.package),
        text_order(c.package, b.package),
        text_order(c.package, a.package),
    );
    crate::version::law_compare_antisymmetric(a.version, b.version);
    crate::version::law_compare_antisymmetric(b.version, c.version);
    crate::version::law_compare_antisymmetric(a.version, c.version);
    let vab = crate::version::compare_version_text(b.version, a.version);
    let vbc = crate::version::compare_version_text(c.version, b.version);
    let vac = crate::version::compare_version_text(c.version, a.version);
    if vab != VersionOrder::Greater && vbc != VersionOrder::Greater {
        crate::version::law_compare_transitive(c.version, b.version, a.version);
    }
    let vcb = crate::version::compare_version_text(b.version, c.version);
    let vba = crate::version::compare_version_text(a.version, b.version);
    if vcb != VersionOrder::Greater && vba != VersionOrder::Greater {
        crate::version::law_compare_transitive(a.version, b.version, c.version);
    }
    lemma_chain_from_laws(vab, vbc, vac, vba, vcb, crate::version::compare_version_text(a.version, c.version));
    law_path_order(a.artifact, b.artifact, c.artifact);
    law_path_order(c.artifact, b.artifact, a.artifact);
    law_path_order(a.artifact, c.artifact, c.artifact);
    lemma_chain_from_laws(
        path_order(a.artifact, b.artifact),
        path_order(b.artifact, c.artifact),
        path_order(a.artifact, c.artifact),
        path_order(b.artifact, a.artifact),
        path_order(c.artifact, b.artifact),
        path_order(c.artifact, a.artifact),
    );
    let sab = source_order(a.source, b.source);
    let sbc = source_order(b.source, c.source);
    let sac = source_order(a.source, c.source);
    assert(chain_ok(sab, sbc, sac));
    let pab = path_order(a.artifact, b.artifact);
    let pbc = path_order(b.artifact, c.artifact);
    let pac = path_order(a.artifact, c.artifact);
    lemma_then_chain(pab, pbc, pac, sab, sbc, sac);
    lemma_then_chain(vab, vbc, vac, then_order(pab, sab), then_order(pbc, sbc), then_order(pac, sac));
    lemma_then_chain(
        text_order(a.package, b.package),
        text_order(b.package, c.package),
        text_order(a.package, c.package),
        then_order(vab, then_order(pab, sab)),
        then_order(vbc, then_order(pbc, sbc)),
        then_order(vac, then_order(pac, sac)),
    );
}

/// Compares two listings.
pub fn listing_order_exec(a: &CratesIoListing, b: &CratesIoListing) -> (r: VersionOrder)
    ensures
        r == listing_order(a.view(), b.view()),
{
    let pa = crate::text::chars_of(a.package.as_str());
    let pb = crate::text::chars_of(b.package.as_str());
    let o = text_order_exec(&pa, &pb);
    if o != VersionOrder::Equal {
        return o;
    }
    let o = crate::version::compare_versions(b.version.as_str(), a.version.as_str());
    if o != VersionOrder::Equal {
        return o;
    }
    let o = path_order_exec(a.artifact.as_str(), b.artifact.as_str());
    if o != VersionOrder::Equal {
        return o;
    }
    if a.source == b.source {
        VersionOrder::Equal
    } else if a.source == CratesIoListingSource::Cache {
        VersionOrder::Less
    } else {
        VersionOrder::Greater
    }
}


// ---------------------------------------------------------------------------
// Sorting listings
// ---------------------------------------------------------------------------

/// Where a listing goes into sorted listings: before the first listing
/// from `i` on that it orders below, else at the end.
pub open spec fn insert_index(s: Seq<ListingView>, x: ListingView, i: int) -> int
    decreases s.len() - i,
{
    if i >= s.len() {
        s.len() as int
    } else if listing_order(s[i], x) == VersionOrder::Greater {
        i
    } else {
        insert_index(s, x, i + 1)
    }
}

/// Listings sorted stably by the listing order: each in turn inserted
/// after every earlier one it does not order below.
pub open spec fn sorted_listings(s: Seq<ListingView>) -> Seq<ListingView>
    decreases s.len(),
{
    if s.len() == 0 {
        Seq::empty()
    } else {
        let t = sorted_listings(s.drop_last());
        t.insert(insert_index(t, s.last(), 0), s.last())
    }
}

proof fn lemma_insert_index(s: Seq<ListingView>, x: ListingView, i: int)
    requires
        0 <= i <= s.len(),
        forall|j: int| 0 <= j < i ==> listing_order(#[trigger] s[j], x) != VersionOrder::Greater,
    ensures
        i <= insert_index(s, x, i) <= s.len(),
        forall|j: int|
            0 <= j < insert_index(s, x, i) ==> listing_order(#[trigger] s[j], x)
                != VersionOrder::Greater,
        insert_index(s, x, i) < s.len() ==> listing_order(s[insert_index(s, x, i)], x)
            == VersionOrder::Greater,
    decreases s.len() - i,
{
    if i < s.len() && listing_order(s[i], x) != VersionOrder::Greater {
        lemma_insert_index(s, x, i + 1);
    }
}

proof fn lemma_sorted_len(s: Seq<ListingView>)
    ensures
        sorted_listings(s).len() == s.len(),
    decreases s.len(),
{
    if s.len() > 0 {
        lemma_sorted_len(s.drop_last());
        lemma_insert_index(sorted_listings(s.drop_last()), s.last(), 0);
    }
}

/// Sorts listings: package name, newest version first, artifact path,
/// source; listings that tie keep their order.
pub fn sort_listings(items: &Vec<CratesIoListing>) -> (r: Vec<CratesIoListing>)
    ensures
        listing_views(r@) == sorted_listings(listing_views(items@)),
{
    let mut out: Vec<CratesIoListing> = Vec::new();
    let mut i: usize = 0;
    assert(listing_views(items@).take(0) =~= Seq::<ListingView>::empty());
    assert(listing_views(out@) =~= Seq::<ListingView>::empty());
    while i < items.len()
        invariant
            i <= items@.len(),
            listing_views(out@) == sorted_listings(listing_views(items@).take(i as int)),
        decreases items@.len() - i,
    {
        let x = items[i].copy();
        let ghost sv = listing_views(out@);
        let ghost xv = x.view();
        proof {
            let v = listing_views(items@);
            assert(v.take(i + 1).drop_last() =~= v.take(i as int));
            assert(v.take(i + 1).last() == xv);
            lemma_sorted_len(v.take(i as int));
        }
        let mut j: usize = 0;
        while j < out.len() && listing_order_exec(&out[j], &x) != VersionOrder::Greater
            invariant
                sv == listing_views(out@),
                xv == x.view(),
                j <= out@.len(),
                insert_index(sv, xv, 0) == insert_index(sv, xv, j as int),
            decreases out@.len() - j,
        {
            j = j + 1;
        }
        proof {
            lemma_insert_index(sv, xv, 0);
        }
        out.insert(j, x);
        assert(listing_views(out@) =~= sv.insert(j as int, xv));
        i = i + 1;
    }
    assert(listing_views(items@).take(items@.len() as int) =~= listing_views(items@));
    out
}

/// Listings in non-decreasing listing order.
pub open spec fn listings_in_order(s: Seq<ListingView>) -> bool {
    forall|i: int, j: int|
        0 <= i < j < s.len() ==> listing_order(#[trigger] s[i], #[trigger] s[j])
            != VersionOrder::Greater
}

/// Sorted listings are in order.
pub proof fn law_sorted_listings_in_order(s: Seq<ListingView>)
    ensures
        listings_in_order(sorted_listings(s)),
    decreases s.len(),
{
    if s.len() > 0 {
        let t = sorted_listings(s.drop_last());
        let x = s.last();
        law_sorted_listings_in_order(s.drop_last());
        lemma_insert_index(t, x, 0);
        let p = insert_index(t, x, 0);
        let r = t.insert(p, x);
        assert forall|i: int, j: int| 0 <= i < j < r.len() implies listing_order(
            #[trigger] r[i],
            #[trigger] r[j],
        ) != VersionOrder::Greater by {
            if j < p {
                assert(r[i] == t[i] && r[j] == t[j]);
            } else if j == p {
                assert(r[i] == t[i]);
            } else if i < p {
                assert(r[i] == t[i] && r[j] == t[j - 1]);
            } else if i == p {
                assert(r[j] == t[j - 1]);
                law_listing_order(t[p], x, x);
                law_listing_order(x, t[p], t[j - 1]);
                if j - 1 > p {
                    assert(listing_order(t[p], t[j - 1]) != VersionOrder::Greater);
                } else {
                    law_listing_order(t[p], t[p], t[p]);
                    lemma_listing_order_refl(t[p]);
                }
            } else {
                assert(r[i] == t[i - 1] && r[j] == t[j - 1]);
            }
        }
    }
}

proof fn lemma_listing_order_refl(a: ListingView)
    ensures
        listing_order(a, a) == VersionOrder::Equal,
{
    law_listing_order(a, a, a);
}

/// Sorting keeps every listing, each as often as it occurred.
pub proof fn law_sorted_listings_permutation(s: Seq<ListingView>)
    ensures
        sorted_listings(s).to_multiset() == s.to_multiset(),
    decreases s.len(),
{
    if s.len() > 0 {
        let t = sorted_listings(s.drop_last());
        law_sorted_listings_permutation(s.drop_last());
        lemma_insert_index(t, s.last(), 0);
        vstd::seq_lib::to_multiset_insert(t, insert_index(t, s.last(), 0), s.last());
        vstd::seq_lib::to_multiset_build(s.drop_last(), s.last());
        assert(s.drop_last().push(s.last()) =~= s);
    } else {
        assert(s =~= Seq::<ListingView>::empty());
    }
}


/// Whether `paths[i]` is the first of the least paths.
pub open spec fn is_first_least_path(paths: Seq<Seq<char>>, i: int) -> bool {
    &&& 0 <= i < paths.len()
    &&& forall|j: int| 0 <= j < paths.len() ==> path_order(paths[i], #[trigger] paths[j]) != VersionOrder::Greater
    &&& forall|j: int| 0 <= j < i ==> path_order(#[trigger] paths[j], paths[i]) == VersionOrder::Greater
}

/// The texts of strings.
pub open spec fn string_texts(v: Seq<String>) -> Seq<Seq<char>> {
    v.map_values(|s: String| s@)
}

/// The first of the least paths in path order (what a stable sort puts
/// first), or `None` when there are none.
pub fn first_least_path(paths: &Vec<String>) -> (r: Option<usize>)
    ensures
        match r {
            Some(i) => is_first_least_path(string_texts(paths@), i as int),
            None => paths@.len() == 0,
        },
{
    if paths.len() == 0 {
        return None;
    }
    let ghost v = string_texts(paths@);
    let mut best: usize = 0;
    let mut k: usize = 1;
    proof {
        law_path_order(v[0], v[0], v[0]);
    }
    while k < paths.len()
        invariant
            v == string_texts(paths@),
            1 <= k <= paths@.len(),
            best < k,
            forall|j: int| 0 <= j < k ==> path_order(v[best as int], #[trigger] v[j]) != VersionOrder::Greater,
            forall|j: int| 0 <= j < best ==> path_order(#[trigger] v[j], v[best as int]) == VersionOrder::Greater,
        decreases paths@.len() - k,
    {
        let o = path_order_exec(paths[k].as_str(), paths[best].as_str());
        if o == VersionOrder::Less {
            proof {
                let b = best as int;
                assert forall|j: int| 0 <= j < k + 1 implies path_order(v[k as int], #[trigger] v[j])
                    != VersionOrder::Greater by {
                    law_path_order(v[k as int], v[b], v[j]);
                    law_path_order(v[k as int], v[k as int], v[k as int]);
                }
                assert forall|j: int| 0 <= j < k implies path_order(#[trigger] v[j], v[k as int])
                    == VersionOrder::Greater by {
                    law_path_order(v[b], v[j], v[k as int]);
                    law_path_order(v[j], v[b], v[k as int]);
                    law_path_order(v[k as int], v[b], v[j]);
                }
            }
            best = k;
        } else {
            proof {
                law_path_order(v[k as int], v[best as int], v[best as int]);
            }
        }
        k = k + 1;
    }
    Some(best)
}

} // verus!
