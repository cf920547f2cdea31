//! `crates.io:NAME@REQ` sources, version requirements and the cache-first
//! artifact resolver.
use vstd::prelude::*;
use vstd::string::*;

use crate::error::CliError;
use crate::git_registry::{endpoint_spec, GitRegistryResolver};
use crate::listing::{
    first_least_path, is_first_least_path, listing_views, path_order, sort_listings, sorted_listings,
    string_texts, CratesIoListing, CratesIoListingSource, ListingView,
};
use crate::text::{
    chars_eq, chars_of, concat2, ends_with_chars, has_char, has_prefix, has_suffix, owned,
    starts_with_chars, str_eq, string_of, sub_chars,
};
use crate::version::{
    compare_version_text, compare_versions, comp_at, law_compare_reflexive, law_compare_transitive,
    law_compare_antisymmetric, version_components, version_components_exec, VersionOrder,
};

verus! {

/// Version requirement used when a bare symbol falls back to crates.io.
pub const DEFAULT_FALLBACK_REQ: &'static str = "^0.1";

/// File name of a cached artifact.
pub const ARTIFACT_FILE: &'static str = "artifact.simlib";

/// Requirement kind accepted by the resolver.
#[derive(Clone, Debug, PartialEq, Eq)]
pub enum VersionReqKind {
    /// `*`: any version.
    Any,
    /// `=X` or a bare `X`: exactly that version text.
    Exact(String),
    /// `^X`: semver-compatible with `X` and not below it.
    Caret(String),
}

/// Mathematical form of a requirement kind.
pub enum ReqKindSpec {
    Any,
    Exact(Seq<char>),
    Caret(Seq<char>),
}

impl VersionReqKind {
    pub open spec fn view(&self) -> ReqKindSpec {
        match self {
            VersionReqKind::Any => ReqKindSpec::Any,
            VersionReqKind::Exact(s) => ReqKindSpec::Exact(s@),
            VersionReqKind::Caret(s) => ReqKindSpec::Caret(s@),
        }
    }
}

/// Version requirement syntax accepted by the CLI crates.io resolver.
#[derive(Debug, PartialEq, Eq)]
pub struct VersionReq {
    /// Original requirement text.
    raw: String,
    /// Parsed requirement kind.
    kind: VersionReqKind,
}

/// What parsing requirement text yields: the kind, or the error message.
pub open spec fn parse_req_spec(source: Seq<char>) -> Result<ReqKindSpec, Seq<char>> {
    if source.len() == 0 {
        Err("crates.io version requirement is empty"@)
    } else if source == "*"@ {
        Ok(ReqKindSpec::Any)
    } else if source[0] == '^' {
        if source.len() == 1 {
            Err("crates.io caret requirement is empty"@)
        } else {
            Ok(ReqKindSpec::Caret(source.drop_first()))
        }
    } else if source[0] == '=' {
        if source.len() == 1 {
            Err("crates.io exact requirement is empty"@)
        } else {
            Ok(ReqKindSpec::Exact(source.drop_first()))
        }
    } else {
        Ok(ReqKindSpec::Exact(source))
    }
}

/// Whether `version` lies in the caret range opened by `minimum`: same major
/// for a nonzero major, same `0.minor` for a nonzero minor, otherwise the
/// same `0.0.patch`.
pub open spec fn same_caret_range_spec(version: Seq<char>, minimum: Seq<char>) -> bool {
    let v = version_components(version);
    let m = version_components(minimum);
    let major = comp_at(m, 0);
    let minor = comp_at(m, 1);
    let patch = comp_at(m, 2);
    if major > 0 {
        v.len() >= 1 && v[0] == major
    } else if minor > 0 {
        v.len() >= 2 && v[0] == 0 && v[1] == minor
    } else {
        v.len() >= 3 && v[0] == 0 && v[1] == 0 && v[2] == patch
    }
}

/// Whether `version` satisfies a requirement kind.
pub open spec fn req_matches(kind: ReqKindSpec, version: Seq<char>) -> bool {
    match kind {
        ReqKindSpec::Any => true,
        ReqKindSpec::Exact(exact) => version == exact,
        ReqKindSpec::Caret(minimum) => compare_version_text(version, minimum)
            != VersionOrder::Less && same_caret_range_spec(version, minimum),
    }
}

fn same_caret_range(version: &str, minimum: &str) -> (r: bool)
    ensures
        r == same_caret_range_spec(version@, minimum@),
{
    let v = version_components_exec(version);
    let m = version_components_exec(minimum);
    let major = if m.len() > 0 { m[0] } else { 0 };
    let minor = if m.len() > 1 { m[1] } else { 0 };
    let patch = if m.len() > 2 { m[2] } else { 0 };
    if major > 0 {
        v.len() >= 1 && v[0] == major
    } else if minor > 0 {
        v.len() >= 2 && v[0] == 0 && v[1] == minor
    } else {
        v.len() >= 3 && v[0] == 0 && v[1] == 0 && v[2] == patch
    }
}

impl VersionReqKind {
    /// A copy of this kind.
    pub fn copy(&self) -> (r: Self)
        ensures
            r.view() == self.view(),
    {
        match self {
            VersionReqKind::Any => VersionReqKind::Any,
            VersionReqKind::Exact(s) => VersionReqKind::Exact(s.clone()),
            VersionReqKind::Caret(s) => VersionReqKind::Caret(s.clone()),
        }
    }
}

/// Mathematical form of a requirement.
pub struct ReqView {
    pub raw: Seq<char>,
    pub kind: ReqKindSpec,
}

impl VersionReq {
    pub closed spec fn view(&self) -> ReqView {
        ReqView { raw: self.raw@, kind: self.kind.view() }
    }

    /// A requirement's kind is always what its text parses to.
    #[verifier::type_invariant]
    spec fn text_parses_to_kind(self) -> bool {
        parse_req_spec(self.raw@) == Ok::<ReqKindSpec, Seq<char>>(self.kind.view())
    }

    /// A copy of this requirement.
    pub fn copy(&self) -> (r: Self)
        ensures
            r.view() == self.view(),
    {
        proof {
            use_type_invariant(self);
        }
        VersionReq { raw: self.raw.clone(), kind: self.kind.copy() }
    }

    /// Whether a concrete version satisfies this requirement.
    pub open spec fn matches_spec(&self, version: Seq<char>) -> bool {
        req_matches(self.view().kind, version)
    }

    /// Reports whether a concrete version satisfies this requirement.
    pub fn matches(&self, version: &str) -> (r: bool)
        ensures
            r == self.matches_spec(version@),
    {
        match &self.kind {
            VersionReqKind::Any => true,
            VersionReqKind::Exact(exact) => str_eq(version, exact.as_str()),
            VersionReqKind::Caret(minimum) => {
                compare_versions(version, minimum.as_str()) != VersionOrder::Less
                    && same_caret_range(version, minimum.as_str())
            },
        }
    }

    /// Returns the original requirement text.
    pub fn as_str(&self) -> (r: &str)
        ensures
            r@ == self.view().raw,
            parse_req_spec(r@) == Ok::<ReqKindSpec, Seq<char>>(self.view().kind),
    {
        proof {
            use_type_invariant(self);
        }
        self.raw.as_str()
    }

    /// Renders the requirement as its text, which parses back to it.
    pub fn to_string(&self) -> (r: String)
        ensures
            r@ == self.view().raw,
            parse_req_spec(r@) == Ok::<ReqKindSpec, Seq<char>>(self.view().kind),
    {
        owned(self.as_str())
    }

    /// Parses requirement text: `*`, `^X`, `=X` or a bare exact version.
    pub fn parse_req(source: &str) -> (r: Result<VersionReq, CliError>)
        ensures
            r matches Ok(q) ==> parse_req_spec(source@) == Ok::<ReqKindSpec, Seq<char>>(
                q.view().kind,
            ) && q.view().raw == source@,
            r matches Err(e) ==> parse_req_spec(source@) == Err::<ReqKindSpec, Seq<char>>(
                e.message@,
            ),
    {
        proof {
            reveal_strlit("*");
        }
        let chars = chars_of(source);
        if chars.len() == 0 {
            return Err(CliError::msg("crates.io version requirement is empty"));
        }
        let kind = if chars.len() == 1 && chars[0] == '*' {
            assert(chars@ =~= "*"@);
            VersionReqKind::Any
        } else if chars[0] == '^' {
            if chars.len() == 1 {
                assert(chars@ != "*"@);
                return Err(CliError::msg("crates.io caret requirement is empty"));
            }
            let rest = sub_chars(&chars, 1, chars.len());
            assert(rest@ =~= chars@.drop_first());
            VersionReqKind::Caret(string_of(&rest))
        } else if chars[0] == '=' {
            if chars.len() == 1 {
                assert(chars@ != "*"@);
                return Err(CliError::msg("crates.io exact requirement is empty"));
            }
            let rest = sub_chars(&chars, 1, chars.len());
            assert(rest@ =~= chars@.drop_first());
            VersionReqKind::Exact(string_of(&rest))
        } else {
            assert(chars@ != "*"@);
            VersionReqKind::Exact(owned(source))
        };
        Ok(VersionReq { raw: owned(source), kind })
    }
}

impl Clone for VersionReq {
    fn clone(&self) -> (r: Self)
        ensures
            r.view() == self.view(),
    {
        self.copy()
    }
}

impl core::str::FromStr for VersionReq {
    type Err = CliError;

    fn from_str(source: &str) -> (r: Result<Self, Self::Err>)
        ensures
            r matches Ok(q) ==> parse_req_spec(source@) == Ok::<ReqKindSpec, Seq<char>>(
                q.view().kind,
            ) && q.view().raw == source@,
            r matches Err(e) ==> parse_req_spec(source@) == Err::<ReqKindSpec, Seq<char>>(
                e.message@,
            ),
    {
        VersionReq::parse_req(source)
    }
}

/// A parsed `crates.io:NAME@REQ` source.
#[derive(Clone, Debug, PartialEq, Eq)]
pub struct CratesIoSpec {
    /// crates.io package name.
    pub package: String,
    /// Version requirement applied to that package.
    pub requirement: VersionReq,
}

/// Index of the first occurrence of `c` in `s`.
pub open spec fn index_of(s: Seq<char>, c: char) -> Option<nat>
    decreases s.len(),
{
    if s.len() == 0 {
        None
    } else if s[0] == c {
        Some(0)
    } else {
        match index_of(s.drop_first(), c) {
            Some(i) => Some(i + 1),
            None => None,
        }
    }
}

/// A first occurrence determines `index_of`.
pub proof fn lemma_index_of(s: Seq<char>, c: char, i: int)
    requires
        0 <= i <= s.len(),
        forall|j: int| 0 <= j < i ==> s[j] != c,
    ensures
        i < s.len() && s[i] == c ==> index_of(s, c) == Some(i as nat),
        i == s.len() ==> index_of(s, c) is None,
    decreases i,
{
    if i > 0 {
        lemma_index_of(s.drop_first(), c, i - 1);
    } else if s.len() > 0 {
    }
}

/// What `index_of` finds is the first occurrence.
pub proof fn lemma_index_of_bounds(s: Seq<char>, c: char)
    ensures
        index_of(s, c) matches Some(i) ==> i < s.len() && s[i as int] == c && forall|j: int|
            0 <= j < i ==> s[j] != c,
        index_of(s, c) is None ==> forall|j: int| 0 <= j < s.len() ==> s[j] != c,
    decreases s.len(),
{
    if s.len() > 0 {
        lemma_index_of_bounds(s.drop_first(), c);
        if s[0] != c {
            assert forall|j: int| 1 <= j < s.len() implies s[j] == s.drop_first()[j - 1] by {}
        }
    }
}

/// Finds the first occurrence of `c` in `s`.
pub fn find_char(s: &Vec<char>, c: char) -> (r: Option<usize>)
    ensures
        r matches Some(i) ==> index_of(s@, c) == Some(i as nat) && i < s@.len(),
        r is None ==> index_of(s@, c) is None,
{
    let mut i: usize = 0;
    while i < s.len()
        invariant
            i <= s@.len(),
            forall|j: int| 0 <= j < i ==> s@[j] != c,
        decreases s@.len() - i,
    {
        if s[i] == c {
            proof {
                lemma_index_of(s@, c, i as int);
            }
            return Some(i);
        }
        i = i + 1;
    }
    proof {
        lemma_index_of(s@, c, i as int);
    }
    None
}

/// What parsing `NAME@REQ` yields: package and requirement kind, or the error.
pub open spec fn parse_spec_text(source: Seq<char>) -> Result<(Seq<char>, ReqKindSpec), Seq<char>> {
    match index_of(source, '@') {
        None => Err("crates.io source must use NAME@REQ syntax"@),
        Some(at) => {
            let package = source.take(at as int);
            let req = source.skip(at as int + 1);
            match parse_req_spec(req) {
                Err(e) => Err(e),
                Ok(kind) => if package.len() == 0 {
                    Err("crates.io package name is empty"@)
                } else {
                    Ok((package, kind))
                },
            }
        },
    }
}

/// Mathematical form of a spec.
pub struct SpecView {
    pub package: Seq<char>,
    pub requirement: ReqView,
}

impl CratesIoSpec {
    pub open spec fn view(&self) -> SpecView {
        SpecView { package: self.package@, requirement: self.requirement.view() }
    }

    /// A copy of this spec.
    pub fn copy(&self) -> (r: Self)
        ensures
            r.view() == self.view(),
    {
        CratesIoSpec { package: self.package.clone(), requirement: self.requirement.copy() }
    }

    /// Builds a spec from a package name and version requirement; an empty
    /// package name is an error.
    pub fn new(package: String, requirement: VersionReq) -> (r: Result<CratesIoSpec, CliError>)
        ensures
            package@.len() == 0 <==> r is Err,
            r matches Err(e) ==> e.message@ == "crates.io package name is empty"@,
            r matches Ok(s) ==> s.package@ == package@ && s.requirement == requirement,
    {
        if package.as_str().is_empty() {
            return Err(CliError::msg("crates.io package name is empty"));
        }
        Ok(CratesIoSpec { package, requirement })
    }

    /// Parses `NAME@REQ`, splitting at the first `@`.
    pub fn parse_spec(source: &str) -> (r: Result<CratesIoSpec, CliError>)
        ensures
            r matches Ok(s) ==> parse_spec_text(source@) == Ok::<(Seq<char>, ReqKindSpec), Seq<char>>(
                (s.package@, s.requirement.view().kind),
            ) && s.requirement.view().raw == source@.skip(index_of(source@, '@')->0 as int + 1),
            r matches Err(e) ==> parse_spec_text(source@) == Err::<(Seq<char>, ReqKindSpec), Seq<char>>(
                e.message@,
            ),
    {
        let chars = chars_of(source);
        let at = match find_char(&chars, '@') {
            None => return Err(CliError::msg("crates.io source must use NAME@REQ syntax")),
            Some(at) => at,
        };
        assert(at < chars@.len());
        assert(chars@.len() == chars.len());
        let package = sub_chars(&chars, 0, at);
        let req_text = sub_chars(&chars, at + 1, chars.len());
        assert(package@ =~= source@.take(at as int));
        assert(req_text@ =~= source@.skip(at + 1));
        let req_string = string_of(&req_text);
        let requirement = VersionReq::parse_req(req_string.as_str())?;
        CratesIoSpec::new(string_of(&package), requirement)
    }

    /// Display form `NAME@REQ`.
    pub open spec fn text(&self) -> Seq<char> {
        self.package@ + "@"@ + self.requirement.view().raw
    }

    /// Renders the spec as `NAME@REQ`.
    pub fn to_string(&self) -> (s: String)
        ensures
            s@ == self.text(),
            self.package@.len() > 0 && !has_char(self.package@, '@') ==> parse_spec_text(s@)
                == Ok::<(Seq<char>, ReqKindSpec), Seq<char>>(
                (self.package@, self.requirement.view().kind),
            ),
    {
        let raw = self.requirement.as_str();
        let mut s = concat2(self.package.as_str(), "@");
        s.append(raw);
        proof {
            if self.package@.len() > 0 && !has_char(self.package@, '@') {
                law_spec_text_roundtrip(self.package@, raw@);
            }
        }
        s
    }
}

impl core::str::FromStr for CratesIoSpec {
    type Err = CliError;

    fn from_str(source: &str) -> (r: Result<Self, Self::Err>)
        ensures
            r matches Ok(s) ==> parse_spec_text(source@) == Ok::<(Seq<char>, ReqKindSpec), Seq<char>>(
                (s.package@, s.requirement.view().kind),
            ) && s.requirement.view().raw == source@.skip(index_of(source@, '@')->0 as int + 1),
            r matches Err(e) ==> parse_spec_text(source@) == Err::<(Seq<char>, ReqKindSpec), Seq<char>>(
                e.message@,
            ),
    {
        CratesIoSpec::parse_spec(source)
    }
}

/// A source with no `@` is refused with the syntax error.
pub proof fn law_spec_without_at_is_refused(source: Seq<char>)
    requires
        !has_char(source, '@'),
    ensures
        parse_spec_text(source) == Err::<(Seq<char>, ReqKindSpec), Seq<char>>(
            "crates.io source must use NAME@REQ syntax"@,
        ),
{
    lemma_index_of_bounds(source, '@');
    if let Some(i) = index_of(source, '@') {
        assert(source[i as int] == '@');
    }
}

/// Parsing the display form of a spec gives the spec back, whenever the
/// package name holds no `@` and the requirement text is itself valid.
pub proof fn law_spec_text_roundtrip(package: Seq<char>, raw: Seq<char>)
    requires
        package.len() > 0,
        !has_char(package, '@'),
        parse_req_spec(raw) is Ok,
    ensures
        parse_spec_text(package + "@"@ + raw) == Ok::<(Seq<char>, ReqKindSpec), Seq<char>>(
            (package, parse_req_spec(raw)->Ok_0),
        ),
{
    reveal_strlit("@");
    let s = package + "@"@ + raw;
    assert forall|j: int| 0 <= j < package.len() implies s[j] != '@' by {
        assert(s[j] == package[j]);
    }
    assert(s[package.len() as int] == '@');
    lemma_index_of(s, '@', package.len() as int);
    assert(s.take(package.len() as int) =~= package);
    assert(s.skip(package.len() as int + 1) =~= raw);
}

/// A crates.io source resolved to a local artifact path.
#[derive(Clone, Debug, PartialEq, Eq)]
pub struct ResolvedCratesIoSource {
    /// The spec that was resolved.
    pub requested: CratesIoSpec,
    /// Resolved package name.
    pub package: String,
    /// Concrete version selected for the package.
    pub version: String,
    /// Local path to the resolved artifact.
    pub artifact: String,
}

/// An in-memory registry artifact available for resolution.
#[derive(Clone, Debug, PartialEq, Eq)]
pub struct RegistryArtifact {
    pub package: String,
    pub version: String,
    pub artifact: String,
}

/// One version directory of a package in the local cache, as listed from
/// disk: its name and the paths of the files in it.
#[derive(Clone, Debug, PartialEq, Eq)]
pub struct CachedVersion {
    /// Version directory name.
    pub version: String,
    /// Paths of the regular files inside that directory.
    pub files: Vec<String>,
}

/// Whether a path names the preferred artifact file: it is that file name,
/// or ends with `/` and that file name.
pub open spec fn is_artifact_file_path(p: Seq<char>) -> bool {
    p == ARTIFACT_FILE@ || has_suffix(p, "/"@ + ARTIFACT_FILE@)
}

/// Whether `files[i]` is the artifact of a version directory: the first
/// file named `artifact.simlib` when there is one, else the first of the
/// least paths.
pub open spec fn is_artifact_choice(files: Seq<Seq<char>>, i: int) -> bool {
    if exists|j: int| 0 <= j < files.len() && is_artifact_file_path(#[trigger] files[j]) {
        &&& 0 <= i < files.len()
        &&& is_artifact_file_path(files[i])
        &&& forall|j: int| 0 <= j < i ==> !is_artifact_file_path(#[trigger] files[j])
    } else {
        is_first_least_path(files, i)
    }
}

/// At most one file of a directory is its artifact.
pub proof fn lemma_artifact_choice_unique(files: Seq<Seq<char>>, i: int, j: int)
    requires
        is_artifact_choice(files, i),
        is_artifact_choice(files, j),
    ensures
        i == j,
{
    if !(exists|k: int| 0 <= k < files.len() && is_artifact_file_path(#[trigger] files[k])) {
        if i < j {
            assert(path_order(files[i], files[j]) != VersionOrder::Greater);
        } else if j < i {
            assert(path_order(files[j], files[i]) != VersionOrder::Greater);
        }
    }
}

fn is_artifact_file_path_exec(p: &String) -> (r: bool)
    ensures
        r == is_artifact_file_path(p@),
{
    let chars = chars_of(p.as_str());
    let name = chars_of(ARTIFACT_FILE);
    let suffix = chars_of("/artifact.simlib");
    proof {
        reveal_strlit("/");
        reveal_strlit("/artifact.simlib");
        reveal_strlit("artifact.simlib");
        assert(suffix@ =~= "/"@ + ARTIFACT_FILE@);
    }
    chars_eq(&chars, &name) || ends_with_chars(&chars, &suffix)
}

/// Which file of a version directory is its artifact: the first file named
/// `artifact.simlib`, else the first of the least paths; none when the
/// directory holds no file.
pub fn pick_artifact_file(files: &Vec<String>) -> (r: Option<usize>)
    ensures
        match r {
            Some(i) => is_artifact_choice(string_texts(files@), i as int),
            None => files@.len() == 0,
        },
{
    let ghost v = string_texts(files@);
    let mut i: usize = 0;
    while i < files.len()
        invariant
            v == string_texts(files@),
            i <= files@.len(),
            forall|j: int| 0 <= j < i ==> !is_artifact_file_path(#[trigger] v[j]),
        decreases files@.len() - i,
    {
        if is_artifact_file_path_exec(&files[i]) {
            proof {
                assert(is_artifact_file_path(v[i as int]));
            }
            return Some(i);
        }
        i = i + 1;
    }
    proof {
        assert(!(exists|j: int| 0 <= j < v.len() && is_artifact_file_path(#[trigger] v[j])));
    }
    first_least_path(files)
}

impl CachedVersion {
    /// The artifact of the version directory, if it holds a file.
    pub fn artifact(&self) -> (r: Option<String>)
        ensures
            match r {
                Some(a) => exists|k: int|
                    is_artifact_choice(string_texts(self.files@), k) && a@ == #[trigger] self.files@[k]@,
                None => self.files@.len() == 0,
            },
    {
        match pick_artifact_file(&self.files) {
            Some(k) => {
                let a = self.files[k].clone();
                proof {
                    assert(a@ == self.files@[k as int]@);
                }
                Some(a)
            },
            None => None,
        }
    }
}

/// The text of an optional string.
pub open spec fn opt_text(o: Option<String>) -> Option<Seq<char>> {
    match o {
        Some(v) => Some(v@),
        None => None,
    }
}

/// The default cache directory: `SIM_CLI_CACHE_DIR` as it is, else
/// `sim/libs` under `XDG_CACHE_HOME`, else `.cache/sim/libs` under `HOME`,
/// else `sim/libs` under the temporary directory.
pub open spec fn default_cache_dir_spec(
    sim_cli_cache_dir: Option<Seq<char>>,
    xdg_cache_home: Option<Seq<char>>,
    home: Option<Seq<char>>,
    temp_dir: Seq<char>,
) -> Seq<char> {
    match sim_cli_cache_dir {
        Some(p) => p,
        None => match xdg_cache_home {
            Some(p) => path_join(path_join(p, "sim"@), "libs"@),
            None => match home {
                Some(h) => path_join(path_join(path_join(h, ".cache"@), "sim"@), "libs"@),
                None => path_join(path_join(temp_dir, "sim"@), "libs"@),
            },
        },
    }
}

/// Listings of registry artifacts.
pub open spec fn registry_listing_views(r: Seq<RegistryArtifact>) -> Seq<ListingView> {
    r.map_values(
        |a: RegistryArtifact|
            ListingView {
                package: a.package@,
                version: a.version@,
                artifact: a.artifact@,
                source: CratesIoListingSource::Registry,
            },
    )
}

/// What resolving a spec requires of the caller.
#[derive(Clone, Debug, PartialEq, Eq)]
pub enum ResolveStep {
    /// An already-cached artifact satisfies the spec.
    Cached(ResolvedCratesIoSource),
    /// A registered registry artifact satisfies the spec: copy `from` to the
    /// resolved cache path.
    CopyRegistry { from: String, resolved: ResolvedCratesIoSource },
    /// Neither the cache nor the in-memory registry has a match: fetch through
    /// the installed git registry resolver.
    FetchGitRegistry(GitRegistryResolver),
}

/// Joins a path component as `Path::join` does on unix: an absolute
/// component replaces the base, otherwise a separator is added when needed.
pub open spec fn path_join(base: Seq<char>, part: Seq<char>) -> Seq<char> {
    if part.len() > 0 && part[0] == '/' {
        part
    } else if base.len() == 0 {
        part
    } else if base.last() == '/' {
        base + part
    } else {
        base + "/"@ + part
    }
}

/// Joins `part` onto `base` as [`path_join`] states.
pub fn join_path(base: &str, part: &str) -> (r: String)
    ensures
        r@ == path_join(base@, part@),
{
    proof {
        reveal_strlit("/");
    }
    let b = chars_of(base);
    let p = chars_of(part);
    if p.len() > 0 && p[0] == '/' {
        owned(part)
    } else if b.len() == 0 {
        owned(part)
    } else if b[b.len() - 1] == '/' {
        concat2(base, part)
    } else {
        let mut r = concat2(base, "/");
        r.append(part);
        r
    }
}

/// `CACHE/crates.io/PACKAGE/VERSION/FILE`.
pub open spec fn cache_path_spec(
    cache_dir: Seq<char>,
    package: Seq<char>,
    version: Seq<char>,
    file_name: Seq<char>,
) -> Seq<char> {
    path_join(path_join(path_join(path_join(cache_dir, "crates.io"@), package), version), file_name)
}

/// Path of a cached artifact file for one package version.
pub fn cache_artifact_path_with_file(
    cache_dir: &str,
    package: &str,
    version: &str,
    file_name: &str,
) -> (r: String)
    ensures
        r@ == cache_path_spec(cache_dir@, package@, version@, file_name@),
{
    let a = join_path(cache_dir, "crates.io");
    let b = join_path(a.as_str(), package);
    let c = join_path(b.as_str(), version);
    join_path(c.as_str(), file_name)
}

/// Path of the default artifact file for one package version.
pub fn cache_artifact_path(cache_dir: &str, package: &str, version: &str) -> (r: String)
    ensures
        r@ == cache_path_spec(cache_dir@, package@, version@, ARTIFACT_FILE@),
{
    cache_artifact_path_with_file(cache_dir, package, version, ARTIFACT_FILE)
}

/// Whether index `i` of `versions` is the pick among the entries flagged in
/// `ok`: a highest version, and the first such in listing order.
pub open spec fn is_best_pick(versions: Seq<Seq<char>>, ok: Seq<bool>, i: int) -> bool {
    &&& 0 <= i < versions.len()
    &&& i < ok.len()
    &&& ok[i]
    &&& forall|j: int|
        0 <= j < versions.len() && j < ok.len() && ok[j] ==> compare_version_text(versions[j], versions[i])
            != VersionOrder::Greater
    &&& forall|j: int|
        0 <= j < i && ok[j] ==> compare_version_text(versions[j], versions[i]) == VersionOrder::Less
}

/// Whether some entry is flagged.
pub open spec fn any_ok(ok: Seq<bool>) -> bool {
    exists|j: int| 0 <= j < ok.len() && ok[j]
}

/// The pick among candidates is unique.
pub proof fn law_best_pick_unique(versions: Seq<Seq<char>>, ok: Seq<bool>, i: int, k: int)
    requires
        is_best_pick(versions, ok, i),
        is_best_pick(versions, ok, k),
    ensures
        i == k,
{
    if i < k {
        law_compare_antisymmetric(versions[i], versions[k]);
    } else if k < i {
        law_compare_antisymmetric(versions[k], versions[i]);
    }
}

/// Views of a list of strings.
pub open spec fn strings_view(v: Seq<String>) -> Seq<Seq<char>> {
    v.map_values(|s: String| s@)
}

/// Picks a highest flagged version, the first such in listing order, as a
/// stable descending sort followed by taking the head does.
pub fn pick_best(versions: &Vec<String>, ok: &Vec<bool>) -> (r: Option<usize>)
    requires
        versions@.len() == ok@.len(),
    ensures
        r matches Some(i) ==> is_best_pick(strings_view(versions@), ok@, i as int),
        r is None ==> !any_ok(ok@),
{
    let ghost vs = strings_view(versions@);
    let mut best: Option<usize> = None;
    let mut i: usize = 0;
    while i < versions.len()
        invariant
            i <= versions@.len(),
            versions@.len() == ok@.len(),
            vs == strings_view(versions@),
            best matches Some(b) ==> b < i && is_best_pick(vs.take(i as int), ok@.take(i as int), b as int),
            best is None ==> forall|j: int| 0 <= j < i ==> !ok@[j],
        decreases versions@.len() - i,
    {
        let ghost vt = vs.take(i + 1);
        let ghost ot = ok@.take(i + 1);
        if ok[i] {
            match best {
                None => {
                    proof {
                        law_compare_reflexive(vs[i as int]);
                        assert(is_best_pick(vt, ot, i as int));
                    }
                    best = Some(i);
                },
                Some(b) => {
                    let o = compare_versions(versions[i].as_str(), versions[b].as_str());
                    if o == VersionOrder::Greater {
                        proof {
                            law_compare_antisymmetric(vs[i as int], vs[b as int]);
                            law_compare_reflexive(vs[i as int]);
                            assert forall|j: int| 0 <= j < vt.len() && j < ot.len() && ot[j] implies
                                compare_version_text(vt[j], vt[i as int]) != VersionOrder::Greater by {
                                if j < i {
                                    assert(vs.take(i as int)[j] == vs[j]);
                                    assert(ok@.take(i as int)[j] == ok@[j]);
                                    law_compare_transitive(vs[j], vs[b as int], vs[i as int]);
                                }
                            }
                            assert forall|j: int| 0 <= j < i && ot[j] implies compare_version_text(
                                vt[j],
                                vt[i as int],
                            ) == VersionOrder::Less by {
                                assert(vs.take(i as int)[j] == vs[j]);
                                assert(ok@.take(i as int)[j] == ok@[j]);
                                law_compare_transitive(vs[j], vs[b as int], vs[i as int]);
                            }
                        }
                        best = Some(i);
                    } else {
                        proof {
                            assert forall|j: int| 0 <= j < vt.len() && j < ot.len() && ot[j] implies
                                compare_version_text(vt[j], vt[b as int]) != VersionOrder::Greater by {
                                if j < i {
                                    assert(vs.take(i as int)[j] == vs[j]);
                                    assert(ok@.take(i as int)[j] == ok@[j]);
                                }
                            }
                            assert forall|j: int| 0 <= j < b && ot[j] implies compare_version_text(
                                vt[j],
                                vt[b as int],
                            ) == VersionOrder::Less by {
                                assert(vs.take(i as int)[j] == vs[j]);
                                assert(ok@.take(i as int)[j] == ok@[j]);
                            }
                            assert(vs.take(i as int)[b as int] == vs[b as int]);
                        }
                    }
                },
            }
        } else {
            proof {
                match best {
                    Some(b) => {
                        assert forall|j: int| 0 <= j < vt.len() && j < ot.len() && ot[j] implies
                            compare_version_text(vt[j], vt[b as int]) != VersionOrder::Greater by {
                            assert(vs.take(i as int)[j] == vs[j]);
                            assert(ok@.take(i as int)[j] == ok@[j]);
                        }
                        assert forall|j: int| 0 <= j < b && ot[j] implies compare_version_text(
                            vt[j],
                            vt[b as int],
                        ) == VersionOrder::Less by {
                            assert(vs.take(i as int)[j] == vs[j]);
                            assert(ok@.take(i as int)[j] == ok@[j]);
                        }
                        assert(vs.take(i as int)[b as int] == vs[b as int]);
                    },
                    None => {},
                }
            }
        }
        i = i + 1;
    }
    proof {
        assert(vs.take(versions@.len() as int) =~= vs);
        assert(ok@.take(versions@.len() as int) =~= ok@);
    }
    best
}


/// Versions of cached entries.
pub open spec fn cached_versions(c: Seq<CachedVersion>) -> Seq<Seq<char>> {
    c.map_values(|e: CachedVersion| e.version@)
}

/// Which cached entries hold a file and satisfy a requirement.
pub open spec fn cached_flags(c: Seq<CachedVersion>, req: VersionReq) -> Seq<bool> {
    c.map_values(|e: CachedVersion| e.files@.len() > 0 && req.matches_spec(e.version@))
}

/// Versions of registry entries.
pub open spec fn registry_versions(r: Seq<RegistryArtifact>) -> Seq<Seq<char>> {
    r.map_values(|e: RegistryArtifact| e.version@)
}

/// Which registry entries are of the spec's package and satisfy its
/// requirement.
pub open spec fn registry_flags(r: Seq<RegistryArtifact>, spec: CratesIoSpec) -> Seq<bool> {
    r.map_values(|e: RegistryArtifact| e.package@ == spec.package@ && spec.requirement.matches_spec(e.version@))
}

/// Message when nothing resolves a spec.
pub open spec fn cache_only_msg(spec: CratesIoSpec) -> Seq<char> {
    "crates.io network fetch is not implemented (cache-only resolver); seed the cache for "@
        + spec.text()
}

/// A caret requirement never matches a version below its minimum, nor one
/// outside the minimum's compatible range: every version a `^M`
/// requirement accepts compares at or above `M`, has `M`'s major number,
/// and, when that major is 0, `M`'s minor number too.
pub proof fn law_caret_match_not_below_minimum(req: VersionReq, version: Seq<char>)
    requires
        req.view().kind is Caret,
        req.matches_spec(version),
    ensures
        compare_version_text(version, req.view().kind->Caret_0) != VersionOrder::Less,
        comp_at(version_components(version), 0) == comp_at(
            version_components(req.view().kind->Caret_0),
            0,
        ),
        comp_at(version_components(req.view().kind->Caret_0), 0) == 0 ==> comp_at(
            version_components(version),
            1,
        ) == comp_at(version_components(req.view().kind->Caret_0), 1),
{
}

/// `*` matches every version, and an exact requirement matches exactly its
/// own version text.
pub proof fn law_any_and_exact_match(req: VersionReq, version: Seq<char>)
    ensures
        req.view().kind is Any ==> req.matches_spec(version),
        req.view().kind is Exact ==> (req.matches_spec(version) <==> version == req.view().kind->Exact_0),
{
}

/// What resolving a spec gives, as values: the resolved source of a cache
/// hit, the copy and resolved source of a registry hit, the git registry
/// to fetch through, or the error.
pub enum ResolveView {
    Cached { requested: SpecView, package: Seq<char>, version: Seq<char>, artifact: Seq<char> },
    CopyRegistry {
        from: Seq<char>,
        requested: SpecView,
        package: Seq<char>,
        version: Seq<char>,
        artifact: Seq<char>,
    },
    FetchGitRegistry { endpoint: Seq<char>, cache_dir: Seq<char> },
    Failed(Seq<char>),
}

/// The best pick among candidates (meaningful when one is acceptable).
pub open spec fn best_index(versions: Seq<Seq<char>>, ok: Seq<bool>) -> int {
    choose|i: int| is_best_pick(versions, ok, i)
}

/// The artifact file of a version directory (meaningful when it holds one).
pub open spec fn artifact_index(files: Seq<Seq<char>>) -> int {
    choose|k: int| is_artifact_choice(files, k)
}

/// What resolving a spec gives, from the resolver's cache directory,
/// registry and git resolver, and the cached version directories.
pub open spec fn resolve_outcome(
    cache_dir: Seq<char>,
    registry: Seq<RegistryArtifact>,
    git: Option<GitRegistryResolver>,
    spec: CratesIoSpec,
    cached: Seq<CachedVersion>,
) -> ResolveView {
    let cflags = cached_flags(cached, spec.requirement);
    let rflags = registry_flags(registry, spec);
    if any_ok(cflags) {
        let i = best_index(cached_versions(cached), cflags);
        ResolveView::Cached {
            requested: spec.view(),
            package: spec.package@,
            version: cached[i].version@,
            artifact: cached[i].files@[artifact_index(string_texts(cached[i].files@))]@,
        }
    } else if any_ok(rflags) {
        let e = registry[best_index(registry_versions(registry), rflags)];
        ResolveView::CopyRegistry {
            from: e.artifact@,
            requested: spec.view(),
            package: e.package@,
            version: e.version@,
            artifact: cache_path_spec(cache_dir, e.package@, e.version@, ARTIFACT_FILE@),
        }
    } else {
        match git {
            Some(g) => ResolveView::FetchGitRegistry { endpoint: g.endpoint_view(), cache_dir: g.cache_dir_view() },
            None => ResolveView::Failed(cache_only_msg(spec)),
        }
    }
}

/// The values of what `resolve` returned.
pub open spec fn resolve_view(r: Result<ResolveStep, CliError>) -> ResolveView {
    match r {
        Ok(ResolveStep::Cached(s)) => ResolveView::Cached {
            requested: s.requested.view(),
            package: s.package@,
            version: s.version@,
            artifact: s.artifact@,
        },
        Ok(ResolveStep::CopyRegistry { from, resolved }) => ResolveView::CopyRegistry {
            from: from@,
            requested: resolved.requested.view(),
            package: resolved.package@,
            version: resolved.version@,
            artifact: resolved.artifact@,
        },
        Ok(ResolveStep::FetchGitRegistry(g)) => ResolveView::FetchGitRegistry {
            endpoint: g.endpoint_view(),
            cache_dir: g.cache_dir_view(),
        },
        Err(e) => ResolveView::Failed(e.message@),
    }
}

/// crates.io-style artifact resolver. It performs no network access itself:
/// it resolves a spec from an already-seeded local cache, then from an
/// explicitly registered registry artifact, and only then hands the spec to an
/// installed git registry resolver.
#[derive(Clone, Debug)]
pub struct CratesIoResolver {
    cache_dir: String,
    registry: Vec<RegistryArtifact>,
    git_registry: Option<GitRegistryResolver>,
}

impl RegistryArtifact {
    /// A copy of this entry.
    pub fn copy(&self) -> (r: Self)
        ensures
            r.package@ == self.package@,
            r.version@ == self.version@,
            r.artifact@ == self.artifact@,
    {
        RegistryArtifact {
            package: self.package.clone(),
            version: self.version.clone(),
            artifact: self.artifact.clone(),
        }
    }
}

impl CratesIoResolver {
    /// The cache directory.
    pub closed spec fn cache_dir_view(&self) -> Seq<char> {
        self.cache_dir@
    }

    /// The registered registry artifacts, in registration order.
    pub closed spec fn registry_view(&self) -> Seq<RegistryArtifact> {
        self.registry@
    }

    /// The installed git registry resolver.
    pub closed spec fn git_view(&self) -> Option<GitRegistryResolver> {
        self.git_registry
    }

    /// The default cache directory, from the values of `SIM_CLI_CACHE_DIR`,
    /// `XDG_CACHE_HOME` and `HOME` (each where set) and the system temporary
    /// directory: the first of them that is set decides.
    pub fn default_cache_dir(
        sim_cli_cache_dir: Option<String>,
        xdg_cache_home: Option<String>,
        home: Option<String>,
        temp_dir: &str,
    ) -> (r: String)
        ensures
            r@ == default_cache_dir_spec(
                opt_text(sim_cli_cache_dir),
                opt_text(xdg_cache_home),
                opt_text(home),
                temp_dir@,
            ),
    {
        match sim_cli_cache_dir {
            Some(path) => path,
            None => match xdg_cache_home {
                Some(path) => join_path(join_path(path.as_str(), "sim").as_str(), "libs"),
                None => match home {
                    Some(path) => join_path(
                        join_path(join_path(path.as_str(), ".cache").as_str(), "sim").as_str(),
                        "libs",
                    ),
                    None => join_path(join_path(temp_dir, "sim").as_str(), "libs"),
                },
            },
        }
    }

    /// Builds a cache-only resolver rooted at a cache directory.
    pub fn new(cache_dir: String) -> (r: Self)
        ensures
            r.cache_dir_view() == cache_dir@,
            r.registry_view().len() == 0,
            r.git_view() is None,
    {
        CratesIoResolver { cache_dir, registry: Vec::new(), git_registry: None }
    }

    /// Returns the cache directory this resolver reads from.
    pub fn cache_dir(&self) -> (r: &str)
        ensures
            r@ == self.cache_dir_view(),
    {
        self.cache_dir.as_str()
    }

    /// The listings of the registered registry artifacts, in registration
    /// order.
    fn registry_artifact_listings(&self) -> (r: Vec<CratesIoListing>)
        ensures
            listing_views(r@) == registry_listing_views(self.registry_view()),
    {
        let mut out: Vec<CratesIoListing> = Vec::new();
        let mut i: usize = 0;
        while i < self.registry.len()
            invariant
                i <= self.registry@.len(),
                listing_views(out@) == registry_listing_views(self.registry@.take(i as int)),
            decreases self.registry@.len() - i,
        {
            let a = &self.registry[i];
            let ghost prev = out@;
            out.push(
                CratesIoListing {
                    package: a.package.clone(),
                    version: a.version.clone(),
                    artifact: a.artifact.clone(),
                    source: CratesIoListingSource::Registry,
                },
            );
            assert(out@.drop_last() =~= prev);
            assert(self.registry@.take(i + 1).drop_last() =~= self.registry@.take(i as int));
            assert(listing_views(out@) =~= listing_views(prev).push(out@.last().view()));
            assert(registry_listing_views(self.registry@.take(i + 1)) =~= registry_listing_views(
                self.registry@.take(i as int),
            ).push(out@.last().view()));
            i = i + 1;
        }
        assert(self.registry@.take(self.registry@.len() as int) =~= self.registry@);
        out
    }

    /// Every crates.io artifact available without network access: the
    /// registered registry artifacts and the given cache listings, sorted by
    /// package, newest version first, artifact path and source.
    pub fn available_artifacts(&self, cached: &Vec<CratesIoListing>) -> (r: Vec<CratesIoListing>)
        ensures
            listing_views(r@) == sorted_listings(
                registry_listing_views(self.registry_view()) + listing_views(cached@),
            ),
    {
        let mut listings = self.registry_artifact_listings();
        let ghost reg = listing_views(listings@);
        let mut i: usize = 0;
        while i < cached.len()
            invariant
                i <= cached@.len(),
                listing_views(listings@) == reg + listing_views(cached@).take(i as int),
            decreases cached@.len() - i,
        {
            let ghost prev = listings@;
            listings.push(cached[i].copy());
            assert(listings@.drop_last() =~= prev);
            assert(listing_views(listings@) =~= listing_views(prev).push(cached@[i as int].view()));
            assert(listing_views(cached@).take(i + 1) =~= listing_views(cached@).take(i as int).push(
                cached@[i as int].view(),
            ));
            i = i + 1;
        }
        assert(listing_views(cached@).take(cached@.len() as int) =~= listing_views(cached@));
        sort_listings(&listings)
    }

    /// Registers an in-memory registry artifact available for resolution.
    pub fn add_registry_artifact(&mut self, package: String, version: String, artifact: String)
        ensures
            final(self).cache_dir_view() == old(self).cache_dir_view(),
            final(self).git_view() == old(self).git_view(),
            final(self).registry_view() == old(self).registry_view().push(
                RegistryArtifact { package, version, artifact },
            ),
    {
        self.registry.push(RegistryArtifact { package, version, artifact });
    }

    /// Registers an in-memory registry artifact, returning the resolver.
    pub fn with_registry_artifact(self, package: String, version: String, artifact: String) -> (r:
        Self)
        ensures
            r.cache_dir_view() == self.cache_dir_view(),
            r.git_view() == self.git_view(),
            r.registry_view() == self.registry_view().push(
                RegistryArtifact { package, version, artifact },
            ),
    {
        let mut r = self;
        r.add_registry_artifact(package, version, artifact);
        r
    }

    /// Installs the git registry resolver used after cache and registry
    /// misses.
    pub fn add_git_registry_resolver(&mut self, resolver: GitRegistryResolver)
        ensures
            final(self).cache_dir_view() == old(self).cache_dir_view(),
            final(self).registry_view() == old(self).registry_view(),
            final(self).git_view() == Some(resolver),
    {
        self.git_registry = Some(resolver);
    }

    /// Installs the git registry resolver, returning the resolver.
    pub fn with_git_registry_resolver(self, resolver: GitRegistryResolver) -> (r: Self)
        ensures
            r.cache_dir_view() == self.cache_dir_view(),
            r.registry_view() == self.registry_view(),
            r.git_view() == Some(resolver),
    {
        let mut r = self;
        r.add_git_registry_resolver(resolver);
        r
    }

    /// Builds a git registry resolver from an endpoint and this resolver's
    /// cache, and installs it.
    pub fn with_git_registry_endpoint(self, endpoint: &str) -> (r: Result<Self, CliError>)
        ensures
            match endpoint_spec(endpoint@, false) {
                Ok(e) => r matches Ok(c) && c.cache_dir_view() == self.cache_dir_view()
                    && c.registry_view() == self.registry_view() && (c.git_view() matches Some(g)
                    && g.endpoint_view() == e && g.cache_dir_view() == self.cache_dir_view()),
                Err(m) => r matches Err(x) && x.message@ == m,
            },
    {
        let resolver = GitRegistryResolver::new(endpoint, self.cache_dir.clone())?;
        let mut r = self;
        r.add_git_registry_resolver(resolver);
        Ok(r)
    }

    /// The newest cached version directory that satisfies the spec.
    fn cached_artifact(&self, spec: &CratesIoSpec, cached: &Vec<CachedVersion>) -> (r: Option<usize>)
        ensures
            r matches Some(i) ==> is_best_pick(
                cached_versions(cached@),
                cached_flags(cached@, spec.requirement),
                i as int,
            ),
            r is None ==> !any_ok(cached_flags(cached@, spec.requirement)),
    {
        let mut versions: Vec<String> = Vec::new();
        let mut flags: Vec<bool> = Vec::new();
        let mut k: usize = 0;
        while k < cached.len()
            invariant
                k <= cached@.len(),
                versions@.len() == k,
                flags@.len() == k,
                forall|m: int| 0 <= m < k ==> #[trigger] versions@[m]@ == cached@[m].version@,
                forall|m: int|
                    0 <= m < k ==> #[trigger] flags@[m] == (cached@[m].files@.len() > 0
                        && spec.requirement.matches_spec(cached@[m].version@)),
            decreases cached@.len() - k,
        {
            versions.push(cached[k].version.clone());
            let has_file = cached[k].files.len() > 0;
            flags.push(has_file && spec.requirement.matches(cached[k].version.as_str()));
            k = k + 1;
        }
        assert(strings_view(versions@) =~= cached_versions(cached@));
        assert(flags@ =~= cached_flags(cached@, spec.requirement));
        pick_best(&versions, &flags)
    }

    /// The newest registered registry artifact of the spec's package that
    /// satisfies its requirement.
    fn registry_artifact(&self, spec: &CratesIoSpec) -> (r: Option<usize>)
        ensures
            r matches Some(i) ==> is_best_pick(
                registry_versions(self.registry_view()),
                registry_flags(self.registry_view(), *spec),
                i as int,
            ),
            r is None ==> !any_ok(registry_flags(self.registry_view(), *spec)),
    {
        let mut versions: Vec<String> = Vec::new();
        let mut flags: Vec<bool> = Vec::new();
        let mut k: usize = 0;
        while k < self.registry.len()
            invariant
                k <= self.registry@.len(),
                versions@.len() == k,
                flags@.len() == k,
                forall|m: int| 0 <= m < k ==> #[trigger] versions@[m]@ == self.registry@[m].version@,
                forall|m: int|
                    0 <= m < k ==> #[trigger] flags@[m] == (self.registry@[m].package@ == spec.package@
                        && spec.requirement.matches_spec(self.registry@[m].version@)),
            decreases self.registry@.len() - k,
        {
            let e = &self.registry[k];
            versions.push(e.version.clone());
            let same = str_eq(e.package.as_str(), spec.package.as_str());
            flags.push(same && spec.requirement.matches(e.version.as_str()));
            k = k + 1;
        }
        assert(strings_view(versions@) =~= registry_versions(self.registry_view()));
        assert(flags@ =~= registry_flags(self.registry_view(), *spec));
        pick_best(&versions, &flags)
    }

    /// Decides how a spec resolves, given the package's cached version
    /// directories as listed from disk: the newest matching cached artifact,
    /// else the newest matching registered registry artifact (to be copied
    /// into the cache), else the installed git registry resolver, else a
    /// cache-only error.
    pub fn resolve(&self, spec: &CratesIoSpec, cached: &Vec<CachedVersion>) -> (r: Result<
        ResolveStep,
        CliError,
    >)
        ensures
            any_ok(cached_flags(cached@, spec.requirement)) ==> (r matches Ok(ResolveStep::Cached(res))
                && res.requested.view() == spec.view() && res.package@ == spec.package@ && exists|
                i: int|
                #![trigger cached@[i]]
                is_best_pick(cached_versions(cached@), cached_flags(cached@, spec.requirement), i)
                    && res.version@ == cached@[i].version@ && exists|k: int|
                    is_artifact_choice(string_texts(cached@[i].files@), k) && res.artifact@
                        == #[trigger] cached@[i].files@[k]@),
            !any_ok(cached_flags(cached@, spec.requirement)) && any_ok(
                registry_flags(self.registry_view(), *spec),
            ) ==> (r matches Ok(ResolveStep::CopyRegistry { from, resolved })
                && resolved.requested.view() == spec.view() && exists|i: int|
                #![trigger self.registry_view()[i]]
                is_best_pick(
                    registry_versions(self.registry_view()),
                    registry_flags(self.registry_view(), *spec),
                    i,
                ) && from@ == self.registry_view()[i].artifact@ && resolved.package@
                    == self.registry_view()[i].package@ && resolved.version@
                    == self.registry_view()[i].version@ && resolved.artifact@ == cache_path_spec(
                    self.cache_dir_view(),
                    self.registry_view()[i].package@,
                    self.registry_view()[i].version@,
                    ARTIFACT_FILE@,
                )),
            !any_ok(cached_flags(cached@, spec.requirement)) && !any_ok(
                registry_flags(self.registry_view(), *spec),
            ) && self.git_view() is Some ==> (r matches Ok(ResolveStep::FetchGitRegistry(g))
                && g.endpoint_view() == self.git_view()->Some_0.endpoint_view()
                && g.cache_dir_view() == self.git_view()->Some_0.cache_dir_view()),
            !any_ok(cached_flags(cached@, spec.requirement)) && !any_ok(
                registry_flags(self.registry_view(), *spec),
            ) && self.git_view() is None ==> (r matches Err(e) && e.message@ == cache_only_msg(
                *spec,
            )),
            resolve_view(r) == resolve_outcome(
                self.cache_dir_view(),
                self.registry_view(),
                self.git_view(),
                *spec,
                cached@,
            ),
    {
        match self.cached_artifact(spec, cached) {
            Some(i) => {
                proof {
                    let ii = i as int;
                    assert(cached_flags(cached@, spec.requirement)[ii]);
                    assert(cached@[ii].files@.len() > 0);
                }
                let artifact = match cached[i].artifact() {
                    Some(a) => a,
                    None => String::new(),
                };
                let res = ResolvedCratesIoSource {
                    requested: spec.copy(),
                    package: spec.package.clone(),
                    version: cached[i].version.clone(),
                    artifact,
                };
                proof {
                    let ii = i as int;
                    let cflags = cached_flags(cached@, spec.requirement);
                    assert(is_best_pick(cached_versions(cached@), cflags, ii));
                    assert(res.version@ == cached@[ii].version@);
                    assert(any_ok(cflags));
                    let bi = best_index(cached_versions(cached@), cflags);
                    law_best_pick_unique(cached_versions(cached@), cflags, ii, bi);
                    let files = string_texts(cached@[ii].files@);
                    let k = choose|k: int| is_artifact_choice(files, k) && res.artifact@ == #[trigger] cached@[ii].files@[k]@;
                    lemma_artifact_choice_unique(files, k, artifact_index(files));
                }
                return Ok(ResolveStep::Cached(res));
            },
            None => {},
        }
        match self.registry_artifact(spec) {
            Some(i) => {
                let entry = self.registry[i].copy();
                let artifact = cache_artifact_path(
                    self.cache_dir.as_str(),
                    entry.package.as_str(),
                    entry.version.as_str(),
                );
                let resolved = ResolvedCratesIoSource {
                    requested: spec.copy(),
                    package: entry.package,
                    version: entry.version,
                    artifact,
                };
                proof {
                    let ii = i as int;
                    let rflags = registry_flags(self.registry_view(), *spec);
                    assert(is_best_pick(registry_versions(self.registry_view()), rflags, ii));
                    assert(self.registry_view()[ii] == self.registry@[ii]);
                    law_best_pick_unique(
                        registry_versions(self.registry_view()),
                        rflags,
                        ii,
                        best_index(registry_versions(self.registry_view()), rflags),
                    );
                }
                return Ok(ResolveStep::CopyRegistry { from: entry.artifact, resolved });
            },
            None => {},
        }
        match &self.git_registry {
            Some(g) => Ok(ResolveStep::FetchGitRegistry(g.copy())),
            None => {
                let mut m = owned(
                    "crates.io network fetch is not implemented (cache-only resolver); seed the cache for ",
                );
                m.append(spec.to_string().as_str());
                Err(CliError::new(m))
            },
        }
    }
}

/// Registering an artifact through the builder and through the in-place
/// method gives resolvers that behave alike: the same cache directory, the
/// same outcome of resolving any spec against any cache listing, and the
/// same available artifacts for any cached listings.
pub proof fn law_registry_builders_agree(
    before: CratesIoResolver,
    built: CratesIoResolver,
    added: CratesIoResolver,
    entry: RegistryArtifact,
)
    requires
        built.cache_dir_view() == before.cache_dir_view(),
        built.git_view() == before.git_view(),
        built.registry_view() == before.registry_view().push(entry),
        added.cache_dir_view() == before.cache_dir_view(),
        added.git_view() == before.git_view(),
        added.registry_view() == before.registry_view().push(entry),
    ensures
        built.cache_dir_view() == added.cache_dir_view(),
        built.registry_view() == added.registry_view(),
        built.git_view() == added.git_view(),
        registry_listing_views(built.registry_view()) == registry_listing_views(added.registry_view()),
        forall|spec: CratesIoSpec|
            #[trigger] registry_flags(built.registry_view(), spec) == registry_flags(added.registry_view(), spec),
        forall|spec: CratesIoSpec, cached: Seq<CachedVersion>|
            #[trigger] resolve_outcome(
                built.cache_dir_view(),
                built.registry_view(),
                built.git_view(),
                spec,
                cached,
            ) == resolve_outcome(
                added.cache_dir_view(),
                added.registry_view(),
                added.git_view(),
                spec,
                cached,
            ),
        forall|cached: Seq<ListingView>|
            #[trigger] sorted_listings(registry_listing_views(built.registry_view()) + cached)
                == sorted_listings(registry_listing_views(added.registry_view()) + cached),
{
}

/// Installing a git registry endpoint on a resolver fails exactly when
/// building a git resolver for that endpoint and the resolver's cache
/// fails, with the same message; otherwise the installed git resolver has
/// the endpoint and cache the direct construction has, and the cache
/// directory and registry stay as they were.
pub proof fn law_git_endpoint_builder_matches_constructor(
    endpoint: Seq<char>,
    before: CratesIoResolver,
    built: Result<CratesIoResolver, CliError>,
    direct: Result<GitRegistryResolver, CliError>,
)
    requires
        match endpoint_spec(endpoint, false) {
            Ok(e) => built matches Ok(c) && c.cache_dir_view() == before.cache_dir_view()
                && c.registry_view() == before.registry_view() && (c.git_view() matches Some(g)
                && g.endpoint_view() == e && g.cache_dir_view() == before.cache_dir_view()),
            Err(m) => built matches Err(x) && x.message@ == m,
        },
        match endpoint_spec(endpoint, false) {
            Ok(e) => direct matches Ok(g) && g.endpoint_view() == e && g.cache_dir_view()
                == before.cache_dir_view(),
            Err(m) => direct matches Err(x) && x.message@ == m,
        },
    ensures
        built is Err <==> direct is Err,
        built is Err ==> built->Err_0.message@ == direct->Err_0.message@,
        built is Ok ==> {
            &&& built->Ok_0.cache_dir_view() == before.cache_dir_view()
            &&& built->Ok_0.registry_view() == before.registry_view()
            &&& built->Ok_0.git_view() matches Some(h) && h.endpoint_view()
                == direct->Ok_0.endpoint_view() && h.cache_dir_view() == direct->Ok_0.cache_dir_view()
        },
{
}

/// The fallback spec of a library symbol: `codec/NAME` maps to
/// `sim-codec-NAME`, a bare name to `sim-lib-NAME`, each at `^0.1`.
pub open spec fn fallback_package(symbol: Seq<char>) -> Option<Seq<char>> {
    if has_prefix(symbol, "codec/"@) {
        Some("sim-codec-"@ + symbol.skip(6))
    } else if symbol.len() > 0 && !has_char(symbol, '/') {
        Some("sim-lib-"@ + symbol)
    } else {
        None
    }
}

/// The crates.io spec a library symbol falls back to.
pub fn fallback_spec_for_symbol(symbol: &str) -> (r: Option<CratesIoSpec>)
    ensures
        match fallback_package(symbol@) {
            Some(p) => r matches Some(s) && s.package@ == p && s.requirement.view().raw == DEFAULT_FALLBACK_REQ@
                && s.requirement.view().kind == ReqKindSpec::Caret("0.1"@),
            None => r is None,
        },
{
    proof {
        reveal_strlit("codec/");
        reveal_strlit("^0.1");
        reveal_strlit("0.1");
        reveal_strlit("sim-codec-");
        reveal_strlit("sim-lib-");
    }
    let chars = chars_of(symbol);
    let prefix = chars_of("codec/");
    if starts_with_chars(&chars, &prefix) {
        let rest = sub_chars(&chars, 6, chars.len());
        assert(rest@ =~= symbol@.skip(6));
        let mut package = owned("sim-codec-");
        package.append(string_of(&rest).as_str());
        return fallback_spec(package);
    }
    if chars.len() > 0 && !crate::text::contains_char(&chars, '/') {
        return fallback_spec(concat2("sim-lib-", symbol));
    }
    None
}

/// A spec for a nonempty package at the default fallback requirement.
fn fallback_spec(package: String) -> (r: Option<CratesIoSpec>)
    requires
        package@.len() > 0,
    ensures
        r matches Some(s) && s.package@ == package@ && s.requirement.view().raw == DEFAULT_FALLBACK_REQ@
            && s.requirement.view().kind == ReqKindSpec::Caret("0.1"@),
{
    proof {
        reveal_strlit("^0.1");
        reveal_strlit("0.1");
        reveal_strlit("*");
        assert(DEFAULT_FALLBACK_REQ@ == "^0.1"@);
        assert("^0.1"@ != "*"@);
        assert("^0.1"@.drop_first() =~= "0.1"@);
        assert(parse_req_spec("^0.1"@) == Ok::<ReqKindSpec, Seq<char>>(ReqKindSpec::Caret("0.1"@)));
    }
    match VersionReq::parse_req(DEFAULT_FALLBACK_REQ) {
        Ok(req) => {
            assert("^0.1"@.drop_first() =~= "0.1"@);
            match CratesIoSpec::new(package, req) {
                Ok(s) => Some(s),
                Err(_) => None,
            }
        },
        Err(_) => None,
    }
}

} // verus!
