//! Loader-defined library sources. The kernel carries a source it does not
//! know as an open `(kind, payload)` pair; the standard loaders define the
//! `path`, `url`, `bytes` and `content-address` kinds and the grammar of
//! their payloads, and the loader port adds exact static artifacts, a
//! registry of them, and the checks made when a loader service realizes a
//! library.
use vstd::prelude::*;
use vstd::string::*;
use vstd::utf8::encode_utf8;

use crate::manifest::{same_manifest, LibManifest};
use crate::symbol::{plain_symbol, qualified_symbol, qualified_text, Symbol, SymbolView};
use crate::text::{concat2, owned};

verus! {

broadcast use vstd::string::group_string_axioms;

// ---------------------------------------------------------------------------
// Sources and payloads
// ---------------------------------------------------------------------------

/// A source payload, by the kind of datum it is; loaders read the
/// contents of symbols, strings and bytes only.
#[derive(Clone, Debug, PartialEq, Eq)]
pub enum SourceDatum {
    Nil,
    Bool(bool),
    Number,
    Symbol(Symbol),
    Str(String),
    Bytes(Vec<u8>),
    List,
    Vector,
    MapOf,
    SetOf,
    Node,
}

/// Mathematical form of a payload datum.
pub enum DatumView {
    Nil,
    Bool(bool),
    Number,
    Symbol(SymbolView),
    Str(Seq<char>),
    Bytes(Seq<u8>),
    List,
    Vector,
    MapOf,
    SetOf,
    Node,
}

impl SourceDatum {
    pub open spec fn view(&self) -> DatumView {
        match self {
            SourceDatum::Nil => DatumView::Nil,
            SourceDatum::Bool(b) => DatumView::Bool(*b),
            SourceDatum::Number => DatumView::Number,
            SourceDatum::Symbol(s) => DatumView::Symbol(s.view()),
            SourceDatum::Str(t) => DatumView::Str(t@),
            SourceDatum::Bytes(b) => DatumView::Bytes(b@),
            SourceDatum::List => DatumView::List,
            SourceDatum::Vector => DatumView::Vector,
            SourceDatum::MapOf => DatumView::MapOf,
            SourceDatum::SetOf => DatumView::SetOf,
            SourceDatum::Node => DatumView::Node,
        }
    }

    /// A copy of the datum.
    pub fn copy(&self) -> (r: Self)
        ensures
            r.view() == self.view(),
    {
        match self {
            SourceDatum::Nil => SourceDatum::Nil,
            SourceDatum::Bool(b) => SourceDatum::Bool(*b),
            SourceDatum::Number => SourceDatum::Number,
            SourceDatum::Symbol(s) => SourceDatum::Symbol(s.copy()),
            SourceDatum::Str(t) => SourceDatum::Str(t.clone()),
            SourceDatum::Bytes(b) => SourceDatum::Bytes(b.clone()),
            SourceDatum::List => SourceDatum::List,
            SourceDatum::Vector => SourceDatum::Vector,
            SourceDatum::MapOf => SourceDatum::MapOf,
            SourceDatum::SetOf => SourceDatum::SetOf,
            SourceDatum::Node => SourceDatum::Node,
        }
    }
}

/// A live library source: a catalog symbol, an open loader-defined source,
/// or a host-constructed library.
#[derive(Clone, Debug, PartialEq, Eq)]
pub enum LoaderSource {
    Symbol(Symbol),
    Open { kind: Symbol, payload: SourceDatum },
    Host,
}

/// A payload of the wrong datum kind: what was expected, and the kind found.
#[derive(Clone, Debug, PartialEq, Eq)]
pub struct PayloadMismatch {
    pub expected: String,
    pub found: String,
}

/// The kind name of a payload datum.
pub open spec fn datum_kind_text(d: SourceDatum) -> Seq<char> {
    match d {
        SourceDatum::Nil => "datum nil"@,
        SourceDatum::Bool(_) => "datum bool"@,
        SourceDatum::Number => "datum number"@,
        SourceDatum::Symbol(_) => "datum symbol"@,
        SourceDatum::Str(_) => "datum string"@,
        SourceDatum::Bytes(_) => "datum bytes"@,
        SourceDatum::List => "datum list"@,
        SourceDatum::Vector => "datum vector"@,
        SourceDatum::MapOf => "datum map"@,
        SourceDatum::SetOf => "datum set"@,
        SourceDatum::Node => "datum node"@,
    }
}

/// The kind name of a payload datum.
pub fn datum_kind(d: &SourceDatum) -> (r: String)
    ensures
        r@ == datum_kind_text(*d),
{
    match d {
        SourceDatum::Nil => owned("datum nil"),
        SourceDatum::Bool(_) => owned("datum bool"),
        SourceDatum::Number => owned("datum number"),
        SourceDatum::Symbol(_) => owned("datum symbol"),
        SourceDatum::Str(_) => owned("datum string"),
        SourceDatum::Bytes(_) => owned("datum bytes"),
        SourceDatum::List => owned("datum list"),
        SourceDatum::Vector => owned("datum vector"),
        SourceDatum::MapOf => owned("datum map"),
        SourceDatum::SetOf => owned("datum set"),
        SourceDatum::Node => owned("datum node"),
    }
}

fn mismatch(expected: &str, found: &SourceDatum) -> (r: PayloadMismatch)
    ensures
        r.expected@ == expected@,
        r.found@ == datum_kind_text(*found),
{
    PayloadMismatch { expected: owned(expected), found: datum_kind(found) }
}

/// Kind name of local filesystem path sources.
pub const PATH_SOURCE_KIND: &'static str = "path";
/// Kind name of remote URL sources.
pub const URL_SOURCE_KIND: &'static str = "url";
/// Kind name of in-memory artifact byte sources.
pub const BYTES_SOURCE_KIND: &'static str = "bytes";
/// Kind name of content-addressed artifact sources.
pub const CONTENT_ADDRESS_SOURCE_KIND: &'static str = "content-address";

/// The local path source kind: the bare symbol `path`.
pub fn path_source_kind() -> (r: Symbol)
    ensures
        r.view() == plain_symbol("path"@),
{
    Symbol::new(owned("path"))
}

/// The URL source kind: the bare symbol `url`.
pub fn url_source_kind() -> (r: Symbol)
    ensures
        r.view() == plain_symbol("url"@),
{
    Symbol::new(owned("url"))
}

/// The bytes source kind: the bare symbol `bytes`.
pub fn bytes_source_kind() -> (r: Symbol)
    ensures
        r.view() == plain_symbol("bytes"@),
{
    Symbol::new(owned("bytes"))
}

/// The content-addressed source kind: the bare symbol `content-address`.
pub fn content_address_source_kind() -> (r: Symbol)
    ensures
        r.view() == plain_symbol("content-address"@),
{
    Symbol::new(owned("content-address"))
}

/// Whether a source is an open source of kind `kind` with payload `p`.
pub open spec fn is_open(s: LoaderSource, kind: SymbolView, p: SourceDatum) -> bool {
    s matches LoaderSource::Open { kind: k, payload } && k.view() == kind && payload == p
}

/// A local path's payload: the bytes of the path.
pub fn path_payload(path: &str) -> (r: SourceDatum)
    ensures
        r matches SourceDatum::Bytes(b) && b@ == encode_utf8(path@),
{
    SourceDatum::Bytes(path.as_bytes_vec())
}

/// A live source for a local path.
pub fn path_source(path: &str) -> (r: LoaderSource)
    ensures
        r matches LoaderSource::Open { kind, payload: SourceDatum::Bytes(b) } && kind.view()
            == plain_symbol("path"@) && b@ == encode_utf8(path@),
{
    LoaderSource::Open { kind: path_source_kind(), payload: path_payload(path) }
}

/// A boot-recordable source for a local path: the same open source.
pub fn path_source_spec(path: &str) -> (r: LoaderSource)
    ensures
        r matches LoaderSource::Open { kind, payload: SourceDatum::Bytes(b) } && kind.view()
            == plain_symbol("path"@) && b@ == encode_utf8(path@),
{
    path_source(path)
}

/// A catalog source for a local path: the same open source.
pub fn catalog_path_source(path: &str) -> (r: LoaderSource)
    ensures
        r matches LoaderSource::Open { kind, payload: SourceDatum::Bytes(b) } && kind.view()
            == plain_symbol("path"@) && b@ == encode_utf8(path@),
{
    path_source(path)
}

/// A live source for a URL.
pub fn url_source(url: String) -> (r: LoaderSource)
    ensures
        r matches LoaderSource::Open { kind, payload: SourceDatum::Str(u) } && kind.view()
            == plain_symbol("url"@) && u@ == url@,
{
    LoaderSource::Open { kind: url_source_kind(), payload: SourceDatum::Str(url) }
}

/// A boot-recordable source for a URL: the same open source.
pub fn url_source_spec(url: String) -> (r: LoaderSource)
    ensures
        r matches LoaderSource::Open { kind, payload: SourceDatum::Str(u) } && kind.view()
            == plain_symbol("url"@) && u@ == url@,
{
    url_source(url)
}

/// A catalog source for a URL: the same open source.
pub fn catalog_url_source(url: String) -> (r: LoaderSource)
    ensures
        r matches LoaderSource::Open { kind, payload: SourceDatum::Str(u) } && kind.view()
            == plain_symbol("url"@) && u@ == url@,
{
    url_source(url)
}

/// A live source for in-memory artifact bytes.
pub fn bytes_source(bytes: Vec<u8>) -> (r: LoaderSource)
    ensures
        r matches LoaderSource::Open { kind, payload: SourceDatum::Bytes(b) } && kind.view()
            == plain_symbol("bytes"@) && b@ == bytes@,
{
    LoaderSource::Open { kind: bytes_source_kind(), payload: SourceDatum::Bytes(bytes) }
}

/// A boot-recordable source for artifact bytes: the same open source.
pub fn bytes_source_spec(bytes: Vec<u8>) -> (r: LoaderSource)
    ensures
        r matches LoaderSource::Open { kind, payload: SourceDatum::Bytes(b) } && kind.view()
            == plain_symbol("bytes"@) && b@ == bytes@,
{
    bytes_source(bytes)
}

/// A catalog source for artifact bytes: the same open source.
pub fn catalog_bytes_source(bytes: Vec<u8>) -> (r: LoaderSource)
    ensures
        r matches LoaderSource::Open { kind, payload: SourceDatum::Bytes(b) } && kind.view()
            == plain_symbol("bytes"@) && b@ == bytes@,
{
    bytes_source(bytes)
}

/// A live source for a content-addressed artifact payload.
pub fn content_address_source(payload: SourceDatum) -> (r: LoaderSource)
    ensures
        is_open(r, plain_symbol("content-address"@), payload),
{
    LoaderSource::Open { kind: content_address_source_kind(), payload }
}

/// A boot-recordable content-addressed source: the same open source.
pub fn content_address_source_spec(payload: SourceDatum) -> (r: LoaderSource)
    ensures
        is_open(r, plain_symbol("content-address"@), payload),
{
    content_address_source(payload)
}

/// A catalog content-addressed source: the same open source.
pub fn catalog_content_address_source(payload: SourceDatum) -> (r: LoaderSource)
    ensures
        is_open(r, plain_symbol("content-address"@), payload),
{
    content_address_source(payload)
}

/// The payload of a source when it is open with kind `kind`.
pub open spec fn open_payload_of(s: LoaderSource, kind: SymbolView) -> Option<SourceDatum> {
    match s {
        LoaderSource::Open { kind: k, payload } => if k.view() == kind {
            Some(payload)
        } else {
            None
        },
        _ => None,
    }
}

fn open_payload<'a>(source: &'a LoaderSource, expected_kind: &Symbol) -> (r: Option<&'a SourceDatum>)
    ensures
        (match r {
            Some(p) => Some(*p),
            None => None,
        }) == open_payload_of(*source, expected_kind.view()),
{
    match source {
        LoaderSource::Open { kind, payload } => {
            if kind.same(expected_kind) {
                Some(payload)
            } else {
                None
            }
        },
        _ => None,
    }
}

/// Whether a source has the local path kind.
pub fn is_path_source(source: &LoaderSource) -> (r: bool)
    ensures
        r == open_payload_of(*source, plain_symbol("path"@)) is Some,
{
    open_payload(source, &path_source_kind()).is_some()
}

/// Whether a source has the URL kind.
pub fn is_url_source(source: &LoaderSource) -> (r: bool)
    ensures
        r == open_payload_of(*source, plain_symbol("url"@)) is Some,
{
    open_payload(source, &url_source_kind()).is_some()
}

/// Whether a source has the bytes kind.
pub fn is_bytes_source(source: &LoaderSource) -> (r: bool)
    ensures
        r == open_payload_of(*source, plain_symbol("bytes"@)) is Some,
{
    open_payload(source, &bytes_source_kind()).is_some()
}

/// The path bytes a path payload names: a string's UTF-8 bytes, or the
/// bytes themselves.
pub open spec fn path_bytes_of(p: SourceDatum) -> Result<Seq<u8>, (Seq<char>, Seq<char>)> {
    match p {
        SourceDatum::Str(s) => Ok(encode_utf8(s@)),
        SourceDatum::Bytes(b) => Ok(b@),
        _ => Err(("path source string or bytes"@, datum_kind_text(p))),
    }
}

/// Decodes a local path, as its bytes, from a path payload.
pub fn path_from_payload(payload: &SourceDatum) -> (r: Result<Vec<u8>, PayloadMismatch>)
    ensures
        match path_bytes_of(*payload) {
            Ok(b) => r matches Ok(v) && v@ == b,
            Err((e, f)) => r matches Err(m) && m.expected@ == e && m.found@ == f,
        },
{
    match payload {
        SourceDatum::Str(path) => Ok(path.as_str().as_bytes_vec()),
        SourceDatum::Bytes(bytes) => Ok(bytes.clone()),
        other => Err(mismatch("path source string or bytes", other)),
    }
}

/// Decodes a URL from a URL payload, which must be a string.
pub fn url_from_payload(payload: &SourceDatum) -> (r: Result<String, PayloadMismatch>)
    ensures
        payload matches SourceDatum::Str(s) ==> (r matches Ok(u) && u@ == s@),
        !(payload is Str) ==> (r matches Err(m) && m.expected@ == "source string"@ && m.found@
            == datum_kind_text(*payload)),
{
    match payload {
        SourceDatum::Str(value) => Ok(value.clone()),
        other => Err(mismatch("source string", other)),
    }
}

/// Decodes artifact bytes from a bytes payload, which must be bytes.
pub fn bytes_from_payload(payload: &SourceDatum) -> (r: Result<Vec<u8>, PayloadMismatch>)
    ensures
        payload matches SourceDatum::Bytes(b) ==> (r matches Ok(v) && v@ == b@),
        !(payload is Bytes) ==> (r matches Err(m) && m.expected@ == "source bytes"@ && m.found@
            == datum_kind_text(*payload)),
{
    match payload {
        SourceDatum::Bytes(value) => Ok(value.clone()),
        other => Err(mismatch("source bytes", other)),
    }
}

/// Decodes a local path from a source: nothing when it is not a path
/// source, else its payload's path.
pub fn path_from_source(source: &LoaderSource) -> (r: Result<Option<Vec<u8>>, PayloadMismatch>)
    ensures
        match open_payload_of(*source, plain_symbol("path"@)) {
            None => r matches Ok(None),
            Some(p) => match path_bytes_of(p) {
                Ok(b) => r matches Ok(Some(v)) && v@ == b,
                Err((e, f)) => r matches Err(m) && m.expected@ == e && m.found@ == f,
            },
        },
{
    match open_payload(source, &path_source_kind()) {
        None => Ok(None),
        Some(p) => match path_from_payload(p) {
            Ok(v) => Ok(Some(v)),
            Err(e) => Err(e),
        },
    }
}

/// Decodes a URL from a source: nothing when it is not a URL source.
pub fn url_from_source(source: &LoaderSource) -> (r: Result<Option<String>, PayloadMismatch>)
    ensures
        match open_payload_of(*source, plain_symbol("url"@)) {
            None => r matches Ok(None),
            Some(SourceDatum::Str(s)) => r matches Ok(Some(u)) && u@ == s@,
            Some(p) => r matches Err(m) && m.expected@ == "source string"@ && m.found@
                == datum_kind_text(p),
        },
{
    match open_payload(source, &url_source_kind()) {
        None => Ok(None),
        Some(p) => match url_from_payload(p) {
            Ok(v) => Ok(Some(v)),
            Err(e) => Err(e),
        },
    }
}

/// Decodes artifact bytes from a source: nothing when it is not a bytes
/// source.
pub fn bytes_from_source(source: &LoaderSource) -> (r: Result<Option<Vec<u8>>, PayloadMismatch>)
    ensures
        match open_payload_of(*source, plain_symbol("bytes"@)) {
            None => r matches Ok(None),
            Some(SourceDatum::Bytes(b)) => r matches Ok(Some(v)) && v@ == b@,
            Some(p) => r matches Err(m) && m.expected@ == "source bytes"@ && m.found@
                == datum_kind_text(p),
        },
{
    match open_payload(source, &bytes_source_kind()) {
        None => Ok(None),
        Some(p) => match bytes_from_payload(p) {
            Ok(v) => Ok(Some(v)),
            Err(e) => Err(e),
        },
    }
}

/// The opaque payload of a content-addressed source.
pub fn content_address_payload(source: &LoaderSource) -> (r: Option<&SourceDatum>)
    ensures
        (match r {
            Some(p) => Some(*p),
            None => None,
        }) == open_payload_of(*source, plain_symbol("content-address"@)),
{
    open_payload(source, &content_address_source_kind())
}

// ---------------------------------------------------------------------------
// The loader port
// ---------------------------------------------------------------------------

/// Kind name of exact ahead-of-time artifact sources.
pub const STATIC_SOURCE_KIND: &'static str = "loader/static-artifact";

/// The static artifact source kind: `loader/static-artifact`.
pub open spec fn static_kind() -> SymbolView {
    qualified_symbol("loader"@, "static-artifact"@)
}

fn static_source_kind() -> (r: Symbol)
    ensures
        r.view() == static_kind(),
{
    Symbol::qualified(owned("loader"), owned("static-artifact"))
}

/// A source naming an exact ahead-of-time artifact.
pub fn static_source(artifact: Symbol) -> (r: LoaderSource)
    ensures
        is_open(r, static_kind(), SourceDatum::Symbol(artifact)),
{
    LoaderSource::Open { kind: static_source_kind(), payload: SourceDatum::Symbol(artifact) }
}

/// Whether a source names an exact artifact: a static source with a
/// symbol payload.
pub fn is_static_source(source: &LoaderSource) -> (r: bool)
    ensures
        r == (open_payload_of(*source, static_kind()) matches Some(SourceDatum::Symbol(_))),
{
    match open_payload(source, &static_source_kind()) {
        Some(SourceDatum::Symbol(_)) => true,
        _ => false,
    }
}

/// The artifact a source names: nothing for other sources, an error for
/// a static source whose payload is not a symbol.
pub fn static_artifact(source: &LoaderSource) -> (r: Result<Option<Symbol>, String>)
    ensures
        match open_payload_of(*source, static_kind()) {
            None => r matches Ok(None),
            Some(SourceDatum::Symbol(a)) => r matches Ok(Some(s)) && s.view() == a.view(),
            Some(_) => r matches Err(m) && m@ == "static artifact source requires a symbol payload"@,
        },
{
    match open_payload(source, &static_source_kind()) {
        None => Ok(None),
        Some(SourceDatum::Symbol(a)) => Ok(Some(a.copy())),
        Some(_) => Err(owned("static artifact source requires a symbol payload")),
    }
}

/// An open loader-kind identity a platform capsule advertises.
#[derive(Clone, Debug, PartialEq, Eq, PartialOrd, Ord)]
pub struct LoaderKind(pub Symbol);

impl LoaderKind {
    pub fn new(symbol: Symbol) -> (r: Self)
        ensures
            r.0.view() == symbol.view(),
    {
        LoaderKind(symbol)
    }

    /// The stable loader-kind symbol.
    pub fn symbol(&self) -> (r: &Symbol)
        ensures
            r.view() == self.0.view(),
    {
        &self.0
    }
}

/// A copy of a data source to hand across the loader port; host libraries
/// cannot cross it.
pub fn clone_data_source(source: &LoaderSource) -> (r: Result<LoaderSource, String>)
    ensures
        source is Host ==> (r matches Err(m) && m@ == "host library sources cannot cross LoaderPort"@),
        source matches LoaderSource::Symbol(s) ==> (r matches Ok(LoaderSource::Symbol(t)) && t.view()
            == s.view()),
        source matches LoaderSource::Open { kind, payload } ==> (r matches Ok(
            LoaderSource::Open { kind: k, payload: p },
        ) && k.view() == kind.view() && p.view() == payload.view()),
{
    match source {
        LoaderSource::Symbol(s) => Ok(LoaderSource::Symbol(s.copy())),
        LoaderSource::Open { kind, payload } => Ok(
            LoaderSource::Open { kind: kind.copy(), payload: payload.copy() },
        ),
        LoaderSource::Host => Err(owned("host library sources cannot cross LoaderPort")),
    }
}

/// Whether a port loader takes a source: the port advertises the loader's
/// kind, and the loader's source predicate accepted the source.
pub fn port_can_load(advertised: &Vec<LoaderKind>, kind: &LoaderKind, accepted: bool) -> (r: bool)
    ensures
        r == ((exists|i: int| 0 <= i < advertised.len() && (#[trigger] advertised@[i]).0.view()
            == kind.0.view()) && accepted),
{
    let mut i: usize = 0;
    while i < advertised.len()
        invariant
            i <= advertised.len(),
            forall|j: int| 0 <= j < i ==> (#[trigger] advertised@[j]).0.view() != kind.0.view(),
        decreases advertised.len() - i,
    {
        if advertised[i].0.same(&kind.0) {
            return accepted;
        }
        i = i + 1;
    }
    false
}

/// Checks what a loader service realized: the manifest it reports must be
/// the realized library's own.
pub fn check_realized_manifest(reported: &LibManifest, library: &LibManifest) -> (r: Result<(), String>)
    ensures
        r is Ok <==> reported.view() == library.view(),
        r matches Err(m) ==> m@ == "loader outcome manifest does not match realized library"@,
{
    if same_manifest(library, reported) {
        Ok(())
    } else {
        Err(owned("loader outcome manifest does not match realized library"))
    }
}

// ---------------------------------------------------------------------------
// The static artifact registry
// ---------------------------------------------------------------------------

/// The artifacts of a registry's entries, mapped to their factories; a
/// later entry for an artifact replaces an earlier one.
pub open spec fn entries_map<F>(e: Seq<(Symbol, F)>) -> Map<SymbolView, F>
    decreases e.len(),
{
    if e.len() == 0 {
        Map::empty()
    } else {
        entries_map(e.drop_last()).insert(e.last().0.view(), e.last().1)
    }
}

/// Whether no artifact has two entries.
pub open spec fn artifacts_unique<F>(e: Seq<(Symbol, F)>) -> bool {
    forall|i: int, j: int| 0 <= i < j < e.len() ==> (#[trigger] e[i]).0.view() != (#[trigger] e[j]).0.view()
}

proof fn lemma_entries_map_lookup<F>(e: Seq<(Symbol, F)>, k: SymbolView)
    requires
        artifacts_unique(e),
    ensures
        (exists|i: int| 0 <= i < e.len() && (#[trigger] e[i]).0.view() == k) <==> entries_map(e).contains_key(k),
        forall|i: int| 0 <= i < e.len() && (#[trigger] e[i]).0.view() == k ==> entries_map(e)[k] == e[i].1,
    decreases e.len(),
{
    if e.len() > 0 {
        let d = e.drop_last();
        assert(artifacts_unique(d)) by {
            assert forall|i: int, j: int| 0 <= i < j < d.len() implies (#[trigger] d[i]).0.view() != (#[trigger] d[j]).0.view() by {
                assert(d[i] == e[i] && d[j] == e[j]);
            }
        }
        lemma_entries_map_lookup(d, k);
        if exists|i: int| 0 <= i < d.len() && (#[trigger] d[i]).0.view() == k {
            let i = choose|i: int| 0 <= i < d.len() && (#[trigger] d[i]).0.view() == k;
            assert(e[i] == d[i]);
        }
        if exists|i: int| 0 <= i < e.len() && (#[trigger] e[i]).0.view() == k {
            let i = choose|i: int| 0 <= i < e.len() && (#[trigger] e[i]).0.view() == k;
            if i < e.len() - 1 {
                assert(d[i] == e[i]);
            }
        }
        assert forall|i: int| 0 <= i < e.len() && (#[trigger] e[i]).0.view() == k implies entries_map(e)[k] == e[i].1 by {
            if i < e.len() - 1 {
                assert(d[i] == e[i]);
                assert(e[e.len() - 1].0.view() != k);
            }
        }
    }
}

proof fn lemma_entries_map_update<F>(e: Seq<(Symbol, F)>, i: int, x: (Symbol, F))
    requires
        artifacts_unique(e),
        0 <= i < e.len(),
        e[i].0.view() == x.0.view(),
    ensures
        entries_map(e.update(i, x)) == entries_map(e).insert(x.0.view(), x.1),
        artifacts_unique(e.update(i, x)),
    decreases e.len(),
{
    let u = e.update(i, x);
    let d = e.drop_last();
    assert(artifacts_unique(u)) by {
        assert forall|a: int, b: int| 0 <= a < b < u.len() implies (#[trigger] u[a]).0.view() != (#[trigger] u[b]).0.view() by {
            assert(e[a].0.view() != e[b].0.view());
        }
    }
    if i == e.len() - 1 {
        assert(u.drop_last() =~= d);
        assert(entries_map(u) =~= entries_map(e).insert(x.0.view(), x.1));
    } else {
        assert(artifacts_unique(d)) by {
            assert forall|a: int, b: int| 0 <= a < b < d.len() implies (#[trigger] d[a]).0.view() != (#[trigger] d[b]).0.view() by {
                assert(d[a] == e[a] && d[b] == e[b]);
            }
        }
        lemma_entries_map_update(d, i, x);
        assert(u.drop_last() =~= d.update(i, x));
        assert(u.last() == e.last());
        assert(e.last().0.view() != x.0.view()) by {
            assert(e[i].0.view() != e[e.len() - 1].0.view());
        }
        assert(entries_map(u) =~= entries_map(e).insert(x.0.view(), x.1));
    }
}

/// A registry of exact ahead-of-time artifacts, each with the factory that
/// realizes it.
pub struct StaticRegistry<F> {
    entries: Vec<(Symbol, F)>,
}

impl<F> StaticRegistry<F> {
    /// The registered artifacts and their factories.
    pub closed spec fn view(&self) -> Map<SymbolView, F> {
        entries_map(self.entries@)
    }

    /// Whether the registry holds each artifact once.
    pub closed spec fn wf(&self) -> bool {
        artifacts_unique(self.entries@)
    }

    /// An empty registry.
    pub fn new() -> (r: Self)
        ensures
            r.wf(),
            r.view() == Map::<SymbolView, F>::empty(),
    {
        StaticRegistry { entries: Vec::new() }
    }

    fn index_of(&self, artifact: &Symbol) -> (r: Option<usize>)
        ensures
            match r {
                Some(i) => i < self.entries.len() && self.entries@[i as int].0.view() == artifact.view(),
                None => forall|j: int| 0 <= j < self.entries.len() ==> (#[trigger] self.entries@[j]).0.view()
                    != artifact.view(),
            },
    {
        let mut i: usize = 0;
        while i < self.entries.len()
            invariant
                i <= self.entries.len(),
                forall|j: int| 0 <= j < i ==> (#[trigger] self.entries@[j]).0.view() != artifact.view(),
            decreases self.entries.len() - i,
        {
            if self.entries[i].0.same(artifact) {
                return Some(i);
            }
            i = i + 1;
        }
        None
    }

    /// Registers a factory under an exact artifact symbol, replacing the
    /// artifact's earlier factory.
    pub fn register(&mut self, artifact: Symbol, factory: F)
        requires
            old(self).wf(),
        ensures
            final(self).wf(),
            final(self).view() == old(self).view().insert(artifact.view(), factory),
    {
        let ghost k = artifact.view();
        match self.index_of(&artifact) {
            Some(i) => {
                proof {
                    lemma_entries_map_update(self.entries@, i as int, (artifact, factory));
                }
                self.entries.set(i, (artifact, factory));
            },
            None => {
                let ghost prev = self.entries@;
                self.entries.push((artifact, factory));
                proof {
                    assert(self.entries@.drop_last() =~= prev);
                    assert(artifacts_unique(self.entries@)) by {
                        assert forall|a: int, b: int| 0 <= a < b < self.entries@.len() implies (#[trigger] self.entries@[a]).0.view()
                            != (#[trigger] self.entries@[b]).0.view() by {
                            if b == prev.len() {
                                assert(self.entries@[a] == prev[a]);
                            } else {
                                assert(self.entries@[a] == prev[a] && self.entries@[b] == prev[b]);
                            }
                        }
                    }
                }
            },
        }
    }

    /// The factory that realizes an exact registered artifact; the caller
    /// runs it.
    pub fn realize(&self, artifact: &Symbol) -> (r: Result<&F, String>)
        requires
            self.wf(),
        ensures
            self.view().contains_key(artifact.view()) ==> (r matches Ok(f) && *f == self.view()[artifact.view()]),
            !self.view().contains_key(artifact.view()) ==> (r matches Err(m) && m@
                == "no static library artifact registered as "@ + qualified_text(artifact.view())),
    {
        proof {
            lemma_entries_map_lookup(self.entries@, artifact.view());
        }
        match self.index_of(artifact) {
            Some(i) => Ok(&self.entries[i].1),
            None => Err(concat2("no static library artifact registered as ", artifact.as_qualified_str().as_str())),
        }
    }
}

/// What a registry gives back for an artifact is the factory last
/// registered under it; registering leaves every other artifact as it was.
pub proof fn law_static_registry_read_after_write<F>(
    before: Map<SymbolView, F>,
    after: Map<SymbolView, F>,
    artifact: SymbolView,
    factory: F,
    other: SymbolView,
)
    requires
        after == before.insert(artifact, factory),
    ensures
        after.contains_key(artifact) && after[artifact] == factory,
        other != artifact ==> (after.contains_key(other) == before.contains_key(other)),
        other != artifact && before.contains_key(other) ==> after[other] == before[other],
{
}

} // verus!
