//! Loaded-state introspection: the delegates a loaded library offers for
//! `--list` and `--inspect`, and the built-in list and section rendering.
use vstd::prelude::*;
use vstd::string::*;

use crate::error::CliError;
use crate::listing::{CratesIoListing, CratesIoListingSource, ListingView, listing_views};
use crate::receipt::{
    has_role, is_resolved_function, resolved_function, ExportState, LoadReceipt, LoadReceiptRole,
    ReceiptDependency, ReceiptExport,
};
use crate::source::{parse_source_spec, source_text, LibSourceSpec, SourceView};
use crate::symbol::{qualified_text, Symbol, SymbolView};
use crate::text::{decimal_string, decimal_text, owned, push_char, str_eq};

verus! {

broadcast use vstd::string::group_string_axioms;

/// Function a loaded library exports to own `--list` output.
pub const CLI_LIST_ENTRYPOINT: &'static str = "cli/list";

/// Function a loaded library exports to own `--inspect` output.
pub const CLI_INSPECT_ENTRYPOINT: &'static str = "cli/inspect";

/// A loaded function that renders an introspection request.
#[derive(Clone, Debug, PartialEq, Eq)]
pub struct IntrospectionDelegate {
    /// Library that exported the delegate.
    pub lib: Symbol,
    /// The delegate function's symbol.
    pub symbol: Symbol,
}

// ---------------------------------------------------------------------------
// Delegates
// ---------------------------------------------------------------------------

/// Whether an export is the resolved function named `name`.
pub open spec fn export_is_delegate(e: ReceiptExport, name: Seq<char>) -> bool {
    resolved_function(e) && qualified_text(e.symbol.view()) == name
}

/// Index of the first export, from `from` on, that is the delegate.
pub open spec fn first_delegate_export(exports: Seq<ReceiptExport>, name: Seq<char>, from: int) -> Option<
    int,
>
    decreases exports.len() - from,
{
    if from < 0 || from >= exports.len() {
        None
    } else if export_is_delegate(exports[from], name) {
        Some(from)
    } else {
        first_delegate_export(exports, name, from + 1)
    }
}

/// The first receipt, from `from` on, of the given role kind with a
/// delegate export.
pub open spec fn first_delegate_receipt(
    receipts: Seq<LoadReceipt>,
    name: Seq<char>,
    library: bool,
    from: int,
) -> Option<int>
    decreases receipts.len() - from,
{
    if from < 0 || from >= receipts.len() {
        None
    } else if has_role(receipts[from], library) && first_delegate_export(
        receipts[from].exports@,
        name,
        0,
    ) is Some {
        Some(from)
    } else {
        first_delegate_receipt(receipts, name, library, from + 1)
    }
}

/// The delegate of a receipt: its library and delegate export's symbol.
pub open spec fn delegate_of(r: LoadReceipt, name: Seq<char>) -> (SymbolView, SymbolView) {
    (r.lib.view(), r.exports@[first_delegate_export(r.exports@, name, 0)->0].symbol.view())
}

/// The delegate for an introspection request: a `--load` library's first,
/// then the boot codec's.
pub open spec fn select_delegate_spec(receipts: Seq<LoadReceipt>, name: Seq<char>) -> Option<
    (SymbolView, SymbolView),
> {
    match first_delegate_receipt(receipts, name, true, 0) {
        Some(k) => Some(delegate_of(receipts[k], name)),
        None => match first_delegate_receipt(receipts, name, false, 0) {
            Some(k) => Some(delegate_of(receipts[k], name)),
            None => None,
        },
    }
}

fn delegate_for_receipt(receipt: &LoadReceipt, name: &str) -> (r: Option<IntrospectionDelegate>)
    ensures
        match first_delegate_export(receipt.exports@, name@, 0) {
            Some(i) => r matches Some(d) && (d.lib.view(), d.symbol.view()) == delegate_of(
                *receipt,
                name@,
            ),
            None => r is None,
        },
{
    let mut i: usize = 0;
    while i < receipt.exports.len()
        invariant
            i <= receipt.exports@.len(),
            first_delegate_export(receipt.exports@, name@, 0) == first_delegate_export(
                receipt.exports@,
                name@,
                i as int,
            ),
        decreases receipt.exports@.len() - i,
    {
        let e = &receipt.exports[i];
        if is_resolved_function(e) && str_eq(e.symbol.as_qualified_str().as_str(), name) {
            return Some(IntrospectionDelegate { lib: receipt.lib.copy(), symbol: e.symbol.copy() });
        }
        i = i + 1;
    }
    None
}

fn first_delegate(receipts: &Vec<LoadReceipt>, name: &str, library: bool) -> (r: Option<
    IntrospectionDelegate,
>)
    ensures
        match first_delegate_receipt(receipts@, name@, library, 0) {
            Some(k) => r matches Some(d) && (d.lib.view(), d.symbol.view()) == delegate_of(
                receipts@[k],
                name@,
            ),
            None => r is None,
        },
{
    let mut k: usize = 0;
    while k < receipts.len()
        invariant
            k <= receipts@.len(),
            first_delegate_receipt(receipts@, name@, library, 0) == first_delegate_receipt(
                receipts@,
                name@,
                library,
                k as int,
            ),
        decreases receipts@.len() - k,
    {
        let rc = &receipts[k];
        let role_ok = match &rc.role {
            LoadReceiptRole::Library => library,
            LoadReceiptRole::BootCodec { .. } => !library,
        };
        if role_ok {
            match delegate_for_receipt(rc, name) {
                Some(d) => {
                    return Some(d);
                },
                None => {},
            }
        }
        k = k + 1;
    }
    None
}

/// The delegate that renders an introspection request named `name`
/// (`cli/list` or `cli/inspect`): the first `--load` library exporting it
/// as a resolved function, else the boot codec's.
pub fn select_delegate(receipts: &Vec<LoadReceipt>, name: &str) -> (r: Option<IntrospectionDelegate>)
    ensures
        match select_delegate_spec(receipts@, name@) {
            Some(d) => r matches Some(x) && (x.lib.view(), x.symbol.view()) == d,
            None => r is None,
        },
{
    match first_delegate(receipts, name, true) {
        Some(d) => Some(d),
        None => first_delegate(receipts, name, false),
    }
}

// ---------------------------------------------------------------------------
// The built-in list
// ---------------------------------------------------------------------------

/// Label of a receipt role in introspection output.
pub open spec fn role_detail_text(role: LoadReceiptRole) -> Seq<char> {
    match role {
        LoadReceiptRole::Library => "library"@,
        LoadReceiptRole::BootCodec { name, symbol } => "boot-codec:"@ + name@ + ":"@ + symbol@,
    }
}

/// Label of a receipt role in introspection output.
pub fn role_detail(role: &LoadReceiptRole) -> (r: String)
    ensures
        r@ == role_detail_text(*role),
{
    match role {
        LoadReceiptRole::Library => owned("library"),
        LoadReceiptRole::BootCodec { name, symbol } => {
            let mut r = owned("boot-codec:");
            r.append(name.as_str());
            r.append(":");
            r.append(symbol.as_str());
            r
        },
    }
}

/// Label of a listing's source.
pub open spec fn listing_source_text(s: CratesIoListingSource) -> Seq<char> {
    match s {
        CratesIoListingSource::Cache => "cache"@,
        CratesIoListingSource::Registry => "registry"@,
    }
}

/// Label of a listing's source.
pub fn crates_listing_source_label(source: CratesIoListingSource) -> (r: &'static str)
    ensures
        r@ == listing_source_text(source),
{
    match source {
        CratesIoListingSource::Cache => "cache",
        CratesIoListingSource::Registry => "registry",
    }
}

/// The line of a crates.io artifact listing.
pub open spec fn listing_line(l: ListingView) -> Seq<char> {
    "- crates.io:"@ + l.package + "@"@ + l.version + " source="@ + listing_source_text(l.source)
        + " artifact="@ + l.artifact + "\n"@
}

/// The line of a crates.io artifact listing.
pub fn format_crates_listing(listing: &CratesIoListing) -> (r: String)
    ensures
        r@ == listing_line(listing.view()),
{
    let mut r = owned("- crates.io:");
    r.append(listing.package.as_str());
    r.append("@");
    r.append(listing.version.as_str());
    r.append(" source=");
    r.append(crates_listing_source_label(listing.source));
    r.append(" artifact=");
    r.append(listing.artifact.as_str());
    r.append("\n");
    r
}

/// The line of a catalog source.
pub open spec fn catalog_line(symbol: SymbolView, source: SourceView) -> Seq<char> {
    "- symbol:"@ + qualified_text(symbol) + " -> "@ + source_text(source) + "\n"@
}

/// The line of a loaded library's receipt.
pub open spec fn receipt_line(r: LoadReceipt) -> Seq<char> {
    "- role="@ + role_detail_text(r.role) + " lib="@ + qualified_text(r.lib.view()) + " version="@
        + r.version@ + " requested="@ + source_text(r.requested_source.view()) + " resolved="@
        + source_text(r.resolved_source.view()) + " exports="@ + decimal_text(r.exports@.len())
        + "\n"@
}

/// Lines of catalog sources.
pub open spec fn catalog_lines(c: Seq<(Symbol, LibSourceSpec)>) -> Seq<char>
    decreases c.len(),
{
    if c.len() == 0 {
        Seq::empty()
    } else {
        catalog_lines(c.drop_last()) + catalog_line(c.last().0.view(), c.last().1.view())
    }
}

/// Lines of listings.
pub open spec fn listing_lines(ls: Seq<ListingView>) -> Seq<char>
    decreases ls.len(),
{
    if ls.len() == 0 {
        Seq::empty()
    } else {
        listing_lines(ls.drop_last()) + listing_line(ls.last())
    }
}

/// Lines of receipts.
pub open spec fn receipt_lines(rs: Seq<LoadReceipt>) -> Seq<char>
    decreases rs.len(),
{
    if rs.len() == 0 {
        Seq::empty()
    } else {
        receipt_lines(rs.drop_last()) + receipt_line(rs.last())
    }
}

/// The built-in `--list` output: catalog sources, offline crates.io
/// artifacts (or why they are unavailable), and loaded libraries; an empty
/// section reads `- none`.
pub open spec fn list_text(
    catalog: Seq<(Symbol, LibSourceSpec)>,
    listings: Result<Seq<ListingView>, Seq<char>>,
    receipts: Seq<LoadReceipt>,
) -> Seq<char> {
    "catalog sources:\n"@ + (if catalog.len() == 0 {
        "- none\n"@
    } else {
        catalog_lines(catalog)
    }) + "crates.io artifacts:\n"@ + match listings {
        Ok(ls) => if ls.len() == 0 {
            "- none\n"@
        } else {
            listing_lines(ls)
        },
        Err(m) => "- unavailable: "@ + m + "\n"@,
    } + "loaded libs:\n"@ + (if receipts.len() == 0 {
        "- none\n"@
    } else {
        receipt_lines(receipts)
    })
}

fn push_catalog_lines(out: &mut String, catalog: &Vec<(Symbol, LibSourceSpec)>)
    ensures
        final(out)@ == old(out)@ + catalog_lines(catalog@),
{
    let ghost start = out@;
    let mut i: usize = 0;
    assert(catalog@.take(0) =~= Seq::<(Symbol, LibSourceSpec)>::empty());
    assert(start + catalog_lines(Seq::<(Symbol, LibSourceSpec)>::empty()) =~= start);
    while i < catalog.len()
        invariant
            i <= catalog@.len(),
            out@ == start + catalog_lines(catalog@.take(i as int)),
        decreases catalog@.len() - i,
    {
        let (symbol, source) = &catalog[i];
        out.append("- symbol:");
        out.append(symbol.as_qualified_str().as_str());
        out.append(" -> ");
        out.append(source.to_string().as_str());
        out.append("\n");
        proof {
            assert(catalog@.take(i + 1).drop_last() =~= catalog@.take(i as int));
            assert(catalog@.take(i + 1).last() == catalog@[i as int]);
        }
        i = i + 1;
        assert(out@ =~= start + catalog_lines(catalog@.take(i as int)));
    }
    assert(catalog@.take(catalog@.len() as int) =~= catalog@);
}

fn push_listing_lines(out: &mut String, listings: &Vec<CratesIoListing>)
    ensures
        final(out)@ == old(out)@ + listing_lines(listing_views(listings@)),
{
    let ghost start = out@;
    let ghost v = listing_views(listings@);
    let mut i: usize = 0;
    assert(v.take(0) =~= Seq::<ListingView>::empty());
    assert(start + listing_lines(Seq::<ListingView>::empty()) =~= start);
    while i < listings.len()
        invariant
            v == listing_views(listings@),
            i <= listings@.len(),
            out@ == start + listing_lines(v.take(i as int)),
        decreases listings@.len() - i,
    {
        out.append(format_crates_listing(&listings[i]).as_str());
        proof {
            assert(v.take(i + 1).drop_last() =~= v.take(i as int));
            assert(v.take(i + 1).last() == listings@[i as int].view());
        }
        i = i + 1;
        assert(out@ =~= start + listing_lines(v.take(i as int)));
    }
    assert(v.take(listings@.len() as int) =~= v);
}

/// The line of a loaded library's receipt.
pub fn format_receipt_line(r: &LoadReceipt) -> (out: String)
    ensures
        out@ == receipt_line(*r),
{
    let mut out = owned("- role=");
    out.append(role_detail(&r.role).as_str());
    out.append(" lib=");
    out.append(r.lib.as_qualified_str().as_str());
    out.append(" version=");
    out.append(r.version.as_str());
    out.append(" requested=");
    out.append(r.requested_source.to_string().as_str());
    out.append(" resolved=");
    out.append(r.resolved_source.to_string().as_str());
    out.append(" exports=");
    out.append(decimal_string(r.exports.len()).as_str());
    out.append("\n");
    out
}

fn push_receipt_lines(out: &mut String, receipts: &Vec<LoadReceipt>)
    ensures
        final(out)@ == old(out)@ + receipt_lines(receipts@),
{
    let ghost start = out@;
    let mut i: usize = 0;
    assert(receipts@.take(0) =~= Seq::<LoadReceipt>::empty());
    assert(start + receipt_lines(Seq::<LoadReceipt>::empty()) =~= start);
    while i < receipts.len()
        invariant
            i <= receipts@.len(),
            out@ == start + receipt_lines(receipts@.take(i as int)),
        decreases receipts@.len() - i,
    {
        out.append(format_receipt_line(&receipts[i]).as_str());
        proof {
            assert(receipts@.take(i + 1).drop_last() =~= receipts@.take(i as int));
            assert(receipts@.take(i + 1).last() == receipts@[i as int]);
        }
        i = i + 1;
        assert(out@ =~= start + receipt_lines(receipts@.take(i as int)));
    }
    assert(receipts@.take(receipts@.len() as int) =~= receipts@);
}

/// The built-in `--list` output, from catalog sources in key order, the
/// offline crates.io artifacts as listed (or the error that prevented
/// listing them), and the receipts of loaded libraries.
pub fn format_list(
    catalog: &Vec<(Symbol, LibSourceSpec)>,
    listings: &Result<Vec<CratesIoListing>, CliError>,
    receipts: &Vec<LoadReceipt>,
) -> (r: String)
    ensures
        r@ == list_text(
            catalog@,
            match listings {
                Ok(ls) => Ok(listing_views(ls@)),
                Err(e) => Err(e.message@),
            },
            receipts@,
        ),
{
    let mut out = owned("catalog sources:\n");
    if catalog.len() == 0 {
        out.append("- none\n");
    } else {
        push_catalog_lines(&mut out, catalog);
    }
    out.append("crates.io artifacts:\n");
    match listings {
        Ok(ls) => {
            if ls.len() == 0 {
                out.append("- none\n");
            } else {
                push_listing_lines(&mut out, ls);
            }
        },
        Err(e) => {
            out.append("- unavailable: ");
            out.append(e.message.as_str());
            out.append("\n");
        },
    }
    out.append("loaded libs:\n");
    if receipts.len() == 0 {
        out.append("- none\n");
    } else {
        push_receipt_lines(&mut out, receipts);
    }
    out
}

// ---------------------------------------------------------------------------
// Sections
// ---------------------------------------------------------------------------

/// Text ending in a newline: as is, or with one added.
pub open spec fn newline_terminated(s: Seq<char>) -> Seq<char> {
    if s.len() > 0 && s.last() == '\n' {
        s
    } else {
        s.push('\n')
    }
}

/// Newline-terminated sections separated by blank lines.
pub open spec fn joined_sections(ss: Seq<Seq<char>>) -> Seq<char>
    decreases ss.len(),
{
    if ss.len() == 0 {
        Seq::empty()
    } else if ss.len() == 1 {
        newline_terminated(ss[0])
    } else {
        joined_sections(ss.drop_last()) + "\n"@ + newline_terminated(ss.last())
    }
}

pub open spec fn texts_of(v: Seq<String>) -> Seq<Seq<char>> {
    v.map_values(|s: String| s@)
}

fn terminate(s: &mut String)
    ensures
        final(s)@ == newline_terminated(old(s)@),
{
    let n = s.as_str().unicode_len();
    if n == 0 || s.as_str().get_char(n - 1) != '\n' {
        push_char(s, '\n');
    }
}

/// Joins output sections: each ends in a newline and a blank line
/// separates them; the whole ends in a newline.
pub fn join_sections(sections: Vec<String>) -> (r: String)
    ensures
        r@ == newline_terminated(joined_sections(texts_of(sections@))),
{
    let ghost v = texts_of(sections@);
    let mut out = String::new();
    let mut i: usize = 0;
    assert(v.take(0) =~= Seq::<Seq<char>>::empty());
    while i < sections.len()
        invariant
            v == texts_of(sections@),
            i <= sections@.len(),
            out@ == joined_sections(v.take(i as int)),
        decreases sections@.len() - i,
    {
        let mut section = sections[i].clone();
        terminate(&mut section);
        if i > 0 {
            out.append("\n");
        }
        out.append(section.as_str());
        proof {
            assert(v.take(i + 1).drop_last() =~= v.take(i as int));
            assert(v.take(i + 1).last() == v[i as int]);
            if i == 0 {
                assert(v.take(1)[0] == v[0]);
            }
        }
        i = i + 1;
        assert(out@ =~= joined_sections(v.take(i as int)));
    }
    assert(v.take(sections@.len() as int) =~= v);
    terminate(&mut out);
    out
}

/// What an `--inspect` target names when it is not a loaded library or
/// export: the source it spells, or else a symbol source.
pub fn parse_inspect_source(target: &str) -> (r: LibSourceSpec)
    ensures
        r.view() == match parse_source_spec(target@) {
            Ok(s) => s,
            Err(_) => SourceView::Symbol(target@),
        },
{
    match LibSourceSpec::parse_source(target) {
        Ok(s) => s,
        Err(_) => LibSourceSpec::Symbol(owned(target)),
    }
}


// ---------------------------------------------------------------------------
// Inspecting loaded libraries and exports
// ---------------------------------------------------------------------------

/// Label of an export's resolution state.
pub open spec fn state_text(state: ExportState) -> Seq<char> {
    match state {
        ExportState::Resolved { id } => "resolved:"@ + id@,
        ExportState::Declared => "declared"@,
        ExportState::Unsupported { reason } => "unsupported:"@ + reason@,
        ExportState::Invalid { error } => "invalid:"@ + error@,
    }
}

/// Label of an export's resolution state.
pub fn state_label(state: &ExportState) -> (r: String)
    ensures
        r@ == state_text(*state),
{
    match state {
        ExportState::Resolved { id } => {
            let mut r = owned("resolved:");
            r.append(id.as_str());
            r
        },
        ExportState::Declared => owned("declared"),
        ExportState::Unsupported { reason } => {
            let mut r = owned("unsupported:");
            r.append(reason.as_str());
            r
        },
        ExportState::Invalid { error } => {
            let mut r = owned("invalid:");
            r.append(error.as_str());
            r
        },
    }
}

/// An export's kind, symbol and state, ending the line.
pub open spec fn export_body(kind: SymbolView, symbol: SymbolView, state: Seq<char>) -> Seq<char> {
    "kind="@ + qualified_text(kind) + " symbol="@ + qualified_text(symbol) + " state="@ + state
        + "\n"@
}

/// The line of an export record.
pub open spec fn export_line(e: ReceiptExport) -> Seq<char> {
    "- "@ + export_body(e.kind.view(), e.symbol.view(), state_text(e.state))
}

/// The line of an export record.
pub fn format_export(record: &ReceiptExport) -> (r: String)
    ensures
        r@ == export_line(*record),
{
    let mut r = owned("- kind=");
    r.append(record.kind.as_qualified_str().as_str());
    r.append(" symbol=");
    r.append(record.symbol.as_qualified_str().as_str());
    r.append(" state=");
    r.append(state_label(&record.state).as_str());
    r.append("\n");
    proof {
        reveal_strlit("- kind=");
        reveal_strlit("- ");
        reveal_strlit("kind=");
    }
    r
}

/// Lines of export records.
pub open spec fn export_lines(es: Seq<ReceiptExport>) -> Seq<char>
    decreases es.len(),
{
    if es.len() == 0 {
        Seq::empty()
    } else {
        export_lines(es.drop_last()) + export_line(es.last())
    }
}

/// The exports section of an inspection.
pub open spec fn exports_text(es: Seq<ReceiptExport>) -> Seq<char> {
    "exports:\n"@ + if es.len() == 0 {
        "- none\n"@
    } else {
        export_lines(es)
    }
}

/// The exports section of an inspection.
pub fn format_exports(exports: &Vec<ReceiptExport>) -> (r: String)
    ensures
        r@ == exports_text(exports@),
{
    let mut out = owned("exports:\n");
    if exports.len() == 0 {
        out.append("- none\n");
        return out;
    }
    let ghost start = out@;
    let mut i: usize = 0;
    assert(exports@.take(0) =~= Seq::<ReceiptExport>::empty());
    assert(start + export_lines(Seq::<ReceiptExport>::empty()) =~= start);
    while i < exports.len()
        invariant
            i <= exports@.len(),
            exports@.len() > 0,
            start == "exports:\n"@,
            out@ == start + export_lines(exports@.take(i as int)),
        decreases exports@.len() - i,
    {
        out.append(format_export(&exports[i]).as_str());
        proof {
            assert(exports@.take(i + 1).drop_last() =~= exports@.take(i as int));
            assert(exports@.take(i + 1).last() == exports@[i as int]);
        }
        i = i + 1;
        assert(out@ =~= start + export_lines(exports@.take(i as int)));
    }
    assert(exports@.take(exports@.len() as int) =~= exports@);
    out
}

/// The line of a dependency.
pub open spec fn dependency_line(d: ReceiptDependency) -> Seq<char> {
    "- lib_id="@ + decimal_text(d.lib_id as nat) + " symbol="@ + qualified_text(d.symbol.view())
        + "\n"@
}

/// Lines of dependencies.
pub open spec fn dependency_lines(ds: Seq<ReceiptDependency>) -> Seq<char>
    decreases ds.len(),
{
    if ds.len() == 0 {
        Seq::empty()
    } else {
        dependency_lines(ds.drop_last()) + dependency_line(ds.last())
    }
}

/// The dependencies section of an inspection.
pub open spec fn dependencies_text(ds: Seq<ReceiptDependency>) -> Seq<char> {
    "dependencies:\n"@ + if ds.len() == 0 {
        "- none\n"@
    } else {
        dependency_lines(ds)
    }
}

/// The dependencies section of a receipt's inspection.
pub fn format_dependencies(receipt: &LoadReceipt) -> (r: String)
    ensures
        r@ == dependencies_text(receipt.dependencies@),
{
    let ds = &receipt.dependencies;
    let mut out = owned("dependencies:\n");
    if ds.len() == 0 {
        out.append("- none\n");
        return out;
    }
    let ghost start = out@;
    let mut i: usize = 0;
    assert(ds@.take(0) =~= Seq::<ReceiptDependency>::empty());
    assert(start + dependency_lines(Seq::<ReceiptDependency>::empty()) =~= start);
    while i < ds.len()
        invariant
            i <= ds@.len(),
            ds@.len() > 0,
            start == "dependencies:\n"@,
            out@ == start + dependency_lines(ds@.take(i as int)),
        decreases ds@.len() - i,
    {
        let d = &ds[i];
        out.append("- lib_id=");
        out.append(decimal_string(d.lib_id as usize).as_str());
        out.append(" symbol=");
        out.append(d.symbol.as_qualified_str().as_str());
        out.append("\n");
        proof {
            assert(ds@.take(i + 1).drop_last() =~= ds@.take(i as int));
            assert(ds@.take(i + 1).last() == ds@[i as int]);
        }
        i = i + 1;
        assert(out@ =~= start + dependency_lines(ds@.take(i as int)));
    }
    assert(ds@.take(ds@.len() as int) =~= ds@);
    out
}

/// The inspection of a loaded library.
pub open spec fn receipt_text(r: LoadReceipt) -> Seq<char> {
    "lib "@ + qualified_text(r.lib.view()) + "\n"@ + "version "@ + r.version@ + "\n"@ + "target "@
        + r.target@ + "\n"@ + "role "@ + role_detail_text(r.role) + "\n"@ + "requested "@
        + source_text(r.requested_source.view()) + "\n"@ + "resolved "@ + source_text(
        r.resolved_source.view(),
    ) + "\n"@ + dependencies_text(r.dependencies@) + exports_text(r.exports@)
}

/// The inspection of a loaded library: identity, version, target, role,
/// sources, dependencies and exports.
pub fn format_receipt(receipt: &LoadReceipt) -> (r: String)
    ensures
        r@ == receipt_text(*receipt),
{
    let mut out = owned("lib ");
    out.append(receipt.lib.as_qualified_str().as_str());
    out.append("\nversion ");
    out.append(receipt.version.as_str());
    out.append("\ntarget ");
    out.append(receipt.target.as_str());
    out.append("\nrole ");
    out.append(role_detail(&receipt.role).as_str());
    out.append("\nrequested ");
    out.append(receipt.requested_source.to_string().as_str());
    out.append("\nresolved ");
    out.append(receipt.resolved_source.to_string().as_str());
    out.append("\n");
    out.append(format_dependencies(receipt).as_str());
    out.append(format_exports(&receipt.exports).as_str());
    proof {
        reveal_strlit("\nversion ");
        reveal_strlit("\ntarget ");
        reveal_strlit("\nrole ");
        reveal_strlit("\nrequested ");
        reveal_strlit("\nresolved ");
        reveal_strlit("\n");
        reveal_strlit("version ");
        reveal_strlit("target ");
        reveal_strlit("role ");
        reveal_strlit("requested ");
        reveal_strlit("resolved ");
    }
    out
}

/// Lines of a receipt's exports bound under `symbol`.
pub open spec fn receipt_match_lines(lib: SymbolView, es: Seq<ReceiptExport>, symbol: SymbolView) -> Seq<
    char,
>
    decreases es.len(),
{
    if es.len() == 0 {
        Seq::empty()
    } else {
        let e = es.last();
        receipt_match_lines(lib, es.drop_last(), symbol) + if e.symbol.view() == symbol {
            "- lib="@ + qualified_text(lib) + " "@ + export_body(
                e.kind.view(),
                e.symbol.view(),
                state_text(e.state),
            )
        } else {
            Seq::empty()
        }
    }
}

/// Lines of every loaded export bound under `symbol`, in receipt order.
pub open spec fn match_lines(receipts: Seq<LoadReceipt>, symbol: SymbolView) -> Seq<char>
    decreases receipts.len(),
{
    if receipts.len() == 0 {
        Seq::empty()
    } else {
        match_lines(receipts.drop_last(), symbol) + receipt_match_lines(
            receipts.last().lib.view(),
            receipts.last().exports@,
            symbol,
        )
    }
}

/// Index of the first receipt, from `from` on, of the library `symbol`.
pub open spec fn receipt_of_lib(receipts: Seq<LoadReceipt>, symbol: SymbolView, from: int) -> Option<int>
    decreases receipts.len() - from,
{
    if from < 0 || from >= receipts.len() {
        None
    } else if receipts[from].lib.view() == symbol {
        Some(from)
    } else {
        receipt_of_lib(receipts, symbol, from + 1)
    }
}

/// What inspecting a target among loaded libraries gives: rendered output,
/// or a source still to inspect.
#[derive(Debug, PartialEq, Eq)]
pub enum InspectOutcome {
    Rendered(String),
    Source(LibSourceSpec),
}

fn push_receipt_match_lines(out: &mut String, lib: &Symbol, es: &Vec<ReceiptExport>, symbol: &Symbol)
    ensures
        final(out)@ == old(out)@ + receipt_match_lines(lib.view(), es@, symbol.view()),
{
    let ghost start = out@;
    let mut i: usize = 0;
    assert(es@.take(0) =~= Seq::<ReceiptExport>::empty());
    assert(start + receipt_match_lines(lib.view(), Seq::<ReceiptExport>::empty(), symbol.view()) =~= start);
    while i < es.len()
        invariant
            i <= es@.len(),
            out@ == start + receipt_match_lines(lib.view(), es@.take(i as int), symbol.view()),
        decreases es@.len() - i,
    {
        let e = &es[i];
        let ghost before = out@;
        proof {
            assert(es@.take(i + 1).drop_last() =~= es@.take(i as int));
            assert(es@.take(i + 1).last() == es@[i as int]);
        }
        if e.symbol.same(symbol) {
            out.append("- lib=");
            out.append(lib.as_qualified_str().as_str());
            out.append(" kind=");
            out.append(e.kind.as_qualified_str().as_str());
            out.append(" symbol=");
            out.append(e.symbol.as_qualified_str().as_str());
            out.append(" state=");
            out.append(state_label(&e.state).as_str());
            out.append("\n");
            proof {
                reveal_strlit(" kind=");
                reveal_strlit(" ");
                reveal_strlit("kind=");
            }
            assert(out@ =~= before + ("- lib="@ + qualified_text(lib.view()) + " "@ + export_body(
                e.kind.view(),
                e.symbol.view(),
                state_text(e.state),
            )));
        } else {
            assert(before =~= before + Seq::<char>::empty());
        }
        i = i + 1;
        assert(out@ =~= start + receipt_match_lines(lib.view(), es@.take(i as int), symbol.view()));
    }
    assert(es@.take(es@.len() as int) =~= es@);
}

fn push_match_lines(out: &mut String, receipts: &Vec<LoadReceipt>, symbol: &Symbol)
    ensures
        final(out)@ == old(out)@ + match_lines(receipts@, symbol.view()),
{
    let ghost start = out@;
    let mut i: usize = 0;
    assert(receipts@.take(0) =~= Seq::<LoadReceipt>::empty());
    assert(start + match_lines(Seq::<LoadReceipt>::empty(), symbol.view()) =~= start);
    while i < receipts.len()
        invariant
            i <= receipts@.len(),
            out@ == start + match_lines(receipts@.take(i as int), symbol.view()),
        decreases receipts@.len() - i,
    {
        push_receipt_match_lines(out, &receipts[i].lib, &receipts[i].exports, symbol);
        proof {
            assert(receipts@.take(i + 1).drop_last() =~= receipts@.take(i as int));
            assert(receipts@.take(i + 1).last() == receipts@[i as int]);
        }
        i = i + 1;
        assert(out@ =~= start + match_lines(receipts@.take(i as int), symbol.view()));
    }
    assert(receipts@.take(receipts@.len() as int) =~= receipts@);
}

/// Inspects a target among loaded libraries: a loaded library it names is
/// rendered in full; else the loaded exports bound under it, each with its
/// library; else the target is a source to inspect (what it spells, or a
/// symbol source).
pub fn inspect_loaded(receipts: &Vec<LoadReceipt>, target: &str) -> (r: InspectOutcome)
    ensures
        match receipt_of_lib(receipts@, crate::symbol::symbol_of_text(target@), 0) {
            Some(k) => r matches InspectOutcome::Rendered(t) && t@ == receipt_text(receipts@[k]),
            None => if match_lines(receipts@, crate::symbol::symbol_of_text(target@)).len() > 0 {
                r matches InspectOutcome::Rendered(t) && t@ == "export "@ + target@ + "\n"@
                    + match_lines(receipts@, crate::symbol::symbol_of_text(target@))
            } else {
                r matches InspectOutcome::Source(s) && s.view() == match parse_source_spec(target@) {
                    Ok(v) => v,
                    Err(_) => SourceView::Symbol(target@),
                }
            },
        },
{
    let symbol = crate::symbol::symbol_from_text(target);
    let mut k: usize = 0;
    while k < receipts.len()
        invariant
            k <= receipts@.len(),
            symbol.view() == crate::symbol::symbol_of_text(target@),
            receipt_of_lib(receipts@, symbol.view(), 0) == receipt_of_lib(
                receipts@,
                symbol.view(),
                k as int,
            ),
        decreases receipts@.len() - k,
    {
        if receipts[k].lib.same(&symbol) {
            assert(receipt_of_lib(receipts@, symbol.view(), k as int) == Some(k as int));
            return InspectOutcome::Rendered(format_receipt(&receipts[k]));
        }
        k = k + 1;
    }
    let mut matches = String::new();
    push_match_lines(&mut matches, receipts, &symbol);
    if matches.as_str().unicode_len() > 0 {
        let mut out = owned("export ");
        out.append(target);
        out.append("\n");
        out.append(matches.as_str());
        InspectOutcome::Rendered(out)
    } else {
        InspectOutcome::Source(parse_inspect_source(target))
    }
}

/// The source to inspect instead when inspecting one fails: a symbol
/// source falls back to the crates.io package its symbol names.
pub fn inspect_fallback(source: &LibSourceSpec) -> (r: Option<LibSourceSpec>)
    ensures
        match source.view() {
            SourceView::Symbol(t) => match crate::crates_io::fallback_package(t) {
                Some(p) => r matches Some(x) && x.view() == SourceView::CratesIo(
                    p,
                    crate::crates_io::DEFAULT_FALLBACK_REQ@,
                    crate::crates_io::ReqKindSpec::Caret("0.1"@),
                ),
                None => r is None,
            },
            _ => r is None,
        },
{
    match source {
        LibSourceSpec::Symbol(symbol) => match crate::crates_io::fallback_spec_for_symbol(symbol.as_str()) {
            Some(spec) => Some(LibSourceSpec::CratesIo(spec)),
            None => None,
        },
        _ => None,
    }
}

/// The inspection of a source's manifest before loading it: the requested
/// and resolved sources, the library's identity, version and target (its
/// debug text), and its declared exports.
pub open spec fn manifest_source_text(
    requested: SourceView,
    resolved: SourceView,
    m: crate::manifest::ManifestView,
    target: Seq<char>,
) -> Seq<char> {
    "source "@ + source_text(requested) + "\n"@ + "resolved "@ + source_text(resolved) + "\n"@
        + "lib "@ + qualified_text(m.id) + "\n"@ + "version "@ + m.version + "\n"@ + "target "@
        + target + "\n"@ + "exports:\n"@ + declared_lines(m.exports) + if m.exports.len() == 0 {
        "- none\n"@
    } else {
        Seq::empty()
    }
}

/// Lines of declared exports.
pub open spec fn declared_lines(es: Seq<crate::manifest::ExportView>) -> Seq<char>
    decreases es.len(),
{
    if es.len() == 0 {
        Seq::empty()
    } else {
        declared_lines(es.drop_last()) + "- kind="@ + crate::manifest::kind_text(es.last().kind)
            + " symbol="@ + qualified_text(es.last().symbol) + " state=declared\n"@
    }
}

/// The inspection of a source's manifest before loading it.
pub fn format_manifest_source(
    requested: &LibSourceSpec,
    resolved: &LibSourceSpec,
    manifest: &crate::manifest::LibManifest,
    target: &str,
) -> (r: String)
    ensures
        r@ == manifest_source_text(requested.view(), resolved.view(), manifest.view(), target@),
{
    let mut out = owned("source ");
    out.append(requested.to_string().as_str());
    out.append("\nresolved ");
    out.append(resolved.to_string().as_str());
    out.append("\nlib ");
    out.append(manifest.id.as_qualified_str().as_str());
    out.append("\nversion ");
    out.append(manifest.version.as_str());
    out.append("\ntarget ");
    out.append(target);
    out.append("\nexports:\n");
    proof {
        reveal_strlit("\nresolved ");
        reveal_strlit("\nlib ");
        reveal_strlit("\nversion ");
        reveal_strlit("\ntarget ");
        reveal_strlit("\nexports:\n");
        reveal_strlit("\n");
        reveal_strlit("resolved ");
        reveal_strlit("lib ");
        reveal_strlit("version ");
        reveal_strlit("target ");
        reveal_strlit("exports:\n");
    }
    let ghost head = out@;
    let ghost xs = crate::manifest::export_views(manifest.exports@);
    let mut i: usize = 0;
    assert(xs.take(0) =~= Seq::<crate::manifest::ExportView>::empty());
    assert(head + declared_lines(Seq::<crate::manifest::ExportView>::empty()) =~= head);
    while i < manifest.exports.len()
        invariant
            xs == crate::manifest::export_views(manifest.exports@),
            i <= manifest.exports@.len(),
            out@ == head + declared_lines(xs.take(i as int)),
        decreases manifest.exports@.len() - i,
    {
        let x = &manifest.exports[i];
        out.append("- kind=");
        out.append(crate::manifest::kind_name(&x.kind).as_str());
        out.append(" symbol=");
        out.append(x.symbol.as_qualified_str().as_str());
        out.append(" state=declared\n");
        proof {
            assert(xs.take(i + 1).drop_last() =~= xs.take(i as int));
            assert(xs.take(i + 1).last() == x.view());
        }
        i = i + 1;
        assert(out@ =~= head + declared_lines(xs.take(i as int)));
    }
    assert(xs.take(manifest.exports@.len() as int) =~= xs);
    if manifest.exports.len() == 0 {
        out.append("- none\n");
    } else {
        assert(out@ =~= out@ + Seq::<char>::empty());
    }
    out
}

} // verus!
