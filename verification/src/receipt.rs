//! Receipts of loaded libraries and the loaded entrypoint that takes over
//! command-line execution.
use vstd::prelude::*;
use vstd::string::*;

use crate::error::CliError;
use crate::source::LibSourceSpec;
use crate::symbol::{plain_symbol, qualified_symbol, qualified_text, Symbol, SymbolView};
use crate::text::{concat2, has_prefix, owned, starts_with_chars, chars_of, str_eq};

verus! {

broadcast use vstd::string::group_string_axioms;

/// The role a loaded library serves in a boot session.
#[derive(Clone, Debug, PartialEq, Eq)]
pub enum LoadReceiptRole {
    /// A library requested with `--load`.
    Library,
    /// The selected codec loaded before the rest of the boot list.
    BootCodec {
        /// Codec name selected for the boot session.
        name: String,
        /// Codec library symbol that was loaded.
        symbol: String,
    },
}

impl LoadReceiptRole {
    /// The role of the boot codec.
    pub fn boot_codec(name: String, symbol: String) -> (r: Self)
        ensures
            r == (LoadReceiptRole::BootCodec { name, symbol }),
    {
        LoadReceiptRole::BootCodec { name, symbol }
    }
}

/// The resolution state of an export of a loaded library.
#[derive(Clone, Debug, PartialEq, Eq)]
pub enum ExportState {
    /// Resolved to a runtime id, given by its debug text.
    Resolved { id: String },
    /// Declared in the manifest but not resolved to behavior.
    Declared,
    /// Recognized but not supported here, with the reason.
    Unsupported { reason: String },
    /// Rejected as invalid, with the error.
    Invalid { error: String },
}

/// One export record of a loaded library: its kind symbol, the symbol it is
/// bound under, and its resolution state.
#[derive(Clone, Debug, PartialEq, Eq)]
pub struct ReceiptExport {
    /// Export kind, such as the bare symbol `function`.
    pub kind: Symbol,
    /// Exported symbol.
    pub symbol: Symbol,
    /// Resolution state.
    pub state: ExportState,
}

/// A library loaded as a dependency while loading another.
#[derive(Clone, Debug, PartialEq, Eq)]
pub struct ReceiptDependency {
    /// Id of the loaded dependency in the boot session.
    pub lib_id: u32,
    /// Manifest symbol of the dependency.
    pub symbol: Symbol,
}

/// Whether an export is a resolved function.
pub open spec fn resolved_function(e: ReceiptExport) -> bool {
    e.kind.view() == plain_symbol("function"@) && e.state is Resolved
}

/// Whether an export is a resolved function.
pub fn is_resolved_function(e: &ReceiptExport) -> (r: bool)
    ensures
        r == resolved_function(*e),
{
    let resolved = match &e.state {
        ExportState::Resolved { .. } => true,
        _ => false,
    };
    resolved && e.kind.namespace.is_none() && str_eq(e.kind.name.as_str(), "function")
}

/// Receipt for one library loaded by the bootloader.
#[derive(Clone, Debug, PartialEq, Eq)]
pub struct LoadReceipt {
    /// Library identifier from its manifest.
    pub lib: Symbol,
    /// Library version from its manifest.
    pub version: String,
    /// Debug text of the manifest's load target.
    pub target: String,
    /// Role the library serves in the boot session.
    pub role: LoadReceiptRole,
    /// Source as requested on the command line.
    pub requested_source: LibSourceSpec,
    /// Source after resolution to a concrete artifact.
    pub resolved_source: LibSourceSpec,
    /// Libraries loaded as its dependencies.
    pub dependencies: Vec<ReceiptDependency>,
    /// Export records published by the library.
    pub exports: Vec<ReceiptExport>,
}

/// Symbol prefix a loaded lib claims to own command-line execution.
pub const CLI_MAIN_ENTRYPOINT: &'static str = "cli/main";

/// A loaded function that owns command-line execution.
#[derive(Clone, Debug, PartialEq, Eq)]
pub struct CliEntrypoint {
    /// Library that exported the entrypoint.
    pub lib: Symbol,
    /// Exported function symbol invoked for the handoff.
    pub symbol: Symbol,
}

/// The `cli/main/NAME` entrypoint symbol of a named lib.
pub fn cli_main_entrypoint_symbol(name: &str) -> (r: Symbol)
    ensures
        r.view() == qualified_symbol("cli"@, "main/"@ + name@),
{
    Symbol::qualified(owned("cli"), concat2("main/", name))
}

/// Whether a symbol's text is `cli/main` or lies under `cli/main/`.
pub open spec fn claims_cli_main(s: SymbolView) -> bool {
    qualified_text(s) == CLI_MAIN_ENTRYPOINT@ || has_prefix(qualified_text(s), CLI_MAIN_ENTRYPOINT@ + "/"@)
}

/// Whether an export claims the command-line entrypoint: a resolved
/// function whose symbol claims `cli/main`.
pub open spec fn export_claims(e: ReceiptExport) -> bool {
    resolved_function(e) && claims_cli_main(e.symbol.view())
}

/// Index of the first export of a receipt that claims the entrypoint.
pub open spec fn first_claim(exports: Seq<ReceiptExport>, from: int) -> Option<int>
    decreases exports.len() - from,
{
    if from < 0 || from >= exports.len() {
        None
    } else if export_claims(exports[from]) {
        Some(from)
    } else {
        first_claim(exports, from + 1)
    }
}

/// Whether a receipt has the given role kind.
pub open spec fn has_role(r: LoadReceipt, library: bool) -> bool {
    if library {
        r.role is Library
    } else {
        r.role is BootCodec
    }
}

/// The first receipt, from `from` on, with the given role kind whose exports
/// claim the entrypoint.
pub open spec fn first_claiming_receipt(receipts: Seq<LoadReceipt>, library: bool, from: int) -> Option<
    int,
>
    decreases receipts.len() - from,
{
    if from < 0 || from >= receipts.len() {
        None
    } else if has_role(receipts[from], library) && first_claim(receipts[from].exports@, 0) is Some {
        Some(from)
    } else {
        first_claiming_receipt(receipts, library, from + 1)
    }
}

/// `a, b, c` of library ids, or `none`.
pub open spec fn loaded_libs_text(receipts: Seq<LoadReceipt>) -> Seq<char>
    decreases receipts.len(),
{
    if receipts.len() == 0 {
        "none"@
    } else if receipts.len() == 1 {
        qualified_text(receipts[0].lib.view())
    } else {
        loaded_libs_text(receipts.drop_last()) + ", "@ + qualified_text(receipts.last().lib.view())
    }
}

/// Message when no loaded lib claims the entrypoint.
pub open spec fn no_entrypoint_msg(receipts: Seq<LoadReceipt>) -> Seq<char> {
    "no loaded lib claims cli/main; loaded libs: "@ + loaded_libs_text(receipts)
        + "; load one with --load"@
}

/// Whether a symbol claims the command-line entrypoint.
fn symbol_claims_cli_main(symbol: &Symbol) -> (r: bool)
    ensures
        r == claims_cli_main(symbol.view()),
{
    let text = symbol.as_qualified_str();
    let prefix = concat2(CLI_MAIN_ENTRYPOINT, "/");
    str_eq(text.as_str(), CLI_MAIN_ENTRYPOINT) || starts_with_chars(
        &chars_of(text.as_str()),
        &chars_of(prefix.as_str()),
    )
}

/// The first export of a receipt that claims the entrypoint.
fn entrypoint_for_receipt(receipt: &LoadReceipt) -> (r: Option<CliEntrypoint>)
    ensures
        match first_claim(receipt.exports@, 0) {
            Some(i) => r matches Some(e) && e.lib.view() == receipt.lib.view() && e.symbol.view()
                == receipt.exports@[i].symbol.view(),
            None => r is None,
        },
{
    let mut i: usize = 0;
    while i < receipt.exports.len()
        invariant
            i <= receipt.exports@.len(),
            first_claim(receipt.exports@, 0) == first_claim(receipt.exports@, i as int),
        decreases receipt.exports@.len() - i,
    {
        let e = &receipt.exports[i];
        if is_resolved_function(e) && symbol_claims_cli_main(&e.symbol) {
            return Some(CliEntrypoint { lib: receipt.lib.copy(), symbol: e.symbol.copy() });
        }
        i = i + 1;
    }
    None
}

/// The entrypoint of the first receipt of a role kind that has one.
fn first_entrypoint(receipts: &Vec<LoadReceipt>, library: bool) -> (r: Option<CliEntrypoint>)
    ensures
        match first_claiming_receipt(receipts@, library, 0) {
            Some(k) => r matches Some(e) && e.lib.view() == receipts@[k].lib.view() && e.symbol.view()
                == receipts@[k].exports@[first_claim(receipts@[k].exports@, 0)->0].symbol.view(),
            None => r is None,
        },
{
    let mut k: usize = 0;
    while k < receipts.len()
        invariant
            k <= receipts@.len(),
            first_claiming_receipt(receipts@, library, 0) == first_claiming_receipt(
                receipts@,
                library,
                k as int,
            ),
        decreases receipts@.len() - k,
    {
        let rc = &receipts[k];
        let role_ok = match &rc.role {
            LoadReceiptRole::Library => library,
            LoadReceiptRole::BootCodec { .. } => !library,
        };
        if role_ok {
            match entrypoint_for_receipt(rc) {
                Some(e) => {
                    return Some(e);
                },
                None => {},
            }
        }
        k = k + 1;
    }
    None
}

/// Lists the ids of loaded libraries, or `none`.
fn loaded_libs(receipts: &Vec<LoadReceipt>) -> (r: String)
    ensures
        r@ == loaded_libs_text(receipts@),
{
    if receipts.len() == 0 {
        return owned("none");
    }
    let mut r = receipts[0].lib.as_qualified_str();
    let mut k: usize = 1;
    proof {
        assert(receipts@.take(1).drop_last() =~= Seq::<LoadReceipt>::empty());
    }
    while k < receipts.len()
        invariant
            1 <= k <= receipts@.len(),
            r@ == loaded_libs_text(receipts@.take(k as int)),
        decreases receipts@.len() - k,
    {
        r.append(", ");
        r.append(receipts[k].lib.as_qualified_str().as_str());
        proof {
            assert(receipts@.take(k + 1).drop_last() =~= receipts@.take(k as int));
        }
        k = k + 1;
    }
    assert(receipts@.take(receipts@.len() as int) =~= receipts@);
    r
}

proof fn lemma_first_claim_at(exports: Seq<ReceiptExport>, from: int, j: int)
    requires
        0 <= from <= j < exports.len(),
        export_claims(exports[j]),
        forall|m: int| from <= m < j ==> !export_claims(#[trigger] exports[m]),
    ensures
        first_claim(exports, from) == Some(j),
    decreases j - from,
{
    if from < j {
        lemma_first_claim_at(exports, from + 1, j);
    }
}

proof fn lemma_no_claim(exports: Seq<ReceiptExport>, from: int)
    requires
        0 <= from,
        forall|m: int| from <= m < exports.len() ==> !export_claims(#[trigger] exports[m]),
    ensures
        first_claim(exports, from) is None,
    decreases exports.len() - from,
{
    if from < exports.len() {
        lemma_no_claim(exports, from + 1);
    }
}

proof fn lemma_claim_exists(exports: Seq<ReceiptExport>)
    ensures
        (exists|j: int| 0 <= j < exports.len() && export_claims(#[trigger] exports[j])) <==> first_claim(
            exports,
            0,
        ) is Some,
{
    if exists|j: int| 0 <= j < exports.len() && export_claims(#[trigger] exports[j]) {
        let j = choose|j: int| 0 <= j < exports.len() && export_claims(#[trigger] exports[j]);
        lemma_least_claim(exports, j);
    } else {
        lemma_no_claim(exports, 0);
    }
}

proof fn lemma_least_claim(exports: Seq<ReceiptExport>, j: int)
    requires
        0 <= j < exports.len(),
        export_claims(exports[j]),
    ensures
        first_claim(exports, 0) is Some,
    decreases j,
{
    if exists|m: int| 0 <= m < j && export_claims(#[trigger] exports[m]) {
        let m = choose|m: int| 0 <= m < j && export_claims(#[trigger] exports[m]);
        lemma_least_claim(exports, m);
    } else {
        lemma_first_claim_at(exports, 0, j);
    }
}

/// Whether a receipt of the given role kind exports a function that
/// claims the `cli/main` entrypoint.
pub open spec fn claims_entrypoint(r: LoadReceipt, library: bool) -> bool {
    &&& (if library { r.role is Library } else { r.role is BootCodec })
    &&& exists|j: int| 0 <= j < r.exports@.len() && export_claims(#[trigger] r.exports@[j])
}

/// The entrypoint comes from the first receipt, in load order, of the role
/// kind asked for (`--load` libraries, then the boot codec) that claims
/// `cli/main`, and from that receipt's first claiming export.
pub proof fn law_first_claiming_receipt_wins(receipts: Seq<LoadReceipt>, library: bool, i: int, j: int)
    requires
        0 <= i < receipts.len(),
        claims_entrypoint(receipts[i], library),
        forall|m: int| 0 <= m < i ==> !claims_entrypoint(#[trigger] receipts[m], library),
        0 <= j < receipts[i].exports@.len(),
        export_claims(receipts[i].exports@[j]),
        forall|m: int| 0 <= m < j ==> !export_claims(#[trigger] receipts[i].exports@[m]),
    ensures
        first_claiming_receipt(receipts, library, 0) == Some(i),
        first_claim(receipts[i].exports@, 0) == Some(j),
{
    lemma_first_claim_at(receipts[i].exports@, 0, j);
    lemma_first_receipt_from(receipts, library, 0, i);
}

proof fn lemma_first_receipt_from(receipts: Seq<LoadReceipt>, library: bool, from: int, i: int)
    requires
        0 <= from <= i < receipts.len(),
        claims_entrypoint(receipts[i], library),
        forall|m: int| 0 <= m < i ==> !claims_entrypoint(#[trigger] receipts[m], library),
    ensures
        first_claiming_receipt(receipts, library, from) == Some(i),
    decreases i - from,
{
    lemma_claim_exists(receipts[from].exports@);
    if from < i {
        assert(!claims_entrypoint(receipts[from], library));
        lemma_first_receipt_from(receipts, library, from + 1, i);
    }
}

/// When no receipt of the role kind asked for claims `cli/main`, none is
/// selected from that kind.
pub proof fn law_no_claiming_receipt(receipts: Seq<LoadReceipt>, library: bool)
    requires
        forall|m: int| 0 <= m < receipts.len() ==> !claims_entrypoint(#[trigger] receipts[m], library),
    ensures
        first_claiming_receipt(receipts, library, 0) is None,
{
    lemma_none_from(receipts, library, 0);
}

proof fn lemma_none_from(receipts: Seq<LoadReceipt>, library: bool, from: int)
    requires
        0 <= from,
        forall|m: int| 0 <= m < receipts.len() ==> !claims_entrypoint(#[trigger] receipts[m], library),
    ensures
        first_claiming_receipt(receipts, library, from) is None,
    decreases receipts.len() - from,
{
    if from < receipts.len() {
        lemma_claim_exists(receipts[from].exports@);
        assert(!claims_entrypoint(receipts[from], library));
        lemma_none_from(receipts, library, from + 1);
    }
}

/// Selects the loaded entrypoint that claims `cli/main`: a `--load`
/// library's first, then the boot codec's; without one the error lists the
/// loaded libraries.
pub fn select_cli_entrypoint(receipts: &Vec<LoadReceipt>) -> (r: Result<CliEntrypoint, CliError>)
    ensures
        match first_claiming_receipt(receipts@, true, 0) {
            Some(k) => r matches Ok(e) && e.lib.view() == receipts@[k].lib.view() && e.symbol.view()
                == receipts@[k].exports@[first_claim(receipts@[k].exports@, 0)->0].symbol.view(),
            None => match first_claiming_receipt(receipts@, false, 0) {
                Some(k) => r matches Ok(e) && e.lib.view() == receipts@[k].lib.view()
                    && e.symbol.view() == receipts@[k].exports@[first_claim(
                    receipts@[k].exports@,
                    0,
                )->0].symbol.view(),
                None => r matches Err(x) && x.message@ == no_entrypoint_msg(receipts@),
            },
        },
{
    match first_entrypoint(receipts, true) {
        Some(e) => Ok(e),
        None => match first_entrypoint(receipts, false) {
            Some(e) => Ok(e),
            None => {
                let mut m = owned("no loaded lib claims cli/main; loaded libs: ");
                m.append(loaded_libs(receipts).as_str());
                m.append("; load one with --load");
                Err(CliError::new(m))
            },
        },
    }
}

} // verus!
