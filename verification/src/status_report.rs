//! Loaded-state and config reports: loaded libraries, config sources,
//! probes, diagnostics and effective tables, as text and as stable JSON.
use vstd::prelude::*;
use vstd::string::*;

use crate::error::CliError;
use crate::receipt::{LoadReceipt, LoadReceiptRole};
use crate::report::{
    comma, json_string, json_strings, push_expr_json, push_json_string,
    push_strings_json, redact_table_expr, texts, ConfigExpr, ConfigSecretField, expr_json,
};
use crate::source::source_text;
use crate::symbol::{qualified_text, Symbol, SymbolView};
use crate::text::{
    chars_of, concat2, decimal_string, decimal_text, has_prefix, owned, starts_with_chars,
};

verus! {

broadcast use vstd::string::group_string_axioms;

/// Appends a literal.
fn push_lit(output: &mut String, lit: &str)
    ensures
        final(output)@ == old(output)@ + lit@,
{
    output.append(lit);
}

// ---------------------------------------------------------------------------
// Labels
// ---------------------------------------------------------------------------

/// Discovery status for one config source.
#[derive(Clone, Copy, Debug, PartialEq, Eq, Structural)]
pub enum SourceStatus {
    /// The source existed and produced a config layer.
    Found,
    /// The source was checked but was absent.
    Missing,
    /// The source was known but skipped by source-selection policy.
    Ignored,
    /// The source existed but could not decode or normalize as config.
    Rejected,
}

/// Label of a source status.
pub open spec fn status_text(s: SourceStatus) -> Seq<char> {
    match s {
        SourceStatus::Found => "found"@,
        SourceStatus::Missing => "missing"@,
        SourceStatus::Ignored => "ignored"@,
        SourceStatus::Rejected => "rejected"@,
    }
}

/// Label of a source status.
pub fn status_label(status: SourceStatus) -> (r: &'static str)
    ensures
        r@ == status_text(status),
{
    match status {
        SourceStatus::Found => "found",
        SourceStatus::Missing => "missing",
        SourceStatus::Ignored => "ignored",
        SourceStatus::Rejected => "rejected",
    }
}

/// Label of a receipt role.
pub open spec fn role_text(role: LoadReceiptRole) -> Seq<char> {
    match role {
        LoadReceiptRole::Library => "library"@,
        LoadReceiptRole::BootCodec { .. } => "boot-codec"@,
    }
}

/// Label of a receipt role.
pub fn role_label(role: &LoadReceiptRole) -> (r: &'static str)
    ensures
        r@ == role_text(*role),
{
    match role {
        LoadReceiptRole::Library => "library",
        LoadReceiptRole::BootCodec { .. } => "boot-codec",
    }
}

/// Whether a probe ran on a modeled or a real device.
#[derive(Clone, Copy, Debug, PartialEq, Eq, Structural)]
pub enum ProbeMode {
    Modeled,
    Real,
}

/// Label of a probe mode.
pub open spec fn mode_text(m: ProbeMode) -> Seq<char> {
    match m {
        ProbeMode::Modeled => "modeled"@,
        ProbeMode::Real => "real"@,
    }
}

/// Label of a probe mode.
pub fn mode_label(mode: ProbeMode) -> (r: &'static str)
    ensures
        r@ == mode_text(mode),
{
    match mode {
        ProbeMode::Modeled => "modeled",
        ProbeMode::Real => "real",
    }
}

/// Outcome of one config probe.
#[derive(Clone, Debug, PartialEq, Eq)]
pub enum ConfigProbeStatus {
    Applied,
    Skipped { reason: String },
    Denied { capability: String },
    Failed { message: String },
}

/// Label of a probe outcome.
pub open spec fn probe_status_text(s: ConfigProbeStatus) -> Seq<char> {
    match s {
        ConfigProbeStatus::Applied => "applied"@,
        ConfigProbeStatus::Skipped { .. } => "skipped"@,
        ConfigProbeStatus::Denied { .. } => "denied"@,
        ConfigProbeStatus::Failed { .. } => "failed"@,
    }
}

/// Label of a probe outcome.
pub fn probe_status_label(status: &ConfigProbeStatus) -> (r: &'static str)
    ensures
        r@ == probe_status_text(*status),
{
    match status {
        ConfigProbeStatus::Applied => "applied",
        ConfigProbeStatus::Skipped { .. } => "skipped",
        ConfigProbeStatus::Denied { .. } => "denied",
        ConfigProbeStatus::Failed { .. } => "failed",
    }
}

/// `a,b,c`, or `-` when there are none.
pub open spec fn keys_text(keys: Seq<Seq<char>>) -> Seq<char> {
    if keys.len() == 0 {
        "-"@
    } else {
        joined_with(keys, ","@)
    }
}

/// Items joined by a separator.
pub open spec fn joined_with(items: Seq<Seq<char>>, sep: Seq<char>) -> Seq<char>
    decreases items.len(),
{
    if items.len() == 0 {
        Seq::empty()
    } else if items.len() == 1 {
        items[0]
    } else {
        joined_with(items.drop_last(), sep) + sep + items.last()
    }
}

/// Joins strings with a separator.
fn join_strings(items: &Vec<String>, sep: &str) -> (r: String)
    ensures
        r@ == joined_with(texts(items@), sep@),
{
    let mut r = String::new();
    let mut i: usize = 0;
    while i < items.len()
        invariant
            i <= items@.len(),
            r@ == joined_with(texts(items@.take(i as int)), sep@),
        decreases items@.len() - i,
    {
        if i > 0 {
            r.append(sep);
        }
        r.append(items[i].as_str());
        proof {
            let t = texts(items@.take(i + 1));
            assert(t.drop_last() =~= texts(items@.take(i as int)));
            if i == 0 {
                assert(texts(items@.take(0)) =~= Seq::<Seq<char>>::empty());
            }
        }
        i = i + 1;
    }
    assert(items@.take(items@.len() as int) =~= items@);
    r
}

/// Label of emitted keys: comma-joined, or `-` when there are none.
pub fn emitted_keys_label(keys: &Vec<String>) -> (r: String)
    ensures
        r@ == keys_text(texts(keys@)),
{
    if keys.len() == 0 {
        owned("-")
    } else {
        join_strings(keys, ",")
    }
}

/// Whether an error reports that no codec is available.
pub fn is_no_codec_error(err: &CliError) -> (r: bool)
    ensures
        r == has_prefix(err.message@, "no codec '"@),
{
    starts_with_chars(&chars_of(err.message.as_str()), &chars_of("no codec '"))
}

/// One config source descriptor.
#[derive(Clone, Debug, PartialEq, Eq)]
pub enum ConfigSource {
    BuiltIn { lib: Symbol },
    Probe { probe: Symbol, mode: ProbeMode },
    HomeFile { path: String },
    WorkFile { path: String },
    SingleFile { path: String },
    Site { site: Symbol },
    Explicit { label: String },
}

/// Mathematical form of a config source.
pub enum ConfigSourceView {
    BuiltIn(SymbolView),
    Probe(SymbolView, ProbeMode),
    HomeFile(Seq<char>),
    WorkFile(Seq<char>),
    SingleFile(Seq<char>),
    Site(SymbolView),
    Explicit(Seq<char>),
}

impl ConfigSource {
    pub open spec fn view(&self) -> ConfigSourceView {
        match self {
            ConfigSource::BuiltIn { lib } => ConfigSourceView::BuiltIn(lib.view()),
            ConfigSource::Probe { probe, mode } => ConfigSourceView::Probe(probe.view(), *mode),
            ConfigSource::HomeFile { path } => ConfigSourceView::HomeFile(path@),
            ConfigSource::WorkFile { path } => ConfigSourceView::WorkFile(path@),
            ConfigSource::SingleFile { path } => ConfigSourceView::SingleFile(path@),
            ConfigSource::Site { site } => ConfigSourceView::Site(site.view()),
            ConfigSource::Explicit { label } => ConfigSourceView::Explicit(label@),
        }
    }
}

/// Label of a config source.
pub open spec fn source_label_text(s: ConfigSource) -> Seq<char> {
    match s {
        ConfigSource::BuiltIn { lib } => "built-in:"@ + qualified_text(lib.view()),
        ConfigSource::Probe { probe, mode } => "probe:"@ + qualified_text(probe.view()) + ":"@
            + mode_text(mode),
        ConfigSource::HomeFile { path } => "home-file:"@ + path@,
        ConfigSource::WorkFile { path } => "work-file:"@ + path@,
        ConfigSource::SingleFile { path } => "single-file:"@ + path@,
        ConfigSource::Site { site } => "site:"@ + qualified_text(site.view()),
        ConfigSource::Explicit { label } => "explicit:"@ + label@,
    }
}

/// Label of a config source.
pub fn source_label(source: &ConfigSource) -> (r: String)
    ensures
        r@ == source_label_text(*source),
{
    match source {
        ConfigSource::BuiltIn { lib } => concat2("built-in:", lib.as_qualified_str().as_str()),
        ConfigSource::Probe { probe, mode } => {
            let mut r = concat2("probe:", probe.as_qualified_str().as_str());
            r.append(":");
            r.append(mode_label(*mode));
            r
        },
        ConfigSource::HomeFile { path } => concat2("home-file:", path.as_str()),
        ConfigSource::WorkFile { path } => concat2("work-file:", path.as_str()),
        ConfigSource::SingleFile { path } => concat2("single-file:", path.as_str()),
        ConfigSource::Site { site } => concat2("site:", site.as_qualified_str().as_str()),
        ConfigSource::Explicit { label } => concat2("explicit:", label.as_str()),
    }
}

// ---------------------------------------------------------------------------
// Report rows
// ---------------------------------------------------------------------------

/// One loaded library as it appears in a boot session report.
#[derive(Clone, Debug, PartialEq, Eq)]
pub struct LoadedLibReport {
    /// Role assigned by the bootloader.
    pub role: String,
    /// Library identifier from the manifest.
    pub lib: Symbol,
    /// Library version from the manifest.
    pub version: String,
    /// Source requested by the operator or bootloader.
    pub requested: String,
    /// Concrete source used by the loader after catalog or registry
    /// resolution.
    pub resolved: String,
    /// Number of export records published by the loaded library.
    pub exports: usize,
}

/// Whether a report row is the row of a receipt.
pub open spec fn is_row_of(r: LoadedLibReport, receipt: LoadReceipt) -> bool {
    &&& r.role@ == role_text(receipt.role)
    &&& r.lib.view() == receipt.lib.view()
    &&& r.version@ == receipt.version@
    &&& r.requested@ == source_text(receipt.requested_source.view())
    &&& r.resolved@ == source_text(receipt.resolved_source.view())
    &&& r.exports == receipt.exports@.len()
}

impl LoadedLibReport {
    /// Builds a loaded-library report row from a load receipt.
    pub fn from_receipt(receipt: &LoadReceipt) -> (r: Self)
        ensures
            r.role@ == role_text(receipt.role),
            r.lib.view() == receipt.lib.view(),
            r.version@ == receipt.version@,
            r.requested@ == source_text(receipt.requested_source.view()),
            r.resolved@ == source_text(receipt.resolved_source.view()),
            r.exports == receipt.exports@.len(),
    {
        LoadedLibReport {
            role: owned(role_label(&receipt.role)),
            lib: receipt.lib.copy(),
            version: receipt.version.clone(),
            requested: receipt.requested_source.to_string(),
            resolved: receipt.resolved_source.to_string(),
            exports: receipt.exports.len(),
        }
    }
}

/// One config source and its discovery status.
#[derive(Clone, Debug, PartialEq, Eq)]
pub struct ConfigSourceReport {
    /// Source descriptor that was checked.
    pub source: ConfigSource,
    /// Discovery status for the source.
    pub status: SourceStatus,
}

/// One config probe run.
#[derive(Clone, Debug, PartialEq, Eq)]
pub struct ConfigProbeReport {
    pub probe: Symbol,
    pub lib: Symbol,
    pub mode: ProbeMode,
    pub status: ConfigProbeStatus,
    pub emitted_keys: Vec<String>,
}

/// One library's effective config table.
#[derive(Debug, PartialEq, Eq)]
pub struct EffectiveTable {
    pub lib: Symbol,
    pub table: ConfigExpr,
}

/// Loaded-state report of one boot session.
#[derive(Debug, PartialEq, Eq)]
pub struct LoadedStateReport {
    /// Loaded libraries in receipt order.
    pub libs: Vec<LoadedLibReport>,
    /// Config source status rows in discovery order.
    pub config_sources: Vec<ConfigSourceReport>,
    /// Effective merged configuration, one table per library.
    pub effective: Vec<EffectiveTable>,
    /// Secret-bearing config fields to redact in report renderers.
    pub secret_fields: Vec<ConfigSecretField>,
    /// Typed probe report records in discovery order.
    pub probe_reports: Vec<ConfigProbeReport>,
    /// Non-fatal config discovery diagnostics.
    pub diagnostics: Vec<String>,
}

// ---------------------------------------------------------------------------
// Text sections
// ---------------------------------------------------------------------------

/// One text line of a loaded library.
pub open spec fn lib_line(l: LoadedLibReport) -> Seq<char> {
    "- role="@ + l.role@ + " lib="@ + qualified_text(l.lib.view()) + " version="@ + l.version@
        + " requested="@ + l.requested@ + " resolved="@ + l.resolved@ + " exports="@ + decimal_text(
        l.exports as nat,
    ) + "\n"@
}

/// Text lines of loaded libraries.
pub open spec fn lib_lines(libs: Seq<LoadedLibReport>) -> Seq<char>
    decreases libs.len(),
{
    if libs.len() == 0 {
        Seq::empty()
    } else {
        lib_lines(libs.drop_last()) + lib_line(libs.last())
    }
}

/// The `loaded libs:` section.
pub open spec fn libs_section(libs: Seq<LoadedLibReport>) -> Seq<char> {
    "loaded libs:\n"@ + if libs.len() == 0 {
        "- none\n"@
    } else {
        lib_lines(libs)
    }
}

/// Appends the `loaded libs:` section.
pub fn push_loaded_libs(output: &mut String, libs: &Vec<LoadedLibReport>)
    ensures
        final(output)@ == old(output)@ + libs_section(libs@),
{
    let ghost start = output@;
    push_lit(output, "loaded libs:\n");
    if libs.len() == 0 {
        push_lit(output, "- none\n");
        return;
    }
    let ghost head = output@;
    let mut i: usize = 0;
    while i < libs.len()
        invariant
            i <= libs@.len(),
            output@ == head + lib_lines(libs@.take(i as int)),
        decreases libs@.len() - i,
    {
        let l = &libs[i];
        push_lit(output, "- role=");
        push_lit(output, l.role.as_str());
        push_lit(output, " lib=");
        push_lit(output, l.lib.as_qualified_str().as_str());
        push_lit(output, " version=");
        push_lit(output, l.version.as_str());
        push_lit(output, " requested=");
        push_lit(output, l.requested.as_str());
        push_lit(output, " resolved=");
        push_lit(output, l.resolved.as_str());
        push_lit(output, " exports=");
        push_lit(output, decimal_string(l.exports).as_str());
        push_lit(output, "\n");
        proof {
            assert(libs@.take(i + 1).drop_last() =~= libs@.take(i as int));
            assert(output@ =~= head + lib_lines(libs@.take(i + 1)));
        }
        i = i + 1;
    }
    assert(libs@.take(libs@.len() as int) =~= libs@);
}

/// One text line of a config source.
pub open spec fn source_line(s: ConfigSourceReport) -> Seq<char> {
    "- source="@ + source_label_text(s.source) + " status="@ + status_text(s.status) + "\n"@
}

/// Text lines of config sources.
pub open spec fn source_lines(sources: Seq<ConfigSourceReport>) -> Seq<char>
    decreases sources.len(),
{
    if sources.len() == 0 {
        Seq::empty()
    } else {
        source_lines(sources.drop_last()) + source_line(sources.last())
    }
}

/// The `config sources:` section.
pub open spec fn sources_section(sources: Seq<ConfigSourceReport>) -> Seq<char> {
    "config sources:\n"@ + if sources.len() == 0 {
        "- none\n"@
    } else {
        source_lines(sources)
    }
}

/// Appends the `config sources:` section.
pub fn push_config_sources(output: &mut String, sources: &Vec<ConfigSourceReport>)
    ensures
        final(output)@ == old(output)@ + sources_section(sources@),
{
    push_lit(output, "config sources:\n");
    if sources.len() == 0 {
        push_lit(output, "- none\n");
        return;
    }
    let ghost head = output@;
    let mut i: usize = 0;
    while i < sources.len()
        invariant
            i <= sources@.len(),
            output@ == head + source_lines(sources@.take(i as int)),
        decreases sources@.len() - i,
    {
        let s = &sources[i];
        push_lit(output, "- source=");
        push_lit(output, source_label(&s.source).as_str());
        push_lit(output, " status=");
        push_lit(output, status_label(s.status));
        push_lit(output, "\n");
        proof {
            assert(sources@.take(i + 1).drop_last() =~= sources@.take(i as int));
            assert(output@ =~= head + source_lines(sources@.take(i + 1)));
        }
        i = i + 1;
    }
    assert(sources@.take(sources@.len() as int) =~= sources@);
}

/// The detail of a probe outcome in text.
pub open spec fn probe_detail_text(s: ConfigProbeStatus) -> Seq<char> {
    match s {
        ConfigProbeStatus::Applied => Seq::empty(),
        ConfigProbeStatus::Skipped { reason } => " reason="@ + reason@,
        ConfigProbeStatus::Denied { capability } => " capability="@ + capability@,
        ConfigProbeStatus::Failed { message } => " message="@ + message@,
    }
}

/// One text line of a probe.
pub open spec fn probe_line(p: ConfigProbeReport) -> Seq<char> {
    "- probe="@ + qualified_text(p.probe.view()) + " lib="@ + qualified_text(p.lib.view()) + " mode="@
        + mode_text(p.mode) + " status="@ + probe_status_text(p.status) + probe_detail_text(p.status)
        + " emitted="@ + keys_text(texts(p.emitted_keys@)) + "\n"@
}

/// Text lines of probes.
pub open spec fn probe_lines(probes: Seq<ConfigProbeReport>) -> Seq<char>
    decreases probes.len(),
{
    if probes.len() == 0 {
        Seq::empty()
    } else {
        probe_lines(probes.drop_last()) + probe_line(probes.last())
    }
}

/// The `probes:` section.
pub open spec fn probes_section(probes: Seq<ConfigProbeReport>) -> Seq<char> {
    "probes:\n"@ + if probes.len() == 0 {
        "- none\n"@
    } else {
        probe_lines(probes)
    }
}

/// Appends one probe line.
#[verifier::rlimit(40)]
fn push_probe_line(output: &mut String, p: &ConfigProbeReport)
    ensures
        final(output)@ == old(output)@ + probe_line(*p),
{
    let ghost start = output@;
    push_lit(output, "- probe=");
    push_lit(output, p.probe.as_qualified_str().as_str());
    push_lit(output, " lib=");
    push_lit(output, p.lib.as_qualified_str().as_str());
    push_lit(output, " mode=");
    push_lit(output, mode_label(p.mode));
    push_lit(output, " status=");
    push_lit(output, probe_status_label(&p.status));
    match &p.status {
        ConfigProbeStatus::Applied => {},
        ConfigProbeStatus::Skipped { reason } => {
            push_lit(output, " reason=");
            push_lit(output, reason.as_str());
        },
        ConfigProbeStatus::Denied { capability } => {
            push_lit(output, " capability=");
            push_lit(output, capability.as_str());
        },
        ConfigProbeStatus::Failed { message } => {
            push_lit(output, " message=");
            push_lit(output, message.as_str());
        },
    }
    push_lit(output, " emitted=");
    push_lit(output, emitted_keys_label(&p.emitted_keys).as_str());
    push_lit(output, "\n");
    assert(output@ =~= start + probe_line(*p));
}

/// Appends the `probes:` section.
pub fn push_probe_reports(output: &mut String, probes: &Vec<ConfigProbeReport>)
    ensures
        final(output)@ == old(output)@ + probes_section(probes@),
{
    push_lit(output, "probes:\n");
    if probes.len() == 0 {
        push_lit(output, "- none\n");
        return;
    }
    let ghost head = output@;
    let mut i: usize = 0;
    while i < probes.len()
        invariant
            i <= probes@.len(),
            output@ == head + probe_lines(probes@.take(i as int)),
        decreases probes@.len() - i,
    {
        push_probe_line(output, &probes[i]);
        proof {
            assert(probes@.take(i + 1).drop_last() =~= probes@.take(i as int));
            assert(output@ =~= head + probe_lines(probes@.take(i + 1)));
        }
        i = i + 1;
    }
    assert(probes@.take(probes@.len() as int) =~= probes@);
}

/// Text lines of diagnostics.
pub open spec fn diagnostic_lines(d: Seq<Seq<char>>) -> Seq<char>
    decreases d.len(),
{
    if d.len() == 0 {
        Seq::empty()
    } else {
        diagnostic_lines(d.drop_last()) + "- "@ + d.last() + "\n"@
    }
}

/// The `diagnostics:` section, empty when there are none.
pub open spec fn diagnostics_section(d: Seq<Seq<char>>) -> Seq<char> {
    if d.len() == 0 {
        Seq::empty()
    } else {
        "diagnostics:\n"@ + diagnostic_lines(d)
    }
}

/// Appends the `diagnostics:` section when there are diagnostics.
pub fn push_diagnostics(output: &mut String, diagnostics: &Vec<String>)
    ensures
        final(output)@ == old(output)@ + diagnostics_section(texts(diagnostics@)),
{
    if diagnostics.len() == 0 {
        assert(old(output)@ + diagnostics_section(texts(diagnostics@)) =~= old(output)@);
        return;
    }
    push_lit(output, "diagnostics:\n");
    let ghost head = output@;
    let mut i: usize = 0;
    while i < diagnostics.len()
        invariant
            i <= diagnostics@.len(),
            output@ == head + diagnostic_lines(texts(diagnostics@.take(i as int))),
        decreases diagnostics@.len() - i,
    {
        push_lit(output, "- ");
        push_lit(output, diagnostics[i].as_str());
        push_lit(output, "\n");
        proof {
            let t = texts(diagnostics@.take(i + 1));
            assert(t.drop_last() =~= texts(diagnostics@.take(i as int)));
            assert(output@ =~= head + diagnostic_lines(t));
        }
        i = i + 1;
    }
    assert(diagnostics@.take(diagnostics@.len() as int) =~= diagnostics@);
}

// ---------------------------------------------------------------------------
// JSON sections
// ---------------------------------------------------------------------------

/// Items joined by commas.
pub open spec fn comma_joined(items: Seq<Seq<char>>) -> Seq<char> {
    joined_with(items, ","@)
}

/// JSON object of a loaded library.
pub open spec fn lib_json(l: LoadedLibReport) -> Seq<char> {
    "{"@ + "\"role\":"@ + json_string(l.role@) + ",\"lib\":"@ + json_string(qualified_text(l.lib.view()))
        + ",\"version\":"@ + json_string(l.version@) + ",\"requested\":"@ + json_string(l.requested@)
        + ",\"resolved\":"@ + json_string(l.resolved@) + ",\"exports\":"@ + decimal_text(
        l.exports as nat,
    ) + "}"@
}

/// JSON array of loaded libraries.
pub open spec fn libs_json(libs: Seq<LoadedLibReport>) -> Seq<char> {
    "["@ + comma_joined(libs.map_values(|l: LoadedLibReport| lib_json(l))) + "]"@
}

/// Appends a JSON array of items, rendering each with `f`'s contract.
proof fn lemma_comma_step(items: Seq<Seq<char>>, i: int)
    requires
        0 <= i < items.len(),
    ensures
        comma_joined(items.take(i + 1)) == if i == 0 {
            items[0]
        } else {
            comma_joined(items.take(i)) + ","@ + items[i]
        },
{
    assert(items.take(i + 1).drop_last() =~= items.take(i));
}

/// Appends one loaded library's JSON object.
#[verifier::rlimit(40)]
fn push_lib_json(output: &mut String, l: &LoadedLibReport)
    ensures
        final(output)@ == old(output)@ + lib_json(*l),
{
    let ghost start = output@;
    push_lit(output, "{");
    push_lit(output, "\"role\":");
    push_json_string(output, l.role.as_str());
    push_lit(output, ",\"lib\":");
    push_json_string(output, l.lib.as_qualified_str().as_str());
    push_lit(output, ",\"version\":");
    push_json_string(output, l.version.as_str());
    push_lit(output, ",\"requested\":");
    push_json_string(output, l.requested.as_str());
    push_lit(output, ",\"resolved\":");
    push_json_string(output, l.resolved.as_str());
    push_lit(output, ",\"exports\":");
    push_lit(output, decimal_string(l.exports).as_str());
    push_lit(output, "}");
    assert(output@ =~= start + lib_json(*l));
}

/// Appends the JSON array of loaded libraries.
#[verifier::rlimit(40)]
pub fn push_loaded_libs_json(output: &mut String, libs: &Vec<LoadedLibReport>)
    ensures
        final(output)@ == old(output)@ + libs_json(libs@),
{
    proof {
        reveal_strlit("[");
        reveal_strlit("]");
        reveal_strlit(",");
    }
    let ghost start = output@;
    let ghost items = libs@.map_values(|l: LoadedLibReport| lib_json(l));
    push_lit(output, "[");
    let mut i: usize = 0;
    while i < libs.len()
        invariant
            i <= libs@.len(),
            items == libs@.map_values(|l: LoadedLibReport| lib_json(l)),
            output@ == start + "["@ + comma_joined(items.take(i as int)),
        decreases libs@.len() - i,
    {
        let ghost before = output@;
        if i > 0 {
            push_lit(output, ",");
        }
        push_lib_json(output, &libs[i]);
        proof {
            lemma_comma_step(items, i as int);
            if i == 0 {
                assert(items.take(0) =~= Seq::<Seq<char>>::empty());
            }
            assert(output@ =~= start + "["@ + comma_joined(items.take(i + 1)));
        }
        i = i + 1;
    }
    push_lit(output, "]");
    assert(items.take(libs@.len() as int) =~= items);
}

/// JSON object of a config source.
pub open spec fn source_json(s: ConfigSourceReport) -> Seq<char> {
    "{"@ + "\"source\":"@ + json_string(source_label_text(s.source)) + ",\"status\":"@ + json_string(
        status_text(s.status),
    ) + "}"@
}

/// JSON array of config sources.
pub open spec fn sources_json(sources: Seq<ConfigSourceReport>) -> Seq<char> {
    "["@ + comma_joined(sources.map_values(|s: ConfigSourceReport| source_json(s))) + "]"@
}

/// Appends the JSON array of config sources.
#[verifier::rlimit(40)]
pub fn push_config_sources_json(output: &mut String, sources: &Vec<ConfigSourceReport>)
    ensures
        final(output)@ == old(output)@ + sources_json(sources@),
{
    let ghost start = output@;
    let ghost items = sources@.map_values(|s: ConfigSourceReport| source_json(s));
    push_lit(output, "[");
    let mut i: usize = 0;
    while i < sources.len()
        invariant
            i <= sources@.len(),
            items == sources@.map_values(|s: ConfigSourceReport| source_json(s)),
            output@ == start + "["@ + comma_joined(items.take(i as int)),
        decreases sources@.len() - i,
    {
        if i > 0 {
            push_lit(output, ",");
        }
        let s = &sources[i];
        push_lit(output, "{");
        push_lit(output, "\"source\":");
        push_json_string(output, source_label(&s.source).as_str());
        push_lit(output, ",\"status\":");
        push_json_string(output, status_label(s.status));
        push_lit(output, "}");
        proof {
            lemma_comma_step(items, i as int);
            if i == 0 {
                assert(items.take(0) =~= Seq::<Seq<char>>::empty());
            }
            assert(output@ =~= start + "["@ + comma_joined(items.take(i + 1)));
        }
        i = i + 1;
    }
    push_lit(output, "]");
    assert(items.take(sources@.len() as int) =~= items);
}

/// JSON detail of a probe outcome.
pub open spec fn probe_detail_json(s: ConfigProbeStatus) -> Seq<char> {
    match s {
        ConfigProbeStatus::Applied => Seq::empty(),
        ConfigProbeStatus::Skipped { reason } => ",\"reason\":"@ + json_string(reason@),
        ConfigProbeStatus::Denied { capability } => ",\"capability\":"@ + json_string(capability@),
        ConfigProbeStatus::Failed { message } => ",\"message\":"@ + json_string(message@),
    }
}

/// JSON object of a probe.
pub open spec fn probe_json(p: ConfigProbeReport) -> Seq<char> {
    "{"@ + "\"probe\":"@ + json_string(qualified_text(p.probe.view())) + ",\"lib\":"@ + json_string(
        qualified_text(p.lib.view()),
    ) + ",\"mode\":"@ + json_string(mode_text(p.mode)) + ",\"status\":"@ + json_string(
        probe_status_text(p.status),
    ) + probe_detail_json(p.status) + ",\"emitted_keys\":"@ + json_strings(texts(p.emitted_keys@))
        + "}"@
}

/// JSON array of probes.
pub open spec fn probes_json(probes: Seq<ConfigProbeReport>) -> Seq<char> {
    "["@ + comma_joined(probes.map_values(|p: ConfigProbeReport| probe_json(p))) + "]"@
}

/// Appends the JSON detail of a probe outcome.
#[verifier::rlimit(40)]
fn push_probe_detail_json(output: &mut String, status: &ConfigProbeStatus)
    ensures
        final(output)@ == old(output)@ + probe_detail_json(*status),
{
    let ghost start = output@;
    match status {
        ConfigProbeStatus::Applied => {},
        ConfigProbeStatus::Skipped { reason } => {
            push_lit(output, ",\"reason\":");
            push_json_string(output, reason.as_str());
        },
        ConfigProbeStatus::Denied { capability } => {
            push_lit(output, ",\"capability\":");
            push_json_string(output, capability.as_str());
        },
        ConfigProbeStatus::Failed { message } => {
            push_lit(output, ",\"message\":");
            push_json_string(output, message.as_str());
        },
    }
    assert(output@ =~= start + probe_detail_json(*status));
}

/// Appends one probe's JSON object.
#[verifier::rlimit(40)]
fn push_probe_json(output: &mut String, p: &ConfigProbeReport)
    ensures
        final(output)@ == old(output)@ + probe_json(*p),
{
    let ghost start = output@;
    push_lit(output, "{");
    push_lit(output, "\"probe\":");
    push_json_string(output, p.probe.as_qualified_str().as_str());
    push_lit(output, ",\"lib\":");
    push_json_string(output, p.lib.as_qualified_str().as_str());
    push_lit(output, ",\"mode\":");
    push_json_string(output, mode_label(p.mode));
    push_lit(output, ",\"status\":");
    push_json_string(output, probe_status_label(&p.status));
    push_probe_detail_json(output, &p.status);
    push_lit(output, ",\"emitted_keys\":");
    push_strings_json(output, &p.emitted_keys);
    push_lit(output, "}");
    assert(output@ =~= start + probe_json(*p));
}

/// Appends the JSON array of probes.
#[verifier::rlimit(40)]
pub fn push_probe_reports_json(output: &mut String, probes: &Vec<ConfigProbeReport>)
    ensures
        final(output)@ == old(output)@ + probes_json(probes@),
{
    let ghost start = output@;
    let ghost items = probes@.map_values(|p: ConfigProbeReport| probe_json(p));
    push_lit(output, "[");
    let mut i: usize = 0;
    while i < probes.len()
        invariant
            i <= probes@.len(),
            items == probes@.map_values(|p: ConfigProbeReport| probe_json(p)),
            output@ == start + "["@ + comma_joined(items.take(i as int)),
        decreases probes@.len() - i,
    {
        if i > 0 {
            push_lit(output, ",");
        }
        push_probe_json(output, &probes[i]);
        proof {
            lemma_comma_step(items, i as int);
            if i == 0 {
                assert(items.take(0) =~= Seq::<Seq<char>>::empty());
            }
            assert(output@ =~= start + "["@ + comma_joined(items.take(i + 1)));
        }
        i = i + 1;
    }
    push_lit(output, "]");
    assert(items.take(probes@.len() as int) =~= items);
}

/// JSON of a library's table with its secret values redacted.
pub open spec fn redacted_json(lib: SymbolView, table: ConfigExpr, secrets: Seq<ConfigSecretField>) -> Seq<
    char,
> {
    match table {
        ConfigExpr::MapOf(entries) => "{"@ + crate::report::redacted_entries_json(lib, entries@, secrets)
            + "}"@,
        _ => expr_json(table),
    }
}

/// Appends a library's table as JSON with its secret values redacted.
pub fn push_redacted_table_json(
    output: &mut String,
    lib: &Symbol,
    table: &ConfigExpr,
    secrets: &Vec<ConfigSecretField>,
)
    ensures
        final(output)@ == old(output)@ + redacted_json(lib.view(), *table, secrets@),
{
    let redacted = redact_table_expr(lib, table, secrets);
    push_expr_json(output, &redacted);
}

/// JSON object of the effective tables, keyed by library.
pub open spec fn effective_json(tables: Seq<EffectiveTable>, secrets: Seq<ConfigSecretField>) -> Seq<
    char,
> {
    "{"@ + comma_joined(
        tables.map_values(
            |t: EffectiveTable|
                json_string(qualified_text(t.lib.view())) + ":"@ + redacted_json(t.lib.view(), t.table, secrets),
        ),
    ) + "}"@
}

/// Appends the effective tables as a JSON object.
#[verifier::rlimit(40)]
pub fn push_effective_json(output: &mut String, report: &LoadedStateReport)
    ensures
        final(output)@ == old(output)@ + effective_json(report.effective@, report.secret_fields@),
{
    let ghost start = output@;
    let ghost secrets = report.secret_fields@;
    let ghost items = report.effective@.map_values(
        |t: EffectiveTable|
            json_string(qualified_text(t.lib.view())) + ":"@ + redacted_json(t.lib.view(), t.table, secrets),
    );
    push_lit(output, "{");
    let mut i: usize = 0;
    while i < report.effective.len()
        invariant
            i <= report.effective@.len(),
            secrets == report.secret_fields@,
            items == report.effective@.map_values(
                |t: EffectiveTable|
                    json_string(qualified_text(t.lib.view())) + ":"@ + redacted_json(
                        t.lib.view(),
                        t.table,
                        secrets,
                    ),
            ),
            output@ == start + "{"@ + comma_joined(items.take(i as int)),
        decreases report.effective@.len() - i,
    {
        if i > 0 {
            push_lit(output, ",");
        }
        let t = &report.effective[i];
        push_json_string(output, t.lib.as_qualified_str().as_str());
        push_lit(output, ":");
        push_redacted_table_json(output, &t.lib, &t.table, &report.secret_fields);
        proof {
            lemma_comma_step(items, i as int);
            if i == 0 {
                assert(items.take(0) =~= Seq::<Seq<char>>::empty());
            }
            assert(output@ =~= start + "{"@ + comma_joined(items.take(i + 1)));
        }
        i = i + 1;
    }
    push_lit(output, "}");
    assert(items.take(report.effective@.len() as int) =~= items);
}

// ---------------------------------------------------------------------------
// Reports
// ---------------------------------------------------------------------------

/// Text of a status report.
pub open spec fn status_text_report(r: LoadedStateReport) -> Seq<char> {
    libs_section(r.libs@) + sources_section(r.config_sources@) + probes_section(r.probe_reports@)
        + diagnostics_section(texts(r.diagnostics@))
}

/// Renders a text status report.
pub fn format_config_status(report: &LoadedStateReport) -> (r: String)
    ensures
        r@ == status_text_report(*report),
{
    let mut output = String::new();
    push_loaded_libs(&mut output, &report.libs);
    push_config_sources(&mut output, &report.config_sources);
    push_probe_reports(&mut output, &report.probe_reports);
    push_diagnostics(&mut output, &report.diagnostics);
    assert(output@ =~= status_text_report(*report));
    output
}

/// JSON of a status report.
pub open spec fn status_json_report(r: LoadedStateReport) -> Seq<char> {
    "{"@ + "\"libs\":"@ + libs_json(r.libs@) + ",\"config_sources\":"@ + sources_json(
        r.config_sources@,
    ) + ",\"effective\":"@ + effective_json(r.effective@, r.secret_fields@) + ",\"probes\":"@
        + probes_json(r.probe_reports@) + ",\"diagnostics\":"@ + json_strings(texts(r.diagnostics@))
        + "}\n"@
}

/// Renders a stable JSON status report.
#[verifier::rlimit(40)]
pub fn format_config_status_json(report: &LoadedStateReport) -> (r: String)
    ensures
        r@ == status_json_report(*report),
{
    let mut output = String::new();
    push_lit(&mut output, "{");
    push_lit(&mut output, "\"libs\":");
    push_loaded_libs_json(&mut output, &report.libs);
    push_lit(&mut output, ",\"config_sources\":");
    push_config_sources_json(&mut output, &report.config_sources);
    push_lit(&mut output, ",\"effective\":");
    push_effective_json(&mut output, report);
    push_lit(&mut output, ",\"probes\":");
    push_probe_reports_json(&mut output, &report.probe_reports);
    push_lit(&mut output, ",\"diagnostics\":");
    push_strings_json(&mut output, &report.diagnostics);
    push_lit(&mut output, "}\n");
    assert(output@ =~= status_json_report(*report));
    output
}

/// Renders a text config-source report.
pub fn format_config_sources(report: &LoadedStateReport) -> (r: String)
    ensures
        r@ == sources_section(report.config_sources@) + diagnostics_section(texts(report.diagnostics@)),
{
    let mut output = String::new();
    push_config_sources(&mut output, &report.config_sources);
    push_diagnostics(&mut output, &report.diagnostics);
    assert(output@ =~= sources_section(report.config_sources@) + diagnostics_section(
        texts(report.diagnostics@),
    ));
    output
}

/// Renders a stable JSON config-source report.
pub fn format_config_sources_json(report: &LoadedStateReport) -> (r: String)
    ensures
        r@ == "{"@ + "\"config_sources\":"@ + sources_json(report.config_sources@)
            + ",\"diagnostics\":"@ + json_strings(texts(report.diagnostics@)) + "}\n"@,
{
    let mut output = String::new();
    push_lit(&mut output, "{");
    push_lit(&mut output, "\"config_sources\":");
    push_config_sources_json(&mut output, &report.config_sources);
    push_lit(&mut output, ",\"diagnostics\":");
    push_strings_json(&mut output, &report.diagnostics);
    push_lit(&mut output, "}\n");
    assert(output@ =~= "{"@ + "\"config_sources\":"@ + sources_json(report.config_sources@)
        + ",\"diagnostics\":"@ + json_strings(texts(report.diagnostics@)) + "}\n"@);
    output
}

/// Index of the first effective table of a library.
pub open spec fn table_index(tables: Seq<EffectiveTable>, lib: SymbolView, from: int) -> Option<int>
    decreases tables.len() - from,
{
    if from < 0 || from >= tables.len() {
        None
    } else if tables[from].lib.view() == lib {
        Some(from)
    } else {
        table_index(tables, lib, from + 1)
    }
}

/// Finds the first effective table of a library.
fn find_table(tables: &Vec<EffectiveTable>, lib: &Symbol) -> (r: Option<usize>)
    ensures
        r matches Some(i) ==> i < tables@.len() && table_index(tables@, lib.view(), 0) == Some(
            i as int,
        ),
        r is None ==> table_index(tables@, lib.view(), 0) is None,
{
    let mut i: usize = 0;
    while i < tables.len()
        invariant
            i <= tables@.len(),
            table_index(tables@, lib.view(), 0) == table_index(tables@, lib.view(), i as int),
        decreases tables@.len() - i,
    {
        if tables[i].lib.same(lib) {
            return Some(i);
        }
        i = i + 1;
    }
    None
}

/// JSON of one library's effective table.
pub open spec fn effective_one_json(r: LoadedStateReport, lib: SymbolView) -> Seq<char> {
    "{"@ + "\"lib\":"@ + json_string(qualified_text(lib)) + ",\"table\":"@ + match table_index(
        r.effective@,
        lib,
        0,
    ) {
        Some(i) => redacted_json(lib, r.effective@[i].table, r.secret_fields@),
        None => "null"@,
    } + "}\n"@
}

/// Renders one effective config table as stable JSON, `null` when the
/// library has none.
pub fn format_effective_config_json(report: &LoadedStateReport, lib: &Symbol) -> (r: String)
    ensures
        r@ == effective_one_json(*report, lib.view()),
{
    let mut output = String::new();
    push_lit(&mut output, "{");
    push_lit(&mut output, "\"lib\":");
    push_json_string(&mut output, lib.as_qualified_str().as_str());
    push_lit(&mut output, ",\"table\":");
    match find_table(&report.effective, lib) {
        Some(i) => push_redacted_table_json(
            &mut output,
            lib,
            &report.effective[i].table,
            &report.secret_fields,
        ),
        None => push_lit(&mut output, "null"),
    }
    push_lit(&mut output, "}\n");
    assert(output@ =~= effective_one_json(*report, lib.view()));
    output
}

/// Text of one library's effective table, given what encoding its redacted
/// table as config text gave (`None` when the library has no table).
pub open spec fn effective_text(lib: SymbolView, encoded: Option<Result<Seq<char>, Seq<char>>>) -> Seq<
    char,
> {
    "lib "@ + qualified_text(lib) + "\n"@ + match encoded {
        None => "- no effective config\n"@,
        Some(Ok(t)) => if t.len() > 0 {
            t
        } else {
            "- empty\n"@
        },
        Some(Err(e)) => "- unencodable config: "@ + e + "\n"@,
    }
}

/// Renders one effective config table as config text from the encoder's
/// outcome on its redacted table.
pub fn format_effective_config(lib: &Symbol, encoded: Option<Result<String, String>>) -> (r: String)
    ensures
        r@ == effective_text(
            lib.view(),
            match encoded {
                None => None,
                Some(Ok(t)) => Some(Ok(t@)),
                Some(Err(e)) => Some(Err(e@)),
            },
        ),
{
    let mut output = concat2("lib ", lib.as_qualified_str().as_str());
    push_lit(&mut output, "\n");
    match encoded {
        None => push_lit(&mut output, "- no effective config\n"),
        Some(Ok(t)) => if t.as_str().is_empty() {
            push_lit(&mut output, "- empty\n")
        } else {
            push_lit(&mut output, t.as_str())
        },
        Some(Err(e)) => {
            push_lit(&mut output, "- unencodable config: ");
            push_lit(&mut output, e.as_str());
            push_lit(&mut output, "\n");
        },
    }
    output
}


/// The effective table of a library with its secret values redacted, as it
/// goes to the config-text encoder; `None` when the library has none.
pub fn redacted_effective_table(report: &LoadedStateReport, lib: &Symbol) -> (r: Option<ConfigExpr>)
    ensures
        match table_index(report.effective@, lib.view(), 0) {
            Some(i) => r matches Some(e) && expr_json(e) == redacted_json(
                lib.view(),
                report.effective@[i].table,
                report.secret_fields@,
            ),
            None => r is None,
        },
{
    match find_table(&report.effective, lib) {
        Some(i) => Some(
            crate::report::redact_table_expr(lib, &report.effective[i].table, &report.secret_fields),
        ),
        None => None,
    }
}

/// A config report of the requested kind: status or sources (text or
/// JSON), or one library's effective config (JSON, or text from the
/// encoder's outcome on its redacted table).
pub open spec fn config_report_text(
    report: LoadedStateReport,
    kind: crate::load_plan::ConfigReportKind,
    json: bool,
    encoded: Option<Result<Seq<char>, Seq<char>>>,
) -> Seq<char> {
    match kind {
        crate::load_plan::ConfigReportKind::Status => if json {
            status_json_report(report)
        } else {
            status_text_report(report)
        },
        crate::load_plan::ConfigReportKind::Sources => if json {
            "{"@ + "\"config_sources\":"@ + sources_json(report.config_sources@)
                + ",\"diagnostics\":"@ + json_strings(texts(report.diagnostics@)) + "}\n"@
        } else {
            sources_section(report.config_sources@) + diagnostics_section(texts(report.diagnostics@))
        },
        crate::load_plan::ConfigReportKind::Effective { lib } => if json {
            effective_one_json(report, lib.view())
        } else {
            effective_text(lib.view(), encoded)
        },
    }
}

/// Renders the requested config report.
pub fn render_config_report(
    report: &LoadedStateReport,
    kind: &crate::load_plan::ConfigReportKind,
    json: bool,
    encoded: Option<Result<String, String>>,
) -> (r: String)
    ensures
        r@ == config_report_text(
            *report,
            *kind,
            json,
            match encoded {
                None => None,
                Some(Ok(t)) => Some(Ok(t@)),
                Some(Err(e)) => Some(Err(e@)),
            },
        ),
{
    match kind {
        crate::load_plan::ConfigReportKind::Status => if json {
            format_config_status_json(report)
        } else {
            format_config_status(report)
        },
        crate::load_plan::ConfigReportKind::Sources => if json {
            format_config_sources_json(report)
        } else {
            format_config_sources(report)
        },
        crate::load_plan::ConfigReportKind::Effective { lib } => if json {
            format_effective_config_json(report, lib)
        } else {
            format_effective_config(lib, encoded)
        },
    }
}


impl LoadedStateReport {
    /// A report snapshot of a boot session: a row per loaded library's
    /// receipt, and the discovered config state with its effective tables
    /// and secret fields.
    pub fn from_state(
        receipts: &Vec<LoadReceipt>,
        discovery: crate::config_discovery::ConfigDiscovery,
        effective: Vec<EffectiveTable>,
        secret_fields: Vec<ConfigSecretField>,
    ) -> (r: Self)
        ensures
            r.libs@.len() == receipts@.len(),
            forall|i: int| 0 <= i < receipts@.len() ==> is_row_of(#[trigger] r.libs@[i], receipts@[i]),
            r.config_sources == discovery.source_reports,
            r.probe_reports == discovery.probe_reports,
            r.diagnostics == discovery.diagnostics,
            r.effective == effective,
            r.secret_fields == secret_fields,
    {
        let mut libs: Vec<LoadedLibReport> = Vec::new();
        let mut i: usize = 0;
        while i < receipts.len()
            invariant
                i <= receipts@.len(),
                libs@.len() == i,
                forall|j: int| 0 <= j < i ==> is_row_of(#[trigger] libs@[j], receipts@[j]),
            decreases receipts@.len() - i,
        {
            libs.push(LoadedLibReport::from_receipt(&receipts[i]));
            i = i + 1;
        }
        LoadedStateReport {
            libs,
            config_sources: discovery.source_reports,
            effective,
            secret_fields,
            probe_reports: discovery.probe_reports,
            diagnostics: discovery.diagnostics,
        }
    }
}

} // verus!
