//! The checks the native dynamic-library loader makes before it trusts
//! what a library hands across the native ABI: which files it loads, the
//! ABI header, the size of the ABI table, the shape of owned byte buffers,
//! the load target it assigns, and how each declared export is bound.
use vstd::prelude::*;
use vstd::string::*;

use crate::error::CliError;
use crate::listing::{char_vecs_view, path_tokens, path_tokens_exec};
use crate::manifest::{ExportDeclKind, ExportKindView, ExportView, LibManifest, ManifestExport};
use crate::symbol::{plain_symbol, qualified_symbol, qualified_text, Symbol, SymbolView};
use crate::text::{concat2, decimal_string, decimal_text, owned, str_eq, string_of};

verus! {

broadcast use vstd::string::group_string_axioms;

/// Loader for native dynamic libraries that expose the stable native ABI.
pub struct NativeDylibLoader;

/// The file name of a path: its last component when that is a name.
pub open spec fn file_name_of(p: Seq<char>) -> Option<Seq<char>> {
    let t = path_tokens(p);
    if t.len() > 0 && t.last().len() > 0 && t.last()[0] == '\x04' {
        Some(t.last().drop_first())
    } else {
        None
    }
}

/// Position of the last `c` in `s` before `end`.
pub open spec fn last_index_before(s: Seq<char>, c: char, end: int) -> Option<int>
    decreases end,
{
    if end <= 0 {
        None
    } else if s[end - 1] == c {
        Some(end - 1)
    } else {
        last_index_before(s, c, end - 1)
    }
}

/// The extension of a file name: what follows its last `.`, unless that
/// `.` begins the name.
pub open spec fn extension_of(name: Seq<char>) -> Option<Seq<char>> {
    match last_index_before(name, '.', name.len() as int) {
        Some(i) => if i == 0 {
            None
        } else {
            Some(name.skip(i + 1))
        },
        None => None,
    }
}

/// Whether a path names a native dynamic library: its file name's
/// extension is `so`, `dylib` or `dll`.
pub open spec fn is_native_library_path(p: Seq<char>) -> bool {
    match file_name_of(p) {
        Some(n) => match extension_of(n) {
            Some(e) => e == "so"@ || e == "dylib"@ || e == "dll"@,
            None => false,
        },
        None => false,
    }
}

/// The extension of a path's file name, if it has one.
pub open spec fn path_extension(p: Seq<char>) -> Option<Seq<char>> {
    match file_name_of(p) {
        Some(n) => extension_of(n),
        None => None,
    }
}

/// The extension of a path's file name: what follows the last `.` of its
/// last component, when that component is a name and the `.` does not
/// begin it.
pub fn file_extension(path: &str) -> (r: Option<String>)
    ensures
        match path_extension(path@) {
            Some(e) => r matches Some(x) && x@ == e,
            None => r is None,
        },
{
    let tokens = path_tokens_exec(path);
    proof {
        assert(char_vecs_view(tokens@) == path_tokens(path@));
    }
    if tokens.len() == 0 {
        return None;
    }
    let last = &tokens[tokens.len() - 1];
    proof {
        assert(last@ == path_tokens(path@).last());
    }
    if last.len() == 0 || last[0] != '\x04' {
        return None;
    }
    let n = last.len();
    let mut end: usize = n;
    let ghost name = last@.drop_first();
    while end > 1 && last[end - 1] != '.'
        invariant
            1 <= end <= n,
            n == last@.len(),
            name == last@.drop_first(),
            last_index_before(name, '.', name.len() as int) == last_index_before(name, '.', end - 1),
        decreases end,
    {
        assert(name[end - 2] == last@[end - 1]);
        end = end - 1;
    }
    if end <= 1 {
        return None;
    }
    assert(name[end - 2] == '.');
    assert(last_index_before(name, '.', end - 1) == Some(end as int - 2));
    if end == 2 {
        return None;
    }
    let mut ext: Vec<char> = Vec::new();
    let mut k: usize = end;
    while k < n
        invariant
            end <= k <= n,
            n == last@.len(),
            ext@ == last@.subrange(end as int, k as int),
        decreases n - k,
    {
        ext.push(last[k]);
        k = k + 1;
        assert(ext@ =~= last@.subrange(end as int, k as int));
    }
    assert(ext@ =~= name.skip(end - 1));
    Some(string_of(&ext))
}

impl NativeDylibLoader {
    /// Whether this loader takes a path source: a native dynamic library
    /// file.
    pub fn can_load(path: &str) -> (r: bool)
        ensures
            r == is_native_library_path(path@),
    {
        match file_extension(path) {
            Some(e) => str_eq(e.as_str(), "so") || str_eq(e.as_str(), "dylib") || str_eq(e.as_str(), "dll"),
            None => false,
        }
    }
}

/// The error when a library's ABI header is too small or of another major
/// version.
pub open spec fn header_error(
    struct_size: usize,
    abi_major: u16,
    abi_minor: u16,
    path: Seq<char>,
    header_size: usize,
    host_major: u16,
) -> Option<Seq<char>> {
    if struct_size < header_size {
        Some(
            "native dylib "@ + path + " reported ABI struct size "@ + decimal_text(struct_size as nat)
                + " smaller than host header "@ + decimal_text(header_size as nat),
        )
    } else if abi_major != host_major {
        Some(
            "native dylib "@ + path + " reported unsupported native ABI "@ + decimal_text(
                abi_major as nat,
            ) + "."@ + decimal_text(abi_minor as nat),
        )
    } else {
        None
    }
}

/// Checks the ABI header a library returned against the host's header size
/// and major ABI version.
pub fn validate_native_abi_header(
    struct_size: usize,
    abi_major: u16,
    abi_minor: u16,
    path: &str,
    header_size: usize,
    host_major: u16,
) -> (r: Result<(), CliError>)
    ensures
        match header_error(struct_size, abi_major, abi_minor, path@, header_size, host_major) {
            Some(m) => r matches Err(e) && e.message@ == m,
            None => r is Ok,
        },
{
    if struct_size < header_size {
        let mut m = owned("native dylib ");
        m.append(path);
        m.append(" reported ABI struct size ");
        m.append(decimal_string(struct_size).as_str());
        m.append(" smaller than host header ");
        m.append(decimal_string(header_size).as_str());
        return Err(CliError::new(m));
    }
    if abi_major != host_major {
        let mut m = owned("native dylib ");
        m.append(path);
        m.append(" reported unsupported native ABI ");
        m.append(decimal_string(abi_major as usize).as_str());
        m.append(".");
        m.append(decimal_string(abi_minor as usize).as_str());
        return Err(CliError::new(m));
    }
    Ok(())
}

/// Checks that the ABI table a library reported is at least the size of the
/// whole table the host reads.
pub fn check_abi_struct_size(struct_size: usize, path: &str, host_size: usize) -> (r: Result<
    (),
    CliError,
>)
    ensures
        struct_size >= host_size ==> r is Ok,
        struct_size < host_size ==> (r matches Err(e) && e.message@ == "native dylib "@ + path@
            + " reported ABI struct size "@ + decimal_text(struct_size as nat)
            + " smaller than host minimum "@ + decimal_text(host_size as nat)),
{
    if struct_size < host_size {
        let mut m = owned("native dylib ");
        m.append(path);
        m.append(" reported ABI struct size ");
        m.append(decimal_string(struct_size).as_str());
        m.append(" smaller than host minimum ");
        m.append(decimal_string(host_size).as_str());
        return Err(CliError::new(m));
    }
    Ok(())
}

/// `true` or `false`.
pub open spec fn bool_text(b: bool) -> Seq<char> {
    if b {
        "true"@
    } else {
        "false"@
    }
}

/// What to do with an owned byte buffer a library returned, from whether
/// its pointer is null, its length and its capacity: `Ok(true)` when it is
/// empty, `Ok(false)` when its bytes may be copied, an error when it is a
/// null pointer with bytes or longer than its capacity.
pub fn owned_bytes_shape(what: &str, is_null: bool, len: usize, cap: usize) -> (r: Result<
    bool,
    CliError,
>)
    ensures
        len == 0 ==> (r matches Ok(empty) && empty),
        len > 0 && !is_null && len <= cap ==> (r matches Ok(empty) && !empty),
        len > 0 && (is_null || len > cap) ==> (r matches Err(e) && e.message@ == what@
            + " returned an invalid native byte buffer (null: "@ + bool_text(is_null) + ", len "@
            + decimal_text(len as nat) + ", cap "@ + decimal_text(cap as nat) + ")"@),
{
    if len == 0 {
        return Ok(true);
    }
    if is_null || len > cap {
        let mut m = owned(what);
        m.append(" returned an invalid native byte buffer (null: ");
        m.append(
            if is_null {
                "true"
            } else {
                "false"
            },
        );
        m.append(", len ");
        m.append(decimal_string(len).as_str());
        m.append(", cap ");
        m.append(decimal_string(cap).as_str());
        m.append(")");
        return Err(CliError::new(m));
    }
    Ok(false)
}

/// A native library's manifest with its load target set to `native`: the
/// loader assigns trust, whatever target the library's own manifest names.
pub fn native_manifest(manifest: LibManifest) -> (r: Result<LibManifest, CliError>)
    ensures
        r matches Ok(m) && m.view() == (crate::manifest::ManifestView {
            target: plain_symbol("native"@),
            ..manifest.view()
        }),
{
    let mut manifest = manifest;
    manifest.target = Symbol::new(owned("native"));
    Ok(manifest)
}

// ---------------------------------------------------------------------------
// Binding declared exports
// ---------------------------------------------------------------------------

/// How the native loader binds one declared export of a library.
#[derive(Clone, Debug, PartialEq, Eq)]
pub enum NativeExportBinding {
    Function(Symbol),
    Class(Symbol),
    Macro(Symbol),
    Shape(Symbol),
    /// A codec, with the guest operations it decodes and encodes through.
    Codec { symbol: Symbol, decode_op: String, encode_op: String },
    NumberDomain(Symbol),
    Site(Symbol),
}

/// Whether the stable native ABI can bind an export of this kind.
pub open spec fn native_binds_kind(k: ExportKindView) -> bool {
    !(k is Value) && !(k is Open)
}

/// The kind label an unsupported export is reported under.
pub open spec fn unsupported_kind_label(k: ExportKindView) -> Seq<char> {
    if k is Value {
        "value"@
    } else {
        "export"@
    }
}

/// The error for an export the stable native ABI cannot bind.
pub open spec fn unsupported_export_msg(e: ExportView) -> Seq<char> {
    "native dylib export "@ + unsupported_kind_label(e.kind) + " "@ + qualified_text(e.symbol)
        + " is not yet supported by the stable native ABI"@
}

/// Whether `b` is the binding of the export `e`.
pub open spec fn binds_export(b: NativeExportBinding, e: ExportView) -> bool {
    match b {
        NativeExportBinding::Function(s) => e.kind is Function && s.view() == e.symbol,
        NativeExportBinding::Class(s) => e.kind is Class && s.view() == e.symbol,
        NativeExportBinding::Macro(s) => e.kind is Macro && s.view() == e.symbol,
        NativeExportBinding::Shape(s) => e.kind is Shape && s.view() == e.symbol,
        NativeExportBinding::Codec { symbol, decode_op, encode_op } => {
            &&& e.kind is Codec
            &&& symbol.view() == e.symbol
            &&& decode_op@ == qualified_text(e.symbol) + "/decode"@
            &&& encode_op@ == qualified_text(e.symbol) + "/encode"@
        },
        NativeExportBinding::NumberDomain(s) => e.kind is NumberDomain && s.view() == e.symbol,
        NativeExportBinding::Site(s) => e.kind is Site && s.view() == e.symbol,
    }
}

fn with_suffix(s: &Symbol, suffix: &str) -> (r: String)
    ensures
        r@ == qualified_text(s.view()) + suffix@,
{
    let mut r = s.as_qualified_str();
    r.append(suffix);
    r
}

/// The binding of one declared export, or the error for a kind the stable
/// native ABI does not bind.
pub fn native_export_binding(export: &ManifestExport) -> (r: Result<NativeExportBinding, String>)
    ensures
        native_binds_kind(export.view().kind) ==> (r matches Ok(b) && binds_export(b, export.view())),
        !native_binds_kind(export.view().kind) ==> (r matches Err(m) && m@ == unsupported_export_msg(
            export.view(),
        )),
{
    let symbol = export.symbol.copy();
    match &export.kind {
        ExportDeclKind::Function => Ok(NativeExportBinding::Function(symbol)),
        ExportDeclKind::Class => Ok(NativeExportBinding::Class(symbol)),
        ExportDeclKind::Macro => Ok(NativeExportBinding::Macro(symbol)),
        ExportDeclKind::Shape => Ok(NativeExportBinding::Shape(symbol)),
        ExportDeclKind::Codec => {
            let decode_op = with_suffix(&export.symbol, "/decode");
            let encode_op = with_suffix(&export.symbol, "/encode");
            Ok(NativeExportBinding::Codec { symbol, decode_op, encode_op })
        },
        ExportDeclKind::NumberDomain => Ok(NativeExportBinding::NumberDomain(symbol)),
        ExportDeclKind::Site => Ok(NativeExportBinding::Site(symbol)),
        ExportDeclKind::Value | ExportDeclKind::Open(_) => {
            let label = match &export.kind {
                ExportDeclKind::Value => "value",
                _ => "export",
            };
            let mut m = concat2("native dylib export ", label);
            m.append(" ");
            m.append(export.symbol.as_qualified_str().as_str());
            m.append(" is not yet supported by the stable native ABI");
            Err(m)
        },
    }
}

/// The bindings of a library's exports, in order, up to the first export
/// the stable native ABI cannot bind; the error for that export, if any.
pub fn native_export_bindings(exports: &Vec<ManifestExport>) -> (r: (
    Vec<NativeExportBinding>,
    Option<String>,
))
    ensures
        r.0.len() <= exports.len(),
        forall|i: int| 0 <= i < r.0.len() ==> binds_export(#[trigger] r.0@[i], exports@[i].view()),
        r.1 matches Some(m) ==> r.0.len() < exports.len() && !native_binds_kind(
            exports@[r.0.len() as int].view().kind,
        ) && m@ == unsupported_export_msg(exports@[r.0.len() as int].view()),
        r.1 is None ==> r.0.len() == exports.len(),
{
    let mut out: Vec<NativeExportBinding> = Vec::new();
    let mut i: usize = 0;
    while i < exports.len()
        invariant
            i <= exports.len(),
            out.len() == i,
            forall|j: int| 0 <= j < i ==> binds_export(#[trigger] out@[j], exports@[j].view()),
        decreases exports.len() - i,
    {
        let ghost prev = out@;
        let e = &exports[i];
        match native_export_binding(e) {
            Ok(b) => {
                assert(native_binds_kind(e.view().kind) && binds_export(b, e.view()));
                out.push(b);
                assert forall|j: int| 0 <= j <= i implies binds_export(#[trigger] out@[j], exports@[j].view()) by {
                    if j < i {
                        assert(out@[j] == prev[j]);
                    }
                }
            },
            Err(m) => {
                return (out, Some(m));
            },
        }
        i = i + 1;
    }
    (out, None)
}

// ---------------------------------------------------------------------------
// Calls across the native ABI
// ---------------------------------------------------------------------------

/// Which native ABI entry a guest error came from.
#[derive(Clone, Copy, Debug, PartialEq, Eq, Structural)]
pub enum NativeAbiEntry {
    Manifest,
    Call,
}

/// The message of a guest error: the guest's own, or a fixed one when the
/// guest gave none.
pub open spec fn guest_error_text(entry: NativeAbiEntry, message: Option<Seq<char>>) -> Seq<char> {
    match message {
        Some(m) => m,
        None => match entry {
            NativeAbiEntry::Manifest => "native ABI manifest call failed without an error message"@,
            NativeAbiEntry::Call => "native ABI call failed without an error message"@,
        },
    }
}

/// The error a guest reported from an entry, as the host reports it.
pub fn guest_error_message(entry: NativeAbiEntry, message: Option<String>) -> (r: String)
    ensures
        r@ == guest_error_text(
            entry,
            match message {
                Some(m) => Some(m@),
                None => None,
            },
        ),
{
    match message {
        Some(m) => m,
        None => match entry {
            NativeAbiEntry::Manifest => owned("native ABI manifest call failed without an error message"),
            NativeAbiEntry::Call => owned("native ABI call failed without an error message"),
        },
    }
}

/// An operation name passes to the guest as a C string, so it may not
/// contain a NUL character.
pub fn check_op_name(op: &str) -> (r: Result<(), String>)
    ensures
        r is Ok <==> !op@.contains('\0'),
        r matches Err(m) ==> m@ == "native ABI op "@ + op@ + " contains an interior NUL byte"@,
{
    let chars = crate::text::chars_of(op);
    let mut i: usize = 0;
    while i < chars.len()
        invariant
            chars@ == op@,
            i <= chars.len(),
            forall|j: int| 0 <= j < i ==> chars@[j] != '\0',
        decreases chars.len() - i,
    {
        if chars[i] == '\0' {
            assert(op@[i as int] == '\0');
            let mut m = concat2("native ABI op ", op);
            m.append(" contains an interior NUL byte");
            return Err(m);
        }
        i = i + 1;
    }
    assert(!op@.contains('\0')) by {
        assert forall|j: int| 0 <= j < op@.len() implies op@[j] != '\0' by {
            assert(chars@[j] != '\0');
        }
    }
    Ok(())
}

/// What a codec proxy is asked to decode.
#[derive(Clone, Debug, PartialEq, Eq)]
pub enum ProxyInput {
    Text(String),
    Bytes(Vec<u8>),
}

/// The text a codec proxy hands the guest to decode: text input only.
pub fn decode_proxy_input(input: ProxyInput) -> (r: Result<String, String>)
    ensures
        input matches ProxyInput::Text(t) ==> (r matches Ok(u) && u@ == t@),
        input is Bytes ==> (r matches Err(m) && m@
            == "native codec proxy decode: bytes input is not yet supported"@),
{
    match input {
        ProxyInput::Text(t) => Ok(t),
        ProxyInput::Bytes(_) => Err(owned("native codec proxy decode: bytes input is not yet supported")),
    }
}

/// What a guest's encode operation answered.
#[derive(Clone, Debug, PartialEq, Eq)]
pub enum EncodeReply {
    Text(String),
    /// Any other expression, carried by its debug rendering.
    Other(String),
}

/// The text a codec proxy's encoder outputs: the guest must answer text.
pub fn encode_proxy_output(reply: EncodeReply) -> (r: Result<String, String>)
    ensures
        reply matches EncodeReply::Text(t) ==> (r matches Ok(u) && u@ == t@),
        reply is Other ==> (r matches Err(m) && m@ == "native codec proxy encode: expected text output, got "@
            + reply->Other_0@),
{
    match reply {
        EncodeReply::Text(t) => Ok(t),
        EncodeReply::Other(d) => Err(concat2("native codec proxy encode: expected text output, got ", d.as_str())),
    }
}

// ---------------------------------------------------------------------------
// The shapes of a native codec
// ---------------------------------------------------------------------------

fn has_shape(shapes: &Vec<Symbol>, s: &Symbol) -> (r: bool)
    ensures
        r == exists|j: int| 0 <= j < shapes@.len() && (#[trigger] shapes@[j]).view() == s.view(),
{
    let mut i: usize = 0;
    while i < shapes.len()
        invariant
            i <= shapes@.len(),
            forall|j: int| 0 <= j < i ==> (#[trigger] shapes@[j]).view() != s.view(),
        decreases shapes@.len() - i,
    {
        if shapes[i].same(s) {
            return true;
        }
        i = i + 1;
    }
    false
}

/// Whether a shape is registered under a symbol.
pub open spec fn shape_registered(shapes: Seq<Symbol>, s: SymbolView) -> bool {
    exists|j: int| 0 <= j < shapes.len() && (#[trigger] shapes[j]).view() == s
}

/// The shape a native codec uses where it wants `preferred`: that shape
/// when registered, else `core/Any` when registered, else none (nil).
pub open spec fn codec_shape_choice(shapes: Seq<Symbol>, preferred: SymbolView) -> Option<SymbolView> {
    if shape_registered(shapes, preferred) {
        Some(preferred)
    } else if shape_registered(shapes, qualified_symbol("core"@, "Any"@)) {
        Some(qualified_symbol("core"@, "Any"@))
    } else {
        None
    }
}

fn choose_codec_shape(shapes: &Vec<Symbol>, preferred: Symbol) -> (r: Option<Symbol>)
    ensures
        match codec_shape_choice(shapes@, preferred.view()) {
            Some(v) => r matches Some(x) && x.view() == v,
            None => r is None,
        },
{
    if has_shape(shapes, &preferred) {
        return Some(preferred);
    }
    let any = Symbol::qualified(owned("core"), owned("Any"));
    if has_shape(shapes, &any) {
        Some(any)
    } else {
        None
    }
}

/// The shapes a native codec runtime is built with, given the symbols the
/// registry holds shapes under: for expressions `core/Expr`, for encode
/// options `core/EncodeOptions`, each falling back to `core/Any` and then
/// to nil (`None`).
pub fn native_codec_shapes(shapes: &Vec<Symbol>) -> (r: (Option<Symbol>, Option<Symbol>))
    ensures
        match codec_shape_choice(shapes@, qualified_symbol("core"@, "Expr"@)) {
            Some(v) => r.0 matches Some(x) && x.view() == v,
            None => r.0 is None,
        },
        match codec_shape_choice(shapes@, qualified_symbol("core"@, "EncodeOptions"@)) {
            Some(v) => r.1 matches Some(x) && x.view() == v,
            None => r.1 is None,
        },
{
    let expr = choose_codec_shape(shapes, Symbol::qualified(owned("core"), owned("Expr")));
    let options = choose_codec_shape(shapes, Symbol::qualified(owned("core"), owned("EncodeOptions")));
    (expr, options)
}

} // verus!
