//! The manifest a native library presents, written as an expression map:
//! its wire form across the native ABI, and the reading of that form back.
use vstd::prelude::*;
use vstd::string::*;

use crate::error::CliError;
use crate::report::{ConfigExpr, MapEntry};
use crate::symbol::{
    plain_symbol, qualified_symbol, qualified_text, symbol_from_text, symbol_of_text, Symbol,
    SymbolView,
};
use crate::text::{concat2, decimal_text, digit_char, is_digit, owned, str_eq};
use crate::version::{decimal_value, digit_value};

verus! {

broadcast use vstd::string::group_string_axioms;

// ---------------------------------------------------------------------------
// Manifest data
// ---------------------------------------------------------------------------

/// The kind of a declared export.
#[derive(Clone, Debug, PartialEq, Eq)]
pub enum ExportDeclKind {
    Class,
    Function,
    Macro,
    Shape,
    Codec,
    NumberDomain,
    Value,
    Site,
    /// An export of an open kind, named by its kind symbol.
    Open(Symbol),
}

/// One export a manifest declares.
#[derive(Clone, Debug, PartialEq, Eq)]
pub struct ManifestExport {
    pub kind: ExportDeclKind,
    pub symbol: Symbol,
}

/// A library the manifest requires, with an optional minimum version.
#[derive(Clone, Debug, PartialEq, Eq)]
pub struct ManifestDependency {
    pub id: Symbol,
    pub minimum_version: Option<String>,
}

/// A library's self-description: identity, version, ABI, load target
/// (by its target symbol), requirements, capabilities and exports.
#[derive(Clone, Debug, PartialEq, Eq)]
pub struct LibManifest {
    pub id: Symbol,
    pub version: String,
    pub abi_major: u16,
    pub abi_minor: u16,
    pub target: Symbol,
    pub dependencies: Vec<ManifestDependency>,
    pub capabilities: Vec<String>,
    pub exports: Vec<ManifestExport>,
}

/// Mathematical form of an export kind.
pub enum ExportKindView {
    Class,
    Function,
    Macro,
    Shape,
    Codec,
    NumberDomain,
    Value,
    Site,
    Open(SymbolView),
}

/// Mathematical form of an export.
pub struct ExportView {
    pub kind: ExportKindView,
    pub symbol: SymbolView,
}

/// Mathematical form of a dependency.
pub struct DependencyView {
    pub id: SymbolView,
    pub minimum_version: Option<Seq<char>>,
}

/// Mathematical form of a manifest.
pub struct ManifestView {
    pub id: SymbolView,
    pub version: Seq<char>,
    pub abi_major: u16,
    pub abi_minor: u16,
    pub target: SymbolView,
    pub dependencies: Seq<DependencyView>,
    pub capabilities: Seq<Seq<char>>,
    pub exports: Seq<ExportView>,
}

impl ExportDeclKind {
    pub open spec fn view(&self) -> ExportKindView {
        match self {
            ExportDeclKind::Class => ExportKindView::Class,
            ExportDeclKind::Function => ExportKindView::Function,
            ExportDeclKind::Macro => ExportKindView::Macro,
            ExportDeclKind::Shape => ExportKindView::Shape,
            ExportDeclKind::Codec => ExportKindView::Codec,
            ExportDeclKind::NumberDomain => ExportKindView::NumberDomain,
            ExportDeclKind::Value => ExportKindView::Value,
            ExportDeclKind::Site => ExportKindView::Site,
            ExportDeclKind::Open(s) => ExportKindView::Open(s.view()),
        }
    }
}

impl ManifestExport {
    pub open spec fn view(&self) -> ExportView {
        ExportView { kind: self.kind.view(), symbol: self.symbol.view() }
    }
}

impl ManifestDependency {
    pub open spec fn view(&self) -> DependencyView {
        DependencyView {
            id: self.id.view(),
            minimum_version: match self.minimum_version {
                Some(v) => Some(v@),
                None => None,
            },
        }
    }
}

pub open spec fn dependency_views(d: Seq<ManifestDependency>) -> Seq<DependencyView> {
    d.map_values(|x: ManifestDependency| x.view())
}

pub open spec fn export_views(e: Seq<ManifestExport>) -> Seq<ExportView> {
    e.map_values(|x: ManifestExport| x.view())
}

pub open spec fn text_views(s: Seq<String>) -> Seq<Seq<char>> {
    s.map_values(|x: String| x@)
}

impl LibManifest {
    pub open spec fn view(&self) -> ManifestView {
        ManifestView {
            id: self.id.view(),
            version: self.version@,
            abi_major: self.abi_major,
            abi_minor: self.abi_minor,
            target: self.target.view(),
            dependencies: dependency_views(self.dependencies@),
            capabilities: text_views(self.capabilities@),
            exports: export_views(self.exports@),
        }
    }
}

/// The kind name an export is written under: its well-known name, or the
/// qualified text of an open kind's symbol.
pub open spec fn kind_text(k: ExportKindView) -> Seq<char> {
    match k {
        ExportKindView::Class => "class"@,
        ExportKindView::Function => "function"@,
        ExportKindView::Macro => "macro"@,
        ExportKindView::Shape => "shape"@,
        ExportKindView::Codec => "codec"@,
        ExportKindView::NumberDomain => "number-domain"@,
        ExportKindView::Value => "value"@,
        ExportKindView::Site => "site"@,
        ExportKindView::Open(s) => qualified_text(s),
    }
}

/// The well-known export kind a name reads as.
pub open spec fn kind_of_text(t: Seq<char>) -> Option<ExportKindView> {
    if t == "class"@ {
        Some(ExportKindView::Class)
    } else if t == "function"@ {
        Some(ExportKindView::Function)
    } else if t == "macro"@ {
        Some(ExportKindView::Macro)
    } else if t == "shape"@ {
        Some(ExportKindView::Shape)
    } else if t == "codec"@ {
        Some(ExportKindView::Codec)
    } else if t == "number-domain"@ {
        Some(ExportKindView::NumberDomain)
    } else if t == "site"@ {
        Some(ExportKindView::Site)
    } else if t == "value"@ {
        Some(ExportKindView::Value)
    } else {
        None
    }
}

// ---------------------------------------------------------------------------
// Unsigned 16-bit numbers in decimal
// ---------------------------------------------------------------------------

/// Reads decimal digits from position `i` on, `acc` holding the value so
/// far; fails at the first non-digit or once the value passes `u16::MAX`.
pub open spec fn parse_digits_u16(d: Seq<char>, i: int, acc: nat) -> Result<u16, Seq<char>>
    decreases d.len() - i,
{
    if i >= d.len() {
        Ok(acc as u16)
    } else if !is_digit(d[i]) {
        Err("invalid digit found in string"@)
    } else if acc * 10 + digit_value(d[i]) > 0xffff {
        Err("number too large to fit in target type"@)
    } else {
        parse_digits_u16(d, i + 1, acc * 10 + digit_value(d[i]))
    }
}

/// Text read as a `u16` the way `str::parse::<u16>` reads it: an optional
/// `+`, then decimal digits; each failure with its message.
pub open spec fn parse_u16_text(s: Seq<char>) -> Result<u16, Seq<char>> {
    if s.len() == 0 {
        Err("cannot parse integer from empty string"@)
    } else if (s[0] == '+' || s[0] == '-') && s.len() == 1 {
        Err("invalid digit found in string"@)
    } else if s[0] == '+' {
        parse_digits_u16(s, 1, 0)
    } else {
        parse_digits_u16(s, 0, 0)
    }
}

/// Reads text as a `u16`.
pub fn parse_u16(text: &str) -> (r: Result<u16, String>)
    ensures
        match parse_u16_text(text@) {
            Ok(n) => r matches Ok(x) && x == n,
            Err(m) => r matches Err(e) && e@ == m,
        },
{
    let n = text.unicode_len();
    if n == 0 {
        return Err(owned("cannot parse integer from empty string"));
    }
    let first = text.get_char(0);
    if (first == '+' || first == '-') && n == 1 {
        return Err(owned("invalid digit found in string"));
    }
    let mut i: usize = if first == '+' {
        1
    } else {
        0
    };
    let mut acc: u32 = 0;
    while i < n
        invariant
            n == text@.len(),
            i <= n,
            acc <= 0xffff,
            parse_u16_text(text@) == parse_digits_u16(text@, i as int, acc as nat),
        decreases n - i,
    {
        let c = text.get_char(i);
        if !('0' <= c && c <= '9') {
            return Err(owned("invalid digit found in string"));
        }
        let d = (c as u32) - ('0' as u32);
        if acc * 10 + d > 0xffff {
            return Err(owned("number too large to fit in target type"));
        }
        acc = acc * 10 + d;
        i = i + 1;
    }
    Ok(acc as u16)
}

pub open spec fn all_digits(d: Seq<char>) -> bool {
    forall|i: int| 0 <= i < d.len() ==> is_digit(#[trigger] d[i])
}

proof fn lemma_decimal_text_digits(n: nat)
    ensures
        decimal_text(n).len() > 0,
        all_digits(decimal_text(n)),
        decimal_value(decimal_text(n)) == n,
    decreases n,
{
    lemma_digit_char(n % 10);
    if n >= 10 {
        lemma_decimal_text_digits(n / 10);
        let t = decimal_text(n / 10);
        assert(decimal_text(n).drop_last() =~= t);
        assert(decimal_text(n).last() == digit_char(n % 10));
        assert(n == (n / 10) * 10 + n % 10);
    } else {
        assert(decimal_text(n).drop_last() =~= Seq::<char>::empty());
        assert(decimal_value(Seq::<char>::empty()) == 0);
    }
}

proof fn lemma_digit_char(d: nat)
    requires
        d < 10,
    ensures
        is_digit(digit_char(d)),
        digit_value(digit_char(d)) == d,
{
}

proof fn lemma_parse_digits(d: Seq<char>, i: int)
    requires
        0 <= i <= d.len(),
        all_digits(d),
        decimal_value(d) <= 0xffff,
    ensures
        parse_digits_u16(d, i, decimal_value(d.take(i))) == Ok::<u16, Seq<char>>(decimal_value(d) as u16),
    decreases d.len() - i,
{
    if i == d.len() {
        assert(d.take(i) =~= d);
    } else {
        assert(d.take(i + 1).drop_last() =~= d.take(i));
        crate::version::lemma_decimal_monotone(d, i + 1, d.len() as int);
        assert(d.take(d.len() as int) =~= d);
        lemma_parse_digits(d, i + 1);
    }
}

/// Reading the decimal text of a `u16` gives the number back.
pub proof fn law_u16_text_roundtrip(n: u16)
    ensures
        parse_u16_text(decimal_text(n as nat)) == Ok::<u16, Seq<char>>(n),
{
    let t = decimal_text(n as nat);
    lemma_decimal_text_digits(n as nat);
    assert(is_digit(t[0]));
    assert(t.take(0) =~= Seq::<char>::empty());
    lemma_parse_digits(t, 0);
}


// ---------------------------------------------------------------------------
// Reading a manifest expression
// ---------------------------------------------------------------------------

/// An expression's kind name, as field errors give it.
pub open spec fn expr_kind_name(e: ConfigExpr) -> Seq<char> {
    match e {
        ConfigExpr::Nil => "Nil"@,
        ConfigExpr::Bool(_) => "Bool"@,
        ConfigExpr::Number { .. } => "Number"@,
        ConfigExpr::Symbol(_) => "Symbol"@,
        ConfigExpr::Local(_) => "Symbol"@,
        ConfigExpr::Str(_) => "String"@,
        ConfigExpr::Bytes(_) => "Bytes"@,
        ConfigExpr::List(_) => "List"@,
        ConfigExpr::Vector(_) => "Vector"@,
        ConfigExpr::SetOf(_) => "Set"@,
        ConfigExpr::Block(_) => "Block"@,
        ConfigExpr::MapOf(_) => "Map"@,
        ConfigExpr::Call { .. } => "Call"@,
        ConfigExpr::Infix { .. } => "Infix"@,
        ConfigExpr::Prefix { .. } => "Prefix"@,
        ConfigExpr::Postfix { .. } => "Postfix"@,
        ConfigExpr::Quote { .. } => "Quote"@,
        ConfigExpr::Annotated { .. } => "Annotated"@,
        ConfigExpr::Extension { .. } => "Extension"@,
    }
}

fn expr_kind_name_exec(e: &ConfigExpr) -> (r: &'static str)
    ensures
        r@ == expr_kind_name(*e),
{
    match e {
        ConfigExpr::Nil => "Nil",
        ConfigExpr::Bool(_) => "Bool",
        ConfigExpr::Number { .. } => "Number",
        ConfigExpr::Symbol(_) => "Symbol",
        ConfigExpr::Local(_) => "Symbol",
        ConfigExpr::Str(_) => "String",
        ConfigExpr::Bytes(_) => "Bytes",
        ConfigExpr::List(_) => "List",
        ConfigExpr::Vector(_) => "Vector",
        ConfigExpr::SetOf(_) => "Set",
        ConfigExpr::Block(_) => "Block",
        ConfigExpr::MapOf(_) => "Map",
        ConfigExpr::Call { .. } => "Call",
        ConfigExpr::Infix { .. } => "Infix",
        ConfigExpr::Prefix { .. } => "Prefix",
        ConfigExpr::Postfix { .. } => "Postfix",
        ConfigExpr::Quote { .. } => "Quote",
        ConfigExpr::Annotated { .. } => "Annotated",
        ConfigExpr::Extension { .. } => "Extension",
    }
}

/// Whether a map key is the bare symbol `field`.
pub open spec fn is_field_key(k: ConfigExpr, field: Seq<char>) -> bool {
    match k {
        ConfigExpr::Symbol(s) => s.view() == plain_symbol(field),
        _ => false,
    }
}

/// Position of the first entry keyed by `field`, from `from` on.
pub open spec fn field_index(entries: Seq<MapEntry>, field: Seq<char>, from: int) -> Option<int>
    decreases entries.len() - from,
{
    if from < 0 || from >= entries.len() {
        None
    } else if is_field_key(entries[from].key, field) {
        Some(from)
    } else {
        field_index(entries, field, from + 1)
    }
}

/// The value of a map expression's field.
pub open spec fn field_of(e: ConfigExpr, field: Seq<char>) -> Result<ConfigExpr, Seq<char>> {
    match e {
        ConfigExpr::MapOf(entries) => match field_index(entries@, field, 0) {
            Some(i) => Ok(entries@[i].value),
            None => Err("missing field "@ + field),
        },
        _ => Err("expected map expr for field lookup, found "@ + expr_kind_name(e)),
    }
}

/// A field holding a symbol, or a string read as symbol text.
pub open spec fn symbol_field(e: ConfigExpr, field: Seq<char>) -> Result<SymbolView, Seq<char>> {
    match field_of(e, field) {
        Ok(ConfigExpr::Symbol(s)) => Ok(s.view()),
        Ok(ConfigExpr::Str(v)) => Ok(symbol_of_text(v@)),
        Ok(other) => Err("expected symbol field "@ + field + ", found "@ + expr_kind_name(other)),
        Err(m) => Err(m),
    }
}

/// A field holding a string.
pub open spec fn string_field(e: ConfigExpr, field: Seq<char>) -> Result<Seq<char>, Seq<char>> {
    match field_of(e, field) {
        Ok(ConfigExpr::Str(v)) => Ok(v@),
        Ok(other) => Err("expected string field "@ + field + ", found "@ + expr_kind_name(other)),
        Err(m) => Err(m),
    }
}

/// A field holding a string or nil.
pub open spec fn optional_string_field(e: ConfigExpr, field: Seq<char>) -> Result<
    Option<Seq<char>>,
    Seq<char>,
> {
    match field_of(e, field) {
        Ok(ConfigExpr::Nil) => Ok(None),
        Ok(ConfigExpr::Str(v)) => Ok(Some(v@)),
        Ok(other) => Err("expected optional string field "@ + field + ", found "@ + expr_kind_name(
            other,
        )),
        Err(m) => Err(m),
    }
}

/// A field holding a number whose canonical text reads as a `u16`.
pub open spec fn u16_field(e: ConfigExpr, field: Seq<char>) -> Result<u16, Seq<char>> {
    match field_of(e, field) {
        Ok(ConfigExpr::Number { canonical, .. }) => match parse_u16_text(canonical@) {
            Ok(n) => Ok(n),
            Err(m) => Err("invalid "@ + field + " number: "@ + m),
        },
        Ok(other) => Err("expected numeric field "@ + field + ", found "@ + expr_kind_name(other)),
        Err(m) => Err(m),
    }
}

/// A field holding a list.
pub open spec fn list_field(e: ConfigExpr, field: Seq<char>) -> Result<Seq<ConfigExpr>, Seq<char>> {
    match field_of(e, field) {
        Ok(ConfigExpr::List(items)) => Ok(items@),
        Ok(other) => Err("expected list field "@ + field + ", found "@ + expr_kind_name(other)),
        Err(m) => Err(m),
    }
}

/// A dependency entry: its `id` and `minimum-version`.
pub open spec fn decode_dependency(e: ConfigExpr) -> Result<DependencyView, Seq<char>> {
    match symbol_field(e, "id"@) {
        Err(m) => Err(m),
        Ok(id) => match optional_string_field(e, "minimum-version"@) {
            Err(m) => Err(m),
            Ok(v) => Ok(DependencyView { id, minimum_version: v }),
        },
    }
}

/// A capability entry: a string.
pub open spec fn decode_capability(e: ConfigExpr) -> Result<Seq<char>, Seq<char>> {
    match e {
        ConfigExpr::Str(v) => Ok(v@),
        _ => Err("expected capability string, found "@ + expr_kind_name(e)),
    }
}

/// An export entry: its `kind` name and `symbol`.
pub open spec fn decode_export(e: ConfigExpr) -> Result<ExportView, Seq<char>> {
    match string_field(e, "kind"@) {
        Err(m) => Err(m),
        Ok(kind) => match symbol_field(e, "symbol"@) {
            Err(m) => Err(m),
            Ok(symbol) => match kind_of_text(kind) {
                Some(k) => Ok(ExportView { kind: k, symbol }),
                None => Err("unknown manifest export kind "@ + kind),
            },
        },
    }
}

/// Every dependency entry read in order; the first failure wins.
pub open spec fn decode_dependencies(items: Seq<ConfigExpr>) -> Result<Seq<DependencyView>, Seq<char>>
    decreases items.len(),
{
    if items.len() == 0 {
        Ok(Seq::empty())
    } else {
        match decode_dependencies(items.drop_last()) {
            Err(m) => Err(m),
            Ok(prefix) => match decode_dependency(items.last()) {
                Err(m) => Err(m),
                Ok(d) => Ok(prefix.push(d)),
            },
        }
    }
}

/// Every capability entry read in order; the first failure wins.
pub open spec fn decode_capabilities(items: Seq<ConfigExpr>) -> Result<Seq<Seq<char>>, Seq<char>>
    decreases items.len(),
{
    if items.len() == 0 {
        Ok(Seq::empty())
    } else {
        match decode_capabilities(items.drop_last()) {
            Err(m) => Err(m),
            Ok(prefix) => match decode_capability(items.last()) {
                Err(m) => Err(m),
                Ok(c) => Ok(prefix.push(c)),
            },
        }
    }
}

/// Every export entry read in order; the first failure wins.
pub open spec fn decode_exports(items: Seq<ConfigExpr>) -> Result<Seq<ExportView>, Seq<char>>
    decreases items.len(),
{
    if items.len() == 0 {
        Ok(Seq::empty())
    } else {
        match decode_exports(items.drop_last()) {
            Err(m) => Err(m),
            Ok(prefix) => match decode_export(items.last()) {
                Err(m) => Err(m),
                Ok(x) => Ok(prefix.push(x)),
            },
        }
    }
}

/// The manifest a manifest expression describes, its fields read in the
/// order `id`, `version`, `abi-major`, `abi-minor`, `target`, `requires`,
/// `capabilities`, `exports`; the first failure wins.
pub open spec fn decode_manifest(e: ConfigExpr) -> Result<ManifestView, Seq<char>> {
    match symbol_field(e, "id"@) {
        Err(m) => Err(m),
        Ok(id) => match string_field(e, "version"@) {
            Err(m) => Err(m),
            Ok(version) => match u16_field(e, "abi-major"@) {
                Err(m) => Err(m),
                Ok(abi_major) => match u16_field(e, "abi-minor"@) {
                    Err(m) => Err(m),
                    Ok(abi_minor) => match string_field(e, "target"@) {
                        Err(m) => Err(m),
                        Ok(target) => match list_field(e, "requires"@) {
                            Err(m) => Err(m),
                            Ok(ri) => match decode_dependencies(ri) {
                                Err(m) => Err(m),
                                Ok(dependencies) => match list_field(e, "capabilities"@) {
                                    Err(m) => Err(m),
                                    Ok(ci) => match decode_capabilities(ci) {
                                        Err(m) => Err(m),
                                        Ok(capabilities) => match list_field(e, "exports"@) {
                                            Err(m) => Err(m),
                                            Ok(xi) => match decode_exports(xi) {
                                                Err(m) => Err(m),
                                                Ok(exports) => Ok(
                                                    ManifestView {
                                                        id,
                                                        version,
                                                        abi_major,
                                                        abi_minor,
                                                        target: symbol_of_text(target),
                                                        dependencies,
                                                        capabilities,
                                                        exports,
                                                    },
                                                ),
                                            },
                                        },
                                    },
                                },
                            },
                        },
                    },
                },
            },
        },
    }
}

/// `lead`, the field name, `", found "` and a kind name.
fn field_error(lead: &str, field: &str, kind: &str) -> (e: CliError)
    ensures
        e.message@ == lead@ + field@ + ", found "@ + kind@,
{
    let mut m = concat2(lead, field);
    m.append(", found ");
    m.append(kind);
    CliError::new(m)
}

/// The value of a map expression's field.
fn expect_map_field<'a>(e: &'a ConfigExpr, field: &str) -> (r: Result<&'a ConfigExpr, CliError>)
    ensures
        match field_of(*e, field@) {
            Ok(v) => r matches Ok(x) && *x == v,
            Err(m) => r matches Err(err) && err.message@ == m,
        },
{
    match e {
        ConfigExpr::MapOf(entries) => {
            let mut i: usize = 0;
            while i < entries.len()
                invariant
                    *e == ConfigExpr::MapOf(*entries),
                    i <= entries@.len(),
                    field_index(entries@, field@, 0) == field_index(entries@, field@, i as int),
                decreases entries@.len() - i,
            {
                let hit = match &entries[i].key {
                    ConfigExpr::Symbol(s) => s.namespace.is_none() && str_eq(s.name.as_str(), field),
                    _ => false,
                };
                if hit {
                    assert(is_field_key(entries@[i as int].key, field@));
                    return Ok(&entries[i].value);
                }
                i = i + 1;
            }
            Err(CliError::new(concat2("missing field ", field)))
        },
        _ => Err(CliError::new(concat2("expected map expr for field lookup, found ", expr_kind_name_exec(e)))),
    }
}


/// The text of an optional string.
pub open spec fn opt_text(o: Option<String>) -> Option<Seq<char>> {
    match o {
        Some(v) => Some(v@),
        None => None,
    }
}

fn expect_symbol_field(e: &ConfigExpr, field: &str) -> (r: Result<Symbol, CliError>)
    ensures
        match symbol_field(*e, field@) {
            Ok(s) => r matches Ok(x) && x.view() == s,
            Err(m) => r matches Err(err) && err.message@ == m,
        },
{
    match expect_map_field(e, field) {
        Err(err) => Err(err),
        Ok(ConfigExpr::Symbol(s)) => Ok(s.copy()),
        Ok(ConfigExpr::Str(v)) => Ok(symbol_from_text(v.as_str())),
        Ok(other) => Err(field_error("expected symbol field ", field, expr_kind_name_exec(other))),
    }
}

fn expect_string_field(e: &ConfigExpr, field: &str) -> (r: Result<String, CliError>)
    ensures
        match string_field(*e, field@) {
            Ok(t) => r matches Ok(x) && x@ == t,
            Err(m) => r matches Err(err) && err.message@ == m,
        },
{
    match expect_map_field(e, field) {
        Err(err) => Err(err),
        Ok(ConfigExpr::Str(v)) => Ok(v.clone()),
        Ok(other) => Err(field_error("expected string field ", field, expr_kind_name_exec(other))),
    }
}

fn expect_optional_string_field(e: &ConfigExpr, field: &str) -> (r: Result<Option<String>, CliError>)
    ensures
        match optional_string_field(*e, field@) {
            Ok(t) => r matches Ok(x) && opt_text(x) == t,
            Err(m) => r matches Err(err) && err.message@ == m,
        },
{
    match expect_map_field(e, field) {
        Err(err) => Err(err),
        Ok(ConfigExpr::Nil) => Ok(None),
        Ok(ConfigExpr::Str(v)) => Ok(Some(v.clone())),
        Ok(other) => Err(
            field_error("expected optional string field ", field, expr_kind_name_exec(other)),
        ),
    }
}

fn expect_u16_field(e: &ConfigExpr, field: &str) -> (r: Result<u16, CliError>)
    ensures
        match u16_field(*e, field@) {
            Ok(n) => r matches Ok(x) && x == n,
            Err(m) => r matches Err(err) && err.message@ == m,
        },
{
    match expect_map_field(e, field) {
        Err(err) => Err(err),
        Ok(ConfigExpr::Number { canonical, .. }) => match parse_u16(canonical.as_str()) {
            Ok(n) => Ok(n),
            Err(m) => {
                let mut msg = concat2("invalid ", field);
                msg.append(" number: ");
                msg.append(m.as_str());
                Err(CliError::new(msg))
            },
        },
        Ok(other) => Err(field_error("expected numeric field ", field, expr_kind_name_exec(other))),
    }
}

fn expect_list_field<'a>(e: &'a ConfigExpr, field: &str) -> (r: Result<&'a Vec<ConfigExpr>, CliError>)
    ensures
        match list_field(*e, field@) {
            Ok(items) => r matches Ok(x) && x@ == items,
            Err(m) => r matches Err(err) && err.message@ == m,
        },
{
    match expect_map_field(e, field) {
        Err(err) => Err(err),
        Ok(ConfigExpr::List(items)) => Ok(items),
        Ok(other) => Err(field_error("expected list field ", field, expr_kind_name_exec(other))),
    }
}

fn read_dependency(e: &ConfigExpr) -> (r: Result<ManifestDependency, CliError>)
    ensures
        match decode_dependency(*e) {
            Ok(d) => r matches Ok(x) && x.view() == d,
            Err(m) => r matches Err(err) && err.message@ == m,
        },
{
    let id = match expect_symbol_field(e, "id") {
        Ok(id) => id,
        Err(err) => return Err(err),
    };
    match expect_optional_string_field(e, "minimum-version") {
        Ok(v) => Ok(ManifestDependency { id, minimum_version: v }),
        Err(err) => Err(err),
    }
}

fn read_capability(e: &ConfigExpr) -> (r: Result<String, CliError>)
    ensures
        match decode_capability(*e) {
            Ok(c) => r matches Ok(x) && x@ == c,
            Err(m) => r matches Err(err) && err.message@ == m,
        },
{
    match e {
        ConfigExpr::Str(v) => Ok(v.clone()),
        _ => Err(CliError::new(concat2("expected capability string, found ", expr_kind_name_exec(e)))),
    }
}

/// The well-known export kind a name reads as.
fn kind_from_text(t: &str) -> (r: Option<ExportDeclKind>)
    ensures
        match kind_of_text(t@) {
            Some(k) => r matches Some(x) && x.view() == k,
            None => r is None,
        },
{
    if str_eq(t, "class") {
        Some(ExportDeclKind::Class)
    } else if str_eq(t, "function") {
        Some(ExportDeclKind::Function)
    } else if str_eq(t, "macro") {
        Some(ExportDeclKind::Macro)
    } else if str_eq(t, "shape") {
        Some(ExportDeclKind::Shape)
    } else if str_eq(t, "codec") {
        Some(ExportDeclKind::Codec)
    } else if str_eq(t, "number-domain") {
        Some(ExportDeclKind::NumberDomain)
    } else if str_eq(t, "site") {
        Some(ExportDeclKind::Site)
    } else if str_eq(t, "value") {
        Some(ExportDeclKind::Value)
    } else {
        None
    }
}

fn expr_to_manifest_export(e: &ConfigExpr) -> (r: Result<ManifestExport, CliError>)
    ensures
        match decode_export(*e) {
            Ok(x) => r matches Ok(y) && y.view() == x,
            Err(m) => r matches Err(err) && err.message@ == m,
        },
{
    let kind = match expect_string_field(e, "kind") {
        Ok(k) => k,
        Err(err) => return Err(err),
    };
    let symbol = match expect_symbol_field(e, "symbol") {
        Ok(s) => s,
        Err(err) => return Err(err),
    };
    match kind_from_text(kind.as_str()) {
        Some(k) => Ok(ManifestExport { kind: k, symbol }),
        None => Err(CliError::new(concat2("unknown manifest export kind ", kind.as_str()))),
    }
}

fn read_dependencies(items: &Vec<ConfigExpr>) -> (r: Result<Vec<ManifestDependency>, CliError>)
    ensures
        match decode_dependencies(items@) {
            Ok(ds) => r matches Ok(x) && dependency_views(x@) == ds,
            Err(m) => r matches Err(err) && err.message@ == m,
        },
{
    let mut out: Vec<ManifestDependency> = Vec::new();
    let mut i: usize = 0;
    assert(items@.take(0) =~= Seq::<ConfigExpr>::empty());
    assert(dependency_views(out@) =~= Seq::<DependencyView>::empty());
    while i < items.len()
        invariant
            i <= items@.len(),
            decode_dependencies(items@.take(i as int)) == Ok::<Seq<DependencyView>, Seq<char>>(
                dependency_views(out@),
            ),
        decreases items@.len() - i,
    {
        proof {
            assert(items@.take(i + 1).drop_last() =~= items@.take(i as int));
            assert(items@.take(i + 1).last() == items@[i as int]);
        }
        match read_dependency(&items[i]) {
            Ok(d) => {
                let ghost prev = out@;
                out.push(d);
                assert(out@.drop_last() =~= prev);
                assert(dependency_views(out@) =~= dependency_views(prev).push(out@.last().view()));
                assert(decode_dependencies(items@.take(i + 1)) == Ok::<Seq<DependencyView>, Seq<char>>(
                    dependency_views(out@),
                ));
            },
            Err(err) => {
                proof {
                    lemma_dependencies_err_sticks(items@, i as int + 1);
                }
                return Err(err);
            },
        }
        i = i + 1;
    }
    assert(items@.take(items@.len() as int) =~= items@);
    Ok(out)
}

proof fn lemma_dependencies_err_sticks(items: Seq<ConfigExpr>, k: int)
    requires
        0 <= k <= items.len(),
        decode_dependencies(items.take(k)) is Err,
    ensures
        decode_dependencies(items) == decode_dependencies(items.take(k)),
    decreases items.len() - k,
{
    if k < items.len() {
        assert(items.take(k + 1).drop_last() =~= items.take(k));
        lemma_dependencies_err_sticks(items, k + 1);
    } else {
        assert(items.take(k) =~= items);
    }
}

fn read_capabilities(items: &Vec<ConfigExpr>) -> (r: Result<Vec<String>, CliError>)
    ensures
        match decode_capabilities(items@) {
            Ok(cs) => r matches Ok(x) && text_views(x@) == cs,
            Err(m) => r matches Err(err) && err.message@ == m,
        },
{
    let mut out: Vec<String> = Vec::new();
    let mut i: usize = 0;
    assert(items@.take(0) =~= Seq::<ConfigExpr>::empty());
    assert(text_views(out@) =~= Seq::<Seq<char>>::empty());
    while i < items.len()
        invariant
            i <= items@.len(),
            decode_capabilities(items@.take(i as int)) == Ok::<Seq<Seq<char>>, Seq<char>>(
                text_views(out@),
            ),
        decreases items@.len() - i,
    {
        proof {
            assert(items@.take(i + 1).drop_last() =~= items@.take(i as int));
            assert(items@.take(i + 1).last() == items@[i as int]);
        }
        match read_capability(&items[i]) {
            Ok(c) => {
                let ghost prev = out@;
                out.push(c);
                assert(out@.drop_last() =~= prev);
                assert(text_views(out@) =~= text_views(prev).push(out@.last()@));
                assert(decode_capabilities(items@.take(i + 1)) == Ok::<Seq<Seq<char>>, Seq<char>>(
                    text_views(out@),
                ));
            },
            Err(err) => {
                proof {
                    lemma_capabilities_err_sticks(items@, i as int + 1);
                }
                return Err(err);
            },
        }
        i = i + 1;
    }
    assert(items@.take(items@.len() as int) =~= items@);
    Ok(out)
}

proof fn lemma_capabilities_err_sticks(items: Seq<ConfigExpr>, k: int)
    requires
        0 <= k <= items.len(),
        decode_capabilities(items.take(k)) is Err,
    ensures
        decode_capabilities(items) == decode_capabilities(items.take(k)),
    decreases items.len() - k,
{
    if k < items.len() {
        assert(items.take(k + 1).drop_last() =~= items.take(k));
        lemma_capabilities_err_sticks(items, k + 1);
    } else {
        assert(items.take(k) =~= items);
    }
}

fn read_exports(items: &Vec<ConfigExpr>) -> (r: Result<Vec<ManifestExport>, CliError>)
    ensures
        match decode_exports(items@) {
            Ok(xs) => r matches Ok(x) && export_views(x@) == xs,
            Err(m) => r matches Err(err) && err.message@ == m,
        },
{
    let mut out: Vec<ManifestExport> = Vec::new();
    let mut i: usize = 0;
    assert(items@.take(0) =~= Seq::<ConfigExpr>::empty());
    assert(export_views(out@) =~= Seq::<ExportView>::empty());
    while i < items.len()
        invariant
            i <= items@.len(),
            decode_exports(items@.take(i as int)) == Ok::<Seq<ExportView>, Seq<char>>(
                export_views(out@),
            ),
        decreases items@.len() - i,
    {
        proof {
            assert(items@.take(i + 1).drop_last() =~= items@.take(i as int));
            assert(items@.take(i + 1).last() == items@[i as int]);
        }
        match expr_to_manifest_export(&items[i]) {
            Ok(x) => {
                let ghost prev = out@;
                out.push(x);
                assert(out@.drop_last() =~= prev);
                assert(export_views(out@) =~= export_views(prev).push(out@.last().view()));
                assert(decode_exports(items@.take(i + 1)) == Ok::<Seq<ExportView>, Seq<char>>(
                    export_views(out@),
                ));
            },
            Err(err) => {
                proof {
                    lemma_exports_err_sticks(items@, i as int + 1);
                }
                return Err(err);
            },
        }
        i = i + 1;
    }
    assert(items@.take(items@.len() as int) =~= items@);
    Ok(out)
}

proof fn lemma_exports_err_sticks(items: Seq<ConfigExpr>, k: int)
    requires
        0 <= k <= items.len(),
        decode_exports(items.take(k)) is Err,
    ensures
        decode_exports(items) == decode_exports(items.take(k)),
    decreases items.len() - k,
{
    if k < items.len() {
        assert(items.take(k + 1).drop_last() =~= items.take(k));
        lemma_exports_err_sticks(items, k + 1);
    } else {
        assert(items.take(k) =~= items);
    }
}

/// Reads a manifest expression back into a manifest; fails with the first
/// missing or ill-typed field, or an unknown export kind.
pub fn expr_to_manifest(e: &ConfigExpr) -> (r: Result<LibManifest, CliError>)
    ensures
        match decode_manifest(*e) {
            Ok(m) => r matches Ok(x) && x.view() == m,
            Err(msg) => r matches Err(err) && err.message@ == msg,
        },
{
    let id = match expect_symbol_field(e, "id") {
        Ok(v) => v,
        Err(err) => return Err(err),
    };
    let version = match expect_string_field(e, "version") {
        Ok(v) => v,
        Err(err) => return Err(err),
    };
    let abi_major = match expect_u16_field(e, "abi-major") {
        Ok(v) => v,
        Err(err) => return Err(err),
    };
    let abi_minor = match expect_u16_field(e, "abi-minor") {
        Ok(v) => v,
        Err(err) => return Err(err),
    };
    let target = match expect_string_field(e, "target") {
        Ok(v) => symbol_from_text(v.as_str()),
        Err(err) => return Err(err),
    };
    let dependencies = match expect_list_field(e, "requires") {
        Ok(items) => match read_dependencies(items) {
            Ok(v) => v,
            Err(err) => return Err(err),
        },
        Err(err) => return Err(err),
    };
    let capabilities = match expect_list_field(e, "capabilities") {
        Ok(items) => match read_capabilities(items) {
            Ok(v) => v,
            Err(err) => return Err(err),
        },
        Err(err) => return Err(err),
    };
    let exports = match expect_list_field(e, "exports") {
        Ok(items) => match read_exports(items) {
            Ok(v) => v,
            Err(err) => return Err(err),
        },
        Err(err) => return Err(err),
    };
    Ok(LibManifest { id, version, abi_major, abi_minor, target, dependencies, capabilities, exports })
}


// ---------------------------------------------------------------------------
// Writing a manifest expression
// ---------------------------------------------------------------------------

/// An entry keyed by the bare symbol `name`.
pub open spec fn is_symbol_entry(e: MapEntry, name: Seq<char>) -> bool {
    &&& is_field_key(e.key, name)
    &&& e.key_debug@ == Seq::<char>::empty()
}

/// A symbol expression for `s`.
pub open spec fn is_symbol_expr(e: ConfigExpr, s: SymbolView) -> bool {
    match e {
        ConfigExpr::Symbol(x) => x.view() == s,
        _ => false,
    }
}

/// A string expression holding `t`.
pub open spec fn is_string_expr(e: ConfigExpr, t: Seq<char>) -> bool {
    match e {
        ConfigExpr::Str(x) => x@ == t,
        _ => false,
    }
}

/// A number of the `numbers/f64` domain whose canonical text is `n` in
/// decimal.
pub open spec fn is_number_expr(e: ConfigExpr, n: u16) -> bool {
    match e {
        ConfigExpr::Number { domain, canonical } => domain.view() == qualified_symbol(
            "numbers"@,
            "f64"@,
        ) && canonical@ == decimal_text(n as nat),
        _ => false,
    }
}

/// The map a dependency is written as: `id` and `minimum-version` (nil
/// when there is none).
pub open spec fn dependency_expr(e: ConfigExpr, d: DependencyView) -> bool {
    match e {
        ConfigExpr::MapOf(entries) => {
            &&& entries@.len() == 2
            &&& is_symbol_entry(entries@[0], "id"@)
            &&& is_symbol_expr(entries@[0].value, d.id)
            &&& is_symbol_entry(entries@[1], "minimum-version"@)
            &&& match d.minimum_version {
                Some(v) => is_string_expr(entries@[1].value, v),
                None => entries@[1].value is Nil,
            }
        },
        _ => false,
    }
}

/// The map an export is written as: its `kind` name and `symbol`.
pub open spec fn export_expr(e: ConfigExpr, x: ExportView) -> bool {
    match e {
        ConfigExpr::MapOf(entries) => {
            &&& entries@.len() == 2
            &&& is_symbol_entry(entries@[0], "kind"@)
            &&& is_string_expr(entries@[0].value, kind_text(x.kind))
            &&& is_symbol_entry(entries@[1], "symbol"@)
            &&& is_symbol_expr(entries@[1].value, x.symbol)
        },
        _ => false,
    }
}

/// The map a manifest is written as: `id`, `version`, `abi-major`,
/// `abi-minor`, `target` (its symbol's text), `requires`, `capabilities`
/// and `exports`, in that order.
pub open spec fn manifest_expr(e: ConfigExpr, m: ManifestView) -> bool {
    match e {
        ConfigExpr::MapOf(entries) => {
            let s = entries@;
            &&& s.len() == 8
            &&& is_symbol_entry(s[0], "id"@) && is_symbol_expr(s[0].value, m.id)
            &&& is_symbol_entry(s[1], "version"@) && is_string_expr(s[1].value, m.version)
            &&& is_symbol_entry(s[2], "abi-major"@) && is_number_expr(s[2].value, m.abi_major)
            &&& is_symbol_entry(s[3], "abi-minor"@) && is_number_expr(s[3].value, m.abi_minor)
            &&& is_symbol_entry(s[4], "target"@) && is_string_expr(s[4].value, qualified_text(m.target))
            &&& is_symbol_entry(s[5], "requires"@) && match s[5].value {
                ConfigExpr::List(items) => items@.len() == m.dependencies.len() && forall|i: int|
                    0 <= i < items@.len() ==> dependency_expr(
                        #[trigger] items@[i],
                        m.dependencies[i],
                    ),
                _ => false,
            }
            &&& is_symbol_entry(s[6], "capabilities"@) && match s[6].value {
                ConfigExpr::List(items) => items@.len() == m.capabilities.len() && forall|i: int|
                    0 <= i < items@.len() ==> is_string_expr(#[trigger] items@[i], m.capabilities[i]),
                _ => false,
            }
            &&& is_symbol_entry(s[7], "exports"@) && match s[7].value {
                ConfigExpr::List(items) => items@.len() == m.exports.len() && forall|i: int|
                    0 <= i < items@.len() ==> export_expr(#[trigger] items@[i], m.exports[i]),
                _ => false,
            }
        },
        _ => false,
    }
}

fn symbol_entry(name: &str, value: ConfigExpr) -> (r: MapEntry)
    ensures
        is_symbol_entry(r, name@),
        r.value == value,
{
    MapEntry { key: ConfigExpr::Symbol(Symbol::new(owned(name))), key_debug: String::new(), value }
}

fn number_expr(n: u16) -> (r: ConfigExpr)
    ensures
        is_number_expr(r, n),
{
    ConfigExpr::Number {
        domain: Symbol::qualified(owned("numbers"), owned("f64")),
        canonical: crate::text::decimal_string(n as usize),
    }
}

pub fn kind_name(k: &ExportDeclKind) -> (r: String)
    ensures
        r@ == kind_text(k.view()),
{
    match k {
        ExportDeclKind::Class => owned("class"),
        ExportDeclKind::Function => owned("function"),
        ExportDeclKind::Macro => owned("macro"),
        ExportDeclKind::Shape => owned("shape"),
        ExportDeclKind::Codec => owned("codec"),
        ExportDeclKind::NumberDomain => owned("number-domain"),
        ExportDeclKind::Value => owned("value"),
        ExportDeclKind::Site => owned("site"),
        ExportDeclKind::Open(s) => s.as_qualified_str(),
    }
}

fn dependency_to_expr(d: &ManifestDependency) -> (r: ConfigExpr)
    ensures
        dependency_expr(r, d.view()),
{
    let minimum = match &d.minimum_version {
        Some(v) => ConfigExpr::Str(v.clone()),
        None => ConfigExpr::Nil,
    };
    let mut entries: Vec<MapEntry> = Vec::new();
    entries.push(symbol_entry("id", ConfigExpr::Symbol(d.id.copy())));
    entries.push(symbol_entry("minimum-version", minimum));
    ConfigExpr::MapOf(entries)
}

fn export_to_expr(x: &ManifestExport) -> (r: ConfigExpr)
    ensures
        export_expr(r, x.view()),
{
    let mut entries: Vec<MapEntry> = Vec::new();
    entries.push(symbol_entry("kind", ConfigExpr::Str(kind_name(&x.kind))));
    entries.push(symbol_entry("symbol", ConfigExpr::Symbol(x.symbol.copy())));
    ConfigExpr::MapOf(entries)
}

/// Writes a manifest as its expression map.
pub fn manifest_to_expr(m: &LibManifest) -> (r: ConfigExpr)
    ensures
        manifest_expr(r, m.view()),
{
    let mut deps: Vec<ConfigExpr> = Vec::new();
    let mut i: usize = 0;
    while i < m.dependencies.len()
        invariant
            i <= m.dependencies@.len(),
            deps@.len() == i,
            forall|j: int| 0 <= j < i ==> dependency_expr(#[trigger] deps@[j], m.dependencies@[j].view()),
        decreases m.dependencies@.len() - i,
    {
        deps.push(dependency_to_expr(&m.dependencies[i]));
        i = i + 1;
    }
    let mut caps: Vec<ConfigExpr> = Vec::new();
    let mut i: usize = 0;
    while i < m.capabilities.len()
        invariant
            i <= m.capabilities@.len(),
            caps@.len() == i,
            forall|j: int| 0 <= j < i ==> is_string_expr(#[trigger] caps@[j], m.capabilities@[j]@),
        decreases m.capabilities@.len() - i,
    {
        caps.push(ConfigExpr::Str(m.capabilities[i].clone()));
        i = i + 1;
    }
    let mut exports: Vec<ConfigExpr> = Vec::new();
    let mut i: usize = 0;
    while i < m.exports.len()
        invariant
            i <= m.exports@.len(),
            exports@.len() == i,
            forall|j: int| 0 <= j < i ==> export_expr(#[trigger] exports@[j], m.exports@[j].view()),
        decreases m.exports@.len() - i,
    {
        exports.push(export_to_expr(&m.exports[i]));
        i = i + 1;
    }
    let mut entries: Vec<MapEntry> = Vec::new();
    entries.push(symbol_entry("id", ConfigExpr::Symbol(m.id.copy())));
    entries.push(symbol_entry("version", ConfigExpr::Str(m.version.clone())));
    entries.push(symbol_entry("abi-major", number_expr(m.abi_major)));
    entries.push(symbol_entry("abi-minor", number_expr(m.abi_minor)));
    entries.push(symbol_entry("target", ConfigExpr::Str(m.target.as_qualified_str())));
    entries.push(symbol_entry("requires", ConfigExpr::List(deps)));
    entries.push(symbol_entry("capabilities", ConfigExpr::List(caps)));
    entries.push(symbol_entry("exports", ConfigExpr::List(exports)));
    ConfigExpr::MapOf(entries)
}


// ---------------------------------------------------------------------------
// Reading back what was written
// ---------------------------------------------------------------------------

proof fn lemma_field_index(s: Seq<MapEntry>, f: Seq<char>, k: int, from: int)
    requires
        0 <= from <= k < s.len(),
        is_field_key(s[k].key, f),
        forall|j: int| from <= j < k ==> !is_field_key(#[trigger] s[j].key, f),
    ensures
        field_index(s, f, from) == Some(k),
    decreases k - from,
{
    if from < k {
        lemma_field_index(s, f, k, from + 1);
    }
}

proof fn lemma_kind_roundtrip(k: ExportKindView)
    requires
        !(k is Open),
    ensures
        kind_of_text(kind_text(k)) == Some(k),
{
    reveal_strlit("class");
    reveal_strlit("function");
    reveal_strlit("macro");
    reveal_strlit("shape");
    reveal_strlit("codec");
    reveal_strlit("number-domain");
    reveal_strlit("site");
    reveal_strlit("value");
    assert("class"@[0] != "codec"@[1]);
    assert("shape"@[0] != "site"@[0] || "shape"@.len() != "site"@.len());
    match k {
        ExportKindView::Class => assert(kind_of_text("class"@) == Some(ExportKindView::Class)),
        ExportKindView::Function => assert("function"@ != "class"@),
        ExportKindView::Macro => {
            assert("macro"@[0] != "class"@[0]);
            assert("macro"@.len() != "function"@.len());
        },
        ExportKindView::Shape => {
            assert("shape"@[0] != "class"@[0]);
            assert("shape"@[0] != "macro"@[0]);
            assert("shape"@.len() != "function"@.len());
        },
        ExportKindView::Codec => {
            assert("codec"@[1] != "class"@[1]);
            assert("codec"@[0] != "macro"@[0]);
            assert("codec"@[0] != "shape"@[0]);
            assert("codec"@.len() != "function"@.len());
        },
        ExportKindView::NumberDomain => assert(kind_of_text("number-domain"@) == Some(ExportKindView::NumberDomain)),
        ExportKindView::Site => {
            assert("site"@.len() != "class"@.len());
        },
        ExportKindView::Value => {
            assert("value"@[0] != "class"@[0]);
            assert("value"@[0] != "macro"@[0]);
            assert("value"@[0] != "shape"@[0]);
            assert("value"@[0] != "codec"@[0]);
        },
        ExportKindView::Open(_) => {},
    }
}

proof fn lemma_decode_dependency(e: ConfigExpr, d: DependencyView)
    requires
        dependency_expr(e, d),
    ensures
        decode_dependency(e) == Ok::<DependencyView, Seq<char>>(d),
{
    reveal_strlit("id");
    reveal_strlit("minimum-version");
    if let ConfigExpr::MapOf(entries) = e {
        let s = entries@;
        lemma_field_index(s, "id"@, 0, 0);
        assert(!is_field_key(s[0].key, "minimum-version"@));
        lemma_field_index(s, "minimum-version"@, 1, 0);
    }
}

proof fn lemma_decode_export(e: ConfigExpr, x: ExportView)
    requires
        export_expr(e, x),
        !(x.kind is Open),
    ensures
        decode_export(e) == Ok::<ExportView, Seq<char>>(x),
{
    reveal_strlit("kind");
    reveal_strlit("symbol");
    lemma_kind_roundtrip(x.kind);
    if let ConfigExpr::MapOf(entries) = e {
        let s = entries@;
        lemma_field_index(s, "kind"@, 0, 0);
        assert("kind"@.len() != "symbol"@.len());
        assert(!is_field_key(s[0].key, "symbol"@));
        lemma_field_index(s, "symbol"@, 1, 0);
    }
}

proof fn lemma_decode_dependencies(items: Seq<ConfigExpr>, ds: Seq<DependencyView>)
    requires
        items.len() == ds.len(),
        forall|i: int| 0 <= i < items.len() ==> dependency_expr(#[trigger] items[i], ds[i]),
    ensures
        decode_dependencies(items) == Ok::<Seq<DependencyView>, Seq<char>>(ds),
    decreases items.len(),
{
    if items.len() == 0 {
        assert(ds =~= Seq::<DependencyView>::empty());
    } else {
        let n = items.len() - 1;
        assert forall|i: int| 0 <= i < items.drop_last().len() implies dependency_expr(
            #[trigger] items.drop_last()[i],
            ds.drop_last()[i],
        ) by {
            assert(items.drop_last()[i] == items[i]);
        }
        lemma_decode_dependencies(items.drop_last(), ds.drop_last());
        assert(dependency_expr(items[n], ds[n]));
        lemma_decode_dependency(items.last(), ds.last());
        assert(ds.drop_last().push(ds.last()) =~= ds);
    }
}

proof fn lemma_decode_capabilities(items: Seq<ConfigExpr>, cs: Seq<Seq<char>>)
    requires
        items.len() == cs.len(),
        forall|i: int| 0 <= i < items.len() ==> is_string_expr(#[trigger] items[i], cs[i]),
    ensures
        decode_capabilities(items) == Ok::<Seq<Seq<char>>, Seq<char>>(cs),
    decreases items.len(),
{
    if items.len() == 0 {
        assert(cs =~= Seq::<Seq<char>>::empty());
    } else {
        let n = items.len() - 1;
        assert forall|i: int| 0 <= i < items.drop_last().len() implies is_string_expr(
            #[trigger] items.drop_last()[i],
            cs.drop_last()[i],
        ) by {
            assert(items.drop_last()[i] == items[i]);
        }
        lemma_decode_capabilities(items.drop_last(), cs.drop_last());
        assert(is_string_expr(items[n], cs[n]));
        assert(cs.drop_last().push(cs.last()) =~= cs);
    }
}

proof fn lemma_decode_exports(items: Seq<ConfigExpr>, xs: Seq<ExportView>)
    requires
        items.len() == xs.len(),
        forall|i: int| 0 <= i < items.len() ==> export_expr(#[trigger] items[i], xs[i]),
        forall|i: int| 0 <= i < xs.len() ==> !(#[trigger] xs[i].kind is Open),
    ensures
        decode_exports(items) == Ok::<Seq<ExportView>, Seq<char>>(xs),
    decreases items.len(),
{
    if items.len() == 0 {
        assert(xs =~= Seq::<ExportView>::empty());
    } else {
        let n = items.len() - 1;
        assert forall|i: int| 0 <= i < items.drop_last().len() implies export_expr(
            #[trigger] items.drop_last()[i],
            xs.drop_last()[i],
        ) by {
            assert(items.drop_last()[i] == items[i]);
        }
        assert forall|i: int| 0 <= i < xs.drop_last().len() implies !(
        #[trigger] xs.drop_last()[i].kind is Open) by {
            assert(xs.drop_last()[i] == xs[i]);
        }
        lemma_decode_exports(items.drop_last(), xs.drop_last());
        assert(export_expr(items[n], xs[n]));
        assert(!(xs[n].kind is Open));
        lemma_decode_export(items.last(), xs.last());
        assert(xs.drop_last().push(xs.last()) =~= xs);
    }
}

/// Reading back the expression a manifest is written as gives that
/// manifest, when every export is of a well-known kind (an open kind is
/// written by its symbol, which reads back as a well-known kind or not at
/// all) and the target symbol reads back from its own text.
pub proof fn law_manifest_roundtrip(e: ConfigExpr, m: ManifestView)
    requires
        manifest_expr(e, m),
        symbol_of_text(qualified_text(m.target)) == m.target,
        forall|i: int| 0 <= i < m.exports.len() ==> !(#[trigger] m.exports[i].kind is Open),
    ensures
        decode_manifest(e) == Ok::<ManifestView, Seq<char>>(m),
{
    reveal_strlit("id");
    reveal_strlit("version");
    reveal_strlit("abi-major");
    reveal_strlit("abi-minor");
    reveal_strlit("target");
    reveal_strlit("requires");
    reveal_strlit("capabilities");
    reveal_strlit("exports");
    law_u16_text_roundtrip(m.abi_major);
    law_u16_text_roundtrip(m.abi_minor);
    if let ConfigExpr::MapOf(entries) = e {
        let s = entries@;
        assert("abi-major"@[5] != "abi-minor"@[5]);
        assert("version"@[0] != "exports"@[0]);
        assert("id"@.len() == 2 && "version"@.len() == 7 && "abi-major"@.len() == 9);
        assert("abi-minor"@.len() == 9 && "target"@.len() == 6 && "requires"@.len() == 8);
        assert("capabilities"@.len() == 12 && "exports"@.len() == 7);
        lemma_field_index(s, "id"@, 0, 0);
        lemma_field_index(s, "version"@, 1, 0);
        lemma_field_index(s, "abi-major"@, 2, 0);
        lemma_field_index(s, "abi-minor"@, 3, 0);
        lemma_field_index(s, "target"@, 4, 0);
        lemma_field_index(s, "requires"@, 5, 0);
        lemma_field_index(s, "capabilities"@, 6, 0);
        lemma_field_index(s, "exports"@, 7, 0);
        if let ConfigExpr::List(items) = s[5].value {
            lemma_decode_dependencies(items@, m.dependencies);
        }
        if let ConfigExpr::List(items) = s[6].value {
            lemma_decode_capabilities(items@, m.capabilities);
        }
        if let ConfigExpr::List(items) = s[7].value {
            lemma_decode_exports(items@, m.exports);
        }
    }
}


// ---------------------------------------------------------------------------
// What a manifest offers a boot
// ---------------------------------------------------------------------------

/// Whether a manifest exports the codec `codec`.
pub open spec fn exports_codec(m: ManifestView, codec: SymbolView) -> bool {
    exists|i: int| 0 <= i < m.exports.len() && #[trigger] m.exports[i] == (ExportView { kind: ExportKindView::Codec, symbol: codec })
}

/// Whether a manifest exports a site among `sites`.
pub open spec fn exports_requested_site(m: ManifestView, sites: Seq<SymbolView>) -> bool {
    exists|i: int, j: int|
        0 <= i < m.exports.len() && 0 <= j < sites.len() && #[trigger] m.exports[i] == (ExportView {
            kind: ExportKindView::Site,
            symbol: #[trigger] sites[j],
        })
}

/// Whether a manifest exports the codec `codec_symbol`.
pub fn manifest_exports_codec(m: &LibManifest, codec_symbol: &Symbol) -> (r: bool)
    ensures
        r == exports_codec(m.view(), codec_symbol.view()),
{
    let mut i: usize = 0;
    while i < m.exports.len()
        invariant
            i <= m.exports@.len(),
            forall|j: int| 0 <= j < i ==> #[trigger] m.view().exports[j] != (ExportView { kind: ExportKindView::Codec, symbol: codec_symbol.view() }),
        decreases m.exports@.len() - i,
    {
        let x = &m.exports[i];
        assert(m.view().exports[i as int] == x.view());
        match x.kind {
            ExportDeclKind::Codec => {
                if x.symbol.same(codec_symbol) {
                    return true;
                }
            },
            _ => {},
        }
        i = i + 1;
    }
    false
}

/// Whether a manifest exports one of the requested sites.
pub fn manifest_exports_requested_site(m: &LibManifest, sites: &Vec<Symbol>) -> (r: bool)
    ensures
        r == exports_requested_site(m.view(), crate::config::symbol_views(sites@)),
{
    let ghost sv = crate::config::symbol_views(sites@);
    let mut i: usize = 0;
    while i < m.exports.len()
        invariant
            sv == crate::config::symbol_views(sites@),
            i <= m.exports@.len(),
            forall|a: int, b: int| 0 <= a < i && 0 <= b < sv.len() ==> #[trigger] m.view().exports[a] != (ExportView { kind: ExportKindView::Site, symbol: #[trigger] sv[b] }),
        decreases m.exports@.len() - i,
    {
        let x = &m.exports[i];
        assert(m.view().exports[i as int] == x.view());
        match x.kind {
            ExportDeclKind::Site => {
                let mut j: usize = 0;
                while j < sites.len()
                    invariant
                        sv == crate::config::symbol_views(sites@),
                        j <= sites@.len(),
                        i < m.exports@.len(),
                        m.view().exports[i as int] == x.view(),
                        x.view().kind == ExportKindView::Site,
                        forall|a: int, b: int| 0 <= a < i && 0 <= b < sv.len() ==> #[trigger] m.view().exports[a] != (ExportView { kind: ExportKindView::Site, symbol: #[trigger] sv[b] }),
                        forall|b: int| 0 <= b < j ==> x.symbol.view() != #[trigger] sv[b],
                    decreases sites@.len() - j,
                {
                    if sites[j].same(&x.symbol) {
                        assert(sv[j as int] == sites@[j as int].view());
                        assert(m.view().exports[i as int] == (ExportView { kind: ExportKindView::Site, symbol: sv[j as int] }));
                        return true;
                    }
                    j = j + 1;
                }
            },
            _ => {},
        }
        i = i + 1;
    }
    false
}

// ---------------------------------------------------------------------------
// Comparing manifests
// ---------------------------------------------------------------------------

fn same_kind(a: &ExportDeclKind, b: &ExportDeclKind) -> (r: bool)
    ensures
        r == (a.view() == b.view()),
{
    match (a, b) {
        (ExportDeclKind::Class, ExportDeclKind::Class) => true,
        (ExportDeclKind::Function, ExportDeclKind::Function) => true,
        (ExportDeclKind::Macro, ExportDeclKind::Macro) => true,
        (ExportDeclKind::Shape, ExportDeclKind::Shape) => true,
        (ExportDeclKind::Codec, ExportDeclKind::Codec) => true,
        (ExportDeclKind::NumberDomain, ExportDeclKind::NumberDomain) => true,
        (ExportDeclKind::Value, ExportDeclKind::Value) => true,
        (ExportDeclKind::Site, ExportDeclKind::Site) => true,
        (ExportDeclKind::Open(x), ExportDeclKind::Open(y)) => x.same(y),
        _ => false,
    }
}

fn same_optional_text(a: &Option<String>, b: &Option<String>) -> (r: bool)
    ensures
        r == ((match a {
            Some(x) => Some(x@),
            None => None,
        }) == (match b {
            Some(x) => Some(x@),
            None => None,
        })),
{
    match (a, b) {
        (Some(x), Some(y)) => str_eq(x.as_str(), y.as_str()),
        (None, None) => true,
        _ => false,
    }
}

fn same_dependencies(a: &Vec<ManifestDependency>, b: &Vec<ManifestDependency>) -> (r: bool)
    ensures
        r == (dependency_views(a@) == dependency_views(b@)),
{
    if a.len() != b.len() {
        assert(dependency_views(a@).len() != dependency_views(b@).len());
        return false;
    }
    let mut i: usize = 0;
    while i < a.len()
        invariant
            a.len() == b.len(),
            i <= a.len(),
            forall|j: int| 0 <= j < i ==> (#[trigger] a@[j]).view() == b@[j].view(),
        decreases a.len() - i,
    {
        if !(a[i].id.same(&b[i].id) && same_optional_text(&a[i].minimum_version, &b[i].minimum_version)) {
            assert(dependency_views(a@)[i as int] != dependency_views(b@)[i as int]);
            return false;
        }
        i = i + 1;
    }
    assert(dependency_views(a@) =~= dependency_views(b@));
    true
}

fn same_texts(a: &Vec<String>, b: &Vec<String>) -> (r: bool)
    ensures
        r == (text_views(a@) == text_views(b@)),
{
    if a.len() != b.len() {
        assert(text_views(a@).len() != text_views(b@).len());
        return false;
    }
    let mut i: usize = 0;
    while i < a.len()
        invariant
            a.len() == b.len(),
            i <= a.len(),
            forall|j: int| 0 <= j < i ==> (#[trigger] a@[j])@ == b@[j]@,
        decreases a.len() - i,
    {
        if !str_eq(a[i].as_str(), b[i].as_str()) {
            assert(text_views(a@)[i as int] != text_views(b@)[i as int]);
            return false;
        }
        i = i + 1;
    }
    assert(text_views(a@) =~= text_views(b@));
    true
}

fn same_exports(a: &Vec<ManifestExport>, b: &Vec<ManifestExport>) -> (r: bool)
    ensures
        r == (export_views(a@) == export_views(b@)),
{
    if a.len() != b.len() {
        assert(export_views(a@).len() != export_views(b@).len());
        return false;
    }
    let mut i: usize = 0;
    while i < a.len()
        invariant
            a.len() == b.len(),
            i <= a.len(),
            forall|j: int| 0 <= j < i ==> (#[trigger] a@[j]).view() == b@[j].view(),
        decreases a.len() - i,
    {
        if !(same_kind(&a[i].kind, &b[i].kind) && a[i].symbol.same(&b[i].symbol)) {
            assert(export_views(a@)[i as int] != export_views(b@)[i as int]);
            return false;
        }
        i = i + 1;
    }
    assert(export_views(a@) =~= export_views(b@));
    true
}

/// Whether two manifests are the same manifest.
pub fn same_manifest(a: &LibManifest, b: &LibManifest) -> (r: bool)
    ensures
        r == (a.view() == b.view()),
{
    a.id.same(&b.id) && str_eq(a.version.as_str(), b.version.as_str()) && a.abi_major == b.abi_major && a.abi_minor
        == b.abi_minor && a.target.same(&b.target) && same_dependencies(&a.dependencies, &b.dependencies)
        && same_texts(&a.capabilities, &b.capabilities) && same_exports(&a.exports, &b.exports)
}

} // verus!
