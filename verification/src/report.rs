//! Report rendering: stable JSON of config expressions, loaded-library
//! rows, and the labels the reports use.
use vstd::prelude::*;
use vstd::string::*;

use crate::symbol::{qualified_text, Symbol, SymbolView};
use crate::text::{
    chars_of, hex_lower, hex_lower_exec, hex_string, hex_text, owned, push_char, str_eq,
};

verus! {

broadcast use vstd::string::group_string_axioms;

// ---------------------------------------------------------------------------
// JSON strings
// ---------------------------------------------------------------------------

/// Rust's `char::is_control`: the Unicode control characters.
pub open spec fn is_control(c: char) -> bool {
    (c as u32) <= 0x1f || (0x7f <= (c as u32) && (c as u32) <= 0x9f)
}

/// `\uXXXX` with four lower-case hex digits of a code below 0x10000.
pub open spec fn unicode_escape(code: nat) -> Seq<char> {
    seq![
        '\\',
        'u',
        hex_lower((code / 4096) % 16),
        hex_lower((code / 256) % 16),
        hex_lower((code / 16) % 16),
        hex_lower(code % 16),
    ]
}

/// JSON escape of one character.
pub open spec fn json_char(c: char) -> Seq<char> {
    if c == '"' {
        seq!['\\', '"']
    } else if c == '\\' {
        seq!['\\', '\\']
    } else if c == '\n' {
        seq!['\\', 'n']
    } else if c == '\r' {
        seq!['\\', 'r']
    } else if c == '\t' {
        seq!['\\', 't']
    } else if is_control(c) {
        unicode_escape(c as nat)
    } else {
        seq![c]
    }
}

/// JSON escape of a string's characters.
pub open spec fn json_escaped(s: Seq<char>) -> Seq<char>
    decreases s.len(),
{
    if s.len() == 0 {
        Seq::empty()
    } else {
        json_escaped(s.drop_last()) + json_char(s.last())
    }
}

/// A JSON string literal.
pub open spec fn json_string(s: Seq<char>) -> Seq<char> {
    "\""@ + json_escaped(s) + "\""@
}

/// Escaped JSON text holds no raw control character: a rendered string
/// stays on one line.
pub proof fn law_json_escape_has_no_controls(s: Seq<char>)
    ensures
        forall|i: int| 0 <= i < json_escaped(s).len() ==> !is_control(#[trigger] json_escaped(s)[i]),
    decreases s.len(),
{
    if s.len() > 0 {
        law_json_escape_has_no_controls(s.drop_last());
        let p = json_escaped(s.drop_last());
        let e = json_char(s.last());
        assert forall|i: int| 0 <= i < json_escaped(s).len() implies !is_control(
            #[trigger] json_escaped(s)[i],
        ) by {
            if i < p.len() {
                assert(json_escaped(s)[i] == p[i]);
            } else {
                assert(json_escaped(s)[i] == e[i - p.len()]);
                let c = s.last();
                if is_control(c) && c != '\n' && c != '\r' && c != '\t' {
                    let code = c as nat;
                    assert(hex_lower((code / 4096) % 16) != '\0');
                }
            }
        }
    }
}

/// Appends one escaped character.
fn push_json_char(output: &mut String, c: char)
    ensures
        final(output)@ == old(output)@ + json_char(c),
{
    if c == '"' {
        push_char(output, '\\');
        push_char(output, '"');
    } else if c == '\\' {
        push_char(output, '\\');
        push_char(output, '\\');
    } else if c == '\n' {
        push_char(output, '\\');
        push_char(output, 'n');
    } else if c == '\r' {
        push_char(output, '\\');
        push_char(output, 'r');
    } else if c == '\t' {
        push_char(output, '\\');
        push_char(output, 't');
    } else if (c as u32) <= 0x1f || (0x7f <= (c as u32) && (c as u32) <= 0x9f) {
        let code = c as u32;
        push_char(output, '\\');
        push_char(output, 'u');
        push_char(output, hex_lower_exec(((code / 4096) % 16) as u8));
        push_char(output, hex_lower_exec(((code / 256) % 16) as u8));
        push_char(output, hex_lower_exec(((code / 16) % 16) as u8));
        push_char(output, hex_lower_exec((code % 16) as u8));
    } else {
        push_char(output, c);
    }
    assert(final(output)@ =~= old(output)@ + json_char(c));
}

/// Appends a JSON string literal.
pub fn push_json_string(output: &mut String, value: &str)
    ensures
        final(output)@ == old(output)@ + json_string(value@),
{
    proof {
        reveal_strlit("\"");
    }
    let ghost start = output@;
    push_char(output, '"');
    let chars = chars_of(value);
    let mut i: usize = 0;
    while i < chars.len()
        invariant
            i <= chars@.len(),
            chars@ == value@,
            output@ == start + "\""@ + json_escaped(chars@.take(i as int)),
        decreases chars@.len() - i,
    {
        push_json_char(output, chars[i]);
        proof {
            assert(chars@.take(i + 1).drop_last() =~= chars@.take(i as int));
        }
        i = i + 1;
    }
    push_char(output, '"');
    assert(chars@.take(chars@.len() as int) =~= chars@);
    assert(output@ =~= start + json_string(value@));
}

/// Appends a comma before every item but the first.
pub fn comma(output: &mut String, index: usize)
    ensures
        index > 0 ==> final(output)@ == old(output)@.push(','),
        index == 0 ==> final(output)@ == old(output)@,
{
    if index > 0 {
        push_char(output, ',');
    }
}

/// Whether text can stand as a JSON number token as the report writes it:
/// it starts with a digit or `-`, and holds only digits, signs, `.`, `e`
/// and `E`.
pub open spec fn json_number_text(v: Seq<char>) -> bool {
    &&& v.len() > 0
    &&& (('0' <= v[0] && v[0] <= '9') || v[0] == '-')
    &&& forall|i: int|
        0 <= i < v.len() ==> (('0' <= #[trigger] v[i] && v[i] <= '9') || v[i] == '-' || v[i] == '+'
            || v[i] == '.' || v[i] == 'e' || v[i] == 'E')
}

/// Whether a canonical number can be written as a bare JSON number.
pub fn is_json_number(value: &str) -> (r: bool)
    ensures
        r == json_number_text(value@),
{
    let v = chars_of(value);
    if v.len() == 0 {
        return false;
    }
    if !(('0' <= v[0] && v[0] <= '9') || v[0] == '-') {
        return false;
    }
    let mut i: usize = 0;
    while i < v.len()
        invariant
            i <= v@.len(),
            v@ == value@,
            forall|j: int|
                0 <= j < i ==> (('0' <= #[trigger] v@[j] && v@[j] <= '9') || v@[j] == '-' || v@[j]
                    == '+' || v@[j] == '.' || v@[j] == 'e' || v@[j] == 'E'),
        decreases v@.len() - i,
    {
        let c = v[i];
        if !(('0' <= c && c <= '9') || c == '-' || c == '+' || c == '.' || c == 'e' || c == 'E') {
            return false;
        }
        i = i + 1;
    }
    true
}

/// Lower-case hexadecimal text of bytes.
pub fn hex_bytes(bytes: &[u8]) -> (r: String)
    ensures
        r@ == hex_text(bytes@),
{
    hex_string(bytes)
}

/// A JSON array of strings.
pub open spec fn json_strings(values: Seq<Seq<char>>) -> Seq<char> {
    "["@ + json_string_items(values) + "]"@
}

/// Comma-separated JSON strings.
pub open spec fn json_string_items(values: Seq<Seq<char>>) -> Seq<char>
    decreases values.len(),
{
    if values.len() == 0 {
        Seq::empty()
    } else if values.len() == 1 {
        json_string(values[0])
    } else {
        json_string_items(values.drop_last()) + ","@ + json_string(values.last())
    }
}

/// Views of strings.
pub open spec fn texts(v: Seq<String>) -> Seq<Seq<char>> {
    v.map_values(|s: String| s@)
}

/// Appends a JSON array of strings.
pub fn push_strings_json(output: &mut String, values: &Vec<String>)
    ensures
        final(output)@ == old(output)@ + json_strings(texts(values@)),
{
    proof {
        reveal_strlit("[");
        reveal_strlit("]");
        reveal_strlit(",");
    }
    let ghost start = output@;
    push_char(output, '[');
    let mut i: usize = 0;
    while i < values.len()
        invariant
            i <= values@.len(),
            output@ == start + "["@ + json_string_items(texts(values@.take(i as int))),
        decreases values@.len() - i,
    {
        let ghost before = output@;
        comma(output, i);
        push_json_string(output, values[i].as_str());
        proof {
            let t = texts(values@.take(i + 1));
            assert(t.drop_last() =~= texts(values@.take(i as int)));
            assert(t.last() == values@[i as int]@);
            if i == 0 {
                reveal_strlit("[");
                assert(texts(values@.take(0)) =~= Seq::<Seq<char>>::empty());
                assert(output@ =~= start + "["@ + json_string_items(t));
            } else {
                reveal_strlit(",");
                reveal_strlit("[");
                assert(t.len() >= 2);
                assert(json_string_items(t) == json_string_items(t.drop_last()) + ","@ + json_string(
                    t.last(),
                ));
                assert(before.push(',') =~= before + ","@);
                assert(output@ =~= start + "["@ + json_string_items(t));
            }
        }
        i = i + 1;
    }
    push_char(output, ']');
    assert(values@.take(values@.len() as int) =~= values@);
    assert(output@ =~= start + json_strings(texts(values@)));
}

// ---------------------------------------------------------------------------
// Config expressions
// ---------------------------------------------------------------------------

/// A configuration expression as the report renders it.
#[derive(Debug, PartialEq, Eq)]
pub enum ConfigExpr {
    Nil,
    Bool(bool),
    /// A number of a number domain, in canonical text.
    Number { domain: Symbol, canonical: String },
    Symbol(Symbol),
    Local(Symbol),
    Str(String),
    Bytes(Vec<u8>),
    List(Vec<ConfigExpr>),
    Vector(Vec<ConfigExpr>),
    SetOf(Vec<ConfigExpr>),
    Block(Vec<ConfigExpr>),
    MapOf(Vec<MapEntry>),
    Call { operator: Box<ConfigExpr>, args: Vec<ConfigExpr> },
    Infix { operator: Symbol, left: Box<ConfigExpr>, right: Box<ConfigExpr> },
    Prefix { operator: Symbol, arg: Box<ConfigExpr> },
    Postfix { operator: Symbol, arg: Box<ConfigExpr> },
    /// A quoted expression; `mode` is the quote mode's name.
    Quote { mode: String, expr: Box<ConfigExpr> },
    Annotated { expr: Box<ConfigExpr>, annotations: Vec<Annotation> },
    Extension { tag: Symbol, payload: Box<ConfigExpr> },
}

/// One entry of a map expression. `key_debug` is the key's debug text,
/// the label of a key that is not a symbol, string, boolean or number.
#[derive(Debug, PartialEq, Eq)]
pub struct MapEntry {
    pub key: ConfigExpr,
    pub key_debug: String,
    pub value: ConfigExpr,
}

/// One annotation of an annotated expression.
#[derive(Debug, PartialEq, Eq)]
pub struct Annotation {
    pub key: Symbol,
    pub value: ConfigExpr,
}

/// The label of a key expression: its symbol text, string, boolean or
/// number, or else the given debug text.
pub open spec fn label_of(key: ConfigExpr, debug: Seq<char>) -> Seq<char> {
    match key {
        ConfigExpr::Symbol(s) => qualified_text(s.view()),
        ConfigExpr::Local(s) => qualified_text(s.view()),
        ConfigExpr::Str(v) => v@,
        ConfigExpr::Bool(b) => if b {
            "true"@
        } else {
            "false"@
        },
        ConfigExpr::Number { canonical, .. } => canonical@,
        _ => debug,
    }
}

/// The label of a map key.
pub open spec fn key_label(e: MapEntry) -> Seq<char> {
    label_of(e.key, e.key_debug@)
}

/// JSON of an expression.
pub open spec fn expr_json(e: ConfigExpr) -> Seq<char>
    decreases e,
{
    match e {
        ConfigExpr::Nil => "null"@,
        ConfigExpr::Bool(b) => if b {
            "true"@
        } else {
            "false"@
        },
        ConfigExpr::Number { canonical, .. } => if json_number_text(canonical@) {
            canonical@
        } else {
            json_string(canonical@)
        },
        ConfigExpr::Symbol(s) => json_string(qualified_text(s.view())),
        ConfigExpr::Local(s) => json_string(qualified_text(s.view())),
        ConfigExpr::Str(v) => json_string(v@),
        ConfigExpr::Bytes(b) => json_string(hex_text(b@)),
        ConfigExpr::List(items) => "["@ + exprs_json(items@) + "]"@,
        ConfigExpr::Vector(items) => "["@ + exprs_json(items@) + "]"@,
        ConfigExpr::SetOf(items) => "["@ + exprs_json(items@) + "]"@,
        ConfigExpr::Block(items) => "["@ + exprs_json(items@) + "]"@,
        ConfigExpr::MapOf(entries) => "{"@ + entries_json(entries@) + "}"@,
        ConfigExpr::Call { operator, args } => "{\"$expr\":\"call\",\"operator\":"@ + expr_json(
            *operator,
        ) + ",\"args\":"@ + "["@ + exprs_json(args@) + "]"@ + "}"@,
        ConfigExpr::Infix { operator, left, right } => "{\"$expr\":\"infix\",\"operator\":"@
            + json_string(qualified_text(operator.view())) + ",\"left\":"@ + expr_json(*left)
            + ",\"right\":"@ + expr_json(*right) + "}"@,
        ConfigExpr::Prefix { operator, arg } => "{\"$expr\":\"prefix\",\"operator\":"@ + json_string(
            qualified_text(operator.view()),
        ) + ",\"arg\":"@ + expr_json(*arg) + "}"@,
        ConfigExpr::Postfix { operator, arg } => "{\"$expr\":\"postfix\",\"operator\":"@
            + json_string(qualified_text(operator.view())) + ",\"arg\":"@ + expr_json(*arg) + "}"@,
        ConfigExpr::Quote { mode, expr } => "{\"$expr\":\"quote\",\"mode\":"@ + json_string(mode@)
            + ",\"expr\":"@ + expr_json(*expr) + "}"@,
        ConfigExpr::Annotated { expr, annotations } => "{\"$expr\":\"annotated\",\"expr\":"@
            + expr_json(*expr) + ",\"annotations\":{"@ + annotations_json(annotations@) + "}}"@,
        ConfigExpr::Extension { tag, payload } => "{\"$expr\":\"extension\",\"tag\":"@ + json_string(
            qualified_text(tag.view()),
        ) + ",\"payload\":"@ + expr_json(*payload) + "}"@,
    }
}

/// Comma-separated JSON of expressions.
pub open spec fn exprs_json(items: Seq<ConfigExpr>) -> Seq<char>
    decreases items,
{
    if items.len() == 0 {
        Seq::empty()
    } else if items.len() == 1 {
        expr_json(items[0])
    } else {
        exprs_json(items.drop_last()) + ","@ + expr_json(items.last())
    }
}

/// Comma-separated `"key":value` of map entries.
pub open spec fn entries_json(entries: Seq<MapEntry>) -> Seq<char>
    decreases entries,
{
    if entries.len() == 0 {
        Seq::empty()
    } else {
        let e = entries.last();
        let item = json_string(key_label(e)) + ":"@ + expr_json(e.value);
        if entries.len() == 1 {
            item
        } else {
            entries_json(entries.drop_last()) + ","@ + item
        }
    }
}

/// Comma-separated `"key":value` of annotations.
pub open spec fn annotations_json(anns: Seq<Annotation>) -> Seq<char>
    decreases anns,
{
    if anns.len() == 0 {
        Seq::empty()
    } else {
        let a = anns.last();
        let item = json_string(qualified_text(a.key.view())) + ":"@ + expr_json(a.value);
        if anns.len() == 1 {
            item
        } else {
            annotations_json(anns.drop_last()) + ","@ + item
        }
    }
}

/// Appends a map key's label.
fn key_label_exec(e: &MapEntry) -> (r: String)
    ensures
        r@ == key_label(*e),
{
    match &e.key {
        ConfigExpr::Symbol(s) => s.as_qualified_str(),
        ConfigExpr::Local(s) => s.as_qualified_str(),
        ConfigExpr::Str(v) => v.clone(),
        ConfigExpr::Bool(b) => if *b {
            owned("true")
        } else {
            owned("false")
        },
        ConfigExpr::Number { canonical, .. } => canonical.clone(),
        _ => e.key_debug.clone(),
    }
}

/// Appends a literal.
fn push_lit(output: &mut String, lit: &str)
    ensures
        final(output)@ == old(output)@ + lit@,
{
    output.append(lit);
}

/// Appends a JSON array of expressions.
pub fn push_expr_array_json(output: &mut String, values: &Vec<ConfigExpr>)
    ensures
        final(output)@ == old(output)@ + "["@ + exprs_json(values@) + "]"@,
    decreases values@,
{
    proof {
        reveal_strlit("[");
        reveal_strlit("]");
    }
    let ghost start = output@;
    push_char(output, '[');
    let mut i: usize = 0;
    while i < values.len()
        invariant
            i <= values@.len(),
            output@ == start + "["@ + exprs_json(values@.take(i as int)),
        decreases values@.len() - i,
    {
        let ghost before = output@;
        comma(output, i);
        proof {
            assert(decreases_to!(values@ => values@[i as int]));
        }
        push_expr_json(output, &values[i]);
        proof {
            reveal_strlit(",");
            reveal_strlit("[");
            let t = values@.take(i + 1);
            assert(t.drop_last() =~= values@.take(i as int));
            assert(t.last() == values@[i as int]);
            if i == 0 {
                assert(output@ =~= start + "["@ + exprs_json(t));
            } else {
                assert(exprs_json(t) == exprs_json(t.drop_last()) + ","@ + expr_json(t.last()));
                assert(before.push(',') =~= before + ","@);
                assert(output@ =~= start + "["@ + exprs_json(t));
            }
        }
        i = i + 1;
    }
    push_char(output, ']');
    assert(values@.take(values@.len() as int) =~= values@);
    assert(output@ =~= start + "["@ + exprs_json(values@) + "]"@);
}

/// Appends a JSON object of map entries keyed by their key labels.
pub fn push_entries_json(output: &mut String, entries: &Vec<MapEntry>)
    ensures
        final(output)@ == old(output)@ + "{"@ + entries_json(entries@) + "}"@,
    decreases entries@,
{
    proof {
        reveal_strlit("{");
        reveal_strlit("}");
    }
    let ghost start = output@;
    push_char(output, '{');
    let mut i: usize = 0;
    while i < entries.len()
        invariant
            i <= entries@.len(),
            output@ == start + "{"@ + entries_json(entries@.take(i as int)),
        decreases entries@.len() - i,
    {
        let ghost before = output@;
        comma(output, i);
        let ghost after_comma = output@;
        push_json_string(output, key_label_exec(&entries[i]).as_str());
        push_char(output, ':');
        proof {
            assert(decreases_to!(entries@ => entries@[i as int]));
            assert(decreases_to!(entries@[i as int] => entries@[i as int].value));
        }
        push_expr_json(output, &entries[i].value);
        proof {
            reveal_strlit(",");
            reveal_strlit("{");
            reveal_strlit(":");
            let t = entries@.take(i + 1);
            let e = entries@[i as int];
            let item = json_string(key_label(e)) + ":"@ + expr_json(e.value);
            assert(t.drop_last() =~= entries@.take(i as int));
            assert(t.last() == e);
            assert(output@ =~= after_comma + item);
            if i == 0 {
                assert(output@ =~= start + "{"@ + entries_json(t));
            } else {
                assert(before.push(',') =~= before + ","@);
                assert(output@ =~= start + "{"@ + entries_json(t));
            }
        }
        i = i + 1;
    }
    push_char(output, '}');
    proof {
        reveal_strlit("{");
        reveal_strlit("}");
        assert(entries@.take(entries@.len() as int) =~= entries@);
        assert(output@ =~= start + "{"@ + entries_json(entries@) + "}"@);
    }
}

/// Appends comma-separated annotations keyed by their symbols.
pub fn push_annotations_json(output: &mut String, annotations: &Vec<Annotation>)
    ensures
        final(output)@ == old(output)@ + annotations_json(annotations@),
    decreases annotations@,
{
    let ghost mid = output@;
    let mut i: usize = 0;
    proof {
        assert(mid + annotations_json(annotations@.take(0)) =~= mid);
    }
    while i < annotations.len()
        invariant
            i <= annotations@.len(),
            output@ == mid + annotations_json(annotations@.take(i as int)),
        decreases annotations@.len() - i,
    {
        let ghost before = output@;
        comma(output, i);
        let ghost after_comma = output@;
        push_json_string(output, annotations[i].key.as_qualified_str().as_str());
        push_char(output, ':');
        proof {
            assert(decreases_to!(annotations@ => annotations@[i as int]));
            assert(decreases_to!(annotations@[i as int] => annotations@[i as int].value));
        }
        push_expr_json(output, &annotations[i].value);
        proof {
            reveal_strlit(",");
            reveal_strlit(":");
            let t = annotations@.take(i + 1);
            let a = annotations@[i as int];
            let item = json_string(qualified_text(a.key.view())) + ":"@ + expr_json(a.value);
            assert(t.drop_last() =~= annotations@.take(i as int));
            assert(t.last() == a);
            assert(output@ =~= after_comma + item);
            if i == 0 {
                assert(output@ =~= mid + annotations_json(t));
            } else {
                assert(before.push(',') =~= before + ","@);
                assert(output@ =~= mid + annotations_json(t));
            }
        }
        i = i + 1;
    }
    assert(annotations@.take(annotations@.len() as int) =~= annotations@);
}

/// Appends the stable JSON of a configuration expression: atoms as JSON
/// values, sequences as arrays, maps as objects keyed by their key labels,
/// and operator forms as `{"$expr": ...}` objects.
#[verifier::rlimit(50)]
pub fn push_expr_json(output: &mut String, expr: &ConfigExpr)
    ensures
        final(output)@ == old(output)@ + expr_json(*expr),
    decreases *expr,
{
    let ghost start = output@;
    match expr {
        ConfigExpr::Nil => push_lit(output, "null"),
        ConfigExpr::Bool(b) => if *b {
            push_lit(output, "true")
        } else {
            push_lit(output, "false")
        },
        ConfigExpr::Number { canonical, .. } => {
            if is_json_number(canonical.as_str()) {
                push_lit(output, canonical.as_str());
            } else {
                push_json_string(output, canonical.as_str());
            }
        },
        ConfigExpr::Symbol(s) => push_json_string(output, s.as_qualified_str().as_str()),
        ConfigExpr::Local(s) => push_json_string(output, s.as_qualified_str().as_str()),
        ConfigExpr::Str(v) => push_json_string(output, v.as_str()),
        ConfigExpr::Bytes(b) => push_json_string(output, hex_bytes(b.as_slice()).as_str()),
        ConfigExpr::List(items) => push_expr_array_json(output, items),
        ConfigExpr::Vector(items) => push_expr_array_json(output, items),
        ConfigExpr::SetOf(items) => push_expr_array_json(output, items),
        ConfigExpr::Block(items) => push_expr_array_json(output, items),
        ConfigExpr::MapOf(entries) => {
            push_entries_json(output, entries);
        },
        ConfigExpr::Call { operator, args } => {
            push_lit(output, "{\"$expr\":\"call\",\"operator\":");
            push_expr_json(output, operator);
            push_lit(output, ",\"args\":");
            push_expr_array_json(output, args);
            push_lit(output, "}");
            assert(output@ =~= start + expr_json(*expr));
        },
        ConfigExpr::Infix { operator, left, right } => {
            push_lit(output, "{\"$expr\":\"infix\",\"operator\":");
            push_json_string(output, operator.as_qualified_str().as_str());
            push_lit(output, ",\"left\":");
            push_expr_json(output, left);
            push_lit(output, ",\"right\":");
            push_expr_json(output, right);
            push_lit(output, "}");
            assert(output@ =~= start + expr_json(*expr));
        },
        ConfigExpr::Prefix { operator, arg } => {
            push_lit(output, "{\"$expr\":\"prefix\",\"operator\":");
            push_json_string(output, operator.as_qualified_str().as_str());
            push_lit(output, ",\"arg\":");
            push_expr_json(output, arg);
            push_lit(output, "}");
            assert(output@ =~= start + expr_json(*expr));
        },
        ConfigExpr::Postfix { operator, arg } => {
            push_lit(output, "{\"$expr\":\"postfix\",\"operator\":");
            push_json_string(output, operator.as_qualified_str().as_str());
            push_lit(output, ",\"arg\":");
            push_expr_json(output, arg);
            push_lit(output, "}");
            assert(output@ =~= start + expr_json(*expr));
        },
        ConfigExpr::Quote { mode, expr: inner } => {
            push_lit(output, "{\"$expr\":\"quote\",\"mode\":");
            push_json_string(output, mode.as_str());
            push_lit(output, ",\"expr\":");
            push_expr_json(output, inner);
            push_lit(output, "}");
            assert(output@ =~= start + expr_json(*expr));
        },
        ConfigExpr::Annotated { expr: inner, annotations } => {
            push_lit(output, "{\"$expr\":\"annotated\",\"expr\":");
            push_expr_json(output, inner);
            push_lit(output, ",\"annotations\":{");
            push_annotations_json(output, annotations);
            push_lit(output, "}}");
            assert(output@ =~= start + expr_json(*expr));
        },
        ConfigExpr::Extension { tag, payload } => {
            push_lit(output, "{\"$expr\":\"extension\",\"tag\":");
            push_json_string(output, tag.as_qualified_str().as_str());
            push_lit(output, ",\"payload\":");
            push_expr_json(output, payload);
            push_lit(output, "}");
            assert(output@ =~= start + expr_json(*expr));
        },
    }
    assert(output@ =~= start + expr_json(*expr));
}

// ---------------------------------------------------------------------------
// Secret redaction
// ---------------------------------------------------------------------------

/// ASCII lower case of a character.
pub open spec fn lower_char(c: char) -> char {
    if 'A' <= c && c <= 'Z' {
        ((c as u8) + 32) as char
    } else {
        c
    }
}

/// ASCII lower case of a string.
pub open spec fn ascii_lower(s: Seq<char>) -> Seq<char> {
    s.map_values(|c: char| lower_char(c))
}

/// Whether a key's name marks it as secret: `password`, `token`, `secret`
/// or `api_key` in any ASCII case, or a name ending in `_password`,
/// `_token` or `_secret`.
pub open spec fn suggests_secret(key: Seq<char>) -> bool {
    let k = ascii_lower(key);
    k == "password"@ || k == "token"@ || k == "secret"@ || k == "api_key"@ || crate::text::has_suffix(
        k,
        "_password"@,
    ) || crate::text::has_suffix(k, "_token"@) || crate::text::has_suffix(k, "_secret"@)
}

/// Whether a key's name marks it as secret.
pub fn key_suggests_secret(key: &str) -> (r: bool)
    ensures
        r == suggests_secret(key@),
{
    let chars = chars_of(key);
    let mut lower: Vec<char> = Vec::new();
    let mut i: usize = 0;
    while i < chars.len()
        invariant
            i <= chars@.len(),
            chars@ == key@,
            lower@ == ascii_lower(chars@.take(i as int)),
        decreases chars@.len() - i,
    {
        let c = chars[i];
        let l = if 'A' <= c && c <= 'Z' {
            ((c as u8) + 32) as char
        } else {
            c
        };
        lower.push(l);
        proof {
            assert(lower@ =~= ascii_lower(chars@.take(i + 1)));
        }
        i = i + 1;
    }
    assert(chars@.take(chars@.len() as int) =~= chars@);
    let eq = |lit: &str| -> (b: bool)
        ensures
            b == (lower@ == lit@),
        { crate::text::chars_eq(&lower, &chars_of(lit)) };
    let ends = |lit: &str| -> (b: bool)
        ensures
            b == crate::text::has_suffix(lower@, lit@),
        { crate::text::ends_with_chars(&lower, &chars_of(lit)) };
    eq("password") || eq("token") || eq("secret") || eq("api_key") || ends("_password") || ends("_token")
        || ends("_secret")
}

proof fn lemma_ends_with(p: Seq<char>, s: Seq<char>)
    ensures
        crate::text::has_suffix(p + s, s),
{
    assert((p + s).skip((p + s).len() - s.len()) =~= s);
}

proof fn lemma_lower_of_lower(s: Seq<char>)
    requires
        forall|i: int| 0 <= i < s.len() ==> !('A' <= #[trigger] s[i] && s[i] <= 'Z'),
    ensures
        ascii_lower(s) == s,
{
    assert(ascii_lower(s) =~= s);
}

/// A key named as a credential is treated as secret: any name ending in
/// `_token`, `_password` or `_secret`, and the names `password`, `token`,
/// `secret` and `api_key`, whatever comes before the ending and whether
/// the marking part is in lower or upper case.
pub proof fn law_credential_names_are_secret(prefix: Seq<char>)
    ensures
        suggests_secret(prefix + "_token"@),
        suggests_secret(prefix + "_password"@),
        suggests_secret(prefix + "_secret"@),
        suggests_secret(prefix + "_TOKEN"@),
        suggests_secret(prefix + "_PASSWORD"@),
        suggests_secret(prefix + "_SECRET"@),
        suggests_secret("password"@),
        suggests_secret("token"@),
        suggests_secret("secret"@),
        suggests_secret("api_key"@),
        suggests_secret("PASSWORD"@),
        suggests_secret("TOKEN"@),
        suggests_secret("SECRET"@),
        suggests_secret("API_KEY"@),
{
    reveal_strlit("_token");
    reveal_strlit("_password");
    reveal_strlit("_secret");
    reveal_strlit("_TOKEN");
    reveal_strlit("_PASSWORD");
    reveal_strlit("_SECRET");
    reveal_strlit("password");
    reveal_strlit("token");
    reveal_strlit("secret");
    reveal_strlit("api_key");
    reveal_strlit("PASSWORD");
    reveal_strlit("TOKEN");
    reveal_strlit("SECRET");
    reveal_strlit("API_KEY");
    let lp = ascii_lower(prefix);
    assert forall|w: Seq<char>| #[trigger] ascii_lower(prefix + w) == lp + ascii_lower(w) by {
        assert(ascii_lower(prefix + w) =~= lp + ascii_lower(w));
    }
    assert(ascii_lower("_TOKEN"@) =~= "_token"@);
    assert(ascii_lower("_PASSWORD"@) =~= "_password"@);
    assert(ascii_lower("_SECRET"@) =~= "_secret"@);
    assert(ascii_lower("PASSWORD"@) =~= "password"@);
    assert(ascii_lower("TOKEN"@) =~= "token"@);
    assert(ascii_lower("SECRET"@) =~= "secret"@);
    assert(ascii_lower("API_KEY"@) =~= "api_key"@);
    lemma_lower_of_lower("_token"@);
    lemma_lower_of_lower("_password"@);
    lemma_lower_of_lower("_secret"@);
    lemma_lower_of_lower("password"@);
    lemma_lower_of_lower("token"@);
    lemma_lower_of_lower("secret"@);
    lemma_lower_of_lower("api_key"@);
    lemma_ends_with(lp, "_token"@);
    lemma_ends_with(lp, "_password"@);
    lemma_ends_with(lp, "_secret"@);
}

/// A config field declared secret by its library.
#[derive(Clone, Debug, PartialEq, Eq)]
pub struct ConfigSecretField {
    /// Library that owns the field.
    pub lib: Symbol,
    /// Field key.
    pub key: String,
}

/// Whether a key of a library's table is secret: declared so, or named so.
pub open spec fn is_secret_key(lib: SymbolView, key: Seq<char>, secrets: Seq<ConfigSecretField>) -> bool {
    (exists|i: int| 0 <= i < secrets.len() && #[trigger] secrets[i].lib.view() == lib && secrets[i].key@ == key)
        || suggests_secret(key)
}

/// A key is secret for a library when the library declares it secret, or
/// when its name marks it as a credential; its value then renders as
/// `"[redacted]"` in place of what it holds.
pub proof fn law_secret_values_are_redacted(
    lib: SymbolView,
    e: MapEntry,
    secrets: Seq<ConfigSecretField>,
    i: int,
)
    requires
        (0 <= i < secrets.len() && secrets[i].lib.view() == lib && secrets[i].key@ == key_label(e))
            || suggests_secret(key_label(e)),
    ensures
        is_secret_key(lib, key_label(e), secrets),
        redacted_item(lib, e, secrets) == json_string(key_label(e)) + ":"@ + json_string("[redacted]"@),
{
}

/// Whether a key of a library's table is secret.
pub fn secret_key(lib: &Symbol, key: &str, secrets: &Vec<ConfigSecretField>) -> (r: bool)
    ensures
        r == is_secret_key(lib.view(), key@, secrets@),
{
    let mut i: usize = 0;
    while i < secrets.len()
        invariant
            i <= secrets@.len(),
            forall|j: int| 0 <= j < i ==> !(#[trigger] secrets@[j].lib.view() == lib.view() && secrets@[j].key@ == key@),
        decreases secrets@.len() - i,
    {
        if secrets[i].lib.same(lib) && str_eq(secrets[i].key.as_str(), key) {
            return true;
        }
        i = i + 1;
    }
    key_suggests_secret(key)
}

/// A copy of a configuration expression; it renders the same.
pub fn copy_expr(e: &ConfigExpr) -> (r: ConfigExpr)
    ensures
        expr_json(r) == expr_json(*e),
        forall|d: Seq<char>| #[trigger] label_of(r, d) == label_of(*e, d),
    decreases *e,
{
    match e {
        ConfigExpr::Nil => ConfigExpr::Nil,
        ConfigExpr::Bool(b) => ConfigExpr::Bool(*b),
        ConfigExpr::Number { domain, canonical } => ConfigExpr::Number {
            domain: domain.copy(),
            canonical: canonical.clone(),
        },
        ConfigExpr::Symbol(s) => ConfigExpr::Symbol(s.copy()),
        ConfigExpr::Local(s) => ConfigExpr::Local(s.copy()),
        ConfigExpr::Str(v) => ConfigExpr::Str(v.clone()),
        ConfigExpr::Bytes(b) => ConfigExpr::Bytes(crate::git_registry::copy_bytes(b)),
        ConfigExpr::List(items) => ConfigExpr::List(copy_exprs(items)),
        ConfigExpr::Vector(items) => ConfigExpr::Vector(copy_exprs(items)),
        ConfigExpr::SetOf(items) => ConfigExpr::SetOf(copy_exprs(items)),
        ConfigExpr::Block(items) => ConfigExpr::Block(copy_exprs(items)),
        ConfigExpr::MapOf(entries) => ConfigExpr::MapOf(copy_entries(entries)),
        ConfigExpr::Call { operator, args } => ConfigExpr::Call {
            operator: Box::new(copy_expr(operator)),
            args: copy_exprs(args),
        },
        ConfigExpr::Infix { operator, left, right } => ConfigExpr::Infix {
            operator: operator.copy(),
            left: Box::new(copy_expr(left)),
            right: Box::new(copy_expr(right)),
        },
        ConfigExpr::Prefix { operator, arg } => ConfigExpr::Prefix {
            operator: operator.copy(),
            arg: Box::new(copy_expr(arg)),
        },
        ConfigExpr::Postfix { operator, arg } => ConfigExpr::Postfix {
            operator: operator.copy(),
            arg: Box::new(copy_expr(arg)),
        },
        ConfigExpr::Quote { mode, expr } => ConfigExpr::Quote {
            mode: mode.clone(),
            expr: Box::new(copy_expr(expr)),
        },
        ConfigExpr::Annotated { expr, annotations } => ConfigExpr::Annotated {
            expr: Box::new(copy_expr(expr)),
            annotations: copy_annotations(annotations),
        },
        ConfigExpr::Extension { tag, payload } => ConfigExpr::Extension {
            tag: tag.copy(),
            payload: Box::new(copy_expr(payload)),
        },
    }
}

/// Copies of expressions; they render the same.
pub fn copy_exprs(items: &Vec<ConfigExpr>) -> (r: Vec<ConfigExpr>)
    ensures
        exprs_json(r@) == exprs_json(items@),
    decreases items@,
{
    let mut out: Vec<ConfigExpr> = Vec::new();
    let mut i: usize = 0;
    while i < items.len()
        invariant
            i <= items@.len(),
            out@.len() == i,
            exprs_json(out@) == exprs_json(items@.take(i as int)),
        decreases items@.len() - i,
    {
        proof {
            assert(decreases_to!(items@ => items@[i as int]));
        }
        let c = copy_expr(&items[i]);
        let ghost prev = out@;
        out.push(c);
        proof {
            assert(out@.drop_last() =~= prev);
            assert(items@.take(i + 1).drop_last() =~= items@.take(i as int));
            if i == 0 {
                assert(exprs_json(out@) == expr_json(out@[0]));
            }
        }
        i = i + 1;
    }
    assert(items@.take(items@.len() as int) =~= items@);
    out
}

/// Copies of map entries; they render the same.
pub fn copy_entries(entries: &Vec<MapEntry>) -> (r: Vec<MapEntry>)
    ensures
        entries_json(r@) == entries_json(entries@),
    decreases entries@,
{
    let mut out: Vec<MapEntry> = Vec::new();
    let mut i: usize = 0;
    while i < entries.len()
        invariant
            i <= entries@.len(),
            out@.len() == i,
            entries_json(out@) == entries_json(entries@.take(i as int)),
        decreases entries@.len() - i,
    {
        proof {
            assert(decreases_to!(entries@ => entries@[i as int]));
            assert(decreases_to!(entries@[i as int] => entries@[i as int].key));
            assert(decreases_to!(entries@[i as int] => entries@[i as int].value));
        }
        let e = &entries[i];
        let c = MapEntry {
            key: copy_expr(&e.key),
            key_debug: e.key_debug.clone(),
            value: copy_expr(&e.value),
        };
        assert(key_label(c) == key_label(*e));
        let ghost prev = out@;
        out.push(c);
        proof {
            assert(out@.drop_last() =~= prev);
            assert(entries@.take(i + 1).drop_last() =~= entries@.take(i as int));
        }
        i = i + 1;
    }
    assert(entries@.take(entries@.len() as int) =~= entries@);
    out
}

/// Copies of annotations; they render the same.
pub fn copy_annotations(anns: &Vec<Annotation>) -> (r: Vec<Annotation>)
    ensures
        annotations_json(r@) == annotations_json(anns@),
    decreases anns@,
{
    let mut out: Vec<Annotation> = Vec::new();
    let mut i: usize = 0;
    while i < anns.len()
        invariant
            i <= anns@.len(),
            out@.len() == i,
            annotations_json(out@) == annotations_json(anns@.take(i as int)),
        decreases anns@.len() - i,
    {
        proof {
            assert(decreases_to!(anns@ => anns@[i as int]));
            assert(decreases_to!(anns@[i as int] => anns@[i as int].value));
        }
        let a = &anns[i];
        let c = Annotation { key: a.key.copy(), value: copy_expr(&a.value) };
        let ghost prev = out@;
        out.push(c);
        proof {
            assert(out@.drop_last() =~= prev);
            assert(anns@.take(i + 1).drop_last() =~= anns@.take(i as int));
        }
        i = i + 1;
    }
    assert(anns@.take(anns@.len() as int) =~= anns@);
    out
}

/// JSON of one entry of a library's table with a secret value redacted.
pub open spec fn redacted_item(lib: SymbolView, e: MapEntry, secrets: Seq<ConfigSecretField>) -> Seq<char> {
    json_string(key_label(e)) + ":"@ + (if is_secret_key(lib, key_label(e), secrets) {
        json_string("[redacted]"@)
    } else {
        expr_json(e.value)
    })
}

/// JSON of a library's table entries with secret values redacted.
pub open spec fn redacted_entries_json(
    lib: SymbolView,
    entries: Seq<MapEntry>,
    secrets: Seq<ConfigSecretField>,
) -> Seq<char>
    decreases entries.len(),
{
    if entries.len() == 0 {
        Seq::empty()
    } else if entries.len() == 1 {
        redacted_item(lib, entries[0], secrets)
    } else {
        redacted_entries_json(lib, entries.drop_last(), secrets) + ","@ + redacted_item(
            lib,
            entries.last(),
            secrets,
        )
    }
}

/// Replaces the values of a table's secret keys with `"[redacted]"`; an
/// expression that is not a table is copied as it is.
pub fn redact_table_expr(lib: &Symbol, expr: &ConfigExpr, secrets: &Vec<ConfigSecretField>) -> (r:
    ConfigExpr)
    ensures
        expr matches ConfigExpr::MapOf(entries) ==> (r matches ConfigExpr::MapOf(out) && entries_json(
            out@,
        ) == redacted_entries_json(lib.view(), entries@, secrets@)),
        !(expr is MapOf) ==> expr_json(r) == expr_json(*expr),
{
    match expr {
        ConfigExpr::MapOf(entries) => {
            let mut out: Vec<MapEntry> = Vec::new();
            let mut i: usize = 0;
            while i < entries.len()
                invariant
                    i <= entries@.len(),
                    out@.len() == i,
                    entries_json(out@) == redacted_entries_json(
                        lib.view(),
                        entries@.take(i as int),
                        secrets@,
                    ),
                decreases entries@.len() - i,
            {
                let e = &entries[i];
                let label = key_label_exec(e);
                let value = if secret_key(lib, label.as_str(), secrets) {
                    ConfigExpr::Str(owned("[redacted]"))
                } else {
                    copy_expr(&e.value)
                };
                let c = MapEntry { key: copy_expr(&e.key), key_debug: e.key_debug.clone(), value };
                assert(key_label(c) == key_label(*e));
                let ghost prev = out@;
                out.push(c);
                proof {
                    assert(out@.drop_last() =~= prev);
                    assert(entries@.take(i + 1).drop_last() =~= entries@.take(i as int));
                    assert(entries@.take(i + 1).last() == *e);
                    assert(json_string(key_label(c)) + ":"@ + expr_json(c.value) == redacted_item(
                        lib.view(),
                        *e,
                        secrets@,
                    ));
                }
                i = i + 1;
            }
            assert(entries@.take(entries@.len() as int) =~= entries@);
            ConfigExpr::MapOf(out)
        },
        _ => copy_expr(expr),
    }
}

} // verus!
