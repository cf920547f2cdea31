//! The host side of a number domain exported across the native ABI. A
//! guest number domain is untrusted code: every literal it hands back is
//! checked against the domain it was asked for, and its canonical text
//! must read back to itself through the guest's own parser before the host
//! accepts it. The guest calls themselves are made by the caller; the
//! decisions between them are here.
use vstd::prelude::*;
use vstd::string::*;

use crate::symbol::{qualified_symbol, qualified_text, Symbol, SymbolView};
use crate::text::{concat2, owned};

verus! {

broadcast use vstd::string::group_string_axioms;

/// A number literal: its domain and its canonical text.
#[derive(Clone, Debug, PartialEq, Eq)]
pub struct NumberLiteral {
    pub domain: Symbol,
    pub canonical: String,
}

/// Mathematical form of a number literal.
pub struct LiteralView {
    pub domain: SymbolView,
    pub canonical: Seq<char>,
}

impl NumberLiteral {
    pub open spec fn view(&self) -> LiteralView {
        LiteralView { domain: self.domain.view(), canonical: self.canonical@ }
    }

    pub fn copy(&self) -> (r: Self)
        ensures
            r.view() == self.view(),
    {
        NumberLiteral { domain: self.domain.copy(), canonical: self.canonical.clone() }
    }
}

/// What a guest operation on a number domain answered, decoded from its
/// reply frame.
#[derive(Clone, Debug, PartialEq, Eq)]
pub enum NumberReply {
    Nil,
    Number(NumberLiteral),
    /// Any other expression, carried by its debug rendering.
    Other(String),
}

/// The rendering of a string by its `Debug` format.
pub uninterp spec fn str_debug_text(s: Seq<char>) -> Seq<char>;

/// `format!("{:?}", s)`: the string quoted, with `Debug` escapes.
#[verifier::external_body]
fn debug_quoted(s: &str) -> (r: String)
    ensures
        r@ == str_debug_text(s@),
{
    format!("{:?}", s)
}

/// The error for a literal labeled with another domain.
pub open spec fn foreign_literal_msg(domain: SymbolView, literal: LiteralView) -> Seq<char> {
    "native number-domain "@ + qualified_text(domain) + " returned a literal in foreign domain "@
        + qualified_text(literal.domain)
}

/// The error for a literal whose canonical text does not read back to itself.
pub open spec fn noncanonical_msg(domain: SymbolView, literal: LiteralView) -> Seq<char> {
    "native number-domain "@ + qualified_text(domain) + " returned a non-canonical literal "@
        + str_debug_text(literal.canonical)
}

/// The error for an operation that answered with something other than a
/// number or nil.
pub open spec fn non_number_msg(domain: SymbolView, op: Seq<char>, debug: Seq<char>) -> Seq<char> {
    "native number-domain "@ + qualified_text(domain) + " "@ + op + " returned non-number "@ + debug
}

/// Whether a re-parse reply gives back exactly `literal` in `domain`.
pub open spec fn reads_back(domain: SymbolView, literal: LiteralView, reparsed: NumberReply) -> bool {
    match reparsed {
        NumberReply::Number(n) => n.domain.view() == domain && n.canonical@ == literal.canonical,
        _ => false,
    }
}

/// The next step after the guest answers `parse-literal` for a text.
#[derive(Debug, PartialEq, Eq)]
pub enum ParseLiteralStep {
    /// The parse is over, with this outcome.
    Done(Result<Option<NumberLiteral>, String>),
    /// The guest must parse this literal's canonical text again; the answer
    /// goes to `accept_number`.
    Recheck(NumberLiteral),
}

/// Host-side proxy for a number domain a native guest exports.
#[derive(Clone, Debug, PartialEq, Eq)]
pub struct NativeAbiNumberDomain {
    pub symbol: Symbol,
}

impl NativeAbiNumberDomain {
    pub fn new(symbol: Symbol) -> (r: Self)
        ensures
            r.symbol.view() == symbol.view(),
    {
        NativeAbiNumberDomain { symbol }
    }

    /// The guest operation name for `op` on this domain: `SYMBOL/op`.
    pub fn op_name(&self, op: &str) -> (r: String)
        ensures
            r@ == qualified_text(self.symbol.view()) + "/"@ + op@,
    {
        let mut r = self.symbol.as_qualified_str();
        r.append("/");
        r.append(op);
        r
    }

    /// How the proxy displays itself.
    pub fn display(&self) -> (r: String)
        ensures
            r@ == "#<native-number-domain "@ + qualified_text(self.symbol.view()) + ">"@,
    {
        let mut r = owned("#<native-number-domain ");
        r.append(self.symbol.as_qualified_str().as_str());
        r.append(">");
        r
    }

    fn message(&self, middle: &str, tail: &str) -> (r: String)
        ensures
            r@ == "native number-domain "@ + qualified_text(self.symbol.view()) + middle@ + tail@,
    {
        let mut m = concat2("native number-domain ", self.symbol.as_qualified_str().as_str());
        m.append(middle);
        m.append(tail);
        m
    }

    fn non_number(&self, op: &str, debug: &String) -> (r: String)
        ensures
            r@ == non_number_msg(self.symbol.view(), op@, debug@),
    {
        let mut m = concat2("native number-domain ", self.symbol.as_qualified_str().as_str());
        m.append(" ");
        m.append(op);
        m.append(" returned non-number ");
        m.append(debug.as_str());
        m
    }

    /// Accepts a literal the guest returned, given the guest's answer to
    /// parsing the literal's canonical text again: the literal must be in
    /// this domain, and the answer must be the same literal.
    pub fn accept_number(&self, number: NumberLiteral, reparsed: NumberReply) -> (r: Result<
        NumberLiteral,
        String,
    >)
        ensures
            number.domain.view() != self.symbol.view() ==> (r matches Err(m) && m@
                == foreign_literal_msg(self.symbol.view(), number.view())),
            number.domain.view() == self.symbol.view() && reads_back(
                self.symbol.view(),
                number.view(),
                reparsed,
            ) ==> (r matches Ok(n) && n.view() == number.view()),
            number.domain.view() == self.symbol.view() && !reads_back(
                self.symbol.view(),
                number.view(),
                reparsed,
            ) ==> (r matches Err(m) && m@ == noncanonical_msg(self.symbol.view(), number.view())),
    {
        if !number.domain.same(&self.symbol) {
            let text = number.domain.as_qualified_str();
            return Err(self.message(" returned a literal in foreign domain ", text.as_str()));
        }
        let back = match &reparsed {
            NumberReply::Number(n) => n.domain.same(&self.symbol) && n.canonical == number.canonical,
            _ => false,
        };
        if back {
            Ok(number)
        } else {
            let text = debug_quoted(number.canonical.as_str());
            Err(self.message(" returned a non-canonical literal ", text.as_str()))
        }
    }

    /// The step after the guest answers `parse-literal`: nil parses to
    /// nothing, a literal of this domain is checked again, and anything else
    /// is an error.
    pub fn parse_literal_step(&self, reply: NumberReply) -> (r: ParseLiteralStep)
        ensures
            reply is Nil ==> r == ParseLiteralStep::Done(Ok(None)),
            reply matches NumberReply::Number(n) ==> (n.domain.view() == self.symbol.view() ==> (
            r matches ParseLiteralStep::Recheck(k) && k.view() == n.view())) && (n.domain.view()
                != self.symbol.view() ==> (r matches ParseLiteralStep::Done(Err(m)) && m@
                == foreign_literal_msg(self.symbol.view(), n.view()))),
            reply is Other ==> (r matches ParseLiteralStep::Done(Err(m)) && m@ == non_number_msg(
                self.symbol.view(),
                "parse-literal"@,
                reply->Other_0@,
            )),
            !(r matches ParseLiteralStep::Done(Ok(Some(_)))),
    {
        match reply {
            NumberReply::Nil => ParseLiteralStep::Done(Ok(None)),
            NumberReply::Number(n) => {
                if n.domain.same(&self.symbol) {
                    ParseLiteralStep::Recheck(n)
                } else {
                    let text = n.domain.as_qualified_str();
                    ParseLiteralStep::Done(
                        Err(self.message(" returned a literal in foreign domain ", text.as_str())),
                    )
                }
            },
            NumberReply::Other(d) => ParseLiteralStep::Done(Err(self.non_number("parse-literal", &d))),
        }
    }

    /// The outcome after the guest answers `encode-literal`.
    pub fn encode_literal_outcome(&self, reply: NumberReply) -> (r: Result<
        Option<NumberLiteral>,
        String,
    >)
        ensures
            reply is Nil ==> r == Ok::<Option<NumberLiteral>, String>(None),
            reply matches NumberReply::Number(n) ==> (r matches Ok(Some(k)) && k.view() == n.view()),
            reply is Other ==> (r matches Err(m) && m@ == non_number_msg(
                self.symbol.view(),
                "encode-literal"@,
                reply->Other_0@,
            )),
    {
        match reply {
            NumberReply::Nil => Ok(None),
            NumberReply::Number(n) => Ok(Some(n)),
            NumberReply::Other(d) => Err(self.non_number("encode-literal", &d)),
        }
    }
}

/// The domain of a binary operation's operands, which must match.
pub fn binary_op_domain(op: &str, left: &NumberLiteral, right: &NumberLiteral) -> (r: Result<
    Symbol,
    String,
>)
    ensures
        left.domain.view() == right.domain.view() ==> (r matches Ok(d) && d.view()
            == left.domain.view()),
        left.domain.view() != right.domain.view() ==> (r matches Err(m) && m@ == "native number op "@
            + op@ + " requires matching domains, got "@ + qualified_text(left.domain.view())
            + " and "@ + qualified_text(right.domain.view())),
{
    if left.domain.same(&right.domain) {
        Ok(left.domain.copy())
    } else {
        let mut m = concat2("native number op ", op);
        m.append(" requires matching domains, got ");
        m.append(left.domain.as_qualified_str().as_str());
        m.append(" and ");
        m.append(right.domain.as_qualified_str().as_str());
        Err(m)
    }
}

/// The domain of a reduction's operands: there must be at least one, and
/// all must share the first one's domain.
pub fn reduction_op_domain(op: &str, operands: &Vec<NumberLiteral>) -> (r: Result<Symbol, String>)
    ensures
        operands.len() == 0 ==> (r matches Err(m) && m@ == "native number op "@ + op@
            + " requires at least one operand"@),
        operands.len() > 0 && (forall|i: int|
            0 <= i < operands.len() ==> (#[trigger] operands@[i]).domain.view()
                == operands@[0].domain.view()) ==> (r matches Ok(d) && d.view()
            == operands@[0].domain.view()),
        operands.len() > 0 && (exists|i: int|
            0 <= i < operands.len() && (#[trigger] operands@[i]).domain.view()
                != operands@[0].domain.view()) ==> (r matches Err(m) && m@ == "native number op "@
            + op@ + " requires matching operand domains"@),
{
    if operands.len() == 0 {
        let mut m = concat2("native number op ", op);
        m.append(" requires at least one operand");
        return Err(m);
    }
    let first = &operands[0];
    let mut i: usize = 1;
    while i < operands.len()
        invariant
            1 <= i <= operands.len(),
            first == &operands@[0],
            forall|j: int| 0 <= j < i ==> (#[trigger] operands@[j]).domain.view() == first.domain.view(),
        decreases operands.len() - i,
    {
        if !operands[i].domain.same(&first.domain) {
            let mut m = concat2("native number op ", op);
            m.append(" requires matching operand domains");
            return Err(m);
        }
        i = i + 1;
    }
    Ok(first.domain.copy())
}

/// How a scalar operation combines its operands.
#[derive(Clone, Copy, Debug, PartialEq, Eq, Structural)]
pub enum ScalarArity {
    Binary,
    Unary,
    Reduction,
}

/// One scalar operation registered for a native number domain: on
/// literals at no cost, and on runtime values at cost one.
#[derive(Clone, Debug, PartialEq, Eq)]
pub struct NativeScalarOp {
    pub operator: Symbol,
    pub arity: ScalarArity,
    pub domain: Symbol,
    pub literal_cost: u8,
    pub value_cost: u8,
}

/// The operator names, in registration order, with their arities.
pub open spec fn scalar_op_table() -> Seq<(Seq<char>, ScalarArity)> {
    seq![
        ("add"@, ScalarArity::Binary),
        ("sub"@, ScalarArity::Binary),
        ("mul"@, ScalarArity::Binary),
        ("div"@, ScalarArity::Binary),
        ("neg"@, ScalarArity::Unary),
        ("sum"@, ScalarArity::Reduction),
        ("product"@, ScalarArity::Reduction),
    ]
}

fn scalar_op(name: &str, arity: ScalarArity, domain: &Symbol) -> (r: NativeScalarOp)
    ensures
        r.operator.view() == qualified_symbol("math"@, name@),
        r.arity == arity,
        r.domain.view() == domain.view(),
        r.literal_cost == 0,
        r.value_cost == 1,
{
    NativeScalarOp {
        operator: Symbol::qualified(owned("math"), owned(name)),
        arity,
        domain: domain.copy(),
        literal_cost: 0,
        value_cost: 1,
    }
}

/// The scalar operations a native number domain registers: `math/add`,
/// `math/sub`, `math/mul`, `math/div`, `math/neg`, `math/sum` and
/// `math/product`, each on the domain's own literals and values.
pub fn native_scalar_ops(domain: &Symbol) -> (r: Vec<NativeScalarOp>)
    ensures
        r.len() == scalar_op_table().len(),
        forall|i: int|
            0 <= i < r.len() ==> {
                let op = #[trigger] r@[i];
                &&& op.operator.view() == qualified_symbol("math"@, scalar_op_table()[i].0)
                &&& op.arity == scalar_op_table()[i].1
                &&& op.domain.view() == domain.view()
                &&& op.literal_cost == 0
                &&& op.value_cost == 1
            },
{
    let mut r: Vec<NativeScalarOp> = Vec::new();
    r.push(scalar_op("add", ScalarArity::Binary, domain));
    r.push(scalar_op("sub", ScalarArity::Binary, domain));
    r.push(scalar_op("mul", ScalarArity::Binary, domain));
    r.push(scalar_op("div", ScalarArity::Binary, domain));
    r.push(scalar_op("neg", ScalarArity::Unary, domain));
    r.push(scalar_op("sum", ScalarArity::Reduction, domain));
    r.push(scalar_op("product", ScalarArity::Reduction, domain));
    r
}

} // verus!
