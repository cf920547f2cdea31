//! The host side of a macro exported across the native ABI: the guest
//! operation an expansion calls, the syntax shape that decides which forms
//! the macro applies to, and how the proxy presents itself; and the shape
//! that stands for a shape a native guest exports.
use vstd::prelude::*;
use vstd::string::*;

use crate::report::ConfigExpr;
use crate::symbol::{plain_symbol, qualified_symbol, qualified_text, Symbol, SymbolView};
use crate::text::owned;

verus! {

broadcast use vstd::string::group_string_axioms;

/// Host-side proxy for a macro exported by a native ABI guest.
#[derive(Clone, Debug, PartialEq, Eq)]
pub struct NativeAbiMacro {
    pub symbol: Symbol,
}

/// The syntax shape of a native macro: lists headed by the macro's symbol.
#[derive(Clone, Debug, PartialEq, Eq)]
pub struct NativeMacroSyntaxShape {
    pub symbol: Symbol,
}

/// How a syntax shape judged an expression.
#[derive(Clone, Debug, PartialEq, Eq)]
pub enum SyntaxCheck {
    /// Accepted, with an exact match score.
    Accept(u32),
    /// Rejected, with the reason.
    Reject(String),
}

/// Whether an expression is a list whose first item is the symbol `s`.
pub open spec fn headed_by(e: ConfigExpr, s: SymbolView) -> bool {
    match e {
        ConfigExpr::List(items) => items@.len() > 0 && match items@[0] {
            ConfigExpr::Symbol(h) => h.view() == s,
            _ => false,
        },
        _ => false,
    }
}

impl NativeAbiMacro {
    pub fn new(symbol: Symbol) -> (r: Self)
        ensures
            r.symbol.view() == symbol.view(),
    {
        NativeAbiMacro { symbol }
    }

    /// The macro symbol.
    pub fn symbol(&self) -> (r: Symbol)
        ensures
            r.view() == self.symbol.view(),
    {
        self.symbol.copy()
    }

    /// Whether parser output from this macro is trusted: it always is.
    pub fn parser_trusted(&self) -> (r: bool)
        ensures
            r,
    {
        true
    }

    /// The guest operation an expansion dispatches to: `SYMBOL/expand`.
    pub fn expand_op(&self) -> (r: String)
        ensures
            r@ == qualified_text(self.symbol.view()) + "/expand"@,
    {
        let mut r = self.symbol.as_qualified_str();
        r.append("/expand");
        r
    }

    /// How the proxy displays itself.
    pub fn display(&self) -> (r: String)
        ensures
            r@ == "#<native-macro "@ + qualified_text(self.symbol.view()) + ">"@,
    {
        let mut r = owned("#<native-macro ");
        r.append(self.symbol.as_qualified_str().as_str());
        r.append(">");
        r
    }

    /// The proxy's table form: its symbol as text, and that its parser
    /// output is trusted.
    pub fn as_table(&self) -> (r: Vec<(Symbol, ConfigExpr)>)
        ensures
            r.len() == 2,
            r@[0].0.view() == plain_symbol("symbol"@),
            r@[0].1 matches ConfigExpr::Str(t) && t@ == qualified_text(self.symbol.view()),
            r@[1].0.view() == plain_symbol("parser-trusted"@),
            r@[1].1 == ConfigExpr::Bool(true),
    {
        let mut r: Vec<(Symbol, ConfigExpr)> = Vec::new();
        r.push((Symbol::new(owned("symbol")), ConfigExpr::Str(self.symbol.as_qualified_str())));
        r.push((Symbol::new(owned("parser-trusted")), ConfigExpr::Bool(self.parser_trusted())));
        r
    }

    /// The syntax shape the macro expands.
    pub fn syntax_shape(&self) -> (r: NativeMacroSyntaxShape)
        ensures
            r.symbol.view() == self.symbol.view(),
    {
        NativeMacroSyntaxShape { symbol: self.symbol.copy() }
    }
}

impl NativeMacroSyntaxShape {
    /// The shape's own symbol: `native-macro-syntax` in the macro symbol's
    /// text as namespace.
    pub fn shape_symbol(&self) -> (r: Symbol)
        ensures
            r.view() == qualified_symbol(qualified_text(self.symbol.view()), "native-macro-syntax"@),
    {
        Symbol::qualified(self.symbol.as_qualified_str(), owned("native-macro-syntax"))
    }

    /// Accepts exactly the lists headed by the macro's symbol, with score 1.
    pub fn check_expr(&self, expr: &ConfigExpr) -> (r: SyntaxCheck)
        ensures
            headed_by(*expr, self.symbol.view()) ==> r == SyntaxCheck::Accept(1),
            !headed_by(*expr, self.symbol.view()) ==> (r matches SyntaxCheck::Reject(m) && m@
                == "expected list headed by "@ + qualified_text(self.symbol.view())),
    {
        let accepted = match expr {
            ConfigExpr::List(items) => items.len() > 0 && match &items[0] {
                ConfigExpr::Symbol(h) => h.same(&self.symbol),
                _ => false,
            },
            _ => false,
        };
        if accepted {
            SyntaxCheck::Accept(1)
        } else {
            let mut m = owned("expected list headed by ");
            m.append(self.symbol.as_qualified_str().as_str());
            SyntaxCheck::Reject(m)
        }
    }

    /// The shape's description: `SYMBOL syntax`.
    pub fn describe(&self) -> (r: String)
        ensures
            r@ == qualified_text(self.symbol.view()) + " syntax"@,
    {
        let mut r = self.symbol.as_qualified_str();
        r.append(" syntax");
        r
    }
}

/// The host's stand-in for a shape a native guest exports: it is total and
/// accepts every value and expression.
#[derive(Clone, Debug, PartialEq, Eq)]
pub struct NativeAnyShape {
    pub symbol: Symbol,
}

impl NativeAnyShape {
    pub fn new(symbol: Symbol) -> (r: Self)
        ensures
            r.symbol.view() == symbol.view(),
    {
        NativeAnyShape { symbol }
    }

    /// The shape is total.
    pub fn is_total(&self) -> (r: bool)
        ensures
            r,
    {
        true
    }

    /// Accepts anything, with score 1.
    pub fn check(&self) -> (r: SyntaxCheck)
        ensures
            r == SyntaxCheck::Accept(1),
    {
        SyntaxCheck::Accept(1)
    }

    /// The shape's description: its symbol's text, with the detail that it
    /// stands for a native ABI shape.
    pub fn describe(&self) -> (r: (String, String))
        ensures
            r.0@ == qualified_text(self.symbol.view()),
            r.1@ == "native ABI proxy shape"@,
    {
        (self.symbol.as_qualified_str(), owned("native ABI proxy shape"))
    }
}

} // verus!
