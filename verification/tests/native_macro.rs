use sim_run_core::native_macro::{NativeAbiMacro, NativeAnyShape, SyntaxCheck};
use sim_run_core::report::ConfigExpr;
use sim_run_core::Symbol;

fn quote() -> Symbol {
    Symbol::qualified("native".to_owned(), "quote".to_owned())
}

#[test]
fn native_macro_dispatches_expansion_to_its_guest_operation() {
    let mac = NativeAbiMacro::new(quote());
    assert_eq!(mac.expand_op(), "native/quote/expand");
    assert_eq!(mac.display(), "#<native-macro native/quote>");
    assert!(mac.parser_trusted());
    assert_eq!(mac.symbol(), quote());
    let table = mac.as_table();
    assert_eq!(table[0].0, Symbol::new("symbol".to_owned()));
    assert_eq!(table[0].1, ConfigExpr::Str("native/quote".to_owned()));
    assert_eq!(table[1].0, Symbol::new("parser-trusted".to_owned()));
    assert_eq!(table[1].1, ConfigExpr::Bool(true));
}

#[test]
fn native_macro_syntax_accepts_lists_headed_by_the_macro() {
    let shape = NativeAbiMacro::new(quote()).syntax_shape();
    assert_eq!(
        shape.shape_symbol(),
        Symbol::qualified("native/quote".to_owned(), "native-macro-syntax".to_owned())
    );
    assert_eq!(shape.describe(), "native/quote syntax");
    let form = ConfigExpr::List(vec![ConfigExpr::Symbol(quote()), ConfigExpr::Str("value".to_owned())]);
    assert_eq!(shape.check_expr(&form), SyntaxCheck::Accept(1));
    let other = ConfigExpr::List(vec![ConfigExpr::Symbol(Symbol::new("quote".to_owned()))]);
    assert_eq!(
        shape.check_expr(&other),
        SyntaxCheck::Reject("expected list headed by native/quote".to_owned())
    );
    assert_eq!(
        shape.check_expr(&ConfigExpr::List(vec![])),
        SyntaxCheck::Reject("expected list headed by native/quote".to_owned())
    );
    assert_eq!(
        shape.check_expr(&ConfigExpr::Str("native/quote".to_owned())),
        SyntaxCheck::Reject("expected list headed by native/quote".to_owned())
    );
}

#[test]
fn native_any_shape_accepts_everything() {
    let shape = NativeAnyShape::new(quote());
    assert!(shape.is_total());
    assert_eq!(shape.check(), SyntaxCheck::Accept(1));
    assert_eq!(
        shape.describe(),
        ("native/quote".to_owned(), "native ABI proxy shape".to_owned())
    );
}
