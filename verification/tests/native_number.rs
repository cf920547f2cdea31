use sim_run_core::native_number::{
    binary_op_domain, native_scalar_ops, reduction_op_domain, NativeAbiNumberDomain,
    NumberLiteral, NumberReply, ParseLiteralStep, ScalarArity,
};
use sim_run_core::Symbol;

fn f64_domain() -> Symbol {
    Symbol::qualified("numbers".to_owned(), "f64".to_owned())
}

fn literal(ns: &str, name: &str, canonical: &str) -> NumberLiteral {
    NumberLiteral {
        domain: Symbol::qualified(ns.to_owned(), name.to_owned()),
        canonical: canonical.to_owned(),
    }
}

/// Runs a parse through a guest given as a function from operation and
/// input text to its reply, rechecking any literal it returns.
fn parse_via(
    domain: &NativeAbiNumberDomain,
    guest: &dyn Fn(&str, &str) -> NumberReply,
    text: &str,
) -> Result<Option<NumberLiteral>, String> {
    let op = domain.op_name("parse-literal");
    match domain.parse_literal_step(guest(&op, text)) {
        ParseLiteralStep::Done(outcome) => outcome,
        ParseLiteralStep::Recheck(number) => {
            let back = guest(&op, &number.canonical);
            domain.accept_number(number, back).map(Some)
        }
    }
}

fn mock_guest(op: &str, text: &str) -> NumberReply {
    assert_eq!(op, "numbers/f64/parse-literal");
    match text {
        "1.5" => NumberReply::Number(literal("numbers", "f64", "1.5")),
        "bad-shape" => NumberReply::Other("String(\"bad-shape\")".to_owned()),
        _ => NumberReply::Nil,
    }
}

fn f19_guest(op: &str, text: &str) -> NumberReply {
    assert_eq!(op, "numbers/f64/parse-literal");
    match text {
        "noncanon" => NumberReply::Number(literal("numbers", "f64", "NONCANON")),
        "NONCANON" => NumberReply::Number(literal("numbers", "f64", "other")),
        "foreign" => NumberReply::Number(literal("numbers", "i64", "1")),
        "3" => NumberReply::Number(literal("numbers", "f64", "3")),
        _ => NumberReply::Nil,
    }
}

#[test]
fn native_number_domain_proxy_marshals_parse_and_encode() {
    let domain = NativeAbiNumberDomain::new(f64_domain());
    let parsed = parse_via(&domain, &mock_guest, "1.5").unwrap().unwrap();
    assert_eq!(parsed, literal("numbers", "f64", "1.5"));
    assert!(parse_via(&domain, &mock_guest, "nope").unwrap().is_none());
    let err = parse_via(&domain, &mock_guest, "bad-shape").unwrap_err();
    assert!(err.contains("parse-literal returned non-number"));
    assert_eq!(
        err,
        "native number-domain numbers/f64 parse-literal returned non-number String(\"bad-shape\")"
    );

    let encoded = domain
        .encode_literal_outcome(NumberReply::Number(parsed.clone()))
        .unwrap()
        .unwrap();
    assert_eq!(encoded.domain, f64_domain());
    assert_eq!(encoded.canonical, "1.5");
    assert_eq!(domain.encode_literal_outcome(NumberReply::Nil), Ok(None));
    assert_eq!(
        domain.encode_literal_outcome(NumberReply::Other("Nil".to_owned())),
        Err("native number-domain numbers/f64 encode-literal returned non-number Nil".to_owned())
    );
}

#[test]
fn guest_noncanonical_or_foreign_number_is_rejected() {
    let domain = NativeAbiNumberDomain::new(f64_domain());

    let err = parse_via(&domain, &f19_guest, "noncanon").unwrap_err();
    assert!(err.contains("non-canonical"));
    assert_eq!(
        err,
        "native number-domain numbers/f64 returned a non-canonical literal \"NONCANON\""
    );

    let err = parse_via(&domain, &f19_guest, "foreign").unwrap_err();
    assert!(err.contains("foreign domain"));
    assert_eq!(
        err,
        "native number-domain numbers/f64 returned a literal in foreign domain numbers/i64"
    );

    let accepted = parse_via(&domain, &f19_guest, "3").unwrap().unwrap();
    assert_eq!(accepted, literal("numbers", "f64", "3"));
}

#[test]
fn accept_number_checks_domain_before_the_reparse() {
    let domain = NativeAbiNumberDomain::new(f64_domain());
    let foreign = literal("numbers", "i64", "1");
    let err = domain
        .accept_number(foreign.clone(), NumberReply::Number(foreign.clone()))
        .unwrap_err();
    assert!(err.contains("foreign domain numbers/i64"));
    let quoted = literal("numbers", "f64", "a\"b");
    let err = domain.accept_number(quoted, NumberReply::Nil).unwrap_err();
    assert_eq!(
        err,
        "native number-domain numbers/f64 returned a non-canonical literal \"a\\\"b\""
    );
    assert_eq!(domain.display(), "#<native-number-domain numbers/f64>");
}

#[test]
fn native_number_ops_require_matching_domains() {
    let a = literal("numbers", "f64", "1");
    let b = literal("numbers", "i64", "2");
    assert_eq!(binary_op_domain("add", &a, &a.clone()), Ok(f64_domain()));
    assert_eq!(
        binary_op_domain("add", &a, &b),
        Err("native number op add requires matching domains, got numbers/f64 and numbers/i64"
            .to_owned())
    );
    assert_eq!(
        reduction_op_domain("sum", &vec![]),
        Err("native number op sum requires at least one operand".to_owned())
    );
    assert_eq!(reduction_op_domain("sum", &vec![a.clone(), a.clone()]), Ok(f64_domain()));
    assert_eq!(
        reduction_op_domain("product", &vec![a.clone(), b]),
        Err("native number op product requires matching operand domains".to_owned())
    );
}

#[test]
fn native_number_domain_registers_math_scalar_ops() {
    let ops = native_scalar_ops(&f64_domain());
    let names: Vec<String> = ops.iter().map(|op| op.operator.as_qualified_str()).collect();
    assert_eq!(
        names,
        vec!["math/add", "math/sub", "math/mul", "math/div", "math/neg", "math/sum", "math/product"]
    );
    assert_eq!(ops[4].arity, ScalarArity::Unary);
    assert_eq!(ops[6].arity, ScalarArity::Reduction);
    assert!(ops.iter().all(|op| op.domain == f64_domain() && op.literal_cost == 0 && op.value_cost == 1));
}
