use sim_run_core::reexport::{link_reexport, ReexportKind, ReexportLinkError, ReexportSpec, RegistrySymbols};
use sim_run_core::Symbol;

fn sym(ns: &str, name: &str) -> Symbol {
    Symbol::qualified(ns.to_owned(), name.to_owned())
}

fn registry() -> RegistrySymbols {
    RegistrySymbols {
        classes: vec![sym("core", "List")],
        functions: vec![sym("core", "add"), sym("core", "sub")],
        macros: vec![],
        shapes: vec![sym("core", "Any")],
        codecs: vec![],
        number_domains: vec![sym("numbers", "f64")],
        values: vec![],
    }
}

#[test]
fn reexports_link_registry_items_of_their_kind() {
    let reg = registry();
    let spec = ReexportSpec::new(ReexportKind::Function, sym("demo", "plus"), sym("core", "add"));
    assert_eq!(link_reexport(&reg, &spec), Ok((sym("demo", "plus"), sym("core", "add"))));
    let spec = ReexportSpec::new(ReexportKind::Shape, sym("demo", "Any"), sym("core", "Any"));
    assert!(link_reexport(&reg, &spec).is_ok());
}

#[test]
fn missing_reexport_targets_report_their_kind() {
    let reg = registry();
    let class = ReexportSpec::new(ReexportKind::Class, sym("demo", "Map"), sym("core", "Map"));
    assert_eq!(link_reexport(&reg, &class), Err(ReexportLinkError::UnknownClass(sym("core", "Map"))));
    let function = ReexportSpec::new(ReexportKind::Function, sym("demo", "List"), sym("core", "List"));
    assert_eq!(
        link_reexport(&reg, &function),
        Err(ReexportLinkError::UnknownFunction(sym("core", "List")))
    );
    let codec = ReexportSpec::new(ReexportKind::Codec, sym("demo", "json"), sym("codec", "json"));
    assert_eq!(
        link_reexport(&reg, &codec),
        Err(ReexportLinkError::UnknownSymbol(sym("codec", "json")))
    );
}
