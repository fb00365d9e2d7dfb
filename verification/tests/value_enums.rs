use spirv_header::decl::{Alias, ClauseGroup, NameArm, OperandClause, Variant};
use spirv_header::error::GenError;
use spirv_header::grammar::{Category, Enumerant, OperandKind, Parameter, Quantifier};
use spirv_header::value_enum::gen_value_enum_operand_kind;

fn plain(symbol: &str, value: u32) -> Enumerant {
    Enumerant {
        symbol: symbol.to_string(),
        value,
        capabilities: vec![],
        extensions: vec![],
        parameters: vec![],
    }
}

fn gated(symbol: &str, value: u32, capabilities: &[&str], extensions: &[&str]) -> Enumerant {
    Enumerant {
        symbol: symbol.to_string(),
        value,
        capabilities: capabilities.iter().map(|s| s.to_string()).collect(),
        extensions: extensions.iter().map(|s| s.to_string()).collect(),
        parameters: vec![],
    }
}

fn value_kind(name: &str, enumerants: Vec<Enumerant>) -> OperandKind {
    OperandKind { category: Category::ValueEnum, kind: name.to_string(), enumerants }
}

fn other_kind(name: &str) -> OperandKind {
    OperandKind { category: Category::Other, kind: name.to_string(), enumerants: vec![] }
}

fn variant(name: &str, value: u32) -> Variant {
    Variant { name: name.to_string(), value }
}

fn arm(key: &str, symbol: &str) -> NameArm {
    NameArm { key: key.to_string(), symbol: symbol.to_string() }
}

#[test]
fn first_enumerant_of_a_value_is_canonical() {
    let kind = value_kind("Abc", vec![plain("A", 0), plain("B", 1), plain("C", 1)]);
    let e = gen_value_enum_operand_kind(&kind, &vec![]).unwrap();
    assert_eq!(e.name, "Abc");
    assert_eq!(e.variants, vec![variant("A", 0), variant("B", 1)]);
    assert_eq!(e.aliases, vec![Alias { name: "C".to_string(), target: "B".to_string() }]);
    assert_eq!(e.names, vec![arm("A", "A"), arm("B", "B"), arm("C", "B")]);
}

#[test]
fn numbers_convert_to_canonical_symbols() {
    let kind = value_kind("Abc", vec![plain("A", 0), plain("B", 1), plain("C", 1)]);
    let e = gen_value_enum_operand_kind(&kind, &vec![]).unwrap();
    assert_eq!(e.from_number(0), Some("A"));
    assert_eq!(e.from_number(1), Some("B"));
    assert_eq!(e.from_number(2), None);
    assert_eq!(e.from_number(u32::MAX), None);
}

#[test]
fn names_convert_for_canonical_symbols_and_aliases() {
    let kind = value_kind("Abc", vec![plain("A", 0), plain("B", 1), plain("C", 1)]);
    let e = gen_value_enum_operand_kind(&kind, &vec![]).unwrap();
    assert_eq!(e.from_name("A"), Ok("A"));
    assert_eq!(e.from_name("B"), Ok("B"));
    assert_eq!(e.from_name("C"), Ok("B"));
}

#[test]
fn names_match_exactly() {
    let kind = value_kind("Abc", vec![plain("A", 0), plain("B", 1)]);
    let e = gen_value_enum_operand_kind(&kind, &vec![]).unwrap();
    assert_eq!(e.from_name("b"), Err(()));
    assert_eq!(e.from_name("B "), Err(()));
    assert_eq!(e.from_name(""), Err(()));
    assert_eq!(e.from_name("D"), Err(()));
}

#[test]
fn alias_round_trips_to_the_canonical_symbol() {
    let kind = value_kind(
        "Decoration",
        vec![plain("First", 7), plain("Other", 9), plain("Second", 7), plain("Third", 7)],
    );
    let e = gen_value_enum_operand_kind(&kind, &vec![]).unwrap();
    for alias in ["Second", "Third"] {
        assert_eq!(e.from_name(alias), Ok("First"));
    }
    assert_eq!(e.from_name("First"), Ok("First"));
    assert_eq!(e.from_number(7), Some("First"));
    assert_eq!(e.from_number(9), Some("Other"));
    assert_eq!(e.variants.len(), 2);
    assert_eq!(e.aliases.len(), 2);
}

#[test]
fn canonical_symbol_follows_grammar_order_not_value_order() {
    let kind = value_kind("K", vec![plain("High", 9), plain("Low", 1), plain("AlsoHigh", 9)]);
    let e = gen_value_enum_operand_kind(&kind, &vec![]).unwrap();
    assert_eq!(e.variants, vec![variant("High", 9), variant("Low", 1)]);
    assert_eq!(e.from_number(9), Some("High"));
}

#[test]
fn empty_kind_gives_an_enumeration_without_variants() {
    let kind = value_kind("Nothing", vec![]);
    let e = gen_value_enum_operand_kind(&kind, &vec![]).unwrap();
    assert_eq!(e.name, "Nothing");
    assert!(e.variants.is_empty());
    assert!(e.aliases.is_empty());
    assert!(e.names.is_empty());
    assert_eq!(e.from_number(0), None);
    assert_eq!(e.from_number(1), None);
    assert_eq!(e.from_name("Nothing"), Err(()));
    assert_eq!(e.from_name(""), Err(()));
}

#[test]
fn digit_sensitive_kind_prefixes_its_variants() {
    let kind = value_kind("Dim", vec![plain("1D", 0), plain("2D", 1), plain("Cube", 3)]);
    let e = gen_value_enum_operand_kind(&kind, &vec![]).unwrap();
    assert_eq!(
        e.variants,
        vec![variant("Dim1D", 0), variant("Dim2D", 1), variant("DimCube", 3)]
    );
    assert_eq!(e.from_name("Dim1D"), Ok("Dim1D"));
    assert_eq!(e.from_name("1D"), Err(()));
    assert_eq!(e.from_number(0), Some("Dim1D"));
}

#[test]
fn leading_digit_is_malformed_in_other_kinds() {
    let kind = value_kind("Shape", vec![plain("1D", 0)]);
    assert_eq!(
        gen_value_enum_operand_kind(&kind, &vec![]),
        Err(GenError::MalformedSymbol("1D".to_string()))
    );
}

#[test]
fn alias_keeps_its_raw_symbol_in_the_digit_sensitive_kind() {
    let kind = value_kind("Dim", vec![plain("1D", 0), plain("Line", 0)]);
    let e = gen_value_enum_operand_kind(&kind, &vec![]).unwrap();
    assert_eq!(e.aliases, vec![Alias { name: "Line".to_string(), target: "Dim1D".to_string() }]);
    assert_eq!(e.from_name("Line"), Ok("Dim1D"));

    let bad = value_kind("Dim", vec![plain("1D", 0), plain("2D", 0)]);
    assert_eq!(
        gen_value_enum_operand_kind(&bad, &vec![]),
        Err(GenError::MalformedSymbol("2D".to_string()))
    );
}

#[test]
fn malformed_kind_name_is_reported_first() {
    let kind = value_kind("not a name", vec![plain("also bad", 0)]);
    assert_eq!(
        gen_value_enum_operand_kind(&kind, &vec![]),
        Err(GenError::MalformedSymbol("not a name".to_string()))
    );
}

#[test]
fn first_malformed_enumerant_is_reported() {
    let kind = value_kind("K", vec![plain("Fine", 0), plain("a-b", 1), plain("c d", 2)]);
    assert_eq!(
        gen_value_enum_operand_kind(&kind, &vec![]),
        Err(GenError::MalformedSymbol("a-b".to_string()))
    );
}

#[test]
fn clauses_group_symbols_by_literal_sequence() {
    let kind = value_kind(
        "Mode",
        vec![
            gated("A", 0, &["Shader", "Kernel"], &[]),
            gated("B", 1, &["Kernel", "Shader"], &["ext_one"]),
            gated("C", 2, &["Shader", "Kernel"], &["ext_one"]),
            gated("D", 2, &["Matrix"], &["ext_two"]),
            gated("E", 3, &[], &[]),
        ],
    );
    let e = gen_value_enum_operand_kind(&kind, &vec![]).unwrap();
    let texts = |items: &[&str]| items.iter().map(|s| s.to_string()).collect::<Vec<String>>();
    assert_eq!(
        e.capability_clauses,
        vec![
            ClauseGroup { clause: texts(&["Shader", "Kernel"]), symbols: texts(&["A", "C"]) },
            ClauseGroup { clause: texts(&["Kernel", "Shader"]), symbols: texts(&["B"]) },
            ClauseGroup { clause: texts(&[]), symbols: texts(&["E"]) },
        ]
    );
    assert_eq!(
        e.extension_clauses,
        vec![
            ClauseGroup { clause: texts(&[]), symbols: texts(&["A", "E"]) },
            ClauseGroup { clause: texts(&["ext_one"]), symbols: texts(&["B", "C"]) },
        ]
    );
}

#[test]
fn operands_are_recorded_for_discriminants_only() {
    let with = |symbol: &str, value: u32, kind: &str, quantifier: Quantifier| Enumerant {
        symbol: symbol.to_string(),
        value,
        capabilities: vec![],
        extensions: vec![],
        parameters: vec![Parameter { kind: kind.to_string(), quantifier }],
    };
    let kinds = vec![other_kind("IdRef"), other_kind("LiteralInteger")];
    let kind = value_kind(
        "Decoration",
        vec![
            with("SpecId", 1, "LiteralInteger", Quantifier::One),
            with("SpecIdAlias", 1, "IdRef", Quantifier::ZeroOrMore),
            plain("Block", 2),
        ],
    );
    let e = gen_value_enum_operand_kind(&kind, &kinds).unwrap();
    assert_eq!(e.operand_clauses.len(), 2);
    assert_eq!(
        e.operand_clauses[0],
        OperandClause {
            symbol: "SpecId".to_string(),
            operands: vec![spirv_header::decl::LogicalOperand {
                kind: "LiteralInteger".to_string(),
                quantifier: Quantifier::One,
            }],
        }
    );
    assert_eq!(
        e.operand_clauses[1],
        OperandClause { symbol: "Block".to_string(), operands: vec![] }
    );
}

#[test]
fn alias_parameters_are_not_resolved() {
    let with = |symbol: &str, value: u32, kind: &str| Enumerant {
        symbol: symbol.to_string(),
        value,
        capabilities: vec![],
        extensions: vec![],
        parameters: vec![Parameter { kind: kind.to_string(), quantifier: Quantifier::One }],
    };
    let kinds = vec![other_kind("IdRef")];
    let ok = value_kind("K", vec![with("A", 1, "IdRef"), with("B", 1, "Missing")]);
    assert!(gen_value_enum_operand_kind(&ok, &kinds).is_ok());
    let bad = value_kind("K", vec![with("A", 1, "Missing"), with("B", 1, "IdRef")]);
    assert_eq!(
        gen_value_enum_operand_kind(&bad, &kinds),
        Err(GenError::UnknownOperandKind("Missing".to_string()))
    );
}

#[test]
fn documentation_names_the_operand_kind() {
    let kind = value_kind("ImageOperands", vec![]);
    let e = gen_value_enum_operand_kind(&kind, &vec![]).unwrap();
    assert_eq!(
        e.doc,
        "/// SPIR-V operand kind: [ImageOperands](https://www.khronos.org/registry/spir-v/specs/unified1/SPIRV.html#_a_id_image_operands_a_image_operands)"
    );
}
