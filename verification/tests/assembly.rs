use spirv_header::assemble::{gen_operand_kind, gen_spirv_header, magic_number_literal};
use spirv_header::decl::{KindDecl, LogicalOperand};
use spirv_header::error::GenError;
use spirv_header::grammar::{
    Category, Enumerant, Grammar, Instruction, OperandKind, Parameter, Quantifier,
};
use spirv_header::operands::{build_operands, is_known_kind};

fn enumerant(symbol: &str, value: u32) -> Enumerant {
    Enumerant {
        symbol: symbol.to_string(),
        value,
        capabilities: vec![],
        extensions: vec![],
        parameters: vec![],
    }
}

fn kind(category: Category, name: &str, enumerants: Vec<Enumerant>) -> OperandKind {
    OperandKind { category, kind: name.to_string(), enumerants }
}

fn grammar(operand_kinds: Vec<OperandKind>, instructions: Vec<Instruction>) -> Grammar {
    Grammar {
        magic_number: 0x07230203,
        major_version: 1,
        minor_version: 6,
        revision: 4,
        instructions,
        operand_kinds,
    }
}

fn decl_name(decl: &KindDecl) -> &str {
    match decl {
        KindDecl::Bits(b) => b.name.as_str(),
        KindDecl::Values(v) => v.name.as_str(),
    }
}

#[test]
fn magic_number_has_eight_upper_case_digits() {
    assert_eq!(magic_number_literal(0x07230203), "0x07230203");
    assert_eq!(magic_number_literal(0), "0x00000000");
    assert_eq!(magic_number_literal(u32::MAX), "0xFFFFFFFF");
    assert_eq!(magic_number_literal(0xabcdef01), "0xABCDEF01");
    assert_eq!(magic_number_literal(10), "0x0000000A");
    assert_eq!(magic_number_literal(0x9000_0000), "0x90000000");
    for n in [1u32, 15, 16, 255, 256, 0x1234_5678, 0xdead_beef, 0x8000_0001] {
        assert_eq!(magic_number_literal(n), format!("{:#010X}", n));
    }
}

#[test]
fn format_constants_are_carried_over() {
    let h = gen_spirv_header(&grammar(vec![], vec![])).unwrap();
    assert_eq!(h.magic_number, "0x07230203");
    assert_eq!(h.major_version, 1);
    assert_eq!(h.minor_version, 6);
    assert_eq!(h.revision, 4);
    assert!(h.kinds.is_empty());
    assert_eq!(h.opcodes.name, "Op");
    assert!(h.opcodes.opcodes.is_empty());
}

#[test]
fn kinds_are_declared_in_grammar_order() {
    let g = grammar(
        vec![
            kind(Category::ValueEnum, "Zeta", vec![enumerant("A", 0)]),
            kind(Category::Other, "IdRef", vec![]),
            kind(Category::BitEnum, "Alpha", vec![enumerant("B", 1)]),
            kind(Category::Other, "LiteralString", vec![enumerant("not even a name", 0)]),
            kind(Category::ValueEnum, "Mid", vec![]),
            kind(Category::BitEnum, "Beta", vec![]),
        ],
        vec![],
    );
    let h = gen_spirv_header(&g).unwrap();
    let names: Vec<&str> = h.kinds.iter().map(decl_name).collect();
    assert_eq!(names, vec!["Zeta", "Alpha", "Mid", "Beta"]);
    assert!(matches!(h.kinds[0], KindDecl::Values(_)));
    assert!(matches!(h.kinds[1], KindDecl::Bits(_)));
    assert!(matches!(h.kinds[2], KindDecl::Values(_)));
    assert!(matches!(h.kinds[3], KindDecl::Bits(_)));
}

#[test]
fn each_declaration_is_that_of_its_kind() {
    let kinds = vec![
        kind(Category::ValueEnum, "Dim", vec![enumerant("1D", 0), enumerant("2D", 1)]),
        kind(Category::BitEnum, "Mask", vec![enumerant("NotNaN", 1)]),
    ];
    let h = gen_spirv_header(&grammar(kinds.clone(), vec![])).unwrap();
    assert_eq!(h.kinds.len(), 2);
    assert_eq!(Some(h.kinds[0].clone()), gen_operand_kind(&kinds[0], &kinds).unwrap());
    assert_eq!(Some(h.kinds[1].clone()), gen_operand_kind(&kinds[1], &kinds).unwrap());
    match &h.kinds[0] {
        KindDecl::Values(v) => assert_eq!(v.from_number(0), Some("Dim1D")),
        KindDecl::Bits(_) => panic!("a value enumeration was expected"),
    }
    match &h.kinds[1] {
        KindDecl::Bits(b) => assert_eq!(b.flags[0].name, "NOT_NAN"),
        KindDecl::Values(_) => panic!("a bit enumeration was expected"),
    }
}

#[test]
fn other_categories_are_not_declared() {
    let kinds = vec![kind(Category::Other, "no name at all", vec![enumerant("1", 0)])];
    assert_eq!(gen_operand_kind(&kinds[0], &kinds), Ok(None));
    let h = gen_spirv_header(&grammar(kinds, vec![])).unwrap();
    assert!(h.kinds.is_empty());
}

#[test]
fn opcodes_come_with_the_kinds() {
    let g = grammar(
        vec![kind(Category::ValueEnum, "K", vec![enumerant("A", 0)])],
        vec![
            Instruction { opname: "OpNop".to_string(), opcode: 0 },
            Instruction { opname: "OpUndef".to_string(), opcode: 1 },
            Instruction { opname: "OpNothing".to_string(), opcode: 0 },
        ],
    );
    let h = gen_spirv_header(&g).unwrap();
    assert_eq!(h.opcodes.from_number(0), Some("Nop"));
    assert_eq!(h.opcodes.from_number(1), Some("Undef"));
    assert_eq!(h.opcodes.from_number(2), None);
    assert_eq!(h.opcodes.aliases.len(), 1);
    assert_eq!(h.opcodes.aliases[0].name, "Nothing");
    assert_eq!(h.opcodes.aliases[0].target, "Nop");
    assert_eq!(h.kinds.len(), 1);
}

#[test]
fn one_bad_symbol_fails_the_whole_run() {
    let g = grammar(
        vec![
            kind(Category::ValueEnum, "Good", vec![enumerant("A", 0)]),
            kind(Category::ValueEnum, "Bad", vec![enumerant("B", 0), enumerant("b-c", 1)]),
        ],
        vec![Instruction { opname: "OpNop".to_string(), opcode: 0 }],
    );
    assert_eq!(gen_spirv_header(&g), Err(GenError::MalformedSymbol("b-c".to_string())));
}

#[test]
fn instructions_are_read_before_operand_kinds() {
    let g = grammar(
        vec![kind(Category::ValueEnum, "Bad", vec![enumerant("b-c", 1)])],
        vec![Instruction { opname: "Op+".to_string(), opcode: 0 }],
    );
    assert_eq!(gen_spirv_header(&g), Err(GenError::MalformedSymbol("+".to_string())));
}

#[test]
fn parameters_are_resolved_against_the_whole_grammar() {
    let with_parameter = |symbol: &str, value: u32, parameter: &str| Enumerant {
        symbol: symbol.to_string(),
        value,
        capabilities: vec![],
        extensions: vec![],
        parameters: vec![Parameter { kind: parameter.to_string(), quantifier: Quantifier::One }],
    };
    let good = grammar(
        vec![
            kind(Category::ValueEnum, "Decoration", vec![with_parameter("Offset", 35, "Later")]),
            kind(Category::Other, "Later", vec![]),
        ],
        vec![],
    );
    assert!(gen_spirv_header(&good).is_ok());
    let bad = grammar(
        vec![kind(Category::ValueEnum, "Decoration", vec![with_parameter("Offset", 35, "Later")])],
        vec![],
    );
    assert_eq!(gen_spirv_header(&bad), Err(GenError::UnknownOperandKind("Later".to_string())));
}

#[test]
fn operands_follow_their_parameters_one_to_one() {
    let kinds = vec![kind(Category::Other, "IdRef", vec![]), kind(Category::BitEnum, "Mask", vec![])];
    let parameters = vec![
        Parameter { kind: "Mask".to_string(), quantifier: Quantifier::ZeroOrOne },
        Parameter { kind: "IdRef".to_string(), quantifier: Quantifier::One },
        Parameter { kind: "IdRef".to_string(), quantifier: Quantifier::ZeroOrMore },
        Parameter { kind: "IdRef".to_string(), quantifier: Quantifier::One },
    ];
    assert_eq!(
        build_operands(&parameters, &kinds),
        Ok(vec![
            LogicalOperand { kind: "Mask".to_string(), quantifier: Quantifier::ZeroOrOne },
            LogicalOperand { kind: "IdRef".to_string(), quantifier: Quantifier::One },
            LogicalOperand { kind: "IdRef".to_string(), quantifier: Quantifier::ZeroOrMore },
            LogicalOperand { kind: "IdRef".to_string(), quantifier: Quantifier::One },
        ])
    );
    assert_eq!(build_operands(&vec![], &kinds), Ok(vec![]));
    assert_eq!(build_operands(&vec![], &vec![]), Ok(vec![]));
}

#[test]
fn first_parameter_in_error_is_reported() {
    let kinds = vec![kind(Category::Other, "IdRef", vec![])];
    let p = |name: &str| Parameter { kind: name.to_string(), quantifier: Quantifier::One };
    assert_eq!(
        build_operands(&vec![p("IdRef"), p("Gone"), p("not a name")], &kinds),
        Err(GenError::UnknownOperandKind("Gone".to_string()))
    );
    assert_eq!(
        build_operands(&vec![p("IdRef"), p("not a name"), p("Gone")], &kinds),
        Err(GenError::MalformedSymbol("not a name".to_string()))
    );
    assert_eq!(
        build_operands(&vec![p("idref")], &kinds),
        Err(GenError::UnknownOperandKind("idref".to_string()))
    );
}

#[test]
fn operand_kinds_are_known_by_their_exact_name() {
    let kinds = vec![kind(Category::Other, "IdRef", vec![]), kind(Category::ValueEnum, "Dim", vec![])];
    assert!(is_known_kind(&kinds, "IdRef"));
    assert!(is_known_kind(&kinds, "Dim"));
    assert!(!is_known_kind(&kinds, "Idref"));
    assert!(!is_known_kind(&kinds, ""));
    assert!(!is_known_kind(&vec![], "IdRef"));
}
