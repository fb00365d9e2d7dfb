use spirv_header::clauses::{add_to_group, attach_operands};
use spirv_header::decl::{ClauseGroup, LogicalOperand, OperandClause};
use spirv_header::grammar::{Category, Enumerant, OperandKind, Parameter, Quantifier};
use spirv_header::value_enum::gen_value_enum_operand_kind;

fn texts(items: &[&str]) -> Vec<String> {
    items.iter().map(|s| s.to_string()).collect()
}

fn group(clause: &[&str], symbols: &[&str]) -> ClauseGroup {
    ClauseGroup { clause: texts(clause), symbols: texts(symbols) }
}

fn operand(kind: &str) -> LogicalOperand {
    LogicalOperand { kind: kind.to_string(), quantifier: Quantifier::One }
}

#[test]
fn first_symbol_of_a_clause_opens_a_group() {
    let mut groups = vec![];
    add_to_group(&mut groups, &texts(&["Shader"]), "A".to_string());
    assert_eq!(groups, vec![group(&["Shader"], &["A"])]);
    add_to_group(&mut groups, &texts(&[]), "B".to_string());
    assert_eq!(groups, vec![group(&["Shader"], &["A"]), group(&[], &["B"])]);
}

#[test]
fn later_symbols_join_the_group_of_their_clause() {
    let mut groups = vec![group(&["Shader"], &["A"]), group(&["Kernel"], &["B"]), group(&[], &["C"])];
    add_to_group(&mut groups, &texts(&["Kernel"]), "D".to_string());
    add_to_group(&mut groups, &texts(&[]), "E".to_string());
    add_to_group(&mut groups, &texts(&["Shader"]), "F".to_string());
    assert_eq!(
        groups,
        vec![
            group(&["Shader"], &["A", "F"]),
            group(&["Kernel"], &["B", "D"]),
            group(&[], &["C", "E"]),
        ]
    );
}

#[test]
fn clauses_in_another_order_are_other_clauses() {
    let mut groups = vec![group(&["Shader", "Kernel"], &["A"])];
    add_to_group(&mut groups, &texts(&["Kernel", "Shader"]), "B".to_string());
    add_to_group(&mut groups, &texts(&["Shader"]), "C".to_string());
    add_to_group(&mut groups, &texts(&["Shader", "Kernel", "Kernel"]), "D".to_string());
    assert_eq!(
        groups,
        vec![
            group(&["Shader", "Kernel"], &["A"]),
            group(&["Kernel", "Shader"], &["B"]),
            group(&["Shader"], &["C"]),
            group(&["Shader", "Kernel", "Kernel"], &["D"]),
        ]
    );
}

#[test]
fn symbol_joins_the_first_group_of_its_clause_only() {
    let mut groups = vec![group(&["X"], &["A"]), group(&["X"], &["B"])];
    add_to_group(&mut groups, &texts(&["X"]), "C".to_string());
    assert_eq!(groups, vec![group(&["X"], &["A", "C"]), group(&["X"], &["B"])]);
}

#[test]
fn operands_are_attached_to_their_symbol() {
    let mut clauses = vec![];
    attach_operands(&mut clauses, "A".to_string(), vec![operand("IdRef")]);
    attach_operands(&mut clauses, "B".to_string(), vec![]);
    assert_eq!(
        clauses,
        vec![
            OperandClause { symbol: "A".to_string(), operands: vec![operand("IdRef")] },
            OperandClause { symbol: "B".to_string(), operands: vec![] },
        ]
    );
    attach_operands(&mut clauses, "A".to_string(), vec![operand("IdScope"), operand("IdRef")]);
    attach_operands(&mut clauses, "B".to_string(), vec![operand("LiteralInteger")]);
    assert_eq!(
        clauses,
        vec![
            OperandClause {
                symbol: "A".to_string(),
                operands: vec![operand("IdRef"), operand("IdScope"), operand("IdRef")],
            },
            OperandClause { symbol: "B".to_string(), operands: vec![operand("LiteralInteger")] },
        ]
    );
}

#[test]
fn first_enumerant_of_a_value_decides_its_operands() {
    let with = |symbol: &str, value: u32, kinds: &[&str]| Enumerant {
        symbol: symbol.to_string(),
        value,
        capabilities: vec![],
        extensions: vec![],
        parameters: kinds
            .iter()
            .map(|k| Parameter { kind: k.to_string(), quantifier: Quantifier::One })
            .collect(),
    };
    let known: Vec<OperandKind> = ["IdRef", "IdScope"]
        .iter()
        .map(|k| OperandKind { category: Category::Other, kind: k.to_string(), enumerants: vec![] })
        .collect();
    let kind = OperandKind {
        category: Category::ValueEnum,
        kind: "LoopControl".to_string(),
        enumerants: vec![
            with("First", 1, &["IdRef"]),
            with("Second", 1, &["IdScope", "IdScope"]),
            with("Bare", 2, &[]),
            with("BareAlias", 2, &["IdRef"]),
        ],
    };
    let e = gen_value_enum_operand_kind(&kind, &known).unwrap();
    assert_eq!(
        e.operand_clauses,
        vec![
            OperandClause { symbol: "First".to_string(), operands: vec![operand("IdRef")] },
            OperandClause { symbol: "Bare".to_string(), operands: vec![] },
        ]
    );
}

#[test]
fn aliases_join_no_group() {
    let gated = |symbol: &str, value: u32, capability: &str| Enumerant {
        symbol: symbol.to_string(),
        value,
        capabilities: vec![capability.to_string()],
        extensions: vec![],
        parameters: vec![],
    };
    let kind = OperandKind {
        category: Category::ValueEnum,
        kind: "K".to_string(),
        enumerants: vec![gated("A", 0, "Shader"), gated("B", 0, "Shader"), gated("C", 0, "Kernel")],
    };
    let e = gen_value_enum_operand_kind(&kind, &vec![]).unwrap();
    assert_eq!(e.capability_clauses, vec![group(&["Shader"], &["A"])]);
    assert_eq!(e.extension_clauses, vec![group(&[], &["A"])]);
}
