use spirv_header::bit_enum::gen_bit_enum_operand_kind;
use spirv_header::decl::{Flag, FlagOperands, LogicalOperand};
use spirv_header::error::GenError;
use spirv_header::grammar::{Category, Enumerant, OperandKind, Parameter, Quantifier};

fn flag(symbol: &str, value: u32, parameters: &[(&str, Quantifier)]) -> Enumerant {
    Enumerant {
        symbol: symbol.to_string(),
        value,
        capabilities: vec![],
        extensions: vec![],
        parameters: parameters
            .iter()
            .map(|(kind, quantifier)| Parameter { kind: kind.to_string(), quantifier: *quantifier })
            .collect(),
    }
}

fn bit_kind(name: &str, enumerants: Vec<Enumerant>) -> OperandKind {
    OperandKind { category: Category::BitEnum, kind: name.to_string(), enumerants }
}

fn known() -> Vec<OperandKind> {
    ["IdRef", "LiteralInteger", "IdScope"]
        .iter()
        .map(|name| OperandKind {
            category: Category::Other,
            kind: name.to_string(),
            enumerants: vec![],
        })
        .collect()
}

fn operand(kind: &str, quantifier: Quantifier) -> LogicalOperand {
    LogicalOperand { kind: kind.to_string(), quantifier }
}

fn image_operands() -> OperandKind {
    bit_kind(
        "ImageOperands",
        vec![
            flag("None", 0, &[]),
            flag("Bias", 1, &[("IdRef", Quantifier::One)]),
            flag("Grad", 4, &[("IdRef", Quantifier::One), ("IdRef", Quantifier::One)]),
            flag("MakeTexelAvailable", 0x100, &[("IdScope", Quantifier::ZeroOrOne)]),
            flag("NonPrivateTexel", 0x400, &[]),
        ],
    )
}

#[test]
fn one_flag_per_enumerant_in_upper_case() {
    let b = gen_bit_enum_operand_kind(&image_operands(), &known()).unwrap();
    assert_eq!(b.name, "ImageOperands");
    assert_eq!(
        b.flags,
        vec![
            Flag { name: "NONE".to_string(), value: 0 },
            Flag { name: "BIAS".to_string(), value: 1 },
            Flag { name: "GRAD".to_string(), value: 4 },
            Flag { name: "MAKE_TEXEL_AVAILABLE".to_string(), value: 0x100 },
            Flag { name: "NON_PRIVATE_TEXEL".to_string(), value: 0x400 },
        ]
    );
}

#[test]
fn only_flags_with_parameters_have_operands() {
    let b = gen_bit_enum_operand_kind(&image_operands(), &known()).unwrap();
    assert_eq!(
        b.flag_operands,
        vec![
            FlagOperands {
                flag: "BIAS".to_string(),
                bits: 1,
                operands: vec![operand("IdRef", Quantifier::One)],
            },
            FlagOperands {
                flag: "GRAD".to_string(),
                bits: 4,
                operands: vec![operand("IdRef", Quantifier::One), operand("IdRef", Quantifier::One)],
            },
            FlagOperands {
                flag: "MAKE_TEXEL_AVAILABLE".to_string(),
                bits: 0x100,
                operands: vec![operand("IdScope", Quantifier::ZeroOrOne)],
            },
        ]
    );
}

#[test]
fn flag_operands_for_exactly_the_flags_bits() {
    let b = gen_bit_enum_operand_kind(&image_operands(), &known()).unwrap();
    assert_eq!(b.operands_of(4, "GRAD"), Some(&vec![
        operand("IdRef", Quantifier::One),
        operand("IdRef", Quantifier::One),
    ]));
    assert_eq!(b.operands_of(1, "BIAS"), Some(&vec![operand("IdRef", Quantifier::One)]));
}

#[test]
fn flag_operands_for_a_set_with_other_bits() {
    let b = gen_bit_enum_operand_kind(&image_operands(), &known()).unwrap();
    let grad = vec![operand("IdRef", Quantifier::One), operand("IdRef", Quantifier::One)];
    assert_eq!(b.operands_of(4 | 1, "GRAD"), Some(&grad));
    assert_eq!(b.operands_of(4 | 0x400 | 0x100, "GRAD"), Some(&grad));
    assert_eq!(b.operands_of(u32::MAX, "GRAD"), Some(&grad));
}

#[test]
fn no_flag_operands_when_bits_are_missing() {
    let b = gen_bit_enum_operand_kind(&image_operands(), &known()).unwrap();
    assert_eq!(b.operands_of(1, "GRAD"), None);
    assert_eq!(b.operands_of(0, "GRAD"), None);
    assert_eq!(b.operands_of(0x100, "BIAS"), None);
}

#[test]
fn no_flag_operands_without_parameters() {
    let b = gen_bit_enum_operand_kind(&image_operands(), &known()).unwrap();
    assert_eq!(b.operands_of(0, "NONE"), None);
    assert_eq!(b.operands_of(u32::MAX, "NONE"), None);
    assert_eq!(b.operands_of(0x400, "NON_PRIVATE_TEXEL"), None);
    assert_eq!(b.operands_of(u32::MAX, "Grad"), None);
    assert_eq!(b.operands_of(u32::MAX, "UNHEARD_OF"), None);
}

#[test]
fn zero_flag_with_parameters_is_in_every_set() {
    let kind = bit_kind("K", vec![flag("Nil", 0, &[("IdRef", Quantifier::ZeroOrMore)])]);
    let b = gen_bit_enum_operand_kind(&kind, &known()).unwrap();
    let ops = vec![operand("IdRef", Quantifier::ZeroOrMore)];
    assert_eq!(b.operands_of(0, "NIL"), Some(&ops));
    assert_eq!(b.operands_of(12, "NIL"), Some(&ops));
}

#[test]
fn values_are_taken_as_they_are() {
    let kind = bit_kind("K", vec![flag("Low", 3, &[("IdRef", Quantifier::One)]), flag("Same", 3, &[])]);
    let b = gen_bit_enum_operand_kind(&kind, &known()).unwrap();
    assert_eq!(
        b.flags,
        vec![Flag { name: "LOW".to_string(), value: 3 }, Flag { name: "SAME".to_string(), value: 3 }]
    );
    assert_eq!(b.operands_of(1, "LOW"), None);
    assert_eq!(b.operands_of(2, "LOW"), None);
    assert_eq!(b.operands_of(7, "LOW"), Some(&vec![operand("IdRef", Quantifier::One)]));
}

#[test]
fn not_a_number_is_one_word() {
    let kind = bit_kind(
        "FPFastMathMode",
        vec![flag("NotNaN", 1, &[]), flag("NaN", 2, &[]), flag("NotInf", 4, &[]), flag("NSZ", 8, &[])],
    );
    let b = gen_bit_enum_operand_kind(&kind, &known()).unwrap();
    let names: Vec<&str> = b.flags.iter().map(|f| f.name.as_str()).collect();
    assert_eq!(names, vec!["NOT_NAN", "NAN", "NOT_INF", "NSZ"]);
}

#[test]
fn flag_that_begins_with_a_digit_is_malformed() {
    let kind = bit_kind("K", vec![flag("Fine", 1, &[]), flag("2Much", 2, &[])]);
    assert_eq!(
        gen_bit_enum_operand_kind(&kind, &known()),
        Err(GenError::MalformedSymbol("2MUCH".to_string()))
    );
}

#[test]
fn flag_without_a_word_is_malformed() {
    let kind = bit_kind("K", vec![flag("--", 1, &[])]);
    assert_eq!(
        gen_bit_enum_operand_kind(&kind, &known()),
        Err(GenError::MalformedSymbol(String::new()))
    );
}

#[test]
fn unknown_parameter_kind_is_reported() {
    let kind = bit_kind("K", vec![flag("A", 1, &[("IdRef", Quantifier::One), ("Nowhere", Quantifier::One)])]);
    assert_eq!(
        gen_bit_enum_operand_kind(&kind, &known()),
        Err(GenError::UnknownOperandKind("Nowhere".to_string()))
    );
}

#[test]
fn malformed_parameter_kind_is_reported_before_unknown_ones() {
    let kind = bit_kind("K", vec![flag("A", 1, &[("Id Ref", Quantifier::One)])]);
    assert_eq!(
        gen_bit_enum_operand_kind(&kind, &known()),
        Err(GenError::MalformedSymbol("Id Ref".to_string()))
    );
}

#[test]
fn enumerants_are_checked_before_the_kind_name() {
    let bad_both = bit_kind("bad kind", vec![flag("2", 1, &[])]);
    assert_eq!(
        gen_bit_enum_operand_kind(&bad_both, &known()),
        Err(GenError::MalformedSymbol("2".to_string()))
    );
    let bad_name = bit_kind("bad kind", vec![flag("Fine", 1, &[])]);
    assert_eq!(
        gen_bit_enum_operand_kind(&bad_name, &known()),
        Err(GenError::MalformedSymbol("bad kind".to_string()))
    );
}

#[test]
fn empty_bit_kind_has_no_flags() {
    let b = gen_bit_enum_operand_kind(&bit_kind("Empty", vec![]), &known()).unwrap();
    assert!(b.flags.is_empty());
    assert!(b.flag_operands.is_empty());
    assert_eq!(b.operands_of(0, "ANY"), None);
    assert_eq!(
        b.doc,
        "SPIR-V operand kind: [Empty](https://www.khronos.org/registry/spir-v/specs/unified1/SPIRV.html#_a_id_empty_a_empty)"
    );
}
