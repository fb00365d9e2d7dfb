use spirv_header::error::GenError;
use spirv_header::link::{format_spec_link, get_spec_link};
use spirv_header::naming::{
    as_ident, flag_name, flag_name_from, is_valid_identifier, mend_nan, opcode_name, variant_name,
};
use spirv_header::text::{copy_texts, same_text, same_texts};

#[test]
fn identifiers_are_ascii_words() {
    for good in ["a", "A", "_", "_1", "Dim1D", "snake_case", "SHOUTY_1", "x9_"] {
        assert!(is_valid_identifier(good), "{}", good);
    }
    for bad in ["", "1", "1D", "a b", "a-b", "a.b", "é", "aé", "a\u{0}", " a", "a ", "r#a", "α"] {
        assert!(!is_valid_identifier(bad), "{}", bad);
    }
}

#[test]
fn as_ident_returns_the_text_or_reports_it() {
    assert_eq!(as_ident("Fine".to_string()), Ok("Fine".to_string()));
    assert_eq!(as_ident("not fine".to_string()), Err(GenError::MalformedSymbol("not fine".to_string())));
    assert_eq!(as_ident(String::new()), Err(GenError::MalformedSymbol(String::new())));
}

#[test]
fn variant_names_are_prefixed_in_the_digit_sensitive_kind_only() {
    assert_eq!(variant_name("Dim", "1D"), "Dim1D");
    assert_eq!(variant_name("Dim", "Cube"), "DimCube");
    assert_eq!(variant_name("Dim", ""), "Dim");
    assert_eq!(variant_name("dim", "1D"), "1D");
    assert_eq!(variant_name("Dimension", "1D"), "1D");
    assert_eq!(variant_name("Capability", "Shader"), "Shader");
    assert!(!variant_name("Dim", "1D").starts_with('1'));
}

#[test]
fn split_nan_is_joined_everywhere() {
    assert_eq!(mend_nan("NA_N"), "NAN");
    assert_eq!(mend_nan("NOT_NA_N"), "NOT_NAN");
    assert_eq!(mend_nan("NA_N_NA_N"), "NAN_NAN");
    assert_eq!(mend_nan("NA_NA_N"), "NANA_N");
    assert_eq!(mend_nan("XNA_NX"), "XNANX");
    assert_eq!(mend_nan("NA_NNA_N"), "NANNAN");
    assert_eq!(mend_nan("NA_"), "NA_");
    assert_eq!(mend_nan(""), "");
    assert_eq!(mend_nan("NAN"), "NAN");
    assert_eq!(mend_nan("na_n"), "na_n");
    assert_eq!(mend_nan("éNA_Né"), "éNANé");
    for text in ["NA_N", "NOT_NA_N", "NA_NA_N", "NA_N_NA_N", "ANA_NA_NA_N", "N", "NA_NNA_"] {
        assert_eq!(mend_nan(text), text.replace("NA_N", "NAN"));
    }
}

#[test]
fn flag_names_are_upper_case_words() {
    assert_eq!(flag_name("MakePointerAvailable"), Ok("MAKE_POINTER_AVAILABLE".to_string()));
    assert_eq!(flag_name("None"), Ok("NONE".to_string()));
    assert_eq!(flag_name("NotNaN"), Ok("NOT_NAN".to_string()));
    assert_eq!(flag_name("NaN"), Ok("NAN".to_string()));
    assert_eq!(flag_name("Flat1D"), Ok("FLAT1_D".to_string()));
    assert_eq!(flag_name("1D"), Err(GenError::MalformedSymbol("1D".to_string())));
    assert_eq!(flag_name(""), Err(GenError::MalformedSymbol(String::new())));
}

#[test]
fn flag_name_from_an_upper_case_form() {
    assert_eq!(flag_name_from("NOT_NA_N"), Ok("NOT_NAN".to_string()));
    assert_eq!(flag_name_from("PLAIN"), Ok("PLAIN".to_string()));
    assert_eq!(flag_name_from("9_LIVES"), Err(GenError::MalformedSymbol("9_LIVES".to_string())));
    assert_eq!(flag_name_from("9_NA_N"), Err(GenError::MalformedSymbol("9_NAN".to_string())));
}

#[test]
fn marked_opcode_with_foo() {
    assert_eq!(opcode_name(true, "OpFoo"), Ok("Foo".to_string()));
}

#[test]
fn unmarked_opcode_bar_is_unchanged() {
    assert_eq!(opcode_name(false, "Bar"), Ok("Bar".to_string()));
    assert_eq!(opcode_name(false, "OpBar"), Ok("OpBar".to_string()));
}

#[test]
fn opcode_names_that_cannot_be_used() {
    assert_eq!(opcode_name(true, "O"), Err(GenError::MalformedSymbol("O".to_string())));
    assert_eq!(opcode_name(true, "Op"), Err(GenError::MalformedSymbol(String::new())));
    assert_eq!(opcode_name(true, "Op-x"), Err(GenError::MalformedSymbol("-x".to_string())));
    assert_eq!(opcode_name(false, "a b"), Err(GenError::MalformedSymbol("a b".to_string())));
    assert_eq!(opcode_name(false, ""), Err(GenError::MalformedSymbol(String::new())));
}

#[test]
fn link_text_is_the_kind_and_anchor_its_snake_case() {
    assert_eq!(
        get_spec_link("ImageOperands"),
        "[ImageOperands](https://www.khronos.org/registry/spir-v/specs/unified1/SPIRV.html#_a_id_image_operands_a_image_operands)"
    );
    assert_eq!(
        get_spec_link("instructions"),
        "[instructions](https://www.khronos.org/registry/spir-v/specs/unified1/SPIRV.html#_a_id_instructions_a_instructions)"
    );
    assert_eq!(
        get_spec_link("FPFastMathMode"),
        "[FPFastMathMode](https://www.khronos.org/registry/spir-v/specs/unified1/SPIRV.html#_a_id_fp_fast_math_mode_a_fp_fast_math_mode)"
    );
}

#[test]
fn link_with_a_given_anchor() {
    assert_eq!(
        format_spec_link("Kind", "anchor"),
        "[Kind](https://www.khronos.org/registry/spir-v/specs/unified1/SPIRV.html#_a_id_anchor_a_anchor)"
    );
    assert_eq!(
        format_spec_link("", ""),
        "[](https://www.khronos.org/registry/spir-v/specs/unified1/SPIRV.html#_a_id__a_)"
    );
}

#[test]
fn texts_compare_by_their_characters() {
    assert!(same_text("", ""));
    assert!(same_text("abc", "abc"));
    assert!(same_text("é√", "é√"));
    assert!(!same_text("abc", "abd"));
    assert!(!same_text("abc", "ab"));
    assert!(!same_text("B", "b"));
    assert!(!same_text("é", "e"));
}

#[test]
fn lists_of_texts_compare_in_order() {
    let texts = |items: &[&str]| items.iter().map(|s| s.to_string()).collect::<Vec<String>>();
    assert!(same_texts(&texts(&[]), &texts(&[])));
    assert!(same_texts(&texts(&["a", "b"]), &texts(&["a", "b"])));
    assert!(!same_texts(&texts(&["a", "b"]), &texts(&["b", "a"])));
    assert!(!same_texts(&texts(&["a"]), &texts(&["a", "a"])));
    assert!(!same_texts(&texts(&["ab"]), &texts(&["a", "b"])));
    assert_eq!(copy_texts(&texts(&["x", "", "y"])), texts(&["x", "", "y"]));
}

#[test]
fn errors_say_what_is_wrong() {
    assert_eq!(
        GenError::MalformedSymbol("a b".to_string()).message(),
        "`a b` cannot be used as an identifier"
    );
    assert_eq!(
        GenError::UnknownOperandKind("IdRef".to_string()).message(),
        "`IdRef` is not an operand kind of the grammar"
    );
}
