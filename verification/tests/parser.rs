use rustems::codegen::model::ConfigField;
use rustems::codegen::parser::{
    parse_bit, parse_comment, parse_custom, parse_define, parse_document, parse_field,
    parse_line, parse_struct, ConfigLine,
};

#[test]
fn test_parse_comment() {
    let line = parse_comment("! This is a comment").unwrap();
    assert!(matches!(line, ConfigLine::Comment(_)));
}

#[test]
fn test_parse_define() {
    let line = parse_define("#define FLASH_DATA_VERSION 260407").unwrap();
    if let ConfigLine::Define(name, value) = line {
        assert_eq!(name, "FLASH_DATA_VERSION");
        assert_eq!(value, "260407");
    } else {
        panic!("Expected Define");
    }
}

#[test]
fn test_parse_struct() {
    let line = parse_struct("struct engine_configuration_s").unwrap();
    if let ConfigLine::StructStart { name, with_prefix, .. } = line {
        assert_eq!(name, "engine_configuration_s");
        assert!(with_prefix);
    } else {
        panic!("Expected StructStart");
    }
}

#[test]
fn test_parse_field_simple() {
    let line =
        parse_field("uint8_t cylindersCount;Number of Cylinders;\"count\",1,0,1,12,0").unwrap();
    if let ConfigLine::Field(field) = line {
        assert_eq!(field.name, "cylindersCount");
        assert_eq!(field.c_type, "uint8_t");
        assert!(field.ts_info_text.is_some());
    } else {
        panic!("Expected Field");
    }
}

#[test]
fn test_parse_field_array() {
    let line = parse_field("float veTable[16 x 16];VE table;\"%\",1,0,0,255,0").unwrap();
    if let ConfigLine::Field(field) = line {
        assert_eq!(field.name, "veTable");
        assert_eq!(field.array_sizes, vec![16, 16]);
    } else {
        panic!("Expected Field");
    }
}

#[test]
fn test_parse_bit() {
    let line = parse_bit("bit isEnabled;Enable this feature").unwrap();
    if let ConfigLine::BitField { name, .. } = line {
        assert_eq!(name, "isEnabled");
    } else {
        panic!("Expected BitField");
    }
}

#[test]
fn test_parse_custom() {
    let line =
        parse_custom("custom can_baudrate_e 1 bits, U08, @OFFSET@, [0:1], @@can_baudrate_e_enum@@")
            .unwrap();
    if let ConfigLine::CustomType(ct) = line {
        assert_eq!(ct.name, "can_baudrate_e");
        assert_eq!(ct.size, 1);
    } else {
        panic!("Expected CustomType");
    }
}

#[test]
fn test_minimal_config() {
    let minimal_config = r#"
! Test config file
#define TEST_VALUE 42
#define TEST_STRING "hello"

struct test_struct
uint8_t field1;First field;"units",1,0,0,255,0
uint16_t field2;Second field;"ms",1,0,0,1000,0
end_struct
"#;
    let lines = parse_document(minimal_config).unwrap();
    let defines: Vec<(String, String)> = lines
        .iter()
        .filter_map(|l| match l {
            ConfigLine::Define(k, v) => Some((k.clone(), v.clone())),
            _ => None,
        })
        .collect();
    assert_eq!(defines.len(), 2, "Expected 2 defines");
    assert!(defines.iter().any(|(k, _)| k.to_lowercase() == "test_value"));
    let fields = lines.iter().filter(|l| matches!(l, ConfigLine::Field(_))).count();
    assert_eq!(fields, 2, "Expected 2 fields");
}

#[test]
fn line_forms_are_tried_in_order() {
    assert_eq!(parse_line("end_struct"), Some(ConfigLine::StructEnd));
    assert_eq!(
        parse_line("include_file  path/to/x.txt "),
        Some(ConfigLine::Include("path/to/x.txt".to_string()))
    );
    assert_eq!(
        parse_line("split_lines@@VAR@@"),
        Some(ConfigLine::SplitLines("@@VAR@@".to_string()))
    );
    assert_eq!(
        parse_line("// slash comment"),
        Some(ConfigLine::Comment(" slash comment".to_string()))
    );
    match parse_line("struct_no_prefix cfg_s  the config ") {
        Some(ConfigLine::StructStart { name, with_prefix, comment }) => {
            assert_eq!(name, "cfg_s");
            assert!(!with_prefix);
            assert_eq!(comment, Some("the config".to_string()));
        }
        other => panic!("unexpected {:?}", other),
    }
    // "bitfoo" is not a bit line: it parses as a field of type bitfoo
    match parse_line("bitfoo x;c") {
        Some(ConfigLine::Field(f)) => {
            assert_eq!(f.c_type, "bitfoo");
            assert_eq!(f.name, "x");
            assert_eq!(f.comment, Some("c".to_string()));
        }
        other => panic!("unexpected {:?}", other),
    }
    assert_eq!(parse_line("% nothing"), None);
}

#[test]
fn define_edge_cases() {
    assert_eq!(
        parse_define("#define X"),
        Some(ConfigLine::Define("X".to_string(), String::new()))
    );
    assert_eq!(
        parse_define("#define @@T@@   a  b "),
        Some(ConfigLine::Define("@@T@@".to_string(), "a  b".to_string()))
    );
    assert_eq!(parse_define("#defineX 1"), None);
    assert_eq!(parse_define("#define 9x 1"), None);
}

#[test]
fn bit_labels_and_comment() {
    match parse_bit("bit useFoo,\"Yes\" , \"No\";the comment").unwrap() {
        ConfigLine::BitField { name, true_label, false_label, comment } => {
            assert_eq!(name, "useFoo");
            assert_eq!(true_label, Some("Yes".to_string()));
            assert_eq!(false_label, Some("No".to_string()));
            assert_eq!(comment, Some("the comment".to_string()));
        }
        other => panic!("unexpected {:?}", other),
    }
}

#[test]
fn field_array_forms() {
    match parse_field("uint8_t[8 iterate] ignitionPins;pins").unwrap() {
        ConfigLine::Field(f) => {
            assert_eq!(f.name, "ignitionPins");
            assert_eq!(f.array_sizes, vec![8]);
            assert!(f.is_iterate);
            assert_eq!(f.ts_info_text, None);
        }
        other => panic!("unexpected {:?}", other),
    }
    match parse_field("float t[@@N@@ X 4]").unwrap() {
        ConfigLine::Field(f) => assert_eq!(f.array_sizes, vec![0, 4]),
        other => panic!("unexpected {:?}", other),
    }
    assert_eq!(parse_field("float"), None);
}

#[test]
fn custom_size_falls_back_to_one() {
    match parse_custom("custom big_t 99999999999999999999999 bits").unwrap() {
        ConfigLine::CustomType(ct) => {
            assert_eq!(ct.size, 1);
            assert_eq!(ct.ts_line, "bits");
        }
        other => panic!("unexpected {:?}", other),
    }
    assert_eq!(parse_custom("custom t x bits"), None);
}

#[test]
fn document_reports_first_bad_line() {
    let err = parse_document("! ok\r\n\n%%%\nalso bad !").unwrap_err();
    assert_eq!(err, "Parse error at line 3: no line form matches\n  Line content: %%%");
    let lines = parse_document("a b\r\n   \n").unwrap();
    assert_eq!(lines.len(), 2);
    assert_eq!(lines[1], ConfigLine::Empty);
    match &lines[0] {
        ConfigLine::Field(f) => assert_eq!(*f, {
            let mut g = ConfigField::new("b", "a");
            g.comment = None;
            g
        }),
        other => panic!("unexpected {:?}", other),
    }
}
