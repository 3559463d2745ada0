use rustems::codegen::generator::{CHeaderGenerator, JavaRegistryGenerator, TsIniGenerator};
use rustems::codegen::model::{ConfigField, ConfigStructure, TypeRegistry};
use rustems::codegen::registry::VariableRegistry;

#[test]
fn test_c_header_generation() {
    let registry = VariableRegistry::new();
    let mut generator = CHeaderGenerator::new(registry);

    generator.start_file("test.txt");

    let types = TypeRegistry::new();
    let mut structure = ConfigStructure::new("test_struct", true);
    structure.add_field(ConfigField::new("field1", "uint8_t"));
    structure.add_field(ConfigField::new("field2", "float"));

    generator.handle_struct(&structure, &types);

    assert!(generator.output().contains("struct test_struct"));
    assert!(generator.output().contains("uint8_t field1"));
    assert!(generator.output().contains("float field2"));
}

#[test]
fn test_ts_generator() {
    let registry = VariableRegistry::new();
    let mut generator = TsIniGenerator::new(registry);

    generator.start_constants(1);

    let types = TypeRegistry::new();
    let field = ConfigField::new("testField", "uint16_t");
    // TunerStudio metadata: units "ms", scale 1, offset 0, min 0, max 1000, digits 0
    let ts_line = "\"ms\", 1, 0, 0, 1000, 0";

    generator.handle_field(&field, Some(ts_line), &types).unwrap();

    assert!(generator.constants().contains("testField"));
    assert!(generator.constants().contains("U16"));
    assert!(generator.constants().contains("ms"));
}

#[test]
fn test_config_field_array() {
    let mut field = ConfigField::new("test", "uint8_t");
    field.array_sizes = vec![4, 8];
    assert!(field.is_array());
    assert_eq!(field.total_array_size(), 32);
}

#[test]
fn c_header_full_text_and_size_define() {
    let mut generator = CHeaderGenerator::new(VariableRegistry::new());
    generator.set_zero_init(true);
    generator.start_file("cfg.txt");
    let types = TypeRegistry::new();
    let mut s = ConfigStructure::new("s", true);
    s.comment = Some("my struct".to_string());
    let mut table = ConfigField::new("t", "int16_t");
    table.array_sizes = vec![2, 3];
    table.comment = Some("a table".to_string());
    s.add_field(ConfigField::new("a", "uint8_t"));
    s.add_field(table);
    generator.handle_struct(&s, &types);
    generator.end_output();
    let expected = "//\n// Generated automatically from cfg.txt\n// by rusefi-codegen\n//\n\n\
#pragma once\n#include \"rusefi_types.h\"\n\n\
// my struct\n#pragma pack(push, 1)\nstruct s {\n    uint8_t a;\n    // a table\n    int16_t t[2][3];\n};\n#pragma pack(pop)\n\n\
\n// Defines section\n#define S_SIZE 16\n\n// end\n";
    assert_eq!(generator.output(), expected);
}

#[test]
fn c_header_without_defines() {
    let mut reg = VariableRegistry::new();
    reg.register("X", "1");
    let mut generator = CHeaderGenerator::new(reg);
    generator.set_with_defines(false);
    generator.end_output();
    assert_eq!(generator.output(), "\n// end\n");
}

#[test]
fn ts_offsets_arrays_and_errors() {
    let mut generator = TsIniGenerator::new(VariableRegistry::new());
    let types = TypeRegistry::new();
    generator.handle_field(&ConfigField::new("a", "uint32_t"), None, &types).unwrap();
    let mut arr = ConfigField::new("b", "uint8_t");
    arr.array_sizes = vec![3];
    generator.handle_field(&arr, None, &types).unwrap();
    let bit = ConfigField::new_bit_field("flag", None, None, None);
    generator.handle_field(&bit, None, &types).unwrap();
    assert_eq!(
        generator.handle_field(&ConfigField::new("c", "mystery_t"), None, &types),
        Err("Unknown type for TS: mystery_t".to_string())
    );
    assert_eq!(generator.total_size(), 7);
    assert_eq!(
        generator.constants(),
        [
            "    a = U32, 0, \"units\", 1, 0, 1, 100, 0\n",
            "    b1 = U08, 4, \"units\", 1, 0, 0, 100, 0\n",
            "    b2 = U08, 5, \"units\", 1, 0, 0, 100, 0\n",
            "    b3 = U08, 6, \"units\", 1, 0, 0, 100, 0\n",
        ]
        .concat()
    );
    assert_eq!(
        generator.generate_standalone(),
        format!("; Generated by rusefi-codegen\n\n[Constants]\n{}", generator.constants())
    );
}

#[test]
fn ts_merge_with_template() {
    let mut generator = TsIniGenerator::new(VariableRegistry::new());
    generator.start_constants(1);
    let template = "[Header]\nx=1\n; CONFIG_DEFINITION_START old\nold stuff\n; CONFIG_DEFINITION_END\n[Menu]\n";
    assert_eq!(
        generator.merge_with_template(template),
        "[Header]\nx=1\n; CONFIG_DEFINITION_START\npage = 1\n\n; CONFIG_DEFINITION_END\n\n[Menu]\n"
    );
    assert_eq!(
        generator.merge_with_template("[Only]"),
        "[Only]\n\n[Constants]\npage = 1\n"
    );
}

#[test]
fn java_registry_class() {
    let mut reg = VariableRegistry::new();
    reg.register_numeric("count", 16);
    reg.register("name", "abc");
    let text = JavaRegistryGenerator::render(&reg, "Values");
    assert_eq!(
        text,
        "// Generated by rusefi-codegen\n\npackage com.rusefi.config.generated;\n\n\
public class Values {\n    public static final int COUNT = 16;\n    public static final String NAME = \"abc\";\n}\n"
    );
}

#[test]
fn ts_scalar_advances_by_its_size() {
    let mut generator = TsIniGenerator::new(VariableRegistry::new());
    let types = TypeRegistry::new();
    generator.handle_field(&ConfigField::new("a", "uint8_t"), None, &types).unwrap();
    assert_eq!(generator.total_size(), 1);
    generator.handle_field(&ConfigField::new("b", "int16_t"), None, &types).unwrap();
    assert_eq!(generator.total_size(), 3);
    assert!(generator.constants().contains("b = S16, 1,"));
}
