use rustems::codegen::model::TypeRegistry;
use rustems::codegen::registry::VariableRegistry;

#[test]
fn test_register_and_get() {
    let mut reg = VariableRegistry::new();
    reg.register("TEST_VAR", "test_value");
    assert_eq!(reg.get("TEST_VAR"), Some("test_value"));
    assert_eq!(reg.get("test_var"), Some("test_value")); // case-insensitive
}

#[test]
fn test_apply_variables() {
    let mut reg = VariableRegistry::new();
    reg.register("SIZE", "16");
    reg.register("NAME", "test");

    let result = reg.apply_variables("Field @@NAME@@ has size @@SIZE@@");
    assert_eq!(result, "Field test has size 16");
}

#[test]
fn test_process_define() {
    let mut reg = VariableRegistry::new();
    reg.process_define_line("#define BLOCKING_FACTOR 1024").unwrap();
    assert_eq!(reg.get("BLOCKING_FACTOR"), Some("1024"));
    assert_eq!(reg.get_numeric("BLOCKING_FACTOR"), Some(1024));
}

#[test]
fn test_evaluate_expression() {
    let mut reg = VariableRegistry::new();
    reg.register_numeric("A", 10);
    reg.register_numeric("B", 5);

    assert_eq!(reg.evaluate("16 * 16"), Ok(256));
    assert_eq!(reg.evaluate("10 + 5"), Ok(15));
}

#[test]
fn test_unquote() {
    assert_eq!(VariableRegistry::unquote("\"hello\""), "hello");
    assert_eq!(VariableRegistry::unquote("'hello'"), "hello");
    assert_eq!(VariableRegistry::unquote("hello"), "hello");
}

#[test]
fn test_registry_expressions() {
    let mut registry = VariableRegistry::new();
    registry.register_numeric("BLOCKING_FACTOR", 1024);
    registry.register_numeric("FUEL_RPM_COUNT", 16);
    registry.register_numeric("FUEL_LOAD_COUNT", 16);

    let expr = "@@FUEL_RPM_COUNT@@ * @@FUEL_LOAD_COUNT@@";
    let expanded = registry.apply_variables(expr);
    assert_eq!(expanded, "16 * 16");

    let result = registry.evaluate("16 * 16").unwrap();
    assert_eq!(result, 256);
}

#[test]
fn register_overwrites_case_insensitively() {
    let mut reg = VariableRegistry::new();
    reg.register("Rpm", "1");
    reg.register("RPM", "2");
    assert_eq!(reg.get("rpm"), Some("2"));
    assert_eq!(reg.keys(), vec!["rpm".to_string()]);
    assert!(reg.contains("rPm"));
    assert!(!reg.contains("rpm2"));
}

#[test]
fn get_numeric_parses_text_values() {
    let mut reg = VariableRegistry::new();
    reg.register("N", "-42");
    reg.register("T", "abc");
    reg.register_numeric("M", -7);
    assert_eq!(reg.get_numeric("n"), Some(-42));
    assert_eq!(reg.get_numeric("t"), None);
    assert_eq!(reg.get_numeric("missing"), None);
    assert_eq!(reg.get_numeric("m"), Some(-7));
    assert_eq!(reg.get("m"), Some("-7"));
}

#[test]
fn templates_keep_unknown_names_and_stray_markers() {
    let mut reg = VariableRegistry::new();
    reg.register("x", "1");
    assert_eq!(reg.apply_variables("@@X@@+@@Y@@"), "1+@@Y@@");
    assert_eq!(reg.apply_variables("@@@X@@"), "@1");
    assert_eq!(reg.apply_variables("@@9X@@ @@ @@"), "@@9X@@ @@ @@");
    assert_eq!(reg.apply_quiet_template("a@#x#@b @@x@@"), "a1b @@x@@");
}

#[test]
fn define_line_errors_and_text_values() {
    let mut reg = VariableRegistry::new();
    assert_eq!(reg.process_define_line("int x;"), Err("Not a #define line".to_string()));
    assert_eq!(reg.process_define_line("  #define   "), Err("Empty define name".to_string()));
    assert_eq!(reg.process_define_line("  #define NAME  \"some text\"  "), Ok(()));
    assert_eq!(reg.get("name"), Some("\"some text\""));
    assert_eq!(reg.get_numeric("name"), None);
    assert_eq!(reg.process_define_line("#define EMPTY"), Ok(()));
    assert_eq!(reg.get("EMPTY"), Some(""));
}

#[test]
fn evaluation_splits_at_first_preferred_operator() {
    let reg = VariableRegistry::new();
    assert_eq!(reg.evaluate("2 * 3 + 4"), Ok(10));
    assert_eq!(reg.evaluate("10 - 5 - 2"), Ok(3));
    assert_eq!(reg.evaluate("2 + 3 * 4"), Ok(14));
    assert_eq!(reg.evaluate("10 - 2 - 3"), Ok(5));
    assert_eq!(reg.evaluate("24 / 4 / 2"), Ok(3));
    assert_eq!(reg.evaluate("3 * -2"), Ok(-6));
    assert_eq!(reg.evaluate("10 - -3"), Ok(13));
    assert_eq!(reg.evaluate("-4 + 10"), Ok(6));
    assert_eq!(reg.evaluate("7 / 2"), Ok(3));
    assert_eq!(reg.evaluate(" -5 "), Ok(-5));
    assert_eq!(reg.evaluate("x + 1"), Err("Cannot evaluate expression: x".to_string()));
    assert_eq!(reg.checked_evaluate("1 / 0"), None);
    assert_eq!(reg.checked_evaluate("3 * 3"), Some(Ok(9)));
}

#[test]
fn evaluate_substitutes_variables_first() {
    let mut reg = VariableRegistry::new();
    reg.register_numeric("COUNT", 16);
    assert_eq!(reg.evaluate("@@COUNT@@ * 4"), Ok(64));
}

#[test]
fn quote_and_unquote() {
    assert_eq!(VariableRegistry::quote("abc"), "\"abc\"");
    assert_eq!(VariableRegistry::unquote(&VariableRegistry::quote(" a b ")), " a b ");
    assert_eq!(VariableRegistry::unquote("\"x'"), "\"x'");
    assert_eq!(VariableRegistry::unquote("\""), "\"");
    assert_eq!(VariableRegistry::TEMPLATE_TAG, "@@");
    assert_eq!(VariableRegistry::MULT_TOKEN, '*');
}

#[test]
fn test_type_registry_primitives() {
    let reg = TypeRegistry::new();
    assert_eq!(reg.get_size("uint8_t"), 1);
    assert_eq!(reg.get_size("int16_t"), 2);
    assert_eq!(reg.get_size("float"), 4);
}

#[test]
fn type_registry_custom_struct_and_unknown_types() {
    let mut reg = TypeRegistry::new();
    assert_eq!(reg.get_size("my_custom"), 4);
    reg.register_custom("my_custom", 12);
    reg.register_struct("my_struct", 40);
    reg.register_struct("my_struct", 44);
    assert_eq!(reg.get_size("my_custom"), 12);
    assert_eq!(reg.get_size("my_struct"), 44);
    assert!(reg.is_struct("my_struct"));
    assert!(!reg.is_struct("my_custom"));
    assert!(reg.is_primitive("boolean"));
    assert!(!reg.is_primitive("my_struct"));
    // a custom type cannot shadow a primitive
    reg.register_custom("uint8_t", 3);
    assert_eq!(reg.get_size("uint8_t"), 1);
}

#[test]
fn type_ranges_and_ts_codes() {
    let reg = TypeRegistry::new();
    assert_eq!(reg.get_range("int8_t"), Some((-128, 127)));
    assert_eq!(reg.get_range("uint16_t"), Some((0, 65535)));
    assert_eq!(reg.get_range("int"), Some((i32::MIN as i64, i32::MAX as i64)));
    assert_eq!(reg.get_range("uint32_t"), Some((0, u32::MAX as i64)));
    assert_eq!(reg.get_range("float"), None);
    assert_eq!(reg.to_ts_type("float"), Some("F32"));
    assert_eq!(reg.to_ts_type("int"), Some("S32"));
    assert_eq!(reg.to_ts_type("uint8_t"), Some("U08"));
    assert_eq!(reg.to_ts_type("boolean"), None);
}

#[test]
fn prepend_content_registers_defines() {
    let mut reg = VariableRegistry::new();
    let content = "// header\n  #define FOO 12\r\nnot a define\n#define bar_name hello world\n";
    assert!(reg.read_prepend_content(content).is_ok());
    assert_eq!(reg.get("foo"), Some("12"));
    assert_eq!(reg.get_numeric("FOO"), Some(12));
    assert_eq!(reg.get("BAR_NAME"), Some("hello world"));
}

#[test]
fn prepend_content_reports_failing_line() {
    let mut reg = VariableRegistry::new();
    let content = "#define A 1\n\n#define\n#define B 2\n";
    assert_eq!(reg.read_prepend_content(content), Err((3, "Empty define name".to_string())));
    assert_eq!(reg.get("a"), Some("1"));
    assert_eq!(reg.get("b"), None);
}

#[test]
fn text_registration_replaces_cached_number() {
    let mut reg = VariableRegistry::new();
    reg.register_numeric("X", 5);
    assert_eq!(reg.get_numeric("x"), Some(5));
    reg.register("X", "abc");
    assert_eq!(reg.get("X"), Some("abc"));
    assert_eq!(reg.get_numeric("X"), None);
    reg.register("X", "12");
    assert_eq!(reg.get_numeric("X"), Some(12));
}

#[test]
fn type_sizes_after_registrations() {
    let mut types = TypeRegistry::new();
    types.register_custom("uint8_t", 9);
    types.register_struct("cfg_s", 12);
    types.register_custom("angle_t", 2);
    types.register_custom("angle_t", 4);
    assert_eq!(types.get_size("uint8_t"), 1);
    assert_eq!(types.get_size("int16_t"), 2);
    assert_eq!(types.get_size("boolean"), 4);
    assert_eq!(types.get_size("angle_t"), 4);
    assert_eq!(types.get_size("cfg_s"), 12);
    assert_eq!(types.get_size("unknown_t"), 4);
    assert_eq!(types.to_ts_type("int8_t"), Some("S08"));
    assert_eq!(types.to_ts_type("boolean"), None);
}

#[test]
fn numeric_text_round_trips_at_the_limits() {
    let mut reg = VariableRegistry::new();
    reg.register_numeric("lo", i64::MIN);
    reg.register_numeric("hi", i64::MAX);
    reg.register_numeric("zero", 0);
    assert_eq!(reg.get("lo"), Some("-9223372036854775808"));
    assert_eq!(reg.get("hi"), Some("9223372036854775807"));
    assert_eq!(reg.get("zero"), Some("0"));
    assert_eq!(reg.evaluate("-9223372036854775808"), Ok(i64::MIN));
    assert_eq!(reg.checked_evaluate("9223372036854775808"), Some(Err("Cannot evaluate expression: 9223372036854775808".to_string())));
    assert_eq!(reg.evaluate("+42"), Ok(42));
    assert_eq!(reg.checked_evaluate("4x"), Some(Err("Cannot evaluate expression: 4x".to_string())));
}
