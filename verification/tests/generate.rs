use inject::generate::{field_code, generate_field, generate_method, get_jvalue, method_code};

#[test]
fn jvalue_per_type() {
    assert_eq!(get_jvalue("pause", "bool"), "JValue::Bool(pause as u8)");
    assert_eq!(get_jvalue("c", "char"), "JValue::Char(c)");
    assert_eq!(get_jvalue("color", "i32"), "JValue::Int(color)");
    assert_eq!(get_jvalue("x", "f32"), "JValue::Float(x)");
    assert_eq!(get_jvalue("y", "f64"), "JValue::Double(y)");
    assert_eq!(get_jvalue("text", "& str"), "JValue::from(&env.new_string(text)?)");
    assert_eq!(get_jvalue("hand", "InteractionHand"), "JValue::Object(&(hand.instance.as_ref().unwrap()))");
    assert_eq!(get_jvalue("s", "&str"), "JValue::Object(&(s.instance.as_ref().unwrap()))");
}

const GET_ENV: &str = "    let mut env = self.app.get_env()?;\n";

#[test]
fn field_accessors_primitive() {
    let code = generate_field("missTime", "i32", "x", "I", false);
    let expected = format!(
        "pub unsafe fn get_missTime(&self) -> Result<i32, jni::errors::Error> {{\n{GET_ENV}\
         \x20   let out = env.get_field(&(self.instance.as_ref().unwrap()), \"x\", \"I\")?.i()?;\n\
         \x20   Ok(out)\n}}\n\
         pub unsafe fn set_missTime(&self, val: i32) -> Result<(), jni::errors::Error> {{\n{GET_ENV}\
         \x20   let out = env.set_field(&(self.instance.as_ref().unwrap()), \"x\", \"I\", JValue::Int(val))?;\n\
         \x20   Ok(())\n}}\n"
    );
    assert_eq!(code, expected);
}

#[test]
fn field_accessors_static_object() {
    let code = generate_field("OFF_HAND", "InteractionHand", "b", "Lbcl;", true);
    let expected = format!(
        "pub unsafe fn get_OFF_HAND_static(&self) -> Result<InteractionHand, jni::errors::Error> {{\n{GET_ENV}\
         \x20   let out = env.get_static_field(&(self.class), \"b\", \"Lbcl;\")?.l()?;\n\
         \x20   let mut object = InteractionHand::new(self.app.clone())?;\n\
         \x20   object.set_instance(out);\n\
         \x20   let out = object;\n\
         \x20   Ok(out)\n}}\n\
         pub unsafe fn set_OFF_HAND_static(&self, val: InteractionHand) -> Result<(), jni::errors::Error> {{\n{GET_ENV}\
         \x20   let id = env.get_static_field_id(&(self.class), \"b\", \"Lbcl;\")?;\n\
         \x20   let out = env.set_static_field(&(self.class), id, JValue::Object(&(val.instance.as_ref().unwrap())))?;\n\
         \x20   Ok(())\n}}\n"
    );
    assert_eq!(code, expected);
}

#[test]
fn field_accessor_names_of_raw_identifier() {
    let code = generate_field("r#type", "bool", "t", "Z", false);
    assert!(code.starts_with("pub unsafe fn get_type(&self) -> Result<bool, jni::errors::Error> {\n"));
    assert!(code.contains("pub unsafe fn set_type(&self, val: bool)"));
    assert!(code.contains(")?.z()?;\n"));
    assert!(code.contains("JValue::Bool(val as u8)"));
}

#[test]
fn field_name_with_quote_is_escaped() {
    let code = generate_field("f", "i32", "a\"b", "I", false);
    assert!(code.contains("\"a\\\"b\""));
}

#[test]
fn method_with_arguments() {
    let args = vec![
        ("stack".to_string(), "& PoseStack".to_string()),
        ("text".to_string(), "& str".to_string()),
        ("color".to_string(), "i32".to_string()),
    ];
    let code = generate_method("draw", &Some("i32".to_string()), &args, "b", "(Leed;Ljava/lang/String;FFI)I", false);
    let expected = format!(
        "pub unsafe fn draw(&self, stack: & PoseStack, text: & str, color: i32) -> Result<i32, jni::errors::Error> {{\n{GET_ENV}\
         \x20   let out = env.call_method(&(self.instance.as_ref().unwrap()), \"b\", \"(Leed;Ljava/lang/String;FFI)I\", \
         &[JValue::Object(&(stack.instance.as_ref().unwrap())),JValue::from(&env.new_string(text)?),JValue::Int(color)])?.i()?;\n\
         \x20   Ok(out)\n}}\n"
    );
    assert_eq!(code, expected);
}

#[test]
fn static_method_returning_object() {
    let code = generate_method("get_instance", &Some("Minecraft".to_string()), &vec![], "N", "()Lejf;", true);
    let expected = format!(
        "pub unsafe fn get_instance_static(&self) -> Result<Minecraft, jni::errors::Error> {{\n{GET_ENV}\
         \x20   let out = env.call_static_method(&(self.class), \"N\", \"()Lejf;\", &[])?.l()?;\n\
         \x20   let mut object = Minecraft::new(self.app)?;\n\
         \x20   object.set_instance(out);\n\
         \x20   let out = object;\n\
         \x20   Ok(out)\n}}\n"
    );
    assert_eq!(code, expected);
}

#[test]
fn method_returning_unit() {
    let args = vec![("pause".to_string(), "bool".to_string())];
    let code = generate_method("pauseGame", &Some("()".to_string()), &args, "c", "(Z)V", false);
    let expected = format!(
        "pub unsafe fn pauseGame(&self, pause: bool) -> Result<(), jni::errors::Error> {{\n{GET_ENV}\
         \x20   let out = env.call_method(&(self.instance.as_ref().unwrap()), \"c\", \"(Z)V\", &[JValue::Bool(pause as u8)])?;\n\
         \x20   let out = ();\n\
         \x20   Ok(out)\n}}\n"
    );
    assert_eq!(code, expected);
}

#[test]
fn method_result_accessors() {
    let m = |out: &str| generate_method("m", &Some(out.to_string()), &vec![], "m", "()I", false);
    assert!(m("bool").contains("])?.z()?;\n    Ok(out)"));
    assert!(m("char").contains("])?.c()?;\n    Ok(out)"));
    assert!(m("i32").contains("])?.i()?;\n    Ok(out)"));
    assert!(m("f64").contains("])?.f()?;\n    Ok(out)"));
    // `f32` is not in the table of the generator: it is read as an object
    assert!(m("f32").contains("])?.l()?;\n    let mut object = f32::new(self.app)?;"));
}

#[test]
fn method_without_return_type_generates_nothing() {
    let args = vec![("pause".to_string(), "bool".to_string())];
    assert_eq!(generate_method("pauseGame", &None, &args, "c", "(Z)V", false), "");
}

#[test]
fn code_builders_take_literal_texts() {
    assert_eq!(field_code("missTime", "i32", "I", "\"x\"", "\"I\"", false), generate_field("missTime", "i32", "x", "I", false));
    let code = field_code("f", "Camera", "Leir;", "NAME", "TY", true);
    assert!(code.starts_with("pub unsafe fn get_f_static(&self) -> Result<Camera, jni::errors::Error> {\n"));
    assert!(code.contains("env.get_static_field(&(self.class), NAME, TY)?.l()?;\n"));
    assert!(code.contains("env.get_static_field_id(&(self.class), NAME, TY)?;\n"));
    let args = vec![("x".to_string(), "f32".to_string()), ("y".to_string(), "f32".to_string())];
    assert_eq!(
        method_code("setRotation", "()", &args, "\"a\"", "\"(FF)V\"", false),
        generate_method("setRotation", &Some("()".to_string()), &args, "a", "(FF)V", false)
    );
    let code = method_code("m", "bool", &vec![], "N", "S", true);
    assert!(code.contains("env.call_static_method(&(self.class), N, S, &[])?.z()?;\n"));
}

#[test]
fn literals_escape_ascii_specials() {
    let lit_of = |v: &str| {
        let code = generate_field("f", "i32", v, "I", false);
        let start = code.find("unwrap()), ").unwrap() + "unwrap()), ".len();
        let end = code[start..].find(", \"I\")").unwrap() + start;
        code[start..end].to_string()
    };
    assert_eq!(lit_of("x"), "\"x\"");
    assert_eq!(lit_of("a\"b"), "\"a\\\"b\"");
    assert_eq!(lit_of("a\\b"), "\"a\\\\b\"");
    assert_eq!(lit_of("a\nb\tc\rd"), "\"a\\nb\\tc\\rd\"");
    assert_eq!(lit_of("it's"), "\"it's\"");
    assert_eq!(lit_of("\u{1}"), "\"\\u{1}\"");
    assert_eq!(lit_of("\u{1f}"), "\"\\u{1f}\"");
    assert_eq!(lit_of("\u{7f}"), "\"\\u{7f}\"");
    assert_eq!(lit_of(""), "\"\"");
}

#[test]
fn literals_beyond_ascii_keep_their_value() {
    let lit_of = |v: &str| {
        let code = generate_field("f", "i32", v, "I", false);
        let start = code.find("unwrap()), ").unwrap() + "unwrap()), ".len();
        let end = code[start..].find(", \"I\")").unwrap() + start;
        code[start..end].to_string()
    };
    assert_eq!(lit_of("\u{e9}t\u{e9}"), "\"\u{e9}t\u{e9}\"");
    assert_eq!(lit_of("\u{540d}"), "\"\u{540d}\"");
    assert_eq!(lit_of("a\0b"), "\"a\\0b\"");
    assert_eq!(lit_of("\u{0}7"), "\"\\x007\"");
    assert_eq!(lit_of("\u{200b}"), "\"\\u{200b}\"");
}

#[test]
fn literal_names_differ_for_different_values() {
    let a = generate_field("f", "i32", "\u{e9}", "I", false);
    let b = generate_field("f", "i32", "I", "I", false);
    assert_ne!(a, b);
    assert!(a.contains("get_field(&(self.instance.as_ref().unwrap()), \"\u{e9}\", \"I\")"));
}
