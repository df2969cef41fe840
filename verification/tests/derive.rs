use inject::args::ArgMap;
use inject::derive::{class_code, derivable_check, generable_check, generate, get_args, get_jvalue, inject, inject_derive, instance_field, FieldSlot};
use inject::generate::generate_field;
use inject::model::{
    AttrModel, DataModel, DataShape, DeriveInputModel, FieldModel, FieldTypeModel, FieldsShape, FnArgModel, MetaArg,
};

fn s(x: &str) -> String {
    x.to_string()
}

fn arg(k: &str, v: &str) -> MetaArg {
    MetaArg::NameStr { ident: Some(s(k)), value: s(v) }
}

fn attr(name: &str, args: Vec<MetaArg>) -> AttrModel {
    AttrModel { ident: Some(s(name)), args: Some(args) }
}

fn field(name: &str, ty: &str, attrs: Vec<AttrModel>) -> FieldModel {
    FieldModel { ident: Some(s(name)), ty_text: s(ty), ty: FieldTypeModel::Other, attrs }
}

#[test]
fn derive_jvalue_table() {
    assert_eq!(get_jvalue(s("bool")), "JValue::Bool(val as u8)");
    assert_eq!(get_jvalue(s("char")), "JValue::Char(val)");
    assert_eq!(get_jvalue(s("i32")), "JValue::Int(val)");
    assert_eq!(get_jvalue(s("f32")), "JValue::Float(val)");
    assert_eq!(get_jvalue(s("f64")), "JValue::Double(val)");
    assert_eq!(get_jvalue(s("& str")), "JValue::Object(&(val.instance.as_ref().unwrap()))");
    assert_eq!(get_jvalue(s("Camera")), "JValue::Object(&(val.instance.as_ref().unwrap()))");
}

#[test]
fn derive_and_generator_tables_agree() {
    for ty in ["bool", "char", "i32", "f32", "f64", "Camera", "u8"] {
        assert_eq!(get_jvalue(s(ty)), inject::generate::get_jvalue("val", ty));
    }
    assert_ne!(get_jvalue(s("& str")), inject::generate::get_jvalue("val", "& str"));
}

#[test]
fn arg_map_insert_and_lookup() {
    let mut m = ArgMap::new();
    assert!(!m.contains_key("name"));
    assert_eq!(m.get("name"), None);
    m.insert(s("name"), s("x"));
    m.insert(s("ty"), s("I"));
    m.insert(s("name"), s("y"));
    assert_eq!(m.get("name"), Some(&s("y")));
    assert_eq!(m.get("ty"), Some(&s("I")));
    assert!(m.contains_key("ty"));
    assert!(!m.contains_key("static"));
}

#[test]
fn get_args_last_argument_wins() {
    let args = vec![arg("name", "x"), MetaArg::Other, arg("ty", "I"), arg("name", "aV")];
    let m = get_args(&args);
    assert_eq!(m.get("name"), Some(&s("aV")));
    assert_eq!(m.get("ty"), Some(&s("I")));
    assert!(!m.contains_key("static"));
}

#[test]
fn get_args_skips_other_arguments() {
    let m = get_args(&vec![MetaArg::Other, MetaArg::Other]);
    assert!(!m.contains_key("name"));
    let m = get_args(&vec![]);
    assert!(!m.contains_key(""));
}

#[test]
fn generate_class_constructor() {
    let f = field("class", "JClass < 'a >", vec![attr("class", vec![arg("name", "ejf")])]);
    let expected = "pub unsafe fn new(app: &'a App) -> Result<Self, jni::errors::Error> {\n    let mut env = app.get_env()?;\n    let system = env.find_class(\"ejf\")?;\n\n    Ok(Self {\n        instance: None,\n        class: system,\n        app: app\n    })\n}\n";
    assert_eq!(generate(&f), expected);
}

#[test]
fn generate_field_member() {
    let f = field("frames", "i32", vec![attr("field", vec![arg("name", "aV"), arg("ty", "I")])]);
    assert_eq!(generate(&f), generate_field("frames", "i32", "aV", "I", false));
}

#[test]
fn generate_static_field_member_any_value() {
    let f = field(
        "MAIN_HAND",
        "InteractionHand",
        vec![attr("field", vec![arg("name", "a"), arg("ty", "Lbcl;"), arg("static", "false")])],
    );
    assert_eq!(generate(&f), generate_field("MAIN_HAND", "InteractionHand", "a", "Lbcl;", true));
}

#[test]
fn generate_method_member() {
    let f = FieldModel {
        ident: Some(s("pauseGame")),
        ty_text: s("fn (pause : bool) -> ()"),
        ty: FieldTypeModel::BareFn {
            inputs: vec![FnArgModel { name: Some(s("pause")), ty: s("bool") }],
            output: Some(s("()")),
        },
        attrs: vec![attr("method", vec![arg("name", "c"), arg("sig", "(Z)V")])],
    };
    let code = generate(&f);
    assert!(code.starts_with("pub unsafe fn pauseGame(&self, pause: bool) -> Result<(), jni::errors::Error> {\n"));
    assert!(code.contains("env.call_method(&(self.instance.as_ref().unwrap()), \"c\", \"(Z)V\", &[JValue::Bool(pause as u8)])?;\n"));
}

#[test]
fn generate_method_member_on_non_function_type() {
    let f = field("get_fps", "i32", vec![attr("method", vec![])]);
    assert_eq!(generate(&f), "");
}

#[test]
fn generate_without_attribute_or_unknown_attribute() {
    assert_eq!(generate(&field("app", "& 'a App", vec![])), "");
    assert_eq!(generate(&field("x", "i32", vec![attr("lol", vec![])])), "");
}

#[test]
fn generate_uses_first_attribute_only() {
    let f = field(
        "frames",
        "i32",
        vec![attr("lol", vec![]), attr("field", vec![arg("name", "aV"), arg("ty", "I")])],
    );
    assert_eq!(generate(&f), "");
}

#[test]
fn derive_struct() {
    let ast = DeriveInputModel {
        ident: s("Abilities"),
        data: DataModel::Struct(vec![
            field("app", "& 'a App", vec![]),
            field("class", "JClass < 'a >", vec![attr("class", vec![arg("name", "bwm")])]),
            field("mayfly", "bool", vec![attr("field", vec![arg("name", "c"), arg("ty", "Z")])]),
        ]),
    };
    let class = generate(&field("class", "JClass < 'a >", vec![attr("class", vec![arg("name", "bwm")])]));
    let mayfly = generate_field("mayfly", "bool", "c", "Z", false);
    let expected = format!(
        "impl<'a> Abilities<'a> {{\n    pub unsafe fn set_instance(&mut self, instance: JObject<'a>) {{\n        self.instance.insert(instance);\n    }}\n{class}{mayfly}}}\n"
    );
    assert_eq!(inject_derive(&ast), expected);
}

#[test]
fn derive_empty_struct_and_enum() {
    let unit = DeriveInputModel { ident: s("PoseStack"), data: DataModel::Struct(vec![]) };
    assert_eq!(
        inject_derive(&unit),
        "impl<'a> PoseStack<'a> {\n    pub unsafe fn set_instance(&mut self, instance: JObject<'a>) {\n        self.instance.insert(instance);\n    }\n}\n"
    );
    let e = DeriveInputModel { ident: s("Hand"), data: DataModel::Enum };
    assert_eq!(inject_derive(&e), "");
    let u = DeriveInputModel { ident: s("Raw"), data: DataModel::Union };
    assert_eq!(inject_derive(&u), "");
}

#[test]
fn inject_keeps_app_and_class() {
    let names = vec![s("app"), s("class"), s("missTime"), s("frames"), s("player")];
    let slots = inject(&DataShape::Struct(FieldsShape::Named(names))).unwrap();
    assert_eq!(slots, vec![FieldSlot::Kept(0), FieldSlot::Kept(1), FieldSlot::Instance]);
}

#[test]
fn inject_keeps_original_order() {
    let names = vec![s("x"), s("class"), s("y"), s("app")];
    let slots = inject(&DataShape::Struct(FieldsShape::Named(names))).unwrap();
    assert_eq!(slots, vec![FieldSlot::Kept(1), FieldSlot::Kept(3), FieldSlot::Instance]);
}

#[test]
fn inject_twice_gives_same_fields() {
    let names = vec![s("app"), s("x"), s("class")];
    let once = inject(&DataShape::Struct(FieldsShape::Named(names.clone()))).unwrap();
    let once_names: Vec<String> = once
        .iter()
        .map(|slot| match slot {
            FieldSlot::Kept(i) => names[*i].clone(),
            FieldSlot::Instance => s("instance"),
        })
        .collect();
    assert_eq!(once_names, vec![s("app"), s("class"), s("instance")]);
    let twice = inject(&DataShape::Struct(FieldsShape::Named(once_names.clone()))).unwrap();
    let twice_names: Vec<String> = twice
        .iter()
        .map(|slot| match slot {
            FieldSlot::Kept(i) => once_names[*i].clone(),
            FieldSlot::Instance => s("instance"),
        })
        .collect();
    assert_eq!(twice_names, once_names);
}

#[test]
fn inject_leaves_tuple_and_unit_structs() {
    assert_eq!(inject(&DataShape::Struct(FieldsShape::Unnamed)), None);
    assert_eq!(inject(&DataShape::Struct(FieldsShape::Unit)), None);
    assert_eq!(inject(&DataShape::Struct(FieldsShape::Named(vec![]))), Some(vec![FieldSlot::Instance]));
}

#[test]
fn instance_field_declaration() {
    assert_eq!(instance_field(), "instance: Option<JObject<'a>>");
}

#[test]
fn generable_conditions() {
    let unnamed = FieldModel { ident: None, ty_text: s("i32"), ty: FieldTypeModel::Other, attrs: vec![] };
    assert!(!generable_check(&unnamed));
    assert!(generable_check(&field("app", "& 'a App", vec![])));
    let no_ident = FieldModel {
        ident: Some(s("x")),
        ty_text: s("i32"),
        ty: FieldTypeModel::Other,
        attrs: vec![AttrModel { ident: None, args: Some(vec![]) }],
    };
    assert!(!generable_check(&no_ident));
    let bad_args = FieldModel {
        ident: Some(s("x")),
        ty_text: s("i32"),
        ty: FieldTypeModel::Other,
        attrs: vec![AttrModel { ident: Some(s("field")), args: None }],
    };
    assert!(!generable_check(&bad_args));
    let path_arg = MetaArg::NameStr { ident: None, value: s("x") };
    assert!(!generable_check(&field("x", "i32", vec![attr("lol", vec![path_arg])])));
    assert!(!generable_check(&field("class", "JClass", vec![attr("class", vec![])])));
    assert!(!generable_check(&field("x", "i32", vec![attr("field", vec![arg("name", "x")])])));
    assert!(!generable_check(&field("x", "i32", vec![attr("field", vec![arg("name", "x"), arg("ty", "5")])])));
    assert!(!generable_check(&field("x", "i32", vec![attr("field", vec![arg("name", "x"), arg("ty", "")])])));
    assert!(!generable_check(&field("x", "i32", vec![attr("field", vec![arg("name", "x"), arg("ty", "[I")])])));
    assert!(generable_check(&field("x", "i32", vec![attr("field", vec![arg("name", "x"), arg("ty", "_")])])));
    assert!(generable_check(&field("x", "i32", vec![attr("method", vec![])])));
    let unnamed_param = FieldModel {
        ident: Some(s("m")),
        ty_text: s("fn (i32) -> ()"),
        ty: FieldTypeModel::BareFn {
            inputs: vec![FnArgModel { name: None, ty: s("i32") }],
            output: None,
        },
        attrs: vec![attr("method", vec![arg("name", "m"), arg("sig", "(I)V")])],
    };
    assert!(!generable_check(&unnamed_param));
    let no_sig = FieldModel {
        ident: Some(s("m")),
        ty_text: s("fn () -> ()"),
        ty: FieldTypeModel::BareFn { inputs: vec![], output: Some(s("()")) },
        attrs: vec![attr("method", vec![arg("name", "m")])],
    };
    assert!(!generable_check(&no_sig));
    let ok = DeriveInputModel { ident: s("A"), data: DataModel::Struct(vec![field("app", "& 'a App", vec![])]) };
    assert!(derivable_check(&ok));
    let bad = DeriveInputModel { ident: s("A"), data: DataModel::Struct(vec![unnamed]) };
    assert!(!derivable_check(&bad));
    assert!(derivable_check(&DeriveInputModel { ident: s("E"), data: DataModel::Enum }));
}

#[test]
fn class_code_with_literal() {
    let f = field("class", "JClass < 'a >", vec![attr("class", vec![arg("name", "java/lang/System")])]);
    assert_eq!(class_code("\"java/lang/System\""), generate(&f));
    assert!(class_code("LIT").contains("env.find_class(LIT)?;\n"));
}
