use inject::derive::{derive_code, inject_derive, DeriveError};
use inject::model::{AttrModel, DataModel, DeriveInputModel, FieldModel, FieldTypeModel, MetaArg};
use inject::parse::{inject_derive_text, parse_derive_input};

const ABILITIES: &str = "pub struct Abilities<'a> {
    app: &'a App,
    #[class(name = \"bwm\")]
    class: JClass<'a>,
    #[field(name = \"c\", ty = \"Z\")]
    mayfly: bool,
    #[method(name = \"a\", sig = \"(F)V\")]
    setSpeed: fn(speed: f32) -> (),
}";

#[test]
fn parse_reads_names_attributes_and_types() {
    let m = parse_derive_input(ABILITIES).unwrap();
    assert_eq!(m.ident, "Abilities");
    let fields = match &m.data {
        DataModel::Struct(fields) => fields,
        _ => panic!("expected a struct"),
    };
    assert_eq!(fields.len(), 4);
    assert_eq!(fields[0].ident.as_deref(), Some("app"));
    assert!(fields[0].attrs.is_empty());
    assert_eq!(fields[1].attrs[0].ident.as_deref(), Some("class"));
    let args = fields[2].attrs[0].args.as_ref().unwrap();
    assert_eq!(args.len(), 2);
    match &args[1] {
        MetaArg::NameStr { ident, value } => {
            assert_eq!(ident.as_deref(), Some("ty"));
            assert_eq!(value, "Z");
        }
        MetaArg::Other => panic!("expected a string argument"),
    }
    assert_eq!(fields[2].ty_text, "bool");
    match &fields[3].ty {
        FieldTypeModel::BareFn { inputs, output } => {
            assert_eq!(inputs.len(), 1);
            assert_eq!(inputs[0].name.as_deref(), Some("speed"));
            assert_eq!(inputs[0].ty, "f32");
            assert_eq!(output.as_deref(), Some("()"));
        }
        FieldTypeModel::Other => panic!("expected a function type"),
    }
}

#[test]
fn parse_refuses_what_is_not_an_item() {
    assert!(parse_derive_input("fn main() {}").is_none());
    assert!(parse_derive_input("struct").is_none());
    assert!(matches!(inject_derive_text("let x = 1;"), Err(DeriveError::Parse)));
}

#[test]
fn parse_non_string_arguments_are_other() {
    let m = parse_derive_input("struct A<'a> { #[field(name = 1, ty)] x: i32 }").unwrap();
    let fields = match m.data {
        DataModel::Struct(fields) => fields,
        _ => panic!("expected a struct"),
    };
    let args = fields[0].attrs[0].args.as_ref().unwrap();
    assert!(matches!(args[0], MetaArg::Other));
    assert!(matches!(args[1], MetaArg::Other));
}

#[test]
fn derive_text_matches_model_derive() {
    let m = parse_derive_input(ABILITIES).unwrap();
    let code = inject_derive_text(ABILITIES).unwrap();
    assert_eq!(code, inject_derive(&m));
    assert!(code.starts_with("impl<'a> Abilities<'a> {\n"));
    assert!(code.contains("pub unsafe fn get_mayfly(&self) -> Result<bool, jni::errors::Error> {\n"));
    assert!(code.contains("pub unsafe fn setSpeed(&self, speed: f32) -> Result<(), jni::errors::Error> {\n"));
    assert!(code.contains("env.find_class(\"bwm\")?;"));
}

#[test]
fn derive_text_refusals() {
    assert!(matches!(inject_derive_text("struct T(i32);"), Err(DeriveError::UnnamedField)));
    assert!(matches!(
        inject_derive_text("struct A<'a> { #[field(name = \"a\")] x: i32 }"),
        Err(DeriveError::Unsupported)
    ));
    assert!(matches!(
        inject_derive_text("struct A<'a> { #[field(name = \"a\")] x: i32, y: i32 }"),
        Err(DeriveError::Unsupported)
    ));
    assert_eq!(inject_derive_text("enum E { A }").unwrap(), "");
}

fn named_bad() -> FieldModel {
    FieldModel {
        ident: Some("x".to_string()),
        ty_text: "i32".to_string(),
        ty: FieldTypeModel::Other,
        attrs: vec![AttrModel { ident: Some("field".to_string()), args: None }],
    }
}

fn unnamed() -> FieldModel {
    FieldModel { ident: None, ty_text: "i32".to_string(), ty: FieldTypeModel::Other, attrs: vec![] }
}

#[test]
fn derive_code_refusal_follows_first_bad_field() {
    let bad_first = DeriveInputModel { ident: "A".to_string(), data: DataModel::Struct(vec![named_bad(), unnamed()]) };
    assert_eq!(derive_code(&bad_first), Err(DeriveError::Unsupported));
    let unnamed_first =
        DeriveInputModel { ident: "A".to_string(), data: DataModel::Struct(vec![unnamed(), named_bad()]) };
    assert_eq!(derive_code(&unnamed_first), Err(DeriveError::UnnamedField));
    let e = DeriveInputModel { ident: "E".to_string(), data: DataModel::Enum };
    assert_eq!(derive_code(&e), Ok(String::new()));
}
