//! Reading the source text of a struct declaration with syn into the plain
//! model that the derive works on, and the derive on source text.

use vstd::prelude::*;
use crate::derive::{derivable, derive_code, derive_literals_ok, derive_text, DeriveError};
use crate::model::{AttrModel, DataModel, DeriveInputModel, FieldModel, FieldTypeModel, FnArgModel, MetaArg};

verus! {

#[verifier::external_type_specification]
#[verifier::external_body]
pub struct ExDeriveInput(syn::DeriveInput);

#[verifier::external_type_specification]
#[verifier::external_body]
pub struct ExField(syn::Field);

#[verifier::external_type_specification]
#[verifier::external_body]
pub struct ExAttribute(syn::Attribute);

#[verifier::external_type_specification]
#[verifier::external_body]
pub struct ExMeta(syn::Meta);

#[verifier::external_type_specification]
#[verifier::external_body]
pub struct ExBareFnArg(syn::BareFnArg);

#[verifier::external_type_specification]
#[verifier::external_body]
pub struct ExType(syn::Type);

/// The data of a parsed item, with a struct's fields still as syn's.
enum ItemData {
    Struct(Vec<syn::Field>),
    Enum,
    Union,
}

/// Calls `syn::parse_str` for a `DeriveInput`: the item that `tokens`
/// declares, or `None` when they do not parse as one. Nothing is stated of
/// the result: which token texts parse, and how the parsed types print
/// afterwards, depends on whether the process runs inside a procedural macro
/// (the compiler's tokens) or not (proc-macro2's own).
#[verifier::external_body]
fn parse_item(tokens: &str) -> (res: Option<syn::DeriveInput>) {
    syn::parse_str::<syn::DeriveInput>(tokens).ok()
}

/// Calls `Ident::to_string` on the item's name.
#[verifier::external_body]
fn item_ident(ast: &syn::DeriveInput) -> (res: String) {
    ast.ident.to_string()
}

/// Tells syn's `Data` variants apart; for a struct, its fields in order
/// (`Punctuated::iter`, with each `Field` cloned).
#[verifier::external_body]
fn item_data(ast: &syn::DeriveInput) -> (res: ItemData) {
    match &ast.data {
        syn::Data::Struct(s) => ItemData::Struct(s.fields.iter().cloned().collect()),
        syn::Data::Enum(_) => ItemData::Enum,
        syn::Data::Union(_) => ItemData::Union,
    }
}

/// Calls `Ident::to_string` on a field's name, where it has one.
#[verifier::external_body]
fn field_ident(f: &syn::Field) -> (res: Option<String>) {
    f.ident.as_ref().map(|i| i.to_string())
}

/// A field's type (`Type::clone`).
#[verifier::external_body]
fn field_type(f: &syn::Field) -> (res: syn::Type) {
    f.ty.clone()
}

/// A field's attributes, in source order (`Vec<Attribute>::clone`).
#[verifier::external_body]
fn field_attrs(f: &syn::Field) -> (res: Vec<syn::Attribute>) {
    f.attrs.clone()
}

/// Calls `ToTokens::to_token_stream` and prints the tokens of a type.
#[verifier::external_body]
fn type_text(ty: &syn::Type) -> (res: String) {
    quote::ToTokens::to_token_stream(ty).to_string()
}

/// Tells a bare function type apart from other types: its parameters in
/// order (`Punctuated::iter`, each cloned) and its return type when it has
/// `->`.
#[verifier::external_body]
fn bare_fn_parts(ty: &syn::Type) -> (res: Option<(Vec<syn::BareFnArg>, Option<syn::Type>)>) {
    match ty {
        syn::Type::BareFn(b) => Some((b.inputs.iter().cloned().collect(), match &b.output {
            syn::ReturnType::Type(_, out) => Some((**out).clone()),
            syn::ReturnType::Default => None,
        })),
        _ => None,
    }
}

/// Calls `Ident::to_string` on a bare function parameter's name, where it
/// has one.
#[verifier::external_body]
fn arg_name(a: &syn::BareFnArg) -> (res: Option<String>) {
    a.name.as_ref().map(|(n, _)| n.to_string())
}

/// A bare function parameter's type (`Type::clone`).
#[verifier::external_body]
fn arg_type(a: &syn::BareFnArg) -> (res: syn::Type) {
    a.ty.clone()
}

/// Calls `Path::get_ident` on an attribute's path and prints the identifier.
#[verifier::external_body]
fn attr_ident(a: &syn::Attribute) -> (res: Option<String>) {
    a.path.get_ident().map(|i| i.to_string())
}

/// Calls `Attribute::parse_args_with` with `Punctuated::parse_terminated`:
/// the attribute's arguments as comma-separated meta items, or `None` when
/// they do not parse so.
#[verifier::external_body]
fn attr_metas(a: &syn::Attribute) -> (res: Option<Vec<syn::Meta>>) {
    a.parse_args_with(syn::punctuated::Punctuated::<syn::Meta, syn::token::Comma>::parse_terminated).ok().map(
        |p| p.into_iter().collect(),
    )
}

/// For a `path = "string"` meta item, the path's identifier (when the path is
/// one) and the value of the string literal (`LitStr::value`); `None` for any
/// other meta item.
#[verifier::external_body]
fn meta_string(m: &syn::Meta) -> (res: Option<(Option<String>, String)>) {
    match m {
        syn::Meta::NameValue(syn::MetaNameValue { path, lit: syn::Lit::Str(s), .. }) => Some(
            (path.get_ident().map(|i| i.to_string()), s.value()),
        ),
        _ => None,
    }
}

/// The model of one attribute argument.
fn meta_arg_of(m: &syn::Meta) -> (res: MetaArg) {
    match meta_string(m) {
        Some((ident, value)) => MetaArg::NameStr { ident, value },
        None => MetaArg::Other,
    }
}

/// The models of an attribute's arguments, in order: the `i`-th is what
/// `meta_arg_of` gives for the `i`-th argument.
fn metas_model_of(metas: &Vec<syn::Meta>) -> (res: Vec<MetaArg>)
    ensures
        res.len() == metas.len(),
        forall|i: int| 0 <= i < metas.len() ==> call_ensures(meta_arg_of, (&metas@[i],), #[trigger] res@[i]),
{
    let mut out: Vec<MetaArg> = Vec::new();
    let mut i: usize = 0;
    while i < metas.len()
        invariant
            i <= metas.len(),
            out.len() == i,
            forall|j: int| 0 <= j < i ==> call_ensures(meta_arg_of, (&metas@[j],), #[trigger] out@[j]),
        decreases metas.len() - i,
    {
        out.push(meta_arg_of(&metas[i]));
        i = i + 1;
    }
    out
}

/// The model of an attribute: its identifier and its arguments, in order.
fn attr_model_of(a: &syn::Attribute) -> (res: AttrModel) {
    let ident = attr_ident(a);
    let args = match attr_metas(a) {
        Some(metas) => Some(metas_model_of(&metas)),
        None => None,
    };
    AttrModel { ident, args }
}

/// The model of one parameter of a bare function type: its name and the
/// token text of its type.
fn arg_model_of(p: &syn::BareFnArg) -> (res: FnArgModel) {
    FnArgModel { name: arg_name(p), ty: type_text(&arg_type(p)) }
}

/// The models of a bare function type's parameters, in source order: the
/// `i`-th is what `arg_model_of` gives for the `i`-th parameter.
fn params_model_of(params: &Vec<syn::BareFnArg>) -> (res: Vec<FnArgModel>)
    ensures
        res.len() == params.len(),
        forall|i: int| 0 <= i < params.len() ==> call_ensures(arg_model_of, (&params@[i],), #[trigger] res@[i]),
{
    let mut inputs: Vec<FnArgModel> = Vec::new();
    let mut i: usize = 0;
    while i < params.len()
        invariant
            i <= params.len(),
            inputs.len() == i,
            forall|j: int| 0 <= j < i ==> call_ensures(arg_model_of, (&params@[j],), #[trigger] inputs@[j]),
        decreases params.len() - i,
    {
        let p = &params[i];
        inputs.push(arg_model_of(p));
        i = i + 1;
    }
    inputs
}

/// The model of a field's type: a bare function type with its parameters in
/// order, or any other type.
fn type_model_of(ty: &syn::Type) -> (res: FieldTypeModel) {
    match bare_fn_parts(ty) {
        Some((params, output)) => {
            let inputs = params_model_of(&params);
            let output = match output {
                Some(out) => Some(type_text(&out)),
                None => None,
            };
            FieldTypeModel::BareFn { inputs, output }
        },
        None => FieldTypeModel::Other,
    }
}

/// The models of a field's attributes, in source order: the `i`-th is what
/// `attr_model_of` gives for the `i`-th attribute.
fn attrs_model_of(attrs: &Vec<syn::Attribute>) -> (res: Vec<AttrModel>)
    ensures
        res.len() == attrs.len(),
        forall|i: int| 0 <= i < attrs.len() ==> call_ensures(attr_model_of, (&attrs@[i],), #[trigger] res@[i]),
{
    let mut models: Vec<AttrModel> = Vec::new();
    let mut i: usize = 0;
    while i < attrs.len()
        invariant
            i <= attrs.len(),
            models.len() == i,
            forall|j: int| 0 <= j < i ==> call_ensures(attr_model_of, (&attrs@[j],), #[trigger] models@[j]),
        decreases attrs.len() - i,
    {
        models.push(attr_model_of(&attrs[i]));
        i = i + 1;
    }
    models
}

/// The model of a field: its name, its type's text and shape, and its
/// attributes in order.
fn field_model_of(f: &syn::Field) -> (res: FieldModel) {
    let ty = field_type(f);
    let attrs = field_attrs(f);
    let models = attrs_model_of(&attrs);
    FieldModel { ident: field_ident(f), ty_text: type_text(&ty), ty: type_model_of(&ty), attrs: models }
}

/// The models of a struct's fields, in source order: the `i`-th is what
/// `field_model_of` gives for the `i`-th field.
fn fields_model_of(fields: &Vec<syn::Field>) -> (res: Vec<FieldModel>)
    ensures
        res.len() == fields.len(),
        forall|i: int| 0 <= i < fields.len() ==> call_ensures(field_model_of, (&fields@[i],), #[trigger] res@[i]),
{
    let mut models: Vec<FieldModel> = Vec::new();
    let mut i: usize = 0;
    while i < fields.len()
        invariant
            i <= fields.len(),
            models.len() == i,
            forall|j: int| 0 <= j < i ==> call_ensures(field_model_of, (&fields@[j],), #[trigger] models@[j]),
        decreases fields.len() - i,
    {
        models.push(field_model_of(&fields[i]));
        i = i + 1;
    }
    models
}

/// The model of the item that `tokens` declares, or `None` when they do not
/// parse as a struct, enum or union declaration. syn's values are opaque here
/// and nothing is stated of what the calls above return, so the model is
/// built by verified loops but its tie to `tokens` is not stated.
pub fn parse_derive_input(tokens: &str) -> (res: Option<DeriveInputModel>) {
    let ast = match parse_item(tokens) {
        Some(ast) => ast,
        None => {
            return None;
        },
    };
    let data = match item_data(&ast) {
        ItemData::Struct(fields) => DataModel::Struct(fields_model_of(&fields)),
        ItemData::Enum => DataModel::Enum,
        ItemData::Union => DataModel::Union,
    };
    Some(DeriveInputModel { ident: item_ident(&ast), data })
}

/// `#[derive(Inject)]` on the source text of an item: the generated code, or
/// why the derive refuses the item. The text is parsed into the model by
/// `parse_derive_input` and the model is handed to `derive_code`. Whatever the
/// parse gives back, generated code is that of an item the derive can handle,
/// with string literals of its fields' literal sources; what a refusal means
/// is stated by `derive_code` on the model.
pub fn inject_derive_text(tokens: &str) -> (res: Result<String, DeriveError>)
    ensures
        res matches Ok(t) ==> exists|m: DeriveInputModel, lits: Seq<(Seq<char>, Seq<char>)>|
            #![trigger derive_text(m, lits)]
            derivable(m) && derive_literals_ok(m, lits) && t@ == derive_text(m, lits),
{
    match parse_derive_input(tokens) {
        Some(model) => derive_code(&model),
        None => Err(DeriveError::Parse),
    }
}

} // verus!
