//! The derive that generates the JNI wrapper methods of a game class, and the
//! attribute that rewrites such a class's fields.

use vstd::prelude::*;
use crate::args::ArgMap;
use crate::generate::{field_text, generate_field, generate_method, jni_type_ok, method_member_text};
use crate::model::{AttrModel, DataModel, DataShape, DeriveInputModel, FieldModel, FieldTypeModel, FieldsShape, FnArgModel, MetaArg};
use crate::text::{ascii_literal, ascii_without_nul, escaped_text, lemma_escaped_is_literal, literal_of, quoted, str_eq, string_literal};

verus! {

/// The JNI value expression that wraps a value `val` of the Rust type whose
/// token text is `ty`.
pub open spec fn jvalue_text(ty: Seq<char>) -> Seq<char> {
    if ty == "bool"@ {
        "JValue::Bool(val as u8)"@
    } else if ty == "char"@ {
        "JValue::Char(val)"@
    } else if ty == "i32"@ {
        "JValue::Int(val)"@
    } else if ty == "f32"@ {
        "JValue::Float(val)"@
    } else if ty == "f64"@ {
        "JValue::Double(val)"@
    } else {
        "JValue::Object(&(val.instance.as_ref().unwrap()))"@
    }
}

/// The JNI value expression for a value named `val` of type `ty`: primitives
/// map to their JNI variant, any other type to the wrapped object's instance.
pub fn get_jvalue(ty: String) -> (res: String)
    ensures
        res@ == jvalue_text(ty@),
{
    let t = ty.as_str();
    if str_eq(t, "bool") {
        String::from_str("JValue::Bool(val as u8)")
    } else if str_eq(t, "char") {
        String::from_str("JValue::Char(val)")
    } else if str_eq(t, "i32") {
        String::from_str("JValue::Int(val)")
    } else if str_eq(t, "f32") {
        String::from_str("JValue::Float(val)")
    } else if str_eq(t, "f64") {
        String::from_str("JValue::Double(val)")
    } else {
        String::from_str("JValue::Object(&(val.instance.as_ref().unwrap()))")
    }
}

/// Whether every `name = "value"` argument is named by a single identifier.
pub open spec fn args_named(args: Seq<MetaArg>) -> bool {
    forall|i: int|
        0 <= i < args.len() ==> (#[trigger] args[i] matches MetaArg::NameStr { ident, .. }
            ==> ident is Some)
}

/// The map that a list of arguments gives: each `name = "value"` argument in
/// turn sets `name` to `value`; other arguments are passed over.
pub open spec fn args_map(args: Seq<MetaArg>) -> Map<Seq<char>, Seq<char>>
    decreases args.len(),
{
    if args.len() == 0 {
        Map::empty()
    } else {
        let m = args_map(args.drop_last());
        match args.last() {
            MetaArg::NameStr { ident: Some(k), value } => m.insert(k@, value@),
            _ => m,
        }
    }
}

/// The map from argument names to values that an attribute's arguments give;
/// of two arguments with one name, the later one's value stands.
pub fn get_args(args: &Vec<MetaArg>) -> (res: ArgMap)
    requires
        args_named(args@),
    ensures
        res@ == args_map(args@),
{
    let mut map = ArgMap::new();
    let n = args.len();
    let mut i: usize = 0;
    while i < n
        invariant
            n == args.len(),
            i <= n,
            args_named(args@),
            map@ == args_map(args@.take(i as int)),
        decreases n - i,
    {
        assert(args@.take(i as int) =~= args@.take(i + 1).drop_last());
        match &args[i] {
            MetaArg::NameStr { ident, value } => {
                assert(args@[i as int] matches MetaArg::NameStr { ident, .. } ==> ident is Some);
                match ident {
                    Some(k) => {
                        map.insert(k.clone(), value.clone());
                    },
                    None => {},
                }
            },
            MetaArg::Other => {},
        }
        i = i + 1;
    }
    assert(args@.take(n as int) =~= args@);
    map
}

/// The arguments of an attribute, read as a map (empty when they do not parse).
pub open spec fn attr_args_map(a: AttrModel) -> Map<Seq<char>, Seq<char>> {
    match a.args {
        Some(args) => args_map(args@),
        None => Map::empty(),
    }
}

/// The name of an attribute (empty when its path is not one identifier).
pub open spec fn attr_name(a: AttrModel) -> Seq<char> {
    match a.ident {
        Some(n) => n@,
        None => Seq::empty(),
    }
}

/// The text of an optional name (empty when there is none).
pub open spec fn opt_text(o: Option<String>) -> Seq<char> {
    match o {
        Some(s) => s@,
        None => Seq::empty(),
    }
}

/// The parameters of a bare function type as (name, type) text pairs.
pub open spec fn fn_args(inputs: Seq<FnArgModel>) -> Seq<(String, String)> {
    inputs.map_values(|a: FnArgModel| (a.name->Some_0, a.ty))
}

/// Whether the derive can handle a field without panicking: the field is
/// named, and when it has attributes, its first attribute is named by one
/// identifier, its arguments parse, each `name = "value"` argument is named by
/// one identifier, and the arguments that its kind reads are there: `name` for
/// `class`; `name` and a `ty` that starts with an ASCII letter or `_` for
/// `field`; named parameters, `name` and `sig` for a `method` of function type.
pub open spec fn generable(f: FieldModel) -> bool {
    &&& f.ident is Some
    &&& f.attrs.len() >= 1 ==> {
        let a = f.attrs@[0];
        let m = attr_args_map(a);
        let n = attr_name(a);
        &&& a.ident is Some
        &&& a.args is Some
        &&& args_named(a.args->Some_0@)
        &&& n == "class"@ ==> m.contains_key("name"@)
        &&& n == "field"@ ==> m.contains_key("name"@) && m.contains_key("ty"@) && jni_type_ok(
            m["ty"@],
        )
        &&& n == "method"@ ==> match f.ty {
            FieldTypeModel::BareFn { inputs, .. } => {
                &&& forall|i: int| 0 <= i < inputs.len() ==> (#[trigger] inputs@[i]).name is Some
                &&& m.contains_key("name"@)
                &&& m.contains_key("sig"@)
            },
            FieldTypeModel::Other => true,
        }
    }
}

/// The constructor that the derive generates for a `#[class(name = ..)]`
/// member, where `class_lit` is the string literal of the class name: it looks
/// the Java class up by name.
pub open spec fn class_ctor_text(class_lit: Seq<char>) -> Seq<char> {
    "pub unsafe fn new(app: &'a App) -> Result<Self, jni::errors::Error> {\n    let mut env = app.get_env()?;\n    let system = env.find_class("@
        + class_lit
        + ")?;\n\n    Ok(Self {\n        instance: None,\n        class: system,\n        app: app\n    })\n}\n"@
}

/// The two argument values of a field's first attribute that stand in the
/// generated code as string literals (empty where the attribute has fewer):
/// `name` for `class`; `name` and `ty` for `field`; `name` and `sig` for a
/// `method` of function type.
pub open spec fn literal_sources(f: FieldModel) -> (Seq<char>, Seq<char>) {
    if f.attrs.len() < 1 {
        (Seq::empty(), Seq::empty())
    } else {
        let a = f.attrs@[0];
        let m = attr_args_map(a);
        let n = attr_name(a);
        if n == "class"@ {
            (m["name"@], Seq::empty())
        } else if n == "field"@ {
            (m["name"@], m["ty"@])
        } else if n == "method"@ {
            match f.ty {
                FieldTypeModel::BareFn { .. } => (m["name"@], m["sig"@]),
                FieldTypeModel::Other => (Seq::empty(), Seq::empty()),
            }
        } else {
            (Seq::empty(), Seq::empty())
        }
    }
}

/// Whether `lits` can be the string literals of the field's literal sources.
pub open spec fn literals_ok(f: FieldModel, lits: (Seq<char>, Seq<char>)) -> bool {
    literal_of(lits.0, literal_sources(f).0) && literal_of(lits.1, literal_sources(f).1)
}

/// Whether both literal sources of the field are ASCII without NUL, so that
/// their string literals are fixed (see `literal_of`).
pub open spec fn sources_ascii(f: FieldModel) -> bool {
    ascii_without_nul(literal_sources(f).0) && ascii_without_nul(literal_sources(f).1)
}

/// The string literals of the field's literal sources when they are ASCII
/// without NUL.
pub open spec fn ascii_lits(f: FieldModel) -> (Seq<char>, Seq<char>) {
    (ascii_literal(literal_sources(f).0), ascii_literal(literal_sources(f).1))
}

/// What the derive generates for one field, given the string literals `lits`
/// of its literal sources: only its first attribute counts; a `class`
/// attribute gives the constructor, a `field` attribute the getter and setter,
/// a `method` attribute on a function-typed field the call method; a field
/// without attributes, or with any other first attribute, gives nothing. The
/// `static` argument, with any value, marks a static member.
pub open spec fn generate_text(f: FieldModel, lits: (Seq<char>, Seq<char>)) -> Seq<char> {
    if f.attrs.len() < 1 {
        Seq::empty()
    } else {
        let a = f.attrs@[0];
        let m = attr_args_map(a);
        let n = attr_name(a);
        if n == "class"@ {
            class_ctor_text(lits.0)
        } else if n == "field"@ {
            field_text(
                opt_text(f.ident),
                f.ty_text@,
                m["ty"@],
                lits.0,
                lits.1,
                m.contains_key("static"@),
            )
        } else if n == "method"@ {
            match f.ty {
                FieldTypeModel::BareFn { inputs, output } => method_member_text(
                    opt_text(f.ident),
                    output,
                    fn_args(inputs@),
                    lits.0,
                    lits.1,
                    m.contains_key("static"@),
                ),
                FieldTypeModel::Other => Seq::empty(),
            }
        } else {
            Seq::empty()
        }
    }
}

/// The constructor of a `#[class(..)]` member, given the string literal
/// `class_lit` of the class name.
pub fn class_code(class_lit: &str) -> (res: String)
    ensures
        res@ == class_ctor_text(class_lit@),
{
    let mut s = String::from_str(
        "pub unsafe fn new(app: &'a App) -> Result<Self, jni::errors::Error> {\n    let mut env = app.get_env()?;\n    let system = env.find_class(",
    );
    s.append(class_lit);
    s.append(
        ")?;\n\n    Ok(Self {\n        instance: None,\n        class: system,\n        app: app\n    })\n}\n",
    );
    s
}

fn collect_fn_args(inputs: &Vec<FnArgModel>) -> (res: Vec<(String, String)>)
    requires
        forall|i: int| 0 <= i < inputs.len() ==> (#[trigger] inputs@[i]).name is Some,
    ensures
        res@ == fn_args(inputs@),
{
    let mut res: Vec<(String, String)> = Vec::new();
    let n = inputs.len();
    let mut i: usize = 0;
    while i < n
        invariant
            n == inputs.len(),
            i <= n,
            forall|j: int| 0 <= j < inputs.len() ==> (#[trigger] inputs@[j]).name is Some,
            res@ =~= fn_args(inputs@.take(i as int)),
        decreases n - i,
    {
        let arg = &inputs[i];
        assert(arg.name is Some);
        let name = arg.name.as_ref().unwrap().clone();
        res.push((name, arg.ty.clone()));
        i = i + 1;
    }
    assert(inputs@.take(n as int) =~= inputs@);
    res
}

/// The code that the derive generates for one field (see `generate_text`),
/// with string literals of the field's literal sources (see `literal_of`).
pub fn generate(f: &FieldModel) -> (res: String)
    requires
        generable(*f),
    ensures
        exists|lits: (Seq<char>, Seq<char>)|
            #![trigger generate_text(*f, lits)]
            literals_ok(*f, lits) && res@ == generate_text(*f, lits),
        sources_ascii(*f) ==> res@ == generate_text(*f, ascii_lits(*f)),
{
    let field_name = f.ident.as_ref().unwrap();
    let ghost no_lits = (
        quoted(escaped_text(literal_sources(*f).0)),
        quoted(escaped_text(literal_sources(*f).1)),
    );
    proof {
        lemma_escaped_is_literal(literal_sources(*f).0);
        lemma_escaped_is_literal(literal_sources(*f).1);
    }
    if f.attrs.len() < 1 {
        assert(literals_ok(*f, no_lits) && Seq::<char>::empty() == generate_text(*f, no_lits));
        return String::new();
    }
    let attr = &f.attrs[0];
    let name = attr.ident.as_ref().unwrap();
    let args = get_args(attr.args.as_ref().unwrap());
    let n = name.as_str();
    if str_eq(n, "class") {
        let class = args.get("name").unwrap();
        let lit = string_literal(class.as_str());
        let res = class_code(lit.as_str());
        proof {
            lemma_escaped_is_literal(Seq::<char>::empty());
            let lits = (lit@, quoted(escaped_text(Seq::<char>::empty())));
            assert(literals_ok(*f, lits) && res@ == generate_text(*f, lits));
        }
        res
    } else if str_eq(n, "field") {
        let attr_name = args.get("name").unwrap();
        let attr_ty = args.get("ty").unwrap();
        let is_static = args.contains_key("static");
        let res = generate_field(
            field_name.as_str(),
            f.ty_text.as_str(),
            attr_name.as_str(),
            attr_ty.as_str(),
            is_static,
        );
        proof {
            let (nl, tl) = choose|nl: Seq<char>, tl: Seq<char>|
                #![trigger field_text(field_name@, f.ty_text@, attr_ty@, nl, tl, is_static)]
                literal_of(nl, attr_name@) && literal_of(tl, attr_ty@) && res@ == field_text(
                    field_name@,
                    f.ty_text@,
                    attr_ty@,
                    nl,
                    tl,
                    is_static,
                );
            assert(literals_ok(*f, (nl, tl)) && res@ == generate_text(*f, (nl, tl)));
        }
        res
    } else if str_eq(n, "method") {
        match &f.ty {
            FieldTypeModel::BareFn { inputs, output } => {
                let method_args = collect_fn_args(inputs);
                let attr_name = args.get("name").unwrap();
                let attr_sig = args.get("sig").unwrap();
                let is_static = args.contains_key("static");
                let res = generate_method(
                    field_name.as_str(),
                    output,
                    &method_args,
                    attr_name.as_str(),
                    attr_sig.as_str(),
                    is_static,
                );
                proof {
                    let (nl, sl) = choose|nl: Seq<char>, sl: Seq<char>|
                        #![trigger method_member_text(field_name@, *output, method_args@, nl, sl, is_static)]
                        literal_of(nl, attr_name@) && literal_of(sl, attr_sig@) && res@
                            == method_member_text(
                            field_name@,
                            *output,
                            method_args@,
                            nl,
                            sl,
                            is_static,
                        );
                    assert(literals_ok(*f, (nl, sl)) && res@ == generate_text(*f, (nl, sl)));
                }
                res
            },
            FieldTypeModel::Other => {
                assert(literals_ok(*f, no_lits) && Seq::<char>::empty() == generate_text(*f, no_lits));
                String::new()
            },
        }
    } else {
        assert(literals_ok(*f, no_lits) && Seq::<char>::empty() == generate_text(*f, no_lits));
        String::new()
    }
}

/// What the derive generates for the fields, in order, given the string
/// literals of each field's literal sources.
pub open spec fn fields_text(fields: Seq<FieldModel>, lits: Seq<(Seq<char>, Seq<char>)>) -> Seq<
    char,
>
    decreases fields.len(),
{
    if fields.len() == 0 {
        Seq::empty()
    } else {
        fields_text(fields.drop_last(), lits.drop_last()) + generate_text(fields.last(), lits.last())
    }
}

/// Whether the derive can handle the item without panicking: every field of a
/// struct can be handled.
pub open spec fn derivable(ast: DeriveInputModel) -> bool {
    match ast.data {
        DataModel::Struct(fields) => forall|i: int|
            0 <= i < fields.len() ==> generable(#[trigger] fields@[i]),
        _ => true,
    }
}

/// Whether `lits` holds, for each field of a struct, string literals of its
/// literal sources.
pub open spec fn derive_literals_ok(ast: DeriveInputModel, lits: Seq<(Seq<char>, Seq<char>)>) -> bool {
    match ast.data {
        DataModel::Struct(fields) => lits.len() == fields.len() && forall|i: int|
            0 <= i < fields.len() ==> literals_ok(#[trigger] fields@[i], lits[i]),
        _ => true,
    }
}

/// Whether the literal sources of every field of a struct are ASCII without NUL.
pub open spec fn derive_sources_ascii(ast: DeriveInputModel) -> bool {
    match ast.data {
        DataModel::Struct(fields) => forall|i: int|
            0 <= i < fields.len() ==> sources_ascii(#[trigger] fields@[i]),
        _ => true,
    }
}

/// The string literals of each field's literal sources when they are ASCII
/// without NUL.
pub open spec fn derive_ascii_lits(ast: DeriveInputModel) -> Seq<(Seq<char>, Seq<char>)> {
    match ast.data {
        DataModel::Struct(fields) => Seq::new(fields@.len(), |i: int| ascii_lits(fields@[i])),
        _ => Seq::empty(),
    }
}

/// The start of the `impl` block that the derive generates for the struct `name`.
pub open spec fn impl_head(name: Seq<char>) -> Seq<char> {
    "impl<'a> "@ + name
        + "<'a> {\n    pub unsafe fn set_instance(&mut self, instance: JObject<'a>) {\n        self.instance.insert(instance);\n    }\n"@
}

/// What the derive generates for an item: for a struct, an `impl` block with
/// `set_instance` followed by the code of each field in order; nothing for an
/// enum or a union.
pub open spec fn derive_text(ast: DeriveInputModel, lits: Seq<(Seq<char>, Seq<char>)>) -> Seq<char> {
    match ast.data {
        DataModel::Struct(fields) => impl_head(ast.ident@) + fields_text(fields@, lits) + "}\n"@,
        _ => Seq::empty(),
    }
}

fn produce(ast: &DeriveInputModel) -> (res: String)
    requires
        derivable(*ast),
    ensures
        exists|lits: Seq<(Seq<char>, Seq<char>)>|
            #![trigger derive_text(*ast, lits)]
            derive_literals_ok(*ast, lits) && res@ == derive_text(*ast, lits),
        derive_sources_ascii(*ast) ==> res@ == derive_text(*ast, derive_ascii_lits(*ast)),
{
    match &ast.data {
        DataModel::Struct(fields) => {
            let mut generated = String::new();
            let ghost mut lits: Seq<(Seq<char>, Seq<char>)> = Seq::empty();
            let n = fields.len();
            let mut i: usize = 0;
            while i < n
                invariant
                    n == fields.len(),
                    i <= n,
                    forall|j: int| 0 <= j < fields.len() ==> generable(#[trigger] fields@[j]),
                    lits.len() == i,
                    forall|j: int| 0 <= j < i ==> literals_ok(#[trigger] fields@[j], lits[j]),
                    generated@ == fields_text(fields@.take(i as int), lits),
                decreases n - i,
            {
                let g = generate(&fields[i]);
                let ghost l = choose|l: (Seq<char>, Seq<char>)|
                    #![trigger generate_text(fields@[i as int], l)]
                    literals_ok(fields@[i as int], l) && g@ == generate_text(fields@[i as int], l);
                let ghost old_lits = lits;
                proof {
                    lits = lits.push(l);
                    assert(fields@.take(i as int) =~= fields@.take(i + 1).drop_last());
                    assert(lits.drop_last() =~= old_lits);
                    assert forall|j: int| 0 <= j < i + 1 implies literals_ok(
                        #[trigger] fields@[j],
                        lits[j],
                    ) by {
                        if j < i {
                            assert(lits[j] == old_lits[j]);
                        }
                    }
                }
                generated.append(g.as_str());
                i = i + 1;
            }
            assert(fields@.take(n as int) =~= fields@);
            let mut s = String::from_str("impl<'a> ");
            s.append(ast.ident.as_str());
            s.append(
                "<'a> {\n    pub unsafe fn set_instance(&mut self, instance: JObject<'a>) {\n        self.instance.insert(instance);\n    }\n",
            );
            s.append(generated.as_str());
            s.append("}\n");
            assert(derive_literals_ok(*ast, lits) && s@ == derive_text(*ast, lits));
            proof {
                if derive_sources_ascii(*ast) {
                    assert forall|j: int| 0 <= j < n implies lits[j] == #[trigger] derive_ascii_lits(
                        *ast,
                    )[j] by {
                        assert(literals_ok(fields@[j], lits[j]));
                        assert(sources_ascii(fields@[j]));
                    }
                    assert(lits =~= derive_ascii_lits(*ast));
                }
            }
            s
        },
        _ => {
            assert(derive_literals_ok(*ast, Seq::empty()) && Seq::<char>::empty() == derive_text(
                *ast,
                Seq::empty(),
            ));
            String::new()
        },
    }
}

/// The code that `#[derive(Inject)]` generates for an item (see
/// `derive_text`), with string literals of each field's literal sources.
pub fn inject_derive(ast: &DeriveInputModel) -> (res: String)
    requires
        derivable(*ast),
    ensures
        exists|lits: Seq<(Seq<char>, Seq<char>)>|
            #![trigger derive_text(*ast, lits)]
            derive_literals_ok(*ast, lits) && res@ == derive_text(*ast, lits),
        derive_sources_ascii(*ast) ==> res@ == derive_text(*ast, derive_ascii_lits(*ast)),
{
    produce(ast)
}

/// A field of the struct that the field-rewriting attribute gives back.
#[derive(Debug, PartialEq, Eq, Structural)]
pub enum FieldSlot {
    /// The field at this index of the original declaration, unchanged.
    Kept(usize),
    /// The field `instance: Option<JObject<'a>>` (see `instance_field`).
    Instance,
}

/// Whether a field of this name is kept by the field-rewriting attribute.
pub open spec fn kept_name(name: Seq<char>) -> bool {
    name == "app"@ || name == "class"@
}

/// The fields that the attribute keeps, as slots, in their original order.
pub open spec fn kept_slots(names: Seq<String>) -> Seq<FieldSlot>
    decreases names.len(),
{
    if names.len() == 0 {
        Seq::empty()
    } else {
        kept_slots(names.drop_last()) + if kept_name(names.last()@) {
            seq![FieldSlot::Kept((names.len() - 1) as usize)]
        } else {
            Seq::empty()
        }
    }
}

/// The field list that the attribute gives a struct with named fields: the
/// fields named `app` and `class`, in their original order, then `instance`.
pub open spec fn inject_slots(names: Seq<String>) -> Seq<FieldSlot> {
    kept_slots(names).push(FieldSlot::Instance)
}

/// The field list that `#[inject]` gives the struct: for named fields, the
/// fields named `app` or `class` in their original order followed by the
/// `instance` field; `None` for a tuple or unit struct, whose fields stay as
/// they are. Any other item is refused (by `requires`), as the attribute
/// panics on it.
pub fn inject(data: &DataShape) -> (res: Option<Vec<FieldSlot>>)
    requires
        data is Struct,
    ensures
        match data {
            DataShape::Struct(FieldsShape::Named(names)) => res is Some && res->Some_0@ == inject_slots(names@),
            _ => res is None,
        },
{
    match data {
        DataShape::Struct(FieldsShape::Named(names)) => {
            let mut slots: Vec<FieldSlot> = Vec::new();
            let n = names.len();
            let mut i: usize = 0;
            while i < n
                invariant
                    n == names.len(),
                    i <= n,
                    slots@ == kept_slots(names@.take(i as int)),
                decreases n - i,
            {
                assert(names@.take(i as int) =~= names@.take(i + 1).drop_last());
                let name = names[i].as_str();
                if str_eq(name, "app") || str_eq(name, "class") {
                    slots.push(FieldSlot::Kept(i));
                } else {
                    assert(slots@ =~= slots@ + Seq::<FieldSlot>::empty());
                }
                i = i + 1;
            }
            assert(names@.take(n as int) =~= names@);
            slots.push(FieldSlot::Instance);
            Some(slots)
        },
        _ => None,
    }
}

/// The declaration of the field that `#[inject]` adds.
pub fn instance_field() -> (res: String)
    ensures
        res@ == "instance: Option<JObject<'a>>"@,
{
    String::from_str("instance: Option<JObject<'a>>")
}

fn all_args_named(args: &Vec<MetaArg>) -> (res: bool)
    ensures
        res == args_named(args@),
{
    let n = args.len();
    let mut i: usize = 0;
    while i < n
        invariant
            n == args.len(),
            i <= n,
            forall|j: int|
                0 <= j < i ==> (#[trigger] args@[j] matches MetaArg::NameStr { ident, .. }
                    ==> ident is Some),
        decreases n - i,
    {
        match &args[i] {
            MetaArg::NameStr { ident: None, .. } => {
                return false;
            },
            _ => {},
        }
        i = i + 1;
    }
    true
}

fn jni_type_check(sig: &str) -> (res: bool)
    ensures
        res == jni_type_ok(sig@),
{
    if sig.unicode_len() == 0 {
        return false;
    }
    let c = sig.get_char(0);
    ('A' <= c && c <= 'Z') || ('a' <= c && c <= 'z') || c == '_'
}

/// Whether the derive can handle the field (see `generable`); callers outside
/// verified code test this before calling `generate`.
#[verifier::loop_isolation(false)]
pub fn generable_check(f: &FieldModel) -> (res: bool)
    ensures
        res == generable(*f),
{
    if f.ident.is_none() {
        return false;
    }
    if f.attrs.len() < 1 {
        return true;
    }
    let a = &f.attrs[0];
    let name = match &a.ident {
        Some(n) => n,
        None => {
            return false;
        },
    };
    let args = match &a.args {
        Some(args) => args,
        None => {
            return false;
        },
    };
    if !all_args_named(args) {
        return false;
    }
    let m = get_args(args);
    let n = name.as_str();
    proof {
        reveal_strlit("class");
        reveal_strlit("field");
        reveal_strlit("method");
        assert("class"@ != "field"@ && "class"@ != "method"@ && "field"@ != "method"@) by {
            assert("class"@[0] != "field"@[0] && "class"@[0] != "method"@[0]);
            assert("field"@[0] != "method"@[0]);
        }
    }
    if str_eq(n, "class") {
        m.contains_key("name")
    } else if str_eq(n, "field") {
        match m.get("ty") {
            Some(ty) => m.contains_key("name") && jni_type_check(ty.as_str()),
            None => false,
        }
    } else if str_eq(n, "method") {
        match &f.ty {
            FieldTypeModel::BareFn { inputs, .. } => {
                let k = inputs.len();
                let mut i: usize = 0;
                while i < k
                    invariant
                        k == inputs.len(),
                        i <= k,
                        forall|j: int| 0 <= j < i ==> (#[trigger] inputs@[j]).name is Some,
                    decreases k - i,
                {
                    if inputs[i].name.is_none() {
                        assert(inputs@[i as int].name is None);
                        return false;
                    }
                    i = i + 1;
                }
                m.contains_key("name") && m.contains_key("sig")
            },
            FieldTypeModel::Other => true,
        }
    } else {
        true
    }
}

/// Whether the derive can handle the item (see `derivable`); callers outside
/// verified code test this before calling `inject_derive`.
#[verifier::loop_isolation(false)]
pub fn derivable_check(ast: &DeriveInputModel) -> (res: bool)
    ensures
        res == derivable(*ast),
{
    match &ast.data {
        DataModel::Struct(fields) => {
            let n = fields.len();
            let mut i: usize = 0;
            while i < n
                invariant
                    n == fields.len(),
                    i <= n,
                    forall|j: int| 0 <= j < i ==> generable(#[trigger] fields@[j]),
                decreases n - i,
            {
                if !generable_check(&fields[i]) {
                    assert(!generable(fields@[i as int]));
                    return false;
                }
                i = i + 1;
            }
            true
        },
        _ => true,
    }
}

/// Why the derive refuses an item.
#[derive(Debug, PartialEq, Eq, Structural)]
pub enum DeriveError {
    /// The tokens do not parse as a struct, enum or union declaration.
    Parse,
    /// The first field that cannot be handled has no name.
    UnnamedField,
    /// The first field that cannot be handled is named, but its first
    /// attribute lacks what its kind needs (see `generable`).
    Unsupported,
}

/// Whether the first field that the derive cannot handle has no name.
pub open spec fn unnamed_first(fields: Seq<FieldModel>) -> bool {
    exists|i: int|
        0 <= i < fields.len() && (#[trigger] fields[i]).ident is None && forall|j: int|
            0 <= j < i ==> generable(#[trigger] fields[j])
}

/// The code that `#[derive(Inject)]` generates for an item, or why it refuses
/// the item: `Ok` exactly when every field can be handled (see `derivable`),
/// with the code of `inject_derive`; otherwise `UnnamedField` when the first
/// field that cannot be handled has no name, and `Unsupported` when it has one.
pub fn derive_code(ast: &DeriveInputModel) -> (res: Result<String, DeriveError>)
    ensures
        res is Ok <==> derivable(*ast),
        res matches Ok(t) ==> exists|lits: Seq<(Seq<char>, Seq<char>)>|
            #![trigger derive_text(*ast, lits)]
            derive_literals_ok(*ast, lits) && t@ == derive_text(*ast, lits),
        res matches Ok(t) ==> (derive_sources_ascii(*ast) ==> t@ == derive_text(
            *ast,
            derive_ascii_lits(*ast),
        )),
        res matches Err(e) ==> ast.data is Struct && e != DeriveError::Parse && (e
            == DeriveError::UnnamedField <==> unnamed_first(ast.data->Struct_0@)),
{
    if derivable_check(ast) {
        return Ok(inject_derive(ast));
    }
    match &ast.data {
        DataModel::Struct(fields) => {
            let n = fields.len();
            let mut i: usize = 0;
            while i < n
                invariant
                    n == fields.len(),
                    i <= n,
                    !derivable(*ast),
                    ast.data == DataModel::Struct(*fields),
                    forall|j: int| 0 <= j < i ==> generable(#[trigger] fields@[j]),
                decreases n - i,
            {
                if !generable_check(&fields[i]) {
                    if fields[i].ident.is_none() {
                        assert(fields@[i as int].ident is None);
                        return Err(DeriveError::UnnamedField);
                    }
                    assert(!unnamed_first(fields@)) by {
                        if unnamed_first(fields@) {
                            let k = choose|k: int|
                                0 <= k < fields@.len() && (#[trigger] fields@[k]).ident is None
                                    && forall|j: int| 0 <= j < k ==> generable(#[trigger] fields@[j]);
                            if k > i {
                                assert(generable(fields@[i as int]));
                            } else if k < i {
                                assert(generable(fields@[k]));
                            }
                        }
                    }
                    return Err(DeriveError::Unsupported);
                }
                i = i + 1;
            }
            Err(DeriveError::Unsupported)
        },
        _ => Err(DeriveError::Unsupported),
    }
}

/// Whether an argument is `k = "..."`.
pub open spec fn sets_key(a: MetaArg, k: Seq<char>) -> bool {
    match a {
        MetaArg::NameStr { ident: Some(n), .. } => n@ == k,
        _ => false,
    }
}

/// The value an argument gives (empty for arguments that give none).
pub open spec fn arg_value(a: MetaArg) -> Seq<char> {
    match a {
        MetaArg::NameStr { value, .. } => value@,
        MetaArg::Other => Seq::empty(),
    }
}

proof fn lemma_args_domain(args: Seq<MetaArg>, k: Seq<char>)
    ensures
        args_map(args).contains_key(k) <==> exists|i: int|
            0 <= i < args.len() && #[trigger] sets_key(args[i], k),
    decreases args.len(),
{
    if args.len() > 0 {
        let init = args.drop_last();
        let n = args.len() - 1;
        lemma_args_domain(init, k);
        assert(args.last() == args[n]);
        if sets_key(args[n], k) {
            assert(args_map(args).contains_key(k));
        } else {
            assert(args_map(args).contains_key(k) == args_map(init).contains_key(k));
        }
        if exists|i: int| 0 <= i < init.len() && #[trigger] sets_key(init[i], k) {
            let i = choose|i: int| 0 <= i < init.len() && #[trigger] sets_key(init[i], k);
            assert(sets_key(args[i], k));
        }
        if exists|i: int| 0 <= i < args.len() && #[trigger] sets_key(args[i], k) {
            let i = choose|i: int| 0 <= i < args.len() && #[trigger] sets_key(args[i], k);
            if i < n {
                assert(sets_key(init[i], k));
            }
        }
    }
}

proof fn lemma_args_value(args: Seq<MetaArg>, k: Seq<char>, i: int)
    requires
        0 <= i < args.len(),
        sets_key(args[i], k),
        forall|j: int| i < j < args.len() ==> !sets_key(#[trigger] args[j], k),
    ensures
        args_map(args).contains_key(k),
        args_map(args)[k] == arg_value(args[i]),
    decreases args.len(),
{
    let init = args.drop_last();
    let n = args.len() - 1;
    if i < n {
        assert(!sets_key(args[n], k));
        assert forall|j: int| i < j < init.len() implies !sets_key(#[trigger] init[j], k) by {
            assert(!sets_key(args[j], k));
        }
        lemma_args_value(init, k, i);
    }
}

/// Law: an attribute's arguments give a value for `k` exactly when some
/// argument is `k = "..."`, and the value is that of the last such argument.
pub proof fn lemma_last_argument_wins(args: Seq<MetaArg>, k: Seq<char>)
    ensures
        args_map(args).contains_key(k) <==> exists|i: int|
            0 <= i < args.len() && #[trigger] sets_key(args[i], k),
        forall|i: int|
            0 <= i < args.len() && #[trigger] sets_key(args[i], k) && (forall|j: int|
                i < j < args.len() ==> !sets_key(#[trigger] args[j], k)) ==> args_map(args)[k]
                == arg_value(args[i]),
{
    lemma_args_domain(args, k);
    assert forall|i: int|
        0 <= i < args.len() && #[trigger] sets_key(args[i], k) && (forall|j: int|
            i < j < args.len() ==> !sets_key(#[trigger] args[j], k)) implies args_map(args)[k]
        == arg_value(args[i]) by {
        lemma_args_value(args, k, i);
    }
}

/// Law: the JNI value table of the derive agrees with the generator's table
/// for a value named `val`, except for `& str`, which only the generator
/// passes as a new Java string.
pub proof fn lemma_jvalue_tables_agree(ty: Seq<char>)
    ensures
        ty != "& str"@ ==> jvalue_text(ty) == crate::generate::jvalue_expr("val"@, ty),
        ty == "& str"@ ==> jvalue_text(ty) == "JValue::Object(&(val.instance.as_ref().unwrap()))"@,
{
    reveal_strlit("val");
    reveal_strlit("JValue::Bool(");
    reveal_strlit(" as u8)");
    reveal_strlit("JValue::Bool(val as u8)");
    reveal_strlit("JValue::Char(");
    reveal_strlit(")");
    reveal_strlit("JValue::Char(val)");
    reveal_strlit("JValue::Int(");
    reveal_strlit("JValue::Int(val)");
    reveal_strlit("JValue::Float(");
    reveal_strlit("JValue::Float(val)");
    reveal_strlit("JValue::Double(");
    reveal_strlit("JValue::Double(val)");
    reveal_strlit("JValue::Object(&(");
    reveal_strlit(".instance.as_ref().unwrap()))");
    reveal_strlit("JValue::Object(&(val.instance.as_ref().unwrap()))");
    reveal_strlit("& str");
    reveal_strlit("bool");
    reveal_strlit("char");
    reveal_strlit("i32");
    reveal_strlit("f32");
    reveal_strlit("f64");
    assert("JValue::Bool(val as u8)"@ =~= "JValue::Bool("@ + "val"@ + " as u8)"@);
    assert("JValue::Char(val)"@ =~= "JValue::Char("@ + "val"@ + ")"@);
    assert("JValue::Int(val)"@ =~= "JValue::Int("@ + "val"@ + ")"@);
    assert("JValue::Float(val)"@ =~= "JValue::Float("@ + "val"@ + ")"@);
    assert("JValue::Double(val)"@ =~= "JValue::Double("@ + "val"@ + ")"@);
    assert("JValue::Object(&(val.instance.as_ref().unwrap()))"@ =~= "JValue::Object(&("@ + "val"@
        + ".instance.as_ref().unwrap()))"@);
    if ty == "& str"@ {
        assert(ty[0] == '&');
        assert(ty != "bool"@ && ty != "char"@ && ty != "i32"@);
        assert(ty.len() == 5);
        assert(ty != "f32"@ && ty != "f64"@);
    }
}

/// The name of the field in a slot of the rewritten struct.
pub open spec fn slot_name(names: Seq<String>, slot: FieldSlot) -> Seq<char> {
    match slot {
        FieldSlot::Kept(i) => names[i as int]@,
        FieldSlot::Instance => "instance"@,
    }
}

/// The names of the fields of the rewritten struct.
pub open spec fn slot_names(names: Seq<String>, slots: Seq<FieldSlot>) -> Seq<Seq<char>> {
    slots.map_values(|slot: FieldSlot| slot_name(names, slot))
}

/// The field names as text.
pub open spec fn name_texts(names: Seq<String>) -> Seq<Seq<char>> {
    names.map_values(|s: String| s@)
}

/// The names among `names` that the attribute keeps, in order.
pub open spec fn kept_names(names: Seq<Seq<char>>) -> Seq<Seq<char>>
    decreases names.len(),
{
    if names.len() == 0 {
        Seq::empty()
    } else {
        kept_names(names.drop_last()) + if kept_name(names.last()) {
            seq![names.last()]
        } else {
            Seq::empty()
        }
    }
}

/// The field names that the attribute gives a struct with fields `names`.
pub open spec fn injected_names(names: Seq<Seq<char>>) -> Seq<Seq<char>> {
    kept_names(names).push("instance"@)
}

proof fn lemma_kept_slots_in_range(names: Seq<String>)
    ensures
        forall|k: int|
            0 <= k < kept_slots(names).len() ==> (#[trigger] kept_slots(names)[k] matches FieldSlot::Kept(
                i,
            ) && i < names.len()),
    decreases names.len(),
{
    if names.len() > 0 {
        lemma_kept_slots_in_range(names.drop_last());
    }
}

proof fn lemma_kept_slot_names(names: Seq<String>)
    requires
        names.len() <= usize::MAX,
    ensures
        slot_names(names, kept_slots(names)) == kept_names(name_texts(names)),
    decreases names.len(),
{
    if names.len() > 0 {
        let init = names.drop_last();
        lemma_kept_slot_names(init);
        lemma_kept_slots_in_range(init);
        let ks = kept_slots(init);
        assert(slot_names(names, ks) =~= slot_names(init, ks)) by {
            assert forall|k: int| 0 <= k < ks.len() implies slot_name(names, #[trigger] ks[k])
                == slot_name(init, ks[k]) by {
                let i = ks[k]->Kept_0;
                assert(names[i as int] == init[i as int]);
            }
        }
        assert(name_texts(names).drop_last() =~= name_texts(init));
        let tail = if kept_name(names.last()@) {
            seq![FieldSlot::Kept((names.len() - 1) as usize)]
        } else {
            Seq::empty()
        };
        assert(slot_names(names, ks + tail) =~= slot_names(names, ks) + slot_names(names, tail));
        assert(name_texts(names).last() == names.last()@);
        if kept_name(names.last()@) {
            assert(slot_names(names, tail) =~= seq![names.last()@]);
        } else {
            assert(slot_names(names, tail) =~= Seq::<Seq<char>>::empty());
        }
    }
}

proof fn lemma_kept_names_idempotent(names: Seq<Seq<char>>)
    ensures
        kept_names(kept_names(names)) == kept_names(names),
        forall|k: int| 0 <= k < kept_names(names).len() ==> kept_name(#[trigger] kept_names(names)[k]),
    decreases names.len(),
{
    if names.len() > 0 {
        let init = names.drop_last();
        lemma_kept_names_idempotent(init);
        let ki = kept_names(init);
        if kept_name(names.last()) {
            let kn = ki.push(names.last());
            assert(kept_names(names) =~= kn);
            assert(kn.drop_last() =~= ki);
        } else {
            assert(kept_names(names) =~= ki);
        }
    }
}

/// Law: the rewritten struct's fields are, in order, its fields named `app`
/// or `class` and then `instance`.
pub proof fn lemma_inject_field_names(names: Seq<String>)
    requires
        names.len() <= usize::MAX,
    ensures
        slot_names(names, inject_slots(names)) == injected_names(name_texts(names)),
{
    lemma_kept_slot_names(names);
    let ks = kept_slots(names);
    assert(slot_names(names, ks.push(FieldSlot::Instance)) =~= slot_names(names, ks).push(
        "instance"@,
    ));
}

proof fn lemma_kept_slots_exactly(names: Seq<String>)
    requires
        names.len() <= usize::MAX,
    ensures
        forall|i: int|
            0 <= i < names.len() ==> (kept_slots(names).contains(FieldSlot::Kept(i as usize)) <==> (
            #[trigger] names[i])@ == "app"@ || names[i]@ == "class"@),
    decreases names.len(),
{
    if names.len() > 0 {
        let init = names.drop_last();
        lemma_kept_slots_exactly(init);
        lemma_kept_slots_in_range(init);
        let ks = kept_slots(init);
        let n = names.len() - 1;
        let tail = if kept_name(names.last()@) {
            seq![FieldSlot::Kept(n as usize)]
        } else {
            Seq::empty()
        };
        assert(kept_slots(names) == ks + tail);
        assert forall|i: int| 0 <= i < names.len() implies (kept_slots(names).contains(
            FieldSlot::Kept(i as usize),
        ) <==> (#[trigger] names[i])@ == "app"@ || names[i]@ == "class"@) by {
            let slot = FieldSlot::Kept(i as usize);
            if i < n {
                assert(names[i] == init[i]);
                if ks.contains(slot) {
                    let k = choose|k: int| 0 <= k < ks.len() && ks[k] == slot;
                    assert((ks + tail)[k] == slot);
                }
                if (ks + tail).contains(slot) {
                    let k = choose|k: int| 0 <= k < (ks + tail).len() && (ks + tail)[k] == slot;
                    if k >= ks.len() {
                        assert(tail[k - ks.len()] == slot);
                    } else {
                        assert(ks[k] == slot);
                    }
                }
            } else {
                assert(!ks.contains(slot)) by {
                    if ks.contains(slot) {
                        let k = choose|k: int| 0 <= k < ks.len() && ks[k] == slot;
                        assert(ks[k] matches FieldSlot::Kept(j) && j < init.len());
                    }
                }
                if (ks + tail).contains(slot) {
                    let k = choose|k: int| 0 <= k < (ks + tail).len() && (ks + tail)[k] == slot;
                    if k < ks.len() {
                        assert(ks[k] == slot);
                    } else {
                        assert(tail[k - ks.len()] == slot);
                    }
                }
                if kept_name(names.last()@) {
                    assert((ks + tail)[ks.len() as int] == slot);
                }
            }
        }
    }
}

/// Law: the rewritten struct keeps a field exactly when its name is `app` or
/// `class`: for every field of the original declaration, the attribute's
/// field list holds that field if and only if it is named `app` or `class`.
/// Every other field (such as `MAIN_HAND`) is dropped.
pub proof fn lemma_inject_keeps_exactly_app_and_class(names: Seq<String>)
    requires
        names.len() <= usize::MAX,
    ensures
        forall|i: int|
            0 <= i < names.len() ==> (inject_slots(names).contains(FieldSlot::Kept(i as usize)) <==> (
            #[trigger] names[i])@ == "app"@ || names[i]@ == "class"@),
{
    lemma_kept_slots_exactly(names);
    let ks = kept_slots(names);
    assert forall|i: int| 0 <= i < names.len() implies (inject_slots(names).contains(
        FieldSlot::Kept(i as usize),
    ) <==> (#[trigger] names[i])@ == "app"@ || names[i]@ == "class"@) by {
        let slot = FieldSlot::Kept(i as usize);
        if ks.contains(slot) {
            let k = choose|k: int| 0 <= k < ks.len() && ks[k] == slot;
            assert(ks.push(FieldSlot::Instance)[k] == slot);
        }
        if ks.push(FieldSlot::Instance).contains(slot) {
            let k = choose|k: int| 0 <= k < ks.len() + 1 && ks.push(FieldSlot::Instance)[k] == slot;
            assert(k < ks.len());
            assert(ks[k] == slot);
        }
    }
}

/// Law: rewriting a struct's fields a second time changes nothing: the field
/// names after two applications of the attribute are those after one.
pub proof fn lemma_inject_idempotent(names: Seq<Seq<char>>)
    ensures
        injected_names(injected_names(names)) == injected_names(names),
{
    let once = injected_names(names);
    lemma_kept_names_idempotent(names);
    reveal_strlit("instance");
    reveal_strlit("app");
    reveal_strlit("class");
    assert(!kept_name("instance"@)) by {
        assert("instance"@.len() == 8);
    }
    assert(once.drop_last() =~= kept_names(names));
    assert(kept_names(once) =~= kept_names(kept_names(names)));
}

/// The strings one after another.
pub open spec fn concat_all(parts: Seq<Seq<char>>) -> Seq<char>
    decreases parts.len(),
{
    if parts.len() == 0 {
        Seq::empty()
    } else {
        concat_all(parts.drop_last()) + parts.last()
    }
}

/// The code of each field, in declaration order.
pub open spec fn field_codes(fields: Seq<FieldModel>, lits: Seq<(Seq<char>, Seq<char>)>) -> Seq<
    Seq<char>,
> {
    Seq::new(fields.len(), |i: int| generate_text(fields[i], lits[i]))
}

proof fn lemma_fields_text_concat(fields: Seq<FieldModel>, lits: Seq<(Seq<char>, Seq<char>)>)
    requires
        lits.len() == fields.len(),
    ensures
        fields_text(fields, lits) == concat_all(field_codes(fields, lits)),
    decreases fields.len(),
{
    if fields.len() > 0 {
        lemma_fields_text_concat(fields.drop_last(), lits.drop_last());
        assert(field_codes(fields, lits).drop_last() =~= field_codes(fields.drop_last(), lits.drop_last()));
    }
}

/// Law: for a struct, the derive's code is the `impl` block's head with
/// `set_instance`, then the code of each field in declaration order, then the
/// closing brace; each field's code is what `generate` gives for it.
pub proof fn lemma_derive_fields_in_order(ast: DeriveInputModel, lits: Seq<(Seq<char>, Seq<char>)>)
    requires
        ast.data is Struct,
        derive_literals_ok(ast, lits),
    ensures
        ({
            let fields = ast.data->Struct_0@;
            &&& derive_text(ast, lits) == impl_head(ast.ident@) + concat_all(field_codes(fields, lits))
                + "}\n"@
            &&& field_codes(fields, lits).len() == fields.len()
            &&& forall|i: int|
                0 <= i < fields.len() ==> #[trigger] field_codes(fields, lits)[i] == generate_text(
                    fields[i],
                    lits[i],
                )
        }),
{
    lemma_fields_text_concat(ast.data->Struct_0@, lits);
}

proof fn lemma_attr_names_differ()
    ensures
        "class"@ != "field"@,
        "class"@ != "method"@,
        "field"@ != "method"@,
{
    reveal_strlit("class");
    reveal_strlit("field");
    reveal_strlit("method");
    assert("class"@[0] != "field"@[0] && "class"@[0] != "method"@[0]);
    assert("field"@[0] != "method"@[0]);
}

/// Law: a field whose first attribute is `field` gets what the field
/// generator gives for the field's name and type and the attribute's `ty` and
/// `static` (any value), with the string literals of the attribute's `name`
/// and `ty`.
pub proof fn lemma_generate_field_member(f: FieldModel, lits: (Seq<char>, Seq<char>))
    requires
        f.attrs.len() >= 1,
        attr_name(f.attrs@[0]) == "field"@,
    ensures
        ({
            let m = attr_args_map(f.attrs@[0]);
            &&& literal_sources(f) == (m["name"@], m["ty"@])
            &&& generate_text(f, lits) == field_text(
                opt_text(f.ident),
                f.ty_text@,
                m["ty"@],
                lits.0,
                lits.1,
                m.contains_key("static"@),
            )
        }),
{
    lemma_attr_names_differ();
}

/// Law: a field of function type whose first attribute is `method` gets what
/// the method generator gives for the field's name, the function type's return
/// type and named parameters, and the attribute's `static` (any value), with
/// the string literals of the attribute's `name` and `sig`.
pub proof fn lemma_generate_method_member(f: FieldModel, lits: (Seq<char>, Seq<char>))
    requires
        f.attrs.len() >= 1,
        attr_name(f.attrs@[0]) == "method"@,
        f.ty is BareFn,
    ensures
        ({
            let m = attr_args_map(f.attrs@[0]);
            &&& literal_sources(f) == (m["name"@], m["sig"@])
            &&& generate_text(f, lits) == method_member_text(
                opt_text(f.ident),
                f.ty->BareFn_output,
                fn_args(f.ty->BareFn_inputs@),
                lits.0,
                lits.1,
                m.contains_key("static"@),
            )
        }),
{
    lemma_attr_names_differ();
}

/// Law: a named field whose first attribute is `method`, on a bare function
/// type whose parameters are all named, can be handled whenever the
/// attribute's arguments are all `ident = "value"` items and give `name` and
/// `sig`, whatever other arguments (such as `static`) it has.
pub proof fn lemma_method_member_generable(f: FieldModel)
    requires
        f.ident is Some,
        f.attrs.len() >= 1,
        f.attrs@[0].ident matches Some(n) && n@ == "method"@,
        f.attrs@[0].args matches Some(args) && args_named(args@),
        attr_args_map(f.attrs@[0]).contains_key("name"@),
        attr_args_map(f.attrs@[0]).contains_key("sig"@),
        f.ty matches FieldTypeModel::BareFn { inputs, .. } && forall|i: int|
            0 <= i < inputs.len() ==> (#[trigger] inputs@[i]).name is Some,
    ensures
        generable(f),
{
    lemma_attr_names_differ();
}

/// Law: a named field whose first attribute is `field` can be handled
/// whenever the attribute's arguments are all `ident = "value"` items and give
/// `name` and a `ty` that starts with an ASCII letter or `_`, whatever other
/// arguments (such as `static`) it has.
pub proof fn lemma_field_member_generable(f: FieldModel)
    requires
        f.ident is Some,
        f.attrs.len() >= 1,
        f.attrs@[0].ident matches Some(n) && n@ == "field"@,
        f.attrs@[0].args matches Some(args) && args_named(args@),
        attr_args_map(f.attrs@[0]).contains_key("name"@),
        attr_args_map(f.attrs@[0]).contains_key("ty"@),
        jni_type_ok(attr_args_map(f.attrs@[0])["ty"@]),
    ensures
        generable(f),
{
    lemma_attr_names_differ();
}

/// Law: only the first attribute of a field counts: two fields with the same
/// name and type whose first attributes agree get the same code, read the
/// same literal sources, and can be handled alike.
pub proof fn lemma_first_attribute_decides(f: FieldModel, g: FieldModel, lits: (Seq<char>, Seq<char>))
    requires
        f.ident == g.ident,
        f.ty_text == g.ty_text,
        f.ty == g.ty,
        f.attrs.len() >= 1,
        g.attrs.len() >= 1,
        f.attrs@[0] == g.attrs@[0],
    ensures
        generate_text(f, lits) == generate_text(g, lits),
        literal_sources(f) == literal_sources(g),
        generable(f) == generable(g),
{
}

/// Law: when the literal sources of every field are ASCII without NUL, the
/// derive's code for a struct is the `impl` block's head, then, field by
/// field in declaration order, exactly what `generate` returns for that field
/// (`generate_text` with `ascii_lits`), then the closing brace.
pub proof fn lemma_derive_matches_generate(ast: DeriveInputModel)
    requires
        ast.data is Struct,
        derive_sources_ascii(ast),
    ensures
        ({
            let fields = ast.data->Struct_0@;
            derive_text(ast, derive_ascii_lits(ast)) == impl_head(ast.ident@) + concat_all(
                Seq::new(fields.len(), |i: int| generate_text(fields[i], ascii_lits(fields[i]))),
            ) + "}\n"@
        }),
{
    let fields = ast.data->Struct_0@;
    let lits = derive_ascii_lits(ast);
    assert forall|i: int| 0 <= i < fields.len() implies literals_ok(#[trigger] fields[i], lits[i]) by {
        lemma_escaped_is_literal(literal_sources(fields[i]).0);
        lemma_escaped_is_literal(literal_sources(fields[i]).1);
    }
    lemma_derive_fields_in_order(ast, lits);
    assert(field_codes(fields, lits) =~= Seq::new(
        fields.len(),
        |i: int| generate_text(fields[i], ascii_lits(fields[i])),
    ));
}

} // verus!
