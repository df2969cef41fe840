//! The text of the accessor and call methods that the derive generates for
//! `#[field(..)]` and `#[method(..)]` members of a game class.

use vstd::prelude::*;
use crate::text::{ascii_literal, ascii_lower, ascii_without_nul, char_text, lemma_unescape_absent, literal_of, quoted, str_eq, string_literal, to_ascii_lower, unraw, unraw_text};

verus! {

/// The JNI value expression that passes the value `name` of the Rust type
/// whose token text is `ty`.
pub open spec fn jvalue_expr(name: Seq<char>, ty: Seq<char>) -> Seq<char> {
    if ty == "bool"@ {
        "JValue::Bool("@ + name + " as u8)"@
    } else if ty == "char"@ {
        "JValue::Char("@ + name + ")"@
    } else if ty == "i32"@ {
        "JValue::Int("@ + name + ")"@
    } else if ty == "f32"@ {
        "JValue::Float("@ + name + ")"@
    } else if ty == "f64"@ {
        "JValue::Double("@ + name + ")"@
    } else if ty == "& str"@ {
        "JValue::from(&env.new_string("@ + name + ")?)"@
    } else {
        "JValue::Object(&("@ + name + ".instance.as_ref().unwrap()))"@
    }
}

/// The JNI value expression that passes the value `name` of type `ty`:
/// primitives map to their JNI variant, `&str` to a new Java string, and any
/// other type to the wrapped object's instance.
pub fn get_jvalue(name: &str, ty: &str) -> (res: String)
    ensures
        res@ == jvalue_expr(name@, ty@),
{
    let (head, tail) = if str_eq(ty, "bool") {
        ("JValue::Bool(", " as u8)")
    } else if str_eq(ty, "char") {
        ("JValue::Char(", ")")
    } else if str_eq(ty, "i32") {
        ("JValue::Int(", ")")
    } else if str_eq(ty, "f32") {
        ("JValue::Float(", ")")
    } else if str_eq(ty, "f64") {
        ("JValue::Double(", ")")
    } else if str_eq(ty, "& str") {
        ("JValue::from(&env.new_string(", ")?)")
    } else {
        ("JValue::Object(&(", ".instance.as_ref().unwrap()))")
    };
    let mut s = String::from_str(head);
    s.append(name);
    s.append(tail);
    s
}

/// The suffix that marks the methods of a static member.
pub open spec fn static_suffix(is_static: bool) -> Seq<char> {
    if is_static {
        "_static"@
    } else {
        Seq::empty()
    }
}

/// The name of a generated method: `prefix`, the member's name without a raw
/// marker, and the static suffix.
pub open spec fn method_name_text(prefix: Seq<char>, member: Seq<char>, is_static: bool) -> Seq<
    char,
> {
    prefix + unraw_text(member) + static_suffix(is_static)
}

fn member_method_name(prefix: &str, member: &str, is_static: bool) -> (res: String)
    ensures
        res@ == method_name_text(prefix@, member@, is_static),
{
    let mut s = String::from_str(prefix);
    let u = unraw(member);
    s.append(u.as_str());
    if is_static {
        s.append("_static");
    } else {
        assert(s@ =~= s@ + Seq::<char>::empty());
    }
    s
}

/// Whether a JNI type signature such as `I` or `Lfcz;` starts with a
/// character whose lowercase form names a `JValue` accessor (`i`, `l`, ...):
/// an ASCII letter or `_`.
pub open spec fn jni_type_ok(sig: Seq<char>) -> bool {
    sig.len() >= 1 && (('A' <= sig[0] && sig[0] <= 'Z') || ('a' <= sig[0] && sig[0] <= 'z') || sig[0]
        == '_')
}

/// The accessor of `JValue` that reads a value of the JNI type `sig`: its
/// first character in lowercase.
pub open spec fn jni_accessor(sig: Seq<char>) -> Seq<char> {
    seq![ascii_lower(sig[0])]
}

/// The head of the declaration of a generated method named `name`.
pub open spec fn fn_head(name: Seq<char>) -> Seq<char> {
    "pub unsafe fn "@ + name + "(&self"@
}

/// The first statement of every generated accessor and call method.
pub open spec fn get_env_line() -> Seq<char> {
    "    let mut env = self.app.get_env()?;\n"@
}

/// The Java object that a generated method reads, writes or calls through:
/// the class for a static member, the wrapped instance otherwise.
pub open spec fn receiver_text(is_static: bool) -> Seq<char> {
    if is_static {
        "&(self.class)"@
    } else {
        "&(self.instance.as_ref().unwrap())"@
    }
}

/// The statement that reads the member into `out`; `name_lit` and `ty_lit` are
/// the string literals of the Java field's name and type signature.
pub open spec fn field_get_text(
    name_lit: Seq<char>,
    ty_lit: Seq<char>,
    attr_ty: Seq<char>,
    is_static: bool,
) -> Seq<char> {
    "    let out = env."@ + (if is_static {
        "get_static_field"@
    } else {
        "get_field"@
    }) + "("@ + receiver_text(is_static) + ", "@ + name_lit + ", "@ + ty_lit + ")?."@
        + jni_accessor(attr_ty) + "()?;\n"@
}

/// The statements that wrap an object value read into `out` in its class wrapper.
pub open spec fn wrap_object_text(ty: Seq<char>, app: Seq<char>) -> Seq<char> {
    "    let mut object = "@ + ty + "::new("@ + app + ")?;\n    object.set_instance(out);\n    let out = object;\n"@
}

/// The statements that write `val` into the member.
pub open spec fn field_set_text(
    field_ty: Seq<char>,
    name_lit: Seq<char>,
    ty_lit: Seq<char>,
    is_static: bool,
) -> Seq<char> {
    if is_static {
        "    let id = env.get_static_field_id("@ + receiver_text(true) + ", "@ + name_lit + ", "@
            + ty_lit + ")?;\n    let out = env.set_static_field("@ + receiver_text(true) + ", id, "@
            + jvalue_expr("val"@, field_ty) + ")?;\n"@
    } else {
        "    let out = env.set_field("@ + receiver_text(false) + ", "@ + name_lit + ", "@ + ty_lit
            + ", "@ + jvalue_expr("val"@, field_ty) + ")?;\n"@
    }
}

/// The getter of a `#[field(..)]` member.
pub open spec fn getter_text(
    field_name: Seq<char>,
    field_ty: Seq<char>,
    attr_ty: Seq<char>,
    name_lit: Seq<char>,
    ty_lit: Seq<char>,
    is_static: bool,
) -> Seq<char> {
    fn_head(method_name_text("get_"@, field_name, is_static)) + ") -> Result<"@ + field_ty
        + ", jni::errors::Error> {\n"@ + get_env_line() + field_get_text(
        name_lit,
        ty_lit,
        attr_ty,
        is_static,
    ) + getter_object_text(field_ty, attr_ty) + "    Ok(out)\n}\n"@
}

/// The statements of a getter that wrap an object value (a JNI type that
/// starts with `L` or `l`) in its class wrapper; nothing for other types.
pub open spec fn getter_object_text(field_ty: Seq<char>, attr_ty: Seq<char>) -> Seq<char> {
    if jni_accessor(attr_ty) == seq!['l'] {
        wrap_object_text(field_ty, "self.app.clone()"@)
    } else {
        Seq::empty()
    }
}

/// The setter of a `#[field(..)]` member.
pub open spec fn setter_text(
    field_name: Seq<char>,
    field_ty: Seq<char>,
    name_lit: Seq<char>,
    ty_lit: Seq<char>,
    is_static: bool,
) -> Seq<char> {
    fn_head(method_name_text("set_"@, field_name, is_static)) + ", val: "@ + field_ty
        + ") -> Result<(), jni::errors::Error> {\n"@ + get_env_line() + field_set_text(
        field_ty,
        name_lit,
        ty_lit,
        is_static,
    ) + "    Ok(())\n}\n"@
}

/// The getter and then the setter that the derive generates for a member
/// declared `#[field(name = .., ty = attr_ty)]` on a field `field_name` of type
/// `field_ty`, where `name_lit` and `ty_lit` are the string literals of the
/// two arguments.
pub open spec fn field_text(
    field_name: Seq<char>,
    field_ty: Seq<char>,
    attr_ty: Seq<char>,
    name_lit: Seq<char>,
    ty_lit: Seq<char>,
    is_static: bool,
) -> Seq<char> {
    getter_text(field_name, field_ty, attr_ty, name_lit, ty_lit, is_static) + setter_text(
        field_name,
        field_ty,
        name_lit,
        ty_lit,
        is_static,
    )
}

fn receiver(is_static: bool) -> (res: &'static str)
    ensures
        res@ == receiver_text(is_static),
{
    if is_static {
        "&(self.class)"
    } else {
        "&(self.instance.as_ref().unwrap())"
    }
}

fn field_get(name_lit: &str, ty_lit: &str, is_static: bool, j: &str, attr_ty: Ghost<Seq<char>>) -> (res: String)
    requires
        j@ == jni_accessor(attr_ty@),
    ensures
        res@ == field_get_text(name_lit@, ty_lit@, attr_ty@, is_static),
{
    let mut s = String::from_str("    let out = env.");
    s.append(if is_static { "get_static_field" } else { "get_field" });
    s.append("(");
    s.append(receiver(is_static));
    s.append(", ");
    s.append(name_lit);
    s.append(", ");
    s.append(ty_lit);
    s.append(")?.");
    s.append(j);
    s.append("()?;\n");
    s
}

fn wrap_object(ty: &str, app: &str) -> (res: String)
    ensures
        res@ == wrap_object_text(ty@, app@),
{
    let mut s = String::from_str("    let mut object = ");
    s.append(ty);
    s.append("::new(");
    s.append(app);
    s.append(")?;\n    object.set_instance(out);\n    let out = object;\n");
    s
}

fn field_set(field_ty: &str, name_lit: &str, ty_lit: &str, is_static: bool) -> (res: String)
    ensures
        res@ == field_set_text(field_ty@, name_lit@, ty_lit@, is_static),
{
    let jv = get_jvalue("val", field_ty);
    if is_static {
        let mut s = String::from_str("    let id = env.get_static_field_id(");
        s.append(receiver(true));
        s.append(", ");
        s.append(name_lit);
        s.append(", ");
        s.append(ty_lit);
        s.append(")?;\n    let out = env.set_static_field(");
        s.append(receiver(true));
        s.append(", id, ");
        s.append(jv.as_str());
        s.append(")?;\n");
        s
    } else {
        let mut s = String::from_str("    let out = env.set_field(");
        s.append(receiver(false));
        s.append(", ");
        s.append(name_lit);
        s.append(", ");
        s.append(ty_lit);
        s.append(", ");
        s.append(jv.as_str());
        s.append(")?;\n");
        s
    }
}

/// The getter `get_<field>` and setter `set_<field>` (with `_static` added for
/// a static member) of a `#[field(..)]` member, given the string literals
/// `name_lit` and `ty_lit` of the Java field's name and type signature
/// `attr_ty`.
pub fn field_code(
    field_name: &str,
    field_ty: &str,
    attr_ty: &str,
    name_lit: &str,
    ty_lit: &str,
    is_static: bool,
) -> (res: String)
    requires
        jni_type_ok(attr_ty@),
    ensures
        res@ == field_text(field_name@, field_ty@, attr_ty@, name_lit@, ty_lit@, is_static),
{
    let get_fn_name = member_method_name("get_", field_name, is_static);
    let set_fn_name = member_method_name("set_", field_name, is_static);
    let first = to_ascii_lower(attr_ty.get_char(0));
    let j = char_text(first);
    let mut s = String::from_str("pub unsafe fn ");
    s.append(get_fn_name.as_str());
    s.append("(&self");
    s.append(") -> Result<");
    s.append(field_ty);
    s.append(", jni::errors::Error> {\n");
    s.append("    let mut env = self.app.get_env()?;\n");
    let import_get = field_get(name_lit, ty_lit, is_static, j.as_str(), Ghost(attr_ty@));
    s.append(import_get.as_str());
    if first == 'l' {
        assert(j@ =~= seq!['l']);
        let import_object = wrap_object(field_ty, "self.app.clone()");
        s.append(import_object.as_str());
    } else {
        assert(j@[0] != 'l');
        assert(s@ =~= s@ + Seq::<char>::empty());
    }
    s.append("    Ok(out)\n}\n");
    let mut t = String::from_str("pub unsafe fn ");
    t.append(set_fn_name.as_str());
    t.append("(&self");
    t.append(", val: ");
    t.append(field_ty);
    t.append(") -> Result<(), jni::errors::Error> {\n");
    t.append("    let mut env = self.app.get_env()?;\n");
    let import_set = field_set(field_ty, name_lit, ty_lit, is_static);
    t.append(import_set.as_str());
    t.append("    Ok(())\n}\n");
    s.append(t.as_str());
    s
}

/// The getter `get_<field>` and setter `set_<field>` (with `_static` added for
/// a static member) that read and write a Java field through JNI. The Java
/// field's name and type signature stand in the code as string literals whose
/// values (see `literal_value`) are `attr_name` and `attr_ty`; each is the
/// value between double quotes when it holds only printable ASCII other than
/// `"` and `\`.
pub fn generate_field(
    field_name: &str,
    field_ty: &str,
    attr_name: &str,
    attr_ty: &str,
    is_static: bool,
) -> (res: String)
    requires
        jni_type_ok(attr_ty@),
    ensures
        exists|name_lit: Seq<char>, ty_lit: Seq<char>|
            #![trigger field_text(field_name@, field_ty@, attr_ty@, name_lit, ty_lit, is_static)]
            literal_of(name_lit, attr_name@) && literal_of(ty_lit, attr_ty@) && res@ == field_text(
                field_name@,
                field_ty@,
                attr_ty@,
                name_lit,
                ty_lit,
                is_static,
            ),
        ascii_without_nul(attr_name@) && ascii_without_nul(attr_ty@) ==> res@ == field_text(
            field_name@,
            field_ty@,
            attr_ty@,
            ascii_literal(attr_name@),
            ascii_literal(attr_ty@),
            is_static,
        ),
{
    let name_lit = string_literal(attr_name);
    let ty_lit = string_literal(attr_ty);
    let res = field_code(field_name, field_ty, attr_ty, name_lit.as_str(), ty_lit.as_str(), is_static);
    assert(res@ == field_text(field_name@, field_ty@, attr_ty@, name_lit@, ty_lit@, is_static));
    res
}

/// One parameter of a generated call method: `, name: ty`.
pub open spec fn param_text(arg: (String, String)) -> Seq<char> {
    ", "@ + arg.0@ + ": "@ + arg.1@
}

/// The parameters of a generated call method, each as `, name: ty`, after `&self`.
pub open spec fn params_text(args: Seq<(String, String)>) -> Seq<char>
    decreases args.len(),
{
    if args.len() == 0 {
        Seq::empty()
    } else {
        params_text(args.drop_last()) + param_text(args.last())
    }
}

/// The JNI values of the arguments of a call, separated by commas.
pub open spec fn jargs_text(args: Seq<(String, String)>) -> Seq<char>
    decreases args.len(),
{
    if args.len() == 0 {
        Seq::empty()
    } else if args.len() == 1 {
        jvalue_expr(args[0].0@, args[0].1@)
    } else {
        jargs_text(args.drop_last()) + ","@ + jvalue_expr(args.last().0@, args.last().1@)
    }
}

/// The `JValue` accessor call that turns a call's result into the Rust return
/// type whose token text is `output`: nothing for `()`, an object for any type
/// not in the table. A `f64` result is read with the float accessor `.f()`;
/// `f32` has no entry of its own and is read as an object.
pub open spec fn call_result_text(output: Seq<char>) -> Seq<char> {
    if output == "bool"@ {
        ".z()?"@
    } else if output == "char"@ {
        ".c()?"@
    } else if output == "i32"@ {
        ".i()?"@
    } else if output == "f64"@ {
        ".f()?"@
    } else if output == "()"@ {
        Seq::empty()
    } else {
        ".l()?"@
    }
}

/// The statements after the call that give `out` its Rust value.
pub open spec fn call_wrap_text(output: Seq<char>) -> Seq<char> {
    if output == "bool"@ || output == "char"@ || output == "i32"@ || output == "f64"@ {
        Seq::empty()
    } else if output == "()"@ {
        "    let out = ();\n"@
    } else {
        wrap_object_text(output, "self.app"@)
    }
}

/// The statement that makes the call and binds its result to `out`; `name_lit`
/// and `sig_lit` are the string literals of the Java method's name and signature.
pub open spec fn call_text(
    output: Seq<char>,
    args: Seq<(String, String)>,
    name_lit: Seq<char>,
    sig_lit: Seq<char>,
    is_static: bool,
) -> Seq<char> {
    "    let out = env."@ + (if is_static {
        "call_static_method"@
    } else {
        "call_method"@
    }) + "("@ + receiver_text(is_static) + ", "@ + name_lit + ", "@ + sig_lit + ", &["@ + jargs_text(
        args,
    ) + "])?"@ + call_result_text(output) + ";\n"@
}

/// The header of a generated call method, up to its opening brace.
pub open spec fn method_header(
    method_name: Seq<char>,
    output: Seq<char>,
    args: Seq<(String, String)>,
    is_static: bool,
) -> Seq<char> {
    fn_head(method_name_text(Seq::empty(), method_name, is_static)) + params_text(args)
        + ") -> Result<"@ + output + ", jni::errors::Error> {\n"@
}

/// The body of a generated call method, after its opening brace.
pub open spec fn method_body(
    output: Seq<char>,
    args: Seq<(String, String)>,
    name_lit: Seq<char>,
    sig_lit: Seq<char>,
    is_static: bool,
) -> Seq<char> {
    get_env_line() + call_text(output, args, name_lit, sig_lit, is_static) + call_wrap_text(output)
        + "    Ok(out)\n}\n"@
}

/// The method that the derive generates for a member declared
/// `#[method(name = .., sig = ..)]` whose type is a bare function with
/// parameters `args` returning `output`, where `name_lit` and `sig_lit` are the
/// string literals of the two arguments.
pub open spec fn method_text(
    method_name: Seq<char>,
    output: Seq<char>,
    args: Seq<(String, String)>,
    name_lit: Seq<char>,
    sig_lit: Seq<char>,
    is_static: bool,
) -> Seq<char> {
    method_header(method_name, output, args, is_static) + method_body(
        output,
        args,
        name_lit,
        sig_lit,
        is_static,
    )
}

/// What the derive generates for a method member: nothing when the function
/// type has no return type, else the call method.
pub open spec fn method_member_text(
    method_name: Seq<char>,
    method_ty: Option<String>,
    args: Seq<(String, String)>,
    name_lit: Seq<char>,
    sig_lit: Seq<char>,
    is_static: bool,
) -> Seq<char> {
    match method_ty {
        Some(output) => method_text(method_name, output@, args, name_lit, sig_lit, is_static),
        None => Seq::empty(),
    }
}

fn params(args: &Vec<(String, String)>) -> (res: String)
    ensures
        res@ == params_text(args@),
{
    let mut s = String::new();
    let n = args.len();
    let mut i: usize = 0;
    while i < n
        invariant
            n == args.len(),
            i <= n,
            s@ == params_text(args@.take(i as int)),
        decreases n - i,
    {
        assert(args@.take(i as int) =~= args@.take(i + 1).drop_last());
        s.append(", ");
        s.append(args[i].0.as_str());
        s.append(": ");
        s.append(args[i].1.as_str());
        i = i + 1;
    }
    assert(args@.take(n as int) =~= args@);
    s
}

fn jargs(args: &Vec<(String, String)>) -> (res: String)
    ensures
        res@ == jargs_text(args@),
{
    let mut s = String::new();
    let n = args.len();
    let mut i: usize = 0;
    while i < n
        invariant
            n == args.len(),
            i <= n,
            s@ == jargs_text(args@.take(i as int)),
        decreases n - i,
    {
        assert(args@.take(i as int) =~= args@.take(i + 1).drop_last());
        let jv = get_jvalue(args[i].0.as_str(), args[i].1.as_str());
        if i > 0 {
            s.append(",");
        } else {
            assert(s@ + jv@ =~= jv@);
        }
        s.append(jv.as_str());
        i = i + 1;
    }
    assert(args@.take(n as int) =~= args@);
    s
}

fn call_result(output: &str) -> (res: String)
    ensures
        res@ == call_result_text(output@),
{
    if str_eq(output, "bool") {
        String::from_str(".z()?")
    } else if str_eq(output, "char") {
        String::from_str(".c()?")
    } else if str_eq(output, "i32") {
        String::from_str(".i()?")
    } else if str_eq(output, "f64") {
        String::from_str(".f()?")
    } else if str_eq(output, "()") {
        String::new()
    } else {
        String::from_str(".l()?")
    }
}

fn call_wrap(output: &str) -> (res: String)
    ensures
        res@ == call_wrap_text(output@),
{
    if str_eq(output, "bool") || str_eq(output, "char") || str_eq(output, "i32") || str_eq(
        output,
        "f64",
    ) {
        String::new()
    } else if str_eq(output, "()") {
        String::from_str("    let out = ();\n")
    } else {
        wrap_object(output, "self.app")
    }
}

/// The call method `<name>` (with `_static` added for a static member) that
/// returns `output`, given the string literals `name_lit` and `sig_lit` of the
/// Java method's name and signature.
pub fn method_code(
    method_name: &str,
    output: &str,
    method_args: &Vec<(String, String)>,
    name_lit: &str,
    sig_lit: &str,
    is_static: bool,
) -> (res: String)
    ensures
        res@ == method_text(method_name@, output@, method_args@, name_lit@, sig_lit@, is_static),
{
    proof {
        reveal_strlit("");
    }
    let fn_name = member_method_name("", method_name, is_static);
    assert(""@ =~= Seq::<char>::empty());
    let mut s = String::from_str("pub unsafe fn ");
    s.append(fn_name.as_str());
    s.append("(&self");
    let ps = params(method_args);
    s.append(ps.as_str());
    s.append(") -> Result<");
    s.append(output);
    s.append(", jni::errors::Error> {\n");
    let mut b = String::from_str("    let mut env = self.app.get_env()?;\n");
    b.append("    let out = env.");
    b.append(if is_static { "call_static_method" } else { "call_method" });
    b.append("(");
    b.append(receiver(is_static));
    b.append(", ");
    b.append(name_lit);
    b.append(", ");
    b.append(sig_lit);
    b.append(", &[");
    let js = jargs(method_args);
    b.append(js.as_str());
    b.append("])?");
    let r = call_result(output);
    b.append(r.as_str());
    b.append(";\n");
    let w = call_wrap(output);
    b.append(w.as_str());
    b.append("    Ok(out)\n}\n");
    s.append(b.as_str());
    s
}

/// The method `<name>` (with `_static` added for a static member) that calls a
/// Java method through JNI, passing its arguments as JNI values and wrapping
/// the result; nothing when the function type has no return type. The Java
/// method's name and signature stand in the code as string literals of
/// `attr_name` and `attr_sig` (see `generate_field`).
pub fn generate_method(
    method_name: &str,
    method_ty: &Option<String>,
    method_args: &Vec<(String, String)>,
    attr_name: &str,
    attr_sig: &str,
    is_static: bool,
) -> (res: String)
    ensures
        exists|name_lit: Seq<char>, sig_lit: Seq<char>|
            #![trigger method_member_text(method_name@, *method_ty, method_args@, name_lit, sig_lit, is_static)]
            literal_of(name_lit, attr_name@) && literal_of(sig_lit, attr_sig@) && res@
                == method_member_text(
                method_name@,
                *method_ty,
                method_args@,
                name_lit,
                sig_lit,
                is_static,
            ),
        ascii_without_nul(attr_name@) && ascii_without_nul(attr_sig@) ==> res@
            == method_member_text(
            method_name@,
            *method_ty,
            method_args@,
            ascii_literal(attr_name@),
            ascii_literal(attr_sig@),
            is_static,
        ),
{
    match method_ty {
        Some(output) => {
            let name_lit = string_literal(attr_name);
            let sig_lit = string_literal(attr_sig);
            let res = method_code(
                method_name,
                output.as_str(),
                method_args,
                name_lit.as_str(),
                sig_lit.as_str(),
                is_static,
            );
            assert(res@ == method_member_text(
                method_name@,
                *method_ty,
                method_args@,
                name_lit@,
                sig_lit@,
                is_static,
            ));
            res
        },
        None => {
            proof {
                crate::text::lemma_escaped_is_literal(attr_name@);
                crate::text::lemma_escaped_is_literal(attr_sig@);
                assert(Seq::<char>::empty() == method_member_text(
                    method_name@,
                    *method_ty,
                    method_args@,
                    quoted(crate::text::escaped_text(attr_name@)),
                    quoted(crate::text::escaped_text(attr_sig@)),
                    is_static,
                ));
            }
            String::new()
        },
    }
}

/// Whether `t` occurs in `s`.
pub open spec fn contains_text(s: Seq<char>, t: Seq<char>) -> bool {
    exists|i: int| 0 <= i && i + t.len() <= s.len() && #[trigger] s.subrange(i, i + t.len()) == t
}

/// Whether `s` starts with `t`.
pub open spec fn starts_with(s: Seq<char>, t: Seq<char>) -> bool {
    t.len() <= s.len() && s.take(t.len() as int) == t
}

/// Whether `s` ends with `t`.
pub open spec fn ends_with(s: Seq<char>, t: Seq<char>) -> bool {
    t.len() <= s.len() && s.skip(s.len() - t.len()) == t
}

/// Whether `code` declares a method named `name`.
pub open spec fn declares_fn(code: Seq<char>, name: Seq<char>) -> bool {
    contains_text(code, fn_head(name))
}

proof fn lemma_text_at(a: Seq<char>, t: Seq<char>, b: Seq<char>)
    ensures
        contains_text(a + t + b, t),
        starts_with(t + b, t),
        ends_with(a + t, t),
{
    let s = a + t + b;
    assert(s.subrange(a.len() as int, (a.len() + t.len()) as int) =~= t);
    assert((t + b).take(t.len() as int) =~= t);
    assert((a + t).skip(a.len() as int) =~= t);
}

#[verifier::rlimit(40)]
proof fn lemma_getter_shape(
    field_name: Seq<char>,
    field_ty: Seq<char>,
    attr_ty: Seq<char>,
    name_lit: Seq<char>,
    ty_lit: Seq<char>,
    is_static: bool,
)
    ensures
        ({
            let getter = getter_text(field_name, field_ty, attr_ty, name_lit, ty_lit, is_static);
            &&& starts_with(getter, fn_head(method_name_text("get_"@, field_name, is_static)))
            &&& contains_text(getter, get_env_line())
            &&& contains_text(getter, receiver_text(is_static))
            &&& ends_with(getter, "    Ok(out)\n}\n"@)
        }),
{
    let gname = method_name_text("get_"@, field_name, is_static);
    let getter = getter_text(field_name, field_ty, attr_ty, name_lit, ty_lit, is_static);
    let obj = getter_object_text(field_ty, attr_ty);
    let access = if is_static {
        "get_static_field"@
    } else {
        "get_field"@
    };
    let g_head = fn_head(gname) + ") -> Result<"@ + field_ty + ", jni::errors::Error> {\n"@;
    let g_tail = field_get_text(name_lit, ty_lit, attr_ty, is_static) + obj + "    Ok(out)\n}\n"@;
    let after_head = ") -> Result<"@ + field_ty + ", jni::errors::Error> {\n"@ + get_env_line() + g_tail;
    assert(getter =~= fn_head(gname) + after_head);
    assert((fn_head(gname) + after_head).take(fn_head(gname).len() as int) =~= fn_head(gname));
    assert(getter =~= g_head + get_env_line() + g_tail);
    lemma_text_at(g_head, get_env_line(), g_tail);
    let g_pre = g_head + get_env_line() + "    let out = env."@ + access + "("@;
    let g_post = ", "@ + name_lit + ", "@ + ty_lit + ")?."@ + jni_accessor(attr_ty) + "()?;\n"@ + obj
        + "    Ok(out)\n}\n"@;
    assert(getter =~= g_pre + receiver_text(is_static) + g_post);
    lemma_text_at(g_pre, receiver_text(is_static), g_post);
    let g_all_but_ok = g_head + get_env_line() + field_get_text(name_lit, ty_lit, attr_ty, is_static)
        + obj;
    assert(getter =~= g_all_but_ok + "    Ok(out)\n}\n"@);
    assert((g_all_but_ok + "    Ok(out)\n}\n"@).skip(g_all_but_ok.len() as int) =~= "    Ok(out)\n}\n"@);
}

#[verifier::rlimit(40)]
proof fn lemma_setter_shape(
    field_name: Seq<char>,
    field_ty: Seq<char>,
    name_lit: Seq<char>,
    ty_lit: Seq<char>,
    is_static: bool,
)
    ensures
        ({
            let setter = setter_text(field_name, field_ty, name_lit, ty_lit, is_static);
            &&& starts_with(setter, fn_head(method_name_text("set_"@, field_name, is_static)))
            &&& contains_text(setter, get_env_line())
            &&& contains_text(setter, receiver_text(is_static))
            &&& ends_with(setter, "    Ok(())\n}\n"@)
        }),
{
    let sname = method_name_text("set_"@, field_name, is_static);
    let setter = setter_text(field_name, field_ty, name_lit, ty_lit, is_static);
    let s_head = fn_head(sname) + ", val: "@ + field_ty + ") -> Result<(), jni::errors::Error> {\n"@;
    let s_tail = field_set_text(field_ty, name_lit, ty_lit, is_static) + "    Ok(())\n}\n"@;
    let after_head = ", val: "@ + field_ty + ") -> Result<(), jni::errors::Error> {\n"@
        + get_env_line() + s_tail;
    assert(setter =~= fn_head(sname) + after_head);
    assert((fn_head(sname) + after_head).take(fn_head(sname).len() as int) =~= fn_head(sname));
    assert(setter =~= s_head + get_env_line() + s_tail);
    lemma_text_at(s_head, get_env_line(), s_tail);
    let jv = jvalue_expr("val"@, field_ty);
    if is_static {
        let s_pre = s_head + get_env_line() + "    let id = env.get_static_field_id("@;
        let s_post = ", "@ + name_lit + ", "@ + ty_lit + ")?;\n    let out = env.set_static_field("@
            + receiver_text(true) + ", id, "@ + jv + ")?;\n"@ + "    Ok(())\n}\n"@;
        assert(setter =~= s_pre + receiver_text(is_static) + s_post);
        lemma_text_at(s_pre, receiver_text(is_static), s_post);
    } else {
        let s_pre = s_head + get_env_line() + "    let out = env.set_field("@;
        let s_post = ", "@ + name_lit + ", "@ + ty_lit + ", "@ + jv + ")?;\n"@ + "    Ok(())\n}\n"@;
        assert(setter =~= s_pre + receiver_text(is_static) + s_post);
        lemma_text_at(s_pre, receiver_text(is_static), s_post);
    }
    let s_all_but_ok = s_head + get_env_line() + field_set_text(field_ty, name_lit, ty_lit, is_static);
    assert(setter =~= s_all_but_ok + "    Ok(())\n}\n"@);
    assert((s_all_but_ok + "    Ok(())\n}\n"@).skip(s_all_but_ok.len() as int) =~= "    Ok(())\n}\n"@);
}

/// Law: the code for a `#[field(..)]` member is the getter followed by the
/// setter. The getter declares `get_<field>` and the setter `set_<field>`
/// (with `_static` appended to both for a static member, and a raw
/// identifier's `r#` left out); each starts with its declaration, begins its
/// body by getting the JNI environment, reaches the Java field through the
/// class for a static member and through the wrapped instance otherwise, and
/// ends by returning (`Ok(out)` for the getter, `Ok(())` for the setter).
pub proof fn lemma_field_accessors(
    field_name: Seq<char>,
    field_ty: Seq<char>,
    attr_ty: Seq<char>,
    name_lit: Seq<char>,
    ty_lit: Seq<char>,
    is_static: bool,
)
    ensures
        ({
            let getter = getter_text(field_name, field_ty, attr_ty, name_lit, ty_lit, is_static);
            let setter = setter_text(field_name, field_ty, name_lit, ty_lit, is_static);
            &&& field_text(field_name, field_ty, attr_ty, name_lit, ty_lit, is_static) == getter
                + setter
            &&& starts_with(getter, fn_head(method_name_text("get_"@, field_name, is_static)))
            &&& starts_with(setter, fn_head(method_name_text("set_"@, field_name, is_static)))
            &&& contains_text(getter, get_env_line())
            &&& contains_text(setter, get_env_line())
            &&& contains_text(getter, receiver_text(is_static))
            &&& contains_text(setter, receiver_text(is_static))
            &&& ends_with(getter, "    Ok(out)\n}\n"@)
            &&& ends_with(setter, "    Ok(())\n}\n"@)
            &&& declares_fn(
                field_text(field_name, field_ty, attr_ty, name_lit, ty_lit, is_static),
                method_name_text("get_"@, field_name, is_static),
            )
            &&& declares_fn(
                field_text(field_name, field_ty, attr_ty, name_lit, ty_lit, is_static),
                method_name_text("set_"@, field_name, is_static),
            )
        }),
{
    let gname = method_name_text("get_"@, field_name, is_static);
    let sname = method_name_text("set_"@, field_name, is_static);
    let getter = getter_text(field_name, field_ty, attr_ty, name_lit, ty_lit, is_static);
    let setter = setter_text(field_name, field_ty, name_lit, ty_lit, is_static);
    lemma_getter_shape(field_name, field_ty, attr_ty, name_lit, ty_lit, is_static);
    lemma_setter_shape(field_name, field_ty, name_lit, ty_lit, is_static);
    let code = getter + setter;
    let g_rest = getter.skip(fn_head(gname).len() as int) + setter;
    assert(code =~= Seq::<char>::empty() + fn_head(gname) + g_rest);
    lemma_text_at(Seq::<char>::empty(), fn_head(gname), g_rest);
    let s_rest = setter.skip(fn_head(sname).len() as int);
    assert(code =~= getter + fn_head(sname) + s_rest);
    lemma_text_at(getter, fn_head(sname), s_rest);
}

/// The strings joined, with a comma between neighbours.
pub open spec fn join_commas(parts: Seq<Seq<char>>) -> Seq<char>
    decreases parts.len(),
{
    if parts.len() == 0 {
        Seq::empty()
    } else if parts.len() == 1 {
        parts[0]
    } else {
        join_commas(parts.drop_last()) + ","@ + parts.last()
    }
}

/// The JNI value of each argument, in argument order.
pub open spec fn jvalues(args: Seq<(String, String)>) -> Seq<Seq<char>> {
    args.map_values(|a: (String, String)| jvalue_expr(a.0@, a.1@))
}

/// Law: the arguments of a generated call are the JNI values of the method's
/// parameters, in the parameters' order, separated by commas.
pub proof fn lemma_call_arguments_in_order(args: Seq<(String, String)>)
    ensures
        jargs_text(args) == join_commas(jvalues(args)),
        jvalues(args).len() == args.len(),
        forall|i: int| 0 <= i < args.len() ==> #[trigger] jvalues(args)[i] == jvalue_expr(args[i].0@, args[i].1@),
    decreases args.len(),
{
    if args.len() > 0 {
        lemma_call_arguments_in_order(args.drop_last());
        assert(jvalues(args).drop_last() =~= jvalues(args.drop_last()));
    }
}

/// Law: the code for a `#[method(..)]` member with a return type is one
/// method: its header declares `<member>` (with `_static` appended for a
/// static member) with the function type's parameters after `&self` and the
/// return type in a `Result`; its body gets the JNI environment, makes one
/// call through the class (static) or the wrapped instance, with the string
/// literals of the Java method's name and signature and the arguments' JNI
/// values in order, converts the result, and ends with `Ok(out)`.
pub proof fn lemma_method_shape(
    method_name: Seq<char>,
    output: Seq<char>,
    args: Seq<(String, String)>,
    name_lit: Seq<char>,
    sig_lit: Seq<char>,
    is_static: bool,
)
    ensures
        ({
            let name = method_name_text(Seq::empty(), method_name, is_static);
            let header = method_header(method_name, output, args, is_static);
            let body = method_body(output, args, name_lit, sig_lit, is_static);
            &&& method_text(method_name, output, args, name_lit, sig_lit, is_static) == header + body
            &&& header == fn_head(name) + params_text(args) + ") -> Result<"@ + output
                + ", jni::errors::Error> {\n"@
            &&& starts_with(body, get_env_line())
            &&& ends_with(body, "    Ok(out)\n}\n"@)
            &&& contains_text(body, call_text(output, args, name_lit, sig_lit, is_static))
            &&& call_text(output, args, name_lit, sig_lit, is_static) == "    let out = env."@ + (
            if is_static {
                "call_static_method"@
            } else {
                "call_method"@
            }) + "("@ + receiver_text(is_static) + ", "@ + name_lit + ", "@ + sig_lit + ", &["@
                + join_commas(jvalues(args)) + "])?"@ + call_result_text(output) + ";\n"@
            &&& declares_fn(method_text(method_name, output, args, name_lit, sig_lit, is_static), name)
        }),
{
    let name = method_name_text(Seq::empty(), method_name, is_static);
    let header = method_header(method_name, output, args, is_static);
    let call = call_text(output, args, name_lit, sig_lit, is_static);
    let body = method_body(output, args, name_lit, sig_lit, is_static);
    lemma_call_arguments_in_order(args);
    let rest = call + call_wrap_text(output) + "    Ok(out)\n}\n"@;
    assert(body =~= get_env_line() + rest);
    lemma_text_at(Seq::empty(), get_env_line(), rest);
    assert(Seq::<char>::empty() + get_env_line() + rest =~= body);
    let pre = get_env_line() + call + call_wrap_text(output);
    assert(body =~= pre + "    Ok(out)\n}\n"@);
    lemma_text_at(pre, "    Ok(out)\n}\n"@, Seq::empty());
    assert(pre + "    Ok(out)\n}\n"@ + Seq::<char>::empty() =~= body);
    let post = call_wrap_text(output) + "    Ok(out)\n}\n"@;
    assert(body =~= get_env_line() + call + post);
    lemma_text_at(get_env_line(), call, post);
    let code = header + body;
    let after = params_text(args) + ") -> Result<"@ + output + ", jni::errors::Error> {\n"@ + body;
    assert(code =~= Seq::<char>::empty() + fn_head(name) + after);
    lemma_text_at(Seq::<char>::empty(), fn_head(name), after);
}

/// Whether `s` holds no `.`.
pub open spec fn no_dot(s: Seq<char>) -> bool {
    forall|p: int| 0 <= p < s.len() ==> #[trigger] s[p] != '.'
}

/// Whether each `.` in `s` is followed, within `s`, by something other than
/// `i`, or preceded, within `s`, by something other than `f`: no `.` of `s` can
/// be the one in `self.instance`.
pub open spec fn dots_safe(s: Seq<char>) -> bool {
    forall|p: int|
        0 <= p < s.len() && #[trigger] s[p] == '.' ==> ((p + 1 < s.len() && s[p + 1] != 'i') || (p
            >= 1 && s[p - 1] != 'f'))
}

/// Whether `code` mentions the wrapped instance.
pub open spec fn mentions_instance(code: Seq<char>) -> bool {
    contains_text(code, "self.instance"@)
}

pub broadcast proof fn lemma_dots_safe_concat(a: Seq<char>, b: Seq<char>)
    requires
        dots_safe(a),
        dots_safe(b),
    ensures
        #[trigger] dots_safe(a + b),
{
    let s = a + b;
    assert forall|p: int| 0 <= p < s.len() && #[trigger] s[p] == '.' implies ((p + 1 < s.len() && s[p
        + 1] != 'i') || (p >= 1 && s[p - 1] != 'f')) by {
        if p < a.len() {
            assert(a[p] == '.');
        } else {
            assert(b[p - a.len()] == '.');
        }
    }
}

proof fn lemma_no_dot_safe(s: Seq<char>)
    requires
        no_dot(s),
    ensures
        dots_safe(s),
{
}

proof fn lemma_safe_not_instance(s: Seq<char>)
    requires
        dots_safe(s),
    ensures
        !mentions_instance(s),
{
    reveal_strlit("self.instance");
    let t = "self.instance"@;
    if mentions_instance(s) {
        let i = choose|i: int| 0 <= i && i + t.len() <= s.len() && #[trigger] s.subrange(i, i + t.len()) == t;
        let sub = s.subrange(i, i + t.len());
        assert(sub[4] == '.' && sub[3] == 'f' && sub[5] == 'i');
        assert(s[i + 4] == '.');
        assert(s[i + 3] == 'f');
        assert(s[i + 5] == 'i');
    }
}

proof fn lemma_jvalue_val_safe(ty: Seq<char>)
    ensures
        dots_safe(jvalue_expr("val"@, ty)),
{
    broadcast use lemma_dots_safe_concat;

    reveal_strlit("val");
    reveal_strlit("JValue::Bool(");
    reveal_strlit(" as u8)");
    reveal_strlit("JValue::Char(");
    reveal_strlit(")");
    reveal_strlit("JValue::Int(");
    reveal_strlit("JValue::Float(");
    reveal_strlit("JValue::Double(");
    reveal_strlit("JValue::from(&env.new_string(");
    reveal_strlit(")?)");
    reveal_strlit("JValue::Object(&(");
    reveal_strlit(".instance.as_ref().unwrap()))");
    reveal_strlit("val.instance.as_ref().unwrap()))");
    assert(dots_safe("val"@));
    assert(dots_safe("JValue::Bool("@));
    assert(dots_safe(" as u8)"@));
    assert(dots_safe("JValue::Char("@));
    assert(dots_safe(")"@));
    assert(dots_safe("JValue::Int("@));
    assert(dots_safe("JValue::Float("@));
    assert(dots_safe("JValue::Double("@));
    assert(dots_safe("JValue::from(&env.new_string("@));
    assert(dots_safe(")?)"@));
    assert(dots_safe("JValue::Object(&("@));
    assert(dots_safe("val.instance.as_ref().unwrap()))"@));
    assert("val"@ + ".instance.as_ref().unwrap()))"@ =~= "val.instance.as_ref().unwrap()))"@);
    assert("JValue::Object(&("@ + "val"@ + ".instance.as_ref().unwrap()))"@ =~= "JValue::Object(&("@
        + ("val"@ + ".instance.as_ref().unwrap()))"@));
}

proof fn lemma_static_getter_safe(
    field_name: Seq<char>,
    field_ty: Seq<char>,
    attr_ty: Seq<char>,
    name_lit: Seq<char>,
    ty_lit: Seq<char>,
)
    requires
        no_dot(field_name),
        no_dot(field_ty),
        no_dot(name_lit),
        no_dot(ty_lit),
        jni_type_ok(attr_ty),
    ensures
        dots_safe(getter_text(field_name, field_ty, attr_ty, name_lit, ty_lit, true)),
{
    broadcast use lemma_dots_safe_concat;

    lemma_no_dot_safe(field_ty);
    lemma_no_dot_safe(name_lit);
    lemma_no_dot_safe(ty_lit);
    let u = unraw_text(field_name);
    assert(no_dot(u)) by {
        if field_name.len() >= 2 && field_name[0] == 'r' && field_name[1] == '#' {
            assert forall|p: int| 0 <= p < u.len() implies #[trigger] u[p] != '.' by {
                assert(u[p] == field_name[p + 2]);
            }
        }
    }
    lemma_no_dot_safe(u);
    assert(dots_safe(jni_accessor(attr_ty)));
    reveal_strlit("pub unsafe fn ");
    reveal_strlit("get_");
    reveal_strlit("_static");
    reveal_strlit("(&self");
    reveal_strlit(") -> Result<");
    reveal_strlit(", jni::errors::Error> {\n");
    reveal_strlit("    let mut env = self.app.get_env()?;\n");
    reveal_strlit("    let out = env.");
    reveal_strlit("get_static_field");
    reveal_strlit("(");
    reveal_strlit("&(self.class)");
    reveal_strlit(", ");
    reveal_strlit(")?.");
    reveal_strlit("()?;\n");
    reveal_strlit("    let mut object = ");
    reveal_strlit("::new(");
    reveal_strlit("self.app.clone()");
    reveal_strlit(")?;\n    object.set_instance(out);\n    let out = object;\n");
    reveal_strlit("    Ok(out)\n}\n");
    assert(dots_safe("pub unsafe fn "@));
    assert(dots_safe("get_"@));
    assert(dots_safe("_static"@));
    assert(dots_safe("(&self"@));
    assert(dots_safe(") -> Result<"@));
    assert(dots_safe(", jni::errors::Error> {\n"@));
    assert(dots_safe("    let mut env = self.app.get_env()?;\n"@));
    assert(dots_safe("    let out = env."@));
    assert(dots_safe("get_static_field"@));
    assert(dots_safe("("@));
    assert(dots_safe("&(self.class)"@));
    assert(dots_safe(", "@));
    assert(dots_safe(")?."@));
    assert(dots_safe("()?;\n"@));
    assert(dots_safe("    let mut object = "@));
    assert(dots_safe("::new("@));
    assert(dots_safe("self.app.clone()"@));
    assert(dots_safe(")?;\n    object.set_instance(out);\n    let out = object;\n"@));
    assert(dots_safe("    Ok(out)\n}\n"@));
    assert(dots_safe(Seq::<char>::empty()));
    assert(dots_safe(field_get_text(name_lit, ty_lit, attr_ty, true)));
    assert(dots_safe(getter_object_text(field_ty, attr_ty)));
    assert(dots_safe(method_name_text("get_"@, field_name, true)));
    assert(dots_safe(fn_head(method_name_text("get_"@, field_name, true))));
}

proof fn lemma_static_setter_safe(
    field_name: Seq<char>,
    field_ty: Seq<char>,
    name_lit: Seq<char>,
    ty_lit: Seq<char>,
)
    requires
        no_dot(field_name),
        no_dot(field_ty),
        no_dot(name_lit),
        no_dot(ty_lit),
    ensures
        dots_safe(setter_text(field_name, field_ty, name_lit, ty_lit, true)),
{
    broadcast use lemma_dots_safe_concat;

    lemma_no_dot_safe(field_ty);
    lemma_no_dot_safe(name_lit);
    lemma_no_dot_safe(ty_lit);
    lemma_jvalue_val_safe(field_ty);
    let u = unraw_text(field_name);
    assert(no_dot(u)) by {
        if field_name.len() >= 2 && field_name[0] == 'r' && field_name[1] == '#' {
            assert forall|p: int| 0 <= p < u.len() implies #[trigger] u[p] != '.' by {
                assert(u[p] == field_name[p + 2]);
            }
        }
    }
    lemma_no_dot_safe(u);
    reveal_strlit("pub unsafe fn ");
    reveal_strlit("set_");
    reveal_strlit("_static");
    reveal_strlit("(&self");
    reveal_strlit(", val: ");
    reveal_strlit(") -> Result<(), jni::errors::Error> {\n");
    reveal_strlit("    let mut env = self.app.get_env()?;\n");
    reveal_strlit("    let id = env.get_static_field_id(");
    reveal_strlit("&(self.class)");
    reveal_strlit(", ");
    reveal_strlit(")?;\n    let out = env.set_static_field(");
    reveal_strlit(", id, ");
    reveal_strlit(")?;\n");
    reveal_strlit("    Ok(())\n}\n");
    assert(dots_safe("pub unsafe fn "@));
    assert(dots_safe("set_"@));
    assert(dots_safe("_static"@));
    assert(dots_safe("(&self"@));
    assert(dots_safe(", val: "@));
    assert(dots_safe(") -> Result<(), jni::errors::Error> {\n"@));
    assert(dots_safe("    let mut env = self.app.get_env()?;\n"@));
    assert(dots_safe("    let id = env.get_static_field_id("@));
    assert(dots_safe("&(self.class)"@));
    assert(dots_safe(", "@));
    assert(dots_safe(")?;\n    let out = env.set_static_field("@));
    assert(dots_safe(", id, "@));
    assert(dots_safe(")?;\n"@));
    assert(dots_safe("    Ok(())\n}\n"@));
    assert(dots_safe(field_set_text(field_ty, name_lit, ty_lit, true)));
    assert(dots_safe(method_name_text("set_"@, field_name, true)));
    assert(dots_safe(fn_head(method_name_text("set_"@, field_name, true))));
}

proof fn lemma_static_texts_skip_instance(
    field_name: Seq<char>,
    field_ty: Seq<char>,
    attr_ty: Seq<char>,
    name_lit: Seq<char>,
    ty_lit: Seq<char>,
)
    requires
        no_dot(field_name),
        no_dot(field_ty),
        no_dot(name_lit),
        no_dot(ty_lit),
        jni_type_ok(attr_ty),
    ensures
        !mentions_instance(getter_text(field_name, field_ty, attr_ty, name_lit, ty_lit, true)),
        !mentions_instance(setter_text(field_name, field_ty, name_lit, ty_lit, true)),
        !mentions_instance(field_text(field_name, field_ty, attr_ty, name_lit, ty_lit, true)),
{
    lemma_static_getter_safe(field_name, field_ty, attr_ty, name_lit, ty_lit);
    lemma_static_setter_safe(field_name, field_ty, name_lit, ty_lit);
    lemma_dots_safe_concat(
        getter_text(field_name, field_ty, attr_ty, name_lit, ty_lit, true),
        setter_text(field_name, field_ty, name_lit, ty_lit, true),
    );
    lemma_safe_not_instance(getter_text(field_name, field_ty, attr_ty, name_lit, ty_lit, true));
    lemma_safe_not_instance(setter_text(field_name, field_ty, name_lit, ty_lit, true));
    lemma_safe_not_instance(field_text(field_name, field_ty, attr_ty, name_lit, ty_lit, true));
}

proof fn lemma_literal_no_dot(lit: Seq<char>, v: Seq<char>)
    requires
        literal_of(lit, v),
        no_dot(v),
    ensures
        no_dot(lit),
{
    let body = lit.subrange(1, lit.len() - 1);
    assert forall|i: int| 0 <= i < v.len() implies v[i] != '.' by {
        assert(v[i] != '.');
    }
    lemma_unescape_absent(body, v, '.');
    assert forall|p: int| 0 <= p < lit.len() implies #[trigger] lit[p] != '.' by {
        if 0 < p < lit.len() - 1 {
            assert(lit[p] == body[p - 1]);
        }
    }
}

/// Law: a static member's getter and setter never mention the wrapped
/// instance (`self.instance`): they reach the Java field through the class
/// only. This holds for every field name and type token text without a `.`
/// (as identifiers and Rust type texts are), every Java field name and type
/// signature without a `.` (as Java field names and JNI signatures are), and
/// any string literals whose values those name and signature are.
pub proof fn lemma_static_accessors_skip_instance(
    field_name: Seq<char>,
    field_ty: Seq<char>,
    attr_name: Seq<char>,
    attr_ty: Seq<char>,
    name_lit: Seq<char>,
    ty_lit: Seq<char>,
)
    requires
        no_dot(field_name),
        no_dot(field_ty),
        no_dot(attr_name),
        no_dot(attr_ty),
        jni_type_ok(attr_ty),
        literal_of(name_lit, attr_name),
        literal_of(ty_lit, attr_ty),
    ensures
        !mentions_instance(getter_text(field_name, field_ty, attr_ty, name_lit, ty_lit, true)),
        !mentions_instance(setter_text(field_name, field_ty, name_lit, ty_lit, true)),
        !mentions_instance(field_text(field_name, field_ty, attr_ty, name_lit, ty_lit, true)),
{
    lemma_literal_no_dot(name_lit, attr_name);
    lemma_literal_no_dot(ty_lit, attr_ty);
    lemma_static_texts_skip_instance(field_name, field_ty, attr_ty, name_lit, ty_lit);
}

/// Law: the getter of a field member whose JNI type is an object type (its
/// signature starts with `L`) wraps the value it reads in the field type's
/// wrapper, static or not: it ends with
/// `let mut object = <field type>::new(self.app.clone())?;`,
/// `object.set_instance(out);`, `let out = object;` and `Ok(out)`. The getter
/// of a primitive JNI type (`Z`, `B`, `C`, `S`, `I`, `J`, `F`, `D`) returns the
/// value as read: its accessor call is directly followed by `Ok(out)`.
pub proof fn lemma_getter_wraps_objects(
    field_name: Seq<char>,
    field_ty: Seq<char>,
    attr_ty: Seq<char>,
    name_lit: Seq<char>,
    ty_lit: Seq<char>,
    is_static: bool,
)
    requires
        jni_type_ok(attr_ty),
    ensures
        attr_ty[0] == 'L' ==> ends_with(
            getter_text(field_name, field_ty, attr_ty, name_lit, ty_lit, is_static),
            "    let mut object = "@ + field_ty
                + "::new(self.app.clone())?;\n    object.set_instance(out);\n    let out = object;\n    Ok(out)\n}\n"@,
        ),
        seq!['Z', 'B', 'C', 'S', 'I', 'J', 'F', 'D'].contains(attr_ty[0]) ==> ends_with(
            getter_text(field_name, field_ty, attr_ty, name_lit, ty_lit, is_static),
            seq![ascii_lower(attr_ty[0])] + "()?;\n    Ok(out)\n}\n"@,
        ),
{
    reveal_strlit("    let mut object = ");
    reveal_strlit("::new(");
    reveal_strlit("self.app.clone()");
    reveal_strlit(")?;\n    object.set_instance(out);\n    let out = object;\n");
    reveal_strlit("    Ok(out)\n}\n");
    reveal_strlit("::new(self.app.clone())?;\n    object.set_instance(out);\n    let out = object;\n    Ok(out)\n}\n");
    reveal_strlit("()?;\n");
    reveal_strlit("()?;\n    Ok(out)\n}\n");
    let c = attr_ty[0];
    let k = "    Ok(out)\n}\n"@;
    let head = fn_head(method_name_text("get_"@, field_name, is_static)) + ") -> Result<"@ + field_ty
        + ", jni::errors::Error> {\n"@ + get_env_line();
    let fg = field_get_text(name_lit, ty_lit, attr_ty, is_static);
    let obj = getter_object_text(field_ty, attr_ty);
    let getter = getter_text(field_name, field_ty, attr_ty, name_lit, ty_lit, is_static);
    assert(getter =~= (head + fg) + (obj + k));
    if c == 'L' {
        assert(ascii_lower(c) == 'l') by {
            assert(c as u32 == 76);
            assert((108u32 as char) == 'l');
        }
        assert(jni_accessor(attr_ty) =~= seq!['l']);
        let expected = "    let mut object = "@ + field_ty
            + "::new(self.app.clone())?;\n    object.set_instance(out);\n    let out = object;\n    Ok(out)\n}\n"@;
        assert(obj + k =~= expected);
        lemma_text_at(head + fg, expected, Seq::empty());
    }
    if seq!['Z', 'B', 'C', 'S', 'I', 'J', 'F', 'D'].contains(c) {
        let zs = seq!['Z', 'B', 'C', 'S', 'I', 'J', 'F', 'D'];
        let j = choose|j: int| 0 <= j < zs.len() && zs[j] == c;
        assert(ascii_lower(c) != 'l') by {
            assert('l' as u32 == 108);
            if j == 0 {
                assert(c as u32 == 90);
            } else if j == 1 {
                assert(c as u32 == 66);
            } else if j == 2 {
                assert(c as u32 == 67);
            } else if j == 3 {
                assert(c as u32 == 83);
            } else if j == 4 {
                assert(c as u32 == 73);
            } else if j == 5 {
                assert(c as u32 == 74);
            } else if j == 6 {
                assert(c as u32 == 70);
            } else {
                assert(c as u32 == 68);
            }
        }
        assert(jni_accessor(attr_ty) != seq!['l']) by {
            assert(jni_accessor(attr_ty)[0] != seq!['l'][0]);
        }
        assert(obj =~= Seq::<char>::empty());
        let pre = "    let out = env."@ + (if is_static {
            "get_static_field"@
        } else {
            "get_field"@
        }) + "("@ + receiver_text(is_static) + ", "@ + name_lit + ", "@ + ty_lit + ")?."@;
        let expected = seq![ascii_lower(c)] + "()?;\n    Ok(out)\n}\n"@;
        assert(fg =~= pre + seq![ascii_lower(c)] + "()?;\n"@);
        assert(getter =~= (head + pre) + expected);
        lemma_text_at(head + pre, expected, Seq::empty());
    }
}

/// Law: a static call method and the instance one differ only in their
/// header and their call statement: what follows the call statement is the
/// same text, whatever the return type. In particular a method returning `()`
/// ends with `let out = ();` and `Ok(out)`, static or not.
pub proof fn lemma_static_call_same_tail(
    method_name: Seq<char>,
    output: Seq<char>,
    args: Seq<(String, String)>,
    name_lit: Seq<char>,
    sig_lit: Seq<char>,
)
    ensures
        ({
            let hs = method_header(method_name, output, args, true) + get_env_line() + call_text(
                output,
                args,
                name_lit,
                sig_lit,
                true,
            );
            let hi = method_header(method_name, output, args, false) + get_env_line() + call_text(
                output,
                args,
                name_lit,
                sig_lit,
                false,
            );
            let ts = method_text(method_name, output, args, name_lit, sig_lit, true);
            let ti = method_text(method_name, output, args, name_lit, sig_lit, false);
            &&& starts_with(ts, hs)
            &&& starts_with(ti, hi)
            &&& ts.skip(hs.len() as int) == ti.skip(hi.len() as int)
        }),
        output == "()"@ ==> ends_with(
            method_text(method_name, output, args, name_lit, sig_lit, true),
            "    let out = ();\n    Ok(out)\n}\n"@,
        ),
        output == "()"@ ==> ends_with(
            method_text(method_name, output, args, name_lit, sig_lit, false),
            "    let out = ();\n    Ok(out)\n}\n"@,
        ),
{
    reveal_strlit("    let out = ();\n");
    reveal_strlit("    Ok(out)\n}\n");
    reveal_strlit("    let out = ();\n    Ok(out)\n}\n");
    let hs = method_header(method_name, output, args, true) + get_env_line() + call_text(
        output,
        args,
        name_lit,
        sig_lit,
        true,
    );
    let hi = method_header(method_name, output, args, false) + get_env_line() + call_text(
        output,
        args,
        name_lit,
        sig_lit,
        false,
    );
    let tail = call_wrap_text(output) + "    Ok(out)\n}\n"@;
    let ts = method_text(method_name, output, args, name_lit, sig_lit, true);
    let ti = method_text(method_name, output, args, name_lit, sig_lit, false);
    assert(ts =~= hs + tail);
    assert(ti =~= hi + tail);
    lemma_text_at(Seq::empty(), hs, tail);
    lemma_text_at(Seq::empty(), hi, tail);
    assert(Seq::<char>::empty() + hs + tail =~= hs + tail);
    assert(Seq::<char>::empty() + hi + tail =~= hi + tail);
    assert((hs + tail).skip(hs.len() as int) =~= tail);
    assert((hi + tail).skip(hi.len() as int) =~= tail);
    if output == "()"@ {
        let e = "    let out = ();\n    Ok(out)\n}\n"@;
        reveal_strlit("()");
        reveal_strlit("bool");
        reveal_strlit("char");
        reveal_strlit("i32");
        reveal_strlit("f64");
        assert("()"@ != "bool"@ && "()"@ != "char"@ && "()"@ != "i32"@ && "()"@ != "f64"@) by {
            assert("()"@[0] != "bool"@[0] && "()"@[0] != "char"@[0] && "()"@[0] != "i32"@[0]
                && "()"@[0] != "f64"@[0]);
        }
        assert(call_wrap_text(output) == "    let out = ();\n"@);
        assert(tail =~= e);
        lemma_text_at(hs, e, Seq::empty());
        lemma_text_at(hi, e, Seq::empty());
        assert(hs + e + Seq::<char>::empty() =~= hs + e);
        assert(hi + e + Seq::<char>::empty() =~= hi + e);
    }
}

} // verus!
