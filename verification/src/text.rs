//! Small text operations that the code generator is built from.

use vstd::prelude::*;

verus! {

/// Whether two strings hold the same characters.
pub fn str_eq(a: &str, b: &str) -> (res: bool)
    ensures
        res == (a@ == b@),
{
    String::from_str(a) == String::from_str(b)
}

/// The text of an identifier with a leading `r#` (a raw identifier) taken off.
pub open spec fn unraw_text(s: Seq<char>) -> Seq<char> {
    if s.len() >= 2 && s[0] == 'r' && s[1] == '#' {
        s.skip(2)
    } else {
        s
    }
}

/// The identifier text that names are formatted from: `r#type` becomes `type`,
/// other identifiers stay as they are.
pub fn unraw(s: &str) -> (res: String)
    ensures
        res@ == unraw_text(s@),
{
    let n = s.unicode_len();
    if n >= 2 && s.get_char(0) == 'r' && s.get_char(1) == '#' {
        let rest = s.substring_char(2, n);
        assert(rest@ =~= s@.skip(2));
        String::from_str(rest)
    } else {
        String::from_str(s)
    }
}

/// The lowercase form of an ASCII character; other characters are kept.
pub open spec fn ascii_lower(c: char) -> char {
    if 'A' <= c && c <= 'Z' {
        ((c as u32) + 32) as char
    } else {
        c
    }
}

/// Lowercases one ASCII character.
pub fn to_ascii_lower(c: char) -> (res: char)
    ensures
        res == ascii_lower(c),
{
    if 'A' <= c && c <= 'Z' {
        ((c as u8) + 32) as char
    } else {
        c
    }
}

/// Calls `char::to_string`, which gives the one-character string that holds `c`.
#[verifier::external_body]
pub(crate) fn char_text(c: char) -> (res: String)
    ensures
        res@ == seq![c],
{
    c.to_string()
}

/// Whether every character of `s` is printable ASCII other than `"` and `\`,
/// the characters that a string literal holds unescaped.
pub open spec fn plain_literal_chars(s: Seq<char>) -> bool {
    forall|i: int|
        0 <= i < s.len() ==> {
            let c = #[trigger] s[i];
            ' ' <= c && c <= '~' && c != '"' && c != '\\'
        }
}

/// `s` between double quotes.
pub open spec fn quoted(s: Seq<char>) -> Seq<char> {
    seq!['"'] + s + seq!['"']
}

/// The lowercase hexadecimal digit of `n` (below 16).
pub open spec fn hex_digit(n: int) -> char {
    seq!['0', '1', '2', '3', '4', '5', '6', '7', '8', '9', 'a', 'b', 'c', 'd', 'e', 'f'][n]
}

/// `\u{..}` with the code of `c` in lowercase hexadecimal without leading
/// zeros, for a character below 256.
pub open spec fn unicode_escape(c: char) -> Seq<char> {
    let v = c as u32 as int;
    "\\u{"@ + (if v < 16 {
        seq![hex_digit(v)]
    } else {
        seq![hex_digit(v / 16), hex_digit(v % 16)]
    }) + "}"@
}

/// How a string literal writes an ASCII character other than NUL: `"` and `\`
/// behind a backslash, newline, tab and carriage return as `\n`, `\t`, `\r`,
/// the other control characters (and DEL) as `\u{..}`, and every other
/// character (the single quote too) as itself.
pub open spec fn ascii_escape(c: char) -> Seq<char> {
    if c == '"' {
        "\\\""@
    } else if c == '\\' {
        "\\\\"@
    } else if c == '\n' {
        "\\n"@
    } else if c == '\t' {
        "\\t"@
    } else if c == '\r' {
        "\\r"@
    } else if (c as u32) < 0x20 || (c as u32) == 0x7f {
        unicode_escape(c)
    } else {
        seq![c]
    }
}

/// The characters of `s`, each written as `ascii_escape` writes it.
pub open spec fn escaped_text(s: Seq<char>) -> Seq<char>
    decreases s.len(),
{
    if s.len() == 0 {
        Seq::empty()
    } else {
        escaped_text(s.drop_last()) + ascii_escape(s.last())
    }
}

/// Whether every character of `s` is ASCII other than NUL.
pub open spec fn ascii_without_nul(s: Seq<char>) -> bool {
    forall|i: int| 0 <= i < s.len() ==> 0 < (#[trigger] s[i]) as u32 && (s[i] as u32) < 128
}

/// `c` in front of a decoded value; nothing when the rest did not decode.
pub open spec fn prepend(c: char, rest: Option<Seq<char>>) -> Option<Seq<char>> {
    match rest {
        Some(r) => Some(seq![c] + r),
        None => None,
    }
}

/// Whether `c` is a hexadecimal digit, in either case.
pub open spec fn is_hex_digit(c: char) -> bool {
    ('0' <= c && c <= '9') || ('a' <= c && c <= 'f') || ('A' <= c && c <= 'F')
}

/// The number that a hexadecimal digit stands for.
pub open spec fn hex_value(c: char) -> int {
    let v = c as u32 as int;
    if '0' <= c && c <= '9' {
        v - 48
    } else if 'a' <= c && c <= 'f' {
        v - 87
    } else {
        v - 55
    }
}

/// How many hexadecimal digits `t` starts with.
pub open spec fn hex_run(t: Seq<char>) -> nat
    decreases t.len(),
{
    if t.len() > 0 && is_hex_digit(t[0]) {
        1 + hex_run(t.skip(1))
    } else {
        0
    }
}

/// The number that a run of hexadecimal digits writes.
pub open spec fn hex_number(d: Seq<char>) -> int
    decreases d.len(),
{
    if d.len() == 0 {
        0
    } else {
        hex_number(d.drop_last()) * 16 + hex_value(d.last())
    }
}

/// Whether `v` is the code of a character (a Unicode scalar value).
pub open spec fn scalar_value(v: int) -> bool {
    0 <= v <= 0x10ffff && !(0xd800 <= v <= 0xdfff)
}

/// The character that a backslash followed by `e` stands for, for the
/// one-letter escapes `\n`, `\t`, `\r`, `\\`, `\"`, `\'` and `\0`.
pub open spec fn simple_escape(e: char) -> Option<char> {
    if e == 'n' {
        Some('\n')
    } else if e == 't' {
        Some('\t')
    } else if e == 'r' {
        Some('\r')
    } else if e == '\\' {
        Some('\\')
    } else if e == '"' {
        Some('"')
    } else if e == '\'' {
        Some('\'')
    } else if e == '0' {
        Some('\0')
    } else {
        None
    }
}

/// The value that the text between the quotes of a string literal stands for:
/// every character but `"` and `\` stands for itself, and a backslash starts
/// one of the escapes `\n`, `\t`, `\r`, `\\`, `\"`, `\'`, `\0`, `\xHH`
/// (two hexadecimal digits, below 0x80) or `\u{H..}` (one to six hexadecimal
/// digits, the code of a character). `None` for any other text.
pub open spec fn unescape(t: Seq<char>) -> Option<Seq<char>>
    decreases t.len(),
{
    if t.len() == 0 {
        Some(Seq::empty())
    } else if t[0] == '"' {
        None
    } else if t[0] != '\\' {
        prepend(t[0], unescape(t.skip(1)))
    } else if t.len() < 2 {
        None
    } else if simple_escape(t[1]) is Some {
        prepend(simple_escape(t[1])->Some_0, unescape(t.skip(2)))
    } else if t[1] == 'x' {
        if t.len() >= 4 && is_hex_digit(t[2]) && is_hex_digit(t[3]) && hex_number(t.subrange(2, 4))
            < 0x80 {
            prepend(hex_number(t.subrange(2, 4)) as char, unescape(t.skip(4)))
        } else {
            None
        }
    } else if t[1] == 'u' && t.len() >= 3 && t[2] == '{' {
        let k = hex_run(t.skip(3)) as int;
        if 1 <= k <= 6 && t.len() > 3 + k && t[3 + k] == '}' && scalar_value(
            hex_number(t.subrange(3, 3 + k)),
        ) {
            prepend(hex_number(t.subrange(3, 3 + k)) as char, unescape(t.skip(4 + k)))
        } else {
            None
        }
    } else {
        None
    }
}

/// The value of a string literal's source text: the text between its double
/// quotes, decoded by `unescape`; `None` when `lit` is not such a text.
pub open spec fn literal_value(lit: Seq<char>) -> Option<Seq<char>> {
    if lit.len() >= 2 && lit[0] == '"' && lit[lit.len() - 1] == '"' {
        unescape(lit.subrange(1, lit.len() - 1))
    } else {
        None
    }
}

/// Whether `lit` is the source text of a string literal holding `s`: it
/// starts and ends with a double quote and its value is `s`; when `s` holds
/// only ASCII characters other than NUL, it is `s` with each character
/// escaped as `ascii_escape` says, between double quotes.
pub open spec fn literal_of(lit: Seq<char>, s: Seq<char>) -> bool {
    &&& lit.len() >= 2
    &&& lit[0] == '"'
    &&& lit[lit.len() - 1] == '"'
    &&& literal_value(lit) == Some(s)
    &&& ascii_without_nul(s) ==> lit == quoted(escaped_text(s))
}

/// The literal text of a value of ASCII characters other than NUL.
pub open spec fn ascii_literal(s: Seq<char>) -> Seq<char> {
    quoted(escaped_text(s))
}

/// Each hexadecimal digit that `hex_digit` writes is read back as its number.
proof fn lemma_hex_digit(n: int)
    requires
        0 <= n < 16,
    ensures
        is_hex_digit(hex_digit(n)),
        hex_value(hex_digit(n)) == n,
        hex_digit(n) != '}',
{
    let ds = seq!['0', '1', '2', '3', '4', '5', '6', '7', '8', '9', 'a', 'b', 'c', 'd', 'e', 'f'];
    assert(hex_digit(n) == ds[n]);
    if n < 10 {
        assert(ds[n] as u32 == 48 + n) by {
            if n == 0 {} else if n == 1 {} else if n == 2 {} else if n == 3 {} else if n == 4 {}
            else if n == 5 {} else if n == 6 {} else if n == 7 {} else if n == 8 {} else {}
        }
    } else {
        assert(ds[n] as u32 == 87 + n) by {
            if n == 10 {} else if n == 11 {} else if n == 12 {} else if n == 13 {} else if n == 14 {}
            else {}
        }
    }
}

/// Decoding one escaped character: the escape that `ascii_escape` writes for
/// `c`, followed by any text, decodes to `c` followed by that text's value.
proof fn lemma_unescape_step(c: char, r: Seq<char>)
    ensures
        unescape(ascii_escape(c) + r) == prepend(c, unescape(r)),
{
    reveal_strlit("\\\"");
    reveal_strlit("\\\\");
    reveal_strlit("\\n");
    reveal_strlit("\\t");
    reveal_strlit("\\r");
    reveal_strlit("\\u{");
    reveal_strlit("}");
    let t = ascii_escape(c) + r;
    let v = c as u32 as int;
    if c == '"' || c == '\\' || c == '\n' || c == '\t' || c == '\r' {
        assert(t.skip(2) =~= r);
    } else if v < 0x20 || v == 0x7f {
        let d = if v < 16 {
            seq![hex_digit(v)]
        } else {
            seq![hex_digit(v / 16), hex_digit(v % 16)]
        };
        assert(ascii_escape(c) == "\\u{"@ + d + "}"@);
        assert(t =~= seq!['\\', 'u', '{'] + d + seq!['}'] + r);
        let k = d.len() as int;
        if v < 16 {
            lemma_hex_digit(v);
            assert(t.skip(3) =~= seq![d[0]] + (seq!['}'] + r));
            assert((seq![d[0]] + (seq!['}'] + r)).skip(1) =~= seq!['}'] + r);
            assert(hex_run(seq!['}'] + r) == 0);
            assert(hex_run(t.skip(3)) == 1);
            assert(t.subrange(3, 4) =~= d);
            assert(d.drop_last() =~= Seq::<char>::empty());
            assert(hex_number(Seq::<char>::empty()) == 0);
            assert(d.last() == hex_digit(v));
            assert(hex_number(d) == v);
        } else {
            lemma_hex_digit(v / 16);
            lemma_hex_digit(v % 16);
            let u = t.skip(3);
            assert(u =~= seq![d[0]] + (seq![d[1]] + (seq!['}'] + r)));
            assert(u.skip(1) =~= seq![d[1]] + (seq!['}'] + r));
            assert(u.skip(1).skip(1) =~= seq!['}'] + r);
            assert(hex_run(seq!['}'] + r) == 0);
            assert(hex_run(u.skip(1)) == 1);
            assert(hex_run(u) == 2);
            assert(t.subrange(3, 5) =~= d);
            assert(d.drop_last() =~= seq![d[0]]);
            assert(seq![d[0]].drop_last() =~= Seq::<char>::empty());
            assert(hex_number(Seq::<char>::empty()) == 0);
            assert(seq![d[0]].last() == hex_digit(v / 16));
            assert(hex_number(seq![d[0]]) == v / 16);
            assert(d.last() == hex_digit(v % 16));
            assert(hex_number(d) == v);
        }
        assert(t[3 + k] == '}');
        assert(t.skip(4 + k) =~= r);
        assert((v as char) == c);
    } else {
        assert(ascii_escape(c) == seq![c]);
        assert(t.skip(1) =~= r);
    }
}

/// Decoding the escaped text of `s` in front of any text gives `s` in front
/// of that text's value.
proof fn lemma_unescape_escaped(s: Seq<char>, r: Seq<char>)
    ensures
        unescape(escaped_text(s) + r) == (match unescape(r) {
            Some(v) => Some(s + v),
            None => None,
        }),
    decreases s.len(),
{
    if s.len() == 0 {
        assert(escaped_text(s) + r =~= r);
        match unescape(r) {
            Some(v) => assert(s + v =~= v),
            None => {},
        }
    } else {
        let init = s.drop_last();
        let c = s.last();
        assert(escaped_text(s) + r =~= escaped_text(init) + (ascii_escape(c) + r));
        lemma_unescape_escaped(init, ascii_escape(c) + r);
        lemma_unescape_step(c, r);
        match unescape(r) {
            Some(v) => assert(init + (seq![c] + v) =~= s + v),
            None => {},
        }
    }
}

/// The escaped text of `s` between double quotes is a literal text of `s`.
pub proof fn lemma_escaped_is_literal(s: Seq<char>)
    ensures
        literal_of(quoted(escaped_text(s)), s),
{
    let lit = quoted(escaped_text(s));
    assert(lit.subrange(1, lit.len() - 1) =~= escaped_text(s) + Seq::<char>::empty());
    lemma_unescape_escaped(s, Seq::empty());
    assert(s + Seq::<char>::empty() =~= s);
}

/// Whether `c` is one of the characters that escapes are written with.
pub open spec fn escape_char(c: char) -> bool {
    c == '\\' || c == '"' || c == '\'' || c == '{' || c == '}' || c == 'n' || c == 't' || c == 'r'
        || c == 'x' || c == 'u' || is_hex_digit(c)
}

proof fn lemma_hex_run_digits(s: Seq<char>, j: int)
    requires
        0 <= j < hex_run(s),
    ensures
        j < s.len(),
        is_hex_digit(s[j]),
    decreases s.len(),
{
    assert(s.len() > 0 && is_hex_digit(s[0]));
    if j > 0 {
        lemma_hex_run_digits(s.skip(1), j - 1);
        assert(s.skip(1)[j - 1] == s[j]);
    }
}

/// Law: a character that no escape is written with stands in the text between
/// a literal's quotes only where it stands in the literal's value: if the
/// value lacks it, so does the text.
pub proof fn lemma_unescape_absent(t: Seq<char>, v: Seq<char>, c: char)
    requires
        unescape(t) == Some(v),
        !escape_char(c),
        forall|i: int| 0 <= i < v.len() ==> v[i] != c,
    ensures
        forall|i: int| 0 <= i < t.len() ==> t[i] != c,
    decreases t.len(),
{
    if t.len() > 0 {
        let n: int = if t[0] != '\\' {
            1
        } else if simple_escape(t[1]) is Some {
            2
        } else if t[1] == 'x' {
            4
        } else {
            4 + hex_run(t.skip(3)) as int
        };
        let r = unescape(t.skip(n));
        assert(r is Some && v == seq![v[0]] + r->Some_0);
        let rest = r->Some_0;
        assert(rest =~= v.skip(1));
        assert forall|i: int| 0 <= i < rest.len() implies rest[i] != c by {
            assert(rest[i] == v[i + 1]);
        }
        lemma_unescape_absent(t.skip(n), rest, c);
        assert forall|i: int| 0 <= i < t.len() implies t[i] != c by {
            if i >= n {
                assert(t[i] == t.skip(n)[i - n]);
            } else if i == 0 {
                if t[0] != '\\' {
                    assert(t[0] == v[0]);
                }
            } else if i >= 3 && t[1] == 'u' && simple_escape(t[1]) is None {
                if i < 3 + hex_run(t.skip(3)) {
                    lemma_hex_run_digits(t.skip(3), i - 3);
                    assert(t.skip(3)[i - 3] == t[i]);
                } else {
                    assert(t[i] == '}');
                }
            }
        }
    }
}

/// Law: a value of printable ASCII other than `"` and `\` stands in a string
/// literal unchanged, between double quotes.
pub proof fn lemma_plain_literal(lit: Seq<char>, s: Seq<char>)
    requires
        plain_literal_chars(s),
        literal_of(lit, s),
    ensures
        lit == quoted(s),
    decreases s.len(),
{
    lemma_plain_escapes(s);
}

proof fn lemma_plain_escapes(s: Seq<char>)
    requires
        plain_literal_chars(s),
    ensures
        ascii_without_nul(s),
        escaped_text(s) == s,
    decreases s.len(),
{
    if s.len() > 0 {
        let init = s.drop_last();
        assert forall|i: int| 0 <= i < init.len() implies {
            let c = #[trigger] init[i];
            ' ' <= c && c <= '~' && c != '"' && c != '\\'
        } by {
            assert(init[i] == s[i]);
        }
        lemma_plain_escapes(init);
        let c = s.last();
        assert(' ' <= c && c <= '~' && c != '"' && c != '\\') by {
            assert(c == s[s.len() - 1]);
        }
        assert(ascii_escape(c) == seq![c]);
        assert(s =~= init + seq![c]);
    }
}

/// Calls `proc_macro2::Literal::string` and returns the literal's text.
/// Trusted: the text is a string literal whose value is `s` (see
/// `literal_value`); for a value of ASCII characters other than NUL it is the
/// value with `"` and `\` behind a backslash, newline, tab and carriage return
/// as `\n`, `\t`, `\r`, the other control characters and DEL as `\u{..}` and
/// all others as they are, between double quotes. Both implementations that
/// the call can run on (proc-macro2's own, and the compiler's inside a
/// procedural macro) escape each character with `char::escape_debug`, leave
/// the single quote unescaped, and write NUL as `\0` (as `\x00` before a
/// digit, in proc-macro2 and recent compilers); every form they write is one
/// that `unescape` reads. Which of several escapes of the same character is
/// written for NUL and for characters beyond ASCII is left unsaid.
#[verifier::external_body]
pub(crate) fn string_literal(s: &str) -> (res: String)
    ensures
        literal_of(res@, s@),
{
    proc_macro2::Literal::string(s).to_string()
}

} // verus!
