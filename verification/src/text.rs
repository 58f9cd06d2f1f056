//! Text building blocks: characters of strings, decimal numerals and the
//! compact JSON text of a value.

use vstd::prelude::*;
use crate::json::{JsonValue, JsonNumber, JsonList, JsonFields};

verus! {

/// The characters of `s`, from `str::chars`.
///
/// std documents `chars` as yielding the string's characters in order; the
/// contract says exactly that.
#[verifier::external_body]
pub(crate) fn chars_of(s: &str) -> (v: Vec<char>)
    ensures
        v@ == s@,
{
    s.chars().collect()
}

/// The string made of the characters `v`, collected with `String`'s
/// `FromIterator<char>`.
///
/// std documents the collected string as holding the characters in order;
/// the contract says exactly that.
#[verifier::external_body]
pub(crate) fn string_of(v: &Vec<char>) -> (s: String)
    ensures
        s@ == v@,
{
    v.iter().collect()
}

/// The decimal digit for `d` (0 to 9).
pub open spec fn digit_char(d: int) -> char {
    if d == 0 { '0' } else if d == 1 { '1' } else if d == 2 { '2' } else if d == 3 { '3' }
    else if d == 4 { '4' } else if d == 5 { '5' } else if d == 6 { '6' } else if d == 7 { '7' }
    else if d == 8 { '8' } else { '9' }
}

/// The decimal numeral of `n`, without leading zeros.
pub open spec fn decimal(n: nat) -> Seq<char>
    decreases n,
{
    if n < 10 {
        seq![digit_char(n as int)]
    } else {
        decimal(n / 10).push(digit_char((n % 10) as int))
    }
}

fn digit(d: u64) -> (c: char)
    requires
        d < 10,
    ensures
        c == digit_char(d as int),
{
    if d == 0 { '0' } else if d == 1 { '1' } else if d == 2 { '2' } else if d == 3 { '3' }
    else if d == 4 { '4' } else if d == 5 { '5' } else if d == 6 { '6' } else if d == 7 { '7' }
    else if d == 8 { '8' } else { '9' }
}

/// Appends the decimal numeral of `n` to `out`.
pub fn push_decimal(out: &mut Vec<char>, n: u64)
    ensures
        final(out)@ == old(out)@ + decimal(n as nat),
    decreases n,
{
    if n < 10 {
        out.push(digit(n));
        proof { assert(decimal(n as nat) =~= seq![digit_char(n as int)]); }
    } else {
        push_decimal(out, n / 10);
        out.push(digit(n % 10));
        proof {
            assert(decimal(n as nat) == decimal((n / 10) as nat).push(digit_char((n % 10) as int)));
        }
    }
}

/// The decimal numeral of `n` as a string.
pub fn decimal_string(n: u64) -> (s: String)
    ensures
        s@ == decimal(n as nat),
{
    let mut v: Vec<char> = Vec::new();
    push_decimal(&mut v, n);
    proof { assert(v@ =~= decimal(n as nat)); }
    string_of(&v)
}

/// Appends the characters of `s` to `out`.
pub fn push_str(out: &mut Vec<char>, s: &str)
    ensures
        final(out)@ == old(out)@ + s@,
{
    let cs = chars_of(s);
    let mut i: usize = 0;
    while i < cs.len()
        invariant
            i <= cs@.len(),
            cs@ == s@,
            out@ == old(out)@ + cs@.take(i as int),
        decreases cs.len() - i,
    {
        out.push(cs[i]);
        proof { assert(cs@.take(i + 1) =~= cs@.take(i as int).push(cs@[i as int])); }
        i = i + 1;
    }
    proof { assert(cs@.take(cs@.len() as int) =~= cs@); }
}

/// Lower-case hexadecimal digit for a nibble (0 to 15).
pub open spec fn hex_char(d: int) -> char {
    if d < 10 { digit_char(d) } else if d == 10 { 'a' } else if d == 11 { 'b' } else if d == 12 { 'c' }
    else if d == 13 { 'd' } else if d == 14 { 'e' } else { 'f' }
}

/// How JSON text writes character `c` inside a string: quote, backslash and
/// the control characters are escaped (the short forms `\b \t \n \f \r`
/// where they exist, `\u00XX` with lower-case hex otherwise); any other
/// character stands for itself.
pub open spec fn escaped_char(c: char) -> Seq<char> {
    if c == '"' {
        seq!['\\', '"']
    } else if c == '\\' {
        seq!['\\', '\\']
    } else if c == '\u{8}' {
        seq!['\\', 'b']
    } else if c == '\t' {
        seq!['\\', 't']
    } else if c == '\n' {
        seq!['\\', 'n']
    } else if c == '\u{c}' {
        seq!['\\', 'f']
    } else if c == '\r' {
        seq!['\\', 'r']
    } else if (c as int) < 0x20 {
        seq!['\\', 'u', '0', '0', hex_char((c as int) / 16), hex_char((c as int) % 16)]
    } else {
        seq![c]
    }
}

/// The escaped form of a character sequence.
pub open spec fn escaped(s: Seq<char>) -> Seq<char>
    decreases s.len(),
{
    if s.len() == 0 {
        Seq::empty()
    } else {
        escaped(s.drop_last()) + escaped_char(s.last())
    }
}

/// A JSON string literal holding `s`.
pub open spec fn quoted(s: Seq<char>) -> Seq<char> {
    seq!['"'] + escaped(s) + seq!['"']
}

/// The JSON text of a number: integers in decimal, other numbers as held.
pub open spec fn number_text(n: JsonNumber) -> Seq<char> {
    match n {
        JsonNumber::PosInt(u) => decimal(u as nat),
        JsonNumber::NegInt(i) => if i < 0 { seq!['-'] + decimal((-i) as nat) } else { decimal(i as nat) },
        JsonNumber::Float(t) => t@,
    }
}

/// The compact JSON text of a value: no spaces, array elements and object
/// fields separated by commas, fields in their stored order.
pub open spec fn json_text(v: JsonValue) -> Seq<char>
    decreases v,
{
    match v {
        JsonValue::Null => seq!['n', 'u', 'l', 'l'],
        JsonValue::Bool(b) => if b { seq!['t', 'r', 'u', 'e'] } else { seq!['f', 'a', 'l', 's', 'e'] },
        JsonValue::Number(n) => number_text(n),
        JsonValue::Text(s) => quoted(s@),
        JsonValue::Array(l) => seq!['['] + list_text(l) + seq![']'],
        JsonValue::Object(f) => seq!['{'] + fields_text(f) + seq!['}'],
    }
}

/// The comma-separated texts of the elements.
pub open spec fn list_text(l: JsonList) -> Seq<char>
    decreases l,
{
    match l {
        JsonList::Nil => Seq::empty(),
        JsonList::Cons(v, rest) => json_text(*v) + match *rest {
            JsonList::Nil => Seq::<char>::empty(),
            _ => seq![','] + list_text(*rest),
        },
    }
}

/// The comma-separated `"name":value` texts of the fields.
pub open spec fn fields_text(f: JsonFields) -> Seq<char>
    decreases f,
{
    match f {
        JsonFields::Nil => Seq::empty(),
        JsonFields::Cons(k, v, rest) => quoted(k@) + seq![':'] + json_text(*v) + match *rest {
            JsonFields::Nil => Seq::<char>::empty(),
            _ => seq![','] + fields_text(*rest),
        },
    }
}

fn hex(d: u32) -> (c: char)
    requires
        d < 16,
    ensures
        c == hex_char(d as int),
{
    if d < 10 { digit(d as u64) } else if d == 10 { 'a' } else if d == 11 { 'b' } else if d == 12 { 'c' }
    else if d == 13 { 'd' } else if d == 14 { 'e' } else { 'f' }
}

/// Appends the escaped form of `c`.
fn push_escaped_char(out: &mut Vec<char>, c: char)
    ensures
        final(out)@ == old(out)@ + escaped_char(c),
{
    let ghost start = out@;
    if c == '"' {
        out.push('\\');
        out.push('"');
    } else if c == '\\' {
        out.push('\\');
        out.push('\\');
    } else if c == '\u{8}' {
        out.push('\\');
        out.push('b');
    } else if c == '\t' {
        out.push('\\');
        out.push('t');
    } else if c == '\n' {
        out.push('\\');
        out.push('n');
    } else if c == '\u{c}' {
        out.push('\\');
        out.push('f');
    } else if c == '\r' {
        out.push('\\');
        out.push('r');
    } else if (c as u32) < 0x20 {
        let n = c as u32;
        out.push('\\');
        out.push('u');
        out.push('0');
        out.push('0');
        out.push(hex(n / 16));
        out.push(hex(n % 16));
    } else {
        out.push(c);
    }
    proof { assert(out@ =~= start + escaped_char(c)); }
}

/// Appends `s` as a JSON string literal.
pub fn push_quoted(out: &mut Vec<char>, s: &str)
    ensures
        final(out)@ == old(out)@ + quoted(s@),
{
    let cs = chars_of(s);
    out.push('"');
    let ghost start = out@;
    let mut i: usize = 0;
    while i < cs.len()
        invariant
            i <= cs@.len(),
            out@ == start + escaped(cs@.take(i as int)),
        decreases cs.len() - i,
    {
        let ghost before = out@;
        push_escaped_char(out, cs[i]);
        proof {
            let t = cs@.take(i + 1);
            assert(t.drop_last() =~= cs@.take(i as int));
            assert(t.last() == cs@[i as int]);
            assert(out@ =~= start + escaped(t));
        }
        i = i + 1;
    }
    out.push('"');
    proof {
        assert(cs@.take(cs@.len() as int) =~= s@);
        assert(out@ =~= old(out)@ + quoted(s@));
    }
}

/// Appends the JSON text of a number.
fn push_number(out: &mut Vec<char>, n: &JsonNumber)
    ensures
        final(out)@ == old(out)@ + number_text(*n),
{
    match n {
        JsonNumber::PosInt(u) => push_decimal(out, *u),
        JsonNumber::NegInt(i) => {
            if *i < 0 {
                out.push('-');
                let ghost mid = out@;
                let m: u64 = if *i == i64::MIN { 9223372036854775808u64 } else { (-*i) as u64 };
                push_decimal(out, m);
                proof { assert(out@ =~= old(out)@ + (seq!['-'] + decimal((-*i) as nat))); }
            } else {
                push_decimal(out, *i as u64);
            }
        },
        JsonNumber::Float(t) => push_str(out, t.as_str()),
    }
}

/// Appends the compact JSON text of `v`.
pub fn push_json(out: &mut Vec<char>, v: &JsonValue)
    ensures
        final(out)@ == old(out)@ + json_text(*v),
    decreases v,
{
    let ghost start = out@;
    match v {
        JsonValue::Null => push_str(out, "null"),
        JsonValue::Bool(b) => {
            if *b {
                push_str(out, "true");
            } else {
                push_str(out, "false");
            }
        },
        JsonValue::Number(n) => push_number(out, n),
        JsonValue::Text(s) => push_quoted(out, s.as_str()),
        JsonValue::Array(l) => {
            out.push('[');
            push_list(out, l);
            out.push(']');
        },
        JsonValue::Object(f) => {
            out.push('{');
            push_fields(out, f);
            out.push('}');
        },
    }
    proof {
        reveal_strlit("null");
        reveal_strlit("true");
        reveal_strlit("false");
        assert(out@ =~= start + json_text(*v));
    }
}

/// Appends the comma-separated texts of the elements.
pub fn push_list(out: &mut Vec<char>, l: &JsonList)
    ensures
        final(out)@ == old(out)@ + list_text(*l),
    decreases l,
{
    let ghost start = out@;
    match l {
        JsonList::Nil => {},
        JsonList::Cons(v, rest) => {
            push_json(out, v);
            match &**rest {
                JsonList::Nil => {},
                _ => {
                    out.push(',');
                    push_list(out, rest);
                },
            }
        },
    }
    proof { assert(out@ =~= start + list_text(*l)); }
}

/// Appends the comma-separated `"name":value` texts of the fields.
pub fn push_fields(out: &mut Vec<char>, f: &JsonFields)
    ensures
        final(out)@ == old(out)@ + fields_text(*f),
    decreases f,
{
    let ghost start = out@;
    match f {
        JsonFields::Nil => {},
        JsonFields::Cons(k, v, rest) => {
            push_quoted(out, k.as_str());
            out.push(':');
            push_json(out, v);
            match &**rest {
                JsonFields::Nil => {},
                _ => {
                    out.push(',');
                    push_fields(out, rest);
                },
            }
        },
    }
    proof { assert(out@ =~= start + fields_text(*f)); }
}

/// The compact JSON text of `v`, as `serde_json` writes a value: no
/// whitespace, strings escaped as `escaped_char` says, object fields in
/// their stored order.
pub fn json_string(v: &JsonValue) -> (s: String)
    ensures
        s@ == json_text(*v),
{
    let mut out: Vec<char> = Vec::new();
    push_json(&mut out, v);
    proof { assert(out@ =~= json_text(*v)); }
    string_of(&out)
}

/// What std's `Debug` formatting writes for a string: the text in double
/// quotes with characters escaped.
pub uninterp spec fn debug_text(s: Seq<char>) -> Seq<char>;

/// A character that `Debug` writes as itself inside a string: printable
/// ASCII other than the quotes and the backslash.
pub open spec fn is_plain_char(c: char) -> bool {
    0x20 <= (c as int) <= 0x7e && c != '"' && c != '\\' && c != '\''
}

/// Formats a string with std's `Debug` (`format!("{:?}", s)`).
///
/// The escaping rules for the whole of Unicode are left to the name
/// `debug_text`; the contract adds one fact std documents: printable ASCII
/// other than quotes and backslash is written as itself, so such a text is
/// only put in double quotes.
#[verifier::external_body]
pub(crate) fn debug_string(s: &str) -> (r: String)
    ensures
        r@ == debug_text(s@),
        (forall|i: int| 0 <= i < s@.len() ==> is_plain_char(#[trigger] s@[i])) ==> r@ == seq!['"'] + s@ + seq!['"'],
{
    format!("{:?}", s)
}

} // verus!
