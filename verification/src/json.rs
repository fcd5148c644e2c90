//! The JSON values of `serde_json`, as audit metadata uses them.

use vstd::prelude::*;

use serde_json::{Map as JsonMap, Value};

verus! {

/// Declares `serde_json::Value`.
#[verifier::external_type_specification]
#[verifier::external_body]
pub struct ExValue(Value);

/// The compact JSON text of a value: what the value holds, written out.
pub uninterp spec fn json_text(value: Value) -> Seq<char>;

/// A hexadecimal digit, in lower case.
pub open spec fn hex_digit(d: int) -> char {
    if d < 10 {
        ('0' as u32 + d) as char
    } else {
        ('a' as u32 + d - 10) as char
    }
}

/// One character inside a JSON string. The quote, the backslash and the
/// control characters are escaped, with a short form for five of the latter.
pub open spec fn json_char(c: char) -> Seq<char> {
    let n = c as int;
    if c == '"' || c == '\\' {
        seq!['\\', c]
    } else if n == 8 {
        seq!['\\', 'b']
    } else if n == 9 {
        seq!['\\', 't']
    } else if n == 10 {
        seq!['\\', 'n']
    } else if n == 12 {
        seq!['\\', 'f']
    } else if n == 13 {
        seq!['\\', 'r']
    } else if n < 32 {
        seq!['\\', 'u', '0', '0', hex_digit(n / 16), hex_digit(n % 16)]
    } else {
        seq![c]
    }
}

/// The characters of a string as they stand between the quotes of its JSON
/// text.
pub open spec fn json_chars(s: Seq<char>) -> Seq<char>
    decreases s.len(),
{
    if s.len() == 0 {
        Seq::empty()
    } else {
        json_chars(s.drop_last()) + json_char(s.last())
    }
}

/// The JSON text of a string.
pub open spec fn json_string(s: Seq<char>) -> Seq<char> {
    seq!['"'] + json_chars(s) + seq!['"']
}

/// The JSON text of an object with one field, which holds a string.
pub open spec fn json_field(key: Seq<char>, value: Seq<char>) -> Seq<char> {
    seq!['{'] + json_string(key) + seq![':'] + json_string(value) + seq!['}']
}

/// `serde_json::Map::insert` on an empty map: the object whose only field
/// `key` holds the string `value`. Its compact text is that field between
/// braces, with no space in it.
#[verifier::external_body]
pub(crate) fn string_field(key: &str, value: &str) -> (r: Value)
    ensures
        json_text(r) == json_field(key@, value@),
{
    let mut map = JsonMap::new();
    map.insert(key.to_string(), Value::String(value.to_string()));
    Value::Object(map)
}

/// `Display` of a `serde_json::Value`, without the alternate flag: its compact
/// text.
#[verifier::external_body]
pub(crate) fn value_text(value: &Value) -> (r: String)
    ensures
        r@ == json_text(*value),
{
    value.to_string()
}

/// What a character becomes inside a JSON string. Everything from the space on
/// stands for itself, but for the quote and the backslash, which follow a
/// backslash. Five control characters have a letter, and the others the four
/// hexadecimal digits of their number.
pub proof fn law_json_char(c: char)
    ensures
        c as int >= 32 && c != '"' && c != '\\' ==> json_char(c) == seq![c],
        c == '"' || c == '\\' ==> json_char(c) == seq!['\\', c],
        c == '\n' ==> json_char(c) == seq!['\\', 'n'],
        c == '\r' ==> json_char(c) == seq!['\\', 'r'],
        c == '\t' ==> json_char(c) == seq!['\\', 't'],
        c as int == 8 ==> json_char(c) == seq!['\\', 'b'],
        c as int == 12 ==> json_char(c) == seq!['\\', 'f'],
        c as int == 11 || (c as int) < 8 || 13 < c as int && (c as int) < 32 ==> {
            let text = json_char(c);
            let low = text[5] as int;
            &&& text.len() == 6
            &&& text.take(4) == seq!['\\', 'u', '0', '0']
            &&& text[4] == (if (c as int) < 16 {
                '0'
            } else {
                '1'
            })
            &&& 48 <= low <= 57 || 97 <= low <= 102
            &&& c as int % 16 == if low <= 57 {
                low - 48
            } else {
                low - 87
            }
        },
{
    let n = c as int;
    if n == 11 || n < 8 || 13 < n < 32 {
        assert(json_char(c).take(4) =~= seq!['\\', 'u', '0', '0']);
    }
}

/// Strings are written character by character, between quotes.
pub proof fn law_json_string(a: Seq<char>, b: Seq<char>, c: char)
    ensures
        json_chars(a + b) == json_chars(a) + json_chars(b),
        json_chars(seq![c]) == json_char(c),
        json_chars(Seq::empty()) == Seq::<char>::empty(),
        json_string(a) == seq!['"'] + json_chars(a) + seq!['"'],
    decreases b.len(),
{
    assert(seq![c].drop_last() =~= Seq::empty());
    assert(json_chars(Seq::empty()) =~= Seq::empty());
    assert(seq![c].last() == c);
    assert(json_chars(seq![c]) =~= json_char(c));
    if b.len() == 0 {
        assert(a + b =~= a);
        assert(json_chars(a) + json_chars(b) =~= json_chars(a));
    } else {
        law_json_string(a, b.drop_last(), c);
        assert((a + b).drop_last() =~= a + b.drop_last());
        assert(json_chars(a + b) =~= json_chars(a) + json_chars(b));
    }
}

/// An object with one field is written without a space.
pub proof fn law_json_field(key: Seq<char>, value: Seq<char>)
    ensures
        json_field(key, value) == seq!['{', '"'] + json_chars(key) + seq!['"', ':', '"']
            + json_chars(value) + seq!['"', '}'],
{
    assert(json_field(key, value) =~= seq!['{', '"'] + json_chars(key) + seq!['"', ':', '"']
        + json_chars(value) + seq!['"', '}']);
}

/// Text without a quote, a backslash or a control character is written as it
/// is.
pub proof fn law_plain_text_is_written_as_it_is(s: Seq<char>)
    requires
        forall|i: int|
            0 <= i < s.len() ==> (#[trigger] s[i]) as int >= 32 && s[i] != '"' && s[i] != '\\',
    ensures
        json_chars(s) == s,
    decreases s.len(),
{
    if s.len() == 0 {
        assert(json_chars(s) =~= s);
    } else {
        law_plain_text_is_written_as_it_is(s.drop_last());
        assert(s.last() == s[s.len() - 1]);
        law_json_char(s.last());
        assert(json_char(s.last()) =~= seq![s.last()]);
        assert(json_chars(s) =~= s);
    }
}

} // verus!
