//! Text as a JSON string, which a script can hold as a double-quoted literal.

use vstd::prelude::*;

use crate::literal::{
    escape_each, escape_meaning, hex_value, is_hex_digit, is_line_break, lemma_escape_each_front,
    lemma_escape_each_joins, lemma_escape_each_one, literal_end, literal_value,
};

verus! {

/// The lower-case hexadecimal digit for `d`.
pub open spec fn hex_digit(d: int) -> char {
    if d < 10 {
        ('0' as int + d) as char
    } else {
        ('a' as int + d - 10) as char
    }
}

/// What stands for `c` inside a JSON string.
pub open spec fn json_escape(c: char) -> Seq<char> {
    if c == '"' || c == '\\' {
        seq!['\\', c]
    } else if c == '\u{8}' {
        seq!['\\', 'b']
    } else if c == '\t' {
        seq!['\\', 't']
    } else if c == '\n' {
        seq!['\\', 'n']
    } else if c == '\u{c}' {
        seq!['\\', 'f']
    } else if c == '\r' {
        seq!['\\', 'r']
    } else if (c as int) < 0x20 {
        seq!['\\', 'u', '0', '0', hex_digit(c as int / 16), hex_digit(c as int % 16)]
    } else {
        seq![c]
    }
}

/// The contents of the JSON string for `s`, between its quotes.
pub open spec fn json_escaped(s: Seq<char>) -> Seq<char> {
    escape_each(s, |c: char| json_escape(c))
}

/// The JSON string for `s`.
pub open spec fn json_literal(s: Seq<char>) -> Seq<char> {
    seq!['"'] + json_escaped(s) + seq!['"']
}

/// `serde_json::to_string` on a `str` succeeds and gives the text between double quotes, with
/// the double quote, the backslash and the characters below U+0020 escaped, and every other
/// character as it is.
#[verifier::external_body]
fn serialise(s: &str) -> (r: Option<String>)
    ensures
        r is Some,
        r->Some_0@ == json_literal(s@),
{
    match serde_json::to_string(s) {
        Ok(t) => Some(t),
        Err(_) => None,
    }
}

/// Text as a JSON string.
pub fn json_string(s: &str) -> (r: String)
    ensures
        r@ == json_literal(s@),
{
    match serialise(s) {
        Some(t) => t,
        None => "\"\"".to_string(),
    }
}

/// In a script that holds the JSON string for `text` after `before`, the double-quoted literal
/// that it opens ends at its own last quote, whatever the text and whatever `rest` follows.
pub proof fn json_text_cannot_end_its_literal(before: Seq<char>, text: Seq<char>, rest: Seq<char>)
    ensures
        literal_end(
            before + json_literal(text) + rest,
            before.len() as int + 1,
            '"',
        ) == Some((before.len() + json_literal(text).len() - 1) as int),
{
    lemma_json_contents_end(before + seq!['"'], text, rest);
    assert(before + json_literal(text) + rest =~= (before + seq!['"']) + json_escaped(text)
        + seq!['"'] + rest);
}

/// A JSON string stands in double quotes and is written character by character: what stands for
/// two texts in a row is what stands for the one and for the other.
pub proof fn json_is_written_one_by_one(a: Seq<char>, b: Seq<char>)
    ensures
        ({
            let first = json_literal(a);
            let second = json_literal(b);
            &&& first.len() >= 2 && first[0] == '"' && first.last() == '"'
            &&& json_literal(a + b) == first.drop_last() + second.skip(1)
            &&& a.len() == 0 ==> first == seq!['"', '"']
        }),
{
    lemma_escape_each_joins(a, b, |c: char| json_escape(c));
    assert(json_literal(a + b) =~= json_literal(a).drop_last() + json_literal(b).skip(1));
    if a.len() == 0 {
        assert(json_literal(a) =~= seq!['"', '"']);
    }
}

/// In a JSON string a character stands for itself, except that the double quote and the backslash
/// get a backslash in front, and that a control character is a backslash and a letter, or a
/// backslash, `u` and the four lower-case hexadecimal digits of its code.
pub proof fn json_of_one_character(c: char)
    ensures
        ({
            let written = json_literal(seq![c]);
            let code = c as int;
            let low = written[6] as int;
            &&& code >= 0x20 && c != '"' && c != '\\' ==> written == seq!['"', c, '"']
            &&& c == '"' || c == '\\' ==> written == seq!['"', '\\', c, '"']
            &&& code == 8 ==> written == seq!['"', '\\', 'b', '"']
            &&& code == 9 ==> written == seq!['"', '\\', 't', '"']
            &&& code == 10 ==> written == seq!['"', '\\', 'n', '"']
            &&& code == 12 ==> written == seq!['"', '\\', 'f', '"']
            &&& code == 13 ==> written == seq!['"', '\\', 'r', '"']
            &&& code < 0x20 && code != 8 && code != 9 && code != 10 && code != 12 && code != 13 ==> {
                &&& written.len() == 8
                &&& written.take(5) == seq!['"', '\\', 'u', '0', '0']
                &&& written[5] == if code < 16 { '0' } else { '1' }
                &&& code % 16 < 10 ==> low == '0' as int + code % 16
                &&& code % 16 >= 10 ==> low == 'a' as int + code % 16 - 10
                &&& written[7] == '"'
            }
        }),
{
    lemma_escape_each_one(c, |c: char| json_escape(c));
    let written = json_literal(seq![c]);
    let code = c as int;
    let chunk = json_escape(c);
    assert(written =~= seq!['"'] + chunk + seq!['"']);
    if code >= 0x20 && c != '"' && c != '\\' {
        assert(written =~= seq!['"', c, '"']);
    } else if c == '"' || c == '\\' {
        assert(written =~= seq!['"', '\\', c, '"']);
    } else if code == 8 || code == 9 || code == 10 || code == 12 || code == 13 {
        assert(written =~= seq!['"', '\\', chunk[1], '"']);
    } else {
        let hi = code / 16;
        let lo = code % 16;
        assert(0 <= hi < 2 && 0 <= lo < 16 && code == hi * 16 + lo);
        assert(chunk.len() == 6);
        assert(written[5] == chunk[4] && written[6] == chunk[5]);
        assert(written.take(5) =~= seq!['"', '\\', 'u', '0', '0']);
    }
}

/// What [`json_string`] writes for a text opens and closes with a double quote, and what stands
/// between, read as a string literal, is the text.
pub proof fn json_string_is_read_back(s: &str, r: String)
    requires
        call_ensures(json_string, (s,), r),
    ensures
        r@.len() >= 2,
        r@[0] == '"',
        literal_end(r@, 1, '"') == Some(r@.len() - 1),
        literal_value(r@.subrange(1, r@.len() - 1)) == Some(s@),
{
    json_text_cannot_end_its_literal(Seq::empty(), s@, Seq::empty());
    json_text_is_read_back(s@);
    assert(Seq::<char>::empty() + json_literal(s@) + Seq::<char>::empty() =~= json_literal(s@));
    assert(r@.subrange(1, r@.len() - 1) =~= json_escaped(s@));
}

/// How the three forms of an escape are told apart.
proof fn lemma_json_escape_forms(c: char)
    ensures
        ({
            let chunk = json_escape(c);
            ||| chunk == seq![c] && c != '"' && c != '\\' && !is_line_break(c)
            ||| chunk == seq!['\\', chunk[1]] && chunk[1] != 'u' && escape_meaning(chunk[1])
                == Some(c)
            ||| {
                &&& chunk == seq!['\\', 'u', '0', '0', chunk[4], chunk[5]]
                &&& chunk[4] != '"' && chunk[4] != '\\' && !is_line_break(chunk[4])
                &&& chunk[5] != '"' && chunk[5] != '\\' && !is_line_break(chunk[5])
                &&& is_hex_digit(chunk[4]) && is_hex_digit(chunk[5])
                &&& hex_value(chunk[4]) * 16 + hex_value(chunk[5]) == c as int
                &&& 0 <= c as int <= 0x1f
            }
        }),
{
    let chunk = json_escape(c);
    if c == '"' || c == '\\' || c == '\u{8}' || c == '\t' || c == '\n' || c == '\u{c}' || c
        == '\r' {
        assert(chunk.len() == 2);
        assert(chunk =~= seq!['\\', chunk[1]]);
    } else if (c as int) < 0x20 {
        let hi = c as int / 16;
        let lo = c as int % 16;
        assert(0 <= hi < 2 && 0 <= lo < 16 && c as int == hi * 16 + lo);
        assert(chunk =~= seq!['\\', 'u', '0', '0', hex_digit(hi), hex_digit(lo)]);
        assert(hex_value(hex_digit(hi)) == hi);
        assert(hex_value(hex_digit(lo)) == lo);
    }
}

proof fn lemma_json_contents_end(before: Seq<char>, text: Seq<char>, rest: Seq<char>)
    ensures
        literal_end(
            before + json_escaped(text) + seq!['"'] + rest,
            before.len() as int,
            '"',
        ) == Some((before.len() + json_escaped(text).len()) as int),
    decreases text.len(),
{
    let script = before + json_escaped(text) + seq!['"'] + rest;
    let at = before.len() as int;
    if text.len() > 0 {
        let tail = text.skip(1);
        let chunk = json_escape(text[0]);
        lemma_escape_each_front(text, |c: char| json_escape(c));
        lemma_json_contents_end(before + chunk, tail, rest);
        lemma_json_escape_forms(text[0]);
        assert(script =~= (before + chunk) + json_escaped(tail) + seq!['"'] + rest);
        assert(forall|i: int| 0 <= i < chunk.len() ==> #[trigger] script[at + i] == chunk[i]);
        assert(script[at + 0] == chunk[0]);
        if chunk.len() == 6 {
            assert(script[at + 2] == chunk[2]);
            assert(script[at + 3] == chunk[3]);
            assert(script[at + 4] == chunk[4]);
            assert(script[at + 5] == chunk[5]);
            reveal_with_fuel(literal_end, 6);
        }
    } else {
        assert(script[at] == '"');
    }
}

/// The contents of the JSON string for `text` stand for `text`.
pub proof fn json_text_is_read_back(text: Seq<char>)
    ensures
        literal_value(json_escaped(text)) == Some(text),
    decreases text.len(),
{
    if text.len() > 0 {
        let c = text[0];
        let tail = text.skip(1);
        let chunk = json_escape(c);
        let all = json_escaped(text);
        lemma_escape_each_front(text, |c: char| json_escape(c));
        json_text_is_read_back(tail);
        lemma_json_escape_forms(c);
        assert(forall|i: int| 0 <= i < chunk.len() ==> #[trigger] all[i] == chunk[i]);
        assert(all.skip(chunk.len() as int) =~= json_escaped(tail));
        assert(hex_value('0') == 0);
        if chunk.len() == 6 {
            assert(all[0] == '\\' && all[1] == 'u' && all[2] == '0' && all[3] == '0');
            assert(all[4] == chunk[4] && all[5] == chunk[5]);
            assert(all.subrange(2, 6) =~= seq!['0', '0', chunk[4], chunk[5]]);
        } else if chunk.len() == 2 {
            assert(all[0] == '\\' && all[1] == chunk[1]);
        } else {
            assert(all[0] == c);
        }
        assert(text =~= seq![c] + tail);
    } else {
        assert(text =~= Seq::<char>::empty());
    }
}

} // verus!
