//! JavaScript string literals: escaping text for a single-quoted literal, and reading literals.

use vstd::prelude::*;

verus! {

/// Every character of `s` replaced by what `escape` gives for it.
pub open spec fn escape_each(s: Seq<char>, escape: spec_fn(char) -> Seq<char>) -> Seq<char>
    decreases s.len(),
{
    if s.len() == 0 {
        Seq::empty()
    } else {
        escape_each(s.drop_last(), escape) + escape(s.last())
    }
}

/// What stands for `c` inside a single-quoted literal: a backslash and a single quote get a
/// backslash in front, every other character stands for itself.
pub open spec fn quote_escape(c: char) -> Seq<char> {
    if c == '\\' || c == '\'' {
        seq!['\\', c]
    } else {
        seq![c]
    }
}

/// `s` escaped for a single-quoted literal.
pub open spec fn quote_escaped(s: Seq<char>) -> Seq<char> {
    escape_each(s, |c: char| quote_escape(c))
}

/// Escapes text for a single-quoted literal.
pub fn escape_quotes(s: &str) -> (r: String)
    ensures
        r@ == quote_escaped(s@),
{
    let mut r = String::new();
    assert(s@.take(0) =~= Seq::<char>::empty());
    for c in it: s.chars()
        invariant
            it.seq() == s@,
            r@ == quote_escaped(s@.take(it.index() as int)),
    {
        proof {
            let i = it.index() as int;
            assert(s@.take(i + 1).drop_last() =~= s@.take(i));
            assert(s@.take(i + 1).last() == c);
        }
        if c == '\\' || c == '\'' {
            r.push('\\');
        }
        r.push(c);
    }
    assert(s@.take(s@.len() as int) =~= s@);
    r
}

/// A character that ends a line of a script, and cannot stand unescaped in a string literal.
pub open spec fn is_line_break(c: char) -> bool {
    c == '\n' || c == '\r'
}

/// Whether `s` holds a line break.
pub open spec fn has_line_break(s: Seq<char>) -> bool {
    exists|i: int| 0 <= i < s.len() && is_line_break(#[trigger] s[i])
}

/// Where the string literal ends whose contents start at `at` and whose delimiter is `quote`:
/// at the first `quote` that no backslash escapes. A line break or the end of the script
/// before that leaves the literal open, which makes the script a syntax error.
pub open spec fn literal_end(script: Seq<char>, at: int, quote: char) -> Option<int>
    decreases script.len() - at,
{
    if at < 0 || at >= script.len() {
        None
    } else if script[at] == quote {
        Some(at)
    } else if is_line_break(script[at]) {
        None
    } else if script[at] == '\\' {
        if at + 1 < script.len() {
            literal_end(script, at + 2, quote)
        } else {
            None
        }
    } else {
        literal_end(script, at + 1, quote)
    }
}

/// A hexadecimal digit.
pub open spec fn is_hex_digit(c: char) -> bool {
    '0' <= c <= '9' || 'a' <= c <= 'f' || 'A' <= c <= 'F'
}

/// The value of a hexadecimal digit.
pub open spec fn hex_value(c: char) -> int {
    if '0' <= c <= '9' {
        c as int - '0' as int
    } else if 'a' <= c <= 'f' {
        c as int - 'a' as int + 10
    } else {
        c as int - 'A' as int + 10
    }
}

/// The character that a backslash and `c` stand for, for the escapes of one character that are
/// read here: the quotes, the backslash, and `b`, `t`, `n`, `f` and `r`.
pub open spec fn escape_meaning(c: char) -> Option<char> {
    match c {
        '\\' => Some('\\'),
        '\'' => Some('\''),
        '"' => Some('"'),
        'b' => Some('\u{8}'),
        't' => Some('\t'),
        'n' => Some('\n'),
        'f' => Some('\u{c}'),
        'r' => Some('\r'),
        _ => None,
    }
}

/// The character that four hexadecimal digits stand for; half of a surrogate pair is none.
pub open spec fn code_unit(digits: Seq<char>) -> Option<char> {
    let code = hex_value(digits[0]) * 4096 + hex_value(digits[1]) * 256 + hex_value(digits[2]) * 16
        + hex_value(digits[3]);
    if is_hex_digit(digits[0]) && is_hex_digit(digits[1]) && is_hex_digit(digits[2])
        && is_hex_digit(digits[3]) && !(0xd800 <= code <= 0xdfff) {
        Some(code as char)
    } else {
        None
    }
}

/// The text that the contents of a string literal stand for. Read are the escapes of one
/// character above and `\u` with four hexadecimal digits; contents with any other escape, or
/// with a line break, are given no text.
pub open spec fn literal_value(contents: Seq<char>) -> Option<Seq<char>>
    decreases contents.len(),
{
    if contents.len() == 0 {
        Some(Seq::empty())
    } else if is_line_break(contents[0]) {
        None
    } else if contents[0] != '\\' {
        prepended(Some(contents[0]), literal_value(contents.skip(1)))
    } else if contents.len() >= 6 && contents[1] == 'u' {
        prepended(code_unit(contents.subrange(2, 6)), literal_value(contents.skip(6)))
    } else if contents.len() >= 2 {
        prepended(escape_meaning(contents[1]), literal_value(contents.skip(2)))
    } else {
        None
    }
}

/// A character and the text after it, where both are known.
pub open spec fn prepended(first: Option<char>, rest: Option<Seq<char>>) -> Option<Seq<char>> {
    match (first, rest) {
        (Some(c), Some(s)) => Some(seq![c] + s),
        _ => None,
    }
}

/// Escaping starts with the first character's escape.
pub proof fn lemma_escape_each_front(s: Seq<char>, escape: spec_fn(char) -> Seq<char>)
    requires
        s.len() > 0,
    ensures
        escape_each(s, escape) == escape(s[0]) + escape_each(s.skip(1), escape),
    decreases s.len(),
{
    reveal_with_fuel(escape_each, 2);
    if s.len() == 1 {
        assert(s.drop_last() =~= Seq::<char>::empty());
        assert(s.skip(1) =~= Seq::<char>::empty());
        assert(escape_each(s, escape) =~= escape(s[0]));
    } else {
        lemma_escape_each_front(s.drop_last(), escape);
        assert(s.drop_last().skip(1) =~= s.skip(1).drop_last());
        assert(escape_each(s, escape) =~= escape(s[0]) + (escape_each(s.skip(1).drop_last(), escape)
            + escape(s.last())));
    }
}

/// Escaping a text escapes its parts.
pub proof fn lemma_escape_each_joins(
    a: Seq<char>,
    b: Seq<char>,
    escape: spec_fn(char) -> Seq<char>,
)
    ensures
        escape_each(a + b, escape) == escape_each(a, escape) + escape_each(b, escape),
    decreases b.len(),
{
    if b.len() == 0 {
        assert(a + b =~= a);
        assert(escape_each(a, escape) + escape_each(b, escape) =~= escape_each(a, escape));
    } else {
        lemma_escape_each_joins(a, b.drop_last(), escape);
        assert((a + b).drop_last() =~= a + b.drop_last());
        assert(escape_each(a + b, escape) =~= escape_each(a, escape) + escape_each(b, escape));
    }
}

/// Escaping one character gives its escape.
pub proof fn lemma_escape_each_one(c: char, escape: spec_fn(char) -> Seq<char>)
    ensures
        escape_each(seq![c], escape) == escape(c),
{
    lemma_escape_each_front(seq![c], escape);
    assert(seq![c].skip(1) =~= Seq::<char>::empty());
    assert(escape_each(seq![c], escape) =~= escape(c));
}

/// Text is escaped for a single-quoted literal character by character: the escaped form of two
/// texts in a row is their escaped forms in a row. A backslash is doubled, a single quote gets a
/// backslash in front, and any other character is left as it is.
pub proof fn quotes_are_escaped_one_by_one(a: Seq<char>, b: Seq<char>, c: char)
    ensures
        quote_escaped(a + b) == quote_escaped(a) + quote_escaped(b),
        c == '\\' ==> quote_escaped(seq![c]) == seq!['\\', '\\'],
        c == '\'' ==> quote_escaped(seq![c]) == seq!['\\', '\''],
        c != '\\' && c != '\'' ==> quote_escaped(seq![c]) == seq![c],
{
    lemma_escape_each_joins(a, b, |c: char| quote_escape(c));
    lemma_escape_each_one(c, |c: char| quote_escape(c));
}

/// Text with neither a backslash nor a single quote is its own escaped form.
pub proof fn plain_text_needs_no_escape(text: Seq<char>)
    requires
        forall|i: int| 0 <= i < text.len() ==> #[trigger] text[i] != '\\' && text[i] != '\'',
    ensures
        quote_escaped(text) == text,
    decreases text.len(),
{
    if text.len() > 0 {
        let before = text.drop_last();
        assert forall|i: int| 0 <= i < before.len() implies #[trigger] before[i] != '\\'
            && before[i] != '\'' by {
            assert(before[i] == text[i]);
        }
        plain_text_needs_no_escape(before);
        assert(text.last() == text[text.len() - 1]);
        assert(text =~= before.push(text.last()));
    } else {
        assert(text =~= Seq::<char>::empty());
    }
}

/// What [`escape_quotes`] gives for a text with one more character is what it gives for the text,
/// and the character, after a backslash where it is a backslash or a single quote.
pub proof fn escape_quotes_puts_a_backslash_in_front(
    text: &str,
    longer: &str,
    c: char,
    r: String,
    of_longer: String,
)
    requires
        longer@ == text@.push(c),
        call_ensures(escape_quotes, (text,), r),
        call_ensures(escape_quotes, (longer,), of_longer),
    ensures
        text@.len() == 0 ==> r@.len() == 0,
        of_longer@ == if c == '\\' || c == '\'' {
            r@.push('\\').push(c)
        } else {
            r@.push(c)
        },
{
    quotes_are_escaped_one_by_one(text@, seq![c], c);
    assert(text@.push(c) =~= text@ + seq![c]);
}

/// Text escaped for a single-quoted literal cannot end the literal: in a script that has it
/// between `before`, which opens the literal, and a single quote, the literal ends at that
/// quote, whatever the text and whatever `rest` follows. The one other outcome is a script that
/// is no script at all, because the text holds a line break.
pub proof fn quoted_text_cannot_end_its_literal(
    before: Seq<char>,
    text: Seq<char>,
    rest: Seq<char>,
)
    ensures
        literal_end(before + quote_escaped(text) + seq!['\''] + rest, before.len() as int, '\'')
            == if has_line_break(text) {
            None::<int>
        } else {
            Some((before.len() + quote_escaped(text).len()) as int)
        },
    decreases text.len(),
{
    let script = before + quote_escaped(text) + seq!['\''] + rest;
    let at = before.len() as int;
    if text.len() > 0 {
        let first = text[0];
        let tail = text.skip(1);
        let chunk = quote_escape(first);
        lemma_escape_each_front(text, |c: char| quote_escape(c));
        quoted_text_cannot_end_its_literal(before + chunk, tail, rest);
        assert(script =~= (before + chunk) + quote_escaped(tail) + seq!['\''] + rest);
        assert(forall|i: int| 0 <= i < chunk.len() ==> script[at + i] == #[trigger] chunk[i]);
        assert(chunk[0] == if first == '\\' || first == '\'' { '\\' } else { first });
        lemma_line_break_front(text);
    } else {
        assert(script[at] == '\'');
    }
}

/// Text escaped for a single-quoted literal stands for itself there, unless it holds a line
/// break, which no such literal can.
pub proof fn quoted_text_is_read_back(text: Seq<char>)
    ensures
        literal_value(quote_escaped(text)) == if has_line_break(text) {
            None
        } else {
            Some(text)
        },
    decreases text.len(),
{
    if text.len() > 0 {
        let first = text[0];
        let tail = text.skip(1);
        let chunk = quote_escape(first);
        let all = quote_escaped(text);
        lemma_escape_each_front(text, |c: char| quote_escape(c));
        quoted_text_is_read_back(tail);
        lemma_line_break_front(text);
        assert(chunk[0] == if first == '\\' || first == '\'' { '\\' } else { first });
        assert(all[0] == chunk[0]);
        assert(all.skip(chunk.len() as int) =~= quote_escaped(tail));
        if chunk.len() == 2 {
            assert(all[1] == chunk[1]);
        }
        assert(text =~= seq![first] + tail);
    } else {
        assert(text =~= Seq::<char>::empty());
    }
}

/// A text holds a line break if it begins with one or the rest holds one.
proof fn lemma_line_break_front(text: Seq<char>)
    requires
        text.len() > 0,
    ensures
        has_line_break(text) == (is_line_break(text[0]) || has_line_break(text.skip(1))),
{
    let tail = text.skip(1);
    if has_line_break(text) {
        let i = choose|i: int| 0 <= i < text.len() && is_line_break(#[trigger] text[i]);
        if i > 0 {
            assert(is_line_break(tail[i - 1]));
        }
    }
    if has_line_break(tail) {
        let i = choose|i: int| 0 <= i < tail.len() && is_line_break(#[trigger] tail[i]);
        assert(is_line_break(text[i + 1]));
    }
}

} // verus!
