//! The keys of a US keyboard, as key events name them.

use vstd::prelude::*;

verus! {

/// What the key that types `c` types when Shift is not held. A character that no key types with
/// Shift is its own.
pub open spec fn unshifted(c: char) -> char {
    if 'A' <= c <= 'Z' {
        (c as int - 'A' as int + 'a' as int) as char
    } else {
        match c {
            ')' => '0',
            '!' => '1',
            '@' => '2',
            '#' => '3',
            '$' => '4',
            '%' => '5',
            '^' => '6',
            '&' => '7',
            '*' => '8',
            '(' => '9',
            '_' => '-',
            '+' => '=',
            '{' => '[',
            '}' => ']',
            '|' => '\\',
            ':' => ';',
            '"' => '\'',
            '<' => ',',
            '>' => '.',
            '?' => '/',
            '~' => '`',
            _ => c,
        }
    }
}

/// Whether Shift is held to type `c`.
pub open spec fn needs_shift(c: char) -> bool {
    unshifted(c) != c
}

/// The code of the key that types `c` without Shift; empty where there is no such key.
pub open spec fn plain_key_code(c: char) -> Seq<char> {
    if 'a' <= c <= 'z' {
        "Key"@.push((c as int - 'a' as int + 'A' as int) as char)
    } else if '0' <= c <= '9' {
        "Digit"@.push(c)
    } else {
        match c {
            '-' => "Minus"@,
            '=' => "Equal"@,
            '[' => "BracketLeft"@,
            ']' => "BracketRight"@,
            '\\' => "Backslash"@,
            ';' => "Semicolon"@,
            '\'' => "Quote"@,
            ',' => "Comma"@,
            '.' => "Period"@,
            '/' => "Slash"@,
            '`' => "Backquote"@,
            ' ' => "Space"@,
            '\t' => "Tab"@,
            '\n' => "Enter"@,
            '\r' => "Enter"@,
            _ => Seq::empty(),
        }
    }
}

/// The code of the key that types `c`; empty where no key does.
pub open spec fn key_code(c: char) -> Seq<char> {
    plain_key_code(unshifted(c))
}

/// The code of the key that types a character, and whether Shift is held for it. The code is
/// empty where no key types the character.
pub fn keycode_with_shift(c: char) -> (r: (&'static str, bool))
    ensures
        r.0@ == key_code(c),
        r.1 == needs_shift(c),
{
    proof {
        reveal_strlit("");
        reveal_strlit("Key");
        reveal_strlit("Digit");
        reveal_strlit("KeyA");
        reveal_strlit("KeyB");
        reveal_strlit("KeyC");
        reveal_strlit("KeyD");
        reveal_strlit("KeyE");
        reveal_strlit("KeyF");
        reveal_strlit("KeyG");
        reveal_strlit("KeyH");
        reveal_strlit("KeyI");
        reveal_strlit("KeyJ");
        reveal_strlit("KeyK");
        reveal_strlit("KeyL");
        reveal_strlit("KeyM");
        reveal_strlit("KeyN");
        reveal_strlit("KeyO");
        reveal_strlit("KeyP");
        reveal_strlit("KeyQ");
        reveal_strlit("KeyR");
        reveal_strlit("KeyS");
        reveal_strlit("KeyT");
        reveal_strlit("KeyU");
        reveal_strlit("KeyV");
        reveal_strlit("KeyW");
        reveal_strlit("KeyX");
        reveal_strlit("KeyY");
        reveal_strlit("KeyZ");
        reveal_strlit("Digit0");
        reveal_strlit("Digit1");
        reveal_strlit("Digit2");
        reveal_strlit("Digit3");
        reveal_strlit("Digit4");
        reveal_strlit("Digit5");
        reveal_strlit("Digit6");
        reveal_strlit("Digit7");
        reveal_strlit("Digit8");
        reveal_strlit("Digit9");
    }
    match c {
        'a' => ("KeyA", false),
        'A' => ("KeyA", true),
        'b' => ("KeyB", false),
        'B' => ("KeyB", true),
        'c' => ("KeyC", false),
        'C' => ("KeyC", true),
        'd' => ("KeyD", false),
        'D' => ("KeyD", true),
        'e' => ("KeyE", false),
        'E' => ("KeyE", true),
        'f' => ("KeyF", false),
        'F' => ("KeyF", true),
        'g' => ("KeyG", false),
        'G' => ("KeyG", true),
        'h' => ("KeyH", false),
        'H' => ("KeyH", true),
        'i' => ("KeyI", false),
        'I' => ("KeyI", true),
        'j' => ("KeyJ", false),
        'J' => ("KeyJ", true),
        'k' => ("KeyK", false),
        'K' => ("KeyK", true),
        'l' => ("KeyL", false),
        'L' => ("KeyL", true),
        'm' => ("KeyM", false),
        'M' => ("KeyM", true),
        'n' => ("KeyN", false),
        'N' => ("KeyN", true),
        'o' => ("KeyO", false),
        'O' => ("KeyO", true),
        'p' => ("KeyP", false),
        'P' => ("KeyP", true),
        'q' => ("KeyQ", false),
        'Q' => ("KeyQ", true),
        'r' => ("KeyR", false),
        'R' => ("KeyR", true),
        's' => ("KeyS", false),
        'S' => ("KeyS", true),
        't' => ("KeyT", false),
        'T' => ("KeyT", true),
        'u' => ("KeyU", false),
        'U' => ("KeyU", true),
        'v' => ("KeyV", false),
        'V' => ("KeyV", true),
        'w' => ("KeyW", false),
        'W' => ("KeyW", true),
        'x' => ("KeyX", false),
        'X' => ("KeyX", true),
        'y' => ("KeyY", false),
        'Y' => ("KeyY", true),
        'z' => ("KeyZ", false),
        'Z' => ("KeyZ", true),
        '0' => ("Digit0", false),
        ')' => ("Digit0", true),
        '1' => ("Digit1", false),
        '!' => ("Digit1", true),
        '2' => ("Digit2", false),
        '@' => ("Digit2", true),
        '3' => ("Digit3", false),
        '#' => ("Digit3", true),
        '4' => ("Digit4", false),
        '$' => ("Digit4", true),
        '5' => ("Digit5", false),
        '%' => ("Digit5", true),
        '6' => ("Digit6", false),
        '^' => ("Digit6", true),
        '7' => ("Digit7", false),
        '&' => ("Digit7", true),
        '8' => ("Digit8", false),
        '*' => ("Digit8", true),
        '9' => ("Digit9", false),
        '(' => ("Digit9", true),
        '-' => ("Minus", false),
        '_' => ("Minus", true),
        '=' => ("Equal", false),
        '+' => ("Equal", true),
        '[' => ("BracketLeft", false),
        '{' => ("BracketLeft", true),
        ']' => ("BracketRight", false),
        '}' => ("BracketRight", true),
        '\\' => ("Backslash", false),
        '|' => ("Backslash", true),
        ';' => ("Semicolon", false),
        ':' => ("Semicolon", true),
        '\'' => ("Quote", false),
        '"' => ("Quote", true),
        ',' => ("Comma", false),
        '<' => ("Comma", true),
        '.' => ("Period", false),
        '>' => ("Period", true),
        '/' => ("Slash", false),
        '?' => ("Slash", true),
        '`' => ("Backquote", false),
        '~' => ("Backquote", true),
        ' ' => ("Space", false),
        '\t' => ("Tab", false),
        '\n' | '\r' => ("Enter", false),
        _ => ("", false),
    }
}

/// The printable ASCII characters.
pub open spec fn is_printable(c: char) -> bool {
    ' ' <= c <= '~'
}

/// A key is known for every printable ASCII character, for the tab and for the line breaks, and
/// for nothing else.
pub proof fn keys_are_known_for_ascii(c: char)
    ensures
        key_code(c).len() > 0 <==> is_printable(c) || c == '\t' || c == '\n' || c == '\r',
{
    lemma_named_keys();
}

/// Shift is held only for a character that has a key, and then the same key without Shift types
/// another character.
pub proof fn shifted_characters_share_a_key(c: char)
    requires
        needs_shift(c),
    ensures
        key_code(c).len() > 0,
        key_code(unshifted(c)) == key_code(c),
        !needs_shift(unshifted(c)),
{
    lemma_named_keys();
}

/// The two cases of a letter are on one key, and the capital is the one typed with Shift.
pub proof fn letter_cases_share_a_key(lower: char, upper: char)
    requires
        'a' <= lower <= 'z',
        upper as int - 'A' as int == lower as int - 'a' as int,
    ensures
        key_code(lower) == key_code(upper),
        !needs_shift(lower),
        needs_shift(upper),
{
}

/// The key of a letter is named by the capital, and the key of a digit by the digit.
pub proof fn letters_and_digits_name_their_key(c: char, r: (&'static str, bool))
    requires
        call_ensures(keycode_with_shift, (c,), r),
    ensures
        'A' <= c <= 'Z' ==> r.0@ == "Key"@.push(c) && r.1,
        'a' <= c <= 'z' ==> r.0@.len() == 4 && r.0@.take(3) == "Key"@ && r.0@[3] as int
            == c as int - 32 && !r.1,
        '0' <= c <= '9' ==> r.0@ == "Digit"@.push(c) && !r.1,
{
    lemma_named_keys();
    if 'A' <= c <= 'Z' || 'a' <= c <= 'z' {
        let prefix = "Key"@;
        assert(r.0@[prefix.len() as int] == if c <= 'Z' { c as int } else { c as int - 32 });
        assert(r.0@.take(3) =~= "Key"@);
    } else if '0' <= c <= '9' {
        assert(r.0@ =~= "Digit"@.push(c));
    }
}

/// A key is given for a printable ASCII character, the tab and the line breaks, and no other; and
/// Shift is held for the capitals and for the upper signs of a US keyboard, and for no other.
pub proof fn shift_is_for_capitals_and_upper_signs(c: char, r: (&'static str, bool))
    requires
        call_ensures(keycode_with_shift, (c,), r),
    ensures
        r.0@.len() > 0 <==> ' ' <= c <= '~' || c == '\t' || c == '\n' || c == '\r',
        r.1 <==> {
            ||| 'A' <= c <= 'Z'
            ||| '!' <= c <= '&'
            ||| '(' <= c <= '+'
            ||| c == ':' || c == '<' || c == '>' || c == '?' || c == '@'
            ||| c == '^' || c == '_' || '{' <= c <= '~'
        },
{
    keys_are_known_for_ascii(c);
}

/// The two signs of a key have one code, and it is the upper that Shift is held for.
pub proof fn both_signs_of_a_key_have_its_code(
    lower: char,
    upper: char,
    of_lower: (&'static str, bool),
    of_upper: (&'static str, bool),
)
    requires
        call_ensures(keycode_with_shift, (lower,), of_lower),
        call_ensures(keycode_with_shift, (upper,), of_upper),
        ({
            ||| 'a' <= lower <= 'z' && upper as int == lower as int - 32
            ||| lower == '0' && upper == ')' || lower == '1' && upper == '!'
            ||| lower == '2' && upper == '@' || lower == '3' && upper == '#'
            ||| lower == '4' && upper == '$' || lower == '5' && upper == '%'
            ||| lower == '6' && upper == '^' || lower == '7' && upper == '&'
            ||| lower == '8' && upper == '*' || lower == '9' && upper == '('
            ||| lower == '-' && upper == '_' || lower == '=' && upper == '+'
            ||| lower == '[' && upper == '{' || lower == ']' && upper == '}'
            ||| lower == '\\' && upper == '|' || lower == ';' && upper == ':'
            ||| lower == '\'' && upper == '"' || lower == ',' && upper == '<'
            ||| lower == '.' && upper == '>' || lower == '/' && upper == '?'
            ||| lower == '`' && upper == '~'
        }),
    ensures
        of_lower.0@ == of_upper.0@,
        of_lower.0@.len() > 0,
        !of_lower.1,
        of_upper.1,
{
    lemma_named_keys();
}

/// A key and the state of Shift tell which character is typed, except that both line breaks are
/// typed by Enter.
pub proof fn key_and_shift_tell_the_character(a: char, b: char)
    requires
        key_code(a).len() > 0,
        key_code(a) == key_code(b),
        needs_shift(a) == needs_shift(b),
    ensures
        a == b || (key_code(a) == "Enter"@ && (a == '\n' || a == '\r') && (b == '\n' || b == '\r')),
{
    lemma_named_keys();
    lemma_plain_keys_differ(unshifted(a), unshifted(b));
}

/// What tells the named keys apart: length, and the characters at a few places.
proof fn lemma_named_keys()
    ensures
        "Key"@.len() == 3,
        "Digit"@.len() == 5 && "Digit"@[0] == 'D',
        "Minus"@.len() == 5 && "Minus"@[0] == 'M',
        "Equal"@.len() == 5 && "Equal"@[0] == 'E' && "Equal"@[1] == 'q',
        "BracketLeft"@.len() == 11,
        "BracketRight"@.len() == 12,
        "Backslash"@.len() == 9 && "Backslash"@[0] == 'B' && "Backslash"@[4] == 's',
        "Semicolon"@.len() == 9 && "Semicolon"@[0] == 'S',
        "Quote"@.len() == 5 && "Quote"@[0] == 'Q',
        "Comma"@.len() == 5 && "Comma"@[0] == 'C',
        "Period"@.len() == 6 && "Period"@[0] == 'P',
        "Slash"@.len() == 5 && "Slash"@[0] == 'S' && "Slash"@[1] == 'l',
        "Backquote"@.len() == 9 && "Backquote"@[0] == 'B' && "Backquote"@[4] == 'q',
        "Space"@.len() == 5 && "Space"@[0] == 'S' && "Space"@[1] == 'p',
        "Tab"@.len() == 3,
        "Enter"@.len() == 5 && "Enter"@[0] == 'E' && "Enter"@[1] == 'n',
{
    reveal_strlit("Key");
    reveal_strlit("Digit");
    reveal_strlit("Minus");
    reveal_strlit("Equal");
    reveal_strlit("BracketLeft");
    reveal_strlit("BracketRight");
    reveal_strlit("Backslash");
    reveal_strlit("Semicolon");
    reveal_strlit("Quote");
    reveal_strlit("Comma");
    reveal_strlit("Period");
    reveal_strlit("Slash");
    reveal_strlit("Backquote");
    reveal_strlit("Space");
    reveal_strlit("Tab");
    reveal_strlit("Enter");
}

proof fn lemma_plain_keys_differ(a: char, b: char)
    requires
        plain_key_code(a).len() > 0,
        plain_key_code(a) == plain_key_code(b),
    ensures
        a == b || (plain_key_code(a) == "Enter"@ && (a == '\n' || a == '\r') && (b == '\n' || b
            == '\r')),
{
    lemma_named_keys();
    assert(plain_key_code(a)[0] == plain_key_code(b)[0]);
    assert(plain_key_code(a)[1] == plain_key_code(b)[1]);
    if 'a' <= a <= 'z' {
        assert(plain_key_code(a).len() == 4);
        assert('a' <= b <= 'z');
        let prefix = "Key"@;
        assert(plain_key_code(a)[prefix.len() as int] == a as int - 'a' as int + 'A' as int);
        assert(plain_key_code(b)[prefix.len() as int] == b as int - 'a' as int + 'A' as int);
    } else if '0' <= a <= '9' {
        assert(plain_key_code(a).len() == 6);
        assert(plain_key_code(a)[0] == 'D');
        assert('0' <= b <= '9');
        let prefix = "Digit"@;
        assert(plain_key_code(a)[prefix.len() as int] == a);
        assert(plain_key_code(b)[prefix.len() as int] == b);
    } else {
        assert(!('a' <= b <= 'z'));
        assert(!('0' <= b <= '9'));
    }
}

} // verus!
