use obscura::keyboard::keycode_with_shift;
use obscura::script::{SHIFT_DOWN, SHIFT_UP};
use obscura::typing::{plan_typing, typing_delay_ms, TypingAction};

fn lines(text: &str) -> Vec<String> {
    plan_typing(5, text)
        .into_iter()
        .map(|action| match action {
            TypingAction::Evaluate(script) => script,
            TypingAction::Pause => "pause".to_string(),
        })
        .collect()
}

fn key_event(kind: &str, key: &str, code: &str, shift: bool) -> String {
    let key_json = serde_json::to_string(key).unwrap();
    let code_json = serde_json::to_string(code).unwrap();
    format!(
        "(function() {{ var t = document.activeElement; if (t) t.dispatchEvent(globalThis.__obscura_markTrusted(new KeyboardEvent('{}', {{bubbles:true,cancelable:true,key:{},code:{},shiftKey:{}}}))); }})()",
        kind, key_json, code_json, shift
    )
}

fn insertion(text: &str) -> String {
    format!(
        "(function() {{\
                    var t = globalThis._wrap && globalThis._wrap(5);\
                    var ins = {};\
                    if (!t) return;\
                    if (t.localName === 'input' || t.localName === 'textarea') {{\
                        var v = t.value || '';\
                        var s = t.selectionStart, e = t.selectionEnd;\
                        if (s == null) {{ globalThis.__obscura_setFieldValue(t, 'value', v + ins); }}\
                        else {{\
                            s = Math.max(0, Math.min(s, v.length));\
                            e = (e == null) ? s : Math.max(0, Math.min(e, v.length));\
                            var lo = Math.min(s, e), hi = Math.max(s, e);\
                            globalThis.__obscura_setFieldValue(t, 'value', v.slice(0, lo) + ins + v.slice(hi));\
                            var caret = lo + ins.length;\
                            t.setSelectionRange(caret, caret);\
                        }}\
                    }}\
                    else if (t.isContentEditable) {{ t.appendChild(document.createTextNode(ins)); }}\
                    else return;\
                    t.dispatchEvent(globalThis.__obscura_markTrusted(new Event('input', {{bubbles:true}})));\
                }})()",
        serde_json::to_string(text).unwrap()
    )
}

fn stroke(key: &str, code: &str, shift: bool) -> Vec<String> {
    named_stroke(key, key, code, shift)
}

fn named_stroke(key: &str, text: &str, code: &str, shift: bool) -> Vec<String> {
    vec![
        key_event("keydown", key, code, shift),
        insertion(text),
        key_event("keyup", key, code, shift),
        "pause".to_string(),
    ]
}

fn shift_event(kind: &str, held: bool) -> String {
    format!(
        "(function() {{ var t = document.activeElement; if (t) t.dispatchEvent(globalThis.__obscura_markTrusted(new KeyboardEvent('{}', {{bubbles:true,cancelable:true,key:'Shift',code:'ShiftLeft',shiftKey:{},location:1}}))); }})()",
        kind, held
    )
}

#[test]
fn letters_and_digits_have_their_keys() {
    for lower in 'a'..='z' {
        let upper = lower.to_ascii_uppercase();
        let code = format!("Key{}", upper);
        assert_eq!(keycode_with_shift(lower), (code.as_str(), false));
        assert_eq!(keycode_with_shift(upper), (code.as_str(), true));
    }
    for (digit, shifted) in "0123456789".chars().zip(")!@#$%^&*(".chars()) {
        let code = format!("Digit{}", digit);
        assert_eq!(keycode_with_shift(digit), (code.as_str(), false));
        assert_eq!(keycode_with_shift(shifted), (code.as_str(), true));
    }
}

#[test]
fn punctuation_has_its_keys() {
    let keys = [
        ('-', '_', "Minus"),
        ('=', '+', "Equal"),
        ('[', '{', "BracketLeft"),
        (']', '}', "BracketRight"),
        ('\\', '|', "Backslash"),
        (';', ':', "Semicolon"),
        ('\'', '"', "Quote"),
        (',', '<', "Comma"),
        ('.', '>', "Period"),
        ('/', '?', "Slash"),
        ('`', '~', "Backquote"),
    ];
    for (plain, shifted, code) in keys {
        assert_eq!(keycode_with_shift(plain), (code, false));
        assert_eq!(keycode_with_shift(shifted), (code, true));
    }
    assert_eq!(keycode_with_shift(' '), ("Space", false));
    assert_eq!(keycode_with_shift('\t'), ("Tab", false));
    assert_eq!(keycode_with_shift('\n'), ("Enter", false));
    assert_eq!(keycode_with_shift('\r'), ("Enter", false));
}

#[test]
fn other_characters_have_no_key() {
    for c in ['\u{0}', '\u{7f}', '\u{e9}', '\u{c9}', '\u{1f600}'] {
        assert_eq!(keycode_with_shift(c), ("", false));
    }
}

#[test]
fn every_printable_character_has_a_key_of_its_own() {
    let mut seen: Vec<(&str, bool)> = Vec::new();
    for c in ' '..='~' {
        let key = keycode_with_shift(c);
        assert!(!key.0.is_empty());
        assert!(!seen.contains(&key));
        seen.push(key);
    }
}

#[test]
fn shift_is_pressed_and_released_by_key_events() {
    assert_eq!(SHIFT_DOWN, shift_event("keydown", true));
    assert_eq!(SHIFT_UP, shift_event("keyup", false));
}

#[test]
fn typing_nothing_does_nothing() {
    assert!(lines("").is_empty());
}

#[test]
fn plain_text_is_typed_without_shift() {
    let mut expected = stroke("a", "KeyA", false);
    expected.extend(stroke("1", "Digit1", false));
    assert_eq!(lines("a1"), expected);
}

#[test]
fn shift_goes_down_and_up_around_capitals() {
    let mut expected = stroke("a", "KeyA", false);
    expected.push(SHIFT_DOWN.to_string());
    expected.extend(stroke("B", "KeyB", true));
    expected.extend(stroke("!", "Digit1", true));
    expected.push(SHIFT_UP.to_string());
    expected.extend(stroke("c", "KeyC", false));
    assert_eq!(lines("aB!c"), expected);
}

#[test]
fn shift_is_released_after_the_last_character() {
    let mut expected = vec![SHIFT_DOWN.to_string()];
    expected.extend(stroke("Z", "KeyZ", true));
    expected.push(SHIFT_UP.to_string());
    assert_eq!(lines("Z"), expected);
}

#[test]
fn special_and_unknown_characters_are_typed() {
    let mut expected = named_stroke("Enter", "\n", "Enter", false);
    expected.extend(named_stroke("Enter", "\r", "Enter", false));
    expected.extend(named_stroke("Tab", "\t", "Tab", false));
    expected.extend(stroke("\u{e9}", "", false));
    expected.push(SHIFT_DOWN.to_string());
    expected.extend(stroke("\"", "Quote", true));
    expected.push(SHIFT_UP.to_string());
    assert_eq!(lines("\n\r\t\u{e9}\""), expected);
}

#[test]
fn what_is_inserted_is_the_text() {
    let text = "Hi \"there\",\n\tA\\b\u{e9}";
    let scripts = lines(text);
    let inserted: Vec<&String> = scripts.iter().filter(|l| l.contains("var ins = ")).collect();
    let expected: Vec<String> = text.chars().map(|c| insertion(&c.to_string())).collect();
    assert_eq!(inserted, expected.iter().collect::<Vec<&String>>());
}

#[test]
fn there_is_one_pause_for_every_character() {
    let text = "Hello, World!";
    let pauses = lines(text).iter().filter(|l| l.as_str() == "pause").count();
    assert_eq!(pauses, text.chars().count());
}

#[test]
fn pauses_follow_the_clock() {
    assert_eq!(typing_delay_ms(None), 40);
    assert_eq!(typing_delay_ms(Some(0)), 40);
    assert_eq!(typing_delay_ms(Some(99)), 139);
    assert_eq!(typing_delay_ms(Some(100)), 40);
    assert_eq!(typing_delay_ms(Some(999_999_999)), 139);
    assert_eq!(typing_delay_ms(Some(u32::MAX)), 135);
}
