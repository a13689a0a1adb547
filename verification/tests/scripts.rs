use obscura::decimal::decimal;
use obscura::json::json_string;
use obscura::literal::escape_quotes;
use obscura::script::{fill_focused, insert, query, read_attribute};
use obscura::{Element, Page, Step};

fn script_of<T>(step: Step<T>) -> String {
    match step {
        Step::Evaluate(script) => script,
        Step::Finish(_) => panic!("no script was asked for"),
    }
}

fn escaped(s: &str) -> String {
    s.replace('\\', "\\\\").replace('\'', "\\'")
}

#[test]
fn decimals_are_written_plainly() {
    assert_eq!(decimal(0), "0");
    assert_eq!(decimal(9), "9");
    assert_eq!(decimal(10), "10");
    assert_eq!(decimal(1_000_000), "1000000");
    assert_eq!(decimal(u64::MAX as u128), u64::MAX.to_string());
    assert_eq!(decimal(u128::MAX), u128::MAX.to_string());
}

#[test]
fn quotes_and_backslashes_are_escaped() {
    assert_eq!(escape_quotes(""), "");
    assert_eq!(escape_quotes("div.a > b"), "div.a > b");
    assert_eq!(escape_quotes("it's"), "it\\'s");
    assert_eq!(escape_quotes("a\\b"), "a\\\\b");
    assert_eq!(escape_quotes("\\'"), "\\\\\\'");
    assert_eq!(escape_quotes("\"\n\u{e9}"), "\"\n\u{e9}");
    for s in ["", "a", "\\", "'", "''\\\\", "x\\'y", "[name='q']"] {
        assert_eq!(escape_quotes(s), escaped(s));
    }
}

#[test]
fn json_strings_escape_what_json_asks_for() {
    assert_eq!(json_string(""), "\"\"");
    assert_eq!(json_string("plain"), "\"plain\"");
    assert_eq!(json_string("a\"b\\c"), "\"a\\\"b\\\\c\"");
    assert_eq!(json_string("\u{8}\t\n\u{c}\r"), "\"\\b\\t\\n\\f\\r\"");
    assert_eq!(json_string("\u{0}\u{b}\u{1f}"), "\"\\u0000\\u000b\\u001f\"");
    assert_eq!(json_string("/'\u{7f}\u{80}\u{2028}\u{1f600}"), "\"/'\u{7f}\u{80}\u{2028}\u{1f600}\"");
}

#[test]
fn json_strings_are_read_back_for_every_low_character() {
    for code in 0u32..0x180 {
        let text = char::from_u32(code).unwrap().to_string();
        let back: String = serde_json::from_str(&json_string(&text)).unwrap();
        assert_eq!(back, text);
    }
}

#[test]
fn content_script_reads_the_outer_html() {
    assert_eq!(script_of(Page::content(&[])), "document.documentElement.outerHTML");
}

#[test]
fn query_script_holds_the_escaped_selector() {
    for selector in ["#id", "a[href='x']", "\\", "'); alert(1); ('"] {
        let expected = format!(
            "(function() {{ var el = document.querySelector('{}'); return el ? el._nid : null; }})()",
            escaped(selector)
        );
        assert_eq!(query(selector), expected);
        assert_eq!(script_of(Page::query_selector(selector, &[])), expected);
    }
}

#[test]
fn a_selector_cannot_end_its_literal() {
    let script = query("'); alert(1); ('");
    let open = script.find('\'').unwrap() + 1;
    let mut end = open;
    let bytes = script.as_bytes();
    while bytes[end] != b'\'' {
        end += if bytes[end] == b'\\' { 2 } else { 1 };
    }
    assert_eq!(&script[end..], "'); return el ? el._nid : null; })()");
}

#[test]
fn text_script_names_the_element() {
    let expected = format!(
        "(function() {{ var el = globalThis._wrap && globalThis._wrap({}); return el ? el.textContent : ''; }})()",
        17
    );
    assert_eq!(script_of(Element { node_id: 17 }.text(&[])), expected);
    let other = script_of(Element { node_id: 18 }.text(&[]));
    assert_ne!(other, expected);
}

#[test]
fn attribute_script_holds_the_escaped_name() {
    for name in ["href", "data-'x'", "a\\"] {
        let expected = format!(
            "(function() {{ var el = globalThis._wrap && globalThis._wrap({}); return el ? el.getAttribute('{}') : null; }})()",
            u64::MAX,
            escaped(name)
        );
        assert_eq!(read_attribute(u64::MAX, name), expected);
        assert_eq!(script_of(Element { node_id: u64::MAX }.attribute(name, &[])), expected);
    }
}

#[test]
fn fill_script_holds_the_text_as_json() {
    let text = "say \"hi\"\n\u{1}";
    let input_text = serde_json::to_string(text).unwrap();
    let expected = format!(
        "(function() {{\
                var t = document.activeElement;\
                var el = globalThis._wrap && globalThis._wrap({});\
                if (!t || !el || t._nid !== el._nid) return false;\
                if (t.localName !== 'input' && t.localName !== 'textarea') return false;\
                var val = {};\
                globalThis.__obscura_setFieldValue(t, 'value', val);\
                try {{ t.setSelectionRange(val.length, val.length); }} catch (_e) {{}}\
                t.dispatchEvent(globalThis.__obscura_markTrusted(new Event('input', {{bubbles:true}})));\
                return true;\
                }})()",
        17, input_text
    );
    assert_eq!(fill_focused(17, text), expected);
    assert_ne!(fill_focused(18, text), expected);
    assert_ne!(insert(17, text), insert(18, text));
    assert!(expected.contains("var val = \"say \\\"hi\\\"\\n\\u0001\";globalThis"));
}
