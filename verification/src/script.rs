//! The scripts that the library has evaluated in a page.

use vstd::prelude::*;

use crate::decimal::{
    decimal, numeral, numeral_value, numerals_are_digits, numerals_are_distinct,
    numerals_are_read_back, numerals_have_no_leading_zero,
};
use crate::json::{
    json_escaped, json_literal, json_string, json_text_cannot_end_its_literal,
    json_text_is_read_back,
};
use crate::keyboard::{key_code, needs_shift};
use crate::literal::{
    escape_quotes, has_line_break, literal_end, literal_value, plain_text_needs_no_escape,
    quote_escaped, quoted_text_cannot_end_its_literal, quoted_text_is_read_back,
};

verus! {

/// The script that reads the page's HTML.
pub const OUTER_HTML: &'static str = "document.documentElement.outerHTML";

/// Looks an element up: what stands before the escaped selector.
pub const QUERY_HEAD: &'static str = "(function() { var el = document.querySelector('";

/// What stands after the escaped selector.
pub const QUERY_TAIL: &'static str = "'); return el ? el._nid : null; })()";

/// Takes an element by its node id: what stands before the id.
pub const WRAP_HEAD: &'static str = "(function() { var el = globalThis._wrap && globalThis._wrap(";

/// What stands after the id to read the element's text.
pub const TEXT_TAIL: &'static str = "); return el ? el.textContent : ''; })()";

/// What stands between the id and an escaped attribute name.
pub const ATTRIBUTE_MIDDLE: &'static str = "); return el ? el.getAttribute('";

/// What stands after the escaped attribute name.
pub const ATTRIBUTE_TAIL: &'static str = "') : null; })()";

/// What stands after the id to scroll the element into view.
pub const SCROLL_TAIL: &'static str = "); if (el) el.scrollIntoView({block:'center'}); })()";

/// What stands after the id to click the element.
pub const CLICK_TAIL: &'static str = "); if (el) { el.click(); return true; } return false; })()";

/// What stands after the id to focus the element.
pub const FOCUS_TAIL: &'static str = "); if (el) { el.focus(); return true; } return false; })()";

/// What stands after the id to ask whether text can be typed into the element.
pub const TYPEABLE_TAIL: &'static str = "); return !!el && (el.tagName === 'INPUT' || el.tagName === 'TEXTAREA' || el.isContentEditable); })()";

/// Replaces the value of an element that has the focus: what stands before the element's id.
pub const FILL_HEAD: &'static str = "(function() {\
    var t = document.activeElement;\
    var el = globalThis._wrap && globalThis._wrap(";

/// What stands between the id and the new value. Where another element has the focus, or the
/// element is no field, the script changes nothing and replies `false`.
pub const FILL_MIDDLE: &'static str = ");\
    if (!t || !el || t._nid !== el._nid) return false;\
    if (t.localName !== 'input' && t.localName !== 'textarea') return false;\
    var val = ";

/// What stands after the new value.
pub const FILL_TAIL: &'static str = ";\
    globalThis.__obscura_setFieldValue(t, 'value', val);\
    try { t.setSelectionRange(val.length, val.length); } catch (_e) {}\
    t.dispatchEvent(globalThis.__obscura_markTrusted(new Event('input', {bubbles:true})));\
    return true;\
    })()";

/// Inserts text into an element: what stands before the element's id.
pub const INSERT_HEAD: &'static str = "(function() {\
    var t = globalThis._wrap && globalThis._wrap(";

/// What stands between the id and the inserted text.
pub const INSERT_MIDDLE: &'static str = ");\
    var ins = ";

/// What stands after the inserted text. A field gets it at the caret, in place of what is
/// selected; other editable content gets it at the end.
pub const INSERT_TAIL: &'static str = ";\
    if (!t) return;\
    if (t.localName === 'input' || t.localName === 'textarea') {\
    var v = t.value || '';\
    var s = t.selectionStart, e = t.selectionEnd;\
    if (s == null) { globalThis.__obscura_setFieldValue(t, 'value', v + ins); }\
    else {\
    s = Math.max(0, Math.min(s, v.length));\
    e = (e == null) ? s : Math.max(0, Math.min(e, v.length));\
    var lo = Math.min(s, e), hi = Math.max(s, e);\
    globalThis.__obscura_setFieldValue(t, 'value', v.slice(0, lo) + ins + v.slice(hi));\
    var caret = lo + ins.length;\
    t.setSelectionRange(caret, caret);\
    }\
    }\
    else if (t.isContentEditable) { t.appendChild(document.createTextNode(ins)); }\
    else return;\
    t.dispatchEvent(globalThis.__obscura_markTrusted(new Event('input', {bubbles:true})));\
    })()";

/// Sends a key press to the focused element: what stands before the key.
pub const KEYDOWN_HEAD: &'static str = "(function() { var t = document.activeElement; if (t) t.dispatchEvent(globalThis.__obscura_markTrusted(new KeyboardEvent('keydown', {bubbles:true,cancelable:true,key:";

/// Sends a key release to the focused element: what stands before the key.
pub const KEYUP_HEAD: &'static str = "(function() { var t = document.activeElement; if (t) t.dispatchEvent(globalThis.__obscura_markTrusted(new KeyboardEvent('keyup', {bubbles:true,cancelable:true,key:";

/// What stands between the key and its code.
pub const KEY_CODE: &'static str = ",code:";

/// What stands between the key's code and the state of Shift.
pub const KEY_SHIFT: &'static str = ",shiftKey:";

/// What stands after the state of Shift.
pub const KEY_TAIL: &'static str = "}))); })()";

/// Sends the press of the left Shift key to the focused element.
pub const SHIFT_DOWN: &'static str = "(function() { var t = document.activeElement; if (t) t.dispatchEvent(globalThis.__obscura_markTrusted(new KeyboardEvent('keydown', {bubbles:true,cancelable:true,key:'Shift',code:'ShiftLeft',shiftKey:true,location:1}))); })()";

/// Sends the release of the left Shift key to the focused element.
pub const SHIFT_UP: &'static str = "(function() { var t = document.activeElement; if (t) t.dispatchEvent(globalThis.__obscura_markTrusted(new KeyboardEvent('keyup', {bubbles:true,cancelable:true,key:'Shift',code:'ShiftLeft',shiftKey:false,location:1}))); })()";

/// The script that looks up the first element for a CSS selector and gives its node id.
pub open spec fn query_script(selector: Seq<char>) -> Seq<char> {
    QUERY_HEAD@ + quote_escaped(selector) + QUERY_TAIL@
}

/// A script on the element with node id `node_id` that ends in `tail`.
pub open spec fn element_script(node_id: u64, tail: Seq<char>) -> Seq<char> {
    WRAP_HEAD@ + numeral(node_id as nat) + tail
}

/// The script that reads an attribute of an element.
pub open spec fn attribute_script(node_id: u64, name: Seq<char>) -> Seq<char> {
    element_script(node_id, ATTRIBUTE_MIDDLE@) + quote_escaped(name) + ATTRIBUTE_TAIL@
}

/// The beginning of the script that fills an element, up to the text.
pub open spec fn fill_lead(node_id: u64) -> Seq<char> {
    FILL_HEAD@ + numeral(node_id as nat) + FILL_MIDDLE@
}

/// The script that replaces the value of an element, which has the focus, by `text`.
pub open spec fn fill_script(node_id: u64, text: Seq<char>) -> Seq<char> {
    fill_lead(node_id) + json_literal(text) + FILL_TAIL@
}

/// The beginning of the script that inserts into an element, up to the text.
pub open spec fn insert_lead(node_id: u64) -> Seq<char> {
    INSERT_HEAD@ + numeral(node_id as nat) + INSERT_MIDDLE@
}

/// The script that inserts `text` into an element.
pub open spec fn insert_script(node_id: u64, text: Seq<char>) -> Seq<char> {
    insert_lead(node_id) + json_literal(text) + INSERT_TAIL@
}

/// A boolean as scripts write it.
pub open spec fn bool_word(b: bool) -> Seq<char> {
    if b {
        "true"@
    } else {
        "false"@
    }
}

/// The name that a key event gives the key for `c`: the line breaks are Enter, the tab is Tab,
/// and every other character is its own name.
pub open spec fn key_name(c: char) -> Seq<char> {
    if c == '\n' || c == '\r' {
        "Enter"@
    } else if c == '\t' {
        "Tab"@
    } else {
        seq![c]
    }
}

/// A key event for `c`, begun by `head`.
pub open spec fn key_script(head: Seq<char>, c: char) -> Seq<char> {
    head + json_literal(key_name(c)) + KEY_CODE@ + json_literal(key_code(c)) + KEY_SHIFT@
        + bool_word(needs_shift(c)) + KEY_TAIL@
}

/// Writes the script that looks up the first element for a CSS selector.
pub fn query(selector: &str) -> (r: String)
    ensures
        r@ == query_script(selector@),
{
    let mut s = QUERY_HEAD.to_string();
    s.append(escape_quotes(selector).as_str());
    s.append(QUERY_TAIL);
    s
}

/// Writes a script on an element.
pub fn on_element(node_id: u64, tail: &str) -> (r: String)
    ensures
        r@ == element_script(node_id, tail@),
{
    let mut s = WRAP_HEAD.to_string();
    s.append(decimal(node_id as u128).as_str());
    s.append(tail);
    s
}

/// Writes the script that reads an attribute of an element.
pub fn read_attribute(node_id: u64, name: &str) -> (r: String)
    ensures
        r@ == attribute_script(node_id, name@),
{
    let mut s = on_element(node_id, ATTRIBUTE_MIDDLE);
    s.append(escape_quotes(name).as_str());
    s.append(ATTRIBUTE_TAIL);
    s
}

/// Writes the script that replaces the value of an element that has the focus.
pub fn fill_focused(node_id: u64, text: &str) -> (r: String)
    ensures
        r@ == fill_script(node_id, text@),
{
    let mut s = FILL_HEAD.to_string();
    s.append(decimal(node_id as u128).as_str());
    s.append(FILL_MIDDLE);
    s.append(json_string(text).as_str());
    s.append(FILL_TAIL);
    s
}

/// Writes the script that inserts text into an element.
pub fn insert(node_id: u64, text: &str) -> (r: String)
    ensures
        r@ == insert_script(node_id, text@),
{
    let mut s = INSERT_HEAD.to_string();
    s.append(decimal(node_id as u128).as_str());
    s.append(INSERT_MIDDLE);
    s.append(json_string(text).as_str());
    s.append(INSERT_TAIL);
    s
}

/// A selector cannot leave the string literal that holds it in its script. The literal opens
/// where the selector begins and ends where it is over, what follows is the script's own, and
/// the literal stands for the selector. A selector with a line break makes the script a syntax
/// error instead: its literal never ends.
pub proof fn selectors_stay_in_their_literal(selector: Seq<char>)
    ensures
        ({
            let script = query_script(selector);
            let open = QUERY_HEAD@.len() as int;
            let end = open + quote_escaped(selector).len();
            &&& script.take(open) == QUERY_HEAD@
            &&& script[open - 1] == '\''
            &&& literal_end(script, open, '\'') == if has_line_break(selector) {
                None::<int>
            } else {
                Some(end)
            }
            &&& literal_value(script.subrange(open, end)) == if has_line_break(selector) {
                None
            } else {
                Some(selector)
            }
            &&& script.skip(end) == QUERY_TAIL@
        }),
{
    reveal_strlit("(function() { var el = document.querySelector('");
    reveal_strlit("'); return el ? el._nid : null; })()");
    let script = query_script(selector);
    let open = QUERY_HEAD@.len() as int;
    let end = open + quote_escaped(selector).len();
    quoted_text_cannot_end_its_literal(QUERY_HEAD@, selector, QUERY_TAIL@.skip(1));
    quoted_text_is_read_back(selector);
    assert(seq!['\''] + QUERY_TAIL@.skip(1) =~= QUERY_TAIL@);
    assert(script =~= QUERY_HEAD@ + quote_escaped(selector) + seq!['\''] + QUERY_TAIL@.skip(1));
    assert(script.subrange(open, end) =~= quote_escaped(selector));
    assert(script.skip(end) =~= QUERY_TAIL@);
}

/// An attribute name cannot leave the string literal that holds it in its script, so a name
/// with a quote or a backslash injects no code into the page. The literal opens where the name
/// begins and ends where it is over, what follows is the script's own, and the literal stands
/// for the name. A name with a line break makes the script a syntax error instead.
pub proof fn attribute_names_stay_in_their_literal(node_id: u64, name: Seq<char>)
    ensures
        ({
            let script = attribute_script(node_id, name);
            let open = element_script(node_id, ATTRIBUTE_MIDDLE@).len() as int;
            let end = open + quote_escaped(name).len();
            &&& script.take(open) == element_script(node_id, ATTRIBUTE_MIDDLE@)
            &&& script[open - 1] == '\''
            &&& literal_end(script, open, '\'') == if has_line_break(name) {
                None::<int>
            } else {
                Some(end)
            }
            &&& literal_value(script.subrange(open, end)) == if has_line_break(name) {
                None
            } else {
                Some(name)
            }
            &&& script.skip(end) == ATTRIBUTE_TAIL@
        }),
{
    reveal_strlit("); return el ? el.getAttribute('");
    reveal_strlit("') : null; })()");
    let script = attribute_script(node_id, name);
    let head = element_script(node_id, ATTRIBUTE_MIDDLE@);
    let open = head.len() as int;
    let end = open + quote_escaped(name).len();
    quoted_text_cannot_end_its_literal(head, name, ATTRIBUTE_TAIL@.skip(1));
    quoted_text_is_read_back(name);
    assert(head.last() == ATTRIBUTE_MIDDLE@.last());
    assert(seq!['\''] + ATTRIBUTE_TAIL@.skip(1) =~= ATTRIBUTE_TAIL@);
    assert(script =~= head + quote_escaped(name) + seq!['\''] + ATTRIBUTE_TAIL@.skip(1));
    assert(script.subrange(open, end) =~= quote_escaped(name));
    assert(script.skip(end) =~= ATTRIBUTE_TAIL@);
}

/// The text that fills a field cannot leave the string literal that holds it, and the literal
/// stands for that text.
pub proof fn fill_text_stays_in_its_literal(node_id: u64, text: Seq<char>)
    ensures
        ({
            let script = fill_script(node_id, text);
            let open = fill_lead(node_id).len() as int + 1;
            let end = open + json_escaped(text).len();
            &&& script.take(open - 1) == fill_lead(node_id)
            &&& script[open - 1] == '"'
            &&& literal_end(script, open, '"') == Some(end)
            &&& literal_value(script.subrange(open, end)) == Some(text)
            &&& script.skip(end + 1) == FILL_TAIL@
        }),
{
    lemma_json_in_script(fill_lead(node_id), text, FILL_TAIL@);
}

/// The text that a key inserts cannot leave the string literal that holds it, and the literal
/// stands for that text.
pub proof fn inserted_text_stays_in_its_literal(node_id: u64, text: Seq<char>)
    ensures
        ({
            let script = insert_script(node_id, text);
            let open = insert_lead(node_id).len() as int + 1;
            let end = open + json_escaped(text).len();
            &&& script.take(open - 1) == insert_lead(node_id)
            &&& script[open - 1] == '"'
            &&& literal_end(script, open, '"') == Some(end)
            &&& literal_value(script.subrange(open, end)) == Some(text)
            &&& script.skip(end + 1) == INSERT_TAIL@
        }),
{
    lemma_json_in_script(insert_lead(node_id), text, INSERT_TAIL@);
}

/// The name of a key and its code cannot leave the string literals that hold them in the key's
/// events, and the literals stand for them.
pub proof fn keys_stay_in_their_literals(head: Seq<char>, c: char)
    ensures
        ({
            let script = key_script(head, c);
            let open = head.len() as int + 1;
            let end = open + json_escaped(key_name(c)).len();
            let code_open = end + 1 + KEY_CODE@.len() + 1;
            let code_end = code_open + json_escaped(key_code(c)).len();
            &&& script.take(open - 1) == head
            &&& script[open - 1] == '"'
            &&& literal_end(script, open, '"') == Some(end)
            &&& literal_value(script.subrange(open, end)) == Some(key_name(c))
            &&& script.subrange(end + 1, code_open - 1) == KEY_CODE@
            &&& script[code_open - 1] == '"'
            &&& literal_end(script, code_open, '"') == Some(code_end)
            &&& literal_value(script.subrange(code_open, code_end)) == Some(key_code(c))
            &&& script.skip(code_end + 1) == KEY_SHIFT@ + bool_word(needs_shift(c)) + KEY_TAIL@
        }),
{
    let script = key_script(head, c);
    let tail = KEY_SHIFT@ + bool_word(needs_shift(c)) + KEY_TAIL@;
    let rest = KEY_CODE@ + json_literal(key_code(c)) + tail;
    lemma_json_in_script(head, key_name(c), rest);
    assert(script =~= head + json_literal(key_name(c)) + rest);
    let code_head = head + json_literal(key_name(c)) + KEY_CODE@;
    lemma_json_in_script(code_head, key_code(c), tail);
    assert(script =~= code_head + json_literal(key_code(c)) + tail);
    let end = head.len() as int + 1 + json_escaped(key_name(c)).len();
    assert(script.subrange(end + 1, end + 1 + KEY_CODE@.len()) =~= KEY_CODE@);
}

proof fn lemma_json_in_script(head: Seq<char>, text: Seq<char>, tail: Seq<char>)
    ensures
        ({
            let script = head + json_literal(text) + tail;
            let open = head.len() as int + 1;
            let end = open + json_escaped(text).len();
            &&& script.take(open - 1) == head
            &&& script[open - 1] == '"'
            &&& literal_end(script, open, '"') == Some(end)
            &&& literal_value(script.subrange(open, end)) == Some(text)
            &&& script.skip(end + 1) == tail
        }),
{
    let script = head + json_literal(text) + tail;
    let open = head.len() as int + 1;
    let end = open + json_escaped(text).len();
    json_text_cannot_end_its_literal(head, text, tail);
    json_text_is_read_back(text);
    assert(script.subrange(open, end) =~= json_escaped(text));
    assert(script.skip(end + 1) =~= tail);
}

/// A script on an element begins with [`WRAP_HEAD`] and ends in its tail, and what stands between
/// is the element's node id in decimal.
pub proof fn element_scripts_hold_the_node_id(node_id: u64, tail: Seq<char>)
    ensures
        ({
            let script = element_script(node_id, tail);
            let open = WRAP_HEAD@.len() as int;
            let end = script.len() - tail.len();
            let digits = script.subrange(open, end);
            &&& open < end
            &&& script.take(open) == WRAP_HEAD@
            &&& forall|i: int| 0 <= i < digits.len() ==> '0' <= #[trigger] digits[i] <= '9'
            &&& digits.len() > 1 ==> digits[0] != '0'
            &&& numeral_value(digits) == node_id
            &&& script.skip(end) == tail
        }),
{
    lemma_number_in_script(WRAP_HEAD@, node_id, tail);
}

/// The script that reads an attribute is the script on the element up to the name, the escaped
/// name, and [`ATTRIBUTE_TAIL`]; the element's node id stands in it in decimal.
pub proof fn attribute_scripts_hold_the_node_id(node_id: u64, name: Seq<char>)
    ensures
        ({
            let script = attribute_script(node_id, name);
            let open = WRAP_HEAD@.len() as int;
            let rest = ATTRIBUTE_MIDDLE@ + quote_escaped(name) + ATTRIBUTE_TAIL@;
            let end = script.len() - rest.len();
            let digits = script.subrange(open, end);
            &&& open < end
            &&& script.take(open) == WRAP_HEAD@
            &&& forall|i: int| 0 <= i < digits.len() ==> '0' <= #[trigger] digits[i] <= '9'
            &&& digits.len() > 1 ==> digits[0] != '0'
            &&& numeral_value(digits) == node_id
            &&& script.skip(end) == rest
        }),
{
    let rest = ATTRIBUTE_MIDDLE@ + quote_escaped(name) + ATTRIBUTE_TAIL@;
    lemma_number_in_script(WRAP_HEAD@, node_id, rest);
    assert(attribute_script(node_id, name) =~= WRAP_HEAD@ + numeral(node_id as nat) + rest);
}

/// The script that fills an element begins with [`FILL_HEAD`], then comes the element's node id in
/// decimal, [`FILL_MIDDLE`], the text as a JSON string, and [`FILL_TAIL`].
pub proof fn fill_scripts_hold_the_node_id(node_id: u64, text: Seq<char>)
    ensures
        ({
            let script = fill_script(node_id, text);
            let open = FILL_HEAD@.len() as int;
            let rest = FILL_MIDDLE@ + json_literal(text) + FILL_TAIL@;
            let end = script.len() - rest.len();
            let digits = script.subrange(open, end);
            &&& open < end
            &&& script.take(open) == FILL_HEAD@
            &&& forall|i: int| 0 <= i < digits.len() ==> '0' <= #[trigger] digits[i] <= '9'
            &&& digits.len() > 1 ==> digits[0] != '0'
            &&& numeral_value(digits) == node_id
            &&& script.skip(end) == rest
        }),
{
    let rest = FILL_MIDDLE@ + json_literal(text) + FILL_TAIL@;
    lemma_number_in_script(FILL_HEAD@, node_id, rest);
    assert(fill_script(node_id, text) =~= FILL_HEAD@ + numeral(node_id as nat) + rest);
}

/// The script that inserts into an element begins with [`INSERT_HEAD`], then comes the element's
/// node id in decimal, [`INSERT_MIDDLE`], the text as a JSON string, and [`INSERT_TAIL`].
pub proof fn insert_scripts_hold_the_node_id(node_id: u64, text: Seq<char>)
    ensures
        ({
            let script = insert_script(node_id, text);
            let open = INSERT_HEAD@.len() as int;
            let rest = INSERT_MIDDLE@ + json_literal(text) + INSERT_TAIL@;
            let end = script.len() - rest.len();
            let digits = script.subrange(open, end);
            &&& open < end
            &&& script.take(open) == INSERT_HEAD@
            &&& forall|i: int| 0 <= i < digits.len() ==> '0' <= #[trigger] digits[i] <= '9'
            &&& digits.len() > 1 ==> digits[0] != '0'
            &&& numeral_value(digits) == node_id
            &&& script.skip(end) == rest
        }),
{
    let rest = INSERT_MIDDLE@ + json_literal(text) + INSERT_TAIL@;
    lemma_number_in_script(INSERT_HEAD@, node_id, rest);
    assert(insert_script(node_id, text) =~= INSERT_HEAD@ + numeral(node_id as nat) + rest);
}

proof fn lemma_number_in_script(head: Seq<char>, node_id: u64, tail: Seq<char>)
    ensures
        ({
            let script = head + numeral(node_id as nat) + tail;
            let end = script.len() - tail.len();
            let digits = script.subrange(head.len() as int, end);
            &&& head.len() < end
            &&& script.take(head.len() as int) == head
            &&& forall|i: int| 0 <= i < digits.len() ==> '0' <= #[trigger] digits[i] <= '9'
            &&& digits.len() > 1 ==> digits[0] != '0'
            &&& numeral_value(digits) == node_id
            &&& script.skip(end) == tail
        }),
{
    let script = head + numeral(node_id as nat) + tail;
    let end = script.len() - tail.len();
    numerals_are_digits(node_id as nat);
    numerals_are_read_back(node_id as nat);
    numerals_have_no_leading_zero(node_id as nat);
    assert(script.subrange(head.len() as int, end) =~= numeral(node_id as nat));
    assert(script.take(head.len() as int) =~= head);
    assert(script.skip(end) =~= tail);
}

/// What [`query`] writes is [`QUERY_HEAD`], what [`escape_quotes`] gives for the selector, and
/// [`QUERY_TAIL`]. For a selector with no line break the literal that the head opens ends where the
/// tail begins and stands for the selector.
pub proof fn query_looks_for_its_selector(selector: &str, r: String, escaped: String)
    requires
        call_ensures(query, (selector,), r),
        call_ensures(escape_quotes, (selector,), escaped),
    ensures
        ({
            let open = QUERY_HEAD@.len() as int;
            let end = r@.len() - QUERY_TAIL@.len();
            &&& open <= end
            &&& r@.take(open) == QUERY_HEAD@
            &&& r@.subrange(open, end) == escaped@
            &&& r@.skip(end) == QUERY_TAIL@
            &&& !has_line_break(selector@) ==> literal_end(r@, open, '\'') == Some(end)
                && literal_value(r@.subrange(open, end)) == Some(selector@)
            &&& (forall|i: int|
                0 <= i < selector@.len() ==> #[trigger] selector@[i] != '\\' && selector@[i]
                    != '\'') ==> r@.subrange(open, end) == selector@
        }),
{
    selectors_stay_in_their_literal(selector@);
    let open = QUERY_HEAD@.len() as int;
    let end = r@.len() - QUERY_TAIL@.len();
    assert(r@.subrange(open, end) =~= quote_escaped(selector@));
    if forall|i: int|
        0 <= i < selector@.len() ==> #[trigger] selector@[i] != '\\' && selector@[i] != '\'' {
        plain_text_needs_no_escape(selector@);
    }
}

/// What [`on_element`] writes is [`WRAP_HEAD`], the node id in decimal and the tail.
pub proof fn on_element_names_the_element(node_id: u64, tail: &str, r: String)
    requires
        call_ensures(on_element, (node_id, tail), r),
    ensures
        ({
            let open = WRAP_HEAD@.len() as int;
            let end = r@.len() - tail@.len();
            let digits = r@.subrange(open, end);
            &&& open < end
            &&& r@.take(open) == WRAP_HEAD@
            &&& forall|i: int| 0 <= i < digits.len() ==> '0' <= #[trigger] digits[i] <= '9'
            &&& digits.len() > 1 ==> digits[0] != '0'
            &&& numeral_value(digits) == node_id
            &&& r@.skip(end) == tail@
        }),
{
    element_scripts_hold_the_node_id(node_id, tail@);
}

/// What [`read_attribute`] writes is what [`on_element`] writes with [`ATTRIBUTE_MIDDLE`], then what
/// [`escape_quotes`] gives for the name, and [`ATTRIBUTE_TAIL`].
pub proof fn read_attribute_asks_the_element_for_the_name(
    node_id: u64,
    name: &str,
    r: String,
    lead: String,
    escaped: String,
)
    requires
        call_ensures(read_attribute, (node_id, name), r),
        call_ensures(on_element, (node_id, ATTRIBUTE_MIDDLE), lead),
        call_ensures(escape_quotes, (name,), escaped),
    ensures
        r@ == lead@ + escaped@ + ATTRIBUTE_TAIL@,
{
}

/// What [`fill_focused`] and [`insert`] write holds, between their own texts, the node id as
/// [`decimal`] writes it and the text as [`json_string`] writes it.
pub proof fn writing_scripts_hold_the_text(
    node_id: u64,
    text: &str,
    filling: String,
    inserting: String,
    digits: String,
    json: String,
)
    requires
        call_ensures(fill_focused, (node_id, text), filling),
        call_ensures(insert, (node_id, text), inserting),
        call_ensures(decimal, (node_id as u128,), digits),
        call_ensures(json_string, (text,), json),
    ensures
        filling@ == FILL_HEAD@ + digits@ + FILL_MIDDLE@ + json@ + FILL_TAIL@,
        inserting@ == INSERT_HEAD@ + digits@ + INSERT_MIDDLE@ + json@ + INSERT_TAIL@,
{
}

/// The name of a key is its character, and `Enter` or `Tab` for the characters that no name shows.
pub proof fn keys_are_named_by_their_character(c: char)
    ensures
        c != '\n' && c != '\r' && c != '\t' ==> key_name(c).len() == 1 && key_name(c)[0] == c,
        c == '\n' || c == '\r' ==> key_name(c) == "Enter"@,
        c == '\t' ==> key_name(c) == "Tab"@,
{
}

/// A key event says of Shift `true` where the character needs it, and `false` where it does not.
pub proof fn key_events_say_whether_shift_is_held(head: Seq<char>, c: char)
    ensures
        ({
            let script = key_script(head, c);
            let held = ",shiftKey:true}))); })()"@;
            let free = ",shiftKey:false}))); })()"@;
            &&& needs_shift(c) ==> script.len() > held.len() && script.skip(
                script.len() - held.len(),
            ) == held
            &&& !needs_shift(c) ==> script.len() > free.len() && script.skip(
                script.len() - free.len(),
            ) == free
        }),
{
    reveal_strlit(",shiftKey:true}))); })()");
    reveal_strlit(",shiftKey:false}))); })()");
    reveal_strlit(",shiftKey:");
    reveal_strlit("true");
    reveal_strlit("false");
    reveal_strlit("}))); })()");
    let script = key_script(head, c);
    let tail = KEY_SHIFT@ + bool_word(needs_shift(c)) + KEY_TAIL@;
    if needs_shift(c) {
        assert(tail =~= ",shiftKey:true}))); })()"@);
    } else {
        assert(tail =~= ",shiftKey:false}))); })()"@);
    }
    assert(script.skip(script.len() - tail.len()) =~= tail);
}

/// Scripts on two elements differ wherever the elements do.
pub proof fn element_scripts_name_their_element(a: u64, b: u64, tail: Seq<char>)
    requires
        element_script(a, tail) == element_script(b, tail),
    ensures
        a == b,
{
    lemma_numeral_in_script(a as nat, b as nat, WRAP_HEAD@, tail);
}

/// The scripts that put a text into two elements differ wherever the elements do.
pub proof fn writing_scripts_name_their_element(a: u64, b: u64, text: Seq<char>)
    requires
        fill_script(a, text) == fill_script(b, text) || insert_script(a, text) == insert_script(
            b,
            text,
        ),
    ensures
        a == b,
{
    let fill_rest = FILL_MIDDLE@ + json_literal(text) + FILL_TAIL@;
    let insert_rest = INSERT_MIDDLE@ + json_literal(text) + INSERT_TAIL@;
    assert(fill_script(a, text) =~= FILL_HEAD@ + numeral(a as nat) + fill_rest);
    assert(fill_script(b, text) =~= FILL_HEAD@ + numeral(b as nat) + fill_rest);
    assert(insert_script(a, text) =~= INSERT_HEAD@ + numeral(a as nat) + insert_rest);
    assert(insert_script(b, text) =~= INSERT_HEAD@ + numeral(b as nat) + insert_rest);
    if fill_script(a, text) == fill_script(b, text) {
        lemma_numeral_in_script(a as nat, b as nat, FILL_HEAD@, fill_rest);
    } else {
        lemma_numeral_in_script(a as nat, b as nat, INSERT_HEAD@, insert_rest);
    }
}

proof fn lemma_numeral_in_script(a: nat, b: nat, head: Seq<char>, tail: Seq<char>)
    requires
        head + numeral(a) + tail == head + numeral(b) + tail,
    ensures
        a == b,
{
    let script = head + numeral(a) + tail;
    let end = script.len() - tail.len();
    assert(script.subrange(head.len() as int, end) =~= numeral(a));
    assert((head + numeral(b) + tail).subrange(head.len() as int, end) =~= numeral(b));
    numerals_are_distinct(a, b);
}

} // verus!
