use obscura::page::{Navigation, WaitAction, WaitEvent};
use obscura::script::query;
use obscura::{Element, Error, Page, Reply, Step};

const ELEMENT: Element = Element { node_id: 5 };

fn wrapped(tail: &str) -> String {
    format!("(function() {{ var el = globalThis._wrap && globalThis._wrap(5){}", tail)
}

const SCROLL: &str = "; if (el) el.scrollIntoView({block:'center'}); })()";
const CLICK: &str = "; if (el) { el.click(); return true; } return false; })()";
const FOCUS: &str = "; if (el) { el.focus(); return true; } return false; })()";
const TYPEABLE: &str = "; return !!el && (el.tagName === 'INPUT' || el.tagName === 'TEXTAREA' || el.isContentEditable); })()";

fn asks<T>(step: Step<T>, script: &str) {
    match step {
        Step::Evaluate(s) => assert_eq!(s, script),
        Step::Finish(_) => panic!("the operation is over"),
    }
}

fn result<T>(step: Step<T>) -> T {
    match step {
        Step::Evaluate(_) => panic!("the operation is not over"),
        Step::Finish(t) => t,
    }
}

fn not_found<T>(step: Step<Result<T, Error>>, text: &str) {
    match result(step) {
        Err(Error::ElementNotFound(m)) => assert_eq!(m, text),
        _ => panic!("the operation did not fail as it should"),
    }
}

fn yes() -> Reply {
    Reply::Bool(true)
}

fn no() -> Reply {
    Reply::Bool(false)
}

#[test]
fn content_is_the_reply_if_it_is_text() {
    assert_eq!(result(Page::content(&[Reply::Text("<html>".to_string())])), "<html>");
    assert_eq!(result(Page::content(&[Reply::Null])), "");
}

#[test]
fn a_query_gives_the_element_of_the_node_id() {
    assert_eq!(result(Page::query_selector("a", &[Reply::Unsigned(5)])), Some(ELEMENT));
    let float = Reply::Float(5.0f64.to_bits());
    assert_eq!(result(Page::query_selector("a", &[float])), Some(ELEMENT));
    assert_eq!(result(Page::query_selector("a", &[Reply::Null])), None);
}

#[test]
fn text_is_the_reply_if_it_is_text() {
    assert_eq!(result(ELEMENT.text(&[Reply::Text("hi".to_string())])), "hi");
    assert_eq!(result(ELEMENT.text(&[Reply::Compound])), "");
}

#[test]
fn an_attribute_is_missing_only_where_the_reply_is_null() {
    let value = Reply::Text("x".to_string());
    assert_eq!(result(ELEMENT.attribute("a", &[value])), Some("x".to_string()));
    assert_eq!(result(ELEMENT.attribute("a", &[Reply::Null])), None);
    assert_eq!(result(ELEMENT.attribute("a", &[Reply::Unsigned(3)])), Some(String::new()));
}

#[test]
fn a_click_scrolls_and_then_clicks() {
    asks(ELEMENT.click(&[]), &wrapped(SCROLL));
    asks(ELEMENT.click(&[no()]), &wrapped(CLICK));
    assert!(result(ELEMENT.click(&[no(), yes()])).is_ok());
    not_found(ELEMENT.click(&[yes(), no()]), "click failed");
    not_found(ELEMENT.click(&[yes(), Reply::Null]), "click failed");
}

#[test]
fn a_fill_focuses_and_then_sets_the_value() {
    asks(ELEMENT.fill("t", &[]), &wrapped(FOCUS));
    not_found(ELEMENT.fill("t", &[no()]), "fill failed: element not found");
    asks(ELEMENT.fill("t", &[yes()]), &obscura::script::fill_focused(5, "t"));
    assert!(result(ELEMENT.fill("t", &[yes(), yes()])).is_ok());
    not_found(ELEMENT.fill("t", &[yes(), no()]), "fill failed");
}

#[test]
fn typing_asks_scrolls_and_focuses_first() {
    asks(ELEMENT.type_text("t", &[]), &wrapped(TYPEABLE));
    not_found(ELEMENT.type_text("t", &[no()]), "not a typeable element");
    asks(ELEMENT.type_text("t", &[yes()]), &wrapped(SCROLL));
    asks(ELEMENT.type_text("t", &[yes(), Reply::Null]), &wrapped(FOCUS));
    not_found(
        ELEMENT.type_text("t", &[yes(), Reply::Null, no()]),
        "element could not be focused",
    );
    let actions = result(ELEMENT.type_text("tT", &[yes(), Reply::Null, yes()])).unwrap();
    assert_eq!(actions.len(), 10);
}

#[test]
fn a_navigation_hands_its_error_on() {
    match Page::goto("https://example.com/", None) {
        Navigation::UntilLoaded(url) => assert_eq!(url, "https://example.com/"),
        Navigation::Finish(_) => panic!("the navigation has not begun"),
    }
    assert!(matches!(Page::goto("u", Some(Ok(()))), Navigation::Finish(Ok(()))));
    match Page::goto("u", Some(Err("dns".to_string()))) {
        Navigation::Finish(Err(Error::Navigation(m))) => assert_eq!(m, "dns"),
        _ => panic!("the error is handed on"),
    }
}

#[test]
fn a_wait_looks_until_the_element_is_there() {
    let timeout: u128 = 1_000_000_000;
    for event in [WaitEvent::Begin, WaitEvent::Awake] {
        match Page::wait_for_selector("#a'", timeout, &event) {
            WaitAction::Evaluate(script) => assert_eq!(script, query("#a'")),
            _ => panic!("a wait looks"),
        }
    }
    let miss = WaitEvent::Replied(Reply::Null);
    assert!(matches!(Page::wait_for_selector("#a", timeout, &miss), WaitAction::ReadClock));
    let early = WaitEvent::Elapsed(timeout);
    assert!(matches!(Page::wait_for_selector("#a", timeout, &early), WaitAction::Sleep(100)));
    match Page::wait_for_selector("#a", timeout, &WaitEvent::Replied(Reply::Unsigned(5))) {
        WaitAction::Finish(Ok(element)) => assert_eq!(element, ELEMENT),
        _ => panic!("the element is there"),
    }
}

#[test]
fn a_wait_in_vain_says_what_it_waited_for() {
    let timeout: u128 = 1_999_999;
    match Page::wait_for_selector("it's", timeout, &WaitEvent::Elapsed(timeout + 1)) {
        WaitAction::Finish(Err(Error::Timeout(m))) => {
            assert_eq!(m, "wait_for_selector(it's) timed out after 1ms");
        }
        _ => panic!("the time is over"),
    }
}

fn wait_with(looks: Vec<(Reply, u128)>, timeout: u128) -> WaitAction {
    let mut looks = looks.into_iter();
    let mut elapsed = 0;
    let mut event = WaitEvent::Begin;
    loop {
        event = match Page::wait_for_selector("p", timeout, &event) {
            WaitAction::Evaluate(script) => match looks.next() {
                Some((reply, now)) => {
                    elapsed = now;
                    WaitEvent::Replied(reply)
                }
                None => return WaitAction::Evaluate(script),
            },
            WaitAction::ReadClock => WaitEvent::Elapsed(elapsed),
            WaitAction::Sleep(_) => WaitEvent::Awake,
            over => return over,
        };
    }
}

#[test]
fn a_whole_wait_goes_on_ends_found_or_ends_late() {
    let misses = || vec![(Reply::Null, 1), (Reply::Null, 10)];
    assert!(matches!(wait_with(misses(), 10), WaitAction::Evaluate(_)));
    let mut found = misses();
    found.push((Reply::Unsigned(5), 99));
    found.push((Reply::Unsigned(6), 100));
    assert!(matches!(wait_with(found, 10), WaitAction::Finish(Ok(Element { node_id: 5 }))));
    let mut late = misses();
    late.push((Reply::Null, 11));
    late.push((Reply::Unsigned(5), 12));
    assert!(matches!(wait_with(late, 10), WaitAction::Finish(Err(Error::Timeout(_)))));
}

#[test]
fn a_wait_that_sleeps_between_looks_comes_to_an_end() {
    let interval: u128 = 100_000_000;
    let timeout = 3 * interval + 1;
    let looks = |n: u128| (0..n).map(|i| (Reply::Null, i * interval)).collect::<Vec<_>>();
    assert!(matches!(wait_with(looks(4), timeout), WaitAction::Evaluate(_)));
    assert!(matches!(wait_with(looks(5), timeout), WaitAction::Finish(Err(Error::Timeout(_)))));
}

#[test]
fn an_attribute_name_cannot_end_its_literal() {
    let script = obscura::script::read_attribute(5, "x') ; evil('\\");
    let open = script.find("getAttribute('").unwrap() + "getAttribute('".len();
    let bytes = script.as_bytes();
    let mut end = open;
    while bytes[end] != b'\'' {
        end += if bytes[end] == b'\\' { 2 } else { 1 };
    }
    assert_eq!(&script[end..], "') : null; })()");
}
