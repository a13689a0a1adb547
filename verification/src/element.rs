//! Operations on a DOM element.

use vstd::prelude::*;

use crate::error::{Error, ErrorView};
use crate::reply::{content_is_true, content_text, Reply};
use crate::script::{
    attribute_script, element_script, fill_focused, fill_script, on_element, read_attribute,
    CLICK_TAIL, FOCUS_TAIL, SCROLL_TAIL, TEXT_TAIL, TYPEABLE_TAIL,
};
use crate::step::Step;
use crate::typing::{contents, plan_typing, typing_actions, TypingAction};

verus! {

/// Handle to a DOM element.
#[derive(Clone, Copy, Debug, PartialEq, Eq, Structural)]
pub struct Element {
    /// The id by which scripts find the element's node.
    pub node_id: u64,
}

impl Element {
    /// Reads the text content of this element: one script, whose reply is the text. A reply that
    /// is no string reads as the empty text.
    pub fn text(&self, replies: &[Reply]) -> (r: Step<String>)
        ensures
            replies@.len() == 0 ==> r.asks(element_script(self.node_id, TEXT_TAIL@)),
            replies@.len() > 0 ==> r is Finish && r->Finish_0@ == content_text(replies@[0]@),
            replies@.len() > 0 && replies@[0]@ is Text ==> r->Finish_0@ == replies@[0]@->Text_0,
            replies@.len() > 0 && replies@[0]@ !is Text ==> r->Finish_0@.len() == 0,
    {
        if replies.len() == 0 {
            Step::Evaluate(on_element(self.node_id, TEXT_TAIL))
        } else {
            Step::Finish(replies[0].text())
        }
    }

    /// Reads an attribute of this element: one script, whose reply is the attribute's value, or
    /// `null` where there is none. Any other reply that is no string reads as the empty value.
    pub fn attribute(&self, name: &str, replies: &[Reply]) -> (r: Step<Option<String>>)
        ensures
            replies@.len() == 0 ==> r.asks(attribute_script(self.node_id, name@)),
            replies@.len() > 0 ==> r is Finish,
            replies@.len() > 0 ==> (r->Finish_0 is None <==> replies@[0]@ is Null),
            replies@.len() > 0 && replies@[0]@ !is Null ==> r->Finish_0->Some_0@ == content_text(
                replies@[0]@,
            ),
            replies@.len() > 0 && replies@[0]@ is Text ==> r->Finish_0->Some_0@
                == replies@[0]@->Text_0,
    {
        if replies.len() == 0 {
            Step::Evaluate(read_attribute(self.node_id, name))
        } else if replies[0].is_null() {
            Step::Finish(None)
        } else {
            Step::Finish(Some(replies[0].text()))
        }
    }

    /// Clicks this element: one script scrolls it into view, whatever its reply, and a second
    /// one clicks. The click has worked if and only if the second replies `true`.
    pub fn click(&self, replies: &[Reply]) -> (r: Step<Result<(), Error>>)
        ensures
            replies@.len() == 0 ==> r.asks(element_script(self.node_id, SCROLL_TAIL@)),
            replies@.len() == 1 ==> r.asks(element_script(self.node_id, CLICK_TAIL@)),
            replies@.len() >= 2 && content_is_true(replies@[1]@) ==> r == Step::Finish(
                Ok::<(), Error>(()),
            ),
            replies@.len() >= 2 && !content_is_true(replies@[1]@) ==> r.fails(
                ErrorView::ElementNotFound("click failed"@),
            ),
    {
        if replies.len() == 0 {
            Step::Evaluate(on_element(self.node_id, SCROLL_TAIL))
        } else if replies.len() == 1 {
            Step::Evaluate(on_element(self.node_id, CLICK_TAIL))
        } else if replies[1].is_true() {
            Step::Finish(Ok(()))
        } else {
            Step::Finish(Err(Error::ElementNotFound("click failed".to_string())))
        }
    }

    /// Puts text into this element in one go: one script focuses it and replies `true` where it
    /// exists, else the text is not sent. A second one sets the value, if this element is a field
    /// and has the focus. The text is in if and only if the second script replies `true`.
    pub fn fill(&self, text: &str, replies: &[Reply]) -> (r: Step<Result<(), Error>>)
        ensures
            replies@.len() == 0 ==> r.asks(element_script(self.node_id, FOCUS_TAIL@)),
            replies@.len() > 0 && !content_is_true(replies@[0]@) ==> r.fails(
                ErrorView::ElementNotFound("fill failed: element not found"@),
            ),
            replies@.len() == 1 && content_is_true(replies@[0]@) ==> r.asks(
                fill_script(self.node_id, text@),
            ),
            replies@.len() >= 2 && content_is_true(replies@[0]@) && content_is_true(replies@[1]@)
                ==> r == Step::Finish(Ok::<(), Error>(())),
            replies@.len() >= 2 && content_is_true(replies@[0]@) && !content_is_true(replies@[1]@)
                ==> r.fails(ErrorView::ElementNotFound("fill failed"@)),
    {
        if replies.len() == 0 {
            return Step::Evaluate(on_element(self.node_id, FOCUS_TAIL));
        }
        if !replies[0].is_true() {
            return Step::Finish(
                Err(Error::ElementNotFound("fill failed: element not found".to_string())),
            );
        }
        if replies.len() == 1 {
            return Step::Evaluate(fill_focused(self.node_id, text));
        }
        if replies[1].is_true() {
            Step::Finish(Ok(()))
        } else {
            Step::Finish(Err(Error::ElementNotFound("fill failed".to_string())))
        }
    }

    /// Types text into this element key by key: scripts ask whether it can be typed into, scroll
    /// it into view and focus it, and then come the actions that type the text: key events for
    /// what has the focus, and insertions into this element. Where the first script does not reply
    /// `true`, or the third does not, no key is sent.
    pub fn type_text(&self, text: &str, replies: &[Reply]) -> (r: Step<
        Result<Vec<TypingAction>, Error>,
    >)
        ensures
            replies@.len() == 0 ==> r.asks(element_script(self.node_id, TYPEABLE_TAIL@)),
            replies@.len() > 0 && !content_is_true(replies@[0]@) ==> r.fails(
                ErrorView::ElementNotFound("not a typeable element"@),
            ),
            replies@.len() == 1 && content_is_true(replies@[0]@) ==> r.asks(
                element_script(self.node_id, SCROLL_TAIL@),
            ),
            replies@.len() == 2 && content_is_true(replies@[0]@) ==> r.asks(
                element_script(self.node_id, FOCUS_TAIL@),
            ),
            replies@.len() >= 3 && content_is_true(replies@[0]@) && !content_is_true(replies@[2]@)
                ==> r.fails(ErrorView::ElementNotFound("element could not be focused"@)),
            replies@.len() >= 3 && content_is_true(replies@[0]@) && content_is_true(replies@[2]@)
                ==> r is Finish && r->Finish_0 is Ok && contents(r->Finish_0->Ok_0@)
                == typing_actions(self.node_id, text@),
    {
        if replies.len() == 0 {
            return Step::Evaluate(on_element(self.node_id, TYPEABLE_TAIL));
        }
        if !replies[0].is_true() {
            return Step::Finish(
                Err(Error::ElementNotFound("not a typeable element".to_string())),
            );
        }
        if replies.len() == 1 {
            return Step::Evaluate(on_element(self.node_id, SCROLL_TAIL));
        }
        if replies.len() == 2 {
            return Step::Evaluate(on_element(self.node_id, FOCUS_TAIL));
        }
        if !replies[2].is_true() {
            return Step::Finish(
                Err(Error::ElementNotFound("element could not be focused".to_string())),
            );
        }
        Step::Finish(Ok(plan_typing(self.node_id, text)))
    }
}

/// The text of an element is the string that the script replies, the whole of it, and empty for
/// any other reply. The script comes first: on this element, it reads the text content.
pub proof fn an_elements_text_is_the_reply(element: &Element, replies: &[Reply], r: Step<String>)
    requires
        call_ensures(Element::text, (element, replies), r),
    ensures
        replies@.len() == 0 ==> r is Evaluate && r->Evaluate_0@ == element_script(
            element.node_id,
            "); return el ? el.textContent : ''; })()"@,
        ),
        replies@.len() > 0 ==> r is Finish,
        replies@.len() > 0 && replies@[0] is Text ==> r->Finish_0@ == replies@[0]->Text_0@,
        replies@.len() > 0 && replies@[0] !is Text ==> r->Finish_0@.len() == 0,
{
}

/// The value of an attribute is the string that the script replies, the whole of it; there is none
/// where the reply is `null`, and any other reply is the empty value.
pub proof fn an_attributes_value_is_the_reply(
    element: &Element,
    name: &str,
    replies: &[Reply],
    r: Step<Option<String>>,
    script: String,
)
    requires
        call_ensures(Element::attribute, (element, name, replies), r),
        call_ensures(read_attribute, (element.node_id, name), script),
    ensures
        replies@.len() == 0 ==> r is Evaluate && r->Evaluate_0@ == script@,
        replies@.len() > 0 ==> r is Finish,
        replies@.len() > 0 ==> (replies@[0] is Null <==> r->Finish_0 is None),
        replies@.len() > 0 && replies@[0] is Text ==> r->Finish_0->Some_0@ == replies@[0]->Text_0@,
        replies@.len() > 0 && replies@[0] !is Null && replies@[0] !is Text
            ==> r->Finish_0->Some_0@.len() == 0,
{
}

/// A click scrolls the element into view, then clicks it, and has worked if and only if the second
/// reply is `true`, whatever the first is.
pub proof fn a_click_works_if_its_script_says_so(
    element: &Element,
    replies: &[Reply],
    r: Step<Result<(), Error>>,
)
    requires
        call_ensures(Element::click, (element, replies), r),
    ensures
        replies@.len() == 0 ==> r is Evaluate && r->Evaluate_0@ == element_script(
            element.node_id,
            "); if (el) el.scrollIntoView({block:'center'}); })()"@,
        ),
        replies@.len() == 1 ==> r is Evaluate && r->Evaluate_0@ == element_script(
            element.node_id,
            "); if (el) { el.click(); return true; } return false; })()"@,
        ),
        replies@.len() >= 2 ==> r is Finish && (r->Finish_0 is Ok <==> replies@[1] == Reply::Bool(
            true,
        )),
        replies@.len() >= 2 && replies@[1] != Reply::Bool(true) ==> r->Finish_0->Err_0
            is ElementNotFound && r->Finish_0->Err_0->ElementNotFound_0@ == "click failed"@,
{
}

/// Filling focuses the element, sends the text only if that replied `true`, and has worked if and
/// only if both replies are `true`; the two failures have different texts.
pub proof fn a_text_is_in_if_both_scripts_say_so(
    element: &Element,
    text: &str,
    replies: &[Reply],
    r: Step<Result<(), Error>>,
    script: String,
)
    requires
        call_ensures(Element::fill, (element, text, replies), r),
        call_ensures(fill_focused, (element.node_id, text), script),
    ensures
        replies@.len() == 0 ==> r is Evaluate && r->Evaluate_0@ == element_script(
            element.node_id,
            "); if (el) { el.focus(); return true; } return false; })()"@,
        ),
        replies@.len() == 1 ==> (r is Evaluate <==> replies@[0] == Reply::Bool(true)),
        replies@.len() == 1 && replies@[0] == Reply::Bool(true) ==> r->Evaluate_0@ == script@,
        replies@.len() >= 2 ==> r is Finish && (r->Finish_0 is Ok <==> replies@[0] == Reply::Bool(
            true,
        ) && replies@[1] == Reply::Bool(true)),
        r is Finish && r->Finish_0 is Err ==> r->Finish_0->Err_0 is ElementNotFound
            && r->Finish_0->Err_0->ElementNotFound_0@ == if replies@[0] == Reply::Bool(true) {
            "fill failed"@
        } else {
            "fill failed: element not found"@
        },
{
}

/// Typing asks whether the element can be typed into, scrolls it into view and focuses it. The keys
/// come, as [`plan_typing`] plans them, if and only if the first and the third reply are `true`,
/// and after a first reply that is not, nothing more is evaluated.
pub proof fn keys_come_if_the_element_can_be_typed_into(
    element: &Element,
    text: &str,
    replies: &[Reply],
    r: Step<Result<Vec<TypingAction>, Error>>,
    plan: Vec<TypingAction>,
)
    requires
        call_ensures(Element::type_text, (element, text, replies), r),
        call_ensures(plan_typing, (element.node_id, text), plan),
    ensures
        replies@.len() == 0 ==> r is Evaluate && r->Evaluate_0@ == element_script(
            element.node_id,
            TYPEABLE_TAIL@,
        ),
        replies@.len() == 1 || replies@.len() == 2 ==> (r is Evaluate <==> replies@[0]
            == Reply::Bool(true)),
        replies@.len() == 1 && r is Evaluate ==> r->Evaluate_0@ == element_script(
            element.node_id,
            "); if (el) el.scrollIntoView({block:'center'}); })()"@,
        ),
        replies@.len() == 2 && r is Evaluate ==> r->Evaluate_0@ == element_script(
            element.node_id,
            "); if (el) { el.focus(); return true; } return false; })()"@,
        ),
        replies@.len() >= 3 ==> r is Finish,
        r is Finish ==> (r->Finish_0 is Ok <==> replies@.len() >= 3 && replies@[0] == Reply::Bool(
            true,
        ) && replies@[2] == Reply::Bool(true)),
        r is Finish && r->Finish_0 is Ok ==> r->Finish_0->Ok_0@.len() == plan@.len() && forall|i: int|
            #![trigger plan@[i]]
            0 <= i < plan@.len() ==> r->Finish_0->Ok_0@[i]@ == plan@[i]@,
        r is Finish && r->Finish_0 is Err ==> r->Finish_0->Err_0 is ElementNotFound
            && r->Finish_0->Err_0->ElementNotFound_0@ == if replies@[0] == Reply::Bool(true) {
            "element could not be focused"@
        } else {
            "not a typeable element"@
        },
{
    if r is Finish && r->Finish_0 is Ok {
        let typed = r->Finish_0->Ok_0@;
        assert(contents(typed).len() == contents(plan@).len());
        assert forall|i: int|
            #![trigger plan@[i]]
            0 <= i < plan@.len() implies typed[i]@ == plan@[i]@ by {
            assert(contents(typed)[i] == contents(plan@)[i]);
        }
    }
}

} // verus!
