//! Operations on a browser tab.

use vstd::prelude::*;

use crate::decimal::{
    decimal, numeral, numeral_value, numerals_are_digits, numerals_are_read_back,
    numerals_have_no_leading_zero,
};
use crate::element::Element;
use crate::error::{Error, ErrorView};
use crate::reply::{content_nid, content_text, Reply, ReplyView};
use crate::script::{query, query_script, OUTER_HTML};
use crate::step::Step;

verus! {

/// A browser tab, as far as its operations go. The tab itself lives with the script engine.
#[derive(Clone, Copy, Debug)]
pub struct Page;

/// What a navigation does next.
#[derive(Debug)]
pub enum Navigation {
    /// Navigate the tab to a URL, wait until the page has loaded, and come back with the outcome.
    UntilLoaded(String),
    /// The navigation is over.
    Finish(Result<(), Error>),
}

/// What has happened while an element is waited for.
#[derive(Debug)]
pub enum WaitEvent {
    /// The wait begins.
    Begin,
    /// The script has been evaluated.
    Replied(Reply),
    /// The clock has been read: nanoseconds since the wait began.
    Elapsed(u128),
    /// The sleep is over.
    Awake,
}

/// The content of a [`WaitEvent`].
pub enum WaitEventView {
    /// The wait begins.
    Begin,
    /// The script has been evaluated.
    Replied(ReplyView),
    /// The clock has been read: nanoseconds since the wait began.
    Elapsed(nat),
    /// The sleep is over.
    Awake,
}

impl View for WaitEvent {
    type V = WaitEventView;

    open spec fn view(&self) -> WaitEventView {
        match self {
            WaitEvent::Begin => WaitEventView::Begin,
            WaitEvent::Replied(r) => WaitEventView::Replied(r@),
            WaitEvent::Elapsed(n) => WaitEventView::Elapsed(*n as nat),
            WaitEvent::Awake => WaitEventView::Awake,
        }
    }
}

/// What to do next while an element is waited for.
#[derive(Debug)]
pub enum WaitAction {
    /// Evaluate a script in the page and come back with its reply.
    Evaluate(String),
    /// Read the clock.
    ReadClock,
    /// Sleep for so many milliseconds.
    Sleep(u64),
    /// The wait is over.
    Finish(Result<Element, Error>),
}

/// The content of a [`WaitAction`].
pub enum WaitActionView {
    /// Evaluate a script in the page and come back with its reply.
    Evaluate(Seq<char>),
    /// Read the clock.
    ReadClock,
    /// Sleep for so many milliseconds.
    Sleep(nat),
    /// The wait is over.
    Finish(Result<Element, ErrorView>),
}

impl View for WaitAction {
    type V = WaitActionView;

    open spec fn view(&self) -> WaitActionView {
        match self {
            WaitAction::Evaluate(s) => WaitActionView::Evaluate(s@),
            WaitAction::ReadClock => WaitActionView::ReadClock,
            WaitAction::Sleep(ms) => WaitActionView::Sleep(*ms as nat),
            WaitAction::Finish(Ok(e)) => WaitActionView::Finish(Ok(*e)),
            WaitAction::Finish(Err(e)) => WaitActionView::Finish(Err(e@)),
        }
    }
}

/// How long a wait sleeps between two looks, in milliseconds.
pub const POLL_INTERVAL_MS: u64 = 100;

/// What a wait that was in vain says, the timeout given in nanoseconds and said in milliseconds.
pub open spec fn timeout_message(selector: Seq<char>, timeout: nat) -> Seq<char> {
    "wait_for_selector("@ + selector + ") timed out after "@ + numeral(timeout / 1_000_000) + "ms"@
}

/// The element that a look for a selector has found.
pub open spec fn found_element(reply: ReplyView) -> Option<Element> {
    match content_nid(reply) {
        Some(node_id) => Some(Element { node_id }),
        None => None,
    }
}

/// What a wait for `selector` does after `event`: it looks when it begins and after every sleep,
/// ends with the element when a look finds one, and otherwise reads the clock; it ends with a
/// timeout if more than `timeout` nanoseconds have gone by, and sleeps if not.
pub open spec fn wait_next(
    selector: Seq<char>,
    timeout: nat,
    event: WaitEventView,
) -> WaitActionView {
    match event {
        WaitEventView::Begin => WaitActionView::Evaluate(query_script(selector)),
        WaitEventView::Awake => WaitActionView::Evaluate(query_script(selector)),
        WaitEventView::Replied(reply) => match found_element(reply) {
            Some(element) => WaitActionView::Finish(Ok(element)),
            None => WaitActionView::ReadClock,
        },
        WaitEventView::Elapsed(elapsed) => if elapsed > timeout {
            WaitActionView::Finish(Err(ErrorView::Timeout(timeout_message(selector, timeout))))
        } else {
            WaitActionView::Sleep(POLL_INTERVAL_MS as nat)
        },
    }
}

impl Page {
    /// Navigates to a URL and waits for the page to load. `outcome` is what came of it, once it
    /// is known: an error by its text, which becomes the text of a navigation error.
    pub fn goto(url: &str, outcome: Option<Result<(), String>>) -> (r: Navigation)
        ensures
            match (outcome, r) {
                (None, Navigation::UntilLoaded(to)) => to@ == url@,
                (Some(Ok(())), Navigation::Finish(Ok(()))) => true,
                (Some(Err(text)), Navigation::Finish(Err(e))) => e@ == ErrorView::Navigation(text@),
                _ => false,
            },
    {
        match outcome {
            None => Navigation::UntilLoaded(url.to_string()),
            Some(Ok(())) => Navigation::Finish(Ok(())),
            Some(Err(text)) => Navigation::Finish(Err(Error::Navigation(text))),
        }
    }

    /// Reads the page's HTML: one script, whose reply is the HTML. A reply that is no string
    /// reads as the empty text.
    pub fn content(replies: &[Reply]) -> (r: Step<String>)
        ensures
            replies@.len() == 0 ==> r.asks(OUTER_HTML@),
            replies@.len() > 0 ==> r is Finish && r->Finish_0@ == content_text(replies@[0]@),
            replies@.len() > 0 && replies@[0]@ is Text ==> r->Finish_0@ == replies@[0]@->Text_0,
            replies@.len() > 0 && replies@[0]@ !is Text ==> r->Finish_0@.len() == 0,
    {
        if replies.len() == 0 {
            Step::Evaluate(OUTER_HTML.to_string())
        } else {
            Step::Finish(replies[0].text())
        }
    }

    /// Queries a single element by CSS selector: one script, whose reply is the element's node
    /// id. A reply that is no node id means that there is no such element.
    pub fn query_selector(selector: &str, replies: &[Reply]) -> (r: Step<Option<Element>>)
        ensures
            replies@.len() == 0 ==> r.asks(query_script(selector@)),
            replies@.len() > 0 ==> r == Step::Finish(found_element(replies@[0]@)),
            replies@.len() > 0 && replies@[0]@ is Unsigned ==> r->Finish_0 == Some(
                (Element { node_id: replies@[0]@->Unsigned_0 }),
            ),
            replies@.len() > 0 && replies@[0]@ is Null ==> r->Finish_0 is None,
    {
        if replies.len() == 0 {
            return Step::Evaluate(query(selector));
        }
        match replies[0].nid() {
            Some(node_id) => Step::Finish(Some(Element { node_id })),
            None => Step::Finish(None),
        }
    }

    /// Waits for a CSS selector to appear, looking every 100 milliseconds. `timeout` is in
    /// nanoseconds.
    pub fn wait_for_selector(selector: &str, timeout: u128, event: &WaitEvent) -> (r: WaitAction)
        ensures
            r@ == wait_next(selector@, timeout as nat, event@),
            *event is Elapsed && (*event)->Elapsed_0 <= timeout ==> r == WaitAction::Sleep(100),
            r is Sleep ==> *event is Elapsed && (*event)->Elapsed_0 <= timeout,
    {
        match event {
            WaitEvent::Begin | WaitEvent::Awake => WaitAction::Evaluate(query(selector)),
            WaitEvent::Replied(reply) => match reply.nid() {
                Some(node_id) => WaitAction::Finish(Ok(Element { node_id })),
                None => WaitAction::ReadClock,
            },
            WaitEvent::Elapsed(elapsed) => if *elapsed > timeout {
                let mut message = "wait_for_selector(".to_string();
                message.append(selector);
                message.append(") timed out after ");
                message.append(decimal(timeout / 1_000_000).as_str());
                message.append("ms");
                WaitAction::Finish(Err(Error::Timeout(message)))
            } else {
                WaitAction::Sleep(POLL_INTERVAL_MS)
            },
        }
    }
}

/// One look of a wait: what the script replied, and what the clock shows after it.
pub struct Look {
    /// The script's reply.
    pub reply: ReplyView,
    /// Nanoseconds since the wait began.
    pub elapsed: nat,
}

/// What a wait does after a look.
pub open spec fn after_look(selector: Seq<char>, timeout: nat, look: Look) -> WaitActionView {
    match wait_next(selector, timeout, WaitEventView::Replied(look.reply)) {
        WaitActionView::ReadClock => wait_next(
            selector,
            timeout,
            WaitEventView::Elapsed(look.elapsed),
        ),
        action => action,
    }
}

/// What a wait wants after so many looks: it wants to look again, or it is over.
pub open spec fn wait_run(
    selector: Seq<char>,
    timeout: nat,
    first: WaitEventView,
    looks: Seq<Look>,
) -> WaitActionView
    decreases looks.len(),
{
    if looks.len() == 0 {
        wait_next(selector, timeout, first)
    } else {
        match after_look(selector, timeout, looks[0]) {
            WaitActionView::Sleep(_) => wait_run(
                selector,
                timeout,
                WaitEventView::Awake,
                looks.skip(1),
            ),
            action => action,
        }
    }
}

/// A look that finds nothing, in time.
pub open spec fn misses_in_time(look: Look, timeout: nat) -> bool {
    found_element(look.reply) is None && look.elapsed <= timeout
}

/// A wait looks with the script that [`Page::query_selector`] asks for, and takes from a reply the
/// element that [`Page::query_selector`] takes.
pub proof fn a_wait_finds_what_a_query_finds(
    selector: Seq<char>,
    timeout: nat,
    reply: ReplyView,
    element: Element,
)
    ensures
        wait_next(selector, timeout, WaitEventView::Begin) == WaitActionView::Evaluate(
            query_script(selector),
        ),
        wait_next(selector, timeout, WaitEventView::Awake) == WaitActionView::Evaluate(
            query_script(selector),
        ),
        wait_next(selector, timeout, WaitEventView::Replied(reply)) == WaitActionView::Finish(
            Ok::<Element, ErrorView>(element),
        ) <==> found_element(reply) == Some(element),
{
}

/// The content of the page is the string that the script replies, the whole of it, and empty for
/// any other reply. The script comes first.
pub proof fn a_pages_content_is_the_reply(replies: &[Reply], r: Step<String>)
    requires
        call_ensures(Page::content, (replies,), r),
    ensures
        replies@.len() == 0 ==> r is Evaluate && r->Evaluate_0@
            == "document.documentElement.outerHTML"@,
        replies@.len() > 0 ==> r is Finish,
        replies@.len() > 0 && replies@[0] is Text ==> r->Finish_0@ == replies@[0]->Text_0@,
        replies@.len() > 0 && replies@[0] !is Text ==> r->Finish_0@.len() == 0,
{
}

/// A navigation goes to the URL that it was given, and ends as it turned out: well, or with an
/// error that keeps the text.
pub proof fn a_navigation_goes_where_it_was_sent(
    url: &str,
    outcome: Option<Result<(), String>>,
    r: Navigation,
)
    requires
        call_ensures(Page::goto, (url, outcome), r),
    ensures
        outcome is None ==> r is UntilLoaded && r->UntilLoaded_0@ == url@,
        outcome is Some ==> r is Finish && (r->Finish_0 is Ok <==> outcome->Some_0 is Ok),
        outcome is Some && outcome->Some_0 is Err ==> r->Finish_0->Err_0 is Navigation
            && r->Finish_0->Err_0->Navigation_0@ == outcome->Some_0->Err_0@,
{
}

/// A query asks for the script that [`query`] writes, and finds the element whose node id
/// [`Reply::nid`] reads from the reply.
pub proof fn a_query_finds_the_replied_node(
    selector: &str,
    replies: &[Reply],
    r: Step<Option<Element>>,
    script: String,
    node_id: Option<u64>,
)
    requires
        call_ensures(Page::query_selector, (selector, replies), r),
        call_ensures(query, (selector,), script),
        replies@.len() > 0 ==> call_ensures(Reply::nid, (&replies@[0],), node_id),
    ensures
        replies@.len() == 0 ==> r is Evaluate && r->Evaluate_0@ == script@,
        replies@.len() > 0 ==> r is Finish && (r->Finish_0 is Some <==> node_id is Some),
        replies@.len() > 0 && node_id is Some ==> r->Finish_0->Some_0.node_id == node_id->Some_0,
{
}

/// What a look has found is the node whose id the reply holds: an unsigned number is that id, and
/// there is nothing where the reply is no number.
pub proof fn an_unsigned_reply_is_the_node_found(n: u64, reply: ReplyView)
    ensures
        found_element(ReplyView::Unsigned(n)) is Some,
        found_element(ReplyView::Unsigned(n))->Some_0.node_id == n,
        found_element(reply) is Some ==> reply is Unsigned || reply is Float,
        found_element(reply) is Some <==> content_nid(reply) is Some,
        found_element(reply) is Some ==> Some(found_element(reply)->Some_0.node_id) == content_nid(
            reply,
        ),
{
}

/// Between two looks a wait sleeps for 100 milliseconds, whatever the selector, the timeout and
/// the time that has gone by, as long as that is not over the timeout; and it sleeps at no other
/// moment.
pub proof fn a_wait_sleeps_for_100_milliseconds(
    selector: Seq<char>,
    timeout: nat,
    elapsed: nat,
    event: WaitEventView,
)
    ensures
        elapsed <= timeout ==> wait_next(selector, timeout, WaitEventView::Elapsed(elapsed))
            == WaitActionView::Sleep(100),
        wait_next(selector, timeout, event) is Sleep ==> event is Elapsed && event->Elapsed_0
            <= timeout,
{
}

/// What a wait that was in vain says: its message names the selector, and the timeout in whole
/// milliseconds, in decimal.
pub proof fn a_wait_in_vain_says_for_what_and_how_long(
    selector: Seq<char>,
    timeout: nat,
    elapsed: nat,
)
    requires
        elapsed > timeout,
    ensures
        ({
            let action = wait_next(selector, timeout, WaitEventView::Elapsed(elapsed));
            let message = action->Finish_0->Err_0->Timeout_0;
            let head = "wait_for_selector("@;
            let middle = ") timed out after "@;
            let named = head.len() + selector.len();
            let open = named + middle.len();
            let end = message.len() - 2;
            let digits = message.subrange(open as int, end);
            &&& action is Finish && action->Finish_0 is Err && action->Finish_0->Err_0 is Timeout
            &&& open < end
            &&& message.take(head.len() as int) == head
            &&& message.subrange(head.len() as int, named as int) == selector
            &&& message.subrange(named as int, open as int) == middle
            &&& forall|i: int| 0 <= i < digits.len() ==> '0' <= #[trigger] digits[i] <= '9'
            &&& digits.len() > 1 ==> digits[0] != '0'
            &&& numeral_value(digits) * 1_000_000 <= timeout < (numeral_value(digits) + 1)
                * 1_000_000
            &&& message.skip(end) == "ms"@
        }),
{
    reveal_strlit("ms");
    let message = timeout_message(selector, timeout);
    let head = "wait_for_selector("@;
    let middle = ") timed out after "@;
    let named = (head.len() + selector.len()) as int;
    let open = named + middle.len();
    let end = message.len() - 2;
    let number = timeout / 1_000_000;
    numerals_are_digits(number);
    numerals_are_read_back(number);
    numerals_have_no_leading_zero(number);
    assert(message.take(head.len() as int) =~= head);
    assert(message.subrange(head.len() as int, named) =~= selector);
    assert(message.subrange(named, open) =~= middle);
    assert(message.subrange(open, end) =~= numeral(number));
    assert(message.skip(end) =~= "ms"@);
}

/// A wait in steps: it looks when it begins and after a sleep, with the script that [`query`]
/// writes; a look that has found a node ends it with that node, and any other sends it to the
/// clock; it gives up if and only if the clock shows more than the timeout.
pub proof fn a_wait_goes_step_by_step(
    selector: &str,
    timeout: u128,
    event: &WaitEvent,
    r: WaitAction,
    script: String,
    node_id: Option<u64>,
)
    requires
        call_ensures(Page::wait_for_selector, (selector, timeout, event), r),
        call_ensures(query, (selector,), script),
        *event is Replied ==> call_ensures(Reply::nid, (&(*event)->Replied_0,), node_id),
    ensures
        *event is Begin || *event is Awake ==> r is Evaluate && r->Evaluate_0@ == script@,
        *event is Replied && node_id is Some ==> r is Finish && r->Finish_0 is Ok
            && r->Finish_0->Ok_0.node_id == node_id->Some_0,
        *event is Replied && node_id is None ==> r is ReadClock,
        *event is Elapsed && (*event)->Elapsed_0 <= timeout ==> r is Sleep && r->Sleep_0 == 100,
        *event is Elapsed && (*event)->Elapsed_0 > timeout ==> r is Finish && r->Finish_0 is Err
            && r->Finish_0->Err_0 is Timeout && r->Finish_0->Err_0->Timeout_0@ == timeout_message(
            selector@,
            timeout as nat,
        ),
{
}

/// A wait goes by its timeout alone: the later of two readings of the clock never lets it go on
/// where the earlier ends it, and a longer timeout never ends it where a shorter lets it go on.
pub proof fn a_wait_never_ends_early(
    selector: Seq<char>,
    timeout: nat,
    elapsed: nat,
    longer: nat,
    earlier: nat,
)
    requires
        wait_next(selector, timeout, WaitEventView::Elapsed(elapsed)) is Sleep,
        timeout <= longer,
        earlier <= elapsed,
    ensures
        elapsed <= timeout,
        wait_next(selector, longer, WaitEventView::Elapsed(earlier)) == wait_next(
            selector,
            timeout,
            WaitEventView::Elapsed(elapsed),
        ),
{
}

/// An event's content is what has happened, and an action's content is what is to be done.
pub proof fn waits_keep_what_they_hold(event: WaitEvent, action: WaitAction)
    ensures
        event is Begin <==> event@ is Begin,
        event is Awake <==> event@ is Awake,
        event is Replied ==> event@ == WaitEventView::Replied(event->Replied_0@),
        event is Elapsed ==> event@ == WaitEventView::Elapsed(event->Elapsed_0 as nat),
        action is Evaluate ==> action@ == WaitActionView::Evaluate(action->Evaluate_0@),
        action is ReadClock <==> action@ is ReadClock,
        action is Sleep ==> action@ == WaitActionView::Sleep(action->Sleep_0 as nat),
        action is Finish ==> action@ is Finish,
        action is Finish && action->Finish_0 is Ok ==> action@->Finish_0 == Ok::<
            Element,
            ErrorView,
        >(action->Finish_0->Ok_0),
        action is Finish && action->Finish_0 is Err ==> action@->Finish_0 == Err::<
            Element,
            ErrorView,
        >(action->Finish_0->Err_0@),
{
}

/// While no look finds the element and the time is not over, the wait goes on.
pub proof fn a_wait_goes_on_until_its_time_is_over(
    selector: Seq<char>,
    timeout: nat,
    looks: Seq<Look>,
)
    requires
        forall|i: int| 0 <= i < looks.len() ==> misses_in_time(#[trigger] looks[i], timeout),
    ensures
        wait_run(selector, timeout, WaitEventView::Begin, looks) == WaitActionView::Evaluate(
            query_script(selector),
        ),
{
    lemma_misses_are_passed_over(
        selector,
        timeout,
        WaitEventView::Begin,
        looks,
        Seq::empty(),
    );
    assert(looks + Seq::<Look>::empty() =~= looks);
}

/// The first look that finds the element ends the wait with it, even if the time is over by
/// then.
pub proof fn a_wait_ends_with_the_element_once_found(
    selector: Seq<char>,
    timeout: nat,
    looks: Seq<Look>,
    found: Look,
    later: Seq<Look>,
)
    requires
        forall|i: int| 0 <= i < looks.len() ==> misses_in_time(#[trigger] looks[i], timeout),
        found_element(found.reply) is Some,
    ensures
        wait_run(selector, timeout, WaitEventView::Begin, looks + (seq![found] + later))
            == WaitActionView::Finish(
            Ok::<Element, ErrorView>(found_element(found.reply)->Some_0),
        ),
{
    lemma_misses_are_passed_over(
        selector,
        timeout,
        WaitEventView::Begin,
        looks,
        seq![found] + later,
    );
    assert((seq![found] + later)[0] == found);
}

/// The first look that finds nothing when the time is over ends the wait with a timeout.
pub proof fn a_wait_ends_when_its_time_is_over(
    selector: Seq<char>,
    timeout: nat,
    looks: Seq<Look>,
    late: Look,
    later: Seq<Look>,
)
    requires
        forall|i: int| 0 <= i < looks.len() ==> misses_in_time(#[trigger] looks[i], timeout),
        found_element(late.reply) is None,
        late.elapsed > timeout,
    ensures
        wait_run(selector, timeout, WaitEventView::Begin, looks + (seq![late] + later))
            == WaitActionView::Finish(
            Err::<Element, ErrorView>(ErrorView::Timeout(timeout_message(selector, timeout))),
        ),
{
    lemma_misses_are_passed_over(
        selector,
        timeout,
        WaitEventView::Begin,
        looks,
        seq![late] + later,
    );
    assert((seq![late] + later)[0] == late);
}

/// The time that a wait sleeps between two looks, in nanoseconds.
pub open spec fn poll_interval_nanos() -> nat {
    POLL_INTERVAL_MS as nat * 1_000_000
}

/// A wait comes to an end: where every look comes at least one sleep after the look before, a wait
/// that is not over has looked at most once more than its timeout holds sleeps.
pub proof fn a_wait_comes_to_an_end(selector: Seq<char>, timeout: nat, looks: Seq<Look>)
    requires
        forall|i: int|
            0 <= i < looks.len() ==> (#[trigger] looks[i]).elapsed >= i * poll_interval_nanos(),
        wait_run(selector, timeout, WaitEventView::Begin, looks) is Evaluate,
    ensures
        looks.len() <= timeout / poll_interval_nanos() + 1,
{
    if looks.len() > 0 {
        let last = looks.len() - 1;
        lemma_looks_of_a_wait_that_goes_on(selector, timeout, WaitEventView::Begin, looks);
        assert(misses_in_time(looks[last], timeout));
        assert(poll_interval_nanos() == 100_000_000);
        assert(last * 100_000_000 <= timeout);
        assert(timeout / poll_interval_nanos() == timeout / 100_000_000);
    }
}

/// A wait that is not over has missed in time at every look.
proof fn lemma_looks_of_a_wait_that_goes_on(
    selector: Seq<char>,
    timeout: nat,
    first: WaitEventView,
    looks: Seq<Look>,
)
    requires
        wait_run(selector, timeout, first, looks) is Evaluate,
    ensures
        forall|i: int| 0 <= i < looks.len() ==> misses_in_time(#[trigger] looks[i], timeout),
    decreases looks.len(),
{
    if looks.len() > 0 {
        let tail = looks.skip(1);
        lemma_looks_of_a_wait_that_goes_on(selector, timeout, WaitEventView::Awake, tail);
        assert forall|i: int| 0 <= i < looks.len() implies misses_in_time(
            #[trigger] looks[i],
            timeout,
        ) by {
            if i > 0 {
                assert(misses_in_time(tail[i - 1], timeout));
            }
        }
    }
}

proof fn lemma_misses_are_passed_over(
    selector: Seq<char>,
    timeout: nat,
    first: WaitEventView,
    looks: Seq<Look>,
    later: Seq<Look>,
)
    requires
        forall|i: int| 0 <= i < looks.len() ==> misses_in_time(#[trigger] looks[i], timeout),
        first is Begin || first is Awake,
    ensures
        wait_run(selector, timeout, first, looks + later) == wait_run(
            selector,
            timeout,
            WaitEventView::Begin,
            later,
        ),
    decreases looks.len(),
{
    if looks.len() == 0 {
        assert(looks + later =~= later);
    } else {
        assert((looks + later)[0] == looks[0]);
        assert((looks + later).skip(1) =~= looks.skip(1) + later);
        assert forall|i: int| 0 <= i < looks.skip(1).len() implies misses_in_time(
            #[trigger] looks.skip(1)[i],
            timeout,
        ) by {
            assert(misses_in_time(looks[i + 1], timeout));
        }
        lemma_misses_are_passed_over(
            selector,
            timeout,
            WaitEventView::Awake,
            looks.skip(1),
            later,
        );
    }
}

} // verus!
