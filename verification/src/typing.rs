//! Typing text key by key.

use vstd::prelude::*;

use crate::decimal::numeral;
use crate::json::{json_literal, json_string};
use crate::keyboard::{key_code, keycode_with_shift, needs_shift};
use crate::script::{
    bool_word, insert, insert_script, key_name, key_script, INSERT_HEAD, INSERT_MIDDLE,
    INSERT_TAIL, KEYDOWN_HEAD, KEYUP_HEAD, KEY_CODE, KEY_SHIFT, KEY_TAIL, SHIFT_DOWN, SHIFT_UP,
};

verus! {

/// The content of a [`TypingAction`].
pub enum TypingActionView {
    /// Evaluate a script.
    Evaluate(Seq<char>),
    /// Wait for a short while.
    Pause,
}

/// One thing to do while text is typed.
#[derive(Debug)]
pub enum TypingAction {
    /// Evaluate a script in the page; what it returns does not matter.
    Evaluate(String),
    /// Wait for as long as [`typing_delay_ms`] says.
    Pause,
}

impl View for TypingAction {
    type V = TypingActionView;

    open spec fn view(&self) -> TypingActionView {
        match self {
            TypingAction::Evaluate(s) => TypingActionView::Evaluate(s@),
            TypingAction::Pause => TypingActionView::Pause,
        }
    }
}

/// The contents of a run of actions.
pub open spec fn contents(actions: Seq<TypingAction>) -> Seq<TypingActionView> {
    actions.map_values(|a: TypingAction| a@)
}

/// The actions that bring Shift from `held` to `wanted`.
pub open spec fn shift_change(held: bool, wanted: bool) -> Seq<TypingActionView> {
    if wanted && !held {
        seq![TypingActionView::Evaluate(SHIFT_DOWN@)]
    } else if held && !wanted {
        seq![TypingActionView::Evaluate(SHIFT_UP@)]
    } else {
        Seq::empty()
    }
}

/// The actions that type `c` into an element, Shift being as `c` needs it: the key goes down, the
/// character is inserted, the key goes up, and a pause follows.
pub open spec fn key_stroke(node_id: u64, c: char) -> Seq<TypingActionView> {
    seq![
        TypingActionView::Evaluate(key_script(KEYDOWN_HEAD@, c)),
        TypingActionView::Evaluate(insert_script(node_id, seq![c])),
        TypingActionView::Evaluate(key_script(KEYUP_HEAD@, c)),
        TypingActionView::Pause,
    ]
}

/// Whether Shift is held after `text` has been typed from a state in which it is not.
pub open spec fn shift_after(text: Seq<char>) -> bool {
    text.len() > 0 && needs_shift(text.last())
}

/// The actions that type `text`, up to the last character's pause.
pub open spec fn key_strokes(node_id: u64, text: Seq<char>) -> Seq<TypingActionView>
    decreases text.len(),
{
    if text.len() == 0 {
        Seq::empty()
    } else {
        key_strokes(node_id, text.drop_last()) + shift_change(
            shift_after(text.drop_last()),
            needs_shift(text.last()),
        ) + key_stroke(node_id, text.last())
    }
}

/// All the actions that type `text`: in the end Shift is released if it is held.
pub open spec fn typing_actions(node_id: u64, text: Seq<char>) -> Seq<TypingActionView> {
    key_strokes(node_id, text) + shift_change(shift_after(text), false)
}

fn one_character(c: char) -> (r: String)
    ensures
        r@ == seq![c],
{
    let mut s = String::new();
    s.push(c);
    assert(s@ =~= seq![c]);
    s
}

fn name_of_key(c: char) -> (r: String)
    ensures
        r@ == key_name(c),
{
    match c {
        '\n' | '\r' => "Enter".to_string(),
        '\t' => "Tab".to_string(),
        other => one_character(other),
    }
}

fn key_event(head: &str, key_json: &str, code_json: &str, shift: bool) -> (r: String)
    ensures
        r@ == head@ + key_json@ + KEY_CODE@ + code_json@ + KEY_SHIFT@ + bool_word(shift)
            + KEY_TAIL@,
{
    let mut s = head.to_string();
    s.append(key_json);
    s.append(KEY_CODE);
    s.append(code_json);
    s.append(KEY_SHIFT);
    s.append(if shift { "true" } else { "false" });
    s.append(KEY_TAIL);
    s
}

/// Appends one action to a run of actions.
fn append_action(actions: &mut Vec<TypingAction>, action: TypingAction)
    ensures
        contents(final(actions)@) == contents(old(actions)@).push(action@),
{
    let ghost before = contents(actions@);
    actions.push(action);
    assert(contents(actions@) =~= before.push(action@));
}

/// Plans the typing of a text into an element.
pub fn plan_typing(node_id: u64, text: &str) -> (r: Vec<TypingAction>)
    ensures
        contents(r@) == typing_actions(node_id, text@),
{
    let mut actions: Vec<TypingAction> = Vec::new();
    let mut is_shifted = false;
    assert(text@.take(0) =~= Seq::<char>::empty());
    assert(contents(actions@) =~= Seq::<TypingActionView>::empty());
    for c in it: text.chars()
        invariant
            it.seq() == text@,
            contents(actions@) == key_strokes(node_id, text@.take(it.index() as int)),
            is_shifted == shift_after(text@.take(it.index() as int)),
    {
        let ghost typed = text@.take(it.index() as int);
        let ghost now = text@.take(it.index() as int + 1);
        let ghost before = contents(actions@);
        proof {
            assert(now.drop_last() =~= typed);
            assert(now.last() == c);
        }
        let (code, shift) = keycode_with_shift(c);
        let key_json = json_string(name_of_key(c).as_str());
        let code_json = json_string(code);
        match (is_shifted, shift) {
            (false, true) => {
                append_action(&mut actions, TypingAction::Evaluate(SHIFT_DOWN.to_string()));
                is_shifted = true;
            },
            (true, false) => {
                append_action(&mut actions, TypingAction::Evaluate(SHIFT_UP.to_string()));
                is_shifted = false;
            },
            _ => {},
        }
        assert(contents(actions@) =~= before + shift_change(shift_after(typed), needs_shift(c)));
        let ghost ready = contents(actions@);
        let down = key_event(KEYDOWN_HEAD, key_json.as_str(), code_json.as_str(), shift);
        append_action(&mut actions, TypingAction::Evaluate(down));
        let inserted = insert(node_id, one_character(c).as_str());
        append_action(&mut actions, TypingAction::Evaluate(inserted));
        let up = key_event(KEYUP_HEAD, key_json.as_str(), code_json.as_str(), shift);
        append_action(&mut actions, TypingAction::Evaluate(up));
        append_action(&mut actions, TypingAction::Pause);
        assert(contents(actions@) =~= ready + key_stroke(node_id, c));
    }
    assert(text@.take(text@.len() as int) =~= text@);
    let ghost before = contents(actions@);
    if is_shifted {
        append_action(&mut actions, TypingAction::Evaluate(SHIFT_UP.to_string()));
    }
    assert(contents(actions@) =~= before + shift_change(shift_after(text@), false));
    actions
}

/// The length of a pause: 40 milliseconds, and up to 99 more that the clock decides.
pub open spec fn delay_ms(subsec_nanos: Option<u32>) -> int {
    40 + (match subsec_nanos {
        Some(n) => n as int,
        None => 0,
    }) % 100
}

/// How long a pause lasts, in milliseconds, given the nanoseconds of the second that the clock
/// shows, where it could be read.
pub fn typing_delay_ms(subsec_nanos: Option<u32>) -> (r: u64)
    ensures
        r == delay_ms(subsec_nanos),
{
    let jitter: u32 = match subsec_nanos {
        Some(n) => n,
        None => 0,
    };
    40 + (jitter % 100) as u64
}

/// Whether Shift is held after a run of actions, given whether it was before.
pub open spec fn shift_held(actions: Seq<TypingActionView>, before: bool) -> bool
    decreases actions.len(),
{
    if actions.len() == 0 {
        before
    } else if actions.last() == TypingActionView::Evaluate(SHIFT_DOWN@) {
        true
    } else if actions.last() == TypingActionView::Evaluate(SHIFT_UP@) {
        false
    } else {
        shift_held(actions.drop_last(), before)
    }
}

/// How many pauses a run of actions has.
pub open spec fn pauses(actions: Seq<TypingActionView>) -> nat
    decreases actions.len(),
{
    if actions.len() == 0 {
        0
    } else {
        pauses(actions.drop_last()) + if actions.last() is Pause {
            1nat
        } else {
            0
        }
    }
}

/// The scripts of a run of actions that insert text, in order.
pub open spec fn insertions(actions: Seq<TypingActionView>) -> Seq<Seq<char>>
    decreases actions.len(),
{
    if actions.len() == 0 {
        Seq::empty()
    } else {
        match actions.last() {
            TypingActionView::Evaluate(script) if INSERT_HEAD@.is_prefix_of(script) => insertions(
                actions.drop_last(),
            ).push(script),
            _ => insertions(actions.drop_last()),
        }
    }
}

/// When a text has been typed, Shift is not held.
pub proof fn shift_is_released_in_the_end(node_id: u64, text: Seq<char>)
    ensures
        !shift_held(typing_actions(node_id, text), false),
{
    lemma_shift_after(node_id, text);
    lemma_shift_change(key_strokes(node_id, text), shift_after(text), false, false);
}

/// When a character's key goes down, all that was typed before it has been typed, and Shift is
/// held if and only if the character needs it. From then on the key goes down, the character is
/// inserted and the key goes up.
pub proof fn each_key_finds_shift_as_it_needs_it(
    node_id: u64,
    before: Seq<char>,
    c: char,
    after: Seq<char>,
)
    ensures
        ({
            let lead = key_strokes(node_id, before) + shift_change(
                shift_after(before),
                needs_shift(c),
            );
            let all = typing_actions(node_id, before.push(c) + after);
            &&& (lead + key_stroke(node_id, c)).is_prefix_of(all)
            &&& shift_held(lead, false) == needs_shift(c)
        }),
{
    lemma_shift_after(node_id, before);
    lemma_shift_change(key_strokes(node_id, before), shift_after(before), needs_shift(c), false);
    let typed = before.push(c);
    assert(typed.drop_last() =~= before);
    lemma_key_strokes_prefix(node_id, typed, after);
    assert(key_strokes(node_id, typed).is_prefix_of(typing_actions(node_id, typed + after)));
}

/// Every insertion stands between the press and the release of its key: the action right before it
/// is a script that begins with [`KEYDOWN_HEAD`], the action right after it one that begins with
/// [`KEYUP_HEAD`] and says the same of the key, and then comes a pause.
pub proof fn insertions_stand_between_press_and_release(node_id: u64, text: Seq<char>, i: int)
    requires
        0 <= i < typing_actions(node_id, text).len(),
        typing_actions(node_id, text)[i] is Evaluate,
        INSERT_HEAD@.is_prefix_of(typing_actions(node_id, text)[i]->Evaluate_0),
    ensures
        ({
            let actions = typing_actions(node_id, text);
            let down = actions[i - 1]->Evaluate_0;
            let up = actions[i + 1]->Evaluate_0;
            &&& 0 < i && i + 2 < actions.len()
            &&& actions[i - 1] is Evaluate && KEYDOWN_HEAD@.is_prefix_of(down)
            &&& actions[i + 1] is Evaluate && KEYUP_HEAD@.is_prefix_of(up)
            &&& down.skip(KEYDOWN_HEAD@.len() as int) == up.skip(KEYUP_HEAD@.len() as int)
            &&& actions[i + 2] is Pause
        }),
{
    let strokes = key_strokes(node_id, text);
    lemma_shift_scripts_stand_apart(node_id, 'a');
    assert(i < strokes.len());
    lemma_insertions_among_strokes(node_id, text, i);
}

/// What [`plan_typing`] plans has every insertion between a script that begins with
/// [`KEYDOWN_HEAD`] and one that begins with [`KEYUP_HEAD`], and a pause after that.
pub proof fn plans_press_insert_and_release(
    node_id: u64,
    text: &str,
    plan: Vec<TypingAction>,
    i: int,
)
    requires
        call_ensures(plan_typing, (node_id, text), plan),
        0 <= i < plan@.len(),
        plan@[i] is Evaluate,
        INSERT_HEAD@.is_prefix_of(plan@[i]->Evaluate_0@),
    ensures
        0 < i,
        i + 2 < plan@.len(),
        plan@[i - 1] is Evaluate,
        KEYDOWN_HEAD@.is_prefix_of(plan@[i - 1]->Evaluate_0@),
        plan@[i + 1] is Evaluate,
        KEYUP_HEAD@.is_prefix_of(plan@[i + 1]->Evaluate_0@),
        plan@[i + 2] is Pause,
{
    let actions = contents(plan@);
    assert(actions[i] == plan@[i]@);
    insertions_stand_between_press_and_release(node_id, text@, i);
    assert(actions[i - 1] == plan@[i - 1]@);
    assert(actions[i + 1] == plan@[i + 1]@);
    assert(actions[i + 2] == plan@[i + 2]@);
}

/// What [`plan_typing`] plans inserts every character of the text into the element, in order, pauses
/// once for each, and leaves Shift released.
pub proof fn plans_type_the_text(node_id: u64, text: &str, plan: Vec<TypingAction>)
    requires
        call_ensures(plan_typing, (node_id, text), plan),
    ensures
        insertions(contents(plan@)) == text@.map_values(
            |c: char| insert_script(node_id, seq![c]),
        ),
        pauses(contents(plan@)) == text@.len(),
        !shift_held(contents(plan@), false),
        text@.len() == 0 ==> plan@.len() == 0,
{
    text_is_inserted_as_it_is(node_id, text@);
    one_pause_for_every_character(node_id, text@);
    shift_is_released_in_the_end(node_id, text@);
    assert(contents(plan@).len() == plan@.len());
}

/// Nothing is done to type no text, and one more character takes these actions at the end: Shift is
/// pressed where the character needs it and it is not held, and not released where it is held and
/// needed; the key goes down, the character goes into the element, the key goes up, and a pause
/// follows; and Shift is released if it is then held.
pub proof fn one_more_character_takes_one_more_stroke(node_id: u64, text: Seq<char>, c: char)
    ensures
        typing_actions(node_id, Seq::empty()).len() == 0,
        ({
            let typed = typing_actions(node_id, text);
            let held = text.len() > 0 && needs_shift(text.last());
            let release = TypingActionView::Evaluate(SHIFT_UP@);
            let lead = if held && needs_shift(c) {
                typed.drop_last()
            } else if needs_shift(c) {
                typed.push(TypingActionView::Evaluate(SHIFT_DOWN@))
            } else {
                typed
            };
            let key = json_literal(key_name(c)) + ",code:"@ + json_literal(key_code(c))
                + ",shiftKey:"@ + (if needs_shift(c) {
                "true"@
            } else {
                "false"@
            }) + "}))); })()"@;
            let stroke = lead.push(TypingActionView::Evaluate(KEYDOWN_HEAD@ + key)).push(
                TypingActionView::Evaluate(
                    INSERT_HEAD@ + numeral(node_id as nat) + INSERT_MIDDLE@ + json_literal(seq![c])
                        + INSERT_TAIL@,
                ),
            ).push(TypingActionView::Evaluate(KEYUP_HEAD@ + key)).push(TypingActionView::Pause);
            &&& held ==> typed.len() > 0 && typed.last() == release
            &&& typing_actions(node_id, text.push(c)) == if needs_shift(c) {
                stroke.push(release)
            } else {
                stroke
            }
        }),
{
    let typed = typing_actions(node_id, text);
    let strokes = key_strokes(node_id, text);
    let held = shift_after(text);
    let change = shift_change(held, needs_shift(c));
    let stroke = key_stroke(node_id, c);
    let more = text.push(c);
    let key = json_literal(key_name(c)) + KEY_CODE@ + json_literal(key_code(c)) + KEY_SHIFT@
        + bool_word(needs_shift(c)) + KEY_TAIL@;
    assert(more.drop_last() =~= text);
    assert(more.last() == c);
    assert(key_script(KEYDOWN_HEAD@, c) =~= KEYDOWN_HEAD@ + key);
    assert(key_script(KEYUP_HEAD@, c) =~= KEYUP_HEAD@ + key);
    if held {
        assert(typed =~= strokes.push(TypingActionView::Evaluate(SHIFT_UP@)));
        assert(typed.drop_last() =~= strokes);
    } else {
        assert(typed =~= strokes);
    }
    assert(typing_actions(node_id, more) =~= strokes + change + stroke + shift_change(
        needs_shift(c),
        false,
    ));
}

/// The plan for a text with one more character is the plan for the text, and then the character's
/// stroke, made of what [`keycode_with_shift`] says of the character, what [`json_string`] writes
/// for its name and its key, and what [`insert`] writes for it. In between Shift is pressed if the
/// character needs it and the last one did not; if both need it, its release moves to the end.
pub proof fn plans_grow_by_one_stroke(
    node_id: u64,
    text: &str,
    longer: &str,
    one: &str,
    name: &str,
    plan: Vec<TypingAction>,
    more: Vec<TypingAction>,
    last: (&'static str, bool),
    key: (&'static str, bool),
    name_json: String,
    code_json: String,
    insertion: String,
)
    requires
        longer@ == text@ + one@,
        one@.len() == 1,
        name@ == if one@[0] == '\n' || one@[0] == '\r' {
            "Enter"@
        } else if one@[0] == '\t' {
            "Tab"@
        } else {
            one@
        },
        call_ensures(plan_typing, (node_id, text), plan),
        call_ensures(plan_typing, (node_id, longer), more),
        text@.len() > 0 ==> call_ensures(keycode_with_shift, (text@.last(),), last),
        text@.len() == 0 ==> !last.1,
        call_ensures(keycode_with_shift, (one@[0],), key),
        call_ensures(json_string, (name,), name_json),
        call_ensures(json_string, (key.0,), code_json),
        call_ensures(insert, (node_id, one), insertion),
    ensures
        ({
            let typed = contents(plan@);
            let lead = if last.1 && key.1 {
                typed.drop_last()
            } else if key.1 {
                typed.push(TypingActionView::Evaluate(SHIFT_DOWN@))
            } else {
                typed
            };
            let event = name_json@ + ",code:"@ + code_json@ + ",shiftKey:"@ + (if key.1 {
                "true"@
            } else {
                "false"@
            }) + "}))); })()"@;
            let stroke = lead.push(TypingActionView::Evaluate(KEYDOWN_HEAD@ + event)).push(
                TypingActionView::Evaluate(insertion@),
            ).push(TypingActionView::Evaluate(KEYUP_HEAD@ + event)).push(TypingActionView::Pause);
            contents(more@) == if key.1 {
                stroke.push(TypingActionView::Evaluate(SHIFT_UP@))
            } else {
                stroke
            }
        }),
{
    let c = one@[0];
    one_more_character_takes_one_more_stroke(node_id, text@, c);
    assert(one@ =~= seq![c]);
    assert(longer@ =~= text@.push(c));
    assert(insertion@ =~= INSERT_HEAD@ + numeral(node_id as nat) + INSERT_MIDDLE@ + json_literal(
        seq![c],
    ) + INSERT_TAIL@);
}

/// The contents of a run of actions are the actions' contents, one for one, and an action's content
/// is the script that it evaluates, if it does.
pub proof fn contents_are_one_for_one(actions: Seq<TypingAction>, i: int)
    requires
        0 <= i < actions.len(),
    ensures
        contents(actions).len() == actions.len(),
        actions[i] is Evaluate ==> contents(actions)[i] == TypingActionView::Evaluate(
            actions[i]->Evaluate_0@,
        ),
        actions[i] is Pause ==> contents(actions)[i] == TypingActionView::Pause,
{
}

/// The text is inserted as it is: every character once, in their order.
pub proof fn text_is_inserted_as_it_is(node_id: u64, text: Seq<char>)
    ensures
        insertions(typing_actions(node_id, text)) == text.map_values(
            |c: char| insert_script(node_id, seq![c]),
        ),
{
    lemma_insertions_in_strokes(node_id, text);
    lemma_insertions_in_shift_change(key_strokes(node_id, text), shift_after(text), false);
}

/// Typing pauses once for every character.
pub proof fn one_pause_for_every_character(node_id: u64, text: Seq<char>)
    ensures
        pauses(typing_actions(node_id, text)) == text.len(),
{
    reveal_with_fuel(pauses, 2);
    lemma_pauses_in_strokes(node_id, text);
    let tail = shift_change(shift_after(text), false);
    if tail.len() > 0 {
        assert(typing_actions(node_id, text).drop_last() =~= key_strokes(node_id, text));
    } else {
        assert(typing_actions(node_id, text) =~= key_strokes(node_id, text));
    }
}

/// Where no character needs Shift, Shift is never touched.
pub proof fn unshifted_text_leaves_shift_alone(node_id: u64, text: Seq<char>)
    requires
        forall|i: int| 0 <= i < text.len() ==> !needs_shift(#[trigger] text[i]),
    ensures
        forall|i: int|
            #![trigger typing_actions(node_id, text)[i]]
            0 <= i < typing_actions(node_id, text).len() ==> typing_actions(node_id, text)[i]
                != TypingActionView::Evaluate(SHIFT_DOWN@) && typing_actions(node_id, text)[i]
                != TypingActionView::Evaluate(SHIFT_UP@),
    decreases text.len(),
{
    if text.len() > 0 {
        let before = text.drop_last();
        unshifted_text_leaves_shift_alone(node_id, before);
        assert(!needs_shift(text[text.len() - 1]));
        if before.len() > 0 {
            assert(!needs_shift(text[before.len() - 1]));
        }
        lemma_key_stroke_leaves_shift(node_id, text.last());
        assert(typing_actions(node_id, before) =~= key_strokes(node_id, before));
        assert(typing_actions(node_id, text) =~= key_strokes(node_id, before) + key_stroke(
            node_id,
            text.last(),
        ));
    }
}

/// The pause between two keys lasts from 40 to 139 milliseconds.
pub proof fn pauses_are_short(subsec_nanos: Option<u32>)
    ensures
        40 <= delay_ms(subsec_nanos) <= 139,
{
}

/// The pause lasts 40 milliseconds where the clock could not be read, and else as many more as the
/// last two decimal digits of what it shows say.
pub proof fn pauses_go_by_the_clock(
    hundreds: u32,
    rest: u32,
    nanos: u32,
    read: u64,
    unread: u64,
)
    requires
        rest < 100,
        nanos == hundreds * 100 + rest,
        call_ensures(typing_delay_ms, (Some(nanos),), read),
        call_ensures(typing_delay_ms, (None,), unread),
    ensures
        unread == 40,
        read == unread + rest,
{
}

/// The scripts that press and release Shift differ from each other and from all scripts that
/// press, insert or release another key, and only an insertion begins as one.
proof fn lemma_shift_scripts_stand_apart(node_id: u64, c: char)
    ensures
        SHIFT_DOWN@ != SHIFT_UP@,
        key_script(KEYDOWN_HEAD@, c) != SHIFT_DOWN@,
        key_script(KEYDOWN_HEAD@, c) != SHIFT_UP@,
        key_script(KEYUP_HEAD@, c) != SHIFT_DOWN@,
        key_script(KEYUP_HEAD@, c) != SHIFT_UP@,
        insert_script(node_id, seq![c]) != SHIFT_DOWN@,
        insert_script(node_id, seq![c]) != SHIFT_UP@,
        INSERT_HEAD@.is_prefix_of(insert_script(node_id, seq![c])),
        !INSERT_HEAD@.is_prefix_of(SHIFT_DOWN@),
        !INSERT_HEAD@.is_prefix_of(SHIFT_UP@),
        !INSERT_HEAD@.is_prefix_of(key_script(KEYDOWN_HEAD@, c)),
        !INSERT_HEAD@.is_prefix_of(key_script(KEYUP_HEAD@, c)),
{
    reveal_strlit("(function() { var t = document.activeElement; if (t) t.dispatchEvent(globalThis.__obscura_markTrusted(new KeyboardEvent('keydown', {bubbles:true,cancelable:true,key:'Shift',code:'ShiftLeft',shiftKey:true,location:1}))); })()");
    reveal_strlit("(function() { var t = document.activeElement; if (t) t.dispatchEvent(globalThis.__obscura_markTrusted(new KeyboardEvent('keyup', {bubbles:true,cancelable:true,key:'Shift',code:'ShiftLeft',shiftKey:false,location:1}))); })()");
    reveal_strlit("(function() { var t = document.activeElement; if (t) t.dispatchEvent(globalThis.__obscura_markTrusted(new KeyboardEvent('keydown', {bubbles:true,cancelable:true,key:");
    reveal_strlit("(function() { var t = document.activeElement; if (t) t.dispatchEvent(globalThis.__obscura_markTrusted(new KeyboardEvent('keyup', {bubbles:true,cancelable:true,key:");
    reveal_strlit("(function() {\
    var t = globalThis._wrap && globalThis._wrap(");
    let down = key_script(KEYDOWN_HEAD@, c);
    let up = key_script(KEYUP_HEAD@, c);
    let insertion = insert_script(node_id, seq![c]);
    // An insertion begins with no space after the brace.
    assert(INSERT_HEAD@[13] == 'v' && insertion[13] == 'v');
    assert(down[13] == ' ' && up[13] == ' ' && SHIFT_DOWN@[13] == ' ' && SHIFT_UP@[13] == ' ');
    // A press is told from a release by the event's name.
    assert(down[124] == 'd' && SHIFT_DOWN@[124] == 'd');
    assert(up[124] == 'u' && SHIFT_UP@[124] == 'u');
    // Shift's name stands in single quotes, every other key's in double quotes.
    assert(KEYDOWN_HEAD@.len() == 165 && down[165] == '"' && SHIFT_DOWN@[165] == '\'');
    assert(KEYUP_HEAD@.len() == 163 && up[163] == '"' && SHIFT_UP@[163] == '\'');
}

proof fn lemma_key_stroke_leaves_shift(node_id: u64, c: char)
    ensures
        forall|i: int|
            #![trigger key_stroke(node_id, c)[i]]
            0 <= i < 4 ==> key_stroke(node_id, c)[i] != TypingActionView::Evaluate(SHIFT_DOWN@)
                && key_stroke(node_id, c)[i] != TypingActionView::Evaluate(SHIFT_UP@),
{
    lemma_shift_scripts_stand_apart(node_id, c);
}

/// A key stroke leaves Shift as it is.
proof fn lemma_shift_through_key_stroke(
    node_id: u64,
    actions: Seq<TypingActionView>,
    c: char,
    before: bool,
)
    ensures
        shift_held(actions + key_stroke(node_id, c), before) == shift_held(actions, before),
{
    lemma_key_stroke_leaves_shift(node_id, c);
    let stroke = key_stroke(node_id, c);
    let all = actions + stroke;
    assert(all.last() == stroke[3]);
    assert(all.drop_last().last() == stroke[2]);
    assert(all.drop_last().drop_last().last() == stroke[1]);
    assert(all.drop_last().drop_last().drop_last().last() == stroke[0]);
    assert(all.drop_last().drop_last().drop_last().drop_last() =~= actions);
    reveal_with_fuel(shift_held, 5);
}

/// A change of Shift brings it to what is wanted.
proof fn lemma_shift_change(
    actions: Seq<TypingActionView>,
    held: bool,
    wanted: bool,
    before: bool,
)
    requires
        shift_held(actions, before) == held,
    ensures
        shift_held(actions + shift_change(held, wanted), before) == wanted,
{
    lemma_shift_scripts_stand_apart(0, 'a');
    let change = shift_change(held, wanted);
    if change.len() > 0 {
        assert((actions + change).last() == change[0]);
    } else {
        assert(actions + change =~= actions);
    }
}

/// `shift_after` is what the actions leave.
proof fn lemma_shift_after(node_id: u64, text: Seq<char>)
    ensures
        shift_held(key_strokes(node_id, text), false) == shift_after(text),
    decreases text.len(),
{
    if text.len() > 0 {
        let before = text.drop_last();
        lemma_shift_after(node_id, before);
        lemma_shift_change(
            key_strokes(node_id, before),
            shift_after(before),
            needs_shift(text.last()),
            false,
        );
        lemma_shift_through_key_stroke(
            node_id,
            key_strokes(node_id, before) + shift_change(
                shift_after(before),
                needs_shift(text.last()),
            ),
            text.last(),
            false,
        );
    }
}

/// Typing more text begins with typing the text.
proof fn lemma_key_strokes_prefix(node_id: u64, text: Seq<char>, more: Seq<char>)
    ensures
        key_strokes(node_id, text).is_prefix_of(key_strokes(node_id, text + more)),
    decreases more.len(),
{
    if more.len() == 0 {
        assert(text + more =~= text);
    } else {
        lemma_key_strokes_prefix(node_id, text, more.drop_last());
        assert((text + more).drop_last() =~= text + more.drop_last());
    }
}

proof fn lemma_insertions_in_shift_change(
    actions: Seq<TypingActionView>,
    held: bool,
    wanted: bool,
)
    ensures
        insertions(actions + shift_change(held, wanted)) == insertions(actions),
{
    lemma_shift_scripts_stand_apart(0, 'a');
    let change = shift_change(held, wanted);
    if change.len() > 0 {
        assert((actions + change).last() == change[0]);
        assert((actions + change).drop_last() =~= actions);
    } else {
        assert(actions + change =~= actions);
    }
}

proof fn lemma_insertions_in_strokes(node_id: u64, text: Seq<char>)
    ensures
        insertions(key_strokes(node_id, text)) == text.map_values(
            |c: char| insert_script(node_id, seq![c]),
        ),
    decreases text.len(),
{
    if text.len() > 0 {
        let before = text.drop_last();
        let c = text.last();
        let stroke = key_stroke(node_id, c);
        lemma_insertions_in_strokes(node_id, before);
        lemma_insertions_in_shift_change(
            key_strokes(node_id, before),
            shift_after(before),
            needs_shift(c),
        );
        lemma_shift_scripts_stand_apart(node_id, c);
        let lead = key_strokes(node_id, before) + shift_change(shift_after(before), needs_shift(c));
        let all = lead + stroke;
        assert(all.last() == stroke[3]);
        assert(all.drop_last().last() == stroke[2]);
        assert(all.drop_last().drop_last().last() == stroke[1]);
        assert(all.drop_last().drop_last().drop_last().last() == stroke[0]);
        assert(all.drop_last().drop_last().drop_last().drop_last() =~= lead);
        reveal_with_fuel(insertions, 5);
        assert(insertions(all) == insertions(lead).push(insert_script(node_id, seq![c])));
        assert(text.map_values(|c: char| insert_script(node_id, seq![c])) =~= before.map_values(
            |c: char| insert_script(node_id, seq![c]),
        ).push(insert_script(node_id, seq![c])));
    } else {
        assert(text.map_values(|c: char| insert_script(node_id, seq![c])) =~= Seq::empty());
    }
}

proof fn lemma_insertions_among_strokes(node_id: u64, text: Seq<char>, i: int)
    requires
        0 <= i < key_strokes(node_id, text).len(),
        key_strokes(node_id, text)[i] is Evaluate,
        INSERT_HEAD@.is_prefix_of(key_strokes(node_id, text)[i]->Evaluate_0),
    ensures
        ({
            let actions = key_strokes(node_id, text);
            let down = actions[i - 1]->Evaluate_0;
            let up = actions[i + 1]->Evaluate_0;
            &&& 0 < i && i + 2 < actions.len()
            &&& actions[i - 1] is Evaluate && KEYDOWN_HEAD@.is_prefix_of(down)
            &&& actions[i + 1] is Evaluate && KEYUP_HEAD@.is_prefix_of(up)
            &&& down.skip(KEYDOWN_HEAD@.len() as int) == up.skip(KEYUP_HEAD@.len() as int)
            &&& actions[i + 2] is Pause
        }),
    decreases text.len(),
{
    let actions = key_strokes(node_id, text);
    let before = key_strokes(node_id, text.drop_last());
    let c = text.last();
    let change = shift_change(shift_after(text.drop_last()), needs_shift(c));
    let stroke = key_stroke(node_id, c);
    let start = (before.len() + change.len()) as int;
    lemma_shift_scripts_stand_apart(node_id, c);
    if i < before.len() {
        lemma_insertions_among_strokes(node_id, text.drop_last(), i);
        assert(actions[i - 1] == before[i - 1]);
        assert(actions[i + 1] == before[i + 1]);
        assert(actions[i + 2] == before[i + 2]);
    } else {
        if i < start {
            assert(actions[i] == change[i - before.len()]);
        }
        assert(actions[i] == stroke[i - start]);
        assert(i - start == 1);
        assert(actions[i - 1] == stroke[0]);
        assert(actions[i + 1] == stroke[2]);
        assert(actions[i + 2] == stroke[3]);
        let key = json_literal(key_name(c)) + KEY_CODE@ + json_literal(key_code(c)) + KEY_SHIFT@
            + bool_word(needs_shift(c)) + KEY_TAIL@;
        assert(key_script(KEYDOWN_HEAD@, c) =~= KEYDOWN_HEAD@ + key);
        assert(key_script(KEYUP_HEAD@, c) =~= KEYUP_HEAD@ + key);
        assert((KEYDOWN_HEAD@ + key).skip(KEYDOWN_HEAD@.len() as int) =~= key);
        assert((KEYUP_HEAD@ + key).skip(KEYUP_HEAD@.len() as int) =~= key);
    }
}

proof fn lemma_pauses_in_strokes(node_id: u64, text: Seq<char>)
    ensures
        pauses(key_strokes(node_id, text)) == text.len(),
    decreases text.len(),
{
    if text.len() > 0 {
        let before = text.drop_last();
        let change = shift_change(shift_after(before), needs_shift(text.last()));
        let stroke = key_stroke(node_id, text.last());
        lemma_pauses_in_strokes(node_id, before);
        let lead = key_strokes(node_id, before) + change;
        if change.len() > 0 {
            assert(lead.drop_last() =~= key_strokes(node_id, before));
            assert(lead.last() == change[0]);
        } else {
            assert(lead =~= key_strokes(node_id, before));
        }
        let all = lead + stroke;
        assert(all.last() == stroke[3]);
        assert(all.drop_last().last() == stroke[2]);
        assert(all.drop_last().drop_last().last() == stroke[1]);
        assert(all.drop_last().drop_last().drop_last().last() == stroke[0]);
        assert(all.drop_last().drop_last().drop_last().drop_last() =~= lead);
        reveal_with_fuel(pauses, 5);
    }
}

} // verus!
