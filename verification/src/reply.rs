//! What a script evaluated in the page hands back, as far as the library reads it.

use vstd::prelude::*;

use serde_json::Value;

use crate::double::{
    denotes_integer, is_finite_non_negative, saturated_integer_part, to_unsigned,
    whole_numbers_are_read_exactly,
};

verus! {

/// `serde_json::Value`, the form in which the script engine returns a result.
#[verifier::external_type_specification]
#[verifier::external_body]
pub struct ExValue(serde_json::Value);

/// The mathematical content of a reply.
pub enum ReplyView {
    /// JavaScript `null`.
    Null,
    /// A boolean.
    Bool(bool),
    /// A number held as an unsigned integer.
    Unsigned(u64),
    /// Any other number, by the bit pattern of its double-precision form.
    Float(u64),
    /// A string.
    Text(Seq<char>),
    /// An array or an object.
    Compound,
}

/// What a `serde_json::Value` holds: `Null` for `Value::Null`, `Bool` for `Value::Bool`, `Text`
/// for `Value::String`, `Compound` for `Value::Array` and `Value::Object`. A `Value::Number` is
/// `Unsigned` where `Value::as_u64` gives an integer for it, else `Float` with the bits of what
/// `Value::as_f64` gives.
pub uninterp spec fn value_content(v: Value) -> ReplyView;

/// `Value::is_null` is true of `Value::Null` and of nothing else.
pub assume_specification[ serde_json::Value::is_null ](v: &Value) -> (r: bool)
    ensures
        r == (value_content(*v) is Null),
;

/// `Value::as_bool` gives the boolean of a `Value::Bool`, and `None` for every other value.
pub assume_specification[ serde_json::Value::as_bool ](v: &Value) -> (r: Option<bool>)
    ensures
        r == match value_content(*v) {
            ReplyView::Bool(b) => Some(b),
            _ => None,
        },
;

/// `Value::as_u64` gives a number that is held as an unsigned integer, and `None` for every
/// other value: negative integers and floating-point numbers included.
pub assume_specification[ serde_json::Value::as_u64 ](v: &Value) -> (r: Option<u64>)
    ensures
        r == match value_content(*v) {
            ReplyView::Unsigned(n) => Some(n),
            _ => None,
        },
;

/// `Value::as_str` gives the text of a `Value::String`, and `None` for every other value.
pub assume_specification<'a>[ serde_json::Value::as_str ](v: &'a Value) -> (r: Option<&'a str>)
    ensures
        match (value_content(*v), r) {
            (ReplyView::Text(t), Some(s)) => s@ == t,
            (ReplyView::Text(_), None) => false,
            (_, r) => r is None,
        },
;

/// `Value::as_f64`, by bit pattern: a number that is not held as an unsigned integer has its
/// double-precision value, and what is no number has none.
#[verifier::external_body]
fn value_float_bits(v: &Value) -> (r: Option<u64>)
    requires
        value_content(*v) !is Unsigned,
    ensures
        r == match value_content(*v) {
            ReplyView::Float(bits) => Some(bits),
            _ => None,
        },
{
    match v.as_f64() {
        Some(x) => Some(x.to_bits()),
        None => None,
    }
}

/// The DOM node id in a reply: a number held as an unsigned integer, or the integer part of a
/// finite number that is not below zero. Nothing else is a node id.
pub open spec fn content_nid(content: ReplyView) -> Option<u64> {
    match content {
        ReplyView::Unsigned(n) => Some(n),
        ReplyView::Float(bits) => if is_finite_non_negative(bits) {
            Some(saturated_integer_part(bits))
        } else {
            None
        },
        _ => None,
    }
}

/// The text of a reply: empty for all but a string.
pub open spec fn content_text(content: ReplyView) -> Seq<char> {
    match content {
        ReplyView::Text(t) => t,
        _ => Seq::empty(),
    }
}

/// Whether a reply is the boolean `true`.
pub open spec fn content_is_true(content: ReplyView) -> bool {
    content == ReplyView::Bool(true)
}

/// A script's result, reduced to what the library reads of it.
#[derive(Debug)]
pub enum Reply {
    /// JavaScript `null`.
    Null,
    /// A boolean.
    Bool(bool),
    /// A number held as an unsigned integer.
    Unsigned(u64),
    /// Any other number, by the bit pattern of its double-precision form.
    Float(u64),
    /// A string.
    Text(String),
    /// An array or an object.
    Compound,
}

impl View for Reply {
    type V = ReplyView;

    open spec fn view(&self) -> ReplyView {
        match self {
            Reply::Null => ReplyView::Null,
            Reply::Bool(b) => ReplyView::Bool(*b),
            Reply::Unsigned(n) => ReplyView::Unsigned(*n),
            Reply::Float(bits) => ReplyView::Float(*bits),
            Reply::Text(s) => ReplyView::Text(s@),
            Reply::Compound => ReplyView::Compound,
        }
    }
}

impl Reply {
    /// Reads a script engine's result.
    pub fn from_value(v: &Value) -> (r: Reply)
        ensures
            r@ == value_content(*v),
    {
        if v.is_null() {
            return Reply::Null;
        }
        if let Some(b) = v.as_bool() {
            return Reply::Bool(b);
        }
        if let Some(n) = v.as_u64() {
            return Reply::Unsigned(n);
        }
        if let Some(bits) = value_float_bits(v) {
            return Reply::Float(bits);
        }
        match v.as_str() {
            Some(s) => Reply::Text(s.to_string()),
            None => Reply::Compound,
        }
    }

    /// The DOM node id in this reply.
    pub fn nid(&self) -> (r: Option<u64>)
        ensures
            r == content_nid(self@),
            self@ matches ReplyView::Unsigned(n) ==> r == Some(n),
            r is Some ==> self@ is Unsigned || self@ is Float,
    {
        match self {
            Reply::Unsigned(n) => Some(*n),
            Reply::Float(bits) => to_unsigned(*bits),
            _ => None,
        }
    }

    /// The text of this reply, empty if it is no string.
    pub fn text(&self) -> (r: String)
        ensures
            r@ == content_text(self@),
            self@ matches ReplyView::Text(t) ==> r@ == t,
            self@ !is Text ==> r@.len() == 0,
    {
        match self {
            Reply::Text(s) => s.clone(),
            _ => String::new(),
        }
    }

    /// Whether this reply is `null`.
    pub fn is_null(&self) -> (r: bool)
        ensures
            r == (self@ is Null),
    {
        matches!(self, Reply::Null)
    }

    /// Whether this reply is the boolean `true`.
    pub fn is_true(&self) -> (r: bool)
        ensures
            r == content_is_true(self@),
            r <==> self@ == ReplyView::Bool(true),
    {
        match self {
            Reply::Bool(b) => *b,
            _ => false,
        }
    }
}

/// A reply's content has the kind of the reply and holds what the reply holds.
pub proof fn replies_keep_what_they_hold(reply: Reply)
    ensures
        reply is Null <==> reply@ is Null,
        reply is Compound <==> reply@ is Compound,
        forall|b: bool| reply == Reply::Bool(b) <==> reply@ == ReplyView::Bool(b),
        forall|n: u64| reply == Reply::Unsigned(n) <==> reply@ == ReplyView::Unsigned(n),
        forall|bits: u64| reply == Reply::Float(bits) <==> reply@ == ReplyView::Float(bits),
        reply is Text <==> reply@ is Text,
        reply is Text ==> reply->Text_0@ == reply@->Text_0,
{
}

/// The text of a reply is the whole of a string, and empty for anything else.
pub proof fn strings_are_read_whole(t: Seq<char>, content: ReplyView)
    ensures
        content_text(ReplyView::Text(t)) == t,
        content !is Text ==> content_text(content).len() == 0,
{
}

/// [`Reply::text`] gives the string of a reply, whatever its length and its characters, and the
/// empty text for a reply that is no string.
pub proof fn reply_text_is_the_string(reply: &Reply, r: String)
    requires
        call_ensures(Reply::text, (reply,), r),
    ensures
        *reply is Text ==> r@ == (*reply)->Text_0@,
        *reply !is Text ==> r@.len() == 0,
{
}

/// `true` is the only content that counts as true.
pub proof fn only_true_is_true(content: ReplyView)
    ensures
        content_is_true(ReplyView::Bool(true)),
        content_is_true(content) ==> content is Bool && content->Bool_0,
{
}

/// [`Reply::is_true`] is true of one reply alone, and so is [`Reply::is_null`].
pub proof fn one_reply_is_true_and_one_is_null(reply: &Reply, is_true: bool, is_null: bool)
    requires
        call_ensures(Reply::is_true, (reply,), is_true),
        call_ensures(Reply::is_null, (reply,), is_null),
    ensures
        is_true <==> *reply == Reply::Bool(true),
        is_null <==> *reply == Reply::Null,
{
}

/// A node id is an unsigned number itself, or what [`to_unsigned`] makes of another number, and
/// nothing else holds one.
pub proof fn node_ids_are_numbers(reply: &Reply, r: Option<u64>, bits: u64, of_bits: Option<u64>)
    requires
        call_ensures(Reply::nid, (reply,), r),
        call_ensures(to_unsigned, (bits,), of_bits),
    ensures
        *reply is Unsigned ==> r == Some((*reply)->Unsigned_0),
        *reply == Reply::Float(bits) ==> r == of_bits,
        *reply !is Unsigned && *reply !is Float ==> r is None,
        content_nid(reply@) == r,
{
}

/// Reading a node id straight from a result is reading it from the reply that the result makes,
/// and both go by what the accessors of the result say.
pub proof fn results_are_read_by_their_replies(
    v: &Value,
    reply: Reply,
    of_reply: Option<u64>,
    r: Option<u64>,
    unsigned: Option<u64>,
    text: Option<&str>,
    boolean: Option<bool>,
    null: bool,
)
    requires
        call_ensures(Reply::from_value, (v,), reply),
        call_ensures(Reply::nid, (&reply,), of_reply),
        call_ensures(nid_from_value, (v,), r),
        call_ensures(Value::as_u64, (v,), unsigned),
        call_ensures(Value::as_str, (v,), text),
        call_ensures(Value::as_bool, (v,), boolean),
        call_ensures(Value::is_null, (v,), null),
    ensures
        r == of_reply,
        unsigned is Some ==> reply == Reply::Unsigned(unsigned->Some_0) && r == unsigned,
        boolean is Some ==> reply == Reply::Bool(boolean->Some_0) && r is None,
        text is Some ==> reply is Text && reply->Text_0@ == text->Some_0@ && r is None,
        null <==> reply is Null,
{
}

/// A node id that comes as a floating-point number names the same node as one that comes as an
/// integer: this holds of every number whose value is an integer in the range of `u64`.
pub proof fn whole_floats_name_the_same_node(bits: u64, n: u64)
    requires
        denotes_integer(bits, n as int),
    ensures
        content_nid(ReplyView::Float(bits)) == content_nid(ReplyView::Unsigned(n)),
{
    whole_numbers_are_read_exactly(bits, n);
}

/// Reads a DOM node id from a script engine's result. The engine hands JavaScript numbers over
/// as double-precision numbers, so both an integer and a non-negative finite float are accepted.
pub fn nid_from_value(v: &Value) -> (r: Option<u64>)
    ensures
        r == content_nid(value_content(*v)),
{
    Reply::from_value(v).nid()
}

} // verus!
