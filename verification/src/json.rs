use vstd::prelude::*;
use serde_json::Value;

verus! {

#[verifier::external_type_specification]
#[verifier::external_body]
pub struct ExValue(Value);

#[verifier::external_type_specification]
#[verifier::external_body]
pub struct ExJsonError(serde_json::Error);

/// One step from a JSON value to a value inside it.
pub enum JsonStep {
    /// `value[i]`: the `i`th element of an array (`null` when there is none).
    Item(int),
    /// `value.get(key)`: the member `key` of an object.
    Member(Seq<char>),
}

/// Whether `serde_json::from_str::<Value>` accepts `text`.
pub uninterp spec fn json_parses(text: Seq<char>) -> bool;

/// Whether `Value::get(key)` finds a member `key` in the value reached by
/// the steps `at` from the value parsed from `text`.
pub uninterp spec fn json_has_member(text: Seq<char>, at: Seq<JsonStep>, key: Seq<char>) -> bool;

/// The compact JSON text (`Value`'s `Display`, through `to_string`) of the
/// value reached by the steps `at` from the value parsed from `text`.
pub uninterp spec fn json_text(text: Seq<char>, at: Seq<JsonStep>) -> Seq<char>;

/// The message of a `serde_json` error, through its `Display`. Nothing is
/// stated of the text.
#[verifier::external_body]
fn error_message(e: &serde_json::Error) -> String {
    e.to_string()
}

/// JSON text that `serde_json` rejected, with its error message.
#[derive(Debug, PartialEq, Eq)]
pub struct JsonError {
    pub message: String,
}

/// A JSON value parsed by `serde_json`, together with the text it was parsed
/// from. Its view is that text; the only constructor is `JsonDoc::from_text`,
/// whose trusted contract pairs the value with the text it parsed.
pub struct JsonDoc {
    value: Value,
    source: Ghost<Seq<char>>,
}

impl View for JsonDoc {
    type V = Seq<char>;

    closed spec fn view(&self) -> Seq<char> {
        self.source@
    }
}

/// A value inside a `JsonDoc`: the document's text and the steps that lead
/// to the value from the top. Built only by `JsonDoc::root` (the document's
/// own value, no steps) and by `JsonAt::item` and `JsonAt::member`, whose
/// trusted contracts pair the value they reach with the step they record.
pub struct JsonAt<'a> {
    value: &'a Value,
    source: Ghost<Seq<char>>,
    at: Ghost<Seq<JsonStep>>,
}

impl<'a> View for JsonAt<'a> {
    type V = (Seq<char>, Seq<JsonStep>);

    closed spec fn view(&self) -> (Seq<char>, Seq<JsonStep>) {
        (self.source@, self.at@)
    }
}

impl JsonDoc {
    /// `serde_json::from_str::<Value>`: succeeds exactly when `serde_json`
    /// accepts `text`, and keeps the value with the text it was parsed from,
    /// which is the document's view.
    #[verifier::external_body]
    fn from_text(text: &str) -> (r: Result<JsonDoc, serde_json::Error>)
        ensures
            r is Ok <==> json_parses(text@),
            r matches Ok(d) ==> d@ == text@,
    {
        serde_json::from_str::<Value>(text).map(|value| JsonDoc { value, source: Ghost(text@) })
    }

    /// Parses `text`; fails exactly when `serde_json` rejects it.
    pub fn parse(text: &str) -> (r: Result<JsonDoc, JsonError>)
        ensures
            r is Ok <==> json_parses(text@),
            r matches Ok(d) ==> d@ == text@,
    {
        match Self::from_text(text) {
            Ok(d) => Ok(d),
            Err(e) => Err(JsonError { message: error_message(&e) }),
        }
    }

    /// The top value.
    pub fn root(&self) -> (r: JsonAt<'_>)
        ensures
            r@ == (self@, Seq::<JsonStep>::empty()),
    {
        JsonAt { value: &self.value, source: Ghost(self.source@), at: Ghost(Seq::empty()) }
    }
}

impl<'a> JsonAt<'a> {
    /// `to_string` on the value: its compact JSON text.
    #[verifier::external_body]
    pub(crate) fn to_text(&self) -> (r: String)
        ensures
            r@ == json_text(self@.0, self@.1),
    {
        self.value.to_string()
    }

    /// `value[i]` (`Index<usize>` on `Value`): the `i`th element of an
    /// array, or `null` when there is none; the step `Item(i)` is recorded.
    #[verifier::external_body]
    pub(crate) fn item(&self, i: usize) -> (r: JsonAt<'a>)
        ensures
            r@ == (self@.0, self@.1.push(JsonStep::Item(i as int))),
    {
        JsonAt {
            value: &self.value[i],
            source: Ghost(self.source@),
            at: Ghost(self.at@.push(JsonStep::Item(i as int))),
        }
    }

    /// `Value::get(key)`: the member `key` of an object, present exactly when
    /// `json_has_member` holds of this place and `key`; the step `Member(key)`
    /// is recorded.
    #[verifier::external_body]
    pub(crate) fn member(&self, key: &str) -> (r: Option<JsonAt<'a>>)
        ensures
            r is Some <==> json_has_member(self@.0, self@.1, key@),
            r matches Some(m) ==> m@ == (self@.0, self@.1.push(JsonStep::Member(key@))),
    {
        self.value.get(key).map(
            |v| JsonAt { value: v, source: Ghost(self.source@), at: Ghost(self.at@.push(JsonStep::Member(key@))) },
        )
    }
}

} // verus!
