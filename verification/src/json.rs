//! JSON documents as the gateway builds and merges them.

use crate::assoc::{keys_of, lemma_after_insert, lemma_after_remove, lemma_slots_of, slots_of};
use crate::text::text_of;
use vstd::prelude::*;
use vstd::string::*;

verus! {

/// A JSON document. Numbers are whole: the gateway's documents carry ranks,
/// counts and epochs.
#[derive(Debug)]
pub enum Json {
    Null,
    Bool(bool),
    Number(i64),
    Text(String),
    Array(Vec<Json>),
    Object(JsonObject),
}

/// A JSON object: each key once, with a document under it.
#[derive(Debug)]
pub struct JsonObject {
    members: Vec<(String, Json)>,
}

/// A JSON document as mathematics. An object is a map: the order in which
/// its members were put in is no part of it.
pub enum JsonModel {
    Null,
    Bool(bool),
    Number(int),
    Text(Seq<char>),
    Array(Seq<JsonModel>),
    Object(Map<Seq<char>, JsonModel>),
}

impl Json {
    /// The document as mathematics.
    pub open spec fn model(self) -> JsonModel
        decreases self,
    {
        match self {
            Json::Null => JsonModel::Null,
            Json::Bool(truth) => JsonModel::Bool(truth),
            Json::Number(number) => JsonModel::Number(number as int),
            Json::Text(text) => JsonModel::Text(text@),
            Json::Array(items) => JsonModel::Array(
                Seq::new(
                    items@.len(),
                    |i: int|
                        if 0 <= i < items@.len() {
                            items@[i].model()
                        } else {
                            JsonModel::Null
                        },
                ),
            ),
            Json::Object(object) => JsonModel::Object(object.model()),
        }
    }
}

impl JsonObject {
    /// The object as a map from its keys to the documents under them.
    pub closed spec fn model(self) -> Map<Seq<char>, JsonModel>
        decreases self,
    {
        Map::new(
            |key: Seq<char>| keys_of(self.members@).contains(key),
            |key: Seq<char>|
                if keys_of(self.members@).contains(key) {
                    self.members@[keys_of(self.members@).index_of(key)].1.model()
                } else {
                    JsonModel::Null
                },
        )
    }
}

impl View for Json {
    type V = JsonModel;

    open spec fn view(&self) -> JsonModel {
        self.model()
    }
}

impl View for JsonObject {
    type V = Map<Seq<char>, JsonModel>;

    open spec fn view(&self) -> Map<Seq<char>, JsonModel> {
        self.model()
    }
}

/// The deep merge of two documents: two objects are merged key by key, and
/// in every other case the right document stands in place of the left one.
pub open spec fn merged(left: JsonModel, right: JsonModel) -> JsonModel
    decreases right,
{
    match (left, right) {
        (JsonModel::Object(l), JsonModel::Object(r)) => JsonModel::Object(
            Map::new(
                |key: Seq<char>| l.contains_key(key) || r.contains_key(key),
                |key: Seq<char>|
                    if r.contains_key(key) {
                        if l.contains_key(key) {
                            merged(l[key], r[key])
                        } else {
                            r[key]
                        }
                    } else {
                        l[key]
                    },
            ),
        ),
        _ => right,
    }
}

/// Whether `key` is one of the top-level keys that belong to the envelope.
pub open spec fn is_metadata(key: Seq<char>) -> bool {
    key == "status"@ || key == "date"@ || key == "notice"@
}

/// The envelope of a payload: the deep merge of the stable fields and the
/// payload, in which the stable fields keep the top-level keys that belong to
/// the envelope. A payload that is no object stands alone.
pub open spec fn enveloped(stable: JsonModel, payload: JsonModel) -> JsonModel {
    match (stable, payload) {
        (JsonModel::Object(fields), JsonModel::Object(members)) => merged(
            stable,
            JsonModel::Object(
                members.remove_keys(
                    Set::new(|key: Seq<char>| is_metadata(key) && fields.contains_key(key)),
                ),
            ),
        ),
        _ => merged(stable, payload),
    }
}

/// The merge of two objects in which only the keys in `done` have been taken
/// from the right one.
spec fn merged_so_far(
    left: Map<Seq<char>, JsonModel>,
    right: Map<Seq<char>, JsonModel>,
    done: Set<Seq<char>>,
) -> Map<Seq<char>, JsonModel> {
    Map::new(
        |key: Seq<char>| left.contains_key(key) || (right.contains_key(key) && done.contains(key)),
        |key: Seq<char>|
            if right.contains_key(key) && done.contains(key) {
                if left.contains_key(key) {
                    merged(left[key], right[key])
                } else {
                    right[key]
                }
            } else {
                left[key]
            },
    )
}

/// The model of a list of members without repeated keys: each key maps to
/// the model of the document beside it.
proof fn lemma_members_model(object: JsonObject)
    requires
        keys_of(object.members@).no_duplicates(),
    ensures
        object.model().dom() =~= keys_of(object.members@).to_set(),
        object.model() =~= slots_of(object.members@).map_values(|document: Json| document.model()),
        forall|i: int|
            0 <= i < object.members@.len() ==> object.model().contains_key(
                #[trigger] object.members@[i].0@,
            ) && object.model()[object.members@[i].0@] == object.members@[i].1.model(),
{
    lemma_slots_of(object.members@);
}

impl JsonObject {
    #[verifier::type_invariant]
    spec fn inv(&self) -> bool {
        keys_of(self.members@).no_duplicates()
    }

    /// The object without members.
    pub fn new() -> (object: Self)
        ensures
            object@ == Map::<Seq<char>, JsonModel>::empty(),
    {
        let object = JsonObject { members: Vec::new() };
        proof {
            lemma_members_model(object);
            assert(object@ =~= Map::empty());
        }
        object
    }

    /// The number of members.
    pub fn len(&self) -> (count: usize)
        ensures
            count == self@.dom().len(),
            self@.dom().finite(),
    {
        proof {
            use_type_invariant(self);
            lemma_members_model(*self);
            keys_of(self.members@).unique_seq_to_set();
        }
        self.members.len()
    }

    /// Where `key` stands among the members, if it is there.
    fn position(&self, key: &String) -> (found: Option<usize>)
        ensures
            match found {
                Some(i) => i < self.members@.len() && self.members@[i as int].0@ == key@,
                None => !keys_of(self.members@).contains(key@),
            },
    {
        let mut i: usize = 0;
        while i < self.members.len()
            invariant
                i <= self.members@.len(),
                forall|j: int| 0 <= j < i ==> self.members@[j].0@ != key@,
            decreases self.members@.len() - i,
        {
            if self.members[i].0 == *key {
                return Some(i);
            }
            i += 1;
        }
        proof {
            let keys = keys_of(self.members@);
            assert forall|j: int| 0 <= j < keys.len() implies keys[j] != key@ by {
                assert(self.members@[j].0@ != key@);
            }
        }
        None
    }

    /// The document under `key`, if there is one.
    pub fn get(&self, key: &str) -> (found: Option<&Json>)
        ensures
            match found {
                Some(document) => self@.contains_key(key@) && self@[key@] == document@,
                None => !self@.contains_key(key@),
            },
    {
        proof {
            use_type_invariant(self);
            lemma_members_model(*self);
        }
        let owned = String::from_str(key);
        match self.position(&owned) {
            Some(i) => Some(&self.members[i].1),
            None => None,
        }
    }

    /// Whether there is a member under `key`.
    pub fn contains_key(&self, key: &str) -> (found: bool)
        ensures
            found == self@.contains_key(key@),
    {
        self.get(key).is_some()
    }

    /// Takes the member under `key` out, and hands back its document if
    /// there was one.
    pub fn remove(&mut self, key: &String) -> (taken: Option<Json>)
        ensures
            final(self)@ == old(self)@.remove(key@),
            match taken {
                Some(document) => old(self)@.contains_key(key@) && old(self)@[key@] == document@,
                None => !old(self)@.contains_key(key@),
            },
    {
        proof {
            use_type_invariant(&*self);
            lemma_members_model(*self);
        }
        let ghost before = self.members@;
        match self.position(key) {
            None => {
                proof {
                    assert(self@.remove(key@) =~= self@);
                }
                None
            },
            Some(i) => {
                proof {
                    lemma_after_remove(before, i as int);
                }
                let mut members: Vec<(String, Json)> = Vec::new();
                std::mem::swap(&mut members, &mut self.members);
                let entry = members.remove(i);
                self.members = members;
                proof {
                    lemma_members_model(*self);
                    lemma_members_model(*old(self));
                    assert(self@ =~= old(self)@.remove(key@));
                }
                Some(entry.1)
            },
        }
    }

    /// Puts `document` under `key`, in place of what was there.
    pub fn insert(&mut self, key: String, document: Json)
        ensures
            final(self)@ == old(self)@.insert(key@, document@),
    {
        proof {
            use_type_invariant(&*self);
            lemma_members_model(*self);
        }
        let ghost before = self.members@;
        let ghost entry = (key, document);
        let found = self.position(&key);
        let mut members: Vec<(String, Json)> = Vec::new();
        std::mem::swap(&mut members, &mut self.members);
        match found {
            Some(i) => {
                proof {
                    lemma_after_remove(before, i as int);
                }
                let _ = members.remove(i);
            },
            None => {},
        }
        proof {
            lemma_after_insert(members@, members@.len() as int, entry);
            assert(members@.insert(members@.len() as int, entry) =~= members@.push(entry));
        }
        members.push((key, document));
        self.members = members;
        proof {
            lemma_members_model(*self);
            lemma_members_model(*old(self));
            assert(self@ =~= old(self)@.insert(key@, document@));
        }
    }

    /// The object with `document` under `key`.
    pub fn with(self, key: &str, document: Json) -> (object: Self)
        ensures
            object@ == self@.insert(key@, document@),
    {
        let mut object = self;
        object.insert(String::from_str(key), document);
        object
    }
}

impl Json {
    /// The JSON string with the text `text`.
    pub fn text(text: &str) -> (document: Json)
        ensures
            document@ == JsonModel::Text(text@),
    {
        Json::Text(String::from_str(text))
    }

    /// The JSON string with the text of `text`, or `null` where there is
    /// none.
    pub fn optional_text(text: &Option<String>) -> (document: Json)
        ensures
            document@ == match text {
                Some(words) => JsonModel::Text(words@),
                None => JsonModel::Null,
            },
    {
        match text {
            Some(words) => Json::Text(words.clone()),
            None => Json::Null,
        }
    }
}

/// Merges the members of `right` into `left`, one key after the other.
fn merge_objects(left: JsonObject, right: JsonObject) -> (result: JsonObject)
    ensures
        JsonModel::Object(result@) == merged(JsonModel::Object(left@), JsonModel::Object(right@)),
    decreases right,
{
    proof {
        use_type_invariant(&right);
        lemma_members_model(right);
    }
    let ghost left_model = left@;
    let ghost right_model = right@;
    let ghost original = right.members@;
    let mut result = left;
    let mut remaining = right.members;
    proof {
        assert(remaining@ =~= original.take(remaining@.len() as int));
        assert(keys_of(original.skip(original.len() as int)) =~= Seq::empty());
        assert(result@ =~= merged_so_far(left_model, right_model, Set::empty()));
        assert(keys_of(original.skip(original.len() as int)).to_set() =~= Set::empty());
    }
    while remaining.len() > 0
        invariant
            remaining@ == original.take(remaining@.len() as int),
            remaining@.len() <= original.len(),
            keys_of(original).no_duplicates(),
            original == right.members@,
            right_model.dom() =~= keys_of(original).to_set(),
            forall|i: int|
                0 <= i < original.len() ==> right_model.contains_key(#[trigger] original[i].0@)
                    && right_model[original[i].0@] == original[i].1.model(),
            result@ == merged_so_far(
                left_model,
                right_model,
                keys_of(original.skip(remaining@.len() as int)).to_set(),
            ),
        decreases remaining@.len(),
    {
        let ghost at = remaining@.len() - 1;
        let ghost done = keys_of(original.skip(remaining@.len() as int)).to_set();
        match remaining.pop() {
            None => {},
            Some(entry) => {
                let (key, value) = entry;
                proof {
                    assert(entry == original[at]);
                    assert(decreases_to!(right => right.members));
                    assert(decreases_to!(right.members => right.members@));
                    assert(decreases_to!(original => original[at]));
                    assert(decreases_to!(original[at] => original[at].1));
                    assert(!done.contains(key@)) by {
                        let tail = keys_of(original.skip(at + 1));
                        if tail.contains(key@) {
                            let j = tail.index_of(key@);
                            assert(tail[j] == keys_of(original)[at + 1 + j]);
                            assert(keys_of(original)[at] == key@);
                        }
                    }
                }
                let ghost under = result@;
                let merged_value = match result.remove(&key) {
                    Some(existing) => merge_documents(existing, value),
                    None => value,
                };
                result.insert(key, merged_value);
                proof {
                    let now_done = keys_of(original.skip(at)).to_set();
                    assert(now_done =~= done.insert(key@)) by {
                        let tail = keys_of(original.skip(at + 1));
                        let longer = keys_of(original.skip(at));
                        assert(longer =~= seq![key@] + tail);
                        assert forall|k: Seq<char>| #[trigger]
                            longer.to_set().contains(k) == done.insert(key@).contains(k) by {
                            if longer.contains(k) {
                                let j = longer.index_of(k);
                                if j > 0 {
                                    assert(tail[j - 1] == longer[j]);
                                }
                            }
                            if tail.contains(k) {
                                let j = tail.index_of(k);
                                assert(longer[j + 1] == tail[j]);
                            }
                            if k == key@ {
                                assert(longer[0] == key@);
                            }
                        }
                    }
                    assert(remaining@ =~= original.take(remaining@.len() as int));
                    assert(result@ =~= merged_so_far(left_model, right_model, now_done));
                }
            },
        }
    }
    proof {
        assert(original.skip(0) =~= original);
        assert(result@ =~= merged(JsonModel::Object(left_model), JsonModel::Object(right_model))->Object_0);
    }
    result
}

/// Merges `right` into `left`.
fn merge_documents(left: Json, right: Json) -> (result: Json)
    ensures
        result@ == merged(left@, right@),
    decreases right,
{
    match left {
        Json::Object(under) => match right {
            Json::Object(over) => Json::Object(merge_objects(under, over)),
            other => other,
        },
        _ => right,
    }
}

/// Merges `right` into `left` in place: where both are objects, key by key
/// and so on into the members that are objects on both sides; everywhere
/// else what stands on the right takes the place of what stands on the left.
pub fn merge_json_value(left: &mut Json, right: Json)
    ensures
        final(left)@ == merged(old(left)@, right@),
{
    let mut under = Json::Null;
    std::mem::swap(left, &mut under);
    *left = merge_documents(under, right);
}

/// Merges two documents in the order of left, right, as an envelope is made
/// of its stable fields and a payload: the two are merged deeply, but the
/// top-level keys `status`, `date` and `notice` stay as the left document has
/// them. Where one of the two is no object, the right one stands alone.
pub fn merge_json(left: Json, right: Json) -> (result: Json)
    ensures
        result@ == enveloped(left@, right@),
{
    match left {
        Json::Object(fields) => match right {
            Json::Object(members) => {
                let mut members = members;
                let ghost taken = Set::new(
                    |key: Seq<char>| is_metadata(key) && fields@.contains_key(key),
                );
                let ghost before = members@;
                if fields.contains_key("status") {
                    let _ = members.remove(&String::from_str("status"));
                }
                if fields.contains_key("date") {
                    let _ = members.remove(&String::from_str("date"));
                }
                if fields.contains_key("notice") {
                    let _ = members.remove(&String::from_str("notice"));
                }
                proof {
                    assert(members@ =~= before.remove_keys(taken));
                }
                merge_documents(Json::Object(fields), Json::Object(members))
            },
            other => merge_documents(Json::Object(fields), other),
        },
        other => merge_documents(other, right),
    }
}

#[verifier::external_type_specification]
#[verifier::external_body]
pub struct ExValue(serde_json::Value);

/// The text of a document as `serde_json::to_string_pretty` writes it:
/// indented by two spaces, the members of an object in the order of their
/// keys. `None` where it reports an error.
pub uninterp spec fn pretty_text(document: JsonModel) -> Option<Seq<char>>;

/// The text of a document as `serde_json::to_string` writes it: on one line
/// and without spaces, the members of an object in the order of their keys.
/// `None` where it reports an error.
pub uninterp spec fn compact_text(document: JsonModel) -> Option<Seq<char>>;

/// The text of a document as a `serde_json::Serializer` writes it with a
/// `PrettyFormatter` whose indent is four spaces, the members of an object in
/// the order of their keys. `None` where it reports an error.
pub uninterp spec fn indented_text(document: JsonModel) -> Option<Seq<char>>;

/// The document as a value of `serde_json`, part for part.
///
/// Trusted: the variants of `serde_json::Value` are filled with what the
/// document's variants hold; an object becomes a `serde_json::Map`, which
/// holds each key once and, as long as the `preserve_order` feature of
/// `serde_json` is off, in the order of the keys. Nothing is claimed of the
/// result here: the three writers below name what is written of it.
#[verifier::external_body]
fn to_value(document: &Json) -> serde_json::Value {
    match document {
        Json::Null => serde_json::Value::Null,
        Json::Bool(truth) => serde_json::Value::Bool(*truth),
        Json::Number(number) => serde_json::Value::from(*number),
        Json::Text(text) => serde_json::Value::String(text.clone()),
        Json::Array(items) => serde_json::Value::Array(items.iter().map(to_value).collect()),
        Json::Object(object) => serde_json::Value::Object(
            object.members.iter().map(|member| (member.0.clone(), to_value(&member.1))).collect(),
        ),
    }
}

/// Writes a document as JSON text indented by two spaces.
///
/// Trusted: `serde_json::to_string_pretty`, applied to the document as a
/// `serde_json::Value`, with an error handed back as `None`. What is written
/// depends on the document's model alone: the keys of an object are
/// distinct, and `serde_json` writes them in their own order. That holds as
/// long as the `preserve_order` feature of `serde_json` is off, and it has to
/// stay off: with it the order in which the members were put in would show.
/// The contract gives the text the name `pretty_text`.
#[verifier::external_body]
fn write_pretty(document: &Json) -> (text: Option<String>)
    ensures
        text_of(text) == pretty_text(document.model()),
{
    serde_json::to_string_pretty(&to_value(document)).ok()
}

/// Writes a document as JSON text on one line.
///
/// Trusted: `serde_json::to_string`, applied to the document as a
/// `serde_json::Value`, with an error handed back as `None`. What is written
/// depends on the document's model alone, as long as the `preserve_order`
/// feature of `serde_json` is off. The contract gives the text the name
/// `compact_text`.
#[verifier::external_body]
fn write_compact(document: &Json) -> (text: Option<String>)
    ensures
        text_of(text) == compact_text(document.model()),
{
    serde_json::to_string(&to_value(document)).ok()
}

/// Writes a document as JSON text indented by four spaces.
///
/// Trusted: the `Serialize` impl of `serde_json::Value`, driven by a
/// `serde_json::Serializer` with `PrettyFormatter::with_indent` of four
/// spaces into a buffer; an error of the serializer, or a buffer that is no
/// UTF-8, is handed back as `None`. What is written depends on the document's
/// model alone, as long as the `preserve_order` feature of `serde_json` is
/// off. The contract gives the text the name `indented_text`.
#[verifier::external_body]
fn write_indented(document: &Json) -> (text: Option<String>)
    ensures
        text_of(text) == indented_text(document.model()),
{
    let mut buffer = Vec::new();
    let formatter = serde_json::ser::PrettyFormatter::with_indent(b"    ");
    let mut serializer = serde_json::Serializer::with_formatter(&mut buffer, formatter);
    serde::Serialize::serialize(&to_value(document), &mut serializer).ok()?;
    String::from_utf8(buffer).ok()
}

impl Json {
    /// The document as JSON text indented by two spaces, or `None` where it
    /// cannot be written.
    pub fn render(&self) -> (text: Option<String>)
        ensures
            text_of(text) == pretty_text(self@),
    {
        write_pretty(self)
    }

    /// The document as JSON text on one line, or `None` where it cannot be
    /// written.
    pub fn render_compact(&self) -> (text: Option<String>)
        ensures
            text_of(text) == compact_text(self@),
    {
        write_compact(self)
    }
}

/// The document as JSON text indented by four spaces, or `None` where it
/// cannot be written.
pub fn json_stringify(value: &Json) -> (text: Option<String>)
    ensures
        text_of(text) == indented_text(value@),
{
    write_indented(value)
}

/// Where one of two documents is no object, their merge is the right one:
/// nothing of the left document is kept.
pub proof fn merge_replaces_what_is_no_object(left: JsonModel, right: JsonModel)
    requires
        !(left is Object) || !(right is Object),
    ensures
        merged(left, right) == right,
{
}

/// The merge of two objects has the keys of both. A key of the left object
/// alone keeps its document, a key of the right object alone brings its
/// document, and under a key of both stands the merge of the two documents.
pub proof fn merge_of_objects_goes_key_by_key(
    left: Map<Seq<char>, JsonModel>,
    right: Map<Seq<char>, JsonModel>,
    key: Seq<char>,
)
    ensures
        merged(JsonModel::Object(left), JsonModel::Object(right)) is Object,
        merged(JsonModel::Object(left), JsonModel::Object(right))->Object_0.dom() =~= left.dom().union(
            right.dom(),
        ),
        left.contains_key(key) && !right.contains_key(key) ==> merged(
            JsonModel::Object(left),
            JsonModel::Object(right),
        )->Object_0[key] == left[key],
        !left.contains_key(key) && right.contains_key(key) ==> merged(
            JsonModel::Object(left),
            JsonModel::Object(right),
        )->Object_0[key] == right[key],
        left.contains_key(key) && right.contains_key(key) ==> merged(
            JsonModel::Object(left),
            JsonModel::Object(right),
        )->Object_0[key] == merged(left[key], right[key]),
{
}

/// In an envelope, a key that belongs to the envelope and that the stable
/// fields hold stands with the document that the stable fields give it,
/// whatever the payload holds under it.
pub proof fn stable_fields_win(
    fields: Map<Seq<char>, JsonModel>,
    members: Map<Seq<char>, JsonModel>,
    key: Seq<char>,
)
    requires
        is_metadata(key),
        fields.contains_key(key),
    ensures
        enveloped(JsonModel::Object(fields), JsonModel::Object(members)) is Object,
        enveloped(JsonModel::Object(fields), JsonModel::Object(members))->Object_0.contains_key(key),
        enveloped(JsonModel::Object(fields), JsonModel::Object(members))->Object_0[key] == fields[key],
{
}

/// In an envelope, a key of the payload that the stable fields do not hold
/// stands with the document that the payload gives it: so the payload
/// supplies `data`.
pub proof fn payload_supplies_its_keys(
    fields: Map<Seq<char>, JsonModel>,
    members: Map<Seq<char>, JsonModel>,
    key: Seq<char>,
)
    requires
        members.contains_key(key),
        !fields.contains_key(key),
    ensures
        enveloped(JsonModel::Object(fields), JsonModel::Object(members)) is Object,
        enveloped(JsonModel::Object(fields), JsonModel::Object(members))->Object_0.contains_key(key),
        enveloped(JsonModel::Object(fields), JsonModel::Object(members))->Object_0[key] == members[key],
{
}

/// In an envelope, a key of both that does not belong to the envelope stands
/// with the deep merge of the two documents.
pub proof fn other_keys_are_merged(
    fields: Map<Seq<char>, JsonModel>,
    members: Map<Seq<char>, JsonModel>,
    key: Seq<char>,
)
    requires
        members.contains_key(key),
        fields.contains_key(key),
        !is_metadata(key),
    ensures
        enveloped(JsonModel::Object(fields), JsonModel::Object(members)) is Object,
        enveloped(JsonModel::Object(fields), JsonModel::Object(members))->Object_0[key] == merged(
            fields[key],
            members[key],
        ),
{
}

} // verus!
