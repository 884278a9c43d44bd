//! The parameters of a lookup and the cache key that is made of them.

use crate::assoc::{keys_of, lemma_after_insert, lemma_after_remove, lemma_slots_of, slots_of};
use crate::text::text_of;
use vstd::prelude::*;
use vstd::string::*;

verus! {

/// The parameters of a lookup: each name once, with a text value or none.
/// Two sets of parameters are the same when they give the same names the same
/// values, in whatever order the names were set.
pub struct Query {
    params: Vec<(String, Option<String>)>,
}

impl View for Query {
    type V = Map<Seq<char>, Option<Seq<char>>>;

    closed spec fn view(&self) -> Map<Seq<char>, Option<Seq<char>>> {
        slots_of(self.params@).map_values(|value: Option<String>| text_of(value))
    }
}

/// The JSON text of a set of parameters: what `serde_json::to_string` makes
/// of the JSON object that holds each name with its value, a missing value as
/// `null`; `None` where it reports an error.
pub uninterp spec fn query_text(params: Map<Seq<char>, Option<Seq<char>>>) -> Option<Seq<char>>;

/// The cache key of a lookup: the path, then the JSON text of the parameters,
/// or the path alone where the parameters have no JSON text.
pub open spec fn key_of(path: Seq<char>, params: Map<Seq<char>, Option<Seq<char>>>) -> Seq<char> {
    match query_text(params) {
        Some(text) => path + text,
        None => path,
    }
}

impl Query {
    #[verifier::type_invariant]
    spec fn inv(&self) -> bool {
        keys_of(self.params@).no_duplicates()
    }

    /// No parameters.
    pub fn new() -> (query: Self)
        ensures
            query@ == Map::<Seq<char>, Option<Seq<char>>>::empty(),
    {
        let query = Query { params: Vec::new() };
        proof {
            lemma_slots_of(query.params@);
            assert(query@ =~= Map::empty());
        }
        query
    }

    /// Where `name` stands among the parameters, if it is there.
    fn position(&self, name: &String) -> (found: Option<usize>)
        ensures
            match found {
                Some(i) => i < self.params@.len() && self.params@[i as int].0@ == name@,
                None => !keys_of(self.params@).contains(name@),
            },
    {
        let mut i: usize = 0;
        while i < self.params.len()
            invariant
                i <= self.params@.len(),
                forall|j: int| 0 <= j < i ==> self.params@[j].0@ != name@,
            decreases self.params@.len() - i,
        {
            if self.params[i].0 == *name {
                return Some(i);
            }
            i += 1;
        }
        proof {
            let keys = keys_of(self.params@);
            assert forall|j: int| 0 <= j < keys.len() implies keys[j] != name@ by {
                assert(self.params@[j].0@ != name@);
            }
        }
        None
    }

    /// Gives the parameter `name` the value `value`, in place of the value it
    /// had if it was set before.
    pub fn set(&mut self, name: String, value: Option<String>)
        ensures
            final(self)@ == old(self)@.insert(name@, text_of(value)),
    {
        proof {
            use_type_invariant(&*self);
            lemma_slots_of(self.params@);
        }
        let ghost before = self.params@;
        let ghost entry = (name, value);
        let found = self.position(&name);
        let mut params: Vec<(String, Option<String>)> = Vec::new();
        std::mem::swap(&mut params, &mut self.params);
        match found {
            Some(i) => {
                proof {
                    lemma_after_remove(before, i as int);
                }
                let _ = params.remove(i);
            },
            None => {},
        }
        proof {
            lemma_after_insert(params@, params@.len() as int, entry);
            assert(params@.insert(params@.len() as int, entry) =~= params@.push(entry));
        }
        params.push((name, value));
        self.params = params;
        proof {
            assert(self@ =~= old(self)@.insert(name@, text_of(value)));
        }
    }

    /// The parameters with `name` set to `value`.
    pub fn with(self, name: &str, value: Option<&str>) -> (query: Self)
        ensures
            query@ == self@.insert(
                name@,
                match value {
                    Some(text) => Some(text@),
                    None => None,
                },
            ),
    {
        let mut query = self;
        let owned = match value {
            Some(text) => Some(String::from_str(text)),
            None => None,
        };
        query.set(String::from_str(name), owned);
        query
    }

    /// The value of the parameter `name`: `None` where it is not set,
    /// `Some(None)` where it is set without a value.
    pub fn value(&self, name: &str) -> (value: Option<Option<String>>)
        ensures
            match value {
                Some(found) => self@.contains_key(name@) && self@[name@] == text_of(found),
                None => !self@.contains_key(name@),
            },
    {
        proof {
            use_type_invariant(self);
            lemma_slots_of(self.params@);
        }
        let owned = String::from_str(name);
        match self.position(&owned) {
            Some(i) => Some(self.params[i].1.clone()),
            None => None,
        }
    }

    /// The names and values, each name once, in no particular order.
    pub fn pairs(&self) -> (pairs: Vec<(String, Option<String>)>)
        ensures
            keys_of(pairs@).no_duplicates(),
            slots_of(pairs@).map_values(|value: Option<String>| text_of(value)) == self@,
    {
        proof {
            use_type_invariant(self);
        }
        let mut pairs: Vec<(String, Option<String>)> = Vec::new();
        let mut i: usize = 0;
        while i < self.params.len()
            invariant
                i <= self.params@.len(),
                pairs@.len() == i,
                forall|j: int|
                    0 <= j < i ==> (#[trigger] pairs@[j]).0@ == self.params@[j].0@ && text_of(pairs@[j].1)
                        == text_of(self.params@[j].1),
            decreases self.params@.len() - i,
        {
            let value = match &self.params[i].1 {
                Some(text) => Some(text.clone()),
                None => None,
            };
            pairs.push((self.params[i].0.clone(), value));
            i += 1;
        }
        proof {
            let copy = pairs@;
            let list = self.params@;
            assert(keys_of(copy) =~= keys_of(list)) by {
                assert forall|j: int| 0 <= j < copy.len() implies keys_of(copy)[j] == keys_of(list)[j] by {
                    assert(copy[j].0@ == list[j].0@);
                }
            }
            lemma_slots_of(copy);
            lemma_slots_of(list);
            let view = |value: Option<String>| text_of(value);
            assert forall|key: Seq<char>| slots_of(list).dom().contains(key) implies #[trigger] slots_of(
                copy,
            ).map_values(view)[key] == slots_of(list).map_values(view)[key] by {
                let j = keys_of(list).index_of(key);
                assert(copy[j].0@ == list[j].0@);
            }
            assert(slots_of(copy).map_values(view) =~= slots_of(list).map_values(view));
        }
        pairs
    }

    /// The JSON text of the parameters.
    ///
    /// Trusted: `serde_json::to_string`, applied to a `serde_json::Map` that
    /// holds each name with its value as a JSON string, or `null` where it has
    /// none. The names are distinct, so the map holds every parameter, and
    /// what is written depends on the map's contents alone. That holds as
    /// long as the `preserve_order` feature of `serde_json` is off, and it has
    /// to stay off: with it the order in which the names were set would show.
    /// The contract gives the text the name `query_text`.
    #[verifier::external_body]
    fn canonical_text(&self) -> (text: Option<String>)
        ensures
            text_of(text) == query_text(self@),
    {
        let object: serde_json::Map<String, serde_json::Value> = self.params.iter().map(
            |param| (param.0.clone(), serde_json::Value::from(param.1.clone())),
        ).collect();
        serde_json::to_string(&object).ok()
    }

    /// The cache key of a lookup of `path` with these parameters.
    pub fn cache_key(&self, path: &str) -> (key: String)
        ensures
            key@ == key_of(path@, self@),
    {
        let key = String::from_str(path);
        match self.canonical_text() {
            Some(text) => key.concat(text.as_str()),
            None => key,
        }
    }
}

/// Parameters that give the same names the same values have the same cache
/// key under one path, in whatever order they were set.
pub proof fn same_parameters_same_key(
    path: Seq<char>,
    first: Map<Seq<char>, Option<Seq<char>>>,
    second: Map<Seq<char>, Option<Seq<char>>>,
)
    requires
        first =~= second,
    ensures
        key_of(path, first) == key_of(path, second),
{
}

/// Setting two different names comes to the same parameters, and so to the
/// same cache key, in either order.
pub proof fn order_of_setting_is_immaterial(
    path: Seq<char>,
    params: Map<Seq<char>, Option<Seq<char>>>,
    name: Seq<char>,
    value: Option<Seq<char>>,
    other_name: Seq<char>,
    other_value: Option<Seq<char>>,
)
    requires
        name != other_name,
    ensures
        params.insert(name, value).insert(other_name, other_value) == params.insert(
            other_name,
            other_value,
        ).insert(name, value),
        key_of(path, params.insert(name, value).insert(other_name, other_value)) == key_of(
            path,
            params.insert(other_name, other_value).insert(name, value),
        ),
{
    assert(params.insert(name, value).insert(other_name, other_value) =~= params.insert(
        other_name,
        other_value,
    ).insert(name, value));
}

} // verus!
