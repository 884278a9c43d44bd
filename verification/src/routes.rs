//! The decisions that the routes make between the request and the reply.

use vstd::prelude::*;
use vstd::string::*;

verus! {

/// What a lookup of repositories asks for.
#[derive(Debug, Clone, PartialEq, Eq)]
pub enum RepositoryLookup {
    /// A search for the given words.
    Search(String),
    /// The repositories of the given ranks.
    Ranking(String),
    /// Neither was given.
    Missing,
}

/// What a question on safety is about.
#[derive(Debug, Clone, PartialEq, Eq)]
pub struct SafetyTarget {
    /// The addresses asked about.
    pub uris: String,
    /// Whether one address was asked about, so that one word answers.
    pub is_single: bool,
}

/// The ranks that a ranking asks for, from 1 to 5.
#[derive(Debug, Clone, Copy, PartialEq, Eq, Structural)]
pub struct Ranks {
    pub one: bool,
    pub two: bool,
    pub three: bool,
    pub four: bool,
    pub five: bool,
}

/// Whether the character at `at` stands alone between commas, or between a
/// comma and an end of the text.
pub open spec fn stands_alone(text: Seq<char>, at: int) -> bool {
    &&& 0 <= at < text.len()
    &&& (at == 0 || text[at - 1] == ',')
    &&& (at == text.len() - 1 || text[at + 1] == ',')
}

/// Whether `digit` stands alone at `at`.
pub open spec fn is_rank_at(text: Seq<char>, at: int, digit: char) -> bool {
    stands_alone(text, at) && text[at] == digit
}

/// Whether the comma-separated list `text` names the rank written `digit`.
pub open spec fn names_rank(text: Seq<char>, digit: char) -> bool {
    exists|at: int| #[trigger] is_rank_at(text, at, digit)
}

/// The ranks that the comma-separated list `text` names. Everything in the
/// list that is not one of `1` to `5` is passed over.
pub open spec fn ranks_of(text: Seq<char>) -> Ranks {
    Ranks {
        one: names_rank(text, '1'),
        two: names_rank(text, '2'),
        three: names_rank(text, '3'),
        four: names_rank(text, '4'),
        five: names_rank(text, '5'),
    }
}

impl Ranks {
    /// Whether a repository of the tier `tier` is among the ranks.
    pub open spec fn holds(self, tier: u8) -> bool {
        ||| tier == 1 && self.one
        ||| tier == 2 && self.two
        ||| tier == 3 && self.three
        ||| tier == 4 && self.four
        ||| tier == 5 && self.five
    }

    /// Whether a repository of the tier `tier` is among the ranks.
    pub fn contains(&self, tier: u8) -> (found: bool)
        ensures
            found == self.holds(tier),
    {
        (tier == 1 && self.one) || (tier == 2 && self.two) || (tier == 3 && self.three) || (tier == 4
            && self.four) || (tier == 5 && self.five)
    }
}

/// Whether the comma-separated list `ranking` names the rank written
/// `digit`.
fn names(ranking: &str, digit: char) -> (found: bool)
    ensures
        found == names_rank(ranking@, digit),
{
    let length = ranking.unicode_len();
    let mut found = false;
    let mut at: usize = 0;
    let mut after_comma = true;
    let ghost mut seen: int = 0;
    while at < length
        invariant
            length == ranking@.len(),
            at <= length,
            after_comma == (at == 0 || ranking@[at - 1] == ','),
            found ==> is_rank_at(ranking@, seen, digit),
            !found ==> forall|i: int| 0 <= i < at ==> !#[trigger] is_rank_at(ranking@, i, digit),
        decreases length - at,
    {
        let here = ranking.get_char(at);
        let before_comma = if at + 1 < length {
            ranking.get_char(at + 1) == ','
        } else {
            true
        };
        if after_comma && before_comma && here == digit {
            found = true;
            proof {
                seen = at as int;
            }
        }
        after_comma = here == ',';
        at += 1;
    }
    found
}

/// Reads the ranks out of a comma-separated list such as `1,3,5`.
pub fn parse_ranks(ranking: &str) -> (ranks: Ranks)
    ensures
        ranks == ranks_of(ranking@),
{
    Ranks {
        one: names(ranking, '1'),
        two: names(ranking, '2'),
        three: names(ranking, '3'),
        four: names(ranking, '4'),
        five: names(ranking, '5'),
    }
}

/// Picks what a lookup of repositories asks for: a search where words are
/// given, else a ranking where ranks are given.
pub fn repository_lookup(query: Option<String>, ranking: Option<String>) -> (lookup: RepositoryLookup)
    ensures
        lookup == match (query, ranking) {
            (Some(words), _) => RepositoryLookup::Search(words),
            (None, Some(ranks)) => RepositoryLookup::Ranking(ranks),
            (None, None) => RepositoryLookup::Missing,
        },
{
    match query {
        Some(words) => RepositoryLookup::Search(words),
        None => match ranking {
            Some(ranks) => RepositoryLookup::Ranking(ranks),
            None => RepositoryLookup::Missing,
        },
    }
}

/// Picks what a question on safety is about: the list of addresses where one is
/// given, else the single address, else nothing.
pub fn safety_target(query: Option<String>, queries: Option<String>) -> (target: Option<SafetyTarget>)
    ensures
        target == match (queries, query) {
            (Some(list), _) => Some(SafetyTarget { uris: list, is_single: false }),
            (None, Some(one)) => Some(SafetyTarget { uris: one, is_single: true }),
            (None, None) => None::<SafetyTarget>,
        },
{
    match queries {
        Some(list) => Some(SafetyTarget { uris: list, is_single: false }),
        None => match query {
            Some(one) => Some(SafetyTarget { uris: one, is_single: true }),
            None => None,
        },
    }
}

/// Whether a question on safety is answered with one word: one address was
/// asked about, one answer was counted, and there is an answer to take the
/// word from. `items` is the number of answers that came back.
pub fn answers_with_one_word(is_single: bool, count: u32, items: usize) -> (one: bool)
    ensures
        one == (is_single && count == 1 && items > 0),
{
    is_single && count == 1 && items > 0
}

/// The word for an answer on safety.
pub fn safety_label(safe: bool) -> (label: &'static str)
    ensures
        label@ == if safe {
            "safe"@
        } else {
            "unsafe"@
        },
{
    if safe {
        "safe"
    } else {
        "unsafe"
    }
}

/// The place of the first version that is the current one, if there is one.
pub fn first_current(current: &Vec<bool>) -> (found: Option<usize>)
    ensures
        match found {
            Some(at) => at < current@.len() && current@[at as int] && forall|i: int|
                0 <= i < at ==> !current@[i],
            None => forall|i: int| 0 <= i < current@.len() ==> !current@[i],
        },
{
    let mut at: usize = 0;
    while at < current.len()
        invariant
            at <= current@.len(),
            forall|i: int| 0 <= i < at ==> !current@[i],
        decreases current@.len() - at,
    {
        if current[at] {
            return Some(at);
        }
        at += 1;
    }
    None
}

} // verus!
