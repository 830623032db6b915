//! The filter engine: turns a path list, a query and a mode into the
//! filtered (and, for fuzzy search, ranked) path list, together with the
//! filter input box.

use vstd::prelude::*;

use crate::messages::{Focus, Key, Message, MultipleTimesOperation, OnceOperation};
use crate::strutil::{contains_seq, contains_str, string_from_chars};

verus! {

/// How the query is interpreted.
#[derive(Clone, Copy, Debug, PartialEq, Eq, Structural)]
pub enum FilterMode {
    PartialMatch,
    FuzzyMatch,
    RegularMatch,
}

impl FilterMode {
    /// The mode after this one in the cycle.
    pub open spec fn spec_next(self) -> FilterMode {
        match self {
            FilterMode::PartialMatch => FilterMode::FuzzyMatch,
            FilterMode::FuzzyMatch => FilterMode::RegularMatch,
            FilterMode::RegularMatch => FilterMode::PartialMatch,
        }
    }

    /// The mode before this one in the cycle.
    pub open spec fn spec_prev(self) -> FilterMode {
        match self {
            FilterMode::PartialMatch => FilterMode::RegularMatch,
            FilterMode::FuzzyMatch => FilterMode::PartialMatch,
            FilterMode::RegularMatch => FilterMode::FuzzyMatch,
        }
    }

    pub fn next(self) -> (r: FilterMode)
        ensures
            r == self.spec_next(),
    {
        match self {
            FilterMode::PartialMatch => FilterMode::FuzzyMatch,
            FilterMode::FuzzyMatch => FilterMode::RegularMatch,
            FilterMode::RegularMatch => FilterMode::PartialMatch,
        }
    }

    pub fn prev(self) -> (r: FilterMode)
        ensures
            r == self.spec_prev(),
    {
        match self {
            FilterMode::PartialMatch => FilterMode::RegularMatch,
            FilterMode::FuzzyMatch => FilterMode::PartialMatch,
            FilterMode::RegularMatch => FilterMode::FuzzyMatch,
        }
    }

    /// Applies this mode's filter to `items`.
    pub fn filter(self, items: Vec<String>, query: &String) -> (r: Vec<String>)
        ensures
            self is PartialMatch ==> r.deep_view() == partial_filter(items.deep_view(), query@),
            self is FuzzyMatch ==> r.deep_view() == fuzzy_filter(items.deep_view(), query@),
            self is RegularMatch && !regex_valid(query@) ==> r.deep_view() == seq!["error"@],
            self is RegularMatch && regex_valid(query@) ==> r.deep_view() == regex_filter(
                items.deep_view(),
                query@,
            ),
    {
        match self {
            FilterMode::PartialMatch => filter_partial(&items, query),
            FilterMode::FuzzyMatch => filter_fuzzy(&items, query),
            FilterMode::RegularMatch => filter_regex(&items, query),
        }
    }
}

/// An item survives a partial-match filter when the query is empty or occurs
/// in the item.
pub open spec fn partial_keep(item: Seq<char>, q: Seq<char>) -> bool {
    q.len() == 0 || contains_seq(item, q)
}

/// The partial-match filter: keeps matching items in input order.
pub open spec fn partial_filter(items: Seq<Seq<char>>, q: Seq<char>) -> Seq<Seq<char>> {
    items.filter(|s: Seq<char>| partial_keep(s, q))
}

proof fn lemma_partial_filter_step(items: Seq<Seq<char>>, q: Seq<char>, i: int)
    requires
        0 <= i < items.len(),
    ensures
        partial_filter(items.take(i + 1), q) == if partial_keep(items[i], q) {
            partial_filter(items.take(i), q).push(items[i])
        } else {
            partial_filter(items.take(i), q)
        },
{
    reveal(Seq::filter);
    assert(items.take(i + 1).drop_last() =~~= items.take(i));
    assert(items.take(i + 1).last() == items[i]);
}

fn filter_partial(items: &Vec<String>, query: &String) -> (r: Vec<String>)
    ensures
        r.deep_view() == partial_filter(items.deep_view(), query@),
{
    let n = items.len();
    let mut r: Vec<String> = Vec::new();
    let mut i: usize = 0;
    proof {
        reveal(Seq::filter);
        assert(items.deep_view().take(0) =~~= Seq::<Seq<char>>::empty());
        assert(r.deep_view() =~~= partial_filter(items.deep_view().take(0), query@));
    }
    while i < n
        invariant
            n == items@.len(),
            i <= n,
            r.deep_view() == partial_filter(items.deep_view().take(i as int), query@),
        decreases n - i,
    {
        let keep = if query.as_str().is_empty() {
            true
        } else {
            contains_str(&items[i], query)
        };
        proof {
            assert(items.deep_view()[i as int] == items@[i as int]@);
            assert(keep == partial_keep(items.deep_view()[i as int], query@));
        }
        let ghost old_r = r.deep_view();
        if keep {
            r.push(items[i].clone());
            proof {
                assert(r.deep_view() =~~= old_r.push(items@[i as int]@));
            }
        }
        proof {
            lemma_partial_filter_step(items.deep_view(), query@, i as int);
            assert(r.deep_view() =~~= partial_filter(
                items.deep_view().take(i as int + 1),
                query@,
            ));
        }
        i = i + 1;
    }
    proof {
        assert(items.deep_view().take(n as int) =~~= items.deep_view());
    }
    r
}

/// The partial-match filter keeps exactly the items the query occurs in,
/// and an empty query keeps the whole list, in order.
pub proof fn lemma_partial_filter_correct(items: Seq<Seq<char>>, q: Seq<char>)
    ensures
        forall|k: int|
            0 <= k < partial_filter(items, q).len() ==> partial_keep(
                #[trigger] partial_filter(items, q)[k],
                q,
            ),
        q.len() == 0 ==> partial_filter(items, q) == items,
    decreases items.len(),
{
    broadcast use vstd::seq_lib::group_seq_properties;

    assert forall|k: int| 0 <= k < partial_filter(items, q).len() implies partial_keep(
        #[trigger] partial_filter(items, q)[k],
        q,
    ) by {
        items.lemma_filter_pred(|s: Seq<char>| partial_keep(s, q), k);
    }
    if q.len() == 0 {
        reveal(Seq::filter);
        if items.len() == 0 {
            assert(partial_filter(items, q) =~~= items);
        } else {
            lemma_partial_filter_correct(items.drop_last(), q);
            assert(partial_filter(items, q) =~~= items);
        }
    }
}

/// Filtering a second time with the same query and the partial-match mode
/// changes nothing: the filter is idempotent.
pub proof fn lemma_partial_filter_idempotent(items: Seq<Seq<char>>, q: Seq<char>)
    ensures
        partial_filter(partial_filter(items, q), q) == partial_filter(items, q),
    decreases items.len(),
{
    reveal(Seq::filter);
    if items.len() == 0 {
        assert(partial_filter(partial_filter(items, q), q) =~~= partial_filter(items, q));
    } else {
        lemma_partial_filter_idempotent(items.drop_last(), q);
        let g = partial_filter(items.drop_last(), q);
        if partial_keep(items.last(), q) {
            assert(partial_filter(items, q) == g.push(items.last()));
            assert(g.push(items.last()).drop_last() =~~= g);
            assert(g.push(items.last()).last() == items.last());
            assert(partial_filter(partial_filter(items, q), q) =~~= partial_filter(items, q));
        } else {
            assert(partial_filter(items, q) == g);
        }
    }
}

/// Score that fuzzy_matcher's SkimMatcherV2 with default settings assigns to
/// `choice` against `pattern`; nothing when the pattern does not match. The
/// score is a function of the two strings alone.
pub uninterp spec fn fuzzy_score(choice: Seq<char>, pattern: Seq<char>) -> Option<i64>;

/// Relies on fuzzy_matcher::skim::SkimMatcherV2::fuzzy_match with default
/// settings, whose result depends on the choice and the pattern alone.
#[verifier::external_body]
fn fuzzy_match_exec(choice: &String, pattern: &String) -> (r: Option<i64>)
    ensures
        r == fuzzy_score(choice@, pattern@),
{
    let matcher = fuzzy_matcher::skim::SkimMatcherV2::default();
    fuzzy_matcher::FuzzyMatcher::fuzzy_match(&matcher, choice, pattern)
}

/// The items that fuzzy-match the query, each with its score, in input order.
pub open spec fn fuzzy_matches(items: Seq<Seq<char>>, q: Seq<char>) -> Seq<(Seq<char>, i64)> {
    items.filter_map(
        |s: Seq<char>|
            match fuzzy_score(s, q) {
                Option::Some(sc) => Option::Some((s, sc)),
                Option::None => Option::None,
            },
    )
}

/// Inserts a scored item into a list sorted by descending score, after every
/// item that scores at least as high, so that insertion is stable.
pub open spec fn insert_desc(r: Seq<(Seq<char>, i64)>, x: (Seq<char>, i64)) -> Seq<
    (Seq<char>, i64),
>
    decreases r.len(),
{
    if r.len() == 0 {
        seq![x]
    } else if r[0].1 >= x.1 {
        seq![r[0]] + insert_desc(r.drop_first(), x)
    } else {
        seq![x] + r
    }
}

/// Stable sort by descending score, built by inserting from the left.
pub open spec fn sort_desc(s: Seq<(Seq<char>, i64)>) -> Seq<(Seq<char>, i64)>
    decreases s.len(),
{
    if s.len() == 0 {
        Seq::empty()
    } else {
        insert_desc(sort_desc(s.drop_last()), s.last())
    }
}

/// Scores never go up along the sequence.
pub open spec fn sorted_desc(s: Seq<(Seq<char>, i64)>) -> bool {
    forall|i: int, j: int| 0 <= i < j < s.len() ==> s[i].1 >= s[j].1
}

/// The items of a scored list, scores dropped.
pub open spec fn pair_items(s: Seq<(Seq<char>, i64)>) -> Seq<Seq<char>> {
    s.map_values(|p: (Seq<char>, i64)| p.0)
}

/// The fuzzy filter: the matching items, sorted by descending score, ties in
/// input order.
pub open spec fn fuzzy_filter(items: Seq<Seq<char>>, q: Seq<char>) -> Seq<Seq<char>> {
    pair_items(sort_desc(fuzzy_matches(items, q)))
}

/// Where the scan of the exec insertion stopped is where `insert_desc` puts
/// the element.
proof fn lemma_insert_desc_at(s: Seq<(Seq<char>, i64)>, x: (Seq<char>, i64), j: int)
    requires
        0 <= j <= s.len(),
        forall|k: int| 0 <= k < j ==> s[k].1 >= x.1,
        j < s.len() ==> s[j].1 < x.1,
    ensures
        insert_desc(s, x) == s.take(j) + seq![x] + s.skip(j),
    decreases j,
{
    if j == 0 {
        if s.len() == 0 {
            assert(insert_desc(s, x) =~~= s.take(0) + seq![x] + s.skip(0));
        } else {
            assert(insert_desc(s, x) =~~= s.take(0) + seq![x] + s.skip(0));
        }
    } else {
        assert(s[0].1 >= x.1);
        lemma_insert_desc_at(s.drop_first(), x, j - 1);
        assert(s.drop_first().take(j - 1) =~~= s.take(j).drop_first());
        assert(s.drop_first().skip(j - 1) =~~= s.skip(j));
        assert(insert_desc(s, x) =~~= s.take(j) + seq![x] + s.skip(j));
    }
}

/// Inserting into a sorted list keeps it sorted, grows it by one, and adds
/// no element but the inserted one.
proof fn lemma_insert_desc_props(s: Seq<(Seq<char>, i64)>, x: (Seq<char>, i64))
    requires
        sorted_desc(s),
    ensures
        sorted_desc(insert_desc(s, x)),
        insert_desc(s, x).len() == s.len() + 1,
        forall|k: int|
            0 <= k < insert_desc(s, x).len() ==> (#[trigger] insert_desc(s, x)[k] == x
                || s.contains(insert_desc(s, x)[k])),
    decreases s.len(),
{
    if s.len() == 0 {
    } else if s[0].1 >= x.1 {
        let tail = s.drop_first();
        assert(sorted_desc(tail)) by {
            assert forall|i: int, j: int| 0 <= i < j < tail.len() implies tail[i].1 >= tail[j].1 by {
                assert(s[i + 1].1 >= s[j + 1].1);
            }
        }
        lemma_insert_desc_props(tail, x);
        let r = insert_desc(s, x);
        let ri = insert_desc(tail, x);
        assert(r == seq![s[0]] + ri);
        assert forall|i: int, j: int| 0 <= i < j < r.len() implies r[i].1 >= r[j].1 by {
            if i == 0 {
                // r[j] is x or an element of the tail; both score at most s[0].
                assert(ri[j - 1] == x || tail.contains(ri[j - 1]));
                if ri[j - 1] == x {
                } else {
                    let m = choose|m: int| 0 <= m < tail.len() && tail[m] == ri[j - 1];
                    assert(s[0].1 >= s[m + 1].1);
                }
            } else {
                assert(ri[i - 1].1 >= ri[j - 1].1);
            }
        }
        assert forall|k: int| 0 <= k < r.len() implies (#[trigger] r[k] == x || s.contains(
            r[k],
        )) by {
            if k == 0 {
                assert(s[0] == r[0]);
            } else {
                assert(r[k] == ri[k - 1]);
                if ri[k - 1] == x {
                } else {
                    let m = choose|m: int| 0 <= m < tail.len() && tail[m] == ri[k - 1];
                    assert(s[m + 1] == r[k]);
                }
            }
        }
    } else {
        let r = insert_desc(s, x);
        assert(r == seq![x] + s);
        assert forall|i: int, j: int| 0 <= i < j < r.len() implies r[i].1 >= r[j].1 by {
            if i == 0 {
                assert(r[j] == s[j - 1]);
                if j - 1 > 0 {
                    assert(s[0].1 >= s[j - 1].1);
                }
            } else {
                assert(s[i - 1].1 >= s[j - 1].1);
            }
        }
        assert forall|k: int| 0 <= k < r.len() implies (#[trigger] r[k] == x || s.contains(
            r[k],
        )) by {
            if k > 0 {
                assert(s[k - 1] == r[k]);
            }
        }
    }
}

/// The stable sort is sorted, keeps the length, and invents no elements.
proof fn lemma_sort_desc_props(s: Seq<(Seq<char>, i64)>)
    ensures
        sorted_desc(sort_desc(s)),
        sort_desc(s).len() == s.len(),
        forall|k: int| 0 <= k < sort_desc(s).len() ==> s.contains(#[trigger] sort_desc(s)[k]),
    decreases s.len(),
{
    if s.len() > 0 {
        lemma_sort_desc_props(s.drop_last());
        lemma_insert_desc_props(sort_desc(s.drop_last()), s.last());
        assert forall|k: int| 0 <= k < sort_desc(s).len() implies s.contains(
            #[trigger] sort_desc(s)[k],
        ) by {
            let e = sort_desc(s)[k];
            if e == s.last() {
                assert(s[s.len() - 1] == e);
            } else {
                assert(sort_desc(s.drop_last()).contains(e));
                let m = choose|m: int|
                    0 <= m < sort_desc(s.drop_last()).len() && sort_desc(s.drop_last())[m] == e;
                assert(s.drop_last().contains(e));
                let m2 = choose|m2: int| 0 <= m2 < s.drop_last().len() && s.drop_last()[m2] == e;
                assert(s[m2] == e);
            }
        }
    }
}

/// Every scored pair the fuzzy filter works with carries the score of its
/// own item.
proof fn lemma_fuzzy_matches_scored(items: Seq<Seq<char>>, q: Seq<char>, k: int)
    requires
        0 <= k < fuzzy_matches(items, q).len(),
    ensures
        fuzzy_score(fuzzy_matches(items, q)[k].0, q) == Option::Some(fuzzy_matches(items, q)[k].1),
    decreases items.len(),
{
    let f = |s: Seq<char>|
        match fuzzy_score(s, q) {
            Option::Some(sc) => Option::Some((s, sc)),
            Option::None => Option::None,
        };
    if items.len() > 0 {
        let rest = items.drop_last();
        match f(items.last()) {
            Option::Some(p) => {
                if k < fuzzy_matches(items, q).len() - 1 {
                    lemma_fuzzy_matches_scored(rest, q, k);
                }
            },
            Option::None => {
                lemma_fuzzy_matches_scored(rest, q, k);
            },
        }
    }
}

/// Fuzzy ordering: among the items the fuzzy filter returns, one with a
/// higher score stands before one with a lower score; the scores never go up
/// along the result.
pub proof fn lemma_fuzzy_ordering(items: Seq<Seq<char>>, q: Seq<char>, i: int, j: int)
    requires
        0 <= i < j < fuzzy_filter(items, q).len(),
    ensures
        fuzzy_score(fuzzy_filter(items, q)[i], q) is Some,
        fuzzy_score(fuzzy_filter(items, q)[j], q) is Some,
        fuzzy_score(fuzzy_filter(items, q)[i], q)->Some_0 >= fuzzy_score(
            fuzzy_filter(items, q)[j],
            q,
        )->Some_0,
{
    let m = fuzzy_matches(items, q);
    let srt = sort_desc(m);
    lemma_sort_desc_props(m);
    let pi = srt[i];
    let pj = srt[j];
    assert(m.contains(pi));
    assert(m.contains(pj));
    let ki = choose|k: int| 0 <= k < m.len() && m[k] == pi;
    let kj = choose|k: int| 0 <= k < m.len() && m[k] == pj;
    lemma_fuzzy_matches_scored(items, q, ki);
    lemma_fuzzy_matches_scored(items, q, kj);
    assert(pair_items(srt)[i] == pi.0);
    assert(pair_items(srt)[j] == pj.0);
    assert(pi.1 >= pj.1);
}

proof fn lemma_fuzzy_matches_step(items: Seq<Seq<char>>, q: Seq<char>, i: int)
    requires
        0 <= i < items.len(),
    ensures
        fuzzy_matches(items.take(i + 1), q) == if fuzzy_score(items[i], q) is Some {
            fuzzy_matches(items.take(i), q).push((items[i], fuzzy_score(items[i], q)->Some_0))
        } else {
            fuzzy_matches(items.take(i), q)
        },
{
    assert(items.take(i + 1).drop_last() =~~= items.take(i));
    assert(items.take(i + 1).last() == items[i]);
    match fuzzy_score(items[i], q) {
        Option::Some(sc) => {
            assert(fuzzy_matches(items.take(i + 1), q) =~~= fuzzy_matches(items.take(i), q).push(
                (items[i], sc),
            ));
        },
        Option::None => {},
    }
}

fn filter_fuzzy(items: &Vec<String>, query: &String) -> (r: Vec<String>)
    ensures
        r.deep_view() == fuzzy_filter(items.deep_view(), query@),
{
    let n = items.len();
    // Collect the matching items with their scores, in input order.
    let mut pairs: Vec<(String, i64)> = Vec::new();
    let mut i: usize = 0;
    proof {
        assert(items.deep_view().take(0) =~~= Seq::<Seq<char>>::empty());
        assert(pairs.deep_view() =~~= fuzzy_matches(items.deep_view().take(0), query@));
    }
    while i < n
        invariant
            n == items@.len(),
            i <= n,
            pairs.deep_view() == fuzzy_matches(items.deep_view().take(i as int), query@),
        decreases n - i,
    {
        let ghost old_pairs = pairs.deep_view();
        match fuzzy_match_exec(&items[i], query) {
            Option::Some(score) => {
                pairs.push((items[i].clone(), score));
                proof {
                    assert(pairs.deep_view() =~~= old_pairs.push(
                        (items@[i as int]@, score),
                    ));
                }
            },
            Option::None => {},
        }
        proof {
            lemma_fuzzy_matches_step(items.deep_view(), query@, i as int);
            assert(pairs.deep_view() =~~= fuzzy_matches(
                items.deep_view().take(i as int + 1),
                query@,
            ));
        }
        i = i + 1;
    }
    proof {
        assert(items.deep_view().take(n as int) =~~= items.deep_view());
    }
    // Stable insertion sort by descending score.
    let ghost all_pairs = pairs.deep_view();
    let total = pairs.len();
    let mut sorted: Vec<(String, i64)> = Vec::new();
    let mut taken: usize = 0;
    proof {
        assert(all_pairs.take(0) =~~= Seq::<(Seq<char>, i64)>::empty());
        assert(sorted.deep_view() =~~= sort_desc(all_pairs.take(0)));
    }
    while pairs.len() > 0
        invariant
            total == all_pairs.len(),
            taken + pairs@.len() == total,
            pairs.deep_view() == all_pairs.skip(taken as int),
            sorted.deep_view() == sort_desc(all_pairs.take(taken as int)),
        decreases pairs@.len(),
    {
        let ghost pre = pairs.deep_view();
        let ghost pre_raw = pairs@;
        let x = pairs.remove(0);
        proof {
            assert(pre[0] == pre_raw[0].deep_view());
            assert(x.deep_view() == all_pairs[taken as int]);
            assert forall|k: int| 0 <= k < pairs@.len() implies pairs.deep_view()[k]
                == all_pairs.skip(taken as int + 1)[k] by {
                assert(pairs@[k] == pre_raw[k + 1]);
                assert(pre[k + 1] == pre_raw[k + 1].deep_view());
                assert(pre[k + 1] == all_pairs.skip(taken as int)[k + 1]);
            }
            assert(pairs.deep_view() =~~= all_pairs.skip(taken as int + 1));
        }
        // Scan for the first position whose score is below the new score.
        let mut j: usize = 0;
        let slen = sorted.len();
        while j < slen && sorted[j].1 >= x.1
            invariant
                slen == sorted@.len(),
                j <= slen,
                forall|k: int| 0 <= k < j ==> sorted@[k].1 >= x.1,
            decreases slen - j,
        {
            j = j + 1;
        }
        proof {
            assert forall|k: int| 0 <= k < j implies sorted.deep_view()[k].1
                >= x.deep_view().1 by {
                assert(sorted@[k].1 >= x.1);
            }
            if j < slen {
                assert(sorted@[j as int].1 < x.1);
                assert(sorted.deep_view()[j as int].1 < x.deep_view().1);
            }
            lemma_insert_desc_at(sorted.deep_view(), x.deep_view(), j as int);
        }
        let ghost old_sorted = sorted.deep_view();
        sorted.insert(j, x);
        proof {
            assert(sorted.deep_view() =~~= old_sorted.take(j as int) + seq![
                all_pairs[taken as int],
            ] + old_sorted.skip(j as int));
            assert(all_pairs.take(taken as int + 1).drop_last() =~~= all_pairs.take(
                taken as int,
            ));
            assert(all_pairs.take(taken as int + 1).last() == all_pairs[taken as int]);
            assert(sorted.deep_view() =~~= sort_desc(all_pairs.take(taken as int + 1)));
        }
        taken = taken + 1;
    }
    proof {
        assert(all_pairs.take(taken as int) =~~= all_pairs);
    }
    // Hand back the items alone, in sorted order.
    let mut r: Vec<String> = Vec::new();
    let mut k: usize = 0;
    let m = sorted.len();
    while k < m
        invariant
            m == sorted@.len(),
            k <= m,
            sorted.deep_view() == sort_desc(all_pairs),
            r.deep_view() == pair_items(sort_desc(all_pairs)).take(k as int),
        decreases m - k,
    {
        let ghost old_r = r.deep_view();
        r.push(sorted[k].0.clone());
        proof {
            let mv = pair_items(sort_desc(all_pairs));
            assert(sorted.deep_view()[k as int] == sorted@[k as int].deep_view());
            assert(sorted@[k as int].deep_view().0 == sorted@[k as int].0@);
            assert(mv[k as int] == sorted@[k as int].0@);
            assert(r.deep_view() =~~= old_r.push(sorted@[k as int].0@));
            assert(old_r.push(sorted@[k as int].0@) =~~= mv.take(k as int + 1));
            assert(r.deep_view() == mv.take(k as int + 1));
        }
        k = k + 1;
    }
    proof {
        assert(pair_items(sort_desc(all_pairs)).take(m as int) =~~= fuzzy_filter(
            items.deep_view(),
            query@,
        ));
    }
    r
}

/// Whether `pattern` is a syntactically valid regular expression, as
/// regex::Regex::new decides it.
pub uninterp spec fn regex_valid(pattern: Seq<char>) -> bool;

/// Whether the regular expression `pattern` matches somewhere in `text`, as
/// regex::Regex::is_match decides it; meaningful only for valid patterns.
pub uninterp spec fn regex_match(pattern: Seq<char>, text: Seq<char>) -> bool;

/// Relies on regex::Regex::new: it succeeds exactly on the syntactically
/// valid patterns, a property of the pattern alone.
#[verifier::external_body]
fn regex_compiles(pattern: &String) -> (r: bool)
    ensures
        r == regex_valid(pattern@),
{
    regex::Regex::new(pattern).is_ok()
}

/// Relies on regex::Regex::new and regex::Regex::is_match: whether `pattern`
/// matches somewhere in `text`, or nothing when the pattern is invalid. The
/// result depends on the two strings alone.
#[verifier::external_body]
fn regex_match_exec(pattern: &String, text: &String) -> (r: Option<bool>)
    ensures
        r is Some <==> regex_valid(pattern@),
        r matches Some(b) ==> b == regex_match(pattern@, text@),
{
    regex::Regex::new(pattern).ok().map(|re| re.is_match(text))
}

/// The regular-expression filter for a valid pattern: keeps the items the
/// pattern matches, in input order.
pub open spec fn regex_filter(items: Seq<Seq<char>>, q: Seq<char>) -> Seq<Seq<char>> {
    items.filter(|s: Seq<char>| regex_match(q, s))
}

proof fn lemma_regex_filter_step(items: Seq<Seq<char>>, q: Seq<char>, i: int)
    requires
        0 <= i < items.len(),
    ensures
        regex_filter(items.take(i + 1), q) == if regex_match(q, items[i]) {
            regex_filter(items.take(i), q).push(items[i])
        } else {
            regex_filter(items.take(i), q)
        },
{
    reveal(Seq::filter);
    assert(items.take(i + 1).drop_last() =~~= items.take(i));
    assert(items.take(i + 1).last() == items[i]);
}

fn filter_regex(items: &Vec<String>, query: &String) -> (r: Vec<String>)
    ensures
        !regex_valid(query@) ==> r.deep_view() == seq!["error"@],
        regex_valid(query@) ==> r.deep_view() == regex_filter(items.deep_view(), query@),
{
    if !regex_compiles(query) {
        let mut r: Vec<String> = Vec::new();
        r.push(String::from_str("error"));
        proof {
            assert(r.deep_view() =~~= seq!["error"@]);
        }
        return r;
    }
    let n = items.len();
    let mut r: Vec<String> = Vec::new();
    let mut i: usize = 0;
    proof {
        reveal(Seq::filter);
        assert(items.deep_view().take(0) =~~= Seq::<Seq<char>>::empty());
        assert(r.deep_view() =~~= regex_filter(items.deep_view().take(0), query@));
    }
    while i < n
        invariant
            n == items@.len(),
            i <= n,
            regex_valid(query@),
            r.deep_view() == regex_filter(items.deep_view().take(i as int), query@),
        decreases n - i,
    {
        let keep = match regex_match_exec(query, &items[i]) {
            Option::Some(b) => b,
            Option::None => {
                proof {
                    assert(false);
                }
                false
            },
        };
        let ghost old_r = r.deep_view();
        if keep {
            r.push(items[i].clone());
            proof {
                assert(r.deep_view() =~~= old_r.push(items@[i as int]@));
            }
        }
        proof {
            lemma_regex_filter_step(items.deep_view(), query@, i as int);
            assert(r.deep_view() =~~= regex_filter(items.deep_view().take(i as int + 1), query@));
        }
        i = i + 1;
    }
    proof {
        assert(items.deep_view().take(n as int) =~~= items.deep_view());
    }
    r
}


/// The most characters the filter query holds; keystrokes beyond it are
/// ignored. The bound is a machine limit, not a rule of the filter: it
/// keeps the cursor's byte offset (at most four bytes per character)
/// provably within `usize`, and `enter_char`'s contract states both sides
/// of it.
pub const QUERY_CAP: usize = 4096;

/// How many bytes a character occupies in its utf-8 form.
pub open spec fn utf8_len(c: char) -> nat {
    if (c as u32) < 0x80 {
        1
    } else if (c as u32) < 0x800 {
        2
    } else if (c as u32) < 0x10000 {
        3
    } else {
        4
    }
}

/// The utf-8 byte length of a character sequence.
pub open spec fn byte_len_of(s: Seq<char>) -> nat
    decreases s.len(),
{
    if s.len() == 0 {
        0
    } else {
        byte_len_of(s.drop_last()) + utf8_len(s.last())
    }
}

fn utf8_len_exec(c: char) -> (r: usize)
    ensures
        r == utf8_len(c),
{
    let u = c as u32;
    if u < 0x80 {
        1
    } else if u < 0x800 {
        2
    } else if u < 0x10000 {
        3
    } else {
        4
    }
}

/// The filter input box: the query being typed, the text cursor in it, and
/// the active filter mode.
pub struct Filter {
    pub focus: Focus,
    pub mode: FilterMode,
    pub input: Vec<char>,
    pub character_index: usize,
}

impl Filter {
    /// The cursor sits on a character boundary and the query is within its cap.
    pub open spec fn wf(self) -> bool {
        self.character_index <= self.input@.len() && self.input@.len() <= QUERY_CAP
    }

    pub fn new() -> (r: Filter)
        ensures
            r.wf(),
            r.focus == Focus::Off,
            r.mode == FilterMode::PartialMatch,
            r.input@ == Seq::<char>::empty(),
            r.character_index == 0,
    {
        Filter { focus: Focus::Off, mode: FilterMode::PartialMatch, input: Vec::new(), character_index: 0 }
    }

    /// The query as a string.
    pub fn query_string(&self) -> (r: String)
        ensures
            r@ == self.input@,
    {
        string_from_chars(&self.input)
    }

    /// Clamps a would-be cursor position into the query.
    pub fn clamp_cursor(&self, new_cursor_pos: usize) -> (r: usize)
        ensures
            r == vstd::math::min(new_cursor_pos as int, self.input@.len() as int),
    {
        let n = self.input.len();
        if new_cursor_pos > n {
            n
        } else {
            new_cursor_pos
        }
    }

    pub fn move_cursor_left(&mut self)
        requires
            old(self).wf(),
        ensures
            final(self).wf(),
            final(self).character_index == if old(self).character_index > 0 {
                old(self).character_index - 1
            } else {
                0
            },
            final(self).input == old(self).input,
            final(self).mode == old(self).mode,
            final(self).focus == old(self).focus,
    {
        let moved = if self.character_index > 0 {
            self.character_index - 1
        } else {
            0
        };
        self.character_index = self.clamp_cursor(moved);
    }

    pub fn move_cursor_right(&mut self)
        requires
            old(self).wf(),
        ensures
            final(self).wf(),
            final(self).character_index == vstd::math::min(
                old(self).character_index + 1,
                old(self).input@.len() as int,
            ),
            final(self).input == old(self).input,
            final(self).mode == old(self).mode,
            final(self).focus == old(self).focus,
    {
        let moved = if self.character_index < usize::MAX {
            self.character_index + 1
        } else {
            usize::MAX
        };
        self.character_index = self.clamp_cursor(moved);
    }

    /// The byte position of the cursor in the utf-8 form of the query.
    pub fn byte_index(&self) -> (r: usize)
        requires
            self.wf(),
        ensures
            r == byte_len_of(self.input@.take(self.character_index as int)),
    {
        let mut sum: usize = 0;
        let mut i: usize = 0;
        proof {
            assert(self.input@.take(0) =~= Seq::<char>::empty());
        }
        while i < self.character_index
            invariant
                self.wf(),
                i <= self.character_index,
                sum == byte_len_of(self.input@.take(i as int)),
                sum <= 4 * i,
            decreases self.character_index - i,
        {
            let w = utf8_len_exec(self.input[i]);
            proof {
                assert(self.input@.take(i as int + 1).drop_last() =~= self.input@.take(i as int));
                assert(self.input@.take(i as int + 1).last() == self.input@[i as int]);
            }
            sum = sum + w;
            i = i + 1;
        }
        sum
    }

    /// Inserts a character at the cursor and moves the cursor right; input
    /// at the cap is ignored.
    pub fn enter_char(&mut self, c: char)
        requires
            old(self).wf(),
        ensures
            final(self).wf(),
            old(self).input@.len() < QUERY_CAP ==> final(self).input@ == old(self).input@.insert(
                old(self).character_index as int,
                c,
            ) && final(self).character_index == old(self).character_index + 1,
            old(self).input@.len() >= QUERY_CAP ==> final(self).input == old(self).input
                && final(self).character_index == old(self).character_index,
            final(self).mode == old(self).mode,
            final(self).focus == old(self).focus,
    {
        if self.input.len() < QUERY_CAP {
            let index = self.character_index;
            self.input.insert(index, c);
            self.move_cursor_right();
        }
    }

    /// Removes the character before the cursor, if the cursor is not at the
    /// left edge, and moves the cursor left.
    pub fn delete_char(&mut self)
        requires
            old(self).wf(),
        ensures
            final(self).wf(),
            old(self).character_index > 0 ==> final(self).input@ == old(self).input@.remove(
                old(self).character_index - 1,
            ) && final(self).character_index == old(self).character_index - 1,
            old(self).character_index == 0 ==> final(self).input == old(self).input
                && final(self).character_index == 0,
            final(self).mode == old(self).mode,
            final(self).focus == old(self).focus,
    {
        if self.character_index != 0 {
            let at = self.character_index - 1;
            self.input.remove(at);
            self.character_index = at;
        }
    }

    /// Reacts to a broadcast message: entering the file list drops this
    /// panel's focus, the setup notification grants it.
    pub fn _handle_message(&mut self, message: &Message) -> (r: Message)
        ensures
            r is NoAction,
            final(self).focus == match message {
                Message::Once(OnceOperation::JumpToFiler) => Focus::Off,
                Message::MultipleTimes(MultipleTimesOperation::SetUp) => Focus::ON,
                _ => old(self).focus,
            },
            final(self).mode == old(self).mode,
            final(self).input == old(self).input,
            final(self).character_index == old(self).character_index,
    {
        match message {
            Message::Once(OnceOperation::JumpToFiler) => {
                self.focus = Focus::Off;
            },
            Message::MultipleTimes(MultipleTimesOperation::SetUp) => {
                self.focus = Focus::ON;
            },
            _ => {},
        }
        Message::NoAction
    }

    /// The broadcast entry point; its reply always steps the rank down.
    pub fn handle_message(&mut self, message: &Message) -> (r: Message)
        ensures
            crate::messages::reply_ok(message, &r),
            r is NoAction,
            final(self).focus == match message {
                Message::Once(OnceOperation::JumpToFiler) => Focus::Off,
                Message::MultipleTimes(MultipleTimesOperation::SetUp) => Focus::ON,
                _ => old(self).focus,
            },
            final(self).mode == old(self).mode,
            final(self).input == old(self).input,
            final(self).character_index == old(self).character_index,
    {
        self._handle_message(message)
    }

    /// Flips this panel's focus flag.
    pub fn process_focus(&mut self)
        ensures
            final(self).focus == match old(self).focus {
                Focus::Off => Focus::ON,
                Focus::ON => Focus::Off,
            },
            final(self).mode == old(self).mode,
            final(self).input == old(self).input,
            final(self).character_index == old(self).character_index,
    {
        match self.focus {
            Focus::Off => self.focus = Focus::ON,
            Focus::ON => self.focus = Focus::Off,
        }
    }

    /// Reacts to a keystroke while this panel is focused. Mode changes and
    /// edits re-announce the filter; enter jumps to the file list.
    pub fn process_events(&mut self, key: Key) -> (r: Message)
        requires
            old(self).wf(),
        ensures
            final(self).wf(),
            final(self).focus == old(self).focus,
            key == Key::Down ==> final(self).mode == old(self).mode.spec_prev(),
            key == Key::Up ==> final(self).mode == old(self).mode.spec_next(),
            !(key == Key::Down || key == Key::Up) ==> final(self).mode == old(self).mode,
            key matches Key::Char(c) ==> (old(self).input@.len() < QUERY_CAP
                ==> final(self).input@ == old(self).input@.insert(old(self).character_index as int, c)),
            key == Key::Backspace && old(self).character_index > 0
                ==> final(self).input@ == old(self).input@.remove(old(self).character_index - 1),
            (key == Key::Down || key == Key::Up || key is Char || key == Key::Backspace) ==> (
            r matches Message::MultipleTimes(MultipleTimesOperation::Filtering { query, mode })
                && query@ == final(self).input@ && mode == final(self).mode),
            key == Key::Enter ==> r == Message::Once(OnceOperation::JumpToFiler) && *final(self)
                == *old(self),
            !(key == Key::Down || key == Key::Up || key is Char || key == Key::Backspace || key
                == Key::Enter) ==> r == Message::NoAction && *final(self) == *old(self),
    {
        match key {
            Key::Down => {
                self.mode = self.mode.prev();
                Message::MultipleTimes(MultipleTimesOperation::Filtering {
                    query: self.query_string(),
                    mode: self.mode,
                })
            },
            Key::Up => {
                self.mode = self.mode.next();
                Message::MultipleTimes(MultipleTimesOperation::Filtering {
                    query: self.query_string(),
                    mode: self.mode,
                })
            },
            Key::Char(c) => {
                self.enter_char(c);
                Message::MultipleTimes(MultipleTimesOperation::Filtering {
                    query: self.query_string(),
                    mode: self.mode,
                })
            },
            Key::Enter => Message::Once(OnceOperation::JumpToFiler),
            Key::Backspace => {
                self.delete_char();
                Message::MultipleTimes(MultipleTimesOperation::Filtering {
                    query: self.query_string(),
                    mode: self.mode,
                })
            },
            _ => Message::NoAction,
        }
    }
}

} // verus!
