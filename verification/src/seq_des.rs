//! The seeded decoders of a document with named sections.
//!
//! A document is a map with the sections `documents`, a list, and `journal`,
//! any value. The list is folded into one aggregate: each element that is an
//! object with at least one pair gives its first pair; a pair whose value is
//! `null` is skipped and counted; any other pair is written into the
//! aggregate, over what an earlier pair wrote under the same key. Elements
//! that give no pair are passed over and not counted.

use crate::error::DecodeError;
use crate::error::Failure;
use crate::error::Field;
use crate::error::lemma_names_differ;
use crate::json::JsonShape;
use crate::json::all_entries;
use crate::json::contents;
use crate::json::entries;
use crate::json::first_entry;
use crate::json::object_value;
use crate::json::pair_views;
use crate::json::shape;
use crate::scan::last_value;
use crate::scan::lemma_last_value_step;
use crate::text::same_text;
use vstd::prelude::*;

verus! {

/// What one decode pass counts.
#[derive(Debug, Default, PartialEq, Eq)]
pub struct Stats {
    pub records_skipped: usize,
}

/// A decoded document.
#[derive(Debug)]
pub struct MyData {
    pub documents: Vec<serde_json::Value>,
    pub journal: serde_json::Value,
}

/// The pair that the element `v` of a list gives: the first pair of an
/// object, nothing for an object without pairs or a value that is no object.
pub open spec fn first_pair(v: serde_json::Value) -> Option<(Seq<char>, serde_json::Value)> {
    match shape(v) {
        JsonShape::Object(m) => if entries(m).len() > 0 {
            Some(entries(m)[0])
        } else {
            None
        },
        _ => None,
    }
}

/// Whether the element `v` is skipped and counted: its pair holds `null`.
pub open spec fn is_skipped(v: serde_json::Value) -> bool {
    match first_pair(v) {
        Some(pair) => shape(pair.1) is Null,
        None => false,
    }
}

/// The pair that the element `v` writes into the aggregate, if it writes one.
pub open spec fn kept_pair(v: serde_json::Value) -> Option<(Seq<char>, serde_json::Value)> {
    match first_pair(v) {
        Some(pair) => if shape(pair.1) is Null {
            None
        } else {
            Some(pair)
        },
        None => None,
    }
}

/// The aggregate of a list: what its elements write, the later over the
/// earlier.
pub open spec fn aggregate(items: Seq<serde_json::Value>) -> Map<Seq<char>, serde_json::Value>
    decreases items.len(),
{
    if items.len() == 0 {
        Map::empty()
    } else {
        match kept_pair(items.last()) {
            Some(pair) => aggregate(items.drop_last()).insert(pair.0, pair.1),
            None => aggregate(items.drop_last()),
        }
    }
}

/// How many elements of a list are skipped and counted.
pub open spec fn skipped(items: Seq<serde_json::Value>) -> nat
    decreases items.len(),
{
    if items.len() == 0 {
        0
    } else if is_skipped(items.last()) {
        skipped(items.drop_last()) + 1
    } else {
        skipped(items.drop_last())
    }
}

/// Whether `out` is what the list decoder hands out for `items`: one object
/// that holds the aggregate.
pub open spec fn holds_aggregate(out: Seq<serde_json::Value>, items: Seq<serde_json::Value>) -> bool {
    &&& out.len() == 1
    &&& shape(out[0]) matches JsonShape::Object(m) && contents(entries(m)) == aggregate(items)
}

/// A prefix of a list has no more skipped elements than the list, and a list
/// no more than it has elements.
pub proof fn lemma_skipped_bounds(items: Seq<serde_json::Value>, k: int)
    requires
        0 <= k <= items.len(),
    ensures
        skipped(items.take(k)) <= skipped(items) <= items.len(),
    decreases items.len(),
{
    if items.len() == 0 {
        assert(items.take(k) =~= items);
    } else if k == items.len() {
        assert(items.take(k) =~= items);
        lemma_skipped_bounds(items.drop_last(), k - 1);
    } else {
        lemma_skipped_bounds(items.drop_last(), k);
        assert(items.drop_last().take(k) =~= items.take(k));
    }
}

/// Whether the element `v` writes a pair under `key` into the aggregate.
pub open spec fn writes_under(v: serde_json::Value, key: Seq<char>) -> bool {
    match kept_pair(v) {
        Some(pair) => pair.0 == key,
        None => false,
    }
}

/// Last write wins: the aggregate holds under a key what the last element
/// that writes under that key writes.
pub proof fn lemma_last_write_wins(items: Seq<serde_json::Value>, j: int, key: Seq<char>)
    requires
        0 <= j < items.len(),
        writes_under(items[j], key),
        forall|i: int| j < i < items.len() ==> !writes_under(#[trigger] items[i], key),
    ensures
        kept_pair(items[j]) matches Some(pair) && aggregate(items).contains_pair(key, pair.1),
    decreases items.len(),
{
    if j < items.len() - 1 {
        let front = items.drop_last();
        assert(!writes_under(items[items.len() - 1], key));
        assert forall|i: int| j < i < front.len() implies !writes_under(
            #[trigger] front[i],
            key,
        ) by {
            assert(front[i] == items[i]);
        }
        lemma_last_write_wins(front, j, key);
    }
}

/// The aggregate has a key exactly if some element writes under it.
pub proof fn lemma_aggregate_keys(items: Seq<serde_json::Value>, key: Seq<char>)
    ensures
        aggregate(items).contains_key(key) <==> exists|i: int|
            0 <= i < items.len() && writes_under(#[trigger] items[i], key),
    decreases items.len(),
{
    if items.len() > 0 {
        let front = items.drop_last();
        lemma_aggregate_keys(front, key);
        if exists|i: int| 0 <= i < front.len() && writes_under(#[trigger] front[i], key) {
            let i = choose|i: int| 0 <= i < front.len() && writes_under(#[trigger] front[i], key);
            assert(writes_under(items[i], key));
        }
        if exists|i: int| 0 <= i < items.len() && writes_under(#[trigger] items[i], key) {
            let i = choose|i: int| 0 <= i < items.len() && writes_under(#[trigger] items[i], key);
            if i < front.len() {
                assert(writes_under(front[i], key));
            }
        }
    }
}

/// An element that is no object, or an object without pairs, changes
/// neither the aggregate nor the count: the list without it gives the same.
pub proof fn lemma_passed_over(items: Seq<serde_json::Value>, i: int)
    requires
        0 <= i < items.len(),
        first_pair(items[i]) is None,
    ensures
        aggregate(items.remove(i)) == aggregate(items),
        skipped(items.remove(i)) == skipped(items),
    decreases items.len(),
{
    if i == items.len() - 1 {
        assert(items.remove(i) =~= items.drop_last());
    } else {
        lemma_passed_over(items.drop_last(), i);
        assert(items.remove(i).drop_last() =~= items.drop_last().remove(i));
        assert(items.remove(i).last() == items.last());
    }
}

/// Folds a list of objects into one aggregate.
pub struct DocumentVisitor;

impl DocumentVisitor {
    /// Folds the elements `seq` of a list into their aggregate and hands it
    /// out as the one element of the result; adds the number of skipped
    /// elements to `stats`.
    pub fn visit_seq(&self, seq: &[serde_json::Value], stats: &mut Stats) -> (out: Vec<
        serde_json::Value,
    >)
        requires
            old(stats).records_skipped + skipped(seq@) <= usize::MAX,
        ensures
            holds_aggregate(out@, seq@),
            final(stats).records_skipped == old(stats).records_skipped + skipped(seq@),
    {
        let mut agg_map = serde_json::Map::new();
        let mut i: usize = 0;
        assert(seq@.take(0) =~= Seq::<serde_json::Value>::empty());
        while i < seq.len()
            invariant
                i <= seq@.len(),
                old(stats).records_skipped + skipped(seq@) <= usize::MAX,
                contents(entries(agg_map)) == aggregate(seq@.take(i as int)),
                stats.records_skipped == old(stats).records_skipped + skipped(seq@.take(i as int)),
            decreases seq@.len() - i,
        {
            proof {
                assert(seq@.take(i + 1).drop_last() =~= seq@.take(i as int));
                assert(seq@.take(i + 1).last() == seq@[i as int]);
                lemma_skipped_bounds(seq@, i + 1);
            }
            let item = &seq[i];
            i = i + 1;
            let map = match item.as_object() {
                Some(map) => map,
                None => {
                    continue;
                },
            };
            let (k, v) = match first_entry(map) {
                Some(kv) => kv,
                None => {
                    continue;
                },
            };
            if v.is_null() {
                stats.records_skipped = stats.records_skipped + 1;
            } else {
                agg_map.insert(k, v);
            }
        }
        assert(seq@.take(i as int) =~= seq@);
        let values = object_value(agg_map);
        let mut out: Vec<serde_json::Value> = Vec::new();
        out.push(values);
        out
    }
}

/// What is wrong with the pair `key`, `v` at the top of a document: the
/// section `documents` has to be a list, `journal` may be anything, and no
/// other key may stand there.
pub open spec fn data_pair_failure(key: Seq<char>, v: serde_json::Value) -> Option<Failure> {
    if key == Field::Documents.spec_name() {
        if shape(v) is Array {
            None
        } else {
            Some(Failure::ExpectedList)
        }
    } else if key == Field::Journal.spec_name() {
        None
    } else {
        Some(Failure::UnexpectedKey(key))
    }
}

/// What is wrong with the first pair with which something is wrong.
pub open spec fn data_first_failure(pairs: Seq<(Seq<char>, serde_json::Value)>) -> Option<Failure>
    decreases pairs.len(),
{
    if pairs.len() == 0 {
        None
    } else {
        match data_pair_failure(pairs[0].0, pairs[0].1) {
            Some(failure) => Some(failure),
            None => data_first_failure(pairs.drop_first()),
        }
    }
}

/// How many elements the pair `key`, `v` has skipped and counted.
pub open spec fn pair_skipped(key: Seq<char>, v: serde_json::Value) -> nat {
    if key == Field::Documents.spec_name() {
        list_skipped(v)
    } else {
        0
    }
}

/// How many elements of the list `v` are skipped and counted; 0 if `v` is no
/// list.
pub open spec fn list_skipped(v: serde_json::Value) -> nat {
    match shape(v) {
        JsonShape::Array(items) => skipped(items),
        _ => 0,
    }
}

/// How many elements a pass over `pairs` skips and counts: those of every
/// section `documents` before the first pair with which something is wrong.
pub open spec fn data_skipped(pairs: Seq<(Seq<char>, serde_json::Value)>) -> nat
    decreases pairs.len(),
{
    if pairs.len() == 0 {
        0
    } else if data_pair_failure(pairs[0].0, pairs[0].1) is Some {
        0
    } else {
        pair_skipped(pairs[0].0, pairs[0].1) + data_skipped(pairs.drop_first())
    }
}

/// Whether `documents` is what the pairs give for the section `documents`:
/// the aggregate of the last such section, nothing if there is none.
pub open spec fn documents_of(
    documents: Seq<serde_json::Value>,
    pairs: Seq<(Seq<char>, serde_json::Value)>,
) -> bool {
    match last_value(pairs, Field::Documents.spec_name()) {
        Some(v) => shape(v) matches JsonShape::Array(items) && holds_aggregate(documents, items),
        None => documents.len() == 0,
    }
}

/// Whether `journal` is what the pairs give for the section `journal`: the
/// value of the last such section, `null` if there is none.
pub open spec fn journal_of(
    journal: serde_json::Value,
    pairs: Seq<(Seq<char>, serde_json::Value)>,
) -> bool {
    match last_value(pairs, Field::Journal.spec_name()) {
        Some(v) => journal == v,
        None => shape(journal) is Null,
    }
}

/// Whether `result` is what decoding the top of a document from `pairs`
/// gives: the failure of the first pair that has one, else the document.
pub open spec fn is_data_outcome(
    result: Result<MyData, DecodeError>,
    pairs: Seq<(Seq<char>, serde_json::Value)>,
) -> bool {
    match result {
        Ok(data) => {
            &&& data_first_failure(pairs) is None
            &&& documents_of(data.documents@, pairs)
            &&& journal_of(data.journal, pairs)
        },
        Err(e) => data_first_failure(pairs) == Some(e@),
    }
}

/// Decodes the list of the section `documents`.
pub struct DocumentDeserializer;

impl DocumentDeserializer {
    /// Decodes `value` as a list of objects and folds it into its aggregate.
    /// A value that is no list is a failure. Nothing is decoded, and `None`
    /// is handed out, where the count in `stats` has no room left for one
    /// skipped record for each element of the list.
    pub fn deserialize(&self, value: &serde_json::Value, stats: &mut Stats) -> (result: Option<
        Result<Vec<serde_json::Value>, DecodeError>,
    >)
        ensures
            match result {
                Some(Ok(out)) => {
                    &&& shape(*value) matches JsonShape::Array(items) && holds_aggregate(
                        out@,
                        items,
                    )
                    &&& final(stats).records_skipped == old(stats).records_skipped + list_skipped(
                        *value,
                    )
                },
                Some(Err(e)) => {
                    &&& !(shape(*value) is Array)
                    &&& e@ == Failure::ExpectedList
                    &&& *final(stats) == *old(stats)
                },
                None => {
                    &&& shape(*value) matches JsonShape::Array(items)
                        && old(stats).records_skipped + items.len() > usize::MAX
                    &&& *final(stats) == *old(stats)
                },
            },
    {
        match value.as_array() {
            Some(items) => {
                if items.len() <= usize::MAX - stats.records_skipped {
                    proof {
                        lemma_skipped_bounds(items@, items@.len() as int);
                    }
                    Some(Ok(DocumentVisitor.visit_seq(items.as_slice(), stats)))
                } else {
                    None
                }
            },
            None => Some(Err(DecodeError::ExpectedList)),
        }
    }
}

/// Decodes the top of a document.
pub struct MyDataVisitor;

impl MyDataVisitor {
    /// Decodes a document from the pairs of its map: `documents` goes to the
    /// list decoder with the same `stats`, `journal` is kept as it is, and
    /// any other key is a failure.
    pub fn visit_map(&self, map: &[(String, serde_json::Value)], stats: &mut Stats) -> (result:
        Result<MyData, DecodeError>)
        requires
            old(stats).records_skipped + data_skipped(pair_views(map@)) <= usize::MAX,
        ensures
            is_data_outcome(result, pair_views(map@)),
            final(stats).records_skipped == old(stats).records_skipped + data_skipped(
                pair_views(map@),
            ),
    {
        let ghost pairs = pair_views(map@);
        let mut documents: Vec<serde_json::Value> = Vec::new();
        let mut journal = serde_json::Value::default();
        let mut i: usize = 0;
        proof {
            assert(pairs.skip(0) =~= pairs);
            assert(pairs.take(0) =~= Seq::<(Seq<char>, serde_json::Value)>::empty());
            lemma_names_differ(Field::Documents, Field::Journal);
        }
        while i < map.len()
            invariant
                i <= map@.len(),
                pairs == pair_views(map@),
                pairs.len() == map@.len(),
                Field::Documents.spec_name() != Field::Journal.spec_name(),
                old(stats).records_skipped + data_skipped(pairs) <= usize::MAX,
                data_first_failure(pairs) == data_first_failure(pairs.skip(i as int)),
                old(stats).records_skipped + data_skipped(pairs) == stats.records_skipped
                    + data_skipped(pairs.skip(i as int)),
                documents_of(documents@, pairs.take(i as int)),
                journal_of(journal, pairs.take(i as int)),
            decreases map@.len() - i,
        {
            let key = map[i].0.as_str();
            let value = &map[i].1;
            proof {
                assert(pairs[i as int] == (key@, *value));
                assert(pairs.skip(i as int)[0] == pairs[i as int]);
                assert(pairs.skip(i as int).drop_first() =~= pairs.skip(i + 1));
                lemma_last_value_step(pairs, i as int, Field::Documents.spec_name());
                lemma_last_value_step(pairs, i as int, Field::Journal.spec_name());
            }
            if same_text(key, Field::Documents.name()) {
                match value.as_array() {
                    Some(items) => {
                        documents = DocumentVisitor.visit_seq(items.as_slice(), stats);
                    },
                    None => {
                        return Err(DecodeError::ExpectedList);
                    },
                }
            } else if same_text(key, Field::Journal.name()) {
                journal = value.clone();
            } else {
                return Err(DecodeError::UnexpectedKey(map[i].0.clone()));
            }
            i = i + 1;
        }
        proof {
            assert(pairs.take(i as int) =~= pairs);
        }
        Ok(MyData { documents, journal })
    }
}

/// How many elements the lists of the pair `key`, `v` hold, if it is a
/// section `documents`.
pub open spec fn pair_listed(key: Seq<char>, v: serde_json::Value) -> nat {
    if key == Field::Documents.spec_name() {
        match shape(v) {
            JsonShape::Array(items) => items.len(),
            _ => 0,
        }
    } else {
        0
    }
}

/// How many elements the sections `documents` of `pairs` hold together.
pub open spec fn listed(pairs: Seq<(Seq<char>, serde_json::Value)>) -> nat
    decreases pairs.len(),
{
    if pairs.len() == 0 {
        0
    } else {
        pair_listed(pairs[0].0, pairs[0].1) + listed(pairs.drop_first())
    }
}

/// A pass skips no more elements than the sections `documents` hold.
pub proof fn lemma_data_skipped_bound(pairs: Seq<(Seq<char>, serde_json::Value)>)
    ensures
        data_skipped(pairs) <= listed(pairs),
    decreases pairs.len(),
{
    if pairs.len() > 0 {
        lemma_data_skipped_bound(pairs.drop_first());
        match shape(pairs[0].1) {
            JsonShape::Array(items) => {
                lemma_skipped_bounds(items, items.len() as int);
            },
            _ => {},
        }
    }
}

/// Counts the elements that the sections `documents` of `map` hold together;
/// `None` if there are more than a `usize` can count.
pub fn count_listed(map: &[(String, serde_json::Value)]) -> (count: Option<usize>)
    ensures
        match count {
            Some(n) => n == listed(pair_views(map@)),
            None => listed(pair_views(map@)) > usize::MAX,
        },
{
    let ghost pairs = pair_views(map@);
    let mut count: usize = 0;
    let mut i: usize = 0;
    assert(pairs.skip(0) =~= pairs);
    while i < map.len()
        invariant
            i <= map@.len(),
            pairs == pair_views(map@),
            pairs.len() == map@.len(),
            listed(pairs) == count + listed(pairs.skip(i as int)),
        decreases map@.len() - i,
    {
        proof {
            assert(pairs[i as int] == (map@[i as int].0@, map@[i as int].1));
            assert(pairs.skip(i as int)[0] == pairs[i as int]);
            assert(pairs.skip(i as int).drop_first() =~= pairs.skip(i + 1));
        }
        if same_text(map[i].0.as_str(), Field::Documents.name()) {
            match map[i].1.as_array() {
                Some(items) => {
                    if items.len() > usize::MAX - count {
                        return None;
                    }
                    count = count + items.len();
                },
                None => {},
            }
        }
        i = i + 1;
    }
    Some(count)
}

/// Decodes a whole document.
pub struct MyDataDeserializer;

impl MyDataDeserializer {
    /// Decodes the document `value`, which has to be a map, and counts what
    /// is skipped in `stats`. A value that is no map is a failure. Nothing
    /// is decoded, and `None` is handed out, where the count in `stats` has
    /// no room left for one skipped record for each element that the
    /// sections `documents` hold.
    pub fn deserialize(&self, value: &serde_json::Value, stats: &mut Stats) -> (result: Option<
        Result<MyData, DecodeError>,
    >)
        ensures
            match result {
                Some(outcome) => {
                    &&& match shape(*value) {
                        JsonShape::Object(m) => is_data_outcome(outcome, entries(m)),
                        _ => outcome matches Err(e) && e@ == Failure::ExpectedMap,
                    }
                    &&& final(stats).records_skipped == old(stats).records_skipped
                        + document_skipped(*value)
                },
                None => {
                    &&& shape(*value) matches JsonShape::Object(m)
                        && old(stats).records_skipped + listed(entries(m)) > usize::MAX
                    &&& *final(stats) == *old(stats)
                },
            },
    {
        match value.as_object() {
            Some(m) => {
                let pairs = all_entries(m);
                match count_listed(pairs.as_slice()) {
                    Some(count) => {
                        if count <= usize::MAX - stats.records_skipped {
                            proof {
                                lemma_data_skipped_bound(entries(*m));
                            }
                            Some(MyDataVisitor.visit_map(pairs.as_slice(), stats))
                        } else {
                            None
                        }
                    },
                    None => None,
                }
            },
            None => Some(Err(DecodeError::ExpectedMap)),
        }
    }
}

/// How many elements a pass over the document `v` skips and counts; 0 if `v`
/// is no map.
pub open spec fn document_skipped(v: serde_json::Value) -> nat {
    match shape(v) {
        JsonShape::Object(m) => data_skipped(entries(m)),
        _ => 0,
    }
}

} // verus!
