//! Walking the key/value pairs of a map in the order of the document.

use crate::json::pair_views;
use crate::text::same_text;
use vstd::prelude::*;

verus! {

/// The value of the last pair under `key`; `None` if no pair has that key.
pub open spec fn last_value(pairs: Seq<(Seq<char>, serde_json::Value)>, key: Seq<char>) -> Option<
    serde_json::Value,
>
    decreases pairs.len(),
{
    if pairs.len() == 0 {
        None
    } else if pairs.last().0 == key {
        Some(pairs.last().1)
    } else {
        last_value(pairs.drop_last(), key)
    }
}

/// Whether some pair has the key `key`.
pub open spec fn has_key(pairs: Seq<(Seq<char>, serde_json::Value)>, key: Seq<char>) -> bool {
    exists|i: int| 0 <= i < pairs.len() && (#[trigger] pairs[i]).0 == key
}

/// One pair more: the last value under a key is that pair's value if the pair
/// has the key, and what it was before if not.
pub proof fn lemma_last_value_step(
    pairs: Seq<(Seq<char>, serde_json::Value)>,
    i: int,
    key: Seq<char>,
)
    requires
        0 <= i < pairs.len(),
    ensures
        last_value(pairs.take(i + 1), key) == if pairs[i].0 == key {
            Some(pairs[i].1)
        } else {
            last_value(pairs.take(i), key)
        },
{
    assert(pairs.take(i + 1).drop_last() =~= pairs.take(i));
    assert(pairs.take(i + 1).last() == pairs[i]);
}

/// A key has a last value exactly if some pair has the key, and that value is
/// the value of a pair with the key after which no pair has it.
pub proof fn lemma_last_value_is_last(pairs: Seq<(Seq<char>, serde_json::Value)>, key: Seq<char>)
    ensures
        last_value(pairs, key) is Some <==> has_key(pairs, key),
        last_value(pairs, key) is Some ==> exists|i: int|
            0 <= i < pairs.len() && (#[trigger] pairs[i]) == (key, last_value(pairs, key)->0)
                && forall|j: int| i < j < pairs.len() ==> (#[trigger] pairs[j]).0 != key,
    decreases pairs.len(),
{
    if pairs.len() == 0 {
    } else if pairs.last().0 == key {
        let i = pairs.len() - 1;
        assert(pairs[i] == (key, last_value(pairs, key)->0));
    } else {
        let front = pairs.drop_last();
        lemma_last_value_is_last(front, key);
        if has_key(pairs, key) {
            let i = choose|i: int| 0 <= i < pairs.len() && (#[trigger] pairs[i]).0 == key;
            assert(front[i].0 == key);
        }
        if last_value(front, key) is Some {
            let i = choose|i: int|
                0 <= i < front.len() && (#[trigger] front[i]) == (key, last_value(front, key)->0)
                    && forall|j: int| i < j < front.len() ==> (#[trigger] front[j]).0 != key;
            assert(pairs[i] == front[i]);
            assert forall|j: int| i < j < pairs.len() implies (#[trigger] pairs[j]).0 != key by {
                if j < front.len() {
                    assert(front[j] == pairs[j]);
                }
            }
        }
    }
}

/// Finds the value of the last pair under `key`.
pub fn find_last<'a>(pairs: &'a [(String, serde_json::Value)], key: &str) -> (found: Option<
    &'a serde_json::Value,
>)
    ensures
        match found {
            Some(v) => last_value(pair_views(pairs@), key@) == Some(*v),
            None => last_value(pair_views(pairs@), key@) is None,
        },
{
    let ghost views = pair_views(pairs@);
    let mut found: Option<&'a serde_json::Value> = None;
    let mut i: usize = 0;
    assert(views.take(0) =~= Seq::<(Seq<char>, serde_json::Value)>::empty());
    while i < pairs.len()
        invariant
            i <= pairs@.len(),
            views == pair_views(pairs@),
            views.len() == pairs@.len(),
            match found {
                Some(v) => last_value(views.take(i as int), key@) == Some(*v),
                None => last_value(views.take(i as int), key@) is None,
            },
        decreases pairs@.len() - i,
    {
        proof {
            lemma_last_value_step(views, i as int, key@);
            assert(views[i as int] == (pairs@[i as int].0@, pairs@[i as int].1));
        }
        if same_text(pairs[i].0.as_str(), key) {
            found = Some(&pairs[i].1);
        }
        i = i + 1;
    }
    assert(views.take(i as int) =~= views);
    found
}

} // verus!
