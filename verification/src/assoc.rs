//! Association lists with a `Map` view.
//!
//! Mappings are kept as vectors of `(String, value)` entries. A later entry
//! for the same key overwrites an earlier one in the map view, so appending
//! is exactly the required last-write-wins insertion. Lookup scans from the
//! back and is proved to agree with the map view.

use vstd::prelude::*;

verus! {

/// The map described by an entry list: every entry inserted in order, so
/// that the last entry for a key wins.
pub open spec fn assoc_map<V: View>(entries: Seq<(String, V)>) -> Map<Seq<char>, V::V>
    decreases entries.len(),
{
    if entries.len() == 0 {
        Map::empty()
    } else {
        assoc_map(entries.drop_last()).insert(entries.last().0@, entries.last().1@)
    }
}

pub proof fn lemma_assoc_map_nonempty<V: View>(entries: Seq<(String, V)>)
    requires
        entries.len() > 0,
    ensures
        assoc_map(entries).contains_key(entries.last().0@),
{
}

/// Find the value recorded for `key`: the value of the last entry bearing
/// it, exactly as the map view has it.
pub fn assoc_find<'a, V: View>(entries: &'a Vec<(String, V)>, key: &str) -> (r: Option<&'a V>)
    ensures
        match r {
            Some(v) => assoc_map(entries@).contains_key(key@) && v@ == assoc_map(entries@)[key@],
            None => !assoc_map(entries@).contains_key(key@),
        },
{
    let owned = key.to_owned();
    let mut i: usize = entries.len();
    assert(entries@.subrange(0, entries@.len() as int) =~= entries@);
    loop
        invariant
            i <= entries.len(),
            owned@ == key@,
            assoc_map(entries@).contains_key(key@) == assoc_map(
                entries@.subrange(0, i as int),
            ).contains_key(key@),
            assoc_map(entries@).contains_key(key@) ==> assoc_map(entries@)[key@] == assoc_map(
                entries@.subrange(0, i as int),
            )[key@],
        decreases i,
    {
        if i == 0 {
            assert(entries@.subrange(0, 0) =~= Seq::empty());
            return None;
        }
        i -= 1;
        if entries[i].0 == owned {
            assert(entries@.subrange(0, i + 1).last() == entries@[i as int]);
            assert(entries@.subrange(0, i + 1).drop_last() =~= entries@.subrange(0, i as int));
            return Some(&entries[i].1);
        }
        assert(entries@.subrange(0, i + 1).last() == entries@[i as int]);
        assert(entries@.subrange(0, i + 1).drop_last() =~= entries@.subrange(0, i as int));
    }
}

} // verus!
