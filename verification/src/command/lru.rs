//! The use order of a cache that keeps the most recently used entries:
//! keys from the least to the most recently used.
use vstd::prelude::*;
use crate::text::{str_equal, to_owned_string};

verus! {

/// The keys as values.
pub open spec fn keys_view(v: Seq<String>) -> Seq<Seq<char>> {
    Seq::new(v.len(), |i: int| v[i]@)
}

/// The order after `k` is used: `k` moves (or comes) to the back.
pub open spec fn moved_to_back(s: Seq<Seq<char>>, k: Seq<char>) -> Seq<Seq<char>> {
    s.filter(|x: Seq<char>| x != k).push(k)
}

/// The order without `key`.
fn without(order: &Vec<String>, key: &str) -> (out: Vec<String>)
    ensures
        keys_view(out@) == keys_view(order@).filter(|x: Seq<char>| x != key@),
{
    let ghost kv = keys_view(order@);
    let mut out: Vec<String> = Vec::new();
    let mut i: usize = 0;
    while i < order.len()
        invariant
            i <= order@.len(),
            kv == keys_view(order@),
            keys_view(out@) == kv.take(i as int).filter(|x: Seq<char>| x != key@),
        decreases order@.len() - i,
    {
        proof {
            assert(kv.take(i + 1) =~= kv.take(i as int).push(kv[i as int]));
            kv.take(i as int).lemma_filter_push(kv[i as int], |x: Seq<char>| x != key@);
        }
        if !str_equal(order[i].as_str(), key) {
            let ghost before = out@;
            out.push(order[i].clone());
            assert(keys_view(out@) =~= keys_view(before).push(order@[i as int]@));
        }
        i = i + 1;
    }
    assert(kv.take(order@.len() as int) =~= kv);
    out
}

/// Records a look-up of `key`: where it is in the order it moves to the
/// back; true where it was there.
pub fn lru_get(order: &mut Vec<String>, key: &str) -> (found: bool)
    ensures
        found == keys_view(old(order)@).contains(key@),
        keys_view(final(order)@) == if found {
            moved_to_back(keys_view(old(order)@), key@)
        } else {
            keys_view(old(order)@)
        },
{
    let ghost kv = keys_view(order@);
    let mut i: usize = 0;
    while i < order.len()
        invariant
            i <= order@.len(),
            kv == keys_view(order@),
            kv == keys_view(old(order)@),
            forall|j: int| 0 <= j < i ==> kv[j] != key@,
        decreases order@.len() - i,
    {
        if str_equal(order[i].as_str(), key) {
            assert(kv[i as int] == key@);
            assert(kv.contains(key@));
            let mut moved = without(order, key);
            let ghost before = moved@;
            moved.push(to_owned_string(key));
            assert(keys_view(moved@) =~= keys_view(before).push(key@));
            *order = moved;
            return true;
        }
        i = i + 1;
    }
    assert(!kv.contains(key@));
    false
}

/// Records that `key` was put into a cache of at most `capacity` entries:
/// it moves (or comes) to the back, and where the order then holds more than
/// `capacity` keys the front one, the least recently used, is evicted.
pub fn lru_insert(order: &mut Vec<String>, key: &str, capacity: usize) -> (evicted: Option<String>)
    ensures
        moved_to_back(keys_view(old(order)@), key@).len() > capacity ==> (evicted matches Some(e)
            && e@ == moved_to_back(keys_view(old(order)@), key@)[0])
            && keys_view(final(order)@) == moved_to_back(keys_view(old(order)@), key@).drop_first(),
        moved_to_back(keys_view(old(order)@), key@).len() <= capacity ==> evicted is None
            && keys_view(final(order)@) == moved_to_back(keys_view(old(order)@), key@),
{
    let ghost m = moved_to_back(keys_view(order@), key@);
    let mut moved = without(order, key);
    let ghost before = moved@;
    moved.push(to_owned_string(key));
    assert(keys_view(moved@) =~= keys_view(before).push(key@));
    assert(keys_view(moved@) == m);
    if moved.len() > capacity {
        let e = moved.remove(0);
        assert(keys_view(moved@) =~= m.drop_first());
        *order = moved;
        Some(e)
    } else {
        *order = moved;
        None
    }
}

} // verus!
