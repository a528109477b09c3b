//! Rows of pairs that stand for a map.
use vstd::prelude::*;

verus! {

/// Whether no key occurs twice.
pub open spec fn are_distinct<K, V>(pairs: Seq<(K, V)>) -> bool {
    forall|i: int, j: int| 0 <= i < j < pairs.len() ==> (#[trigger] pairs[i]).0 != (#[trigger] pairs[j]).0
}

/// The values by their keys. The last value of a key counts.
pub open spec fn by_key<K, V>(pairs: Seq<(K, V)>) -> Map<K, V>
    decreases pairs.len(),
{
    if pairs.len() == 0 {
        Map::empty()
    } else {
        by_key(pairs.drop_last()).insert(pairs.last().0, pairs.last().1)
    }
}

/// A key is known if it occurs; if it occurs once, its value is the one there.
pub proof fn keys_are_known<K, V>(pairs: Seq<(K, V)>)
    ensures
        forall|key: K| #[trigger]
            by_key(pairs).dom().contains(key) <==> exists|i: int|
                0 <= i < pairs.len() && (#[trigger] pairs[i]).0 == key,
        are_distinct(pairs) ==> forall|i: int|
            0 <= i < pairs.len() ==> by_key(pairs)[(#[trigger] pairs[i]).0] == pairs[i].1,
    decreases pairs.len(),
{
    if pairs.len() > 0 {
        let front = pairs.drop_last();
        keys_are_known(front);
        assert(forall|i: int| 0 <= i < front.len() ==> front[i] == #[trigger] pairs[i]);
        assert forall|key: K| #[trigger]
            by_key(pairs).dom().contains(key) <==> exists|i: int|
                0 <= i < pairs.len() && (#[trigger] pairs[i]).0 == key by {
            if by_key(pairs).dom().contains(key) {
                if pairs.last().0 == key {
                    assert(pairs[pairs.len() - 1].0 == key);
                } else {
                    assert(by_key(front).dom().contains(key));
                    let i = choose|i: int| 0 <= i < front.len() && (#[trigger] front[i]).0 == key;
                    assert(pairs[i].0 == key);
                }
            }
            if exists|i: int| 0 <= i < pairs.len() && (#[trigger] pairs[i]).0 == key {
                let i = choose|i: int| 0 <= i < pairs.len() && (#[trigger] pairs[i]).0 == key;
                if i < front.len() {
                    assert(front[i].0 == key);
                    assert(by_key(front).dom().contains(key));
                }
            }
        }
        if are_distinct(pairs) {
            assert(are_distinct(front));
        }
    }
}

/// Giving a key that occurs another value changes the value of this key alone.
pub proof fn changed_value<K, V>(pairs: Seq<(K, V)>, at: int, value: V)
    requires
        are_distinct(pairs),
        0 <= at < pairs.len(),
    ensures
        are_distinct(pairs.update(at, (pairs[at].0, value))),
        by_key(pairs.update(at, (pairs[at].0, value))) == by_key(pairs).insert(
            pairs[at].0,
            value,
        ),
{
    let changed = pairs.update(at, (pairs[at].0, value));
    assert(forall|i: int| 0 <= i < pairs.len() ==> (#[trigger] changed[i]).0 == pairs[i].0);
    assert(are_distinct(changed));
    keys_are_known(pairs);
    keys_are_known(changed);
    let expected = by_key(pairs).insert(pairs[at].0, value);
    assert forall|key: K| by_key(changed).dom().contains(key) <==> expected.dom().contains(
        key,
    ) by {
        if expected.dom().contains(key) {
            let i = if key == pairs[at].0 {
                at
            } else {
                assert(by_key(pairs).dom().contains(key));
                choose|i: int| 0 <= i < pairs.len() && (#[trigger] pairs[i]).0 == key
            };
            assert(changed[i].0 == key);
        }
        if by_key(changed).dom().contains(key) {
            let i = choose|i: int| 0 <= i < changed.len() && (#[trigger] changed[i]).0 == key;
            assert(pairs[i].0 == key);
            assert(by_key(pairs).dom().contains(key));
        }
    }
    assert forall|key: K| by_key(changed).dom().contains(key) implies by_key(
        changed,
    )[key] == expected[key] by {
        let i = choose|i: int| 0 <= i < changed.len() && (#[trigger] changed[i]).0 == key;
        assert(by_key(changed)[changed[i].0] == changed[i].1);
        assert(by_key(pairs)[pairs[i].0] == pairs[i].1);
    }
    assert(by_key(changed) =~= expected);
}

/// The last value of a key counts.
pub proof fn last_value_counts<K, V>(pairs: Seq<(K, V)>, at: int)
    requires
        0 <= at < pairs.len(),
        forall|i: int| at < i < pairs.len() ==> (#[trigger] pairs[i]).0 != pairs[at].0,
    ensures
        by_key(pairs).dom().contains(pairs[at].0),
        by_key(pairs)[pairs[at].0] == pairs[at].1,
    decreases pairs.len(),
{
    if at < pairs.len() - 1 {
        let front = pairs.drop_last();
        assert(pairs[pairs.len() - 1].0 != pairs[at].0);
        assert forall|i: int| at < i < front.len() implies (#[trigger] front[i]).0 != front[at].0 by {
            assert(pairs[i].0 != pairs[at].0);
        }
        last_value_counts(front, at);
    }
}

} // verus!
