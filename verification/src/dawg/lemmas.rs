//! What holds of loading and of lookup, for every dictionary and every key.

use vstd::prelude::*;
use vstd::string::StringSliceAdditionalSpecFns;

use crate::dawg::dictionary::Dictionary;
use crate::dawg::error::DawgError;
use crate::dawg::model::Dawg;
use crate::dawg::units;
use crate::util::{lemma_u32_le_round_trip, spec_le_byte, spec_u32_to_le};

verus! {

/// Loading what was written gives back the units, each one unchanged and in
/// its place, whatever follows them in the stream.
pub proof fn lemma_stream_round_trip(units: Seq<u32>, rest: Seq<u8>)
    requires
        units.len() <= u32::MAX,
    ensures
        Dawg::from_stream(Dawg::to_stream(units) + rest) == Ok::<Dawg, DawgError>(
            (Dawg { root: 0, units }),
        ),
{
    let stream = Dawg::to_stream(units) + rest;
    let count = units.len() as u32;
    assert(stream.subrange(0, 4) == spec_u32_to_le(count));
    lemma_u32_le_round_trip(stream, 0, count);
    assert(Dawg::is_complete(stream));
    assert forall|i: int| 0 <= i < units.len() implies #[trigger] Dawg::stream_units(stream)[i]
        == units[i] by {
        let at = 4 + 4 * i;
        assert forall|rank: int| 0 <= rank < 4 implies stream.subrange(at, at + 4)[rank]
            == spec_u32_to_le(units[i])[rank] by {
            assert(stream[at + rank] == spec_le_byte(units[(4 * i + rank) / 4], (4 * i + rank) % 4));
        }
        assert(stream.subrange(at, at + 4) == spec_u32_to_le(units[i]));
        lemma_u32_le_round_trip(stream, at, units[i]);
    }
    assert(Dawg::stream_units(stream) == units);
}

/// One transition succeeds exactly along an edge.
pub proof fn lemma_follow_char_is_edge(dawg: Dawg, label: u8, from: u32, to: u32)
    ensures
        dawg.follow_char(label, from) == Ok::<Option<u32>, DawgError>(Some(to)) <==> dawg.is_edge(
            from,
            label,
            to,
        ),
{
}

/// A walk along a key that is made of two parts is the walk along the
/// first part, continued along the second from where the first one ended.
pub proof fn lemma_follow_bytes_concat(dawg: Dawg, first: Seq<u8>, second: Seq<u8>, start: u32)
    ensures
        dawg.follow_bytes(first + second, start) == match dawg.follow_bytes(first, start) {
            Ok(Some(middle)) => dawg.follow_bytes(second, middle),
            Ok(None) => Ok(None),
            Err(e) => Err(e),
        },
    decreases first.len(),
{
    if first.len() == 0 {
        assert(first + second == second);
    } else {
        assert((first + second)[0] == first[0]);
        assert((first + second).drop_first() == first.drop_first() + second);
        match dawg.follow_char(first[0], start) {
            Ok(Some(next)) => lemma_follow_bytes_concat(dawg, first.drop_first(), second, next),
            _ => {},
        }
    }
}

/// A walk that reaches a node went there by a path: the nodes it visited.
pub proof fn lemma_walk_visits_a_path(dawg: Dawg, key: Seq<u8>, start: u32)
    requires
        dawg.follow_bytes(key, start) is Ok,
        dawg.follow_bytes(key, start)->Ok_0 is Some,
    ensures
        dawg.is_path(key, start, dawg.visited(key, start)),
        dawg.follow_bytes(key, start) == Ok::<Option<u32>, DawgError>(
            Some(dawg.visited(key, start).last()),
        ),
    decreases key.len(),
{
    if key.len() > 0 {
        let next = dawg.follow_char(key[0], start)->Ok_0->Some_0;
        let rest = key.drop_first();
        lemma_walk_visits_a_path(dawg, rest, next);
        let tail = dawg.visited(rest, next);
        let path = dawg.visited(key, start);
        assert(path == seq![start] + tail);
        assert forall|i: int| 0 <= i < key.len() implies dawg.is_edge(
            #[trigger] path[i],
            key[i],
            path[i + 1],
        ) by {
            if i > 0 {
                assert(path[i] == tail[i - 1]);
                assert(path[i + 1] == tail[i]);
                assert(key[i] == rest[i - 1]);
                assert(dawg.is_edge(tail[i - 1], rest[i - 1], tail[i - 1 + 1]));
            }
        }
    }
}

/// The walk visits the node it starts from and at most one node more for
/// each byte of the key; it visits one for every byte exactly where it
/// reaches a node.
pub proof fn lemma_walk_is_bounded(dawg: Dawg, key: Seq<u8>, start: u32)
    ensures
        1 <= dawg.visited(key, start).len() <= key.len() + 1,
        dawg.visited(key, start).len() == key.len() + 1 <==> dawg.follow_bytes(key, start) matches Ok(
            Some(_),
        ),
    decreases key.len(),
{
    if key.len() > 0 {
        match dawg.follow_char(key[0], start) {
            Ok(Some(next)) => lemma_walk_is_bounded(dawg, key.drop_first(), next),
            _ => {},
        }
    }
}

/// Along a path the walk reaches the path's last node.
pub proof fn lemma_path_is_walked(dawg: Dawg, key: Seq<u8>, start: u32, path: Seq<u32>)
    requires
        dawg.is_path(key, start, path),
    ensures
        dawg.follow_bytes(key, start) == Ok::<Option<u32>, DawgError>(Some(path.last())),
    decreases key.len(),
{
    if key.len() > 0 {
        assert(dawg.is_edge(path[0int], key[0], path[0int + 1]));
        let rest = key.drop_first();
        let tail = path.drop_first();
        assert forall|i: int| 0 <= i < rest.len() implies dawg.is_edge(
            #[trigger] tail[i],
            rest[i],
            tail[i + 1],
        ) by {
            assert(dawg.is_edge(path[i + 1], key[i + 1], path[i + 1 + 1]));
        }
        lemma_path_is_walked(dawg, rest, path[1], tail);
    }
}

/// `contains` answers `true` exactly for the keys that the dictionary
/// stores.
pub proof fn lemma_contains_iff_stores(dawg: Dawg, key: Seq<u8>)
    ensures
        dawg.contains(key) == Ok::<bool, DawgError>(true) <==> dawg.stores(key),
{
    if dawg.contains(key) == Ok::<bool, DawgError>(true) {
        lemma_walk_visits_a_path(dawg, key, dawg.root);
        assert(dawg.is_path(key, dawg.root, dawg.visited(key, dawg.root)));
    }
    if dawg.stores(key) {
        let path = choose|path: Seq<u32>|
            {
                &&& #[trigger] dawg.is_path(key, dawg.root, path)
                &&& dawg.has_value(path.last()) == Ok::<bool, DawgError>(true)
            };
        lemma_path_is_walked(dawg, key, dawg.root, path);
    }
}

/// A key that the dictionary does not store is never found: `contains`
/// does not answer `true` and `find` gives no value. Where the lookup stays
/// inside the array, the answers are `false` and `None`.
pub proof fn lemma_absent_key_is_not_found(dawg: Dawg, key: Seq<u8>)
    requires
        !dawg.stores(key),
    ensures
        dawg.contains(key) != Ok::<bool, DawgError>(true),
        !(dawg.find(key) matches Ok(Some(_))),
        dawg.contains(key) is Ok ==> dawg.contains(key) == Ok::<bool, DawgError>(false),
        dawg.contains(key) is Ok ==> dawg.find(key) == Ok::<Option<u32>, DawgError>(None),
        dawg.find(key) is Ok ==> dawg.find(key) == Ok::<Option<u32>, DawgError>(None),
{
    lemma_contains_iff_stores(dawg, key);
}

/// A proper prefix of a key with a path has a path of its own; it is a key
/// only if its last node is marked as the end of one. So where a key is
/// stored and its prefix is not, the prefix is looked up without error, and
/// is neither contained nor found.
pub proof fn lemma_prefix_of_key_is_distinct(dawg: Dawg, prefix: Seq<u8>, key: Seq<u8>)
    requires
        prefix.len() < key.len(),
        key.take(prefix.len() as int) == prefix,
        dawg.stores(key),
        !dawg.stores(prefix),
    ensures
        dawg.follow_bytes(prefix, dawg.root) matches Ok(Some(node)) && dawg.in_range(node)
            && !units::spec_has_leaf(dawg.units[node as int]),
        dawg.contains(prefix) == Ok::<bool, DawgError>(false),
        dawg.find(prefix) == Ok::<Option<u32>, DawgError>(None),
{
    let rest = key.skip(prefix.len() as int);
    assert(key == prefix + rest);
    lemma_contains_iff_stores(dawg, key);
    lemma_contains_iff_stores(dawg, prefix);
    lemma_follow_bytes_concat(dawg, prefix, rest, dawg.root);
}

/// The answer to a lookup depends on the root, on the units and on the
/// bytes of the key, and on nothing else: two dictionaries that agree in
/// these answer alike, whatever was asked of them before.
pub proof fn lemma_lookup_is_a_function(a: Dictionary, b: Dictionary, key_a: &str, key_b: &str)
    requires
        a.root == b.root,
        a.units@ == b.units@,
        key_a.spec_bytes() == key_b.spec_bytes(),
    ensures
        a@.contains(key_a.spec_bytes()) == b@.contains(key_b.spec_bytes()),
        a@.find(key_a.spec_bytes()) == b@.find(key_b.spec_bytes()),
{
    assert(a@ == b@);
}

} // verus!
