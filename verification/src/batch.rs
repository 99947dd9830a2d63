//! The batching engine: from the draw requests of a frame to one group per
//! `(texture, mesh)` pair.

use vstd::prelude::*;
use std::collections::HashMap;
use crate::buffers::InstanceRaw;

verus! {

/// One object's request to be drawn this frame.
#[derive(Clone, Copy, Debug, PartialEq, Eq)]
pub struct DrawCall {
    pub mesh_id: usize,
    pub texture_id: usize,
    pub matrix: InstanceRaw,
}

/// All the transforms of a frame that share one texture and one mesh.
#[derive(Debug, PartialEq, Eq)]
pub struct DrawGroup {
    pub texture_id: usize,
    pub mesh_id: usize,
    pub matrices: Vec<InstanceRaw>,
}

impl DrawCall {
    /// The pair a request is grouped by: texture first, mesh second.
    pub open spec fn key(self) -> (usize, usize) {
        (self.texture_id, self.mesh_id)
    }
}

impl DrawGroup {
    /// The pair that all members of the group share.
    pub open spec fn key(self) -> (usize, usize) {
        (self.texture_id, self.mesh_id)
    }
}

/// The test "this request has key `key`".
pub open spec fn with_key(key: (usize, usize)) -> spec_fn(DrawCall) -> bool {
    |d: DrawCall| d.key() == key
}

/// The transform of a request.
pub open spec fn matrix_of() -> spec_fn(DrawCall) -> InstanceRaw {
    |d: DrawCall| d.matrix
}

/// The key of a request.
pub open spec fn key_of() -> spec_fn(DrawCall) -> (usize, usize) {
    |d: DrawCall| d.key()
}

/// The transforms of the requests with key `key`, in submission order.
pub open spec fn transforms_of(requests: Seq<DrawCall>, key: (usize, usize)) -> Seq<InstanceRaw> {
    requests.filter(with_key(key)).map_values(matrix_of())
}

/// The keys that occur among the requests.
pub open spec fn distinct_keys(requests: Seq<DrawCall>) -> Set<(usize, usize)> {
    requests.map_values(key_of()).to_set()
}

/// The keys that occur among the requests, each once, in the order in which
/// they first occur.
pub open spec fn first_keys(requests: Seq<DrawCall>) -> Seq<(usize, usize)>
    decreases requests.len(),
{
    if requests.len() == 0 {
        Seq::empty()
    } else {
        let before = first_keys(requests.drop_last());
        let key = requests.last().key();
        if before.contains(key) {
            before
        } else {
            before.push(key)
        }
    }
}

/// `groups` is the batching of `requests`: one group for each key, in order
/// of first occurrence, holding that key's transforms in submission order.
pub open spec fn is_batching(groups: Seq<DrawGroup>, requests: Seq<DrawCall>) -> bool {
    &&& groups.len() == first_keys(requests).len()
    &&& forall|i: int|
        0 <= i < groups.len() ==> {
            &&& (#[trigger] groups[i]).key() == first_keys(requests)[i]
            &&& groups[i].matrices@ == transforms_of(requests, groups[i].key())
        }
}

/// The number of instances that the groups hold together.
pub open spec fn total_instances(groups: Seq<DrawGroup>) -> nat
    decreases groups.len(),
{
    if groups.len() == 0 {
        0
    } else {
        total_instances(groups.drop_last()) + groups.last().matrices@.len()
    }
}

/// The sum, over `keys`, of the number of requests with that key.
pub open spec fn requests_with(keys: Seq<(usize, usize)>, requests: Seq<DrawCall>) -> nat
    decreases keys.len(),
{
    if keys.len() == 0 {
        0
    } else {
        requests_with(keys.drop_last(), requests) + transforms_of(requests, keys.last()).len()
    }
}

/// The map key for a pair of handles.
pub open spec fn packed(key: (usize, usize)) -> u128 {
    (key.0 as int * 0x1_0000_0000_0000_0000 + key.1 as int) as u128
}

/// One more request adds its transform to the list of its own key and leaves
/// every other list as it was.
pub proof fn lemma_transforms_push(requests: Seq<DrawCall>, d: DrawCall, key: (usize, usize))
    ensures
        transforms_of(requests.push(d), key) == if d.key() == key {
            transforms_of(requests, key).push(d.matrix)
        } else {
            transforms_of(requests, key)
        },
{
    requests.lemma_filter_push(d, with_key(key));
    if d.key() == key {
        requests.filter(with_key(key)).lemma_push_map_commute(matrix_of(), d);
    }
}

/// A key is among the first keys exactly if some request has it, and no key
/// is there twice.
pub proof fn lemma_first_keys(requests: Seq<DrawCall>)
    ensures
        first_keys(requests).no_duplicates(),
        first_keys(requests).to_set() =~= distinct_keys(requests),
        forall|key: (usize, usize)|
            !first_keys(requests).contains(key) ==> #[trigger] transforms_of(requests, key).len()
                == 0,
        forall|key: (usize, usize)|
            first_keys(requests).contains(key) ==> #[trigger] transforms_of(requests, key).len()
                > 0,
    decreases requests.len(),
{
    if requests.len() == 0 {
        assert(requests.map_values(key_of()) =~= Seq::<(usize, usize)>::empty());
        assert forall|key: (usize, usize)| #[trigger]
            transforms_of(requests, key).len() == 0 by {
            requests.lemma_filter_len(with_key(key));
        }
    } else {
        let rest = requests.drop_last();
        let d = requests.last();
        lemma_first_keys(rest);
        assert(requests =~= rest.push(d));
        rest.lemma_push_map_commute(key_of(), d);
        rest.map_values(key_of()).lemma_push_to_set_commute(d.key());
        let before = first_keys(rest);
        if before.contains(d.key()) {
            assert(before.to_set().insert(d.key()) =~= before.to_set());
        } else {
            before.lemma_push_to_set_commute(d.key());
        }
        assert forall|key: (usize, usize)|
            first_keys(requests).contains(key) <==> #[trigger] transforms_of(requests, key).len()
                > 0 by {
            lemma_transforms_push(rest, d, key);
            if key != d.key() && !before.contains(d.key()) {
                assert(before.push(d.key()).contains(key) <==> before.contains(key)) by {
                    if before.contains(key) {
                        let j = choose|j: int| 0 <= j < before.len() && before[j] == key;
                        assert(before.push(d.key())[j] == key);
                    }
                }
            }
            if key == d.key() && !before.contains(d.key()) {
                assert(before.push(d.key())[before.len() as int] == key);
            }
        }
    }
}

/// The number of groups of a batching is the number of distinct
/// `(texture, mesh)` pairs among the requests.
pub proof fn lemma_group_count(groups: Seq<DrawGroup>, requests: Seq<DrawCall>)
    requires
        is_batching(groups, requests),
    ensures
        groups.len() == distinct_keys(requests).len(),
{
    lemma_first_keys(requests);
    first_keys(requests).unique_seq_to_set();
}

/// Pushing a request raises the count over `keys` by the number of times its
/// key stands in `keys`.
proof fn lemma_requests_with_push(keys: Seq<(usize, usize)>, requests: Seq<DrawCall>, d: DrawCall)
    requires
        keys.no_duplicates(),
    ensures
        requests_with(keys, requests.push(d)) == requests_with(keys, requests) + if keys.contains(
            d.key(),
        ) {
            1nat
        } else {
            0nat
        },
    decreases keys.len(),
{
    if keys.len() > 0 {
        let rest = keys.drop_last();
        lemma_requests_with_push(rest, requests, d);
        lemma_transforms_push(requests, d, keys.last());
        if keys.last() == d.key() {
            assert(keys[keys.len() - 1] == d.key());
            if rest.contains(d.key()) {
                let j = choose|j: int| 0 <= j < rest.len() && rest[j] == d.key();
                assert(keys[j] == keys[keys.len() - 1]);
            }
        } else {
            if keys.contains(d.key()) {
                let j = choose|j: int| 0 <= j < keys.len() && keys[j] == d.key();
                assert(rest[j] == d.key());
            }
            if rest.contains(d.key()) {
                let j = choose|j: int| 0 <= j < rest.len() && rest[j] == d.key();
                assert(keys[j] == d.key());
            }
        }
    }
}

/// Counted over the first keys, every request is counted once.
pub proof fn lemma_requests_with_first_keys(requests: Seq<DrawCall>)
    ensures
        requests_with(first_keys(requests), requests) == requests.len(),
    decreases requests.len(),
{
    if requests.len() > 0 {
        let rest = requests.drop_last();
        let d = requests.last();
        assert(requests =~= rest.push(d));
        lemma_requests_with_first_keys(rest);
        lemma_first_keys(rest);
        let before = first_keys(rest);
        lemma_requests_with_push(before, rest, d);
        if !before.contains(d.key()) {
            assert(before.push(d.key()).drop_last() =~= before);
            lemma_transforms_push(rest, d, d.key());
        }
    }
}

/// The groups of a prefix of a batching hold what the keys of that prefix
/// count.
proof fn lemma_total_is_requests_with(groups: Seq<DrawGroup>, requests: Seq<DrawCall>, n: int)
    requires
        is_batching(groups, requests),
        0 <= n <= groups.len(),
    ensures
        total_instances(groups.take(n)) == requests_with(first_keys(requests).take(n), requests),
    decreases n,
{
    if n > 0 {
        lemma_total_is_requests_with(groups, requests, n - 1);
        assert(groups.take(n).drop_last() =~= groups.take(n - 1));
        assert(first_keys(requests).take(n).drop_last() =~= first_keys(requests).take(n - 1));
        assert(groups.take(n).last() == groups[n - 1]);
    }
}

/// No request is lost and none is counted twice: the groups of a batching
/// hold as many instances as there are requests, and each group as many as
/// there are requests with its key.
pub proof fn lemma_instances_conserved(groups: Seq<DrawGroup>, requests: Seq<DrawCall>)
    requires
        is_batching(groups, requests),
    ensures
        total_instances(groups) == requests.len(),
        forall|i: int|
            0 <= i < groups.len() ==> (#[trigger] groups[i]).matrices@.len() == requests.filter(
                with_key(groups[i].key()),
            ).len(),
{
    lemma_total_is_requests_with(groups, requests, groups.len() as int);
    assert(groups.take(groups.len() as int) =~= groups);
    assert(first_keys(requests).take(groups.len() as int) =~= first_keys(requests));
    lemma_requests_with_first_keys(requests);
}

/// What one more request does to a frame: its pair joins the pairs of the
/// frame, which grow by one exactly if the pair is new; its transform goes to
/// the end of the list of its pair, and every other list stays as it was;
/// and the transforms counted over all pairs grow by one.
pub proof fn lemma_request_added(requests: Seq<DrawCall>, d: DrawCall)
    ensures
        distinct_keys(requests.push(d)) == distinct_keys(requests).insert(d.key()),
        distinct_keys(requests.push(d)).len() == distinct_keys(requests).len() + if distinct_keys(
            requests,
        ).contains(d.key()) {
            0nat
        } else {
            1nat
        },
        first_keys(requests.push(d)) == if first_keys(requests).contains(d.key()) {
            first_keys(requests)
        } else {
            first_keys(requests).push(d.key())
        },
        transforms_of(requests.push(d), d.key()) == transforms_of(requests, d.key()).push(d.matrix),
        forall|key: (usize, usize)|
            key != d.key() ==> #[trigger] transforms_of(requests.push(d), key) == transforms_of(
                requests,
                key,
            ),
        requests_with(first_keys(requests.push(d)), requests.push(d)) == requests_with(
            first_keys(requests),
            requests,
        ) + 1,
{
    requests.lemma_push_map_commute(key_of(), d);
    requests.map_values(key_of()).lemma_push_to_set_commute(d.key());
    assert(requests.push(d).drop_last() =~= requests);
    lemma_transforms_push(requests, d, d.key());
    assert forall|key: (usize, usize)| key != d.key() implies #[trigger] transforms_of(
        requests.push(d),
        key,
    ) == transforms_of(requests, key) by {
        lemma_transforms_push(requests, d, key);
    }
    lemma_requests_with_first_keys(requests);
    lemma_requests_with_first_keys(requests.push(d));
    lemma_first_keys(requests);
    lemma_first_keys(requests.push(d));
    first_keys(requests).unique_seq_to_set();
    first_keys(requests.push(d)).unique_seq_to_set();
    if !first_keys(requests).contains(d.key()) {
        assert(first_keys(requests).push(d.key()).len() == first_keys(requests).len() + 1);
    }
}

/// The number of requests before position `i` that have the key of the
/// request at `i`.
pub open spec fn rank(requests: Seq<DrawCall>, i: int) -> nat {
    requests.take(i).filter(with_key(requests[i].key())).len()
}

/// Batching is stable: the transform of the request at position `i` stands in
/// the list of its key at the position that counts the earlier requests with
/// that key. So requests that share a key keep their relative order.
pub proof fn lemma_stable(requests: Seq<DrawCall>, i: int)
    requires
        0 <= i < requests.len(),
    ensures
        rank(requests, i) < transforms_of(requests, requests[i].key()).len(),
        transforms_of(requests, requests[i].key())[rank(requests, i) as int] == requests[i].matrix,
    decreases requests.len(),
{
    let key = requests[i].key();
    let rest = requests.drop_last();
    let d = requests.last();
    assert(requests =~= rest.push(d));
    lemma_transforms_push(rest, d, key);
    if i == requests.len() - 1 {
        assert(requests.take(i) =~= rest);
    } else {
        lemma_stable(rest, i);
        assert(requests.take(i) =~= rest.take(i));
    }
}

/// Of two requests with the same key, the one submitted first stands first
/// in the list of that key.
pub proof fn lemma_order_kept(requests: Seq<DrawCall>, i: int, j: int)
    requires
        0 <= i < j < requests.len(),
        requests[i].key() == requests[j].key(),
    ensures
        rank(requests, i) < rank(requests, j),
{
    let key = requests[i].key();
    let pred = with_key(key);
    let upto = requests.take(j);
    assert(upto.take(i + 1) =~= requests.take(i).push(requests[i]));
    requests.take(i).lemma_filter_push(requests[i], pred);
    assert(upto =~= upto.take(i + 1) + upto.skip(i + 1));
    Seq::filter_distributes_over_add(upto.take(i + 1), upto.skip(i + 1), pred);
}

/// Two batchings of the same requests are the same, group for group.
pub proof fn lemma_batching_unique(a: Seq<DrawGroup>, b: Seq<DrawGroup>, requests: Seq<DrawCall>)
    requires
        is_batching(a, requests),
        is_batching(b, requests),
    ensures
        a.len() == b.len(),
        forall|i: int|
            0 <= i < a.len() ==> (#[trigger] a[i]).key() == b[i].key() && a[i].matrices@
                == b[i].matrices@,
{
}

fn pack(texture_id: usize, mesh_id: usize) -> (k: u128)
    ensures
        k == packed((texture_id, mesh_id)),
{
    (texture_id as u128) * 0x1_0000_0000_0000_0000u128 + (mesh_id as u128)
}

/// Groups the requests of a frame by `(texture, mesh)`, in one pass.
///
/// Every pair that occurs gets exactly one group; the groups stand in the
/// order in which their pairs first occur, and each holds the transforms of
/// its requests in the order in which they were submitted.
pub fn batch(requests: &Vec<DrawCall>) -> (groups: Vec<DrawGroup>)
    ensures
        is_batching(groups@, requests@),
        groups@.len() == distinct_keys(requests@).len(),
        total_instances(groups@) == requests@.len(),
{
    let mut groups: Vec<DrawGroup> = Vec::new();
    let mut index: HashMap<u128, usize> = HashMap::new();
    let mut i: usize = 0;
    while i < requests.len()
        invariant
            i <= requests.len(),
            is_batching(groups@, requests@.take(i as int)),
            forall|key: (usize, usize)|
                first_keys(requests@.take(i as int)).contains(key) <==> index@.contains_key(
                    #[trigger] packed(key),
                ),
            forall|key: (usize, usize)|
                index@.contains_key(#[trigger] packed(key)) ==> index@[packed(key)] < groups@.len()
                    && groups@[index@[packed(key)] as int].key() == key,
        decreases requests.len() - i,
    {
        let d = requests[i];
        let k = pack(d.texture_id, d.mesh_id);
        let ghost prefix = requests@.take(i as int);
        let ghost old_groups = groups@;
        proof {
            lemma_first_keys(prefix);
            requests@.lemma_take_succ_push(i as int);
            assert(prefix.push(d).drop_last() =~= prefix);
            assert forall|key: (usize, usize)| packed(key) == k implies key == d.key() by {}
        }
        let found = match index.get(&k) {
            Some(j) => Some(*j),
            None => None,
        };
        match found {
            Some(j) => {
                groups[j].matrices.push(d.matrix);
                proof {
                    assert(first_keys(prefix.push(d)) == first_keys(prefix));
                    assert forall|g: int| 0 <= g < groups@.len() implies {
                        &&& (#[trigger] groups@[g]).key() == first_keys(prefix.push(d))[g]
                        &&& groups@[g].matrices@ == transforms_of(
                            prefix.push(d),
                            groups@[g].key(),
                        )
                    } by {
                        lemma_transforms_push(prefix, d, old_groups[g].key());
                        if g != j as int {
                            assert(old_groups[g].key() == first_keys(prefix)[g]);
                            assert(old_groups[j as int].key() == first_keys(prefix)[j as int]);
                        }
                    }
                }
            },
            None => {
                let mut matrices: Vec<InstanceRaw> = Vec::new();
                matrices.push(d.matrix);
                index.insert(k, groups.len());
                groups.push(DrawGroup { texture_id: d.texture_id, mesh_id: d.mesh_id, matrices });
                proof {
                    assert(!first_keys(prefix).contains(d.key()));
                    assert(first_keys(prefix.push(d)) == first_keys(prefix).push(d.key()));
                    lemma_transforms_push(prefix, d, d.key());
                    assert(transforms_of(prefix, d.key()).len() == 0);
                    assert(matrices@ =~= transforms_of(prefix.push(d), d.key()));
                    assert forall|g: int| 0 <= g < groups@.len() implies {
                        &&& (#[trigger] groups@[g]).key() == first_keys(prefix.push(d))[g]
                        &&& groups@[g].matrices@ == transforms_of(
                            prefix.push(d),
                            groups@[g].key(),
                        )
                    } by {
                        if g < old_groups.len() {
                            lemma_transforms_push(prefix, d, old_groups[g].key());
                            assert(first_keys(prefix).contains(first_keys(prefix)[g]));
                        }
                    }
                    assert forall|key: (usize, usize)|
                        first_keys(prefix.push(d)).contains(key) <==> index@.contains_key(
                            #[trigger] packed(key),
                        ) by {
                        if key == d.key() {
                            assert(first_keys(prefix.push(d))[old_groups.len() as int] == key);
                        } else if first_keys(prefix).contains(key) {
                            let j = choose|j: int|
                                0 <= j < first_keys(prefix).len() && first_keys(prefix)[j] == key;
                            assert(first_keys(prefix.push(d))[j] == key);
                        }
                    }
                }
            },
        }
        i += 1;
    }
    proof {
        assert(requests@.take(requests@.len() as int) =~= requests@);
        lemma_group_count(groups@, requests@);
        lemma_instances_conserved(groups@, requests@);
    }
    groups
}

} // verus!
