//! The draw calls of a frame and the commands that perform them.

use vstd::prelude::*;
use crate::batch::{
    first_keys, lemma_first_keys, lemma_requests_with_first_keys, requests_with, transforms_of,
    with_key, DrawCall, DrawGroup,
};
use crate::buffers::{flatten_instances, instance_words, Mesh};
use crate::bytes::{is_word_image, words_to_bytes};
use crate::pass::{draw_commands, frame_head, frame_tail, RenderCommand};

verus! {

/// One instanced draw call of a frame: what is drawn, the bytes of its
/// instance buffer, and the number of instances.
#[derive(Debug)]
pub struct DrawBatch {
    pub texture_id: usize,
    pub mesh_id: usize,
    pub instance_bytes: Vec<u8>,
    pub count: u32,
}

impl DrawBatch {
    /// The pair that the draw call draws.
    pub open spec fn key(self) -> (usize, usize) {
        (self.texture_id, self.mesh_id)
    }

    /// The draw call draws exactly this group.
    pub open spec fn carries(self, group: DrawGroup) -> bool {
        &&& self.key() == group.key()
        &&& self.count == group.matrices@.len()
        &&& is_word_image(self.instance_bytes@, instance_words(group.matrices@))
    }
}

/// `batches` are the draw calls of a frame with these requests: one for each
/// `(texture, mesh)` pair, in order of first occurrence, each with the
/// transforms of its requests in submission order as its instances.
pub open spec fn is_upload_of(batches: Seq<DrawBatch>, requests: Seq<DrawCall>) -> bool {
    &&& batches.len() == first_keys(requests).len()
    &&& forall|i: int|
        0 <= i < batches.len() ==> {
            &&& (#[trigger] batches[i]).key() == first_keys(requests)[i]
            &&& batches[i].count == transforms_of(requests, batches[i].key()).len()
            &&& is_word_image(
                batches[i].instance_bytes@,
                instance_words(transforms_of(requests, batches[i].key())),
            )
        }
}

/// The commands of the first `n` draw calls of a frame.
pub open spec fn body_commands(batches: Seq<DrawBatch>, meshes: Seq<Mesh>, n: nat) -> Seq<
    RenderCommand,
>
    decreases n,
{
    if n == 0 {
        Seq::empty()
    } else {
        let at = (n - 1) as nat;
        body_commands(batches, meshes, at) + draw_commands(
            at as usize,
            batches[at as int].mesh_id,
            batches[at as int].texture_id,
            meshes[batches[at as int].mesh_id as int].spec_len(),
            batches[at as int].count,
        )
    }
}

/// The commands of a whole frame: write the transform, clear, set the
/// pipeline, draw every draw call in order, then submit and present.
pub open spec fn frame_commands(batches: Seq<DrawBatch>, meshes: Seq<Mesh>) -> Seq<RenderCommand> {
    frame_head() + body_commands(batches, meshes, batches.len()) + frame_tail()
}

/// The number of draw commands among `commands`.
pub open spec fn draw_count(commands: Seq<RenderCommand>) -> nat {
    commands.filter(|c: RenderCommand| c.is_draw()).len()
}

/// The first `n` draw calls take six commands each, the last of which is the
/// one draw command, over all indices of the mesh and all instances of the
/// draw call.
pub proof fn lemma_body_shape(batches: Seq<DrawBatch>, meshes: Seq<Mesh>, n: nat)
    requires
        n <= batches.len(),
    ensures
        body_commands(batches, meshes, n).len() == 6 * n,
        draw_count(body_commands(batches, meshes, n)) == n,
        forall|i: int|
            0 <= i < n ==> #[trigger] body_commands(batches, meshes, n).subrange(6 * i, 6 * i + 6)
                == draw_commands(
                i as usize,
                batches[i].mesh_id,
                batches[i].texture_id,
                meshes[batches[i].mesh_id as int].spec_len(),
                batches[i].count,
            ),
    decreases n,
{
    if n > 0 {
        let at = (n - 1) as nat;
        lemma_body_shape(batches, meshes, at);
        let before = body_commands(batches, meshes, at);
        let last = draw_commands(
            at as usize,
            batches[at as int].mesh_id,
            batches[at as int].texture_id,
            meshes[batches[at as int].mesh_id as int].spec_len(),
            batches[at as int].count,
        );
        let all = body_commands(batches, meshes, n);
        assert(all == before + last);
        assert(last.len() == 6);
        let is_draw = |c: RenderCommand| c.is_draw();
        Seq::filter_distributes_over_add(before, last, is_draw);
        assert(last.filter(is_draw).len() == 1) by {
            lemma_filter_six(last, is_draw);
        }
        assert forall|i: int| 0 <= i < n implies #[trigger] all.subrange(6 * i, 6 * i + 6)
            == draw_commands(
            i as usize,
            batches[i].mesh_id,
            batches[i].texture_id,
            meshes[batches[i].mesh_id as int].spec_len(),
            batches[i].count,
        ) by {
            if i < at {
                assert(all.subrange(6 * i, 6 * i + 6) =~= before.subrange(6 * i, 6 * i + 6));
            } else {
                assert(all.subrange(6 * i, 6 * i + 6) =~= last);
            }
        }
    } else {
        let is_draw = |c: RenderCommand| c.is_draw();
        body_commands(batches, meshes, 0).lemma_filter_len(is_draw);
    }
}

/// Of six commands of which only the last passes a test, the filter keeps
/// one.
proof fn lemma_filter_six(s: Seq<RenderCommand>, pred: spec_fn(RenderCommand) -> bool)
    requires
        s.len() == 6,
        !pred(s[0]),
        !pred(s[1]),
        !pred(s[2]),
        !pred(s[3]),
        !pred(s[4]),
        pred(s[5]),
    ensures
        s.filter(pred).len() == 1,
{
    let e = Seq::<RenderCommand>::empty();
    assert(s =~= e.push(s[0]).push(s[1]).push(s[2]).push(s[3]).push(s[4]).push(s[5]));
    e.lemma_filter_len(pred);
    e.lemma_filter_push(s[0], pred);
    e.push(s[0]).lemma_filter_push(s[1], pred);
    e.push(s[0]).push(s[1]).lemma_filter_push(s[2], pred);
    e.push(s[0]).push(s[1]).push(s[2]).lemma_filter_push(s[3], pred);
    e.push(s[0]).push(s[1]).push(s[2]).push(s[3]).lemma_filter_push(s[4], pred);
    e.push(s[0]).push(s[1]).push(s[2]).push(s[3]).push(s[4]).lemma_filter_push(s[5], pred);
}

/// A frame issues exactly one draw command for each of its draw calls, and
/// it always ends by submitting and presenting.
pub proof fn lemma_frame_shape(batches: Seq<DrawBatch>, meshes: Seq<Mesh>)
    ensures
        frame_commands(batches, meshes).len() == 6 * batches.len() + 6,
        draw_count(frame_commands(batches, meshes)) == batches.len(),
        frame_commands(batches, meshes).subrange(0, 3) == frame_head(),
        frame_commands(batches, meshes).subrange(
            6 * batches.len() as int + 3,
            6 * batches.len() as int + 6,
        ) == frame_tail(),
        frame_commands(batches, meshes).last() == RenderCommand::Present,
{
    let body = body_commands(batches, meshes, batches.len());
    let all = frame_commands(batches, meshes);
    lemma_body_shape(batches, meshes, batches.len());
    let is_draw = |c: RenderCommand| c.is_draw();
    Seq::filter_distributes_over_add(frame_head() + body, frame_tail(), is_draw);
    Seq::filter_distributes_over_add(frame_head(), body, is_draw);
    lemma_filter_none(frame_head(), is_draw);
    lemma_filter_none(frame_tail(), is_draw);
    assert(all.subrange(0, 3) =~= frame_head());
    assert(all.subrange(6 * batches.len() as int + 3, 6 * batches.len() as int + 6)
        =~= frame_tail());
}

/// Of three commands none of which passes a test, the filter keeps none.
proof fn lemma_filter_none(s: Seq<RenderCommand>, pred: spec_fn(RenderCommand) -> bool)
    requires
        s.len() == 3,
        !pred(s[0]),
        !pred(s[1]),
        !pred(s[2]),
    ensures
        s.filter(pred).len() == 0,
{
    let e = Seq::<RenderCommand>::empty();
    assert(s =~= e.push(s[0]).push(s[1]).push(s[2]));
    e.lemma_filter_len(pred);
    e.lemma_filter_push(s[0], pred);
    e.push(s[0]).lemma_filter_push(s[1], pred);
    e.push(s[0]).push(s[1]).lemma_filter_push(s[2], pred);
}

/// Lays out the instance buffer of every group.
pub fn upload_groups(groups: &Vec<DrawGroup>) -> (batches: Vec<DrawBatch>)
    requires
        forall|i: int|
            0 <= i < groups@.len() ==> (#[trigger] groups@[i]).matrices@.len() <= u32::MAX,
    ensures
        batches@.len() == groups@.len(),
        forall|i: int| 0 <= i < batches@.len() ==> (#[trigger] batches@[i]).carries(groups@[i]),
{
    let mut batches: Vec<DrawBatch> = Vec::new();
    let mut i: usize = 0;
    while i < groups.len()
        invariant
            i <= groups.len(),
            batches@.len() == i,
            forall|j: int|
                0 <= j < groups@.len() ==> (#[trigger] groups@[j]).matrices@.len() <= u32::MAX,
            forall|j: int| 0 <= j < i ==> (#[trigger] batches@[j]).carries(groups@[j]),
        decreases groups.len() - i,
    {
        let group = &groups[i];
        let words = flatten_instances(group.matrices.as_slice());
        let instance_bytes = words_to_bytes(words.as_slice());
        batches.push(
            DrawBatch {
                texture_id: group.texture_id,
                mesh_id: group.mesh_id,
                instance_bytes,
                count: group.matrices.len() as u32,
            },
        );
        i += 1;
    }
    batches
}

/// Every draw call of a frame stands for at least one of its requests.
pub proof fn lemma_upload_known(batches: Seq<DrawBatch>, requests: Seq<DrawCall>, i: int)
    requires
        is_upload_of(batches, requests),
        0 <= i < batches.len(),
    ensures
        batches[i].count > 0,
        exists|k: int|
            0 <= k < requests.len() && (#[trigger] requests[k]).key() == batches[i].key(),
{
    lemma_first_keys(requests);
    let key = batches[i].key();
    assert(first_keys(requests).contains(first_keys(requests)[i]));
    let kept = requests.filter(with_key(key));
    assert(transforms_of(requests, key).len() > 0);
    assert(kept.len() > 0);
    requests.lemma_filter_pred(with_key(key), 0);
    assert(kept.contains(kept[0]));
    requests.lemma_filter_contains_rev(with_key(key), kept[0]);
    let k = choose|k: int| 0 <= k < requests.len() && requests[k] == kept[0];
    assert(requests[k].key() == key);
}

/// The number of instances that the draw calls draw together.
pub open spec fn instance_total(batches: Seq<DrawBatch>) -> nat
    decreases batches.len(),
{
    if batches.len() == 0 {
        0
    } else {
        instance_total(batches.drop_last()) + batches.last().count as nat
    }
}

/// The first `n` draw calls of a frame draw what the first `n` keys count.
proof fn lemma_total_is_requests_with(batches: Seq<DrawBatch>, requests: Seq<DrawCall>, n: int)
    requires
        is_upload_of(batches, requests),
        0 <= n <= batches.len(),
    ensures
        instance_total(batches.take(n)) == requests_with(first_keys(requests).take(n), requests),
    decreases n,
{
    if n > 0 {
        lemma_total_is_requests_with(batches, requests, n - 1);
        assert(batches.take(n).drop_last() =~= batches.take(n - 1));
        assert(first_keys(requests).take(n).drop_last() =~= first_keys(requests).take(n - 1));
        assert(batches.take(n).last() == batches[n - 1]);
    }
}

/// A frame draws every request once: the draw command of each draw call
/// covers all indices of its mesh and as many instances as there are
/// requests with its pair, and all draw calls together draw as many
/// instances as there are requests.
pub proof fn lemma_frame_draws_every_request(
    batches: Seq<DrawBatch>,
    meshes: Seq<Mesh>,
    requests: Seq<DrawCall>,
)
    requires
        is_upload_of(batches, requests),
    ensures
        instance_total(batches) == requests.len(),
        draw_count(frame_commands(batches, meshes)) == first_keys(requests).len(),
        forall|i: int|
            0 <= i < batches.len() ==> #[trigger] frame_commands(batches, meshes)[6 * i + 8] == (
            RenderCommand::DrawIndexed {
                index_start: 0,
                index_end: meshes[batches[i].mesh_id as int].spec_len(),
                base_vertex: 0,
                instance_start: 0,
                instance_end: requests.filter(with_key(batches[i].key())).len() as u32,
            }),
{
    lemma_total_is_requests_with(batches, requests, batches.len() as int);
    assert(batches.take(batches.len() as int) =~= batches);
    assert(first_keys(requests).take(batches.len() as int) =~= first_keys(requests));
    lemma_requests_with_first_keys(requests);
    lemma_frame_shape(batches, meshes);
    lemma_body_shape(batches, meshes, batches.len());
    let body = body_commands(batches, meshes, batches.len());
    let all = frame_commands(batches, meshes);
    assert forall|i: int| 0 <= i < batches.len() implies #[trigger] all[6 * i + 8] == (
    RenderCommand::DrawIndexed {
        index_start: 0,
        index_end: meshes[batches[i].mesh_id as int].spec_len(),
        base_vertex: 0,
        instance_start: 0,
        instance_end: requests.filter(with_key(batches[i].key())).len() as u32,
    }) by {
        assert(all[6 * i + 8] == body[6 * i + 5]);
        assert(body.subrange(6 * i, 6 * i + 6)[5] == body[6 * i + 5]);
    }
}

} // verus!
