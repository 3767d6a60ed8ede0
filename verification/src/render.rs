//! The decisions of a frame: which faces are drawn, how bright, and in what
//! order.
//!
//! The host turns, moves and projects the corners of each face and hands back
//! what it found as a `Sample`. What is done with the samples is decided here.

use vstd::prelude::*;
use crate::maths::scalar;
use crate::maths::vec::Vec3d;
use crate::mesh::{Mesh, MeshView};
use crate::triangle::Triangle;

verus! {

/// What the host worked out for one face.
#[derive(Clone, Copy, Debug)]
pub struct Sample {
    /// The corners of the face on the screen.
    pub screen: (Vec3d, Vec3d, Vec3d),
    /// The dot product of the unit normal of the face and the ray from the
    /// camera to its first corner.
    pub facing: u32,
    /// The dot product of the unit normal of the face and the unit direction
    /// of the light.
    pub light: u32,
    /// The mean depth of the three corners.
    pub depth: u32,
}

/// A triangle ready to be drawn, and the depth that it is drawn at.
#[derive(Debug)]
pub struct Drawable {
    pub tri: Triangle,
    pub depth: u32,
}

impl Clone for Drawable {
    fn clone(&self) -> (copy: Self)
        ensures
            copy == *self,
    {
        Drawable { tri: self.tri.clone(), depth: self.depth }
    }
}

/// The face looks at the camera: the dot product of its normal and the ray
/// from the camera is below zero.
pub open spec fn faces_camera(facing: u32) -> bool {
    scalar::below(facing, scalar::ZERO)
}

/// The luminance of a face under the light: the dot product of its normal and
/// the light, but no less than a tenth.
pub open spec fn lit(light: u32) -> u32 {
    if scalar::below(scalar::TENTH, light) {
        light
    } else {
        scalar::TENTH
    }
}

/// The items with the depth of ordinal `o`.
pub open spec fn depth_is(o: int) -> spec_fn(Drawable) -> bool {
    |d: Drawable| scalar::ordinal(d.depth) == o
}

/// Every depth is a number.
pub open spec fn numbered(items: Seq<Drawable>) -> bool {
    forall|i: int| 0 <= i < items.len() ==> !scalar::nan(#[trigger] items[i].depth)
}

/// No item stands before one that is deeper.
pub open spec fn descending(items: Seq<Drawable>) -> bool {
    forall|a: int, b: int|
        0 <= a < b < items.len() ==> scalar::ordinal(#[trigger] items[a].depth) >= scalar::ordinal(
            #[trigger] items[b].depth,
        )
}

/// For every depth, `sorted` holds the items of `items` that have it, in the
/// order in which `items` holds them.
pub open spec fn same_runs(sorted: Seq<Drawable>, items: Seq<Drawable>) -> bool {
    forall|o: int| #[trigger] sorted.filter(depth_is(o)) == items.filter(depth_is(o))
}

/// What is drawn of face `i`: its colours from the mesh, its corners on the
/// screen, its luminance and its depth.
pub open spec fn drawn(mesh: MeshView, samples: Seq<Sample>, i: int) -> Drawable {
    Drawable {
        tri: Triangle {
            vertices: samples[i].screen,
            fill: mesh.compiled(i).fill,
            stroke: mesh.compiled(i).stroke,
            lum: lit(samples[i].light),
        },
        depth: samples[i].depth,
    }
}

/// What is drawn of the first `n` faces, in their order: the faces that look
/// at the camera.
pub open spec fn collected(mesh: MeshView, samples: Seq<Sample>, n: int) -> Seq<Drawable>
    decreases n,
{
    if n <= 0 {
        Seq::empty()
    } else if faces_camera(samples[n - 1].facing) {
        collected(mesh, samples, n - 1).push(drawn(mesh, samples, n - 1))
    } else {
        collected(mesh, samples, n - 1)
    }
}

/// How many of the first `n` faces look at the camera.
pub open spec fn facing_count(samples: Seq<Sample>, n: int) -> int
    decreases n,
{
    if n <= 0 {
        0
    } else if faces_camera(samples[n - 1].facing) {
        facing_count(samples, n - 1) + 1
    } else {
        facing_count(samples, n - 1)
    }
}

/// The frame holds the faces that look at the camera and no others: each such
/// face is there as `drawn` makes it, each item was made of such a face, and
/// there are as many items as there are such faces.
pub open spec fn holds_facing(mesh: MeshView, samples: Seq<Sample>, frame: Seq<Drawable>) -> bool {
    &&& forall|i: int|
        0 <= i < samples.len() && faces_camera(#[trigger] samples[i].facing) ==> frame.contains(
            drawn(mesh, samples, i),
        )
    &&& forall|k: int|
        0 <= k < frame.len() ==> exists|i: int|
            0 <= i < samples.len() && faces_camera(samples[i].facing) && #[trigger] frame[k]
                == drawn(mesh, samples, i)
    &&& frame.len() == facing_count(samples, samples.len() as int)
    &&& frame.len() <= samples.len()
}

/// Tells whether a face is drawn: whether it looks at the camera. A face seen
/// edge on is not drawn, nor one whose dot product is not a number.
pub fn is_visible(facing: u32) -> (visible: bool)
    ensures
        visible == faces_camera(facing),
{
    scalar::less_than(facing, scalar::ZERO)
}

/// The luminance of a face whose normal and the light have the dot product
/// `light`.
pub fn luminance(light: u32) -> (lum: u32)
    ensures
        lum == lit(light),
{
    scalar::larger(light, scalar::TENTH)
}

/// The faces of `mesh` that look at the camera, in the order of the mesh, each
/// as it will be drawn.
pub fn collect(mesh: &Mesh, samples: &Vec<Sample>) -> (items: Vec<Drawable>)
    requires
        mesh@.well_formed(),
        samples@.len() == mesh@.faces.len(),
    ensures
        items@ == collected(mesh@, samples@, samples@.len() as int),
{
    let mut items: Vec<Drawable> = Vec::new();
    let mut i: usize = 0;
    while i < samples.len()
        invariant
            i <= samples.len(),
            mesh@.well_formed(),
            samples@.len() == mesh@.faces.len(),
            items@ == collected(mesh@, samples@, i as int),
        decreases samples.len() - i,
    {
        let sample = samples[i];
        if is_visible(sample.facing) {
            assert(mesh@.valid_face(mesh@.faces[i as int]));
            match mesh.compile_face(i) {
                Some(face) => {
                    items.push(
                        Drawable {
                            tri: Triangle {
                                vertices: sample.screen,
                                fill: face.fill,
                                stroke: face.stroke,
                                lum: luminance(sample.light),
                            },
                            depth: sample.depth,
                        },
                    );
                },
                None => {},
            }
        }
        i += 1;
    }
    items
}

/// Orders the items from the deepest to the nearest, so that what is drawn
/// later covers what lies behind it. Items of equal depth keep their order.
pub fn sort_by_depth(items: &Vec<Drawable>) -> (sorted: Vec<Drawable>)
    requires
        numbered(items@),
    ensures
        descending(sorted@),
        same_runs(sorted@, items@),
        sorted@.len() == items@.len(),
{
    let mut sorted: Vec<Drawable> = Vec::new();
    let mut k: usize = 0;
    proof {
        assert(items@.subrange(0, 0) =~= sorted@);
    }
    while k < items.len()
        invariant
            k <= items.len(),
            numbered(items@),
            descending(sorted@),
            same_runs(sorted@, items@.subrange(0, k as int)),
            sorted@.len() == k,
        decreases items.len() - k,
    {
        let item = items[k].clone();
        let key = scalar::ordinal_of(item.depth);
        let mut pos: usize = 0;
        while pos < sorted.len() && scalar::ordinal_of(sorted[pos].depth) >= key
            invariant
                pos <= sorted.len(),
                key == scalar::ordinal(item.depth),
                forall|p: int|
                    0 <= p < pos ==> scalar::ordinal(#[trigger] sorted@[p].depth) >= key,
            decreases sorted.len() - pos,
        {
            pos += 1;
        }
        proof {
            let before = sorted@;
            let x = items@[k as int];
            assert forall|p: int| pos <= p < before.len() implies scalar::ordinal(
                #[trigger] before[p].depth,
            ) < scalar::ordinal(x.depth) by {
                if p > pos {
                    assert(scalar::ordinal(before[pos as int].depth) >= scalar::ordinal(
                        before[p].depth,
                    ));
                }
            }
            assert forall|o: int| #[trigger]
                before.insert(pos as int, x).filter(depth_is(o)) == items@.subrange(
                    0,
                    k + 1,
                ).filter(depth_is(o)) by {
                insert_keeps_runs(before, pos as int, x, o);
                take_one_more(items@, k as int, o);
                assert(before.filter(depth_is(o)) == items@.subrange(0, k as int).filter(
                    depth_is(o),
                ));
            }
        }
        sorted.insert(pos, item);
        k += 1;
    }
    assert(items@.subrange(0, items@.len() as int) =~= items@);
    sorted
}

/// The frame: the faces of `mesh` that look at the camera, each with its
/// colours, its corners on the screen and its luminance, from the deepest to
/// the nearest. Faces of equal depth come in the order of the mesh.
pub fn render(mesh: &Mesh, samples: &Vec<Sample>) -> (frame: Vec<Drawable>)
    requires
        mesh@.well_formed(),
        samples@.len() == mesh@.faces.len(),
        forall|i: int|
            0 <= i < samples@.len() && faces_camera(#[trigger] samples@[i].facing)
                ==> !scalar::nan(samples@[i].depth),
    ensures
        descending(frame@),
        same_runs(frame@, collected(mesh@, samples@, samples@.len() as int)),
        frame@.len() == collected(mesh@, samples@, samples@.len() as int).len(),
        holds_facing(mesh@, samples@, frame@),
{
    let items = collect(mesh, samples);
    proof {
        collected_is_numbered(mesh@, samples@, samples@.len() as int);
        assert forall|frame: Seq<Drawable>| same_runs(frame, items@) implies holds_facing(
            mesh@,
            samples@,
            frame,
        ) by {
            frame_holds_the_facing_faces(mesh@, samples@, frame);
        }
    }
    sort_by_depth(&items)
}

/// Putting `x` in front of items that all are nearer than it adds `x` behind
/// the items of its own depth and leaves those of every other depth alone.
proof fn insert_keeps_runs(out: Seq<Drawable>, pos: int, x: Drawable, o: int)
    requires
        0 <= pos <= out.len(),
        forall|p: int|
            pos <= p < out.len() ==> scalar::ordinal(#[trigger] out[p].depth) < scalar::ordinal(
                x.depth,
            ),
    ensures
        out.insert(pos, x).filter(depth_is(o)) == if scalar::ordinal(x.depth) == o {
            out.filter(depth_is(o)).push(x)
        } else {
            out.filter(depth_is(o))
        },
{
    let pred = depth_is(o);
    let head = out.subrange(0, pos);
    let tail = out.subrange(pos, out.len() as int);
    assert(out =~= head + tail);
    assert(out.insert(pos, x) =~= (head + seq![x]) + tail);
    Seq::filter_distributes_over_add(head, tail, pred);
    Seq::filter_distributes_over_add(head + seq![x], tail, pred);
    Seq::filter_distributes_over_add(head, seq![x], pred);
    assert(seq![x].filter(pred) =~= if pred(x) {
        seq![x]
    } else {
        Seq::empty()
    }) by {
        reveal_with_fuel(Seq::filter, 2);
        assert(seq![x].drop_last() =~= Seq::<Drawable>::empty());
    }
    if scalar::ordinal(x.depth) == o {
        let kept = tail.filter(pred);
        if kept.len() > 0 {
            tail.lemma_filter_pred(pred, 0);
            tail.lemma_filter_contains_rev(pred, kept[0]);
            let p = choose|p: int| 0 <= p < tail.len() && tail[p] == kept[0];
            assert(tail[p] == out[pos + p]);
        }
        assert(kept =~= Seq::<Drawable>::empty());
        assert(out.insert(pos, x).filter(pred) =~= out.filter(pred).push(x));
    } else {
        assert(out.insert(pos, x).filter(pred) =~= out.filter(pred));
    }
}

/// The items of one depth among the first `k + 1` are those among the first
/// `k`, and item `k` behind them if it has that depth.
proof fn take_one_more(items: Seq<Drawable>, k: int, o: int)
    requires
        0 <= k < items.len(),
    ensures
        items.subrange(0, k + 1).filter(depth_is(o)) == if scalar::ordinal(items[k].depth) == o {
            items.subrange(0, k).filter(depth_is(o)).push(items[k])
        } else {
            items.subrange(0, k).filter(depth_is(o))
        },
{
    reveal(Seq::filter);
    assert(items.subrange(0, k + 1).drop_last() =~= items.subrange(0, k));
}

/// Where the depth of every face that looks at the camera is a number, every
/// depth among what is drawn is a number.
proof fn collected_is_numbered(mesh: MeshView, samples: Seq<Sample>, n: int)
    requires
        0 <= n <= samples.len(),
        forall|i: int|
            0 <= i < samples.len() && faces_camera(#[trigger] samples[i].facing) ==> !scalar::nan(
                samples[i].depth,
            ),
    ensures
        numbered(collected(mesh, samples, n)),
    decreases n,
{
    if n > 0 {
        collected_is_numbered(mesh, samples, n - 1);
    }
}

/// A face is among what is drawn exactly if it looks at the camera: each
/// face that does is there as `drawn` makes it, and whatever is there was made
/// of a face that does.
pub proof fn culling_keeps_facing(mesh: MeshView, samples: Seq<Sample>, n: int)
    requires
        0 <= n <= samples.len(),
    ensures
        forall|i: int|
            0 <= i < n && faces_camera(#[trigger] samples[i].facing) ==> collected(
                mesh,
                samples,
                n,
            ).contains(drawn(mesh, samples, i)),
        forall|k: int|
            0 <= k < collected(mesh, samples, n).len() ==> exists|i: int|
                0 <= i < n && faces_camera(samples[i].facing) && #[trigger] collected(
                    mesh,
                    samples,
                    n,
                )[k] == drawn(mesh, samples, i),
    decreases n,
{
    if n > 0 {
        culling_keeps_facing(mesh, samples, n - 1);
        let before = collected(mesh, samples, n - 1);
        let now = collected(mesh, samples, n);
        assert forall|i: int| 0 <= i < n && faces_camera(#[trigger] samples[i].facing) implies now
            .contains(drawn(mesh, samples, i)) by {
            if i < n - 1 {
                let k = choose|k: int| 0 <= k < before.len() && before[k] == drawn(mesh, samples, i);
                assert(now[k] == drawn(mesh, samples, i));
            } else {
                assert(now[now.len() - 1] == drawn(mesh, samples, i));
            }
        }
        assert forall|k: int| 0 <= k < now.len() implies exists|i: int|
            0 <= i < n && faces_camera(samples[i].facing) && #[trigger] now[k] == drawn(
                mesh,
                samples,
                i,
            ) by {
            if k < before.len() {
                let i = choose|i: int|
                    0 <= i < n - 1 && faces_camera(samples[i].facing) && before[k] == drawn(
                        mesh,
                        samples,
                        i,
                    );
                assert(now[k] == drawn(mesh, samples, i));
            } else {
                assert(now[k] == drawn(mesh, samples, n - 1));
            }
        }
    }
}

/// What is drawn of the first `n` faces has as many items as there are faces
/// among them that look at the camera.
pub proof fn collected_counts_facing(mesh: MeshView, samples: Seq<Sample>, n: int)
    requires
        0 <= n <= samples.len(),
    ensures
        collected(mesh, samples, n).len() == facing_count(samples, n),
        0 <= facing_count(samples, n) <= n,
    decreases n,
{
    if n > 0 {
        collected_counts_facing(mesh, samples, n - 1);
    }
}

/// A frame that holds, for every depth, what was collected of that depth,
/// holds the faces that look at the camera and no others.
pub proof fn frame_holds_the_facing_faces(
    mesh: MeshView,
    samples: Seq<Sample>,
    frame: Seq<Drawable>,
)
    requires
        same_runs(frame, collected(mesh, samples, samples.len() as int)),
    ensures
        holds_facing(mesh, samples, frame),
        frame.to_multiset() =~= collected(mesh, samples, samples.len() as int).to_multiset(),
{
    broadcast use vstd::seq_lib::group_to_multiset_ensures;

    let n = samples.len() as int;
    let all = collected(mesh, samples, n);
    same_runs_same_items(frame, all);
    culling_keeps_facing(mesh, samples, n);
    collected_counts_facing(mesh, samples, n);
    assert(frame.len() == all.len()) by {
        vstd::seq_lib::to_multiset_len(frame);
        vstd::seq_lib::to_multiset_len(all);
    }
    assert forall|i: int|
        0 <= i < samples.len() && faces_camera(#[trigger] samples[i].facing) implies frame.contains(
        drawn(mesh, samples, i),
    ) by {
        let d = drawn(mesh, samples, i);
        assert(all.contains(d));
        vstd::seq_lib::to_multiset_contains(all, d);
        vstd::seq_lib::to_multiset_contains(frame, d);
    }
    assert forall|k: int| 0 <= k < frame.len() implies exists|i: int|
        0 <= i < samples.len() && faces_camera(samples[i].facing) && #[trigger] frame[k] == drawn(
            mesh,
            samples,
            i,
        ) by {
        let d = frame[k];
        assert(frame.contains(d));
        vstd::seq_lib::to_multiset_contains(frame, d);
        vstd::seq_lib::to_multiset_contains(all, d);
        let j = choose|j: int| 0 <= j < all.len() && all[j] == d;
        let i = choose|i: int|
            0 <= i < n && faces_camera(samples[i].facing) && all[j] == drawn(mesh, samples, i);
        assert(frame[k] == drawn(mesh, samples, i));
    }
}

/// Of two faces that look at the camera, the deeper one is drawn first,
/// wherever the two stand in the mesh.
pub proof fn farther_face_is_drawn_first(
    mesh: MeshView,
    samples: Seq<Sample>,
    frame: Seq<Drawable>,
    far: int,
    near: int,
)
    requires
        descending(frame),
        same_runs(frame, collected(mesh, samples, samples.len() as int)),
        0 <= far < samples.len(),
        0 <= near < samples.len(),
        faces_camera(samples[far].facing),
        faces_camera(samples[near].facing),
        scalar::below(samples[near].depth, samples[far].depth),
    ensures
        exists|a: int, b: int|
            0 <= a < b < frame.len() && #[trigger] frame[a] == drawn(mesh, samples, far)
                && #[trigger] frame[b] == drawn(mesh, samples, near),
{
    frame_holds_the_facing_faces(mesh, samples, frame);
    let f = drawn(mesh, samples, far);
    let g = drawn(mesh, samples, near);
    assert(frame.contains(f));
    assert(frame.contains(g));
    let a = choose|a: int| 0 <= a < frame.len() && frame[a] == f;
    let b = choose|b: int| 0 <= b < frame.len() && frame[b] == g;
    deeper_is_drawn_first(frame, a, b);
    assert(frame[a] == drawn(mesh, samples, far) && frame[b] == drawn(mesh, samples, near));
}

/// Of two items in a frame, the deeper one is drawn first.
pub proof fn deeper_is_drawn_first(frame: Seq<Drawable>, a: int, b: int)
    requires
        descending(frame),
        0 <= a < frame.len(),
        0 <= b < frame.len(),
        scalar::below(frame[b].depth, frame[a].depth),
    ensures
        a < b,
{
}

/// Ordering by depth neither drops an item nor makes one up: `sorted` holds
/// the very items of `items`, each as often.
pub proof fn same_runs_same_items(sorted: Seq<Drawable>, items: Seq<Drawable>)
    requires
        same_runs(sorted, items),
    ensures
        sorted.to_multiset() =~= items.to_multiset(),
{
    assert forall|d: Drawable| sorted.to_multiset().count(d) == items.to_multiset().count(d) by {
        let o = scalar::ordinal(d.depth);
        assert(sorted.filter(depth_is(o)) == items.filter(depth_is(o)));
        count_in_run(sorted, d);
        count_in_run(items, d);
    }
}

/// An item occurs in a sequence as often as among the items of its depth.
proof fn count_in_run(items: Seq<Drawable>, d: Drawable)
    ensures
        items.to_multiset().count(d) == items.filter(depth_is(scalar::ordinal(d.depth)))
            .to_multiset().count(d),
    decreases items.len(),
{
    broadcast use vstd::seq_lib::group_to_multiset_ensures;

    reveal(Seq::filter);
    let pred = depth_is(scalar::ordinal(d.depth));
    if items.len() == 0 {
        assert(items.filter(pred) =~= items);
    } else {
        count_in_run(items.drop_last(), d);
        assert(items =~= items.drop_last().push(items.last()));
    }
}

} // verus!
