//! Passes that read a run from left to right and write a new one: at each
//! place a step looks at the glyphs from there on, emits some glyphs and
//! says how many it has used up.
use vstd::prelude::*;
use crate::buffer::{GlyphInfo, clusters_ascend};

verus! {

/// What a step does at one place: the glyphs that it writes, and the number
/// of glyphs of the input that they stand for.
pub struct Step {
    pub emit: Seq<GlyphInfo>,
    pub used: int,
}

/// Every step uses up at least one glyph.
pub open spec fn step_used(used: int) -> int {
    if used < 1 {
        1
    } else {
        used
    }
}

/// The number of glyphs from `from` on.
pub open spec fn left(input: Seq<GlyphInfo>, from: int) -> nat {
    if from < input.len() {
        (input.len() - from) as nat
    } else {
        0
    }
}

/// What a pass writes for the glyphs from `from` on.
pub open spec fn scan(
    step: spec_fn(Seq<GlyphInfo>, int) -> Step,
    input: Seq<GlyphInfo>,
    from: int,
) -> Seq<GlyphInfo>
    decreases left(input, from),
{
    if from < 0 || from >= input.len() {
        Seq::empty()
    } else {
        step(input, from).emit + scan(step, input, from + step_used(step(input, from).used))
    }
}

/// A step stays inside the run, and the cluster ids that it writes ascend
/// and lie between those of the first and of the last glyph that it uses up.
pub open spec fn step_in_order(s: Step, input: Seq<GlyphInfo>, at: int) -> bool {
    &&& at + step_used(s.used) <= input.len()
    &&& clusters_ascend(s.emit)
    &&& forall|k: int|
        0 <= k < s.emit.len() ==> input[at].cluster <= (#[trigger] s.emit[k]).cluster <= input[at
            + step_used(s.used) - 1].cluster
}

/// Every step of a pass over a run is in order.
pub open spec fn steps_in_order(
    step: spec_fn(Seq<GlyphInfo>, int) -> Step,
    input: Seq<GlyphInfo>,
) -> bool {
    forall|at: int| 0 <= at < input.len() ==> step_in_order(#[trigger] step(input, at), input, at)
}

/// The mask of every glyph is what `of_cluster` gives for its cluster.
pub open spec fn masks_follow(infos: Seq<GlyphInfo>, of_cluster: spec_fn(u32) -> u32) -> bool {
    forall|i: int|
        0 <= i < infos.len() ==> (#[trigger] infos[i]).mask == of_cluster(infos[i].cluster)
}

/// Every step of a pass over a run writes glyphs whose masks follow their
/// clusters.
pub open spec fn steps_keep_masks(
    step: spec_fn(Seq<GlyphInfo>, int) -> Step,
    input: Seq<GlyphInfo>,
    of_cluster: spec_fn(u32) -> u32,
) -> bool {
    forall|at: int|
        0 <= at < input.len() ==> masks_follow((#[trigger] step(input, at)).emit, of_cluster)
}

/// A pass whose steps are in order turns ascending cluster ids into
/// ascending cluster ids, none of them below that of the glyph at which it
/// started.
pub proof fn lemma_scan_ascends(
    step: spec_fn(Seq<GlyphInfo>, int) -> Step,
    input: Seq<GlyphInfo>,
    from: int,
)
    requires
        clusters_ascend(input),
        steps_in_order(step, input),
        0 <= from <= input.len(),
    ensures
        clusters_ascend(scan(step, input, from)),
        forall|k: int|
            0 <= k < scan(step, input, from).len() ==> input[from].cluster <= (#[trigger] scan(
                step,
                input,
                from,
            )[k]).cluster,
    decreases left(input, from),
{
    if from < input.len() {
        let s = step(input, from);
        let next = from + step_used(s.used);
        assert(step_in_order(s, input, from));
        lemma_scan_ascends(step, input, next);
        let rest = scan(step, input, next);
        let out = scan(step, input, from);
        assert(out == s.emit + rest);
        assert forall|k: int| 0 <= k < out.len() implies input[from].cluster <= (
        #[trigger] out[k]).cluster by {
            if k < s.emit.len() {
                assert(out[k] == s.emit[k]);
            } else {
                assert(out[k] == rest[k - s.emit.len()]);
                assert(input[from].cluster <= input[next].cluster);
            }
        }
        assert forall|i: int, j: int| 0 <= i <= j < out.len() implies out[i].cluster
            <= out[j].cluster by {
            if j < s.emit.len() {
                assert(out[i] == s.emit[i] && out[j] == s.emit[j]);
            } else if i >= s.emit.len() {
                assert(out[i] == rest[i - s.emit.len()]);
                assert(out[j] == rest[j - s.emit.len()]);
            } else {
                assert(out[i] == s.emit[i]);
                assert(out[j] == rest[j - s.emit.len()]);
                assert(input[next - 1].cluster <= input[next].cluster);
            }
        }
    }
}

/// A pass whose steps write masks that follow the clusters writes a run
/// whose masks follow the clusters.
pub proof fn lemma_scan_keeps_masks(
    step: spec_fn(Seq<GlyphInfo>, int) -> Step,
    input: Seq<GlyphInfo>,
    of_cluster: spec_fn(u32) -> u32,
    from: int,
)
    requires
        steps_keep_masks(step, input, of_cluster),
        0 <= from,
    ensures
        masks_follow(scan(step, input, from), of_cluster),
    decreases left(input, from),
{
    if from < input.len() {
        let s = step(input, from);
        let next = from + step_used(s.used);
        lemma_scan_keeps_masks(step, input, of_cluster, next);
        let rest = scan(step, input, next);
        let out = scan(step, input, from);
        assert(masks_follow(s.emit, of_cluster));
        assert forall|i: int| 0 <= i < out.len() implies (#[trigger] out[i]).mask == of_cluster(
            out[i].cluster,
        ) by {
            if i < s.emit.len() {
                assert(out[i] == s.emit[i]);
            } else {
                assert(out[i] == rest[i - s.emit.len()]);
            }
        }
    }
}

/// A pass whose steps stay inside the run and write at most `bound` glyphs
/// for each glyph that they use up writes at most `bound` glyphs for each
/// glyph of the run.
pub proof fn lemma_scan_len_bounded(
    step: spec_fn(Seq<GlyphInfo>, int) -> Step,
    input: Seq<GlyphInfo>,
    from: int,
    bound: nat,
)
    requires
        0 <= from <= input.len(),
        forall|at: int|
            0 <= at < input.len() ==> at + step_used((#[trigger] step(input, at)).used)
                <= input.len() && step(input, at).emit.len() <= bound * step_used(
                step(input, at).used,
            ),
    ensures
        scan(step, input, from).len() <= bound * (input.len() - from),
    decreases left(input, from),
{
    if from < input.len() {
        let s = step(input, from);
        let used = step_used(s.used);
        lemma_scan_len_bounded(step, input, from + used, bound);
        let rest = input.len() - from - used;
        assert(bound * used + bound * rest == bound * (input.len() - from)) by (nonlinear_arith)
            requires
                used + rest == input.len() - from,
        ;
    } else {
        assert(bound * (input.len() - from) == 0) by (nonlinear_arith)
            requires
                input.len() - from == 0,
        ;
    }
}

/// What a pass has written after one more step, together with what it
/// writes from there on, is what it had written together with what it
/// writes from the place of the step on.
pub proof fn lemma_scan_step(
    step: spec_fn(Seq<GlyphInfo>, int) -> Step,
    input: Seq<GlyphInfo>,
    at: int,
    before: Seq<GlyphInfo>,
    after: Seq<GlyphInfo>,
)
    requires
        0 <= at < input.len(),
        after == before + step(input, at).emit,
    ensures
        after + scan(step, input, at + step_used(step(input, at).used)) == before + scan(
            step,
            input,
            at,
        ),
{
    let s = step(input, at);
    let rest = scan(step, input, at + step_used(s.used));
    assert((before + s.emit) + rest =~= before + (s.emit + rest));
}

} // verus!
