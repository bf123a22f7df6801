//! What holds of every run that is shaped.
use vstd::prelude::*;
use crate::buffer::{
    BufferView, GlyphBuffer, GlyphInfo, clusters_ascend, clusters_descend, guessed_properties,
};
use crate::common::{Feature, hb_segment_properties_t};
use crate::face::{hb_face_t, hb_font_t};
use crate::map::{
    StageView, last_ranged_request, lemma_cluster_mask_of_feature, lemma_compiled_wf,
    lemma_feature_masks_disjoint, placed, slot_index,
};
use crate::plan::{plan_of, planned_builder};
use crate::complex::shaper_for;
use crate::scan::masks_follow;
use crate::shape::{
    ShapeFailure, after_stages, is_outcome, lemma_reverse_descends, lemma_shaped_in_order,
    mask_rule, seen_by_pause, shaped, shaped_in_order, substituted_by,
};

verus! {

/// Shaping the same text with the same font and the same requests twice
/// gives the same outcome: either both runs fail, for the same reason, or
/// both give the same glyphs with the same positions.
pub proof fn lemma_shaping_is_deterministic(
    font: hb_font_t,
    features: Seq<Feature>,
    buffer: BufferView,
    first: Result<GlyphBuffer, ShapeFailure>,
    second: Result<GlyphBuffer, ShapeFailure>,
)
    requires
        is_outcome(font, features, buffer, first),
        is_outcome(font, features, buffer, second),
    ensures
        first is Ok <==> second is Ok,
        first is Ok ==> first->Ok_0@.infos == second->Ok_0@.infos && first->Ok_0@.positions
            == second->Ok_0@.positions && first->Ok_0@ == second->Ok_0@,
        first is Err ==> first->Err_0.error == second->Err_0.error && first->Err_0.buffer@
            == second->Err_0.buffer@,
{
}

/// Within one plan no two features share a bit of the mask.
pub proof fn lemma_plan_masks_are_disjoint(
    face: hb_face_t,
    props: hb_segment_properties_t,
    features: Seq<Feature>,
    i: int,
    j: int,
)
    requires
        0 <= i < plan_of(face, props, features).map.features.len(),
        0 <= j < plan_of(face, props, features).map.features.len(),
        i != j,
    ensures
        plan_of(face, props, features).map.features[i].mask & plan_of(
            face,
            props,
            features,
        ).map.features[j].mask == 0,
{
    lemma_compiled_wf(
        planned_builder(shaper_for(props.script.0.0), props, features),
        face,
        props.script.0.0,
    );
    lemma_feature_masks_disjoint(plan_of(face, props, features).map.features, i, j);
}

/// The cluster ids of a shaped run never fall along a forward run and
/// never rise along a backward one, where those of the text never fall.
pub proof fn lemma_shaped_clusters_are_monotone(
    font: hb_font_t,
    features: Seq<Feature>,
    buffer: BufferView,
)
    requires
        clusters_ascend(buffer.infos),
        shaped(font, features, buffer) is Ok,
    ensures
        shaped(font, features, buffer)->Ok_0.props.direction.backward() ==> clusters_descend(
            shaped(font, features, buffer)->Ok_0.infos,
        ),
        !shaped(font, features, buffer)->Ok_0.props.direction.backward() ==> clusters_ascend(
            shaped(font, features, buffer)->Ok_0.infos,
        ),
        shaped(font, features, buffer)->Ok_0.infos.len() == shaped(
            font,
            features,
            buffer,
        )->Ok_0.positions.len(),
{
    let props = guessed_properties(buffer.props, buffer.infos, buffer.default_language);
    let plan = plan_of(font.face, props, features);
    lemma_shaped_in_order(font, plan, features, buffer.cluster_level, buffer.infos);
    let run = shaped_in_order(font, plan, features, buffer.cluster_level, buffer.infos);
    if props.direction.backward() {
        lemma_reverse_descends(run.infos);
    }
}

/// The pause of a stage sees the run with the lookups of its own stage
/// applied, and with nothing of what comes behind it: two lists of stages
/// that agree up to the lookups of a stage show its pause the same run,
/// whatever follows in either.
pub proof fn lemma_pause_sees_its_own_stage(
    face: hb_face_t,
    stages: Seq<StageView>,
    others: Seq<StageView>,
    index: int,
    infos: Seq<GlyphInfo>,
)
    requires
        0 <= index < stages.len(),
        index < others.len(),
        forall|k: int| 0 <= k <= index ==> (#[trigger] stages[k]).lookups == others[k].lookups,
        forall|k: int| 0 <= k < index ==> (#[trigger] stages[k]).pause == others[k].pause,
    ensures
        seen_by_pause(face, stages, index, infos) == seen_by_pause(face, others, index, infos),
        seen_by_pause(face, stages, index, infos) == substituted_by(
            face,
            stages[index].lookups,
            stages[index].lookups.len() as int,
            after_stages(face, stages, index, infos),
        ),
    decreases index,
{
    if index > 0 {
        lemma_pause_sees_its_own_stage(face, stages, others, index - 1, infos);
        assert(stages[index - 1].pause == others[index - 1].pause);
    }
    assert(stages[index].lookups == others[index].lookups);
}

/// The mask of every glyph of a shaped run is the mask that the plan and
/// the requests of the caller give its cluster.
pub proof fn lemma_shaped_masks_follow_clusters(
    font: hb_font_t,
    features: Seq<Feature>,
    buffer: BufferView,
)
    requires
        clusters_ascend(buffer.infos),
        shaped(font, features, buffer) is Ok,
    ensures
        masks_follow(
            shaped(font, features, buffer)->Ok_0.infos,
            mask_rule(
                plan_of(
                    font.face,
                    shaped(font, features, buffer)->Ok_0.props,
                    features,
                ).map,
                features,
            ),
        ),
{
    let props = guessed_properties(buffer.props, buffer.infos, buffer.default_language);
    let plan = plan_of(font.face, props, features);
    let rule = mask_rule(plan.map, features);
    lemma_shaped_in_order(font, plan, features, buffer.cluster_level, buffer.infos);
    let run = shaped_in_order(font, plan, features, buffer.cluster_level, buffer.infos);
    if props.direction.backward() {
        let reversed = run.infos.reverse();
        assert forall|i: int| 0 <= i < reversed.len() implies (#[trigger] reversed[i]).mask
            == rule(reversed[i].cluster) by {
            assert(reversed[i] == run.infos[run.infos.len() - 1 - i]);
        }
    }
}

/// A request for a range reaches the glyphs of the clusters in its range
/// and no others. On every glyph of a shaped run the bits of a feature hold
/// the value of the last request of the caller that names the feature and
/// covers the cluster of the glyph with a range; on a glyph whose cluster no
/// such request covers they hold what they hold in the mask of the whole
/// run, which is nothing for a feature that is only asked for over ranges.
pub proof fn lemma_ranged_requests_stay_in_range(
    font: hb_font_t,
    features: Seq<Feature>,
    buffer: BufferView,
    glyph: int,
    slot: int,
)
    requires
        clusters_ascend(buffer.infos),
        shaped(font, features, buffer) is Ok,
        0 <= glyph < shaped(font, features, buffer)->Ok_0.infos.len(),
        0 <= slot < plan_of(
            font.face,
            shaped(font, features, buffer)->Ok_0.props,
            features,
        ).map.features.len(),
        slot == slot_index(
            plan_of(font.face, shaped(font, features, buffer)->Ok_0.props, features).map.features,
            plan_of(
                font.face,
                shaped(font, features, buffer)->Ok_0.props,
                features,
            ).map.features[slot].tag.0,
            0,
        ),
    ensures
        ({
            let out = shaped(font, features, buffer)->Ok_0;
            let map = plan_of(font.face, out.props, features).map;
            let last = last_ranged_request(
                features,
                features.len() as int,
                map.features[slot].tag.0,
                out.infos[glyph].cluster,
            );
            out.infos[glyph].mask & map.features[slot].mask == (if last >= 0 {
                placed(features[last].value, map.features[slot].shift, map.features[slot].mask)
            } else {
                map.global_mask & map.features[slot].mask
            })
        }),
{
    let out = shaped(font, features, buffer)->Ok_0;
    let plan = plan_of(font.face, out.props, features);
    lemma_shaped_masks_follow_clusters(font, features, buffer);
    lemma_compiled_wf(
        planned_builder(shaper_for(out.props.script.0.0), out.props, features),
        font.face,
        out.props.script.0.0,
    );
    assert(out.infos[glyph].mask == mask_rule(plan.map, features)(out.infos[glyph].cluster));
    lemma_cluster_mask_of_feature(
        plan.map.features,
        plan.map.global_mask,
        features,
        features.len() as int,
        out.infos[glyph].cluster,
        slot,
    );
}

} // verus!
