//! Shaping: the phases that turn a buffer of code points into a buffer of
//! positioned glyphs, one after the other.
use vstd::prelude::*;
use crate::buffer::{
    BufferClusterLevel, BufferView, ContentState, GlyphBuffer, GlyphInfo, GlyphPosition,
    UnicodeBuffer, clusters_ascend, clusters_descend, guessed_properties, hb_buffer_t,
    zero_positions,
};
use crate::common::{Direction, Feature, hb_var_int_t};
use crate::complex::{lemma_shaper_reordered_keeps_order, shaper_marked, shaper_reordered};
use crate::face::{hb_face_t, hb_font_t};
use crate::map::{
    MapView, Pause, StageView, cluster_mask, find_slot, hb_ot_map_lookup_map_t, hb_ot_map_t,
    slot_wf,
};
use crate::normalize::{hb_ot_shape_normalize_context_t, lemma_normalized_ascends, normalized};
use crate::plan::{PlanView, hb_ot_shape_plan_t, plan_of};
use crate::position::{
    apply_positioning, default_positions, fallback_positions, position_marks_fallback, positioned,
    set_default_positions, settle_offsets, settled_positions,
};
use crate::scan::masks_follow;
use crate::substitute::{apply_lookup, lemma_substitution_keeps_order, lookup_applied};
use crate::tag::Tag;

verus! {

/// Why a run was not shaped.
#[derive(Clone, Copy, Debug, PartialEq, Eq, Hash, Structural)]
pub enum ShapeError {
    /// The face has no character map, or neither substitution nor
    /// positioning lookups.
    MissingRequiredTable,
    /// Nothing was ever added to the buffer.
    EmptyInput,
}

/// A run that was not shaped: the reason, and the buffer as it was handed
/// in.
#[derive(Clone, Debug)]
pub struct ShapeFailure {
    pub error: ShapeError,
    pub buffer: UnicodeBuffer,
}

/// How far a run has come.
#[derive(Clone, Copy, Debug, PartialEq, Eq, Hash, Structural)]
pub enum ShapeState {
    Unplanned,
    Planned,
    Normalized,
    MasksSet,
    SubstitutionApplied,
    PositioningApplied,
    Finalized,
}

/// The mask that the glyphs of a cluster get from the map and from the
/// requests of the caller.
pub open spec fn mask_rule(map: MapView, features: Seq<Feature>) -> spec_fn(u32) -> u32 {
    |cluster: u32|
        cluster_mask(map.features, map.global_mask, features, features.len() as int, cluster)
}

/// A run in which every glyph has the mask of its cluster.
pub open spec fn masked(
    map: MapView,
    features: Seq<Feature>,
    infos: Seq<GlyphInfo>,
) -> Seq<GlyphInfo> {
    Seq::new(
        infos.len(),
        |i: int| GlyphInfo { mask: mask_rule(map, features)(infos[i].cluster), ..infos[i] },
    )
}

/// The glyph of a code point; glyph zero where the font has none.
pub open spec fn glyph_of(font: hb_font_t, cp: u32) -> u32 {
    match font.nominal_glyph(cp) {
        Some(glyph) => glyph,
        None => 0,
    }
}

/// A run in which the glyph of each code point stands in its place.
pub open spec fn mapped(font: hb_font_t, infos: Seq<GlyphInfo>) -> Seq<GlyphInfo> {
    Seq::new(
        infos.len(),
        |i: int| GlyphInfo { codepoint: glyph_of(font, infos[i].codepoint), ..infos[i] },
    )
}

/// A run that is ready for the lookups: the masks are set, the shaper has
/// noted what it needs, and the glyphs stand in place of the code points.
pub open spec fn masks_set(
    font: hb_font_t,
    plan: PlanView,
    features: Seq<Feature>,
    infos: Seq<GlyphInfo>,
) -> Seq<
    GlyphInfo,
> {
    mapped(font, shaper_marked(plan.shaper, masked(plan.map, features, infos)))
}

/// A glyph after a pause.
pub open spec fn paused_glyph(pause: Pause, info: GlyphInfo) -> GlyphInfo {
    match pause {
        Pause::ClearSyllables => GlyphInfo { var1: hb_var_int_t { b1: 0, ..info.var1 }, ..info },
        Pause::ClearSubstitutionFlags => GlyphInfo {
            var1: hb_var_int_t { b0: 0, ..info.var1 },
            ..info
        },
    }
}

/// A run after the pause of a stage, if the stage has one.
pub open spec fn paused(pause: Option<Pause>, infos: Seq<GlyphInfo>) -> Seq<GlyphInfo> {
    match pause {
        Some(p) => Seq::new(infos.len(), |i: int| paused_glyph(p, infos[i])),
        None => infos,
    }
}

/// A run after the first `count` lookups of a stage of the substitution
/// table, each passed over the whole run before the next.
pub open spec fn substituted_by(
    face: hb_face_t,
    records: Seq<hb_ot_map_lookup_map_t>,
    count: int,
    infos: Seq<GlyphInfo>,
) -> Seq<GlyphInfo>
    decreases count,
{
    if count <= 0 {
        infos
    } else {
        lookup_applied(face, records[count - 1], substituted_by(face, records, count - 1, infos))
    }
}

/// A run after the first `count` stages of the substitution table: the
/// lookups of each stage, then its pause.
pub open spec fn after_stages(
    face: hb_face_t,
    stages: Seq<StageView>,
    count: int,
    infos: Seq<GlyphInfo>,
) -> Seq<GlyphInfo>
    decreases count, 0int,
{
    if count <= 0 {
        infos
    } else {
        paused(
            stages[count - 1].pause,
            seen_by_pause(face, stages, count - 1, infos),
        )
    }
}

/// The run that the pause of a stage of the substitution table gets to
/// see.
pub open spec fn seen_by_pause(
    face: hb_face_t,
    stages: Seq<StageView>,
    index: int,
    infos: Seq<GlyphInfo>,
) -> Seq<GlyphInfo>
    decreases index, 1int,
{
    if index < 0 {
        infos
    } else {
        substituted_by(
            face,
            stages[index].lookups,
            stages[index].lookups.len() as int,
            after_stages(face, stages, index, infos),
        )
    }
}

/// A run after substitution: the reordering of the shaper, the stages of
/// the substitution table, and at last no trace of what substitution did.
pub open spec fn substituted(
    face: hb_face_t,
    plan: PlanView,
    level: BufferClusterLevel,
    infos: Seq<GlyphInfo>,
) -> Seq<GlyphInfo> {
    paused(
        Some(Pause::ClearSubstitutionFlags),
        after_stages(
            face,
            plan.map.gsub_stages,
            plan.map.gsub_stages.len() as int,
            shaper_reordered(plan.shaper, level, infos),
        ),
    )
}

/// The glyphs of a run with their positions.
pub struct Glyphs {
    pub infos: Seq<GlyphInfo>,
    pub positions: Seq<GlyphPosition>,
}

/// The positions after the first `count` lookups of a stage of the
/// positioning table.
pub open spec fn positioned_by(
    face: hb_face_t,
    records: Seq<hb_ot_map_lookup_map_t>,
    count: int,
    infos: Seq<GlyphInfo>,
    positions: Seq<GlyphPosition>,
) -> Seq<GlyphPosition>
    decreases count,
{
    if count <= 0 {
        positions
    } else {
        positioned(
            face,
            records[count - 1],
            infos,
            positioned_by(face, records, count - 1, infos, positions),
        )
    }
}

/// A run after the first `count` stages of the positioning table.
pub open spec fn positioned_stages(
    face: hb_face_t,
    stages: Seq<StageView>,
    count: int,
    run: Glyphs,
) -> Glyphs
    decreases count,
{
    if count <= 0 {
        run
    } else {
        let before = positioned_stages(face, stages, count - 1, run);
        Glyphs {
            infos: paused(stages[count - 1].pause, before.infos),
            positions: positioned_by(
                face,
                stages[count - 1].lookups,
                stages[count - 1].lookups.len() as int,
                before.infos,
                before.positions,
            ),
        }
    }
}

/// A run after positioning: the advances of the font, the marks placed
/// without a lookup if no lookup of the plan places marks, and then the
/// stages of the positioning table.
pub open spec fn positioned_run(
    font: hb_font_t,
    plan: PlanView,
    direction: Direction,
    infos: Seq<GlyphInfo>,
) -> Glyphs {
    let advances = default_positions(font, direction, infos);
    positioned_stages(
        font.face,
        plan.map.gpos_stages,
        plan.map.gpos_stages.len() as int,
        Glyphs {
            infos,
            positions: if plan.has_gpos_mark {
                advances
            } else {
                fallback_positions(direction.vertical(), infos, advances)
            },
        },
    )
}

/// A finished run: the offsets of the marks counted from the pen, and the
/// glyphs of a backward run in reverse.
pub open spec fn finished(direction: Direction, run: Glyphs) -> Glyphs {
    let settled = settled_positions(direction.backward(), run.positions);
    if direction.backward() {
        Glyphs { infos: run.infos.reverse(), positions: settled.reverse() }
    } else {
        Glyphs { infos: run.infos, positions: settled }
    }
}

/// The glyphs of a run before the last phase, in the order of the text.
pub open spec fn shaped_in_order(
    font: hb_font_t,
    plan: PlanView,
    features: Seq<Feature>,
    level: BufferClusterLevel,
    infos: Seq<GlyphInfo>,
) -> Glyphs {
    positioned_run(
        font,
        plan,
        plan.props.direction,
        substituted(
            font.face,
            plan,
            level,
            masks_set(font, plan, features, normalized(font, plan.shaper, level, infos)),
        ),
    )
}

/// A face that can shape: it has a character map, and lookups of one of the
/// two layout tables.
pub open spec fn usable(face: hb_face_t) -> bool {
    face.table_exists(crate::tag::TABLE_CHARACTER_MAP) && (face.table_exists(
        crate::tag::TABLE_SUBSTITUTION,
    ) || face.table_exists(crate::tag::TABLE_POSITIONING))
}

/// What shaping makes of a buffer. A buffer to which nothing was ever added
/// and a face that cannot shape give an error. Else the unset properties of
/// the run are guessed, the run is planned, and its glyphs go through the
/// phases.
pub open spec fn shaped(font: hb_font_t, features: Seq<Feature>, buffer: BufferView) -> Result<
    BufferView,
    ShapeError,
> {
    if buffer.content == ContentState::Empty {
        Err(ShapeError::EmptyInput)
    } else if !usable(font.face) {
        Err(ShapeError::MissingRequiredTable)
    } else {
        let props = guessed_properties(buffer.props, buffer.infos, buffer.default_language);
        let plan = plan_of(font.face, props, features);
        let run = finished(
            props.direction,
            shaped_in_order(font, plan, features, buffer.cluster_level, buffer.infos),
        );
        Ok(
            BufferView {
                infos: run.infos,
                positions: run.positions,
                props,
                content: ContentState::Glyphs,
                ..buffer
            },
        )
    }
}

/// Two runs of the same length whose glyphs agree in cluster and mask.
pub open spec fn same_clusters_and_masks(a: Seq<GlyphInfo>, b: Seq<GlyphInfo>) -> bool {
    &&& a.len() == b.len()
    &&& forall|i: int|
        0 <= i < a.len() ==> (#[trigger] a[i]).cluster == b[i].cluster && a[i].mask == b[i].mask
}

proof fn lemma_same_clusters_and_masks(
    a: Seq<GlyphInfo>,
    b: Seq<GlyphInfo>,
    of_cluster: spec_fn(u32) -> u32,
)
    requires
        same_clusters_and_masks(a, b),
    ensures
        clusters_ascend(a) ==> clusters_ascend(b),
        masks_follow(a, of_cluster) ==> masks_follow(b, of_cluster),
{
    if clusters_ascend(a) {
        assert forall|i: int, j: int| 0 <= i <= j < b.len() implies b[i].cluster
            <= b[j].cluster by {
            assert(a[i].cluster == b[i].cluster && a[j].cluster == b[j].cluster);
        }
    }
    if masks_follow(a, of_cluster) {
        assert forall|i: int| 0 <= i < b.len() implies (#[trigger] b[i]).mask == of_cluster(
            b[i].cluster,
        ) by {
            assert(a[i].cluster == b[i].cluster && a[i].mask == b[i].mask);
        }
    }
}

/// A pause keeps ascending cluster ids ascending, and masks that follow the
/// clusters following them.
pub proof fn lemma_paused_keeps_order(
    pause: Option<Pause>,
    infos: Seq<GlyphInfo>,
    of_cluster: spec_fn(u32) -> u32,
)
    ensures
        paused(pause, infos).len() == infos.len(),
        clusters_ascend(infos) ==> clusters_ascend(paused(pause, infos)),
        masks_follow(infos, of_cluster) ==> masks_follow(paused(pause, infos), of_cluster),
{
    assert(same_clusters_and_masks(infos, paused(pause, infos)));
    lemma_same_clusters_and_masks(infos, paused(pause, infos), of_cluster);
}

/// Setting the masks keeps ascending cluster ids ascending and makes the
/// masks follow the clusters.
pub proof fn lemma_masks_set_keeps_order(
    font: hb_font_t,
    plan: PlanView,
    features: Seq<Feature>,
    infos: Seq<GlyphInfo>,
)
    ensures
        masks_set(font, plan, features, infos).len() == infos.len(),
        clusters_ascend(infos) ==> clusters_ascend(masks_set(font, plan, features, infos)),
        masks_follow(masks_set(font, plan, features, infos), mask_rule(plan.map, features)),
{
    let rule = mask_rule(plan.map, features);
    let first = masked(plan.map, features, infos);
    let second = shaper_marked(plan.shaper, first);
    let third = mapped(font, second);
    assert(masks_follow(first, rule));
    assert(clusters_ascend(infos) ==> clusters_ascend(first)) by {
        if clusters_ascend(infos) {
            assert forall|i: int, j: int| 0 <= i <= j < first.len() implies first[i].cluster
                <= first[j].cluster by {
                assert(first[i].cluster == infos[i].cluster);
                assert(first[j].cluster == infos[j].cluster);
            }
        }
    }
    assert(same_clusters_and_masks(first, second));
    lemma_same_clusters_and_masks(first, second, rule);
    assert(same_clusters_and_masks(second, third));
    lemma_same_clusters_and_masks(second, third, rule);
}

/// A lookup of the substitution table keeps ascending cluster ids
/// ascending, and masks that follow the clusters following them.
pub proof fn lemma_lookup_keeps_order(
    face: hb_face_t,
    record: hb_ot_map_lookup_map_t,
    infos: Seq<GlyphInfo>,
    of_cluster: spec_fn(u32) -> u32,
)
    requires
        clusters_ascend(infos),
    ensures
        clusters_ascend(lookup_applied(face, record, infos)),
        masks_follow(infos, of_cluster) ==> masks_follow(
            lookup_applied(face, record, infos),
            of_cluster,
        ),
{
    if record.index < face.gsub@.len() {
        lemma_substitution_keeps_order(
            face.gsub@[record.index as int].rules@,
            record,
            infos,
            of_cluster,
        );
    }
}

/// The lookups of a stage keep ascending cluster ids ascending, and masks
/// that follow the clusters following them.
pub proof fn lemma_substituted_by_keeps_order(
    face: hb_face_t,
    records: Seq<hb_ot_map_lookup_map_t>,
    count: int,
    infos: Seq<GlyphInfo>,
    of_cluster: spec_fn(u32) -> u32,
)
    requires
        clusters_ascend(infos),
    ensures
        clusters_ascend(substituted_by(face, records, count, infos)),
        masks_follow(infos, of_cluster) ==> masks_follow(
            substituted_by(face, records, count, infos),
            of_cluster,
        ),
    decreases count,
{
    if count > 0 {
        lemma_substituted_by_keeps_order(face, records, count - 1, infos, of_cluster);
        lemma_lookup_keeps_order(
            face,
            records[count - 1],
            substituted_by(face, records, count - 1, infos),
            of_cluster,
        );
    }
}

/// The stages of the substitution table keep ascending cluster ids
/// ascending, and masks that follow the clusters following them.
pub proof fn lemma_stages_keep_order(
    face: hb_face_t,
    stages: Seq<StageView>,
    count: int,
    infos: Seq<GlyphInfo>,
    of_cluster: spec_fn(u32) -> u32,
)
    requires
        clusters_ascend(infos),
    ensures
        clusters_ascend(after_stages(face, stages, count, infos)),
        masks_follow(infos, of_cluster) ==> masks_follow(
            after_stages(face, stages, count, infos),
            of_cluster,
        ),
    decreases count,
{
    if count > 0 {
        lemma_stages_keep_order(face, stages, count - 1, infos, of_cluster);
        let before = after_stages(face, stages, count - 1, infos);
        lemma_substituted_by_keeps_order(
            face,
            stages[count - 1].lookups,
            stages[count - 1].lookups.len() as int,
            before,
            of_cluster,
        );
        lemma_paused_keeps_order(
            stages[count - 1].pause,
            seen_by_pause(face, stages, count - 1, infos),
            of_cluster,
        );
    }
}

/// Substitution keeps ascending cluster ids ascending, and masks that
/// follow the clusters following them.
pub proof fn lemma_substituted_keeps_order(
    face: hb_face_t,
    plan: PlanView,
    level: BufferClusterLevel,
    infos: Seq<GlyphInfo>,
    of_cluster: spec_fn(u32) -> u32,
)
    requires
        clusters_ascend(infos),
    ensures
        clusters_ascend(substituted(face, plan, level, infos)),
        masks_follow(infos, of_cluster) ==> masks_follow(
            substituted(face, plan, level, infos),
            of_cluster,
        ),
{
    lemma_shaper_reordered_keeps_order(plan.shaper, level, infos, of_cluster);
    let reordered = shaper_reordered(plan.shaper, level, infos);
    lemma_stages_keep_order(
        face,
        plan.map.gsub_stages,
        plan.map.gsub_stages.len() as int,
        reordered,
        of_cluster,
    );
    lemma_paused_keeps_order(
        Some(Pause::ClearSubstitutionFlags),
        after_stages(face, plan.map.gsub_stages, plan.map.gsub_stages.len() as int, reordered),
        of_cluster,
    );
}

/// The stages of the positioning table keep the number of glyphs and of
/// positions, ascending cluster ids ascending, and masks that follow the
/// clusters following them.
pub proof fn lemma_positioned_stages_keep_order(
    face: hb_face_t,
    stages: Seq<StageView>,
    count: int,
    run: Glyphs,
    of_cluster: spec_fn(u32) -> u32,
)
    ensures
        positioned_stages(face, stages, count, run).infos.len() == run.infos.len(),
        positioned_stages(face, stages, count, run).positions.len() == run.positions.len(),
        clusters_ascend(run.infos) ==> clusters_ascend(
            positioned_stages(face, stages, count, run).infos,
        ),
        masks_follow(run.infos, of_cluster) ==> masks_follow(
            positioned_stages(face, stages, count, run).infos,
            of_cluster,
        ),
    decreases count,
{
    if count > 0 {
        lemma_positioned_stages_keep_order(face, stages, count - 1, run, of_cluster);
        let before = positioned_stages(face, stages, count - 1, run);
        lemma_paused_keeps_order(stages[count - 1].pause, before.infos, of_cluster);
        lemma_positioned_by_len(
            face,
            stages[count - 1].lookups,
            stages[count - 1].lookups.len() as int,
            before.infos,
            before.positions,
        );
    }
}

proof fn lemma_positioned_by_len(
    face: hb_face_t,
    records: Seq<hb_ot_map_lookup_map_t>,
    count: int,
    infos: Seq<GlyphInfo>,
    positions: Seq<GlyphPosition>,
)
    ensures
        positioned_by(face, records, count, infos, positions).len() == positions.len(),
    decreases count,
{
    if count > 0 {
        lemma_positioned_by_len(face, records, count - 1, infos, positions);
    }
}

/// The glyphs of a run before the last phase have ascending cluster ids,
/// if the text has, and masks that follow their clusters.
pub proof fn lemma_shaped_in_order(
    font: hb_font_t,
    plan: PlanView,
    features: Seq<Feature>,
    level: BufferClusterLevel,
    infos: Seq<GlyphInfo>,
)
    requires
        clusters_ascend(infos),
    ensures
        clusters_ascend(shaped_in_order(font, plan, features, level, infos).infos),
        masks_follow(
            shaped_in_order(font, plan, features, level, infos).infos,
            mask_rule(plan.map, features),
        ),
        shaped_in_order(font, plan, features, level, infos).infos.len() == shaped_in_order(
            font,
            plan,
            features,
            level,
            infos,
        ).positions.len(),
{
    let rule = mask_rule(plan.map, features);
    lemma_normalized_ascends(font, plan.shaper, level, infos);
    let n = normalized(font, plan.shaper, level, infos);
    lemma_masks_set_keeps_order(font, plan, features, n);
    let m = masks_set(font, plan, features, n);
    lemma_substituted_keeps_order(font.face, plan, level, m, rule);
    let s = substituted(font.face, plan, level, m);
    let advances = default_positions(font, plan.props.direction, s);
    let start = Glyphs {
        infos: s,
        positions: if plan.has_gpos_mark {
            advances
        } else {
            fallback_positions(plan.props.direction.vertical(), s, advances)
        },
    };
    lemma_positioned_stages_keep_order(
        font.face,
        plan.map.gpos_stages,
        plan.map.gpos_stages.len() as int,
        start,
        rule,
    );
}

/// Forgets the syllable of every glyph.
pub fn clear_syllables(buffer: &mut hb_buffer_t)
    ensures
        final(buffer)@ == (BufferView {
            infos: paused(Some(Pause::ClearSyllables), old(buffer)@.infos),
            ..old(buffer)@
        }),
        old(buffer).wf() ==> final(buffer).wf(),
{
    run_pause(Some(Pause::ClearSyllables), buffer);
}

/// Forgets what substitution did to every glyph.
pub fn clear_substitution_flags(buffer: &mut hb_buffer_t)
    ensures
        final(buffer)@ == (BufferView {
            infos: paused(Some(Pause::ClearSubstitutionFlags), old(buffer)@.infos),
            ..old(buffer)@
        }),
        old(buffer).wf() ==> final(buffer).wf(),
{
    run_pause(Some(Pause::ClearSubstitutionFlags), buffer);
}

/// Runs the pause of a stage, if the stage has one.
pub fn run_pause(pause: Option<Pause>, buffer: &mut hb_buffer_t)
    ensures
        final(buffer)@ == (BufferView {
            infos: paused(pause, old(buffer)@.infos),
            ..old(buffer)@
        }),
        old(buffer).wf() ==> final(buffer).wf(),
{
    match pause {
        Some(p) => {
            let count = buffer.info.len();
            let mut i: usize = 0;
            while i < count
                invariant
                    i <= count == buffer.info@.len(),
                    count == old(buffer)@.infos.len(),
                    buffer@.positions == old(buffer)@.positions,
                    buffer@.props == old(buffer)@.props,
                    buffer@.cluster_level == old(buffer)@.cluster_level,
                    buffer@.content == old(buffer)@.content,
                    buffer@.default_language == old(buffer)@.default_language,
                    forall|k: int|
                        0 <= k < i ==> buffer.info@[k] == paused_glyph(p, old(buffer)@.infos[k]),
                    forall|k: int| i <= k < count ==> buffer.info@[k] == old(buffer)@.infos[k],
                decreases count - i,
            {
                let info = buffer.info[i];
                let var1 = match p {
                    Pause::ClearSyllables => hb_var_int_t {
                        b0: info.var1.b0,
                        b1: 0,
                        b2: info.var1.b2,
                        b3: info.var1.b3,
                    },
                    Pause::ClearSubstitutionFlags => hb_var_int_t {
                        b0: 0,
                        b1: info.var1.b1,
                        b2: info.var1.b2,
                        b3: info.var1.b3,
                    },
                };
                buffer.info.set(
                    i,
                    GlyphInfo {
                        codepoint: info.codepoint,
                        mask: info.mask,
                        cluster: info.cluster,
                        var1,
                        var2: info.var2,
                    },
                );
                i += 1;
            }
            assert(buffer.info@ =~= paused(pause, old(buffer)@.infos));
        },
        None => {},
    }
}

/// The mask that the glyphs of a cluster get.
pub fn mask_for_cluster(map: &hb_ot_map_t, features: &[Feature], cluster: u32) -> (mask: u32)
    requires
        map.wf(),
    ensures
        mask == mask_rule(map@, features@)(cluster),
{
    let mut mask: u32 = map.global_mask;
    let mut i: usize = 0;
    while i < features.len()
        invariant
            i <= features@.len(),
            map.wf(),
            mask == cluster_mask(map@.features, map@.global_mask, features@, i as int, cluster),
        decreases features@.len() - i,
    {
        let feature = features[i];
        if !feature.is_global() && feature.applies_to(cluster) {
            match find_slot(&map.features, feature.tag) {
                Some(at) => {
                    let slot = map.features[at];
                    assert(slot_wf(map@.features[at as int]));
                    mask = (mask & !slot.mask) | ((feature.value << slot.shift) & slot.mask);
                },
                None => {},
            }
        }
        i += 1;
    }
    mask
}

/// A run on its way through the phases of shaping. Every phase starts from
/// the state that the phase before it has left, so that the phases can only
/// run in their order, each of them once.
#[derive(Clone, Debug)]
pub struct ShapeRun {
    pub state: ShapeState,
    pub buffer: UnicodeBuffer,
}

impl ShapeRun {
    /// Every glyph has its position, and the cluster ids ascend. Between
    /// normalization and positioning all positions are zero.
    pub open spec fn wf(&self) -> bool {
        &&& self.buffer.0.wf()
        &&& clusters_ascend(self.buffer@.infos)
        &&& (self.state == ShapeState::Normalized || self.state == ShapeState::MasksSet
            || self.state == ShapeState::SubstitutionApplied) ==> self.buffer@.positions
            == zero_positions(self.buffer@.infos.len())
    }

    /// Takes a buffer of code points in.
    pub fn begin(buffer: UnicodeBuffer) -> (run: ShapeRun)
        requires
            buffer.wf(),
        ensures
            run.wf(),
            run.state == ShapeState::Unplanned,
            run.buffer@ == buffer@,
    {
        ShapeRun { state: ShapeState::Unplanned, buffer }
    }

    /// How far the run has come.
    pub fn state(&self) -> (state: ShapeState)
        ensures
            state == self.state,
    {
        self.state
    }

    /// Guesses the unset properties of the run and makes its plan. A buffer
    /// to which nothing was ever added and a face that cannot shape give an
    /// error and leave the run as it is.
    pub fn plan(&mut self, font: &hb_font_t, features: &[Feature]) -> (plan: Result<
        hb_ot_shape_plan_t,
        ShapeError,
    >)
        requires
            old(self).wf(),
            old(self).state == ShapeState::Unplanned,
            font.wf(),
        ensures
            final(self).wf(),
            match plan {
                Ok(made) => {
                    &&& old(self).buffer@.content != ContentState::Empty
                    &&& usable(font.face)
                    &&& final(self).state == ShapeState::Planned
                    &&& final(self).buffer@ == (BufferView {
                        props: guessed_properties(
                            old(self).buffer@.props,
                            old(self).buffer@.infos,
                            old(self).buffer@.default_language,
                        ),
                        ..old(self).buffer@
                    })
                    &&& made.wf()
                    &&& made@ == plan_of(font.face, final(self).buffer@.props, features@)
                },
                Err(error) => {
                    &&& final(self).state == ShapeState::Unplanned
                    &&& final(self).buffer@ == old(self).buffer@
                    &&& error == (if old(self).buffer@.content == ContentState::Empty {
                        ShapeError::EmptyInput
                    } else {
                        ShapeError::MissingRequiredTable
                    })
                    &&& old(self).buffer@.content == ContentState::Empty || !usable(font.face)
                },
            },
    {
        match self.buffer.0.content {
            ContentState::Empty => {
                return Err(ShapeError::EmptyInput);
            },
            _ => {},
        }
        let face = &font.face;
        if !face.has_table(Tag(crate::tag::TABLE_CHARACTER_MAP)) || !(face.has_table(
            Tag(crate::tag::TABLE_SUBSTITUTION),
        ) || face.has_table(Tag(crate::tag::TABLE_POSITIONING))) {
            return Err(ShapeError::MissingRequiredTable);
        }
        self.buffer.guess_segment_properties();
        let made = hb_ot_shape_plan_t::new(face, self.buffer.0.props, features);
        self.state = ShapeState::Planned;
        Ok(made)
    }

    /// Normalizes the text.
    pub fn normalize(&mut self, plan: &hb_ot_shape_plan_t, font: &hb_font_t)
        requires
            old(self).wf(),
            old(self).state == ShapeState::Planned,
        ensures
            final(self).wf(),
            final(self).state == ShapeState::Normalized,
            final(self).buffer@ == (BufferView {
                infos: normalized(
                    *font,
                    plan@.shaper,
                    old(self).buffer@.cluster_level,
                    old(self).buffer@.infos,
                ),
                positions: zero_positions(
                    normalized(
                        *font,
                        plan@.shaper,
                        old(self).buffer@.cluster_level,
                        old(self).buffer@.infos,
                    ).len(),
                ),
                ..old(self).buffer@
            }),
    {
        let context = hb_ot_shape_normalize_context_t::new(plan, font);
        context.normalize(&mut self.buffer.0);
        self.state = ShapeState::Normalized;
    }

    /// Gives every glyph the mask of its cluster, lets the shaper note what
    /// it needs, and puts the glyph of each code point in its place.
    pub fn set_masks(&mut self, plan: &hb_ot_shape_plan_t, font: &hb_font_t, features: &[Feature])
        requires
            old(self).wf(),
            old(self).state == ShapeState::Normalized,
            plan.wf(),
        ensures
            final(self).wf(),
            final(self).state == ShapeState::MasksSet,
            final(self).buffer@ == (BufferView {
                infos: masks_set(*font, plan@, features@, old(self).buffer@.infos),
                ..old(self).buffer@
            }),
    {
        let ghost start = self.buffer@.infos;
        let ghost first = masked(plan@.map, features@, start);
        proof {
            lemma_masks_set_keeps_order(*font, plan@, features@, start);
        }
        let count = self.buffer.0.info.len();
        let mut i: usize = 0;
        while i < count
            invariant
                i <= count == self.buffer.0.info@.len(),
                count == start.len(),
                plan.wf(),
                self.state == old(self).state,
                self.buffer@.positions == old(self).buffer@.positions,
                self.buffer@.props == old(self).buffer@.props,
                self.buffer@.cluster_level == old(self).buffer@.cluster_level,
                self.buffer@.content == old(self).buffer@.content,
                self.buffer@.default_language == old(self).buffer@.default_language,
                first == masked(plan@.map, features@, start),
                forall|k: int| 0 <= k < i ==> self.buffer.0.info@[k] == first[k],
                forall|k: int| i <= k < count ==> self.buffer.0.info@[k] == start[k],
            decreases count - i,
        {
            let info = self.buffer.0.info[i];
            let mask = mask_for_cluster(&plan.map, features, info.cluster);
            self.buffer.0.info.set(
                i,
                GlyphInfo {
                    codepoint: info.codepoint,
                    mask,
                    cluster: info.cluster,
                    var1: info.var1,
                    var2: info.var2,
                },
            );
            i += 1;
        }
        assert(self.buffer.0.info@ =~= first);
        plan.shaper.setup_masks(&mut self.buffer.0);
        let ghost second = self.buffer@.infos;
        let mut i: usize = 0;
        while i < count
            invariant
                i <= count == self.buffer.0.info@.len(),
                count == second.len(),
                self.state == old(self).state,
                self.buffer@.positions == old(self).buffer@.positions,
                self.buffer@.props == old(self).buffer@.props,
                self.buffer@.cluster_level == old(self).buffer@.cluster_level,
                self.buffer@.content == old(self).buffer@.content,
                self.buffer@.default_language == old(self).buffer@.default_language,
                forall|k: int| 0 <= k < i ==> self.buffer.0.info@[k] == mapped(*font, second)[k],
                forall|k: int| i <= k < count ==> self.buffer.0.info@[k] == second[k],
            decreases count - i,
        {
            let info = self.buffer.0.info[i];
            let glyph = match font.glyph_for(info.codepoint) {
                Some(found) => found,
                None => 0,
            };
            self.buffer.0.info.set(
                i,
                GlyphInfo {
                    codepoint: glyph,
                    mask: info.mask,
                    cluster: info.cluster,
                    var1: info.var1,
                    var2: info.var2,
                },
            );
            i += 1;
        }
        assert(self.buffer.0.info@ =~= mapped(*font, second));
        self.state = ShapeState::MasksSet;
    }

    /// Runs the reordering of the shaper and the stages of the substitution
    /// table, each stage with its pause behind it, and then forgets what
    /// substitution did to the glyphs.
    pub fn substitute(&mut self, plan: &hb_ot_shape_plan_t, font: &hb_font_t)
        requires
            old(self).wf(),
            old(self).state == ShapeState::MasksSet,
        ensures
            final(self).wf(),
            final(self).state == ShapeState::SubstitutionApplied,
            final(self).buffer@ == (BufferView {
                infos: substituted(
                    font.face,
                    plan@,
                    old(self).buffer@.cluster_level,
                    old(self).buffer@.infos,
                ),
                positions: zero_positions(
                    substituted(
                        font.face,
                        plan@,
                        old(self).buffer@.cluster_level,
                        old(self).buffer@.infos,
                    ).len(),
                ),
                ..old(self).buffer@
            }),
    {
        let ghost level = self.buffer@.cluster_level;
        let ghost rule = mask_rule(plan@.map, Seq::<Feature>::empty());
        proof {
            lemma_substituted_keeps_order(font.face, plan@, level, self.buffer@.infos, rule);
        }
        plan.shaper.reorder(&mut self.buffer.0);
        let ghost start = self.buffer@.infos;
        let ghost stages = plan@.map.gsub_stages;
        let mut s: usize = 0;
        while s < plan.map.gsub_stages.len()
            invariant
                s <= plan.map.gsub_stages@.len(),
                stages == plan@.map.gsub_stages,
                stages.len() == plan.map.gsub_stages@.len(),
                self.state == old(self).state,
                self.buffer.0.wf(),
                self.buffer@ == (BufferView {
                    infos: after_stages(font.face, stages, s as int, start),
                    positions: zero_positions(
                        after_stages(font.face, stages, s as int, start).len(),
                    ),
                    ..old(self).buffer@
                }),
            decreases plan.map.gsub_stages@.len() - s,
        {
            let stage = &plan.map.gsub_stages[s];
            assert(stages[s as int] == stage@);
            let ghost before = self.buffer@.infos;
            let mut r: usize = 0;
            while r < stage.lookups.len()
                invariant
                    r <= stage.lookups@.len(),
                    self.state == old(self).state,
                    self.buffer.0.wf(),
                    self.buffer@ == (BufferView {
                        infos: substituted_by(font.face, stage.lookups@, r as int, before),
                        positions: zero_positions(
                            substituted_by(font.face, stage.lookups@, r as int, before).len(),
                        ),
                        ..old(self).buffer@
                    }),
                decreases stage.lookups@.len() - r,
            {
                apply_lookup(&font.face, &stage.lookups[r], &mut self.buffer.0);
                r += 1;
            }
            proof {
                lemma_paused_keeps_order(stage.pause, self.buffer@.infos, rule);
            }
            run_pause(stage.pause, &mut self.buffer.0);
            s += 1;
        }
        proof {
            lemma_paused_keeps_order(
                Some(Pause::ClearSubstitutionFlags),
                self.buffer@.infos,
                rule,
            );
        }
        clear_substitution_flags(&mut self.buffer.0);
        self.state = ShapeState::SubstitutionApplied;
    }

    /// Gives every glyph the advance of the font, places the marks if no
    /// lookup of the plan does, and runs the stages of the positioning
    /// table, each stage with its pause behind it.
    pub fn position(&mut self, plan: &hb_ot_shape_plan_t, font: &hb_font_t)
        requires
            old(self).wf(),
            old(self).state == ShapeState::SubstitutionApplied,
        ensures
            final(self).wf(),
            final(self).state == ShapeState::PositioningApplied,
            final(self).buffer@ == (BufferView {
                infos: positioned_run(
                    *font,
                    plan@,
                    old(self).buffer@.props.direction,
                    old(self).buffer@.infos,
                ).infos,
                positions: positioned_run(
                    *font,
                    plan@,
                    old(self).buffer@.props.direction,
                    old(self).buffer@.infos,
                ).positions,
                ..old(self).buffer@
            }),
    {
        let ghost rule = mask_rule(plan@.map, Seq::<Feature>::empty());
        set_default_positions(font, &mut self.buffer.0);
        if !plan.has_gpos_mark {
            position_marks_fallback(&mut self.buffer.0);
        }
        let ghost start = Glyphs { infos: self.buffer@.infos, positions: self.buffer@.positions };
        let ghost stages = plan@.map.gpos_stages;
        proof {
            lemma_positioned_stages_keep_order(
                font.face,
                stages,
                stages.len() as int,
                start,
                rule,
            );
        }
        let mut s: usize = 0;
        while s < plan.map.gpos_stages.len()
            invariant
                s <= plan.map.gpos_stages@.len(),
                stages == plan@.map.gpos_stages,
                stages.len() == plan.map.gpos_stages@.len(),
                self.state == old(self).state,
                self.buffer.0.wf(),
                self.buffer@ == (BufferView {
                    infos: positioned_stages(font.face, stages, s as int, start).infos,
                    positions: positioned_stages(font.face, stages, s as int, start).positions,
                    ..old(self).buffer@
                }),
            decreases plan.map.gpos_stages@.len() - s,
        {
            let stage = &plan.map.gpos_stages[s];
            assert(stages[s as int] == stage@);
            let ghost before = Glyphs {
                infos: self.buffer@.infos,
                positions: self.buffer@.positions,
            };
            let mut r: usize = 0;
            while r < stage.lookups.len()
                invariant
                    r <= stage.lookups@.len(),
                    self.state == old(self).state,
                    self.buffer.0.wf(),
                    self.buffer@ == (BufferView {
                        infos: before.infos,
                        positions: positioned_by(
                            font.face,
                            stage.lookups@,
                            r as int,
                            before.infos,
                            before.positions,
                        ),
                        ..old(self).buffer@
                    }),
                decreases stage.lookups@.len() - r,
            {
                apply_positioning(&font.face, &stage.lookups[r], &mut self.buffer.0);
                r += 1;
            }
            run_pause(stage.pause, &mut self.buffer.0);
            s += 1;
        }
        self.state = ShapeState::PositioningApplied;
    }

    /// Counts the offsets of the marks from the pen, turns a backward run
    /// round, and hands the glyphs out.
    pub fn finalize(self) -> (glyphs: GlyphBuffer)
        requires
            self.wf(),
            self.state == ShapeState::PositioningApplied,
        ensures
            glyphs.wf(),
            glyphs@ == (BufferView {
                infos: finished(
                    self.buffer@.props.direction,
                    Glyphs { infos: self.buffer@.infos, positions: self.buffer@.positions },
                ).infos,
                positions: finished(
                    self.buffer@.props.direction,
                    Glyphs { infos: self.buffer@.infos, positions: self.buffer@.positions },
                ).positions,
                content: ContentState::Glyphs,
                ..self.buffer@
            }),
    {
        let mut buffer = self.buffer.0;
        settle_offsets(&mut buffer);
        if buffer.props.direction.is_backward() {
            proof {
                lemma_reverse_descends(buffer@.infos);
            }
            buffer.reverse();
        }
        buffer.content = ContentState::Glyphs;
        GlyphBuffer(buffer)
    }
}

/// A run with ascending cluster ids has descending cluster ids in reverse.
pub proof fn lemma_reverse_descends(infos: Seq<GlyphInfo>)
    requires
        clusters_ascend(infos),
    ensures
        clusters_descend(infos.reverse()),
{
    let reversed = infos.reverse();
    assert forall|i: int, j: int| 0 <= i <= j < reversed.len() implies reversed[i].cluster
        >= reversed[j].cluster by {
        assert(reversed[i] == infos[infos.len() - 1 - i]);
        assert(reversed[j] == infos[infos.len() - 1 - j]);
    }
}

/// What a call of `shape` may return for a font, a list of requests and a
/// buffer.
pub open spec fn is_outcome(
    font: hb_font_t,
    features: Seq<Feature>,
    buffer: BufferView,
    result: Result<GlyphBuffer, ShapeFailure>,
) -> bool {
    match result {
        Ok(glyphs) => shaped(font, features, buffer) == Ok::<BufferView, ShapeError>(glyphs@),
        Err(failure) => failure.buffer@ == buffer && shaped(font, features, buffer) == Err::<
            BufferView,
            ShapeError,
        >(failure.error),
    }
}

/// Shapes the text of a buffer with a font and the requests of the caller.
/// The buffer is used up; a run that cannot be shaped hands it back as it
/// was.
pub fn shape(font: &hb_font_t, features: &[Feature], buffer: UnicodeBuffer) -> (result: Result<
    GlyphBuffer,
    ShapeFailure,
>)
    requires
        font.wf(),
        buffer.wf(),
    ensures
        is_outcome(*font, features@, buffer@, result),
        match result {
            Ok(glyphs) => glyphs.wf(),
            Err(failure) => failure.buffer.wf(),
        },
{
    let mut run = ShapeRun::begin(buffer);
    match run.plan(font, features) {
        Ok(plan) => {
            run.normalize(&plan, font);
            run.set_masks(&plan, font, features);
            run.substitute(&plan, font);
            run.position(&plan, font);
            Ok(run.finalize())
        },
        Err(error) => Err(ShapeFailure { error, buffer: run.buffer }),
    }
}

} // verus!
