//! The plan of a run: the shaper, the feature map and what follows from
//! them, worked out once and then only read.
use vstd::prelude::*;
use crate::common::{Feature, Script, hb_segment_properties_t};
use crate::complex::{ComplexShaper, shaper_features, shaper_for, shaper_overrides};
use crate::face::{LayoutLookup, hb_face_t};
use crate::map::{
    BuilderView, FeatureFlags, MapView, Stage, StageView, compiled, empty_builder,
    hb_ot_map_builder_t, hb_ot_map_lookup_map_t, hb_ot_map_t, stage_views, with_feature,
};
use crate::tag::Tag;

verus! {

/// The builder after the features that every run asks for.
pub open spec fn common_features(builder: BuilderView) -> BuilderView {
    let on = FeatureFlags::plain(true);
    let b1 = with_feature(builder, Tag(crate::tag::FEATURE_ABVM), on, 1);
    let b2 = with_feature(b1, Tag(crate::tag::FEATURE_BLWM), on, 1);
    let b3 = with_feature(b2, Tag(crate::tag::FEATURE_COMPOSITION), on, 1);
    let b4 = with_feature(b3, Tag(crate::tag::FEATURE_LOCL), on, 1);
    let b5 = with_feature(b4, Tag(crate::tag::FEATURE_MARK), on, 1);
    let b6 = with_feature(b5, Tag(crate::tag::FEATURE_MKMK), on, 1);
    with_feature(b6, Tag(crate::tag::FEATURE_RLIG), on, 1)
}

/// The builder after the features that the direction of a run asks for.
pub open spec fn directional_features(builder: BuilderView, horizontal: bool) -> BuilderView {
    let on = FeatureFlags::plain(true);
    if horizontal {
        let b1 = with_feature(builder, Tag(crate::tag::FEATURE_CALT), on, 1);
        let b2 = with_feature(b1, Tag(crate::tag::FEATURE_CLIG), on, 1);
        let b3 = with_feature(b2, Tag(crate::tag::FEATURE_CURS), on, 1);
        let b4 = with_feature(b3, Tag(crate::tag::FEATURE_DIST), on, 1);
        let b5 = with_feature(b4, Tag(crate::tag::FEATURE_KERN), on, 1);
        let b6 = with_feature(b5, Tag(crate::tag::FEATURE_LIGA), on, 1);
        with_feature(b6, Tag(crate::tag::FEATURE_RCLT), on, 1)
    } else {
        with_feature(builder, Tag(crate::tag::FEATURE_VERT), on, 1)
    }
}

/// The builder after the first `count` requests of the caller.
pub open spec fn caller_features(
    builder: BuilderView,
    features: Seq<Feature>,
    count: int,
) -> BuilderView
    decreases count,
{
    if count <= 0 {
        builder
    } else {
        with_feature(
            caller_features(builder, features, count - 1),
            features[count - 1].tag,
            FeatureFlags::plain(features[count - 1].global()),
            features[count - 1].value,
        )
    }
}

/// A builder after everything that a run asks for, in the order in which it
/// is asked: the features of the shaper, the features of every run, those of
/// the direction, the overrides of the shaper and at last the requests of
/// the caller, which therefore win over all that came before.
pub open spec fn planned_from(
    start: BuilderView,
    shaper: ComplexShaper,
    props: hb_segment_properties_t,
    features: Seq<Feature>,
) -> BuilderView {
    caller_features(
        shaper_overrides(
            shaper,
            directional_features(
                common_features(shaper_features(shaper, start)),
                props.direction.horizontal(),
            ),
        ),
        features,
        features.len() as int,
    )
}

/// Everything that a run asks for, collected by a builder that starts with
/// nothing.
pub open spec fn planned_builder(
    shaper: ComplexShaper,
    props: hb_segment_properties_t,
    features: Seq<Feature>,
) -> BuilderView {
    planned_from(empty_builder(), shaper, props, features)
}

/// Whether one of the first `count` lookups of a stage attaches marks.
pub open spec fn stage_attaches_marks(
    lookups: Seq<LayoutLookup>,
    records: Seq<hb_ot_map_lookup_map_t>,
    count: int,
) -> bool
    decreases count,
{
    if count <= 0 {
        false
    } else {
        stage_attaches_marks(lookups, records, count - 1) || (records[count - 1].index
            < lookups.len() && lookups[records[count - 1].index as int].attaches_marks())
    }
}

/// Whether a lookup of one of the first `count` stages attaches marks.
pub open spec fn stages_attach_marks(
    lookups: Seq<LayoutLookup>,
    stages: Seq<StageView>,
    count: int,
) -> bool
    decreases count,
{
    if count <= 0 {
        false
    } else {
        stages_attach_marks(lookups, stages, count - 1) || stage_attaches_marks(
            lookups,
            stages[count - 1].lookups,
            stages[count - 1].lookups.len() as int,
        )
    }
}

/// What a plan stands for.
pub struct PlanView {
    pub props: hb_segment_properties_t,
    pub shaper: ComplexShaper,
    pub map: MapView,
    pub has_gpos_mark: bool,
}

/// The plan of a run with these properties and requests for a face.
pub open spec fn plan_of(
    face: hb_face_t,
    props: hb_segment_properties_t,
    features: Seq<Feature>,
) -> PlanView {
    let shaper = shaper_for(props.script.0.0);
    let map = compiled(planned_builder(shaper, props, features), face, props.script.0.0);
    PlanView {
        props,
        shaper,
        map,
        has_gpos_mark: stages_attach_marks(
            face.gpos@,
            map.gpos_stages,
            map.gpos_stages.len() as int,
        ),
    }
}

/// Collects what a run asks for until the plan is made.
#[derive(Clone, Debug)]
pub struct hb_ot_shape_planner_t {
    pub props: hb_segment_properties_t,
    pub shaper: ComplexShaper,
    pub map: hb_ot_map_builder_t,
}

impl hb_ot_shape_planner_t {
    /// A planner for a run with these properties: picks the shaper of
    /// the script and asks for nothing yet.
    pub fn new(props: hb_segment_properties_t) -> (planner: hb_ot_shape_planner_t)
        ensures
            planner.props == props,
            planner.shaper == shaper_for(props.script.0.0),
            planner.map@ == empty_builder(),
    {
        hb_ot_shape_planner_t {
            props,
            shaper: ComplexShaper::for_script(props.script),
            map: hb_ot_map_builder_t::new(),
        }
    }

    /// The script of the run.
    pub fn script(&self) -> (script: Script)
        ensures
            script == self.props.script,
    {
        self.props.script
    }

    /// The builder that collects the features.
    pub fn ot_map(&self) -> (builder: &hb_ot_map_builder_t)
        ensures
            *builder == self.map,
    {
        &self.map
    }

    /// Asks for everything that the run needs: the features of the shaper,
    /// those of every run, those of the direction, the overrides of the
    /// shaper, and then the requests of the caller.
    pub fn collect_features(&mut self, features: &[Feature])
        ensures
            final(self).props == old(self).props,
            final(self).shaper == old(self).shaper,
            final(self).map@ == planned_from(
                old(self).map@,
                old(self).shaper,
                old(self).props,
                features@,
            ),
    {
        let shaper = self.shaper;
        shaper.collect_features(&mut self.map);
        self.map.enable_feature(Tag(crate::tag::FEATURE_ABVM));
        self.map.enable_feature(Tag(crate::tag::FEATURE_BLWM));
        self.map.enable_feature(Tag(crate::tag::FEATURE_COMPOSITION));
        self.map.enable_feature(Tag(crate::tag::FEATURE_LOCL));
        self.map.enable_feature(Tag(crate::tag::FEATURE_MARK));
        self.map.enable_feature(Tag(crate::tag::FEATURE_MKMK));
        self.map.enable_feature(Tag(crate::tag::FEATURE_RLIG));
        if self.props.direction.is_horizontal() {
            self.map.enable_feature(Tag(crate::tag::FEATURE_CALT));
            self.map.enable_feature(Tag(crate::tag::FEATURE_CLIG));
            self.map.enable_feature(Tag(crate::tag::FEATURE_CURS));
            self.map.enable_feature(Tag(crate::tag::FEATURE_DIST));
            self.map.enable_feature(Tag(crate::tag::FEATURE_KERN));
            self.map.enable_feature(Tag(crate::tag::FEATURE_LIGA));
            self.map.enable_feature(Tag(crate::tag::FEATURE_RCLT));
        } else {
            self.map.enable_feature(Tag(crate::tag::FEATURE_VERT));
        }
        shaper.override_default_features(&mut self.map);
        let ghost base = self.map@;
        let mut i: usize = 0;
        while i < features.len()
            invariant
                i <= features@.len(),
                self.props == old(self).props,
                self.shaper == old(self).shaper,
                self.map@ == caller_features(base, features@, i as int),
            decreases features@.len() - i,
        {
            let feature = features[i];
            let flags = if feature.is_global() {
                FeatureFlags::whole_run()
            } else {
                FeatureFlags::ranged()
            };
            self.map.add_feature(feature.tag, flags, feature.value);
            i += 1;
        }
    }

    /// Freezes what was collected into the plan of a face.
    pub fn compile(self, face: &hb_face_t) -> (plan: hb_ot_shape_plan_t)
        requires
            face.wf(),
        ensures
            plan.wf(),
            plan@.props == self.props,
            plan@.shaper == self.shaper,
            plan@.map == compiled(self.map@, *face, self.props.script.0.0),
            plan@.has_gpos_mark == stages_attach_marks(
                face.gpos@,
                plan@.map.gpos_stages,
                plan@.map.gpos_stages.len() as int,
            ),
    {
        let props = self.props;
        let shaper = self.shaper;
        let map = self.map.compile(face, props.script);
        let has_gpos_mark = attaches_marks(&face.gpos, &map.gpos_stages);
        hb_ot_shape_plan_t { props, shaper, map, has_gpos_mark }
    }
}

/// Whether a lookup of the stages attaches marks.
fn attaches_marks(lookups: &Vec<LayoutLookup>, stages: &Vec<Stage>) -> (yes: bool)
    ensures
        yes == stages_attach_marks(lookups@, stage_views(stages@), stages@.len() as int),
{
    let mut yes = false;
    let mut s: usize = 0;
    while s < stages.len()
        invariant
            s <= stages@.len(),
            yes == stages_attach_marks(lookups@, stage_views(stages@), s as int),
        decreases stages@.len() - s,
    {
        let records = &stages[s].lookups;
        assert(stage_views(stages@)[s as int].lookups == records@);
        let mut found = false;
        let mut i: usize = 0;
        while i < records.len()
            invariant
                i <= records@.len(),
                found == stage_attaches_marks(lookups@, records@, i as int),
            decreases records@.len() - i,
        {
            let index = records[i].index as usize;
            if index < lookups.len() && lookups[index].is_mark_attachment() {
                found = true;
            }
            i += 1;
        }
        if found {
            yes = true;
        }
        s += 1;
    }
    yes
}

/// The plan of a run: made once, then only read, so that any number of runs
/// with the same properties and requests can share it.
#[derive(Clone, Debug)]
pub struct hb_ot_shape_plan_t {
    pub props: hb_segment_properties_t,
    pub shaper: ComplexShaper,
    pub map: hb_ot_map_t,
    pub has_gpos_mark: bool,
}

impl View for hb_ot_shape_plan_t {
    type V = PlanView;

    open spec fn view(&self) -> PlanView {
        PlanView {
            props: self.props,
            shaper: self.shaper,
            map: self.map@,
            has_gpos_mark: self.has_gpos_mark,
        }
    }
}

impl hb_ot_shape_plan_t {
    /// Every feature of the map has bits of its own.
    pub open spec fn wf(&self) -> bool {
        self.map.wf()
    }

    /// Makes the plan of a run with these properties and requests for a
    /// face.
    pub fn new(
        face: &hb_face_t,
        props: hb_segment_properties_t,
        features: &[Feature],
    ) -> (plan: hb_ot_shape_plan_t)
        requires
            face.wf(),
        ensures
            plan.wf(),
            plan@ == plan_of(*face, props, features@),
    {
        let mut planner = hb_ot_shape_planner_t::new(props);
        planner.collect_features(features);
        planner.compile(face)
    }

    /// The feature map of the plan.
    pub fn ot_map(&self) -> (map: &hb_ot_map_t)
        ensures
            *map == self.map,
    {
        &self.map
    }

    /// The script of the run that the plan was made for.
    pub fn script(&self) -> (script: Script)
        ensures
            script == self@.props.script,
    {
        self.props.script
    }

    /// The shaper that the plan picked.
    pub fn shaper(&self) -> (shaper: ComplexShaper)
        ensures
            shaper == self@.shaper,
    {
        self.shaper
    }

    /// Whether a lookup of the positioning table attaches marks, so that the
    /// marks need no other placing.
    pub fn has_gpos_mark(&self) -> (yes: bool)
        ensures
            yes == self@.has_gpos_mark,
    {
        self.has_gpos_mark
    }
}

} // verus!
