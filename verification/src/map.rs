//! The feature map: which bits of the glyph mask each feature owns, and in
//! which order the lookups of the font run.
use vstd::prelude::*;
use crate::common::{Feature, Script};
use crate::face::{LayoutLookup, TableKind, hb_face_t};
use crate::tag::Tag;

verus! {

/// How a feature is asked for.
#[derive(Clone, Copy, Debug, PartialEq, Eq, Hash, Structural)]
pub struct FeatureFlags {
    /// The feature holds for the whole run.
    pub global: bool,
    /// Its lookups do not stop at a zero-width non-joiner by themselves.
    pub manual_zwnj: bool,
    /// Its lookups do not step over a zero-width joiner by themselves.
    pub manual_zwj: bool,
    /// Its lookups pick among alternates by glyph, not by value.
    pub random: bool,
}

impl FeatureFlags {
    pub open spec fn plain(global: bool) -> FeatureFlags {
        FeatureFlags { global, manual_zwnj: false, manual_zwj: false, random: false }
    }

    /// Flags of a feature for the whole run.
    pub fn whole_run() -> (flags: FeatureFlags)
        ensures
            flags == FeatureFlags::plain(true),
    {
        FeatureFlags { global: true, manual_zwnj: false, manual_zwj: false, random: false }
    }

    /// Flags of a feature for part of a run.
    pub fn ranged() -> (flags: FeatureFlags)
        ensures
            flags == FeatureFlags::plain(false),
    {
        FeatureFlags { global: false, manual_zwnj: false, manual_zwj: false, random: false }
    }

    /// Flags of a feature for the whole run whose lookups treat both joiners
    /// as ordinary glyphs.
    pub fn whole_run_manual_joiners() -> (flags: FeatureFlags)
        ensures
            flags == (FeatureFlags {
                global: true,
                manual_zwnj: true,
                manual_zwj: true,
                random: false,
            }),
    {
        FeatureFlags { global: true, manual_zwnj: true, manual_zwj: true, random: false }
    }
}

/// What runs between two stages.
#[derive(Clone, Copy, Debug, PartialEq, Eq, Hash, Structural)]
pub enum Pause {
    /// Forgets the syllable of every glyph.
    ClearSyllables,
    /// Forgets what substitution did to every glyph.
    ClearSubstitutionFlags,
}

/// A lookup as a stage runs it: its index in its table, how it treats the
/// joiners, whether it picks alternates by glyph, and the mask bits that a
/// glyph must have for the lookup to touch it.
#[derive(Clone, Copy, Debug, PartialEq, Eq, Hash, Structural)]
pub struct hb_ot_map_lookup_map_t {
    pub index: u16,
    pub auto_zwnj: bool,
    pub auto_zwj: bool,
    pub random: bool,
    pub mask: u32,
}

/// The lookups that run together, in ascending order of their index, and
/// what runs after them.
#[derive(Clone, Debug)]
pub struct Stage {
    pub lookups: Vec<hb_ot_map_lookup_map_t>,
    pub pause: Option<Pause>,
}

/// A feature as the builder holds it.
#[derive(Clone, Copy, Debug, PartialEq, Eq, Hash, Structural)]
pub struct FeatureRequest {
    pub tag: Tag,
    pub flags: FeatureFlags,
    /// The greatest value that was asked for.
    pub max_value: u32,
    /// The value of the glyphs that no range covers.
    pub default_value: u32,
    pub gsub_stage: usize,
    pub gpos_stage: usize,
}

/// A feature that has bits of the mask.
#[derive(Clone, Copy, Debug, PartialEq, Eq, Hash, Structural)]
pub struct FeatureSlot {
    pub tag: Tag,
    /// The lowest bit of the feature.
    pub shift: u32,
    /// The number of its bits.
    pub width: u32,
    /// Its bits.
    pub mask: u32,
    /// Its lowest bit alone.
    pub one_mask: u32,
    pub auto_zwnj: bool,
    pub auto_zwj: bool,
    pub random: bool,
    pub gsub_stage: usize,
    pub gpos_stage: usize,
}

impl FeatureSlot {
    /// The stage of the feature in a table.
    pub open spec fn stage(self, table: TableKind) -> usize {
        match table {
            TableKind::Substitution => self.gsub_stage,
            TableKind::Positioning => self.gpos_stage,
        }
    }
}

/// The number of bits that it takes to write a value: none for zero, one for
/// one, and one more each time the value doubles.
pub open spec fn bit_width(value: u32) -> nat
    decreases value,
{
    if value == 0 {
        0
    } else {
        1 + bit_width(value / 2)
    }
}

/// The lowest `count` bits.
pub open spec fn low_bits(count: u32) -> u32 {
    if count >= 32 {
        0xFFFF_FFFFu32
    } else {
        ((1u32 << count) - 1) as u32
    }
}

/// The bits from `shift` up to, but without, `end`.
pub open spec fn range_mask(shift: u32, end: u32) -> u32 {
    low_bits(end) & !low_bits(shift)
}

/// A value written into the bits of a feature.
pub open spec fn placed(value: u32, shift: u32, mask: u32) -> u32 {
    (value << shift) & mask
}

/// The table that the lookups of a feature belong to: the positioning table
/// for the features that move glyphs, the substitution table for all others.
pub open spec fn feature_table(tag: u32) -> TableKind {
    if tag == crate::tag::FEATURE_KERN || tag == crate::tag::FEATURE_MARK || tag
        == crate::tag::FEATURE_MKMK || tag == crate::tag::FEATURE_CURS || tag
        == crate::tag::FEATURE_DIST || tag == crate::tag::FEATURE_ABVM || tag
        == crate::tag::FEATURE_BLWM {
        TableKind::Positioning
    } else {
        TableKind::Substitution
    }
}

/// The table that the lookups of a feature belong to.
pub fn table_of_feature(tag: Tag) -> (table: TableKind)
    ensures
        table == feature_table(tag.0),
{
    let tag: u32 = tag.0;
    if tag == crate::tag::FEATURE_KERN || tag == crate::tag::FEATURE_MARK || tag
        == crate::tag::FEATURE_MKMK || tag == crate::tag::FEATURE_CURS || tag
        == crate::tag::FEATURE_DIST || tag == crate::tag::FEATURE_ABVM || tag
        == crate::tag::FEATURE_BLWM {
        TableKind::Positioning
    } else {
        TableKind::Substitution
    }
}

/// The index of the first request from `from` on with this tag; -1 if there
/// is none.
pub open spec fn request_index(requests: Seq<FeatureRequest>, tag: u32, from: int) -> int
    decreases requests.len() - from,
{
    if from < 0 || from >= requests.len() {
        -1
    } else if requests[from].tag.0 == tag {
        from
    } else {
        request_index(requests, tag, from + 1)
    }
}

/// Two requests for one feature as one. A later request for the whole run
/// sets the value anew; a later request for a range makes the feature a
/// ranged one, may raise its greatest value and leaves the value of the
/// glyphs outside every range. The feature runs in the earlier of the two
/// stages.
pub open spec fn combined(earlier: FeatureRequest, later: FeatureRequest) -> FeatureRequest {
    FeatureRequest {
        tag: earlier.tag,
        flags: FeatureFlags { global: later.flags.global, ..earlier.flags },
        max_value: if later.flags.global || later.max_value > earlier.max_value {
            later.max_value
        } else {
            earlier.max_value
        },
        default_value: if later.flags.global {
            later.default_value
        } else {
            earlier.default_value
        },
        gsub_stage: if later.gsub_stage < earlier.gsub_stage {
            later.gsub_stage
        } else {
            earlier.gsub_stage
        },
        gpos_stage: if later.gpos_stage < earlier.gpos_stage {
            later.gpos_stage
        } else {
            earlier.gpos_stage
        },
    }
}

/// The requests with one more taken in: joined with the request for the
/// same feature if there is one, added at the end if not.
pub open spec fn merged_with(merged: Seq<FeatureRequest>, request: FeatureRequest) -> Seq<
    FeatureRequest,
> {
    let at = request_index(merged, request.tag.0, 0);
    if 0 <= at < merged.len() {
        merged.update(at, combined(merged[at], request))
    } else {
        merged.push(request)
    }
}

/// The first `count` requests with every feature named once, in the order
/// in which the features were first asked for.
pub open spec fn merged_requests(requests: Seq<FeatureRequest>, count: int) -> Seq<FeatureRequest>
    decreases count,
{
    if count <= 0 {
        Seq::empty()
    } else {
        merged_with(merged_requests(requests, count - 1), requests[count - 1])
    }
}

/// The features that have bits so far, the first bit that is free, and the
/// mask of a glyph that no range covers.
pub struct Allocation {
    pub slots: Seq<FeatureSlot>,
    pub next_bit: nat,
    pub global_mask: u32,
}

/// The slot of a request whose bits start at `shift`.
pub open spec fn slot_for(request: FeatureRequest, shift: u32, width: u32) -> FeatureSlot {
    FeatureSlot {
        tag: request.tag,
        shift,
        width,
        mask: range_mask(shift, (shift + width) as u32),
        one_mask: 1u32 << shift,
        auto_zwnj: !request.flags.manual_zwnj,
        auto_zwj: !request.flags.manual_zwj,
        random: request.flags.random,
        gsub_stage: request.gsub_stage,
        gpos_stage: request.gpos_stage,
    }
}

/// The bits of the first `count` features. Each feature whose greatest value
/// is not zero gets the bits that its greatest value takes, right above the
/// bits of the features before it; one for which the 32 bits of a mask do
/// not suffice gets none and is left out.
pub open spec fn allocation(merged: Seq<FeatureRequest>, count: int) -> Allocation
    decreases count,
{
    if count <= 0 {
        Allocation { slots: Seq::empty(), next_bit: 0, global_mask: 0 }
    } else {
        let before = allocation(merged, count - 1);
        let request = merged[count - 1];
        let width = bit_width(request.max_value);
        if width == 0 || before.next_bit + width > 32 {
            before
        } else {
            let slot = slot_for(request, before.next_bit as u32, width as u32);
            Allocation {
                slots: before.slots.push(slot),
                next_bit: before.next_bit + width,
                global_mask: before.global_mask | placed(
                    request.default_value,
                    slot.shift,
                    slot.mask,
                ),
            }
        }
    }
}

/// A slot holds at least one bit, all of its bits are bits of a mask, and
/// its masks are what its shift and width say.
pub open spec fn slot_wf(slot: FeatureSlot) -> bool {
    &&& 1 <= slot.width
    &&& slot.shift + slot.width <= 32
    &&& slot.mask == range_mask(slot.shift, (slot.shift + slot.width) as u32)
    &&& slot.one_mask == 1u32 << slot.shift
}

/// Every slot is well formed and lies below `limit`, and the bits of a slot
/// end where the bits of the next one start, or before.
pub open spec fn slots_ordered(slots: Seq<FeatureSlot>, limit: int) -> bool {
    &&& forall|i: int|
        0 <= i < slots.len() ==> slot_wf(#[trigger] slots[i]) && slots[i].shift + slots[i].width
            <= limit
    &&& forall|i: int, j: int|
        0 <= i < j < slots.len() ==> (#[trigger] slots[i]).shift + slots[i].width <= (
        #[trigger] slots[j]).shift
}

/// The index of the first slot from `from` on with this tag; -1 if there is
/// none.
pub open spec fn slot_index(slots: Seq<FeatureSlot>, tag: u32, from: int) -> int
    decreases slots.len() - from,
{
    if from < 0 || from >= slots.len() {
        -1
    } else if slots[from].tag.0 == tag {
        from
    } else {
        slot_index(slots, tag, from + 1)
    }
}

/// A lookup as a stage of a table runs it, if its feature has bits, belongs
/// to the table and runs in this stage.
pub open spec fn lookup_record(
    slots: Seq<FeatureSlot>,
    lookup: LayoutLookup,
    index: int,
    table: TableKind,
    stage: int,
) -> Option<hb_ot_map_lookup_map_t> {
    let at = slot_index(slots, lookup.feature.0, 0);
    if 0 <= at < slots.len() && feature_table(lookup.feature.0) == table && slots[at].stage(table)
        == stage {
        Some(
            hb_ot_map_lookup_map_t {
                index: index as u16,
                auto_zwnj: slots[at].auto_zwnj,
                auto_zwj: slots[at].auto_zwj,
                random: slots[at].random,
                mask: slots[at].mask,
            },
        )
    } else {
        None
    }
}

/// The lookups among the first `count` of a table that run in a stage, in
/// ascending order of their index.
pub open spec fn stage_lookups(
    slots: Seq<FeatureSlot>,
    lookups: Seq<LayoutLookup>,
    table: TableKind,
    stage: int,
    count: int,
) -> Seq<hb_ot_map_lookup_map_t>
    decreases count,
{
    if count <= 0 {
        Seq::empty()
    } else {
        let before = stage_lookups(slots, lookups, table, stage, count - 1);
        match lookup_record(slots, lookups[count - 1], count - 1, table, stage) {
            Some(record) => before.push(record),
            None => before,
        }
    }
}

/// What a stage stands for.
pub struct StageView {
    pub lookups: Seq<hb_ot_map_lookup_map_t>,
    pub pause: Option<Pause>,
}

impl View for Stage {
    type V = StageView;

    open spec fn view(&self) -> StageView {
        StageView { lookups: self.lookups@, pause: self.pause }
    }
}

/// The stages of a run of stages.
pub open spec fn stage_views(stages: Seq<Stage>) -> Seq<StageView> {
    Seq::new(stages.len(), |i: int| stages[i]@)
}

/// A stage of a table: its lookups, and the pause that was asked for after
/// it. The last stage has no pause.
pub open spec fn planned_stage(
    slots: Seq<FeatureSlot>,
    lookups: Seq<LayoutLookup>,
    table: TableKind,
    pauses: Seq<Pause>,
    stage: int,
) -> StageView {
    StageView {
        lookups: stage_lookups(slots, lookups, table, stage, lookups.len() as int),
        pause: if 0 <= stage < pauses.len() {
            Some(pauses[stage])
        } else {
            None
        },
    }
}

/// The stages of a table: one for each pause, and one after the last pause.
pub open spec fn planned_stages(
    slots: Seq<FeatureSlot>,
    lookups: Seq<LayoutLookup>,
    table: TableKind,
    pauses: Seq<Pause>,
) -> Seq<StageView> {
    Seq::new(pauses.len() + 1, |stage: int| planned_stage(slots, lookups, table, pauses, stage))
}

/// The mask of a glyph after one request of the caller: where the request
/// is for a range that covers the cluster of the glyph and its feature has
/// bits, those bits hold the value of the request; anything else leaves the
/// mask as it is.
pub open spec fn mask_after_request(
    slots: Seq<FeatureSlot>,
    mask: u32,
    feature: Feature,
    cluster: u32,
) -> u32 {
    let at = slot_index(slots, feature.tag.0, 0);
    if 0 <= at < slots.len() && !feature.global() && feature.covers(cluster) {
        (mask & !slots[at].mask) | placed(feature.value, slots[at].shift, slots[at].mask)
    } else {
        mask
    }
}

/// The mask of a glyph of a cluster after the first `count` requests of the
/// caller, taken in their order, so that a later request overrides an
/// earlier one where their ranges overlap.
pub open spec fn cluster_mask(
    slots: Seq<FeatureSlot>,
    global_mask: u32,
    features: Seq<Feature>,
    count: int,
    cluster: u32,
) -> u32
    decreases count,
{
    if count <= 0 {
        global_mask
    } else {
        mask_after_request(
            slots,
            cluster_mask(slots, global_mask, features, count - 1, cluster),
            features[count - 1],
            cluster,
        )
    }
}

proof fn lemma_request_index_range(requests: Seq<FeatureRequest>, tag: u32, from: int)
    requires
        0 <= from,
    ensures
        request_index(requests, tag, from) == -1 || (from <= request_index(requests, tag, from)
            < requests.len() && requests[request_index(requests, tag, from)].tag.0 == tag),
    decreases requests.len() - from,
{
    if from < requests.len() && requests[from].tag.0 != tag {
        lemma_request_index_range(requests, tag, from + 1);
    }
}

/// A slot found by its tag is a slot of the list and has the tag.
pub proof fn lemma_slot_index_range(slots: Seq<FeatureSlot>, tag: u32, from: int)
    requires
        0 <= from,
    ensures
        slot_index(slots, tag, from) == -1 || (from <= slot_index(slots, tag, from) < slots.len()
            && slots[slot_index(slots, tag, from)].tag.0 == tag),
    decreases slots.len() - from,
{
    if from < slots.len() && slots[from].tag.0 != tag {
        lemma_slot_index_range(slots, tag, from + 1);
    }
}

proof fn lemma_bit_width_below(value: u32, bits: nat)
    requires
        value < vstd::arithmetic::power2::pow2(bits),
    ensures
        bit_width(value) <= bits,
    decreases bits,
{
    vstd::arithmetic::power2::lemma2_to64();
    if value != 0 {
        assert(bits > 0);
        vstd::arithmetic::power2::lemma_pow2_unfold(bits);
        lemma_bit_width_below(value / 2, (bits - 1) as nat);
    }
}

/// No value takes more than the 32 bits of a mask.
pub proof fn lemma_bit_width_fits(value: u32)
    ensures
        bit_width(value) <= 32,
{
    vstd::arithmetic::power2::lemma2_to64();
    lemma_bit_width_below(value, 32);
}

proof fn lemma_ranges_disjoint(s1: u32, e1: u32, s2: u32, e2: u32)
    by (bit_vector)
    requires
        s1 <= e1,
        e1 <= s2,
        s2 <= e2,
        e2 <= 32,
    ensures
        range_mask(s1, e1) & range_mask(s2, e2) == 0,
{
}

proof fn lemma_write_keeps_other_bits(mask: u32, own: u32, other: u32, value: u32)
    by (bit_vector)
    requires
        own & other == 0,
    ensures
        ((mask & !own) | (value & own)) & other == mask & other,
        ((mask & !own) | (value & own)) & own == value & own,
{
}

/// The number of bits that it takes to write a value.
pub fn bit_storage(value: u32) -> (width: u32)
    ensures
        width == bit_width(value),
        width <= 32,
{
    proof {
        lemma_bit_width_fits(value);
    }
    let mut rest: u32 = value;
    let mut width: u32 = 0;
    while rest > 0
        invariant
            width + bit_width(rest) == bit_width(value),
            bit_width(value) <= 32,
        decreases rest,
    {
        rest = rest / 2;
        width = width + 1;
    }
    width
}

/// The lowest `count` bits.
fn low_bits_of(count: u32) -> (bits: u32)
    requires
        count <= 32,
    ensures
        bits == low_bits(count),
{
    if count >= 32 {
        0xFFFF_FFFFu32
    } else {
        assert((1u32 << count) >= 1) by (bit_vector)
            requires
                count < 32,
        ;
        (1u32 << count) - 1
    }
}

/// Accumulates the features that a run asks for, and the pauses between
/// their stages, until the requests are frozen into a map.
#[derive(Clone, Debug)]
pub struct hb_ot_map_builder_t {
    pub requests: Vec<FeatureRequest>,
    /// The pauses of the substitution table; the features asked for now run
    /// in the stage after the last of them.
    pub gsub_pauses: Vec<Pause>,
    /// The pauses of the positioning table.
    pub gpos_pauses: Vec<Pause>,
}

/// What a builder holds.
pub struct BuilderView {
    pub requests: Seq<FeatureRequest>,
    pub gsub_pauses: Seq<Pause>,
    pub gpos_pauses: Seq<Pause>,
}

impl View for hb_ot_map_builder_t {
    type V = BuilderView;

    open spec fn view(&self) -> BuilderView {
        BuilderView {
            requests: self.requests@,
            gsub_pauses: self.gsub_pauses@,
            gpos_pauses: self.gpos_pauses@,
        }
    }
}

/// A builder without requests and pauses.
pub open spec fn empty_builder() -> BuilderView {
    BuilderView { requests: Seq::empty(), gsub_pauses: Seq::empty(), gpos_pauses: Seq::empty() }
}

/// A builder after one more feature was asked for. The feature runs in the
/// stages that are open; only a request for the whole run gives the glyphs
/// outside every range the value.
pub open spec fn with_feature(
    builder: BuilderView,
    tag: Tag,
    flags: FeatureFlags,
    value: u32,
) -> BuilderView {
    BuilderView {
        requests: builder.requests.push(
            FeatureRequest {
                tag,
                flags,
                max_value: value,
                default_value: if flags.global {
                    value
                } else {
                    0
                },
                gsub_stage: builder.gsub_pauses.len() as usize,
                gpos_stage: builder.gpos_pauses.len() as usize,
            },
        ),
        ..builder
    }
}

/// A builder after the open stage of the substitution table was closed.
pub open spec fn with_gsub_pause(builder: BuilderView, pause: Pause) -> BuilderView {
    BuilderView { gsub_pauses: builder.gsub_pauses.push(pause), ..builder }
}

/// A builder after the open stage of the positioning table was closed.
pub open spec fn with_gpos_pause(builder: BuilderView, pause: Pause) -> BuilderView {
    BuilderView { gpos_pauses: builder.gpos_pauses.push(pause), ..builder }
}

/// The features of a builder that get bits, with their bits.
pub open spec fn planned_slots(requests: Seq<FeatureRequest>) -> Seq<FeatureSlot> {
    allocation(
        merged_requests(requests, requests.len() as int),
        merged_requests(requests, requests.len() as int).len() as int,
    ).slots
}

/// The mask of a glyph that no range covers.
pub open spec fn planned_global_mask(requests: Seq<FeatureRequest>) -> u32 {
    allocation(
        merged_requests(requests, requests.len() as int),
        merged_requests(requests, requests.len() as int).len() as int,
    ).global_mask
}

/// The script under which a layout table serves a run, and whether the
/// table lists the script of the run.
#[derive(Clone, Copy, Debug, PartialEq, Eq, Hash, Structural)]
pub struct ScriptChoice {
    pub found: bool,
    pub chosen: Tag,
}

/// The tag of the script that serves the runs whose script a table does not
/// list.
pub const DEFAULT_SCRIPT: u32 = 0x4446_4c54;

/// The tag under which a layout table lists a script: its four-letter code
/// with a small first letter.
pub open spec fn layout_script_tag(script: u32) -> u32 {
    if 0x4100_0000 <= script < 0x5B00_0000 {
        (script + 0x2000_0000) as u32
    } else {
        script
    }
}

/// Whether one of the first `count` scripts of a list has this tag.
pub open spec fn script_listed(scripts: Seq<Tag>, tag: u32, count: int) -> bool
    decreases count,
{
    if count <= 0 {
        false
    } else {
        script_listed(scripts, tag, count - 1) || scripts[count - 1].0 == tag
    }
}

/// The script under which a table that lists these scripts serves a run:
/// the script of the run if the table lists it, the default script if not.
pub open spec fn script_choice(scripts: Seq<Tag>, script: u32) -> ScriptChoice {
    if script_listed(scripts, layout_script_tag(script), scripts.len() as int) {
        ScriptChoice { found: true, chosen: Tag(layout_script_tag(script)) }
    } else {
        ScriptChoice { found: false, chosen: Tag(DEFAULT_SCRIPT) }
    }
}

/// What a map stands for.
pub struct MapView {
    pub global_mask: u32,
    pub features: Seq<FeatureSlot>,
    pub gsub_stages: Seq<StageView>,
    pub gpos_stages: Seq<StageView>,
    pub gsub_script: ScriptChoice,
    pub gpos_script: ScriptChoice,
}

/// The map that the requests of a builder freeze into for a face and the
/// script of a run.
pub open spec fn compiled(builder: BuilderView, face: hb_face_t, script: u32) -> MapView {
    MapView {
        gsub_script: script_choice(face.gsub_scripts@, script),
        gpos_script: script_choice(face.gpos_scripts@, script),
        global_mask: planned_global_mask(builder.requests),
        features: planned_slots(builder.requests),
        gsub_stages: planned_stages(
            planned_slots(builder.requests),
            face.gsub@,
            TableKind::Substitution,
            builder.gsub_pauses,
        ),
        gpos_stages: planned_stages(
            planned_slots(builder.requests),
            face.gpos@,
            TableKind::Positioning,
            builder.gpos_pauses,
        ),
    }
}

impl hb_ot_map_builder_t {
    /// A builder with no request.
    pub fn new() -> (builder: hb_ot_map_builder_t)
        ensures
            builder@ == empty_builder(),
    {
        hb_ot_map_builder_t {
            requests: Vec::new(),
            gsub_pauses: Vec::new(),
            gpos_pauses: Vec::new(),
        }
    }

    /// Asks for a feature with a value, in the stages that are open now.
    /// Only a request for the whole run gives the glyphs outside every range
    /// the value.
    pub fn add_feature(&mut self, tag: Tag, flags: FeatureFlags, value: u32)
        ensures
            final(self)@ == with_feature(old(self)@, tag, flags, value),
    {
        let request = FeatureRequest {
            tag,
            flags,
            max_value: value,
            default_value: if flags.global {
                value
            } else {
                0
            },
            gsub_stage: self.gsub_pauses.len(),
            gpos_stage: self.gpos_pauses.len(),
        };
        self.requests.push(request);
    }

    /// Switches a feature on for the whole run.
    pub fn enable_feature(&mut self, tag: Tag)
        ensures
            final(self)@ == with_feature(old(self)@, tag, FeatureFlags::plain(true), 1),
    {
        self.add_feature(tag, FeatureFlags::whole_run(), 1);
    }

    /// Switches a feature off for the whole run.
    pub fn disable_feature(&mut self, tag: Tag)
        ensures
            final(self)@ == with_feature(old(self)@, tag, FeatureFlags::plain(true), 0),
    {
        self.add_feature(tag, FeatureFlags::whole_run(), 0);
    }

    /// Closes the open stage of the substitution table with a pause.
    pub fn add_gsub_pause(&mut self, pause: Pause)
        ensures
            final(self)@ == with_gsub_pause(old(self)@, pause),
    {
        self.gsub_pauses.push(pause);
    }

    /// Closes the open stage of the positioning table with a pause.
    pub fn add_gpos_pause(&mut self, pause: Pause)
        ensures
            final(self)@ == with_gpos_pause(old(self)@, pause),
    {
        self.gpos_pauses.push(pause);
    }

    /// Freezes the requests into the map of a face for a run of a script.
    pub fn compile(self, face: &hb_face_t, script: Script) -> (map: hb_ot_map_t)
        requires
            face.wf(),
        ensures
            map.wf(),
            map@ == compiled(self@, *face, script.0.0),
    {
        let merged = merge_requests(&self.requests);
        let mut features: Vec<FeatureSlot> = Vec::new();
        let mut next_bit: u32 = 0;
        let mut global_mask: u32 = 0;
        let mut i: usize = 0;
        while i < merged.len()
            invariant
                i <= merged@.len(),
                next_bit <= 32,
                features@ == allocation(merged@, i as int).slots,
                next_bit == allocation(merged@, i as int).next_bit,
                global_mask == allocation(merged@, i as int).global_mask,
                slots_ordered(features@, next_bit as int),
            decreases merged@.len() - i,
        {
            let request = merged[i];
            let width = bit_storage(request.max_value);
            if width != 0 && width <= 32 - next_bit {
                let shift = next_bit;
                let end = shift + width;
                let mask = low_bits_of(end) & !low_bits_of(shift);
                let one_mask = 1u32 << shift;
                let slot = FeatureSlot {
                    tag: request.tag,
                    shift,
                    width,
                    mask,
                    one_mask,
                    auto_zwnj: !request.flags.manual_zwnj,
                    auto_zwj: !request.flags.manual_zwj,
                    random: request.flags.random,
                    gsub_stage: request.gsub_stage,
                    gpos_stage: request.gpos_stage,
                };
                assert(slot == slot_for(request, shift, width));
                global_mask = global_mask | ((request.default_value << shift) & mask);
                features.push(slot);
                next_bit = end;
            }
            i += 1;
        }
        let gsub_stages = plan_stages(
            &features,
            &face.gsub,
            TableKind::Substitution,
            &self.gsub_pauses,
        );
        let gpos_stages = plan_stages(
            &features,
            &face.gpos,
            TableKind::Positioning,
            &self.gpos_pauses,
        );
        let gsub_script = choose_script(&face.gsub_scripts, script);
        let gpos_script = choose_script(&face.gpos_scripts, script);
        hb_ot_map_t { global_mask, features, gsub_stages, gpos_stages, gsub_script, gpos_script }
    }
}

/// Picks the script under which a table serves a run.
pub fn choose_script(scripts: &Vec<Tag>, script: Script) -> (choice: ScriptChoice)
    ensures
        choice == script_choice(scripts@, script.0.0),
{
    let code: u32 = script.0.0;
    let tag: u32 = if 0x4100_0000 <= code && code < 0x5B00_0000 {
        code + 0x2000_0000
    } else {
        code
    };
    let mut found = false;
    let mut i: usize = 0;
    while i < scripts.len()
        invariant
            i <= scripts@.len(),
            found == script_listed(scripts@, tag, i as int),
        decreases scripts@.len() - i,
    {
        if scripts[i].0 == tag {
            found = true;
        }
        i += 1;
    }
    if found {
        ScriptChoice { found: true, chosen: Tag(tag) }
    } else {
        ScriptChoice { found: false, chosen: Tag(DEFAULT_SCRIPT) }
    }
}

/// Finds the first request with a tag.
fn find_request(requests: &Vec<FeatureRequest>, tag: Tag) -> (found: Option<usize>)
    ensures
        match found {
            Some(at) => at == request_index(requests@, tag.0, 0) && at < requests@.len(),
            None => !(0 <= request_index(requests@, tag.0, 0) < requests@.len()),
        },
{
    let mut i: usize = 0;
    while i < requests.len()
        invariant
            i <= requests@.len(),
            request_index(requests@, tag.0, 0) == request_index(requests@, tag.0, i as int),
        decreases requests@.len() - i,
    {
        if requests[i].tag.0 == tag.0 {
            return Some(i);
        }
        i += 1;
    }
    None
}

/// Names every feature once.
fn merge_requests(requests: &Vec<FeatureRequest>) -> (merged: Vec<FeatureRequest>)
    ensures
        merged@ == merged_requests(requests@, requests@.len() as int),
{
    let mut merged: Vec<FeatureRequest> = Vec::new();
    let mut i: usize = 0;
    while i < requests.len()
        invariant
            i <= requests@.len(),
            merged@ == merged_requests(requests@, i as int),
        decreases requests@.len() - i,
    {
        let later = requests[i];
        match find_request(&merged, later.tag) {
            Some(at) => {
                let earlier = merged[at];
                let joined = FeatureRequest {
                    tag: earlier.tag,
                    flags: FeatureFlags {
                        global: later.flags.global,
                        manual_zwnj: earlier.flags.manual_zwnj,
                        manual_zwj: earlier.flags.manual_zwj,
                        random: earlier.flags.random,
                    },
                    max_value: if later.flags.global || later.max_value > earlier.max_value {
                        later.max_value
                    } else {
                        earlier.max_value
                    },
                    default_value: if later.flags.global {
                        later.default_value
                    } else {
                        earlier.default_value
                    },
                    gsub_stage: if later.gsub_stage < earlier.gsub_stage {
                        later.gsub_stage
                    } else {
                        earlier.gsub_stage
                    },
                    gpos_stage: if later.gpos_stage < earlier.gpos_stage {
                        later.gpos_stage
                    } else {
                        earlier.gpos_stage
                    },
                };
                merged.set(at, joined);
            },
            None => {
                merged.push(later);
            },
        }
        i += 1;
    }
    merged
}

/// Finds the first slot with a tag.
pub fn find_slot(slots: &Vec<FeatureSlot>, tag: Tag) -> (found: Option<usize>)
    ensures
        match found {
            Some(at) => at == slot_index(slots@, tag.0, 0) && at < slots@.len() && slots@[at as int].tag.0
                == tag.0,
            None => !(0 <= slot_index(slots@, tag.0, 0) < slots@.len()),
        },
{
    let mut i: usize = 0;
    while i < slots.len()
        invariant
            i <= slots@.len(),
            slot_index(slots@, tag.0, 0) == slot_index(slots@, tag.0, i as int),
        decreases slots@.len() - i,
    {
        if slots[i].tag.0 == tag.0 {
            return Some(i);
        }
        i += 1;
    }
    None
}

/// The lookups of a table that run in one stage.
fn plan_stage_lookups(
    slots: &Vec<FeatureSlot>,
    lookups: &Vec<LayoutLookup>,
    table: TableKind,
    stage: usize,
) -> (records: Vec<hb_ot_map_lookup_map_t>)
    requires
        lookups@.len() <= crate::face::MAX_LOOKUPS,
    ensures
        records@ == stage_lookups(slots@, lookups@, table, stage as int, lookups@.len() as int),
{
    let mut records: Vec<hb_ot_map_lookup_map_t> = Vec::new();
    let mut i: usize = 0;
    while i < lookups.len()
        invariant
            i <= lookups@.len(),
            lookups@.len() <= crate::face::MAX_LOOKUPS,
            records@ == stage_lookups(slots@, lookups@, table, stage as int, i as int),
        decreases lookups@.len() - i,
    {
        let feature = lookups[i].feature;
        match find_slot(slots, feature) {
            Some(at) => {
                let slot = slots[at];
                let slot_stage = match table {
                    TableKind::Substitution => slot.gsub_stage,
                    TableKind::Positioning => slot.gpos_stage,
                };
                if table_of_feature(feature) == table && slot_stage == stage {
                    records.push(
                        hb_ot_map_lookup_map_t {
                            index: i as u16,
                            auto_zwnj: slot.auto_zwnj,
                            auto_zwj: slot.auto_zwj,
                            random: slot.random,
                            mask: slot.mask,
                        },
                    );
                }
            },
            None => {},
        }
        i += 1;
    }
    records
}

/// Schedules the lookups of a table into its stages.
fn plan_stages(
    slots: &Vec<FeatureSlot>,
    lookups: &Vec<LayoutLookup>,
    table: TableKind,
    pauses: &Vec<Pause>,
) -> (stages: Vec<Stage>)
    requires
        lookups@.len() <= crate::face::MAX_LOOKUPS,
    ensures
        stage_views(stages@) == planned_stages(slots@, lookups@, table, pauses@),
{
    let mut stages: Vec<Stage> = Vec::new();
    let mut stage: usize = 0;
    while stage < pauses.len()
        invariant
            stage <= pauses@.len(),
            stages@.len() == stage,
            lookups@.len() <= crate::face::MAX_LOOKUPS,
            forall|s: int|
                0 <= s < stage ==> (#[trigger] stages@[s])@ == planned_stage(
                    slots@,
                    lookups@,
                    table,
                    pauses@,
                    s,
                ),
        decreases pauses@.len() - stage,
    {
        let records = plan_stage_lookups(slots, lookups, table, stage);
        stages.push(Stage { lookups: records, pause: Some(pauses[stage]) });
        stage += 1;
    }
    let records = plan_stage_lookups(slots, lookups, table, stage);
    stages.push(Stage { lookups: records, pause: None });
    assert(stage_views(stages@) =~= planned_stages(slots@, lookups@, table, pauses@));
    stages
}

/// The frozen map of a run: the bits of each feature and the stages of the
/// two tables.
#[derive(Clone, Debug)]
pub struct hb_ot_map_t {
    pub global_mask: u32,
    pub features: Vec<FeatureSlot>,
    pub gsub_stages: Vec<Stage>,
    pub gpos_stages: Vec<Stage>,
    pub gsub_script: ScriptChoice,
    pub gpos_script: ScriptChoice,
}

impl View for hb_ot_map_t {
    type V = MapView;

    open spec fn view(&self) -> MapView {
        MapView {
            global_mask: self.global_mask,
            features: self.features@,
            gsub_stages: stage_views(self.gsub_stages@),
            gpos_stages: stage_views(self.gpos_stages@),
            gsub_script: self.gsub_script,
            gpos_script: self.gpos_script,
        }
    }
}

impl MapView {
    /// Every feature has bits of its own.
    pub open spec fn wf(self) -> bool {
        slots_ordered(self.features, 32)
    }

    /// The stages of a table.
    pub open spec fn stages(self, table: TableKind) -> Seq<StageView> {
        match table {
            TableKind::Substitution => self.gsub_stages,
            TableKind::Positioning => self.gpos_stages,
        }
    }

    /// The script under which a table serves the run.
    pub open spec fn script(self, table: TableKind) -> ScriptChoice {
        match table {
            TableKind::Substitution => self.gsub_script,
            TableKind::Positioning => self.gpos_script,
        }
    }
}

impl hb_ot_map_t {
    /// Every feature has bits of its own.
    pub open spec fn wf(&self) -> bool {
        self@.wf()
    }

    /// The stages of a table.
    pub open spec fn stages(&self, table: TableKind) -> Seq<StageView> {
        self@.stages(table)
    }

    /// Whether a table lists the script of the run.
    pub fn get_found_script(&self, table: TableKind) -> (found: bool)
        ensures
            found == self@.script(table).found,
    {
        match table {
            TableKind::Substitution => self.gsub_script.found,
            TableKind::Positioning => self.gpos_script.found,
        }
    }

    /// The script under which a table serves the run.
    pub fn get_chosen_script(&self, table: TableKind) -> (chosen: Tag)
        ensures
            chosen == self@.script(table).chosen,
    {
        match table {
            TableKind::Substitution => self.gsub_script.chosen,
            TableKind::Positioning => self.gpos_script.chosen,
        }
    }

    /// The mask of a glyph that no range covers.
    pub fn global_mask(&self) -> (mask: u32)
        ensures
            mask == self.global_mask,
    {
        self.global_mask
    }

    /// The lowest bit of a feature; zero for a feature without bits.
    pub fn get_1_mask(&self, tag: Tag) -> (mask: u32)
        ensures
            mask == (if 0 <= slot_index(self.features@, tag.0, 0) < self.features@.len() {
                self.features@[slot_index(self.features@, tag.0, 0)].one_mask
            } else {
                0
            }),
    {
        match find_slot(&self.features, tag) {
            Some(at) => self.features[at].one_mask,
            None => 0,
        }
    }

    /// The bits of a feature and the place of the lowest of them; `None` for
    /// a feature without bits.
    pub fn get_mask(&self, tag: Tag) -> (found: Option<(u32, u32)>)
        ensures
            found == (if 0 <= slot_index(self.features@, tag.0, 0) < self.features@.len() {
                Some(
                    (
                        self.features@[slot_index(self.features@, tag.0, 0)].mask,
                        self.features@[slot_index(self.features@, tag.0, 0)].shift,
                    ),
                )
            } else {
                None
            }),
    {
        match find_slot(&self.features, tag) {
            Some(at) => Some((self.features[at].mask, self.features[at].shift)),
            None => None,
        }
    }

    /// The stage of a table in which a feature runs; `None` for a feature
    /// without bits.
    pub fn get_feature_stage(&self, table: TableKind, tag: Tag) -> (stage: Option<usize>)
        ensures
            stage == (if 0 <= slot_index(self.features@, tag.0, 0) < self.features@.len() {
                Some(self.features@[slot_index(self.features@, tag.0, 0)].stage(table))
            } else {
                None
            }),
    {
        match find_slot(&self.features, tag) {
            Some(at) => Some(
                match table {
                    TableKind::Substitution => self.features[at].gsub_stage,
                    TableKind::Positioning => self.features[at].gpos_stage,
                },
            ),
            None => None,
        }
    }

    /// The number of stages of a table.
    pub fn stage_count(&self, table: TableKind) -> (count: usize)
        ensures
            count == self.stages(table).len(),
    {
        match table {
            TableKind::Substitution => self.gsub_stages.len(),
            TableKind::Positioning => self.gpos_stages.len(),
        }
    }

    /// The lookups of a stage of a table; `None` for a stage that the table
    /// does not have.
    pub fn get_stage_lookups(&self, table: TableKind, stage: usize) -> (lookups: Option<
        &Vec<hb_ot_map_lookup_map_t>,
    >)
        ensures
            lookups is Some <==> stage < self.stages(table).len(),
            lookups matches Some(found) ==> found@ == self.stages(table)[stage as int].lookups,
    {
        match table {
            TableKind::Substitution => {
                if stage < self.gsub_stages.len() {
                    Some(&self.gsub_stages[stage].lookups)
                } else {
                    None
                }
            },
            TableKind::Positioning => {
                if stage < self.gpos_stages.len() {
                    Some(&self.gpos_stages[stage].lookups)
                } else {
                    None
                }
            },
        }
    }
}

/// The lookups of a stage stand in ascending order of their index, each of
/// them once, and each of them is a lookup of the table.
pub proof fn lemma_stage_lookups_ascend(
    slots: Seq<FeatureSlot>,
    lookups: Seq<LayoutLookup>,
    table: TableKind,
    stage: int,
    count: int,
)
    requires
        0 <= count <= lookups.len() <= crate::face::MAX_LOOKUPS,
    ensures
        forall|i: int, j: int|
            0 <= i < j < stage_lookups(slots, lookups, table, stage, count).len() ==> (
            #[trigger] stage_lookups(slots, lookups, table, stage, count)[i]).index < (
            #[trigger] stage_lookups(slots, lookups, table, stage, count)[j]).index,
        forall|i: int|
            0 <= i < stage_lookups(slots, lookups, table, stage, count).len() ==> (
            #[trigger] stage_lookups(slots, lookups, table, stage, count)[i]).index < count,
    decreases count,
{
    if count > 0 {
        lemma_stage_lookups_ascend(slots, lookups, table, stage, count - 1);
        let before = stage_lookups(slots, lookups, table, stage, count - 1);
        let after = stage_lookups(slots, lookups, table, stage, count);
        assert forall|i: int| 0 <= i < after.len() implies (#[trigger] after[i]).index
            < count by {
            if i < before.len() {
                assert(after[i] == before[i]);
            }
        }
        assert forall|i: int, j: int| 0 <= i < j < after.len() implies (#[trigger] after[i]).index
            < (#[trigger] after[j]).index by {
            assert(after[i] == before[i]);
            if j < before.len() {
                assert(after[j] == before[j]);
            }
        }
    }
}

/// The features that get bits get them in ascending order, one behind the
/// other, inside the 32 bits of a mask.
pub proof fn lemma_allocation_ordered(merged: Seq<FeatureRequest>, count: int)
    ensures
        allocation(merged, count).next_bit <= 32,
        slots_ordered(allocation(merged, count).slots, allocation(merged, count).next_bit as int),
    decreases count,
{
    if count > 0 {
        lemma_allocation_ordered(merged, count - 1);
        let before = allocation(merged, count - 1);
        let after = allocation(merged, count);
        let request = merged[count - 1];
        let width = bit_width(request.max_value);
        if !(width == 0 || before.next_bit + width > 32) {
            let slot = slot_for(request, before.next_bit as u32, width as u32);
            assert(after.slots == before.slots.push(slot));
            assert(slot_wf(slot));
            assert forall|i: int| 0 <= i < after.slots.len() implies slot_wf(
                #[trigger] after.slots[i],
            ) && after.slots[i].shift + after.slots[i].width <= after.next_bit by {
                if i < before.slots.len() {
                    assert(after.slots[i] == before.slots[i]);
                }
            }
            assert forall|i: int, j: int| 0 <= i < j < after.slots.len() implies (
            #[trigger] after.slots[i]).shift + after.slots[i].width <= (
            #[trigger] after.slots[j]).shift by {
                assert(after.slots[i] == before.slots[i]);
                if j < before.slots.len() {
                    assert(after.slots[j] == before.slots[j]);
                }
            }
        }
    }
}

/// Every feature of a compiled map has bits of its own.
pub proof fn lemma_compiled_wf(builder: BuilderView, face: hb_face_t, script: u32)
    ensures
        compiled(builder, face, script).wf(),
{
    let merged = merged_requests(builder.requests, builder.requests.len() as int);
    lemma_allocation_ordered(merged, merged.len() as int);
    let done = allocation(merged, merged.len() as int);
    assert forall|i: int| 0 <= i < done.slots.len() implies slot_wf(#[trigger] done.slots[i])
        && done.slots[i].shift + done.slots[i].width <= 32 by {}
}

/// Two features of a map never share a bit.
pub proof fn lemma_feature_masks_disjoint(slots: Seq<FeatureSlot>, i: int, j: int)
    requires
        slots_ordered(slots, 32),
        0 <= i < slots.len(),
        0 <= j < slots.len(),
        i != j,
    ensures
        slots[i].mask & slots[j].mask == 0,
{
    let a = if i < j {
        slots[i]
    } else {
        slots[j]
    };
    let b = if i < j {
        slots[j]
    } else {
        slots[i]
    };
    assert(slot_wf(a) && slot_wf(b));
    assert(a.shift + a.width <= b.shift);
    lemma_ranges_disjoint(a.shift, (a.shift + a.width) as u32, b.shift, (b.shift + b.width) as u32);
    let am = a.mask;
    let bm = b.mask;
    assert(am & bm == bm & am) by (bit_vector);
}

/// A request of the caller changes no bit but those of its own feature.
pub proof fn lemma_request_keeps_other_bits(
    slots: Seq<FeatureSlot>,
    mask: u32,
    feature: Feature,
    cluster: u32,
    other: int,
)
    requires
        slots_ordered(slots, 32),
        0 <= other < slots.len(),
        other != slot_index(slots, feature.tag.0, 0),
    ensures
        mask_after_request(slots, mask, feature, cluster) & slots[other].mask == mask
            & slots[other].mask,
{
    let at = slot_index(slots, feature.tag.0, 0);
    if 0 <= at < slots.len() && !feature.global() && feature.covers(cluster) {
        lemma_feature_masks_disjoint(slots, at, other);
        lemma_write_keeps_other_bits(
            mask,
            slots[at].mask,
            slots[other].mask,
            feature.value << slots[at].shift,
        );
    }
}

/// The bits of a feature hold, on the glyphs of a cluster, what the last
/// request among the first `count` says that names the feature and covers
/// the cluster with a range; where there is no such request they hold what
/// the mask of the whole run holds.
pub proof fn lemma_cluster_mask_of_feature(
    slots: Seq<FeatureSlot>,
    global_mask: u32,
    features: Seq<Feature>,
    count: int,
    cluster: u32,
    at: int,
)
    requires
        slots_ordered(slots, 32),
        0 <= count <= features.len(),
        0 <= at < slots.len(),
        at == slot_index(slots, slots[at].tag.0, 0),
    ensures
        cluster_mask(slots, global_mask, features, count, cluster) & slots[at].mask == ({
            let last = last_ranged_request(features, count, slots[at].tag.0, cluster);
            if last >= 0 {
                placed(features[last].value, slots[at].shift, slots[at].mask)
            } else {
                global_mask & slots[at].mask
            }
        }),
    decreases count,
{
    if count > 0 {
        let before = cluster_mask(slots, global_mask, features, count - 1, cluster);
        let feature = features[count - 1];
        lemma_cluster_mask_of_feature(slots, global_mask, features, count - 1, cluster, at);
        lemma_slot_index_range(slots, feature.tag.0, 0);
        if feature.tag.0 == slots[at].tag.0 {
            if !feature.global() && feature.covers(cluster) {
                let m = slots[at].mask;
                let v = feature.value << slots[at].shift;
                assert(((before & !m) | (v & m)) & m == v & m) by (bit_vector);
                assert((v & m) & m == v & m) by (bit_vector);
            }
        } else {
            lemma_request_keeps_other_bits(slots, before, feature, cluster, at);
        }
    }
}

/// The index of the last request among the first `count` that names a
/// feature and covers a cluster with a range; -1 if there is none.
pub open spec fn last_ranged_request(
    features: Seq<Feature>,
    count: int,
    tag: u32,
    cluster: u32,
) -> int
    decreases count,
{
    if count <= 0 {
        -1
    } else if features[count - 1].tag.0 == tag && !features[count - 1].global() && features[count
        - 1].covers(cluster) {
        count - 1
    } else {
        last_ranged_request(features, count - 1, tag, cluster)
    }
}

} // verus!
