//! The policy of a script family: which features it asks for, how it wants
//! its text normalized, and what it does to the glyphs on its own.
use vstd::prelude::*;
use crate::buffer::{
    BufferClusterLevel, BufferView, GlyphInfo, clusters_ascend, hb_buffer_t, zero_positions,
};
use crate::common::{Script, hb_var_int_t};
use crate::scan::{
    Step, lemma_scan_ascends, lemma_scan_keeps_masks, lemma_scan_step, masks_follow, scan,
    step_in_order,
};
use crate::map::{
    BuilderView, FeatureFlags, Pause, hb_ot_map_builder_t, with_feature, with_gsub_pause,
};
use crate::tag::Tag;
use crate::unicode::{composition, decomposition, is_mark};

verus! {

/// The script families that shape in a way of their own.
#[derive(Clone, Copy, Debug, PartialEq, Eq, Hash, Structural)]
pub enum ComplexShaper {
    /// Ligatures and kerning, nothing else.
    Default,
    /// Vowel signs that are written before the consonant that they follow.
    Indic,
    /// Joiners that the lookups must not reach across.
    Arabic,
}

/// How a shaper wants its text normalized.
#[derive(Clone, Copy, Debug, PartialEq, Eq, Hash, Structural)]
pub enum NormalizationPreference {
    /// Leave the text as it is.
    Unchanged,
    /// The most decomposed form that the font covers.
    PreferDecomposed,
    /// The most composed form that the font covers.
    PreferComposed,
}

/// The shaper of a script: a family of its own for the scripts that have
/// one, the default shaper for every other script.
pub open spec fn shaper_for(script: u32) -> ComplexShaper {
    if script == crate::tag::SCRIPT_DEVANAGARI || script == crate::tag::SCRIPT_BENGALI || script
        == crate::tag::SCRIPT_GURMUKHI || script == crate::tag::SCRIPT_GUJARATI || script
        == crate::tag::SCRIPT_ORIYA || script == crate::tag::SCRIPT_TAMIL || script
        == crate::tag::SCRIPT_TELUGU || script == crate::tag::SCRIPT_KANNADA || script
        == crate::tag::SCRIPT_MALAYALAM {
        ComplexShaper::Indic
    } else if script == crate::tag::SCRIPT_ARABIC || script == crate::tag::SCRIPT_SYRIAC || script
        == crate::tag::SCRIPT_MANDAIC || script == crate::tag::SCRIPT_NKO {
        ComplexShaper::Arabic
    } else {
        ComplexShaper::Default
    }
}

/// The flags of a feature for the whole run whose lookups treat both
/// joiners as ordinary glyphs.
pub open spec fn manual_joiners() -> FeatureFlags {
    FeatureFlags { global: true, manual_zwnj: true, manual_zwj: true, random: false }
}

/// A vowel sign that is written before the consonant that it follows.
pub open spec fn is_pre_base_vowel(cp: u32) -> bool {
    cp == 0x093F || cp == 0x09BF || cp == 0x09C7 || cp == 0x09C8 || cp == 0x0A3F || cp == 0x0ABF
        || cp == 0x0B47 || cp == 0x0BC6 || cp == 0x0BC7 || cp == 0x0BC8 || cp == 0x0D46 || cp
        == 0x0D47 || cp == 0x0D48
}

/// A letter of the Indic family that stays whole although it decomposes
/// canonically.
pub open spec fn stays_whole(cp: u32) -> bool {
    cp == 0x0931 || cp == 0x09DC || cp == 0x09DD || cp == 0x0B94
}

/// The builder after a shaper has asked for the features of its family.
pub open spec fn shaper_features(shaper: ComplexShaper, builder: BuilderView) -> BuilderView {
    match shaper {
        ComplexShaper::Default => builder,
        ComplexShaper::Indic => {
            let b1 = with_feature(builder, Tag(crate::tag::FEATURE_NUKT), manual_joiners(), 1);
            let b2 = with_feature(b1, Tag(crate::tag::FEATURE_AKHN), manual_joiners(), 1);
            let b3 = with_gsub_pause(b2, Pause::ClearSyllables);
            let b4 = with_feature(b3, Tag(crate::tag::FEATURE_PRES), manual_joiners(), 1);
            let b5 = with_feature(b4, Tag(crate::tag::FEATURE_ABVS), manual_joiners(), 1);
            let b6 = with_feature(b5, Tag(crate::tag::FEATURE_BLWS), manual_joiners(), 1);
            let b7 = with_feature(b6, Tag(crate::tag::FEATURE_PSTS), manual_joiners(), 1);
            with_feature(b7, Tag(crate::tag::FEATURE_HALN), manual_joiners(), 1)
        },
        ComplexShaper::Arabic => {
            let b1 = with_feature(
                builder,
                Tag(crate::tag::FEATURE_COMPOSITION),
                FeatureFlags::plain(true),
                1,
            );
            let b2 = with_feature(b1, Tag(crate::tag::FEATURE_LOCL), FeatureFlags::plain(true), 1);
            let b3 = with_gsub_pause(b2, Pause::ClearSubstitutionFlags);
            let b4 = with_feature(b3, Tag(crate::tag::FEATURE_RLIG), manual_joiners(), 1);
            with_feature(b4, Tag(crate::tag::FEATURE_CALT), manual_joiners(), 1)
        },
    }
}

/// The builder after a shaper has overridden the features that every run
/// asks for.
pub open spec fn shaper_overrides(shaper: ComplexShaper, builder: BuilderView) -> BuilderView {
    match shaper {
        ComplexShaper::Indic => with_feature(
            builder,
            Tag(crate::tag::FEATURE_LIGA),
            FeatureFlags::plain(true),
            0,
        ),
        _ => builder,
    }
}

/// The pauses that a shaper asks for between its features.
pub open spec fn shaper_pauses(shaper: ComplexShaper) -> Seq<Pause> {
    match shaper {
        ComplexShaper::Default => Seq::empty(),
        ComplexShaper::Indic => seq![Pause::ClearSyllables],
        ComplexShaper::Arabic => seq![Pause::ClearSubstitutionFlags],
    }
}

/// How a shaper wants its text normalized.
pub open spec fn shaper_preference(shaper: ComplexShaper) -> NormalizationPreference {
    match shaper {
        ComplexShaper::Indic => NormalizationPreference::PreferDecomposed,
        _ => NormalizationPreference::PreferComposed,
    }
}

/// The most parts that a code point is taken apart into. A code point with
/// more parts stays whole, so that normalization makes a run at most so many
/// times as long as it was.
pub const MAX_DECOMPOSITION: usize = 8;

/// The parts that a shaper takes a code point apart into: its canonical
/// decomposition, but for the letters that its family keeps whole and for a
/// code point with more than `MAX_DECOMPOSITION` parts.
pub open spec fn shaper_decomposition(shaper: ComplexShaper, cp: u32) -> Seq<u32> {
    if (shaper == ComplexShaper::Indic && stays_whole(cp)) || decomposition(cp).len()
        > MAX_DECOMPOSITION {
        seq![cp]
    } else {
        decomposition(cp)
    }
}

/// The code point that a shaper puts two code points together into: their
/// canonical composition, but that the Indic family puts nothing together
/// with a mark in front.
pub open spec fn shaper_composition(shaper: ComplexShaper, a: u32, b: u32) -> Option<u32> {
    if shaper == ComplexShaper::Indic && is_mark(a) {
        None
    } else {
        composition(a, b)
    }
}

/// The number of the syllable after the one with this number. The numbers
/// run from 1 to 255 and then start again.
pub open spec fn next_syllable(serial: u8) -> u8 {
    if serial >= 255 {
        1
    } else {
        (serial + 1) as u8
    }
}

/// The number of the syllable of a glyph: every glyph that is no mark
/// starts a syllable, and a mark belongs to the syllable before it.
pub open spec fn syllable_at(infos: Seq<GlyphInfo>, at: int) -> u8
    decreases at,
{
    if at < 0 {
        0
    } else if at == 0 {
        1
    } else if infos[at].mark() {
        syllable_at(infos, at - 1)
    } else {
        next_syllable(syllable_at(infos, at - 1))
    }
}

/// A run with what the shaper notes about each glyph before substitution:
/// the Indic family numbers the syllables and marks the vowel signs that
/// are written before their consonant; the other shapers note nothing.
pub open spec fn shaper_marked(shaper: ComplexShaper, infos: Seq<GlyphInfo>) -> Seq<GlyphInfo> {
    match shaper {
        ComplexShaper::Indic => Seq::new(
            infos.len(),
            |i: int|
                GlyphInfo {
                    var1: hb_var_int_t { b1: syllable_at(infos, i), ..infos[i].var1 },
                    var2: hb_var_int_t {
                        b2: if is_pre_base_vowel(infos[i].codepoint) {
                            1u8
                        } else {
                            0u8
                        },
                        ..infos[i].var2
                    },
                    ..infos[i]
                },
        ),
        _ => infos,
    }
}

/// What the Indic family does at a place of a run: a vowel sign that is
/// written before its consonant changes places with the glyph before it.
/// The cluster ids and the masks stay at their places if every character
/// keeps a cluster of its own; else the vowel sign joins the cluster of the
/// glyph that it passes.
pub open spec fn vowel_step(level: BufferClusterLevel, input: Seq<GlyphInfo>, at: int) -> Step {
    if at + 1 < input.len() && input[at + 1].var2.b2 == 1 && input[at].var2.b2 != 1 {
        Step {
            emit: seq![
                GlyphInfo { cluster: input[at].cluster, mask: input[at].mask, ..input[at + 1] },
                if level == BufferClusterLevel::Characters {
                    GlyphInfo {
                        cluster: input[at + 1].cluster,
                        mask: input[at + 1].mask,
                        ..input[at]
                    }
                } else {
                    input[at]
                },
            ],
            used: 2,
        }
    } else {
        Step { emit: seq![input[at]], used: 1 }
    }
}

/// The steps of the Indic family.
pub open spec fn vowel_reordering(
    level: BufferClusterLevel) -> spec_fn(Seq<GlyphInfo>, int,
) -> Step {
    |input: Seq<GlyphInfo>, at: int| vowel_step(level, input, at)
}

/// A run after the shaper has put its glyphs into the order in which they
/// are written.
pub open spec fn shaper_reordered(
    shaper: ComplexShaper,
    level: BufferClusterLevel,
    infos: Seq<GlyphInfo>,
) -> Seq<GlyphInfo> {
    match shaper {
        ComplexShaper::Indic => scan(vowel_reordering(level), infos, 0),
        _ => infos,
    }
}

/// The reordering of a shaper keeps ascending cluster ids ascending, and
/// masks that follow the clusters following them.
pub proof fn lemma_shaper_reordered_keeps_order(
    shaper: ComplexShaper,
    level: BufferClusterLevel,
    infos: Seq<GlyphInfo>,
    of_cluster: spec_fn(u32) -> u32,
)
    requires
        clusters_ascend(infos),
    ensures
        clusters_ascend(shaper_reordered(shaper, level, infos)),
        masks_follow(infos, of_cluster) ==> masks_follow(
            shaper_reordered(shaper, level, infos),
            of_cluster,
        ),
{
    if shaper == ComplexShaper::Indic {
        let step = vowel_reordering(level);
        assert forall|at: int| 0 <= at < infos.len() implies step_in_order(
            #[trigger] step(infos, at),
            infos,
            at,
        ) by {}
        lemma_scan_ascends(step, infos, 0);
        if masks_follow(infos, of_cluster) {
            assert forall|at: int| 0 <= at < infos.len() implies masks_follow(
                (#[trigger] step(infos, at)).emit,
                of_cluster,
            ) by {
                if at + 1 < infos.len() {
                    assert(infos[at + 1].mask == of_cluster(infos[at + 1].cluster));
                }
                assert(infos[at].mask == of_cluster(infos[at].cluster));
            }
            lemma_scan_keeps_masks(step, infos, of_cluster, 0);
        }
    }
}

impl ComplexShaper {
    /// Notes in the scratch space of the glyphs what the shaper needs to
    /// know of them before substitution.
    pub fn setup_masks(self, buffer: &mut hb_buffer_t)
        requires
            old(buffer).wf(),
        ensures
            final(buffer).wf(),
            final(buffer)@ == (BufferView {
                infos: shaper_marked(self, old(buffer)@.infos),
                ..old(buffer)@
            }),
    {
        match self {
            ComplexShaper::Indic => {
                let count = buffer.info.len();
                let mut serial: u8 = 0;
                let mut i: usize = 0;
                while i < count
                    invariant
                        i <= count == buffer.info@.len(),
                        count == old(buffer)@.infos.len(),
                        self == ComplexShaper::Indic,
                        buffer.wf(),
                        buffer@.positions == old(buffer)@.positions,
                        buffer@.props == old(buffer)@.props,
                        buffer@.cluster_level == old(buffer)@.cluster_level,
                        buffer@.content == old(buffer)@.content,
                        buffer@.default_language == old(buffer)@.default_language,
                        serial == syllable_at(old(buffer)@.infos, i - 1),
                        forall|k: int|
                            0 <= k < i ==> buffer.info@[k] == shaper_marked(
                                self,
                                old(buffer)@.infos,
                            )[k],
                        forall|k: int| i <= k < count ==> buffer.info@[k] == old(buffer)@.infos[k],
                    decreases count - i,
                {
                    let info = buffer.info[i];
                    if i == 0 {
                        serial = 1;
                    } else if !info.is_mark() {
                        serial = if serial >= 255 {
                            1
                        } else {
                            serial + 1
                        };
                    }
                    let cp = info.codepoint;
                    let early = cp == 0x093F || cp == 0x09BF || cp == 0x09C7 || cp == 0x09C8 || cp
                        == 0x0A3F || cp == 0x0ABF || cp == 0x0B47 || cp == 0x0BC6 || cp == 0x0BC7
                        || cp == 0x0BC8 || cp == 0x0D46 || cp == 0x0D47 || cp == 0x0D48;
                    let marked = GlyphInfo {
                        codepoint: info.codepoint,
                        mask: info.mask,
                        cluster: info.cluster,
                        var1: hb_var_int_t {
                            b0: info.var1.b0,
                            b1: serial,
                            b2: info.var1.b2,
                            b3: info.var1.b3,
                        },
                        var2: hb_var_int_t {
                            b0: info.var2.b0,
                            b1: info.var2.b1,
                            b2: if early {
                                1
                            } else {
                                0
                            },
                            b3: info.var2.b3,
                        },
                    };
                    buffer.info.set(i, marked);
                    i += 1;
                }
                assert(buffer.info@ =~= shaper_marked(self, old(buffer)@.infos));
            },
            _ => {},
        }
    }

    /// Puts the glyphs into the order in which they are written. A shaper
    /// that moves glyphs leaves all positions zero; one that moves none
    /// leaves the buffer as it is.
    pub fn reorder(self, buffer: &mut hb_buffer_t)
        requires
            old(buffer).wf(),
        ensures
            final(buffer).wf(),
            final(buffer)@ == (BufferView {
                infos: shaper_reordered(
                    self,
                    old(buffer)@.cluster_level,
                    old(buffer)@.infos,
                ),
                positions: if self == ComplexShaper::Indic {
                    zero_positions(
                        shaper_reordered(
                            self,
                            old(buffer)@.cluster_level,
                            old(buffer)@.infos,
                        ).len(),
                    )
                } else {
                    old(buffer)@.positions
                },
                ..old(buffer)@
            }),
    {
        match self {
            ComplexShaper::Indic => {
                let level = buffer.cluster_level;
                let ghost input = buffer@.infos;
                let ghost step = vowel_reordering(level);
                let count = buffer.info.len();
                let mut out = buffer.begin_pass();
                let mut at: usize = 0;
                while at < count
                    invariant
                        at <= count == input.len(),
                        buffer@ == old(buffer)@,
                        input == old(buffer)@.infos,
                        step == vowel_reordering(level),
                        level == old(buffer)@.cluster_level,
                        out@ + scan(step, input, at as int) == scan(step, input, 0),
                    decreases count - at,
                {
                    let ghost before = out@;
                    let here = buffer.info[at];
                    if at + 1 < count && buffer.info[at + 1].var2.b2 == 1 && here.var2.b2 != 1 {
                        let next = buffer.info[at + 1];
                        out.push(
                            GlyphInfo {
                                codepoint: next.codepoint,
                                mask: here.mask,
                                cluster: here.cluster,
                                var1: next.var1,
                                var2: next.var2,
                            },
                        );
                        let passed = match level {
                            BufferClusterLevel::Characters => GlyphInfo {
                                codepoint: here.codepoint,
                                mask: next.mask,
                                cluster: next.cluster,
                                var1: here.var1,
                                var2: here.var2,
                            },
                            _ => here,
                        };
                        out.push(passed);
                        assert(out@ =~= before + step(input, at as int).emit);
                        proof {
                            lemma_scan_step(step, input, at as int, before, out@);
                        }
                        at += 2;
                    } else {
                        out.push(here);
                        assert(out@ =~= before + step(input, at as int).emit);
                        proof {
                            lemma_scan_step(step, input, at as int, before, out@);
                        }
                        at += 1;
                    }
                }
                assert(out@ =~= scan(step, input, 0));
                buffer.end_pass(out);
            },
            _ => {},
        }
    }

    /// Picks the shaper of a script. A script without a family of its own
    /// gets the default shaper.
    pub fn for_script(script: Script) -> (shaper: ComplexShaper)
        ensures
            shaper == shaper_for(script.0.0),
    {
        let script: u32 = script.0.0;
        if script == crate::tag::SCRIPT_DEVANAGARI || script == crate::tag::SCRIPT_BENGALI
            || script == crate::tag::SCRIPT_GURMUKHI || script == crate::tag::SCRIPT_GUJARATI
            || script == crate::tag::SCRIPT_ORIYA || script == crate::tag::SCRIPT_TAMIL || script
            == crate::tag::SCRIPT_TELUGU || script == crate::tag::SCRIPT_KANNADA || script
            == crate::tag::SCRIPT_MALAYALAM {
            ComplexShaper::Indic
        } else if script == crate::tag::SCRIPT_ARABIC || script == crate::tag::SCRIPT_SYRIAC
            || script == crate::tag::SCRIPT_MANDAIC || script == crate::tag::SCRIPT_NKO {
            ComplexShaper::Arabic
        } else {
            ComplexShaper::Default
        }
    }

    /// Asks for the features of the family, with the pauses between them.
    pub fn collect_features(self, builder: &mut hb_ot_map_builder_t)
        ensures
            final(builder)@ == shaper_features(self, old(builder)@),
            final(builder)@.gsub_pauses == old(builder)@.gsub_pauses + shaper_pauses(self),
            final(builder)@.gpos_pauses == old(builder)@.gpos_pauses,
    {
        match self {
            ComplexShaper::Default => {
                assert(builder@.gsub_pauses + shaper_pauses(self) =~= builder@.gsub_pauses);
            },
            ComplexShaper::Indic => {
                let flags = FeatureFlags::whole_run_manual_joiners();
                builder.add_feature(Tag(crate::tag::FEATURE_NUKT), flags, 1);
                builder.add_feature(Tag(crate::tag::FEATURE_AKHN), flags, 1);
                builder.add_gsub_pause(Pause::ClearSyllables);
                builder.add_feature(Tag(crate::tag::FEATURE_PRES), flags, 1);
                builder.add_feature(Tag(crate::tag::FEATURE_ABVS), flags, 1);
                builder.add_feature(Tag(crate::tag::FEATURE_BLWS), flags, 1);
                builder.add_feature(Tag(crate::tag::FEATURE_PSTS), flags, 1);
                builder.add_feature(Tag(crate::tag::FEATURE_HALN), flags, 1);
                assert(builder@.gsub_pauses =~= old(builder)@.gsub_pauses + shaper_pauses(self));
            },
            ComplexShaper::Arabic => {
                let flags = FeatureFlags::whole_run_manual_joiners();
                builder.add_feature(
                    Tag(crate::tag::FEATURE_COMPOSITION),
                    FeatureFlags::whole_run(),
                    1,
                );
                builder.add_feature(Tag(crate::tag::FEATURE_LOCL), FeatureFlags::whole_run(), 1);
                builder.add_gsub_pause(Pause::ClearSubstitutionFlags);
                builder.add_feature(Tag(crate::tag::FEATURE_RLIG), flags, 1);
                builder.add_feature(Tag(crate::tag::FEATURE_CALT), flags, 1);
                assert(builder@.gsub_pauses =~= old(builder)@.gsub_pauses + shaper_pauses(self));
            },
        }
    }

    /// Overrides the features that every run asks for: the Indic family
    /// switches the standard ligatures off.
    pub fn override_default_features(self, builder: &mut hb_ot_map_builder_t)
        ensures
            final(builder)@ == shaper_overrides(self, old(builder)@),
    {
        match self {
            ComplexShaper::Indic => {
                builder.disable_feature(Tag(crate::tag::FEATURE_LIGA));
            },
            _ => {},
        }
    }

    /// The pauses that the shaper asks for between its features, in their
    /// order.
    pub fn stage_pauses(self) -> (pauses: Vec<Pause>)
        ensures
            pauses@ == shaper_pauses(self),
    {
        let mut pauses: Vec<Pause> = Vec::new();
        match self {
            ComplexShaper::Default => {},
            ComplexShaper::Indic => {
                pauses.push(Pause::ClearSyllables);
            },
            ComplexShaper::Arabic => {
                pauses.push(Pause::ClearSubstitutionFlags);
            },
        }
        assert(pauses@ =~= shaper_pauses(self));
        pauses
    }

    /// How the shaper wants its text normalized.
    pub fn normalization_preference(self) -> (preference: NormalizationPreference)
        ensures
            preference == shaper_preference(self),
    {
        match self {
            ComplexShaper::Indic => NormalizationPreference::PreferDecomposed,
            _ => NormalizationPreference::PreferComposed,
        }
    }

    /// Takes a code point apart.
    pub fn decompose(self, cp: u32) -> (parts: Vec<u32>)
        ensures
            parts@ == shaper_decomposition(self, cp),
    {
        let whole = cp == 0x0931 || cp == 0x09DC || cp == 0x09DD || cp == 0x0B94;
        match self {
            ComplexShaper::Indic => {
                if whole {
                    let mut parts: Vec<u32> = Vec::new();
                    parts.push(cp);
                    assert(parts@ =~= seq![cp]);
                    return parts;
                }
            },
            _ => {},
        }
        let parts = crate::unicode::decompose(cp);
        if parts.len() > MAX_DECOMPOSITION {
            let mut whole: Vec<u32> = Vec::new();
            whole.push(cp);
            assert(whole@ =~= seq![cp]);
            return whole;
        }
        parts
    }

    /// Puts two code points together.
    pub fn compose(self, a: u32, b: u32) -> (composed: Option<u32>)
        ensures
            composed == shaper_composition(self, a, b),
    {
        match self {
            ComplexShaper::Indic => {
                if crate::unicode::is_combining_mark(a) {
                    return None;
                }
            },
            _ => {},
        }
        crate::unicode::compose(a, b)
    }
}

} // verus!
