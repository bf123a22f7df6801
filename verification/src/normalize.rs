//! Normalization: brings the text into the form that the font covers best
//! and puts the marks into their canonical order.
use vstd::prelude::*;
use crate::buffer::{
    BufferClusterLevel, BufferView, CLASS_JOINER, CLASS_MARK, CLASS_NON_JOINER, GlyphInfo,
    clusters_ascend, hb_buffer_t, zero_positions,
};
use crate::common::hb_var_int_t;
use crate::complex::{
    ComplexShaper, MAX_DECOMPOSITION, NormalizationPreference, shaper_composition,
    shaper_decomposition, shaper_preference,
};
use crate::face::hb_font_t;
use crate::plan::hb_ot_shape_plan_t;
use crate::scan::{
    Step, left, lemma_scan_ascends, lemma_scan_len_bounded, lemma_scan_step, scan, step_in_order,
    step_used,
};
use crate::unicode::{combining_class, is_mark};

verus! {

/// The class of a code point: joiner, non-joiner, mark, or none of them.
pub open spec fn class_of(cp: u32) -> u8 {
    if cp == 0x200D {
        CLASS_JOINER
    } else if cp == 0x200C {
        CLASS_NON_JOINER
    } else if is_mark(cp) {
        CLASS_MARK
    } else {
        0
    }
}

/// A glyph with the combining class and the class of its code point noted
/// in its scratch space.
pub open spec fn with_properties(info: GlyphInfo) -> GlyphInfo {
    GlyphInfo {
        var2: hb_var_int_t {
            b0: combining_class(info.codepoint),
            b1: class_of(info.codepoint),
            ..info.var2
        },
        ..info
    }
}

/// A run with the properties of every code point noted.
pub open spec fn properties_noted(infos: Seq<GlyphInfo>) -> Seq<GlyphInfo> {
    Seq::new(infos.len(), |i: int| with_properties(infos[i]))
}

/// The cluster of the grapheme that a glyph belongs to: a mark joins the
/// glyph before it.
pub open spec fn grapheme_cluster(infos: Seq<GlyphInfo>, at: int) -> u32
    decreases at,
{
    if at <= 0 {
        infos[0].cluster
    } else if infos[at].mark() {
        grapheme_cluster(infos, at - 1)
    } else {
        infos[at].cluster
    }
}

/// A run in which every mark has joined the cluster of its base.
pub open spec fn graphemes_formed(infos: Seq<GlyphInfo>) -> Seq<GlyphInfo> {
    Seq::new(infos.len(), |i: int| GlyphInfo { cluster: grapheme_cluster(infos, i), ..infos[i] })
}

/// The code point that the first `count` parts compose to, taken together
/// from the left.
pub open spec fn composed_prefix(shaper: ComplexShaper, parts: Seq<u32>, count: int) -> Option<u32>
    decreases count,
{
    if count <= 0 {
        None
    } else if count == 1 {
        Some(parts[0])
    } else {
        match composed_prefix(shaper, parts, count - 1) {
            Some(head) => shaper_composition(shaper, head, parts[count - 1]),
            None => None,
        }
    }
}

/// The font covers every part from `from` on.
pub open spec fn tail_covered(font: hb_font_t, parts: Seq<u32>, from: int) -> bool {
    forall|k: int| from <= k < parts.len() ==> font.covers(#[trigger] parts[k])
}

/// The form of a code point in which the first `head` parts are composed
/// into one: the fully decomposed form for one, more composed forms for
/// more.
pub open spec fn form(shaper: ComplexShaper, parts: Seq<u32>, head: int) -> Seq<u32> {
    seq![composed_prefix(shaper, parts, head)->0] + parts.subrange(head, parts.len() as int)
}

/// The form exists and the font covers all of it.
pub open spec fn form_available(
    font: hb_font_t,
    shaper: ComplexShaper,
    parts: Seq<u32>,
    head: int,
) -> bool {
    &&& 1 <= head <= parts.len()
    &&& composed_prefix(shaper, parts, head) is Some
    &&& font.covers(composed_prefix(shaper, parts, head)->0)
    &&& tail_covered(font, parts, head)
}

/// The most composed available form with at most `head` parts in its first
/// code point; zero if there is none.
pub open spec fn most_composed(
    font: hb_font_t,
    shaper: ComplexShaper,
    parts: Seq<u32>,
    head: int,
) -> int
    decreases head,
{
    if head <= 0 {
        0
    } else if form_available(font, shaper, parts, head) {
        head
    } else {
        most_composed(font, shaper, parts, head - 1)
    }
}

/// The most decomposed available form with at least `head` parts in its
/// first code point; zero if there is none.
pub open spec fn most_decomposed(
    font: hb_font_t,
    shaper: ComplexShaper,
    parts: Seq<u32>,
    head: int,
) -> int
    decreases parts.len() + 1 - head,
{
    if head < 1 || head > parts.len() {
        0
    } else if form_available(font, shaper, parts, head) {
        head
    } else {
        most_decomposed(font, shaper, parts, head + 1)
    }
}

/// The form in which a code point goes on. A shaper that prefers composed
/// text keeps a code point that the font covers, and else takes the most
/// composed form that the font covers; one that prefers decomposed text
/// takes the most decomposed form that the font covers, and else keeps a
/// code point that the font covers. Where the font covers no form at all
/// the code point goes on fully decomposed.
pub open spec fn chosen_form(
    font: hb_font_t,
    shaper: ComplexShaper,
    preference: NormalizationPreference,
    cp: u32,
) -> Seq<u32> {
    let parts = shaper_decomposition(shaper, cp);
    match preference {
        NormalizationPreference::Unchanged => seq![cp],
        NormalizationPreference::PreferComposed => {
            let head = most_composed(font, shaper, parts, parts.len() as int);
            if font.covers(cp) || parts.len() == 0 {
                seq![cp]
            } else if head > 0 {
                form(shaper, parts, head)
            } else {
                parts
            }
        },
        NormalizationPreference::PreferDecomposed => {
            let head = most_decomposed(font, shaper, parts, 1);
            if head > 0 {
                form(shaper, parts, head)
            } else if font.covers(cp) || parts.len() == 0 {
                seq![cp]
            } else {
                parts
            }
        },
    }
}

/// The glyphs that a code point goes on as: one for each code point of its
/// chosen form, all in its cluster.
pub open spec fn decompose_step(
    font: hb_font_t,
    shaper: ComplexShaper,
    preference: NormalizationPreference,
    input: Seq<GlyphInfo>,
    at: int,
) -> Step {
    let chosen = chosen_form(font, shaper, preference, input[at].codepoint);
    Step {
        emit: Seq::new(
            chosen.len(),
            |k: int| with_properties(GlyphInfo { codepoint: chosen[k], ..input[at] }),
        ),
        used: 1,
    }
}

/// The steps of decomposition.
pub open spec fn decomposing(
    font: hb_font_t,
    shaper: ComplexShaper,
    preference: NormalizationPreference,
) -> spec_fn(Seq<GlyphInfo>, int) -> Step {
    |input: Seq<GlyphInfo>, at: int| decompose_step(font, shaper, preference, input, at)
}

/// Where the run of glyphs with a combining class that starts at `from`
/// ends.
pub open spec fn run_end(input: Seq<GlyphInfo>, from: int) -> int
    decreases left(input, from),
{
    if from < 0 || from >= input.len() || input[from].var2.b0 == 0 {
        from
    } else {
        run_end(input, from + 1)
    }
}

/// A sorted run with one more glyph, which goes behind every glyph whose
/// combining class is not greater than its own.
pub open spec fn inserted(sorted: Seq<GlyphInfo>, info: GlyphInfo) -> Seq<GlyphInfo>
    decreases sorted.len(),
{
    if sorted.len() == 0 {
        seq![info]
    } else if sorted.last().var2.b0 <= info.var2.b0 {
        sorted.push(info)
    } else {
        inserted(sorted.drop_last(), info).push(sorted.last())
    }
}

/// The first `count` glyphs of a run by ascending combining class; glyphs of
/// one class keep their order.
pub open spec fn sorted_marks(run: Seq<GlyphInfo>, count: int) -> Seq<GlyphInfo>
    decreases count,
{
    if count <= 0 {
        Seq::empty()
    } else {
        inserted(sorted_marks(run, count - 1), run[count - 1])
    }
}

/// A run of marks in canonical order. Where the order changes, the cluster
/// ids stay at their places if every character keeps a cluster of its own,
/// and else the whole run joins the cluster of its first glyph.
pub open spec fn reordered(run: Seq<GlyphInfo>, level: BufferClusterLevel) -> Seq<GlyphInfo> {
    let sorted = sorted_marks(run, run.len() as int);
    if sorted == run {
        run
    } else {
        Seq::new(
            run.len(),
            |k: int|
                GlyphInfo {
                    cluster: if level == BufferClusterLevel::Characters {
                        run[k].cluster
                    } else {
                        run[0].cluster
                    },
                    ..sorted[k]
                },
        )
    }
}

/// What reordering does at a place of a run: a glyph without a combining
/// class stays; a run of glyphs with one is put into canonical order.
pub open spec fn reorder_step(level: BufferClusterLevel, input: Seq<GlyphInfo>, at: int) -> Step {
    if input[at].var2.b0 == 0 {
        Step { emit: seq![input[at]], used: 1 }
    } else {
        Step {
            emit: reordered(input.subrange(at, run_end(input, at)), level),
            used: run_end(input, at) - at,
        }
    }
}

/// The steps of reordering.
pub open spec fn reordering(level: BufferClusterLevel) -> spec_fn(Seq<GlyphInfo>, int) -> Step {
    |input: Seq<GlyphInfo>, at: int| reorder_step(level, input, at)
}

/// A normalized run: the properties of the code points noted, the marks
/// joined to their bases where the buffer asks for it, every code point in
/// its chosen form, and the marks in canonical order.
pub open spec fn normalized(
    font: hb_font_t,
    shaper: ComplexShaper,
    level: BufferClusterLevel,
    infos: Seq<GlyphInfo>,
) -> Seq<GlyphInfo> {
    let noted = properties_noted(infos);
    let formed = if level == BufferClusterLevel::MonotoneGraphemes {
        graphemes_formed(noted)
    } else {
        noted
    };
    let decomposed = scan(decomposing(font, shaper, shaper_preference(shaper)), formed, 0);
    scan(reordering(level), decomposed, 0)
}

proof fn lemma_grapheme_cluster_below(infos: Seq<GlyphInfo>, at: int)
    requires
        clusters_ascend(infos),
        0 <= at < infos.len(),
    ensures
        grapheme_cluster(infos, at) <= infos[at].cluster,
    decreases at,
{
    if at > 0 && infos[at].mark() {
        lemma_grapheme_cluster_below(infos, at - 1);
    }
}

proof fn lemma_grapheme_clusters_ascend(infos: Seq<GlyphInfo>, i: int, j: int)
    requires
        clusters_ascend(infos),
        0 <= i <= j < infos.len(),
    ensures
        grapheme_cluster(infos, i) <= grapheme_cluster(infos, j),
    decreases j,
{
    if i < j {
        if infos[j].mark() {
            lemma_grapheme_clusters_ascend(infos, i, j - 1);
        } else {
            lemma_grapheme_cluster_below(infos, i);
        }
    }
}

/// Joining the marks to their bases keeps ascending cluster ids ascending.
pub proof fn lemma_graphemes_ascend(infos: Seq<GlyphInfo>)
    requires
        clusters_ascend(infos),
    ensures
        clusters_ascend(graphemes_formed(infos)),
{
    let formed = graphemes_formed(infos);
    assert forall|i: int, j: int| 0 <= i <= j < formed.len() implies formed[i].cluster
        <= formed[j].cluster by {
        lemma_grapheme_clusters_ascend(infos, i, j);
    }
}

/// A run of glyphs with a combining class ends inside the text, and behind
/// its start if it has a glyph at all.
pub proof fn lemma_run_end_range(input: Seq<GlyphInfo>, from: int)
    requires
        0 <= from <= input.len(),
    ensures
        from <= run_end(input, from) <= input.len(),
        from < input.len() && input[from].var2.b0 != 0 ==> from < run_end(input, from),
    decreases left(input, from),
{
    if from < input.len() && input[from].var2.b0 != 0 {
        lemma_run_end_range(input, from + 1);
    }
}

proof fn lemma_inserted_len(sorted: Seq<GlyphInfo>, info: GlyphInfo)
    ensures
        inserted(sorted, info).len() == sorted.len() + 1,
    decreases sorted.len(),
{
    if sorted.len() > 0 && sorted.last().var2.b0 > info.var2.b0 {
        lemma_inserted_len(sorted.drop_last(), info);
    }
}

/// Sorting keeps the number of glyphs.
pub proof fn lemma_sorted_len(run: Seq<GlyphInfo>, count: int)
    requires
        0 <= count,
    ensures
        sorted_marks(run, count).len() == count,
    decreases count,
{
    if count > 0 {
        lemma_sorted_len(run, count - 1);
        lemma_inserted_len(sorted_marks(run, count - 1), run[count - 1]);
    }
}

/// The combining classes of a run never fall.
pub open spec fn classes_ascend(run: Seq<GlyphInfo>) -> bool {
    forall|i: int, j: int| 0 <= i <= j < run.len() ==> run[i].var2.b0 <= run[j].var2.b0
}

proof fn lemma_inserted_ascends(sorted: Seq<GlyphInfo>, info: GlyphInfo)
    requires
        classes_ascend(sorted),
    ensures
        classes_ascend(inserted(sorted, info)),
        inserted(sorted, info).len() == sorted.len() + 1,
        forall|k: int|
            0 <= k < inserted(sorted, info).len() ==> (#[trigger] inserted(sorted, info)[k])
                == info || exists|m: int|
                0 <= m < sorted.len() && inserted(sorted, info)[k] == sorted[m],
    decreases sorted.len(),
{
    let out = inserted(sorted, info);
    if sorted.len() == 0 {
    } else if sorted.last().var2.b0 <= info.var2.b0 {
        assert forall|k: int| 0 <= k < out.len() implies (#[trigger] out[k]) == info || exists|
            m: int,
        |
            0 <= m < sorted.len() && out[k] == sorted[m] by {
            if k < sorted.len() {
                assert(out[k] == sorted[k]);
            }
        }
    } else {
        let shorter = sorted.drop_last();
        assert(classes_ascend(shorter)) by {
            assert forall|i: int, j: int| 0 <= i <= j < shorter.len() implies shorter[i].var2.b0
                <= shorter[j].var2.b0 by {
                assert(shorter[i] == sorted[i] && shorter[j] == sorted[j]);
            }
        }
        lemma_inserted_ascends(shorter, info);
        let inner = inserted(shorter, info);
        assert(out == inner.push(sorted.last()));
        assert forall|k: int| 0 <= k < inner.len() implies (#[trigger] inner[k]).var2.b0
            <= sorted.last().var2.b0 by {
            if inner[k] != info {
                let m = choose|m: int| 0 <= m < shorter.len() && inner[k] == shorter[m];
                assert(shorter[m] == sorted[m]);
            }
        }
        assert forall|i: int, j: int| 0 <= i <= j < out.len() implies out[i].var2.b0
            <= out[j].var2.b0 by {
            if j < inner.len() {
                assert(out[i] == inner[i] && out[j] == inner[j]);
            } else if i < inner.len() {
                assert(out[i] == inner[i]);
            }
        }
        assert forall|k: int| 0 <= k < out.len() implies (#[trigger] out[k]) == info || exists|
            m: int,
        |
            0 <= m < sorted.len() && out[k] == sorted[m] by {
            if k < inner.len() {
                assert(out[k] == inner[k]);
                if inner[k] != info {
                    let m = choose|m: int| 0 <= m < shorter.len() && inner[k] == shorter[m];
                    assert(shorter[m] == sorted[m]);
                }
            } else {
                assert(out[k] == sorted[sorted.len() - 1]);
            }
        }
    }
}

/// A sorted run of marks has ascending combining classes.
pub proof fn lemma_sorted_marks_ascend(run: Seq<GlyphInfo>, count: int)
    requires
        0 <= count,
    ensures
        classes_ascend(sorted_marks(run, count)),
        sorted_marks(run, count).len() == count,
    decreases count,
{
    if count > 0 {
        lemma_sorted_marks_ascend(run, count - 1);
        lemma_inserted_ascends(sorted_marks(run, count - 1), run[count - 1]);
    }
}

proof fn lemma_inserted_permutes(sorted: Seq<GlyphInfo>, info: GlyphInfo)
    ensures
        inserted(sorted, info).to_multiset() =~= sorted.to_multiset().insert(info),
    decreases sorted.len(),
{
    if sorted.len() == 0 {
        assert(seq![info] =~= sorted.push(info));
        vstd::seq_lib::to_multiset_build(sorted, info);
    } else if sorted.last().var2.b0 <= info.var2.b0 {
        vstd::seq_lib::to_multiset_build(sorted, info);
    } else {
        let shorter = sorted.drop_last();
        lemma_inserted_permutes(shorter, info);
        vstd::seq_lib::to_multiset_build(inserted(shorter, info), sorted.last());
        assert(sorted =~= shorter.push(sorted.last()));
        vstd::seq_lib::to_multiset_build(shorter, sorted.last());
        assert(shorter.to_multiset().insert(info).insert(sorted.last())
            =~= shorter.to_multiset().insert(sorted.last()).insert(info));
    }
}

/// Sorting a run of marks moves its glyphs and changes none: the sorted run
/// holds every glyph as often as the run does.
pub proof fn lemma_sorted_marks_permute(run: Seq<GlyphInfo>, count: int)
    requires
        0 <= count <= run.len(),
    ensures
        sorted_marks(run, count).to_multiset() =~= run.take(count).to_multiset(),
    decreases count,
{
    if count > 0 {
        lemma_sorted_marks_permute(run, count - 1);
        lemma_inserted_permutes(sorted_marks(run, count - 1), run[count - 1]);
        assert(run.take(count) =~= run.take(count - 1).push(run[count - 1]));
        vstd::seq_lib::to_multiset_build(run.take(count - 1), run[count - 1]);
    } else {
        assert(run.take(0) =~= Seq::<GlyphInfo>::empty());
    }
}

proof fn lemma_most_composed_is_available(
    font: hb_font_t,
    shaper: ComplexShaper,
    parts: Seq<u32>,
    head: int,
    known: int,
)
    requires
        1 <= known <= head,
        form_available(font, shaper, parts, known),
    ensures
        known <= most_composed(font, shaper, parts, head) <= head,
        form_available(font, shaper, parts, most_composed(font, shaper, parts, head)),
    decreases head,
{
    if !form_available(font, shaper, parts, head) {
        lemma_most_composed_is_available(font, shaper, parts, head - 1, known);
    }
}

/// A code point whose canonical decomposition the font covers part by part
/// never ends up as a missing glyph: it goes on in a form of which the font
/// covers every code point. Where the font covers neither the code point nor
/// any form in which parts are composed, that form is the decomposition
/// itself.
pub proof fn lemma_covered_decomposition_is_used(
    font: hb_font_t,
    shaper: ComplexShaper,
    preference: NormalizationPreference,
    cp: u32,
)
    requires
        preference != NormalizationPreference::Unchanged,
        shaper_decomposition(shaper, cp).len() > 0,
        tail_covered(font, shaper_decomposition(shaper, cp), 0),
    ensures
        forall|k: int|
            0 <= k < chosen_form(font, shaper, preference, cp).len() ==> font.covers(
                #[trigger] chosen_form(font, shaper, preference, cp)[k],
            ),
        !font.covers(cp) && most_composed(
            font,
            shaper,
            shaper_decomposition(shaper, cp),
            shaper_decomposition(shaper, cp).len() as int,
        ) == 1 ==> chosen_form(font, shaper, preference, cp) == shaper_decomposition(shaper, cp),
{
    let parts = shaper_decomposition(shaper, cp);
    let count = parts.len() as int;
    assert(font.covers(parts[0]));
    assert(form_available(font, shaper, parts, 1));
    assert(form(shaper, parts, 1) =~= parts);
    lemma_most_composed_is_available(font, shaper, parts, count, 1);
    let chosen = chosen_form(font, shaper, preference, cp);
    let head = if preference == NormalizationPreference::PreferComposed {
        most_composed(font, shaper, parts, count)
    } else {
        most_decomposed(font, shaper, parts, 1)
    };
    assert(form_available(font, shaper, parts, head));
    if chosen != seq![cp] {
        assert(chosen == form(shaper, parts, head));
        assert forall|k: int| 0 <= k < chosen.len() implies font.covers(#[trigger] chosen[k]) by {
            if k > 0 {
                assert(chosen[k] == parts[head + k - 1]);
            }
        }
    } else {
        if preference == NormalizationPreference::PreferDecomposed {
            assert(chosen == form(shaper, parts, 1));
        }
    }
    if !font.covers(cp) && most_composed(font, shaper, parts, count) == 1 {
        if preference == NormalizationPreference::PreferDecomposed {
            assert(chosen == form(shaper, parts, 1));
        }
    }
}

proof fn lemma_inserted_at(sorted: Seq<GlyphInfo>, info: GlyphInfo, at: int)
    requires
        0 <= at <= sorted.len(),
        forall|k: int| at <= k < sorted.len() ==> (#[trigger] sorted[k]).var2.b0 > info.var2.b0,
        at > 0 ==> sorted[at - 1].var2.b0 <= info.var2.b0,
    ensures
        inserted(sorted, info) == sorted.insert(at, info),
    decreases sorted.len(),
{
    if sorted.len() == 0 {
        assert(seq![info] =~= sorted.insert(at, info));
    } else if at == sorted.len() {
        assert(sorted.push(info) =~= sorted.insert(at, info));
    } else {
        assert(sorted.last().var2.b0 > info.var2.b0);
        let shorter = sorted.drop_last();
        assert forall|k: int| at <= k < shorter.len() implies (#[trigger] shorter[k]).var2.b0
            > info.var2.b0 by {
            assert(shorter[k] == sorted[k]);
        }
        if at > 0 {
            assert(shorter[at - 1] == sorted[at - 1]);
        }
        lemma_inserted_at(shorter, info, at);
        assert(shorter.insert(at, info).push(sorted.last()) =~= sorted.insert(at, info));
    }
}

/// Decomposition and reordering keep ascending cluster ids ascending.
pub proof fn lemma_decomposing_in_order(
    font: hb_font_t,
    shaper: ComplexShaper,
    preference: NormalizationPreference,
    input: Seq<GlyphInfo>,
)
    requires
        clusters_ascend(input),
    ensures
        clusters_ascend(scan(decomposing(font, shaper, preference), input, 0)),
{
    let step = decomposing(font, shaper, preference);
    assert forall|at: int| 0 <= at < input.len() implies step_in_order(
        #[trigger] step(input, at),
        input,
        at,
    ) by {}
    lemma_scan_ascends(step, input, 0);
}

/// Reordering keeps ascending cluster ids ascending.
pub proof fn lemma_reordering_in_order(level: BufferClusterLevel, input: Seq<GlyphInfo>)
    requires
        clusters_ascend(input),
    ensures
        clusters_ascend(scan(reordering(level), input, 0)),
{
    let step = reordering(level);
    assert forall|at: int| 0 <= at < input.len() implies step_in_order(
        #[trigger] step(input, at),
        input,
        at,
    ) by {
        if input[at].var2.b0 != 0 {
            lemma_run_end_range(input, at);
            let end = run_end(input, at);
            let run = input.subrange(at, end);
            lemma_sorted_len(run, run.len() as int);
            let emit = reordered(run, level);
            assert forall|k: int| 0 <= k < emit.len() implies input[at].cluster <= (
            #[trigger] emit[k]).cluster <= input[end - 1].cluster by {
                assert(run[k] == input[at + k]);
                assert(run[0] == input[at]);
            }
            assert forall|i: int, j: int| 0 <= i <= j < emit.len() implies emit[i].cluster
                <= emit[j].cluster by {
                assert(run[i] == input[at + i]);
                assert(run[j] == input[at + j]);
            }
        }
    }
    lemma_scan_ascends(step, input, 0);
}

/// A code point goes on as at most `MAX_DECOMPOSITION` code points.
pub proof fn lemma_chosen_form_is_bounded(
    font: hb_font_t,
    shaper: ComplexShaper,
    preference: NormalizationPreference,
    cp: u32,
)
    ensures
        chosen_form(font, shaper, preference, cp).len() <= MAX_DECOMPOSITION,
{
    let parts = shaper_decomposition(shaper, cp);
    assert(parts.len() <= MAX_DECOMPOSITION);
    let chosen = chosen_form(font, shaper, preference, cp);
    let head = if preference == NormalizationPreference::PreferComposed {
        most_composed(font, shaper, parts, parts.len() as int)
    } else {
        most_decomposed(font, shaper, parts, 1)
    };
    lemma_most_composed_range(font, shaper, parts, parts.len() as int);
    lemma_most_decomposed_range(font, shaper, parts, 1);
    if head > 0 {
        assert(form(shaper, parts, head).len() == 1 + parts.len() - head);
    }
}

proof fn lemma_most_composed_range(
    font: hb_font_t,
    shaper: ComplexShaper,
    parts: Seq<u32>,
    head: int,
)
    requires
        head <= parts.len(),
    ensures
        most_composed(font, shaper, parts, head) == 0 || 1 <= most_composed(
            font,
            shaper,
            parts,
            head,
        ) <= parts.len(),
    decreases head,
{
    if head > 0 && !form_available(font, shaper, parts, head) {
        lemma_most_composed_range(font, shaper, parts, head - 1);
    }
}

proof fn lemma_most_decomposed_range(
    font: hb_font_t,
    shaper: ComplexShaper,
    parts: Seq<u32>,
    head: int,
)
    ensures
        most_decomposed(font, shaper, parts, head) == 0 || 1 <= most_decomposed(
            font,
            shaper,
            parts,
            head,
        ) <= parts.len(),
    decreases parts.len() + 1 - head,
{
    if 1 <= head <= parts.len() && !form_available(font, shaper, parts, head) {
        lemma_most_decomposed_range(font, shaper, parts, head + 1);
    }
}

/// Normalization makes a run at most `MAX_DECOMPOSITION` times as long as it
/// was.
pub proof fn lemma_normalized_is_bounded(
    font: hb_font_t,
    shaper: ComplexShaper,
    level: BufferClusterLevel,
    infos: Seq<GlyphInfo>,
)
    ensures
        normalized(font, shaper, level, infos).len() <= MAX_DECOMPOSITION * infos.len(),
{
    let noted = properties_noted(infos);
    let formed = if level == BufferClusterLevel::MonotoneGraphemes {
        graphemes_formed(noted)
    } else {
        noted
    };
    let preference = shaper_preference(shaper);
    let decompose = decomposing(font, shaper, preference);
    assert forall|at: int| 0 <= at < formed.len() implies at + step_used(
        (#[trigger] decompose(formed, at)).used,
    ) <= formed.len() && decompose(formed, at).emit.len() <= MAX_DECOMPOSITION as nat * step_used(
        decompose(formed, at).used,
    ) by {
        lemma_chosen_form_is_bounded(font, shaper, preference, formed[at].codepoint);
    }
    lemma_scan_len_bounded(decompose, formed, 0, MAX_DECOMPOSITION as nat);
    let decomposed = scan(decompose, formed, 0);
    let reorder = reordering(level);
    assert forall|at: int| 0 <= at < decomposed.len() implies at + step_used(
        (#[trigger] reorder(decomposed, at)).used,
    ) <= decomposed.len() && reorder(decomposed, at).emit.len() <= 1nat * step_used(
        reorder(decomposed, at).used,
    ) by {
        if decomposed[at].var2.b0 != 0 {
            lemma_run_end_range(decomposed, at);
            let run = decomposed.subrange(at, run_end(decomposed, at));
            lemma_sorted_len(run, run.len() as int);
        }
    }
    lemma_scan_len_bounded(reorder, decomposed, 0, 1);
}

/// Normalization keeps ascending cluster ids ascending.
pub proof fn lemma_normalized_ascends(
    font: hb_font_t,
    shaper: ComplexShaper,
    level: BufferClusterLevel,
    infos: Seq<GlyphInfo>,
)
    requires
        clusters_ascend(infos),
    ensures
        clusters_ascend(normalized(font, shaper, level, infos)),
{
    let noted = properties_noted(infos);
    assert(clusters_ascend(noted));
    let formed = if level == BufferClusterLevel::MonotoneGraphemes {
        graphemes_formed(noted)
    } else {
        noted
    };
    if level == BufferClusterLevel::MonotoneGraphemes {
        lemma_graphemes_ascend(noted);
    }
    lemma_decomposing_in_order(font, shaper, shaper_preference(shaper), formed);
    let decomposed = scan(decomposing(font, shaper, shaper_preference(shaper)), formed, 0);
    lemma_reordering_in_order(level, decomposed);
}

/// Notes the combining class and the class of the code point of a glyph.
pub fn note_properties(info: &GlyphInfo) -> (noted: GlyphInfo)
    ensures
        noted == with_properties(*info),
{
    let cp = info.codepoint;
    let class: u8 = if cp == 0x200D {
        CLASS_JOINER
    } else if cp == 0x200C {
        CLASS_NON_JOINER
    } else if crate::unicode::is_combining_mark(cp) {
        CLASS_MARK
    } else {
        0
    };
    GlyphInfo {
        codepoint: info.codepoint,
        mask: info.mask,
        cluster: info.cluster,
        var1: info.var1,
        var2: hb_var_int_t {
            b0: crate::unicode::canonical_combining_class(cp),
            b1: class,
            b2: info.var2.b2,
            b3: info.var2.b3,
        },
    }
}

/// The composition of the first `head` parts, if the font covers it and
/// every part behind it.
fn available_form(
    font: &hb_font_t,
    shaper: ComplexShaper,
    parts: &Vec<u32>,
    head: usize,
) -> (found: Option<u32>)
    requires
        1 <= head <= parts@.len(),
    ensures
        found is Some <==> form_available(*font, shaper, parts@, head as int),
        found matches Some(first) ==> Some(first) == composed_prefix(shaper, parts@, head as int),
{
    let mut first: u32 = parts[0];
    let mut count: usize = 1;
    while count < head
        invariant
            1 <= count <= head <= parts@.len(),
            composed_prefix(shaper, parts@, count as int) == Some(first),
        decreases head - count,
    {
        match shaper.compose(first, parts[count]) {
            Some(next) => {
                first = next;
            },
            None => {
                proof {
                    lemma_prefix_stays_missing(shaper, parts@, count as int + 1, head as int);
                }
                return None;
            },
        }
        count += 1;
    }
    if !font.has_glyph(first) {
        return None;
    }
    let mut k: usize = head;
    while k < parts.len()
        invariant
            head <= k <= parts@.len(),
            forall|j: int| head <= j < k ==> font.covers(#[trigger] parts@[j]),
        decreases parts@.len() - k,
    {
        if !font.has_glyph(parts[k]) {
            return None;
        }
        k += 1;
    }
    Some(first)
}

proof fn lemma_prefix_stays_missing(shaper: ComplexShaper, parts: Seq<u32>, from: int, to: int)
    requires
        1 <= from <= to,
        composed_prefix(shaper, parts, from) is None,
    ensures
        composed_prefix(shaper, parts, to) is None,
    decreases to - from,
{
    if from < to {
        lemma_prefix_stays_missing(shaper, parts, from, to - 1);
    }
}

/// Writes the glyphs of a form behind `out`.
fn emit_form(
    source: &GlyphInfo,
    first: u32,
    parts: &Vec<u32>,
    head: usize,
    out: &mut Vec<GlyphInfo>,
)
    requires
        head <= parts@.len(),
    ensures
        final(out)@ == old(out)@ + Seq::new(
            (seq![first] + parts@.subrange(head as int, parts@.len() as int)).len(),
            |k: int|
                with_properties(
                    GlyphInfo {
                        codepoint: (seq![first] + parts@.subrange(
                            head as int,
                            parts@.len() as int,
                        ))[k],
                        ..*source
                    },
                ),
        ),
{
    let ghost chosen = seq![first] + parts@.subrange(head as int, parts@.len() as int);
    let ghost glyphs = Seq::new(
        chosen.len(),
        |k: int| with_properties(GlyphInfo { codepoint: chosen[k], ..*source }),
    );
    out.push(note_properties(&GlyphInfo { codepoint: first, ..*source }));
    let mut k: usize = head;
    while k < parts.len()
        invariant
            head <= k <= parts@.len(),
            chosen == seq![first] + parts@.subrange(head as int, parts@.len() as int),
            glyphs == Seq::new(
                chosen.len(),
                |j: int| with_properties(GlyphInfo { codepoint: chosen[j], ..*source }),
            ),
            out@ == old(out)@ + glyphs.take(k - head + 1),
        decreases parts@.len() - k,
    {
        out.push(note_properties(&GlyphInfo { codepoint: parts[k], ..*source }));
        k += 1;
        assert(chosen[k - head] == parts@[k - 1]);
        assert(out@ =~= old(out)@ + glyphs.take(k - head + 1));
    }
    assert(glyphs.take(k - head + 1) =~= glyphs);
}

/// Writes the glyphs of one code point in its chosen form behind `out`.
fn decompose_at(
    font: &hb_font_t,
    shaper: ComplexShaper,
    preference: NormalizationPreference,
    input: &Vec<GlyphInfo>,
    at: usize,
    out: &mut Vec<GlyphInfo>,
)
    requires
        at < input@.len(),
    ensures
        final(out)@ == old(out)@ + decompose_step(*font, shaper, preference, input@, at as int).emit,
{
    let source = input[at];
    let cp = source.codepoint;
    let ghost chosen = chosen_form(*font, shaper, preference, cp);
    let keep = match preference {
        NormalizationPreference::Unchanged => true,
        NormalizationPreference::PreferComposed => font.has_glyph(cp),
        NormalizationPreference::PreferDecomposed => false,
    };
    if !keep {
        let parts = shaper.decompose(cp);
        let count = parts.len();
        if count > 0 {
            let mut found: Option<(usize, u32)> = None;
            match preference {
                NormalizationPreference::PreferComposed => {
                    let mut head: usize = count;
                    while head > 0 && found.is_none()
                        invariant
                            head <= count == parts@.len(),
                            found is None ==> most_composed(*font, shaper, parts@, count as int)
                                == most_composed(*font, shaper, parts@, head as int),
                            found matches Some(pair) ==> pair.0 == most_composed(
                                *font,
                                shaper,
                                parts@,
                                count as int,
                            ) && 1 <= pair.0 <= count && Some(pair.1) == composed_prefix(
                                shaper,
                                parts@,
                                pair.0 as int,
                            ),
                        decreases head + (if found is None { 1int } else { 0int }),
                    {
                        match available_form(font, shaper, &parts, head) {
                            Some(first) => {
                                found = Some((head, first));
                            },
                            None => {
                                head -= 1;
                            },
                        }
                    }
                },
                _ => {
                    let mut tried: usize = 0;
                    while tried < count && found.is_none()
                        invariant
                            tried <= count,
                            count == parts@.len(),
                            found is None ==> most_decomposed(*font, shaper, parts@, 1)
                                == most_decomposed(*font, shaper, parts@, tried + 1),
                            found matches Some(pair) ==> pair.0 == most_decomposed(
                                *font,
                                shaper,
                                parts@,
                                1,
                            ) && 1 <= pair.0 <= count && Some(pair.1) == composed_prefix(
                                shaper,
                                parts@,
                                pair.0 as int,
                            ),
                        decreases count - tried + (if found is None { 1int } else { 0int }),
                    {
                        let head = tried + 1;
                        match available_form(font, shaper, &parts, head) {
                            Some(first) => {
                                found = Some((head, first));
                            },
                            None => {
                                tried += 1;
                            },
                        }
                    }
                },
            }
            match found {
                Some(pair) => {
                    assert(chosen == form(shaper, parts@, pair.0 as int));
                    emit_form(&source, pair.1, &parts, pair.0, out);
                    return ;
                },
                None => {
                    let decomposed = match preference {
                        NormalizationPreference::PreferDecomposed => !font.has_glyph(cp),
                        _ => true,
                    };
                    if decomposed {
                        assert(chosen == parts@);
                        assert(seq![parts@[0]] + parts@.subrange(1, parts@.len() as int)
                            =~= parts@);
                        emit_form(&source, parts[0], &parts, 1, out);
                        return ;
                    }
                },
            }
        }
    }
    assert(chosen == seq![cp]);
    let ghost glyphs = Seq::new(
        chosen.len(),
        |k: int| with_properties(GlyphInfo { codepoint: chosen[k], ..source }),
    );
    out.push(note_properties(&source));
    assert(source == GlyphInfo { codepoint: cp, ..source });
    assert(out@ =~= old(out)@ + glyphs);
}

/// Writes a run of marks in canonical order behind `out`.
fn reorder_run(
    level: BufferClusterLevel,
    input: &Vec<GlyphInfo>,
    at: usize,
    end: usize,
    out: &mut Vec<GlyphInfo>,
)
    requires
        at < end <= input@.len(),
    ensures
        final(out)@ == old(out)@ + reordered(input@.subrange(at as int, end as int), level),
{
    let ghost run = input@.subrange(at as int, end as int);
    let mut sorted: Vec<GlyphInfo> = Vec::new();
    let mut k: usize = at;
    while k < end
        invariant
            at <= k <= end <= input@.len(),
            run == input@.subrange(at as int, end as int),
            sorted@ == sorted_marks(run, k - at),
            sorted@.len() == k - at,
        decreases end - k,
    {
        let info = input[k];
        let mut place: usize = sorted.len();
        while place > 0 && sorted[place - 1].var2.b0 > info.var2.b0
            invariant
                place <= sorted@.len(),
                forall|j: int|
                    place <= j < sorted@.len() ==> (#[trigger] sorted@[j]).var2.b0 > info.var2.b0,
            decreases place,
        {
            place -= 1;
        }
        proof {
            lemma_inserted_at(sorted@, info, place as int);
            assert(run[k - at] == info);
        }
        sorted.insert(place, info);
        k += 1;
    }
    let mut same = true;
    let mut j: usize = 0;
    while j < sorted.len()
        invariant
            j <= sorted@.len(),
            at < end <= input@.len(),
            sorted@.len() == end - at,
            run == input@.subrange(at as int, end as int),
            same == (forall|i: int| 0 <= i < j ==> sorted@[i] == run[i]),
        decreases sorted@.len() - j,
    {
        assert(run[j as int] == input@[at + j]);
        if sorted[j] != input[at + j] {
            same = false;
        }
        j += 1;
    }
    assert(same == (sorted@ == run)) by {
        if same {
            assert(sorted@ =~= run);
        }
    }
    let merged = input[at].cluster;
    let mut j: usize = 0;
    let ghost emit = reordered(run, level);
    while j < sorted.len()
        invariant
            j <= sorted@.len(),
            at < end <= input@.len(),
            sorted@.len() == end - at,
            run == input@.subrange(at as int, end as int),
            sorted@ == sorted_marks(run, run.len() as int),
            same == (sorted@ == run),
            merged == run[0].cluster,
            emit == reordered(run, level),
            emit.len() == run.len(),
            out@ == old(out)@ + emit.take(j as int),
        decreases sorted@.len() - j,
    {
        let info = sorted[j];
        let cluster = if same {
            info.cluster
        } else {
            match level {
                BufferClusterLevel::Characters => input[at + j].cluster,
                _ => merged,
            }
        };
        assert(run[j as int] == input@[at + j]);
        out.push(
            GlyphInfo {
                codepoint: info.codepoint,
                mask: info.mask,
                cluster,
                var1: info.var1,
                var2: info.var2,
            },
        );
        j += 1;
        assert(out@ =~= old(out)@ + emit.take(j as int));
    }
    assert(emit.take(j as int) =~= emit);
}

/// What normalization works with: the plan of the run and the font.
pub struct hb_ot_shape_normalize_context_t<'a> {
    pub plan: &'a hb_ot_shape_plan_t,
    pub font: &'a hb_font_t,
}

impl<'a> hb_ot_shape_normalize_context_t<'a> {
    pub fn new(plan: &'a hb_ot_shape_plan_t, font: &'a hb_font_t) -> (context: Self)
        ensures
            *context.plan == *plan,
            *context.font == *font,
    {
        hb_ot_shape_normalize_context_t { plan, font }
    }

    /// The plan of the run.
    pub fn plan(&self) -> (plan: &'a hb_ot_shape_plan_t)
        ensures
            *plan == *self.plan,
    {
        self.plan
    }

    /// The font of the run.
    pub fn font(&self) -> (font: &'a hb_font_t)
        ensures
            *font == *self.font,
    {
        self.font
    }

    /// Normalizes the text of a buffer. The positions of the new run are all
    /// zero.
    pub fn normalize(&self, buffer: &mut hb_buffer_t)
        requires
            old(buffer).wf(),
        ensures
            final(buffer).wf(),
            final(buffer)@ == (BufferView {
                infos: normalized(
                    *self.font,
                    self.plan@.shaper,
                    old(buffer)@.cluster_level,
                    old(buffer)@.infos,
                ),
                positions: zero_positions(
                    normalized(
                        *self.font,
                        self.plan@.shaper,
                        old(buffer)@.cluster_level,
                        old(buffer)@.infos,
                    ).len(),
                ),
                ..old(buffer)@
            }),
            clusters_ascend(old(buffer)@.infos) ==> clusters_ascend(final(buffer)@.infos),
    {
        let shaper = self.plan.shaper;
        let preference = shaper.normalization_preference();
        let level = buffer.cluster_level;
        let ghost start = buffer@.infos;
        proof {
            if clusters_ascend(start) {
                lemma_normalized_ascends(*self.font, shaper, level, start);
            }
        }
        // The properties of the code points, and the graphemes.
        let count = buffer.info.len();
        let merge = match level {
            BufferClusterLevel::MonotoneGraphemes => true,
            _ => false,
        };
        let ghost noted = properties_noted(start);
        let ghost formed = if merge {
            graphemes_formed(noted)
        } else {
            noted
        };
        let mut i: usize = 0;
        while i < count
            invariant
                i <= count == start.len(),
                buffer.info@.len() == count,
                buffer.wf(),
                buffer@.positions == old(buffer)@.positions,
                buffer@.props == old(buffer)@.props,
                buffer@.cluster_level == old(buffer)@.cluster_level,
                buffer@.content == old(buffer)@.content,
                buffer@.default_language == old(buffer)@.default_language,
                noted == properties_noted(start),
                formed == (if merge {
                    graphemes_formed(noted)
                } else {
                    noted
                }),
                forall|k: int| 0 <= k < i ==> buffer.info@[k] == formed[k],
                forall|k: int| i <= k < count ==> buffer.info@[k] == start[k],
            decreases count - i,
        {
            let mut info = note_properties(&buffer.info[i]);
            if merge && i > 0 && info.is_mark() {
                info.cluster = buffer.info[i - 1].cluster;
            }
            proof {
                assert(noted[i as int] == with_properties(start[i as int]));
                if merge {
                    assert(formed[i as int].cluster == grapheme_cluster(noted, i as int));
                    if i > 0 {
                        assert(formed[i - 1].cluster == grapheme_cluster(noted, i - 1));
                    }
                }
                assert(info == formed[i as int]);
            }
            buffer.info.set(i, info);
            i += 1;
        }
        assert(buffer.info@ =~= formed);
        // Every code point in its chosen form.
        let ghost decompose = decomposing(*self.font, shaper, preference);
        let mut out = buffer.begin_pass();
        let mut at: usize = 0;
        while at < count
            invariant
                at <= count == formed.len(),
                buffer.info@ == formed,
                buffer.wf(),
                buffer@.props == old(buffer)@.props,
                buffer@.cluster_level == old(buffer)@.cluster_level,
                buffer@.content == old(buffer)@.content,
                buffer@.default_language == old(buffer)@.default_language,
                decompose == decomposing(*self.font, shaper, preference),
                out@ + scan(decompose, formed, at as int) == scan(decompose, formed, 0),
            decreases count - at,
        {
            let ghost before = out@;
            decompose_at(self.font, shaper, preference, &buffer.info, at, &mut out);
            proof {
                lemma_scan_step(decompose, formed, at as int, before, out@);
            }
            at += 1;
        }
        assert(out@ =~= scan(decompose, formed, 0));
        buffer.end_pass(out);
        // The marks in canonical order.
        let ghost decomposed = buffer@.infos;
        let ghost reorder = reordering(level);
        let mut out = buffer.begin_pass();
        let count = buffer.info.len();
        let mut at: usize = 0;
        while at < count
            invariant
                at <= count == decomposed.len(),
                buffer.info@ == decomposed,
                buffer.wf(),
                buffer@.props == old(buffer)@.props,
                buffer@.cluster_level == old(buffer)@.cluster_level,
                buffer@.content == old(buffer)@.content,
                buffer@.default_language == old(buffer)@.default_language,
                reorder == reordering(level),
                out@ + scan(reorder, decomposed, at as int) == scan(reorder, decomposed, 0),
            decreases count - at,
        {
            let ghost before = out@;
            if buffer.info[at].var2.b0 == 0 {
                out.push(buffer.info[at]);
                assert(out@ =~= before + seq![decomposed[at as int]]);
                proof {
                    lemma_scan_step(reorder, decomposed, at as int, before, out@);
                }
                at += 1;
            } else {
                let mut end: usize = at + 1;
                while end < count && buffer.info[end].var2.b0 != 0
                    invariant
                        at < end <= count == decomposed.len(),
                        buffer.info@ == decomposed,
                        run_end(decomposed, at as int) == run_end(decomposed, end as int),
                    decreases count - end,
                {
                    end += 1;
                }
                reorder_run(level, &buffer.info, at, end, &mut out);
                proof {
                    lemma_scan_step(reorder, decomposed, at as int, before, out@);
                }
                at = end;
            }
        }
        assert(out@ =~= scan(reorder, decomposed, 0));
        buffer.end_pass(out);
    }
}

} // verus!
