//! Substitution: what one lookup of the substitution table does to a run.
use vstd::prelude::*;
use crate::buffer::{
    CLASS_JOINER, CLASS_NON_JOINER, GLYPH_LIGATED, GLYPH_MULTIPLIED, GLYPH_SUBSTITUTED, GlyphInfo,
    clusters_ascend, hb_buffer_t, BufferView, zero_positions,
};
use crate::common::hb_var_int_t;
use crate::face::{LookupRule, hb_face_t};
use crate::map::hb_ot_map_lookup_map_t;
use crate::scan::{
    Step, left, lemma_scan_ascends, lemma_scan_keeps_masks, lemma_scan_step, masks_follow, scan,
    step_in_order, step_used,
};

verus! {

/// The glyph has every bit of the mask set.
pub open spec fn enabled(info: GlyphInfo, mask: u32) -> bool {
    info.mask & mask == mask
}

/// A lookup steps over the glyph while it looks for the parts of a
/// ligature: over a joiner unless its feature handles joiners itself, over a
/// non-joiner only if its feature handles non-joiners itself.
pub open spec fn stepped_over(info: GlyphInfo, record: hb_ot_map_lookup_map_t) -> bool {
    (info.character_class() == CLASS_JOINER && record.auto_zwj) || (info.character_class()
        == CLASS_NON_JOINER && !record.auto_zwnj)
}

/// The glyph with another glyph id in its place, and with a note of what
/// substitution did.
pub open spec fn replaced(info: GlyphInfo, glyph: u32, flags: u8) -> GlyphInfo {
    GlyphInfo {
        codepoint: glyph,
        var1: hb_var_int_t { b0: info.var1.b0 | flags, ..info.var1 },
        ..info
    }
}

/// The number that the bits of a mask hold, read from the lowest bit of the
/// mask up.
pub open spec fn field_value(bits: u32, mask: u32) -> u32
    decreases mask,
{
    if mask == 0 {
        0
    } else if mask % 2 == 1 {
        bits
    } else {
        field_value(bits / 2, mask / 2)
    }
}

/// Which of `count` alternates a lookup picks for a glyph; -1 for none. A
/// lookup that picks by glyph takes the sum of cluster and glyph id modulo
/// the count; any other takes the value that the glyph holds in the bits of
/// the lookup, where one stands for the first alternate.
pub open spec fn alternate_index(
    info: GlyphInfo,
    record: hb_ot_map_lookup_map_t,
    count: int,
) -> int {
    if count <= 0 {
        -1
    } else if record.random {
        (info.cluster + info.codepoint) % count
    } else {
        let value = field_value(info.mask & record.mask, record.mask);
        if 1 <= value <= count {
            value - 1
        } else {
            -1
        }
    }
}

/// Where the parts of a ligature from the `part`-th on, sought from `from`
/// on, come to an end: the index behind the last part; -1 where a part is
/// missing.
pub open spec fn ligature_end(
    input: Seq<GlyphInfo>,
    record: hb_ot_map_lookup_map_t,
    components: Seq<u32>,
    part: int,
    from: int,
) -> int
    decreases left(input, from),
{
    if part >= components.len() {
        from
    } else if from < 0 || from >= input.len() {
        -1
    } else if stepped_over(input[from], record) {
        ligature_end(input, record, components, part, from + 1)
    } else if enabled(input[from], record.mask) && input[from].codepoint == components[part] {
        ligature_end(input, record, components, part + 1, from + 1)
    } else {
        -1
    }
}

/// The glyphs between `from` and `to` that a lookup stepped over, now in the
/// cluster, and with the mask, of the first glyph of the ligature.
pub open spec fn carried(
    input: Seq<GlyphInfo>,
    record: hb_ot_map_lookup_map_t,
    first: GlyphInfo,
    from: int,
    to: int,
) -> Seq<GlyphInfo>
    decreases to - from,
{
    if from >= to {
        Seq::empty()
    } else if stepped_over(input[to - 1], record) {
        carried(input, record, first, from, to - 1).push(
            GlyphInfo { cluster: first.cluster, mask: first.mask, ..input[to - 1] },
        )
    } else {
        carried(input, record, first, from, to - 1)
    }
}

/// The step that leaves a glyph as it is.
pub open spec fn kept(input: Seq<GlyphInfo>, at: int) -> Step {
    Step { emit: seq![input[at]], used: 1 }
}

/// Where the ligature that starts at `at` ends; -1 where none starts there.
pub open spec fn ligature_span(
    input: Seq<GlyphInfo>,
    record: hb_ot_map_lookup_map_t,
    components: Seq<u32>,
    at: int,
) -> int {
    if components.len() > 0 && enabled(input[at], record.mask) && input[at].codepoint
        == components[0] {
        ligature_end(input, record, components, 1, at + 1)
    } else {
        -1
    }
}

/// The glyphs that stand in place of one glyph that was taken apart.
pub open spec fn multiplied(info: GlyphInfo, sequence: Seq<u32>) -> Seq<GlyphInfo> {
    Seq::new(
        sequence.len(),
        |k: int| replaced(info, sequence[k], GLYPH_SUBSTITUTED | GLYPH_MULTIPLIED),
    )
}

/// Whether a rule matches at a place of a run.
pub open spec fn rule_matches(
    rule: LookupRule,
    record: hb_ot_map_lookup_map_t,
    input: Seq<GlyphInfo>,
    at: int,
) -> bool {
    match rule {
        LookupRule::Single { glyph, substitute } => enabled(input[at], record.mask)
            && input[at].codepoint == glyph,
        LookupRule::Multiple { glyph, sequence } => enabled(input[at], record.mask)
            && input[at].codepoint == glyph,
        LookupRule::Alternate { glyph, alternates } => enabled(input[at], record.mask)
            && input[at].codepoint == glyph && alternate_index(
            input[at],
            record,
            alternates@.len() as int,
        ) >= 0,
        LookupRule::Ligature { components, ligature } => ligature_span(
            input,
            record,
            components@,
            at,
        ) > at,
        _ => false,
    }
}

/// What a rule does at a place where it matches. A single substitution and
/// an alternate put one glyph in place of one; a multiple substitution puts
/// a run of glyphs in place of one; a ligature puts one glyph in place of
/// its parts and keeps the glyphs that it stepped over behind it. Every new
/// glyph has the cluster and the mask of the first glyph that it stands for.
pub open spec fn rule_step(
    rule: LookupRule,
    record: hb_ot_map_lookup_map_t,
    input: Seq<GlyphInfo>,
    at: int,
) -> Step {
    match rule {
        LookupRule::Single { glyph, substitute } => Step {
            emit: seq![replaced(input[at], substitute, GLYPH_SUBSTITUTED)],
            used: 1,
        },
        LookupRule::Multiple { glyph, sequence } => Step {
            emit: multiplied(input[at], sequence@),
            used: 1,
        },
        LookupRule::Alternate { glyph, alternates } => Step {
            emit: seq![
                replaced(
                    input[at],
                    alternates@[alternate_index(input[at], record, alternates@.len() as int)],
                    GLYPH_SUBSTITUTED,
                ),
            ],
            used: 1,
        },
        LookupRule::Ligature { components, ligature } => Step {
            emit: seq![replaced(input[at], ligature, GLYPH_SUBSTITUTED | GLYPH_LIGATED)] + carried(
                input,
                record,
                input[at],
                at + 1,
                ligature_span(input, record, components@, at),
            ),
            used: ligature_span(input, record, components@, at) - at,
        },
        _ => kept(input, at),
    }
}

/// The index of the first rule from `from` on that matches at a place; -1
/// if none does.
pub open spec fn first_match(
    rules: Seq<LookupRule>,
    record: hb_ot_map_lookup_map_t,
    input: Seq<GlyphInfo>,
    at: int,
    from: int,
) -> int
    decreases rules.len() - from,
{
    if from < 0 || from >= rules.len() {
        -1
    } else if rule_matches(rules[from], record, input, at) {
        from
    } else {
        first_match(rules, record, input, at, from + 1)
    }
}

/// What the rules of a lookup do at a place of a run: the first rule that
/// matches there acts; where none matches the glyph stays as it is.
pub open spec fn substitute_step(
    rules: Seq<LookupRule>,
    record: hb_ot_map_lookup_map_t,
    input: Seq<GlyphInfo>,
    at: int,
) -> Step {
    let first = first_match(rules, record, input, at, 0);
    if first >= 0 {
        rule_step(rules[first], record, input, at)
    } else {
        kept(input, at)
    }
}

/// The steps of the rules of a lookup.
pub open spec fn substitution(rules: Seq<LookupRule>, record: hb_ot_map_lookup_map_t) -> spec_fn(
    Seq<GlyphInfo>,
    int,
) -> Step {
    |input: Seq<GlyphInfo>, at: int| substitute_step(rules, record, input, at)
}

/// Whether a rule matches anywhere as the lookup passes over a run from
/// `from` on.
pub open spec fn matches_from(
    rules: Seq<LookupRule>,
    record: hb_ot_map_lookup_map_t,
    input: Seq<GlyphInfo>,
    from: int,
) -> bool
    decreases left(input, from),
{
    if from < 0 || from >= input.len() {
        false
    } else {
        first_match(rules, record, input, from, 0) >= 0 || matches_from(
            rules,
            record,
            input,
            from + step_used(substitute_step(rules, record, input, from).used),
        )
    }
}

/// The run after a lookup of the substitution table passed over it. A
/// lookup that the face does not have changes nothing.
pub open spec fn lookup_applied(
    face: hb_face_t,
    record: hb_ot_map_lookup_map_t,
    input: Seq<GlyphInfo>,
) -> Seq<GlyphInfo> {
    if record.index < face.gsub@.len() {
        scan(substitution(face.gsub@[record.index as int].rules@, record), input, 0)
    } else {
        input
    }
}

/// Whether a lookup of the substitution table matches anywhere in a run.
pub open spec fn lookup_matches(
    face: hb_face_t,
    record: hb_ot_map_lookup_map_t,
    input: Seq<GlyphInfo>,
) -> bool {
    record.index < face.gsub@.len() && matches_from(
        face.gsub@[record.index as int].rules@,
        record,
        input,
        0,
    )
}

/// The parts of a ligature end inside the run, behind the place where the
/// search for them started.
pub proof fn lemma_ligature_end_range(
    input: Seq<GlyphInfo>,
    record: hb_ot_map_lookup_map_t,
    components: Seq<u32>,
    part: int,
    from: int,
)
    requires
        0 <= from <= input.len(),
    ensures
        ligature_end(input, record, components, part, from) == -1 || from <= ligature_end(
            input,
            record,
            components,
            part,
            from,
        ) <= input.len(),
    decreases left(input, from),
{
    if part < components.len() && from < input.len() {
        if stepped_over(input[from], record) {
            lemma_ligature_end_range(input, record, components, part, from + 1);
        } else if enabled(input[from], record.mask) && input[from].codepoint == components[part] {
            lemma_ligature_end_range(input, record, components, part + 1, from + 1);
        }
    }
}

/// The glyphs that a lookup stepped over all have the cluster and the mask
/// of the first glyph of the ligature.
pub proof fn lemma_carried_follow_first(
    input: Seq<GlyphInfo>,
    record: hb_ot_map_lookup_map_t,
    first: GlyphInfo,
    from: int,
    to: int,
)
    ensures
        forall|k: int|
            0 <= k < carried(input, record, first, from, to).len() ==> (#[trigger] carried(
                input,
                record,
                first,
                from,
                to,
            )[k]).cluster == first.cluster && carried(input, record, first, from, to)[k].mask
                == first.mask,
    decreases to - from,
{
    if from < to {
        lemma_carried_follow_first(input, record, first, from, to - 1);
        let all = carried(input, record, first, from, to);
        let before = carried(input, record, first, from, to - 1);
        assert forall|k: int| 0 <= k < all.len() implies (#[trigger] all[k]).cluster
            == first.cluster && all[k].mask == first.mask by {
            if k < before.len() {
                assert(all[k] == before[k]);
            }
        }
    }
}

/// A rule that was found by `first_match` is a rule of the lookup that
/// matches.
pub proof fn lemma_first_match_range(
    rules: Seq<LookupRule>,
    record: hb_ot_map_lookup_map_t,
    input: Seq<GlyphInfo>,
    at: int,
    from: int,
)
    requires
        0 <= from,
    ensures
        first_match(rules, record, input, at, from) == -1 || (from <= first_match(
            rules,
            record,
            input,
            at,
            from,
        ) < rules.len() && rule_matches(
            rules[first_match(rules, record, input, at, from)],
            record,
            input,
            at,
        )),
    decreases rules.len() - from,
{
    if from < rules.len() && !rule_matches(rules[from], record, input, at) {
        lemma_first_match_range(rules, record, input, at, from + 1);
    }
}

/// Every glyph that a rule writes where it matches has the cluster and the
/// mask of the glyph at which it matches, and the rule stays inside the
/// run.
pub proof fn lemma_rule_follows_first(
    rule: LookupRule,
    record: hb_ot_map_lookup_map_t,
    input: Seq<GlyphInfo>,
    at: int,
)
    requires
        0 <= at < input.len(),
        rule_matches(rule, record, input, at),
    ensures
        1 <= rule_step(rule, record, input, at).used,
        at + rule_step(rule, record, input, at).used <= input.len(),
        forall|k: int|
            0 <= k < rule_step(rule, record, input, at).emit.len() ==> (#[trigger] rule_step(
                rule,
                record,
                input,
                at,
            ).emit[k]).cluster == input[at].cluster && rule_step(rule, record, input, at).emit[k].mask
                == input[at].mask,
{
    match rule {
        LookupRule::Ligature { components, ligature } => {
            let end = ligature_span(input, record, components@, at);
            lemma_ligature_end_range(input, record, components@, 1, at + 1);
            lemma_carried_follow_first(input, record, input[at], at + 1, end);
        },
        _ => {},
    }
}

/// Every glyph that a step writes has the cluster and the mask of the glyph
/// at which the step stands, and the step stays inside the run.
pub proof fn lemma_step_follows_first(
    rules: Seq<LookupRule>,
    record: hb_ot_map_lookup_map_t,
    input: Seq<GlyphInfo>,
    at: int,
)
    requires
        0 <= at < input.len(),
    ensures
        at + step_used(substitute_step(rules, record, input, at).used) <= input.len(),
        forall|k: int|
            0 <= k < substitute_step(rules, record, input, at).emit.len() ==> (
            #[trigger] substitute_step(rules, record, input, at).emit[k]).cluster
                == input[at].cluster && substitute_step(rules, record, input, at).emit[k].mask
                == input[at].mask,
{
    let first = first_match(rules, record, input, at, 0);
    lemma_first_match_range(rules, record, input, at, 0);
    if first >= 0 {
        lemma_rule_follows_first(rules[first], record, input, at);
    }
}

/// Substitution keeps ascending cluster ids ascending, and masks that
/// follow the clusters following them.
pub proof fn lemma_substitution_keeps_order(
    rules: Seq<LookupRule>,
    record: hb_ot_map_lookup_map_t,
    input: Seq<GlyphInfo>,
    of_cluster: spec_fn(u32) -> u32,
)
    requires
        clusters_ascend(input),
    ensures
        clusters_ascend(scan(substitution(rules, record), input, 0)),
        masks_follow(input, of_cluster) ==> masks_follow(
            scan(substitution(rules, record), input, 0),
            of_cluster,
        ),
{
    let step = substitution(rules, record);
    assert forall|at: int| 0 <= at < input.len() implies step_in_order(
        #[trigger] step(input, at),
        input,
        at,
    ) by {
        lemma_step_follows_first(rules, record, input, at);
    }
    lemma_scan_ascends(step, input, 0);
    if masks_follow(input, of_cluster) {
        assert forall|at: int| 0 <= at < input.len() implies masks_follow(
            (#[trigger] step(input, at)).emit,
            of_cluster,
        ) by {
            lemma_step_follows_first(rules, record, input, at);
        }
        lemma_scan_keeps_masks(step, input, of_cluster, 0);
    }
}

/// Whether the glyph has every bit of the mask set.
pub fn is_enabled(info: &GlyphInfo, mask: u32) -> (yes: bool)
    ensures
        yes == enabled(*info, mask),
{
    info.mask & mask == mask
}

fn is_stepped_over(info: &GlyphInfo, record: &hb_ot_map_lookup_map_t) -> (yes: bool)
    ensures
        yes == stepped_over(*info, *record),
{
    (info.var2.b1 == CLASS_JOINER && record.auto_zwj) || (info.var2.b1 == CLASS_NON_JOINER
        && !record.auto_zwnj)
}

fn replace_glyph(info: &GlyphInfo, glyph: u32, flags: u8) -> (out: GlyphInfo)
    ensures
        out == replaced(*info, glyph, flags),
{
    GlyphInfo {
        codepoint: glyph,
        mask: info.mask,
        cluster: info.cluster,
        var1: hb_var_int_t {
            b0: info.var1.b0 | flags,
            b1: info.var1.b1,
            b2: info.var1.b2,
            b3: info.var1.b3,
        },
        var2: info.var2,
    }
}

/// Reads the number that the bits of a mask hold.
pub fn read_field(bits: u32, mask: u32) -> (value: u32)
    ensures
        value == field_value(bits, mask),
{
    let mut rest: u32 = bits;
    let mut left_mask: u32 = mask;
    while left_mask != 0 && left_mask % 2 == 0
        invariant
            field_value(rest, left_mask) == field_value(bits, mask),
        decreases left_mask,
    {
        rest = rest / 2;
        left_mask = left_mask / 2;
    }
    if left_mask == 0 {
        0
    } else {
        rest
    }
}

fn pick_alternate(
    info: &GlyphInfo,
    record: &hb_ot_map_lookup_map_t,
    count: usize,
) -> (pick: Option<usize>)
    ensures
        match pick {
            Some(index) => index == alternate_index(*info, *record, count as int) && index < count,
            None => alternate_index(*info, *record, count as int) == -1,
        },
{
    if count == 0 {
        None
    } else if record.random {
        let sum: u64 = info.cluster as u64 + info.codepoint as u64;
        Some((sum % (count as u64)) as usize)
    } else {
        let value = read_field(info.mask & record.mask, record.mask);
        if 1 <= value && value as usize <= count {
            Some((value - 1) as usize)
        } else {
            None
        }
    }
}

fn find_ligature_end(
    input: &Vec<GlyphInfo>,
    record: &hb_ot_map_lookup_map_t,
    components: &Vec<u32>,
    at: usize,
) -> (end: Option<usize>)
    requires
        at < input@.len(),
    ensures
        match end {
            Some(e) => e == ligature_span(input@, *record, components@, at as int) && at < e
                <= input@.len(),
            None => ligature_span(input@, *record, components@, at as int) == -1,
        },
{
    if components.len() == 0 || !is_enabled(&input[at], record.mask) || input[at].codepoint
        != components[0] {
        return None;
    }
    let count = input.len();
    let mut part: usize = 1;
    let mut from: usize = at + 1;
    while part < components.len()
        invariant
            1 <= part <= components@.len(),
            at < from <= input@.len(),
            ligature_end(input@, *record, components@, 1, at + 1) == ligature_end(
                input@,
                *record,
                components@,
                part as int,
                from as int,
            ),
        decreases input@.len() - from,
    {
        if from >= input.len() {
            return None;
        }
        if is_stepped_over(&input[from], record) {
            from += 1;
        } else if is_enabled(&input[from], record.mask) && input[from].codepoint
            == components[part] {
            part += 1;
            from += 1;
        } else {
            return None;
        }
    }
    Some(from)
}

/// Does what a rule says at a place of a run if the rule matches there:
/// writes the outcome behind `out` and returns the number of glyphs that it
/// used up. A rule that does not match writes nothing.
fn try_rule(
    rule: &LookupRule,
    record: &hb_ot_map_lookup_map_t,
    input: &Vec<GlyphInfo>,
    at: usize,
    out: &mut Vec<GlyphInfo>,
) -> (used: Option<usize>)
    requires
        at < input@.len(),
    ensures
        match used {
            Some(count) => {
                &&& rule_matches(*rule, *record, input@, at as int)
                &&& final(out)@ == old(out)@ + rule_step(*rule, *record, input@, at as int).emit
                &&& count == rule_step(*rule, *record, input@, at as int).used
                &&& 1 <= count
                &&& at + count <= input@.len()
            },
            None => !rule_matches(*rule, *record, input@, at as int) && final(out)@ == old(out)@,
        },
{
    let info = input[at];
    match rule {
        LookupRule::Single { glyph, substitute } => {
            if is_enabled(&info, record.mask) && info.codepoint == *glyph {
                out.push(replace_glyph(&info, *substitute, GLYPH_SUBSTITUTED));
                assert(out@ =~= old(out)@ + seq![replaced(info, *substitute, GLYPH_SUBSTITUTED)]);
                return Some(1);
            }
        },
        LookupRule::Multiple { glyph, sequence } => {
            if is_enabled(&info, record.mask) && info.codepoint == *glyph {
                let ghost emit = multiplied(info, sequence@);
                let mut k: usize = 0;
                while k < sequence.len()
                    invariant
                        k <= sequence@.len(),
                        emit == multiplied(info, sequence@),
                        out@ == old(out)@ + emit.take(k as int),
                    decreases sequence@.len() - k,
                {
                    out.push(
                        replace_glyph(&info, sequence[k], GLYPH_SUBSTITUTED | GLYPH_MULTIPLIED),
                    );
                    k += 1;
                    assert(out@ =~= old(out)@ + emit.take(k as int));
                }
                assert(emit.take(k as int) =~= emit);
                return Some(1);
            }
        },
        LookupRule::Alternate { glyph, alternates } => {
            if is_enabled(&info, record.mask) && info.codepoint == *glyph {
                match pick_alternate(&info, record, alternates.len()) {
                    Some(index) => {
                        out.push(replace_glyph(&info, alternates[index], GLYPH_SUBSTITUTED));
                        assert(out@ =~= old(out)@ + seq![
                            replaced(info, alternates@[index as int], GLYPH_SUBSTITUTED),
                        ]);
                        return Some(1);
                    },
                    None => {},
                }
            }
        },
        LookupRule::Ligature { components, ligature } => {
            match find_ligature_end(input, record, components, at) {
                Some(end) => {
                    let joined = replace_glyph(
                        &info,
                        *ligature,
                        GLYPH_SUBSTITUTED | GLYPH_LIGATED,
                    );
                    out.push(joined);
                    let mut from: usize = at + 1;
                    while from < end
                        invariant
                            at < from <= end <= input@.len(),
                            info == input@[at as int],
                            out@ == old(out)@ + (seq![joined] + carried(
                                input@,
                                *record,
                                info,
                                at + 1,
                                from as int,
                            )),
                        decreases end - from,
                    {
                        if is_stepped_over(&input[from], record) {
                            let passed = input[from];
                            out.push(
                                GlyphInfo {
                                    codepoint: passed.codepoint,
                                    mask: info.mask,
                                    cluster: info.cluster,
                                    var1: passed.var1,
                                    var2: passed.var2,
                                },
                            );
                        }
                        from += 1;
                        assert(out@ =~= old(out)@ + (seq![joined] + carried(
                            input@,
                            *record,
                            info,
                            at + 1,
                            from as int,
                        )));
                    }
                    return Some(end - at);
                },
                None => {},
            }
        },
        _ => {},
    }
    None
}

/// Does at one place of a run what the rules of a lookup say, writes the
/// outcome behind `out`, and returns the number of glyphs that it used up
/// and whether a rule matched.
pub fn substitute_at(
    rules: &Vec<LookupRule>,
    record: &hb_ot_map_lookup_map_t,
    input: &Vec<GlyphInfo>,
    at: usize,
    out: &mut Vec<GlyphInfo>,
) -> (done: (usize, bool))
    requires
        at < input@.len(),
    ensures
        final(out)@ == old(out)@ + substitute_step(rules@, *record, input@, at as int).emit,
        done.0 == step_used(substitute_step(rules@, *record, input@, at as int).used),
        at + done.0 <= input@.len(),
        done.1 == (first_match(rules@, *record, input@, at as int, 0) >= 0),
{
    let mut k: usize = 0;
    while k < rules.len()
        invariant
            k <= rules@.len(),
            at < input@.len(),
            out@ == old(out)@,
            first_match(rules@, *record, input@, at as int, 0) == first_match(
                rules@,
                *record,
                input@,
                at as int,
                k as int,
            ),
        decreases rules@.len() - k,
    {
        match try_rule(&rules[k], record, input, at, out) {
            Some(used) => {
                return (used, true);
            },
            None => {},
        }
        k += 1;
    }
    out.push(input[at]);
    assert(out@ =~= old(out)@ + seq![input@[at as int]]);
    (1, false)
}

/// Passes a lookup of the substitution table over the run and says whether
/// it matched anywhere. The positions of the new run are all zero.
pub fn apply_lookup(
    face: &hb_face_t,
    record: &hb_ot_map_lookup_map_t,
    buffer: &mut hb_buffer_t,
) -> (matched: bool)
    ensures
        final(buffer).wf(),
        final(buffer)@ == (BufferView {
            infos: lookup_applied(*face, *record, old(buffer)@.infos),
            positions: zero_positions(lookup_applied(*face, *record, old(buffer)@.infos).len()),
            ..old(buffer)@
        }),
        matched == lookup_matches(*face, *record, old(buffer)@.infos),
{
    if record.index as usize >= face.gsub.len() {
        let count = buffer.info.len();
        let mut out = buffer.begin_pass();
        let mut i: usize = 0;
        while i < count
            invariant
                i <= count,
                count == buffer.info@.len(),
                buffer@ == old(buffer)@,
                out@ == buffer.info@.take(i as int),
            decreases count - i,
        {
            out.push(buffer.info[i]);
            i += 1;
            assert(out@ =~= buffer.info@.take(i as int));
        }
        assert(out@ =~= old(buffer)@.infos);
        buffer.end_pass(out);
        return false;
    }
    let rules = &face.gsub[record.index as usize].rules;
    let ghost step = substitution(rules@, *record);
    let ghost input = buffer@.infos;
    let mut out = buffer.begin_pass();
    let mut matched = false;
    let mut at: usize = 0;
    while at < buffer.info.len()
        invariant
            at <= input.len(),
            buffer@ == old(buffer)@,
            input == old(buffer)@.infos,
            buffer.info@ == input,
            step == substitution(rules@, *record),
            out@ + scan(step, input, at as int) == scan(step, input, 0),
            (matched || matches_from(rules@, *record, input, at as int)) == matches_from(
                rules@,
                *record,
                input,
                0,
            ),
        decreases input.len() - at,
    {
        let ghost before = out@;
        let done = substitute_at(rules, record, &buffer.info, at, &mut out);
        proof {
            lemma_scan_step(step, input, at as int, before, out@);
        }
        if done.1 {
            matched = true;
        }
        at += done.0;
    }
    assert(out@ =~= scan(step, input, 0));
    buffer.end_pass(out);
    matched
}

} // verus!
