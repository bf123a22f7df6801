//! Positioning: the advances that the font gives the glyphs, what the
//! lookups of the positioning table change about them, and where the marks
//! go.
use vstd::prelude::*;
use crate::buffer::{BufferView, GlyphInfo, GlyphPosition, hb_buffer_t};
use crate::common::{Direction, hb_var_int_t};
use crate::face::{LookupRule, hb_face_t, hb_font_t};
use crate::map::hb_ot_map_lookup_map_t;
use crate::substitute::{enabled, is_enabled};

verus! {

/// The farthest that a mark stands behind its base.
pub const MAX_ATTACH_DISTANCE: usize = 0xFFFF;

/// A number as a coordinate; one outside the range of coordinates becomes
/// the nearest coordinate.
pub open spec fn clamp32(value: int) -> i32 {
    if value > i32::MAX {
        i32::MAX
    } else if value < i32::MIN {
        i32::MIN
    } else {
        value as i32
    }
}

/// Half of a number, rounded towards zero.
pub open spec fn half(value: int) -> int {
    if value >= 0 {
        value / 2
    } else {
        -((-value) / 2)
    }
}

/// The position that the font gives a glyph: its horizontal advance in a
/// horizontal run, its vertical advance in a vertical one, and no offset.
pub open spec fn default_position(
    font: hb_font_t,
    direction: Direction,
    info: GlyphInfo,
) -> GlyphPosition {
    GlyphPosition {
        x_advance: if direction.vertical() {
            0
        } else {
            font.horizontal_advance(info.codepoint)
        },
        y_advance: if direction.vertical() {
            font.vertical_advance(info.codepoint)
        } else {
            0
        },
        x_offset: 0,
        y_offset: 0,
        var: hb_var_int_t { b0: 0, b1: 0, b2: 0, b3: 0 },
    }
}

/// The positions that the font gives the glyphs of a run.
pub open spec fn default_positions(
    font: hb_font_t,
    direction: Direction,
    infos: Seq<GlyphInfo>,
) -> Seq<
    GlyphPosition,
> {
    Seq::new(infos.len(), |i: int| default_position(font, direction, infos[i]))
}

/// The index of the nearest glyph before `at` that is no mark; -1 if there
/// is none.
pub open spec fn base_before(infos: Seq<GlyphInfo>, at: int) -> int
    decreases at,
{
    if at <= 0 {
        -1
    } else if !infos[at - 1].mark() {
        at - 1
    } else {
        base_before(infos, at - 1)
    }
}

/// The position of a mark that is attached to the glyph `distance` places
/// before it: the mark does not move the pen, and its offsets are counted
/// from the origin of that glyph.
pub open spec fn attached(position: GlyphPosition, distance: int, x: i32, y: i32) -> GlyphPosition {
    GlyphPosition {
        x_advance: 0,
        y_advance: 0,
        x_offset: x,
        y_offset: y,
        var: hb_var_int_t {
            b0: (distance % 0x100) as u8,
            b1: (distance / 0x100) as u8,
            ..position.var
        },
    }
}

/// Whether the glyph at `at` is a mark with a base near enough before it.
pub open spec fn has_base(infos: Seq<GlyphInfo>, at: int) -> bool {
    infos[at].mark() && base_before(infos, at) >= 0 && at - base_before(infos, at)
        <= MAX_ATTACH_DISTANCE
}

/// Where a mark goes when no lookup places it: onto the nearest glyph before
/// it that is no mark, centred on the advance of that glyph. Any other glyph
/// stays.
pub open spec fn fallback_position(
    vertical: bool,
    infos: Seq<GlyphInfo>,
    positions: Seq<GlyphPosition>,
    at: int,
) -> GlyphPosition {
    let base = base_before(infos, at);
    if has_base(infos, at) {
        attached(
            positions[at],
            at - base,
            if vertical {
                0
            } else {
                half(positions[base].x_advance - positions[at].x_advance) as i32
            },
            if vertical {
                half(positions[base].y_advance - positions[at].y_advance) as i32
            } else {
                0
            },
        )
    } else {
        positions[at]
    }
}

/// The positions of a run after the marks were placed without a lookup.
pub open spec fn fallback_positions(
    vertical: bool,
    infos: Seq<GlyphInfo>,
    positions: Seq<GlyphPosition>,
) -> Seq<GlyphPosition> {
    Seq::new(positions.len(), |i: int| fallback_position(vertical, infos, positions, i))
}

/// Whether a rule of the positioning table matches at a place.
pub open spec fn position_matches(
    rule: LookupRule,
    record: hb_ot_map_lookup_map_t,
    infos: Seq<GlyphInfo>,
    at: int,
) -> bool {
    match rule {
        LookupRule::Adjust { glyph, x_placement, y_placement, x_advance, y_advance } => enabled(
            infos[at],
            record.mask,
        ) && infos[at].codepoint == glyph,
        LookupRule::Pair { first, second, x_advance } => enabled(infos[at], record.mask)
            && infos[at].codepoint == first && at + 1 < infos.len() && infos[at + 1].codepoint
            == second,
        LookupRule::MarkToBase { mark, base, x_offset, y_offset } => enabled(
            infos[at],
            record.mask,
        ) && infos[at].codepoint == mark && has_base(infos, at) && infos[base_before(
            infos,
            at,
        )].codepoint == base,
        _ => false,
    }
}

/// The position of a glyph after a rule of the positioning table that
/// matches at its place. An adjustment moves the glyph and adds to its
/// advances; a pair rule adds to the advance of the first glyph of its pair;
/// a mark rule attaches the mark to the nearest glyph before it that is no
/// mark.
pub open spec fn rule_position(
    rule: LookupRule,
    infos: Seq<GlyphInfo>,
    position: GlyphPosition,
    at: int,
) -> GlyphPosition {
    match rule {
        LookupRule::Adjust { glyph, x_placement, y_placement, x_advance, y_advance } => GlyphPosition {
            x_advance: clamp32(position.x_advance + x_advance),
            y_advance: clamp32(position.y_advance + y_advance),
            x_offset: clamp32(position.x_offset + x_placement),
            y_offset: clamp32(position.y_offset + y_placement),
            ..position
        },
        LookupRule::Pair { first, second, x_advance } => GlyphPosition {
            x_advance: clamp32(position.x_advance + x_advance),
            ..position
        },
        LookupRule::MarkToBase { mark, base, x_offset, y_offset } => attached(
            position,
            at - base_before(infos, at),
            x_offset,
            y_offset,
        ),
        _ => position,
    }
}

/// The index of the first rule from `from` on that matches at a place; -1
/// if none does.
pub open spec fn first_position_match(
    rules: Seq<LookupRule>,
    record: hb_ot_map_lookup_map_t,
    infos: Seq<GlyphInfo>,
    at: int,
    from: int,
) -> int
    decreases rules.len() - from,
{
    if from < 0 || from >= rules.len() {
        -1
    } else if position_matches(rules[from], record, infos, at) {
        from
    } else {
        first_position_match(rules, record, infos, at, from + 1)
    }
}

/// The position of a glyph after the rules of a lookup: the first rule that
/// matches at its place acts; where none matches the position stays.
pub open spec fn lookup_position(
    rules: Seq<LookupRule>,
    record: hb_ot_map_lookup_map_t,
    infos: Seq<GlyphInfo>,
    position: GlyphPosition,
    at: int,
) -> GlyphPosition {
    let first = first_position_match(rules, record, infos, at, 0);
    if first >= 0 {
        rule_position(rules[first], infos, position, at)
    } else {
        position
    }
}

/// The positions of a run after a lookup of the positioning table. A lookup
/// that the face does not have changes nothing.
pub open spec fn positioned(
    face: hb_face_t,
    record: hb_ot_map_lookup_map_t,
    infos: Seq<GlyphInfo>,
    positions: Seq<GlyphPosition>,
) -> Seq<GlyphPosition> {
    if record.index < face.gpos@.len() {
        Seq::new(
            positions.len(),
            |i: int|
                lookup_position(
                    face.gpos@[record.index as int].rules@,
                    record,
                    infos,
                    positions[i],
                    i,
                ),
        )
    } else {
        positions
    }
}

/// Whether a rule of a lookup matches at one of the first `count` places.
pub open spec fn position_matches_before(
    rules: Seq<LookupRule>,
    record: hb_ot_map_lookup_map_t,
    infos: Seq<GlyphInfo>,
    count: int,
) -> bool
    decreases count,
{
    if count <= 0 {
        false
    } else {
        position_matches_before(rules, record, infos, count - 1) || first_position_match(
            rules,
            record,
            infos,
            count - 1,
            0,
        ) >= 0
    }
}

/// Whether a lookup of the positioning table matches anywhere in a run.
pub open spec fn positioning_matches(
    face: hb_face_t,
    record: hb_ot_map_lookup_map_t,
    infos: Seq<GlyphInfo>,
) -> bool {
    record.index < face.gpos@.len() && position_matches_before(
        face.gpos@[record.index as int].rules@,
        record,
        infos,
        infos.len() as int,
    )
}

/// The sum of the horizontal advances from `from` up to, but without, `to`.
pub open spec fn x_advances(positions: Seq<GlyphPosition>, from: int, to: int) -> int
    decreases to - from,
{
    if from >= to {
        0
    } else {
        x_advances(positions, from, to - 1) + positions[to - 1].x_advance
    }
}

/// The sum of the vertical advances from `from` up to, but without, `to`.
pub open spec fn y_advances(positions: Seq<GlyphPosition>, from: int, to: int) -> int
    decreases to - from,
{
    if from >= to {
        0
    } else {
        y_advances(positions, from, to - 1) + positions[to - 1].y_advance
    }
}

/// The position of a glyph with its offsets counted from the pen. A mark
/// that is attached to a glyph before it has its offsets counted from the
/// origin of that glyph; along a forward run the pen has moved on from
/// there by the advances from that glyph up to the mark, along a backward
/// run it is still short of it by the advances behind that glyph up to and
/// with the mark.
pub open spec fn settled_position(
    backward: bool,
    positions: Seq<GlyphPosition>,
    at: int,
) -> GlyphPosition {
    let distance = positions[at].attached_back();
    if 1 <= distance <= at {
        if backward {
            GlyphPosition {
                x_offset: clamp32(
                    positions[at].x_offset + x_advances(positions, at - distance + 1, at + 1),
                ),
                y_offset: clamp32(
                    positions[at].y_offset + y_advances(positions, at - distance + 1, at + 1),
                ),
                ..positions[at]
            }
        } else {
            GlyphPosition {
                x_offset: clamp32(
                    positions[at].x_offset - x_advances(positions, at - distance, at),
                ),
                y_offset: clamp32(
                    positions[at].y_offset - y_advances(positions, at - distance, at),
                ),
                ..positions[at]
            }
        }
    } else {
        positions[at]
    }
}

/// The positions of a run with all offsets counted from the pen.
pub open spec fn settled_positions(
    backward: bool,
    positions: Seq<GlyphPosition>,
) -> Seq<GlyphPosition> {
    Seq::new(positions.len(), |i: int| settled_position(backward, positions, i))
}

/// Brings a number into the range of coordinates.
pub fn clamp_to_i32(value: i64) -> (clamped: i32)
    ensures
        clamped == clamp32(value as int),
{
    if value > i32::MAX as i64 {
        i32::MAX
    } else if value < i32::MIN as i64 {
        i32::MIN
    } else {
        value as i32
    }
}

fn halved(value: i64) -> (out: i64)
    requires
        -0x1_0000_0000 <= value <= 0x1_0000_0000,
    ensures
        out == half(value as int),
{
    if value >= 0 {
        value / 2
    } else {
        -((-value) / 2)
    }
}

/// Finds the nearest glyph before `at` that is no mark.
fn find_base(infos: &Vec<GlyphInfo>, at: usize) -> (base: Option<usize>)
    requires
        at < infos@.len(),
    ensures
        match base {
            Some(found) => found == base_before(infos@, at as int) && found < at,
            None => base_before(infos@, at as int) == -1,
        },
{
    let mut place: usize = at;
    while place > 0
        invariant
            place <= at < infos@.len(),
            base_before(infos@, at as int) == base_before(infos@, place as int),
        decreases place,
    {
        if !infos[place - 1].is_mark() {
            return Some(place - 1);
        }
        place -= 1;
    }
    None
}

fn attach(position: &GlyphPosition, distance: usize, x: i32, y: i32) -> (out: GlyphPosition)
    requires
        distance <= MAX_ATTACH_DISTANCE,
    ensures
        out == attached(*position, distance as int, x, y),
{
    GlyphPosition {
        x_advance: 0,
        y_advance: 0,
        x_offset: x,
        y_offset: y,
        var: hb_var_int_t {
            b0: (distance % 0x100) as u8,
            b1: (distance / 0x100) as u8,
            b2: position.var.b2,
            b3: position.var.b3,
        },
    }
}

/// Gives every glyph the position that the font gives it.
pub fn set_default_positions(font: &hb_font_t, buffer: &mut hb_buffer_t)
    requires
        old(buffer).wf(),
    ensures
        final(buffer).wf(),
        final(buffer)@ == (BufferView {
            positions: default_positions(
                *font,
                old(buffer)@.props.direction,
                old(buffer)@.infos,
            ),
            ..old(buffer)@
        }),
{
    let vertical = buffer.props.direction.is_vertical();
    let count = buffer.info.len();
    let mut i: usize = 0;
    while i < count
        invariant
            i <= count == buffer.info@.len(),
            buffer.wf(),
            vertical == old(buffer)@.props.direction.vertical(),
            buffer@.infos == old(buffer)@.infos,
            buffer@.props == old(buffer)@.props,
            buffer@.cluster_level == old(buffer)@.cluster_level,
            buffer@.content == old(buffer)@.content,
            buffer@.default_language == old(buffer)@.default_language,
            forall|k: int|
                0 <= k < i ==> buffer.pos@[k] == default_position(
                    *font,
                    old(buffer)@.props.direction,
                    old(buffer)@.infos[k],
                ),
        decreases count - i,
    {
        let glyph = buffer.info[i].codepoint;
        let position = GlyphPosition {
            x_advance: if vertical {
                0
            } else {
                font.h_advance(glyph)
            },
            y_advance: if vertical {
                font.v_advance(glyph)
            } else {
                0
            },
            x_offset: 0,
            y_offset: 0,
            var: hb_var_int_t::zero(),
        };
        buffer.pos.set(i, position);
        i += 1;
    }
    assert(buffer.pos@ =~= default_positions(
        *font,
        old(buffer)@.props.direction,
        old(buffer)@.infos,
    ));
}

/// Places the marks of a run without a lookup.
pub fn position_marks_fallback(buffer: &mut hb_buffer_t)
    requires
        old(buffer).wf(),
    ensures
        final(buffer).wf(),
        final(buffer)@ == (BufferView {
            positions: fallback_positions(
                old(buffer)@.props.direction.vertical(),
                old(buffer)@.infos,
                old(buffer)@.positions,
            ),
            ..old(buffer)@
        }),
{
    let vertical = buffer.props.direction.is_vertical();
    let count = buffer.info.len();
    let mut fresh = buffer.begin_position_pass();
    let mut i: usize = 0;
    while i < count
        invariant
            i <= count == buffer.info@.len(),
            buffer.wf(),
            buffer@ == old(buffer)@,
            vertical == old(buffer)@.props.direction.vertical(),
            fresh@.len() == i,
            forall|k: int|
                0 <= k < i ==> fresh@[k] == fallback_position(
                    vertical,
                    buffer@.infos,
                    buffer@.positions,
                    k,
                ),
        decreases count - i,
    {
        let mut position = buffer.pos[i];
        if buffer.info[i].is_mark() {
            match find_base(&buffer.info, i) {
                Some(base) => {
                    if i - base <= MAX_ATTACH_DISTANCE {
                        let from = buffer.pos[base];
                        let x: i32 = if vertical {
                            0
                        } else {
                            halved(from.x_advance as i64 - position.x_advance as i64) as i32
                        };
                        let y: i32 = if vertical {
                            halved(from.y_advance as i64 - position.y_advance as i64) as i32
                        } else {
                            0
                        };
                        position = attach(&position, i - base, x, y);
                    }
                },
                None => {},
            }
        }
        fresh.push(position);
        i += 1;
    }
    assert(fresh@ =~= fallback_positions(vertical, buffer@.infos, buffer@.positions));
    buffer.end_position_pass(fresh);
}

/// The position that a rule gives a glyph, if the rule matches at its
/// place.
fn try_position(
    rule: &LookupRule,
    record: &hb_ot_map_lookup_map_t,
    infos: &Vec<GlyphInfo>,
    position: &GlyphPosition,
    at: usize,
) -> (moved: Option<GlyphPosition>)
    requires
        at < infos@.len(),
    ensures
        match moved {
            Some(to) => position_matches(*rule, *record, infos@, at as int) && to == rule_position(
                *rule,
                infos@,
                *position,
                at as int,
            ),
            None => !position_matches(*rule, *record, infos@, at as int),
        },
{
    let info = infos[at];
    match rule {
        LookupRule::Adjust { glyph, x_placement, y_placement, x_advance, y_advance } => {
            if is_enabled(&info, record.mask) && info.codepoint == *glyph {
                return Some(
                    GlyphPosition {
                        x_advance: clamp_to_i32(position.x_advance as i64 + *x_advance as i64),
                        y_advance: clamp_to_i32(position.y_advance as i64 + *y_advance as i64),
                        x_offset: clamp_to_i32(position.x_offset as i64 + *x_placement as i64),
                        y_offset: clamp_to_i32(position.y_offset as i64 + *y_placement as i64),
                        var: position.var,
                    },
                );
            }
        },
        LookupRule::Pair { first, second, x_advance } => {
            let count = infos.len();
            if is_enabled(&info, record.mask) && info.codepoint == *first && at + 1 < count
                && infos[at + 1].codepoint == *second {
                return Some(
                    GlyphPosition {
                        x_advance: clamp_to_i32(position.x_advance as i64 + *x_advance as i64),
                        y_advance: position.y_advance,
                        x_offset: position.x_offset,
                        y_offset: position.y_offset,
                        var: position.var,
                    },
                );
            }
        },
        LookupRule::MarkToBase { mark, base, x_offset, y_offset } => {
            if is_enabled(&info, record.mask) && info.codepoint == *mark && info.is_mark() {
                match find_base(infos, at) {
                    Some(found) => {
                        if at - found <= MAX_ATTACH_DISTANCE && infos[found].codepoint == *base {
                            return Some(attach(position, at - found, *x_offset, *y_offset));
                        }
                    },
                    None => {},
                }
            }
        },
        _ => {},
    }
    None
}

/// The position that the rules of a lookup give a glyph, and whether one of
/// them matched at its place.
fn position_at(
    rules: &Vec<LookupRule>,
    record: &hb_ot_map_lookup_map_t,
    infos: &Vec<GlyphInfo>,
    position: &GlyphPosition,
    at: usize,
) -> (done: (GlyphPosition, bool))
    requires
        at < infos@.len(),
    ensures
        done.0 == lookup_position(rules@, *record, infos@, *position, at as int),
        done.1 == (first_position_match(rules@, *record, infos@, at as int, 0) >= 0),
{
    let mut k: usize = 0;
    while k < rules.len()
        invariant
            k <= rules@.len(),
            at < infos@.len(),
            first_position_match(rules@, *record, infos@, at as int, 0) == first_position_match(
                rules@,
                *record,
                infos@,
                at as int,
                k as int,
            ),
        decreases rules@.len() - k,
    {
        match try_position(&rules[k], record, infos, position, at) {
            Some(moved) => {
                return (moved, true);
            },
            None => {},
        }
        k += 1;
    }
    (*position, false)
}

/// Passes a lookup of the positioning table over the run and says whether
/// it matched anywhere.
pub fn apply_positioning(
    face: &hb_face_t,
    record: &hb_ot_map_lookup_map_t,
    buffer: &mut hb_buffer_t,
) -> (matched: bool)
    requires
        old(buffer).wf(),
    ensures
        final(buffer).wf(),
        final(buffer)@ == (BufferView {
            positions: positioned(*face, *record, old(buffer)@.infos, old(buffer)@.positions),
            ..old(buffer)@
        }),
        matched == positioning_matches(*face, *record, old(buffer)@.infos),
{
    if record.index as usize >= face.gpos.len() {
        return false;
    }
    let rules = &face.gpos[record.index as usize].rules;
    let count = buffer.info.len();
    let mut matched = false;
    let mut i: usize = 0;
    while i < count
        invariant
            i <= count == buffer.info@.len(),
            buffer.wf(),
            buffer@.infos == old(buffer)@.infos,
            buffer@.props == old(buffer)@.props,
            buffer@.cluster_level == old(buffer)@.cluster_level,
            buffer@.content == old(buffer)@.content,
            buffer@.default_language == old(buffer)@.default_language,
            matched == position_matches_before(rules@, *record, buffer@.infos, i as int),
            forall|k: int|
                0 <= k < i ==> buffer.pos@[k] == lookup_position(
                    rules@,
                    *record,
                    old(buffer)@.infos,
                    old(buffer)@.positions[k],
                    k,
                ),
            forall|k: int| i <= k < count ==> buffer.pos@[k] == old(buffer)@.positions[k],
        decreases count - i,
    {
        let position = buffer.pos[i];
        let done = position_at(rules, record, &buffer.info, &position, i);
        buffer.pos.set(i, done.0);
        if done.1 {
            matched = true;
        }
        i += 1;
    }
    assert(buffer.pos@ =~= positioned(
        *face,
        *record,
        old(buffer)@.infos,
        old(buffer)@.positions,
    ));
    matched
}

/// Counts the offsets of every attached mark from the pen.
pub fn settle_offsets(buffer: &mut hb_buffer_t)
    requires
        old(buffer).wf(),
    ensures
        final(buffer).wf(),
        final(buffer)@ == (BufferView {
            positions: settled_positions(
                old(buffer)@.props.direction.backward(),
                old(buffer)@.positions,
            ),
            ..old(buffer)@
        }),
{
    let backward = buffer.props.direction.is_backward();
    let count = buffer.pos.len();
    let mut fresh = buffer.begin_position_pass();
    let mut i: usize = 0;
    while i < count
        invariant
            i <= count == buffer.pos@.len(),
            buffer.wf(),
            buffer@ == old(buffer)@,
            backward == old(buffer)@.props.direction.backward(),
            fresh@.len() == i,
            forall|k: int|
                0 <= k < i ==> fresh@[k] == settled_position(backward, buffer@.positions, k),
        decreases count - i,
    {
        let mut position = buffer.pos[i];
        let distance = position.var.u16_at(0) as usize;
        if 1 <= distance && distance <= i {
            let from: usize = if backward {
                i - distance + 1
            } else {
                i - distance
            };
            let to: usize = if backward {
                i + 1
            } else {
                i
            };
            let mut x: i64 = 0;
            let mut y: i64 = 0;
            let mut j: usize = from;
            while j < to
                invariant
                    from <= j <= to <= count == buffer.pos@.len(),
                    to - from <= 0xFFFF,
                    x == x_advances(buffer.pos@, from as int, j as int),
                    y == y_advances(buffer.pos@, from as int, j as int),
                    -(j - from) * 0x8000_0000 <= x <= (j - from) * 0x8000_0000,
                    -(j - from) * 0x8000_0000 <= y <= (j - from) * 0x8000_0000,
                decreases to - j,
            {
                x = x + buffer.pos[j].x_advance as i64;
                y = y + buffer.pos[j].y_advance as i64;
                j += 1;
            }
            if backward {
                position.x_offset = clamp_to_i32(position.x_offset as i64 + x);
                position.y_offset = clamp_to_i32(position.y_offset as i64 + y);
            } else {
                position.x_offset = clamp_to_i32(position.x_offset as i64 - x);
                position.y_offset = clamp_to_i32(position.y_offset as i64 - y);
            }
        }
        fresh.push(position);
        i += 1;
    }
    assert(fresh@ =~= settled_positions(backward, buffer@.positions));
    buffer.end_position_pass(fresh);
}

} // verus!
