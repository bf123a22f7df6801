use rustybuzz::buffer::{hb_buffer_t, GlyphInfo, GlyphPosition};
use rustybuzz::face::{hb_blob_t, hb_face_t, LayoutLookup, LookupRule, TableKind};
use rustybuzz::map::{hb_ot_map_lookup_map_t, Pause};
use rustybuzz::normalize::note_properties;
use rustybuzz::position::{apply_positioning, clamp_to_i32, position_marks_fallback, settle_offsets};
use rustybuzz::shape::{clear_substitution_flags, clear_syllables, run_pause};
use rustybuzz::substitute::{apply_lookup, is_enabled, read_field, substitute_at};
use rustybuzz::tag::Tag;

fn face_with(table: TableKind, rules: Vec<LookupRule>) -> hb_face_t {
    let mut face = hb_face_t {
        blob: hb_blob_t::new(Vec::new()),
        index: 0,
        gsub: Vec::new(),
        gpos: Vec::new(),
        gsub_scripts: Vec::new(),
        gpos_scripts: Vec::new(),
    };
    for rule in rules {
        face.add_lookup(table, LayoutLookup::with_rule(Tag::from_bytes(b"test"), rule));
    }
    face
}

fn record(index: u16, mask: u32) -> hb_ot_map_lookup_map_t {
    hb_ot_map_lookup_map_t { index, auto_zwnj: true, auto_zwj: true, random: false, mask }
}

fn buffer_of(glyphs: &[(u32, u32, u32)]) -> hb_buffer_t {
    let mut buffer = hb_buffer_t::new();
    for glyph in glyphs {
        let mut info = GlyphInfo::new(glyph.0, glyph.1);
        info.mask = glyph.2;
        buffer.info.push(info);
        let mut position = GlyphPosition::zero();
        position.x_advance = 100;
        buffer.pos.push(position);
    }
    buffer
}

fn ids(buffer: &hb_buffer_t) -> Vec<u32> {
    buffer.info.iter().map(|info| info.codepoint).collect()
}

#[test]
fn a_lookup_touches_only_glyphs_with_all_its_bits() {
    let face = face_with(
        TableKind::Substitution,
        vec![LookupRule::Single { glyph: 5, substitute: 6 }],
    );
    let mut buffer = buffer_of(&[(5, 0, 0b011), (5, 1, 0b001), (5, 2, 0b111), (4, 3, 0b011)]);
    assert!(apply_lookup(&face, &record(0, 0b011), &mut buffer));
    assert_eq!(ids(&buffer), vec![6, 5, 6, 4]);
    let flags: Vec<u8> = buffer.info.iter().map(|info| info.var1.b0).collect();
    assert_eq!(flags, vec![1, 0, 1, 0]);
    assert!(buffer.pos.iter().all(|position| *position == GlyphPosition::zero()));
    assert!(!apply_lookup(&face, &record(0, 0b011), &mut buffer));
    assert!(is_enabled(&buffer.info[0], 0b011));
    assert!(!is_enabled(&buffer.info[1], 0b011));
}

#[test]
fn a_lookup_that_the_face_does_not_have_changes_nothing() {
    let face = face_with(
        TableKind::Substitution,
        vec![LookupRule::Single { glyph: 5, substitute: 6 }],
    );
    let mut buffer = buffer_of(&[(5, 0, 1), (5, 1, 1)]);
    assert!(!apply_lookup(&face, &record(1, 1), &mut buffer));
    assert_eq!(ids(&buffer), vec![5, 5]);
    assert!(!apply_positioning(&face, &record(0, 1), &mut buffer));
    // A rule of the other table does nothing either.
    let face = face_with(
        TableKind::Substitution,
        vec![LookupRule::Pair { first: 5, second: 5, x_advance: 9 }],
    );
    assert!(!apply_lookup(&face, &record(0, 1), &mut buffer));
    assert_eq!(ids(&buffer), vec![5, 5]);
}

#[test]
fn a_ligature_takes_the_cluster_and_the_mask_of_its_first_part() {
    let face = face_with(
        TableKind::Substitution,
        vec![LookupRule::Ligature { components: vec![1, 2, 3], ligature: 9 }],
    );
    let mut buffer = buffer_of(&[(1, 10, 0b11), (2, 11, 0b01), (3, 12, 0b01), (1, 13, 0b01)]);
    assert!(apply_lookup(&face, &record(0, 0b01), &mut buffer));
    assert_eq!(ids(&buffer), vec![9, 1]);
    assert_eq!(buffer.info[0].cluster, 10);
    assert_eq!(buffer.info[0].mask, 0b11);
    assert_eq!(buffer.info[0].var1.b0, 3);
    assert_eq!(buffer.pos.len(), 2);
    // A part without the bits of the lookup breaks the ligature.
    let mut buffer = buffer_of(&[(1, 0, 1), (2, 1, 0), (3, 2, 1)]);
    assert!(!apply_lookup(&face, &record(0, 1), &mut buffer));
    assert_eq!(ids(&buffer), vec![1, 2, 3]);
    // So does the end of the run.
    let mut buffer = buffer_of(&[(1, 0, 1), (2, 1, 1)]);
    assert!(!apply_lookup(&face, &record(0, 1), &mut buffer));
    // A ligature without parts never matches.
    let face = face_with(
        TableKind::Substitution,
        vec![LookupRule::Ligature { components: Vec::new(), ligature: 9 }],
    );
    assert!(!apply_lookup(&face, &record(0, 1), &mut buffer));
    assert_eq!(ids(&buffer), vec![1, 2]);
}

#[test]
fn joiners_are_stepped_over_as_the_feature_says() {
    let face = face_with(
        TableKind::Substitution,
        vec![LookupRule::Ligature { components: vec![1, 2], ligature: 9 }],
    );
    let joiner = note_properties(&GlyphInfo::new(0x200D, 1));
    let non_joiner = note_properties(&GlyphInfo::new(0x200C, 1));
    assert_eq!(joiner.var2.b1, 2);
    assert_eq!(non_joiner.var2.b1, 3);
    let run = |middle: GlyphInfo| {
        let mut buffer = buffer_of(&[(1, 0, 1), (0, 1, 0), (2, 2, 1)]);
        buffer.info[1] = middle;
        buffer
    };
    let automatic = record(0, 1);
    let manual = hb_ot_map_lookup_map_t { auto_zwj: false, auto_zwnj: false, ..automatic };

    let mut buffer = run(joiner);
    assert!(apply_lookup(&face, &automatic, &mut buffer));
    assert_eq!(ids(&buffer), vec![9, 0x200D]);
    assert_eq!(buffer.info[1].cluster, 0);
    assert_eq!(buffer.info[1].mask, 1);
    let mut buffer = run(joiner);
    assert!(!apply_lookup(&face, &manual, &mut buffer));
    assert_eq!(ids(&buffer), vec![1, 0x200D, 2]);
    let mut buffer = run(non_joiner);
    assert!(!apply_lookup(&face, &automatic, &mut buffer));
    let mut buffer = run(non_joiner);
    assert!(apply_lookup(&face, &manual, &mut buffer));
    assert_eq!(ids(&buffer), vec![9, 0x200C]);
}

#[test]
fn a_lookup_that_picks_by_glyph_picks_the_same_each_time() {
    let face = face_with(
        TableKind::Substitution,
        vec![LookupRule::Alternate { glyph: 66, alternates: vec![600, 601, 602] }],
    );
    let random = hb_ot_map_lookup_map_t { random: true, ..record(0, 1) };
    let mut buffer = buffer_of(&[(66, 5, 1), (66, 6, 1), (66, 7, 1), (66, 7, 0)]);
    assert!(apply_lookup(&face, &random, &mut buffer));
    // (5 + 66) % 3 == 2, (6 + 66) % 3 == 0, (7 + 66) % 3 == 1
    assert_eq!(ids(&buffer), vec![602, 600, 601, 66]);
    let mut again = buffer_of(&[(66, 5, 1), (66, 6, 1), (66, 7, 1), (66, 7, 0)]);
    apply_lookup(&face, &random, &mut again);
    assert_eq!(again.info, buffer.info);
}

#[test]
fn the_bits_of_a_feature_hold_a_value() {
    assert_eq!(read_field(0b1100, 0b1100), 3);
    assert_eq!(read_field(0x8000, 0xC000), 2);
    assert_eq!(read_field(0x4000, 0xC000), 1);
    assert_eq!(read_field(0, 0xC000), 0);
    assert_eq!(read_field(1, 1), 1);
    assert_eq!(read_field(0x8000_0000, 0x8000_0000), 1);
    assert_eq!(read_field(5, 0), 0);
}

#[test]
fn one_step_says_how_much_it_used_up() {
    let rule = LookupRule::Ligature { components: vec![1, 2], ligature: 9 };
    let input = buffer_of(&[(1, 0, 1), (2, 1, 1), (1, 2, 1)]).info;
    let mut out = Vec::new();
    let rules = vec![rule];
    assert_eq!(substitute_at(&rules, &record(0, 1), &input, 0, &mut out), (2, true));
    assert_eq!(substitute_at(&rules, &record(0, 1), &input, 2, &mut out), (1, false));
    let glyphs: Vec<u32> = out.iter().map(|info| info.codepoint).collect();
    assert_eq!(glyphs, vec![9, 1]);
}

#[test]
fn pauses_forget_what_they_are_asked_to() {
    let mut buffer = buffer_of(&[(1, 0, 1), (2, 1, 1)]);
    for info in buffer.info.iter_mut() {
        info.var1.b0 = 3;
        info.var1.b1 = 7;
        info.var1.b2 = 9;
    }
    run_pause(None, &mut buffer);
    assert!(buffer.info.iter().all(|info| info.var1.b0 == 3 && info.var1.b1 == 7));
    clear_syllables(&mut buffer);
    assert!(buffer.info.iter().all(|info| info.var1.b0 == 3 && info.var1.b1 == 0));
    for info in buffer.info.iter_mut() {
        info.var1.b1 = 7;
    }
    clear_substitution_flags(&mut buffer);
    assert!(buffer.info.iter().all(|info| info.var1.b0 == 0 && info.var1.b1 == 7));
    run_pause(Some(Pause::ClearSyllables), &mut buffer);
    assert!(buffer.info.iter().all(|info| info.var1.b1 == 0 && info.var1.b2 == 9));
    assert_eq!(ids(&buffer), vec![1, 2]);
    assert!(buffer.pos.iter().all(|position| position.x_advance == 100));
}

#[test]
fn coordinates_stop_at_their_limits() {
    assert_eq!(clamp_to_i32(0), 0);
    assert_eq!(clamp_to_i32(-5), -5);
    assert_eq!(clamp_to_i32(i32::MAX as i64 + 1), i32::MAX);
    assert_eq!(clamp_to_i32(i32::MIN as i64 - 1), i32::MIN);
    assert_eq!(clamp_to_i32(i64::MAX), i32::MAX);
    let face = face_with(
        TableKind::Positioning,
        vec![LookupRule::Pair { first: 1, second: 2, x_advance: i32::MAX }],
    );
    let mut buffer = buffer_of(&[(1, 0, 1), (2, 1, 1), (1, 2, 1)]);
    assert!(apply_positioning(&face, &record(0, 1), &mut buffer));
    let advances: Vec<i32> = buffer.pos.iter().map(|position| position.x_advance).collect();
    assert_eq!(advances, vec![i32::MAX, 100, 100]);
}

#[test]
fn marks_attach_to_the_nearest_glyph_that_is_no_mark() {
    let mut buffer = buffer_of(&[(0x0301, 0, 1), (0x61, 1, 1), (0x0301, 2, 1), (0x0323, 3, 1)]);
    for i in 0..4 {
        buffer.info[i] = note_properties(&buffer.info[i]);
    }
    buffer.pos[1].x_advance = 500;
    buffer.pos[2].x_advance = 201;
    buffer.pos[3].x_advance = 1001;
    position_marks_fallback(&mut buffer);
    // A mark at the start of the run has no base and stays.
    assert_eq!(buffer.pos[0].x_advance, 100);
    assert_eq!(buffer.pos[0].var.u16_at(0), 0);
    assert_eq!(buffer.pos[1].x_advance, 500);
    assert_eq!(buffer.pos[2].x_advance, 0);
    assert_eq!(buffer.pos[2].x_offset, 149);
    assert_eq!(buffer.pos[2].var.u16_at(0), 1);
    assert_eq!(buffer.pos[3].x_advance, 0);
    assert_eq!(buffer.pos[3].x_offset, -250);
    assert_eq!(buffer.pos[3].var.u16_at(0), 2);
    settle_offsets(&mut buffer);
    assert_eq!(buffer.pos[2].x_offset, 149 - 500);
    assert_eq!(buffer.pos[3].x_offset, -250 - 500);
    assert_eq!(buffer.pos[1].x_offset, 0);
}

#[test]
fn a_mark_rule_wants_its_own_base() {
    let face = face_with(
        TableKind::Positioning,
        vec![LookupRule::MarkToBase { mark: 0x0301, base: 0x61, x_offset: 7, y_offset: -9 }],
    );
    let mut buffer = buffer_of(&[(0x61, 0, 1), (0x0323, 1, 1), (0x0301, 2, 1), (0x62, 3, 1), (0x0301, 4, 1), (0x61, 5, 1), (0x0301, 6, 0)]);
    for i in 0..7 {
        let mask = buffer.info[i].mask;
        buffer.info[i] = note_properties(&buffer.info[i]);
        assert_eq!(buffer.info[i].mask, mask);
    }
    assert!(apply_positioning(&face, &record(0, 1), &mut buffer));
    let attached: Vec<u16> = buffer.pos.iter().map(|position| position.var.u16_at(0)).collect();
    assert_eq!(attached, vec![0, 0, 2, 0, 0, 0, 0]);
    assert_eq!(buffer.pos[2].x_advance, 0);
    assert_eq!(buffer.pos[2].x_offset, 7);
    assert_eq!(buffer.pos[2].y_offset, -9);
    assert_eq!(buffer.pos[4].x_advance, 100);
    assert_eq!(ids(&buffer), vec![0x61, 0x0323, 0x0301, 0x62, 0x0301, 0x61, 0x0301]);
}

#[test]
fn the_first_rule_that_matches_acts() {
    let mut face = face_with(TableKind::Substitution, Vec::new());
    face.add_lookup(
        TableKind::Substitution,
        LayoutLookup {
            feature: Tag::from_bytes(b"test"),
            rules: vec![
                LookupRule::Ligature { components: vec![1, 2], ligature: 9 },
                LookupRule::Single { glyph: 1, substitute: 7 },
                LookupRule::Single { glyph: 1, substitute: 8 },
                LookupRule::Single { glyph: 7, substitute: 5 },
            ],
        },
    );
    let mut buffer = buffer_of(&[(1, 0, 1), (2, 1, 1), (1, 2, 1), (7, 3, 1), (2, 4, 1)]);
    assert!(apply_lookup(&face, &record(0, 1), &mut buffer));
    // One pass: what a rule has written is not looked at again.
    assert_eq!(ids(&buffer), vec![9, 7, 5, 2]);
    assert!(face.lookup_would_substitute(0, &vec![1, 2]));
    assert!(face.lookup_would_substitute(0, &vec![7]));
    assert!(!face.lookup_would_substitute(0, &vec![2]));
    // A lookup without rules changes nothing.
    let mut face = face_with(TableKind::Substitution, Vec::new());
    face.add_lookup(
        TableKind::Substitution,
        LayoutLookup { feature: Tag::from_bytes(b"test"), rules: Vec::new() },
    );
    let mut buffer = buffer_of(&[(1, 0, 1)]);
    assert!(!apply_lookup(&face, &record(0, 1), &mut buffer));
    assert_eq!(ids(&buffer), vec![1]);
}

#[test]
fn one_glyph_can_become_several_or_none() {
    let face = face_with(
        TableKind::Substitution,
        vec![
            LookupRule::Multiple { glyph: 1, sequence: vec![4, 5, 6] },
            LookupRule::Multiple { glyph: 2, sequence: Vec::new() },
        ],
    );
    let mut buffer = buffer_of(&[(2, 3, 1), (1, 7, 0b11), (3, 8, 1)]);
    assert!(apply_lookup(&face, &record(0, 1), &mut buffer));
    assert_eq!(ids(&buffer), vec![2, 4, 5, 6, 3]);
    let clusters: Vec<u32> = buffer.info.iter().map(|info| info.cluster).collect();
    assert_eq!(clusters, vec![3, 7, 7, 7, 8]);
    assert!(buffer.info[1..4].iter().all(|info| info.mask == 0b11 && info.var1.b0 == 5));
    assert_eq!(buffer.pos.len(), 5);
    assert!(apply_lookup(&face, &record(1, 1), &mut buffer));
    assert_eq!(ids(&buffer), vec![4, 5, 6, 3]);
    assert_eq!(buffer.pos.len(), 4);
}

#[test]
fn an_adjustment_moves_a_glyph_and_its_advance() {
    let mut face = face_with(TableKind::Positioning, Vec::new());
    face.add_lookup(
        TableKind::Positioning,
        LayoutLookup {
            feature: Tag::from_bytes(b"test"),
            rules: vec![
                LookupRule::Adjust {
                    glyph: 1,
                    x_placement: 3,
                    y_placement: -4,
                    x_advance: 10,
                    y_advance: 20,
                },
                LookupRule::Pair { first: 1, second: 2, x_advance: 1000 },
                LookupRule::Pair { first: 2, second: 1, x_advance: -30 },
            ],
        },
    );
    let mut buffer = buffer_of(&[(1, 0, 1), (2, 1, 1), (1, 2, 0), (2, 3, 1)]);
    assert!(apply_positioning(&face, &record(0, 1), &mut buffer));
    let seen: Vec<(i32, i32, i32, i32)> = buffer
        .pos
        .iter()
        .map(|p| (p.x_advance, p.y_advance, p.x_offset, p.y_offset))
        .collect();
    assert_eq!(seen, vec![(110, 20, 3, -4), (70, 0, 0, 0), (100, 0, 0, 0), (100, 0, 0, 0)]);
}
