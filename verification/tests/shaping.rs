use rustybuzz::buffer::{BufferClusterLevel, ContentState, GlyphInfo, GlyphPosition, UnicodeBuffer};
use rustybuzz::common::{hb_glyph_extents_t, Direction, Feature, Script};
use rustybuzz::face::{hb_blob_t, hb_face_t, hb_font_t, LayoutLookup, LookupRule, TableKind};
use rustybuzz::plan::hb_ot_shape_plan_t;
use rustybuzz::shape::{shape, ShapeError, ShapeRun, ShapeState};
use rustybuzz::tag::Tag;

fn put16(out: &mut Vec<u8>, value: u16) {
    out.extend_from_slice(&value.to_be_bytes());
}

fn put32(out: &mut Vec<u8>, value: u32) {
    out.extend_from_slice(&value.to_be_bytes());
}

fn head_table() -> Vec<u8> {
    let mut table = vec![0u8; 54];
    table[18] = 0x03;
    table[19] = 0xE8;
    table
}

fn metrics_header(count: u16) -> Vec<u8> {
    let mut table = vec![0u8; 36];
    table[34] = (count >> 8) as u8;
    table[35] = (count & 0xFF) as u8;
    table
}

fn maxp_table(glyphs: u16) -> Vec<u8> {
    let mut table = Vec::new();
    put32(&mut table, 0x0000_5000);
    put16(&mut table, glyphs);
    table
}

fn cmap_table(groups: &[(u32, u32, u32)]) -> Vec<u8> {
    let mut table = Vec::new();
    put16(&mut table, 0);
    put16(&mut table, 1);
    put16(&mut table, 0);
    put16(&mut table, 4);
    put32(&mut table, 12);
    put16(&mut table, 12);
    put16(&mut table, 0);
    put32(&mut table, 16 + 12 * groups.len() as u32);
    put32(&mut table, 0);
    put32(&mut table, groups.len() as u32);
    for group in groups {
        put32(&mut table, group.0);
        put32(&mut table, group.1);
        put32(&mut table, group.2);
    }
    table
}

fn advances_table(count: u16, base: u16) -> Vec<u8> {
    let mut table = Vec::new();
    for glyph in 0..count {
        put16(&mut table, base + glyph);
        put16(&mut table, 0);
    }
    table
}

fn font_bytes(mut tables: Vec<([u8; 4], Vec<u8>)>) -> Vec<u8> {
    tables.sort_by(|a, b| a.0.cmp(&b.0));
    let mut out = Vec::new();
    put32(&mut out, 0x0001_0000);
    put16(&mut out, tables.len() as u16);
    put16(&mut out, 0);
    put16(&mut out, 0);
    put16(&mut out, 0);
    let mut offset = 12 + 16 * tables.len() as u32;
    for table in &tables {
        out.extend_from_slice(&table.0);
        put32(&mut out, 0);
        put32(&mut out, offset);
        put32(&mut out, table.1.len() as u32);
        offset += table.1.len() as u32;
    }
    for table in &tables {
        out.extend_from_slice(&table.1);
    }
    out
}

const GLYPHS: u16 = 701;

fn test_tables() -> Vec<([u8; 4], Vec<u8>)> {
    vec![
        (*b"head", head_table()),
        (*b"hhea", metrics_header(GLYPHS)),
        (*b"maxp", maxp_table(GLYPHS)),
        (
            *b"cmap",
            cmap_table(&[
                (0x20, 0x7E, 1),
                (0x0301, 0x0301, 200),
                (0x0323, 0x0323, 201),
                (0x05D0, 0x05EA, 300),
                (0x0915, 0x0939, 400),
                (0x093F, 0x093F, 450),
                (0x200C, 0x200D, 460),
            ]),
        ),
        (*b"hmtx", advances_table(GLYPHS, 100)),
    ]
}

fn test_face() -> hb_face_t {
    hb_face_t::new(hb_blob_t::new(font_bytes(test_tables())), 0).expect("the test font parses")
}

fn liga() -> Tag {
    Tag::from_bytes(b"liga")
}

fn ligature_lookup() -> LayoutLookup {
    LayoutLookup {
        feature: liga(),
        rules: vec![LookupRule::Ligature { components: vec![71, 74], ligature: 500 }],
    }
}

fn font_with(lookups: Vec<(TableKind, LayoutLookup)>) -> hb_font_t {
    let mut face = test_face();
    for (table, lookup) in lookups {
        assert!(face.add_lookup(table, lookup).is_some());
    }
    hb_font_t::new(face)
}

fn ligature_font() -> hb_font_t {
    font_with(vec![(TableKind::Substitution, ligature_lookup())])
}

fn text(s: &str) -> UnicodeBuffer {
    let mut buffer = UnicodeBuffer::new();
    buffer.push_str(s);
    buffer
}

fn ids(infos: &[GlyphInfo]) -> Vec<u32> {
    infos.iter().map(|info| info.codepoint).collect()
}

fn clusters(infos: &[GlyphInfo]) -> Vec<u32> {
    infos.iter().map(|info| info.cluster).collect()
}

fn masks(infos: &[GlyphInfo]) -> Vec<u32> {
    infos.iter().map(|info| info.mask).collect()
}

fn x_advances(positions: &[GlyphPosition]) -> Vec<i32> {
    positions.iter().map(|position| position.x_advance).collect()
}

#[test]
fn the_test_font_answers_for_its_glyphs() {
    let font = ligature_font();
    assert_eq!(font.glyph_for('f' as u32), Some(71));
    assert_eq!(font.glyph_for('i' as u32), Some(74));
    assert_eq!(font.glyph_for(0x0301), Some(200));
    assert_eq!(font.glyph_for(0x00E9), None);
    assert_eq!(font.glyph_for(0xD800), None);
    assert!(font.has_glyph('a' as u32));
    assert!(!font.has_glyph(0x00E9));
    assert_eq!(font.h_advance(71), 171);
    assert_eq!(font.h_advance(500), 600);
    assert_eq!(font.h_advance(5000), 0);
    assert_eq!(font.h_advance(0x1_0000), 0);
    assert_eq!(font.v_advance(71), 0);
    assert_eq!(font.glyph_extents(71), None);
}

#[test]
fn a_face_knows_its_tables() {
    let face = test_face();
    assert!(face.has_table(Tag::from_bytes(b"cmap")));
    assert!(face.has_table(Tag::from_bytes(b"hmtx")));
    assert!(!face.has_table(Tag::from_bytes(b"kern")));
    assert!(!face.has_table(Tag::from_bytes(b"GSUB")));
    assert!(!face.has_table(Tag::from_bytes(b"GPOS")));
    let font = ligature_font();
    assert!(font.face().has_table(Tag::from_bytes(b"GSUB")));
    assert!(!font.face().has_table(Tag::from_bytes(b"GPOS")));
}

#[test]
fn bytes_that_are_no_font_give_no_face() {
    assert!(hb_face_t::new(hb_blob_t::new(vec![1, 2, 3, 4]), 0).is_none());
    assert!(hb_face_t::new(hb_blob_t::new(Vec::new()), 0).is_none());
    assert!(hb_face_t::new(hb_blob_t::new(font_bytes(test_tables())), 1).is_none());
    let mut tables = test_tables();
    tables.retain(|table| &table.0 != b"maxp");
    assert!(hb_face_t::new(hb_blob_t::new(font_bytes(tables)), 0).is_none());
}

#[test]
fn a_vertical_font_gives_vertical_advances() {
    let mut tables = test_tables();
    tables.push((*b"vhea", metrics_header(GLYPHS)));
    tables.push((*b"vmtx", advances_table(GLYPHS, 1000)));
    let mut face = hb_face_t::new(hb_blob_t::new(font_bytes(tables)), 0).unwrap();
    face.add_lookup(TableKind::Substitution, ligature_lookup());
    let font = hb_font_t::new(face);
    assert_eq!(font.v_advance(71), -1071);
    let mut buffer = text("ab");
    buffer.set_direction(Direction::TopToBottom);
    let glyphs = shape(&font, &Vec::new(), buffer).ok().unwrap();
    let positions = glyphs.glyph_positions();
    assert_eq!(ids(glyphs.glyph_infos()), vec![66, 67]);
    assert_eq!(positions[0].x_advance, 0);
    assert_eq!(positions[0].y_advance, -1066);
    assert_eq!(positions[1].y_advance, -1067);
}

#[test]
fn lookups_say_what_they_would_substitute() {
    let mut face = test_face();
    face.add_lookup(TableKind::Substitution, ligature_lookup());
    face.add_lookup(
        TableKind::Substitution,
        LayoutLookup { feature: liga(), rules: vec![LookupRule::Single { glyph: 66, substitute: 67 }] },
    );
    face.add_lookup(
        TableKind::Substitution,
        LayoutLookup {
            feature: liga(),
            rules: vec![LookupRule::Alternate { glyph: 66, alternates: Vec::new() }],
        },
    );
    assert!(face.lookup_would_substitute(0, &vec![71, 74]));
    assert!(!face.lookup_would_substitute(0, &vec![71]));
    assert!(!face.lookup_would_substitute(0, &vec![71, 74, 74]));
    assert!(face.lookup_would_substitute(1, &vec![66]));
    assert!(!face.lookup_would_substitute(1, &vec![67]));
    assert!(!face.lookup_would_substitute(2, &vec![66]));
    assert!(!face.lookup_would_substitute(3, &vec![66]));
}

#[test]
fn f_and_i_become_one_ligature() {
    let font = ligature_font();
    let glyphs = shape(&font, &Vec::new(), text("fi")).ok().unwrap();
    assert_eq!(glyphs.len(), 1);
    let info = glyphs.glyph_infos()[0];
    assert_eq!(info.codepoint, 500);
    assert_eq!(info.cluster, 0);
    let plan = hb_ot_shape_plan_t::new(font.face(), glyphs.0.props, &Vec::new());
    let bit = plan.ot_map().get_1_mask(liga());
    assert_eq!(bit, 0x1000);
    assert_eq!(info.mask & bit, bit);
    assert_eq!(info.mask, 0x3FFF);
    assert_eq!(info.var1.b0, 0);
    let position = glyphs.glyph_positions()[0];
    assert_eq!(position.x_advance, 600);
    assert_eq!(position.y_advance, 0);
    assert_eq!(position.x_offset, 0);
    assert_eq!(position.y_offset, 0);
    assert_eq!(glyphs.0.content, ContentState::Glyphs);
    assert_eq!(glyphs.direction(), Direction::LeftToRight);
    assert_eq!(glyphs.script(), Script(Tag::from_bytes(b"Latn")));
}

#[test]
fn f_and_i_stay_apart_when_the_ligatures_are_off() {
    let font = ligature_font();
    let features = vec![Feature::whole_run(liga(), 0)];
    let glyphs = shape(&font, &features, text("fi")).ok().unwrap();
    assert_eq!(ids(glyphs.glyph_infos()), vec![71, 74]);
    assert_eq!(clusters(glyphs.glyph_infos()), vec![0, 1]);
    assert_eq!(x_advances(glyphs.glyph_positions()), vec![171, 174]);
    let plan = hb_ot_shape_plan_t::new(font.face(), glyphs.0.props, &features);
    assert_eq!(plan.ot_map().get_1_mask(liga()), 0);
    assert_eq!(masks(glyphs.glyph_infos()), vec![0x1FFF, 0x1FFF]);
}

#[test]
fn a_ligature_needs_all_its_parts_in_a_row() {
    let font = ligature_font();
    let glyphs = shape(&font, &Vec::new(), text("fxi fi f")).ok().unwrap();
    assert_eq!(ids(glyphs.glyph_infos()), vec![71, 89, 74, 1, 500, 1, 71]);
    assert_eq!(clusters(glyphs.glyph_infos()), vec![0, 1, 2, 3, 4, 6, 7]);
}

#[test]
fn a_ligature_forms_across_a_joiner_and_not_across_a_non_joiner() {
    let font = ligature_font();
    let joined = shape(&font, &Vec::new(), text("f\u{200D}i")).ok().unwrap();
    assert_eq!(ids(joined.glyph_infos()), vec![500, 461]);
    assert_eq!(clusters(joined.glyph_infos()), vec![0, 0]);
    let apart = shape(&font, &Vec::new(), text("f\u{200C}i")).ok().unwrap();
    assert_eq!(ids(apart.glyph_infos()), vec![71, 460, 74]);
    assert_eq!(clusters(apart.glyph_infos()), vec![0, 1, 4]);
}

#[test]
fn a_precomposed_letter_without_a_glyph_is_shaped_in_parts() {
    let font = ligature_font();
    let glyphs = shape(&font, &Vec::new(), text("\u{00E9}")).ok().unwrap();
    assert_eq!(ids(glyphs.glyph_infos()), vec![70, 200]);
    assert_eq!(clusters(glyphs.glyph_infos()), vec![0, 0]);
}

#[test]
fn a_letter_that_the_font_covers_in_no_form_gets_the_missing_glyph() {
    let font = ligature_font();
    let glyphs = shape(&font, &Vec::new(), text("\u{00E7}\u{4E00}")).ok().unwrap();
    // c with cedilla goes on in parts: the font has the c, not the cedilla.
    assert_eq!(ids(glyphs.glyph_infos()), vec![68, 0, 0]);
    assert_eq!(clusters(glyphs.glyph_infos()), vec![0, 0, 2]);
}

#[test]
fn marks_come_out_in_canonical_order() {
    let font = ligature_font();
    let glyphs = shape(&font, &Vec::new(), text("a\u{0301}\u{0323}")).ok().unwrap();
    assert_eq!(ids(glyphs.glyph_infos()), vec![66, 201, 200]);
    assert_eq!(clusters(glyphs.glyph_infos()), vec![0, 0, 0]);

    let mut buffer = text("a\u{0301}\u{0323}");
    buffer.set_cluster_level(BufferClusterLevel::MonotoneCharacters);
    let glyphs = shape(&font, &Vec::new(), buffer).ok().unwrap();
    assert_eq!(ids(glyphs.glyph_infos()), vec![66, 201, 200]);
    assert_eq!(clusters(glyphs.glyph_infos()), vec![0, 1, 1]);

    let mut buffer = text("a\u{0301}\u{0323}");
    buffer.set_cluster_level(BufferClusterLevel::Characters);
    let glyphs = shape(&font, &Vec::new(), buffer).ok().unwrap();
    assert_eq!(ids(glyphs.glyph_infos()), vec![66, 201, 200]);
    assert_eq!(clusters(glyphs.glyph_infos()), vec![0, 1, 3]);

    let mut buffer = text("a\u{0323}\u{0301}");
    buffer.set_cluster_level(BufferClusterLevel::MonotoneCharacters);
    let glyphs = shape(&font, &Vec::new(), buffer).ok().unwrap();
    assert_eq!(ids(glyphs.glyph_infos()), vec![66, 201, 200]);
    assert_eq!(clusters(glyphs.glyph_infos()), vec![0, 1, 3]);
}

#[test]
fn a_ranged_feature_reaches_only_its_clusters() {
    let font = ligature_font();
    let test = Tag::from_bytes(b"test");
    let features = vec![Feature::new(test, 1, 2, 5)];
    let glyphs = shape(&font, &features, text("abcdefghij")).ok().unwrap();
    assert_eq!(glyphs.len(), 10);
    let plan = hb_ot_shape_plan_t::new(font.face(), glyphs.0.props, &features);
    let bit = plan.ot_map().get_1_mask(test);
    assert_eq!(bit, 0x4000);
    for info in glyphs.glyph_infos().iter() {
        if 2 <= info.cluster && info.cluster < 5 {
            assert_eq!(info.mask & bit, bit);
            assert_eq!(info.mask, 0x7FFF);
        } else {
            assert_eq!(info.mask & bit, 0);
            assert_eq!(info.mask, 0x3FFF);
        }
    }
}

#[test]
fn a_later_request_wins_where_ranges_overlap() {
    let font = ligature_font();
    let test = Tag::from_bytes(b"test");
    let features = vec![Feature::new(test, 1, 0, 6), Feature::new(test, 0, 3, 8)];
    let glyphs = shape(&font, &features, text("abcdefghij")).ok().unwrap();
    let set: Vec<bool> = glyphs.glyph_infos().iter().map(|info| info.mask & 0x4000 != 0).collect();
    assert_eq!(set, vec![true, true, true, false, false, false, false, false, false, false]);

    let features = vec![Feature::new(test, 0, 3, 8), Feature::new(test, 1, 0, 6)];
    let glyphs = shape(&font, &features, text("abcdefghij")).ok().unwrap();
    let set: Vec<bool> = glyphs.glyph_infos().iter().map(|info| info.mask & 0x4000 != 0).collect();
    assert_eq!(set, vec![true, true, true, true, true, true, false, false, false, false]);
}

#[test]
fn a_range_that_ends_before_it_starts_reaches_nothing() {
    let font = ligature_font();
    let test = Tag::from_bytes(b"test");
    let features = vec![Feature::new(test, 1, 5, 2), Feature::new(test, 1, 50, 60)];
    let glyphs = shape(&font, &features, text("abcdefghij")).ok().unwrap();
    assert!(glyphs.glyph_infos().iter().all(|info| info.mask == 0x3FFF));
}

#[test]
fn a_caller_can_switch_the_ligatures_off_for_a_range() {
    let font = ligature_font();
    let features = vec![Feature::new(liga(), 0, 3, 5)];
    let glyphs = shape(&font, &features, text("fi fi")).ok().unwrap();
    assert_eq!(ids(glyphs.glyph_infos()), vec![500, 1, 71, 74]);
    assert_eq!(clusters(glyphs.glyph_infos()), vec![0, 2, 3, 4]);
    assert_eq!(masks(glyphs.glyph_infos()), vec![0x3FFF, 0x3FFF, 0x2FFF, 0x2FFF]);
}

#[test]
fn shaping_twice_gives_the_same_run() {
    let font = font_with(vec![
        (TableKind::Substitution, ligature_lookup()),
        (
            TableKind::Positioning,
            LayoutLookup {
                feature: Tag::from_bytes(b"kern"),
                rules: vec![LookupRule::Pair { first: 34, second: 55, x_advance: -80 }],
            },
        ),
    ]);
    let features = vec![Feature::new(Tag::from_bytes(b"test"), 1, 1, 4)];
    let first = shape(&font, &features, text("AV fi e\u{0301}\u{0323}")).ok().unwrap();
    let second = shape(&font, &features, text("AV fi e\u{0301}\u{0323}")).ok().unwrap();
    assert_eq!(first.glyph_infos(), second.glyph_infos());
    assert_eq!(first.glyph_positions(), second.glyph_positions());
    assert_eq!(first.glyph_infos().len(), first.glyph_positions().len());
}

#[test]
fn clusters_rise_left_to_right_and_fall_right_to_left() {
    let font = ligature_font();
    let glyphs = shape(&font, &Vec::new(), text("fi e\u{0301} fi")).ok().unwrap();
    let seen = clusters(glyphs.glyph_infos());
    assert_eq!(seen, vec![0, 2, 3, 3, 6, 7]);
    assert!(seen.windows(2).all(|pair| pair[0] <= pair[1]));

    let glyphs = shape(&font, &Vec::new(), text("\u{05D0}\u{05D1}\u{05D2}")).ok().unwrap();
    assert_eq!(glyphs.direction(), Direction::RightToLeft);
    assert_eq!(glyphs.script(), Script(Tag::from_bytes(b"Hebr")));
    assert_eq!(ids(glyphs.glyph_infos()), vec![302, 301, 300]);
    assert_eq!(clusters(glyphs.glyph_infos()), vec![4, 2, 0]);
    assert_eq!(x_advances(glyphs.glyph_positions()), vec![402, 401, 400]);
}

#[test]
fn a_cleared_buffer_keeps_its_storage() {
    let font = ligature_font();
    let glyphs = shape(&font, &Vec::new(), text("a long enough run of text")).ok().unwrap();
    let capacity = glyphs.capacity();
    assert!(capacity >= 25);
    let buffer = glyphs.clear();
    assert_eq!(buffer.len(), 0);
    assert!(buffer.is_empty());
    assert_eq!(buffer.0.content, ContentState::Unicode);
    assert_eq!(buffer.capacity(), capacity);
    assert_eq!(buffer.direction(), Direction::Invalid);
    assert!(!buffer.script().is_set());
    // An emptied buffer is text without characters, and shapes to nothing.
    let glyphs = shape(&font, &Vec::new(), buffer).ok().unwrap();
    assert_eq!(glyphs.len(), 0);
    assert!(glyphs.is_empty());
    assert_eq!(glyphs.glyph_positions().len(), 0);
}

#[test]
fn a_buffer_without_text_is_refused() {
    let font = ligature_font();
    let failure = shape(&font, &Vec::new(), UnicodeBuffer::new()).err().unwrap();
    assert_eq!(failure.error, ShapeError::EmptyInput);
    assert_eq!(failure.buffer.len(), 0);
    assert_eq!(failure.buffer.0.content, ContentState::Empty);
}

#[test]
fn a_face_without_tables_is_refused_and_the_buffer_comes_back() {
    // No lookups at all.
    let font = hb_font_t::new(test_face());
    let failure = shape(&font, &Vec::new(), text("fi")).err().unwrap();
    assert_eq!(failure.error, ShapeError::MissingRequiredTable);
    assert_eq!(failure.buffer.len(), 2);
    assert_eq!(failure.buffer.0.content, ContentState::Unicode);
    assert_eq!(failure.buffer.direction(), Direction::Invalid);
    assert_eq!(ids(&failure.buffer.0.info), vec!['f' as u32, 'i' as u32]);

    // No character map.
    let mut tables = test_tables();
    tables.retain(|table| &table.0 != b"cmap");
    let mut face = hb_face_t::new(hb_blob_t::new(font_bytes(tables)), 0).unwrap();
    face.add_lookup(TableKind::Substitution, ligature_lookup());
    let failure = shape(&hb_font_t::new(face), &Vec::new(), text("fi")).err().unwrap();
    assert_eq!(failure.error, ShapeError::MissingRequiredTable);

    // An empty buffer is refused for being empty, whatever the face.
    let font = hb_font_t::new(test_face());
    let failure = shape(&font, &Vec::new(), UnicodeBuffer::new()).err().unwrap();
    assert_eq!(failure.error, ShapeError::EmptyInput);
}

#[test]
fn kerning_moves_the_first_glyph_of_a_pair() {
    let font = font_with(vec![(
        TableKind::Positioning,
        LayoutLookup {
            feature: Tag::from_bytes(b"kern"),
            rules: vec![LookupRule::Pair { first: 34, second: 55, x_advance: -80 }],
        },
    )]);
    let glyphs = shape(&font, &Vec::new(), text("AVA")).ok().unwrap();
    assert_eq!(ids(glyphs.glyph_infos()), vec![34, 55, 34]);
    assert_eq!(x_advances(glyphs.glyph_positions()), vec![54, 155, 134]);

    let off = vec![Feature::whole_run(Tag::from_bytes(b"kern"), 0)];
    let glyphs = shape(&font, &off, text("AVA")).ok().unwrap();
    assert_eq!(x_advances(glyphs.glyph_positions()), vec![134, 155, 134]);
}

#[test]
fn a_mark_without_a_lookup_is_centred_on_its_base() {
    let font = ligature_font();
    let glyphs = shape(&font, &Vec::new(), text("e\u{0301}")).ok().unwrap();
    assert_eq!(ids(glyphs.glyph_infos()), vec![70, 200]);
    let positions = glyphs.glyph_positions();
    assert_eq!(positions[0].x_advance, 170);
    assert_eq!(positions[0].x_offset, 0);
    assert_eq!(positions[1].x_advance, 0);
    assert_eq!(positions[1].y_advance, 0);
    assert_eq!(positions[1].x_offset, -235);
    assert_eq!(positions[1].y_offset, 0);
    assert_eq!(positions[1].var.u16_at(0), 1);
    assert_eq!(positions[0].var.u16_at(0), 0);
}

#[test]
fn a_mark_lookup_places_the_mark() {
    let font = font_with(vec![(
        TableKind::Positioning,
        LayoutLookup {
            feature: Tag::from_bytes(b"mark"),
            rules: vec![LookupRule::MarkToBase { mark: 200, base: 70, x_offset: 50, y_offset: 400 }],
        },
    )]);
    let glyphs = shape(&font, &Vec::new(), text("e\u{0301}a\u{0301}")).ok().unwrap();
    assert_eq!(ids(glyphs.glyph_infos()), vec![70, 200, 66, 200]);
    let plan = hb_ot_shape_plan_t::new(font.face(), glyphs.0.props, &Vec::new());
    assert!(plan.has_gpos_mark());
    let positions = glyphs.glyph_positions();
    assert_eq!(positions[1].x_advance, 0);
    assert_eq!(positions[1].x_offset, 50 - 170);
    assert_eq!(positions[1].y_offset, 400);
    // The second mark stands on another base: no rule and no other placing.
    assert_eq!(positions[3].x_advance, 300);
    assert_eq!(positions[3].x_offset, 0);
    assert_eq!(positions[3].y_offset, 0);
}

#[test]
fn a_mark_of_a_backward_run_is_placed_from_the_other_side() {
    let font = font_with(vec![(
        TableKind::Positioning,
        LayoutLookup {
            feature: Tag::from_bytes(b"mark"),
            rules: vec![LookupRule::MarkToBase { mark: 200, base: 300, x_offset: 50, y_offset: 40 }],
        },
    )]);
    let glyphs = shape(&font, &Vec::new(), text("\u{05D0}\u{0301}")).ok().unwrap();
    assert_eq!(glyphs.direction(), Direction::RightToLeft);
    assert_eq!(ids(glyphs.glyph_infos()), vec![200, 300]);
    let positions = glyphs.glyph_positions();
    assert_eq!(positions[0].x_advance, 0);
    assert_eq!(positions[0].x_offset, 50);
    assert_eq!(positions[0].y_offset, 40);
    assert_eq!(positions[1].x_advance, 400);
}

#[test]
fn the_indic_family_writes_the_vowel_sign_first() {
    let font = font_with(vec![
        (TableKind::Substitution, ligature_lookup()),
        (
            TableKind::Substitution,
            LayoutLookup {
                feature: Tag::from_bytes(b"nukt"),
                rules: vec![LookupRule::Single { glyph: 400, substitute: 600 }],
            },
        ),
        (
            TableKind::Substitution,
            LayoutLookup {
                feature: Tag::from_bytes(b"pres"),
                rules: vec![LookupRule::Single { glyph: 600, substitute: 601 }],
            },
        ),
    ]);
    let glyphs = shape(&font, &Vec::new(), text("\u{0915}\u{093F}")).ok().unwrap();
    assert_eq!(glyphs.script(), Script(Tag::from_bytes(b"Deva")));
    assert_eq!(ids(glyphs.glyph_infos()), vec![450, 601]);
    assert_eq!(clusters(glyphs.glyph_infos()), vec![0, 0]);
    // The pause between the two stages has forgotten the syllables.
    assert!(glyphs.glyph_infos().iter().all(|info| info.var1.b1 == 0));
    assert!(glyphs.glyph_infos().iter().all(|info| info.var1.b0 == 0));

    let mut buffer = text("\u{0915}\u{093F}");
    buffer.set_cluster_level(BufferClusterLevel::Characters);
    let glyphs = shape(&font, &Vec::new(), buffer).ok().unwrap();
    assert_eq!(ids(glyphs.glyph_infos()), vec![450, 601]);
    assert_eq!(clusters(glyphs.glyph_infos()), vec![0, 3]);
}

#[test]
fn a_value_picks_the_alternate() {
    let salt = Tag::from_bytes(b"salt");
    let font = font_with(vec![(
        TableKind::Substitution,
        LayoutLookup {
            feature: salt,
            rules: vec![LookupRule::Alternate { glyph: 66, alternates: vec![600, 601, 602] }],
        },
    )]);
    let third = shape(&font, &vec![Feature::whole_run(salt, 3)], text("ab")).ok().unwrap();
    assert_eq!(ids(third.glyph_infos()), vec![602, 67]);
    let first = shape(&font, &vec![Feature::whole_run(salt, 1)], text("ab")).ok().unwrap();
    assert_eq!(ids(first.glyph_infos()), vec![600, 67]);
    // A value that does not set every bit of the feature switches it off.
    let second = shape(&font, &vec![Feature::whole_run(salt, 2)], text("ab")).ok().unwrap();
    assert_eq!(ids(second.glyph_infos()), vec![66, 67]);
    // A value past the last alternate picks none.
    let seventh = shape(&font, &vec![Feature::whole_run(salt, 7)], text("ab")).ok().unwrap();
    assert_eq!(ids(seventh.glyph_infos()), vec![66, 67]);
    let none = shape(&font, &Vec::new(), text("ab")).ok().unwrap();
    assert_eq!(ids(none.glyph_infos()), vec![66, 67]);
}

#[test]
fn the_phases_run_in_their_order() {
    let font = ligature_font();
    let features: Vec<Feature> = Vec::new();
    let mut run = ShapeRun::begin(text("fi"));
    assert_eq!(run.state(), ShapeState::Unplanned);
    let plan = run.plan(&font, &features).ok().unwrap();
    assert_eq!(run.state(), ShapeState::Planned);
    assert_eq!(run.buffer.direction(), Direction::LeftToRight);
    run.normalize(&plan, &font);
    assert_eq!(run.state(), ShapeState::Normalized);
    assert_eq!(ids(&run.buffer.0.info), vec!['f' as u32, 'i' as u32]);
    run.set_masks(&plan, &font, &features);
    assert_eq!(run.state(), ShapeState::MasksSet);
    assert_eq!(ids(&run.buffer.0.info), vec![71, 74]);
    assert_eq!(masks(&run.buffer.0.info), vec![0x3FFF, 0x3FFF]);
    run.substitute(&plan, &font);
    assert_eq!(run.state(), ShapeState::SubstitutionApplied);
    assert_eq!(ids(&run.buffer.0.info), vec![500]);
    assert_eq!(x_advances(&run.buffer.0.pos), vec![0]);
    run.position(&plan, &font);
    assert_eq!(run.state(), ShapeState::PositioningApplied);
    assert_eq!(x_advances(&run.buffer.0.pos), vec![600]);
    let glyphs = run.finalize();
    assert_eq!(ids(glyphs.glyph_infos()), vec![500]);
}

#[test]
fn a_failed_plan_leaves_the_run_where_it_was() {
    let font = hb_font_t::new(test_face());
    let mut run = ShapeRun::begin(text("fi"));
    assert_eq!(run.plan(&font, &Vec::new()).err(), Some(ShapeError::MissingRequiredTable));
    assert_eq!(run.state(), ShapeState::Unplanned);
    assert_eq!(run.buffer.direction(), Direction::Invalid);
    let mut run = ShapeRun::begin(UnicodeBuffer::new());
    assert_eq!(run.plan(&font, &Vec::new()).err(), Some(ShapeError::EmptyInput));
}

#[test]
fn a_glyph_with_an_outline_has_extents() {
    let mut glyph = Vec::new();
    put16(&mut glyph, 1);
    glyph.extend_from_slice(&[0u8; 8]);
    put16(&mut glyph, 2);
    put16(&mut glyph, 0);
    glyph.extend_from_slice(&[1, 1, 1]);
    for delta in [10i16, 100, -50, 20, 0, 200] {
        glyph.extend_from_slice(&delta.to_be_bytes());
    }
    let mut places = Vec::new();
    for offset in [0u32, 0, glyph.len() as u32, glyph.len() as u32] {
        put32(&mut places, offset);
    }
    let mut head = head_table();
    head[51] = 1;
    let tables = vec![
        (*b"head", head),
        (*b"hhea", metrics_header(3)),
        (*b"maxp", maxp_table(3)),
        (*b"hmtx", advances_table(3, 500)),
        (*b"loca", places),
        (*b"glyf", glyph),
    ];
    let face = hb_face_t::new(hb_blob_t::new(font_bytes(tables)), 0).unwrap();
    let font = hb_font_t::new(face);
    assert_eq!(
        font.glyph_extents(1),
        Some(hb_glyph_extents_t { x_bearing: 10, y_bearing: 220, width: 100, height: -200 })
    );
    assert_eq!(font.glyph_extents(0), None);
    assert_eq!(font.glyph_extents(2), None);
    assert_eq!(font.glyph_extents(7), None);
    assert_eq!(font.glyph_extents(0x1_0000), None);
    assert_eq!(font.h_advance(1), 501);
}

#[test]
fn the_crate_hands_out_its_main_items_at_the_root() {
    let font = ligature_font();
    let mut buffer = rustybuzz::UnicodeBuffer::new();
    buffer.push_str("fi");
    let features = [rustybuzz::Feature::whole_run(rustybuzz::Tag::from_bytes(b"liga"), 1)];
    let glyphs: rustybuzz::GlyphBuffer = rustybuzz::shape(&font, &features, buffer).ok().unwrap();
    assert_eq!(glyphs.len(), 1);
    assert_eq!(glyphs.direction(), rustybuzz::Direction::LeftToRight);
}
