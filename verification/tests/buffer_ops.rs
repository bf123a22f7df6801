use rustybuzz::buffer::{
    hb_buffer_t, BufferClusterLevel, ContentState, GlyphInfo, GlyphPosition, UnicodeBuffer,
};
use rustybuzz::common::{
    hb_glyph_extents_t, hb_segment_properties_t, hb_var_int_t, Direction, Feature, Language,
    Script,
};
use rustybuzz::tag::Tag;

fn clusters(buffer: &UnicodeBuffer) -> Vec<u32> {
    buffer.0.info.iter().map(|info| info.cluster).collect()
}

#[test]
fn a_new_buffer_is_empty_and_unset() {
    let buffer = UnicodeBuffer::new();
    assert_eq!(buffer.len(), 0);
    assert!(buffer.is_empty());
    assert_eq!(buffer.0.content, ContentState::Empty);
    assert_eq!(buffer.direction(), Direction::Invalid);
    assert!(!buffer.script().is_set());
    assert!(!buffer.language().is_set());
    assert_eq!(buffer.cluster_level(), BufferClusterLevel::MonotoneGraphemes);
    assert!(buffer.is_well_formed());
    assert_eq!(hb_segment_properties_t::unset().direction, Direction::Invalid);
}

#[test]
fn text_gets_its_byte_offsets_as_cluster_ids() {
    let mut buffer = UnicodeBuffer::new();
    buffer.push_str("a\u{00E9}\u{20AC}\u{1F600}z");
    assert_eq!(buffer.len(), 5);
    assert_eq!(clusters(&buffer), vec![0, 1, 3, 6, 10]);
    let codes: Vec<u32> = buffer.0.info.iter().map(|info| info.codepoint).collect();
    assert_eq!(codes, vec![0x61, 0xE9, 0x20AC, 0x1F600, 0x7A]);
    assert_eq!(buffer.0.pos.len(), 5);
    assert_eq!(buffer.0.content, ContentState::Unicode);
    assert!(buffer.0.info.iter().all(|info| info.mask == 0));
    assert!(buffer.is_well_formed());
    buffer.push_str("");
    assert_eq!(buffer.len(), 5);
}

#[test]
fn cluster_ids_never_fall() {
    let mut buffer = UnicodeBuffer::new();
    buffer.add('a', 3);
    buffer.add('b', 7);
    buffer.add('c', 5);
    buffer.add('d', 9);
    assert_eq!(clusters(&buffer), vec![3, 7, 7, 9]);
    // A second text starts at offset zero again and is raised to the last id.
    buffer.push_str("xy");
    assert_eq!(clusters(&buffer), vec![3, 7, 7, 9, 9, 9]);
    assert!(buffer.is_well_formed());
}

#[test]
fn a_buffer_that_was_put_together_badly_is_found_out() {
    let mut buffer = UnicodeBuffer::new();
    buffer.push_str("abc");
    buffer.0.info[1].cluster = 9;
    assert!(!buffer.is_well_formed());
    buffer.0.info[1].cluster = 1;
    assert!(buffer.is_well_formed());
    buffer.0.pos.pop();
    assert!(!buffer.is_well_formed());
    buffer.0.pos.push(GlyphPosition::zero());
    buffer.0.content = ContentState::Glyphs;
    assert!(!buffer.is_well_formed());
    buffer.0.content = ContentState::Empty;
    assert!(!buffer.is_well_formed());
}

#[test]
fn the_script_comes_from_the_first_letter_that_has_one() {
    let mut buffer = UnicodeBuffer::new();
    buffer.push_str("12, (\u{0301}abc \u{05D0}");
    buffer.guess_segment_properties();
    assert_eq!(buffer.script(), Script(Tag::from_bytes(b"Latn")));
    assert_eq!(buffer.direction(), Direction::LeftToRight);
    assert!(!buffer.language().is_set());

    let mut buffer = UnicodeBuffer::new();
    buffer.push_str("1 \u{0627}\u{0628} abc");
    buffer.set_default_language(Language(Tag::from_bytes(b"ARA ")));
    buffer.guess_segment_properties();
    assert_eq!(buffer.script(), Script(Tag::from_bytes(b"Arab")));
    assert_eq!(buffer.direction(), Direction::RightToLeft);
    assert_eq!(buffer.language(), Language(Tag::from_bytes(b"ARA ")));

    let mut buffer = UnicodeBuffer::new();
    buffer.push_str("\u{1820}");
    buffer.guess_segment_properties();
    assert_eq!(buffer.script(), Script(Tag::from_bytes(b"Mong")));
    assert_eq!(buffer.direction(), Direction::TopToBottom);

    let mut buffer = UnicodeBuffer::new();
    buffer.push_str("12 .,");
    buffer.guess_segment_properties();
    assert_eq!(buffer.script(), Script(Tag::from_bytes(b"Zyyy")));
    assert_eq!(buffer.direction(), Direction::LeftToRight);
}

#[test]
fn what_is_set_is_not_guessed() {
    let mut buffer = UnicodeBuffer::new();
    buffer.push_str("abc");
    buffer.set_script(Script(Tag::from_bytes(b"Hebr")));
    buffer.set_language(Language(Tag::from_bytes(b"IWR ")));
    buffer.set_default_language(Language(Tag::from_bytes(b"ENG ")));
    buffer.guess_segment_properties();
    assert_eq!(buffer.script(), Script(Tag::from_bytes(b"Hebr")));
    assert_eq!(buffer.direction(), Direction::RightToLeft);
    assert_eq!(buffer.language(), Language(Tag::from_bytes(b"IWR ")));

    let mut buffer = UnicodeBuffer::new();
    buffer.push_str("\u{05D0}");
    buffer.set_direction(Direction::BottomToTop);
    buffer.guess_segment_properties();
    assert_eq!(buffer.script(), Script(Tag::from_bytes(b"Hebr")));
    assert_eq!(buffer.direction(), Direction::BottomToTop);
}

#[test]
fn clearing_empties_the_buffer_and_keeps_its_level() {
    let mut buffer = UnicodeBuffer::new();
    buffer.push_str("abc");
    buffer.set_direction(Direction::RightToLeft);
    buffer.set_cluster_level(BufferClusterLevel::Characters);
    buffer.set_default_language(Language(Tag::from_bytes(b"ENG ")));
    let capacity = buffer.capacity();
    buffer.clear();
    assert_eq!(buffer.len(), 0);
    assert_eq!(buffer.0.pos.len(), 0);
    assert_eq!(buffer.0.content, ContentState::Unicode);
    assert_eq!(buffer.direction(), Direction::Invalid);
    assert_eq!(buffer.cluster_level(), BufferClusterLevel::Characters);
    assert_eq!(buffer.0.default_language, Language(Tag::from_bytes(b"ENG ")));
    assert_eq!(buffer.capacity(), capacity);
    buffer.reset_cluster_level();
    assert_eq!(buffer.cluster_level(), BufferClusterLevel::MonotoneGraphemes);
}

#[test]
fn a_buffer_turns_round() {
    let mut buffer = hb_buffer_t::new();
    for i in 0..5u32 {
        buffer.info.push(GlyphInfo::new(100 + i, i));
        let mut position = GlyphPosition::zero();
        position.x_advance = i as i32;
        buffer.pos.push(position);
    }
    buffer.reverse();
    let codes: Vec<u32> = buffer.info.iter().map(|info| info.codepoint).collect();
    let advances: Vec<i32> = buffer.pos.iter().map(|position| position.x_advance).collect();
    assert_eq!(codes, vec![104, 103, 102, 101, 100]);
    assert_eq!(advances, vec![4, 3, 2, 1, 0]);
    assert_eq!(buffer.len(), 5);
    let mut empty = hb_buffer_t::new();
    empty.reverse();
    assert_eq!(empty.len(), 0);
}

#[test]
fn a_pass_writes_to_the_spare_storage() {
    let mut buffer = hb_buffer_t::new();
    buffer.info.push(GlyphInfo::new(1, 0));
    buffer.pos.push(GlyphPosition::zero());
    let mut out = buffer.begin_pass();
    assert!(out.is_empty());
    out.push(GlyphInfo::new(7, 0));
    out.push(GlyphInfo::new(8, 0));
    buffer.end_pass(out);
    let codes: Vec<u32> = buffer.info.iter().map(|info| info.codepoint).collect();
    assert_eq!(codes, vec![7, 8]);
    assert_eq!(buffer.pos, vec![GlyphPosition::zero(), GlyphPosition::zero()]);
    let out = buffer.begin_pass();
    assert!(out.is_empty());
    assert!(out.capacity() >= 1);
    // The storage has left the buffer; the glyphs and positions have not.
    assert!(buffer.scratch.is_empty());
    assert_eq!(buffer.scratch.capacity(), 0);
    assert_eq!(buffer.info.len(), 2);
    assert_eq!(buffer.pos.len(), 2);
}

#[test]
fn a_position_pass_writes_to_its_own_spare_storage() {
    let mut buffer = hb_buffer_t::new();
    buffer.info.push(GlyphInfo::new(1, 0));
    buffer.pos.push(GlyphPosition::zero());
    let mut out = buffer.begin_position_pass();
    assert!(out.is_empty());
    assert!(buffer.scratch_pos.is_empty());
    let mut moved = GlyphPosition::zero();
    moved.x_advance = 7;
    out.push(moved);
    buffer.end_position_pass(out);
    assert_eq!(buffer.pos, vec![moved]);
    assert_eq!(buffer.scratch_pos, vec![GlyphPosition::zero()]);
    let out = buffer.begin_position_pass();
    assert!(out.is_empty());
    assert!(out.capacity() >= 1);
    assert!(buffer.scratch_pos.is_empty());
    assert_eq!(buffer.pos, vec![moved]);
    assert_eq!(buffer.info.len(), 1);
}

#[test]
fn scratch_space_reads_as_bytes_halves_and_whole() {
    let mut var = hb_var_int_t::from_u32(0x1234_5678);
    assert_eq!((var.b0, var.b1, var.b2, var.b3), (0x78, 0x56, 0x34, 0x12));
    assert_eq!(var.as_u32(), 0x1234_5678);
    assert_eq!(var.u16_at(0), 0x5678);
    assert_eq!(var.u16_at(1), 0x1234);
    assert_eq!(var.u8_at(0), 0x78);
    assert_eq!(var.u8_at(3), 0x12);
    assert_eq!(var.u8_at(9), 0x12);
    var.set_u16(0, 0xABCD);
    assert_eq!(var.as_u32(), 0x1234_ABCD);
    var.set_u16(1, 0xFFFF);
    assert_eq!(var.as_u32(), 0xFFFF_ABCD);
    var.set_u8(1, 0);
    assert_eq!(var.as_u32(), 0xFFFF_00CD);
    var.set_u8(7, 1);
    assert_eq!(var.as_u32(), 0x01FF_00CD);
    assert_eq!(var.as_i32(), 0x01FF_00CD);
    assert_eq!(var.i16_at(0), 0x00CD);
    assert_eq!(var.i8_at(0), -51);
    assert_eq!(var.i8_at(2), -1);
    assert_eq!(hb_var_int_t::from_u32(u32::MAX).as_i32(), -1);
    assert_eq!(hb_var_int_t::from_u32(0x8000_0000).as_i32(), i32::MIN);
    assert_eq!(hb_var_int_t::from_u32(0x7FFF_8000).i16_at(0), i16::MIN);
    assert_eq!(hb_var_int_t::from_u32(0x7FFF_8000).i16_at(1), i16::MAX);
    assert_eq!(hb_var_int_t::from_u32(0x80).i8_at(0), i8::MIN);
    assert_eq!(hb_var_int_t::zero().as_u32(), 0);
    assert_eq!(hb_var_int_t::from_u32(u32::MAX).as_u32(), u32::MAX);
}

#[test]
fn extents_come_from_the_corners_of_the_box() {
    let extents = hb_glyph_extents_t::from_bounds(-10, -20, 30, 40);
    assert_eq!(extents.x_bearing, -10);
    assert_eq!(extents.y_bearing, 40);
    assert_eq!(extents.width, 40);
    assert_eq!(extents.height, -60);
    let wide = hb_glyph_extents_t::from_bounds(i16::MIN, i16::MIN, i16::MAX, i16::MAX);
    assert_eq!(wide.width, 65535);
    assert_eq!(wide.height, -65535);
}

#[test]
fn directions_know_their_axis() {
    assert!(Direction::LeftToRight.is_horizontal());
    assert!(Direction::RightToLeft.is_horizontal());
    assert!(!Direction::TopToBottom.is_horizontal());
    assert!(!Direction::Invalid.is_horizontal());
    assert!(Direction::TopToBottom.is_vertical());
    assert!(Direction::BottomToTop.is_vertical());
    assert!(!Direction::Invalid.is_vertical());
    assert!(Direction::RightToLeft.is_backward());
    assert!(Direction::BottomToTop.is_backward());
    assert!(!Direction::LeftToRight.is_backward());
    assert!(!Direction::TopToBottom.is_backward());
    assert!(!Direction::Invalid.is_valid());
    assert!(Direction::LeftToRight.is_valid());
    assert_eq!(Script(Tag::from_bytes(b"Thaa")).default_direction(), Direction::RightToLeft);
    assert_eq!(Script(Tag::from_bytes(b"Phag")).default_direction(), Direction::TopToBottom);
    assert_eq!(Script(Tag::from_bytes(b"Grek")).default_direction(), Direction::LeftToRight);
    assert!(Script(Tag::from_bytes(b"Zinh")).is_neutral());
    assert!(!Script(Tag::from_bytes(b"Latn")).is_neutral());
}

#[test]
fn a_feature_covers_a_half_open_range() {
    let feature = Feature::new(Tag::from_bytes(b"test"), 1, 2, 5);
    assert!(!feature.is_global());
    assert!(!feature.applies_to(1));
    assert!(feature.applies_to(2));
    assert!(feature.applies_to(4));
    assert!(!feature.applies_to(5));
    let whole = Feature::whole_run(Tag::from_bytes(b"test"), 1);
    assert!(whole.is_global());
    assert_eq!((whole.start, whole.end), (0, u32::MAX));
    let backwards = Feature::new(Tag::from_bytes(b"test"), 1, 5, 2);
    assert!((0..10).all(|cluster| !backwards.applies_to(cluster)));
}
