use rustybuzz::common::{Direction, Feature, Language, Script, hb_segment_properties_t};
use rustybuzz::complex::{ComplexShaper, NormalizationPreference, MAX_DECOMPOSITION};
use rustybuzz::face::{hb_blob_t, hb_face_t, LayoutLookup, LookupRule, TableKind};
use rustybuzz::map::{
    bit_storage, choose_script, hb_ot_map_builder_t, table_of_feature, FeatureFlags, Pause,
    ScriptChoice,
};
use rustybuzz::plan::{hb_ot_shape_plan_t, hb_ot_shape_planner_t};
use rustybuzz::tag::Tag;

fn bare_face() -> hb_face_t {
    hb_face_t {
        blob: hb_blob_t::new(Vec::new()),
        index: 0,
        gsub: Vec::new(),
        gpos: Vec::new(),
        gsub_scripts: Vec::new(),
        gpos_scripts: Vec::new(),
    }
}

fn single(feature: &[u8; 4]) -> LayoutLookup {
    LayoutLookup {
        feature: Tag::from_bytes(feature),
        rules: vec![LookupRule::Single { glyph: 1, substitute: 2 }],
    }
}

fn props(script: &[u8; 4], direction: Direction) -> hb_segment_properties_t {
    hb_segment_properties_t {
        direction,
        script: Script(Tag::from_bytes(script)),
        language: Language::unset(),
    }
}

#[test]
fn a_value_takes_as_many_bits_as_it_needs() {
    assert_eq!(bit_storage(0), 0);
    assert_eq!(bit_storage(1), 1);
    assert_eq!(bit_storage(2), 2);
    assert_eq!(bit_storage(3), 2);
    assert_eq!(bit_storage(4), 3);
    assert_eq!(bit_storage(255), 8);
    assert_eq!(bit_storage(256), 9);
    assert_eq!(bit_storage(u32::MAX), 32);
}

#[test]
fn features_get_bits_in_the_order_in_which_they_were_asked_for() {
    let a = Tag::from_bytes(b"aaaa");
    let b = Tag::from_bytes(b"bbbb");
    let c = Tag::from_bytes(b"cccc");
    let d = Tag::from_bytes(b"dddd");
    let mut builder = hb_ot_map_builder_t::new();
    builder.enable_feature(a);
    builder.add_feature(b, FeatureFlags::whole_run(), 5);
    builder.add_feature(c, FeatureFlags::ranged(), 1);
    builder.disable_feature(d);
    let map = builder.compile(&bare_face(), Script::unset());
    assert_eq!(map.features.len(), 3);
    assert_eq!(map.get_mask(a), Some((0x1, 0)));
    assert_eq!(map.get_mask(b), Some((0xE, 1)));
    assert_eq!(map.get_mask(c), Some((0x10, 4)));
    assert_eq!(map.get_mask(d), None);
    assert_eq!(map.get_1_mask(a), 0x1);
    assert_eq!(map.get_1_mask(b), 0x2);
    assert_eq!(map.get_1_mask(c), 0x10);
    assert_eq!(map.get_1_mask(d), 0);
    assert_eq!(map.global_mask(), 0x1 | (5 << 1));
    assert_eq!(map.features[1].width, 3);
}

#[test]
fn requests_for_one_feature_are_joined() {
    let a = Tag::from_bytes(b"aaaa");
    let mut builder = hb_ot_map_builder_t::new();
    builder.enable_feature(a);
    builder.add_feature(a, FeatureFlags::ranged(), 3);
    let map = builder.compile(&bare_face(), Script::unset());
    assert_eq!(map.features.len(), 1);
    assert_eq!(map.get_mask(a), Some((0x3, 0)));
    // Outside every range the feature keeps the value of the whole run.
    assert_eq!(map.global_mask(), 0x1);

    let mut builder = hb_ot_map_builder_t::new();
    builder.add_feature(a, FeatureFlags::ranged(), 3);
    builder.add_feature(a, FeatureFlags::whole_run(), 1);
    let map = builder.compile(&bare_face(), Script::unset());
    assert_eq!(map.get_mask(a), Some((0x1, 0)));
    assert_eq!(map.global_mask(), 0x1);

    let mut builder = hb_ot_map_builder_t::new();
    builder.enable_feature(a);
    builder.disable_feature(a);
    let map = builder.compile(&bare_face(), Script::unset());
    assert_eq!(map.features.len(), 0);
    assert_eq!(map.global_mask(), 0);
}

#[test]
fn a_feature_that_does_not_fit_gets_no_bits() {
    let mut builder = hb_ot_map_builder_t::new();
    for i in 0..33u32 {
        builder.enable_feature(Tag(0x1000 + i));
    }
    let map = builder.compile(&bare_face(), Script::unset());
    assert_eq!(map.features.len(), 32);
    assert_eq!(map.get_1_mask(Tag(0x1000 + 31)), 0x8000_0000);
    assert_eq!(map.get_1_mask(Tag(0x1000 + 32)), 0);
    assert_eq!(map.global_mask(), u32::MAX);

    let mut builder = hb_ot_map_builder_t::new();
    builder.add_feature(Tag(1), FeatureFlags::whole_run(), 0x7FFF_FFFF);
    builder.add_feature(Tag(2), FeatureFlags::whole_run(), 2);
    builder.enable_feature(Tag(3));
    let map = builder.compile(&bare_face(), Script::unset());
    assert_eq!(map.get_mask(Tag(1)), Some((0x7FFF_FFFF, 0)));
    assert_eq!(map.get_mask(Tag(2)), None);
    assert_eq!(map.get_mask(Tag(3)), Some((0x8000_0000, 31)));
}

#[test]
fn no_two_features_of_a_plan_share_a_bit() {
    let features = vec![
        Feature::new(Tag::from_bytes(b"test"), 6, 1, 3),
        Feature::whole_run(Tag::from_bytes(b"salt"), 2),
    ];
    let plan = hb_ot_shape_plan_t::new(
        &bare_face(),
        props(b"Latn", Direction::LeftToRight),
        &features,
    );
    let slots = &plan.ot_map().features;
    assert_eq!(slots.len(), 16);
    let mut seen: u32 = 0;
    for slot in slots.iter() {
        assert_ne!(slot.mask, 0);
        assert_eq!(seen & slot.mask, 0);
        assert_eq!(slot.mask & slot.one_mask, slot.one_mask);
        seen |= slot.mask;
    }
    assert_eq!(plan.ot_map().get_mask(Tag::from_bytes(b"test")), Some((0x1_C000, 14)));
    assert_eq!(plan.ot_map().get_mask(Tag::from_bytes(b"salt")), Some((0x6_0000, 17)));
    assert_eq!(plan.ot_map().global_mask(), 0x3FFF | (2 << 17));
}

#[test]
fn lookups_run_in_the_stage_of_their_feature_by_ascending_index() {
    let x = Tag::from_bytes(b"xxxx");
    let y = Tag::from_bytes(b"yyyy");
    let mut face = bare_face();
    face.add_lookup(TableKind::Substitution, single(b"yyyy"));
    face.add_lookup(TableKind::Substitution, single(b"xxxx"));
    face.add_lookup(TableKind::Substitution, single(b"yyyy"));
    face.add_lookup(TableKind::Substitution, single(b"zzzz"));
    face.add_lookup(TableKind::Substitution, single(b"kern"));
    face.add_lookup(TableKind::Positioning, single(b"kern"));
    face.add_lookup(TableKind::Positioning, single(b"xxxx"));
    let mut builder = hb_ot_map_builder_t::new();
    builder.enable_feature(x);
    builder.add_gsub_pause(Pause::ClearSyllables);
    builder.enable_feature(y);
    builder.enable_feature(Tag::from_bytes(b"kern"));
    let map = builder.compile(&face, Script::unset());
    assert_eq!(map.stage_count(TableKind::Substitution), 2);
    assert_eq!(map.stage_count(TableKind::Positioning), 1);
    let first = map.get_stage_lookups(TableKind::Substitution, 0).unwrap();
    assert_eq!(first.len(), 1);
    assert_eq!(first[0].index, 1);
    assert_eq!(first[0].mask, 0x1);
    assert!(first[0].auto_zwj && first[0].auto_zwnj && !first[0].random);
    let second = map.get_stage_lookups(TableKind::Substitution, 1).unwrap();
    let indices: Vec<u16> = second.iter().map(|record| record.index).collect();
    assert_eq!(indices, vec![0, 2]);
    assert!(second.iter().all(|record| record.mask == 0x2));
    assert!(map.get_stage_lookups(TableKind::Substitution, 2).is_none());
    let moving = map.get_stage_lookups(TableKind::Positioning, 0).unwrap();
    assert_eq!(moving.len(), 1);
    assert_eq!(moving[0].index, 0);
    assert_eq!(moving[0].mask, 0x4);
    assert_eq!(map.gsub_stages[0].pause, Some(Pause::ClearSyllables));
    assert_eq!(map.gsub_stages[1].pause, None);
    assert_eq!(map.get_feature_stage(TableKind::Substitution, x), Some(0));
    assert_eq!(map.get_feature_stage(TableKind::Substitution, y), Some(1));
    assert_eq!(map.get_feature_stage(TableKind::Positioning, y), Some(0));
    assert_eq!(map.get_feature_stage(TableKind::Substitution, Tag::from_bytes(b"zzzz")), None);
}

#[test]
fn features_that_move_glyphs_belong_to_the_positioning_table() {
    for tag in [b"kern", b"mark", b"mkmk", b"curs", b"dist", b"abvm", b"blwm"] {
        assert_eq!(table_of_feature(Tag::from_bytes(tag)), TableKind::Positioning);
    }
    for tag in [b"liga", b"ccmp", b"salt", b"test"] {
        assert_eq!(table_of_feature(Tag::from_bytes(tag)), TableKind::Substitution);
    }
}

#[test]
fn every_script_gets_a_shaper() {
    assert_eq!(ComplexShaper::for_script(Script(Tag::from_bytes(b"Latn"))), ComplexShaper::Default);
    assert_eq!(ComplexShaper::for_script(Script(Tag::from_bytes(b"Zzzz"))), ComplexShaper::Default);
    assert_eq!(ComplexShaper::for_script(Script(Tag::from_bytes(b"Deva"))), ComplexShaper::Indic);
    assert_eq!(ComplexShaper::for_script(Script(Tag::from_bytes(b"Mlym"))), ComplexShaper::Indic);
    assert_eq!(ComplexShaper::for_script(Script(Tag::from_bytes(b"Arab"))), ComplexShaper::Arabic);
    assert_eq!(ComplexShaper::for_script(Script::unset()), ComplexShaper::Default);
    assert_eq!(
        ComplexShaper::Default.normalization_preference(),
        NormalizationPreference::PreferComposed
    );
    assert_eq!(
        ComplexShaper::Indic.normalization_preference(),
        NormalizationPreference::PreferDecomposed
    );
    assert_eq!(ComplexShaper::Default.stage_pauses(), Vec::new());
    assert_eq!(ComplexShaper::Indic.stage_pauses(), vec![Pause::ClearSyllables]);
    assert_eq!(ComplexShaper::Arabic.stage_pauses(), vec![Pause::ClearSubstitutionFlags]);
}

#[test]
fn a_shaper_decomposes_and_composes_in_its_own_way() {
    assert_eq!(ComplexShaper::Default.decompose(0x0931), vec![0x0930, 0x093C]);
    assert_eq!(ComplexShaper::Indic.decompose(0x0931), vec![0x0931]);
    assert_eq!(ComplexShaper::Indic.decompose(0x0958), vec![0x0915, 0x093C]);
    assert_eq!(ComplexShaper::Indic.decompose(0x00E9), vec![0x0065, 0x0301]);
    assert_eq!(ComplexShaper::Default.compose(0x0065, 0x0301), Some(0x00E9));
    assert_eq!(ComplexShaper::Indic.compose(0x0065, 0x0301), Some(0x00E9));
    // Two vowel signs that compose: the Indic family keeps them apart.
    assert_eq!(ComplexShaper::Default.compose(0x09C7, 0x09BE), Some(0x09CB));
    assert_eq!(ComplexShaper::Indic.compose(0x09C7, 0x09BE), None);
    assert_eq!(ComplexShaper::Default.compose(0x0308, 0x0301), None);
}

#[test]
fn the_indic_plan_has_two_stages_and_no_standard_ligatures() {
    let mut face = bare_face();
    face.add_lookup(TableKind::Substitution, single(b"pres"));
    face.add_lookup(TableKind::Substitution, single(b"nukt"));
    face.add_lookup(TableKind::Substitution, single(b"liga"));
    face.add_lookup(TableKind::Substitution, single(b"ccmp"));
    let plan = hb_ot_shape_plan_t::new(&face, props(b"Deva", Direction::LeftToRight), &Vec::new());
    assert_eq!(plan.shaper(), ComplexShaper::Indic);
    assert_eq!(plan.script(), Script(Tag::from_bytes(b"Deva")));
    assert!(!plan.has_gpos_mark());
    let map = plan.ot_map();
    assert_eq!(map.stage_count(TableKind::Substitution), 2);
    assert_eq!(map.gsub_stages[0].pause, Some(Pause::ClearSyllables));
    assert_eq!(map.gsub_stages[1].pause, None);
    assert_eq!(map.get_1_mask(Tag::from_bytes(b"liga")), 0);
    assert_eq!(map.get_1_mask(Tag::from_bytes(b"nukt")), 0x1);
    let first = map.get_stage_lookups(TableKind::Substitution, 0).unwrap();
    assert_eq!(first.len(), 1);
    assert_eq!(first[0].index, 1);
    assert!(!first[0].auto_zwj && !first[0].auto_zwnj);
    let second = map.get_stage_lookups(TableKind::Substitution, 1).unwrap();
    let indices: Vec<u16> = second.iter().map(|record| record.index).collect();
    assert_eq!(indices, vec![0, 3]);
    assert!(!second[0].auto_zwj);
    assert!(second[1].auto_zwj);
}

#[test]
fn the_arabic_plan_keeps_the_joiners_out_of_its_ligatures() {
    let mut face = bare_face();
    face.add_lookup(TableKind::Substitution, single(b"rlig"));
    face.add_lookup(TableKind::Substitution, single(b"ccmp"));
    face.add_lookup(TableKind::Substitution, single(b"liga"));
    let plan = hb_ot_shape_plan_t::new(&face, props(b"Arab", Direction::RightToLeft), &Vec::new());
    assert_eq!(plan.shaper(), ComplexShaper::Arabic);
    let map = plan.ot_map();
    assert_eq!(map.stage_count(TableKind::Substitution), 2);
    assert_eq!(map.gsub_stages[0].pause, Some(Pause::ClearSubstitutionFlags));
    let first = map.get_stage_lookups(TableKind::Substitution, 0).unwrap();
    assert_eq!(first.len(), 1);
    assert_eq!(first[0].index, 1);
    assert!(first[0].auto_zwj);
    let second = map.get_stage_lookups(TableKind::Substitution, 1).unwrap();
    let indices: Vec<u16> = second.iter().map(|record| record.index).collect();
    assert_eq!(indices, vec![0, 2]);
    assert!(!second[0].auto_zwj && !second[0].auto_zwnj);
    assert!(second[1].auto_zwj && second[1].auto_zwnj);
}

#[test]
fn a_vertical_run_asks_for_the_vertical_forms() {
    let plan = hb_ot_shape_plan_t::new(
        &bare_face(),
        props(b"Mong", Direction::TopToBottom),
        &Vec::new(),
    );
    let map = plan.ot_map();
    assert_eq!(map.features.len(), 8);
    assert_eq!(map.get_1_mask(Tag::from_bytes(b"vert")), 0x80);
    assert_eq!(map.get_1_mask(Tag::from_bytes(b"liga")), 0);
    assert_eq!(map.global_mask(), 0xFF);
}

#[test]
fn a_planner_collects_before_it_compiles() {
    let mut planner = hb_ot_shape_planner_t::new(props(b"Latn", Direction::LeftToRight));
    assert_eq!(planner.script(), Script(Tag::from_bytes(b"Latn")));
    assert_eq!(planner.ot_map().requests.len(), 0);
    let features = vec![Feature::whole_run(Tag::from_bytes(b"liga"), 0)];
    planner.collect_features(&features);
    assert_eq!(planner.ot_map().requests.len(), 15);
    let mut face = bare_face();
    face.add_lookup(
        TableKind::Positioning,
        LayoutLookup {
            feature: Tag::from_bytes(b"mark"),
            rules: vec![LookupRule::MarkToBase { mark: 1, base: 2, x_offset: 0, y_offset: 0 }],
        },
    );
    let plan = planner.compile(&face);
    assert!(plan.has_gpos_mark());
    assert_eq!(plan.ot_map().features.len(), 13);

    // A mark lookup whose feature is switched off places no marks.
    let off = vec![Feature::whole_run(Tag::from_bytes(b"mark"), 0)];
    let plan = hb_ot_shape_plan_t::new(&face, props(b"Latn", Direction::LeftToRight), &off);
    assert!(!plan.has_gpos_mark());
}

#[test]
fn a_table_serves_a_run_under_its_script_or_the_default_one() {
    let latin = Tag::from_bytes(b"latn");
    let default = Tag::from_bytes(b"DFLT");
    let listed = vec![Tag::from_bytes(b"arab"), latin];
    assert_eq!(
        choose_script(&listed, Script(Tag::from_bytes(b"Latn"))),
        ScriptChoice { found: true, chosen: latin }
    );
    assert_eq!(
        choose_script(&listed, Script(Tag::from_bytes(b"latn"))),
        ScriptChoice { found: true, chosen: latin }
    );
    assert_eq!(
        choose_script(&listed, Script(Tag::from_bytes(b"Deva"))),
        ScriptChoice { found: false, chosen: default }
    );
    assert_eq!(
        choose_script(&Vec::new(), Script(Tag::from_bytes(b"Latn"))),
        ScriptChoice { found: false, chosen: default }
    );

    let mut face = bare_face();
    face.add_script(TableKind::Substitution, latin);
    face.add_script(TableKind::Positioning, Tag::from_bytes(b"arab"));
    assert_eq!(face.gsub_scripts, vec![latin]);
    let plan = hb_ot_shape_plan_t::new(&face, props(b"Latn", Direction::LeftToRight), &Vec::new());
    let map = plan.ot_map();
    assert!(map.get_found_script(TableKind::Substitution));
    assert_eq!(map.get_chosen_script(TableKind::Substitution), latin);
    assert!(!map.get_found_script(TableKind::Positioning));
    assert_eq!(map.get_chosen_script(TableKind::Positioning), default);
}

#[test]
fn a_code_point_with_too_many_parts_stays_whole() {
    assert_eq!(MAX_DECOMPOSITION, 8);
    // The longest canonical decompositions have four parts.
    assert_eq!(ComplexShaper::Default.decompose(0x1F82), vec![0x03B1, 0x0313, 0x0300, 0x0345]);
    assert_eq!(ComplexShaper::Default.decompose(0xD55C), vec![0x1112, 0x1161, 0x11AB]);
}
