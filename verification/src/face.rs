//! The font as the shaper sees it: which characters it covers, how far its
//! glyphs advance, which tables it holds and which lookups it offers.
use vstd::prelude::*;
use crate::common::hb_glyph_extents_t;
use crate::tag::Tag;
use crate::unicode::is_scalar_value;

verus! {

/// Whether the bytes parse as a font of which `index` names a face.
pub uninterp spec fn face_parses(data: Seq<u8>, index: u32) -> bool;

/// Whether the table directory of the face lists a table with this tag whose
/// bytes lie inside the data.
pub uninterp spec fn face_table_present(data: Seq<u8>, index: u32, tag: u32) -> bool;

/// The glyph that the character map of the face gives a character.
pub uninterp spec fn face_glyph_index(data: Seq<u8>, index: u32, c: char) -> Option<u16>;

/// The horizontal advance that the face gives a glyph.
pub uninterp spec fn face_hor_advance(data: Seq<u8>, index: u32, glyph: u16) -> Option<u16>;

/// The vertical advance that the face gives a glyph.
pub uninterp spec fn face_ver_advance(data: Seq<u8>, index: u32, glyph: u16) -> Option<u16>;

/// The bounding box that the face gives a glyph: its least x and y, then its
/// greatest x and y.
pub uninterp spec fn face_bounding_box(data: Seq<u8>, index: u32, glyph: u16) -> Option<
    (i16, i16, i16, i16),
>;

/// `ttf_parser::Face::parse`: whether it accepts the bytes and the face
/// index. The answer depends on the bytes and the index alone.
#[verifier::external_body]
fn parse_succeeds(data: &Vec<u8>, index: u32) -> (ok: bool)
    ensures
        ok == face_parses(data@, index),
{
    ttf_parser::Face::parse(data, index).is_ok()
}

/// `ttf_parser::RawFace::table`, on the face that `ttf_parser::RawFace::parse`
/// reads from the bytes: whether it finds the bytes of the table. No table is
/// found in bytes that do not parse.
#[verifier::external_body]
fn table_present(data: &Vec<u8>, index: u32, tag: u32) -> (present: bool)
    ensures
        present == face_table_present(data@, index, tag),
{
    match ttf_parser::RawFace::parse(data, index) {
        Ok(face) => face.table(ttf_parser::Tag(tag)).is_some(),
        Err(_) => false,
    }
}

/// `ttf_parser::Face::glyph_index`, on the face that `ttf_parser::Face::parse`
/// reads from the bytes: the glyph of the character in the first Unicode
/// subtable of the character map that has one. Bytes that do not parse give
/// no glyph.
#[verifier::external_body]
fn glyph_index(data: &Vec<u8>, index: u32, c: char) -> (glyph: Option<u16>)
    ensures
        glyph == face_glyph_index(data@, index, c),
{
    match ttf_parser::Face::parse(data, index) {
        Ok(face) => face.glyph_index(c).map(|id| id.0),
        Err(_) => None,
    }
}

/// `ttf_parser::Face::glyph_hor_advance`, on the face that
/// `ttf_parser::Face::parse` reads from the bytes: the horizontal advance of
/// the glyph in font units. Bytes that do not parse give none.
#[verifier::external_body]
fn glyph_hor_advance(data: &Vec<u8>, index: u32, glyph: u16) -> (advance: Option<u16>)
    ensures
        advance == face_hor_advance(data@, index, glyph),
{
    match ttf_parser::Face::parse(data, index) {
        Ok(face) => face.glyph_hor_advance(ttf_parser::GlyphId(glyph)),
        Err(_) => None,
    }
}

/// `ttf_parser::Face::glyph_ver_advance`, on the face that
/// `ttf_parser::Face::parse` reads from the bytes: the vertical advance of
/// the glyph in font units. Bytes that do not parse give none.
#[verifier::external_body]
fn glyph_ver_advance(data: &Vec<u8>, index: u32, glyph: u16) -> (advance: Option<u16>)
    ensures
        advance == face_ver_advance(data@, index, glyph),
{
    match ttf_parser::Face::parse(data, index) {
        Ok(face) => face.glyph_ver_advance(ttf_parser::GlyphId(glyph)),
        Err(_) => None,
    }
}

/// `ttf_parser::Face::glyph_bounding_box`, on the face that
/// `ttf_parser::Face::parse` reads from the bytes: the four sides of the box
/// of the glyph. Bytes that do not parse give none.
#[verifier::external_body]
fn glyph_bounding_box(data: &Vec<u8>, index: u32, glyph: u16) -> (bounds: Option<
    (i16, i16, i16, i16),
>)
    ensures
        bounds == face_bounding_box(data@, index, glyph),
{
    match ttf_parser::Face::parse(data, index) {
        Ok(face) => face.glyph_bounding_box(ttf_parser::GlyphId(glyph)).map(
            |rect| (rect.x_min, rect.y_min, rect.x_max, rect.y_max),
        ),
        Err(_) => None,
    }
}

/// The bytes of a font file.
#[derive(Clone, Debug)]
pub struct hb_blob_t {
    pub data: Vec<u8>,
}

impl View for hb_blob_t {
    type V = Seq<u8>;

    open spec fn view(&self) -> Seq<u8> {
        self.data@
    }
}

impl hb_blob_t {
    pub fn new(data: Vec<u8>) -> (blob: hb_blob_t)
        ensures
            blob@ == data@,
    {
        hb_blob_t { data }
    }

    pub fn len(&self) -> (count: usize)
        ensures
            count == self@.len(),
    {
        self.data.len()
    }

    pub fn is_empty(&self) -> (empty: bool)
        ensures
            empty == (self@.len() == 0),
    {
        self.data.len() == 0
    }

    pub fn as_bytes(&self) -> (bytes: &Vec<u8>)
        ensures
            bytes@ == self@,
    {
        &self.data
    }
}

/// One of the two layout tables.
#[derive(Clone, Copy, Debug, PartialEq, Eq, Hash, Structural)]
pub enum TableKind {
    Substitution,
    Positioning,
}

/// What a rule of a lookup does where it matches.
#[derive(Clone, Debug)]
pub enum LookupRule {
    /// Puts `substitute` in place of `glyph`.
    Single { glyph: u32, substitute: u32 },
    /// Puts the glyphs of `sequence` in place of `glyph`; an empty sequence
    /// takes the glyph out.
    Multiple { glyph: u32, sequence: Vec<u32> },
    /// Puts `ligature` in place of the glyphs `components`, which stand next
    /// to each other in this order.
    Ligature { components: Vec<u32>, ligature: u32 },
    /// Puts one of `alternates` in place of `glyph`.
    Alternate { glyph: u32, alternates: Vec<u32> },
    /// Moves `glyph` by the placements and adds to its advances.
    Adjust { glyph: u32, x_placement: i32, y_placement: i32, x_advance: i32, y_advance: i32 },
    /// Adds `x_advance` to the advance of `first` where `second` follows it.
    Pair { first: u32, second: u32, x_advance: i32 },
    /// Attaches `mark` to the glyph `base` before it, shifted by the offsets.
    MarkToBase { mark: u32, base: u32, x_offset: i32, y_offset: i32 },
}

impl LookupRule {
    /// The rule rewrites glyphs.
    pub open spec fn substitutes(&self) -> bool {
        self is Single || self is Multiple || self is Ligature || self is Alternate
    }

    /// The rule attaches marks.
    pub open spec fn attaches_marks(&self) -> bool {
        self is MarkToBase
    }

    /// Whether the rule rewrites exactly this run of glyphs.
    pub open spec fn would_substitute(&self, glyphs: Seq<u32>) -> bool {
        match *self {
            LookupRule::Single { glyph, substitute } => glyphs == seq![glyph],
            LookupRule::Multiple { glyph, sequence } => glyphs == seq![glyph],
            LookupRule::Ligature { components, ligature } => components@.len() > 0 && glyphs
                == components@,
            LookupRule::Alternate { glyph, alternates } => alternates@.len() > 0 && glyphs
                == seq![glyph],
            _ => false,
        }
    }

    pub fn is_mark_attachment(&self) -> (yes: bool)
        ensures
            yes == self.attaches_marks(),
    {
        match self {
            LookupRule::MarkToBase { .. } => true,
            _ => false,
        }
    }

    /// Whether the rule rewrites exactly this run of glyphs.
    pub fn rewrites(&self, glyphs: &Vec<u32>) -> (yes: bool)
        ensures
            yes == self.would_substitute(glyphs@),
    {
        match self {
            LookupRule::Single { glyph, substitute } => {
                let yes = glyphs.len() == 1 && glyphs[0] == *glyph;
                assert(yes == (glyphs@ =~= seq![*glyph]));
                yes
            },
            LookupRule::Multiple { glyph, sequence } => {
                let yes = glyphs.len() == 1 && glyphs[0] == *glyph;
                assert(yes == (glyphs@ =~= seq![*glyph]));
                yes
            },
            LookupRule::Ligature { components, ligature } => {
                components.len() > 0 && same_glyphs(glyphs, components)
            },
            LookupRule::Alternate { glyph, alternates } => {
                let yes = glyphs.len() == 1 && glyphs[0] == *glyph;
                assert(yes == (glyphs@ =~= seq![*glyph]));
                alternates.len() > 0 && yes
            },
            _ => false,
        }
    }
}

/// Whether one of the first `count` rules attaches marks.
pub open spec fn rules_attach_marks(rules: Seq<LookupRule>, count: int) -> bool
    decreases count,
{
    if count <= 0 {
        false
    } else {
        rules_attach_marks(rules, count - 1) || rules[count - 1].attaches_marks()
    }
}

/// Whether one of the first `count` rules rewrites exactly this run of
/// glyphs.
pub open spec fn rules_would_substitute(
    rules: Seq<LookupRule>,
    glyphs: Seq<u32>,
    count: int,
) -> bool
    decreases count,
{
    if count <= 0 {
        false
    } else {
        rules_would_substitute(rules, glyphs, count - 1) || rules[count - 1].would_substitute(
            glyphs,
        )
    }
}

/// A lookup of a layout table: the feature that switches it on, and its
/// rules. At each place of a run the first rule that matches there is the
/// one that acts. The index of a lookup is its place in the list of its
/// table.
#[derive(Clone, Debug)]
pub struct LayoutLookup {
    pub feature: Tag,
    pub rules: Vec<LookupRule>,
}

impl LayoutLookup {
    /// One of the rules of the lookup attaches marks.
    pub open spec fn attaches_marks(&self) -> bool {
        rules_attach_marks(self.rules@, self.rules@.len() as int)
    }

    /// A lookup with one rule.
    pub fn with_rule(feature: Tag, rule: LookupRule) -> (lookup: LayoutLookup)
        ensures
            lookup.feature == feature,
            lookup.rules@ == seq![rule],
    {
        let mut rules: Vec<LookupRule> = Vec::new();
        rules.push(rule);
        assert(rules@ =~= seq![rule]);
        LayoutLookup { feature, rules }
    }

    /// Whether one of the rules of the lookup attaches marks.
    pub fn is_mark_attachment(&self) -> (yes: bool)
        ensures
            yes == self.attaches_marks(),
    {
        let mut yes = false;
        let mut i: usize = 0;
        while i < self.rules.len()
            invariant
                i <= self.rules@.len(),
                yes == rules_attach_marks(self.rules@, i as int),
            decreases self.rules@.len() - i,
        {
            if self.rules[i].is_mark_attachment() {
                yes = true;
            }
            i += 1;
        }
        yes
    }
}

/// The most lookups that one table holds: a lookup index has 16 bits.
pub const MAX_LOOKUPS: usize = 0x1_0000;

/// A font face: the bytes of the font, the number of the face in them,
/// the lookups of its two layout tables, and the scripts that each of the
/// two tables lists.
#[derive(Clone, Debug)]
pub struct hb_face_t {
    pub blob: hb_blob_t,
    pub index: u32,
    pub gsub: Vec<LayoutLookup>,
    pub gpos: Vec<LayoutLookup>,
    pub gsub_scripts: Vec<Tag>,
    pub gpos_scripts: Vec<Tag>,
}

impl hb_face_t {
    /// Every lookup has an index of 16 bits.
    pub open spec fn wf(&self) -> bool {
        &&& self.gsub@.len() <= MAX_LOOKUPS
        &&& self.gpos@.len() <= MAX_LOOKUPS
    }

    /// Whether every lookup has an index of 16 bits.
    pub fn is_well_formed(&self) -> (ok: bool)
        ensures
            ok == self.wf(),
    {
        self.gsub.len() <= MAX_LOOKUPS && self.gpos.len() <= MAX_LOOKUPS
    }

    /// The lookups of a table.
    pub open spec fn lookups(&self, table: TableKind) -> Seq<LayoutLookup> {
        match table {
            TableKind::Substitution => self.gsub@,
            TableKind::Positioning => self.gpos@,
        }
    }

    /// The scripts that a table lists.
    pub open spec fn scripts(&self, table: TableKind) -> Seq<Tag> {
        match table {
            TableKind::Substitution => self.gsub_scripts@,
            TableKind::Positioning => self.gpos_scripts@,
        }
    }

    /// Whether the face holds a table. For the two layout tables the face
    /// answers from the lookups that it was given, for every other table
    /// from the table directory of the font.
    pub open spec fn table_exists(&self, tag: u32) -> bool {
        if tag == crate::tag::TABLE_SUBSTITUTION {
            self.gsub@.len() > 0
        } else if tag == crate::tag::TABLE_POSITIONING {
            self.gpos@.len() > 0
        } else {
            face_table_present(self.blob@, self.index, tag)
        }
    }

    /// The face with this number in the bytes of a font, without lookups;
    /// `None` where the bytes do not parse or hold no face with this number.
    pub fn new(blob: hb_blob_t, index: u32) -> (face: Option<hb_face_t>)
        ensures
            face is Some <==> face_parses(blob@, index),
            face matches Some(f) ==> f.wf() && f.blob@ == blob@ && f.index == index
                && f.gsub@.len() == 0 && f.gpos@.len() == 0 && f.gsub_scripts@.len() == 0
                && f.gpos_scripts@.len() == 0,
    {
        if parse_succeeds(&blob.data, index) {
            Some(
                hb_face_t {
                    blob,
                    index,
                    gsub: Vec::new(),
                    gpos: Vec::new(),
                    gsub_scripts: Vec::new(),
                    gpos_scripts: Vec::new(),
                },
            )
        } else {
            None
        }
    }

    /// Notes that a table lists a script, under the tag that layout tables
    /// use for it.
    pub fn add_script(&mut self, table: TableKind, script: Tag)
        ensures
            final(self).blob == old(self).blob,
            final(self).index == old(self).index,
            final(self).gsub == old(self).gsub,
            final(self).gpos == old(self).gpos,
            final(self).scripts(table) == old(self).scripts(table).push(script),
            final(self).scripts(other_table(table)) == old(self).scripts(other_table(table)),
    {
        match table {
            TableKind::Substitution => {
                self.gsub_scripts.push(script);
            },
            TableKind::Positioning => {
                self.gpos_scripts.push(script);
            },
        }
    }

    /// Adds a lookup at the end of a table and returns its index; `None`,
    /// and no change, where the table is full.
    pub fn add_lookup(&mut self, table: TableKind, lookup: LayoutLookup) -> (index: Option<u16>)
        requires
            old(self).wf(),
        ensures
            final(self).wf(),
            final(self).blob == old(self).blob,
            final(self).index == old(self).index,
            index is Some <==> old(self).lookups(table).len() < MAX_LOOKUPS,
            index matches Some(i) ==> i == old(self).lookups(table).len()
                && final(self).lookups(table) == old(self).lookups(table).push(lookup),
            index is None ==> final(self).lookups(table) == old(self).lookups(table),
            final(self).lookups(other_table(table)) == old(self).lookups(other_table(table)),
            final(self).gsub_scripts == old(self).gsub_scripts,
            final(self).gpos_scripts == old(self).gpos_scripts,
    {
        match table {
            TableKind::Substitution => {
                let count = self.gsub.len();
                if count < MAX_LOOKUPS {
                    self.gsub.push(lookup);
                    Some(count as u16)
                } else {
                    None
                }
            },
            TableKind::Positioning => {
                let count = self.gpos.len();
                if count < MAX_LOOKUPS {
                    self.gpos.push(lookup);
                    Some(count as u16)
                } else {
                    None
                }
            },
        }
    }

    /// Whether the face holds a table.
    pub fn has_table(&self, tag: Tag) -> (present: bool)
        ensures
            present == self.table_exists(tag.0),
    {
        if tag.0 == crate::tag::TABLE_SUBSTITUTION {
            self.gsub.len() > 0
        } else if tag.0 == crate::tag::TABLE_POSITIONING {
            self.gpos.len() > 0
        } else {
            table_present(&self.blob.data, self.index, tag.0)
        }
    }

    /// Whether a rule of a lookup of the substitution table rewrites exactly
    /// this run of glyphs.
    pub open spec fn would_substitute(&self, lookup_index: u16, glyphs: Seq<u32>) -> bool {
        lookup_index < self.gsub@.len() && rules_would_substitute(
            self.gsub@[lookup_index as int].rules@,
            glyphs,
            self.gsub@[lookup_index as int].rules@.len() as int,
        )
    }

    /// Whether a rule of a lookup of the substitution table rewrites exactly
    /// this run of glyphs.
    pub fn lookup_would_substitute(&self, lookup_index: u16, glyphs: &Vec<u32>) -> (yes: bool)
        ensures
            yes == self.would_substitute(lookup_index, glyphs@),
    {
        if lookup_index as usize >= self.gsub.len() {
            return false;
        }
        let rules = &self.gsub[lookup_index as usize].rules;
        let mut yes = false;
        let mut i: usize = 0;
        while i < rules.len()
            invariant
                i <= rules@.len(),
                yes == rules_would_substitute(rules@, glyphs@, i as int),
            decreases rules@.len() - i,
        {
            if rules[i].rewrites(glyphs) {
                yes = true;
            }
            i += 1;
        }
        yes
    }
}

/// The table that is not this one.
pub open spec fn other_table(table: TableKind) -> TableKind {
    match table {
        TableKind::Substitution => TableKind::Positioning,
        TableKind::Positioning => TableKind::Substitution,
    }
}

/// Whether two runs of glyph ids are the same.
pub fn same_glyphs(a: &Vec<u32>, b: &Vec<u32>) -> (same: bool)
    ensures
        same == (a@ == b@),
{
    if a.len() != b.len() {
        return false;
    }
    let mut i: usize = 0;
    while i < a.len()
        invariant
            i <= a@.len(),
            a@.len() == b@.len(),
            forall|k: int| 0 <= k < i ==> a@[k] == b@[k],
        decreases a@.len() - i,
    {
        if a[i] != b[i] {
            return false;
        }
        i += 1;
    }
    assert(a@ =~= b@);
    true
}

/// A face as the shaper asks it for glyphs and their measures.
#[derive(Clone, Debug)]
pub struct hb_font_t {
    pub face: hb_face_t,
}

impl hb_font_t {
    /// The face is well formed.
    pub open spec fn wf(&self) -> bool {
        self.face.wf()
    }

    /// Whether the face is well formed.
    pub fn is_well_formed(&self) -> (ok: bool)
        ensures
            ok == self.wf(),
    {
        self.face.is_well_formed()
    }

    /// The glyph that the font has for a code point.
    pub open spec fn nominal_glyph(&self, cp: u32) -> Option<u32> {
        if is_scalar_value(cp) {
            match face_glyph_index(self.face.blob@, self.face.index, cp as char) {
                Some(glyph) => Some(glyph as u32),
                None => None,
            }
        } else {
            None
        }
    }

    /// The font has a glyph for the code point.
    pub open spec fn covers(&self, cp: u32) -> bool {
        self.nominal_glyph(cp) is Some
    }

    /// How far the pen moves to the right after a glyph of a horizontal run;
    /// zero for a glyph that the font does not measure.
    pub open spec fn horizontal_advance(&self, glyph: u32) -> i32 {
        if glyph <= u16::MAX {
            match face_hor_advance(self.face.blob@, self.face.index, glyph as u16) {
                Some(advance) => advance as i32,
                None => 0,
            }
        } else {
            0
        }
    }

    /// How far the pen moves up after a glyph of a vertical run, which is
    /// down, so never above zero; zero for a glyph that the font does not
    /// measure.
    pub open spec fn vertical_advance(&self, glyph: u32) -> i32 {
        if glyph <= u16::MAX {
            match face_ver_advance(self.face.blob@, self.face.index, glyph as u16) {
                Some(advance) => (0 - advance) as i32,
                None => 0,
            }
        } else {
            0
        }
    }

    /// The extents of a glyph, where the font has an outline for it.
    pub open spec fn extents(&self, glyph: u32) -> Option<hb_glyph_extents_t> {
        if glyph <= u16::MAX {
            match face_bounding_box(self.face.blob@, self.face.index, glyph as u16) {
                Some(bounds) => Some(
                    hb_glyph_extents_t {
                        x_bearing: bounds.0 as i32,
                        y_bearing: bounds.3 as i32,
                        width: (bounds.2 - bounds.0) as i32,
                        height: (bounds.1 - bounds.3) as i32,
                    },
                ),
                None => None,
            }
        } else {
            None
        }
    }

    pub fn new(face: hb_face_t) -> (font: hb_font_t)
        ensures
            font.face == face,
    {
        hb_font_t { face }
    }

    pub fn face(&self) -> (face: &hb_face_t)
        ensures
            *face == self.face,
    {
        &self.face
    }

    /// The glyph that the font has for a code point.
    pub fn glyph_for(&self, cp: u32) -> (glyph: Option<u32>)
        ensures
            glyph == self.nominal_glyph(cp),
    {
        match crate::unicode::scalar_value(cp) {
            Some(c) => match glyph_index(&self.face.blob.data, self.face.index, c) {
                Some(glyph) => Some(glyph as u32),
                None => None,
            },
            None => None,
        }
    }

    /// Whether the font has a glyph for a code point.
    pub fn has_glyph(&self, cp: u32) -> (yes: bool)
        ensures
            yes == self.covers(cp),
    {
        self.glyph_for(cp).is_some()
    }

    /// The horizontal advance of a glyph.
    pub fn h_advance(&self, glyph: u32) -> (advance: i32)
        ensures
            advance == self.horizontal_advance(glyph),
            0 <= advance <= u16::MAX,
    {
        if glyph <= 0xFFFF {
            match glyph_hor_advance(&self.face.blob.data, self.face.index, glyph as u16) {
                Some(advance) => advance as i32,
                None => 0,
            }
        } else {
            0
        }
    }

    /// The vertical advance of a glyph.
    pub fn v_advance(&self, glyph: u32) -> (advance: i32)
        ensures
            advance == self.vertical_advance(glyph),
            -(u16::MAX as int) <= advance <= 0,
    {
        if glyph <= 0xFFFF {
            match glyph_ver_advance(&self.face.blob.data, self.face.index, glyph as u16) {
                Some(advance) => 0 - advance as i32,
                None => 0,
            }
        } else {
            0
        }
    }

    /// The extents of a glyph, where the font has an outline for it.
    pub fn glyph_extents(&self, glyph: u32) -> (extents: Option<hb_glyph_extents_t>)
        ensures
            extents == self.extents(glyph),
    {
        if glyph <= 0xFFFF {
            match glyph_bounding_box(&self.face.blob.data, self.face.index, glyph as u16) {
                Some(bounds) => Some(
                    hb_glyph_extents_t::from_bounds(bounds.0, bounds.1, bounds.2, bounds.3),
                ),
                None => None,
            }
        } else {
            None
        }
    }
}

} // verus!
