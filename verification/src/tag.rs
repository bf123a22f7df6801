//! Four-byte tags that name features, scripts, languages and font tables.
use vstd::prelude::*;

verus! {

/// A four-byte tag, first byte in the most significant position.
#[derive(Clone, Copy, Debug, PartialEq, Eq, Hash, Structural)]
pub struct Tag(pub u32);

/// The number that four tag bytes stand for.
pub open spec fn pack_tag(b0: u8, b1: u8, b2: u8, b3: u8) -> int {
    b0 as int * 0x100_0000 + b1 as int * 0x1_0000 + b2 as int * 0x100 + b3 as int
}

impl Tag {
    /// Builds a tag from its four bytes.
    pub fn from_bytes(bytes: &[u8; 4]) -> (tag: Tag)
        ensures
            tag.0 == pack_tag(bytes[0], bytes[1], bytes[2], bytes[3]),
    {
        let b0: u32 = bytes[0] as u32;
        let b1: u32 = bytes[1] as u32;
        let b2: u32 = bytes[2] as u32;
        let b3: u32 = bytes[3] as u32;
        Tag(b0 * 0x100_0000 + b1 * 0x1_0000 + b2 * 0x100 + b3)
    }

    /// Splits a tag into its four bytes.
    pub fn to_bytes(self) -> (bytes: [u8; 4])
        ensures
            self.0 == pack_tag(bytes[0], bytes[1], bytes[2], bytes[3]),
    {
        let v: u32 = self.0;
        let b0: u8 = (v / 0x100_0000) as u8;
        let b1: u8 = ((v / 0x1_0000) % 0x100) as u8;
        let b2: u8 = ((v / 0x100) % 0x100) as u8;
        let b3: u8 = (v % 0x100) as u8;
        [b0, b1, b2, b3]
    }

    /// True for the tag made of four zero bytes.
    pub fn is_null(&self) -> (null: bool)
        ensures
            null == (self.0 == 0),
    {
        self.0 == 0
    }

    /// The tag as a number.
    pub fn as_u32(&self) -> (value: u32)
        ensures
            value == self.0,
    {
        self.0
    }
}

/// Two tags built from the same bytes are the same tag, and the bytes of a
/// tag build that tag again.
pub proof fn lemma_tag_bytes_are_unique(a: [u8; 4], b: [u8; 4])
    requires
        pack_tag(a[0], a[1], a[2], a[3]) == pack_tag(b[0], b[1], b[2], b[3]),
    ensures
        a[0] == b[0],
        a[1] == b[1],
        a[2] == b[2],
        a[3] == b[3],
{
    let p = pack_tag(a[0], a[1], a[2], a[3]);
    assert(p % 0x100 == a[3] && p % 0x100 == b[3]);
    assert((p / 0x100) % 0x100 == a[2] && (p / 0x100) % 0x100 == b[2]);
    assert((p / 0x1_0000) % 0x100 == a[1] && (p / 0x1_0000) % 0x100 == b[1]);
    assert(p / 0x100_0000 == a[0] && p / 0x100_0000 == b[0]);
}

// Font tables.
pub const TABLE_CHARACTER_MAP: u32 = 0x636d_6170;
pub const TABLE_SUBSTITUTION: u32 = 0x4753_5542;
pub const TABLE_POSITIONING: u32 = 0x4750_4f53;

// Features every run asks for.
pub const FEATURE_ABVM: u32 = 0x6162_766d;
pub const FEATURE_BLWM: u32 = 0x626c_776d;
pub const FEATURE_COMPOSITION: u32 = 0x6363_6d70;
pub const FEATURE_LOCL: u32 = 0x6c6f_636c;
pub const FEATURE_MARK: u32 = 0x6d61_726b;
pub const FEATURE_MKMK: u32 = 0x6d6b_6d6b;
pub const FEATURE_RLIG: u32 = 0x726c_6967;

// Features of horizontal runs.
pub const FEATURE_CALT: u32 = 0x6361_6c74;
pub const FEATURE_CLIG: u32 = 0x636c_6967;
pub const FEATURE_CURS: u32 = 0x6375_7273;
pub const FEATURE_DIST: u32 = 0x6469_7374;
pub const FEATURE_KERN: u32 = 0x6b65_726e;
pub const FEATURE_LIGA: u32 = 0x6c69_6761;
pub const FEATURE_RCLT: u32 = 0x7263_6c74;

// The feature of vertical runs.
pub const FEATURE_VERT: u32 = 0x7665_7274;

// Features of the Indic family.
pub const FEATURE_NUKT: u32 = 0x6e75_6b74;
pub const FEATURE_AKHN: u32 = 0x616b_686e;
pub const FEATURE_PRES: u32 = 0x7072_6573;
pub const FEATURE_ABVS: u32 = 0x6162_7673;
pub const FEATURE_BLWS: u32 = 0x626c_7773;
pub const FEATURE_PSTS: u32 = 0x7073_7473;
pub const FEATURE_HALN: u32 = 0x6861_6c6e;

// Features of the Arabic family.
pub const FEATURE_ISOL: u32 = 0x6973_6f6c;
pub const FEATURE_FINA: u32 = 0x6669_6e61;
pub const FEATURE_MEDI: u32 = 0x6d65_6469;
pub const FEATURE_INIT: u32 = 0x696e_6974;

// Scripts that carry no script of their own.
pub const SCRIPT_COMMON: u32 = 0x5a79_7979;
pub const SCRIPT_INHERITED: u32 = 0x5a69_6e68;
pub const SCRIPT_UNKNOWN: u32 = 0x5a7a_7a7a;

// Scripts written right to left.
pub const SCRIPT_ARABIC: u32 = 0x4172_6162;
pub const SCRIPT_HEBREW: u32 = 0x4865_6272;
pub const SCRIPT_SYRIAC: u32 = 0x5379_7263;
pub const SCRIPT_THAANA: u32 = 0x5468_6161;
pub const SCRIPT_NKO: u32 = 0x4e6b_6f6f;
pub const SCRIPT_SAMARITAN: u32 = 0x5361_6d72;
pub const SCRIPT_MANDAIC: u32 = 0x4d61_6e64;
pub const SCRIPT_ADLAM: u32 = 0x4164_6c6d;

// Scripts written top to bottom.
pub const SCRIPT_MONGOLIAN: u32 = 0x4d6f_6e67;
pub const SCRIPT_PHAGS_PA: u32 = 0x5068_6167;

// Scripts of the Indic family.
pub const SCRIPT_DEVANAGARI: u32 = 0x4465_7661;
pub const SCRIPT_BENGALI: u32 = 0x4265_6e67;
pub const SCRIPT_GURMUKHI: u32 = 0x4775_7275;
pub const SCRIPT_GUJARATI: u32 = 0x4775_6a72;
pub const SCRIPT_ORIYA: u32 = 0x4f72_7961;
pub const SCRIPT_TAMIL: u32 = 0x5461_6d6c;
pub const SCRIPT_TELUGU: u32 = 0x5465_6c75;
pub const SCRIPT_KANNADA: u32 = 0x4b6e_6461;
pub const SCRIPT_MALAYALAM: u32 = 0x4d6c_796d;

pub const SCRIPT_LATIN: u32 = 0x4c61_746e;

} // verus!
