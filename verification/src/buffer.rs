//! The buffer: the glyphs of a run with their positions, and the settings
//! that travel with them.
use vstd::prelude::*;
use crate::common::{
    Direction, Language, Script, hb_segment_properties_t, hb_var_int_t, script_direction,
    script_is_neutral,
};
use crate::tag::Tag;
use crate::unicode::script_of;

verus! {

/// One glyph of a run. Before shaping `codepoint` holds a Unicode code
/// point, afterwards a glyph id. `var1` and `var2` are scratch space of the
/// pipeline.
#[derive(Clone, Copy, Debug, PartialEq, Eq, Structural)]
pub struct GlyphInfo {
    pub codepoint: u32,
    pub mask: u32,
    pub cluster: u32,
    pub var1: hb_var_int_t,
    pub var2: hb_var_int_t,
}

/// The glyph was put in place of another one.
pub const GLYPH_SUBSTITUTED: u8 = 1;

/// The glyph stands for several glyphs that were joined.
pub const GLYPH_LIGATED: u8 = 2;

/// The glyph is one of several that replaced a single glyph.
pub const GLYPH_MULTIPLIED: u8 = 4;

/// The character is a combining mark.
pub const CLASS_MARK: u8 = 1;

/// The character is the zero-width joiner.
pub const CLASS_JOINER: u8 = 2;

/// The character is the zero-width non-joiner.
pub const CLASS_NON_JOINER: u8 = 3;

impl GlyphInfo {
    /// The glyph id, once the run is shaped.
    pub open spec fn glyph_id(self) -> u32 {
        self.codepoint
    }

    /// What substitution did to the glyph: a sum of `GLYPH_SUBSTITUTED`,
    /// `GLYPH_LIGATED` and `GLYPH_MULTIPLIED`.
    pub open spec fn substitution_flags(self) -> u8 {
        self.var1.b0
    }

    /// The syllable that the glyph belongs to; zero for none.
    pub open spec fn syllable(self) -> u8 {
        self.var1.b1
    }

    /// The class of the character that the glyph came from: zero,
    /// `CLASS_MARK`, `CLASS_JOINER` or `CLASS_NON_JOINER`.
    pub open spec fn character_class(self) -> u8 {
        self.var2.b1
    }

    /// The glyph came from a combining mark.
    pub open spec fn mark(self) -> bool {
        self.var2.b1 == CLASS_MARK
    }

    /// A fresh glyph for a code point.
    pub open spec fn of_code_point(codepoint: u32, cluster: u32) -> GlyphInfo {
        GlyphInfo {
            codepoint,
            mask: 0,
            cluster,
            var1: hb_var_int_t { b0: 0, b1: 0, b2: 0, b3: 0 },
            var2: hb_var_int_t { b0: 0, b1: 0, b2: 0, b3: 0 },
        }
    }

    pub fn new(codepoint: u32, cluster: u32) -> (info: GlyphInfo)
        ensures
            info == GlyphInfo::of_code_point(codepoint, cluster),
    {
        GlyphInfo {
            codepoint,
            mask: 0,
            cluster,
            var1: hb_var_int_t::zero(),
            var2: hb_var_int_t::zero(),
        }
    }

    pub fn is_mark(&self) -> (yes: bool)
        ensures
            yes == self.mark(),
    {
        self.var2.b1 == CLASS_MARK
    }
}

/// Where a glyph goes: how far the pen moves after it, and how far the glyph
/// is shifted from the pen. `var` is scratch space of the pipeline.
#[derive(Clone, Copy, Debug, PartialEq, Eq, Structural)]
pub struct GlyphPosition {
    pub x_advance: i32,
    pub y_advance: i32,
    pub x_offset: i32,
    pub y_offset: i32,
    pub var: hb_var_int_t,
}

impl GlyphPosition {
    pub open spec fn zeroed() -> GlyphPosition {
        GlyphPosition {
            x_advance: 0,
            y_advance: 0,
            x_offset: 0,
            y_offset: 0,
            var: hb_var_int_t { b0: 0, b1: 0, b2: 0, b3: 0 },
        }
    }

    /// How many glyphs back the base of this mark stands; zero for a glyph
    /// that is attached to none.
    pub open spec fn attached_back(self) -> int {
        self.var.half(0)
    }

    pub fn zero() -> (position: GlyphPosition)
        ensures
            position == GlyphPosition::zeroed(),
    {
        GlyphPosition {
            x_advance: 0,
            y_advance: 0,
            x_offset: 0,
            y_offset: 0,
            var: hb_var_int_t::zero(),
        }
    }
}

/// How the clusters of a run merge while it is shaped.
#[derive(Clone, Copy, Debug, PartialEq, Eq, Hash, Structural)]
pub enum BufferClusterLevel {
    /// A mark joins the cluster of its base before shaping; glyphs that
    /// change places end up in one cluster.
    MonotoneGraphemes,
    /// Every character starts with a cluster of its own; glyphs that change
    /// places end up in one cluster.
    MonotoneCharacters,
    /// Every character starts with a cluster of its own; where glyphs change
    /// places the cluster ids stay where they were.
    Characters,
}

/// What a buffer holds.
#[derive(Clone, Copy, Debug, PartialEq, Eq, Hash, Structural)]
pub enum ContentState {
    /// Nothing was ever added.
    Empty,
    /// Code points that wait for shaping.
    Unicode,
    /// Shaped glyphs.
    Glyphs,
}

/// The glyphs of a run, their positions, and the settings of the run.
#[derive(Clone, Debug)]
pub struct hb_buffer_t {
    pub info: Vec<GlyphInfo>,
    pub pos: Vec<GlyphPosition>,
    /// Storage that the passes over the buffer write their output to, kept
    /// between passes so that they need not allocate.
    pub scratch: Vec<GlyphInfo>,
    /// Storage that the passes over the positions write their output to.
    pub scratch_pos: Vec<GlyphPosition>,
    pub props: hb_segment_properties_t,
    pub cluster_level: BufferClusterLevel,
    pub content: ContentState,
    /// The language of runs that set none.
    pub default_language: Language,
}

/// What a buffer stands for: everything but its spare storage.
pub struct BufferView {
    pub infos: Seq<GlyphInfo>,
    pub positions: Seq<GlyphPosition>,
    pub props: hb_segment_properties_t,
    pub cluster_level: BufferClusterLevel,
    pub content: ContentState,
    pub default_language: Language,
}

impl View for hb_buffer_t {
    type V = BufferView;

    open spec fn view(&self) -> BufferView {
        BufferView {
            infos: self.info@,
            positions: self.pos@,
            props: self.props,
            cluster_level: self.cluster_level,
            content: self.content,
            default_language: self.default_language,
        }
    }
}

/// The cluster ids never fall from one glyph to the next.
pub open spec fn clusters_ascend(infos: Seq<GlyphInfo>) -> bool {
    forall|i: int, j: int| 0 <= i <= j < infos.len() ==> infos[i].cluster <= infos[j].cluster
}

/// The cluster ids never rise from one glyph to the next.
pub open spec fn clusters_descend(infos: Seq<GlyphInfo>) -> bool {
    forall|i: int, j: int| 0 <= i <= j < infos.len() ==> infos[i].cluster >= infos[j].cluster
}

/// `count` positions, all zero.
pub open spec fn zero_positions(count: nat) -> Seq<GlyphPosition> {
    Seq::new(count, |i: int| GlyphPosition::zeroed())
}

/// The script code of the first code point from `from` on that has a script
/// of its own; the common script if there is none.
pub open spec fn first_script(infos: Seq<GlyphInfo>, from: int) -> u32
    decreases infos.len() - from,
{
    if from < 0 || from >= infos.len() {
        crate::tag::SCRIPT_COMMON
    } else if !script_is_neutral(script_of(infos[from].codepoint)) {
        script_of(infos[from].codepoint)
    } else {
        first_script(infos, from + 1)
    }
}

/// The properties of a run once every unset one is guessed: the script from
/// the first code point that has one, the direction from the script, the
/// language from the default. A property that is set stays.
pub open spec fn guessed_properties(
    props: hb_segment_properties_t,
    infos: Seq<GlyphInfo>,
    default_language: Language,
) -> hb_segment_properties_t {
    let script = if props.script.0.0 != 0 {
        props.script
    } else {
        Script(Tag(first_script(infos, 0)))
    };
    hb_segment_properties_t {
        direction: if props.direction != Direction::Invalid {
            props.direction
        } else {
            script_direction(script.0.0)
        },
        script,
        language: if props.language.0.0 != 0 {
            props.language
        } else {
            default_language
        },
    }
}

/// `Vec::capacity`: the number of glyphs that the storage holds without
/// growing, which is never less than the number it holds now.
#[verifier::external_body]
fn storage_capacity(storage: &Vec<GlyphInfo>) -> (capacity: usize)
    ensures
        capacity >= storage@.len(),
{
    storage.capacity()
}

impl hb_buffer_t {
    /// Every glyph has its position.
    pub open spec fn wf(&self) -> bool {
        self.info@.len() == self.pos@.len()
    }

    /// An empty buffer with nothing set.
    pub fn new() -> (buffer: hb_buffer_t)
        ensures
            buffer.wf(),
            buffer@.infos.len() == 0,
            buffer@.content == ContentState::Empty,
            buffer@.props == hb_segment_properties_t::unset_value(),
            buffer@.cluster_level == BufferClusterLevel::MonotoneGraphemes,
            buffer@.default_language.0.0 == 0,
    {
        hb_buffer_t {
            info: Vec::new(),
            pos: Vec::new(),
            scratch: Vec::new(),
            scratch_pos: Vec::new(),
            props: hb_segment_properties_t::unset(),
            cluster_level: BufferClusterLevel::MonotoneGraphemes,
            content: ContentState::Empty,
            default_language: Language::unset(),
        }
    }

    pub fn len(&self) -> (count: usize)
        ensures
            count == self@.infos.len(),
    {
        self.info.len()
    }

    /// Hands out the spare storage, emptied, for a pass to write to. The
    /// storage leaves the buffer, which holds no spare storage for glyphs
    /// until the pass ends; nothing else of the buffer changes.
    pub fn begin_pass(&mut self) -> (out: Vec<GlyphInfo>)
        ensures
            out@.len() == 0,
            final(self)@ == old(self)@,
            final(self).scratch@ == Seq::<GlyphInfo>::empty(),
            final(self).info == old(self).info,
            final(self).pos == old(self).pos,
            final(self).scratch_pos == old(self).scratch_pos,
    {
        let mut out: Vec<GlyphInfo> = Vec::new();
        core::mem::swap(&mut out, &mut self.scratch);
        out.clear();
        out
    }

    /// Makes what a pass wrote the glyphs of the buffer, with all positions
    /// zero, and keeps the storage of the old glyphs for the next pass.
    pub fn end_pass(&mut self, out: Vec<GlyphInfo>)
        ensures
            final(self).wf(),
            final(self)@ == (BufferView {
                infos: out@,
                positions: zero_positions(out@.len()),
                ..old(self)@
            }),
    {
        let ghost produced = out@;
        let mut out = out;
        core::mem::swap(&mut out, &mut self.info);
        self.scratch = out;
        self.pos.clear();
        let count = self.info.len();
        let mut i: usize = 0;
        while i < count
            invariant
                i <= count,
                count == self.info@.len(),
                self.pos@ == zero_positions(i as nat),
                self.info@ == produced,
                self.props == old(self).props,
                self.cluster_level == old(self).cluster_level,
                self.content == old(self).content,
                self.default_language == old(self).default_language,
            decreases count - i,
        {
            self.pos.push(GlyphPosition::zero());
            i += 1;
            assert(self.pos@ =~= zero_positions(i as nat));
        }
    }

    /// Hands out the spare storage for positions, emptied, for a pass to
    /// write to. The storage leaves the buffer, which holds no spare storage
    /// for positions until the pass ends; nothing else of the buffer changes.
    pub fn begin_position_pass(&mut self) -> (out: Vec<GlyphPosition>)
        ensures
            out@.len() == 0,
            final(self)@ == old(self)@,
            final(self).scratch_pos@ == Seq::<GlyphPosition>::empty(),
            final(self).info == old(self).info,
            final(self).pos == old(self).pos,
            final(self).scratch == old(self).scratch,
    {
        let mut out: Vec<GlyphPosition> = Vec::new();
        core::mem::swap(&mut out, &mut self.scratch_pos);
        out.clear();
        out
    }

    /// Makes what a pass wrote the positions of the buffer and keeps the
    /// storage of the old positions for the next pass.
    pub fn end_position_pass(&mut self, out: Vec<GlyphPosition>)
        ensures
            final(self)@ == (BufferView { positions: out@, ..old(self)@ }),
    {
        let mut out = out;
        core::mem::swap(&mut out, &mut self.pos);
        self.scratch_pos = out;
    }

    /// Turns the order of the glyphs and of their positions round.
    pub fn reverse(&mut self)
        requires
            old(self).wf(),
        ensures
            final(self).wf(),
            final(self)@ == (BufferView {
                infos: old(self)@.infos.reverse(),
                positions: old(self)@.positions.reverse(),
                ..old(self)@
            }),
    {
        let count = self.info.len();
        let mut i: usize = 0;
        while i < count / 2
            invariant
                count == old(self).info@.len(),
                self.info@.len() == count,
                self.pos@.len() == count,
                i <= count / 2,
                forall|k: int|
                    0 <= k < i ==> self.info@[k] == old(self).info@[count - 1 - k] && self.pos@[k]
                        == old(self).pos@[count - 1 - k],
                forall|k: int|
                    0 <= k < i ==> self.info@[count - 1 - k] == old(self).info@[k]
                        && self.pos@[count - 1 - k] == old(self).pos@[k],
                forall|k: int|
                    i <= k < count - i ==> self.info@[k] == old(self).info@[k] && self.pos@[k]
                        == old(self).pos@[k],
                self.props == old(self).props,
                self.cluster_level == old(self).cluster_level,
                self.content == old(self).content,
                self.default_language == old(self).default_language,
            decreases count / 2 - i,
        {
            let j = count - 1 - i;
            let a = self.info[i];
            let b = self.info[j];
            self.info.set(i, b);
            self.info.set(j, a);
            let p = self.pos[i];
            let q = self.pos[j];
            self.pos.set(i, q);
            self.pos.set(j, p);
            i += 1;
        }
        assert(self.info@ =~= old(self).info@.reverse());
        assert(self.pos@ =~= old(self).pos@.reverse());
    }
}

impl hb_segment_properties_t {
    /// The properties with nothing set.
    pub open spec fn unset_value() -> hb_segment_properties_t {
        hb_segment_properties_t {
            direction: Direction::Invalid,
            script: Script(Tag(0)),
            language: Language(Tag(0)),
        }
    }
}

/// The number of bytes that a character takes in UTF-8.
pub open spec fn utf8_len(c: char) -> int {
    if (c as u32) < 0x80 {
        1
    } else if (c as u32) < 0x800 {
        2
    } else if (c as u32) < 0x1_0000 {
        3
    } else {
        4
    }
}

/// The number of bytes that the first `count` characters of a text take.
pub open spec fn byte_offset(text: Seq<char>, count: int) -> int
    decreases count,
{
    if count <= 0 {
        0
    } else {
        byte_offset(text, count - 1) + utf8_len(text[count - 1])
    }
}

/// The cluster id that a new glyph gets: the one asked for, or that of the
/// last glyph where that one is greater.
pub open spec fn next_cluster(infos: Seq<GlyphInfo>, cluster: u32) -> u32 {
    if infos.len() > 0 && infos.last().cluster > cluster {
        infos.last().cluster
    } else {
        cluster
    }
}

/// The glyphs of a run after one more code point was added.
pub open spec fn with_code_point(infos: Seq<GlyphInfo>, codepoint: u32, cluster: u32) -> Seq<
    GlyphInfo,
> {
    infos.push(GlyphInfo::of_code_point(codepoint, next_cluster(infos, cluster)))
}

/// A byte offset as a cluster id; an offset past the largest id gets the
/// largest id.
pub open spec fn offset_cluster(offset: int) -> u32 {
    if offset > u32::MAX {
        u32::MAX
    } else {
        offset as u32
    }
}

/// The glyphs of a run after the first `count` characters of a text were
/// added, each with its byte offset in the text as cluster id.
pub open spec fn with_text(infos: Seq<GlyphInfo>, text: Seq<char>, count: int) -> Seq<GlyphInfo>
    decreases count,
{
    if count <= 0 {
        infos
    } else {
        with_code_point(
            with_text(infos, text, count - 1),
            text[count - 1] as u32,
            offset_cluster(byte_offset(text, count - 1)),
        )
    }
}

/// One more code point at the end keeps ascending cluster ids ascending.
pub proof fn lemma_with_code_point_ascends(infos: Seq<GlyphInfo>, codepoint: u32, cluster: u32)
    requires
        clusters_ascend(infos),
    ensures
        clusters_ascend(with_code_point(infos, codepoint, cluster)),
        with_code_point(infos, codepoint, cluster).len() == infos.len() + 1,
{
    let out = with_code_point(infos, codepoint, cluster);
    assert forall|i: int, j: int| 0 <= i <= j < out.len() implies out[i].cluster
        <= out[j].cluster by {
        if j < infos.len() {
            assert(out[i] == infos[i] && out[j] == infos[j]);
        } else if i < infos.len() {
            assert(out[i] == infos[i]);
            assert(infos[i].cluster <= infos.last().cluster);
        }
    }
}

/// Cluster ids that never fall from a glyph to the one behind it never
/// fall along the run.
pub proof fn lemma_neighbours_ascend(infos: Seq<GlyphInfo>, i: int, j: int)
    requires
        forall|k: int|
            0 <= k < infos.len() - 1 ==> (#[trigger] infos[k]).cluster <= infos[k + 1].cluster,
        0 <= i <= j < infos.len(),
    ensures
        infos[i].cluster <= infos[j].cluster,
    decreases j - i,
{
    if i < j {
        lemma_neighbours_ascend(infos, i, j - 1);
        assert(infos[j - 1].cluster <= infos[j - 1 + 1].cluster);
    }
}

/// Whether the cluster ids of a run never fall.
pub fn clusters_are_ascending(infos: &Vec<GlyphInfo>) -> (yes: bool)
    ensures
        yes == clusters_ascend(infos@),
{
    let mut i: usize = 1;
    while i < infos.len()
        invariant
            1 <= i,
            forall|k: int| 0 <= k < i - 1 && k < infos@.len() - 1 ==> (#[trigger] infos@[k]).cluster
                <= infos@[k + 1].cluster,
        decreases infos@.len() - i,
    {
        if infos[i - 1].cluster > infos[i].cluster {
            return false;
        }
        i += 1;
    }
    proof {
        assert forall|a: int, b: int| 0 <= a <= b < infos@.len() implies infos@[a].cluster
            <= infos@[b].cluster by {
            lemma_neighbours_ascend(infos@, a, b);
        }
    }
    true
}

/// A buffer that holds code points and waits for shaping.
#[derive(Clone, Debug)]
pub struct UnicodeBuffer(pub hb_buffer_t);

impl View for UnicodeBuffer {
    type V = BufferView;

    open spec fn view(&self) -> BufferView {
        self.0@
    }
}

impl UnicodeBuffer {
    /// Every glyph has its position, the buffer holds no shaped glyphs, a
    /// buffer to which nothing was added holds nothing, and the cluster ids
    /// ascend.
    pub open spec fn wf(&self) -> bool {
        &&& self.0.wf()
        &&& self.0.content != ContentState::Glyphs
        &&& self.0.content == ContentState::Empty ==> self.0.info@.len() == 0
        &&& clusters_ascend(self.0.info@)
    }

    /// Whether the buffer is well formed.
    pub fn is_well_formed(&self) -> (ok: bool)
        ensures
            ok == self.wf(),
    {
        if self.0.info.len() != self.0.pos.len() {
            return false;
        }
        match self.0.content {
            ContentState::Glyphs => {
                return false;
            },
            ContentState::Empty => {
                if self.0.info.len() != 0 {
                    return false;
                }
            },
            ContentState::Unicode => {},
        }
        clusters_are_ascending(&self.0.info)
    }

    /// An empty buffer with nothing set.
    pub fn new() -> (buffer: UnicodeBuffer)
        ensures
            buffer.wf(),
            buffer@.infos.len() == 0,
            buffer@.content == ContentState::Empty,
            buffer@.props == hb_segment_properties_t::unset_value(),
            buffer@.cluster_level == BufferClusterLevel::MonotoneGraphemes,
            buffer@.default_language.0.0 == 0,
    {
        UnicodeBuffer(hb_buffer_t::new())
    }

    pub fn len(&self) -> (count: usize)
        ensures
            count == self@.infos.len(),
    {
        self.0.info.len()
    }

    pub fn is_empty(&self) -> (empty: bool)
        ensures
            empty == (self@.infos.len() == 0),
    {
        self.0.info.len() == 0
    }

    /// Adds a character with a cluster id. Cluster ids never fall along the
    /// run: an id below that of the last glyph is raised to it.
    pub fn add(&mut self, c: char, cluster: u32)
        requires
            old(self).wf(),
        ensures
            final(self).wf(),
            final(self)@ == (BufferView {
                infos: with_code_point(old(self)@.infos, c as u32, cluster),
                positions: old(self)@.positions.push(GlyphPosition::zeroed()),
                content: ContentState::Unicode,
                ..old(self)@
            }),
    {
        let count = self.0.info.len();
        let cluster = if count > 0 && self.0.info[count - 1].cluster > cluster {
            self.0.info[count - 1].cluster
        } else {
            cluster
        };
        proof {
            lemma_with_code_point_ascends(old(self)@.infos, c as u32, cluster);
        }
        self.0.info.push(GlyphInfo::new(c as u32, cluster));
        self.0.pos.push(GlyphPosition::zero());
        self.0.content = ContentState::Unicode;
    }

    /// Adds the characters of a text, each with its byte offset in the text
    /// as cluster id.
    pub fn push_str(&mut self, text: &str)
        requires
            old(self).wf(),
        ensures
            final(self).wf(),
            final(self)@.infos == with_text(old(self)@.infos, text@, text@.len() as int),
            final(self)@.infos.len() == old(self)@.infos.len() + text@.len(),
            final(self)@.positions.len() == final(self)@.infos.len(),
            final(self)@.props == old(self)@.props,
            final(self)@.cluster_level == old(self)@.cluster_level,
            final(self)@.default_language == old(self)@.default_language,
            final(self)@.content == (if text@.len() > 0 {
                ContentState::Unicode
            } else {
                old(self)@.content
            }),
    {
        let mut chars = text.chars();
        let mut offset: u32 = 0;
        let ghost mut i: int = 0;
        proof {
            vstd::string::axiom_spec_iter(text);
        }
        loop
            invariant_except_break
                0 <= i <= text@.len(),
                vstd::std_specs::iter::IteratorSpec::remaining(&chars) == text@.skip(i),
                vstd::std_specs::iter::IteratorSpec::decrease(&chars) is Some,
            invariant
                self.wf(),
                offset == offset_cluster(byte_offset(text@, i)),
                byte_offset(text@, i) >= 0,
                self@.infos == with_text(old(self)@.infos, text@, i),
                self@.infos.len() == old(self)@.infos.len() + i,
                self@.props == old(self)@.props,
                self@.cluster_level == old(self)@.cluster_level,
                self@.default_language == old(self)@.default_language,
                self@.content == (if i > 0 {
                    ContentState::Unicode
                } else {
                    old(self)@.content
                }),
            ensures
                i == text@.len(),
            decreases vstd::std_specs::iter::IteratorSpec::decrease(&chars)->0,
        {
            let ghost before = chars;
            let next = chars.next();
            proof {
                vstd::string::next_postcondition(&before, &chars, next);
            }
            match next {
                Some(c) => {
                    assert(c == text@[i]);
                    assert(text@.skip(i).drop_first() =~= text@.skip(i + 1));
                    self.add(c, offset);
                    let cp: u32 = c as u32;
                    let width: u32 = if cp < 0x80 {
                        1
                    } else if cp < 0x800 {
                        2
                    } else if cp < 0x1_0000 {
                        3
                    } else {
                        4
                    };
                    offset = if offset > u32::MAX - width {
                        u32::MAX
                    } else {
                        offset + width
                    };
                    proof {
                        i = i + 1;
                    }
                },
                None => {
                    break ;
                },
            }
        }
    }

    pub fn set_direction(&mut self, direction: Direction)
        ensures
            final(self)@ == (BufferView {
                props: hb_segment_properties_t { direction, ..old(self)@.props },
                ..old(self)@
            }),
            old(self).wf() ==> final(self).wf(),
    {
        self.0.props.direction = direction;
    }

    pub fn direction(&self) -> (direction: Direction)
        ensures
            direction == self@.props.direction,
    {
        self.0.props.direction
    }

    pub fn set_script(&mut self, script: Script)
        ensures
            final(self)@ == (BufferView {
                props: hb_segment_properties_t { script, ..old(self)@.props },
                ..old(self)@
            }),
            old(self).wf() ==> final(self).wf(),
    {
        self.0.props.script = script;
    }

    pub fn script(&self) -> (script: Script)
        ensures
            script == self@.props.script,
    {
        self.0.props.script
    }

    pub fn set_language(&mut self, language: Language)
        ensures
            final(self)@ == (BufferView {
                props: hb_segment_properties_t { language, ..old(self)@.props },
                ..old(self)@
            }),
            old(self).wf() ==> final(self).wf(),
    {
        self.0.props.language = language;
    }

    pub fn language(&self) -> (language: Language)
        ensures
            language == self@.props.language,
    {
        self.0.props.language
    }

    /// Sets the language that a run gets when it sets none.
    pub fn set_default_language(&mut self, language: Language)
        ensures
            final(self)@ == (BufferView { default_language: language, ..old(self)@ }),
            old(self).wf() ==> final(self).wf(),
    {
        self.0.default_language = language;
    }

    pub fn set_cluster_level(&mut self, cluster_level: BufferClusterLevel)
        ensures
            final(self)@ == (BufferView { cluster_level, ..old(self)@ }),
            old(self).wf() ==> final(self).wf(),
    {
        self.0.cluster_level = cluster_level;
    }

    /// Goes back to the cluster level of a new buffer.
    pub fn reset_cluster_level(&mut self)
        ensures
            final(self)@ == (BufferView {
                cluster_level: BufferClusterLevel::MonotoneGraphemes,
                ..old(self)@
            }),
            old(self).wf() ==> final(self).wf(),
    {
        self.0.cluster_level = BufferClusterLevel::MonotoneGraphemes;
    }

    pub fn cluster_level(&self) -> (cluster_level: BufferClusterLevel)
        ensures
            cluster_level == self@.cluster_level,
    {
        self.0.cluster_level
    }

    /// Guesses every property that is not set: the script from the first
    /// code point that has one, the direction from the script, the language
    /// from the default.
    pub fn guess_segment_properties(&mut self)
        ensures
            final(self)@ == (BufferView {
                props: guessed_properties(
                    old(self)@.props,
                    old(self)@.infos,
                    old(self)@.default_language,
                ),
                ..old(self)@
            }),
            old(self).wf() ==> final(self).wf(),
    {
        if !self.0.props.script.is_set() {
            let mut found = Script(Tag(crate::tag::SCRIPT_COMMON));
            let mut i: usize = 0;
            while i < self.0.info.len()
                invariant_except_break
                    first_script(self.0.info@, 0) == first_script(self.0.info@, i as int),
                    found.0.0 == crate::tag::SCRIPT_COMMON,
                invariant
                    i <= self.0.info@.len(),
                    self.0.info@ == old(self).0.info@,
                    self@ == old(self)@,
                ensures
                    found.0.0 == first_script(self.0.info@, 0),
                    self@ == old(self)@,
                decreases self.0.info@.len() - i,
            {
                let script = crate::unicode::script(self.0.info[i].codepoint);
                if !script.is_neutral() {
                    found = script;
                    break ;
                }
                i += 1;
            }
            self.0.props.script = found;
        }
        if !self.0.props.direction.is_valid() {
            self.0.props.direction = self.0.props.script.default_direction();
        }
        if !self.0.props.language.is_set() {
            self.0.props.language = self.0.default_language;
        }
    }

    /// Empties the buffer and unsets its properties.
    pub fn clear(&mut self)
        ensures
            final(self).wf(),
            final(self)@ == (BufferView {
                infos: Seq::empty(),
                positions: Seq::empty(),
                props: hb_segment_properties_t::unset_value(),
                content: ContentState::Unicode,
                ..old(self)@
            }),
    {
        self.0.info.clear();
        self.0.pos.clear();
        self.0.props = hb_segment_properties_t::unset();
        self.0.content = ContentState::Unicode;
    }

    /// The number of glyphs that the buffer holds without growing.
    pub fn capacity(&self) -> (capacity: usize)
        ensures
            capacity >= self@.infos.len(),
    {
        storage_capacity(&self.0.info)
    }
}

/// A buffer that holds shaped glyphs.
#[derive(Clone, Debug)]
pub struct GlyphBuffer(pub hb_buffer_t);

impl View for GlyphBuffer {
    type V = BufferView;

    open spec fn view(&self) -> BufferView {
        self.0@
    }
}

impl GlyphBuffer {
    /// Every glyph has its position, the buffer holds shaped glyphs, and the
    /// cluster ids ascend along a forward run and descend along a backward
    /// one.
    pub open spec fn wf(&self) -> bool {
        &&& self.0.wf()
        &&& self.0.content == ContentState::Glyphs
        &&& if self.0.props.direction.backward() {
            clusters_descend(self.0.info@)
        } else {
            clusters_ascend(self.0.info@)
        }
    }

    pub fn len(&self) -> (count: usize)
        ensures
            count == self@.infos.len(),
    {
        self.0.info.len()
    }

    pub fn is_empty(&self) -> (empty: bool)
        ensures
            empty == (self@.infos.len() == 0),
    {
        self.0.info.len() == 0
    }

    /// The shaped glyphs.
    pub fn glyph_infos(&self) -> (infos: &[GlyphInfo])
        ensures
            infos@ == self@.infos,
    {
        self.0.info.as_slice()
    }

    /// The positions of the shaped glyphs, one for each glyph.
    pub fn glyph_positions(&self) -> (positions: &[GlyphPosition])
        ensures
            positions@ == self@.positions,
    {
        self.0.pos.as_slice()
    }

    pub fn direction(&self) -> (direction: Direction)
        ensures
            direction == self@.props.direction,
    {
        self.0.props.direction
    }

    pub fn script(&self) -> (script: Script)
        ensures
            script == self@.props.script,
    {
        self.0.props.script
    }

    /// Empties the buffer and hands it back for new text. The storage of the
    /// glyphs is kept.
    pub fn clear(self) -> (buffer: UnicodeBuffer)
        ensures
            buffer.wf(),
            buffer@ == (BufferView {
                infos: Seq::empty(),
                positions: Seq::empty(),
                props: hb_segment_properties_t::unset_value(),
                content: ContentState::Unicode,
                ..self@
            }),
    {
        let mut buffer = UnicodeBuffer(self.0);
        buffer.clear();
        buffer
    }

    /// The number of glyphs that the buffer holds without growing.
    pub fn capacity(&self) -> (capacity: usize)
        ensures
            capacity >= self@.infos.len(),
    {
        storage_capacity(&self.0.info)
    }
}

} // verus!
