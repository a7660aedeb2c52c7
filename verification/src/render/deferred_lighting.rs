//! The pass id that marks grass pixels for the dedicated deferred lighting pass,
//! and the switch that turns on its diagnostics.
use vstd::prelude::*;
use vstd::string::*;

verus! {

/// The deferred lighting pass id grass uses unless configured otherwise.
pub const GRASS_DEFERRED_LIGHTING_PASS_ID: u8 = 2;

/// The deferred lighting pass id chosen for grass.
#[derive(Clone, Copy, Debug, PartialEq, Eq, Structural)]
pub struct GrassDeferredLightingSettings {
    pub pass_id: u8,
}

impl Default for GrassDeferredLightingSettings {
    fn default() -> (res: Self)
        ensures
            res.pass_id == GRASS_DEFERRED_LIGHTING_PASS_ID,
    {
        GrassDeferredLightingSettings { pass_id: GRASS_DEFERRED_LIGHTING_PASS_ID }
    }
}

impl GrassDeferredLightingSettings {
    /// The pass id in effect: the configured one, or the default when grass
    /// has no deferred lighting settings.
    pub fn effective_pass_id(settings: Option<GrassDeferredLightingSettings>) -> (res: u8)
        ensures
            res == match settings {
                Some(s) => s.pass_id,
                None => GRASS_DEFERRED_LIGHTING_PASS_ID,
            },
    {
        match settings {
            Some(s) => s.pass_id,
            None => GRASS_DEFERRED_LIGHTING_PASS_ID,
        }
    }
}

/// The pass id as the deferred lighting shader reads it (a depth id).
#[derive(Clone, Copy, Debug, PartialEq, Eq, Structural)]
pub struct GrassDeferredLightingPassId {
    depth_id: u32,
}

impl GrassDeferredLightingPassId {
    /// The depth id the shader reads.
    pub closed spec fn spec_depth_id(self) -> u32 {
        self.depth_id
    }

    /// The pass id `value` as a depth id.
    pub fn new(value: u8) -> (res: Self)
        ensures
            res.spec_depth_id() == value as u32,
    {
        GrassDeferredLightingPassId { depth_id: value as u32 }
    }

    /// A pass id that carries the given depth id.
    pub fn from_depth_id(depth_id: u32) -> (res: Self)
        ensures
            res.spec_depth_id() == depth_id,
    {
        GrassDeferredLightingPassId { depth_id }
    }

    /// The depth id the shader reads.
    pub fn depth_id(&self) -> (res: u32)
        ensures
            res == self.spec_depth_id(),
    {
        self.depth_id
    }

    /// Whether a view's pass id must be (re)inserted so that it carries
    /// `pass_id`: unless it has one already with that depth id.
    pub fn needs_update(current: Option<GrassDeferredLightingPassId>, pass_id: u8) -> (res: bool)
        ensures
            res == !(current matches Some(c) && c.spec_depth_id() == pass_id as u32),
    {
        match current {
            Some(c) => c.depth_id != pass_id as u32,
            None => true,
        }
    }
}

impl Default for GrassDeferredLightingPassId {
    fn default() -> (res: Self)
        ensures
            res.spec_depth_id() == GRASS_DEFERRED_LIGHTING_PASS_ID as u32,
    {
        GrassDeferredLightingPassId::new(GRASS_DEFERRED_LIGHTING_PASS_ID)
    }
}

/// Whether a character has the Unicode `White_Space` property.
pub open spec fn is_white_space(c: char) -> bool {
    let x: u32 = c as u32;
    ||| 0x09 <= x <= 0x0D
    ||| x == 0x20
    ||| x == 0x85
    ||| x == 0xA0
    ||| x == 0x1680
    ||| 0x2000 <= x <= 0x200A
    ||| x == 0x2028
    ||| x == 0x2029
    ||| x == 0x202F
    ||| x == 0x205F
    ||| x == 0x3000
}

/// `s` without its leading white space.
pub open spec fn trim_start(s: Seq<char>) -> Seq<char>
    decreases s.len(),
{
    if s.len() > 0 && is_white_space(s[0]) {
        trim_start(s.drop_first())
    } else {
        s
    }
}

/// `s` without its trailing white space.
pub open spec fn trim_end(s: Seq<char>) -> Seq<char>
    decreases s.len(),
{
    if s.len() > 0 && is_white_space(s.last()) {
        trim_end(s.drop_last())
    } else {
        s
    }
}

/// `s` without leading and trailing white space.
pub open spec fn trim(s: Seq<char>) -> Seq<char> {
    trim_end(trim_start(s))
}

/// The code point of a character, with ASCII upper case letters lowered.
pub open spec fn ascii_lower_code(c: char) -> u32 {
    let x: u32 = c as u32;
    if 65 <= x <= 90 {
        (x + 32) as u32
    } else {
        x
    }
}

/// The code points of `s` with ASCII upper case letters lowered.
pub open spec fn ascii_lowercase_codes(s: Seq<char>) -> Seq<u32> {
    s.map_values(|c: char| ascii_lower_code(c))
}

/// The code points of the word `0`.
pub open spec fn word_zero() -> Seq<u32> {
    seq![0x30u32]
}

/// The code points of the word `false`.
pub open spec fn word_false() -> Seq<u32> {
    seq![0x66u32, 0x61, 0x6C, 0x73, 0x65]
}

/// The code points of the word `off`.
pub open spec fn word_off() -> Seq<u32> {
    seq![0x6Fu32, 0x66, 0x66]
}

/// Whether the value of the grass debug switch turns diagnostics on: once
/// trimmed and lower-cased it is neither empty nor `0`, `false` or `off`.
pub open spec fn spec_debug_value_enabled(value: Seq<char>) -> bool {
    let v = ascii_lowercase_codes(trim(value));
    &&& v.len() > 0
    &&& v != word_zero()
    &&& v != word_false()
    &&& v != word_off()
}

fn white_space(c: char) -> (res: bool)
    ensures
        res == is_white_space(c),
{
    let x: u32 = c as u32;
    (0x09 <= x && x <= 0x0D) || x == 0x20 || x == 0x85 || x == 0xA0 || x == 0x1680
        || (0x2000 <= x && x <= 0x200A) || x == 0x2028 || x == 0x2029 || x == 0x202F
        || x == 0x205F || x == 0x3000
}

proof fn lemma_trim_start(s: Seq<char>, k: int)
    requires
        0 <= k <= s.len(),
        forall|j: int| 0 <= j < k ==> is_white_space(#[trigger] s[j]),
        k == s.len() || !is_white_space(s[k]),
    ensures
        trim_start(s) == s.subrange(k, s.len() as int),
    decreases k,
{
    if k > 0 {
        assert(is_white_space(s[0]));
        lemma_trim_start(s.drop_first(), k - 1);
        assert(s.drop_first().subrange(k - 1, s.len() - 1) =~= s.subrange(k, s.len() as int));
    } else {
        assert(s.subrange(0, s.len() as int) =~= s);
    }
}

proof fn lemma_trim_end(s: Seq<char>, e: int)
    requires
        0 <= e <= s.len(),
        forall|j: int| e <= j < s.len() ==> is_white_space(#[trigger] s[j]),
        e == 0 || !is_white_space(s[e - 1]),
    ensures
        trim_end(s) == s.subrange(0, e),
    decreases s.len() - e,
{
    if e < s.len() {
        assert(is_white_space(s.last()));
        lemma_trim_end(s.drop_last(), e);
        assert(s.drop_last().subrange(0, e) =~= s.subrange(0, e));
    } else {
        assert(s.subrange(0, e) =~= s);
    }
}

fn lower_code(c: char) -> (res: u32)
    ensures
        res == ascii_lower_code(c),
{
    let x: u32 = c as u32;
    if 65 <= x && x <= 90 {
        x + 32
    } else {
        x
    }
}

/// Whether the characters `from..to` of `value`, lower-cased, have the code
/// points `word`.
fn span_is(value: &str, from: usize, to: usize, word: &Vec<u32>) -> (res: bool)
    requires
        from <= to <= value@.len(),
    ensures
        res == (ascii_lowercase_codes(value@.subrange(from as int, to as int)) == word@),
{
    let ghost span = ascii_lowercase_codes(value@.subrange(from as int, to as int));
    if to - from != word.len() {
        assert(span.len() != word@.len());
        return false;
    }
    let mut i: usize = 0;
    while i < word.len()
        invariant
            from <= to <= value@.len(),
            to - from == word.len(),
            i <= word.len(),
            span == ascii_lowercase_codes(value@.subrange(from as int, to as int)),
            forall|j: int| 0 <= j < i ==> span[j] == word@[j],
        decreases word.len() - i,
    {
        let c = value.get_char(from + i);
        assert(span[i as int] == ascii_lower_code(c));
        if lower_code(c) != word[i] {
            return false;
        }
        i = i + 1;
    }
    assert(span =~= word@);
    true
}

/// Whether the value of the grass debug switch turns diagnostics on: once
/// trimmed of white space and lower-cased (ASCII letters only) it is neither
/// empty nor `0`, `false` or `off`.
pub fn debug_value_enabled(value: &str) -> (res: bool)
    ensures
        res == spec_debug_value_enabled(value@),
{
    let n: usize = value.unicode_len();
    let mut start: usize = 0;
    while start < n && white_space(value.get_char(start))
        invariant
            n == value@.len(),
            start <= n,
            forall|j: int| 0 <= j < start ==> is_white_space(#[trigger] value@[j]),
        decreases n - start,
    {
        start = start + 1;
    }
    proof {
        lemma_trim_start(value@, start as int);
    }
    let mut end: usize = n;
    while end > start && white_space(value.get_char(end - 1))
        invariant
            n == value@.len(),
            start <= end <= n,
            forall|j: int| end <= j < n ==> is_white_space(#[trigger] value@[j]),
        decreases end,
    {
        end = end - 1;
    }
    let ghost t = value@.subrange(start as int, n as int);
    proof {
        assert forall|j: int| end - start <= j < t.len() implies is_white_space(#[trigger] t[j]) by {
            assert(t[j] == value@[start + j]);
        }
        if end > start {
            assert(t[end - start - 1] == value@[end - 1]);
        }
        lemma_trim_end(t, end - start);
        assert(t.subrange(0, end - start) =~= value@.subrange(start as int, end as int));
    }
    if start == end {
        return false;
    }
    let zero: Vec<u32> = vec![0x30];
    let off: Vec<u32> = vec![0x6F, 0x66, 0x66];
    let fals: Vec<u32> = vec![0x66, 0x61, 0x6C, 0x73, 0x65];
    let is_zero = span_is(value, start, end, &zero);
    let is_false = span_is(value, start, end, &fals);
    let is_off = span_is(value, start, end, &off);
    proof {
        assert(zero@ =~= word_zero());
        assert(fals@ =~= word_false());
        assert(off@ =~= word_off());
    }
    !is_zero && !is_false && !is_off
}

} // verus!
