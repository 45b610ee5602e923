//! Display settings of the scratch box: its size, key hints and backdrop colour.

use vstd::prelude::*;
use crate::text::{chars_of, is_white_space, string_from_chars, trim_bounds, trim_end_white, trim_start_white, trimmed};

verus! {

/// A colour as red, green and blue bytes.
#[derive(Debug, Clone, Copy, PartialEq, Eq, Structural)]
pub struct Rgb(pub u8, pub u8, pub u8);

#[derive(Debug, PartialEq, Eq)]
pub struct AppConfig {
    pub width_pct: u16,
    pub height_pct: u16,
    pub key_hint_workspace: String,
    pub key_hint_session: String,
    pub key_hint_minimize: String,
    pub backdrop: Rgb,
    pub forward_inner_mouse: bool,
}

impl Clone for AppConfig {
    fn clone(&self) -> (copy: Self)
        ensures
            copy == *self,
    {
        AppConfig {
            width_pct: self.width_pct,
            height_pct: self.height_pct,
            key_hint_workspace: self.key_hint_workspace.clone(),
            key_hint_session: self.key_hint_session.clone(),
            key_hint_minimize: self.key_hint_minimize.clone(),
            backdrop: self.backdrop,
            forward_inner_mouse: self.forward_inner_mouse,
        }
    }
}

/// The default settings.
pub open spec fn is_default_config(cfg: AppConfig) -> bool {
    &&& cfg.width_pct == 94
    &&& cfg.height_pct == 92
    &&& cfg.key_hint_workspace@ == "prefix+f"@
    &&& cfg.key_hint_session@ == "prefix+shift+f"@
    &&& cfg.key_hint_minimize@ == "prefix+cmd+z"@
    &&& cfg.backdrop == Rgb(0x0d, 0x2b, 0x1d)
    &&& cfg.forward_inner_mouse
}

impl Default for AppConfig {
    fn default() -> (cfg: Self)
        ensures
            is_default_config(cfg),
    {
        AppConfig {
            width_pct: 94,
            height_pct: 92,
            key_hint_workspace: String::from_str("prefix+f"),
            key_hint_session: String::from_str("prefix+shift+f"),
            key_hint_minimize: String::from_str("prefix+cmd+z"),
            backdrop: Rgb(0x0d, 0x2b, 0x1d),
            forward_inner_mouse: true,
        }
    }
}

/// A percentage held within 20..=100.
pub open spec fn clamped_pct(value: u16) -> u16 {
    if value < 20 {
        20
    } else if value > 100 {
        100
    } else {
        value
    }
}

pub fn clamp_pct(value: u16) -> (pct: u16)
    ensures
        pct == clamped_pct(value),
{
    if value < 20 {
        20
    } else if value > 100 {
        100
    } else {
        value
    }
}

/// A key hint, with an empty one replaced by its default.
pub open spec fn hint_or(hint: Seq<char>, default: Seq<char>) -> Seq<char> {
    if hint.len() == 0 {
        default
    } else {
        hint
    }
}

/// The settings with both sizes clamped and empty key hints replaced by the
/// defaults; everything else unchanged.
pub open spec fn is_normalized_from(next: AppConfig, prev: AppConfig) -> bool {
    &&& next.width_pct == clamped_pct(prev.width_pct)
    &&& next.height_pct == clamped_pct(prev.height_pct)
    &&& next.key_hint_workspace@ == hint_or(prev.key_hint_workspace@, "prefix+f"@)
    &&& next.key_hint_session@ == hint_or(prev.key_hint_session@, "prefix+shift+f"@)
    &&& next.key_hint_minimize@ == hint_or(prev.key_hint_minimize@, "prefix+cmd+z"@)
    &&& next.backdrop == prev.backdrop
    &&& next.forward_inner_mouse == prev.forward_inner_mouse
}

impl AppConfig {
    /// These settings with the box size changed, each clamped to 20..=100 percent.
    pub fn with_size(&self, width_pct: u16, height_pct: u16) -> (next: Self)
        ensures
            next.width_pct == clamped_pct(width_pct),
            next.height_pct == clamped_pct(height_pct),
            next.key_hint_workspace == self.key_hint_workspace,
            next.key_hint_session == self.key_hint_session,
            next.key_hint_minimize == self.key_hint_minimize,
            next.backdrop == self.backdrop,
            next.forward_inner_mouse == self.forward_inner_mouse,
    {
        let mut next = self.clone();
        next.width_pct = clamp_pct(width_pct);
        next.height_pct = clamp_pct(height_pct);
        next
    }

    /// Clamps the sizes and restores empty key hints, as a loaded configuration is.
    pub fn normalize(&mut self)
        ensures
            is_normalized_from(*final(self), *old(self)),
    {
        self.width_pct = clamp_pct(self.width_pct);
        self.height_pct = clamp_pct(self.height_pct);
        if self.key_hint_workspace.as_str().unicode_len() == 0 {
            self.key_hint_workspace = String::from_str("prefix+f");
        }
        if self.key_hint_session.as_str().unicode_len() == 0 {
            self.key_hint_session = String::from_str("prefix+shift+f");
        }
        if self.key_hint_minimize.as_str().unicode_len() == 0 {
            self.key_hint_minimize = String::from_str("prefix+cmd+z");
        }
    }
}

// ---------------------------------------------------------------------------
// Colours as #rrggbb
// ---------------------------------------------------------------------------

pub open spec fn is_hex_digit(c: char) -> bool {
    ||| ('0' as u32 <= c as u32 && c as u32 <= '9' as u32)
    ||| ('a' as u32 <= c as u32 && c as u32 <= 'f' as u32)
    ||| ('A' as u32 <= c as u32 && c as u32 <= 'F' as u32)
}

pub open spec fn hex_value(c: char) -> int {
    if '0' as u32 <= c as u32 && c as u32 <= '9' as u32 {
        c as u32 - '0' as u32
    } else if 'a' as u32 <= c as u32 && c as u32 <= 'f' as u32 {
        c as u32 - 'a' as u32 + 10
    } else {
        c as u32 - 'A' as u32 + 10
    }
}

pub open spec fn trim_leading_hashes(s: Seq<char>) -> Seq<char>
    decreases s.len(),
{
    if s.len() > 0 && s[0] == '#' {
        trim_leading_hashes(s.drop_first())
    } else {
        s
    }
}

pub open spec fn byte_of(hi: char, lo: char) -> u8 {
    (16 * hex_value(hi) + hex_value(lo)) as u8
}

/// The colour written as `rrggbb` after optional white space and `#` signs.
pub open spec fn parsed_rgb(value: Seq<char>) -> Option<Rgb> {
    let hex = trim_leading_hashes(trimmed(value));
    if hex.len() == 6 && forall|i: int| 0 <= i < 6 ==> is_hex_digit(#[trigger] hex[i]) {
        Some(Rgb(byte_of(hex[0], hex[1]), byte_of(hex[2], hex[3]), byte_of(hex[4], hex[5])))
    } else {
        None
    }
}

fn hex_digit_value(c: char) -> (v: Option<u8>)
    ensures
        v is Some == is_hex_digit(c),
        v matches Some(d) ==> d as int == hex_value(c) && d < 16,
{
    if '0' <= c && c <= '9' {
        Some((c as u32 - '0' as u32) as u8)
    } else if 'a' <= c && c <= 'f' {
        Some((c as u32 - 'a' as u32 + 10) as u8)
    } else if 'A' <= c && c <= 'F' {
        Some((c as u32 - 'A' as u32 + 10) as u8)
    } else {
        None
    }
}

/// Reads a colour written as `#rrggbb`.
pub fn parse_rgb(value: &str) -> (rgb: Option<Rgb>)
    ensures
        rgb == parsed_rgb(value@),
{
    let chars = chars_of(value);
    let (start, end) = trim_bounds(&chars);
    let ghost t = chars@.subrange(start as int, end as int);
    let mut i = start;
    assert(t.subrange(0, t.len() as int) == t);
    while i < end && chars[i] == '#'
        invariant
            start <= i <= end <= chars@.len(),
            t == chars@.subrange(start as int, end as int),
            trim_leading_hashes(t) == trim_leading_hashes(chars@.subrange(i as int, end as int)),
        decreases end - i,
    {
        assert(chars@.subrange(i as int, end as int).drop_first() == chars@.subrange(i + 1, end as int));
        i = i + 1;
    }
    let ghost hex = chars@.subrange(i as int, end as int);
    assert(trim_leading_hashes(t) == hex);
    assert(trimmed(value@) == t);
    if end - i != 6 {
        return None;
    }
    let mut digits: Vec<u8> = Vec::new();
    let mut k: usize = 0;
    while k < 6
        invariant
            k <= 6,
            i + 6 == end <= chars@.len(),
            hex == chars@.subrange(i as int, end as int),
            trim_leading_hashes(trimmed(value@)) == hex,
            digits@.len() == k,
            forall|j: int| 0 <= j < k ==> is_hex_digit(#[trigger] hex[j]) && digits@[j] as int == hex_value(hex[j]) && digits@[j] < 16,
        decreases 6 - k,
    {
        match hex_digit_value(chars[i + k]) {
            Some(d) => digits.push(d),
            None => {
                assert(!is_hex_digit(hex[k as int]));
                return None;
            },
        }
        k = k + 1;
    }
    assert(forall|j: int| 0 <= j < 6 ==> is_hex_digit(#[trigger] hex[j]));
    let r = digits[0] * 16 + digits[1];
    let g = digits[2] * 16 + digits[3];
    let b = digits[4] * 16 + digits[5];
    Some(Rgb(r, g, b))
}

pub open spec fn hex_char(v: u8) -> char {
    if v < 10 {
        ('0' as u32 + v) as char
    } else {
        ('a' as u32 + v - 10) as char
    }
}

/// A colour written as `#rrggbb` in lower case.
pub open spec fn rgb_text(rgb: Rgb) -> Seq<char> {
    seq!['#', hex_char(rgb.0 / 16), hex_char(rgb.0 % 16), hex_char(rgb.1 / 16), hex_char(rgb.1 % 16),
        hex_char(rgb.2 / 16), hex_char(rgb.2 % 16)]
}

fn hex_char_exec(v: u8) -> (c: char)
    requires
        v < 16,
    ensures
        c == hex_char(v),
{
    let digits = chars_of("0123456789abcdef");
    proof {
        reveal_strlit("0123456789abcdef");
    }
    digits[v as usize]
}

/// Writes a colour as `#rrggbb`.
pub fn format_rgb(rgb: Rgb) -> (text: String)
    ensures
        text@ == rgb_text(rgb),
{
    let mut chars: Vec<char> = Vec::new();
    chars.push('#');
    chars.push(hex_char_exec(rgb.0 / 16));
    chars.push(hex_char_exec(rgb.0 % 16));
    chars.push(hex_char_exec(rgb.1 / 16));
    chars.push(hex_char_exec(rgb.1 % 16));
    chars.push(hex_char_exec(rgb.2 / 16));
    chars.push(hex_char_exec(rgb.2 % 16));
    assert(chars@ =~= rgb_text(rgb));
    string_from_chars(&chars, 0, 7)
}

proof fn lemma_hex_char(v: u8)
    requires
        v < 16,
    ensures
        is_hex_digit(hex_char(v)),
        hex_value(hex_char(v)) == v,
        hex_char(v) != '#',
        !is_white_space(hex_char(v)),
{
}

/// Writing a colour as `#rrggbb` and reading it back gives the same colour.
pub proof fn rgb_text_reads_back(rgb: Rgb)
    ensures
        parsed_rgb(rgb_text(rgb)) == Some(rgb),
{
    let t = rgb_text(rgb);
    lemma_hex_char(rgb.0 / 16);
    lemma_hex_char(rgb.0 % 16);
    lemma_hex_char(rgb.1 / 16);
    lemma_hex_char(rgb.1 % 16);
    lemma_hex_char(rgb.2 / 16);
    lemma_hex_char(rgb.2 % 16);
    assert(!is_white_space('#'));
    assert(trim_start_white(t) == t);
    assert(trim_end_white(t) == t);
    assert(trimmed(t) == t);
    let h = t.drop_first();
    assert(trim_leading_hashes(h) == h);
    assert(trim_leading_hashes(t) == h);
    assert(h.len() == 6);
    assert(byte_of(h[0], h[1]) == rgb.0);
    assert(byte_of(h[2], h[3]) == rgb.1);
    assert(byte_of(h[4], h[5]) == rgb.2);
}

/// Normalising settings a second time changes nothing, and the defaults are
/// already normal.
pub proof fn normalizing_is_idempotent(first: AppConfig, second: AppConfig, prev: AppConfig)
    requires
        is_normalized_from(first, prev),
        is_normalized_from(second, first),
    ensures
        second.width_pct == first.width_pct,
        second.height_pct == first.height_pct,
        second.key_hint_workspace@ == first.key_hint_workspace@,
        second.key_hint_session@ == first.key_hint_session@,
        second.key_hint_minimize@ == first.key_hint_minimize@,
        second.backdrop == first.backdrop,
        second.forward_inner_mouse == first.forward_inner_mouse,
        20 <= first.width_pct <= 100,
        20 <= first.height_pct <= 100,
{
    reveal_strlit("prefix+f");
    reveal_strlit("prefix+shift+f");
    reveal_strlit("prefix+cmd+z");
}

/// The default settings are left as they are by normalisation.
pub proof fn defaults_are_normal(cfg: AppConfig, next: AppConfig)
    requires
        is_default_config(cfg),
        is_normalized_from(next, cfg),
    ensures
        is_default_config(next),
{
    reveal_strlit("prefix+f");
    reveal_strlit("prefix+shift+f");
    reveal_strlit("prefix+cmd+z");
}

} // verus!
