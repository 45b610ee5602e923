//! Herdr key bindings: the tmux prefix derived from Herdr's prefix, and the
//! managed `[[keys.command]]` entries the installer writes.

use vstd::prelude::*;
use toml_edit::{ArrayOfTables, DocumentMut, TomlError};
use crate::commands::{shell_quote, shell_quoted, strings_view};
use crate::keys_document::{
    CommandEntry, CommandTableView, KeyItemView, KeyValue, KeysEntry, command_table_count,
    command_table_entry, command_tables, commands_of, document_text, keys_commands_set, keys_entries,
    keys_reset, keys_table_present, tables_with_binding, tables_with_copy, keys_text, keys_text_of, keys_text_set, new_command_tables,
    opt_strings_view, parse_document, parsed_document, parsed_keys_entries, push_command_binding,
    push_command_copy, render_document, reset_keys_table, set_keys_commands, set_keys_text,
};
use crate::scope::opt_string_view;
use crate::text::{
    chars_of, contains_seq, contains_str, ends_with_str, has_suffix, string_from_chars, str_equal,
    trim_bounds, trim_white, trimmed, lemma_trimmed_idempotent,
};

verus! {

// ---------------------------------------------------------------------------
// Prefix normalisation
// ---------------------------------------------------------------------------

/// Why a Herdr prefix has no tmux equivalent.
#[derive(Debug, Clone, PartialEq, Eq)]
pub enum PrefixError {
    Empty,
    CommandModifier { prefix: String },
    UnsupportedModifier { modifier: String, prefix: String },
    UnsupportedKey { key: String },
}

pub ghost enum PrefixErrorView {
    Empty,
    CommandModifier { prefix: Seq<char> },
    UnsupportedModifier { modifier: Seq<char>, prefix: Seq<char> },
    UnsupportedKey { key: Seq<char> },
}

impl View for PrefixError {
    type V = PrefixErrorView;

    open spec fn view(&self) -> PrefixErrorView {
        match self {
            PrefixError::Empty => PrefixErrorView::Empty,
            PrefixError::CommandModifier { prefix } => PrefixErrorView::CommandModifier { prefix: prefix@ },
            PrefixError::UnsupportedModifier { modifier, prefix } => PrefixErrorView::UnsupportedModifier {
                modifier: modifier@,
                prefix: prefix@,
            },
            PrefixError::UnsupportedKey { key } => PrefixErrorView::UnsupportedKey { key: key@ },
        }
    }
}

pub open spec fn prefix_error_message(e: PrefixErrorView) -> Seq<char> {
    match e {
        PrefixErrorView::Empty => "Herdr prefix cannot be empty"@,
        PrefixErrorView::CommandModifier { prefix } => "Herdr prefix `"@ + prefix
            + "` uses Command/Super, which tmux cannot receive"@,
        PrefixErrorView::UnsupportedModifier { modifier, prefix } => "unsupported Herdr prefix modifier `"@
            + modifier + "` in `"@ + prefix + "`"@,
        PrefixErrorView::UnsupportedKey { key } => "unsupported Herdr prefix key `"@ + key + "`"@,
    }
}

impl PrefixError {
    /// The error as a sentence for the user.
    pub fn message(&self) -> (text: String)
        ensures
            text@ == prefix_error_message(self@),
    {
        match self {
            PrefixError::Empty => String::from_str("Herdr prefix cannot be empty"),
            PrefixError::CommandModifier { prefix } => String::from_str("Herdr prefix `").concat(
                prefix.as_str(),
            ).concat("` uses Command/Super, which tmux cannot receive"),
            PrefixError::UnsupportedModifier { modifier, prefix } => String::from_str(
                "unsupported Herdr prefix modifier `",
            ).concat(modifier.as_str()).concat("` in `").concat(prefix.as_str()).concat("`"),
            PrefixError::UnsupportedKey { key } => String::from_str("unsupported Herdr prefix key `").concat(
                key.as_str(),
            ).concat("`"),
        }
    }
}

pub open spec fn ascii_lower_char(c: char) -> char {
    if 'A' as u32 <= c as u32 && c as u32 <= 'Z' as u32 {
        "abcdefghijklmnopqrstuvwxyz"@[c as u32 - 'A' as u32]
    } else {
        c
    }
}

pub open spec fn ascii_upper_char(c: char) -> char {
    if 'a' as u32 <= c as u32 && c as u32 <= 'z' as u32 {
        "ABCDEFGHIJKLMNOPQRSTUVWXYZ"@[c as u32 - 'a' as u32]
    } else {
        c
    }
}

pub open spec fn ascii_lower(s: Seq<char>) -> Seq<char> {
    s.map_values(|c: char| ascii_lower_char(c))
}

pub open spec fn is_ascii_digit(c: char) -> bool {
    '0' as u32 <= c as u32 && c as u32 <= '9' as u32
}

pub open spec fn is_ascii_alpha(c: char) -> bool {
    ('a' as u32 <= c as u32 && c as u32 <= 'z' as u32) || ('A' as u32 <= c as u32 && c as u32 <= 'Z' as u32)
}

/// The number written in decimal digits.
pub open spec fn decimal_value(s: Seq<char>) -> int
    decreases s.len(),
{
    if s.len() == 0 {
        0
    } else {
        decimal_value(s.drop_last()) * 10 + (s.last() as u32 - '0' as u32)
    }
}

/// `s` without one leading `+` sign.
pub open spec fn unsigned_digits(s: Seq<char>) -> Seq<char> {
    if s.len() > 0 && s[0] == '+' {
        s.drop_first()
    } else {
        s
    }
}

pub open spec fn all_digits(s: Seq<char>) -> bool {
    forall|i: int| 0 <= i < s.len() ==> is_ascii_digit(#[trigger] s[i])
}

/// `s` read as a `u8`: an optional `+` sign, then decimal digits up to 255.
pub open spec fn parsed_u8(s: Seq<char>) -> Option<u8> {
    let digits = unsigned_digits(s);
    if digits.len() > 0 && all_digits(digits) && decimal_value(digits) <= 255 {
        Some(decimal_value(digits) as u8)
    } else {
        None
    }
}

/// The function key named by `value`, `f1` to `f24`.
pub open spec fn function_key(value: Seq<char>) -> Option<u8> {
    if value.len() > 0 && value[0] == 'f' {
        match parsed_u8(value.drop_first()) {
            Some(n) => if 1 <= n && n <= 24 {
                Some(n)
            } else {
                None
            },
            None => None,
        }
    } else {
        None
    }
}

pub open spec fn digit_char(d: int) -> char {
    ('0' as u32 + d) as char
}

/// `F` followed by the function key's number.
pub open spec fn function_key_name(n: u8) -> Seq<char> {
    if n < 10 {
        seq!['F', digit_char(n as int)]
    } else {
        seq!['F', digit_char((n / 10) as int), digit_char((n % 10) as int)]
    }
}

/// `s` cut at each `+`.
pub open spec fn split_plus(s: Seq<char>) -> Seq<Seq<char>>
    decreases s.len(),
{
    if s.len() == 0 {
        seq![Seq::empty()]
    } else {
        let parts = split_plus(s.drop_last());
        if s.last() == '+' {
            parts.push(Seq::empty())
        } else {
            parts.update(parts.len() - 1, parts.last().push(s.last()))
        }
    }
}

pub proof fn lemma_split_plus_nonempty(s: Seq<char>)
    ensures
        split_plus(s).len() >= 1,
    decreases s.len(),
{
    if s.len() > 0 {
        lemma_split_plus_nonempty(s.drop_last());
    }
}

/// The tmux name of a base key.
pub open spec fn base_key_name(key: Seq<char>) -> Result<Seq<char>, PrefixErrorView> {
    if key == "space"@ {
        Ok("Space"@)
    } else if key == "tab"@ {
        Ok("Tab"@)
    } else if key == "enter"@ || key == "return"@ {
        Ok("Enter"@)
    } else if key == "backspace"@ {
        Ok("BSpace"@)
    } else if key == "delete"@ {
        Ok("DC"@)
    } else if key == "up"@ {
        Ok("Up"@)
    } else if key == "down"@ {
        Ok("Down"@)
    } else if key == "left"@ {
        Ok("Left"@)
    } else if key == "right"@ {
        Ok("Right"@)
    } else if key.len() == 1 {
        Ok(key)
    } else {
        Err(PrefixErrorView::UnsupportedKey { key })
    }
}

/// Modifier flags: control, alt, shift.
pub ghost struct ModifierFlags {
    pub control: bool,
    pub alt: bool,
    pub shift: bool,
}

/// The flags set by `modifiers`, read left to right; the first modifier tmux
/// cannot take is the error.
pub open spec fn scan_modifiers(modifiers: Seq<Seq<char>>, prefix: Seq<char>) -> Result<ModifierFlags, PrefixErrorView>
    decreases modifiers.len(),
{
    if modifiers.len() == 0 {
        Ok(ModifierFlags { control: false, alt: false, shift: false })
    } else {
        match scan_modifiers(modifiers.drop_last(), prefix) {
            Err(e) => Err(e),
            Ok(f) => {
                let m = modifiers.last();
                if m == "ctrl"@ || m == "control"@ {
                    Ok(ModifierFlags { control: true, ..f })
                } else if m == "alt"@ || m == "option"@ || m == "meta"@ {
                    Ok(ModifierFlags { alt: true, ..f })
                } else if m == "shift"@ {
                    Ok(ModifierFlags { shift: true, ..f })
                } else if m == "cmd"@ || m == "command"@ || m == "super"@ {
                    Err(PrefixErrorView::CommandModifier { prefix })
                } else {
                    Err(PrefixErrorView::UnsupportedModifier { modifier: m, prefix })
                }
            },
        }
    }
}

/// The tmux key for a modified base key: a shifted letter becomes its capital;
/// the remaining modifiers are written `C-`, `M-`, `S-` in that order.
pub open spec fn modified_key(flags: ModifierFlags, base: Seq<char>) -> Seq<char> {
    let capital = flags.shift && base.len() == 1 && is_ascii_alpha(base[0]);
    let key = if capital {
        seq![ascii_upper_char(base[0])]
    } else {
        base
    };
    let shift = flags.shift && !capital;
    (if flags.control { "C-"@ } else { Seq::empty() })
        + (if flags.alt { "M-"@ } else { Seq::empty() })
        + (if shift { "S-"@ } else { Seq::empty() })
        + key
}

/// The tmux form of a Herdr prefix such as `ctrl+b` or `f12`.
pub open spec fn tmux_prefix_of(prefix: Seq<char>) -> Result<Seq<char>, PrefixErrorView> {
    let value = ascii_lower(trimmed(prefix));
    if value.len() == 0 {
        Err(PrefixErrorView::Empty)
    } else if value == "esc"@ || value == "escape"@ {
        Ok("Escape"@)
    } else if function_key(value) is Some {
        Ok(function_key_name(function_key(value)->0))
    } else {
        let parts = split_plus(value);
        if parts.len() == 1 {
            base_key_name(parts[0])
        } else {
            match scan_modifiers(parts.drop_last(), prefix) {
                Err(e) => Err(e),
                Ok(flags) => match base_key_name(parts.last()) {
                    Err(e) => Err(e),
                    Ok(base) => Ok(modified_key(flags, base)),
                },
            }
        }
    }
}

fn ascii_lowercase(chars: &Vec<char>, from: usize, to: usize) -> (lower: Vec<char>)
    requires
        from <= to <= chars@.len(),
    ensures
        lower@ == ascii_lower(chars@.subrange(from as int, to as int)),
{
    let mut out: Vec<char> = Vec::new();
    let lower_letters = chars_of("abcdefghijklmnopqrstuvwxyz");
    let mut i = from;
    while i < to
        invariant
            from <= i <= to <= chars@.len(),
            lower_letters@ == "abcdefghijklmnopqrstuvwxyz"@,
            out@ == ascii_lower(chars@.subrange(from as int, i as int)),
        decreases to - i,
    {
        let c = chars[i];
        let l = if (c as u32) >= ('A' as u32) && (c as u32) <= ('Z' as u32) {
            proof {
                reveal_strlit("abcdefghijklmnopqrstuvwxyz");
            }
            lower_letters[((c as u32) - ('A' as u32)) as usize]
        } else {
            c
        };
        assert(l == ascii_lower_char(c));
        assert(ascii_lower(chars@.subrange(from as int, i + 1)) =~= ascii_lower(chars@.subrange(from as int, i as int)).push(ascii_lower_char(c)));
        out.push(l);
        i = i + 1;
    }
    out
}

fn parse_u8_chars(s: &Vec<char>, from: usize) -> (n: Option<u8>)
    requires
        from <= s@.len(),
    ensures
        n == parsed_u8(s@.subrange(from as int, s@.len() as int)),
{
    let ghost whole = s@.subrange(from as int, s@.len() as int);
    let mut start = from;
    if start < s.len() && s[start] == '+' {
        start = start + 1;
        assert(whole.drop_first() =~= s@.subrange(start as int, s@.len() as int));
    }
    let ghost digits = s@.subrange(start as int, s@.len() as int);
    assert(digits == unsigned_digits(whole));
    if start >= s.len() {
        return None;
    }
    let mut value: u32 = 0;
    let mut i = start;
    while i < s.len()
        invariant
            start <= i <= s@.len(),
            from <= start,
            digits == s@.subrange(start as int, s@.len() as int),
            whole == s@.subrange(from as int, s@.len() as int),
            digits == unsigned_digits(whole),
            forall|j: int| start <= j < i ==> is_ascii_digit(#[trigger] s@[j]),
            value as int == decimal_value(s@.subrange(start as int, i as int)),
            value <= 255,
        decreases s@.len() - i,
    {
        let c = s[i];
        if !((c as u32) >= ('0' as u32) && (c as u32) <= ('9' as u32)) {
            proof {
                let k = (i - start) as int;
                assert(0 <= k < digits.len());
                assert(digits[k] == s@[i as int]);
                assert(!is_ascii_digit(digits[k]));
                assert(!all_digits(digits));
                assert(parsed_u8(whole) is None);
            }
            return None;
        }
        let d = (c as u32) - ('0' as u32);
        assert(s@.subrange(start as int, i + 1).drop_last() =~= s@.subrange(start as int, i as int));
        value = value * 10 + d;
        if value > 255 {
            proof {
                assert(decimal_value(s@.subrange(start as int, i + 1)) == value);
                if all_digits(digits) {
                    lemma_decimal_grows(digits, (i + 1 - start) as int);
                    assert(digits.take((i + 1 - start) as int) =~= s@.subrange(start as int, i + 1));
                    assert(decimal_value(digits) > 255);
                }
                assert(parsed_u8(whole) is None);
            }
            return None;
        }
        i = i + 1;
    }
    assert(s@.subrange(start as int, i as int) == digits);
    assert forall|j: int| 0 <= j < digits.len() implies is_ascii_digit(#[trigger] digits[j]) by {
        assert(digits[j] == s@[start + j]);
    }
    Some(value as u8)
}

/// A run of digits is worth at least each of its prefixes.
pub proof fn lemma_decimal_grows(s: Seq<char>, k: int)
    requires
        0 <= k <= s.len(),
        forall|i: int| 0 <= i < s.len() ==> is_ascii_digit(#[trigger] s[i]),
    ensures
        decimal_value(s) >= decimal_value(s.take(k)),
    decreases s.len(),
{
    if k < s.len() {
        assert(s.drop_last().take(k) =~= s.take(k));
        lemma_decimal_grows(s.drop_last(), k);
        assert(decimal_value(s) == decimal_value(s.drop_last()) * 10 + (s.last() as u32 - '0' as u32));
        assert(decimal_value(s.drop_last()) >= 0) by {
            lemma_decimal_nonneg(s.drop_last());
        }
    } else {
        assert(s.take(k) =~= s);
    }
}

pub proof fn lemma_decimal_nonneg(s: Seq<char>)
    requires
        forall|i: int| 0 <= i < s.len() ==> is_ascii_digit(#[trigger] s[i]),
    ensures
        decimal_value(s) >= 0,
    decreases s.len(),
{
    if s.len() > 0 {
        lemma_decimal_nonneg(s.drop_last());
    }
}

pub open spec fn result_view(r: Result<String, PrefixError>) -> Result<Seq<char>, PrefixErrorView> {
    match r {
        Ok(s) => Ok(s@),
        Err(e) => Err(e@),
    }
}

/// The tmux name of a Herdr base key.
pub fn tmux_base_key(key: &str) -> (name: Result<String, PrefixError>)
    ensures
        result_view(name) == base_key_name(key@),
{
    if str_equal(key, "space") {
        Ok(String::from_str("Space"))
    } else if str_equal(key, "tab") {
        Ok(String::from_str("Tab"))
    } else if str_equal(key, "enter") || str_equal(key, "return") {
        Ok(String::from_str("Enter"))
    } else if str_equal(key, "backspace") {
        Ok(String::from_str("BSpace"))
    } else if str_equal(key, "delete") {
        Ok(String::from_str("DC"))
    } else if str_equal(key, "up") {
        Ok(String::from_str("Up"))
    } else if str_equal(key, "down") {
        Ok(String::from_str("Down"))
    } else if str_equal(key, "left") {
        Ok(String::from_str("Left"))
    } else if str_equal(key, "right") {
        Ok(String::from_str("Right"))
    } else if key.unicode_len() == 1 {
        Ok(key.to_owned())
    } else {
        Err(PrefixError::UnsupportedKey { key: key.to_owned() })
    }
}

fn digit_text(d: u8) -> (c: char)
    requires
        d < 10,
    ensures
        c == digit_char(d as int),
{
    let digits = chars_of("0123456789");
    proof {
        reveal_strlit("0123456789");
    }
    digits[d as usize]
}

fn function_key_text(n: u8) -> (name: String)
    requires
        1 <= n <= 24,
    ensures
        name@ == function_key_name(n),
{
    let mut chars: Vec<char> = Vec::new();
    chars.push('F');
    if n < 10 {
        chars.push(digit_text(n));
        assert(chars@ =~= function_key_name(n));
    } else {
        chars.push(digit_text(n / 10));
        chars.push(digit_text(n % 10));
        assert(chars@ =~= function_key_name(n));
    }
    string_from_chars(&chars, 0, chars.len())
}

/// `value` cut at each `+`.
fn split_on_plus(value: &Vec<char>) -> (parts: Vec<String>)
    ensures
        strings_view(parts@) == split_plus(value@),
{
    let mut done: Vec<String> = Vec::new();
    let mut current: Vec<char> = Vec::new();
    let mut i: usize = 0;
    assert(value@.take(0) =~= Seq::<char>::empty());
    assert(strings_view(done@) + seq![current@] =~= split_plus(value@.take(0)));
    while i < value.len()
        invariant
            i <= value@.len(),
            strings_view(done@) + seq![current@] == split_plus(value@.take(i as int)),
        decreases value@.len() - i,
    {
        let c = value[i];
        assert(value@.take(i + 1).drop_last() =~= value@.take(i as int));
        let ghost before = strings_view(done@) + seq![current@];
        if c == '+' {
            let part = string_from_chars(&current, 0, current.len());
            assert(current@.subrange(0, current@.len() as int) =~= current@);
            done.push(part);
            current = Vec::new();
            assert(strings_view(done@) + seq![current@] =~= before.push(Seq::empty()));
        } else {
            current.push(c);
            assert(strings_view(done@) + seq![current@] =~= before.update(before.len() - 1, before.last().push(c)));
        }
        i = i + 1;
    }
    assert(value@.take(value@.len() as int) =~= value@);
    let last = string_from_chars(&current, 0, current.len());
    assert(current@.subrange(0, current@.len() as int) =~= current@);
    let ghost before = strings_view(done@);
    done.push(last);
    assert(strings_view(done@) =~= before + seq![current@]);
    done
}

/// Once a modifier is refused, reading more modifiers gives the same error.
pub proof fn lemma_scan_error_persists(mods: Seq<Seq<char>>, prefix: Seq<char>, k: int, j: int)
    requires
        0 <= k <= j <= mods.len(),
        scan_modifiers(mods.take(k), prefix) is Err,
    ensures
        scan_modifiers(mods.take(j), prefix) == scan_modifiers(mods.take(k), prefix),
    decreases j - k,
{
    if j > k {
        lemma_scan_error_persists(mods, prefix, k, j - 1);
        assert(mods.take(j).drop_last() =~= mods.take(j - 1));
    }
}

/// Reads the modifiers `parts[..count]`.
fn read_modifiers(parts: &Vec<String>, count: usize, prefix: &str) -> (flags: Result<(bool, bool, bool), PrefixError>)
    requires
        count <= parts@.len(),
    ensures
        match flags {
            Ok((c, a, s)) => scan_modifiers(strings_view(parts@).take(count as int), prefix@) == Ok::<ModifierFlags, PrefixErrorView>(ModifierFlags { control: c, alt: a, shift: s }),
            Err(e) => scan_modifiers(strings_view(parts@).take(count as int), prefix@) == Err::<ModifierFlags, PrefixErrorView>(e@),
        },
{
    let ghost sv = strings_view(parts@);
    let mut control = false;
    let mut alt = false;
    let mut shift = false;
    let mut i: usize = 0;
    assert(sv.take(0) =~= Seq::<Seq<char>>::empty());
    while i < count
        invariant
            i <= count <= parts@.len(),
            sv == strings_view(parts@),
            scan_modifiers(sv.take(i as int), prefix@) == Ok::<ModifierFlags, PrefixErrorView>(ModifierFlags { control, alt, shift }),
        decreases count - i,
    {
        let m = parts[i].as_str();
        assert(sv.take(i + 1).drop_last() =~= sv.take(i as int));
        assert(sv.take(i + 1).last() == m@);
        if str_equal(m, "ctrl") || str_equal(m, "control") {
            control = true;
        } else if str_equal(m, "alt") || str_equal(m, "option") || str_equal(m, "meta") {
            alt = true;
        } else if str_equal(m, "shift") {
            shift = true;
        } else if str_equal(m, "cmd") || str_equal(m, "command") || str_equal(m, "super") {
            proof {
                lemma_scan_error_persists(sv, prefix@, i + 1, count as int);
            }
            return Err(PrefixError::CommandModifier { prefix: prefix.to_owned() });
        } else {
            proof {
                lemma_scan_error_persists(sv, prefix@, i + 1, count as int);
            }
            return Err(PrefixError::UnsupportedModifier { modifier: m.to_owned(), prefix: prefix.to_owned() });
        }
        i = i + 1;
    }
    Ok((control, alt, shift))
}

/// Writes a modified base key the way tmux names it.
fn modified_key_text(control: bool, alt: bool, shift: bool, base: String) -> (key: String)
    ensures
        key@ == modified_key(ModifierFlags { control, alt, shift }, base@),
{
    let chars = chars_of(base.as_str());
    let mut shift = shift;
    let mut key = base;
    if shift && chars.len() == 1 && ((chars[0] as u32 >= 'a' as u32 && chars[0] as u32 <= 'z' as u32) || (chars[0] as u32 >= 'A' as u32 && chars[0] as u32 <= 'Z' as u32)) {
        let c = chars[0];
        let upper = if c as u32 >= 'a' as u32 && c as u32 <= 'z' as u32 {
            let letters = chars_of("ABCDEFGHIJKLMNOPQRSTUVWXYZ");
            proof {
                reveal_strlit("ABCDEFGHIJKLMNOPQRSTUVWXYZ");
            }
            letters[((c as u32) - ('a' as u32)) as usize]
        } else {
            c
        };
        assert(upper == ascii_upper_char(c));
        let mut one: Vec<char> = Vec::new();
        one.push(upper);
        key = string_from_chars(&one, 0, 1);
        assert(key@ =~= seq![ascii_upper_char(c)]);
        shift = false;
    }
    let mut out = String::new();
    if control {
        out = out.concat("C-");
    }
    if alt {
        out = out.concat("M-");
    }
    if shift {
        out = out.concat("S-");
    }
    out.concat(key.as_str())
}

/// The tmux form of a Herdr prefix such as `ctrl+b` or `f12`.
pub fn normalize_tmux_prefix(prefix: &str) -> (key: Result<String, PrefixError>)
    ensures
        result_view(key) == tmux_prefix_of(prefix@),
{
    let chars = chars_of(prefix);
    let (start, end) = trim_bounds(&chars);
    let value = ascii_lowercase(&chars, start, end);
    let ghost v = value@;
    assert(v == ascii_lower(trimmed(prefix@)));
    if value.len() == 0 {
        return Err(PrefixError::Empty);
    }
    let text = string_from_chars(&value, 0, value.len());
    assert(value@.subrange(0, value@.len() as int) =~= value@);
    if str_equal(text.as_str(), "esc") || str_equal(text.as_str(), "escape") {
        return Ok(String::from_str("Escape"));
    }
    if value[0] == 'f' {
        let n = parse_u8_chars(&value, 1);
        assert(value@.subrange(1, value@.len() as int) =~= v.drop_first());
        if let Some(n) = n {
            if 1 <= n && n <= 24 {
                return Ok(function_key_text(n));
            }
        }
    }
    assert(function_key(v) is None);
    let parts = split_on_plus(&value);
    proof {
        lemma_split_plus_nonempty(v);
    }
    let ghost sv = strings_view(parts@);
    if parts.len() == 1 {
        return tmux_base_key(parts[0].as_str());
    }
    let count = parts.len() - 1;
    assert(sv.take(count as int) =~= sv.drop_last());
    let flags = read_modifiers(&parts, count, prefix);
    match flags {
        Err(e) => Err(e),
        Ok((control, alt, shift)) => {
            assert(sv.last() == parts@[count as int]@);
            match tmux_base_key(parts[count].as_str()) {
                Err(e) => Err(e),
                Ok(base) => Ok(modified_key_text(control, alt, shift, base)),
            }
        },
    }
}

// ---------------------------------------------------------------------------
// Reading the configured prefix
// ---------------------------------------------------------------------------

/// Why the Herdr configuration cannot be used.
#[derive(Debug)]
pub enum ConfigError {
    /// The configuration is not valid TOML.
    Toml(TomlError),
    /// The configured prefix has no tmux equivalent.
    Prefix(PrefixError),
}

/// The prefix configured as `[keys].prefix`, `ctrl+b` when none is.
pub open spec fn configured_prefix(entries: Option<Map<Seq<char>, KeysEntry>>) -> Seq<char> {
    match keys_text_of(entries, "prefix"@) {
        Some(p) => p,
        None => "ctrl+b"@,
    }
}

/// The tmux prefix for the Herdr configuration `config`.
pub fn tmux_prefix_from_config(config: &str) -> (prefix: Result<String, ConfigError>)
    ensures
        match parsed_keys_entries(config@) {
            None => prefix matches Err(ConfigError::Toml(_)),
            Some(entries) => match tmux_prefix_of(configured_prefix(entries)) {
                Ok(p) => prefix matches Ok(q) && q@ == p,
                Err(e) => prefix matches Err(ConfigError::Prefix(f)) && f@ == e,
            },
        },
{
    let doc = match parse_document(config) {
        Ok(d) => d,
        Err(e) => return Err(ConfigError::Toml(e)),
    };
    let configured = match keys_text(&doc, "prefix") {
        Some(p) => p,
        None => String::from_str("ctrl+b"),
    };
    match normalize_tmux_prefix(configured.as_str()) {
        Ok(p) => Ok(p),
        Err(e) => Err(ConfigError::Prefix(e)),
    }
}

// ---------------------------------------------------------------------------
// Managed key bindings
// ---------------------------------------------------------------------------

pub const DEFAULT_KEYBINDINGS_MARKER: &'static str = "# herdr-scratch-pane:keybindings";

const TOGGLE_WORKSPACE_DESCRIPTION: &'static str = "Toggle workspace scratch pane";
const TOGGLE_SESSION_DESCRIPTION: &'static str = "Toggle session scratch pane";

/// A command the installer owns.
#[derive(Debug, Clone, Copy, PartialEq, Eq, Structural)]
pub enum ManagedCommand {
    ToggleWorkspace,
    ToggleSession,
    MinimizeCurrent,
}

/// The managed command a shell command line runs: it must name the plugin and
/// end in one of its actions.
pub open spec fn shell_command_kind_of(command: Seq<char>) -> Option<ManagedCommand> {
    if !contains_seq(command, "herdr-scratch-pane"@) {
        None
    } else if has_suffix(command, " toggle --scope workspace"@) {
        Some(ManagedCommand::ToggleWorkspace)
    } else if has_suffix(command, " toggle --scope session"@) {
        Some(ManagedCommand::ToggleSession)
    } else if has_suffix(command, " minimize"@) {
        Some(ManagedCommand::MinimizeCurrent)
    } else {
        None
    }
}

/// The managed command a `[[keys.command]]` entry runs, as a plugin action or
/// as a shell command.
pub open spec fn command_kind_of(command: Option<Seq<char>>) -> Option<ManagedCommand> {
    match command {
        None => None,
        Some(c) => if c == "herdr-scratch-pane.toggle-workspace"@ {
            Some(ManagedCommand::ToggleWorkspace)
        } else if c == "herdr-scratch-pane.toggle-session"@ {
            Some(ManagedCommand::ToggleSession)
        } else if c == "herdr-scratch-pane.minimize-current"@ {
            Some(ManagedCommand::MinimizeCurrent)
        } else {
            shell_command_kind_of(c)
        },
    }
}

pub open spec fn is_legacy_split(command: Seq<char>) -> bool {
    command == "herdr-scratch-pane.safe-split-right"@ || command == "herdr-scratch-pane.safe-split-down"@
}

/// An entry the installer replaces: a managed command or a legacy split action.
pub open spec fn is_managed_table(t: CommandTableView) -> bool {
    command_kind_of(t.command) is Some || (t.command matches Some(c) && is_legacy_split(c))
}

/// A key with white space trimmed, when anything is left.
pub open spec fn non_empty_keys(key: Seq<char>) -> Seq<Seq<char>> {
    if trimmed(key).len() > 0 {
        seq![trimmed(key)]
    } else {
        Seq::empty()
    }
}

pub open spec fn list_keys(values: Seq<Option<Seq<char>>>) -> Seq<Seq<char>>
    decreases values.len(),
{
    if values.len() == 0 {
        Seq::empty()
    } else {
        list_keys(values.drop_last()) + match values.last() {
            Some(k) => non_empty_keys(k),
            None => Seq::empty(),
        }
    }
}

/// The keys a `key` entry binds: a string, or the strings of an array.
pub open spec fn item_keys_of(key: KeyItemView) -> Seq<Seq<char>> {
    match key {
        KeyItemView::Text(t) => non_empty_keys(t),
        KeyItemView::List(values) => list_keys(values),
        _ => Seq::empty(),
    }
}

/// All keys bound to `command` by the entries, in order.
pub open spec fn managed_keys_of(tables: Seq<CommandTableView>, command: ManagedCommand) -> Seq<Seq<char>>
    decreases tables.len(),
{
    if tables.len() == 0 {
        Seq::empty()
    } else {
        managed_keys_of(tables.drop_last(), command) + if command_kind_of(tables.last().command) == Some(command) {
            item_keys_of(tables.last().key)
        } else {
            Seq::empty()
        }
    }
}

/// The keys to bind a command to: the ones it is bound to already, else `default`.
pub open spec fn chosen_keys(tables: Seq<CommandTableView>, command: ManagedCommand, default: Seq<char>) -> Seq<Seq<char>> {
    if managed_keys_of(tables, command).len() > 0 {
        managed_keys_of(tables, command)
    } else {
        seq![default]
    }
}

/// The entries the installer keeps, in order.
pub open spec fn retained_tables(tables: Seq<CommandTableView>) -> Seq<CommandTableView>
    decreases tables.len(),
{
    if tables.len() == 0 {
        Seq::empty()
    } else {
        retained_tables(tables.drop_last()) + if is_managed_table(tables.last()) {
            Seq::empty()
        } else {
            seq![tables.last()]
        }
    }
}

/// One shell binding of `command` per key, with `description`.
pub open spec fn binding_tables(keys: Seq<Seq<char>>, command: Seq<char>, description: Seq<char>) -> Seq<CommandTableView> {
    keys.map_values(|k: Seq<char>| CommandTableView {
        command: Some(command),
        key: KeyItemView::Text(k),
        kind: Some("shell"@),
        description: Some(description),
    })
}

/// The shell command line that runs the plugin binary with `args`.
pub open spec fn action_command_text(binary_path: Seq<char>, args: Seq<char>) -> Seq<char> {
    shell_quoted(binary_path) + " "@ + args
}

/// `[keys]` with `field` set to `default` when it holds a blank string.
pub open spec fn restored_field(m: Map<Seq<char>, KeysEntry>, field: Seq<char>, default: Seq<char>) -> Map<Seq<char>, KeysEntry> {
    match keys_text_of(Some(m), field) {
        Some(t) => if trimmed(t).len() == 0 {
            m.insert(field, KeysEntry::Text(default))
        } else {
            m
        },
        None => m,
    }
}

/// The `[[keys.command]]` tables after installing the toggle bindings: the
/// managed and legacy entries are replaced by shell bindings of both toggles,
/// on the keys they were bound to before or else on the given keys.
pub open spec fn installed_commands(
    tables: Seq<CommandTableView>,
    workspace_key: Seq<char>,
    session_key: Seq<char>,
    binary_path: Seq<char>,
) -> Seq<CommandTableView> {
    retained_tables(tables)
        + binding_tables(
            chosen_keys(tables, ManagedCommand::ToggleWorkspace, workspace_key),
            action_command_text(binary_path, "toggle --scope workspace"@),
            "Toggle workspace scratch pane"@,
        )
        + binding_tables(
            chosen_keys(tables, ManagedCommand::ToggleSession, session_key),
            action_command_text(binary_path, "toggle --scope session"@),
            "Toggle session scratch pane"@,
        )
}

/// The `[keys]` table after installing the toggle bindings: a `[keys]` that is
/// not a standard table starts empty; blank split keys get their defaults; the
/// command tables are the installed ones.
pub open spec fn installed_keys(
    entries: Option<Map<Seq<char>, KeysEntry>>,
    workspace_key: Seq<char>,
    session_key: Seq<char>,
    binary_path: Seq<char>,
) -> Map<Seq<char>, KeysEntry> {
    let m0 = match entries {
        Some(m) => m,
        None => Map::empty(),
    };
    let tables = commands_of(entries);
    let m1 = restored_field(restored_field(m0, "split_vertical"@, "prefix+v"@), "split_horizontal"@, "prefix+minus"@);
    m1.insert("command"@, KeysEntry::Tables(installed_commands(tables, workspace_key, session_key, binary_path)))
}

/// The document with `[keys].field` set to `default` when it holds a blank string.
pub open spec fn restored_document(doc: DocumentMut, field: Seq<char>, default: Seq<char>) -> DocumentMut {
    match keys_text_of(keys_entries(doc), field) {
        Some(t) => if trimmed(t).len() == 0 {
            keys_text_set(doc, field, default)
        } else {
            doc
        },
        None => doc,
    }
}

/// The parsed document before its command tables are replaced: a `keys` entry
/// that is not a standard table is replaced by an empty one, and blank split
/// keys get their defaults.
pub open spec fn prepared_document(doc: DocumentMut) -> DocumentMut {
    let with_keys = if keys_entries(doc) is Some {
        doc
    } else {
        keys_reset(doc)
    };
    restored_document(
        restored_document(with_keys, "split_vertical"@, "prefix+v"@),
        "split_horizontal"@,
        "prefix+minus"@,
    )
}

/// The array `start` with a copy appended of each of the first `n` command
/// tables of `doc` that the installer keeps, in order.
pub open spec fn copied_tables(start: ArrayOfTables, doc: DocumentMut, n: nat) -> ArrayOfTables
    decreases n,
{
    if n == 0 {
        start
    } else {
        let prev = copied_tables(start, doc, (n - 1) as nat);
        if is_managed_table(commands_of(keys_entries(doc))[n - 1]) {
            prev
        } else {
            tables_with_copy(prev, doc, n - 1)
        }
    }
}

/// The array `start` with one new shell binding of `command` appended per key.
pub open spec fn bound_tables(start: ArrayOfTables, keys: Seq<Seq<char>>, command: Seq<char>, description: Seq<char>) -> ArrayOfTables
    decreases keys.len(),
{
    if keys.len() == 0 {
        start
    } else {
        tables_with_binding(bound_tables(start, keys.drop_last(), command, description), keys.last(), "shell"@, command, description)
    }
}

/// The installed command tables of `doc`, built on the array `start`: copies
/// of the kept tables, then new shell bindings of both toggles.
pub open spec fn installed_array(
    start: ArrayOfTables,
    doc: DocumentMut,
    workspace_key: Seq<char>,
    session_key: Seq<char>,
    binary_path: Seq<char>,
) -> ArrayOfTables {
    let tables = commands_of(keys_entries(doc));
    bound_tables(
        bound_tables(
            copied_tables(start, doc, tables.len()),
            chosen_keys(tables, ManagedCommand::ToggleWorkspace, workspace_key),
            action_command_text(binary_path, "toggle --scope workspace"@),
            "Toggle workspace scratch pane"@,
        ),
        chosen_keys(tables, ManagedCommand::ToggleSession, session_key),
        action_command_text(binary_path, "toggle --scope session"@),
        "Toggle session scratch pane"@,
    )
}

/// `text` is what installing the toggle bindings into the configuration
/// `existing` writes: the parsed document, with only its `[keys]` table
/// edited as `prepared_document` says and its command tables replaced by the
/// installed ones, built on the empty array `start`, rendered with the marker
/// line.
pub open spec fn installs_to(
    existing: Seq<char>,
    workspace_key: Seq<char>,
    session_key: Seq<char>,
    binary_path: Seq<char>,
    start: ArrayOfTables,
    text: Seq<char>,
) -> bool {
    let prepared = prepared_document(parsed_document(existing)->0);
    let tables = installed_array(start, prepared, workspace_key, session_key, binary_path);
    let doc = keys_commands_set(prepared, tables);
    &&& command_tables(start) == Seq::<CommandTableView>::empty()
    &&& command_tables(tables) == installed_commands(
        commands_of(parsed_keys_entries(existing)->0),
        workspace_key,
        session_key,
        binary_path,
    )
    &&& keys_entries(doc) == Some(installed_keys(parsed_keys_entries(existing)->0, workspace_key, session_key, binary_path))
    &&& text == with_marker(document_text(doc))
}

/// The rendered document with the installer's marker line at its end, unless
/// the marker is there already.
pub open spec fn with_marker(text: Seq<char>) -> Seq<char> {
    if contains_seq(text, "# herdr-scratch-pane:keybindings"@) {
        text
    } else if has_suffix(text, "\n"@) {
        text + "# herdr-scratch-pane:keybindings"@ + "\n"@
    } else {
        text + "\n"@ + "# herdr-scratch-pane:keybindings"@ + "\n"@
    }
}

pub open spec fn entries_view(entries: Seq<CommandEntry>) -> Seq<CommandTableView> {
    entries.map_values(|e: CommandEntry| e@)
}

fn action_command(binary_path: &str, args: &str) -> (command: String)
    ensures
        command@ == action_command_text(binary_path@, args@),
{
    shell_quote(binary_path).concat(" ").concat(args)
}

fn non_empty_key(key: &str) -> (trimmed_key: Option<String>)
    ensures
        match trimmed_key {
            Some(k) => non_empty_keys(key@) == seq![k@],
            None => non_empty_keys(key@) == Seq::<Seq<char>>::empty(),
        },
{
    let t = trim_white(key);
    if t.as_str().unicode_len() > 0 {
        Some(t)
    } else {
        None
    }
}

fn push_non_empty_key(keys: &mut Vec<String>, key: &str)
    ensures
        strings_view(final(keys)@) == strings_view(old(keys)@) + non_empty_keys(key@),
{
    let ghost before = strings_view(keys@);
    match non_empty_key(key) {
        Some(k) => {
            let ghost kv = k@;
            keys.push(k);
            assert(strings_view(keys@) =~= before + seq![kv]);
        },
        None => {
            assert(strings_view(keys@) =~= before + Seq::<Seq<char>>::empty());
        },
    }
}

/// The keys a `key` entry binds.
fn item_keys(key: &KeyValue, keys: &mut Vec<String>)
    ensures
        strings_view(final(keys)@) == strings_view(old(keys)@) + item_keys_of(key@),
{
    match key {
        KeyValue::Text(t) => push_non_empty_key(keys, t.as_str()),
        KeyValue::List(values) => {
            let ghost start = strings_view(keys@);
            let ghost vs = opt_strings_view(values@);
            let mut i: usize = 0;
            assert(vs.take(0) =~= Seq::<Option<Seq<char>>>::empty());
            assert(strings_view(keys@) =~= start + list_keys(vs.take(0)));
            while i < values.len()
                invariant
                    i <= values@.len(),
                    vs == opt_strings_view(values@),
                    strings_view(keys@) == start + list_keys(vs.take(i as int)),
                decreases values@.len() - i,
            {
                assert(vs.take(i + 1).drop_last() =~= vs.take(i as int));
                assert(vs.take(i + 1).last() == opt_string_view(values@[i as int]));
                match &values[i] {
                    Some(v) => push_non_empty_key(keys, v.as_str()),
                    None => {},
                }
                assert(strings_view(keys@) =~= start + list_keys(vs.take(i + 1)));
                i = i + 1;
            }
            assert(vs.take(values@.len() as int) =~= vs);
        },
        _ => {
            assert(strings_view(keys@) =~= strings_view(old(keys)@) + Seq::<Seq<char>>::empty());
        },
    }
}

fn shell_command_kind(command: &str) -> (kind: Option<ManagedCommand>)
    ensures
        kind == shell_command_kind_of(command@),
{
    if !contains_str(command, "herdr-scratch-pane") {
        None
    } else if ends_with_str(command, " toggle --scope workspace") {
        Some(ManagedCommand::ToggleWorkspace)
    } else if ends_with_str(command, " toggle --scope session") {
        Some(ManagedCommand::ToggleSession)
    } else if ends_with_str(command, " minimize") {
        Some(ManagedCommand::MinimizeCurrent)
    } else {
        None
    }
}

fn command_kind(command: &Option<String>) -> (kind: Option<ManagedCommand>)
    ensures
        kind == command_kind_of(opt_string_view(*command)),
{
    match command {
        None => None,
        Some(c) => {
            let c = c.as_str();
            if str_equal(c, "herdr-scratch-pane.toggle-workspace") {
                Some(ManagedCommand::ToggleWorkspace)
            } else if str_equal(c, "herdr-scratch-pane.toggle-session") {
                Some(ManagedCommand::ToggleSession)
            } else if str_equal(c, "herdr-scratch-pane.minimize-current") {
                Some(ManagedCommand::MinimizeCurrent)
            } else {
                shell_command_kind(c)
            }
        },
    }
}

fn is_legacy_safe_split_command(command: &str) -> (legacy: bool)
    ensures
        legacy == is_legacy_split(command@),
{
    str_equal(command, "herdr-scratch-pane.safe-split-right") || str_equal(command, "herdr-scratch-pane.safe-split-down")
}

fn is_managed_command(entry: &CommandEntry) -> (managed: bool)
    ensures
        managed == is_managed_table(entry@),
{
    command_kind(&entry.command).is_some() || match &entry.command {
        Some(c) => is_legacy_safe_split_command(c.as_str()),
        None => false,
    }
}

/// The keys bound to `command` by the entries, if there are any.
fn managed_command_keys(entries: &Vec<CommandEntry>, command: ManagedCommand) -> (keys: Option<Vec<String>>)
    ensures
        match keys {
            Some(k) => strings_view(k@) == managed_keys_of(entries_view(entries@), command) && k@.len() > 0,
            None => managed_keys_of(entries_view(entries@), command).len() == 0,
        },
{
    let ghost ev = entries_view(entries@);
    let mut keys: Vec<String> = Vec::new();
    let mut i: usize = 0;
    assert(ev.take(0) =~= Seq::<CommandTableView>::empty());
    assert(strings_view(keys@) =~= managed_keys_of(ev.take(0), command));
    while i < entries.len()
        invariant
            i <= entries@.len(),
            ev == entries_view(entries@),
            strings_view(keys@) == managed_keys_of(ev.take(i as int), command),
        decreases entries@.len() - i,
    {
        let entry = &entries[i];
        assert(ev.take(i + 1).drop_last() =~= ev.take(i as int));
        assert(ev.take(i + 1).last() == entry@);
        if command_kind(&entry.command) == Some(command) {
            item_keys(&entry.key, &mut keys);
        } else {
            assert(strings_view(keys@) =~= managed_keys_of(ev.take(i as int), command) + Seq::<Seq<char>>::empty());
        }
        i = i + 1;
    }
    assert(ev.take(entries@.len() as int) =~= ev);
    if keys.len() > 0 {
        Some(keys)
    } else {
        None
    }
}

/// Sets `[keys].field` to `default` when it holds a blank string.
fn restore_empty_key(doc: &mut DocumentMut, field: &str, default: &str)
    requires
        keys_entries(*old(doc)) is Some,
    ensures
        *final(doc) == restored_document(*old(doc), field@, default@),
        keys_entries(*final(doc)) == Some(restored_field(keys_entries(*old(doc))->0, field@, default@)),
{
    if let Some(current) = keys_text(doc, field) {
        if trim_white(current.as_str()).as_str().unicode_len() == 0 {
            set_keys_text(doc, field, default);
        }
    }
}

/// Appends one shell binding of `command` per key.
fn add_shell_command_bindings(tables: &mut ArrayOfTables, keys: &Vec<String>, command: &str, description: &str)
    ensures
        *final(tables) == bound_tables(*old(tables), strings_view(keys@), command@, description@),
        command_tables(*final(tables)) == command_tables(*old(tables)) + binding_tables(strings_view(keys@), command@, description@),
{
    let ghost first = *tables;
    let ghost start = command_tables(*tables);
    let ghost kv = strings_view(keys@);
    let mut i: usize = 0;
    assert(start + binding_tables(kv.take(0), command@, description@) =~= start);
    while i < keys.len()
        invariant
            i <= keys@.len(),
            kv == strings_view(keys@),
            command_tables(*tables) == start + binding_tables(kv.take(i as int), command@, description@),
            *tables == bound_tables(first, kv.take(i as int), command@, description@),
        decreases keys@.len() - i,
    {
        assert(kv.take(i + 1).drop_last() =~= kv.take(i as int));
        push_command_binding(tables, keys[i].as_str(), "shell", command, description);
        assert(start + binding_tables(kv.take(i + 1), command@, description@) =~= (start + binding_tables(
            kv.take(i as int),
            command@,
            description@,
        )).push(
            CommandTableView {
                command: Some(command@),
                key: KeyItemView::Text(kv[i as int]),
                kind: Some("shell"@),
                description: Some(description@),
            },
        ));
        i = i + 1;
    }
    assert(kv.take(keys@.len() as int) =~= kv);
}

/// Installs the scratch toggle bindings into the Herdr configuration `existing`.
///
/// The result is the edited document with the installer's marker line at its
/// end; an error only when `existing` is not TOML.
pub fn install_popup_keybindings_text(
    existing: &str,
    workspace_key: &str,
    session_key: &str,
    binary_path: &str,
) -> (installed: Result<String, ConfigError>)
    ensures
        installed is Err <==> parsed_document(existing@) is None,
        installed matches Err(e) ==> e is Toml,
        installed matches Ok(text) ==> exists|start: ArrayOfTables|
            installs_to(existing@, workspace_key@, session_key@, binary_path@, start, text@),
{
    let mut doc = match parse_document(existing) {
        Ok(d) => d,
        Err(e) => return Err(ConfigError::Toml(e)),
    };
    let ghost parsed = doc;
    let ghost entries = keys_entries(doc);
    if !keys_table_present(&doc) {
        reset_keys_table(&mut doc);
    }
    let ghost with_keys = doc;
    assert(commands_of(keys_entries(doc)) == commands_of(entries));
    let ghost tables = commands_of(entries);
    let count = command_table_count(&doc);
    let mut commands: Vec<CommandEntry> = Vec::new();
    let mut i: usize = 0;
    while i < count
        invariant
            i <= count == tables.len(),
            tables == commands_of(keys_entries(doc)),
            entries_view(commands@) == tables.take(i as int),
        decreases count - i,
    {
        let entry = command_table_entry(&doc, i);
        let ghost before = entries_view(commands@);
        let ghost ev = entry@;
        assert(ev == tables[i as int]);
        commands.push(entry);
        assert(entries_view(commands@) =~= before.push(ev));
        assert(tables.take(i + 1) =~= tables.take(i as int).push(tables[i as int]));
        i = i + 1;
    }
    assert(tables.take(count as int) =~= tables);
    let workspace_keys = match managed_command_keys(&commands, ManagedCommand::ToggleWorkspace) {
        Some(keys) => keys,
        None => {
            let mut keys: Vec<String> = Vec::new();
            keys.push(workspace_key.to_owned());
            assert(strings_view(keys@) =~= seq![workspace_key@]);
            keys
        },
    };
    let session_keys = match managed_command_keys(&commands, ManagedCommand::ToggleSession) {
        Some(keys) => keys,
        None => {
            let mut keys: Vec<String> = Vec::new();
            keys.push(session_key.to_owned());
            assert(strings_view(keys@) =~= seq![session_key@]);
            keys
        },
    };
    restore_empty_key(&mut doc, "split_vertical", "prefix+v");
    restore_empty_key(&mut doc, "split_horizontal", "prefix+minus");
    assert(doc == prepared_document(parsed));
    assert(commands_of(keys_entries(doc)) == tables);
    let mut retained = new_command_tables();
    let ghost start = retained;
    let mut k: usize = 0;
    assert(tables.take(0) =~= Seq::<CommandTableView>::empty());
    while k < count
        invariant
            k <= count == tables.len(),
            tables == commands_of(keys_entries(doc)),
            entries_view(commands@) == tables,
            command_tables(retained) == retained_tables(tables.take(k as int)),
            doc == prepared_document(parsed),
            retained == copied_tables(start, doc, k as nat),
        decreases count - k,
    {
        assert(tables.take(k + 1).drop_last() =~= tables.take(k as int));
        assert(commands@[k as int]@ == tables[k as int]);
        if !is_managed_command(&commands[k]) {
            push_command_copy(&mut retained, &doc, k);
            assert(command_tables(retained) =~= retained_tables(tables.take(k + 1)));
        } else {
            assert(command_tables(retained) =~= retained_tables(tables.take(k + 1)));
        }
        k = k + 1;
    }
    let workspace_command = action_command(binary_path, "toggle --scope workspace");
    add_shell_command_bindings(&mut retained, &workspace_keys, workspace_command.as_str(), TOGGLE_WORKSPACE_DESCRIPTION);
    let session_command = action_command(binary_path, "toggle --scope session");
    add_shell_command_bindings(&mut retained, &session_keys, session_command.as_str(), TOGGLE_SESSION_DESCRIPTION);
    let ghost built = retained;
    assert(command_tables(built) == installed_commands(tables, workspace_key@, session_key@, binary_path@));
    set_keys_commands(&mut doc, retained);
    assert(keys_entries(doc) == Some(installed_keys(entries, workspace_key@, session_key@, binary_path@)));
    assert(doc == keys_commands_set(prepared_document(parsed), built));
    let rendered = render_document(&doc);
    let output = if contains_str(rendered.as_str(), DEFAULT_KEYBINDINGS_MARKER) {
        rendered
    } else if ends_with_str(rendered.as_str(), "\n") {
        rendered.concat(DEFAULT_KEYBINDINGS_MARKER).concat("\n")
    } else {
        rendered.concat("\n").concat(DEFAULT_KEYBINDINGS_MARKER).concat("\n")
    };
    let ghost text = output@;
    assert(built == installed_array(start, prepared_document(parsed), workspace_key@, session_key@, binary_path@));
    assert(installs_to(existing@, workspace_key@, session_key@, binary_path@, start, text));
    let installed: Result<String, ConfigError> = Ok(output);
    assert(installed->Ok_0@ == text);
    installed
}

/// Installs the scratch toggle bindings; the minimize key is no longer bound.
pub fn install_keybindings_text(
    existing: &str,
    workspace_key: &str,
    session_key: &str,
    _minimize_key: &str,
    binary_path: &str,
) -> (installed: Result<String, ConfigError>)
    ensures
        installed is Err <==> parsed_document(existing@) is None,
        installed matches Err(e) ==> e is Toml,
        installed matches Ok(text) ==> exists|start: ArrayOfTables|
            installs_to(existing@, workspace_key@, session_key@, binary_path@, start, text@),
{
    install_popup_keybindings_text(existing, workspace_key, session_key, binary_path)
}

// ---------------------------------------------------------------------------
// Installing twice
// ---------------------------------------------------------------------------

proof fn lemma_managed_keys_concat(a: Seq<CommandTableView>, b: Seq<CommandTableView>, command: ManagedCommand)
    ensures
        managed_keys_of(a + b, command) == managed_keys_of(a, command) + managed_keys_of(b, command),
    decreases b.len(),
{
    if b.len() == 0 {
        assert(a + b =~= a);
        assert(managed_keys_of(a, command) + managed_keys_of(b, command) =~= managed_keys_of(a, command));
    } else {
        lemma_managed_keys_concat(a, b.drop_last(), command);
        assert((a + b).drop_last() =~= a + b.drop_last());
        assert((a + b).last() == b.last());
        assert(managed_keys_of(a, command) + managed_keys_of(b, command) =~= managed_keys_of(a, command)
            + managed_keys_of(b.drop_last(), command) + (if command_kind_of(b.last().command) == Some(command) {
            item_keys_of(b.last().key)
        } else {
            Seq::empty()
        }));
    }
}

proof fn lemma_retained_concat(a: Seq<CommandTableView>, b: Seq<CommandTableView>)
    ensures
        retained_tables(a + b) == retained_tables(a) + retained_tables(b),
    decreases b.len(),
{
    if b.len() == 0 {
        assert(a + b =~= a);
        assert(retained_tables(a) + retained_tables(b) =~= retained_tables(a));
    } else {
        lemma_retained_concat(a, b.drop_last());
        assert((a + b).drop_last() =~= a + b.drop_last());
        assert((a + b).last() == b.last());
        assert(retained_tables(a) + retained_tables(b) =~= retained_tables(a) + retained_tables(b.drop_last())
            + (if is_managed_table(b.last()) {
            Seq::<CommandTableView>::empty()
        } else {
            seq![b.last()]
        }));
    }
}

proof fn lemma_retained_unmanaged(ts: Seq<CommandTableView>)
    ensures
        forall|i: int| 0 <= i < retained_tables(ts).len() ==> !is_managed_table(#[trigger] retained_tables(ts)[i]),
    decreases ts.len(),
{
    if ts.len() > 0 {
        lemma_retained_unmanaged(ts.drop_last());
        let prev = retained_tables(ts.drop_last());
        let cur = retained_tables(ts);
        assert forall|i: int| 0 <= i < cur.len() implies !is_managed_table(#[trigger] cur[i]) by {
            if i < prev.len() {
                assert(cur[i] == prev[i]);
            }
        }
    }
}

proof fn lemma_unmanaged_tables(ts: Seq<CommandTableView>, command: ManagedCommand)
    requires
        forall|i: int| 0 <= i < ts.len() ==> !is_managed_table(#[trigger] ts[i]),
    ensures
        managed_keys_of(ts, command) == Seq::<Seq<char>>::empty(),
        retained_tables(ts) == ts,
    decreases ts.len(),
{
    if ts.len() > 0 {
        assert(!is_managed_table(ts[ts.len() - 1]));
        lemma_unmanaged_tables(ts.drop_last(), command);
        assert(managed_keys_of(ts, command) =~= Seq::<Seq<char>>::empty());
        assert(retained_tables(ts) =~= ts.drop_last().push(ts.last()));
    }
}

/// A key that trimming leaves unchanged and that is not empty.
pub open spec fn is_clean_key(k: Seq<char>) -> bool {
    trimmed(k) == k && k.len() > 0
}

proof fn lemma_list_keys_clean(values: Seq<Option<Seq<char>>>)
    ensures
        forall|i: int| 0 <= i < list_keys(values).len() ==> is_clean_key(#[trigger] list_keys(values)[i]),
    decreases values.len(),
{
    if values.len() > 0 {
        lemma_list_keys_clean(values.drop_last());
        let prev = list_keys(values.drop_last());
        let cur = list_keys(values);
        assert forall|i: int| 0 <= i < cur.len() implies is_clean_key(#[trigger] cur[i]) by {
            if i < prev.len() {
                assert(cur[i] == prev[i]);
            } else {
                match values.last() {
                    Some(k) => {
                        lemma_trimmed_idempotent(k);
                        assert(cur[i] == trimmed(k));
                    },
                    None => {},
                }
            }
        }
    }
}

proof fn lemma_managed_keys_clean(ts: Seq<CommandTableView>, command: ManagedCommand)
    ensures
        forall|i: int| 0 <= i < managed_keys_of(ts, command).len() ==> is_clean_key(#[trigger] managed_keys_of(ts, command)[i]),
    decreases ts.len(),
{
    if ts.len() > 0 {
        lemma_managed_keys_clean(ts.drop_last(), command);
        let prev = managed_keys_of(ts.drop_last(), command);
        let cur = managed_keys_of(ts, command);
        let key = ts.last().key;
        lemma_list_keys_clean(match key {
            KeyItemView::List(vs) => vs,
            _ => Seq::empty(),
        });
        assert forall|i: int| 0 <= i < cur.len() implies is_clean_key(#[trigger] cur[i]) by {
            if i < prev.len() {
                assert(cur[i] == prev[i]);
            } else {
                match key {
                    KeyItemView::Text(t) => {
                        lemma_trimmed_idempotent(t);
                    },
                    KeyItemView::List(vs) => {
                        assert(cur[i] == list_keys(vs)[i - prev.len()]);
                    },
                    _ => {},
                }
            }
        }
    }
}

proof fn lemma_binding_keys(keys: Seq<Seq<char>>, command_line: Seq<char>, description: Seq<char>, command: ManagedCommand)
    requires
        forall|i: int| 0 <= i < keys.len() ==> is_clean_key(#[trigger] keys[i]),
    ensures
        command_kind_of(Some(command_line)) == Some(command) ==> managed_keys_of(binding_tables(keys, command_line, description), command) == keys,
        command_kind_of(Some(command_line)) != Some(command) ==> managed_keys_of(binding_tables(keys, command_line, description), command)
            == Seq::<Seq<char>>::empty(),
        command_kind_of(Some(command_line)) is Some ==> retained_tables(binding_tables(keys, command_line, description))
            == Seq::<CommandTableView>::empty(),
    decreases keys.len(),
{
    if keys.len() > 0 {
        let b = binding_tables(keys, command_line, description);
        assert(b.drop_last() =~= binding_tables(keys.drop_last(), command_line, description));
        lemma_binding_keys(keys.drop_last(), command_line, description, command);
        assert(is_clean_key(keys.last()));
        assert(item_keys_of(b.last().key) == seq![keys.last()]);
        if command_kind_of(Some(command_line)) == Some(command) {
            assert(managed_keys_of(b, command) =~= keys.drop_last().push(keys.last()));
            assert(keys.drop_last().push(keys.last()) =~= keys);
        }
        if command_kind_of(Some(command_line)) is Some {
            assert(retained_tables(b) =~= Seq::<CommandTableView>::empty());
        }
    } else {
        assert(binding_tables(keys, command_line, description) =~= Seq::<CommandTableView>::empty());
    }
}

proof fn lemma_toggle_command_kinds(binary_path: Seq<char>)
    requires
        contains_seq(shell_quoted(binary_path), "herdr-scratch-pane"@),
    ensures
        command_kind_of(Some(action_command_text(binary_path, "toggle --scope workspace"@))) == Some(ManagedCommand::ToggleWorkspace),
        command_kind_of(Some(action_command_text(binary_path, "toggle --scope session"@))) == Some(ManagedCommand::ToggleSession),
{
    reveal_strlit(" ");
    reveal_strlit("toggle --scope workspace");
    reveal_strlit("toggle --scope session");
    reveal_strlit(" toggle --scope workspace");
    reveal_strlit(" toggle --scope session");
    reveal_strlit("herdr-scratch-pane");
    reveal_strlit("herdr-scratch-pane.toggle-workspace");
    reveal_strlit("herdr-scratch-pane.toggle-session");
    reveal_strlit("herdr-scratch-pane.minimize-current");
    let q = shell_quoted(binary_path);
    let w = action_command_text(binary_path, "toggle --scope workspace"@);
    let s = action_command_text(binary_path, "toggle --scope session"@);
    let k = choose|i: int| 0 <= i <= q.len() - "herdr-scratch-pane"@.len() && #[trigger] q.subrange(i, i + "herdr-scratch-pane"@.len()) == "herdr-scratch-pane"@;
    assert(w.subrange(k, k + "herdr-scratch-pane"@.len()) =~= q.subrange(k, k + "herdr-scratch-pane"@.len()));
    assert(s.subrange(k, k + "herdr-scratch-pane"@.len()) =~= q.subrange(k, k + "herdr-scratch-pane"@.len()));
    assert(w.subrange(w.len() - 25, w.len() as int) =~= " toggle --scope workspace"@);
    assert(s.subrange(s.len() - 23, s.len() as int) =~= " toggle --scope session"@);
    assert(w != "herdr-scratch-pane.toggle-workspace"@) by {
        if w == "herdr-scratch-pane.toggle-workspace"@ {
            assert(w[w.len() - 25] == ' ');
        }
    }
    assert(w != "herdr-scratch-pane.toggle-session"@) by {
        if w == "herdr-scratch-pane.toggle-session"@ {
            assert(w[w.len() - 1] == 'e');
        }
    }
    assert(w != "herdr-scratch-pane.minimize-current"@) by {
        if w == "herdr-scratch-pane.minimize-current"@ {
            assert(w[w.len() - 1] == 'e');
        }
    }
    assert(s != "herdr-scratch-pane.toggle-workspace"@) by {
        if s == "herdr-scratch-pane.toggle-workspace"@ {
            assert(s[s.len() - 1] == 'n');
        }
    }
    assert(s != "herdr-scratch-pane.toggle-session"@) by {
        if s == "herdr-scratch-pane.toggle-session"@ {
            assert(s[s.len() - 23] == ' ');
        }
    }
    assert(s != "herdr-scratch-pane.minimize-current"@) by {
        if s == "herdr-scratch-pane.minimize-current"@ {
            assert(s[s.len() - 1] == 'n');
        }
    }
    assert(!has_suffix(s, " toggle --scope workspace"@)) by {
        if has_suffix(s, " toggle --scope workspace"@) {
            assert(s.subrange(s.len() - 25, s.len() as int)[24] == s[s.len() - 1]);
            assert(s.subrange(s.len() - 23, s.len() as int)[22] == s[s.len() - 1]);
            assert(s[s.len() - 1] == 'e');
        }
    }
}

proof fn lemma_restored_field_idempotent(m: Map<Seq<char>, KeysEntry>, field: Seq<char>, default: Seq<char>)
    requires
        trimmed(default).len() > 0,
    ensures
        restored_field(restored_field(m, field, default), field, default) == restored_field(m, field, default),
{
}

/// Installing the bindings a second time leaves the `[keys]` table as the
/// first install left it, whatever keys are asked for the second time: the
/// installer finds its own bindings and keeps their keys. This holds when the
/// quoted binary path names the plugin (the installer recognises its shell
/// bindings by that name) and the keys asked for the first time are clean.
pub proof fn installing_twice_changes_nothing(
    entries: Option<Map<Seq<char>, KeysEntry>>,
    workspace_key: Seq<char>,
    session_key: Seq<char>,
    next_workspace_key: Seq<char>,
    next_session_key: Seq<char>,
    binary_path: Seq<char>,
)
    requires
        contains_seq(shell_quoted(binary_path), "herdr-scratch-pane"@),
        is_clean_key(workspace_key),
        is_clean_key(session_key),
    ensures
        installed_keys(Some(installed_keys(entries, workspace_key, session_key, binary_path)), next_workspace_key, next_session_key, binary_path)
            == installed_keys(entries, workspace_key, session_key, binary_path),
{
    reveal_strlit("prefix+v");
    reveal_strlit("prefix+minus");
    reveal_strlit("command");
    reveal_strlit("split_vertical");
    reveal_strlit("split_horizontal");
    let ts = commands_of(entries);
    let cw = action_command_text(binary_path, "toggle --scope workspace"@);
    let cs = action_command_text(binary_path, "toggle --scope session"@);
    let kw = chosen_keys(ts, ManagedCommand::ToggleWorkspace, workspace_key);
    let ks = chosen_keys(ts, ManagedCommand::ToggleSession, session_key);
    lemma_managed_keys_clean(ts, ManagedCommand::ToggleWorkspace);
    lemma_managed_keys_clean(ts, ManagedCommand::ToggleSession);
    assert(forall|i: int| 0 <= i < kw.len() ==> is_clean_key(#[trigger] kw[i]));
    assert(forall|i: int| 0 <= i < ks.len() ==> is_clean_key(#[trigger] ks[i]));
    lemma_toggle_command_kinds(binary_path);
    let r = retained_tables(ts);
    let dw = "Toggle workspace scratch pane"@;
    let ds = "Toggle session scratch pane"@;
    let bw = binding_tables(kw, cw, dw);
    let bs = binding_tables(ks, cs, ds);
    let tables1 = r + bw + bs;
    lemma_retained_unmanaged(ts);
    lemma_unmanaged_tables(r, ManagedCommand::ToggleWorkspace);
    lemma_unmanaged_tables(r, ManagedCommand::ToggleSession);
    lemma_binding_keys(kw, cw, dw, ManagedCommand::ToggleWorkspace);
    lemma_binding_keys(kw, cw, dw, ManagedCommand::ToggleSession);
    lemma_binding_keys(ks, cs, ds, ManagedCommand::ToggleWorkspace);
    lemma_binding_keys(ks, cs, ds, ManagedCommand::ToggleSession);
    lemma_managed_keys_concat(r, bw, ManagedCommand::ToggleWorkspace);
    lemma_managed_keys_concat(r + bw, bs, ManagedCommand::ToggleWorkspace);
    lemma_managed_keys_concat(r, bw, ManagedCommand::ToggleSession);
    lemma_managed_keys_concat(r + bw, bs, ManagedCommand::ToggleSession);
    lemma_retained_concat(r, bw);
    lemma_retained_concat(r + bw, bs);
    assert(managed_keys_of(tables1, ManagedCommand::ToggleWorkspace) =~= kw);
    assert(managed_keys_of(tables1, ManagedCommand::ToggleSession) =~= ks);
    assert(retained_tables(tables1) =~= r);
    assert(kw.len() > 0);
    assert(ks.len() > 0);
    let m0 = match entries {
        Some(m) => m,
        None => Map::empty(),
    };
    let f = restored_field(restored_field(m0, "split_vertical"@, "prefix+v"@), "split_horizontal"@, "prefix+minus"@);
    let m1 = installed_keys(entries, workspace_key, session_key, binary_path);
    assert(m1 == f.insert("command"@, KeysEntry::Tables(tables1)));
    assert(commands_of(Some(m1)) == tables1);
    lemma_restored_field_idempotent(m0, "split_vertical"@, "prefix+v"@);
    let g = restored_field(restored_field(m1, "split_vertical"@, "prefix+v"@), "split_horizontal"@, "prefix+minus"@);
    assert(g =~= m1);
    assert(installed_keys(Some(m1), next_workspace_key, next_session_key, binary_path) =~= m1);
}

proof fn lemma_scan_ignores_prefix(mods: Seq<Seq<char>>, p: Seq<char>, q: Seq<char>)
    ensures
        scan_modifiers(mods, p) is Ok <==> scan_modifiers(mods, q) is Ok,
        scan_modifiers(mods, p) is Ok ==> scan_modifiers(mods, p) == scan_modifiers(mods, q),
    decreases mods.len(),
{
    if mods.len() > 0 {
        lemma_scan_ignores_prefix(mods.drop_last(), p, q);
    }
}

/// Herdr prefixes that differ only in letter case and in surrounding white
/// space have the same tmux prefix.
pub proof fn prefix_ignores_case_and_spacing(p: Seq<char>, q: Seq<char>)
    requires
        ascii_lower(trimmed(p)) == ascii_lower(trimmed(q)),
    ensures
        tmux_prefix_of(p) is Ok <==> tmux_prefix_of(q) is Ok,
        tmux_prefix_of(p) is Ok ==> tmux_prefix_of(p) == tmux_prefix_of(q),
{
    let parts = split_plus(ascii_lower(trimmed(p)));
    lemma_scan_ignores_prefix(parts.drop_last(), p, q);
}

proof fn lemma_owned_actions_are_managed()
    ensures
        command_kind_of(Some("herdr-scratch-pane.toggle-workspace"@)) == Some(ManagedCommand::ToggleWorkspace),
        command_kind_of(Some("herdr-scratch-pane.toggle-session"@)) == Some(ManagedCommand::ToggleSession),
        command_kind_of(Some("herdr-scratch-pane.minimize-current"@)) == Some(ManagedCommand::MinimizeCurrent),
{
    reveal_strlit("herdr-scratch-pane.toggle-workspace");
    reveal_strlit("herdr-scratch-pane.toggle-session");
    reveal_strlit("herdr-scratch-pane.minimize-current");
    assert("herdr-scratch-pane.toggle-session"@ != "herdr-scratch-pane.toggle-workspace"@) by {
        assert("herdr-scratch-pane.toggle-session"@.len() != "herdr-scratch-pane.toggle-workspace"@.len());
    }
    assert("herdr-scratch-pane.minimize-current"@ != "herdr-scratch-pane.toggle-workspace"@) by {
        assert("herdr-scratch-pane.minimize-current"@[19] != "herdr-scratch-pane.toggle-workspace"@[19]);
    }
    assert("herdr-scratch-pane.minimize-current"@ != "herdr-scratch-pane.toggle-session"@) by {
        assert("herdr-scratch-pane.minimize-current"@.len() != "herdr-scratch-pane.toggle-session"@.len());
    }
}

proof fn lemma_action_is_no_plugin_action(binary_path: Seq<char>, args: Seq<char>)
    requires
        args == "toggle --scope workspace"@ || args == "toggle --scope session"@,
    ensures
        action_command_text(binary_path, args) != "herdr-scratch-pane.toggle-workspace"@,
        action_command_text(binary_path, args) != "herdr-scratch-pane.toggle-session"@,
        action_command_text(binary_path, args) != "herdr-scratch-pane.minimize-current"@,
{
    reveal_strlit("herdr-scratch-pane.toggle-workspace");
    reveal_strlit("herdr-scratch-pane.toggle-session");
    reveal_strlit("herdr-scratch-pane.minimize-current");
    reveal_strlit("toggle --scope workspace");
    reveal_strlit("toggle --scope session");
    reveal_strlit(" ");
    let w = action_command_text(binary_path, args);
    let n = w.len();
    assert(w[n - 1] == args[args.len() - 1]);
    assert(w[n - 8] == args[args.len() - 8]);
    if args == "toggle --scope workspace"@ {
        assert(w[n - 10] == args[14]);
        assert(w[n - 10] == ' ');
        assert(w != "herdr-scratch-pane.toggle-workspace"@) by {
            if w == "herdr-scratch-pane.toggle-workspace"@ {
                assert(w[n - 10] == '-');
            }
        }
        assert(w[n - 1] == 'e');
    } else {
        assert(w[n - 8] == ' ');
        assert(w != "herdr-scratch-pane.toggle-session"@) by {
            if w == "herdr-scratch-pane.toggle-session"@ {
                assert(w[n - 8] == '-');
            }
        }
        assert(w[n - 1] == 'n');
    }
}

/// The plugin action ids the plugin owns.
pub open spec fn is_owned_action(command: Seq<char>) -> bool {
    ||| command == "herdr-scratch-pane.toggle-workspace"@
    ||| command == "herdr-scratch-pane.toggle-session"@
    ||| command == "herdr-scratch-pane.minimize-current"@
}

/// The table runs one of the plugin's own action ids.
pub open spec fn runs_owned_action(t: CommandTableView) -> bool {
    t.command matches Some(c) && is_owned_action(c)
}

/// After an install no `[[keys.command]]` table runs one of the plugin's own
/// action ids: bindings written by the plugin-action release are all replaced.
pub proof fn install_replaces_owned_plugin_actions(
    tables: Seq<CommandTableView>,
    workspace_key: Seq<char>,
    session_key: Seq<char>,
    binary_path: Seq<char>,
)
    ensures
        forall|i: int|
            0 <= i < installed_commands(tables, workspace_key, session_key, binary_path).len() ==> !runs_owned_action(
                #[trigger] installed_commands(tables, workspace_key, session_key, binary_path)[i],
            ),
{
    lemma_owned_actions_are_managed();
    lemma_retained_unmanaged(tables);
    let cw = action_command_text(binary_path, "toggle --scope workspace"@);
    let cs = action_command_text(binary_path, "toggle --scope session"@);
    lemma_action_is_no_plugin_action(binary_path, "toggle --scope workspace"@);
    lemma_action_is_no_plugin_action(binary_path, "toggle --scope session"@);
    let r = retained_tables(tables);
    let bw = binding_tables(chosen_keys(tables, ManagedCommand::ToggleWorkspace, workspace_key), cw, "Toggle workspace scratch pane"@);
    let bs = binding_tables(chosen_keys(tables, ManagedCommand::ToggleSession, session_key), cs, "Toggle session scratch pane"@);
    let all = installed_commands(tables, workspace_key, session_key, binary_path);
    assert(all == r + bw + bs);
    assert forall|i: int| 0 <= i < all.len() implies !runs_owned_action(#[trigger] all[i]) by {
        if i < r.len() {
            assert(all[i] == r[i]);
            assert(!is_managed_table(r[i]));
        } else if i < r.len() + bw.len() {
            assert(all[i] == bw[i - r.len()]);
        } else {
            assert(all[i] == bs[i - r.len() - bw.len()]);
        }
    }
}

proof fn lemma_managed_keys_include(ts: Seq<CommandTableView>, command: ManagedCommand, i: int, k: Seq<char>)
    requires
        0 <= i < ts.len(),
        command_kind_of(ts[i].command) == Some(command),
        ts[i].key == KeyItemView::Text(k),
        trimmed(k).len() > 0,
    ensures
        exists|j: int| 0 <= j < managed_keys_of(ts, command).len() && #[trigger] managed_keys_of(ts, command)[j] == trimmed(k),
    decreases ts.len(),
{
    let prev = managed_keys_of(ts.drop_last(), command);
    let cur = managed_keys_of(ts, command);
    if i == ts.len() - 1 {
        assert(item_keys_of(ts.last().key) == seq![trimmed(k)]);
        assert(cur[prev.len() as int] == trimmed(k));
    } else {
        assert(ts.drop_last()[i] == ts[i]);
        lemma_managed_keys_include(ts.drop_last(), command, i, k);
        let j = choose|j: int| 0 <= j < prev.len() && #[trigger] prev[j] == trimmed(k);
        assert(cur[j] == prev[j]);
    }
}

/// Installing keeps the keys of an existing toggle binding, whether it was
/// written as a plugin action or as a shell command: a toggle bound to `k`
/// before the install is bound to `k` (trimmed) after it, as the plugin's
/// shell command.
pub proof fn install_keeps_keys_of_existing_toggles(
    tables: Seq<CommandTableView>,
    workspace_key: Seq<char>,
    session_key: Seq<char>,
    binary_path: Seq<char>,
    session: bool,
    i: int,
    k: Seq<char>,
)
    requires
        0 <= i < tables.len(),
        tables[i].command == Some(
            if session {
                "herdr-scratch-pane.toggle-session"@
            } else {
                "herdr-scratch-pane.toggle-workspace"@
            },
        ),
        tables[i].key == KeyItemView::Text(k),
        trimmed(k).len() > 0,
    ensures
        exists|j: int|
            0 <= j < installed_commands(tables, workspace_key, session_key, binary_path).len() && (
            #[trigger] installed_commands(tables, workspace_key, session_key, binary_path)[j]) == (CommandTableView {
                command: Some(
                    action_command_text(
                        binary_path,
                        if session {
                            "toggle --scope session"@
                        } else {
                            "toggle --scope workspace"@
                        },
                    ),
                ),
                key: KeyItemView::Text(trimmed(k)),
                kind: Some("shell"@),
                description: Some(
                    if session {
                        "Toggle session scratch pane"@
                    } else {
                        "Toggle workspace scratch pane"@
                    },
                ),
            }),
{
    lemma_owned_actions_are_managed();
    let cw = action_command_text(binary_path, "toggle --scope workspace"@);
    let cs = action_command_text(binary_path, "toggle --scope session"@);
    let kw = chosen_keys(tables, ManagedCommand::ToggleWorkspace, workspace_key);
    let ks = chosen_keys(tables, ManagedCommand::ToggleSession, session_key);
    let r = retained_tables(tables);
    let bw = binding_tables(kw, cw, "Toggle workspace scratch pane"@);
    let bs = binding_tables(ks, cs, "Toggle session scratch pane"@);
    let all = installed_commands(tables, workspace_key, session_key, binary_path);
    assert(all == r + bw + bs);
    if session {
        lemma_managed_keys_include(tables, ManagedCommand::ToggleSession, i, k);
        let j = choose|j: int|
            0 <= j < managed_keys_of(tables, ManagedCommand::ToggleSession).len() && #[trigger] managed_keys_of(
                tables,
                ManagedCommand::ToggleSession,
            )[j] == trimmed(k);
        assert(ks == managed_keys_of(tables, ManagedCommand::ToggleSession));
        assert(all[r.len() + bw.len() + j] == bs[j]);
    } else {
        lemma_managed_keys_include(tables, ManagedCommand::ToggleWorkspace, i, k);
        let j = choose|j: int|
            0 <= j < managed_keys_of(tables, ManagedCommand::ToggleWorkspace).len() && #[trigger] managed_keys_of(
                tables,
                ManagedCommand::ToggleWorkspace,
            )[j] == trimmed(k);
        assert(kw == managed_keys_of(tables, ManagedCommand::ToggleWorkspace));
        assert(all[r.len() + j] == bw[j]);
    }
}

} // verus!
