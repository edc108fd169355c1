//! The key-binding model: a physical key plus modifier flags, with a
//! canonical textual form `Mod+Mod+Key` (modifier order: ctrl, alt, shift)
//! and a parser for the same grammar. Modifier and named-key tokens are
//! accepted case-insensitively; a single character is a literal key, a
//! trailing lone `'+'` the literal `'+'` key; `f<N>` names a function key.
//! An uppercase letter always carries shift. Rendering and parsing are
//! mutually inverse for every constructible binding.

use vstd::prelude::*;

use crate::text::all_dec_digits;
use crate::text::dec_digits;
use crate::text::digits_val;
use crate::text::is_dec_digit;
use crate::text::lemma_dec_digits_val;
use crate::text::lemma_digits_val_grows;
use crate::text::lower_code;
use crate::text::lower_code_exec;
use crate::text::push_char;
use crate::text::seq_eqi;
use crate::text::str_range_eqi;
use crate::text::u64_to_string;

verus! {

/// The physical key of a binding: a character, a named key, or a function
/// key by index.
#[derive(Debug, Clone, Copy, PartialEq, Eq, Hash, Structural)]
pub enum KeyCode {
    Char(char),
    Enter,
    Escape,
    Backspace,
    Tab,
    Up,
    Down,
    Left,
    Right,
    PageUp,
    PageDown,
    Home,
    End,
    F(u8),
}

/// The modifier flags of a binding.
#[derive(Debug, Clone, Copy, PartialEq, Eq, Hash, Structural)]
pub struct KeyModifiers {
    pub ctrl: bool,
    pub alt: bool,
    pub shift: bool,
}

impl Default for KeyModifiers {
    fn default() -> (r: Self)
        ensures
            r == (KeyModifiers { ctrl: false, alt: false, shift: false }),
    {
        KeyModifiers { ctrl: false, alt: false, shift: false }
    }
}

impl KeyModifiers {
    pub fn empty() -> (r: Self)
        ensures
            r == (KeyModifiers { ctrl: false, alt: false, shift: false }),
    {
        KeyModifiers { ctrl: false, alt: false, shift: false }
    }

    pub fn ctrl() -> (r: Self)
        ensures
            r == (KeyModifiers { ctrl: true, alt: false, shift: false }),
    {
        KeyModifiers { ctrl: true, alt: false, shift: false }
    }

    pub fn alt() -> (r: Self)
        ensures
            r == (KeyModifiers { ctrl: false, alt: true, shift: false }),
    {
        KeyModifiers { ctrl: false, alt: true, shift: false }
    }

    pub fn shift() -> (r: Self)
        ensures
            r == (KeyModifiers { ctrl: false, alt: false, shift: true }),
    {
        KeyModifiers { ctrl: false, alt: false, shift: true }
    }

    /// The union of two modifier sets.
    pub fn or(self, rhs: Self) -> (r: Self)
        ensures
            r.ctrl == (self.ctrl || rhs.ctrl),
            r.alt == (self.alt || rhs.alt),
            r.shift == (self.shift || rhs.shift),
    {
        KeyModifiers {
            ctrl: self.ctrl || rhs.ctrl,
            alt: self.alt || rhs.alt,
            shift: self.shift || rhs.shift,
        }
    }
}

pub open spec fn is_upper(c: char) -> bool {
    65 <= c as u32 <= 90
}

/// An uppercase letter conveys shift by its case alone.
pub open spec fn key_forces_shift(key: KeyCode) -> bool {
    key matches KeyCode::Char(c) && is_upper(c)
}

/// A physical key press with its modifier flags.
#[derive(Debug, Clone, Copy, PartialEq, Eq, Hash, Structural)]
pub struct KeyBinding {
    pub key: KeyCode,
    pub modifiers: KeyModifiers,
}

impl KeyBinding {
    /// The binding invariant: an uppercase letter always carries shift.
    pub open spec fn wf(&self) -> bool {
        key_forces_shift(self.key) ==> self.modifiers.shift
    }

    /// A binding for a bare key. Constructing one from an uppercase letter
    /// forces shift, even though it was not explicitly requested.
    pub fn new(key: KeyCode) -> (r: Self)
        ensures
            r.key == key,
            !r.modifiers.ctrl,
            !r.modifiers.alt,
            r.modifiers.shift == key_forces_shift(key),
            r.wf(),
    {
        let shift = key_is_upper_char(key);
        KeyBinding { key, modifiers: KeyModifiers { ctrl: false, alt: false, shift } }
    }

    /// Replaces the modifier set; shift stays forced for an uppercase
    /// letter, so the binding invariant is preserved.
    pub fn with_modifiers(self, modifiers: KeyModifiers) -> (r: Self)
        ensures
            r.key == self.key,
            r.modifiers.ctrl == modifiers.ctrl,
            r.modifiers.alt == modifiers.alt,
            r.modifiers.shift == (modifiers.shift || key_forces_shift(self.key)),
            r.wf(),
    {
        let forced = key_is_upper_char(self.key);
        KeyBinding {
            key: self.key,
            modifiers: KeyModifiers {
                ctrl: modifiers.ctrl,
                alt: modifiers.alt,
                shift: modifiers.shift || forced,
            },
        }
    }

    /// Builds a binding from a decoded key event: an uppercase letter
    /// forces shift even when the event did not report it.
    pub fn from_event(key: KeyCode, ctrl: bool, alt: bool, shift: bool) -> (r: Self)
        ensures
            r.key == key,
            r.modifiers.ctrl == ctrl,
            r.modifiers.alt == alt,
            r.modifiers.shift == (shift || key_forces_shift(key)),
            r.wf(),
    {
        let forced = key_is_upper_char(key);
        KeyBinding { key, modifiers: KeyModifiers { ctrl, alt, shift: shift || forced } }
    }
}

fn key_is_upper_char(key: KeyCode) -> (r: bool)
    ensures
        r == key_forces_shift(key),
{
    match key {
        KeyCode::Char(c) => {
            let u = c as u32;
            65 <= u && u <= 90
        },
        _ => false,
    }
}

/// Why a binding text was rejected: the key token is empty, unrecognized,
/// or a malformed function-key index.
#[derive(Debug, Clone, Copy, PartialEq, Eq, Structural)]
pub enum KeyParseError {
    EmptyKey,
    UnknownKey,
    InvalidFunctionKey,
}

// ------------------------------------------------------------------
// The textual form.
// ------------------------------------------------------------------

/// The canonical token for a physical key.
pub open spec fn key_token(key: KeyCode) -> Seq<char> {
    match key {
        KeyCode::Char(c) => seq![c],
        KeyCode::Enter => "Enter"@,
        KeyCode::Escape => "Escape"@,
        KeyCode::Backspace => "Backspace"@,
        KeyCode::Tab => "Tab"@,
        KeyCode::Up => "Up"@,
        KeyCode::Down => "Down"@,
        KeyCode::Left => "Left"@,
        KeyCode::Right => "Right"@,
        KeyCode::PageUp => "PageUp"@,
        KeyCode::PageDown => "PageDown"@,
        KeyCode::Home => "Home"@,
        KeyCode::End => "End"@,
        KeyCode::F(n) => seq!['F'] + dec_digits(n as nat),
    }
}

/// The canonical text of a binding: the active modifiers in the fixed order
/// ctrl, alt, shift, then the key token, joined by `'+'`.
pub open spec fn binding_text(b: KeyBinding) -> Seq<char> {
    (if b.modifiers.ctrl {
        "Ctrl+"@
    } else {
        Seq::<char>::empty()
    }) + (if b.modifiers.alt {
        "Alt+"@
    } else {
        Seq::<char>::empty()
    }) + (if b.modifiers.shift {
        "Shift+"@
    } else {
        Seq::<char>::empty()
    }) + key_token(b.key)
}

/// Renders a binding to its canonical text.
pub fn key_binding_to_string(binding: &KeyBinding) -> (r: String)
    ensures
        r@ == binding_text(*binding),
{
    let mut out = String::new();
    if binding.modifiers.ctrl {
        out.append("Ctrl+");
    }
    if binding.modifiers.alt {
        out.append("Alt+");
    }
    if binding.modifiers.shift {
        out.append("Shift+");
    }
    match binding.key {
        KeyCode::Char(c) => push_char(&mut out, c),
        KeyCode::Enter => out.append("Enter"),
        KeyCode::Escape => out.append("Escape"),
        KeyCode::Backspace => out.append("Backspace"),
        KeyCode::Tab => out.append("Tab"),
        KeyCode::Up => out.append("Up"),
        KeyCode::Down => out.append("Down"),
        KeyCode::Left => out.append("Left"),
        KeyCode::Right => out.append("Right"),
        KeyCode::PageUp => out.append("PageUp"),
        KeyCode::PageDown => out.append("PageDown"),
        KeyCode::Home => out.append("Home"),
        KeyCode::End => out.append("End"),
        KeyCode::F(n) => {
            out.append("F");
            let digits = u64_to_string(n as u64);
            out.append(digits.as_str());
        },
    }
    proof {
        reveal_strlit("F");
        assert(out@ =~= binding_text(*binding));
    }
    out
}

// ------------------------------------------------------------------
// The parser.
// ------------------------------------------------------------------

/// The index of the first `'+'` in `s`, or its length when there is none.
pub open spec fn first_sep(s: Seq<char>) -> int
    decreases s.len(),
{
    if s.len() == 0 {
        0
    } else if s[0] == '+' {
        0
    } else {
        1 + first_sep(s.drop_first())
    }
}

pub proof fn lemma_first_sep_bounds(s: Seq<char>)
    ensures
        0 <= first_sep(s) <= s.len(),
        forall|j: int| 0 <= j < first_sep(s) ==> s[j] != '+',
        first_sep(s) < s.len() ==> s[first_sep(s)] == '+',
    decreases s.len(),
{
    if s.len() != 0 && s[0] != '+' {
        lemma_first_sep_bounds(s.drop_first());
        assert forall|j: int| 0 <= j < first_sep(s) implies s[j] != '+' by {
            if j >= 1 {
                assert(s[j] == s.drop_first()[j - 1]);
            }
        }
        if first_sep(s) < s.len() {
            assert(s[first_sep(s)] == s.drop_first()[first_sep(s) - 1]);
        }
    }
}

/// `first_sep` is determined by its characterization.
pub proof fn lemma_first_sep_at(s: Seq<char>, i: int)
    requires
        0 <= i <= s.len(),
        forall|j: int| 0 <= j < i ==> s[j] != '+',
        i < s.len() ==> s[i] == '+',
    ensures
        first_sep(s) == i,
    decreases s.len(),
{
    if s.len() == 0 {
    } else if s[0] == '+' {
        assert(i == 0);
    } else {
        assert(i >= 1);
        assert forall|j: int| 0 <= j < i - 1 implies s.drop_first()[j] != '+' by {
            assert(s.drop_first()[j] == s[j + 1]);
        }
        if i - 1 < s.drop_first().len() {
            assert(s.drop_first()[i - 1] == s[i]);
        }
        lemma_first_sep_at(s.drop_first(), i - 1);
    }
}

/// The parser's accumulator: the modifier flags seen so far and the last
/// token that was not a modifier name.
pub struct ScanState {
    pub ctrl: bool,
    pub alt: bool,
    pub shift: bool,
    pub key: Seq<char>,
}

pub open spec fn init_scan() -> ScanState {
    ScanState { ctrl: false, alt: false, shift: false, key: Seq::empty() }
}

/// Folds one token into the accumulator: a modifier name (case-insensitive)
/// sets its flag; any other token, even an empty one, becomes the key token.
pub open spec fn apply_token(st: ScanState, t: Seq<char>) -> ScanState {
    if seq_eqi(t, "ctrl"@) {
        ScanState { ctrl: true, alt: st.alt, shift: st.shift, key: st.key }
    } else if seq_eqi(t, "alt"@) {
        ScanState { ctrl: st.ctrl, alt: true, shift: st.shift, key: st.key }
    } else if seq_eqi(t, "shift"@) {
        ScanState { ctrl: st.ctrl, alt: st.alt, shift: true, key: st.key }
    } else {
        ScanState { ctrl: st.ctrl, alt: st.alt, shift: st.shift, key: t }
    }
}

/// Folds every `'+'`-separated token of `s` into the accumulator, left to
/// right.
pub open spec fn scan_text(s: Seq<char>, st: ScanState) -> ScanState
    decreases s.len(),
    via scan_text_decreases
{
    let i = first_sep(s);
    let st2 = apply_token(st, s.take(i));
    if i == s.len() {
        st2
    } else {
        scan_text(s.skip(i + 1), st2)
    }
}

#[via_fn]
proof fn scan_text_decreases(s: Seq<char>, st: ScanState) {
    lemma_first_sep_bounds(s);
}

/// Classifies the key token: a named key (case-insensitive), a single
/// literal character, or `f<N>` with a decimal index that fits the
/// function-key range; anything else is an error.
pub open spec fn keycode_of_token(t: Seq<char>) -> Result<KeyCode, KeyParseError> {
    if t.len() == 0 {
        Err(KeyParseError::EmptyKey)
    } else if seq_eqi(t, "enter"@) {
        Ok(KeyCode::Enter)
    } else if seq_eqi(t, "escape"@) || seq_eqi(t, "esc"@) {
        Ok(KeyCode::Escape)
    } else if seq_eqi(t, "backspace"@) {
        Ok(KeyCode::Backspace)
    } else if seq_eqi(t, "tab"@) {
        Ok(KeyCode::Tab)
    } else if seq_eqi(t, "up"@) {
        Ok(KeyCode::Up)
    } else if seq_eqi(t, "down"@) {
        Ok(KeyCode::Down)
    } else if seq_eqi(t, "left"@) {
        Ok(KeyCode::Left)
    } else if seq_eqi(t, "right"@) {
        Ok(KeyCode::Right)
    } else if seq_eqi(t, "pageup"@) {
        Ok(KeyCode::PageUp)
    } else if seq_eqi(t, "pagedown"@) {
        Ok(KeyCode::PageDown)
    } else if seq_eqi(t, "home"@) {
        Ok(KeyCode::Home)
    } else if seq_eqi(t, "end"@) {
        Ok(KeyCode::End)
    } else if t.len() == 1 {
        Ok(KeyCode::Char(t[0]))
    } else if lower_code(t[0]) == 'f' as u32 {
        if all_dec_digits(t.drop_first()) && digits_val(t.drop_first()) <= 255 {
            Ok(KeyCode::F(digits_val(t.drop_first()) as u8))
        } else {
            Err(KeyParseError::InvalidFunctionKey)
        }
    } else {
        Err(KeyParseError::UnknownKey)
    }
}

/// A text that names the literal `'+'` key: it ends with a `'+'` that is
/// either the whole text or follows another `'+'` (its separator). Without
/// this reading, the key that is the separator character itself could
/// never be written down.
pub open spec fn plus_key_text(s: Seq<char>) -> bool {
    s.len() >= 1 && s.last() == '+' && (s.len() == 1 || s[s.len() - 2] == '+')
}

/// What parsing a binding text yields. A text naming the literal `'+'` key
/// takes its modifiers from what precedes the final separator; any other
/// text is folded into modifiers and a key token, the key token is
/// classified, and shift is forced for an uppercase letter.
pub open spec fn parse_binding(s: Seq<char>) -> Result<KeyBinding, KeyParseError> {
    if plus_key_text(s) {
        let st = if s.len() <= 2 {
            init_scan()
        } else {
            scan_text(s.take(s.len() - 2), init_scan())
        };
        Ok(
            KeyBinding {
                key: KeyCode::Char('+'),
                modifiers: KeyModifiers { ctrl: st.ctrl, alt: st.alt, shift: st.shift },
            },
        )
    } else {
        let st = scan_text(s, init_scan());
        match keycode_of_token(st.key) {
            Ok(key) => Ok(
                KeyBinding {
                    key,
                    modifiers: KeyModifiers {
                        ctrl: st.ctrl,
                        alt: st.alt,
                        shift: st.shift || key_forces_shift(key),
                    },
                },
            ),
            Err(e) => Err(e),
        }
    }
}

/// Classifies the characters of `s` between `ks` and `ke` as a key token.
fn keycode_of_range(s: &str, ks: usize, ke: usize) -> (r: Result<KeyCode, KeyParseError>)
    requires
        ks <= ke <= s@.len(),
    ensures
        r == keycode_of_token(s@.subrange(ks as int, ke as int)),
{
    let ghost t = s@.subrange(ks as int, ke as int);
    if ke == ks {
        return Err(KeyParseError::EmptyKey);
    }
    if str_range_eqi(s, ks, ke, "enter") {
        return Ok(KeyCode::Enter);
    }
    if str_range_eqi(s, ks, ke, "escape") || str_range_eqi(s, ks, ke, "esc") {
        return Ok(KeyCode::Escape);
    }
    if str_range_eqi(s, ks, ke, "backspace") {
        return Ok(KeyCode::Backspace);
    }
    if str_range_eqi(s, ks, ke, "tab") {
        return Ok(KeyCode::Tab);
    }
    if str_range_eqi(s, ks, ke, "up") {
        return Ok(KeyCode::Up);
    }
    if str_range_eqi(s, ks, ke, "down") {
        return Ok(KeyCode::Down);
    }
    if str_range_eqi(s, ks, ke, "left") {
        return Ok(KeyCode::Left);
    }
    if str_range_eqi(s, ks, ke, "right") {
        return Ok(KeyCode::Right);
    }
    if str_range_eqi(s, ks, ke, "pageup") {
        return Ok(KeyCode::PageUp);
    }
    if str_range_eqi(s, ks, ke, "pagedown") {
        return Ok(KeyCode::PageDown);
    }
    if str_range_eqi(s, ks, ke, "home") {
        return Ok(KeyCode::Home);
    }
    if str_range_eqi(s, ks, ke, "end") {
        return Ok(KeyCode::End);
    }
    if ke - ks == 1 {
        let c = s.get_char(ks);
        assert(t[0] == s@[ks as int]);
        assert(t.len() == 1);
        return Ok(KeyCode::Char(c));
    }
    assert(t[0] == s@[ks as int]);
    if lower_code_exec(s.get_char(ks)) != 102 {
        return Err(KeyParseError::UnknownKey);
    }
    proof {
        assert('f' as u32 == 102);
    }
    // An `f<N>` token: the rest must be decimal digits naming a value
    // that fits in the function-key range.
    match parse_fkey_digits(s, ks, ke) {
        Some(v) => Ok(KeyCode::F(v)),
        None => Err(KeyParseError::InvalidFunctionKey),
    }
}

/// Reads the digits of an `f<N>` token (the characters after the leading
/// `f`); nothing when one is not a digit or the value is out of range.
fn parse_fkey_digits(s: &str, ks: usize, ke: usize) -> (r: Option<u8>)
    requires
        ks < ke <= s@.len(),
    ensures
        ({
            let d = s@.subrange(ks as int, ke as int).drop_first();
            if all_dec_digits(d) && digits_val(d) <= 255 {
                r == Some(digits_val(d) as u8)
            } else {
                r is None
            }
        }),
{
    let ghost digits = s@.subrange(ks as int, ke as int).drop_first();
    let mut val: u32 = 0;
    let mut i: usize = ks + 1;
    proof {
        assert(digits.take(0) =~= Seq::<char>::empty());
    }
    while i < ke
        invariant
            ks + 1 <= i <= ke,
            ke <= s@.len(),
            digits == s@.subrange(ks as int, ke as int).drop_first(),
            digits.len() == ke - ks - 1,
            forall|j: int| 0 <= j < i - ks - 1 ==> is_dec_digit(digits[j]),
            val == digits_val(digits.take(i - ks - 1)),
            val <= 255,
        decreases ke - i,
    {
        let c = s.get_char(i);
        let u = c as u32;
        proof {
            assert(digits[i - ks - 1] == s@.subrange(ks as int, ke as int)[i - ks]);
            assert(s@.subrange(ks as int, ke as int)[i - ks] == s@[i as int]);
        }
        if !(48 <= u && u <= 57) {
            proof {
                assert(!is_dec_digit(digits[i - ks - 1]));
                assert(!all_dec_digits(digits));
            }
            return None;
        }
        proof {
            assert(digits.take(i - ks).drop_last() =~= digits.take(i - ks - 1));
            assert(digits.take(i - ks).last() == digits[i - ks - 1]);
        }
        val = val * 10 + (u - 48);
        i += 1;
        if val > 255 {
            proof {
                lemma_digits_val_grows(digits, i - ks - 1);
                assert(digits.take(digits.len() as int) =~= digits);
                assert(digits_val(digits) > 255);
            }
            return None;
        }
    }
    proof {
        assert(digits.take(ke - ks - 1) =~= digits);
    }
    Some(val as u8)
}

/// Folds the `'+'`-separated tokens of the first `limit` characters of
/// `s`, returning the modifier flags and the range of the key token.
fn scan_prefix(s: &str, limit: usize) -> (r: (bool, bool, bool, usize, usize))
    requires
        limit <= s@.len(),
    ensures
        r.3 <= r.4 <= limit,
        scan_text(s@.subrange(0, limit as int), init_scan()) == (ScanState {
            ctrl: r.0,
            alt: r.1,
            shift: r.2,
            key: s@.subrange(r.3 as int, r.4 as int),
        }),
{
    let ghost prefix = s@.subrange(0, limit as int);
    let mut ctrl = false;
    let mut alt = false;
    let mut shift = false;
    let mut ks: usize = 0;
    let mut ke: usize = 0;
    let mut pos: usize = 0;
    proof {
        assert(prefix.skip(0) =~= prefix);
        assert(s@.subrange(0, 0) =~= Seq::<char>::empty());
    }
    loop
        invariant
            limit <= s@.len(),
            prefix == s@.subrange(0, limit as int),
            pos <= limit,
            ks <= ke <= limit,
            scan_text(prefix, init_scan()) == scan_text(
                prefix.skip(pos as int),
                (ScanState { ctrl, alt, shift, key: s@.subrange(ks as int, ke as int) }),
            ),
        ensures
            ks <= ke <= limit,
            scan_text(prefix, init_scan()) == (ScanState {
                ctrl,
                alt,
                shift,
                key: s@.subrange(ks as int, ke as int),
            }),
        decreases limit - pos,
    {
        let ghost st_old = ScanState { ctrl, alt, shift, key: s@.subrange(ks as int, ke as int) };
        // find the end of the current token
        let mut end = pos;
        while end < limit && s.get_char(end) != '+'
            invariant
                limit <= s@.len(),
                pos <= end <= limit,
                forall|j: int| pos <= j < end ==> s@[j] != '+',
            decreases limit - end,
        {
            end += 1;
        }
        proof {
            let suffix = prefix.skip(pos as int);
            assert forall|j: int| 0 <= j < end - pos implies suffix[j] != '+' by {
                assert(suffix[j] == s@[pos + j]);
            }
            if end < limit {
                assert(suffix[end - pos] == s@[end as int]);
            }
            lemma_first_sep_at(suffix, end - pos);
            assert(suffix.take(end - pos) =~= s@.subrange(pos as int, end as int));
        }
        // classify the token
        if str_range_eqi(s, pos, end, "ctrl") {
            ctrl = true;
        } else if str_range_eqi(s, pos, end, "alt") {
            alt = true;
        } else if str_range_eqi(s, pos, end, "shift") {
            shift = true;
        } else {
            ks = pos;
            ke = end;
        }
        proof {
            let suffix = prefix.skip(pos as int);
            let st_new = ScanState {
                ctrl,
                alt,
                shift,
                key: s@.subrange(ks as int, ke as int),
            };
            assert(apply_token(st_old, s@.subrange(pos as int, end as int)) == st_new);
            if end < limit {
                assert(suffix.skip(end - pos + 1) =~= prefix.skip(end + 1));
            }
        }
        if end == limit {
            break ;
        }
        pos = end + 1;
    }
    (ctrl, alt, shift, ks, ke)
}

/// Parses a binding text: `'+'`-separated tokens, modifier names in any
/// case, a named key or single literal character or `f<N>` as the key
/// token, and a trailing lone `'+'` as the literal `'+'` key. Fails
/// exactly when the key token is empty, unrecognized, or a malformed
/// function-key index; never panics.
pub fn parse_key_binding(s: &str) -> (r: Result<KeyBinding, KeyParseError>)
    ensures
        r == parse_binding(s@),
{
    let n = s.unicode_len();
    if n >= 1 && s.get_char(n - 1) == '+' && (n == 1 || s.get_char(n - 2) == '+') {
        proof {
            assert(s@.last() == s@[n - 1]);
            assert(plus_key_text(s@));
        }
        // the literal '+' key: what precedes its separator holds the
        // modifiers
        if n <= 2 {
            return Ok(
                KeyBinding {
                    key: KeyCode::Char('+'),
                    modifiers: KeyModifiers { ctrl: false, alt: false, shift: false },
                },
            );
        }
        let (ctrl, alt, shift, _ks, _ke) = scan_prefix(s, n - 2);
        proof {
            assert(s@.take(s@.len() - 2) =~= s@.subrange(0, n - 2));
        }
        return Ok(KeyBinding { key: KeyCode::Char('+'), modifiers: KeyModifiers { ctrl, alt, shift } });
    }
    proof {
        if n >= 1 {
            assert(s@.last() == s@[n - 1]);
        }
        assert(!plus_key_text(s@));
        assert(s@.subrange(0, n as int) =~= s@);
    }
    let (ctrl, alt, shift, ks, ke) = scan_prefix(s, n);
    let key = match keycode_of_range(s, ks, ke) {
        Ok(k) => k,
        Err(e) => {
            return Err(e);
        },
    };
    let forced = key_is_upper_char(key);
    Ok(KeyBinding { key, modifiers: KeyModifiers { ctrl, alt, shift: shift || forced } })
}


// ------------------------------------------------------------------
// The round-trip law: rendering, then parsing, recovers the binding.
// ------------------------------------------------------------------

/// No character of `s` is the token separator.
pub open spec fn has_no_sep(s: Seq<char>) -> bool {
    forall|j: int| 0 <= j < s.len() ==> s[j] != '+'
}

/// Scanning consumes one separated token at a time.
proof fn lemma_scan_step(t: Seq<char>, rest: Seq<char>, st: ScanState)
    requires
        has_no_sep(t),
    ensures
        scan_text(t + seq!['+'] + rest, st) == scan_text(rest, apply_token(st, t)),
{
    let s = t + seq!['+'] + rest;
    assert forall|j: int| 0 <= j < t.len() implies s[j] != '+' by {
        assert(s[j] == t[j]);
    }
    assert(s[t.len() as int] == '+');
    lemma_first_sep_at(s, t.len() as int);
    assert(s.take(t.len() as int) =~= t);
    assert(s.skip(t.len() as int + 1) =~= rest);
}

/// Scanning a lone final token folds it and stops.
proof fn lemma_scan_last(t: Seq<char>, st: ScanState)
    requires
        has_no_sep(t),
    ensures
        scan_text(t, st) == apply_token(st, t),
{
    lemma_first_sep_at(t, t.len() as int);
    assert(t.take(t.len() as int) =~= t);
}

/// The canonical key token is never empty and, apart from the literal key
/// `'+'` itself, never contains the separator.
proof fn lemma_key_token_clean(key: KeyCode)
    requires
        !(key matches KeyCode::Char(c) && c == '+'),
    ensures
        has_no_sep(key_token(key)),
        key_token(key).len() >= 1,
{
    reveal_strlit("Enter");
    reveal_strlit("Escape");
    reveal_strlit("Backspace");
    reveal_strlit("Tab");
    reveal_strlit("Up");
    reveal_strlit("Down");
    reveal_strlit("Left");
    reveal_strlit("Right");
    reveal_strlit("PageUp");
    reveal_strlit("PageDown");
    reveal_strlit("Home");
    reveal_strlit("End");
    let t = key_token(key);
    match key {
        KeyCode::Char(c) => {
            assert(t =~= seq![c]);
        },
        KeyCode::F(n) => {
            lemma_dec_digits_val(n as nat);
            assert forall|j: int| 0 <= j < t.len() implies t[j] != '+' by {
                if j == 0 {
                    assert(t[0] == 'F');
                } else {
                    assert(t[j] == dec_digits(n as nat)[j - 1]);
                    assert(is_dec_digit(dec_digits(n as nat)[j - 1]));
                }
            }
        },
        _ => {},
    }
}

/// The canonical key token is never a modifier name.
proof fn lemma_key_token_not_modifier(key: KeyCode)
    ensures
        !seq_eqi(key_token(key), "ctrl"@),
        !seq_eqi(key_token(key), "alt"@),
        !seq_eqi(key_token(key), "shift"@),
{
    reveal_strlit("ctrl");
    reveal_strlit("alt");
    reveal_strlit("shift");
    reveal_strlit("Enter");
    reveal_strlit("Escape");
    reveal_strlit("Backspace");
    reveal_strlit("Tab");
    reveal_strlit("Up");
    reveal_strlit("Down");
    reveal_strlit("Left");
    reveal_strlit("Right");
    reveal_strlit("PageUp");
    reveal_strlit("PageDown");
    reveal_strlit("Home");
    reveal_strlit("End");
    let t = key_token(key);
    match key {
        KeyCode::Char(c) => {
            assert(t.len() == 1);
        },
        KeyCode::F(n) => {
            lemma_dec_digits_val(n as nat);
            assert(t[0] == 'F');
            if seq_eqi(t, "ctrl"@) {
                assert(lower_code(t[0]) == lower_code("ctrl"@[0]));
            }
            if seq_eqi(t, "alt"@) {
                assert(lower_code(t[0]) == lower_code("alt"@[0]));
            }
            if seq_eqi(t, "shift"@) {
                assert(lower_code(t[0]) == lower_code("shift"@[0]));
            }
        },
        _ => {
            // Every named token starts with a letter that no modifier
            // name starts with.
            if seq_eqi(t, "ctrl"@) {
                assert(lower_code(t[0]) == lower_code("ctrl"@[0]));
            }
            if seq_eqi(t, "alt"@) {
                assert(lower_code(t[0]) == lower_code("alt"@[0]));
            }
            if seq_eqi(t, "shift"@) {
                assert(lower_code(t[0]) == lower_code("shift"@[0]));
            }
        },
    }
}

/// Classifying the canonical key token recovers the key.
proof fn lemma_keycode_of_key_token(key: KeyCode)
    requires
        !(key matches KeyCode::Char(c) && c == '+'),
    ensures
        keycode_of_token(key_token(key)) == Ok::<KeyCode, KeyParseError>(key),
{
    reveal_strlit("Enter");
    reveal_strlit("enter");
    reveal_strlit("Escape");
    reveal_strlit("escape");
    reveal_strlit("esc");
    reveal_strlit("Backspace");
    reveal_strlit("backspace");
    reveal_strlit("Tab");
    reveal_strlit("tab");
    reveal_strlit("Up");
    reveal_strlit("up");
    reveal_strlit("Down");
    reveal_strlit("down");
    reveal_strlit("Left");
    reveal_strlit("left");
    reveal_strlit("Right");
    reveal_strlit("right");
    reveal_strlit("PageUp");
    reveal_strlit("pageup");
    reveal_strlit("PageDown");
    reveal_strlit("pagedown");
    reveal_strlit("Home");
    reveal_strlit("home");
    reveal_strlit("End");
    reveal_strlit("end");
    let t = key_token(key);
    match key {
        KeyCode::Char(c) => {
            assert(t.len() == 1);
            assert(t[0] == c);
        },
        KeyCode::F(n) => {
            lemma_dec_digits_val(n as nat);
            assert(t[0] == 'F');
            assert(t.len() >= 2);
            if seq_eqi(t, "enter"@) {
                assert(lower_code(t[0]) == lower_code("enter"@[0]));
            }
            if seq_eqi(t, "escape"@) {
                assert(lower_code(t[0]) == lower_code("escape"@[0]));
            }
            if seq_eqi(t, "esc"@) {
                assert(lower_code(t[0]) == lower_code("esc"@[0]));
            }
            if seq_eqi(t, "backspace"@) {
                assert(lower_code(t[0]) == lower_code("backspace"@[0]));
            }
            if seq_eqi(t, "tab"@) {
                assert(lower_code(t[0]) == lower_code("tab"@[0]));
            }
            if seq_eqi(t, "up"@) {
                assert(lower_code(t[0]) == lower_code("up"@[0]));
            }
            if seq_eqi(t, "down"@) {
                assert(lower_code(t[0]) == lower_code("down"@[0]));
            }
            if seq_eqi(t, "left"@) {
                assert(lower_code(t[0]) == lower_code("left"@[0]));
            }
            if seq_eqi(t, "right"@) {
                assert(lower_code(t[0]) == lower_code("right"@[0]));
            }
            if seq_eqi(t, "pageup"@) {
                assert(lower_code(t[0]) == lower_code("pageup"@[0]));
            }
            if seq_eqi(t, "pagedown"@) {
                assert(lower_code(t[0]) == lower_code("pagedown"@[0]));
            }
            if seq_eqi(t, "home"@) {
                assert(lower_code(t[0]) == lower_code("home"@[0]));
            }
            if seq_eqi(t, "end"@) {
                assert(lower_code(t[0]) == lower_code("end"@[0]));
            }
            assert(lower_code(t[0]) == 'f' as u32);
            assert(t.drop_first() =~= dec_digits(n as nat));
            assert(digits_val(t.drop_first()) == n as nat);
        },
        KeyCode::Enter => {
            assert(seq_eqi(t, "enter"@));
        },
        KeyCode::Escape => {
            assert(seq_eqi(t, "escape"@));
        },
        KeyCode::Backspace => {
            assert(seq_eqi(t, "backspace"@));
        },
        KeyCode::Tab => {
            if seq_eqi(t, "esc"@) {
                assert(lower_code(t[0]) == lower_code("esc"@[0]));
            }
            assert(seq_eqi(t, "tab"@));
        },
        KeyCode::Up => {
            assert(seq_eqi(t, "up"@));
        },
        KeyCode::Down => {
            assert(seq_eqi(t, "down"@));
        },
        KeyCode::Left => {
            if seq_eqi(t, "down"@) {
                assert(lower_code(t[0]) == lower_code("down"@[0]));
            }
            assert(seq_eqi(t, "left"@));
        },
        KeyCode::Right => {
            if seq_eqi(t, "enter"@) {
                assert(lower_code(t[0]) == lower_code("enter"@[0]));
            }
            assert(seq_eqi(t, "right"@));
        },
        KeyCode::PageUp => {
            if seq_eqi(t, "escape"@) {
                assert(lower_code(t[0]) == lower_code("escape"@[0]));
            }
            assert(seq_eqi(t, "pageup"@));
        },
        KeyCode::PageDown => {
            assert(seq_eqi(t, "pagedown"@));
        },
        KeyCode::Home => {
            if seq_eqi(t, "down"@) {
                assert(lower_code(t[0]) == lower_code("down"@[0]));
            }
            if seq_eqi(t, "left"@) {
                assert(lower_code(t[0]) == lower_code("left"@[0]));
            }
            assert(seq_eqi(t, "home"@));
        },
        KeyCode::End => {
            if seq_eqi(t, "esc"@) {
                assert(lower_code(t[1]) == lower_code("esc"@[1]));
            }
            if seq_eqi(t, "tab"@) {
                assert(lower_code(t[0]) == lower_code("tab"@[0]));
            }
            assert(seq_eqi(t, "end"@));
        },
    }
}

/// Scanning the canonical text of a binding recovers its modifiers and its
/// key token.
proof fn lemma_scan_of_binding_text(b: KeyBinding)
    requires
        has_no_sep(key_token(b.key)),
    ensures
        scan_text(binding_text(b), init_scan()) == (ScanState {
            ctrl: b.modifiers.ctrl,
            alt: b.modifiers.alt,
            shift: b.modifiers.shift,
            key: key_token(b.key),
        }),
{
    reveal_strlit("Ctrl+");
    reveal_strlit("Ctrl");
    reveal_strlit("ctrl");
    reveal_strlit("Alt+");
    reveal_strlit("Alt");
    reveal_strlit("alt");
    reveal_strlit("Shift+");
    reveal_strlit("Shift");
    reveal_strlit("shift");
    lemma_key_token_not_modifier(b.key);
    let ktok = key_token(b.key);
    let st0 = init_scan();
    assert("Ctrl+"@ =~= "Ctrl"@ + seq!['+']);
    assert("Alt+"@ =~= "Alt"@ + seq!['+']);
    assert("Shift+"@ =~= "Shift"@ + seq!['+']);
    assert(seq_eqi("Ctrl"@, "ctrl"@));
    assert(seq_eqi("Alt"@, "alt"@));
    assert(!seq_eqi("Alt"@, "ctrl"@));
    assert(seq_eqi("Shift"@, "shift"@));
    assert(!seq_eqi("Shift"@, "ctrl"@));
    assert(!seq_eqi("Shift"@, "alt"@));
    assert(has_no_sep("Ctrl"@));
    assert(has_no_sep("Alt"@));
    assert(has_no_sep("Shift"@));
    let s3 = (if b.modifiers.shift {
        "Shift+"@
    } else {
        Seq::<char>::empty()
    }) + ktok;
    let s2 = (if b.modifiers.alt {
        "Alt+"@
    } else {
        Seq::<char>::empty()
    }) + s3;
    let s1 = (if b.modifiers.ctrl {
        "Ctrl+"@
    } else {
        Seq::<char>::empty()
    }) + s2;
    assert(s1 =~= binding_text(b));
    let st_c = ScanState { ctrl: b.modifiers.ctrl, alt: false, shift: false, key: Seq::empty() };
    if b.modifiers.ctrl {
        assert(s1 =~= "Ctrl"@ + seq!['+'] + s2);
        lemma_scan_step("Ctrl"@, s2, st0);
        assert(apply_token(st0, "Ctrl"@) == st_c);
    } else {
        assert(s1 =~= s2);
    }
    assert(scan_text(s1, st0) == scan_text(s2, st_c));
    let st_a = ScanState {
        ctrl: b.modifiers.ctrl,
        alt: b.modifiers.alt,
        shift: false,
        key: Seq::empty(),
    };
    if b.modifiers.alt {
        assert(s2 =~= "Alt"@ + seq!['+'] + s3);
        lemma_scan_step("Alt"@, s3, st_c);
        assert(apply_token(st_c, "Alt"@) == st_a);
    } else {
        assert(s2 =~= s3);
    }
    assert(scan_text(s2, st_c) == scan_text(s3, st_a));
    let st_s = ScanState {
        ctrl: b.modifiers.ctrl,
        alt: b.modifiers.alt,
        shift: b.modifiers.shift,
        key: Seq::empty(),
    };
    if b.modifiers.shift {
        assert(s3 =~= "Shift"@ + seq!['+'] + ktok);
        lemma_scan_step("Shift"@, ktok, st_a);
        assert(apply_token(st_a, "Shift"@) == st_s);
    } else {
        assert(s3 =~= ktok);
    }
    assert(scan_text(s3, st_a) == scan_text(ktok, st_s));
    lemma_scan_last(ktok, st_s);
    assert(apply_token(st_s, ktok) == (ScanState {
        ctrl: b.modifiers.ctrl,
        alt: b.modifiers.alt,
        shift: b.modifiers.shift,
        key: ktok,
    }));
}

/// Scanning a modifier prefix with its final separator removed sets
/// exactly the active flags and leaves the key token untouched.
proof fn lemma_scan_of_modifier_prefix(c: bool, a: bool, sh: bool)
    requires
        c || a || sh,
    ensures
        ({
            let mods = (if c {
                "Ctrl+"@
            } else {
                Seq::<char>::empty()
            }) + (if a {
                "Alt+"@
            } else {
                Seq::<char>::empty()
            }) + (if sh {
                "Shift+"@
            } else {
                Seq::<char>::empty()
            });
            scan_text(mods.drop_last(), init_scan()) == (ScanState {
                ctrl: c,
                alt: a,
                shift: sh,
                key: Seq::<char>::empty(),
            })
        }),
{
    reveal_strlit("Ctrl+");
    reveal_strlit("Ctrl");
    reveal_strlit("ctrl");
    reveal_strlit("Alt+");
    reveal_strlit("Alt");
    reveal_strlit("alt");
    reveal_strlit("Shift+");
    reveal_strlit("Shift");
    reveal_strlit("shift");
    let st0 = init_scan();
    let mods = (if c {
        "Ctrl+"@
    } else {
        Seq::<char>::empty()
    }) + (if a {
        "Alt+"@
    } else {
        Seq::<char>::empty()
    }) + (if sh {
        "Shift+"@
    } else {
        Seq::<char>::empty()
    });
    assert(seq_eqi("Ctrl"@, "ctrl"@));
    assert(seq_eqi("Alt"@, "alt"@));
    assert(!seq_eqi("Alt"@, "ctrl"@));
    assert(seq_eqi("Shift"@, "shift"@));
    assert(!seq_eqi("Shift"@, "ctrl"@));
    assert(!seq_eqi("Shift"@, "alt"@));
    assert(has_no_sep("Ctrl"@));
    assert(has_no_sep("Alt"@));
    assert(has_no_sep("Shift"@));
    let st_c = ScanState { ctrl: c, alt: false, shift: false, key: Seq::empty() };
    let st_a = ScanState { ctrl: c, alt: a, shift: false, key: Seq::empty() };
    if sh {
        let s3 = "Shift"@;
        let s2 = (if a {
            "Alt+"@
        } else {
            Seq::<char>::empty()
        }) + s3;
        let s1 = (if c {
            "Ctrl+"@
        } else {
            Seq::<char>::empty()
        }) + s2;
        assert(s1 =~= mods.drop_last());
        if c {
            assert(s1 =~= "Ctrl"@ + seq!['+'] + s2);
            lemma_scan_step("Ctrl"@, s2, st0);
            assert(apply_token(st0, "Ctrl"@) == st_c);
        } else {
            assert(s1 =~= s2);
        }
        assert(scan_text(s1, st0) == scan_text(s2, st_c));
        if a {
            assert(s2 =~= "Alt"@ + seq!['+'] + s3);
            lemma_scan_step("Alt"@, s3, st_c);
            assert(apply_token(st_c, "Alt"@) == st_a);
        } else {
            assert(s2 =~= s3);
        }
        assert(scan_text(s2, st_c) == scan_text(s3, st_a));
        lemma_scan_last(s3, st_a);
        assert(apply_token(st_a, s3) == (ScanState {
            ctrl: c,
            alt: a,
            shift: true,
            key: Seq::<char>::empty(),
        }));
    } else if a {
        let s2 = "Alt"@;
        let s1 = (if c {
            "Ctrl+"@
        } else {
            Seq::<char>::empty()
        }) + s2;
        assert(s1 =~= mods.drop_last());
        if c {
            assert(s1 =~= "Ctrl"@ + seq!['+'] + s2);
            lemma_scan_step("Ctrl"@, s2, st0);
            assert(apply_token(st0, "Ctrl"@) == st_c);
        } else {
            assert(s1 =~= s2);
        }
        assert(scan_text(s1, st0) == scan_text(s2, st_c));
        lemma_scan_last(s2, st_c);
        assert(apply_token(st_c, s2) == (ScanState {
            ctrl: c,
            alt: true,
            shift: false,
            key: Seq::<char>::empty(),
        }));
    } else {
        assert(mods.drop_last() =~= "Ctrl"@);
        lemma_scan_last("Ctrl"@, st0);
        assert(apply_token(st0, "Ctrl"@) == st_c);
    }
}

/// Rendering the literal `'+'` key and parsing the text back recovers the
/// binding: its canonical text ends with the lone `'+'` the parser reads
/// as that key, with the modifiers taken from the prefix.
proof fn lemma_plus_key_round_trip(b: KeyBinding)
    requires
        b.key == KeyCode::Char('+'),
    ensures
        parse_binding(binding_text(b)) == Ok::<KeyBinding, KeyParseError>(b),
{
    reveal_strlit("Ctrl+");
    reveal_strlit("Alt+");
    reveal_strlit("Shift+");
    let s = binding_text(b);
    let c = b.modifiers.ctrl;
    let a = b.modifiers.alt;
    let sh = b.modifiers.shift;
    let mods = (if c {
        "Ctrl+"@
    } else {
        Seq::<char>::empty()
    }) + (if a {
        "Alt+"@
    } else {
        Seq::<char>::empty()
    }) + (if sh {
        "Shift+"@
    } else {
        Seq::<char>::empty()
    });
    assert(key_token(b.key) =~= seq!['+']);
    assert(s =~= mods + seq!['+']);
    assert(s.last() == '+');
    if !c && !a && !sh {
        assert(s =~= seq!['+']);
        assert(plus_key_text(s));
        assert(b.modifiers == (KeyModifiers { ctrl: false, alt: false, shift: false }));
    } else {
        if sh {
            assert(mods.last() == "Shift+"@.last());
            assert(mods.last() == '+');
        } else if a {
            assert(mods.last() == "Alt+"@.last());
            assert(mods.last() == '+');
        } else {
            assert(mods.last() == "Ctrl+"@.last());
            assert(mods.last() == '+');
        }
        assert(mods.len() >= 4);
        assert(s[s.len() - 2] == mods.last());
        assert(plus_key_text(s));
        assert(s.len() > 2);
        lemma_scan_of_modifier_prefix(c, a, sh);
        assert(s.take(s.len() - 2) =~= mods.drop_last());
        assert(b.modifiers == (KeyModifiers { ctrl: c, alt: a, shift: sh }));
    }
}

/// Law: rendering any constructible binding to its canonical text and
/// parsing that text back yields the same binding — for every modifier
/// combination, for uppercase letters (which always carry shift), and for
/// the literal `'+'` key.
pub proof fn lemma_parse_to_text_round_trip(b: KeyBinding)
    requires
        b.wf(),
    ensures
        parse_binding(binding_text(b)) == Ok::<KeyBinding, KeyParseError>(b),
{
    if b.key == KeyCode::Char('+') {
        lemma_plus_key_round_trip(b);
    } else {
        lemma_key_token_clean(b.key);
        let ktok = key_token(b.key);
        assert(ktok[ktok.len() - 1] != '+');
        assert(binding_text(b).last() == ktok.last());
        assert(!plus_key_text(binding_text(b)));
        lemma_scan_of_binding_text(b);
        lemma_keycode_of_key_token(b.key);
    }
}

} // verus!
