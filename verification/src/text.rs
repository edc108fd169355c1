//! Small verified text utilities: ASCII case folding, decimal rendering of
//! integers, and zero-padding. These underpin the textual forms of key
//! bindings, timestamps and the status line.

use vstd::prelude::*;

verus! {

/// Relies on String::push: appends exactly the given character.
#[verifier::external_body]
pub(crate) fn push_char(s: &mut String, c: char)
    ensures
        final(s)@ == old(s)@.push(c),
{
    s.push(c);
}

/// The code point of `c`, with ASCII capital letters folded to lower case.
pub open spec fn lower_code(c: char) -> int {
    if 65 <= c as u32 && c as u32 <= 90 {
        c as u32 + 32
    } else {
        c as u32 as int
    }
}

/// Two character sequences are equal up to ASCII case.
pub open spec fn seq_eqi(a: Seq<char>, b: Seq<char>) -> bool {
    a.len() == b.len() && (forall|i: int| 0 <= i < a.len() ==> lower_code(a[i]) == lower_code(b[i]))
}

pub fn lower_code_exec(c: char) -> (r: u32)
    ensures
        r as int == lower_code(c),
{
    let u = c as u32;
    if 65 <= u && u <= 90 {
        u + 32
    } else {
        u
    }
}

/// Compares the characters of `s` between `start` and `end` against `kw`,
/// ignoring ASCII case.
pub fn str_range_eqi(s: &str, start: usize, end: usize, kw: &str) -> (r: bool)
    requires
        start <= end <= s@.len(),
    ensures
        r == seq_eqi(s@.subrange(start as int, end as int), kw@),
{
    let klen = kw.unicode_len();
    if end - start != klen {
        return false;
    }
    let mut i: usize = 0;
    while i < klen
        invariant
            start <= end <= s@.len(),
            end - start == klen,
            klen == kw@.len(),
            i <= klen,
            forall|j: int| 0 <= j < i ==> lower_code(s@[start + j]) == lower_code(kw@[j]),
        decreases klen - i,
    {
        if lower_code_exec(s.get_char(start + i)) != lower_code_exec(kw.get_char(i)) {
            assert(s@.subrange(start as int, end as int)[i as int] == s@[start + i]);
            return false;
        }
        i += 1;
    }
    assert forall|j: int| 0 <= j < klen implies lower_code(
        s@.subrange(start as int, end as int)[j],
    ) == lower_code(kw@[j]) by {
        assert(s@.subrange(start as int, end as int)[j] == s@[start + j]);
    }
    true
}

pub open spec fn is_dec_digit(c: char) -> bool {
    48 <= c as u32 <= 57
}

/// The numeric value of a decimal digit character.
pub open spec fn digit_val(c: char) -> nat {
    (c as u32 - 48) as nat
}

/// The character for one decimal digit.
pub open spec fn digit_char(d: nat) -> char {
    if d == 0 {
        '0'
    } else if d == 1 {
        '1'
    } else if d == 2 {
        '2'
    } else if d == 3 {
        '3'
    } else if d == 4 {
        '4'
    } else if d == 5 {
        '5'
    } else if d == 6 {
        '6'
    } else if d == 7 {
        '7'
    } else if d == 8 {
        '8'
    } else {
        '9'
    }
}

/// The decimal digit characters of `n`, most significant first, with no
/// leading zeros (a single `'0'` for zero).
pub open spec fn dec_digits(n: nat) -> Seq<char>
    decreases n,
{
    if n < 10 {
        seq![digit_char(n)]
    } else {
        dec_digits(n / 10).push(digit_char(n % 10))
    }
}

/// The numeric value of a sequence of decimal digit characters.
pub open spec fn digits_val(s: Seq<char>) -> nat
    decreases s.len(),
{
    if s.len() == 0 {
        0
    } else {
        digits_val(s.drop_last()) * 10 + digit_val(s.last())
    }
}

pub open spec fn all_dec_digits(s: Seq<char>) -> bool {
    forall|i: int| 0 <= i < s.len() ==> is_dec_digit(s[i])
}

/// Rendering a number to decimal digits and reading the digits back yields
/// the number.
pub proof fn lemma_dec_digits_val(n: nat)
    ensures
        digits_val(dec_digits(n)) == n,
        all_dec_digits(dec_digits(n)),
        dec_digits(n).len() >= 1,
    decreases n,
{
    if n < 10 {
        let s = dec_digits(n);
        assert(s =~= seq![digit_char(n)]);
        assert(s.drop_last() =~= Seq::<char>::empty());
        assert(digits_val(s.drop_last()) == 0);
        assert(s.last() == digit_char(n));
        assert(digit_val(digit_char(n)) == n);
    } else {
        lemma_dec_digits_val(n / 10);
        assert(dec_digits(n).drop_last() =~= dec_digits(n / 10));
        assert(dec_digits(n).last() == digit_char(n % 10));
        assert(digit_val(digit_char(n % 10)) == n % 10);
        assert(digits_val(dec_digits(n)) == (n / 10) * 10 + n % 10);
    }
}

/// A value already over the cap can only grow as further digits arrive.
pub proof fn lemma_digits_val_grows(s: Seq<char>, i: int)
    requires
        0 <= i <= s.len(),
    ensures
        digits_val(s) >= digits_val(s.take(i)),
    decreases s.len() - i,
{
    if i < s.len() {
        lemma_digits_val_grows(s, i + 1);
        assert(s.take(i + 1).drop_last() =~= s.take(i));
        assert(digits_val(s.take(i + 1)) == digits_val(s.take(i)) * 10 + digit_val(
            s.take(i + 1).last(),
        ));
    } else {
        assert(s.take(i) =~= s);
    }
}

fn digit_char_exec(d: u64) -> (c: char)
    requires
        d < 10,
    ensures
        c == digit_char(d as nat),
{
    if d == 0 {
        '0'
    } else if d == 1 {
        '1'
    } else if d == 2 {
        '2'
    } else if d == 3 {
        '3'
    } else if d == 4 {
        '4'
    } else if d == 5 {
        '5'
    } else if d == 6 {
        '6'
    } else if d == 7 {
        '7'
    } else if d == 8 {
        '8'
    } else {
        '9'
    }
}

/// Renders `n` in decimal.
pub fn u64_to_string(n: u64) -> (r: String)
    ensures
        r@ == dec_digits(n as nat),
    decreases n,
{
    if n < 10 {
        let mut s = String::new();
        push_char(&mut s, digit_char_exec(n));
        assert(s@ =~= dec_digits(n as nat));
        s
    } else {
        let mut s = u64_to_string(n / 10);
        push_char(&mut s, digit_char_exec(n % 10));
        s
    }
}

/// `s` left-padded with `'0'` up to width `w`; unchanged when already wide
/// enough.
pub open spec fn zero_padded(s: Seq<char>, w: nat) -> Seq<char> {
    if s.len() >= w {
        s
    } else {
        Seq::new((w - s.len()) as nat, |i: int| '0') + s
    }
}

/// Renders `n` in decimal, left-padded with zeros to at least `width`
/// characters.
pub fn u64_to_string_padded(n: u64, width: usize) -> (r: String)
    ensures
        r@ == zero_padded(dec_digits(n as nat), width as nat),
{
    let digits = u64_to_string(n);
    let dlen = digits.as_str().unicode_len();
    if dlen >= width {
        return digits;
    }
    let mut r = String::new();
    let mut k: usize = 0;
    while k < width - dlen
        invariant
            dlen < width,
            dlen == digits@.len(),
            k <= width - dlen,
            r@ =~= Seq::new(k as nat, |i: int| '0'),
        decreases width - dlen - k,
    {
        push_char(&mut r, '0');
        assert(r@ =~= Seq::new((k + 1) as nat, |i: int| '0'));
        k += 1;
    }
    r.append(digits.as_str());
    assert(r@ =~= zero_padded(digits@, width as nat));
    r
}


/// `s` right-padded with spaces up to width `w`; unchanged when already
/// wide enough.
pub open spec fn space_padded_right(s: Seq<char>, w: nat) -> Seq<char> {
    if s.len() >= w {
        s
    } else {
        s + Seq::new((w - s.len()) as nat, |i: int| ' ')
    }
}

/// Pads `s` on the right with spaces to at least `width` characters.
pub fn pad_spaces_right(s: String, width: usize) -> (r: String)
    ensures
        r@ == space_padded_right(s@, width as nat),
{
    let n = s.as_str().unicode_len();
    if n >= width {
        return s;
    }
    let ghost base = s@;
    let mut r = s;
    let mut k: usize = n;
    while k < width
        invariant
            n <= k <= width,
            n == base.len(),
            r@ =~= base + Seq::new((k - n) as nat, |i: int| ' '),
        decreases width - k,
    {
        push_char(&mut r, ' ');
        proof {
            assert(r@ =~= base + Seq::new((k + 1 - n) as nat, |i: int| ' '));
        }
        k += 1;
    }
    r
}

/// The index of the first occurrence of `c` in `s`, or the length of `s`
/// when there is none.
pub open spec fn first_index_of(s: Seq<char>, c: char) -> int
    decreases s.len(),
{
    if s.len() == 0 {
        0
    } else if s[0] == c {
        0
    } else {
        1 + first_index_of(s.drop_first(), c)
    }
}

pub proof fn lemma_first_index_bounds(s: Seq<char>, c: char)
    ensures
        0 <= first_index_of(s, c) <= s.len(),
        forall|j: int| 0 <= j < first_index_of(s, c) ==> s[j] != c,
        first_index_of(s, c) < s.len() ==> s[first_index_of(s, c)] == c,
    decreases s.len(),
{
    if s.len() != 0 && s[0] != c {
        lemma_first_index_bounds(s.drop_first(), c);
        assert forall|j: int| 0 <= j < first_index_of(s, c) implies s[j] != c by {
            if j >= 1 {
                assert(s[j] == s.drop_first()[j - 1]);
            }
        }
        if first_index_of(s, c) < s.len() {
            assert(s[first_index_of(s, c)] == s.drop_first()[first_index_of(s, c) - 1]);
        }
    }
}

/// `first_index_of` is determined by its characterization.
pub proof fn lemma_first_index_at(s: Seq<char>, c: char, i: int)
    requires
        0 <= i <= s.len(),
        forall|j: int| 0 <= j < i ==> s[j] != c,
        i < s.len() ==> s[i] == c,
    ensures
        first_index_of(s, c) == i,
    decreases s.len(),
{
    if s.len() == 0 {
    } else if s[0] == c {
        assert(i == 0);
    } else {
        assert(i >= 1);
        assert forall|j: int| 0 <= j < i - 1 implies s.drop_first()[j] != c by {
            assert(s.drop_first()[j] == s[j + 1]);
        }
        if i - 1 < s.drop_first().len() {
            assert(s.drop_first()[i - 1] == s[i]);
        }
        lemma_first_index_at(s.drop_first(), c, i - 1);
    }
}

/// A line piece with a carriage return before the line feed stripped.
pub open spec fn strip_cr(t: Seq<char>) -> Seq<char> {
    if t.len() > 0 && t.last() == '\r' {
        t.drop_last()
    } else {
        t
    }
}

/// The lines of a text: pieces split at line feeds, a carriage return
/// immediately before a line feed stripped, and no final empty piece for a
/// trailing line feed.
pub open spec fn split_lines_spec(s: Seq<char>) -> Seq<Seq<char>>
    decreases s.len(),
    via split_lines_spec_decreases
{
    if s.len() == 0 {
        Seq::empty()
    } else {
        let i = first_index_of(s, '\n');
        if i == s.len() {
            seq![s]
        } else {
            seq![strip_cr(s.take(i))] + split_lines_spec(s.skip(i + 1))
        }
    }
}

#[via_fn]
proof fn split_lines_spec_decreases(s: Seq<char>) {
    lemma_first_index_bounds(s, '\n');
}

/// Splits a text into its lines.
pub fn split_lines(s: &str) -> (r: Vec<String>)
    ensures
        r@.len() == split_lines_spec(s@).len(),
        forall|i: int| 0 <= i < r@.len() ==> r@[i]@ == #[trigger] split_lines_spec(s@)[i],
{
    let n = s.unicode_len();
    let mut r: Vec<String> = Vec::new();
    let mut pos: usize = 0;
    proof {
        assert(s@.skip(0) =~= s@);
    }
    while pos < n
        invariant
            pos <= n,
            n == s@.len(),
            split_lines_spec(s@).len() == r@.len() + split_lines_spec(s@.skip(pos as int)).len(),
            forall|i: int|
                0 <= i < r@.len() ==> r@[i]@ == #[trigger] split_lines_spec(s@)[i],
            forall|i: int|
                0 <= i < split_lines_spec(s@.skip(pos as int)).len() ==> #[trigger] split_lines_spec(
                    s@.skip(pos as int),
                )[i] == split_lines_spec(s@)[r@.len() + i],
        decreases n - pos,
    {
        let ghost suffix = s@.skip(pos as int);
        // find the end of the current line
        let mut end = pos;
        while end < n && s.get_char(end) != '\n'
            invariant
                n == s@.len(),
                pos <= end <= n,
                forall|j: int| pos <= j < end ==> s@[j] != '\n',
            decreases n - end,
        {
            end += 1;
        }
        proof {
            assert forall|j: int| 0 <= j < end - pos implies suffix[j] != '\n' by {
                assert(suffix[j] == s@[pos + j]);
            }
            if end < n {
                assert(suffix[end - pos] == s@[end as int]);
            }
            lemma_first_index_at(suffix, '\n', end - pos);
        }
        let ghost r_pre = r@;
        if end == n {
            // the final line, with no line ending to strip
            let piece = String::from_str(s.substring_char(pos, end));
            proof {
                assert(suffix.take(end - pos) =~= suffix);
                assert(s@.subrange(pos as int, end as int) =~= suffix);
                assert(split_lines_spec(suffix) =~= seq![suffix]);
            }
            r.push(piece);
            pos = end;
            proof {
                assert(s@.skip(pos as int).len() == 0);
                assert(split_lines_spec(suffix)[0] == suffix);
                assert forall|i: int|
                    0 <= i < r@.len() implies r@[i]@ == #[trigger] split_lines_spec(s@)[i] by {
                    if i < r_pre.len() {
                        assert(r@[i] == r_pre[i]);
                    } else {
                        assert(r@[i]@ == suffix);
                        assert(split_lines_spec(s@)[r_pre.len() as int] == split_lines_spec(
                            suffix,
                        )[0]);
                    }
                }
            }
        } else {
            let mut piece_end = end;
            if end > pos && s.get_char(end - 1) == '\r' {
                piece_end = end - 1;
            }
            let piece = String::from_str(s.substring_char(pos, piece_end));
            proof {
                assert(suffix.take(end - pos) =~= s@.subrange(pos as int, end as int));
                if end > pos && s@[end - 1] == '\r' {
                    assert(s@.subrange(pos as int, end as int).last() == s@[end - 1]);
                    assert(s@.subrange(pos as int, piece_end as int) =~= s@.subrange(
                        pos as int,
                        end as int,
                    ).drop_last());
                } else if end > pos {
                    assert(s@.subrange(pos as int, end as int).last() == s@[end - 1]);
                }
                assert(piece@ =~= strip_cr(suffix.take(end - pos)));
                assert(suffix.skip(end - pos + 1) =~= s@.skip(end + 1));
            }
            r.push(piece);
            pos = end + 1;
            proof {
                let ns = s@.skip(pos as int);
                assert(split_lines_spec(suffix) == seq![piece@] + split_lines_spec(ns));
                assert(split_lines_spec(suffix)[0] == piece@);
                assert forall|i: int|
                    0 <= i < r@.len() implies r@[i]@ == #[trigger] split_lines_spec(s@)[i] by {
                    if i < r_pre.len() {
                        assert(r@[i] == r_pre[i]);
                    } else {
                        assert(r@[i] == piece);
                        assert(split_lines_spec(s@)[r_pre.len() as int] == split_lines_spec(
                            suffix,
                        )[0]);
                    }
                }
                assert forall|i: int|
                    0 <= i < split_lines_spec(ns).len() implies #[trigger] split_lines_spec(ns)[i]
                    == split_lines_spec(s@)[r@.len() + i] by {
                    assert(split_lines_spec(suffix)[i + 1] == split_lines_spec(ns)[i]);
                    assert(split_lines_spec(s@)[r_pre.len() + (i + 1)] == split_lines_spec(
                        suffix,
                    )[i + 1]);
                }
            }
        }
    }
    proof {
        assert(split_lines_spec(s@.skip(pos as int)).len() == 0);
    }
    r
}

} // verus!
