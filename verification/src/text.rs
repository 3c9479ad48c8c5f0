//! Small pieces of text handling: characters in and out of strings, trimming,
//! upper case, and numbers as text.

use vstd::prelude::*;

verus! {

/// `String::push` appends one character to the end of the string.
pub assume_specification[ String::push ](s: &mut String, c: char)
    ensures
        final(s)@ == old(s)@.push(c),
;

/// The characters of a string.
pub fn chars_of(s: &str) -> (v: Vec<char>)
    ensures
        v@ == s@,
{
    let n = s.unicode_len();
    let mut v: Vec<char> = Vec::new();
    let mut k: usize = 0;
    while k < n
        invariant
            k <= n,
            n == s@.len(),
            v@ == s@.take(k as int),
        decreases n - k,
    {
        v.push(s.get_char(k));
        assert(v@ =~= s@.take(k + 1));
        k += 1;
    }
    assert(v@ =~= s@);
    v
}

/// The string of some characters.
pub fn string_of(chars: &[char]) -> (s: String)
    ensures
        s@ == chars@,
{
    let mut s = String::new();
    let mut k: usize = 0;
    while k < chars.len()
        invariant
            k <= chars.len(),
            s@ == chars@.take(k as int),
        decreases chars.len() - k,
    {
        s.push(chars[k]);
        assert(s@ =~= chars@.take(k + 1));
        k += 1;
    }
    assert(s@ =~= chars@);
    s
}

// ---- white space and case ----

/// White space as Unicode has it.
pub open spec fn is_space_char(c: char) -> bool {
    ||| '\u{9}' <= c <= '\u{d}'
    ||| c == ' '
    ||| c == '\u{85}'
    ||| c == '\u{a0}'
    ||| c == '\u{1680}'
    ||| '\u{2000}' <= c <= '\u{200a}'
    ||| c == '\u{2028}'
    ||| c == '\u{2029}'
    ||| c == '\u{202f}'
    ||| c == '\u{205f}'
    ||| c == '\u{3000}'
}

pub fn is_space(c: char) -> (b: bool)
    ensures
        b == is_space_char(c),
{
    ('\u{9}' <= c && c <= '\u{d}') || c == ' ' || c == '\u{85}' || c == '\u{a0}'
        || c == '\u{1680}' || ('\u{2000}' <= c && c <= '\u{200a}') || c == '\u{2028}'
        || c == '\u{2029}' || c == '\u{202f}' || c == '\u{205f}' || c == '\u{3000}'
}

/// An ASCII letter in upper case; any other character as it is.
pub open spec fn upper_char(c: char) -> char {
    if 'a' <= c <= 'z' { (c as u8 - 32) as char } else { c }
}

pub fn upper(c: char) -> (r: char)
    ensures
        r == upper_char(c),
{
    if 'a' <= c && c <= 'z' { (c as u8 - 32) as char } else { c }
}

/// Text in ASCII upper case.
pub open spec fn uppercase(s: Seq<char>) -> Seq<char> {
    s.map_values(|c: char| upper_char(c))
}

pub fn to_upper(s: &[char]) -> (v: Vec<char>)
    ensures
        v@ == uppercase(s@),
{
    let mut v: Vec<char> = Vec::new();
    let mut k: usize = 0;
    while k < s.len()
        invariant
            k <= s.len(),
            v@ == uppercase(s@).take(k as int),
        decreases s.len() - k,
    {
        v.push(upper(s[k]));
        assert(v@ =~= uppercase(s@).take(k + 1));
        k += 1;
    }
    assert(v@ =~= uppercase(s@));
    v
}

/// Text without its leading white space.
pub open spec fn trimmed_start(s: Seq<char>) -> Seq<char>
    decreases s.len(),
{
    if s.len() > 0 && is_space_char(s[0]) { trimmed_start(s.skip(1)) } else { s }
}

/// Text without its trailing white space.
pub open spec fn trimmed_end(s: Seq<char>) -> Seq<char>
    decreases s.len(),
{
    if s.len() > 0 && is_space_char(s.last()) { trimmed_end(s.drop_last()) } else { s }
}

/// Text without the white space at either end.
pub open spec fn trimmed(s: Seq<char>) -> Seq<char> {
    trimmed_end(trimmed_start(s))
}

pub fn trim(s: &[char]) -> (v: Vec<char>)
    ensures
        v@ == trimmed(s@),
{
    let mut lo: usize = 0;
    assert(s@.skip(0) =~= s@);
    while lo < s.len() && is_space(s[lo])
        invariant
            lo <= s.len(),
            trimmed_start(s@.skip(lo as int)) == trimmed_start(s@),
        decreases s.len() - lo,
    {
        assert(s@.skip(lo as int).skip(1) =~= s@.skip(lo + 1));
        lo += 1;
    }
    let ghost t = s@.skip(lo as int);
    assert(trimmed_start(s@) == t);
    let mut hi: usize = s.len();
    assert(t =~= s@.subrange(lo as int, hi as int));
    while hi > lo && is_space(s[hi - 1])
        invariant
            lo <= hi <= s.len(),
            trimmed_end(s@.subrange(lo as int, hi as int)) == trimmed_end(t),
        decreases hi,
    {
        let ghost cur = s@.subrange(lo as int, hi as int);
        assert(cur.drop_last() =~= s@.subrange(lo as int, hi - 1));
        assert(cur.last() == s@[hi - 1]);
        hi -= 1;
    }
    let ghost r = s@.subrange(lo as int, hi as int);
    assert(r.len() > 0 ==> r.last() == s@[hi - 1]);
    assert(trimmed(s@) == r);
    let mut v: Vec<char> = Vec::new();
    let mut k: usize = lo;
    while k < hi
        invariant
            lo <= k <= hi <= s.len(),
            v@ == s@.subrange(lo as int, k as int),
        decreases hi - k,
    {
        v.push(s[k]);
        assert(v@ =~= s@.subrange(lo as int, k + 1));
        k += 1;
    }
    v
}

/// Are two texts the same?
pub fn same(a: &[char], b: &[char]) -> (r: bool)
    ensures
        r == (a@ == b@),
{
    if a.len() != b.len() {
        return false;
    }
    let mut k: usize = 0;
    while k < a.len()
        invariant
            k <= a.len(),
            a.len() == b.len(),
            forall|j: int| 0 <= j < k ==> a@[j] == b@[j],
        decreases a.len() - k,
    {
        if a[k] != b[k] {
            assert(a@[k as int] != b@[k as int]);
            return false;
        }
        k += 1;
    }
    assert(a@ =~= b@);
    true
}

// ---- numbers as text ----

/// A decimal digit.
pub open spec fn digit(d: int) -> char {
    (0x30 + d) as char
}

/// A number in decimal, without leading zeros.
pub open spec fn decimal(n: nat) -> Seq<char>
    decreases n,
{
    if n < 10 { seq![digit(n as int)] } else { decimal(n / 10).push(digit((n % 10) as int)) }
}

/// A hexadecimal digit, in capitals.
pub open spec fn hex_digit(d: int) -> char {
    (if d < 10 { 0x30 + d } else { 0x37 + d }) as char
}

/// A number in hexadecimal with so many digits.
pub open spec fn hex(n: nat, digits: nat) -> Seq<char>
    decreases digits,
{
    if digits == 0 {
        Seq::empty()
    } else {
        hex(n / 16, (digits - 1) as nat).push(hex_digit((n % 16) as int))
    }
}

/// Append a number in decimal.
pub fn push_decimal(out: &mut String, n: u64)
    ensures
        final(out)@ == old(out)@ + decimal(n as nat),
    decreases n,
{
    if n >= 10 {
        push_decimal(out, n / 10);
    }
    out.push((0x30 + (n % 10) as u8) as char);
    assert(out@ =~= old(out)@ + decimal(n as nat));
}

/// Append a number in hexadecimal with so many digits.
pub fn push_hex(out: &mut String, n: u64, digits: u8)
    ensures
        final(out)@ == old(out)@ + hex(n as nat, digits as nat),
    decreases digits,
{
    if digits > 0 {
        push_hex(out, n / 16, digits - 1);
        let d = (n % 16) as u8;
        out.push((if d < 10 { 0x30 + d } else { 0x37 + d }) as char);
    }
    assert(out@ =~= old(out)@ + hex(n as nat, digits as nat));
}

/// Append some text.
pub fn push_text(out: &mut String, s: &str)
    ensures
        final(out)@ == old(out)@ + s@,
{
    let n = s.unicode_len();
    let mut k: usize = 0;
    while k < n
        invariant
            k <= n,
            n == s@.len(),
            out@ == old(out)@ + s@.take(k as int),
        decreases n - k,
    {
        out.push(s.get_char(k));
        assert(out@ =~= old(out)@ + s@.take(k + 1));
        k += 1;
    }
    assert(s@.take(n as int) =~= s@);
}

/// The number that decimal digits stand for.
pub open spec fn decimal_value(s: Seq<char>) -> int
    decreases s.len(),
{
    if s.len() == 0 { 0 } else { 10 * decimal_value(s.drop_last()) + (s.last() as int - 0x30) }
}

/// The number that hexadecimal digits in capitals stand for.
pub open spec fn hex_value(s: Seq<char>) -> int
    decreases s.len(),
{
    if s.len() == 0 {
        0
    } else {
        let d = s.last() as int;
        16 * hex_value(s.drop_last()) + (if d < 0x41 { d - 0x30 } else { d - 0x37 })
    }
}

/// A number in decimal stands for itself.
pub proof fn law_decimal_stands_for_its_number(n: nat)
    ensures
        decimal_value(decimal(n)) == n,
    decreases n,
{
    let s = decimal(n);
    if n < 10 {
        reveal_with_fuel(decimal_value, 2);
        assert(s.drop_last() =~= Seq::empty());
    } else {
        law_decimal_stands_for_its_number(n / 10);
        assert(s.drop_last() =~= decimal(n / 10));
    }
}

/// How many numbers have so many hexadecimal digits.
pub open spec fn hex_range(digits: nat) -> nat
    decreases digits,
{
    if digits == 0 { 1 } else { 16 * hex_range((digits - 1) as nat) }
}

/// A number in hexadecimal has the digits asked for and, where it fits, stands
/// for itself.
pub proof fn law_hex_stands_for_its_number(n: nat, digits: nat)
    ensures
        hex(n, digits).len() == digits,
        n < hex_range(digits) ==> hex_value(hex(n, digits)) == n,
    decreases digits,
{
    if digits > 0 {
        law_hex_stands_for_its_number(n / 16, (digits - 1) as nat);
        assert(hex(n, digits).drop_last() =~= hex(n / 16, (digits - 1) as nat));
    }
}

// ---- columns and lines ----

/// Some text filled up with spaces on the right to a width.
pub open spec fn padded(s: Seq<char>, width: nat) -> Seq<char> {
    if s.len() >= width { s } else { s + Seq::new((width - s.len()) as nat, |k: int| ' ') }
}

/// Append some text, filled up with spaces on the right to a width.
pub fn push_padded(out: &mut String, s: &str, width: usize)
    ensures
        final(out)@ == old(out)@ + padded(s@, width as nat),
{
    push_text(out, s);
    let mut k: usize = s.unicode_len();
    let ghost n = k;
    let ghost mut spaces = Seq::new(0, |k: int| ' ');
    assert(out@ =~= old(out)@ + s@ + spaces);
    while k < width
        invariant
            n == s@.len(),
            n <= k,
            n < width ==> k <= width,
            width <= n ==> k == n,
            spaces == Seq::new((k - n) as nat, |k: int| ' '),
            out@ == old(out)@ + s@ + spaces,
        decreases width - k,
    {
        out.push(' ');
        proof {
            let more = Seq::new((k + 1 - n) as nat, |k: int| ' ');
            assert(more =~= spaces.push(' '));
            assert(out@ =~= old(out)@ + s@ + more);
            spaces = more;
        }
        k += 1;
    }
    assert(out@ =~= old(out)@ + padded(s@, width as nat));
}

/// A number in decimal, filled up on the left to a width with a character.
pub open spec fn decimal_in(n: nat, width: nat, fill: char) -> Seq<char> {
    let d = decimal(n);
    if d.len() >= width { d } else { Seq::new((width - d.len()) as nat, |k: int| fill) + d }
}

/// Append a number in decimal, filled up on the left to a width with a
/// character.
pub fn push_decimal_in(out: &mut String, n: u64, width: usize, fill: char)
    ensures
        final(out)@ == old(out)@ + decimal_in(n as nat, width as nat, fill),
{
    let mut d = String::new();
    push_decimal(&mut d, n);
    assert(d@ =~= decimal(n as nat));
    let len = d.as_str().unicode_len();
    let mut k: usize = len;
    let ghost mut lead = Seq::new(0, |k: int| fill);
    assert(out@ =~= old(out)@ + lead);
    while k < width
        invariant
            len <= k,
            len < width ==> k <= width,
            width <= len ==> k == len,
            lead == Seq::new((k - len) as nat, |k: int| fill),
            out@ == old(out)@ + lead,
        decreases width - k,
    {
        out.push(fill);
        proof {
            let more = Seq::new((k + 1 - len) as nat, |k: int| fill);
            assert(more =~= lead.push(fill));
            assert(out@ =~= old(out)@ + more);
            lead = more;
        }
        k += 1;
    }
    push_text(out, d.as_str());
    assert(out@ =~= old(out)@ + decimal_in(n as nat, width as nat, fill));
}

/// The texts of some strings.
pub open spec fn texts(lines: Seq<String>) -> Seq<Seq<char>> {
    lines.map_values(|s: String| s@)
}

/// Append a string to some lines.
pub fn push_line(lines: &mut Vec<String>, line: String)
    ensures
        texts(final(lines)@) == texts(old(lines)@).push(line@),
{
    lines.push(line);
    assert(texts(lines@) =~= texts(old(lines)@).push(line@));
}

// ---- words ----

/// How long the word is that text starts with.
pub open spec fn word_len(s: Seq<char>) -> int
    decreases s.len(),
{
    if s.len() == 0 || is_space_char(s[0]) { 0 } else { 1 + word_len(s.skip(1)) }
}

/// The words of a text: what stands between white space.
pub open spec fn words(s: Seq<char>) -> Seq<Seq<char>>
    decreases s.len(),
{
    if s.len() == 0 {
        Seq::empty()
    } else if is_space_char(s[0]) {
        words(s.skip(1))
    } else if 0 < word_len(s) <= s.len() {
        seq![s.take(word_len(s))] + words(s.skip(word_len(s)))
    } else {
        Seq::empty()
    }
}

proof fn lemma_word_len(s: Seq<char>)
    ensures
        0 <= word_len(s) <= s.len(),
        s.len() > 0 && !is_space_char(s[0]) ==> word_len(s) > 0,
    decreases s.len(),
{
    if s.len() > 0 && !is_space_char(s[0]) {
        lemma_word_len(s.skip(1));
    }
}

/// The views of some words.
pub open spec fn word_texts(v: Seq<Vec<char>>) -> Seq<Seq<char>> {
    v.map_values(|w: Vec<char>| w@)
}

/// The length of the word at a place.
fn measure_word(s: &[char], from: usize) -> (n: usize)
    requires
        from <= s.len(),
    ensures
        n == word_len(s@.skip(from as int)),
        from + n <= s.len(),
{
    let mut k: usize = from;
    while k < s.len() && !is_space(s[k])
        invariant
            from <= k <= s.len(),
            word_len(s@.skip(from as int)) == k - from + word_len(s@.skip(k as int)),
        decreases s.len() - k,
    {
        assert(s@.skip(k as int).skip(1) =~= s@.skip(k + 1));
        assert(s@.skip(k as int)[0] == s@[k as int]);
        k += 1;
    }
    assert(k < s.len() ==> s@.skip(k as int)[0] == s@[k as int]);
    k - from
}

/// Split text at its white space.
pub fn split_words(s: &[char]) -> (v: Vec<Vec<char>>)
    ensures
        word_texts(v@) == words(s@),
{
    let mut v: Vec<Vec<char>> = Vec::new();
    let mut k: usize = 0;
    assert(s@.skip(0) =~= s@);
    assert(word_texts(v@) + words(s@) =~= words(s@));
    while k < s.len()
        invariant
            k <= s.len(),
            word_texts(v@) + words(s@.skip(k as int)) == words(s@),
        decreases s.len() - k,
    {
        let ghost rest = s@.skip(k as int);
        assert(rest[0] == s@[k as int]);
        if is_space(s[k]) {
            assert(rest.skip(1) =~= s@.skip(k + 1));
            k += 1;
        } else {
            let ghost before = word_texts(v@);
            let n = measure_word(s, k);
            proof {
                lemma_word_len(rest);
            }
            let mut w: Vec<char> = Vec::new();
            let mut j: usize = 0;
            while j < n
                invariant
                    j <= n,
                    k + n <= s.len(),
                    rest == s@.skip(k as int),
                    w@ == rest.take(j as int),
                decreases n - j,
            {
                w.push(s[k + j]);
                assert(w@ =~= rest.take(j + 1));
                j += 1;
            }
            v.push(w);
            proof {
                let word = rest.take(n as int);
                assert(word_texts(v@) =~= before.push(word));
                assert(rest.skip(n as int) =~= s@.skip(k + n));
                let tail = words(s@.skip(k + n));
                assert(before + (seq![word] + tail) =~= before.push(word) + tail);
            }
            k += n;
        }
    }
    assert(words(s@.skip(k as int)) =~= Seq::empty());
    assert(word_texts(v@) + words(s@.skip(k as int)) =~= word_texts(v@));
    v
}

/// Is a text the given one?
pub fn is_text(a: &[char], b: &str) -> (r: bool)
    ensures
        r == (a@ == b@),
{
    same(a, chars_of(b).as_slice())
}

// ---- text as numbers ----

/// What a character counts for as a digit: letters go on after the nine.
pub open spec fn digit_value(c: char) -> int {
    if '0' <= c <= '9' {
        c as int - 0x30
    } else if 'a' <= c <= 'z' {
        c as int - 0x57
    } else if 'A' <= c <= 'Z' {
        c as int - 0x37
    } else {
        36
    }
}

/// The number that digits of a radix stand for.
pub open spec fn digits_value(s: Seq<char>, radix: int) -> int
    decreases s.len(),
{
    if s.len() == 0 {
        0
    } else {
        radix * digits_value(s.drop_last(), radix) + digit_value(s.last())
    }
}

/// Digits of a radix, and at least one.
pub open spec fn all_digits(s: Seq<char>, radix: int) -> bool {
    s.len() > 0 && forall|k: int| 0 <= k < s.len() ==> digit_value(#[trigger] s[k]) < radix
}

/// The number without a leading plus sign.
pub open spec fn unsigned(s: Seq<char>) -> Seq<char> {
    if s.len() > 0 && s[0] == '+' { s.skip(1) } else { s }
}

/// The number a text stands for: digits of the radix after an optional plus
/// sign, with a value that fits sixteen bits.
pub open spec fn number(s: Seq<char>, radix: int) -> Option<u16> {
    let d = unsigned(s);
    if all_digits(d, radix) && digits_value(d, radix) <= 0xFFFF {
        Some(digits_value(d, radix) as u16)
    } else {
        None
    }
}

fn value_of_digit(c: char) -> (d: u32)
    ensures
        d == digit_value(c),
        d <= 36,
{
    if '0' <= c && c <= '9' {
        c as u32 - 0x30
    } else if 'a' <= c && c <= 'z' {
        c as u32 - 0x57
    } else if 'A' <= c && c <= 'Z' {
        c as u32 - 0x37
    } else {
        36
    }
}

/// More digits never make a number smaller.
proof fn lemma_value_grows(s: Seq<char>, radix: int, n: int)
    requires
        0 <= n <= s.len(),
        radix >= 1,
    ensures
        0 <= digits_value(s.take(n), radix) <= digits_value(s, radix),
    decreases s.len(),
{
    if s.len() == 0 {
        assert(s.take(n) =~= s);
    } else if n == s.len() {
        assert(s.take(n) =~= s);
        assert(s.drop_last().take(n - 1) =~= s.drop_last());
        lemma_value_grows(s.drop_last(), radix, n - 1);
        let v = digits_value(s.drop_last(), radix);
        assert(radix * v >= 0) by (nonlinear_arith)
            requires
                radix >= 1,
                v >= 0,
        ;
    } else {
        lemma_value_grows(s.drop_last(), radix, n);
        assert(s.drop_last().take(n) =~= s.take(n));
        let v = digits_value(s.drop_last(), radix);
        assert(radix * v >= v) by (nonlinear_arith)
            requires
                radix >= 1,
                v >= 0,
        ;
    }
}

/// The number a text stands for.
pub fn parse_number(s: &[char], radix: u32) -> (r: Option<u16>)
    requires
        2 <= radix <= 36,
    ensures
        r == number(s@, radix as int),
{
    let from: usize = if s.len() > 0 && s[0] == '+' { 1 } else { 0 };
    let ghost d = unsigned(s@);
    assert(d =~= s@.skip(from as int));
    if from == s.len() {
        return None;
    }
    let mut v: u32 = 0;
    let mut k: usize = from;
    assert(d.take(0) =~= Seq::empty());
    while k < s.len()
        invariant
            2 <= radix <= 36,
            from <= k <= s.len(),
            d == s@.skip(from as int),
            d == unsigned(s@),
            v <= 0xFFFF,
            v == digits_value(d.take(k - from), radix as int),
            forall|j: int| 0 <= j < k - from ==> digit_value(#[trigger] d[j]) < radix,
        decreases s.len() - k,
    {
        let c = value_of_digit(s[k]);
        assert(d[k - from] == s@[k as int]);
        if c >= radix {
            return None;
        }
        assert(d.take(k + 1 - from).drop_last() =~= d.take(k - from));
        assert(radix * v <= 36 * 0xFFFF) by (nonlinear_arith)
            requires
                radix <= 36,
                v <= 0xFFFF,
        ;
        v = radix * v + c;
        if v > 0xFFFF {
            proof {
                lemma_value_grows(d, radix as int, k + 1 - from);
            }
            return None;
        }
        k += 1;
    }
    assert(d.take(k - from) =~= d);
    Some(v as u16)
}

// ---- what holds of text ----

/// Trimming takes white space off both ends, all of it, and nothing else.
pub proof fn law_trimmed(s: Seq<char>) -> (ends: (int, int))
    ensures
        0 <= ends.0 <= ends.1 <= s.len(),
        trimmed(s) == s.subrange(ends.0, ends.1),
        forall|k: int| 0 <= k < ends.0 || ends.1 <= k < s.len() ==> is_space_char(#[trigger] s[k]),
        ends.0 < ends.1 ==> !is_space_char(s[ends.0]) && !is_space_char(s[ends.1 - 1]),
{
    let lo = lemma_trimmed_start(s);
    let t = s.subrange(lo, s.len() as int);
    let hi = law_trimmed_end(t);
    assert(t.subrange(0, hi) =~= s.subrange(lo, lo + hi));
    assert forall|k: int| 0 <= k < lo || lo + hi <= k < s.len() implies
        is_space_char(#[trigger] s[k]) by {
        if k >= lo + hi {
            assert(t[k - lo] == s[k]);
        }
    }
    if hi > 0 {
        assert(t[hi - 1] == s[lo + hi - 1]);
    }
    (lo, lo + hi)
}

proof fn lemma_trimmed_start(s: Seq<char>) -> (lo: int)
    ensures
        0 <= lo <= s.len(),
        trimmed_start(s) == s.subrange(lo, s.len() as int),
        forall|k: int| 0 <= k < lo ==> is_space_char(#[trigger] s[k]),
        lo < s.len() ==> !is_space_char(s[lo]),
    decreases s.len(),
{
    if s.len() > 0 && is_space_char(s[0]) {
        let t = s.skip(1);
        let lo = lemma_trimmed_start(t);
        assert(t.subrange(lo, t.len() as int) =~= s.subrange(lo + 1, s.len() as int));
        assert forall|k: int| 0 <= k < lo + 1 implies is_space_char(#[trigger] s[k]) by {
            if k > 0 {
                assert(t[k - 1] == s[k]);
            }
        }
        if lo < t.len() {
            assert(t[lo] == s[lo + 1]);
        }
        lo + 1
    } else {
        assert(s.subrange(0, s.len() as int) =~= s);
        0
    }
}

/// Trimming the end takes off white space there, all of it, and nothing else.
pub proof fn law_trimmed_end(s: Seq<char>) -> (hi: int)
    ensures
        0 <= hi <= s.len(),
        trimmed_end(s) == s.subrange(0, hi),
        forall|k: int| hi <= k < s.len() ==> is_space_char(#[trigger] s[k]),
        hi > 0 ==> !is_space_char(s[hi - 1]),
    decreases s.len(),
{
    if s.len() > 0 && is_space_char(s.last()) {
        let t = s.drop_last();
        let hi = law_trimmed_end(t);
        assert(t.subrange(0, hi) =~= s.subrange(0, hi));
        assert forall|k: int| hi <= k < s.len() implies is_space_char(#[trigger] s[k]) by {
            if k < t.len() {
                assert(t[k] == s[k]);
            }
        }
        hi
    } else {
        assert(s.subrange(0, s.len() as int) =~= s);
        s.len() as int
    }
}

/// Only the small letters have capitals.
pub proof fn law_capitals(s: Seq<char>, k: int)
    requires
        0 <= k < s.len(),
    ensures
        uppercase(s).len() == s.len(),
        'a' <= s[k] <= 'z' ==> uppercase(s)[k] as int == s[k] as int - 'a' as int + 'A' as int,
        !('a' <= s[k] <= 'z') ==> uppercase(s)[k] == s[k],
{
}

/// Words: what stands before white space is one, what stands behind it follows, and
/// white space in front does not matter.
pub proof fn law_words(w: Seq<char>, c: char, rest: Seq<char>)
    requires
        w.len() > 0,
        forall|k: int| 0 <= k < w.len() ==> !is_space_char(#[trigger] w[k]),
        is_space_char(c),
    ensures
        words(w) == seq![w],
        words(w.push(c) + rest) == seq![w] + words(rest),
        words(seq![c] + rest) == words(rest),
        words(Seq::empty()) == Seq::<Seq<char>>::empty(),
{
    let s = w.push(c) + rest;
    lemma_word_ends(w, Seq::empty());
    assert(w + Seq::<char>::empty() =~= w);
    lemma_word_ends(w, seq![c] + rest);
    assert(w + (seq![c] + rest) =~= s);
    assert(w.take(w.len() as int) =~= w);
    assert(w.skip(w.len() as int) =~= Seq::empty());
    assert(words(Seq::empty()) =~= Seq::<Seq<char>>::empty());
    assert(words(w) =~= seq![w]);
    assert(s.take(w.len() as int) =~= w);
    assert(s.skip(w.len() as int) =~= seq![c] + rest);
    assert((seq![c] + rest).skip(1) =~= rest);
    assert(s[0] == w[0]);
    assert(words(s) == seq![s.take(word_len(s))] + words(s.skip(word_len(s))));
}

proof fn lemma_word_ends(w: Seq<char>, rest: Seq<char>)
    requires
        forall|k: int| 0 <= k < w.len() ==> !is_space_char(#[trigger] w[k]),
        rest.len() > 0 ==> is_space_char(rest[0]),
    ensures
        word_len(w + rest) == w.len(),
    decreases w.len(),
{
    if w.len() > 0 {
        let t = w.skip(1);
        assert forall|k: int| 0 <= k < t.len() implies !is_space_char(#[trigger] t[k]) by {
            assert(t[k] == w[k + 1]);
        }
        lemma_word_ends(t, rest);
        assert((w + rest).skip(1) =~= t + rest);
        assert((w + rest)[0] == w[0]);
    } else {
        assert(w + rest =~= rest);
    }
}

/// A number is read back from its digits, decimal or hexadecimal, with or
/// without a plus sign.
pub proof fn law_numbers_read_back(n: u16)
    ensures
        number(decimal(n as nat), 10) == Some(n),
        number(hex(n as nat, 4), 16) == Some(n),
        number(seq!['+'] + decimal(n as nat), 10) == Some(n),
        all_digits(decimal(n as nat), 10),
        all_digits(hex(n as nat, 4), 16),
{
    let d = decimal(n as nat);
    let h = hex(n as nat, 4);
    lemma_decimal_digits(n as nat);
    law_decimal_stands_for_its_number(n as nat);
    lemma_hex_digits(n as nat, 4);
    reveal_with_fuel(hex_range, 5);
    law_hex_stands_for_its_number(n as nat, 4);
    assert(d[0] != '+' && h[0] != '+') by {
        assert(digit_value(d[0]) < 10 && digit_value(h[0]) < 16);
    }
    assert((seq!['+'] + d).skip(1) =~= d);
}

/// What is no number: nothing at all, a character that is no digit of the radix, or a
/// value of more than 16 bits.
pub proof fn law_not_a_number(s: Seq<char>, radix: int, k: int)
    requires
        radix == 10 || radix == 16,
        s.len() > 0 ==> s[0] != '+',
    ensures
        s.len() == 0 ==> number(s, radix) is None,
        0 <= k < s.len() && radix == 10 && !('0' <= s[k] <= '9') ==> number(s, radix) is None,
        0 <= k < s.len() && radix == 16 && !('0' <= s[k] <= '9' || 'a' <= s[k] <= 'f'
            || 'A' <= s[k] <= 'F') ==> number(s, radix) is None,
        digits_value(s, radix) > 0xFFFF ==> number(s, radix) is None,
{
    if 0 <= k < s.len() {
        assert(digit_value(s[k]) < radix || !all_digits(s, radix));
    }
}

/// A number of digits goes on by a digit, which has its value in either case.
pub proof fn law_digits(s: Seq<char>, c: char)
    ensures
        digits_value(s.push(c), 10) == 10 * digits_value(s, 10) + digit_value(c),
        digits_value(s.push(c), 16) == 16 * digits_value(s, 16) + digit_value(c),
        '0' <= c <= '9' ==> digit_value(c) == c as int - '0' as int,
        'a' <= c <= 'f' ==> digit_value(c) == c as int - 'a' as int + 10,
        'A' <= c <= 'F' ==> digit_value(c) == c as int - 'A' as int + 10,
{
    assert(s.push(c).drop_last() =~= s);
}

proof fn lemma_decimal_digits(n: nat)
    ensures
        all_digits(decimal(n), 10),
        digits_value(decimal(n), 10) == decimal_value(decimal(n)),
    decreases n,
{
    let d = decimal(n);
    if n < 10 {
        assert(d.drop_last() =~= Seq::empty());
        assert(digits_value(d.drop_last(), 10) == 0 && decimal_value(d.drop_last()) == 0);
        assert(digits_value(d, 10) == digit_value(d.last()));
        assert(decimal_value(d) == d.last() as int - 0x30);
    } else {
        lemma_decimal_digits(n / 10);
        assert(d.drop_last() =~= decimal(n / 10));
        assert forall|k: int| 0 <= k < d.len() implies digit_value(#[trigger] d[k]) < 10 by {
            if k < d.len() - 1 {
                assert(d[k] == decimal(n / 10)[k]);
            }
        }
    }
}

proof fn lemma_hex_digits(n: nat, digits: nat)
    ensures
        digits > 0 ==> all_digits(hex(n, digits), 16),
        digits_value(hex(n, digits), 16) == hex_value(hex(n, digits)),
    decreases digits,
{
    if digits > 0 {
        let h = hex(n, digits);
        let p = hex(n / 16, (digits - 1) as nat);
        lemma_hex_digits(n / 16, (digits - 1) as nat);
        assert(h.drop_last() =~= p);
        assert forall|k: int| 0 <= k < h.len() implies digit_value(#[trigger] h[k]) < 16 by {
            if k < h.len() - 1 {
                assert(h[k] == p[k]);
            }
        }
    }
}

} // verus!
