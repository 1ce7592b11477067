//! Reading the plain-text tables of `/proc`: lines, whitespace-separated
//! words, unsigned integers and decimal numbers.
//!
//! Everything here speaks of a text as the sequence of its characters.
use vstd::arithmetic::power::{lemma_pow0, lemma_pow1, lemma_pow_adds, pow};
use vstd::prelude::*;
use vstd::string::StrSliceExecFns;

verus! {

/// The characters that separate words: those with the Unicode property
/// `White_Space`.
pub open spec fn is_space(c: char) -> bool {
    ||| 0x09 <= c as u32 <= 0x0d
    ||| c as u32 == 0x20
    ||| c as u32 == 0x85
    ||| c as u32 == 0xa0
    ||| c as u32 == 0x1680
    ||| 0x2000 <= c as u32 <= 0x200a
    ||| c as u32 == 0x2028
    ||| c as u32 == 0x2029
    ||| c as u32 == 0x202f
    ||| c as u32 == 0x205f
    ||| c as u32 == 0x3000
}

/// Whether `c` separates words.
pub fn is_whitespace(c: char) -> (r: bool)
    ensures
        r == is_space(c),
{
    let u: u32 = c as u32;
    (0x09 <= u && u <= 0x0d) || u == 0x20 || u == 0x85 || u == 0xa0 || u == 0x1680 || (0x2000 <= u
        && u <= 0x200a) || u == 0x2028 || u == 0x2029 || u == 0x202f || u == 0x205f || u == 0x3000
}

/// How many characters stand in `s` before the first one that `stop` holds
/// of; all of them where there is none.
pub open spec fn length_before(s: Seq<char>, stop: spec_fn(char) -> bool) -> nat
    decreases s.len(),
{
    if s.len() == 0 || stop(s[0]) {
        0
    } else {
        1 + length_before(s.skip(1), stop)
    }
}

/// `length_before` is the only `n` with no `stop` in front of it and one, or
/// the end, right behind.
pub proof fn lemma_length_before(s: Seq<char>, stop: spec_fn(char) -> bool, n: int)
    requires
        0 <= n <= s.len(),
        forall|i: int| 0 <= i < n ==> !stop(#[trigger] s[i]),
        n == s.len() || stop(s[n]),
    ensures
        length_before(s, stop) == n,
    decreases s.len(),
{
    if n > 0 {
        lemma_length_before(s.skip(1), stop, n - 1);
    }
}

/// `length_before` stays within the text, and counts the first character
/// where that is no `stop`.
pub proof fn lemma_length_before_bounds(s: Seq<char>, stop: spec_fn(char) -> bool)
    ensures
        length_before(s, stop) <= s.len(),
        s.len() > 0 && !stop(s[0]) ==> length_before(s, stop) > 0,
    decreases s.len(),
{
    if s.len() > 0 && !stop(s[0]) {
        lemma_length_before_bounds(s.skip(1), stop);
    }
}

/// The stop of a line.
pub open spec fn at_newline() -> spec_fn(char) -> bool {
    |c: char| c == '\n'
}

/// The stop of a word.
pub open spec fn at_space() -> spec_fn(char) -> bool {
    |c: char| is_space(c)
}

/// A line without the carriage return that stood before its line feed.
pub open spec fn without_return(s: Seq<char>) -> Seq<char> {
    if s.len() > 0 && s.last() == '\r' {
        s.drop_last()
    } else {
        s
    }
}

/// The lines of a text. A line ends with a line feed, and a carriage return
/// before that line feed belongs to the ending; the last line may have no
/// ending, and then keeps all its characters.
pub open spec fn lines(s: Seq<char>) -> Seq<Seq<char>>
    decreases s.len(),
{
    let n = length_before(s, at_newline());
    if s.len() == 0 {
        seq![]
    } else if n >= s.len() {
        seq![s]
    } else {
        seq![without_return(s.take(n as int))] + lines(s.skip(n as int + 1))
    }
}

/// The words of a text: its longest runs of characters that are no space.
pub open spec fn words(s: Seq<char>) -> Seq<Seq<char>>
    decreases s.len(),
{
    if s.len() == 0 {
        seq![]
    } else if is_space(s[0]) {
        words(s.skip(1))
    } else {
        let n = length_before(s, at_space());
        proof {
            lemma_length_before_bounds(s, at_space());
        }
        seq![s.take(n as int)] + words(s.skip(n as int))
    }
}

/// What a list of strings holds.
pub open spec fn views(v: Seq<&str>) -> Seq<Seq<char>> {
    Seq::new(v.len(), |i: int| v[i]@)
}

/// The characters of `s`.
pub fn chars_of(s: &str) -> (r: Vec<char>)
    ensures
        r@ == s@,
{
    let mut out: Vec<char> = Vec::new();
    for c in it: s.chars()
        invariant
            it.seq() == s@,
            out@ == s@.take(it.index() as int),
    {
        out.push(c);
    }
    out
}

/// Splits `s` into its lines.
pub fn split_lines<'a>(s: &'a str) -> (r: Vec<&'a str>)
    ensures
        views(r@) == lines(s@),
        r@.len() == lines(s@).len(),
        forall|i: int| 0 <= i < r@.len() ==> (#[trigger] r@[i])@ == lines(s@)[i],
{
    let chars = chars_of(s);
    let mut out: Vec<&'a str> = Vec::new();
    let mut start: usize = 0;
    assert(s@.skip(0) =~= s@);
    while start < chars.len()
        invariant
            chars@ == s@,
            start <= chars.len(),
            views(out@) + lines(s@.skip(start as int)) == lines(s@),
        decreases chars.len() - start,
    {
        let ghost rest = s@.skip(start as int);
        let ghost before = out@;
        let mut end: usize = start;
        while end < chars.len() && chars[end] != '\n'
            invariant
                chars@ == s@,
                start <= end <= chars.len(),
                forall|i: int| start <= i < end ==> chars@[i] != '\n',
            decreases chars.len() - end,
        {
            end = end + 1;
        }
        proof {
            lemma_length_before(rest, at_newline(), end - start);
        }
        if end == chars.len() {
            let line = s.substring_char(start, end);
            out.push(line);
            start = end;
        } else {
            let mut cut: usize = end;
            if end > start && chars[end - 1] == '\r' {
                cut = end - 1;
            }
            let line = s.substring_char(start, cut);
            out.push(line);
            proof {
                let n: int = end - start;
                assert(line@ =~= without_return(rest.take(n)));
                assert(rest.skip(n + 1) =~= s@.skip(end + 1));
                assert(views(out@) + lines(s@.skip(end + 1)) =~= views(before) + (seq![line@]
                    + lines(rest.skip(n + 1))));
            }
            start = end + 1;
        }
    }
    assert(lines(s@.skip(start as int)) =~= Seq::empty());
    assert(views(out@) =~= lines(s@));
    out
}

/// Splits `s` into its words.
pub fn split_words<'a>(s: &'a str) -> (r: Vec<&'a str>)
    ensures
        views(r@) == words(s@),
        r@.len() == words(s@).len(),
        forall|i: int| 0 <= i < r@.len() ==> (#[trigger] r@[i])@ == words(s@)[i],
{
    let chars = chars_of(s);
    let mut out: Vec<&'a str> = Vec::new();
    let mut start: usize = 0;
    assert(s@.skip(0) =~= s@);
    while start < chars.len()
        invariant
            chars@ == s@,
            start <= chars.len(),
            views(out@) + words(s@.skip(start as int)) == words(s@),
        decreases chars.len() - start,
    {
        let ghost rest = s@.skip(start as int);
        if is_whitespace(chars[start]) {
            assert(rest.skip(1) =~= s@.skip(start + 1));
            start = start + 1;
        } else {
            let ghost before = out@;
            let mut end: usize = start + 1;
            while end < chars.len() && !is_whitespace(chars[end])
                invariant
                    chars@ == s@,
                    start < end <= chars.len(),
                    forall|i: int| start <= i < end ==> !is_space(chars@[i]),
                decreases chars.len() - end,
            {
                end = end + 1;
            }
            let word = s.substring_char(start, end);
            out.push(word);
            proof {
                let n: int = end - start;
                assert(forall|i: int| 0 <= i < n ==> !at_space()(#[trigger] rest[i]));
                lemma_length_before(rest, at_space(), n);
                assert(word@ =~= rest.take(n));
                assert(rest.skip(n) =~= s@.skip(end as int));
                assert(views(out@) + words(s@.skip(end as int)) =~= views(before) + (seq![word@]
                    + words(rest.skip(n))));
            }
            start = end;
        }
    }
    assert(words(s@.skip(start as int)) =~= Seq::empty());
    assert(views(out@) =~= words(s@));
    out
}

/// Whether `s` begins with `prefix`.
pub fn begins_with(s: &str, prefix: &str) -> (r: bool)
    ensures
        r == prefix@.is_prefix_of(s@),
{
    let text = chars_of(s);
    let head = chars_of(prefix);
    if head.len() > text.len() {
        return false;
    }
    let mut i: usize = 0;
    while i < head.len()
        invariant
            text@ == s@,
            head@ == prefix@,
            i <= head.len() <= text.len(),
            forall|j: int| 0 <= j < i ==> head@[j] == text@[j],
        decreases head.len() - i,
    {
        if head[i] != text[i] {
            return false;
        }
        i = i + 1;
    }
    true
}

pub open spec fn is_digit(c: char) -> bool {
    '0' as u32 <= c as u32 <= '9' as u32
}

fn is_decimal(c: char) -> (r: bool)
    ensures
        r == is_digit(c),
{
    let u: u32 = c as u32;
    '0' as u32 <= u && u <= '9' as u32
}

pub open spec fn all_digits(s: Seq<char>) -> bool {
    forall|i: int| 0 <= i < s.len() ==> is_digit(#[trigger] s[i])
}

/// The number that a run of decimal digits writes.
pub open spec fn digits_value(s: Seq<char>) -> nat
    decreases s.len(),
{
    if s.len() == 0 {
        0
    } else {
        10 * digits_value(s.drop_last()) + (s.last() as u32 - '0' as u32) as nat
    }
}

/// The unsigned 64-bit integer that `s` writes: an optional plus sign and one
/// or more digits, nothing else, and a value in range.
pub open spec fn unsigned(s: Seq<char>) -> Option<u64> {
    let digits = if s.len() > 0 && s[0] == '+' {
        s.skip(1)
    } else {
        s
    };
    if digits.len() > 0 && all_digits(digits) && digits_value(digits) <= u64::MAX {
        Some(digits_value(digits) as u64)
    } else {
        None
    }
}

proof fn lemma_digits_value_grows(s: Seq<char>, n: int)
    requires
        0 <= n <= s.len(),
        all_digits(s),
    ensures
        digits_value(s.take(n)) <= digits_value(s),
    decreases s.len(),
{
    if n == s.len() {
        assert(s.take(n) =~= s);
    } else {
        let t = s.drop_last();
        lemma_digits_value_grows(t, n);
        assert(t.take(n) =~= s.take(n));
    }
}

/// Reads an unsigned 64-bit integer.
pub fn parse_unsigned(s: &str) -> (r: Option<u64>)
    ensures
        r == unsigned(s@),
{
    let chars = chars_of(s);
    let mut first: usize = 0;
    if chars.len() > 0 && chars[0] == '+' {
        first = 1;
    }
    let ghost digits = s@.skip(first as int);
    if first == chars.len() {
        return None;
    }
    let mut value: u64 = 0;
    let mut i: usize = first;
    while i < chars.len()
        invariant
            chars@ == s@,
            first <= i <= chars.len(),
            first < chars.len(),
            first == if s@.len() > 0 && s@[0] == '+' {
                1int
            } else {
                0int
            },
            digits == s@.skip(first as int),
            first == 0 ==> digits == s@,
            forall|j: int| 0 <= j < i - first ==> is_digit(#[trigger] digits[j]),
            value == digits_value(digits.take(i - first)),
        decreases chars.len() - i,
    {
        let c = chars[i];
        let ghost k: int = i - first;
        if !is_decimal(c) {
            assert(!is_digit(digits[k]));
            return None;
        }
        let digit: u64 = (c as u32 - '0' as u32) as u64;
        proof {
            let t = digits.take(k + 1);
            assert(t.drop_last() =~= digits.take(k));
            if all_digits(digits) {
                lemma_digits_value_grows(digits, k + 1);
            }
        }
        if value > (u64::MAX - digit) / 10 {
            return None;
        }
        value = 10 * value + digit;
        i = i + 1;
    }
    assert(digits.take(digits.len() as int) =~= digits);
    Some(value)
}

/// `s` without one leading sign.
pub open spec fn without_sign(s: Seq<char>) -> Seq<char> {
    if s.len() > 0 && (s[0] == '+' || s[0] == '-') {
        s.skip(1)
    } else {
        s
    }
}

/// Digits, with at most one point before, between or behind them.
pub open spec fn is_mantissa(s: Seq<char>) -> bool {
    ||| s.len() > 0 && all_digits(s)
    ||| s.len() > 1 && exists|p: int|
        0 <= p < s.len() && #[trigger] s[p] == '.' && all_digits(s.take(p)) && all_digits(
            s.skip(p + 1),
        )
}

/// An `e` of either case and one or more digits, which may have a sign.
pub open spec fn is_exponent(s: Seq<char>) -> bool {
    &&& s.len() > 0
    &&& s[0] == 'e' || s[0] == 'E'
    &&& without_sign(s.skip(1)).len() > 0
    &&& all_digits(without_sign(s.skip(1)))
}

pub open spec fn is_number(s: Seq<char>) -> bool {
    ||| is_mantissa(s)
    ||| exists|n: int|
        0 <= n < s.len() && is_mantissa(#[trigger] s.take(n)) && is_exponent(s.skip(n))
}

pub open spec fn ascii_lower(c: char) -> char {
    if 'A' as u32 <= c as u32 <= 'Z' as u32 {
        (c as u32 + 32) as char
    } else {
        c
    }
}

fn to_lower(c: char) -> (r: char)
    ensures
        r == ascii_lower(c),
{
    if 'A' as u32 <= c as u32 && c as u32 <= 'Z' as u32 {
        (c as u8 + 32) as char
    } else {
        c
    }
}

/// `s` is `word`, up to the case of ASCII letters.
pub open spec fn is_word(s: Seq<char>, word: Seq<char>) -> bool {
    &&& s.len() == word.len()
    &&& forall|i: int| 0 <= i < s.len() ==> ascii_lower(#[trigger] s[i]) == word[i]
}

/// The texts that write a floating-point number: an optional sign, and then a
/// number, or one of the names of infinity and of the undefined value.
pub open spec fn is_decimal_text(s: Seq<char>) -> bool {
    let body = without_sign(s);
    ||| is_number(body)
    ||| is_word(body, seq!['i', 'n', 'f'])
    ||| is_word(body, seq!['i', 'n', 'f', 'i', 'n', 'i', 't', 'y'])
    ||| is_word(body, seq!['n', 'a', 'n'])
}

/// The stop of the digits before a decimal point.
pub open spec fn at_point() -> spec_fn(char) -> bool {
    |c: char| c == '.'
}

/// The stop of a mantissa.
pub open spec fn at_exponent() -> spec_fn(char) -> bool {
    |c: char| c == 'e' || c == 'E'
}

/// A power of ten.
pub open spec fn ten_to(n: int) -> real {
    if n >= 0 {
        pow(10, n as nat) as real
    } else {
        1real / (pow(10, (-n) as nat) as real)
    }
}

/// The number that a mantissa writes: its digits, the last ones behind the
/// point, if there is one.
pub open spec fn mantissa_value(s: Seq<char>) -> real {
    let p = length_before(s, at_point()) as int;
    if p < s.len() {
        (digits_value(s.take(p) + s.skip(p + 1)) as real) * ten_to(p + 1 - s.len())
    } else {
        digits_value(s) as real
    }
}

/// The power of ten that an exponent writes; 0 where there is no exponent.
pub open spec fn exponent_value(s: Seq<char>) -> int {
    if s.len() == 0 {
        0
    } else if s.len() > 1 && s[1] == '-' {
        -digits_value(s.skip(2))
    } else {
        digits_value(without_sign(s.skip(1))) as int
    }
}

/// The number that a decimal text writes. One that names infinity or the
/// undefined value, and a text that is no decimal text, write none.
pub open spec fn decimal_value(s: Seq<char>) -> Option<real> {
    let body = without_sign(s);
    let n = length_before(body, at_exponent()) as int;
    let size = mantissa_value(body.take(n)) * ten_to(exponent_value(body.skip(n)));
    if !is_number(body) {
        None
    } else if s[0] == '-' {
        Some(-size)
    } else {
        Some(size)
    }
}

/// Where the digits from `from` on end.
fn digits_end(chars: &Vec<char>, from: usize) -> (r: usize)
    requires
        from <= chars.len(),
    ensures
        from <= r <= chars.len(),
        forall|i: int| from <= i < r ==> is_digit(#[trigger] chars@[i]),
        r < chars.len() ==> !is_digit(chars@[r as int]),
{
    let mut end: usize = from;
    while end < chars.len() && is_decimal(chars[end])
        invariant
            from <= end <= chars.len(),
            forall|i: int| from <= i < end ==> is_digit(#[trigger] chars@[i]),
        decreases chars.len() - end,
    {
        end = end + 1;
    }
    end
}

/// There is only one place where a mantissa at the front of `s` can end with
/// nothing behind it that could continue it. `whole` is where the first digits
/// end, and `end` that place: where the digits behind a point end, or `whole`
/// where no point follows.
proof fn lemma_mantissa_end(s: Seq<char>, whole: int, end: int, n: int)
    requires
        0 <= whole <= end <= s.len(),
        forall|i: int| 0 <= i < whole ==> is_digit(#[trigger] s[i]),
        whole < s.len() ==> !is_digit(s[whole]),
        if whole < s.len() && s[whole] == '.' {
            &&& whole < end
            &&& forall|i: int| whole < i < end ==> is_digit(#[trigger] s[i])
            &&& end < s.len() ==> !is_digit(s[end])
        } else {
            end == whole
        },
        0 <= n <= s.len(),
        is_mantissa(s.take(n)),
        n < s.len() ==> !is_digit(s[n]) && s[n] != '.',
    ensures
        n == end,
        end > 1 || whole > 0,
{
    let m = s.take(n);
    if all_digits(m) {
        if n > whole {
            assert(is_digit(m[whole]));
        }
    } else {
        let p = choose|p: int|
            0 <= p < m.len() && #[trigger] m[p] == '.' && all_digits(m.take(p)) && all_digits(
                m.skip(p + 1),
            );
        if p > whole {
            assert(is_digit(m.take(p)[whole]));
        }
        if n > end {
            assert(m.skip(p + 1)[end - p - 1] == s[end]);
        }
    }
}

fn is_sign(c: char) -> (r: bool)
    ensures
        r == (c == '+' || c == '-'),
{
    c == '+' || c == '-'
}

/// Whether `chars[from..]` is an exponent.
fn has_exponent(chars: &Vec<char>, from: usize) -> (r: bool)
    requires
        from < chars.len(),
    ensures
        r == is_exponent(chars@.skip(from as int)),
{
    let ghost s = chars@.skip(from as int);
    if chars[from] != 'e' && chars[from] != 'E' {
        return false;
    }
    let mut first: usize = from + 1;
    if first < chars.len() && is_sign(chars[first]) {
        first = first + 1;
    }
    let ghost digits = without_sign(s.skip(1));
    let end = digits_end(chars, first);
    proof {
        if end < chars.len() {
            assert(digits[end - first] == chars@[end as int]);
        }
    }
    first < chars.len() && end == chars.len()
}

/// Whether `chars[from..]` is a number.
fn has_number(chars: &Vec<char>, from: usize) -> (r: bool)
    requires
        from <= chars.len(),
    ensures
        r == is_number(chars@.skip(from as int)),
{
    let ghost s = chars@.skip(from as int);
    let whole = digits_end(chars, from);
    let mut end: usize = whole;
    let mut any: bool = whole > from;
    if whole < chars.len() && chars[whole] == '.' {
        end = digits_end(chars, whole + 1);
        any = any || end > whole + 1;
    }
    let r = any && (end == chars.len() || has_exponent(chars, end));
    proof {
        let w: int = whole - from;
        let e: int = end - from;
        assert forall|n: int|
            0 <= n <= s.len() && is_mantissa(#[trigger] s.take(n)) && (n < s.len() ==> !is_digit(
                s[n],
            ) && s[n] != '.') implies n == e && any by {
            lemma_mantissa_end(s, w, e, n);
        }
        let m = s.take(e);
        if any && w < e {
            assert(m[w] == '.');
        }
        assert(any ==> is_mantissa(m));
        assert(s.take(s.len() as int) =~= s);
        if e < s.len() {
            assert(s.skip(e) =~= chars@.skip(end as int));
        }
    }
    r
}

/// Whether `chars[from..]` is `word`, up to case.
fn has_word(chars: &Vec<char>, from: usize, word: &[char]) -> (r: bool)
    requires
        from <= chars.len(),
    ensures
        r == is_word(chars@.skip(from as int), word@),
{
    let ghost s = chars@.skip(from as int);
    if chars.len() - from != word.len() {
        return false;
    }
    let mut i: usize = 0;
    while i < word.len()
        invariant
            from <= chars.len(),
            s == chars@.skip(from as int),
            chars.len() - from == word.len(),
            i <= word.len(),
            forall|j: int| 0 <= j < i ==> ascii_lower(#[trigger] s[j]) == word@[j],
        decreases word.len() - i,
    {
        let c = chars[from + i];
        assert(c == s[i as int]);
        if to_lower(c) != word[i] {
            return false;
        }
        i = i + 1;
    }
    true
}

/// Whether `s` writes a floating-point number.
pub fn is_decimal_literal(s: &str) -> (r: bool)
    ensures
        r == is_decimal_text(s@),
{
    let chars = chars_of(s);
    let mut from: usize = 0;
    if chars.len() > 0 && is_sign(chars[0]) {
        from = 1;
    }
    assert(chars@.skip(from as int) =~= without_sign(s@));
    has_number(&chars, from) || has_word(&chars, from, &['i', 'n', 'f']) || has_word(
        &chars,
        from,
        &['i', 'n', 'f', 'i', 'n', 'i', 't', 'y'],
    ) || has_word(&chars, from, &['n', 'a', 'n'])
}

/// A run of characters that are no space.
pub open spec fn is_solid(s: Seq<char>) -> bool {
    s.len() > 0 && forall|i: int| 0 <= i < s.len() ==> !is_space(#[trigger] s[i])
}

/// Nothing but spaces.
pub open spec fn is_blank(s: Seq<char>) -> bool {
    forall|i: int| 0 <= i < s.len() ==> is_space(#[trigger] s[i])
}

/// Spaces in front of a text do not change its words.
pub proof fn law_leading_spaces(gap: Seq<char>, rest: Seq<char>)
    requires
        forall|i: int| 0 <= i < gap.len() ==> is_space(#[trigger] gap[i]),
    ensures
        words(gap + rest) == words(rest),
    decreases gap.len(),
{
    if gap.len() == 0 {
        assert(gap + rest =~= rest);
    } else {
        assert((gap + rest).skip(1) =~= gap.skip(1) + rest);
        law_leading_spaces(gap.skip(1), rest);
    }
}

/// A run of characters that are no space is the first word of a text that
/// begins with it, if a space or the end follows.
pub proof fn law_first_word(word: Seq<char>, rest: Seq<char>)
    requires
        word.len() > 0,
        forall|i: int| 0 <= i < word.len() ==> !is_space(#[trigger] word[i]),
        rest.len() > 0 ==> is_space(rest[0]),
    ensures
        words(word + rest) == seq![word] + words(rest),
{
    let s = word + rest;
    let n = word.len() as int;
    lemma_length_before(s, at_space(), n);
    assert(s.take(n) =~= word);
    assert(s.skip(n) =~= rest);
}

/// A text of spaces, and one of nothing, has no words.
pub proof fn law_no_words(gap: Seq<char>)
    requires
        forall|i: int| 0 <= i < gap.len() ==> is_space(#[trigger] gap[i]),
    ensures
        words(gap).len() == 0,
{
    law_leading_spaces(gap, Seq::empty());
    assert(gap + Seq::empty() =~= gap);
}

/// No word of a text holds a space, and none is empty.
pub proof fn law_words_are_solid(s: Seq<char>, i: int)
    requires
        0 <= i < words(s).len(),
    ensures
        words(s)[i].len() > 0,
        forall|j: int| 0 <= j < words(s)[i].len() ==> !is_space(#[trigger] words(s)[i][j]),
    decreases s.len(),
{
    if is_space(s[0]) {
        law_words_are_solid(s.skip(1), i);
    } else {
        let n = length_before(s, at_space()) as int;
        lemma_length_before_bounds(s, at_space());
        lemma_none_before(s, at_space());
        if i > 0 {
            law_words_are_solid(s.skip(n), i - 1);
        } else {
            assert forall|j: int| 0 <= j < n implies !is_space(#[trigger] s.take(n)[j]) by {
                assert(!at_space()(s[j]));
            }
        }
    }
}

proof fn lemma_none_before(s: Seq<char>, stop: spec_fn(char) -> bool)
    ensures
        forall|j: int| 0 <= j < length_before(s, stop) ==> !stop(#[trigger] s[j]),
    decreases s.len(),
{
    if s.len() > 0 && !stop(s[0]) {
        let rest = s.skip(1);
        lemma_none_before(rest, stop);
        lemma_length_before_bounds(rest, stop);
        assert forall|j: int| 0 <= j < length_before(s, stop) implies !stop(#[trigger] s[j]) by {
            if j > 0 {
                assert(!stop(rest[j - 1]));
            }
        }
    }
}

/// A text without a line feed is one line, with all its characters; one of
/// nothing has no line.
pub proof fn law_last_line(line: Seq<char>)
    requires
        forall|i: int| 0 <= i < line.len() ==> #[trigger] line[i] != '\n',
    ensures
        line.len() > 0 ==> lines(line) == seq![line],
        line.len() == 0 ==> lines(line).len() == 0,
{
    lemma_length_before(line, at_newline(), line.len() as int);
}

/// A line that ends in a line feed, and holds none else, is the first line of a
/// text that begins with it. A carriage return right before the line feed is not
/// part of it; one anywhere else is.
pub proof fn law_first_line(line: Seq<char>, rest: Seq<char>)
    requires
        forall|i: int| 0 <= i < line.len() ==> #[trigger] line[i] != '\n',
    ensures
        lines(line.push('\n') + rest) == seq![
            if line.len() > 0 && line.last() == '\r' {
                line.drop_last()
            } else {
                line
            },
        ] + lines(rest),
{
    let s = line.push('\n') + rest;
    let n = line.len() as int;
    lemma_length_before(s, at_newline(), n);
    assert(s.take(n) =~= line);
    assert(s.skip(n + 1) =~= rest);
}

/// The digits are the ten from 0 to 9, each worth what it says, and no other
/// character is one.
pub proof fn law_ten_digits(c: char)
    ensures
        is_digit(c) <==> (c == '0' || c == '1' || c == '2' || c == '3' || c == '4' || c == '5' || c
            == '6' || c == '7' || c == '8' || c == '9'),
        digits_value(seq!['0']) == 0,
        digits_value(seq!['1']) == 1,
        digits_value(seq!['2']) == 2,
        digits_value(seq!['3']) == 3,
        digits_value(seq!['4']) == 4,
        digits_value(seq!['5']) == 5,
        digits_value(seq!['6']) == 6,
        digits_value(seq!['7']) == 7,
        digits_value(seq!['8']) == 8,
        digits_value(seq!['9']) == 9,
{
    reveal_with_fuel(digits_value, 2);
}

/// Digits count by their place: those of `a` in front of `b` are worth ten times
/// as much for each digit of `b`, and none are worth nothing.
pub proof fn law_digits_by_place(a: Seq<char>, b: Seq<char>)
    ensures
        digits_value(a + b) == digits_value(a) * pow(10, b.len()) + digits_value(b),
        digits_value(Seq::empty()) == 0,
    decreases b.len(),
{
    if b.len() == 0 {
        assert(a + b =~= a);
        lemma_pow0(10);
    } else {
        let t = b.drop_last();
        law_digits_by_place(a, t);
        assert((a + b).drop_last() =~= a + t);
        lemma_pow1(10);
        lemma_pow_adds(10, t.len(), 1);
        let v = digits_value(a) as int;
        let p = pow(10, t.len());
        assert(10 * (v * p) == v * (p * 10)) by (nonlinear_arith);
    }
}

/// A run of digits, alone or behind a plus sign, writes the integer that they are
/// worth, however many they are, unless it needs more than 64 bits.
pub proof fn law_digits_are_read(digits: Seq<char>)
    requires
        digits.len() > 0,
        forall|i: int| 0 <= i < digits.len() ==> is_digit(#[trigger] digits[i]),
    ensures
        digits_value(digits) <= u64::MAX ==> {
            &&& unsigned(digits) == Some(digits_value(digits) as u64)
            &&& unsigned(seq!['+'] + digits) == Some(digits_value(digits) as u64)
        },
        digits_value(digits) > u64::MAX ==> {
            &&& unsigned(digits) is None
            &&& unsigned(seq!['+'] + digits) is None
        },
{
    assert((seq!['+'] + digits).skip(1) =~= digits);
}

/// Nothing else writes an integer: not a text with any other character, but for a
/// plus sign in front, and not one without digits.
pub proof fn law_only_digits_are_read(s: Seq<char>)
    requires
        unsigned(s) is Some,
    ensures
        s.len() > 0,
        s[0] == '+' ==> s.len() > 1,
        s[0] == '+' || is_digit(s[0]),
        forall|i: int| 0 < i < s.len() ==> is_digit(#[trigger] s[i]),
{
    if s[0] == '+' {
        assert forall|i: int| 0 < i < s.len() implies is_digit(#[trigger] s[i]) by {
            assert(is_digit(s.skip(1)[i - 1]));
        }
    }
}

proof fn lemma_without_exponent(mantissa: real)
    ensures
        mantissa * ten_to(exponent_value(Seq::empty())) == mantissa,
{
    lemma_pow0(10);
    let one = ten_to(exponent_value(Seq::empty()));
    assert(mantissa * one == mantissa) by (nonlinear_arith)
        requires
            one == 1real,
    ;
}

/// Texts that write a floating-point number: an optional sign; digits, of which
/// there is at least one, with a point before, among or behind them, or with
/// none; and an optional exponent, an `e` of either case with digits that may
/// have a sign.
pub proof fn law_decimals_are_read(
    sign: Seq<char>,
    whole: Seq<char>,
    fraction: Seq<char>,
    e: char,
    exponent_sign: Seq<char>,
    exponent: Seq<char>,
)
    requires
        sign.len() == 0 || sign == seq!['+'] || sign == seq!['-'],
        forall|i: int| 0 <= i < whole.len() ==> is_digit(#[trigger] whole[i]),
        forall|i: int| 0 <= i < fraction.len() ==> is_digit(#[trigger] fraction[i]),
        e == 'e' || e == 'E',
        exponent_sign.len() == 0 || exponent_sign == seq!['+'] || exponent_sign == seq!['-'],
        exponent.len() > 0,
        forall|i: int| 0 <= i < exponent.len() ==> is_digit(#[trigger] exponent[i]),
    ensures
        whole.len() > 0 ==> {
            &&& is_decimal_text(sign + whole)
            &&& is_decimal_text(sign + (whole + (seq![e] + exponent_sign + exponent)))
        },
        whole.len() + fraction.len() > 0 ==> {
            &&& is_decimal_text(sign + (whole.push('.') + fraction))
            &&& is_decimal_text(
                sign + (whole.push('.') + fraction + (seq![e] + exponent_sign + exponent)),
            )
        },
{
    let tail = seq![e] + exponent_sign + exponent;
    assert(tail.skip(1) =~= exponent_sign + exponent);
    assert(without_sign(tail.skip(1)) =~= exponent);
    assert(is_exponent(tail));
    if whole.len() > 0 {
        lemma_signed(sign, whole);
        lemma_with_exponent(whole, tail);
        lemma_signed(sign, whole + tail);
    }
    if whole.len() + fraction.len() > 0 {
        let m = whole.push('.') + fraction;
        let p = whole.len() as int;
        assert(m[p] == '.');
        assert(m.take(p) =~= whole);
        assert(m.skip(p + 1) =~= fraction);
        assert(is_mantissa(m));
        lemma_signed(sign, m);
        lemma_with_exponent(m, tail);
        lemma_signed(sign, m + tail);
    }
}

proof fn lemma_with_exponent(mantissa: Seq<char>, tail: Seq<char>)
    requires
        is_mantissa(mantissa),
        is_exponent(tail),
    ensures
        is_number(mantissa + tail),
{
    let s = mantissa + tail;
    let n = mantissa.len() as int;
    assert(s.take(n) =~= mantissa);
    assert(s.skip(n) =~= tail);
}

proof fn lemma_signed(sign: Seq<char>, body: Seq<char>)
    requires
        sign.len() == 0 || sign == seq!['+'] || sign == seq!['-'],
        is_number(body),
    ensures
        is_decimal_text(sign + body),
{
    lemma_number_front(body);
    if sign.len() == 0 {
        assert(sign + body =~= body);
    }
    assert(without_sign(sign + body) =~= body);
}

proof fn lemma_mantissa_front(s: Seq<char>)
    requires
        is_mantissa(s),
    ensures
        s.len() > 0,
        is_digit(s[0]) || s[0] == '.',
{
    if !all_digits(s) {
        let p = choose|p: int|
            0 <= p < s.len() && #[trigger] s[p] == '.' && all_digits(s.take(p)) && all_digits(
                s.skip(p + 1),
            );
        if p > 0 {
            assert(is_digit(s.take(p)[0]));
        }
    }
}

/// The names of infinity and of the undefined value write floating-point numbers
/// too, in any case, with or without a sign.
pub proof fn law_names_are_read(sign: Seq<char>, name: Seq<char>)
    requires
        sign.len() == 0 || sign == seq!['+'] || sign == seq!['-'],
        name.len() == 3 || name.len() == 8,
        name.len() == 3 ==> (((name[0] == 'i' || name[0] == 'I') && (name[1] == 'n' || name[1]
            == 'N') && (name[2] == 'f' || name[2] == 'F')) || ((name[0] == 'n' || name[0] == 'N')
            && (name[1] == 'a' || name[1] == 'A') && (name[2] == 'n' || name[2] == 'N'))),
        name.len() == 8 ==> {
            &&& name[0] == 'i' || name[0] == 'I'
            &&& name[1] == 'n' || name[1] == 'N'
            &&& name[2] == 'f' || name[2] == 'F'
            &&& name[3] == 'i' || name[3] == 'I'
            &&& name[4] == 'n' || name[4] == 'N'
            &&& name[5] == 'i' || name[5] == 'I'
            &&& name[6] == 't' || name[6] == 'T'
            &&& name[7] == 'y' || name[7] == 'Y'
        },
    ensures
        is_decimal_text(sign + name),
{
    if sign.len() == 0 {
        assert(sign + name =~= name);
    }
    assert(without_sign(sign + name) =~= name);
}

proof fn lemma_number_front(s: Seq<char>)
    requires
        is_number(s),
    ensures
        s.len() > 0,
        is_digit(s[0]) || s[0] == '.',
{
    if is_mantissa(s) {
        lemma_mantissa_front(s);
    } else {
        let n = choose|n: int|
            0 <= n < s.len() && is_mantissa(#[trigger] s.take(n)) && is_exponent(s.skip(n));
        lemma_mantissa_front(s.take(n));
        assert(s.take(n)[0] == s[0]);
    }
}

proof fn lemma_letter(c: char, lower: char, upper: char)
    requires
        ascii_lower(c) == lower,
        'a' as u32 <= lower as u32 <= 'z' as u32,
        upper as u32 + 32 == lower as u32,
    ensures
        c == lower || c == upper,
{
}

/// A text that writes a floating-point number, and does not go on with a letter
/// behind its sign, is made of an optional sign, digits, a point, digits and an
/// exponent. The point may be missing, and then no digits are behind it; the
/// exponent may be missing; and there is at least one digit before it. Nothing
/// else writes a number so.
pub proof fn law_only_decimals_are_read(s: Seq<char>) -> (parts: (
    Seq<char>,
    Seq<char>,
    Seq<char>,
    Seq<char>,
    Seq<char>,
))
    requires
        is_decimal_text(s),
        s.len() > 0 ==> {
            let first = if (s[0] == '+' || s[0] == '-') && s.len() > 1 {
                s[1]
            } else {
                s[0]
            };
            first != 'i' && first != 'I' && first != 'n' && first != 'N'
        },
    ensures
        s == parts.0 + (parts.1 + parts.2 + parts.3 + parts.4),
        parts.0.len() == 0 || parts.0 == seq!['+'] || parts.0 == seq!['-'],
        forall|i: int| 0 <= i < parts.1.len() ==> is_digit(#[trigger] parts.1[i]),
        parts.2.len() == 0 && parts.3.len() == 0 || parts.2 == seq!['.'],
        forall|i: int| 0 <= i < parts.3.len() ==> is_digit(#[trigger] parts.3[i]),
        parts.1.len() + parts.3.len() > 0,
        parts.4.len() > 0 ==> {
            &&& parts.4[0] == 'e' || parts.4[0] == 'E'
            &&& parts.4.len() > 1
            &&& is_digit(parts.4[1]) || (parts.4[1] == '+' || parts.4[1] == '-') && parts.4.len()
                > 2
            &&& forall|i: int| 1 < i < parts.4.len() ==> is_digit(#[trigger] parts.4[i])
        },
{
    let body = without_sign(s);
    let sign = s.take(s.len() - body.len());
    if sign.len() > 0 {
        assert(sign =~= seq![s[0]]);
    }
    assert(s =~= sign + body);
    if !is_number(body) {
        assert(body.len() > 0);
        assert(ascii_lower(body[0]) == 'i' || ascii_lower(body[0]) == 'n');
        if ascii_lower(body[0]) == 'i' {
            lemma_letter(body[0], 'i', 'I');
        } else {
            lemma_letter(body[0], 'n', 'N');
        }
    }
    let (m, tail) = lemma_number_parts(body);
    let (whole, point, fraction) = lemma_mantissa_parts(m);
    assert(whole + point + fraction + tail =~= body);
    (sign, whole, point, fraction, tail)
}

proof fn lemma_number_parts(s: Seq<char>) -> (parts: (Seq<char>, Seq<char>))
    requires
        is_number(s),
    ensures
        s == parts.0 + parts.1,
        is_mantissa(parts.0),
        parts.1.len() > 0 ==> {
            &&& parts.1[0] == 'e' || parts.1[0] == 'E'
            &&& parts.1.len() > 1
            &&& is_digit(parts.1[1]) || (parts.1[1] == '+' || parts.1[1] == '-') && parts.1.len()
                > 2
            &&& forall|i: int| 1 < i < parts.1.len() ==> is_digit(#[trigger] parts.1[i])
        },
{
    if is_mantissa(s) {
        assert(s =~= s + Seq::empty());
        (s, Seq::empty())
    } else {
        let n = choose|n: int|
            0 <= n < s.len() && is_mantissa(#[trigger] s.take(n)) && is_exponent(s.skip(n));
        let tail = s.skip(n);
        let digits = without_sign(tail.skip(1));
        assert(tail.skip(1)[0] == tail[1]);
        assert forall|i: int| 1 < i < tail.len() implies is_digit(#[trigger] tail[i]) by {
            if digits.len() == tail.len() - 1 {
                assert(is_digit(digits[i - 1]));
            } else {
                assert(is_digit(digits[i - 2]));
            }
        }
        if digits.len() == tail.len() - 1 {
            assert(is_digit(digits[0]));
        }
        assert(s =~= s.take(n) + tail);
        (s.take(n), tail)
    }
}

proof fn lemma_mantissa_parts(s: Seq<char>) -> (parts: (Seq<char>, Seq<char>, Seq<char>))
    requires
        is_mantissa(s),
    ensures
        s == parts.0 + parts.1 + parts.2,
        all_digits(parts.0),
        all_digits(parts.2),
        parts.1.len() == 0 && parts.2.len() == 0 || parts.1 == seq!['.'],
        parts.0.len() + parts.2.len() > 0,
{
    if all_digits(s) {
        let none = Seq::<char>::empty();
        assert(s =~= s + none + none);
        (s, none, none)
    } else {
        let p = choose|p: int|
            0 <= p < s.len() && #[trigger] s[p] == '.' && all_digits(s.take(p)) && all_digits(
                s.skip(p + 1),
            );
        assert(s =~= s.take(p) + seq!['.'] + s.skip(p + 1));
        (s.take(p), seq!['.'], s.skip(p + 1))
    }
}

/// A text that writes a floating-point number and goes on with a letter behind
/// its sign is, in any case, one of the names `inf`, `infinity` and `nan`, and
/// nothing more.
pub proof fn law_only_names_are_read(sign: Seq<char>, name: Seq<char>)
    requires
        sign.len() == 0 || sign == seq!['+'] || sign == seq!['-'],
        name.len() > 0,
        name[0] != '+' && name[0] != '-' && name[0] != '.' && !is_digit(name[0]),
        is_decimal_text(sign + name),
    ensures
        name.len() == 3 || name.len() == 8,
        name[0] == 'i' || name[0] == 'I' || name[0] == 'n' || name[0] == 'N',
        name[0] == 'n' || name[0] == 'N' ==> {
            &&& name.len() == 3
            &&& name[1] == 'a' || name[1] == 'A'
            &&& name[2] == 'n' || name[2] == 'N'
        },
        name[0] == 'i' || name[0] == 'I' ==> {
            &&& name[1] == 'n' || name[1] == 'N'
            &&& name[2] == 'f' || name[2] == 'F'
        },
        name.len() == 8 ==> {
            &&& name[0] == 'i' || name[0] == 'I'
            &&& name[3] == 'i' || name[3] == 'I'
            &&& name[4] == 'n' || name[4] == 'N'
            &&& name[5] == 'i' || name[5] == 'I'
            &&& name[6] == 't' || name[6] == 'T'
            &&& name[7] == 'y' || name[7] == 'Y'
        },
{
    if sign.len() == 0 {
        assert(sign + name =~= name);
    }
    assert(without_sign(sign + name) =~= name);
    if is_number(name) {
        lemma_number_front(name);
    }
    if is_word(name, seq!['n', 'a', 'n']) {
        lemma_letter(name[0], 'n', 'N');
        lemma_letter(name[1], 'a', 'A');
        lemma_letter(name[2], 'n', 'N');
    } else {
        lemma_letter(name[0], 'i', 'I');
        lemma_letter(name[1], 'n', 'N');
        lemma_letter(name[2], 'f', 'F');
        if name.len() == 8 {
            lemma_letter(name[3], 'i', 'I');
            lemma_letter(name[4], 'n', 'N');
            lemma_letter(name[5], 'i', 'I');
            lemma_letter(name[6], 't', 'T');
            lemma_letter(name[7], 'y', 'Y');
        }
    }
}

/// Whatever writes an unsigned integer also writes a floating-point number, and
/// the same one.
pub proof fn law_unsigned_is_decimal(s: Seq<char>)
    requires
        unsigned(s) is Some,
    ensures
        is_decimal_text(s),
        decimal_value(s) == Some(unsigned(s)->0 as real),
{
    let digits = without_sign(s);
    let n = digits.len() as int;
    lemma_length_before(digits, at_exponent(), n);
    lemma_length_before(digits, at_point(), n);
    assert(digits.take(n) =~= digits);
    lemma_without_exponent(mantissa_value(digits));
}

/// Digits with a point among them, or at either end, write the number of all
/// these digits, divided by ten for each one behind the point.
pub proof fn law_decimal_point(whole: Seq<char>, fraction: Seq<char>)
    requires
        all_digits(whole),
        all_digits(fraction),
        whole.len() + fraction.len() > 0,
    ensures
        decimal_value(whole.push('.') + fraction) == Some(
            (digits_value(whole + fraction) as real) * ten_to(-fraction.len()),
        ),
{
    let s = whole.push('.') + fraction;
    let p = whole.len() as int;
    let n = s.len() as int;
    lemma_length_before(s, at_exponent(), n);
    lemma_length_before(s, at_point(), p);
    assert(s.take(n) =~= s);
    assert(s.take(p) =~= whole);
    assert(s.skip(p + 1) =~= fraction);
    assert(s[p] == '.');
    lemma_without_exponent(mantissa_value(s));
}

} // verus!
