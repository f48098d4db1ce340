//! Text as sequences of characters: searching, trimming, joining, and decimal
//! numbers.

use vstd::prelude::*;

verus! {

broadcast use {
    vstd::seq::group_seq_axioms,
    vstd::seq_lib::group_seq_properties,
};

/// `String::push` appends one character at the end of the string.
pub assume_specification[ std::string::String::push ](buffer: &mut std::string::String, c: char)
    ensures
        final(buffer)@ == old(buffer)@.push(c),
;

// ---------------------------------------------------------------------------
// Occurrences
// ---------------------------------------------------------------------------

/// `needle` stands in `hay` at position `at`.
pub open spec fn occurs_at(hay: Seq<char>, needle: Seq<char>, at: int) -> bool {
    &&& 0 <= at
    &&& at + needle.len() <= hay.len()
    &&& hay.subrange(at, at + needle.len()) == needle
}

/// `needle` stands somewhere in `hay`.
pub open spec fn contains_text(hay: Seq<char>, needle: Seq<char>) -> bool {
    exists|at: int| occurs_at(hay, needle, at)
}

/// `needle` stands in `hay` at a position before `at`.
pub open spec fn stands_before(hay: Seq<char>, needle: Seq<char>, at: int) -> bool {
    exists|i: int| 0 <= i < at && occurs_at(hay, needle, i)
}

/// The first position of `needle` in `hay` that is not before `from`.
pub open spec fn find_from(hay: Seq<char>, needle: Seq<char>, from: int) -> Option<int>
    decreases hay.len() + 1 - from,
{
    if from < 0 || from + needle.len() > hay.len() {
        None
    } else if occurs_at(hay, needle, from) {
        Some(from)
    } else {
        find_from(hay, needle, from + 1)
    }
}

/// The first position of `needle` in `hay`.
pub open spec fn find(hay: Seq<char>, needle: Seq<char>) -> Option<int> {
    find_from(hay, needle, 0)
}

/// `find_from` finds the least position at or after `from`, and finds none
/// exactly where there is none.
pub proof fn lemma_find_from(hay: Seq<char>, needle: Seq<char>, from: int)
    requires
        0 <= from,
    ensures
        match find_from(hay, needle, from) {
            Some(at) => {
                &&& from <= at
                &&& occurs_at(hay, needle, at)
                &&& forall|j: int| from <= j < at ==> !occurs_at(hay, needle, j)
            },
            None => forall|j: int| from <= j ==> !occurs_at(hay, needle, j),
        },
    decreases hay.len() + 1 - from,
{
    if from + needle.len() <= hay.len() && !occurs_at(hay, needle, from) {
        lemma_find_from(hay, needle, from + 1);
    }
}

/// A position with an occurrence and none before it is the one that `find` gives.
pub proof fn lemma_find_is(hay: Seq<char>, needle: Seq<char>, at: int)
    requires
        occurs_at(hay, needle, at),
        forall|j: int| 0 <= j < at ==> !occurs_at(hay, needle, j),
    ensures
        find(hay, needle) == Some(at),
{
    lemma_find_from(hay, needle, 0);
}

/// `find` succeeds exactly on the texts that contain the needle.
pub proof fn lemma_find_contains(hay: Seq<char>, needle: Seq<char>)
    ensures
        find(hay, needle) is Some <==> contains_text(hay, needle),
{
    lemma_find_from(hay, needle, 0);
    if find(hay, needle) is Some {
        assert(occurs_at(hay, needle, find(hay, needle)->0));
    }
}

/// The characters of `text`, in order.
pub fn chars_of(text: &str) -> (chars: Vec<char>)
    ensures
        chars@ == text@,
{
    let mut chars: Vec<char> = Vec::new();
    for c in it: text.chars()
        invariant
            it.seq() == text@,
            chars@ == text@.take(it.index()),
    {
        chars.push(c);
    }
    chars
}

/// The characters from `lo` up to `hi`, as a string.
pub fn text_of(chars: &[char], lo: usize, hi: usize) -> (text: String)
    requires
        lo <= hi <= chars@.len(),
    ensures
        text@ == chars@.subrange(lo as int, hi as int),
{
    let mut text = String::new();
    let mut i: usize = lo;
    while i < hi
        invariant
            lo <= i <= hi <= chars@.len(),
            text@ == chars@.subrange(lo as int, i as int),
        decreases hi - i,
    {
        text.push(chars[i]);
        i = i + 1;
    }
    text
}

/// Two texts have the same characters.
pub fn same_text(a: &str, b: &str) -> (same: bool)
    ensures
        same == (a@ == b@),
{
    a.to_owned() == b.to_owned()
}

/// Whether `needle` stands in `hay` at `at`.
pub fn matches_at(hay: &[char], needle: &[char], at: usize) -> (found: bool)
    ensures
        found == occurs_at(hay@, needle@, at as int),
{
    let end: usize = hay.len();
    if at > end || needle.len() > end - at {
        return false;
    }
    let mut i: usize = 0;
    while i < needle.len()
        invariant
            end == hay@.len(),
            at + needle@.len() <= end,
            i <= needle@.len(),
            forall|j: int| 0 <= j < i ==> hay@[at + j] == needle@[j],
        decreases needle@.len() - i,
    {
        if hay[at + i] != needle[i] {
            assert(hay@.subrange(at as int, at + needle@.len())[i as int] != needle@[i as int]);
            return false;
        }
        i = i + 1;
    }
    assert(hay@.subrange(at as int, at + needle@.len()) =~= needle@);
    true
}

/// The first position of `needle` in `hay` at or after `from`.
pub fn position_from(hay: &[char], needle: &[char], from: usize) -> (at: Option<usize>)
    ensures
        match at {
            Some(i) => find_from(hay@, needle@, from as int) == Some(i as int),
            None => find_from(hay@, needle@, from as int) is None,
        },
{
    let mut i: usize = from;
    while i <= hay.len() && needle.len() <= hay.len() - i
        invariant
            from <= i,
            find_from(hay@, needle@, from as int) == find_from(hay@, needle@, i as int),
        decreases hay@.len() + 1 - i,
    {
        if matches_at(hay, needle, i) {
            return Some(i);
        }
        if i == hay.len() {
            assert(hay@.subrange(i as int, i as int) =~= needle@);
            return None;
        }
        i = i + 1;
    }
    None
}

/// Whether `hay` contains `needle`.
pub fn text_contains(hay: &str, needle: &str) -> (found: bool)
    ensures
        found == contains_text(hay@, needle@),
{
    let h = chars_of(hay);
    let n = chars_of(needle);
    proof {
        lemma_find_contains(hay@, needle@);
    }
    position_from(h.as_slice(), n.as_slice(), 0).is_some()
}

// ---------------------------------------------------------------------------
// Decimal numbers
// ---------------------------------------------------------------------------

/// `c` is a decimal digit.
pub open spec fn is_digit(c: char) -> bool {
    '0' <= c && c <= '9'
}

/// The number that a sequence of digits spells, most significant first.
pub open spec fn digits_value(digits: Seq<char>) -> int
    decreases digits.len(),
{
    if digits.len() == 0 {
        0
    } else {
        digits_value(digits.drop_last()) * 10 + (digits.last() as int - '0' as int)
    }
}

/// Every character is a decimal digit.
pub open spec fn all_digits(digits: Seq<char>) -> bool {
    forall|i: int| 0 <= i < digits.len() ==> is_digit(#[trigger] digits[i])
}

/// A text without the plus sign that it may begin with.
pub open spec fn without_plus(text: Seq<char>) -> Seq<char> {
    if text.len() > 0 && text[0] == '+' {
        text.skip(1)
    } else {
        text
    }
}

/// The number that a text spells in decimal digits, after at most one plus
/// sign; nothing for any other text, nor for a number above `max`.
pub open spec fn parse_unsigned(text: Seq<char>, max: int) -> Option<int> {
    let digits = without_plus(text);
    if digits.len() > 0 && all_digits(digits) && digits_value(digits) <= max {
        Some(digits_value(digits))
    } else {
        None
    }
}

proof fn lemma_digits_value_grows(digits: Seq<char>, n: int)
    requires
        0 <= n <= digits.len(),
        all_digits(digits),
    ensures
        0 <= digits_value(digits.take(n)) <= digits_value(digits),
    decreases digits.len(),
{
    if n == digits.len() {
        assert(digits.take(n) =~= digits);
        if n > 0 {
            lemma_digits_value_grows(digits.drop_last(), n - 1);
        }
    } else {
        assert(digits.take(n) =~= digits.drop_last().take(n));
        lemma_digits_value_grows(digits.drop_last(), n);
    }
}

/// Reads a decimal number that is at most `max`.
pub fn unsigned_of(text: &str, max: u64) -> (value: Option<u64>)
    ensures
        match value {
            Some(n) => parse_unsigned(text@, max as int) == Some(n as int),
            None => parse_unsigned(text@, max as int) is None,
        },
{
    let chars = chars_of(text);
    let start: usize = if chars.len() > 0 && chars[0] == '+' { 1 } else { 0 };
    if chars.len() == start {
        return None;
    }
    let ghost digits = without_plus(text@);
    assert(digits =~= text@.skip(start as int));
    let mut value: u64 = 0;
    let mut i: usize = start;
    while i < chars.len()
        invariant
            start <= i <= chars@.len(),
            chars@ == text@,
            digits == without_plus(text@),
            digits == text@.skip(start as int),
            digits.len() > 0,
            forall|j: int| 0 <= j < i - start ==> is_digit(#[trigger] digits[j]),
            value == digits_value(digits.take(i - start)),
            value <= max,
        decreases chars@.len() - i,
    {
        let c = chars[i];
        assert(c == digits[i - start]);
        if c < '0' || c > '9' {
            assert(!is_digit(digits[i - start]));
            return None;
        }
        let d: u64 = (c as u32 - '0' as u32) as u64;
        assert(digits.take(i - start + 1).drop_last() =~= digits.take(i - start));
        assert(digits_value(digits.take(i - start + 1)) == value * 10 + d);
        if d > max || value > max / 10 || value * 10 > max - d {
            proof {
                if all_digits(digits) {
                    lemma_digits_value_grows(digits, i - start + 1);
                }
            }
            return None;
        }
        value = value * 10 + d;
        i = i + 1;
    }
    assert(digits.take(i - start) =~= digits);
    Some(value)
}

/// The character of a decimal digit.
pub open spec fn digit_char(d: int) -> char {
    ('0' as int + d) as char
}

/// The decimal digits of a number, most significant first.
pub open spec fn digits(n: nat) -> Seq<char>
    decreases n,
{
    if n < 10 {
        seq![digit_char(n as int)]
    } else {
        digits(n / 10).push(digit_char((n % 10) as int))
    }
}

/// The decimal text of an integer.
pub open spec fn decimal(n: int) -> Seq<char> {
    if n < 0 {
        seq!['-'] + digits((-n) as nat)
    } else {
        digits(n as nat)
    }
}

/// A text filled up with zeros on the left to at least `width` characters.
pub open spec fn zero_padded(text: Seq<char>, width: nat) -> Seq<char> {
    if text.len() < width {
        Seq::new((width - text.len()) as nat, |i: int| '0') + text
    } else {
        text
    }
}

/// Reading the digits of a number gives the number back.
pub proof fn lemma_digits_read_back(n: nat)
    ensures
        digits(n).len() > 0,
        all_digits(digits(n)),
        digits_value(digits(n)) == n,
    decreases n,
{
    if n >= 10 {
        lemma_digits_read_back(n / 10);
        let front = digits(n / 10);
        let last = digit_char((n % 10) as int);
        assert(front.push(last).drop_last() =~= front);
    } else {
        reveal_with_fuel(digits_value, 2);
        assert(digits(n).drop_last() =~= Seq::<char>::empty());
    }
}

/// Leading zeros do not change the number that digits spell.
pub proof fn lemma_zero_padded_value(text: Seq<char>, width: nat)
    requires
        all_digits(text),
    ensures
        digits_value(zero_padded(text, width)) == digits_value(text),
        all_digits(zero_padded(text, width)),
    decreases width,
{
    if text.len() < width {
        lemma_zeros_value((width - text.len()) as nat, text);
    }
}

proof fn lemma_zeros_value(zeros: nat, text: Seq<char>)
    ensures
        digits_value(Seq::new(zeros, |i: int| '0') + text) == digits_value(text),
    decreases zeros + text.len(),
{
    let whole = Seq::new(zeros, |i: int| '0') + text;
    if text.len() > 0 {
        assert(whole.drop_last() =~= Seq::new(zeros, |i: int| '0') + text.drop_last());
        lemma_zeros_value(zeros, text.drop_last());
    } else if zeros > 0 {
        let fewer = (zeros - 1) as nat;
        assert(whole.drop_last() =~= Seq::new(fewer, |i: int| '0') + text);
        lemma_zeros_value(fewer, text);
    } else {
        assert(whole =~= text);
    }
}

/// The decimal text of an unsigned number.
pub fn unsigned_text(n: u128) -> (text: String)
    ensures
        text@ == decimal(n as int),
    decreases n,
{
    let d: u8 = (n % 10) as u8;
    let c: char = (48u8 + d) as char;
    assert(c == digit_char(d as int));
    let mut text = if n < 10 {
        String::new()
    } else {
        unsigned_text(n / 10)
    };
    text.push(c);
    text
}

/// The decimal text of a signed number.
pub fn signed_text(n: i64) -> (text: String)
    ensures
        text@ == decimal(n as int),
{
    if n < 0 {
        let magnitude: u128 = (-(n as i128)) as u128;
        let mut text = String::new();
        text.push('-');
        text.append(unsigned_text(magnitude).as_str());
        text
    } else {
        unsigned_text(n as u128)
    }
}

/// The decimal text of a number, filled up with zeros to `width` characters.
pub fn padded_text(n: usize, width: usize) -> (text: String)
    ensures
        text@ == zero_padded(decimal(n as int), width as nat),
{
    let number = unsigned_text(n as u128);
    let len: usize = chars_of(number.as_str()).len();
    let mut text = String::new();
    let mut have: usize = len;
    while have < width
        invariant
            len == decimal(n as int).len(),
            len <= have,
            have <= width || have == len,
            text@ == Seq::new((have - len) as nat, |i: int| '0'),
        decreases width - have,
    {
        text.push('0');
        have = have + 1;
        assert(text@ =~= Seq::new((have - len) as nat, |i: int| '0'));
    }
    text.append(number.as_str());
    assert(text@ =~= zero_padded(decimal(n as int), width as nat));
    text
}

// ---------------------------------------------------------------------------
// White space
// ---------------------------------------------------------------------------

/// `c` has the Unicode property `White_Space`.
pub open spec fn is_blank(c: char) -> bool {
    ||| '\u{9}' <= c && c <= '\u{d}'
    ||| c == ' '
    ||| c == '\u{85}'
    ||| c == '\u{a0}'
    ||| c == '\u{1680}'
    ||| '\u{2000}' <= c && c <= '\u{200a}'
    ||| c == '\u{2028}'
    ||| c == '\u{2029}'
    ||| c == '\u{202f}'
    ||| c == '\u{205f}'
    ||| c == '\u{3000}'
}

/// A text without the white space at its beginning.
pub open spec fn trim_start(text: Seq<char>) -> Seq<char>
    decreases text.len(),
{
    if text.len() > 0 && is_blank(text[0]) {
        trim_start(text.skip(1))
    } else {
        text
    }
}

/// A text without the white space at its end.
pub open spec fn trim_end(text: Seq<char>) -> Seq<char>
    decreases text.len(),
{
    if text.len() > 0 && is_blank(text.last()) {
        trim_end(text.drop_last())
    } else {
        text
    }
}

/// A text without the white space at its beginning and at its end.
pub open spec fn trim(text: Seq<char>) -> Seq<char> {
    trim_end(trim_start(text))
}

/// A trimmed text neither begins nor ends with white space, and is a part of
/// the text that it came from.
pub proof fn lemma_trim(text: Seq<char>)
    ensures
        trim(text).len() <= text.len(),
        trim(text).len() > 0 ==> !is_blank(trim(text)[0]) && !is_blank(trim(text).last()),
        contains_text(text, trim(text)),
{
    lemma_trim_start(text);
    lemma_trim_end(trim_start(text));
    let start = trim_start(text);
    let whole = trim(text);
    let at = text.len() - start.len();
    assert(text.subrange(at, at + whole.len()) =~= whole);
    assert(occurs_at(text, whole, at));
}

proof fn lemma_trim_start(text: Seq<char>)
    ensures
        trim_start(text).len() <= text.len(),
        trim_start(text) == text.skip(text.len() - trim_start(text).len()),
        trim_start(text).len() > 0 ==> !is_blank(trim_start(text)[0]),
    decreases text.len(),
{
    if text.len() > 0 && is_blank(text[0]) {
        lemma_trim_start(text.skip(1));
        let rest = trim_start(text.skip(1));
        assert(text.skip(1).skip(text.len() - 1 - rest.len()) =~= text.skip(text.len() - rest.len()));
    } else {
        assert(text.skip(0) =~= text);
    }
}

proof fn lemma_trim_end(text: Seq<char>)
    ensures
        trim_end(text).len() <= text.len(),
        trim_end(text) == text.take(trim_end(text).len() as int),
        trim_end(text).len() > 0 ==> !is_blank(trim_end(text).last()),
    decreases text.len(),
{
    if text.len() > 0 && is_blank(text.last()) {
        lemma_trim_end(text.drop_last());
        let rest = trim_end(text.drop_last());
        assert(text.drop_last().take(rest.len() as int) =~= text.take(rest.len() as int));
    } else {
        assert(text.take(text.len() as int) =~= text);
    }
}

/// What stands between two texts, and neither begins nor ends with white space,
/// is kept when the whole is trimmed.
pub proof fn lemma_trim_around(before: Seq<char>, kept: Seq<char>, after: Seq<char>)
    requires
        kept.len() > 0,
        !is_blank(kept[0]),
        !is_blank(kept.last()),
    ensures
        trim(before + kept + after) == trim_start(before) + kept + trim_end(after),
        trim_start(before) == before.skip(before.len() - trim_start(before).len()),
        trim_end(after) == after.take(trim_end(after).len() as int),
        trim_start(before).len() <= before.len(),
        trim_end(after).len() <= after.len(),
{
    assert(before + kept + after =~= before + (kept + after));
    lemma_trim_start_before(before, kept + after);
    lemma_trim_end_after(trim_start(before) + kept, after);
    assert(trim_start(before) + (kept + after) =~= trim_start(before) + kept + after);
    lemma_trim_start(before);
    lemma_trim_end(after);
}

proof fn lemma_trim_start_before(before: Seq<char>, rest: Seq<char>)
    requires
        rest.len() > 0,
        !is_blank(rest[0]),
    ensures
        trim_start(before + rest) == trim_start(before) + rest,
    decreases before.len(),
{
    if before.len() == 0 {
        assert(before + rest =~= rest);
    } else {
        assert((before + rest).skip(1) =~= before.skip(1) + rest);
        lemma_trim_start_before(before.skip(1), rest);
    }
}

proof fn lemma_trim_end_after(rest: Seq<char>, after: Seq<char>)
    requires
        rest.len() > 0,
        !is_blank(rest.last()),
    ensures
        trim_end(rest + after) == rest + trim_end(after),
    decreases after.len(),
{
    if after.len() == 0 {
        assert(rest + after =~= rest);
    } else {
        assert((rest + after).drop_last() =~= rest + after.drop_last());
        lemma_trim_end_after(rest, after.drop_last());
    }
}

/// A text that neither begins nor ends with white space is left as it is.
pub proof fn lemma_trim_keeps(text: Seq<char>)
    requires
        text.len() > 0 ==> !is_blank(text[0]) && !is_blank(text.last()),
    ensures
        trim(text) == text,
{
}

/// Trimming a trimmed text changes nothing.
pub proof fn lemma_trim_idempotent(text: Seq<char>)
    ensures
        trim(trim(text)) == trim(text),
{
    lemma_trim(text);
    lemma_trim_keeps(trim(text));
}

/// Whether `c` has the Unicode property `White_Space`.
pub fn is_white_space(c: char) -> (blank: bool)
    ensures
        blank == is_blank(c),
{
    ('\u{9}' <= c && c <= '\u{d}') || c == ' ' || c == '\u{85}' || c == '\u{a0}' || c
        == '\u{1680}' || ('\u{2000}' <= c && c <= '\u{200a}') || c == '\u{2028}' || c
        == '\u{2029}' || c == '\u{202f}' || c == '\u{205f}' || c == '\u{3000}'
}

/// Where the first character that is no white space stands, from `lo` up to `hi`.
pub fn skip_blanks(chars: &[char], lo: usize, hi: usize) -> (at: usize)
    requires
        lo <= hi <= chars@.len(),
    ensures
        lo <= at <= hi,
        chars@.subrange(at as int, hi as int) == trim_start(chars@.subrange(lo as int, hi as int)),
{
    let mut at: usize = lo;
    while at < hi && is_white_space(chars[at])
        invariant
            lo <= at <= hi <= chars@.len(),
            trim_start(chars@.subrange(at as int, hi as int)) == trim_start(
                chars@.subrange(lo as int, hi as int),
            ),
        decreases hi - at,
    {
        assert(chars@.subrange(at as int, hi as int).skip(1) =~= chars@.subrange(
            at + 1,
            hi as int,
        ));
        at = at + 1;
    }
    at
}

/// The text without the white space at its beginning and at its end.
pub fn trimmed(text: &str) -> (result: String)
    ensures
        result@ == trim(text@),
{
    let chars = chars_of(text);
    assert(chars@.subrange(0, chars@.len() as int) =~= text@);
    let lo = skip_blanks(chars.as_slice(), 0, chars.len());
    let mut hi: usize = chars.len();
    while hi > lo && is_white_space(chars[hi - 1])
        invariant
            lo <= hi <= chars@.len(),
            trim_end(chars@.subrange(lo as int, hi as int)) == trim(text@),
        decreases hi - lo,
    {
        assert(chars@.subrange(lo as int, hi as int).drop_last() =~= chars@.subrange(
            lo as int,
            hi - 1,
        ));
        hi = hi - 1;
    }
    text_of(chars.as_slice(), lo, hi)
}

// ---------------------------------------------------------------------------
// Removing, joining, and letter case
// ---------------------------------------------------------------------------

/// A text without the occurrences of `needle`, each searched behind the one
/// before it.
pub open spec fn remove_all(hay: Seq<char>, needle: Seq<char>) -> Seq<char>
    decreases hay.len(),
{
    match find(hay, needle) {
        Some(at) => if 0 <= at && 0 < needle.len() && at + needle.len() <= hay.len() {
            hay.take(at) + remove_all(hay.skip(at + needle.len()), needle)
        } else {
            hay
        },
        None => hay,
    }
}

/// Searching from a position on is searching in what begins there.
pub proof fn lemma_find_skip(hay: Seq<char>, needle: Seq<char>, from: int)
    requires
        0 <= from <= hay.len(),
    ensures
        match find(hay.skip(from), needle) {
            Some(at) => find_from(hay, needle, from) == Some(from + at),
            None => find_from(hay, needle, from) is None,
        },
{
    lemma_find_from(hay, needle, from);
    lemma_find_from(hay.skip(from), needle, 0);
    assert forall|j: int| 0 <= j implies occurs_at(hay.skip(from), needle, j) == occurs_at(
        hay,
        needle,
        from + j,
    ) by {
        if from + j + needle.len() <= hay.len() {
            assert(hay.skip(from).subrange(j, j + needle.len()) =~= hay.subrange(
                from + j,
                from + j + needle.len(),
            ));
        }
    }
    match (find(hay.skip(from), needle), find_from(hay, needle, from)) {
        (Some(a), Some(b)) => {
            assert(occurs_at(hay.skip(from), needle, b - from));
            assert(occurs_at(hay, needle, from + a));
        },
        (Some(a), None) => {
            assert(occurs_at(hay, needle, from + a));
        },
        (None, Some(b)) => {
            assert(occurs_at(hay.skip(from), needle, b - from));
        },
        (None, None) => {},
    }
}

/// The text without the occurrences of `needle`.
pub fn without_text(hay: &str, needle: &str) -> (result: String)
    requires
        needle@.len() > 0,
    ensures
        result@ == remove_all(hay@, needle@),
{
    let h = chars_of(hay);
    let n = chars_of(needle);
    let mut result = String::new();
    let end: usize = h.len();
    let mut from: usize = 0;
    assert(hay@.skip(0) =~= hay@);
    loop
        invariant
            end == h@.len(),
            h@ == hay@,
            n@ == needle@,
            n@.len() > 0,
            from <= h@.len(),
            result@ + remove_all(h@.skip(from as int), n@) == remove_all(hay@, needle@),
        decreases h@.len() - from,
    {
        proof {
            lemma_find_skip(h@, n@, from as int);
            lemma_find_from(h@, n@, from as int);
        }
        match position_from(h.as_slice(), n.as_slice(), from) {
            Some(at) => {
                let ghost rest = h@.skip(from as int);
                assert(occurs_at(h@, n@, at as int));
                assert(at + n@.len() <= end);
                assert(rest.take(at - from) =~= h@.subrange(from as int, at as int));
                assert(rest.skip(at - from + n@.len()) =~= h@.skip(at + n@.len()));
                result.append(text_of(h.as_slice(), from, at).as_str());
                from = at + n.len();
            },
            None => {
                assert(h@.skip(from as int) =~= h@.subrange(from as int, h@.len() as int));
                result.append(text_of(h.as_slice(), from, h.len()).as_str());
                return result;
            },
        }
    }
}

/// The parts one after another, with `separator` between each two.
pub open spec fn join(parts: Seq<Seq<char>>, separator: Seq<char>) -> Seq<char>
    decreases parts.len(),
{
    if parts.len() == 0 {
        Seq::empty()
    } else if parts.len() == 1 {
        parts[0]
    } else {
        join(parts.drop_last(), separator) + separator + parts.last()
    }
}

/// The parts one after another, with `separator` between each two.
pub fn joined(parts: &Vec<String>, separator: &str) -> (result: String)
    ensures
        result@ == join(parts.deep_view(), separator@),
{
    let mut result = String::new();
    let ghost all = parts.deep_view();
    let mut i: usize = 0;
    while i < parts.len()
        invariant
            i <= parts@.len(),
            all == parts.deep_view(),
            result@ == join(all.take(i as int), separator@),
        decreases parts@.len() - i,
    {
        if i > 0 {
            result.append(separator);
        }
        result.append(parts[i].as_str());
        assert(all.take(i + 1).drop_last() =~= all.take(i as int));
        i = i + 1;
    }
    assert(all.take(i as int) =~= all);
    result
}

/// What `str::to_lowercase` makes of a text.
pub uninterp spec fn lowercase(text: Seq<char>) -> Seq<char>;

/// `str::to_lowercase`: the text with its letters in lower case.
#[verifier::external_body]
pub(crate) fn to_lowercase(text: &str) -> (result: String)
    ensures
        result@ == lowercase(text@),
{
    text.to_lowercase()
}

// ---------------------------------------------------------------------------
// Laws
// ---------------------------------------------------------------------------

/// A text stands where each of its characters stands.
pub proof fn law_occurrence_is_spelled_out(hay: Seq<char>, needle: Seq<char>, at: int)
    ensures
        occurs_at(hay, needle, at) <==> {
            &&& 0 <= at
            &&& at + needle.len() <= hay.len()
            &&& forall|i: int| 0 <= i < needle.len() ==> hay[at + i] == #[trigger] needle[i]
        },
{
    if 0 <= at && at + needle.len() <= hay.len() {
        let part = hay.subrange(at, at + needle.len());
        assert(forall|i: int| 0 <= i < needle.len() ==> part[i] == #[trigger] hay[at + i]);
        if forall|i: int| 0 <= i < needle.len() ==> hay[at + i] == #[trigger] needle[i] {
            assert(part =~= needle);
        }
        if part == needle {
            assert forall|i: int| 0 <= i < needle.len() implies hay[at + i] == #[trigger] needle[i] by {
                assert(part[i] == hay[at + i]);
            }
        }
    }
}

/// A text contains another exactly where it is that one with something, or
/// nothing, before and behind it.
pub proof fn law_contained_text_has_two_sides(hay: Seq<char>, needle: Seq<char>)
    ensures
        contains_text(hay, needle) <==> exists|before: Seq<char>, after: Seq<char>|
            hay == #[trigger] (before + needle + after),
{
    if contains_text(hay, needle) {
        let at = choose|at: int| occurs_at(hay, needle, at);
        assert(hay =~= hay.take(at) + needle + hay.skip(at + needle.len()));
    }
    if exists|before: Seq<char>, after: Seq<char>| hay == #[trigger] (before + needle + after) {
        let (before, after) = choose|before: Seq<char>, after: Seq<char>|
            hay == #[trigger] (before + needle + after);
        let at = before.len() as int;
        assert(hay.subrange(at, at + needle.len()) =~= needle);
        assert(occurs_at(hay, needle, at));
    }
}

/// One more digit makes a number ten times as large, and adds its own value.
pub proof fn law_digits_count_by_ten(front: Seq<char>, c: char)
    ensures
        digits_value(Seq::empty()) == 0,
        digits_value(front.push(c)) == 10 * digits_value(front) + (c as int - 48),
{
    assert(front.push(c).drop_last() =~= front);
}

/// The decimal text of a number that is not negative spells it in digits,
/// without a zero in front but for zero itself; that of a negative number is
/// that of its opposite behind a minus sign.
pub proof fn law_decimal_spells_the_number(n: int)
    ensures
        n >= 0 ==> {
            &&& decimal(n).len() > 0
            &&& forall|i: int| 0 <= i < decimal(n).len() ==> '0' <= #[trigger] decimal(n)[i] <= '9'
            &&& digits_value(decimal(n)) == n
            &&& n > 0 ==> decimal(n)[0] != '0'
        },
        n == 0 ==> decimal(n) == seq!['0'],
        n < 0 ==> decimal(n) == seq!['-'] + decimal(-n),
{
    if n >= 0 {
        lemma_digits_read_back(n as nat);
        assert forall|i: int| 0 <= i < decimal(n).len() implies '0' <= #[trigger] decimal(n)[i]
            <= '9' by {
            assert(is_digit(digits(n as nat)[i]));
        }
        if n > 0 {
            lemma_no_zero_in_front(n as nat);
        }
    }
}

proof fn lemma_no_zero_in_front(n: nat)
    requires
        n > 0,
    ensures
        digits(n).len() > 0,
        digits(n)[0] != '0',
    decreases n,
{
    if n >= 10 {
        lemma_no_zero_in_front(n / 10);
    }
}

/// Digits without a zero in front are the decimal text of the number that they
/// spell.
pub proof fn law_digits_are_decimal(digits: Seq<char>)
    requires
        digits.len() > 0,
        forall|i: int| 0 <= i < digits.len() ==> '0' <= #[trigger] digits[i] <= '9',
        digits.len() == 1 || digits[0] != '0',
    ensures
        digits_value(digits) >= 0,
        decimal(digits_value(digits)) == digits,
        digits[0] != '0' ==> digits_value(digits) > 0,
    decreases digits.len(),
{
    let front = digits.drop_last();
    let last = digits.last();
    assert('0' <= digits[digits.len() - 1] <= '9');
    if front.len() == 0 {
        assert(digits_value(front) == 0);
        assert(digits =~= seq![last]);
        assert(digit_char(last as int - '0' as int) == last);
    } else {
        assert forall|i: int| 0 <= i < front.len() implies '0' <= #[trigger] front[i] <= '9' by {
            assert('0' <= digits[i] <= '9');
        }
        assert(front[0] == digits[0]);
        law_digits_are_decimal(front);
        let q = digits_value(front);
        let r = last as int - '0' as int;
        let v = digits_value(digits);
        assert(v == q * 10 + r);
        assert(q > 0);
        assert(v / 10 == q && v % 10 == r) by (nonlinear_arith)
            requires
                v == q * 10 + r,
                0 <= r < 10,
                q > 0,
        ;
        assert(self::digits(v as nat) == self::digits(q as nat).push(digit_char(r)));
        assert(digit_char(r) == last);
        assert(front.push(last) =~= digits);
    }
}

/// A number is read from its decimal text, with or without a plus sign and
/// zeros before it, unless it is above the limit.
pub proof fn law_number_is_read_back(n: nat, width: nat, max: int)
    ensures
        parse_unsigned(decimal(n as int), max) == (if n <= max {
            Some(n as int)
        } else {
            None
        }),
        parse_unsigned(seq!['+'] + zero_padded(decimal(n as int), width), max) == (if n <= max {
            Some(n as int)
        } else {
            None
        }),
{
    let plain = decimal(n as int);
    lemma_digits_read_back(n);
    lemma_zero_padded_value(plain, width);
    let padded = zero_padded(plain, width);
    assert(padded.len() > 0);
    assert(is_digit(plain[0]));
    assert((seq!['+'] + padded).skip(1) =~= padded);
}

/// What is empty, or has anything but digits behind one plus sign at most, is
/// read as no number.
pub proof fn law_other_text_is_no_number(text: Seq<char>, at: int, max: int)
    requires
        text.len() == 0 || text == seq!['+'] || (0 <= at < text.len() && !('0' <= text[at]
            <= '9') && (at > 0 || text[at] != '+')),
    ensures
        parse_unsigned(text, max) is None,
{
    let spelled = without_plus(text);
    if text.len() > 0 && text != seq!['+'] {
        let k = if text[0] == '+' {
            at - 1
        } else {
            at
        };
        assert(0 <= k < spelled.len());
        assert(spelled[k] == text[at]);
        assert(!is_digit(spelled[k]));
    } else {
        assert(spelled.len() == 0);
    }
}

/// Filling up with zeros puts zeros before the text, and no more of them than
/// the width asks for.
pub proof fn law_padding_is_zeros(text: Seq<char>, width: nat)
    ensures
        zero_padded(text, width).len() == (if text.len() < width {
            width
        } else {
            text.len()
        }),
        zero_padded(text, width).skip(zero_padded(text, width).len() - text.len()) == text,
        forall|i: int|
            0 <= i < zero_padded(text, width).len() - text.len() ==> #[trigger] zero_padded(
                text,
                width,
            )[i] == '0',
{
    let padded = zero_padded(text, width);
    assert(padded.skip(padded.len() - text.len()) =~= text);
}

/// Trimming takes white space away at both ends, all of it and nothing else.
pub proof fn law_trim_takes_only_white_space(text: Seq<char>)
    ensures
        exists|lo: int, hi: int| #[trigger]
            is_trimmed_part(text, lo, hi) && trim(text) == text.subrange(lo, hi),
        exists|lo: int| #[trigger]
            is_front_trimmed(text, lo) && trim_start(text) == text.skip(lo),
{
    lemma_trim_start_is(text);
    let start = trim_start(text);
    let lo = text.len() - start.len();
    assert(is_front_trimmed(text, lo));
    lemma_trim_end_is(start);
    let hi = lo + trim(text).len();
    assert(text.subrange(lo, hi) =~= trim(text));
    assert forall|i: int| hi <= i < text.len() implies is_blank(#[trigger] text[i]) by {
        assert(start[i - lo] == text[i]);
    }
    if lo < hi {
        assert(trim(text)[0] == text[lo]);
        assert(trim(text).last() == text[hi - 1]);
        lemma_trim(text);
    }
    assert(is_trimmed_part(text, lo, hi));
}

/// The part is surrounded by white space, and begins and ends with none.
pub open spec fn is_trimmed_part(text: Seq<char>, lo: int, hi: int) -> bool {
    &&& 0 <= lo <= hi <= text.len()
    &&& forall|i: int| 0 <= i < lo ==> is_blank(#[trigger] text[i])
    &&& forall|i: int| hi <= i < text.len() ==> is_blank(#[trigger] text[i])
    &&& lo < hi ==> !is_blank(text[lo]) && !is_blank(text[hi - 1])
}

/// What stands before the position is white space, and what begins there does
/// not begin with any.
pub open spec fn is_front_trimmed(text: Seq<char>, lo: int) -> bool {
    &&& 0 <= lo <= text.len()
    &&& forall|i: int| 0 <= i < lo ==> is_blank(#[trigger] text[i])
    &&& lo < text.len() ==> !is_blank(text[lo])
}

proof fn lemma_trim_start_is(text: Seq<char>)
    ensures
        trim_start(text).len() <= text.len(),
        trim_start(text) == text.skip(text.len() - trim_start(text).len()),
        is_front_trimmed(text, text.len() - trim_start(text).len()),
    decreases text.len(),
{
    lemma_trim_start(text);
    if text.len() > 0 && is_blank(text[0]) {
        lemma_trim_start_is(text.skip(1));
        let lo = text.len() - trim_start(text).len();
        assert forall|i: int| 0 <= i < lo implies is_blank(#[trigger] text[i]) by {
            if i > 0 {
                assert(text.skip(1)[i - 1] == text[i]);
            }
        }
    }
}

proof fn lemma_trim_end_is(text: Seq<char>)
    ensures
        trim_end(text).len() <= text.len(),
        trim_end(text) == text.take(trim_end(text).len() as int),
        forall|i: int| trim_end(text).len() <= i < text.len() ==> is_blank(#[trigger] text[i]),
    decreases text.len(),
{
    lemma_trim_end(text);
    if text.len() > 0 && is_blank(text.last()) {
        lemma_trim_end_is(text.drop_last());
        assert forall|i: int| trim_end(text).len() <= i < text.len() implies is_blank(
            #[trigger] text[i],
        ) by {
            if i < text.len() - 1 {
                assert(text.drop_last()[i] == text[i]);
            }
        }
    }
}

/// A text that is all white space is trimmed to nothing.
pub proof fn law_blank_text_is_trimmed_away(text: Seq<char>)
    requires
        forall|i: int| 0 <= i < text.len() ==> is_blank(#[trigger] text[i]),
    ensures
        trim(text).len() == 0,
        trim_start(text).len() == 0,
{
    lemma_trim_start_is(text);
    let start = trim_start(text);
    let lo = text.len() - start.len();
    if start.len() > 0 {
        assert(is_blank(text[lo]));
    }
    lemma_trim_end(start);
}

/// The white space around a text, and no more, is what trimming takes away.
pub proof fn law_white_space_around_is_trimmed(before: Seq<char>, kept: Seq<char>, after: Seq<char>)
    requires
        forall|i: int| 0 <= i < before.len() ==> is_blank(#[trigger] before[i]),
        forall|i: int| 0 <= i < after.len() ==> is_blank(#[trigger] after[i]),
        kept.len() > 0,
        !is_blank(kept[0]),
        !is_blank(kept.last()),
    ensures
        trim(before + kept + after) == kept,
        trim_start(before + kept + after) == kept + after,
{
    lemma_trim_around(before, kept, after);
    law_blank_text_is_trimmed_away(before);
    lemma_trim_end_is(after);
    let end = trim_end(after);
    if end.len() > 0 {
        lemma_trim_end(after);
        assert(is_blank(after[end.len() - 1]));
    }
    assert(trim_start(before) + kept + end =~= kept);
    assert(before + kept + after =~= before + (kept + after));
    lemma_trim_start_before(before, kept + after);
    assert(trim_start(before) + (kept + after) =~= kept + after);
}

/// A text that does not stand in another leaves it as it is; the first place
/// where it does is taken out, and what stands behind is treated alike.
pub proof fn law_removal_goes_from_the_front(before: Seq<char>, needle: Seq<char>, after: Seq<char>)
    requires
        needle.len() > 0,
        find(before + needle + after, needle) == Some(before.len() as int),
    ensures
        remove_all(before + needle + after, needle) == before + remove_all(after, needle),
{
    let hay = before + needle + after;
    assert(hay.take(before.len() as int) =~= before);
    assert(hay.skip((before.len() + needle.len()) as int) =~= after);
}

/// A text that does not stand in another leaves it as it is.
pub proof fn law_removal_keeps_the_rest(hay: Seq<char>, needle: Seq<char>)
    requires
        !contains_text(hay, needle),
    ensures
        remove_all(hay, needle) == hay,
{
    lemma_find_contains(hay, needle);
}

/// Joining two lists of parts is joining each, with the separator between
/// them; one part alone is joined as it is, and no part at all to nothing.
pub proof fn law_join_is_piecewise(first: Seq<Seq<char>>, second: Seq<Seq<char>>, separator: Seq<char>)
    requires
        first.len() > 0,
        second.len() > 0,
    ensures
        join(first + second, separator) == join(first, separator) + separator + join(
            second,
            separator,
        ),
    decreases second.len(),
{
    assert((first + second).drop_last() =~= first + second.drop_last());
    if second.len() == 1 {
        assert(first + second.drop_last() =~= first);
    } else {
        law_join_is_piecewise(first, second.drop_last(), separator);
        assert(join(first + second, separator) =~= join(first, separator) + separator + join(
            second,
            separator,
        ));
    }
}

/// One part is joined as it is, and no part to nothing.
pub proof fn law_join_of_one(part: Seq<char>, separator: Seq<char>)
    ensures
        join(seq![part], separator) == part,
        join(Seq::empty(), separator) == Seq::<char>::empty(),
{
}

} // verus!
