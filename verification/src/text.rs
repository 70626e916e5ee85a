//! Character-level helpers: strings as sequences of characters, decimal
//! numbers, searching and comparing.

use vstd::prelude::*;
use vstd::utf8::*;

verus! {

/// `String::push` appends exactly the given character.
pub assume_specification[ String::push ](s: &mut String, ch: char)
    ensures
        final(s)@ == old(s)@.push(ch),
;

// ---------------------------------------------------------------------------
// Models
// ---------------------------------------------------------------------------

/// `marker` stands in `text` at position `at`.
pub open spec fn occurs_at(text: Seq<char>, marker: Seq<char>, at: int) -> bool {
    0 <= at && at + marker.len() <= text.len() && text.subrange(at, at + marker.len()) == marker
}

/// The first position at or after `from` where `marker` stands in `text`.
pub open spec fn find_from(text: Seq<char>, marker: Seq<char>, from: nat) -> Option<nat>
    decreases text.len() - from,
{
    if from + marker.len() > text.len() {
        None
    } else if occurs_at(text, marker, from as int) {
        Some(from)
    } else if from == text.len() {
        None
    } else {
        find_from(text, marker, from + 1)
    }
}

/// `marker` stands somewhere in `text`.
pub open spec fn contains(text: Seq<char>, marker: Seq<char>) -> bool {
    exists|at: int| occurs_at(text, marker, at)
}

pub open spec fn starts_with(text: Seq<char>, prefix: Seq<char>) -> bool {
    occurs_at(text, prefix, 0)
}

pub open spec fn ends_with(text: Seq<char>, suffix: Seq<char>) -> bool {
    occurs_at(text, suffix, text.len() - suffix.len())
}

pub open spec fn is_digit(c: char) -> bool {
    '0' <= c && c <= '9'
}

pub open spec fn digit_char(d: nat) -> char {
    (d + '0' as nat) as char
}

pub open spec fn digit_value(c: char) -> nat {
    (c as nat - '0' as nat) as nat
}

/// The decimal notation of `n`, without leading zeros.
pub open spec fn decimal(n: nat) -> Seq<char>
    decreases n,
{
    if n < 10 {
        seq![digit_char(n)]
    } else {
        decimal(n / 10).push(digit_char(n % 10))
    }
}

pub open spec fn all_digits(s: Seq<char>) -> bool {
    forall|i: int| 0 <= i < s.len() ==> is_digit(#[trigger] s[i])
}

/// The number that a run of digits denotes.
pub open spec fn digits_value(s: Seq<char>) -> nat
    decreases s.len(),
{
    if s.len() == 0 {
        0
    } else {
        digits_value(s.drop_last()) * 10 + digit_value(s.last())
    }
}

/// An unsigned decimal number no larger than `max`: an optional plus sign and
/// at least one digit.
pub open spec fn parse_unsigned(s: Seq<char>, max: nat) -> Option<nat> {
    let body = if s.len() > 0 && s[0] == '+' { s.drop_first() } else { s };
    if body.len() > 0 && all_digits(body) && digits_value(body) <= max {
        Some(digits_value(body))
    } else {
        None
    }
}

/// A signed decimal number that fits 32 bits: an optional sign and at least one
/// digit.
pub open spec fn parse_signed(s: Seq<char>) -> Option<int> {
    if s.len() > 0 && s[0] == '-' {
        let body = s.drop_first();
        if body.len() > 0 && all_digits(body) && digits_value(body) <= 0x8000_0000 {
            Some(-digits_value(body))
        } else {
            None
        }
    } else {
        match parse_unsigned(s, 0x7fff_ffff) {
            Some(n) => Some(n as int),
            None => None,
        }
    }
}

/// The first position at or after `from` that holds `c`, or the end.
pub open spec fn index_of(s: Seq<char>, c: char, from: nat) -> nat
    decreases s.len() - from,
{
    if from >= s.len() {
        s.len()
    } else if s[from as int] == c {
        from
    } else {
        index_of(s, c, from + 1)
    }
}

/// What stands before and after the first `c`.
pub open spec fn split_once(s: Seq<char>, c: char) -> Option<(Seq<char>, Seq<char>)> {
    let at = index_of(s, c, 0);
    if at < s.len() {
        Some((s.take(at as int), s.skip(at as int + 1)))
    } else {
        None
    }
}

/// The characters with the Unicode property White_Space.
pub open spec fn is_space(c: char) -> bool {
    ||| '\u{9}' <= c && c <= '\u{d}'
    ||| c == ' '
    ||| c == '\u{85}'
    ||| c == '\u{a0}'
    ||| c == '\u{1680}'
    ||| '\u{2000}' <= c && c <= '\u{200a}'
    ||| c == '\u{2028}'
    ||| c == '\u{2029}'
    ||| c == '\u{202f}'
    ||| c == '\u{205f}'
    ||| c == '\u{3000}'
}

/// The first position at or after `from` that holds no white space (`spaces`)
/// or white space (`!spaces`), or the end.
pub open spec fn skip_run(s: Seq<char>, spaces: bool, from: nat) -> nat
    decreases s.len() - from,
{
    if from >= s.len() {
        s.len()
    } else if is_space(s[from as int]) != spaces {
        from
    } else {
        skip_run(s, spaces, from + 1)
    }
}

/// The text without trailing white space.
pub open spec fn trim_end(s: Seq<char>) -> Seq<char>
    decreases s.len(),
{
    if s.len() > 0 && is_space(s.last()) {
        trim_end(s.drop_last())
    } else {
        s
    }
}

/// The text without leading and trailing white space.
pub open spec fn trim(s: Seq<char>) -> Seq<char> {
    trim_end(s.skip(skip_run(s, true, 0) as int))
}

/// The runs of characters other than white space.
pub open spec fn words_from(s: Seq<char>, from: nat) -> Seq<Seq<char>>
    decreases s.len() - from,
{
    let start = skip_run(s, true, from);
    if start >= s.len() || start < from {
        seq![]
    } else {
        let end = skip_run(s, false, start);
        if end <= start || end > s.len() {
            seq![]
        } else {
            seq![s.subrange(start as int, end as int)] + words_from(s, end)
        }
    }
}

/// A line without the carriage return that belongs to its line feed.
pub open spec fn without_return(line: Seq<char>) -> Seq<char> {
    if line.len() > 0 && line.last() == '\r' {
        line.drop_last()
    } else {
        line
    }
}

/// The lines of a text: a line ends with a line feed, or at the end of the
/// text where anything is left.
pub open spec fn lines_from(s: Seq<char>, from: nat) -> Seq<Seq<char>>
    decreases s.len() - from,
{
    if from >= s.len() {
        seq![]
    } else {
        let end = index_of(s, '\n', from);
        if end >= s.len() || end < from {
            seq![s.skip(from as int)]
        } else {
            seq![without_return(s.subrange(from as int, end as int))] + lines_from(s, end + 1)
        }
    }
}

/// The characters of each string.
pub open spec fn views(strings: Seq<String>) -> Seq<Seq<char>> {
    Seq::new(strings.len(), |i: int| strings[i]@)
}

/// The length of the UTF-8 encoding.
pub open spec fn byte_count(s: Seq<char>) -> nat {
    encode_utf8(s).len()
}

/// The longest beginning of `s` that has at most `max` bytes.
pub open spec fn cut(s: Seq<char>, max: nat) -> Seq<char>
    decreases s.len(),
{
    if s.len() == 0 || byte_count(s) <= max {
        s
    } else {
        cut(s.drop_last(), max)
    }
}

// ---------------------------------------------------------------------------
// Strings and character vectors
// ---------------------------------------------------------------------------

/// The characters of `text`.
pub fn chars_of(text: &str) -> (chars: Vec<char>)
    ensures
        chars@ == text@,
{
    let mut chars: Vec<char> = Vec::new();
    for c in it: text.chars()
        invariant
            it.seq() == text@,
            chars@ == it.seq().take(it.index() as int),
    {
        chars.push(c);
    }
    chars
}

/// The string holding `chars[from..to]`.
pub fn string_of(chars: &Vec<char>, from: usize, to: usize) -> (text: String)
    requires
        from <= to <= chars.len(),
    ensures
        text@ == chars@.subrange(from as int, to as int),
{
    let mut text = String::new();
    let mut i: usize = from;
    while i < to
        invariant
            from <= i <= to <= chars.len(),
            text@ == chars@.subrange(from as int, i as int),
        decreases to - i,
    {
        text.push(chars[i]);
        i = i + 1;
    }
    text
}

/// The number of bytes of `text`.
pub fn byte_len(text: &str) -> (count: usize)
    ensures
        count == byte_count(text@),
{
    text.as_bytes().len()
}

/// A text has the bytes of its parts.
pub proof fn lemma_bytes_join(a: Seq<char>, b: Seq<char>)
    ensures
        byte_count(a + b) == byte_count(a) + byte_count(b),
    decreases a.len(),
{
    if a.len() == 0 {
        assert(a + b =~= b);
    } else {
        assert((a + b).drop_first() =~= a.drop_first() + b);
        lemma_bytes_join(a.drop_first(), b);
    }
}

/// Every character has a byte.
pub proof fn lemma_bytes_of_chars(s: Seq<char>)
    ensures
        byte_count(s) >= s.len(),
    decreases s.len(),
{
    if s.len() > 0 {
        lemma_bytes_of_chars(s.drop_first());
    }
}

/// Digits and dashes have one byte each.
pub proof fn lemma_bytes_of_digits(s: Seq<char>)
    requires
        forall|i: int| 0 <= i < s.len() ==> is_digit(#[trigger] s[i]) || s[i] == '-',
    ensures
        byte_count(s) == s.len(),
{
    assert(is_ascii_chars(s));
    is_ascii_chars_encode_utf8(s);
}

/// What is cut fits and is a beginning.
pub proof fn lemma_cut(s: Seq<char>, max: nat)
    ensures
        byte_count(cut(s, max)) <= max,
        cut(s, max).len() <= s.len(),
        cut(s, max) == s.take(cut(s, max).len() as int),
    decreases s.len(),
{
    if s.len() == 0 || byte_count(s) <= max {
        assert(s.take(s.len() as int) =~= s);
    } else {
        lemma_cut(s.drop_last(), max);
        let n = cut(s, max).len() as int;
        assert(s.drop_last().take(n) =~= s.take(n));
    }
}

/// No more characters than bytes are left.
proof fn lemma_cut_long(s: Seq<char>, max: nat)
    ensures
        s.len() > max ==> cut(s, max) == cut(s.take(max as int), max),
    decreases s.len(),
{
    if s.len() > max {
        lemma_bytes_of_chars(s);
        let shorter = s.drop_last();
        if shorter.len() > max {
            lemma_cut_long(shorter, max);
            assert(shorter.take(max as int) =~= s.take(max as int));
        } else {
            assert(shorter =~= s.take(max as int));
        }
    }
}

/// Cuts a text to at most `max` bytes, never within a character.
pub fn cut_to(chars: &Vec<char>, max: usize) -> (kept: String)
    ensures
        kept@ == cut(chars@, max as nat),
{
    let mut end: usize = if chars.len() > max {
        max
    } else {
        chars.len()
    };
    proof {
        lemma_cut_long(chars@, max as nat);
        assert(chars@.take(chars@.len() as int) =~= chars@);
    }
    loop
        invariant
            end <= chars.len(),
            cut(chars@, max as nat) == cut(chars@.take(end as int), max as nat),
        decreases end,
    {
        let kept = string_of(chars, 0, end);
        assert(kept@ =~= chars@.take(end as int));
        if end == 0 || byte_len(kept.as_str()) <= max {
            return kept;
        }
        assert(chars@.take(end as int).drop_last() =~= chars@.take(end - 1));
        end = end - 1;
    }
}

/// Appends the decimal notation of `n`.
pub fn push_decimal(out: &mut String, n: u128)
    ensures
        final(out)@ == old(out)@ + decimal(n as nat),
    decreases n,
{
    if n >= 10 {
        push_decimal(out, n / 10);
    }
    let digit: u8 = (n % 10) as u8;
    out.push((48u8 + digit) as char);
}

/// Whether the two strings hold the same characters.
pub fn same(a: &str, b: &str) -> (equal: bool)
    ensures
        equal == (a@ == b@),
{
    let left = chars_of(a);
    let right = chars_of(b);
    same_chars(&left, &right)
}

pub fn same_chars(left: &Vec<char>, right: &Vec<char>) -> (equal: bool)
    ensures
        equal == (left@ == right@),
{
    if left.len() != right.len() {
        return false;
    }
    let mut i: usize = 0;
    while i < left.len()
        invariant
            i <= left.len() == right.len(),
            forall|j: int| 0 <= j < i ==> left@[j] == right@[j],
        decreases left.len() - i,
    {
        if left[i] != right[i] {
            return false;
        }
        i = i + 1;
    }
    assert(left@ =~= right@);
    true
}

// ---------------------------------------------------------------------------
// Searching
// ---------------------------------------------------------------------------

/// Whether `marker` stands in `text` at `at`.
pub fn stands_at(text: &Vec<char>, marker: &Vec<char>, at: usize) -> (found: bool)
    ensures
        found == occurs_at(text@, marker@, at as int),
{
    if at > text.len() || marker.len() > text.len() - at {
        return false;
    }
    let mut i: usize = 0;
    while i < marker.len()
        invariant
            i <= marker.len(),
            at + marker.len() <= text.len(),
            forall|j: int| 0 <= j < i ==> text@[at + j] == marker@[j],
        decreases marker.len() - i,
    {
        if text[at + i] != marker[i] {
            assert(text@.subrange(at as int, at + marker.len())[i as int] != marker@[i as int]);
            return false;
        }
        i = i + 1;
    }
    assert(text@.subrange(at as int, at + marker.len()) =~= marker@);
    true
}

/// The first position at or after `from` where `marker` stands.
pub fn find_marker(text: &Vec<char>, marker: &Vec<char>, from: usize) -> (found: Option<usize>)
    requires
        from <= text.len(),
    ensures
        match found {
            Some(at) => find_from(text@, marker@, from as nat) == Some(at as nat) && at
                + marker.len() <= text.len(),
            None => find_from(text@, marker@, from as nat) is None,
        },
{
    let mut at: usize = from;
    while at < text.len()
        invariant
            from <= at <= text.len(),
            find_from(text@, marker@, from as nat) == find_from(text@, marker@, at as nat),
        decreases text.len() - at,
    {
        if stands_at(text, marker, at) {
            return Some(at);
        }
        at = at + 1;
    }
    if stands_at(text, marker, at) {
        Some(at)
    } else {
        None
    }
}

/// A search from `from` finds the position where `marker` stands first.
pub proof fn lemma_find_first(text: Seq<char>, marker: Seq<char>, from: nat, at: nat)
    requires
        from <= at,
        occurs_at(text, marker, at as int),
        forall|j: int| from <= j < at ==> !occurs_at(text, marker, j),
    ensures
        find_from(text, marker, from) == Some(at),
    decreases at - from,
{
    if from < at {
        assert(!occurs_at(text, marker, from as int));
        lemma_find_first(text, marker, from + 1, at);
    }
}

/// A search that finds something finds the first place; one that finds nothing
/// has seen every place.
pub proof fn lemma_find_result(text: Seq<char>, marker: Seq<char>, from: nat)
    ensures
        match find_from(text, marker, from) {
            Some(at) => from <= at && occurs_at(text, marker, at as int) && forall|j: int|
                from <= j < at ==> !occurs_at(text, marker, j),
            None => forall|j: int| from <= j ==> !occurs_at(text, marker, j),
        },
    decreases text.len() - from,
{
    if from + marker.len() <= text.len() && !occurs_at(text, marker, from as int) && from
        < text.len() {
        lemma_find_result(text, marker, from + 1);
    }
}

/// `marker` stands in `text` exactly where a search from the start finds it.
pub proof fn lemma_contains_find(text: Seq<char>, marker: Seq<char>)
    ensures
        contains(text, marker) <==> find_from(text, marker, 0) is Some,
{
    lemma_find_result(text, marker, 0);
}

/// Whether `marker` stands anywhere in `text`.
pub fn has_marker(text: &Vec<char>, marker: &Vec<char>) -> (found: bool)
    ensures
        found == contains(text@, marker@),
{
    proof {
        lemma_contains_find(text@, marker@);
    }
    find_marker(text, marker, 0).is_some()
}

/// Whether `text` begins with `prefix`.
pub fn begins_with(text: &str, prefix: &str) -> (found: bool)
    ensures
        found == starts_with(text@, prefix@),
{
    let chars = chars_of(text);
    let marker = chars_of(prefix);
    stands_at(&chars, &marker, 0)
}

// ---------------------------------------------------------------------------
// Decimal numbers
// ---------------------------------------------------------------------------

/// A longer run of digits denotes no smaller number.
proof fn lemma_digits_value_grows(s: Seq<char>, k: int)
    requires
        0 <= k <= s.len(),
    ensures
        digits_value(s.take(k)) <= digits_value(s),
    decreases s.len(),
{
    if k < s.len() {
        assert(s.drop_last().take(k) =~= s.take(k));
        lemma_digits_value_grows(s.drop_last(), k);
    } else {
        assert(s.take(k) =~= s);
    }
}

/// Reads `chars[from..to]` as an unsigned decimal number no larger than `max`.
pub fn read_unsigned(chars: &Vec<char>, from: usize, to: usize, max: u64) -> (number: Option<u64>)
    requires
        from <= to <= chars.len(),
    ensures
        match number {
            Some(n) => parse_unsigned(chars@.subrange(from as int, to as int), max as nat) == Some(
                n as nat,
            ),
            None => parse_unsigned(chars@.subrange(from as int, to as int), max as nat) is None,
        },
{
    let ghost whole = chars@.subrange(from as int, to as int);
    let start: usize = if from < to && chars[from] == '+' {
        from + 1
    } else {
        from
    };
    let ghost body = chars@.subrange(start as int, to as int);
    proof {
        if start == from {
            assert(body == whole);
        } else {
            assert(body =~= whole.drop_first());
        }
    }
    if start == to {
        return None;
    }
    let mut value: u64 = 0;
    let mut i: usize = start;
    while i < to
        invariant
            start <= i <= to <= chars.len(),
            start < to,
            body == chars@.subrange(start as int, to as int),
            all_digits(body.take(i - start)),
            value == digits_value(body.take(i - start)),
            value <= max,
            body == (if whole.len() > 0 && whole[0] == '+' {
                whole.drop_first()
            } else {
                whole
            }),
            whole == chars@.subrange(from as int, to as int),
        decreases to - i,
    {
        let c: char = chars[i];
        let ghost next = body.take(i + 1 - start);
        assert(next.drop_last() =~= body.take(i - start));
        assert(next.last() == c);
        assert(body[i - start] == c);
        if c < '0' || c > '9' {
            return None;
        }
        let digit: u64 = c as u64 - 48;
        assert(digit == digit_value(c));
        let larger: u128 = value as u128 * 10 + digit as u128;
        assert(digits_value(next) == larger);
        if larger > max as u128 {
            proof {
                lemma_digits_value_grows(body, i + 1 - start);
            }
            return None;
        }
        value = larger as u64;
        i = i + 1;
    }
    assert(body.take(to - start) =~= body);
    Some(value)
}

/// Reads `chars[from..to]` as a signed decimal number.
pub fn read_signed(chars: &Vec<char>, from: usize, to: usize) -> (number: Option<i32>)
    requires
        from <= to <= chars.len(),
    ensures
        match number {
            Some(n) => parse_signed(chars@.subrange(from as int, to as int)) == Some(n as int),
            None => parse_signed(chars@.subrange(from as int, to as int)) is None,
        },
{
    let ghost whole = chars@.subrange(from as int, to as int);
    if from < to && chars[from] == '-' {
        let ghost body = chars@.subrange(from + 1, to as int);
        assert(body =~= whole.drop_first());
        if from + 1 < to && chars[from + 1] == '+' {
            assert(body[0] == '+');
            return None;
        }
        match read_unsigned(chars, from + 1, to, 0x8000_0000) {
            Some(n) => Some((0i64 - n as i64) as i32),
            None => None,
        }
    } else {
        match read_unsigned(chars, from, to, 0x7fff_ffff) {
            Some(n) => Some(n as i32),
            None => None,
        }
    }
}

/// The decimal notation of a number is read back as that number.
pub proof fn lemma_decimal_reads_back(n: nat, max: nat)
    requires
        n <= max,
    ensures
        parse_unsigned(decimal(n), max) == Some(n),
{
    lemma_decimal_digits(n);
}

/// The decimal notation is a run of digits that denotes the number.
pub proof fn lemma_decimal_digits(n: nat)
    ensures
        decimal(n).len() > 0,
        all_digits(decimal(n)),
        digits_value(decimal(n)) == n,
    decreases n,
{
    if n < 10 {
        let s = decimal(n);
        assert(s.drop_last() =~= seq![]);
        assert(digits_value(s.drop_last()) == 0);
    } else {
        lemma_decimal_digits(n / 10);
        let s = decimal(n);
        assert(s.drop_last() =~= decimal(n / 10));
        assert(s.last() == digit_char(n % 10));
        assert(n == (n / 10) * 10 + n % 10);
    }
}

// ---------------------------------------------------------------------------
// Splitting
// ---------------------------------------------------------------------------

/// A search for a character ends at or after its start, where the character
/// stands, or at the end.
pub proof fn lemma_index_of(s: Seq<char>, c: char, from: nat)
    requires
        from <= s.len(),
    ensures
        from <= index_of(s, c, from) <= s.len(),
        index_of(s, c, from) < s.len() ==> s[index_of(s, c, from) as int] == c,
        forall|i: int| from <= i < index_of(s, c, from) ==> s[i] != c,
    decreases s.len() - from,
{
    if from < s.len() && s[from as int] != c {
        lemma_index_of(s, c, from + 1);
    }
}

pub proof fn lemma_skip_run(s: Seq<char>, spaces: bool, from: nat)
    requires
        from <= s.len(),
    ensures
        from <= skip_run(s, spaces, from) <= s.len(),
        skip_run(s, spaces, from) < s.len() ==> is_space(s[skip_run(s, spaces, from) as int])
            != spaces,
        forall|i: int| from <= i < skip_run(s, spaces, from) ==> is_space(s[i]) == spaces,
    decreases s.len() - from,
{
    if from < s.len() && is_space(s[from as int]) == spaces {
        lemma_skip_run(s, spaces, from + 1);
    }
}

/// The first position at or after `from` that holds `c`, or the end.
pub fn find_char(chars: &Vec<char>, c: char, from: usize) -> (at: usize)
    requires
        from <= chars.len(),
    ensures
        at == index_of(chars@, c, from as nat),
        from <= at <= chars.len(),
        at < chars.len() ==> chars@[at as int] == c,
{
    proof {
        lemma_index_of(chars@, c, from as nat);
    }
    let mut i: usize = from;
    while i < chars.len()
        invariant
            from <= i <= chars.len(),
            index_of(chars@, c, from as nat) == index_of(chars@, c, i as nat),
        decreases chars.len() - i,
    {
        if chars[i] == c {
            return i;
        }
        i = i + 1;
    }
    i
}

/// Whether `c` has the Unicode property White_Space.
pub fn is_whitespace(c: char) -> (yes: bool)
    ensures
        yes == is_space(c),
{
    (c >= '\u{9}' && c <= '\u{d}') || c == ' ' || c == '\u{85}' || c == '\u{a0}' || c == '\u{1680}'
        || (c >= '\u{2000}' && c <= '\u{200a}') || c == '\u{2028}' || c == '\u{2029}' || c
        == '\u{202f}' || c == '\u{205f}' || c == '\u{3000}'
}

/// The end of the run of white space (or of other characters) at `from`.
pub fn run_end(chars: &Vec<char>, spaces: bool, from: usize) -> (at: usize)
    requires
        from <= chars.len(),
    ensures
        at == skip_run(chars@, spaces, from as nat),
        from <= at <= chars.len(),
{
    proof {
        lemma_skip_run(chars@, spaces, from as nat);
    }
    let mut i: usize = from;
    while i < chars.len()
        invariant
            from <= i <= chars.len(),
            skip_run(chars@, spaces, from as nat) == skip_run(chars@, spaces, i as nat),
        decreases chars.len() - i,
    {
        if is_whitespace(chars[i]) != spaces {
            return i;
        }
        i = i + 1;
    }
    i
}

/// The text without leading and trailing white space.
pub fn trimmed(text: &str) -> (out: String)
    ensures
        out@ == trim(text@),
{
    let chars = chars_of(text);
    let start: usize = run_end(&chars, true, 0);
    let ghost tail = chars@.skip(start as int);
    let mut end: usize = chars.len();
    assert(chars@.subrange(start as int, end as int) =~= tail);
    while end > start && is_whitespace(chars[end - 1])
        invariant
            start <= end <= chars.len(),
            trim_end(chars@.subrange(start as int, end as int)) == trim_end(tail),
        decreases end,
    {
        assert(chars@.subrange(start as int, end as int).drop_last() =~= chars@.subrange(
            start as int,
            end - 1,
        ));
        end = end - 1;
    }
    string_of(&chars, start, end)
}

/// The lines of `text`.
pub fn split_lines(text: &str) -> (lines: Vec<String>)
    ensures
        views(lines@) == lines_from(text@, 0),
{
    let chars = chars_of(text);
    let mut lines: Vec<String> = Vec::new();
    let mut from: usize = 0;
    assert(views(lines@) + lines_from(chars@, 0) =~= lines_from(chars@, 0));
    while from < chars.len()
        invariant
            chars@ == text@,
            from <= chars.len(),
            views(lines@) + lines_from(chars@, from as nat) == lines_from(chars@, 0),
        decreases chars.len() - from,
    {
        let ghost before = lines@;
        let end: usize = find_char(&chars, '\n', from);
        if end == chars.len() {
            lines.push(string_of(&chars, from, end));
            proof {
                assert(chars@.subrange(from as int, end as int) =~= chars@.skip(from as int));
                assert(views(lines@) =~= views(before) + seq![chars@.skip(from as int)]);
                assert(views(lines@) =~= lines_from(chars@, 0));
            }
            return lines;
        }
        let stop: usize = if end > from && chars[end - 1] == '\r' {
            end - 1
        } else {
            end
        };
        lines.push(string_of(&chars, from, stop));
        proof {
            let line = chars@.subrange(from as int, end as int);
            if stop < end {
                assert(chars@.subrange(from as int, stop as int) =~= line.drop_last());
            }
            assert(views(lines@) =~= views(before) + seq![without_return(line)]);
            assert(views(before) + (seq![without_return(line)] + lines_from(
                chars@,
                (end + 1) as nat,
            )) =~= views(lines@) + lines_from(chars@, (end + 1) as nat));
        }
        from = end + 1;
    }
    assert(views(lines@) =~= views(lines@) + lines_from(chars@, from as nat));
    lines
}

/// The words of `text`.
pub fn split_words(text: &str) -> (words: Vec<String>)
    ensures
        views(words@) == words_from(text@, 0),
{
    let chars = chars_of(text);
    let mut words: Vec<String> = Vec::new();
    let mut from: usize = 0;
    assert(views(words@) + words_from(chars@, 0) =~= words_from(chars@, 0));
    while from < chars.len()
        invariant
            chars@ == text@,
            from <= chars.len(),
            views(words@) + words_from(chars@, from as nat) == words_from(chars@, 0),
        decreases chars.len() - from,
    {
        let ghost before = words@;
        let start: usize = run_end(&chars, true, from);
        if start == chars.len() {
            assert(views(words@) =~= views(words@) + words_from(chars@, from as nat));
            return words;
        }
        let end: usize = run_end(&chars, false, start);
        proof {
            lemma_skip_run(chars@, true, from as nat);
            lemma_skip_run(chars@, false, start as nat);
        }
        words.push(string_of(&chars, start, end));
        proof {
            let word = chars@.subrange(start as int, end as int);
            assert(views(words@) =~= views(before) + seq![word]);
            assert(views(before) + (seq![word] + words_from(chars@, end as nat)) =~= views(words@)
                + words_from(chars@, end as nat));
        }
        from = end;
    }
    assert(words_from(chars@, from as nat) =~= seq![]);
    assert(views(words@) =~= views(words@) + words_from(chars@, from as nat));
    words
}

/// What stands before and after the first `c` in `text`.
pub fn cut_once(text: &str, c: char) -> (parts: Option<(String, String)>)
    ensures
        match parts {
            Some((head, tail)) => split_once(text@, c) == Some((head@, tail@)),
            None => split_once(text@, c) is None,
        },
{
    let chars = chars_of(text);
    let at: usize = find_char(&chars, c, 0);
    if at == chars.len() {
        return None;
    }
    let head = string_of(&chars, 0, at);
    let tail = string_of(&chars, at + 1, chars.len());
    assert(head@ =~= text@.take(at as int));
    assert(tail@ =~= text@.skip(at + 1));
    Some((head, tail))
}

/// What follows `prefix` in `text`, if it begins with it.
pub fn after_prefix(text: &str, prefix: &str) -> (rest: Option<String>)
    ensures
        match rest {
            Some(tail) => starts_with(text@, prefix@) && tail@ == text@.skip(prefix@.len() as int),
            None => !starts_with(text@, prefix@),
        },
{
    let chars = chars_of(text);
    let marker = chars_of(prefix);
    if !stands_at(&chars, &marker, 0) {
        return None;
    }
    let tail = string_of(&chars, marker.len(), chars.len());
    assert(tail@ =~= text@.skip(prefix@.len() as int));
    Some(tail)
}

} // verus!
