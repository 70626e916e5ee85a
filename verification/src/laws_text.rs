//! What the text functions promise: numbers that are read back, cuts that lose
//! nothing, and words and lines that stand where the text has them.
//!
//! Each law speaks of what a function may answer.

use vstd::prelude::*;

use crate::text::{
    after_prefix, begins_with, byte_len, chars_of, cut_once, cut_to, find_char, find_marker,
    has_marker, is_whitespace, push_decimal, read_signed, read_unsigned, run_end, same, same_chars,
    split_lines, split_words, stands_at, string_of, trimmed,
};

verus! {

// ---------------------------------------------------------------------------
// Numbers
// ---------------------------------------------------------------------------

/// The number that a digit stands for.
pub open spec fn digit_of(c: char) -> int {
    c as int - 48
}

pub open spec fn is_decimal(s: Seq<char>) -> bool {
    s.len() > 0 && forall|i: int| 0 <= i < s.len() ==> 0 <= digit_of(#[trigger] s[i]) <= 9
}

proof fn lemma_digits(s: Seq<char>)
    ensures
        crate::text::all_digits(s) && s.len() > 0 <==> is_decimal(s),
{
    if is_decimal(s) {
        assert forall|i: int| 0 <= i < s.len() implies crate::text::is_digit(#[trigger] s[i]) by {
            assert(0 <= digit_of(s[i]) <= 9);
        }
    }
    if crate::text::all_digits(s) {
        assert forall|i: int| 0 <= i < s.len() implies 0 <= digit_of(#[trigger] s[i]) <= 9 by {
            assert(crate::text::is_digit(s[i]));
        }
    }
}

/// The notation that is appended to a text is made of digits, begins with a
/// zero for zero alone, and is read back as the number.
pub proof fn law_number_is_read_back(
    out: &mut String,
    n: u128,
    chars: &Vec<char>,
    max: u64,
    number: Option<u64>,
)
    requires
        call_ensures(push_decimal, (out, n), ()),
        chars@ == final(out)@.skip(out@.len() as int),
        n <= max,
        call_ensures(read_unsigned, (chars, 0, chars@.len() as usize, max), number),
    ensures
        final(out)@.len() > old(out)@.len(),
        final(out)@.take(old(out)@.len() as int) == old(out)@,
        is_decimal(chars@),
        digit_of(chars@[0]) == 0 <==> n == 0,
        number == Some(n as u64),
{
    let notation = crate::text::decimal(n as nat);
    assert(final(out)@ == out@ + notation);
    assert(chars@ =~= notation);
    crate::text::lemma_decimal_digits(n as nat);
    lemma_digits(notation);
    lemma_no_leading_zero(n as nat);
    assert(chars.len() == chars@.len());
    assert(chars@.subrange(0, chars@.len() as int) =~= notation);
    crate::text::lemma_decimal_reads_back(n as nat, max as nat);
    assert(notation[0] != '+') by {
        assert(0 <= digit_of(notation[0]) <= 9);
    }
}

proof fn lemma_no_leading_zero(n: nat)
    ensures
        crate::text::decimal(n).len() > 0,
        digit_of(crate::text::decimal(n)[0]) == 0 <==> n == 0,
    decreases n,
{
    if n >= 10 {
        lemma_no_leading_zero(n / 10);
    }
}

/// One more digit makes ten times the number and the digit; a text without a
/// digit, or with anything else after its sign, is no number; and neither is
/// one that exceeds the bound.
pub proof fn law_digits_count_by_tens(
    chars: &Vec<char>,
    longer: &Vec<char>,
    digit: char,
    max: u64,
    number: Option<u64>,
    larger: Option<u64>,
)
    requires
        is_decimal(chars@),
        longer@ == chars@.push(digit),
        call_ensures(read_unsigned, (chars, 0, chars@.len() as usize, u64::MAX), number),
        call_ensures(read_unsigned, (longer, 0, longer@.len() as usize, max), larger),
        number is Some,
    ensures
        larger matches Some(value) ==> 0 <= digit_of(digit) <= 9 && value == number->0 * 10
            + digit_of(digit) && value <= max,
        larger is None ==> !(0 <= digit_of(digit) <= 9) || number->0 * 10 + digit_of(digit) > max,
        chars@.len() == 1 ==> number->0 == digit_of(chars@[0]),
{
    lemma_digits(chars@);
    lemma_digits(longer@);
    assert(chars.len() == chars@.len() && longer.len() == longer@.len());
    assert(chars@.subrange(0, chars@.len() as int) =~= chars@);
    assert(longer@.subrange(0, longer@.len() as int) =~= longer@);
    assert(0 <= digit_of(chars@[0]) <= 9);
    assert(longer@[0] == chars@[0]);
    assert(longer@.drop_last() =~= chars@);
    assert(longer@.last() == digit);
    if 0 <= digit_of(digit) <= 9 {
        assert forall|i: int| 0 <= i < longer@.len() implies 0 <= digit_of(#[trigger] longer@[i])
            <= 9 by {
            if i < chars@.len() {
                assert(longer@[i] == chars@[i]);
            }
        }
    } else {
        assert(longer@[chars@.len() as int] == digit);
        if is_decimal(longer@) {
            assert(0 <= digit_of(longer@[chars@.len() as int]) <= 9);
        }
    }
    if chars@.len() == 1 {
        assert(chars@.drop_last() =~= Seq::empty());
        assert(crate::text::digits_value(Seq::empty()) == 0);
    }
}

/// What is read is a number in digits, after a plus sign or none.
pub proof fn law_only_digits_are_read(
    chars: &Vec<char>,
    max: u64,
    number: Option<u64>,
    signed: Option<i32>,
)
    requires
        call_ensures(read_unsigned, (chars, 0, chars@.len() as usize, max), number),
        call_ensures(read_signed, (chars, 0, chars@.len() as usize), signed),
    ensures
        number is Some ==> number->0 <= max && (is_decimal(chars@) || (chars@[0] == '+'
            && is_decimal(chars@.skip(1)))),
        signed is Some ==> is_decimal(chars@) || ((chars@[0] == '+' || chars@[0] == '-')
            && is_decimal(chars@.skip(1))),
        signed is Some && signed->0 < 0 ==> chars@[0] == '-',
        signed is Some && chars@[0] == '-' ==> signed->0 <= 0,
{
    assert(chars.len() == chars@.len());
    assert(chars@.subrange(0, chars@.len() as int) =~= chars@);
    if chars@.len() > 0 {
        assert(chars@.drop_first() =~= chars@.skip(1));
    }
    lemma_digits(chars@);
    lemma_digits(chars@.skip(1));
}

/// A minus sign makes the number negative, and nothing else does.
pub proof fn law_sign_is_read(
    chars: &Vec<char>,
    negative: &Vec<char>,
    number: Option<u64>,
    plain: Option<i32>,
    signed: Option<i32>,
)
    requires
        is_decimal(chars@),
        negative@ == seq!['-'] + chars@,
        call_ensures(read_unsigned, (chars, 0, chars@.len() as usize, u64::MAX), number),
        call_ensures(read_signed, (chars, 0, chars@.len() as usize), plain),
        call_ensures(read_signed, (negative, 0, negative@.len() as usize), signed),
    ensures
        number is Some && number->0 <= 2147483647 ==> plain is Some && plain->0 == number->0,
        number is Some && number->0 <= 2147483648 ==> signed is Some && signed->0 == -number->0,
        number is None || number->0 > 2147483647 ==> plain is None,
        number is None || number->0 > 2147483648 ==> signed is None,
{
    assert(chars.len() == chars@.len() && negative.len() == negative@.len());
    assert(chars@.subrange(0, chars@.len() as int) =~= chars@);
    assert(negative@.subrange(0, negative@.len() as int) =~= negative@);
    assert(negative@[0] == '-');
    assert(negative@.drop_first() =~= chars@);
    assert(0 <= digit_of(chars@[0]) <= 9);
    lemma_digits(chars@);
}

// ---------------------------------------------------------------------------
// Cutting
// ---------------------------------------------------------------------------

/// A cut at a character loses nothing but that character, and is made at the
/// first.
pub proof fn law_cut_is_at_the_first(text: &str, c: char, parts: Option<(String, String)>)
    requires
        call_ensures(cut_once, (text, c), parts),
    ensures
        parts matches Some((head, tail)) ==> text@ == head@ + seq![c] + tail@ && !head@.contains(c),
        parts is None <==> !text@.contains(c),
{
    crate::text::lemma_index_of(text@, c, 0);
    let at = crate::text::index_of(text@, c, 0) as int;
    if at < text@.len() {
        assert(text@[at] == c);
        assert(text@ =~= text@.take(at) + seq![c] + text@.skip(at + 1));
        let head = text@.take(at);
        if head.contains(c) {
            let i = choose|i: int| 0 <= i < head.len() && head[i] == c;
            assert(text@[i] == c);
        }
    } else if text@.contains(c) {
        let i = choose|i: int| 0 <= i < text@.len() && text@[i] == c;
        assert(text@[i] != c);
    }
}

/// What follows a prefix is the rest of the text, and there is a rest exactly
/// where the text begins so.
pub proof fn law_rest_follows_the_prefix(
    text: &str,
    prefix: &str,
    rest: Option<String>,
    begins: bool,
)
    requires
        call_ensures(after_prefix, (text, prefix), rest),
        call_ensures(begins_with, (text, prefix), begins),
    ensures
        rest matches Some(tail) ==> text@ == prefix@ + tail@,
        rest is Some <==> begins,
        begins <==> prefix@.len() <= text@.len() && forall|i: int|
            0 <= i < prefix@.len() ==> #[trigger] text@[i] == prefix@[i],
{
    let n = prefix@.len() as int;
    if n <= text@.len() {
        let head = text@.subrange(0, n);
        if begins {
            assert(head == prefix@);
            assert(text@ =~= prefix@ + text@.skip(n));
            assert forall|i: int| 0 <= i < n implies #[trigger] text@[i] == prefix@[i] by {
                assert(head[i] == text@[i]);
            }
        } else if forall|i: int| 0 <= i < n ==> #[trigger] text@[i] == prefix@[i] {
            assert(head =~= prefix@);
        }
    }
}

/// A marker is found at the first place at or after the start where it stands,
/// and is in the text exactly when it stands somewhere.
pub proof fn law_marker_is_found_first(
    text: &Vec<char>,
    marker: &Vec<char>,
    from: usize,
    found: Option<usize>,
    has: bool,
)
    requires
        from <= text@.len(),
        call_ensures(find_marker, (text, marker, from), found),
        call_ensures(has_marker, (text, marker), has),
    ensures
        found matches Some(at) ==> from <= at && at + marker@.len() <= text@.len()
            && text@.subrange(at as int, at + marker@.len()) == marker@,
        found matches Some(at) ==> forall|i: int|
            from <= i < at ==> #[trigger] text@.subrange(i, i + marker@.len()) != marker@,
        found is None ==> forall|i: int|
            from <= i && i + marker@.len() <= text@.len() ==> #[trigger] text@.subrange(
                i,
                i + marker@.len(),
            ) != marker@,
        has <==> exists|i: int|
            0 <= i && i + marker@.len() <= text@.len() && #[trigger] text@.subrange(
                i,
                i + marker@.len(),
            ) == marker@,
{
    lemma_find(text@, marker@, from as nat);
    if has {
        let at = choose|at: int| crate::text::occurs_at(text@, marker@, at);
        assert(text@.subrange(at, at + marker@.len()) == marker@);
    }
    if exists|i: int|
        0 <= i && i + marker@.len() <= text@.len() && #[trigger] text@.subrange(
            i,
            i + marker@.len(),
        ) == marker@ {
        let i = choose|i: int|
            0 <= i && i + marker@.len() <= text@.len() && #[trigger] text@.subrange(
                i,
                i + marker@.len(),
            ) == marker@;
        assert(crate::text::occurs_at(text@, marker@, i));
    }
}

proof fn lemma_find(text: Seq<char>, marker: Seq<char>, from: nat)
    requires
        from <= text.len(),
    ensures
        match crate::text::find_from(text, marker, from) {
            Some(at) => from <= at && at + marker.len() <= text.len() && text.subrange(
                at as int,
                (at + marker.len()) as int,
            ) == marker && forall|i: int|
                from <= i < at ==> #[trigger] text.subrange(i, i + marker.len()) != marker,
            None => forall|i: int|
                from <= i && i + marker.len() <= text.len() ==> #[trigger] text.subrange(
                    i,
                    i + marker.len(),
                ) != marker,
        },
    decreases text.len() - from,
{
    if from + marker.len() <= text.len() && !crate::text::occurs_at(text, marker, from as int)
        && from < text.len() {
        lemma_find(text, marker, from + 1);
    }
}

/// A text cut to a number of bytes is the longest beginning that fits.
pub proof fn law_cut_text_is_the_longest_that_fits(
    chars: &Vec<char>,
    max: usize,
    kept: String,
    whole: &str,
    size: usize,
)
    requires
        call_ensures(cut_to, (chars, max), kept),
        whole@ == chars@,
        call_ensures(byte_len, (whole,), size),
    ensures
        size == vstd::utf8::encode_utf8(chars@).len(),
        kept@.len() <= chars@.len() && kept@ == chars@.take(kept@.len() as int),
        vstd::utf8::encode_utf8(kept@).len() <= max,
        kept@.len() < chars@.len() ==> vstd::utf8::encode_utf8(
            chars@.take(kept@.len() as int + 1),
        ).len() > max,
        size <= max ==> kept@ == chars@,
{
    lemma_longest(chars@, max as nat);
}

proof fn lemma_longest(s: Seq<char>, max: nat)
    ensures
        ({
            let kept = crate::text::cut(s, max);
            &&& kept.len() <= s.len() && kept == s.take(kept.len() as int)
            &&& vstd::utf8::encode_utf8(kept).len() <= max
            &&& kept.len() < s.len() ==> vstd::utf8::encode_utf8(
                s.take(kept.len() as int + 1),
            ).len() > max
        }),
    decreases s.len(),
{
    let kept = crate::text::cut(s, max);
    if s.len() == 0 {
        assert(vstd::utf8::encode_utf8(s).len() == 0);
        assert(kept =~= s.take(0));
    } else if crate::text::byte_count(s) <= max {
        assert(s.take(s.len() as int) =~= s);
    } else {
        let shorter = s.drop_last();
        lemma_longest(shorter, max);
        assert(shorter.take(kept.len() as int) =~= s.take(kept.len() as int));
        if kept.len() < shorter.len() {
            assert(shorter.take(kept.len() as int + 1) =~= s.take(kept.len() as int + 1));
        } else {
            assert(s.take(kept.len() as int + 1) =~= s);
        }
    }
}

/// Two texts are the same exactly if they have the same characters.
pub proof fn law_same_texts_have_the_same_characters(a: &str, b: &str, equal: bool)
    requires
        call_ensures(same, (a, b), equal),
    ensures
        equal <==> a@.len() == b@.len() && forall|i: int|
            0 <= i < a@.len() ==> #[trigger] a@[i] == b@[i],
{
    if a@.len() == b@.len() && forall|i: int| 0 <= i < a@.len() ==> #[trigger] a@[i] == b@[i] {
        assert(a@ =~= b@);
    }
}

// ---------------------------------------------------------------------------
// White space
// ---------------------------------------------------------------------------

/// White space is what Unicode calls so: a blank and the breaks among the
/// control characters, and nothing else in ASCII.
pub proof fn law_white_space(c: char, yes: bool)
    requires
        call_ensures(is_whitespace, (c,), yes),
    ensures
        (c as int) < 128 ==> yes == (c as int == 32 || 9 <= c as int <= 13),
        c as int >= 128 ==> yes == (c as int == 0x85 || c as int == 0xa0 || c as int == 0x1680
            || 0x2000 <= c as int <= 0x200a || c as int == 0x2028 || c as int == 0x2029 || c as int
            == 0x202f || c as int == 0x205f || c as int == 0x3000),
{
}

/// What is left of a trimmed text stands in it with white space around, and
/// neither begins nor ends with any.
pub proof fn law_trimming_takes_white_space_alone(text: &str, out: String)
    requires
        call_ensures(trimmed, (text,), out),
    ensures
        exists|from: int| #[trigger] stands_clear(text@, out@, from),
        out@.len() > 0 ==> !crate::text::is_space(out@[0]) && !crate::text::is_space(out@.last()),
{
    let from = crate::text::skip_run(text@, true, 0) as int;
    crate::text::lemma_skip_run(text@, true, 0);
    let rest = text@.skip(from);
    lemma_trim_end(rest);
    let kept = crate::text::trim_end(rest);
    assert forall|i: int| from + kept.len() <= i < text@.len() implies crate::text::is_space(
        #[trigger] text@[i],
    ) by {
        assert(rest[i - from] == text@[i]);
    }
    assert(out@ =~= text@.subrange(from, from + out@.len()));
    assert(stands_clear(text@, out@, from));
    if kept.len() > 0 {
        assert(kept[0] == rest[0]);
        assert(rest[0] == text@[from]);
    }
}

/// `part` stands in `text` at `from`, with nothing but white space around.
pub open spec fn stands_clear(text: Seq<char>, part: Seq<char>, from: int) -> bool {
    &&& 0 <= from && from + part.len() <= text.len()
    &&& text.subrange(from, from + part.len()) == part
    &&& forall|i: int| 0 <= i < from ==> crate::text::is_space(#[trigger] text[i])
    &&& forall|i: int|
        from + part.len() <= i < text.len() ==> crate::text::is_space(#[trigger] text[i])
}

proof fn lemma_trim_end(s: Seq<char>)
    ensures
        ({
            let kept = crate::text::trim_end(s);
            &&& kept.len() <= s.len() && kept == s.take(kept.len() as int)
            &&& kept.len() > 0 ==> !crate::text::is_space(kept.last())
            &&& forall|i: int|
                kept.len() <= i < s.len() ==> crate::text::is_space(#[trigger] s[i])
        }),
    decreases s.len(),
{
    let kept = crate::text::trim_end(s);
    if s.len() > 0 && crate::text::is_space(s.last()) {
        let shorter = s.drop_last();
        lemma_trim_end(shorter);
        assert(kept =~= s.take(kept.len() as int));
        assert forall|i: int| kept.len() <= i < s.len() implies crate::text::is_space(
            #[trigger] s[i],
        ) by {
            if i < shorter.len() {
                assert(shorter[i] == s[i]);
            }
        }
    } else {
        assert(s.take(s.len() as int) =~= s);
    }
}

// ---------------------------------------------------------------------------
// Words and lines
// ---------------------------------------------------------------------------

/// The characters of each string.
pub open spec fn texts_of(strings: Seq<String>) -> Seq<Seq<char>> {
    Seq::new(strings.len(), |i: int| strings[i]@)
}

/// The words stand in the text from `from` on at these places, in order, apart
/// from each other, with nothing but white space around and none within.
pub open spec fn words_stand(
    text: Seq<char>,
    from: int,
    words: Seq<Seq<char>>,
    places: Seq<int>,
) -> bool {
    &&& places.len() == words.len()
    &&& forall|k: int|
        0 <= k < words.len() ==> from <= #[trigger] places[k] && words[k].len() > 0 && places[k]
            + words[k].len() <= text.len() && text.subrange(
            places[k],
            places[k] + words[k].len(),
        ) == words[k]
    &&& forall|k: int|
        0 <= k < words.len() - 1 ==> (#[trigger] places[k]) + words[k].len() < places[k + 1]
    &&& forall|k: int, i: int|
        0 <= k < words.len() && 0 <= i < words[k].len() ==> !crate::text::is_space(
            #[trigger] words[k][i],
        )
    &&& forall|i: int|
        from <= i < text.len() && !crate::text::is_space(#[trigger] text[i]) ==> in_a_word(
            words,
            places,
            i,
        )
}

/// The position is within one of the words.
pub open spec fn in_a_word(words: Seq<Seq<char>>, places: Seq<int>, i: int) -> bool {
    exists|k: int| 0 <= k < words.len() && #[trigger] places[k] <= i < places[k] + words[k].len()
}

/// The words of a text are its runs of anything but white space, in order.
pub proof fn law_words_stand_in_the_text(text: &str, words: Vec<String>)
    requires
        call_ensures(split_words, (text,), words),
    ensures
        exists|places: Seq<int>| #[trigger]
            words_stand(text@, 0, texts_of(words@), places),
{
    lemma_words(text@, 0);
    assert(texts_of(words@) =~= crate::text::views(words@));
}

proof fn lemma_words(text: Seq<char>, from: nat)
    requires
        from <= text.len(),
    ensures
        exists|places: Seq<int>| #[trigger]
            words_stand(text, from as int, crate::text::words_from(text, from), places),
    decreases text.len() - from,
{
    let words = crate::text::words_from(text, from);
    let start = crate::text::skip_run(text, true, from);
    crate::text::lemma_skip_run(text, true, from);
    if start >= text.len() {
        assert(words_stand(text, from as int, words, Seq::empty()));
    } else {
        let end = crate::text::skip_run(text, false, start);
        crate::text::lemma_skip_run(text, false, start);
        assert(start < end) by {
            if end == start {
                assert(crate::text::is_space(text[start as int]));
            }
        }
        lemma_words(text, end);
        let later = crate::text::words_from(text, end);
        let after = choose|after: Seq<int>| #[trigger]
            words_stand(text, end as int, later, after);
        let word = text.subrange(start as int, end as int);
        assert(words == seq![word] + later);
        let places = seq![start as int] + after;
        assert forall|k: int| 0 <= k < words.len() implies from <= #[trigger] places[k]
            && words[k].len() > 0 && places[k] + words[k].len() <= text.len() && text.subrange(
            places[k],
            places[k] + words[k].len(),
        ) == words[k] by {
            if k > 0 {
                assert(places[k] == after[k - 1] && words[k] == later[k - 1]);
            }
        }
        assert forall|k: int| 0 <= k < words.len() - 1 implies (#[trigger] places[k])
            + words[k].len() < places[k + 1] by {
            assert(places[k + 1] == after[k] && words[k + 1] == later[k]);
            if k > 0 {
                assert(places[k] == after[k - 1] && words[k] == later[k - 1]);
            } else {
                assert(after[0] >= end);
                assert(!crate::text::is_space(later[0][0]));
                assert(later[0][0] == text[after[0]]);
            }
        }
        assert forall|k: int, i: int|
            0 <= k < words.len() && 0 <= i < words[k].len() implies !crate::text::is_space(
            #[trigger] words[k][i],
        ) by {
            if k > 0 {
                assert(words[k] == later[k - 1]);
                assert(!crate::text::is_space(later[k - 1][i]));
            } else {
                assert(words[0][i] == text[start + i]);
            }
        }
        assert forall|i: int|
            from <= i < text.len() && !crate::text::is_space(#[trigger] text[i]) implies in_a_word(
            words,
            places,
            i,
        ) by {
            if i < end {
                assert(places[0] == start && words[0] == word);
                assert(start <= i);
            } else {
                assert(in_a_word(later, after, i));
                let k = choose|k: int|
                    0 <= k < later.len() && #[trigger] after[k] <= i < after[k] + later[k].len();
                assert(places[k + 1] == after[k] && words[k + 1] == later[k]);
            }
        }
        assert(words_stand(text, from as int, words, places));
    }
}

/// Line `k` begins at `places[k]`; it ends before the next line feed, without a
/// carriage return before that, or at the end of the text.
pub open spec fn line_stands(text: Seq<char>, line: Seq<char>, place: int, next: int) -> bool {
    ||| {
        &&& next <= text.len() && place < next && text[next - 1] == '\n'
        &&& !text.subrange(place, next - 1).contains('\n')
        &&& if next - 1 > place && text[next - 2] == '\r' {
            line == text.subrange(place, next - 2)
        } else {
            line == text.subrange(place, next - 1)
        }
    }
    ||| {
        &&& next == text.len() + 1 && place < text.len()
        &&& line == text.skip(place) && !line.contains('\n')
    }
}

/// The lines stand in the text from `from` on, each where the one before ends,
/// to the end of the text.
pub open spec fn lines_stand(
    text: Seq<char>,
    from: int,
    lines: Seq<Seq<char>>,
    places: Seq<int>,
) -> bool {
    &&& places.len() == lines.len() + 1
    &&& places[0] == from
    &&& places.last() >= text.len()
    &&& forall|k: int|
        0 <= k < lines.len() ==> line_stands(text, lines[k], #[trigger] places[k], places[k + 1])
}

/// The lines of a text are what stands between its line feeds, in order.
pub proof fn law_lines_stand_in_the_text(text: &str, lines: Vec<String>)
    requires
        call_ensures(split_lines, (text,), lines),
    ensures
        exists|places: Seq<int>| #[trigger]
            lines_stand(text@, 0, texts_of(lines@), places),
{
    lemma_lines(text@, 0);
    assert(texts_of(lines@) =~= crate::text::views(lines@));
}

proof fn lemma_lines(text: Seq<char>, from: nat)
    requires
        from <= text.len(),
    ensures
        exists|places: Seq<int>| #[trigger]
            lines_stand(text, from as int, crate::text::lines_from(text, from), places),
    decreases text.len() - from,
{
    let lines = crate::text::lines_from(text, from);
    if from >= text.len() {
        assert(lines_stand(text, from as int, lines, seq![from as int]));
    } else {
        let end = crate::text::index_of(text, '\n', from);
        crate::text::lemma_index_of(text, '\n', from);
        if end >= text.len() {
            let places = seq![from as int, text.len() as int + 1];
            let line = text.skip(from as int);
            if line.contains('\n') {
                let i = choose|i: int| 0 <= i < line.len() && line[i] == '\n';
                assert(text[from + i] == '\n');
            }
            assert(lines[0] == line);
            assert(line_stands(text, lines[0], places[0], places[1]));
            assert(lines_stand(text, from as int, lines, places));
        } else {
            lemma_lines(text, end + 1);
            let later = crate::text::lines_from(text, end + 1);
            let after = choose|after: Seq<int>| #[trigger]
                lines_stand(text, end as int + 1, later, after);
            let places = seq![from as int] + after;
            let body = text.subrange(from as int, end as int);
            if body.contains('\n') {
                let i = choose|i: int| 0 <= i < body.len() && body[i] == '\n';
                assert(text[from + i] == '\n');
            }
            assert(lines == seq![crate::text::without_return(body)] + later);
            assert(text[end as int] == '\n');
            if body.len() > 0 {
                assert(body.last() == text[end - 1]);
                assert(body.drop_last() =~= text.subrange(from as int, end - 1));
            }
            assert(line_stands(text, lines[0], from as int, end as int + 1));
            assert forall|k: int| 0 <= k < lines.len() implies line_stands(
                text,
                lines[k],
                #[trigger] places[k],
                places[k + 1],
            ) by {
                if k > 0 {
                    assert(places[k] == after[k - 1] && places[k + 1] == after[k]);
                    assert(lines[k] == later[k - 1]);
                } else {
                    assert(places[1] == after[0]);
                }
            }
            assert(places.last() == after.last());
            assert(lines_stand(text, from as int, lines, places));
        }
    }
}

/// A part of a list of characters as a text is that part.
pub proof fn law_part_is_the_part(chars: &Vec<char>, from: usize, to: usize, text: String)
    requires
        from <= to <= chars@.len(),
        call_ensures(string_of, (chars, from, to), text),
    ensures
        text@.len() == to - from,
        forall|i: int| 0 <= i < text@.len() ==> #[trigger] text@[i] == chars@[from + i],
{
}

/// The characters of a text are its characters; two lists are the same if they
/// have the same; and a character is found where it stands first.
pub proof fn law_characters_are_found_first(
    text: &str,
    chars: Vec<char>,
    left: &Vec<char>,
    right: &Vec<char>,
    equal: bool,
    c: char,
    from: usize,
    at: usize,
)
    requires
        from <= left@.len(),
        call_ensures(chars_of, (text,), chars),
        call_ensures(same_chars, (left, right), equal),
        call_ensures(find_char, (left, c, from), at),
    ensures
        chars@ == text@,
        equal <==> left@ == right@,
        from <= at <= left@.len(),
        at < left@.len() ==> left@[at as int] == c,
        forall|i: int| from <= i < at ==> left@[i] != c,
{
    crate::text::lemma_index_of(left@, c, from as nat);
}

/// A run of white space, or of anything else, ends where it does; and a marker
/// stands at a place exactly if its characters do.
pub proof fn law_runs_end_where_they_do(
    chars: &Vec<char>,
    spaces: bool,
    from: usize,
    end: usize,
    marker: &Vec<char>,
    at: usize,
    found: bool,
)
    requires
        from <= chars@.len(),
        call_ensures(run_end, (chars, spaces, from), end),
        call_ensures(stands_at, (chars, marker, at), found),
    ensures
        from <= end <= chars@.len(),
        forall|i: int| from <= i < end ==> crate::text::is_space(#[trigger] chars@[i]) == spaces,
        end < chars@.len() ==> crate::text::is_space(chars@[end as int]) != spaces,
        found <==> at + marker@.len() <= chars@.len() && forall|i: int|
            0 <= i < marker@.len() ==> #[trigger] chars@[at + i] == marker@[i],
{
    crate::text::lemma_skip_run(chars@, spaces, from as nat);
    if at + marker@.len() <= chars@.len() {
        let part = chars@.subrange(at as int, at + marker@.len());
        if found {
            assert forall|i: int| 0 <= i < marker@.len() implies #[trigger] chars@[at + i]
                == marker@[i] by {
                assert(part[i] == chars@[at + i]);
            }
        } else if forall|i: int|
            0 <= i < marker@.len() ==> #[trigger] chars@[at + i] == marker@[i] {
            assert forall|i: int| 0 <= i < marker@.len() implies part[i] == marker@[i] by {
                assert(chars@[at + i] == marker@[i]);
            }
            assert(part =~= marker@);
        }
    }
}

} // verus!
