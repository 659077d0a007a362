//! What holds of texts and paths.
use crate::path::{absolute, path_below};
use crate::text::{
    ascii_folded, blank, byte_len, char_at, char_bytes, decimal, digit, first_word, has_prefix,
    has_suffix, hex_digit, hexadecimal, is_white, joined, lemma_char_at, lines_of, same_but_case,
    signed_decimal, split_at_char, text_less, trimmed, trimmed_end, trimmed_start, without_cr,
    without_repeats, word_at,
};
use vstd::prelude::*;

verus! {

// ---- blanks ----

/// The characters that count as blank: among those of one byte the space and the five control characters
/// that move the place, and the others that Unicode calls white space.
pub proof fn law_white_space_is_that_of_unicode(c: char)
    ensures
        (c as u32) < 0x80 ==> (is_white(c) <==> c == ' ' || c == '\t' || c == '\n' || c as u32 == 0x0B
            || c as u32 == 0x0C || c == '\r'),
        (c as u32) >= 0x80 ==> (is_white(c) <==> c as u32 == 0x85 || c as u32 == 0xA0 || c as u32
            == 0x1680 || 0x2000 <= c as u32 <= 0x200A || c as u32 == 0x2028 || c as u32 == 0x2029
            || c as u32 == 0x202F || c as u32 == 0x205F || c as u32 == 0x3000),
{
}

proof fn lemma_trimmed_start(s: Seq<char>)
    ensures
        trimmed_start(s).len() <= s.len(),
        trimmed_start(s) == s.skip(s.len() - trimmed_start(s).len()),
        forall|i: int|
            0 <= i < s.len() - trimmed_start(s).len() ==> is_white(#[trigger] s[i]),
        trimmed_start(s).len() > 0 ==> !is_white(trimmed_start(s)[0]),
    decreases s.len(),
{
    if s.len() > 0 && is_white(s[0]) {
        let rest = s.drop_first();
        lemma_trimmed_start(rest);
        let k = rest.len() - trimmed_start(rest).len();
        assert(rest.skip(k) == s.skip(k + 1));
        assert forall|i: int| 0 <= i < k + 1 implies is_white(#[trigger] s[i]) by {
            if i > 0 {
                assert(rest[i - 1] == s[i]);
            }
        }
    } else {
        assert(s.skip(0) == s);
    }
}

proof fn lemma_trimmed_end(s: Seq<char>)
    ensures
        trimmed_end(s).len() <= s.len(),
        trimmed_end(s) == s.take(trimmed_end(s).len() as int),
        forall|i: int| trimmed_end(s).len() <= i < s.len() ==> is_white(#[trigger] s[i]),
        trimmed_end(s).len() > 0 ==> !is_white(trimmed_end(s).last()),
    decreases s.len(),
{
    if s.len() > 0 && is_white(s.last()) {
        let init = s.drop_last();
        lemma_trimmed_end(init);
        let k = trimmed_end(init).len() as int;
        assert(init.take(k) == s.take(k));
        assert forall|i: int| k <= i < s.len() implies is_white(#[trigger] s[i]) by {
            if i < init.len() {
                assert(init[i] == s[i]);
            }
        }
    } else {
        assert(s.take(s.len() as int) == s);
    }
}

/// A trimmed text is the text without the blanks at both of its ends, and whole but for them.
pub proof fn law_trimming_takes_the_blanks_off(s: Seq<char>)
    ensures
        ({
            let k = s.len() - trimmed_start(s).len();
            &&& 0 <= k
            &&& k + trimmed(s).len() <= s.len()
            &&& s.subrange(k, k + trimmed(s).len()) == trimmed(s)
            &&& forall|i: int| 0 <= i < k ==> is_white(#[trigger] s[i])
            &&& forall|i: int| k + trimmed(s).len() <= i < s.len() ==> is_white(#[trigger] s[i])
            &&& trimmed(s).len() > 0 ==> !is_white(trimmed(s)[0]) && !is_white(trimmed(s).last())
        }),
{
    lemma_trimmed_start(s);
    let rest = trimmed_start(s);
    lemma_trimmed_end(rest);
    let k = s.len() - rest.len();
    assert(s.subrange(k, k + trimmed(s).len()) == trimmed(s));
    assert forall|i: int| k + trimmed(s).len() <= i < s.len() implies is_white(#[trigger] s[i]) by {
        assert(rest[i - k] == s[i]);
    }
}

/// A text is blank where every character of it is.
pub proof fn law_blank_texts_are_blank_throughout(s: Seq<char>)
    ensures
        blank(s) <==> forall|i: int| 0 <= i < s.len() ==> is_white(#[trigger] s[i]),
{
    law_trimming_takes_the_blanks_off(s);
    if blank(s) {
        let k = s.len() - trimmed_start(s).len();
        assert forall|i: int| 0 <= i < s.len() implies is_white(#[trigger] s[i]) by {
            if i >= k {
                assert(k + trimmed(s).len() <= i);
            }
        }
    } else {
        let k = s.len() - trimmed_start(s).len();
        assert(s.subrange(k, k + trimmed(s).len())[0] == s[k]);
    }
}

/// The first word of a text is what stands between its blanks: it holds none, and stands behind blanks
/// alone.
pub proof fn law_first_words_hold_no_blanks(s: Seq<char>, i: int)
    ensures
        0 <= i < first_word(s).len() ==> !is_white(first_word(s)[i]),
        s.len() > 0 && is_white(s[0]) ==> first_word(s) == first_word(s.drop_first()),
        (forall|j: int| 0 <= j < s.len() ==> !is_white(#[trigger] s[j])) ==> first_word(s) == s,
    decreases s.len(),
{
    if s.len() > 0 {
        if is_white(s[0]) {
            law_first_words_hold_no_blanks(s.drop_first(), i);
        } else {
            lemma_word(s, i);
        }
    }
}

proof fn lemma_word(s: Seq<char>, i: int)
    ensures
        0 <= i < word_at(s).len() ==> !is_white(word_at(s)[i]),
        (forall|j: int| 0 <= j < s.len() ==> !is_white(#[trigger] s[j])) ==> word_at(s) == s,
    decreases s.len(),
{
    if s.len() > 0 && !is_white(s[0]) {
        let rest = s.drop_first();
        lemma_word(rest, i - 1);
        if forall|j: int| 0 <= j < s.len() ==> !is_white(#[trigger] s[j]) {
            assert forall|j: int| 0 <= j < rest.len() implies !is_white(#[trigger] rest[j]) by {
                assert(rest[j] == s[j + 1]);
            }
            assert(seq![s[0]] + rest == s);
        }
    }
}

// ---- parts ----

/// A text starts with the text that it was put behind, and ends with the one that was put behind it.
pub proof fn law_texts_start_and_end_with_their_parts(a: Seq<char>, b: Seq<char>)
    ensures
        has_prefix(a + b, a),
        has_suffix(a + b, b),
        has_prefix(a, b) ==> a == b + a.skip(b.len() as int),
        has_suffix(a, b) ==> a == a.take(a.len() - b.len()) + b,
        a.len() < b.len() ==> !has_prefix(a, b) && !has_suffix(a, b),
{
    assert((a + b).subrange(0, a.len() as int) == a);
    assert((a + b).subrange(a.len() as int, (a + b).len() as int) == b);
    if has_prefix(a, b) {
        assert(a == a.subrange(0, b.len() as int) + a.skip(b.len() as int));
    }
    if has_suffix(a, b) {
        let k = a.len() - b.len();
        assert(a == a.take(k) + a.subrange(k, a.len() as int));
    }
}

proof fn lemma_joined_first(first: Seq<char>, rest: Seq<Seq<char>>, sep: Seq<char>)
    requires
        rest.len() > 0,
    ensures
        joined(seq![first] + rest, sep) == first + sep + joined(rest, sep),
    decreases rest.len(),
{
    let all = seq![first] + rest;
    assert(all.drop_last() == seq![first] + rest.drop_last());
    assert(all.last() == rest.last());
    if rest.len() == 1 {
        assert(all.drop_last() == seq![first]);
        assert(joined(seq![first], sep) == first);
        assert(joined(rest, sep) == rest[0]);
    } else {
        lemma_joined_first(first, rest.drop_last(), sep);
        assert(first + sep + joined(rest.drop_last(), sep) + sep + rest.last() == first + sep + (
        joined(rest.drop_last(), sep) + sep + rest.last()));
    }
}

/// Texts that are joined stand in order, with the separator between each two of them and nowhere else.
pub proof fn law_joined_texts_stand_in_order(a: Seq<Seq<char>>, part: Seq<char>, sep: Seq<char>)
    ensures
        joined(Seq::empty(), sep).len() == 0,
        joined(seq![part], sep) == part,
        a.len() > 0 ==> joined(a.push(part), sep) == joined(a, sep) + sep + part,
{
    assert(a.push(part).drop_last() == a);
}

/// Splitting a text at a character and joining the parts with it gives the text back, and no part holds
/// the character.
pub proof fn law_split_texts_join_again(s: Seq<char>, c: char)
    ensures
        split_at_char(s, c).len() > 0,
        joined(split_at_char(s, c), seq![c]) == s,
        forall|i: int|
            0 <= i < split_at_char(s, c).len() ==> !(#[trigger] split_at_char(s, c)[i]).contains(c),
    decreases s.len(),
{
    lemma_char_at(s, c);
    match char_at(s, c) {
        Some(n) => {
            let rest = s.skip(n + 1);
            law_split_texts_join_again(rest, c);
            let parts = split_at_char(rest, c);
            lemma_joined_first(s.take(n), parts, seq![c]);
            assert(s.take(n) + seq![c] + rest == s);
            assert(!s.take(n).contains(c));
            let all = split_at_char(s, c);
            assert(all == seq![s.take(n)] + parts);
            assert forall|i: int| 0 <= i < all.len() implies !(#[trigger] all[i]).contains(c) by {
                if i > 0 {
                    assert(all[i] == parts[i - 1]);
                }
            }
        },
        None => {
            assert(split_at_char(s, c) == seq![s]);
            assert(joined(seq![s], seq![c]) == s);
        },
    }
}

/// A text without a line feed is one line, and none where it is empty. The first line ends at the first
/// line feed, without the carriage return before it, and the other lines are those of the rest.
pub proof fn law_lines_end_at_line_feeds(line: Seq<char>, rest: Seq<char>)
    requires
        !line.contains('\n'),
    ensures
        line.len() > 0 ==> lines_of(line) == seq![line],
        lines_of(Seq::empty()).len() == 0,
        lines_of(line + seq!['\n'] + rest) == seq![without_cr(line)] + lines_of(rest),
        without_cr(line.push('\r')) == line,
        line.len() > 0 && line.last() != '\r' ==> without_cr(line) == line,
{
    lemma_absent(line, '\n');
    let whole = line + seq!['\n'] + rest;
    lemma_present(line, '\n', rest);
    assert(whole.take(line.len() as int) == line);
    assert(whole.skip(line.len() as int + 1) == rest);
    assert(line.push('\r').drop_last() == line);
}

proof fn lemma_absent(s: Seq<char>, c: char)
    requires
        !s.contains(c),
    ensures
        char_at(s, c) is None,
    decreases s.len(),
{
    if s.len() > 0 {
        assert(s[0] != c);
        assert forall|i: int| 0 <= i < s.drop_first().len() implies s.drop_first()[i] != c by {
            assert(s.drop_first()[i] == s[i + 1]);
        }
        lemma_absent(s.drop_first(), c);
    }
}

proof fn lemma_present(s: Seq<char>, c: char, rest: Seq<char>)
    requires
        !s.contains(c),
    ensures
        char_at(s + seq![c] + rest, c) == Some(s.len() as int),
    decreases s.len(),
{
    let whole = s + seq![c] + rest;
    if s.len() > 0 {
        assert(s[0] != c);
        assert(whole[0] == s[0]);
        let tail = s.drop_first();
        assert forall|i: int| 0 <= i < tail.len() implies tail[i] != c by {
            assert(tail[i] == s[i + 1]);
        }
        lemma_present(tail, c, rest);
        assert(whole.drop_first() == tail + seq![c] + rest);
    } else {
        assert(whole[0] == c);
    }
}

/// Leaving out repeats changes nothing where there are none, and drops a text that was there before.
pub proof fn law_repeats_are_left_out(v: Seq<Seq<char>>, t: Seq<char>)
    ensures
        v.contains(t) ==> without_repeats(v.push(t)) == without_repeats(v),
        !v.contains(t) ==> without_repeats(v.push(t)) == without_repeats(v).push(t),
        without_repeats(Seq::empty()).len() == 0,
{
    assert(v.push(t).drop_last() == v);
    assert(v.push(t).last() == t);
}

// ---- numbers ----

/// The value of a digit, as long as it is one.
pub open spec fn digit_value(c: char) -> nat {
    if '0' <= c <= '9' {
        (c as u32 - '0' as u32) as nat
    } else if 'a' <= c <= 'f' {
        (c as u32 - 'a' as u32 + 10) as nat
    } else {
        0
    }
}

/// The number that digits stand for.
pub open spec fn number_of(digits: Seq<char>, base: nat) -> nat
    decreases digits.len(),
{
    if digits.len() == 0 {
        0
    } else {
        base * number_of(digits.drop_last(), base) + digit_value(digits.last())
    }
}

/// A number in decimals reads as that number, holds only digits, and starts with zero only where it is
/// zero.
pub proof fn law_decimals_read_as_their_number(n: nat)
    ensures
        number_of(decimal(n), 10) == n,
        decimal(n).len() > 0,
        forall|i: int| 0 <= i < decimal(n).len() ==> '0' <= (#[trigger] decimal(n)[i]) <= '9',
        n > 0 ==> decimal(n)[0] != '0',
        n == 0 ==> decimal(n) == seq!['0'],
    decreases n,
{
    reveal_with_fuel(number_of, 2);
    if n < 10 {
        assert(digit_value(digit(n)) == n);
        assert(decimal(n) == seq![digit(n)]);
        assert(seq![digit(n)].drop_last() == Seq::<char>::empty());
    } else {
        law_decimals_read_as_their_number(n / 10);
        assert(decimal(n).drop_last() == decimal(n / 10));
        assert(digit_value(digit(n % 10)) == n % 10);
        assert(10 * (n / 10) + n % 10 == n);
        assert(decimal(n)[0] == decimal(n / 10)[0]);
    }
}

/// A negative number is written behind a sign, and no other is.
pub proof fn law_negative_numbers_have_a_sign(n: nat)
    ensures
        signed_decimal(n as int) == decimal(n),
        n > 0 ==> signed_decimal(-(n as int)) == seq!['-'] + decimal(n),
{
}

/// A number in hexadecimals reads as that number, in lower case.
pub proof fn law_hexadecimals_read_as_their_number(n: nat)
    ensures
        number_of(hexadecimal(n), 16) == n,
        hexadecimal(n).len() > 0,
        forall|i: int|
            0 <= i < hexadecimal(n).len() ==> '0' <= (#[trigger] hexadecimal(n)[i]) <= '9' || 'a'
                <= hexadecimal(n)[i] <= 'f',
        n > 0 ==> hexadecimal(n)[0] != '0',
    decreases n,
{
    reveal_with_fuel(number_of, 2);
    if n < 16 {
        assert(digit_value(hex_digit(n)) == n);
        assert(hexadecimal(n) == seq![hex_digit(n)]);
        assert(seq![hex_digit(n)].drop_last() == Seq::<char>::empty());
    } else {
        law_hexadecimals_read_as_their_number(n / 16);
        assert(hexadecimal(n).drop_last() == hexadecimal(n / 16));
        assert(digit_value(hex_digit(n % 16)) == n % 16);
        assert(16 * (n / 16) + n % 16 == n);
        assert(hexadecimal(n)[0] == hexadecimal(n / 16)[0]);
    }
}

/// The bytes of a text are those of its characters: one up to 0x7F, two up to 0x7FF, three up to 0xFFFF
/// and else four.
pub proof fn law_bytes_are_those_of_utf8(a: Seq<char>, b: Seq<char>, c: char)
    ensures
        byte_len(a + b) == byte_len(a) + byte_len(b),
        byte_len(seq![c]) == char_bytes(c),
        byte_len(Seq::empty()) == 0,
        c as u32 <= 0x7F ==> char_bytes(c) == 1,
        0x7F < c as u32 <= 0x7FF ==> char_bytes(c) == 2,
        0x7FF < c as u32 <= 0xFFFF ==> char_bytes(c) == 3,
        0xFFFF < c as u32 ==> char_bytes(c) == 4,
    decreases b.len(),
{
    reveal_with_fuel(byte_len, 2);
    assert(seq![c].drop_last() == Seq::<char>::empty());
    if b.len() == 0 {
        assert(a + b == a);
    } else {
        law_bytes_are_those_of_utf8(a, b.drop_last(), c);
        assert((a + b).drop_last() == a + b.drop_last());
        assert((a + b).last() == b.last());
    }
}

// ---- order ----

/// Texts are ordered by their first different characters, and a text comes before every longer one that it
/// is the beginning of.
pub proof fn law_texts_are_ordered_by_their_first_difference(
    common: Seq<char>,
    a: char,
    b: char,
    x: Seq<char>,
    y: Seq<char>,
)
    ensures
        a != b ==> (text_less(common + seq![a] + x, common + seq![b] + y) <==> a < b),
        text_less(common, common + seq![a] + x),
        !text_less(common + seq![a] + x, common),
        !text_less(common, common),
    decreases common.len(),
{
    let one = common + seq![a] + x;
    let other = common + seq![b] + y;
    if common.len() == 0 {
        assert(one[0] == a);
        assert(other[0] == b);
    } else {
        let rest = common.drop_first();
        law_texts_are_ordered_by_their_first_difference(rest, a, b, x, y);
        assert(one[0] == common[0]);
        assert(other[0] == common[0]);
        assert(one.drop_first() == rest + seq![a] + x);
        assert(other.drop_first() == rest + seq![b] + y);
    }
}

/// Texts that differ only in the case of their letters are the same but for case, and others are not.
pub proof fn law_case_is_that_of_ascii_letters(a: Seq<char>, b: Seq<char>, c: char)
    ensures
        same_but_case(a, a),
        same_but_case(a, b) ==> same_but_case(b, a),
        same_but_case(a, b) ==> a.len() == b.len(),
        'A' <= c <= 'Z' ==> ascii_folded(c) == c as u32 + 32,
        !('A' <= c <= 'Z') ==> ascii_folded(c) == c as u32,
        same_but_case(a, b) <==> a.len() == b.len() && forall|i: int|
            0 <= i < a.len() ==> ascii_folded(#[trigger] a[i]) == ascii_folded(b[i]),
{
    if same_but_case(a, b) {
        assert forall|i: int| 0 <= i < b.len() implies ascii_folded(#[trigger] b[i])
            == ascii_folded(a[i]) by {
            assert(ascii_folded(a[i]) == ascii_folded(b[i]));
        }
    }
}

// ---- paths ----

/// A path below a directory is the path itself where it is absolute, and else both with one slash between
/// them.
pub proof fn law_absolute_paths_stay(dir: Seq<char>, path: Seq<char>)
    ensures
        path.len() > 0 && path[0] == '/' ==> path_below(dir, path) == path,
        !absolute(path) && dir.len() > 0 && dir.last() != '/' ==> path_below(dir, path) == dir
            + seq!['/'] + path,
        !absolute(path) && dir.len() > 0 && dir.last() == '/' ==> path_below(dir, path) == dir + path,
        !absolute(path) && dir.len() == 0 ==> path_below(dir, path) == path,
        absolute(dir) && !absolute(path) ==> absolute(path_below(dir, path)),
{
    reveal_strlit("/");
    assert("/"@ == seq!['/']);
    assert(Seq::<char>::empty() + path == path);
    if dir.len() == 0 {
        assert(dir + path == path);
    }
}

} // verus!
