//! What holds of the operations on strings.
use crate::text::{
    ascii_lower, blank, char_is_control, char_is_space, decimal, decimal_of, first_chars,
    hash_shaped, is_blank, is_hex_digit, is_space, join, joined_by, keep, pieces, precedes,
    replace_after, split, stands_before, text_views, to_lower, trim, trim_end, trim_end_char,
    trim_start, trimmed, trimmed_end, trimmed_start, without_trailing,
};
use vstd::prelude::*;

verus! {

/// The characters that separate words are white space; what words are written with is not.
pub proof fn law_white_space_separates_words(c: char, r: bool)
    requires
        call_ensures(char_is_space, (c,), r),
    ensures
        c == ' ' || c == '\t' || c == '\n' || c == '\r' ==> r,
        c as u32 == 0xa0 || c as u32 == 0x2003 || c as u32 == 0x2028 || c as u32 == 0x3000 ==> r,
        33 <= c as u32 <= 126 || 0xa1 <= c as u32 <= 0x167f || 0x3001 <= c as u32 ==> !r,
        r == is_space(c),
{
}

/// Control characters are those below the space, the delete character and the 32 after it.
pub proof fn law_control_characters(c: char, r: bool)
    requires
        call_ensures(char_is_control, (c,), r),
    ensures
        r <==> (c as u32) < 32 || 127 <= c as u32 && c as u32 - 127 <= 32,
{
}

proof fn lemma_trimmed_start_drops_space(s: Seq<char>) -> (from: int)
    ensures
        0 <= from <= s.len(),
        trimmed_start(s) == s.subrange(from, s.len() as int),
        forall|i: int| 0 <= i < from ==> is_space(#[trigger] s[i]),
        from < s.len() ==> !is_space(s[from]),
    decreases s.len(),
{
    if s.len() > 0 && is_space(s[0]) {
        let rest = s.subrange(1, s.len() as int);
        let from = lemma_trimmed_start_drops_space(rest);
        assert(rest.subrange(from, rest.len() as int) =~= s.subrange(from + 1, s.len() as int));
        assert forall|i: int| 0 <= i < from + 1 implies is_space(#[trigger] s[i]) by {
            if i > 0 {
                assert(rest[i - 1] == s[i]);
            }
        }
        from + 1
    } else {
        assert(s.subrange(0, s.len() as int) =~= s);
        0
    }
}

proof fn lemma_trimmed_end_drops_space(s: Seq<char>) -> (to: int)
    ensures
        0 <= to <= s.len(),
        trimmed_end(s) == s.subrange(0, to),
        forall|i: int| to <= i < s.len() ==> is_space(#[trigger] s[i]),
        to > 0 ==> !is_space(s[to - 1]),
    decreases s.len(),
{
    if s.len() > 0 && is_space(s.last()) {
        let to = lemma_trimmed_end_drops_space(s.drop_last());
        assert(s.drop_last().subrange(0, to) =~= s.subrange(0, to));
        assert forall|i: int| to <= i < s.len() implies is_space(#[trigger] s[i]) by {
            if i < s.len() - 1 {
                assert(s.drop_last()[i] == s[i]);
            }
        }
        to
    } else {
        assert(s.subrange(0, s.len() as int) =~= s);
        s.len() as int
    }
}

/// Trimming takes white space off both ends of a text and nothing else: what is left is one part of
/// it, begins and ends with no white space, and only white space stood before and behind it.
pub proof fn law_trimming_takes_only_white_space(s: &str, r: String) -> (part: (int, int))
    requires
        call_ensures(trim, (s,), r),
    ensures
        0 <= part.0 <= part.1 <= s@.len(),
        r@ == s@.subrange(part.0, part.1),
        forall|i: int| 0 <= i < part.0 || part.1 <= i < s@.len() ==> is_space(#[trigger] s@[i]),
        r@.len() > 0 ==> !is_space(r@[0]) && !is_space(r@.last()),
{
    let from = lemma_trimmed_start_drops_space(s@);
    let start = trimmed_start(s@);
    let length = lemma_trimmed_end_drops_space(start);
    assert(start.subrange(0, length) =~= s@.subrange(from, from + length));
    assert forall|i: int| 0 <= i < from || from + length <= i < s@.len() implies is_space(
        #[trigger] s@[i],
    ) by {
        if i >= from + length {
            assert(start[i - from] == s@[i]);
        }
    }
    (from, from + length)
}

/// Trimming the end of a text takes white space off it and nothing else.
pub proof fn law_trimming_the_end_takes_only_white_space(s: &str, r: String)
    requires
        call_ensures(trim_end, (s,), r),
    ensures
        r@.len() <= s@.len(),
        r@ == s@.take(r@.len() as int),
        forall|i: int| r@.len() <= i < s@.len() ==> is_space(#[trigger] s@[i]),
        r@.len() > 0 ==> !is_space(r@.last()),
{
    let to = lemma_trimmed_end_drops_space(s@);
    assert(s@.subrange(0, to) =~= s@.take(to));
}

/// Trimming the beginning of a text takes white space off it and nothing else.
pub proof fn law_trimming_the_start_takes_only_white_space(s: &str, r: String)
    requires
        call_ensures(trim_start, (s,), r),
    ensures
        r@.len() <= s@.len(),
        r@ == s@.skip(s@.len() - r@.len()),
        forall|i: int| 0 <= i < s@.len() - r@.len() ==> is_space(#[trigger] s@[i]),
        r@.len() > 0 ==> !is_space(r@[0]),
{
    let from = lemma_trimmed_start_drops_space(s@);
    assert(s@.subrange(from, s@.len() as int) =~= s@.skip(from));
}

/// A text is blank where all of its characters are white space.
pub proof fn lemma_blank(s: Seq<char>)
    ensures
        blank(s) <==> forall|i: int| 0 <= i < s.len() ==> is_space(#[trigger] s[i]),
{
    let from = lemma_trimmed_start_drops_space(s);
    let start = trimmed_start(s);
    let length = lemma_trimmed_end_drops_space(start);
    if blank(s) {
        assert(length == 0);
        assert forall|i: int| 0 <= i < s.len() implies is_space(#[trigger] s[i]) by {
            if i >= from {
                assert(start[i - from] == s[i]);
            }
        }
    } else {
        assert(start[0] == s[from]);
    }
}

/// A text is blank exactly where white space is all it holds, and what is kept of a text is its
/// trimmed form, unless it is blank.
pub proof fn law_blank_texts_hold_only_white_space(s: &str, r: bool, kept: Option<String>, rest: String)
    requires
        call_ensures(is_blank, (s,), r),
        call_ensures(keep, (s,), kept),
        call_ensures(trim, (s,), rest),
    ensures
        r <==> forall|i: int| 0 <= i < s@.len() ==> is_space(#[trigger] s@[i]),
        r <==> kept is None,
        kept matches Some(text) ==> text@ == rest@ && text@.len() > 0,
{
    let (from, to) = law_trimming_takes_only_white_space(s, rest);
    if forall|i: int| 0 <= i < s@.len() ==> is_space(#[trigger] s@[i]) {
        if from < to {
            assert(is_space(s@[from]));
        }
    }
}

/// Taking a character off the end of a text takes all of them and nothing else.
pub proof fn law_trailing_characters_are_taken_off(s: &str, c: char, r: String)
    requires
        call_ensures(trim_end_char, (s, c), r),
    ensures
        r@.len() <= s@.len(),
        r@ == s@.take(r@.len() as int),
        forall|i: int| r@.len() <= i < s@.len() ==> #[trigger] s@[i] == c,
        r@.len() > 0 ==> r@.last() != c,
{
    lemma_without_trailing(s@, c);
}

/// What is left of a text without a character at its end.
pub proof fn lemma_without_trailing(s: Seq<char>, c: char)
    ensures
        without_trailing(s, c).len() <= s.len(),
        without_trailing(s, c) == s.take(without_trailing(s, c).len() as int),
        forall|i: int| without_trailing(s, c).len() <= i < s.len() ==> #[trigger] s[i] == c,
        without_trailing(s, c).len() > 0 ==> without_trailing(s, c).last() != c,
    decreases s.len(),
{
    if s.len() > 0 && s.last() == c {
        lemma_without_trailing(s.drop_last(), c);
        let n = without_trailing(s, c).len() as int;
        assert(s.drop_last().take(n) =~= s.take(n));
        assert forall|i: int| n <= i < s.len() implies #[trigger] s[i] == c by {
            if i < s.len() - 1 {
                assert(s.drop_last()[i] == s[i]);
            }
        }
    } else {
        assert(s.take(s.len() as int) =~= s);
    }
}

/// The number that decimal digits stand for.
pub open spec fn digits_value(digits: Seq<char>) -> int
    decreases digits.len(),
{
    if digits.len() == 0 {
        0
    } else {
        10 * digits_value(digits.drop_last()) + (digits.last() as int - '0' as int)
    }
}

proof fn lemma_decimal_reads_back(n: nat)
    ensures
        decimal(n).len() > 0,
        digits_value(decimal(n)) == n,
        forall|i: int| 0 <= i < decimal(n).len() ==> '0' <= #[trigger] decimal(n)[i] <= '9',
        n > 0 ==> decimal(n)[0] != '0',
        n == 0 ==> decimal(n).len() == 1,
    decreases n,
{
    reveal_with_fuel(digits_value, 2);
    if n < 10 {
        assert(decimal(n).drop_last() =~= seq![]);
    } else {
        lemma_decimal_reads_back(n / 10);
        assert(decimal(n).drop_last() =~= decimal(n / 10));
    }
}

/// A number is written with digits alone, none of them a zero too many, that stand for that number.
pub proof fn law_numbers_read_back(n: u128, r: String)
    requires
        call_ensures(decimal_of, (n,), r),
    ensures
        digits_value(r@) == n,
        r@.len() > 0,
        forall|i: int| 0 <= i < r@.len() ==> '0' <= #[trigger] r@[i] <= '9',
        r@[0] == '0' ==> r@.len() == 1,
{
    lemma_decimal_reads_back(n as nat);
}

/// Lower-casing changes the letters A to Z, to the letter 32 places on, and nothing else.
pub proof fn law_lower_case_changes_letters_alone(s: &str, r: String)
    requires
        call_ensures(to_lower, (s,), r),
    ensures
        r@.len() == s@.len(),
        forall|i: int|
            0 <= i < s@.len() ==> (if 65 <= #[trigger] s@[i] as u32 <= 90 {
                r@[i] as u32 == s@[i] as u32 + 32
            } else {
                r@[i] == s@[i]
            }),
{
    assert forall|i: int| 0 <= i < s@.len() implies (if 65 <= #[trigger] s@[i] as u32 <= 90 {
        r@[i] as u32 == s@[i] as u32 + 32
    } else {
        r@[i] == s@[i]
    }) by {
        assert(r@[i] == ascii_lower(s@[i]));
    }
}

proof fn lemma_pieces_rejoin(s: Seq<char>, c: char)
    ensures
        pieces(s, c).len() > 0,
        joined_by(pieces(s, c), seq![c]) == s,
        forall|i: int| 0 <= i < pieces(s, c).len() ==> !(#[trigger] pieces(s, c)[i]).contains(c),
    decreases s.len(),
{
    reveal_with_fuel(joined_by, 2);
    if s.len() == 0 {
        assert(pieces(s, c)[0] =~= s);
    } else {
        let head = pieces(s.drop_last(), c);
        lemma_pieces_rejoin(s.drop_last(), c);
        let all = pieces(s, c);
        if s.last() == c {
            assert(all.drop_last() =~= head);
            assert(joined_by(all, seq![c]) =~= s);
        } else {
            assert(all.drop_last() =~= head.drop_last());
            assert(!head.last().contains(c));
            assert forall|i: int| 0 <= i < all.len() implies !(#[trigger] all[i]).contains(c) by {
                if i < all.len() - 1 {
                    assert(all[i] == head[i]);
                } else if all[i].contains(c) {
                    let k = choose|k: int| 0 <= k < all[i].len() && all[i][k] == c;
                    assert(k == all[i].len() - 1 || head.last()[k] == c);
                    assert(all[i].last() == s.last());
                }
            }
            if head.len() > 1 {
                let before = joined_by(head.drop_last(), seq![c]);
                assert(joined_by(head, seq![c]) == before + seq![c] + head.last());
                assert(joined_by(all, seq![c]) == before + seq![c] + all.last());
            }
            assert(joined_by(all, seq![c]) =~= joined_by(head, seq![c]).push(s.last()));
            assert(s.drop_last().push(s.last()) =~= s);
        }
    }
}

/// Splitting a text loses nothing of it: the pieces with the character between them are the text
/// again, and no piece holds the character.
pub proof fn law_pieces_make_up_the_text(s: &str, c: char, r: Vec<String>)
    requires
        call_ensures(split, (s, c), r),
    ensures
        r@.len() > 0,
        joined_by(text_views(r@), seq![c]) == s@,
        forall|i: int| 0 <= i < r@.len() ==> !(#[trigger] r@[i])@.contains(c),
        !s@.contains(c) ==> r@.len() == 1 && r@[0]@ == s@,
{
    lemma_pieces_rejoin(s@, c);
    reveal_with_fuel(joined_by, 2);
    let views = text_views(r@);
    assert forall|i: int| 0 <= i < r@.len() implies !(#[trigger] r@[i])@.contains(c) by {
        assert(views[i] == r@[i]@);
    }
    assert(views[0] == r@[0]@);
    if views.len() > 1 {
        let head = joined_by(views.drop_last(), seq![c]);
        assert(s@ == head + seq![c] + views.last());
        assert(s@[head.len() as int] == c);
    }
}

/// Joining texts lays them one after the other with the separator between them: each more adds the
/// separator and itself.
pub proof fn law_joining_adds_one_text_at_a_time(
    texts: &Vec<String>,
    more: &Vec<String>,
    last: String,
    separator: &str,
    r: String,
    longer: String,
)
    requires
        more@ == texts@.push(last),
        call_ensures(join, (texts, separator), r),
        call_ensures(join, (more, separator), longer),
    ensures
        texts@.len() == 0 ==> r@.len() == 0 && longer@ == last@,
        texts@.len() > 0 ==> longer@ == r@ + separator@ + last@,
{
    reveal_with_fuel(joined_by, 2);
    assert(text_views(more@) =~= text_views(texts@).push(last@));
    assert(text_views(more@).drop_last() =~= text_views(texts@));
}

/// The order of texts is the usual one of dictionaries, by code point: the first difference decides,
/// and a beginning stands before what it begins.
pub proof fn law_texts_are_ordered_by_their_first_difference(left: &str, right: &str, r: bool, at: int)
    requires
        call_ensures(stands_before, (left, right), r),
        0 <= at <= left@.len(),
        at <= right@.len(),
        left@.take(at) == right@.take(at),
    ensures
        at < left@.len() && at < right@.len() && left@[at] != right@[at] ==> r == (left@[at]
            < right@[at]),
        at == left@.len() ==> r == (at < right@.len()),
        at == right@.len() ==> !r,
{
    lemma_precedes_by_first_difference(left@, right@, at);
}

proof fn lemma_precedes_by_first_difference(left: Seq<char>, right: Seq<char>, at: int)
    requires
        0 <= at <= left.len(),
        at <= right.len(),
        left.take(at) == right.take(at),
    ensures
        at < left.len() && at < right.len() && left[at] != right[at] ==> precedes(left, right) == (
        left[at] < right[at]),
        at == left.len() ==> precedes(left, right) == (at < right.len()),
        at == right.len() ==> !precedes(left, right),
    decreases at,
{
    if at > 0 {
        assert(left.take(at)[0] == left[0] && right.take(at)[0] == right[0]);
        assert(left.skip(1).take(at - 1) =~= left.take(at).skip(1));
        assert(right.skip(1).take(at - 1) =~= right.take(at).skip(1));
        lemma_precedes_by_first_difference(left.skip(1), right.skip(1), at - 1);
    }
}

/// Replacing a character changes it everywhere and changes nothing else.
pub proof fn law_replacing_changes_one_character(
    chars: &Vec<char>,
    start: usize,
    from: char,
    to: char,
    r: String,
)
    requires
        start <= chars@.len(),
        call_ensures(replace_after, (chars, start, from, to), r),
    ensures
        r@.len() == chars@.len() - start,
        forall|i: int|
            0 <= i < r@.len() ==> #[trigger] r@[i] == (if chars@[start + i] == from {
                to
            } else {
                chars@[start + i]
            }),
{
}

/// A beginning of a text is as long as was asked for, or the whole of it.
pub proof fn law_beginnings_are_as_long_as_asked(s: &str, count: usize, r: String)
    requires
        call_ensures(first_chars, (s, count), r),
    ensures
        r@.is_prefix_of(s@),
        r@.len() <= count,
        r@.len() < count ==> r@ == s@,
        s@.len() <= count ==> r@ == s@,
{
    assert(s@.take(s@.len() as int) =~= s@);
}

/// A hash is 64 characters from 0 to 9, a to f or A to F.
pub proof fn law_hashes_are_hexadecimal(s: &str, r: bool)
    requires
        call_ensures(hash_shaped, (s,), r),
    ensures
        r <==> s@.len() == 64 && forall|i: int|
            0 <= i < 64 ==> (48 <= #[trigger] s@[i] as u32 <= 57 || 97 <= s@[i] as u32 <= 102 || 65
                <= s@[i] as u32 <= 70),
{
    if r {
        assert forall|i: int| 0 <= i < 64 implies (48 <= #[trigger] s@[i] as u32 <= 57 || 97
            <= s@[i] as u32 <= 102 || 65 <= s@[i] as u32 <= 70) by {
            assert(is_hex_digit(s@[i]));
        }
    }
}

} // verus!
