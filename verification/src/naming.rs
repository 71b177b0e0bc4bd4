//! What file names are made of.
use crate::text::{
    char_is_control, char_is_space, chars_of, has_prefix, is_control, is_digit, is_space, pieces,
    same_text, split, text_between, text_views, utf8,
};
use vstd::prelude::*;
use vstd::utf8::{encode_scalar, encode_utf8};

verus! {

/// How many bytes of a title a file name takes over.
pub const MAX_STEM_BYTES: usize = 180;

/// A character that some file system does not take in a name.
pub open spec fn is_forbidden(c: char) -> bool {
    is_control(c) || c == '/' || c == '\\' || c == ':' || c == '*' || c == '?' || c == '"' || c
        == '<' || c == '>' || c == '|'
}

/// Whether some file system does not take a character in a name.
pub fn char_is_forbidden(c: char) -> (r: bool)
    ensures
        r == is_forbidden(c),
{
    char_is_control(c) || c == '/' || c == '\\' || c == ':' || c == '*' || c == '?' || c == '"' || c
        == '<' || c == '>' || c == '|'
}

/// How many bytes a character takes in UTF-8.
pub open spec fn width(c: char) -> nat {
    utf8(seq![c]).len()
}

/// How many bytes a character takes in UTF-8.
pub fn char_width(c: char) -> (r: usize)
    ensures
        r == width(c),
        1 <= r <= 4,
{
    let n: u32 = c as u32;
    proof {
        lemma_width(c);
    }
    if n <= 0x7f {
        1
    } else if n <= 0x7ff {
        2
    } else if n <= 0xffff {
        3
    } else {
        4
    }
}

/// How many bytes a character takes, by its number.
pub proof fn lemma_width(c: char)
    ensures
        width(c) == (if c as u32 <= 0x7f {
            1nat
        } else if c as u32 <= 0x7ff {
            2
        } else if c as u32 <= 0xffff {
            3
        } else {
            4
        }),
{
    assert(seq![c].drop_first() =~= Seq::<char>::empty());
    reveal_with_fuel(encode_utf8, 2);
    assert(utf8(seq![c]) =~= encode_scalar(c as u32));
}

/// An ASCII character takes one byte.
pub proof fn lemma_one_byte(c: char)
    requires
        c as u32 <= 0x7f,
    ensures
        utf8(seq![c]).len() == 1,
{
    lemma_width(c);
}

/// The bytes of two texts, one after the other.
pub proof fn lemma_utf8_concat(a: Seq<char>, b: Seq<char>)
    ensures
        utf8(a + b) == utf8(a) + utf8(b),
    decreases a.len(),
{
    if a.len() == 0 {
        assert(a + b =~= b);
        assert(utf8(a) =~= Seq::<u8>::empty());
        assert(utf8(a) + utf8(b) =~= utf8(b));
    } else {
        assert((a + b).drop_first() =~= a.drop_first() + b);
        lemma_utf8_concat(a.drop_first(), b);
        assert(utf8(a + b) =~= utf8(a) + utf8(b));
    }
}

/// The longest beginning of a text that takes no more bytes than these.
pub open spec fn fitted(s: Seq<char>, limit: nat) -> Seq<char>
    decreases s.len(),
{
    if s.len() == 0 || utf8(s).len() <= limit {
        s
    } else {
        fitted(s.drop_last(), limit)
    }
}

/// What fits is a beginning of the text, takes no more bytes than allowed, and could not be longer.
pub proof fn lemma_fitted(s: Seq<char>, limit: nat)
    ensures
        fitted(s, limit).len() <= s.len(),
        fitted(s, limit) == s.take(fitted(s, limit).len() as int),
        utf8(fitted(s, limit)).len() <= limit,
        fitted(s, limit).len() < s.len() ==> utf8(
            s.take(fitted(s, limit).len() as int + 1),
        ).len() > limit,
    decreases s.len(),
{
    if s.len() == 0 || utf8(s).len() <= limit {
        assert(s.take(s.len() as int) =~= s);
        assert(s.len() == 0 ==> utf8(s).len() == 0);
    } else {
        let shorter = s.drop_last();
        lemma_fitted(shorter, limit);
        let n = fitted(s, limit).len() as int;
        assert(shorter.take(n) =~= s.take(n));
        if n < shorter.len() {
            assert(shorter.take(n + 1) =~= s.take(n + 1));
        } else {
            assert(s.take(n + 1) =~= s);
        }
    }
}

/// A beginning takes no more bytes than the whole.
proof fn lemma_prefix_bytes(s: Seq<char>, n: int)
    requires
        0 <= n <= s.len(),
    ensures
        utf8(s.take(n)).len() <= utf8(s).len(),
{
    lemma_utf8_concat(s.take(n), s.skip(n));
    assert(s.take(n) + s.skip(n) =~= s);
}

/// A part takes no more bytes than the whole.
pub proof fn lemma_part_bytes(s: Seq<char>, a: int, b: int)
    requires
        0 <= a <= b <= s.len(),
    ensures
        utf8(s.subrange(a, b)).len() <= utf8(s).len(),
{
    lemma_prefix_bytes(s, b);
    lemma_utf8_concat(s.take(a), s.subrange(a, b));
    assert(s.take(a) + s.subrange(a, b) =~= s.take(b));
}

/// Only one beginning fits and could not be longer.
proof fn lemma_fitted_unique(s: Seq<char>, limit: nat, n: int)
    requires
        0 <= n <= s.len(),
        utf8(s.take(n)).len() <= limit,
        n < s.len() ==> utf8(s.take(n + 1)).len() > limit,
    ensures
        fitted(s, limit) == s.take(n),
{
    lemma_fitted(s, limit);
    let m = fitted(s, limit).len() as int;
    if m < n {
        lemma_prefix_bytes(s.take(n), m + 1);
        assert(s.take(n).take(m + 1) =~= s.take(m + 1));
    } else if n < m {
        lemma_prefix_bytes(s.take(m), n + 1);
        assert(s.take(m).take(n + 1) =~= s.take(n + 1));
    }
}

/// The longest beginning that takes no more bytes than these.
pub fn fit(chars: &Vec<char>, limit: usize) -> (r: Vec<char>)
    ensures
        r@ == fitted(chars@, limit as nat),
{
    let mut out: Vec<char> = Vec::new();
    let mut left: usize = limit;
    let mut i: usize = 0;
    proof {
        assert(chars@.take(0) =~= Seq::<char>::empty());
        assert(utf8(chars@.take(0)).len() == 0);
    }
    while i < chars.len()
        invariant
            i <= chars@.len(),
            out@ == chars@.take(i as int),
            left + utf8(chars@.take(i as int)).len() == limit,
        decreases chars@.len() - i,
    {
        let c = chars[i];
        let size: usize = char_width(c);
        proof {
            assert(chars@.take(i + 1) =~= chars@.take(i as int) + seq![c]);
            lemma_utf8_concat(chars@.take(i as int), seq![c]);
        }
        if size > left {
            proof {
                lemma_fitted_unique(chars@, limit as nat, i as int);
            }
            return out;
        }
        left = left - size;
        out.push(c);
        i = i + 1;
    }
    proof {
        lemma_fitted_unique(chars@, limit as nat, i as int);
    }
    out
}

/// A character that is taken off the ends of a name: a dot, or white space too.
pub open spec fn is_edge(c: char, spaces: bool) -> bool {
    c == '.' || (spaces && is_space(c))
}

/// A text without such characters at its beginning.
pub open spec fn edge_start(s: Seq<char>, spaces: bool) -> Seq<char>
    decreases s.len(),
{
    if s.len() > 0 && is_edge(s[0], spaces) {
        edge_start(s.subrange(1, s.len() as int), spaces)
    } else {
        s
    }
}

/// A text without such characters at its end.
pub open spec fn edge_end(s: Seq<char>, spaces: bool) -> Seq<char>
    decreases s.len(),
{
    if s.len() > 0 && is_edge(s.last(), spaces) {
        edge_end(s.drop_last(), spaces)
    } else {
        s
    }
}

/// A text without such characters at either end.
pub open spec fn edges_off(s: Seq<char>, spaces: bool) -> Seq<char> {
    edge_end(edge_start(s, spaces), spaces)
}

fn char_is_edge(c: char, spaces: bool) -> (r: bool)
    ensures
        r == is_edge(c, spaces),
{
    c == '.' || (spaces && char_is_space(c))
}

/// A text without dots, or without white space either, at its ends.
pub fn trim_edges(chars: &Vec<char>, spaces: bool) -> (r: String)
    ensures
        r@ == edges_off(chars@, spaces),
{
    let mut from: usize = 0;
    let ghost s = chars@;
    assert(s.subrange(0, s.len() as int) =~= s);
    while from < chars.len() && char_is_edge(chars[from], spaces)
        invariant
            from <= chars@.len(),
            s == chars@,
            edge_start(s, spaces) == edge_start(s.subrange(from as int, s.len() as int), spaces),
        ensures
            from <= chars@.len(),
            edge_start(s, spaces) == s.subrange(from as int, s.len() as int),
        decreases chars@.len() - from,
    {
        assert(s.subrange(from as int, s.len() as int).subrange(1, s.len() - from) =~= s.subrange(
            from + 1,
            s.len() as int,
        ));
        from = from + 1;
    }
    let ghost start = edge_start(s, spaces);
    let mut to: usize = chars.len();
    while to > from && char_is_edge(chars[to - 1], spaces)
        invariant
            from <= to <= chars@.len(),
            s == chars@,
            start == s.subrange(from as int, s.len() as int),
            edge_end(start, spaces) == edge_end(s.subrange(from as int, to as int), spaces),
        ensures
            from <= to <= chars@.len(),
            edge_end(start, spaces) == s.subrange(from as int, to as int),
        decreases to - from,
    {
        assert(s.subrange(from as int, to as int).drop_last() =~= s.subrange(from as int, to - 1));
        to = to - 1;
    }
    text_between(chars, from, to)
}

/// What is left once the edges are off is a part of the text.
pub proof fn lemma_edges_off(s: Seq<char>, spaces: bool)
    ensures
        exists|a: int, b: int|
            0 <= a <= b <= s.len() && edges_off(s, spaces) == #[trigger] s.subrange(a, b),
        utf8(edges_off(s, spaces)).len() <= utf8(s).len(),
{
    let a = lemma_edge_start(s, spaces);
    let start = edge_start(s, spaces);
    let n = lemma_edge_end(start, spaces);
    assert(edges_off(s, spaces) =~= s.subrange(a, a + n));
    lemma_utf8_concat(s.take(a), start);
    assert(s.take(a) + start =~= s);
    lemma_prefix_bytes(start, n);
}

proof fn lemma_edge_start(s: Seq<char>, spaces: bool) -> (a: int)
    ensures
        0 <= a <= s.len(),
        edge_start(s, spaces) == s.subrange(a, s.len() as int),
    decreases s.len(),
{
    if s.len() > 0 && is_edge(s[0], spaces) {
        let rest = s.subrange(1, s.len() as int);
        let a = lemma_edge_start(rest, spaces);
        assert(rest.subrange(a, rest.len() as int) =~= s.subrange(a + 1, s.len() as int));
        a + 1
    } else {
        assert(s.subrange(0, s.len() as int) =~= s);
        0
    }
}

proof fn lemma_edge_end(s: Seq<char>, spaces: bool) -> (n: int)
    ensures
        0 <= n <= s.len(),
        edge_end(s, spaces) == s.take(n),
    decreases s.len(),
{
    if s.len() > 0 && is_edge(s.last(), spaces) {
        let n = lemma_edge_end(s.drop_last(), spaces);
        assert(s.drop_last().take(n) =~= s.take(n));
        n
    } else {
        assert(s.take(s.len() as int) =~= s);
        s.len() as int
    }
}

/// An ASCII letter in upper case; any other character as it is.
pub open spec fn ascii_upper(c: char) -> char {
    if 97 <= c as u32 <= 122 {
        (c as u32 - 32) as char
    } else {
        c
    }
}

/// A text with its ASCII letters in upper case.
pub open spec fn uppered(s: Seq<char>) -> Seq<char> {
    s.map_values(|c: char| ascii_upper(c))
}

/// Whether a text in upper case is a device of Windows: no file can have that name, whatever its
/// extension.
pub open spec fn is_device(name: Seq<char>) -> bool {
    name == "CON"@ || name == "PRN"@ || name == "AUX"@ || name == "NUL"@ || (name.len() == 4 && (
    name.take(3) == "COM"@ || name.take(3) == "LPT"@) && is_digit(name[3]))
}

/// Whether a name stands for a device of Windows.
pub open spec fn names_device(name: Seq<char>) -> bool {
    is_device(uppered(pieces(name, '.')[0]))
}

fn char_upper(c: char) -> (r: char)
    ensures
        r == ascii_upper(c),
{
    let n: u32 = c as u32;
    if 97 <= n && n <= 122 {
        ((n - 32) as u8) as char
    } else {
        c
    }
}

/// Whether a name stands for a device of Windows.
pub fn stands_for_device(name: &str) -> (r: bool)
    ensures
        r == names_device(name@),
{
    let parts = split(name, '.');
    assert(text_views(parts@)[0] == parts@[0]@);
    let first = chars_of(&parts[0]);
    let mut upper = String::new();
    let mut i: usize = 0;
    let ghost whole = uppered(first@);
    while i < first.len()
        invariant
            i <= first@.len(),
            whole == uppered(first@),
            upper@ == whole.take(i as int),
        decreases first@.len() - i,
    {
        upper.push(char_upper(first[i]));
        assert(whole.take(i as int).push(ascii_upper(first@[i as int])) =~= whole.take(i + 1));
        i = i + 1;
    }
    assert(whole.take(first@.len() as int) =~= whole);
    proof {
        reveal_strlit("COM");
        reveal_strlit("LPT");
    }
    if same_text(&upper, "CON") || same_text(&upper, "PRN") || same_text(&upper, "AUX") || same_text(
        &upper,
        "NUL",
    ) {
        return true;
    }
    let chars = chars_of(&upper);
    if chars.len() != 4 {
        return false;
    }
    let last: u32 = chars[3] as u32;
    let numbered = has_prefix(&upper, "COM") || has_prefix(&upper, "LPT");
    proof {
        assert("COM"@.is_prefix_of(whole) == (whole.take(3) == "COM"@)) by {
            assert(whole.subrange(0, 3) =~= whole.take(3));
        }
        assert("LPT"@.is_prefix_of(whole) == (whole.take(3) == "LPT"@)) by {
            assert(whole.subrange(0, 3) =~= whole.take(3));
        }
    }
    numbered && 48 <= last && last <= 57
}

/// The first piece of a text is what stands before the first separator.
pub proof fn lemma_first_piece(s: Seq<char>, c: char, n: int)
    requires
        0 <= n <= s.len(),
        forall|i: int| 0 <= i < n ==> s[i] != c,
        n < s.len() ==> s[n] == c,
    ensures
        pieces(s, c)[0] == s.take(n),
        pieces(s, c).len() >= 1,
        n == s.len() ==> pieces(s, c).len() == 1,
    decreases s.len(),
{
    if s.len() > 0 {
        let shorter = s.drop_last();
        if n == s.len() {
            lemma_first_piece(shorter, c, n - 1);
            assert(pieces(s, c)[0] =~= s.take(n)) by {
                assert(shorter.take(n - 1).push(s.last()) =~= s.take(n));
            }
        } else {
            lemma_first_piece(shorter, c, n);
            assert(shorter.take(n) =~= s.take(n));
            if n < shorter.len() {
                lemma_more_pieces(shorter, c, n);
            }
        }
    } else {
        assert(s.take(n) =~= Seq::<char>::empty());
    }
}

/// A text with a separator has more than one piece.
proof fn lemma_more_pieces(s: Seq<char>, c: char, n: int)
    requires
        0 <= n < s.len(),
        s[n] == c,
    ensures
        pieces(s, c).len() >= 2,
    decreases s.len(),
{
    lemma_some_piece(s.drop_last(), c);
    if n < s.len() - 1 {
        lemma_more_pieces(s.drop_last(), c, n);
    }
}

proof fn lemma_some_piece(s: Seq<char>, c: char)
    ensures
        pieces(s, c).len() >= 1,
    decreases s.len(),
{
    if s.len() > 0 {
        lemma_some_piece(s.drop_last(), c);
    }
}

/// Where the first separator stands, or the end.
pub open spec fn first_at(s: Seq<char>, c: char) -> int
    decreases s.len(),
{
    if s.len() == 0 {
        0
    } else {
        let n = first_at(s.drop_last(), c);
        if n < s.len() - 1 || s.last() == c {
            n
        } else {
            n + 1
        }
    }
}

/// Nothing before the first separator is one.
pub proof fn lemma_first_at(s: Seq<char>, c: char)
    ensures
        0 <= first_at(s, c) <= s.len(),
        forall|i: int| 0 <= i < first_at(s, c) ==> s[i] != c,
        first_at(s, c) < s.len() ==> s[first_at(s, c)] == c,
    decreases s.len(),
{
    if s.len() > 0 {
        let shorter = s.drop_last();
        lemma_first_at(shorter, c);
        assert forall|i: int| 0 <= i < first_at(s, c) implies s[i] != c by {
            if i < first_at(shorter, c) {
                assert(shorter[i] != c);
            }
        }
    }
}

} // verus!
