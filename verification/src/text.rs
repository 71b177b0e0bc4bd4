//! Strings as sequences of characters: trimming, searching, splitting and number formatting.
use vstd::prelude::*;
use vstd::string::*;

verus! {

broadcast use {vstd::string::group_string_axioms, vstd::seq::group_seq_axioms};

/// `String::push` appends one character.
pub assume_specification[ String::push ](s: &mut String, c: char)
    ensures
        final(s)@ == old(s)@.push(c),
;

/// `==` on `str` compares the characters.
pub assume_specification[ <str as PartialEq<str>>::eq ](left: &str, right: &str) -> (r: bool)
    ensures
        r == (left@ == right@),
;

/// Whether two strings hold the same characters.
pub fn same_text(left: &str, right: &str) -> (r: bool)
    ensures
        r == (left@ == right@),
{
    left.eq(right)
}

/// Whether one text stands before another: by the code point of the first character in which they
/// differ, or as its beginning. Their UTF-8 bytes have the same order.
pub open spec fn precedes(left: Seq<char>, right: Seq<char>) -> bool
    decreases left.len(),
{
    if right.len() == 0 {
        false
    } else if left.len() == 0 {
        true
    } else if left[0] != right[0] {
        left[0] < right[0]
    } else {
        precedes(left.skip(1), right.skip(1))
    }
}

/// Whether one string stands before another.
pub fn stands_before(left: &str, right: &str) -> (r: bool)
    ensures
        r == precedes(left@, right@),
{
    let a = chars_of(left);
    let b = chars_of(right);
    let mut i: usize = 0;
    assert(a@.skip(0) =~= a@ && b@.skip(0) =~= b@);
    while i < a.len() && i < b.len()
        invariant
            a@ == left@,
            b@ == right@,
            i <= a@.len(),
            i <= b@.len(),
            precedes(a@, b@) == precedes(a@.skip(i as int), b@.skip(i as int)),
        decreases a@.len() - i,
    {
        let first: char = a[i];
        let second: char = b[i];
        if first != second {
            return first < second;
        }
        assert(a@.skip(i as int).skip(1) =~= a@.skip(i + 1));
        assert(b@.skip(i as int).skip(1) =~= b@.skip(i + 1));
        i = i + 1;
    }
    i < b.len()
}

/// What does not stand before a text does not stand before one that is not after it.
pub proof fn lemma_precedes_transitive(a: Seq<char>, b: Seq<char>, c: Seq<char>)
    requires
        !precedes(b, a),
        !precedes(c, b),
    ensures
        !precedes(c, a),
    decreases a.len(),
{
    if a.len() > 0 && b.len() > 0 && c.len() > 0 && a[0] == b[0] && b[0] == c[0] {
        lemma_precedes_transitive(a.skip(1), b.skip(1), c.skip(1));
    }
}

/// A text does not stand before itself, and of two others one does.
pub proof fn lemma_precedes_total(a: Seq<char>, b: Seq<char>)
    ensures
        precedes(a, b) ==> !precedes(b, a),
        a != b ==> precedes(a, b) || precedes(b, a),
    decreases a.len(),
{
    if a.len() > 0 && b.len() > 0 {
        if a[0] == b[0] {
            lemma_precedes_total(a.skip(1), b.skip(1));
            if a.skip(1) == b.skip(1) {
                assert(a =~= seq![a[0]] + a.skip(1));
                assert(b =~= seq![b[0]] + b.skip(1));
            }
        }
    } else if a.len() == 0 && b.len() == 0 {
        assert(a =~= b);
    }
}

/// A Unicode `White_Space` character.
pub open spec fn is_space(c: char) -> bool {
    ||| 0x9 <= c as u32 <= 0xd
    ||| c as u32 == 0x20
    ||| c as u32 == 0x85
    ||| c as u32 == 0xa0
    ||| c as u32 == 0x1680
    ||| 0x2000 <= c as u32 <= 0x200a
    ||| c as u32 == 0x2028
    ||| c as u32 == 0x2029
    ||| c as u32 == 0x202f
    ||| c as u32 == 0x205f
    ||| c as u32 == 0x3000
}

/// A Unicode control character (general category `Cc`).
pub open spec fn is_control(c: char) -> bool {
    c as u32 <= 0x1f || 0x7f <= c as u32 <= 0x9f
}

/// `s` without its leading white space.
pub open spec fn trimmed_start(s: Seq<char>) -> Seq<char>
    decreases s.len(),
{
    if s.len() > 0 && is_space(s[0]) {
        trimmed_start(s.subrange(1, s.len() as int))
    } else {
        s
    }
}

/// `s` without its trailing white space.
pub open spec fn trimmed_end(s: Seq<char>) -> Seq<char>
    decreases s.len(),
{
    if s.len() > 0 && is_space(s.last()) {
        trimmed_end(s.drop_last())
    } else {
        s
    }
}

/// `s` without white space at either end.
pub open spec fn trimmed(s: Seq<char>) -> Seq<char> {
    trimmed_end(trimmed_start(s))
}

/// Whether `s` holds nothing but white space.
pub open spec fn blank(s: Seq<char>) -> bool {
    trimmed(s).len() == 0
}

/// Whether a character is white space.
pub fn char_is_space(c: char) -> (r: bool)
    ensures
        r == is_space(c),
{
    let n: u32 = c as u32;
    (0x9 <= n && n <= 0xd) || n == 0x20 || n == 0x85 || n == 0xa0 || n == 0x1680 || (0x2000 <= n && n
        <= 0x200a) || n == 0x2028 || n == 0x2029 || n == 0x202f || n == 0x205f || n == 0x3000
}

/// Whether a character is a control character.
pub fn char_is_control(c: char) -> (r: bool)
    ensures
        r == is_control(c),
{
    let n: u32 = c as u32;
    n <= 0x1f || (0x7f <= n && n <= 0x9f)
}

/// The characters of a string.
pub fn chars_of(s: &str) -> (r: Vec<char>)
    ensures
        r@ == s@,
{
    let mut out: Vec<char> = Vec::new();
    for c in it: s.chars()
        invariant
            it.seq() == s@,
            out@ == s@.take(it.index() as int),
    {
        out.push(c);
        assert(s@.take(it.index() as int).push(c) =~= s@.take(it.index() as int + 1));
    }
    assert(s@.take(s@.len() as int) =~= s@);
    out
}

/// The string made of the characters from `from` up to `to`.
pub fn text_between(chars: &Vec<char>, from: usize, to: usize) -> (r: String)
    requires
        from <= to <= chars@.len(),
    ensures
        r@ == chars@.subrange(from as int, to as int),
{
    let mut out = String::new();
    let mut i: usize = from;
    while i < to
        invariant
            from <= i <= to <= chars@.len(),
            out@ == chars@.subrange(from as int, i as int),
        decreases to - i,
    {
        out.push(chars[i]);
        assert(chars@.subrange(from as int, i as int).push(chars@[i as int])
            =~= chars@.subrange(from as int, i + 1));
        i = i + 1;
    }
    out
}

/// A string without white space at either end.
pub fn trim(s: &str) -> (r: String)
    ensures
        r@ == trimmed(s@),
{
    let chars = chars_of(s);
    let mut from: usize = 0;
    assert(s@.subrange(0, s@.len() as int) =~= s@);
    while from < chars.len() && char_is_space(chars[from])
        invariant
            from <= chars@.len(),
            chars@ == s@,
            trimmed_start(s@) == trimmed_start(s@.subrange(from as int, s@.len() as int)),
        ensures
            from <= chars@.len(),
            trimmed_start(s@) == s@.subrange(from as int, s@.len() as int),
        decreases chars@.len() - from,
    {
        assert(s@.subrange(from as int, s@.len() as int).subrange(
            1,
            s@.len() - from,
        ) =~= s@.subrange(from + 1, s@.len() as int));
        from = from + 1;
    }
    let mut to: usize = chars.len();
    while from < to && char_is_space(chars[to - 1])
        invariant
            from <= to <= chars@.len(),
            chars@ == s@,
            trimmed(s@) == trimmed_end(s@.subrange(from as int, to as int)),
        ensures
            from <= to <= chars@.len(),
            trimmed(s@) == s@.subrange(from as int, to as int),
        decreases to,
    {
        assert(s@.subrange(from as int, to as int).drop_last() =~= s@.subrange(from as int, to - 1));
        to = to - 1;
    }
    text_between(&chars, from, to)
}

/// What remains of a text once it is trimmed, if anything.
pub open spec fn kept(s: Seq<char>) -> Option<Seq<char>> {
    if blank(s) {
        None
    } else {
        Some(trimmed(s))
    }
}

/// The characters of an optional string.
pub open spec fn opt_view(s: Option<String>) -> Option<Seq<char>> {
    match s {
        Some(text) => Some(text@),
        None => None,
    }
}

/// An ASCII letter in lower case; any other character as it is.
pub open spec fn ascii_lower(c: char) -> char {
    if 65 <= c as u32 <= 90 {
        (c as u32 + 32) as char
    } else {
        c
    }
}

/// A text with its ASCII letters in lower case.
pub open spec fn lowered(s: Seq<char>) -> Seq<char> {
    Seq::new(s.len(), |i: int| ascii_lower(s[i]))
}

/// An ASCII digit.
pub open spec fn is_digit(c: char) -> bool {
    48 <= c as u32 <= 57
}

/// An ASCII letter or digit.
pub open spec fn is_alphanumeric(c: char) -> bool {
    is_digit(c) || 65 <= c as u32 <= 90 || 97 <= c as u32 <= 122
}

/// The words of a text with one space between them.
pub open spec fn collapsed(s: Seq<char>) -> Seq<char>
    decreases s.len(),
{
    if s.len() == 0 {
        seq![]
    } else if is_space(s.last()) {
        collapsed(s.drop_last())
    } else if s.len() >= 2 && is_space(s[s.len() - 2]) && collapsed(s.drop_last()).len() > 0 {
        collapsed(s.drop_last()).push(' ').push(s.last())
    } else {
        collapsed(s.drop_last()).push(s.last())
    }
}

/// The words of a text: what stands between its white space.
pub open spec fn words(s: Seq<char>) -> Seq<Seq<char>>
    decreases s.len(),
{
    if s.len() == 0 {
        seq![]
    } else if is_space(s.last()) {
        words(s.drop_last())
    } else if s.len() >= 2 && !is_space(s[s.len() - 2]) {
        let head = words(s.drop_last());
        head.drop_last().push(head.last().push(s.last()))
    } else {
        words(s.drop_last()).push(seq![s.last()])
    }
}

/// `s` without the characters `c` at its end.
pub open spec fn without_trailing(s: Seq<char>, c: char) -> Seq<char>
    decreases s.len(),
{
    if s.len() > 0 && s.last() == c {
        without_trailing(s.drop_last(), c)
    } else {
        s
    }
}

/// A number in decimal digits.
pub open spec fn decimal(n: nat) -> Seq<char>
    decreases n,
{
    if n < 10 {
        seq![(48 + n) as char]
    } else {
        decimal(n / 10).push((48 + n % 10) as char)
    }
}

/// A string without trailing white space.
pub fn trim_end(s: &str) -> (r: String)
    ensures
        r@ == trimmed_end(s@),
{
    let chars = chars_of(s);
    let mut to: usize = chars.len();
    assert(s@.subrange(0, s@.len() as int) =~= s@);
    while to > 0 && char_is_space(chars[to - 1])
        invariant
            to <= chars@.len(),
            chars@ == s@,
            trimmed_end(s@) == trimmed_end(s@.subrange(0, to as int)),
        ensures
            to <= chars@.len(),
            trimmed_end(s@) == s@.subrange(0, to as int),
        decreases to,
    {
        assert(s@.subrange(0, to as int).drop_last() =~= s@.subrange(0, to - 1));
        to = to - 1;
    }
    text_between(&chars, 0, to)
}

/// Whether a string holds nothing but white space.
pub fn is_blank(s: &str) -> (r: bool)
    ensures
        r == blank(s@),
{
    trim(s).as_str().is_empty()
}

/// A string trimmed, unless nothing remains of it.
pub fn keep(s: &str) -> (r: Option<String>)
    ensures
        opt_view(r) == kept(s@),
{
    let text = trim(s);
    if text.as_str().is_empty() {
        None
    } else {
        Some(text)
    }
}

/// One string after the other.
pub fn joined(left: &str, right: &str) -> (r: String)
    ensures
        r@ == left@ + right@,
{
    let mut out = left.to_owned();
    out.append(right);
    out
}

/// Three strings, one after the other.
pub fn joined3(first: &str, second: &str, third: &str) -> (r: String)
    ensures
        r@ == first@ + second@ + third@,
{
    let mut out = joined(first, second);
    out.append(third);
    out
}

/// An ASCII letter in lower case; any other character as it is.
pub fn char_lower(c: char) -> (r: char)
    ensures
        r == ascii_lower(c),
{
    let n: u32 = c as u32;
    if 65 <= n && n <= 90 {
        ((n + 32) as u8) as char
    } else {
        c
    }
}

/// A string with its ASCII letters in lower case.
pub fn to_lower(s: &str) -> (r: String)
    ensures
        r@ == lowered(s@),
{
    let mut out = String::new();
    for c in it: s.chars()
        invariant
            it.seq() == s@,
            out@ == lowered(s@).take(it.index() as int),
    {
        out.push(char_lower(c));
        assert(lowered(s@).take(it.index() as int).push(ascii_lower(c)) =~= lowered(s@).take(
            it.index() as int + 1,
        ));
    }
    assert(lowered(s@).take(s@.len() as int) =~= lowered(s@));
    out
}

/// The words of a string with one space between them.
pub fn collapse(s: &str) -> (r: String)
    ensures
        r@ == collapsed(s@),
{
    let chars = chars_of(s);
    let mut out = String::new();
    let mut i: usize = 0;
    let mut some: bool = false;
    while i < chars.len()
        invariant
            i <= chars@.len(),
            chars@ == s@,
            out@ == collapsed(s@.take(i as int)),
            some == (out@.len() > 0),
        decreases chars@.len() - i,
    {
        let c = chars[i];
        let ghost prefix = s@.take(i + 1);
        assert(prefix.drop_last() =~= s@.take(i as int));
        assert(prefix.last() == c);
        if !char_is_space(c) {
            if i > 0 && char_is_space(chars[i - 1]) && some {
                out.push(' ');
            }
            out.push(c);
            some = true;
        }
        i = i + 1;
    }
    assert(s@.take(s@.len() as int) =~= s@);
    out
}

/// A string without the characters `c` at its end.
pub fn trim_end_char(s: &str, c: char) -> (r: String)
    ensures
        r@ == without_trailing(s@, c),
{
    let chars = chars_of(s);
    let mut to: usize = chars.len();
    assert(s@.subrange(0, s@.len() as int) =~= s@);
    while to > 0 && chars[to - 1] == c
        invariant
            to <= chars@.len(),
            chars@ == s@,
            without_trailing(s@, c) == without_trailing(s@.subrange(0, to as int), c),
        ensures
            to <= chars@.len(),
            without_trailing(s@, c) == s@.subrange(0, to as int),
        decreases to,
    {
        assert(s@.subrange(0, to as int).drop_last() =~= s@.subrange(0, to - 1));
        to = to - 1;
    }
    text_between(&chars, 0, to)
}

/// A number in decimal digits.
pub fn decimal_of(n: u128) -> (r: String)
    ensures
        r@ == decimal(n as nat),
    decreases n,
{
    let mut out = String::new();
    if n >= 10 {
        out = decimal_of(n / 10);
    }
    out.push(((48 + (n % 10)) as u8) as char);
    out
}

/// Whether a string begins with another.
pub fn has_prefix(s: &str, prefix: &str) -> (r: bool)
    ensures
        r == prefix@.is_prefix_of(s@),
{
    let chars = chars_of(s);
    let head = chars_of(prefix);
    if head.len() > chars.len() {
        return false;
    }
    same_text(text_between(&chars, 0, head.len()).as_str(), prefix)
}

/// Whether a character occurs in a string.
pub fn has_char(s: &str, c: char) -> (r: bool)
    ensures
        r == s@.contains(c),
{
    for d in it: s.chars()
        invariant
            it.seq() == s@,
            forall|j: int| 0 <= j < it.index() ==> s@[j] != c,
    {
        if d == c {
            assert(s@[it.index() as int] == c);
            return true;
        }
    }
    false
}

/// Whether two optional strings hold the same text.
pub fn same_opt(left: &Option<String>, right: &Option<String>) -> (r: bool)
    ensures
        r == (opt_view(*left) == opt_view(*right)),
{
    match (left, right) {
        (Some(a), Some(b)) => same_text(a, b),
        (None, None) => true,
        _ => false,
    }
}

/// A copy of an optional string.
pub fn copy_opt(s: &Option<String>) -> (r: Option<String>)
    ensures
        opt_view(r) == opt_view(*s),
{
    match s {
        Some(text) => Some(text.clone()),
        None => None,
    }
}

/// The UTF-8 bytes of a text.
pub open spec fn utf8(s: Seq<char>) -> Seq<u8> {
    vstd::utf8::encode_utf8(s)
}

/// An ASCII hexadecimal digit.
pub open spec fn is_hex_digit(c: char) -> bool {
    is_digit(c) || 65 <= c as u32 <= 70 || 97 <= c as u32 <= 102
}

/// A text of 64 hexadecimal digits.
pub open spec fn is_hash(s: Seq<char>) -> bool {
    s.len() == 64 && forall|i: int| 0 <= i < s.len() ==> is_hex_digit(#[trigger] s[i])
}

/// Appends bytes.
pub fn add_bytes(out: &mut Vec<u8>, bytes: &[u8])
    ensures
        final(out)@ == old(out)@ + bytes@,
{
    out.extend_from_slice(bytes);
    assert(out@ =~= old(out)@ + bytes@);
}

/// Appends the UTF-8 bytes of a string.
pub fn add_utf8(out: &mut Vec<u8>, s: &str)
    ensures
        final(out)@ == old(out)@ + utf8(s@),
{
    add_bytes(out, s.as_bytes());
}

/// Whether a character is a hexadecimal digit.
pub fn char_is_hex(c: char) -> (r: bool)
    ensures
        r == is_hex_digit(c),
{
    let n: u32 = c as u32;
    (48 <= n && n <= 57) || (65 <= n && n <= 70) || (97 <= n && n <= 102)
}

/// Whether a string is made of 64 hexadecimal digits.
pub fn hash_shaped(s: &str) -> (r: bool)
    ensures
        r == is_hash(s@),
{
    let chars = chars_of(s);
    if chars.len() != 64 {
        return false;
    }
    let mut i: usize = 0;
    while i < chars.len()
        invariant
            i <= chars@.len(),
            chars@ == s@,
            forall|j: int| 0 <= j < i ==> is_hex_digit(#[trigger] s@[j]),
        decreases chars@.len() - i,
    {
        if !char_is_hex(chars[i]) {
            assert(!is_hex_digit(s@[i as int]));
            return false;
        }
        i = i + 1;
    }
    true
}

/// A string without a suffix, if it ends with it.
pub fn strip_suffix(s: &str, suffix: &str) -> (r: Option<String>)
    ensures
        match r {
            Some(head) => s@ == head@ + suffix@,
            None => !suffix@.is_suffix_of(s@),
        },
{
    let chars = chars_of(s);
    let tail = chars_of(suffix);
    if tail.len() > chars.len() {
        return None;
    }
    let at: usize = chars.len() - tail.len();
    if same_text(&text_between(&chars, at, chars.len()), suffix) {
        let head = text_between(&chars, 0, at);
        assert(s@ =~= head@ + suffix@);
        Some(head)
    } else {
        None
    }
}

/// A text in lower case, by the Unicode rules.
pub uninterp spec fn lowercased(s: Seq<char>) -> Seq<char>;

/// Whether a text is ASCII.
pub open spec fn is_ascii_text(s: Seq<char>) -> bool {
    forall|i: int| 0 <= i < s.len() ==> (#[trigger] s[i]) as u32 <= 0x7f
}

/// `str::to_lowercase` puts a string in lower case. In an ASCII string it maps the letters `A` to
/// `Z` to `a` to `z` and leaves the rest alone.
#[verifier::external_body]
pub(crate) fn to_lowercase(s: &str) -> (r: String)
    ensures
        r@ == lowercased(s@),
        is_ascii_text(s@) ==> r@ == lowered(s@),
{
    s.to_lowercase()
}

/// The text of some bytes, if they are UTF-8.
pub open spec fn bytes_text(bytes: Seq<u8>) -> Option<Seq<char>> {
    if vstd::utf8::valid_utf8(bytes) {
        Some(vstd::utf8::decode_utf8(bytes))
    } else {
        None
    }
}

/// The message about bytes that are not UTF-8.
pub uninterp spec fn utf8_error(bytes: Seq<u8>) -> Seq<char>;

/// `std::str::from_utf8` reads bytes as UTF-8 and fails, with a message about the first fault,
/// where they are not.
#[verifier::external_body]
pub(crate) fn text_from_bytes(bytes: &[u8]) -> (r: Result<String, String>)
    ensures
        match bytes_text(bytes@) {
            Some(text) => r matches Ok(found) && found@ == text,
            None => r matches Err(message) && message@ == utf8_error(bytes@),
        },
{
    std::str::from_utf8(bytes).map(str::to_string).map_err(|error| error.to_string())
}

/// The bytes of an optional byte string.
pub open spec fn opt_bytes(bytes: Option<Vec<u8>>) -> Option<Seq<u8>> {
    match bytes {
        Some(bytes) => Some(bytes@),
        None => None,
    }
}

/// A copy of bytes.
pub fn copy_bytes(bytes: &Vec<u8>) -> (r: Vec<u8>)
    ensures
        r@ == bytes@,
{
    let mut out: Vec<u8> = Vec::new();
    add_bytes(&mut out, bytes);
    assert(out@ =~= bytes@);
    out
}

/// A copy of an optional byte string.
pub fn copy_opt_bytes(bytes: &Option<Vec<u8>>) -> (r: Option<Vec<u8>>)
    ensures
        opt_bytes(r) == opt_bytes(*bytes),
{
    match bytes {
        Some(bytes) => Some(copy_bytes(bytes)),
        None => None,
    }
}

proof fn lemma_trimmed_start(s: Seq<char>)
    ensures
        trimmed_start(s).len() <= s.len(),
        trimmed_start(s).len() > 0 ==> !is_space(trimmed_start(s)[0]),
    decreases s.len(),
{
    if s.len() > 0 && is_space(s[0]) {
        lemma_trimmed_start(s.subrange(1, s.len() as int));
    }
}

/// What trimming the end of a text leaves is a prefix of it.
pub proof fn lemma_trimmed_end(s: Seq<char>)
    ensures
        trimmed_end(s).len() <= s.len(),
        trimmed_end(s) == s.take(trimmed_end(s).len() as int),
        trimmed_end(s).len() > 0 ==> !is_space(trimmed_end(s).last()),
        s.len() > 0 && !is_space(s[0]) ==> trimmed_end(s).len() > 0,
    decreases s.len(),
{
    if s.len() > 0 && is_space(s.last()) {
        lemma_trimmed_end(s.drop_last());
        let n = trimmed_end(s).len() as int;
        assert(s.drop_last().take(n) =~= s.take(n));
    } else {
        assert(s.take(s.len() as int) =~= s);
    }
}

/// Trimming a trimmed text changes nothing.
pub proof fn lemma_trimmed_twice(s: Seq<char>)
    ensures
        trimmed(trimmed(s)) == trimmed(s),
        blank(trimmed(s)) == blank(s),
{
    let start = trimmed_start(s);
    lemma_trimmed_start(s);
    lemma_trimmed_end(start);
    let whole = trimmed(s);
    if whole.len() > 0 {
        assert(whole[0] == start[0]);
        assert(trimmed_start(whole) == whole);
        assert(trimmed_end(whole) == whole);
    }
}

/// The pieces of a text between the characters `c`.
pub open spec fn pieces(s: Seq<char>, c: char) -> Seq<Seq<char>>
    decreases s.len(),
{
    if s.len() == 0 {
        seq![seq![]]
    } else {
        let head = pieces(s.drop_last(), c);
        if s.last() == c {
            head.push(seq![])
        } else {
            head.drop_last().push(head.last().push(s.last()))
        }
    }
}

/// Texts, as contracts speak of them.
pub open spec fn text_views(texts: Seq<String>) -> Seq<Seq<char>> {
    texts.map_values(|text: String| text@)
}

/// The pieces of a string between the characters `c`.
pub fn split(s: &str, c: char) -> (r: Vec<String>)
    ensures
        text_views(r@) == pieces(s@, c),
        r@.len() >= 1,
{
    let chars = chars_of(s);
    let mut done: Vec<String> = Vec::new();
    let mut current = String::new();
    let mut i: usize = 0;
    assert(text_views(done@).push(current@) =~= pieces(s@.take(0), c));
    while i < chars.len()
        invariant
            i <= chars@.len(),
            chars@ == s@,
            text_views(done@).push(current@) == pieces(s@.take(i as int), c),
        decreases chars@.len() - i,
    {
        let ghost before = text_views(done@).push(current@);
        assert(s@.take(i + 1).drop_last() =~= s@.take(i as int));
        assert(before.last() == current@ && before.drop_last() =~= text_views(done@));
        if chars[i] == c {
            let ghost earlier = done@;
            done.push(current);
            current = String::new();
            assert(text_views(done@) =~= text_views(earlier).push(before.last()));
            assert(text_views(done@).push(current@) =~= pieces(s@.take(i + 1), c));
        } else {
            current.push(chars[i]);
            assert(text_views(done@).push(current@) =~= pieces(s@.take(i + 1), c));
        }
        i = i + 1;
    }
    assert(s@.take(s@.len() as int) =~= s@);
    let ghost earlier = done@;
    done.push(current);
    assert(text_views(done@) =~= text_views(earlier).push(current@));
    done
}

/// Different numbers have different digits.
pub proof fn lemma_decimal_injective(a: nat, b: nat)
    requires
        decimal(a) == decimal(b),
    ensures
        a == b,
    decreases a,
{
    lemma_decimal_length(a);
    lemma_decimal_length(b);
    if a < 10 || b < 10 {
        if a >= 10 {
            lemma_decimal_length(a / 10);
        }
        if b >= 10 {
            lemma_decimal_length(b / 10);
        }
        assert(decimal(a)[0] == decimal(b)[0]);
        assert(decimal(a)[0] as int == 48 + a && decimal(b)[0] as int == 48 + b);
    } else {
        assert(decimal(a).drop_last() =~= decimal(a / 10));
        assert(decimal(b).drop_last() =~= decimal(b / 10));
        assert(decimal(a).last() == decimal(b).last());
        assert(decimal(a).last() as int == 48 + a % 10 && decimal(b).last() as int == 48 + b % 10);
        lemma_decimal_injective(a / 10, b / 10);
    }
}

proof fn lemma_decimal_length(n: nat)
    ensures
        decimal(n).len() >= 1,
        n < 10 <==> decimal(n).len() == 1,
    decreases n,
{
    if n >= 10 {
        lemma_decimal_length(n / 10);
    }
}

/// A string without its leading white space.
pub fn trim_start(s: &str) -> (r: String)
    ensures
        r@ == trimmed_start(s@),
{
    let chars = chars_of(s);
    let mut from: usize = 0;
    assert(s@.subrange(0, s@.len() as int) =~= s@);
    while from < chars.len() && char_is_space(chars[from])
        invariant
            from <= chars@.len(),
            chars@ == s@,
            trimmed_start(s@) == trimmed_start(s@.subrange(from as int, s@.len() as int)),
        ensures
            from <= chars@.len(),
            trimmed_start(s@) == s@.subrange(from as int, s@.len() as int),
        decreases chars@.len() - from,
    {
        assert(s@.subrange(from as int, s@.len() as int).subrange(
            1,
            s@.len() - from,
        ) =~= s@.subrange(from + 1, s@.len() as int));
        from = from + 1;
    }
    text_between(&chars, from, chars.len())
}

/// Texts with a separator between them.
pub open spec fn joined_by(texts: Seq<Seq<char>>, separator: Seq<char>) -> Seq<char>
    decreases texts.len(),
{
    if texts.len() == 0 {
        seq![]
    } else if texts.len() == 1 {
        texts[0]
    } else {
        joined_by(texts.drop_last(), separator) + separator + texts.last()
    }
}

/// Whether the last of some texts that is this one stands at `at`.
pub open spec fn last_at(texts: Seq<Seq<char>>, text: Seq<char>, at: int) -> bool {
    &&& 0 <= at < texts.len()
    &&& texts[at] == text
    &&& forall|i: int| at < i < texts.len() ==> #[trigger] texts[i] != text
}

/// Where the last of some strings that is this one stands.
pub fn find_last(texts: &Vec<String>, text: &str) -> (r: Option<usize>)
    ensures
        match r {
            Some(at) => last_at(text_views(texts@), text@, at as int),
            None => !text_views(texts@).contains(text@),
        },
{
    let ghost views = text_views(texts@);
    let mut at: usize = texts.len();
    while at > 0
        invariant
            at <= texts@.len(),
            views == text_views(texts@),
            forall|i: int| at <= i < texts@.len() ==> #[trigger] views[i] != text@,
        decreases at,
    {
        at = at - 1;
        assert(views[at as int] == texts@[at as int]@);
        if same_text(&texts[at], text) {
            return Some(at);
        }
    }
    None
}

/// Strings with a separator between them.
pub fn join(texts: &Vec<String>, separator: &str) -> (r: String)
    ensures
        r@ == joined_by(text_views(texts@), separator@),
{
    let mut out = String::new();
    let mut i: usize = 0;
    let ghost all = text_views(texts@);
    while i < texts.len()
        invariant
            i <= texts@.len(),
            all == text_views(texts@),
            out@ == joined_by(all.take(i as int), separator@),
        decreases texts@.len() - i,
    {
        assert(all.take(i + 1).drop_last() =~= all.take(i as int));
        assert(all[i as int] == texts@[i as int]@);
        if i > 0 {
            out.append(separator);
        }
        out.append(&texts[i]);
        assert(out@ =~= joined_by(all.take(i + 1), separator@));
        i = i + 1;
    }
    assert(all.take(all.len() as int) =~= all);
    out
}

/// A text with each `from` replaced.
pub open spec fn replaced(s: Seq<char>, from: char, to: char) -> Seq<char> {
    s.map_values(
        |c: char|
            if c == from {
                to
            } else {
                c
            },
    )
}

/// The characters from a place on, with each `from` replaced.
pub fn replace_after(chars: &Vec<char>, start: usize, from: char, to: char) -> (r: String)
    requires
        start <= chars@.len(),
    ensures
        r@ == replaced(chars@.skip(start as int), from, to),
{
    let mut out = String::new();
    let mut i: usize = start;
    let ghost whole = replaced(chars@.skip(start as int), from, to);
    while i < chars.len()
        invariant
            start <= i <= chars@.len(),
            whole == replaced(chars@.skip(start as int), from, to),
            out@ == whole.take(i - start),
        decreases chars@.len() - i,
    {
        let c = chars[i];
        assert(chars@.skip(start as int)[i - start] == c);
        out.push(
            if c == from {
                to
            } else {
                c
            },
        );
        assert(out@ =~= whole.take(i + 1 - start));
        i = i + 1;
    }
    assert(whole.take(whole.len() as int) =~= whole);
    out
}

/// The first characters of a string, as many as these or all of them.
pub fn first_chars(s: &str, count: usize) -> (r: String)
    ensures
        r@ == (if s@.len() <= count {
            s@
        } else {
            s@.take(count as int)
        }),
{
    let chars = chars_of(s);
    let to: usize = if chars.len() <= count {
        chars.len()
    } else {
        count
    };
    assert(s@.subrange(0, to as int) =~= s@.take(to as int));
    assert(s@.take(s@.len() as int) =~= s@);
    text_between(&chars, 0, to)
}

/// What trimming leaves is a part of the text.
pub proof fn lemma_trimmed_part(s: Seq<char>) -> (part: (int, int))
    ensures
        0 <= part.0 <= part.1 <= s.len(),
        trimmed(s) == s.subrange(part.0, part.1),
{
    let from = lemma_trimmed_start_part(s);
    let start = trimmed_start(s);
    lemma_trimmed_end(start);
    let to = from + trimmed(s).len();
    assert(trimmed(s) =~= s.subrange(from, to));
    (from, to)
}

proof fn lemma_trimmed_start_part(s: Seq<char>) -> (from: int)
    ensures
        0 <= from <= s.len(),
        trimmed_start(s) == s.subrange(from, s.len() as int),
    decreases s.len(),
{
    if s.len() > 0 && is_space(s[0]) {
        let rest = s.subrange(1, s.len() as int);
        let from = lemma_trimmed_start_part(rest);
        assert(rest.subrange(from, rest.len() as int) =~= s.subrange(from + 1, s.len() as int));
        from + 1
    } else {
        assert(s.subrange(0, s.len() as int) =~= s);
        0
    }
}

/// Whether two byte strings are equal.
pub fn same_bytes(left: &[u8], right: &[u8]) -> (r: bool)
    ensures
        r == (left@ == right@),
{
    if left.len() != right.len() {
        return false;
    }
    let mut i: usize = 0;
    while i < left.len()
        invariant
            i <= left@.len() == right@.len(),
            forall|j: int| 0 <= j < i ==> left@[j] == right@[j],
        decreases left@.len() - i,
    {
        if left[i] != right[i] {
            return false;
        }
        i = i + 1;
    }
    assert(left@ =~= right@);
    true
}

} // verus!
