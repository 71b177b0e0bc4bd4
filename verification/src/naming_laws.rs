//! What holds of file names: which names are kept as they were suggested, what is taken out of the
//! others, and which extension they get.
use crate::error::{CodexxError, ErrorView};
use crate::naming::{
    char_is_forbidden, char_width, edge_end, edge_start, fit, fitted, is_edge, is_forbidden,
    lemma_first_piece, lemma_fitted, stands_for_device, trim_edges, uppered,
};
use crate::text::{is_space, to_lower, trimmed, utf8};
use crate::transfers::{
    archive_file, conversation_file, export_name, permitted, require_extension, suggested_stem,
};
use vstd::prelude::*;

verus! {

/// No file name may have a control character, a slash, a backslash, a colon, a star, a question
/// mark, a double quote, an angle bracket or a bar; it may have any other.
pub proof fn law_forbidden_characters(c: char, r: bool)
    requires
        call_ensures(char_is_forbidden, (c,), r),
    ensures
        r <==> (c as u32 <= 0x1f || 0x7f <= c as u32 <= 0x9f || c as u32 == 0x2f || c as u32 == 0x5c
            || c as u32 == 0x3a || c as u32 == 0x2a || c as u32 == 0x3f || c as u32 == 0x22
            || c as u32 == 0x3c || c as u32 == 0x3e || c as u32 == 0x7c),
{
}

/// What fits is the beginning of a text, whole where it is short enough, and otherwise as much of
/// it as has room.
pub proof fn law_as_much_as_fits_is_kept(chars: &Vec<char>, limit: usize, r: Vec<char>)
    requires
        call_ensures(fit, (chars, limit), r),
    ensures
        r@.len() <= chars@.len(),
        r@ == chars@.take(r@.len() as int),
        utf8(r@).len() <= limit,
        utf8(chars@).len() <= limit ==> r@ == chars@,
        r@.len() < chars@.len() ==> utf8(chars@.take(r@.len() as int + 1)).len() > limit,
{
    lemma_fitted(chars@, limit as nat);
}

proof fn lemma_start(s: Seq<char>, spaces: bool) -> (a: int)
    ensures
        0 <= a <= s.len(),
        edge_start(s, spaces) == s.subrange(a, s.len() as int),
        forall|i: int| 0 <= i < a ==> is_edge(#[trigger] s[i], spaces),
        a < s.len() ==> !is_edge(s[a], spaces),
    decreases s.len(),
{
    if s.len() > 0 && is_edge(s[0], spaces) {
        let rest = s.subrange(1, s.len() as int);
        let a = lemma_start(rest, spaces);
        assert(rest.subrange(a, rest.len() as int) =~= s.subrange(a + 1, s.len() as int));
        assert forall|i: int| 0 <= i < a + 1 implies is_edge(#[trigger] s[i], spaces) by {
            if i > 0 {
                assert(s[i] == rest[i - 1]);
            }
        }
        a + 1
    } else {
        assert(s.subrange(0, s.len() as int) =~= s);
        0
    }
}

proof fn lemma_end(s: Seq<char>, spaces: bool) -> (b: int)
    ensures
        0 <= b <= s.len(),
        edge_end(s, spaces) == s.subrange(0, b),
        forall|i: int| b <= i < s.len() ==> is_edge(#[trigger] s[i], spaces),
        b > 0 ==> !is_edge(s[b - 1], spaces),
    decreases s.len(),
{
    if s.len() > 0 && is_edge(s.last(), spaces) {
        let head = s.drop_last();
        let b = lemma_end(head, spaces);
        assert(head.subrange(0, b) =~= s.subrange(0, b));
        assert forall|i: int| b <= i < s.len() implies is_edge(#[trigger] s[i], spaces) by {
            if i < head.len() {
                assert(s[i] == head[i]);
            }
        }
        b
    } else {
        assert(s.subrange(0, s.len() as int) =~= s);
        s.len() as int
    }
}

/// Only dots, and white space where that is asked for, are taken off the edges of a name; none of
/// them is left there, and everything between stays.
pub proof fn law_edges_lose_only_dots_and_space(chars: &Vec<char>, spaces: bool, r: String) -> (at: int)
    requires
        call_ensures(trim_edges, (chars, spaces), r),
    ensures
        0 <= at && at + r@.len() <= chars@.len(),
        r@ == chars@.subrange(at, at + r@.len()),
        forall|i: int|
            0 <= i < chars@.len() && !(at <= i < at + r@.len()) ==> (#[trigger] chars@[i] == '.' || (
            spaces && is_space(chars@[i]))),
        r@.len() > 0 ==> r@[0] != '.' && r@.last() != '.',
        r@.len() > 0 && spaces ==> !is_space(r@[0]) && !is_space(r@.last()),
{
    let s = chars@;
    let a = lemma_start(s, spaces);
    let start = edge_start(s, spaces);
    let b = lemma_end(start, spaces);
    assert(r@ =~= s.subrange(a, a + b));
    assert forall|i: int| 0 <= i < s.len() && !(a <= i < a + b) implies (#[trigger] s[i] == '.' || (
    spaces && is_space(s[i]))) by {
        if i < a {
            assert(is_edge(s[i], spaces));
        } else {
            assert(is_edge(start[i - a], spaces));
            assert(start[i - a] == s[i]);
        }
    }
    if r@.len() > 0 {
        assert(r@[0] == s[a]);
        assert(r@.last() == start[b - 1]);
    }
    a
}

proof fn lemma_all_permitted(s: Seq<char>)
    requires
        forall|i: int| 0 <= i < s.len() ==> !is_forbidden(#[trigger] s[i]),
    ensures
        permitted(s) == s,
    decreases s.len(),
{
    reveal(Seq::filter);
    if s.len() > 0 {
        assert forall|i: int| 0 <= i < s.drop_last().len() implies !is_forbidden(
            #[trigger] s.drop_last()[i],
        ) by {
            assert(s[i] == s.drop_last()[i]);
        }
        lemma_all_permitted(s.drop_last());
        assert(s.drop_last().push(s.last()) =~= s);
    } else {
        assert(permitted(s) =~= s);
    }
}

/// A suggested name that is fit for a file is kept whole and gets the extension; one that stands
/// for a device gets an underscore before it. Where nothing is suggested the fallback is taken.
pub proof fn law_fit_names_are_kept(
    suggested: &str,
    fallback: &str,
    extension: &str,
    stem: &str,
    device: bool,
    r: String,
)
    requires
        call_ensures(export_name, (suggested, fallback, extension), r),
        call_ensures(stands_for_device, (stem,), device),
        (stem@ == fallback@ && trimmed(suggested@).len() == 0) || (stem@ == suggested@ && stem@.len()
            > 0 && utf8(stem@).len() <= 180 && !is_space(stem@[0]) && !is_space(stem@.last())
            && stem@[0] != '.' && stem@.last() != '.' && forall|i: int|
            0 <= i < stem@.len() ==> !is_forbidden(#[trigger] stem@[i])),
    ensures
        !device ==> r@ == stem@ + seq!['.'] + extension@,
        device ==> r@ == seq!['_'] + stem@ + seq!['.'] + extension@,
{
    if trimmed(suggested@).len() == 0 {
        assert(permitted(trimmed(suggested@)) =~= seq![]) by {
            reveal(Seq::filter);
        }
        assert(suggested_stem(suggested@).len() == 0);
    } else {
        let s = stem@;
        crate::text::lemma_trimmed_end(s);
        assert(crate::text::trimmed_start(s) == s);
        assert(crate::text::trimmed_end(s) == s);
        lemma_all_permitted(s);
        assert(fitted(s, 180) == s);
        assert(edge_start(s, true) == s);
        assert(edge_end(s, true) == s);
    }
    assert(Seq::<char>::empty() + stem@ =~= stem@);
}

/// A file name ends with its extension, and what is suggested leaves nothing forbidden in it.
pub proof fn law_names_have_their_extension(
    suggested: &str,
    fallback: &str,
    extension: &str,
    i: int,
    r: String,
)
    requires
        call_ensures(export_name, (suggested, fallback, extension), r),
    ensures
        r@.len() > extension@.len(),
        r@.skip(r@.len() - extension@.len()) == extension@,
        r@[r@.len() - extension@.len() - 1] == '.',
        (forall|k: int| 0 <= k < fallback@.len() ==> !is_forbidden(#[trigger] fallback@[k])) && (
        forall|k: int| 0 <= k < extension@.len() ==> !is_forbidden(#[trigger] extension@[k])) && 0
            <= i < r@.len() ==> !is_forbidden(r@[i]),
{
    assert(r@.skip(r@.len() - extension@.len()) =~= extension@);
    if (forall|k: int| 0 <= k < fallback@.len() ==> !is_forbidden(#[trigger] fallback@[k])) && (
    forall|k: int| 0 <= k < extension@.len() ==> !is_forbidden(#[trigger] extension@[k])) {
        crate::transfers::law_default_name_is_permitted(suggested@, fallback@, extension@);
    }
}

/// A file is saved only under its extension, in whatever case.
pub proof fn law_only_the_extension_is_accepted(
    found: &Option<String>,
    extension: &str,
    given: &str,
    left: String,
    right: String,
    r: Result<(), CodexxError>,
)
    requires
        call_ensures(require_extension, (found, extension), r),
        *found is Some ==> given@ == found->0@,
        call_ensures(to_lower, (given,), left),
        call_ensures(to_lower, (extension,), right),
    ensures
        r is Ok <==> *found is Some && left@ == right@,
        r is Err ==> r->Err_0@ == ErrorView::Config("请使用 ."@ + extension@ + " 文件名保存。"@),
{
}

/// One conversation is saved as a text, several as an archive, and none not at all; the name comes
/// from what is suggested.
pub proof fn law_conversations_choose_their_format(
    count: usize,
    suggested: &str,
    extension: &str,
    name: String,
    r: Result<(String, &'static str), CodexxError>,
)
    requires
        call_ensures(conversation_file, (count, suggested), r),
        extension@ == if count == 1 {
            "md"@
        } else {
            "zip"@
        },
        call_ensures(export_name, (suggested, "Codex-sessions", extension), name),
    ensures
        r is Ok <==> count > 0,
        r is Ok ==> r->Ok_0.1@ == extension@,
        r is Ok ==> r->Ok_0.0@ == name@,
{
}

/// An archive is named after what it holds and the day; there are archives of skills and of servers
/// only.
pub proof fn law_archives_are_named_after_their_kind(
    kind: &str,
    date: &str,
    r: Result<(String, &'static str), CodexxError>,
)
    requires
        call_ensures(archive_file, (kind, date), r),
    ensures
        r is Ok <==> kind@ == "mcp"@ || kind@ == "skills"@,
        kind@ == "mcp"@ ==> r->Ok_0.1@ == "MCP"@ && r->Ok_0.0@ == "Astra-"@ + "MCP"@ + "-"@ + date@
            + ".zip"@,
        kind@ == "skills"@ ==> r->Ok_0.1@ == "Skills"@ && r->Ok_0.0@ == "Astra-"@ + "Skills"@ + "-"@
            + date@ + ".zip"@,
{
    reveal_strlit("skills");
    reveal_strlit("mcp");
    assert("skills"@.len() == 6 && "mcp"@.len() == 3);
}

/// Whether a name stands for a device depends on what stands before its first dot alone.
pub proof fn law_endings_hide_no_device(
    stem: &str,
    name: &str,
    rest: Seq<char>,
    r: bool,
    other: bool,
)
    requires
        !stem@.contains('.'),
        name@ == stem@ + seq!['.'] + rest,
        call_ensures(stands_for_device, (stem,), r),
        call_ensures(stands_for_device, (name,), other),
    ensures
        r == other,
{
    let n = stem@.len() as int;
    assert forall|i: int| 0 <= i < n implies stem@[i] != '.' by {
        assert(stem@.contains(stem@[i]));
    }
    lemma_first_piece(stem@, '.', n);
    assert(forall|i: int| 0 <= i < n ==> name@[i] == stem@[i]);
    assert(name@[n] == '.');
    lemma_first_piece(name@, '.', n);
    assert(name@.take(n) =~= stem@);
    assert(stem@.take(n) =~= stem@);
}

/// The names without a dot that stand for devices: the four fixed ones and the numbered ports, in
/// whatever case.
pub proof fn law_devices_have_fixed_names(stem: &str, upper: Seq<char>, r: bool)
    requires
        !stem@.contains('.'),
        call_ensures(stands_for_device, (stem,), r),
        upper.len() == stem@.len(),
        forall|i: int|
            0 <= i < upper.len() ==> (#[trigger] upper[i]) == (if 97 <= stem@[i] as u32 <= 122 {
                (stem@[i] as u32 - 32) as char
            } else {
                stem@[i]
            }),
    ensures
        r <==> upper == "CON"@ || upper == "PRN"@ || upper == "AUX"@ || upper == "NUL"@ || (upper.len()
            == 4 && (upper.take(3) == "COM"@ || upper.take(3) == "LPT"@) && 48 <= upper[3] as u32
            <= 57),
{
    let n = stem@.len() as int;
    assert forall|i: int| 0 <= i < n implies stem@[i] != '.' by {
        assert(stem@.contains(stem@[i]));
    }
    lemma_first_piece(stem@, '.', n);
    assert(stem@.take(n) =~= stem@);
    assert forall|i: int| 0 <= i < n implies #[trigger] uppered(stem@)[i] == upper[i] by {
        assert(uppered(stem@)[i] == crate::naming::ascii_upper(stem@[i]));
    }
    assert(uppered(stem@) =~= upper);
}

/// A character takes one to four bytes, by its number.
pub proof fn law_widths_of_characters(c: char, r: usize)
    requires
        call_ensures(char_width, (c,), r),
    ensures
        1 <= r <= 4,
        r == utf8(seq![c]).len(),
{
}

} // verus!
