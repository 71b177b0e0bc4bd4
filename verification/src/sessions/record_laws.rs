//! What holds of reading the records of conversations: where a line ends, how much of it is read,
//! and which texts were put in rather than said; and of the paths of workspaces.
use crate::sessions::global_state::normalize_workspace_path;
use crate::sessions::records::{
    drain_line, has_content, injected_user_context, law_reads_stop_at_the_line, lemma_line,
    line_agrees, JsonLine,
};
use crate::text::{to_lower, trim, trimmed_start};
use vstd::prelude::*;

verus! {

/// A text was put in rather than said just if, but for white space, it begins with one of the marks
/// of instructions and context.
pub proof fn law_put_in_texts_have_a_mark(text: &str, start: &str, r: bool)
    requires
        call_ensures(injected_user_context, (text,), r),
        start@ == trimmed_start(text@),
    ensures
        r <==> "# AGENTS.md instructions"@.is_prefix_of(start@)
            || "<environment_context>"@.is_prefix_of(start@)
            || "<permissions instructions>"@.is_prefix_of(start@)
            || "<app-context>"@.is_prefix_of(start@) || "<user_instructions>"@.is_prefix_of(start@),
{
}

/// A new line has nothing read and has not ended.
pub proof fn law_new_lines_are_unread(r: JsonLine)
    requires
        call_ensures(JsonLine::new, (), r),
    ensures
        !r.ended,
        r.consumed == 0,
        r.buffered == 0,
        !r.has_content,
{
}

/// A read takes bytes of its line only, at least one where there are any and room for them, and
/// counts them. The line has ended just where the last byte that was taken is a line break, or
/// there are no more bytes. A line that has ended gives nothing more, and one that is too long is
/// refused.
pub proof fn law_reads_take_one_line(
    line: &mut JsonLine,
    available: &[u8],
    room: usize,
    i: int,
    r: Result<usize, ()>,
)
    requires
        call_ensures(JsonLine::read, (line, available, room), r),
        line_agrees(*old(line), available@),
        available@.len() <= usize::MAX,
    ensures
        old(line).ended || room == 0 ==> r is Ok && r->Ok_0 == 0 && *final(line) == *old(line),
        !old(line).ended && room > 0 && available@.len() == 0 ==> r is Ok && r->Ok_0 == 0
            && final(line).ended,
        r is Err <==> !old(line).ended && room > 0 && available@.len() > 0 && old(line).consumed
            >= 67_108_864,
        r is Ok && !old(line).ended && room > 0 && available@.len() > 0 ==> ({
            let n = r->Ok_0;
            &&& 0 < n <= available@.len() && n <= room
            &&& 0 <= i < n - 1 ==> available@[i] != 10
            &&& final(line).ended <==> available@[n - 1] == 10
            &&& final(line).consumed == old(line).consumed + n
            &&& final(line).consumed <= 67_108_864
            &&& 0 <= i < n && available@[i] != 9 && available@[i] != 10 && available@[i] != 12
                && available@[i] != 13 && available@[i] != 32 ==> final(line).has_content
            &&& old(line).has_content ==> final(line).has_content
            &&& old(line).buffered == 0 && n < room && n < available@.len() && final(line).consumed
                < 67_108_864 ==> available@[n - 1] == 10
        }),
{
    if !old(line).ended && old(line).consumed < 67_108_864 && available@.len() > 0 && room > 0 {
        law_reads_stop_at_the_line(*old(line), available@, room as nat);
        lemma_line(available@);
        if r is Ok {
            let n = r->Ok_0;
            let taken = available@.take(n as int);
            if 0 <= i < n && available@[i] != 9 && available@[i] != 10 && available@[i] != 12
                && available@[i] != 13 && available@[i] != 32 {
                assert(taken[i] == available@[i]);
                assert(!crate::sessions::records::is_byte_space(taken[i]));
                assert(has_content(taken));
            }
        }
    }
}

/// Passing a line over takes it up to its line break, or all there is where there is none; it has
/// ended just where the line break was taken or nothing is left.
pub proof fn law_lines_are_passed_over_whole(available: &[u8], i: int, r: (usize, bool))
    requires
        call_ensures(drain_line, (available,), r),
    ensures
        r.0 <= available@.len(),
        available@.len() > 0 ==> r.0 > 0,
        0 <= i < r.0 - 1 ==> available@[i] != 10,
        r.0 < available@.len() ==> available@[r.0 - 1] == 10,
        available@.len() == 0 ==> r.1,
        available@.len() > 0 ==> (r.1 <==> available@[r.0 - 1] == 10),
{
    lemma_line(available@);
}

/// The path of a workspace is kept as it is without the white space around it. The long form of a
/// path loses its prefix and gets slashes; that of a share gets its two backslashes back. A blank
/// path is none.
pub proof fn law_workspace_paths_lose_their_long_form(
    value: &str,
    text: String,
    given: &str,
    lower: String,
    i: int,
    r: Option<String>,
)
    requires
        call_ensures(normalize_workspace_path, (value,), r),
        call_ensures(trim, (value,), text),
        given@ == text@,
        call_ensures(to_lower, (given,), lower),
    ensures
        r is None <==> text@.len() == 0,
        r is Some && !"\\\\?\\"@.is_prefix_of(text@) && !"\\\\?\\unc\\"@.is_prefix_of(lower@)
            ==> r->0@ == text@,
        r is Some && "\\\\?\\unc\\"@.is_prefix_of(lower@) ==> r->0@.len() == text@.len() - 6
            && r->0@[0] == '\\' && r->0@[1] == '\\' && (2 <= i < r->0@.len() ==> r->0@[i] == (
        if text@[i + 6] == '/' {
            '\\'
        } else {
            text@[i + 6]
        })),
        r is Some && "\\\\?\\"@.is_prefix_of(text@) && !"\\\\?\\unc\\"@.is_prefix_of(lower@)
            ==> r->0@.len() == text@.len() - 4 && (0 <= i < r->0@.len() ==> r->0@[i] == (
        if text@[i + 4] == '\\' {
            '/'
        } else {
            text@[i + 4]
        })),
{
    reveal_strlit("\\\\?\\");
    reveal_strlit("\\\\?\\unc\\");
    reveal_strlit("\\\\");
}

} // verus!
