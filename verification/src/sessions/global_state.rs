//! The paths of workspaces.
use crate::text::{
    chars_of, has_prefix, joined, lowered, opt_view, replace_after, replaced, to_lower, trim,
    trimmed,
};
use vstd::prelude::*;

verus! {

/// The ordinary form of a workspace's path: an extended-length path loses its prefix, a network
/// share keeps its two leading backslashes.
pub open spec fn workspace_path(value: Seq<char>) -> Option<Seq<char>> {
    let path = trimmed(value);
    if path.len() == 0 {
        None
    } else if "\\\\?\\unc\\"@.is_prefix_of(lowered(path)) {
        Some("\\\\"@ + replaced(path.skip(8), '/', '\\'))
    } else if "\\\\?\\"@.is_prefix_of(path) {
        Some(replaced(path.skip(4), '\\', '/'))
    } else {
        Some(path)
    }
}

/// The ordinary form of a workspace's path, if there is a path.
pub fn normalize_workspace_path(value: &str) -> (r: Option<String>)
    ensures
        opt_view(r) == workspace_path(value@),
{
    let path = trim(value);
    let chars = chars_of(&path);
    if chars.len() == 0 {
        return None;
    }
    proof {
        reveal_strlit("\\\\?\\unc\\");
        reveal_strlit("\\\\?\\");
    }
    if has_prefix(&to_lower(&path), "\\\\?\\unc\\") {
        return Some(joined("\\\\", &replace_after(&chars, 8, '/', '\\')));
    }
    if has_prefix(&path, "\\\\?\\") {
        return Some(replace_after(&chars, 4, '\\', '/'));
    }
    Some(path)
}

} // verus!
