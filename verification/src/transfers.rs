//! The names of the files that are saved.
use crate::error::{config3, CodexxError, ErrorView};
use crate::naming::{
    char_is_forbidden, edges_off, first_at, fit, fitted, is_forbidden, lemma_edges_off,
    lemma_first_at, lemma_first_piece, lemma_fitted, lemma_one_byte, lemma_utf8_concat,
    names_device, stands_for_device, trim_edges, uppered, MAX_STEM_BYTES,
};
use crate::text::{chars_of, joined3, lowered, same_text, to_lower, trim, trimmed, utf8};
use vstd::prelude::*;

verus! {

/// The characters of a text that every file system takes.
pub open spec fn permitted(s: Seq<char>) -> Seq<char> {
    s.filter(|c: char| !is_forbidden(c))
}

/// The part of a suggested name that is taken over.
pub open spec fn suggested_stem(suggested: Seq<char>) -> Seq<char> {
    edges_off(fitted(permitted(trimmed(suggested)), MAX_STEM_BYTES as nat), true)
}

/// The name that a file is saved under by default.
pub open spec fn default_name(
    suggested: Seq<char>,
    fallback: Seq<char>,
    extension: Seq<char>,
) -> Seq<char> {
    let taken = suggested_stem(suggested);
    let stem = if taken.len() == 0 {
        fallback
    } else {
        taken
    };
    (if names_device(stem) {
        seq!['_']
    } else {
        seq![]
    }) + stem + seq!['.'] + extension
}

/// The name that a file is saved under by default: what is usable of the suggested one, or the
/// fallback.
pub fn export_name(suggested: &str, fallback: &str, extension: &str) -> (r: String)
    ensures
        r@ == default_name(suggested@, fallback@, extension@),
{
    let wanted = chars_of(&trim(suggested));
    let mut kept: Vec<char> = Vec::new();
    let mut i: usize = 0;
    let ghost all = trimmed(suggested@);
    assert(permitted(all.take(0)) =~= Seq::<char>::empty()) by {
        reveal(Seq::filter);
    }
    while i < wanted.len()
        invariant
            i <= wanted@.len(),
            all == wanted@,
            kept@ == permitted(all.take(i as int)),
        decreases wanted@.len() - i,
    {
        proof {
            reveal(Seq::filter);
            assert(all.take(i + 1).drop_last() =~= all.take(i as int));
        }
        if !char_is_forbidden(wanted[i]) {
            kept.push(wanted[i]);
        }
        i = i + 1;
    }
    assert(all.take(all.len() as int) =~= all);
    let fitting = fit(&kept, MAX_STEM_BYTES);
    let taken = trim_edges(&fitting, true);
    let count: usize = chars_of(&taken).len();
    let stem = if count == 0 {
        fallback.to_owned()
    } else {
        taken
    };
    let mut name = String::new();
    if stands_for_device(&stem) {
        name.push('_');
    }
    name.append(&stem);
    name.push('.');
    name.append(extension);
    assert(name@ =~= default_name(suggested@, fallback@, extension@));
    name
}

/// Whether a chosen file has the extension that its contents need; the extension is given if the
/// file has one.
pub fn require_extension(found: &Option<String>, extension: &str) -> (r: Result<(), CodexxError>)
    ensures
        if *found is Some && lowered((*found)->0@) == lowered(extension@) {
            r is Ok
        } else {
            r matches Err(error) && error@ == ErrorView::Config(
                "请使用 ."@ + extension@ + " 文件名保存。"@,
            )
        },
{
    if let Some(found) = found {
        if same_text(&to_lower(found), &to_lower(extension)) {
            return Ok(());
        }
    }
    Err(config3("请使用 .", extension, " 文件名保存。"))
}

/// What a save of conversations starts from: the default name and the extension, one file for one
/// conversation and an archive for more.
pub fn conversation_file(count: usize, suggested: &str) -> (r: Result<
    (String, &'static str),
    CodexxError,
>)
    ensures
        if count == 0 {
            r matches Err(error) && error@ == ErrorView::Config("请先选择要导出的会话。"@)
        } else {
            let extension = if count == 1 {
                "md"@
            } else {
                "zip"@
            };
            r matches Ok((name, found)) && found@ == extension && name@ == default_name(
                suggested@,
                "Codex-sessions"@,
                extension,
            )
        },
{
    if count == 0 {
        return Err(CodexxError::Config("请先选择要导出的会话。".to_owned()));
    }
    let extension = if count == 1 {
        "md"
    } else {
        "zip"
    };
    Ok((export_name(suggested, "Codex-sessions", extension), extension))
}

/// What an archive of this kind is called; nothing for a kind that cannot be saved.
pub open spec fn kind_label(kind: Seq<char>) -> Option<Seq<char>> {
    if kind == "mcp"@ {
        Some("MCP"@)
    } else if kind == "skills"@ {
        Some("Skills"@)
    } else {
        None
    }
}

/// The default name and the label of an archive, given today's date.
pub fn archive_file(kind: &str, date: &str) -> (r: Result<(String, &'static str), CodexxError>)
    ensures
        match kind_label(kind@) {
            None => r matches Err(error) && error@ == ErrorView::Config(
                "不支持的导出类型。"@,
            ),
            Some(label) => r matches Ok((name, found)) && found@ == label && name@ == "Astra-"@
                + label + "-"@ + date@ + ".zip"@,
        },
{
    let label = if same_text(kind, "mcp") {
        "MCP"
    } else if same_text(kind, "skills") {
        "Skills"
    } else {
        return Err(CodexxError::Config("不支持的导出类型。".to_owned()));
    };
    let mut name = joined3("Astra-", label, "-");
    name.append(date);
    name.append(".zip");
    Ok((name, label))
}

/// A default name never stands for a device of Windows.
pub proof fn law_default_name_is_no_device(
    suggested: Seq<char>,
    fallback: Seq<char>,
    extension: Seq<char>,
)
    ensures
        !names_device(default_name(suggested, fallback, extension)),
{
    let taken = suggested_stem(suggested);
    let stem = if taken.len() == 0 {
        fallback
    } else {
        taken
    };
    let name = default_name(suggested, fallback, extension);
    let n = first_at(stem, '.');
    lemma_first_at(stem, '.');
    lemma_first_piece(stem, '.', n);
    if names_device(stem) {
        assert(forall|i: int| 0 <= i < n ==> name[i + 1] == stem[i]);
        assert forall|i: int| 0 <= i < n + 1 implies name[i] != '.' by {
            if i > 0 {
                assert(name[i] == stem[i - 1]);
            }
        }
        assert(name[n + 1] == '.') by {
            if n < stem.len() {
                assert(name[n + 1] == stem[n]);
            }
        }
        lemma_first_piece(name, '.', n + 1);
        let found = uppered(name.take(n + 1));
        assert(found[0] == '_');
        reveal_strlit("CON");
        reveal_strlit("PRN");
        reveal_strlit("AUX");
        reveal_strlit("NUL");
        reveal_strlit("COM");
        reveal_strlit("LPT");
        if found.len() == 4 {
            assert(found.take(3)[0] == '_');
        }
    } else {
        assert forall|i: int| 0 <= i < n implies name[i] != '.' by {
            assert(name[i] == stem[i]);
        }
        assert(name[n] == '.') by {
            if n < stem.len() {
                assert(name[n] == stem[n]);
            }
        }
        lemma_first_piece(name, '.', n);
        assert(name.take(n) =~= stem.take(n));
    }
}

/// The characters that are kept are all permitted.
proof fn lemma_permitted(s: Seq<char>, i: int)
    requires
        0 <= i < permitted(s).len(),
    ensures
        !is_forbidden(permitted(s)[i]),
    decreases s.len(),
{
    reveal(Seq::filter);
    if s.len() > 0 && i < permitted(s.drop_last()).len() {
        lemma_permitted(s.drop_last(), i);
    }
}

/// A default name holds no character that a file system refuses, provided that the fallback and
/// the extension hold none.
pub proof fn law_default_name_is_permitted(
    suggested: Seq<char>,
    fallback: Seq<char>,
    extension: Seq<char>,
)
    requires
        forall|i: int| 0 <= i < fallback.len() ==> !is_forbidden(#[trigger] fallback[i]),
        forall|i: int| 0 <= i < extension.len() ==> !is_forbidden(#[trigger] extension[i]),
    ensures
        forall|i: int|
            0 <= i < default_name(suggested, fallback, extension).len() ==> !is_forbidden(
                #[trigger] default_name(suggested, fallback, extension)[i],
            ),
{
    let kept = permitted(trimmed(suggested));
    let fitting = fitted(kept, MAX_STEM_BYTES as nat);
    lemma_fitted(kept, MAX_STEM_BYTES as nat);
    lemma_edges_off(fitting, true);
    let taken = suggested_stem(suggested);
    let stem = if taken.len() == 0 {
        fallback
    } else {
        taken
    };
    let (a, b) = choose|a: int, b: int|
        0 <= a <= b <= fitting.len() && edges_off(fitting, true) == #[trigger] fitting.subrange(
            a,
            b,
        );
    assert forall|i: int| 0 <= i < taken.len() implies !is_forbidden(#[trigger] taken[i]) by {
        assert(taken[i] == kept[a + i]);
        lemma_permitted(trimmed(suggested), a + i);
    }
    let name = default_name(suggested, fallback, extension);
    let lead: int = if names_device(stem) {
        1
    } else {
        0
    };
    assert forall|i: int| 0 <= i < name.len() implies !is_forbidden(#[trigger] name[i]) by {
        if lead <= i < lead + stem.len() {
            assert(name[i] == stem[i - lead]);
        } else if i > lead + stem.len() {
            assert(name[i] == extension[i - lead - stem.len() - 1]);
        }
    }
}

/// A default name takes no more than 182 bytes beside its extension, unless the fallback is longer.
pub proof fn law_default_name_fits(
    suggested: Seq<char>,
    fallback: Seq<char>,
    extension: Seq<char>,
)
    requires
        utf8(fallback).len() <= MAX_STEM_BYTES,
    ensures
        utf8(default_name(suggested, fallback, extension)).len() <= MAX_STEM_BYTES + 2 + utf8(
            extension,
        ).len(),
{
    let kept = permitted(trimmed(suggested));
    let fitting = fitted(kept, MAX_STEM_BYTES as nat);
    lemma_fitted(kept, MAX_STEM_BYTES as nat);
    lemma_edges_off(fitting, true);
    let taken = suggested_stem(suggested);
    let stem = if taken.len() == 0 {
        fallback
    } else {
        taken
    };
    let lead: Seq<char> = if names_device(stem) {
        seq!['_']
    } else {
        seq![]
    };
    lemma_one_byte('_');
    lemma_one_byte('.');
    lemma_utf8_concat(lead + stem + seq!['.'], extension);
    lemma_utf8_concat(lead + stem, seq!['.']);
    lemma_utf8_concat(lead, stem);
}

} // verus!
