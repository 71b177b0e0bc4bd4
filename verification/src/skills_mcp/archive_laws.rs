//! What holds of archives of skills and MCP servers: which names are accepted, what is packed and
//! unpacked, what an import takes in, and what a failed import leaves.
use crate::error::{CodexxError, ErrorView};
use crate::json::json_value;
use crate::naming::stands_for_device;
use crate::skills_mcp::archive::{
    archive_member, archive_refusal, check_manifest, check_outside_skills, collect_entries,
    confirm_free, destination_snapshot, enable_mcp, entry_refusal, export_skills_mcp_archive_inner,
    extract, import_manifest, install_archive_reader, law_accepted_archive_is_safe,
    law_accepted_paths_stay_inside, manifest_from_extracted, names_seen, note_to_save, path_parts,
    path_refusal, planned_mcps, planned_skills, safe_directory, safe_relative, skill_fallback,
    validate_export_destination, without_endings, write_archive_atomic, ArchiveDestination,
    ArchiveEntry, ExtractStep, Extraction, FoundSkill, ImportPlan, ImportView, Manifest, McpEntry,
    McpFacts, McpState, SkillEntry, SkillFacts, SkillState, SourceKind,
};
use crate::skills_mcp::install::Install;
use crate::text::{
    decimal_of, opt_view, pieces, replaced, text_views, to_lower, trim, trim_end_char,
    without_trailing,
};
use crate::toml::{document_entries, item_value, section_entry, Entries};
use toml_edit::{DocumentMut, Item};
use vstd::prelude::*;

verus! {

/// An accepted name is not empty, does not start at the root, holds neither a backslash nor a colon
/// nor a null character, and its parts are all there in order: none of them is empty, leads up or
/// nowhere, ends with a space or a dot, or stands for a device.
pub proof fn law_accepted_names_are_safe(
    name: &str,
    r: Result<Vec<String>, CodexxError>,
    i: int,
    part: &str,
    device: bool,
)
    requires
        call_ensures(safe_relative, (name,), r),
        r is Ok,
        call_ensures(stands_for_device, (part,), device),
    ensures
        name@.len() > 0,
        name@[0] != '/',
        !name@.contains('\\'),
        !name@.contains(':'),
        !name@.contains('\0'),
        r->Ok_0@.len() >= 1,
        0 <= i < r->Ok_0@.len() && r->Ok_0@[i]@ == part@ ==> part@.len() > 0 && part@ != "."@
            && part@ != ".."@ && part@.last() != ' ' && part@.last() != '.' && !device
            && !part@.contains('/') && !part@.contains('\\') && !part@.contains(':'),
{
    law_accepted_paths_stay_inside(name@);
    let parts = path_parts(name@);
    let found = text_views(r->Ok_0@);
    assert(found.len() == r->Ok_0@.len());
    if 0 <= i < r->Ok_0@.len() && r->Ok_0@[i]@ == part@ {
        assert(found[i] == part@);
        assert(parts[i] == part@);
        assert(crate::skills_mcp::archive::is_portable(parts[i]));
    }
}

/// A name with a part that leads up, with a backslash, a colon or a null character, one that starts
/// at the root, and no name at all are refused.
pub proof fn law_names_that_lead_out_are_refused(
    name: &str,
    parts: Vec<String>,
    i: int,
    r: Result<Vec<String>, CodexxError>,
)
    requires
        call_ensures(safe_relative, (name,), r),
        call_ensures(crate::text::split, (name, '/'), parts),
        name@.len() == 0 || name@[0] == '/' || name@.contains('\\') || name@.contains(':')
            || name@.contains('\0') || (0 <= i < parts@.len() && parts@[i]@ == ".."@)
            || parts@[0]@ == "."@,
    ensures
        r is Err && r->Err_0@ == ErrorView::Config("ZIP contains unsafe file paths"@),
{
    let found = text_views(parts@);
    assert(found.len() == parts@.len());
    assert(found[0] == parts@[0]@);
    if 0 <= i < parts@.len() {
        assert(found[i] == parts@[i]@);
    }
}

/// A name of one portable part is accepted as it is.
pub proof fn law_plain_names_are_accepted(
    name: &str,
    device: bool,
    r: Result<Vec<String>, CodexxError>,
)
    requires
        call_ensures(safe_relative, (name,), r),
        call_ensures(stands_for_device, (name,), device),
        name@.len() > 0,
        !name@.contains('/'),
        !name@.contains('\\'),
        !name@.contains(':'),
        !name@.contains('\0'),
        name@.last() != ' ',
        name@.last() != '.',
        !device,
    ensures
        r is Ok,
        r->Ok_0@.len() == 1,
        r->Ok_0@[0]@ == name@,
{
    reveal_strlit(".");
    reveal_strlit("..");
    lemma_one_piece(name@);
    let all = pieces(name@, '/');
    assert(name@[0] != '/') by {
        assert(name@.contains(name@[0]));
    }
    assert(name@.last() != '/') by {
        assert(name@.contains(name@.last()));
    }
    assert("."@.last() == '.' && ".."@.last() == '.');
    assert(all[0] == name@);
    assert(all.len() == 1);
    if all.contains(".."@) {
        let k = all.index_of(".."@);
        assert(all[k] == name@);
    }
    assert(without_trailing(name@, '/') == name@);
    assert(path_parts(name@) == all);
    if r is Ok {
        let found = text_views(r->Ok_0@);
        assert(found.len() == r->Ok_0@.len());
        assert(found[0] == r->Ok_0@[0]@);
    }
}

proof fn lemma_one_piece(s: Seq<char>)
    requires
        !s.contains('/'),
    ensures
        pieces(s, '/') == seq![s],
    decreases s.len(),
{
    if s.len() > 0 {
        assert(s.contains(s.last()));
        assert forall|c: char| s.drop_last().contains(c) implies s.contains(c) by {
            let i = s.drop_last().index_of(c);
            assert(s[i] == c);
        }
        lemma_one_piece(s.drop_last());
        assert(seq![s.drop_last()].drop_last() =~= Seq::<Seq<char>>::empty());
        assert(s.drop_last().push(s.last()) =~= s);
        assert(pieces(s, '/') =~= seq![s]);
    } else {
        assert(s =~= seq![]);
        assert(pieces(s, '/') =~= seq![s]);
    }
}

/// A skill's directory is an accepted name of one part that is not hidden.
pub proof fn law_skill_directories_are_one_visible_part(
    name: &str,
    parts: Result<Vec<String>, CodexxError>,
    r: Result<(), CodexxError>,
)
    requires
        call_ensures(safe_relative, (name,), parts),
        call_ensures(safe_directory, (name,), r),
    ensures
        parts is Err ==> r is Err && r->Err_0@ == parts->Err_0@,
        parts is Ok ==> (r is Ok <==> parts->Ok_0@.len() == 1 && name@[0] != '.'),
{
    if parts is Ok {
        assert(text_views(parts->Ok_0@).len() == parts->Ok_0@.len());
    }
}

/// Unpacking an entry makes what the entry says: at the parts of its name, a directory or a file,
/// and a file with the lower nine bits of the stated permissions. Links and special files are
/// refused, and so is a name that was unpacked before, in whatever case. A refused entry changes
/// nothing.
pub proof fn law_entries_are_unpacked_as_they_are(
    seen: &mut Extraction,
    entry: &ArchiveEntry,
    given: &str,
    name: String,
    text: &str,
    lower: String,
    parts: Result<Vec<String>, CodexxError>,
    i: int,
    r: Result<ExtractStep, CodexxError>,
)
    requires
        call_ensures(Extraction::step, (seen, entry), r),
        given@ == entry.name@,
        call_ensures(trim_end_char, (given, '/'), name),
        text@ == name@,
        call_ensures(safe_relative, (text,), parts),
        call_ensures(to_lower, (text,), lower),
    ensures
        parts is Err ==> r is Err && r->Err_0@ == parts->Err_0@,
        entry.unix_mode is Some && entry.unix_mode->0 & 0o170000 == 0o120000 ==> r is Err,
        old(seen)@.contains(lower@) ==> r is Err,
        parts is Ok && !old(seen)@.contains(lower@) && (entry.unix_mode is None
            || entry.unix_mode->0 & 0o170000 == 0 || entry.unix_mode->0 & 0o170000 == 0o100000
            || entry.unix_mode->0 & 0o170000 == 0o040000) ==> r is Ok,
        r is Err ==> final(seen)@ == old(seen)@,
        r is Ok ==> final(seen)@ == old(seen)@.insert(lower@),
        r is Ok ==> r->Ok_0.directory == entry.directory,
        r is Ok ==> r->Ok_0.parts@.len() == parts->Ok_0@.len(),
        r is Ok && 0 <= i < r->Ok_0.parts@.len() ==> r->Ok_0.parts@[i]@ == parts->Ok_0@[i]@,
        r is Ok && (entry.directory || entry.unix_mode is None) ==> r->Ok_0.permissions is None,
        r is Ok && !entry.directory && entry.unix_mode is Some ==> r->Ok_0.permissions == Some(
            entry.unix_mode->0 & 0o777,
        ),
{
    if r is Ok {
        let a = text_views(r->Ok_0.parts@);
        let b = text_views(parts->Ok_0@);
        assert(a.len() == r->Ok_0.parts@.len());
        assert(b.len() == parts->Ok_0@.len());
        if 0 <= i < r->Ok_0.parts@.len() {
            assert(a[i] == r->Ok_0.parts@[i]@);
            assert(b[i] == parts->Ok_0@[i]@);
        }
    }
}

proof fn lemma_seen(entries: Seq<ArchiveEntry>, name: Seq<char>)
    ensures
        names_seen(entries).contains(name) ==> exists|j: int|
            0 <= j < entries.len() && crate::text::lowered(
                without_trailing((#[trigger] entries[j]).name@, '/'),
            ) == name,
    decreases entries.len(),
{
    if entries.len() > 0 && names_seen(entries).contains(name) {
        let head = entries.drop_last();
        let last = entries[entries.len() - 1];
        if crate::text::lowered(without_trailing(last.name@, '/')) != name {
            lemma_seen(head, name);
            let j = choose|j: int|
                0 <= j < head.len() && crate::text::lowered(
                    without_trailing((#[trigger] head[j]).name@, '/'),
                ) == name;
            assert(entries[j] == head[j]);
        }
    }
}

proof fn lemma_fine_archives(entries: Seq<ArchiveEntry>)
    requires
        forall|i: int|
            0 <= i < entries.len() ==> entry_refusal(Set::empty(), #[trigger] entries[i]) is None,
        forall|i: int, j: int|
            0 <= i < j < entries.len() ==> crate::text::lowered(
                without_trailing((#[trigger] entries[i]).name@, '/'),
            ) != crate::text::lowered(without_trailing((#[trigger] entries[j]).name@, '/')),
    ensures
        archive_refusal(entries) is None,
    decreases entries.len(),
{
    if entries.len() > 0 {
        let head = entries.drop_last();
        let last = entries[entries.len() - 1];
        assert forall|i: int| 0 <= i < head.len() implies entry_refusal(
            Set::empty(),
            #[trigger] head[i],
        ) is None by {
            assert(head[i] == entries[i]);
        }
        assert forall|i: int, j: int| 0 <= i < j < head.len() implies crate::text::lowered(
            without_trailing((#[trigger] head[i]).name@, '/'),
        ) != crate::text::lowered(without_trailing((#[trigger] head[j]).name@, '/')) by {
            assert(head[i] == entries[i] && head[j] == entries[j]);
        }
        lemma_fine_archives(head);
        let name = crate::text::lowered(without_trailing(last.name@, '/'));
        lemma_seen(head, name);
        if names_seen(head).contains(name) {
            let j = choose|j: int|
                0 <= j < head.len() && crate::text::lowered(
                    without_trailing((#[trigger] head[j]).name@, '/'),
                ) == name;
            assert(head[j] == entries[j]);
        }
        assert(entry_refusal(Set::empty(), last) is None);
        assert(entry_refusal(names_seen(head), last) is None);
    }
}

/// An archive is unpacked whole or not at all, entry by entry in order; it is refused just where
/// some entry is refused by itself or two have names that differ in case alone.
pub proof fn law_archives_are_unpacked_whole(
    entries: &Vec<ArchiveEntry>,
    i: int,
    j: int,
    r: Result<Vec<ExtractStep>, CodexxError>,
)
    requires
        call_ensures(extract, (entries,), r),
    ensures
        r is Ok ==> r->Ok_0@.len() == entries@.len(),
        r is Ok && 0 <= i < entries@.len() ==> ({
            let entry = entries@[i];
            let step = r->Ok_0@[i];
            &&& step.directory == entry.directory
            &&& text_views(step.parts@) == path_parts(without_trailing(entry.name@, '/'))
            &&& step.permissions is Some <==> !entry.directory && entry.unix_mode is Some
            &&& step.permissions is Some ==> step.permissions->0 == entry.unix_mode->0 & 0o777
            &&& path_refusal(without_trailing(entry.name@, '/')) is None
            &&& !(entry.unix_mode is Some && entry.unix_mode->0 & 0o170000 == 0o120000)
        }),
        r is Ok && 0 <= i < j < entries@.len() ==> crate::text::lowered(
            without_trailing(entries@[i].name@, '/'),
        ) != crate::text::lowered(without_trailing(entries@[j].name@, '/')),
        (forall|k: int|
            0 <= k < entries@.len() ==> entry_refusal(Set::empty(), #[trigger] entries@[k]) is None)
            && (forall|k: int, l: int|
            0 <= k < l < entries@.len() ==> crate::text::lowered(
                without_trailing((#[trigger] entries@[k]).name@, '/'),
            ) != crate::text::lowered(without_trailing((#[trigger] entries@[l]).name@, '/')))
            ==> r is Ok,
{
    if r is Ok {
        law_accepted_archive_is_safe(entries@);
    }
    if (forall|k: int|
        0 <= k < entries@.len() ==> entry_refusal(Set::empty(), #[trigger] entries@[k]) is None) && (
    forall|k: int, l: int|
        0 <= k < l < entries@.len() ==> crate::text::lowered(
            without_trailing((#[trigger] entries@[k]).name@, '/'),
        ) != crate::text::lowered(without_trailing((#[trigger] entries@[l]).name@, '/'))) {
        lemma_fine_archives(entries@);
    }
}

/// Files and directories of a skill are packed, its own root is not an entry; links and special
/// files are refused.
pub proof fn law_only_files_and_directories_are_packed(
    kind: SourceKind,
    is_root: bool,
    r: Result<bool, CodexxError>,
)
    requires
        call_ensures(collect_entries, (kind, is_root), r),
    ensures
        r is Ok <==> kind is File || kind is Directory,
        kind is File ==> r->Ok_0,
        kind is Directory ==> r->Ok_0 == !is_root,
{
}

/// A member of an archive stands under the skill's path, with slashes for backslashes, and a
/// directory ends with a slash. Its name is accepted just if it can be unpacked.
pub proof fn law_members_stand_under_their_skill(
    path: &str,
    name: &str,
    directory: bool,
    slashed: &str,
    parts: Result<Vec<String>, CodexxError>,
    i: int,
    r: Result<String, CodexxError>,
)
    requires
        call_ensures(archive_member, (path, name, directory), r),
        slashed@.len() == name@.len(),
        forall|k: int|
            0 <= k < name@.len() ==> #[trigger] slashed@[k] == (if name@[k] == '\\' {
                '/'
            } else {
                name@[k]
            }),
        call_ensures(safe_relative, (slashed,), parts),
    ensures
        r is Ok <==> parts is Ok,
        r is Err ==> r->Err_0@ == parts->Err_0@,
        r is Ok ==> r->Ok_0@.len() == path@.len() + 1 + name@.len() + if directory {
            1int
        } else {
            0int
        },
        r is Ok && 0 <= i < path@.len() ==> r->Ok_0@[i] == path@[i],
        r is Ok ==> r->Ok_0@[path@.len() as int] == '/',
        r is Ok && 0 <= i < name@.len() ==> r->Ok_0@[path@.len() + 1 + i] == slashed@[i],
        r is Ok && directory ==> r->Ok_0@.last() == '/',
{
    assert(slashed@ =~= replaced(name@, '\\', '/'));
}

/// A place is written to only if it is what it was when it was looked at.
pub proof fn law_changed_places_are_not_overwritten(
    found: ArchiveDestination,
    contents: &[u8],
    seen: Result<Option<Vec<u8>>, CodexxError>,
    before: &Option<Vec<u8>>,
    now: &Option<Vec<u8>>,
    r: Result<(), CodexxError>,
)
    requires
        call_ensures(destination_snapshot, (found, contents), seen),
        call_ensures(write_archive_atomic, (before, now), r),
    ensures
        seen is Err <==> found is Other,
        found is Missing ==> seen->Ok_0 is None,
        found is File ==> seen->Ok_0 is Some && seen->Ok_0->0@ == crate::digest::sha256(contents@),
        r is Ok <==> (*before is None && *now is None) || (*before is Some && *now is Some
            && before->0@ == now->0@),
{
}

/// An archive is saved as a ZIP file, in a directory that is there, outside what is protected and
/// outside every skill; a skill is imported only into a place that is still free.
pub proof fn law_archives_go_to_free_places(
    extension: &Option<String>,
    is_directory: bool,
    protected: bool,
    given: &str,
    lower: String,
    inside: &Vec<bool>,
    i: int,
    occupied: bool,
    destination: Result<(), CodexxError>,
    outside: Result<(), CodexxError>,
    free: Result<(), CodexxError>,
)
    requires
        call_ensures(validate_export_destination, (extension, is_directory, protected), destination),
        call_ensures(check_outside_skills, (inside,), outside),
        call_ensures(confirm_free, (occupied,), free),
        *extension is Some ==> given@ == extension->0@,
        call_ensures(to_lower, (given,), lower),
    ensures
        destination is Ok <==> *extension is Some && lower@ == "zip"@ && is_directory && !protected,
        0 <= i < inside@.len() && inside@[i] ==> outside is Err,
        (forall|k: int| 0 <= k < inside@.len() ==> !#[trigger] inside@[k]) ==> outside is Ok,
        free is Ok <==> !occupied,
{
    reveal_strlit("zip");
    assert(crate::text::lowered("zip"@) =~= "zip"@);
    if 0 <= i < inside@.len() && inside@[i] {
        assert(inside@.contains(true));
    }
    if inside@.contains(true) {
        let k = inside@.index_of(true);
        assert(inside@[k]);
    }
}

/// An exported archive names its format and version and packs everything of the one kind that is
/// asked for, in order, and nothing of the other: each skill with its directory, its place, its
/// state and its note, each server with its identifier, name, configuration, state and note. Neither
/// an unknown kind nor an empty one is exported.
pub proof fn law_exports_pack_everything_of_a_kind(
    kind: &str,
    skills: &Vec<SkillState>,
    mcps: &Vec<McpState>,
    i: int,
    r: Result<Manifest, CodexxError>,
)
    requires
        call_ensures(export_skills_mcp_archive_inner, (kind, skills, mcps), r),
    ensures
        r is Ok ==> kind@ == "skills"@ || kind@ == "mcp"@,
        kind@ == "skills"@ && skills@.len() == 0 ==> r is Err,
        kind@ == "mcp"@ && mcps@.len() == 0 ==> r is Err,
        kind@ == "mcp"@ && mcps@.len() > 0 ==> r is Ok,
        r is Ok ==> r->Ok_0.format@ == "codex-x-skills-mcp"@ && r->Ok_0.version == 1,
        r is Ok && kind@ == "skills"@ ==> r->Ok_0.skills@.len() == skills@.len()
            && r->Ok_0.mcp_servers@.len() == 0,
        r is Ok && kind@ == "mcp"@ ==> r->Ok_0.mcp_servers@.len() == mcps@.len()
            && r->Ok_0.skills@.len() == 0,
        r is Ok && kind@ == "skills"@ && 0 <= i < skills@.len() ==> ({
            let entry = r->Ok_0.skills@[i];
            &&& entry.directory@ == skills@[i].directory@
            &&& entry.path@ == "skills/"@ + skills@[i].directory@
            &&& entry.enabled == skills@[i].enabled
            &&& opt_view(entry.note) == opt_view(skills@[i].note)
        }),
        r is Ok && kind@ == "mcp"@ && 0 <= i < mcps@.len() ==> ({
            let entry = r->Ok_0.mcp_servers@[i];
            &&& entry.id@ == mcps@[i].id@
            &&& entry.name@ == mcps@[i].name@
            &&& json_value(entry.config) == json_value(mcps@[i].config)
            &&& entry.enabled == mcps@[i].enabled
            &&& opt_view(entry.note) == opt_view(mcps@[i].note)
        }),
{
    reveal_strlit("skills");
    reveal_strlit("mcp");
    assert("skills"@.len() == 6 && "mcp"@.len() == 3);
}

proof fn lemma_endings(s: Seq<char>, ending: Seq<char>)
    requires
        ending.len() > 0,
    ensures
        without_endings(s, ending).len() <= s.len(),
        without_endings(s, ending) == s.take(without_endings(s, ending).len() as int),
        !ending.is_suffix_of(without_endings(s, ending)),
    decreases s.len(),
{
    if ending.is_suffix_of(s) {
        let shorter = s.take(s.len() - ending.len());
        lemma_endings(shorter, ending);
        assert(shorter.take(without_endings(s, ending).len() as int) =~= s.take(
            without_endings(s, ending).len() as int,
        ));
    } else {
        assert(s.take(s.len() as int) =~= s);
    }
}

/// A skill without a name of its own is named after its folder, and one at the archive's root after
/// the archive without its ending, however often that stands there.
pub proof fn law_unnamed_skills_take_the_nearest_name(
    file: &str,
    longer: &str,
    is_root: bool,
    directory: &Option<String>,
    r: String,
    other: String,
)
    requires
        call_ensures(skill_fallback, (file, is_root, directory), r),
        longer@ == file@ + ".zip"@,
        call_ensures(skill_fallback, (longer, is_root, directory), other),
    ensures
        r@ == other@,
        !is_root && *directory is Some ==> r@ == directory->0@,
        is_root || *directory is None ==> !".zip"@.is_suffix_of(r@) && r@.len() <= file@.len() && r@
            == file@.take(r@.len() as int),
        (is_root || *directory is None) && !".zip"@.is_suffix_of(file@) ==> r@ == file@,
{
    reveal_strlit(".zip");
    let ending = ".zip"@;
    lemma_endings(file@, ending);
    assert(ending =~= longer@.subrange(longer@.len() - ending.len(), longer@.len() as int));
    assert(longer@.take(longer@.len() - ending.len()) =~= file@);
}

/// Only archives of this format and version are read, and they are read as they are. A plain folder
/// of skills is read as an archive of all of them, each turned on and without a note.
pub proof fn law_manifests_are_read_as_they_are(
    manifest: Option<Manifest>,
    checked: Result<Manifest, CodexxError>,
    found: &Vec<FoundSkill>,
    i: int,
    r: Manifest,
)
    requires
        call_ensures(check_manifest, (manifest,), checked),
        call_ensures(manifest_from_extracted, (found,), r),
    ensures
        checked is Ok <==> manifest is Some && manifest->0.format@ == "codex-x-skills-mcp"@
            && manifest->0.version == 1,
        checked is Ok ==> checked->Ok_0 == manifest->0,
        r.format@ == "codex-x-skills-mcp"@ && r.version == 1,
        r.skills@.len() == found@.len() && r.mcp_servers@.len() == 0,
        0 <= i < found@.len() ==> ({
            let entry = r.skills@[i];
            &&& entry.directory@ == found@[i].directory@
            &&& entry.path@ == replaced(found@[i].path@, '\\', '/')
            &&& entry.enabled
            &&& entry.note is None
        }),
{
}

proof fn lemma_answers(answer: Option<bool>)
    ensures
        answer is None || answer == Some(true) || answer == Some(false),
{
    if answer is Some {
        if answer->0 {
            assert(answer == Some(true));
        } else {
            assert(answer == Some(false));
        }
    }
}

/// Planning a skill. One that is there already is passed over and counted; one that is there with
/// other content, whose place is taken, whose name came before, which is not described or whose
/// directory or path is not accepted is refused; any other is taken in, once.
pub proof fn law_skills_are_planned_once(
    plan: &mut ImportPlan,
    index: usize,
    entry: &SkillEntry,
    facts: &SkillFacts,
    directory: &str,
    path: &str,
    name_ok: Result<(), CodexxError>,
    path_ok: Result<Vec<String>, CodexxError>,
    r: Result<(), CodexxError>,
)
    requires
        call_ensures(ImportPlan::add_skill, (plan, index, entry, facts), r),
        directory@ == entry.directory@,
        path@ == entry.path@,
        call_ensures(safe_directory, (directory,), name_ok),
        call_ensures(safe_relative, (path,), path_ok),
    ensures
        r is Ok <==> name_ok is Ok && !old(plan)@.skill_ids.contains(facts.id@) && (path@.len() == 0
            || path_ok is Ok) && facts.described && (facts.existing_equal == Some(true) || (
        facts.existing_equal is None && !facts.occupied)),
        r is Ok && facts.existing_equal == Some(true) ==> final(plan)@.skills == old(plan)@.skills
            && final(plan)@.skipped == old(plan)@.skipped + 1,
        r is Ok && facts.existing_equal is None ==> final(plan)@.skills == old(plan)@.skills.push(
            index,
        ) && final(plan)@.skipped == old(plan)@.skipped,
        r is Ok ==> final(plan)@.mcp_servers == old(plan)@.mcp_servers && final(plan)@.mcp_ids
            == old(plan)@.mcp_ids && final(plan)@.skill_ids == old(plan)@.skill_ids.insert(
            facts.id@,
        ),
{
    lemma_answers(facts.existing_equal);
}

/// Planning an MCP server. One that is there already is passed over and counted; one that is there
/// with another configuration, that the live configuration has, that came before, that cannot be
/// used or that has no identifier is refused; any other is taken in, once.
pub proof fn law_servers_are_planned_once(
    plan: &mut ImportPlan,
    index: usize,
    entry: &McpEntry,
    facts: &McpFacts,
    live: &DocumentMut,
    id: &str,
    text: String,
    r: Result<(), CodexxError>,
)
    requires
        call_ensures(ImportPlan::add_mcp, (plan, index, entry, facts, live), r),
        id@ == entry.id@,
        call_ensures(trim, (id,), text),
    ensures
        r is Ok <==> text@.len() > 0 && !old(plan)@.mcp_ids.contains(entry.id@) && facts.usable && (
        facts.existing_equal == Some(true) || (facts.existing_equal is None && !(section_entry(
            document_entries(*live),
            "mcp_servers"@,
        ) is Some && section_entry(document_entries(*live), "mcp_servers"@)->0.contains_key(
            entry.id@,
        )))),
        r is Ok && facts.existing_equal == Some(true) ==> final(plan)@.mcp_servers
            == old(plan)@.mcp_servers && final(plan)@.skipped == old(plan)@.skipped + 1,
        r is Ok && facts.existing_equal is None ==> final(plan)@.mcp_servers
            == old(plan)@.mcp_servers.push(index) && final(plan)@.skipped == old(plan)@.skipped,
        r is Ok ==> final(plan)@.skills == old(plan)@.skills && final(plan)@.skill_ids
            == old(plan)@.skill_ids && final(plan)@.mcp_ids == old(plan)@.mcp_ids.insert(entry.id@),
{
    lemma_answers(facts.existing_equal);
}

proof fn lemma_planned_skills(entries: Seq<SkillEntry>, facts: Seq<SkillFacts>, count: nat, i: int)
    requires
        count <= entries.len() == facts.len() <= usize::MAX,
        planned_skills(entries, facts, count) is Ok,
    ensures
        ({
            let plan = planned_skills(entries, facts, count)->Ok_0;
            &&& plan.skills.len() + plan.skipped == count
            &&& plan.mcp_servers.len() == 0
            &&& 0 <= i < count ==> (plan.skills.contains(i as usize) <==> facts[i].existing_equal
                is None)
            &&& 0 <= i < count ==> facts[i].existing_equal != Some(false) && facts[i].described
            &&& 0 <= i < count ==> crate::skills_mcp::archive::directory_refusal(
                entries[i].directory@,
            ) is None
            &&& forall|k: int| 0 <= k < plan.skills.len() ==> (#[trigger] plan.skills[k]) < count
        }),
    decreases count,
{
    if count > 0 {
        let before = planned_skills(entries, facts, (count - 1) as nat)->Ok_0;
        let plan = planned_skills(entries, facts, count)->Ok_0;
        lemma_planned_skills(entries, facts, (count - 1) as nat, i);
        let index = (count - 1) as usize;
        lemma_answers(facts[count - 1].existing_equal);
        if facts[count - 1].existing_equal != Some(true) {
            assert(plan.skills == before.skills.push(index));
            assert(plan.skills[before.skills.len() as int] == index);
            if 0 <= i < count - 1 {
                if before.skills.contains(i as usize) {
                    let k = before.skills.index_of(i as usize);
                    assert(plan.skills[k] == i as usize);
                }
                if plan.skills.contains(i as usize) {
                    let k = plan.skills.index_of(i as usize);
                    if k < before.skills.len() {
                        assert(before.skills[k] == i as usize);
                    }
                }
            }
        } else if i == count - 1 {
            if plan.skills.contains(i as usize) {
                let k = plan.skills.index_of(i as usize);
                assert(before.skills[k] < count - 1);
            }
        }
    }
}

proof fn lemma_planned_servers(
    start: ImportView,
    entries: Seq<McpEntry>,
    facts: Seq<McpFacts>,
    live: Entries,
    count: nat,
    i: int,
)
    requires
        count <= entries.len() == facts.len() <= usize::MAX,
        start.mcp_servers.len() == 0,
        planned_mcps(start, entries, facts, live, count) is Ok,
    ensures
        ({
            let plan = planned_mcps(start, entries, facts, live, count)->Ok_0;
            &&& plan.mcp_servers.len() + plan.skipped == count + start.skipped
            &&& plan.skills == start.skills
            &&& 0 <= i < count ==> (plan.mcp_servers.contains(i as usize)
                <==> facts[i].existing_equal is None)
            &&& 0 <= i < count ==> facts[i].existing_equal != Some(false) && facts[i].usable
            &&& forall|k: int|
                0 <= k < plan.mcp_servers.len() ==> (#[trigger] plan.mcp_servers[k]) < count
        }),
    decreases count,
{
    if count > 0 {
        let before = planned_mcps(start, entries, facts, live, (count - 1) as nat)->Ok_0;
        let plan = planned_mcps(start, entries, facts, live, count)->Ok_0;
        lemma_planned_servers(start, entries, facts, live, (count - 1) as nat, i);
        let index = (count - 1) as usize;
        lemma_answers(facts[count - 1].existing_equal);
        if facts[count - 1].existing_equal != Some(true) {
            assert(plan.mcp_servers == before.mcp_servers.push(index));
            assert(plan.mcp_servers[before.mcp_servers.len() as int] == index);
            if 0 <= i < count - 1 {
                if before.mcp_servers.contains(i as usize) {
                    let k = before.mcp_servers.index_of(i as usize);
                    assert(plan.mcp_servers[k] == i as usize);
                }
                if plan.mcp_servers.contains(i as usize) {
                    let k = plan.mcp_servers.index_of(i as usize);
                    if k < before.mcp_servers.len() {
                        assert(before.mcp_servers[k] == i as usize);
                    }
                }
            }
        } else if i == count - 1 {
            if plan.mcp_servers.contains(i as usize) {
                let k = plan.mcp_servers.index_of(i as usize);
                assert(before.mcp_servers[k] < count - 1);
            }
        }
    }
}

/// An import accounts for every entry of an archive: each is either taken in or, where it is there
/// already, counted as passed over. An archive with nothing to import is refused, and so is one
/// with anything that is there with other content.
pub proof fn law_imports_account_for_every_entry(
    manifest: &Manifest,
    skills: &Vec<SkillFacts>,
    mcps: &Vec<McpFacts>,
    live: &DocumentMut,
    i: int,
    r: Result<ImportPlan, CodexxError>,
)
    requires
        call_ensures(import_manifest, (manifest, skills, mcps, live), r),
        skills@.len() == manifest.skills@.len() <= usize::MAX,
        mcps@.len() == manifest.mcp_servers@.len() <= usize::MAX,
    ensures
        manifest.skills@.len() == 0 && manifest.mcp_servers@.len() == 0 ==> r is Err,
        0 <= i < skills@.len() && skills@[i].existing_equal == Some(false) ==> r is Err,
        0 <= i < mcps@.len() && mcps@[i].existing_equal == Some(false) ==> r is Err,
        0 <= i < skills@.len() && !skills@[i].described ==> r is Err,
        0 <= i < mcps@.len() && !mcps@[i].usable ==> r is Err,
        r is Ok ==> r->Ok_0@.skills.len() + r->Ok_0@.mcp_servers.len() + r->Ok_0@.skipped
            == skills@.len() + mcps@.len(),
        r is Ok && 0 <= i < skills@.len() ==> (r->Ok_0@.skills.contains(i as usize)
            <==> skills@[i].existing_equal is None),
        r is Ok && 0 <= i < mcps@.len() ==> (r->Ok_0@.mcp_servers.contains(i as usize)
            <==> mcps@[i].existing_equal is None),
{
    if r is Ok {
        let entries = document_entries(*live);
        let start = planned_skills(manifest.skills@, skills@, skills@.len())->Ok_0;
        lemma_planned_skills(manifest.skills@, skills@, skills@.len(), i);
        lemma_planned_servers(start, manifest.mcp_servers@, mcps@, entries, mcps@.len(), i);
    }
}

/// What is told of a plan is what it holds, and a new plan holds nothing.
pub proof fn law_plans_tell_what_they_hold(
    new: ImportPlan,
    plan: &ImportPlan,
    skills: &Vec<usize>,
    servers: &Vec<usize>,
    skipped: u128,
)
    requires
        call_ensures(ImportPlan::new, (), new),
        call_ensures(ImportPlan::skills, (plan,), skills),
        call_ensures(ImportPlan::mcp_servers, (plan,), servers),
        call_ensures(ImportPlan::skipped, (plan,), skipped),
    ensures
        new@.skills.len() == 0 && new@.mcp_servers.len() == 0 && new@.skipped == 0,
        skills@ == plan@.skills,
        servers@ == plan@.mcp_servers,
        skipped == plan@.skipped,
{
}

/// The report of an import counts the skills and servers that were taken in, and what was passed
/// over where there is any.
pub proof fn law_reports_count_what_was_imported(
    plan: &ImportPlan,
    skills: u128,
    servers: u128,
    skipped: u128,
    first: String,
    second: String,
    third: String,
    r: String,
)
    requires
        call_ensures(install_archive_reader, (plan,), r),
        skills == plan@.skills.len(),
        servers == plan@.mcp_servers.len(),
        skipped == plan@.skipped,
        call_ensures(decimal_of, (skills,), first),
        call_ensures(decimal_of, (servers,), second),
        call_ensures(decimal_of, (skipped,), third),
    ensures
        skipped == 0 ==> r@ == "Imported "@ + first@ + " Skills and "@ + second@ + " MCP"@,
        skipped > 0 ==> r@ == "Imported "@ + first@ + " Skills and "@ + second@ + " MCP"@ + (
        ", skipped "@ + third@ + " existing items"@),
{
    if skipped == 0 {
        let text = "Imported "@ + first@ + " Skills and "@ + second@ + " MCP"@;
        assert(text + Seq::<char>::empty() =~= text);
    }
}

/// A note is saved as it is unless it is blank; one that is longer than allowed is refused.
pub proof fn law_notes_are_saved_whole(
    note: &Option<String>,
    limit: usize,
    given: &str,
    text: String,
    r: Result<Option<String>, CodexxError>,
)
    requires
        call_ensures(note_to_save, (note, limit), r),
        *note is Some ==> given@ == note->0@,
        call_ensures(trim, (given,), text),
    ensures
        r is Err <==> *note is Some && text@.len() > 0 && note->0@.len() > limit,
        r is Ok && *note is Some && text@.len() > 0 ==> r->Ok_0 is Some && r->Ok_0->0@ == note->0@,
        r is Ok && (*note is None || text@.len() == 0) ==> r->Ok_0 is None,
{
}

/// Turning a server on puts its configuration under its identifier and leaves every other server
/// and everything else of the live configuration as it is.
pub proof fn law_servers_are_turned_on_alone(
    live: &mut DocumentMut,
    id: &str,
    item: Item,
    name: Seq<char>,
    r: Result<(), CodexxError>,
)
    requires
        call_ensures(enable_mcp, (live, id, item), r),
        !(item_value(item) is Missing),
    ensures
        r is Err ==> *final(live) == *old(live),
        r is Err <==> document_entries(*old(live)).contains_key("mcp_servers"@)
            && !(document_entries(*old(live))["mcp_servers"@] is Section),
        r is Ok ==> section_entry(document_entries(*final(live)), "mcp_servers"@) is Some,
        r is Ok ==> ({
            let after = section_entry(document_entries(*final(live)), "mcp_servers"@)->0;
            let before = section_entry(document_entries(*old(live)), "mcp_servers"@);
            &&& after.contains_key(id@) && after[id@] == item_value(item)
            &&& name != id@ && before is Some ==> (after.contains_key(name)
                <==> before->0.contains_key(name)) && (after.contains_key(name) ==> after[name]
                == before->0[name])
            &&& name != id@ && before is None ==> !after.contains_key(name)
        }),
        r is Ok && name != "mcp_servers"@ ==> (document_entries(*final(live)).contains_key(name)
            <==> document_entries(*old(live)).contains_key(name)) && (document_entries(
            *final(live),
        ).contains_key(name) ==> document_entries(*final(live))[name] == document_entries(
            *old(live),
        )[name]),
{
}

/// An import writes its records, creates each skill in order and commits. Where a step fails, every
/// directory that it created is removed, whatever becomes of the removals, and the error that
/// stopped it is what is reported.
pub proof fn law_failed_imports_remove_what_they_created(
    skills: usize,
    new: Install,
    install: Install,
    outcome: Result<(), CodexxError>,
    r: Install,
)
    requires
        call_ensures(Install::new, (skills,), new),
        call_ensures(Install::advance, (install, outcome), r),
    ensures
        new.skills == skills && new.stage is Records,
        r.skills == install.skills,
        install.stage is Records && outcome is Ok && install.skills > 0 ==> r.stage is Create
            && r.stage->Create_0 == 0,
        install.stage is Records && outcome is Ok && install.skills == 0 ==> r.stage is Commit,
        install.stage is Records && outcome is Err ==> r.stage is Failed && r.stage->Failed_0@
            == outcome->Err_0@,
        install.stage is Create && outcome is Ok && install.stage->Create_0 + 1 < install.skills
            ==> r.stage is Create && r.stage->Create_0 == install.stage->Create_0 + 1,
        install.stage is Create && outcome is Ok && install.stage->Create_0 + 1 >= install.skills
            ==> r.stage is Commit,
        install.stage is Create && outcome is Err && install.stage->Create_0 > 0
            ==> r.stage is Remove && r.stage->Remove_at == 0 && r.stage->Remove_created
            == install.stage->Create_0 && r.stage->Remove_error@ == outcome->Err_0@,
        install.stage is Create && outcome is Err && install.stage->Create_0 == 0
            ==> r.stage is Failed && r.stage->Failed_0@ == outcome->Err_0@,
        install.stage is Commit && outcome is Ok ==> r.stage is Done,
        install.stage is Commit && outcome is Err && install.skills > 0 ==> r.stage is Remove
            && r.stage->Remove_at == 0 && r.stage->Remove_created == install.skills
            && r.stage->Remove_error@ == outcome->Err_0@,
        install.stage is Commit && outcome is Err && install.skills == 0 ==> r.stage is Failed
            && r.stage->Failed_0@ == outcome->Err_0@,
        install.stage is Remove && install.stage->Remove_at + 1 < install.stage->Remove_created
            ==> r.stage is Remove && r.stage->Remove_at == install.stage->Remove_at + 1
            && r.stage->Remove_created == install.stage->Remove_created && r.stage->Remove_error@
            == install.stage->Remove_error@,
        install.stage is Remove && install.stage->Remove_at + 1 >= install.stage->Remove_created
            ==> r.stage is Failed && r.stage->Failed_0@ == install.stage->Remove_error@,
        install.stage is Done ==> r.stage is Done,
        install.stage is Failed ==> r.stage is Failed && r.stage->Failed_0@
            == install.stage->Failed_0@,
{
    assert(r.stage@ is Commit <==> r.stage is Commit);
    assert(new.stage@ is Records <==> new.stage is Records);
}

proof fn lemma_directories(skills: Seq<SkillState>)
    ensures
        crate::skills_mcp::archive::directories_refusal(skills) is None <==> forall|i: int|
            0 <= i < skills.len() ==> crate::skills_mcp::archive::directory_refusal(
                (#[trigger] skills[i]).directory@,
            ) is None,
    decreases skills.len(),
{
    if skills.len() > 0 {
        let head = skills.drop_last();
        lemma_directories(head);
        assert(forall|i: int| 0 <= i < head.len() ==> head[i] == skills[i]);
        if forall|i: int|
            0 <= i < skills.len() ==> crate::skills_mcp::archive::directory_refusal(
                (#[trigger] skills[i]).directory@,
            ) is None {
            assert forall|i: int| 0 <= i < head.len() implies
                crate::skills_mcp::archive::directory_refusal((#[trigger] head[i]).directory@)
                is None by {
                assert(head[i] == skills[i]);
            }
            assert(skills[skills.len() - 1] == skills.last());
        } else if crate::skills_mcp::archive::directories_refusal(skills) is None {
            assert forall|i: int| 0 <= i < skills.len() implies
                crate::skills_mcp::archive::directory_refusal((#[trigger] skills[i]).directory@)
                is None by {
                if i < head.len() {
                    assert(head[i] == skills[i]);
                }
            }
        }
    }
}

/// Skills are exported just if there are any and the directory of each of them is accepted.
pub proof fn law_skills_with_accepted_directories_are_exported(
    skills: &Vec<SkillState>,
    mcps: &Vec<McpState>,
    i: int,
    name: &str,
    accepted: Result<(), CodexxError>,
    r: Result<Manifest, CodexxError>,
)
    requires
        call_ensures(export_skills_mcp_archive_inner, ("skills", skills, mcps), r),
        0 <= i < skills@.len() ==> name@ == skills@[i].directory@,
        call_ensures(safe_directory, (name,), accepted),
    ensures
        0 <= i < skills@.len() && accepted is Err ==> r is Err,
        skills@.len() > 0 && (forall|k: int|
            0 <= k < skills@.len() ==> crate::skills_mcp::archive::directory_refusal(
                (#[trigger] skills@[k]).directory@,
            ) is None) ==> r is Ok,
{
    lemma_directories(skills@);
}

} // verus!
