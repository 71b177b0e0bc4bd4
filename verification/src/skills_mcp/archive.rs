//! Archives of skills and MCP servers.
//!
//! An archive is decided on as a whole before anything of it is written: nothing that exists is
//! ever replaced, and no name in it leads out of the place it is unpacked to.
use crate::digest::{add_sized, lemma_sized_injective, sha256, sha256_of, sized};
use crate::error::{config3, CodexxError, ErrorView};
use crate::json::json_value;
use crate::naming::{lemma_first_piece, names_device, stands_for_device, uppered};
use crate::providers::live_toml::{ensure_table, ensured_section};
use crate::text::{
    add_bytes, blank, chars_of, copy_opt, decimal, decimal_of, is_blank, joined, joined3, lowered,
    opt_bytes, opt_view, pieces, replace_after, replaced, same_bytes, same_text, split,
    strip_suffix, text_views, to_lower, trim_end_char, utf8, without_trailing,
};
use crate::toml::{
    document_entries, document_spellings, get_section, item_value, section_entry, set_section,
    with_entry, Entries, TomlView,
};
use serde_json::Value;
use toml_edit::{DocumentMut, Item};
use vstd::bytes::lemma_auto_spec_u64_to_from_le_bytes;
use vstd::hash_map::StringHashMap;
use vstd::prelude::*;
use vstd::utf8::{encode_utf8_decode_utf8, is_ascii_chars_encode_utf8};

verus! {

/// The format that an archive states.
pub open spec fn archive_format() -> Seq<char> {
    "codex-x-skills-mcp"@
}

/// The version of the format.
pub const ARCHIVE_VERSION: u32 = 1;

/// A skill in an archive.
pub struct SkillEntry {
    pub directory: String,
    /// Where its files are in the archive; empty for the archive's root.
    pub path: String,
    pub enabled: bool,
    pub note: Option<String>,
}

/// An MCP server in an archive.
pub struct McpEntry {
    pub id: String,
    pub name: String,
    pub config: Value,
    pub enabled: bool,
    pub note: Option<String>,
}

/// What an archive holds.
pub struct Manifest {
    pub format: String,
    pub version: u32,
    pub skills: Vec<SkillEntry>,
    pub mcp_servers: Vec<McpEntry>,
}

/// An error with this message.
pub fn invalid(message: &str) -> (r: CodexxError)
    ensures
        r@ == ErrorView::Config(message@),
{
    CodexxError::Config(message.to_owned())
}

/// An error of the archive format.
pub fn zip_error(error: &str) -> (r: CodexxError)
    ensures
        r@ == ErrorView::Config("Unable to read or write ZIP: "@ + error@),
{
    CodexxError::Config(joined("Unable to read or write ZIP: ", error))
}

/// Whether a name could lead out of the place that an archive is unpacked to.
pub open spec fn is_unsafe(name: Seq<char>) -> bool {
    name.len() == 0 || name.contains('\\') || name.contains(':') || name.contains('\0') || name[0]
        == '/' || pieces(name, '/')[0] == "."@ || pieces(name, '/').contains(".."@)
}

/// Whether every system takes a part of a path.
pub open spec fn is_portable(part: Seq<char>) -> bool {
    part.len() > 0 && part.last() != ' ' && part.last() != '.' && !names_device(part)
}

/// The parts of a path in an archive.
pub open spec fn path_parts(name: Seq<char>) -> Seq<Seq<char>> {
    pieces(without_trailing(name, '/'), '/')
}

/// Whether every system takes each part of a path.
pub open spec fn all_portable(parts: Seq<Seq<char>>) -> bool {
    forall|i: int| 0 <= i < parts.len() ==> is_portable(#[trigger] parts[i])
}

/// What a path in an archive is refused for, if it is.
pub open spec fn path_refusal(name: Seq<char>) -> Option<Seq<char>> {
    if is_unsafe(name) {
        Some("ZIP contains unsafe file paths"@)
    } else if !all_portable(path_parts(name)) {
        Some("ZIP contains file paths that are not safe across platforms"@)
    } else {
        None
    }
}

fn part_is_portable(part: &str) -> (r: bool)
    ensures
        r == is_portable(part@),
{
    let chars = chars_of(part);
    let count: usize = chars.len();
    count > 0 && chars[count - 1] != ' ' && chars[count - 1] != '.' && !stands_for_device(part)
}

fn contains_text(texts: &Vec<String>, text: &str) -> (r: bool)
    ensures
        r == text_views(texts@).contains(text@),
{
    let mut i: usize = 0;
    while i < texts.len()
        invariant
            i <= texts@.len(),
            forall|j: int| 0 <= j < i ==> (#[trigger] texts@[j])@ != text@,
        decreases texts@.len() - i,
    {
        if same_text(&texts[i], text) {
            assert(text_views(texts@)[i as int] == text@);
            return true;
        }
        i = i + 1;
    }
    assert forall|j: int| 0 <= j < texts@.len() implies text_views(texts@)[j] != text@ by {
        assert(text_views(texts@)[j] == texts@[j]@);
    }
    false
}

fn contains_char(chars: &Vec<char>, c: char) -> (r: bool)
    ensures
        r == chars@.contains(c),
{
    let mut i: usize = 0;
    while i < chars.len()
        invariant
            i <= chars@.len(),
            forall|j: int| 0 <= j < i ==> chars@[j] != c,
        decreases chars@.len() - i,
    {
        if chars[i] == c {
            return true;
        }
        i = i + 1;
    }
    false
}

/// The parts of a path in an archive. A path that leads out of it, on this system or another, is
/// refused, and so is one that some system does not take.
pub fn safe_relative(name: &str) -> (r: Result<Vec<String>, CodexxError>)
    ensures
        match path_refusal(name@) {
            Some(message) => r matches Err(error) && error@ == ErrorView::Config(message),
            None => r matches Ok(parts) && text_views(parts@) == path_parts(name@),
        },
{
    let chars = chars_of(name);
    if chars.len() == 0 || contains_char(&chars, '\\') || contains_char(&chars, ':')
        || contains_char(&chars, '\0') || chars[0] == '/' {
        return Err(invalid("ZIP contains unsafe file paths"));
    }
    let all = split(name, '/');
    assert(text_views(all@)[0] == all@[0]@);
    if same_text(&all[0], ".") || contains_text(&all, "..") {
        return Err(invalid("ZIP contains unsafe file paths"));
    }
    let parts = split(&trim_end_char(name, '/'), '/');
    let ghost views = text_views(parts@);
    let mut i: usize = 0;
    while i < parts.len()
        invariant
            i <= parts@.len(),
            views == text_views(parts@),
            views == path_parts(name@),
            !is_unsafe(name@),
            forall|j: int| 0 <= j < i ==> is_portable(#[trigger] views[j]),
        decreases parts@.len() - i,
    {
        assert(views[i as int] == parts@[i as int]@);
        if !part_is_portable(&parts[i]) {
            return Err(
                invalid("ZIP contains file paths that are not safe across platforms"),
            );
        }
        i = i + 1;
    }
    Ok(parts)
}

/// What the name of a skill's directory is refused for, if it is.
pub open spec fn directory_refusal(name: Seq<char>) -> Option<Seq<char>> {
    match path_refusal(name) {
        Some(message) => Some(message),
        None => if path_parts(name).len() != 1 || name[0] == '.' {
            Some("Invalid Skill directory name in archive"@)
        } else {
            None
        },
    }
}

/// Whether a name can be that of a skill's directory.
pub fn safe_directory(name: &str) -> (r: Result<(), CodexxError>)
    ensures
        match directory_refusal(name@) {
            Some(message) => r matches Err(error) && error@ == ErrorView::Config(message),
            None => r is Ok,
        },
{
    let parts = match safe_relative(name) {
        Ok(parts) => parts,
        Err(error) => return Err(error),
    };
    assert(text_views(parts@).len() == parts@.len());
    let chars = chars_of(name);
    if parts.len() != 1 || chars[0] == '.' {
        return Err(invalid("Invalid Skill directory name in archive"));
    }
    Ok(())
}

/// A piece holds no separator, and nothing that the text does not hold.
proof fn lemma_pieces_plain(s: Seq<char>, c: char)
    ensures
        pieces(s, c).len() >= 1,
        forall|i: int, k: int|
            0 <= i < pieces(s, c).len() && 0 <= k < pieces(s, c)[i].len() ==> {
                &&& #[trigger] pieces(s, c)[i][k] != c
                &&& s.contains(pieces(s, c)[i][k])
            },
    decreases s.len(),
{
    if s.len() > 0 {
        let shorter = s.drop_last();
        lemma_pieces_plain(shorter, c);
        let head = pieces(shorter, c);
        let all = pieces(s, c);
        assert forall|i: int, k: int| 0 <= i < all.len() && 0 <= k < all[i].len() implies {
            &&& #[trigger] all[i][k] != c
            &&& s.contains(all[i][k])
        } by {
            if i < head.len() && k < head[i].len() {
                assert(all[i][k] == head[i][k]);
                assert(shorter.contains(head[i][k]));
                let at = shorter.index_of(head[i][k]);
                assert(s[at] == all[i][k]);
            } else {
                assert(all[i][k] == s.last());
                assert(s[s.len() - 1] == all[i][k]);
            }
        }
    }
}

proof fn lemma_without_trailing(s: Seq<char>, c: char)
    ensures
        without_trailing(s, c).len() <= s.len(),
        without_trailing(s, c) == s.take(without_trailing(s, c).len() as int),
    decreases s.len(),
{
    if s.len() > 0 && s.last() == c {
        lemma_without_trailing(s.drop_last(), c);
        let n = without_trailing(s, c).len() as int;
        assert(s.drop_last().take(n) =~= s.take(n));
    } else {
        assert(s.take(s.len() as int) =~= s);
    }
}

/// What is unpacked under an accepted name stays below the place it is unpacked to, on every
/// system: no part of the name is empty, stands for a directory above or the same one, stands for a
/// device, or holds a separator or a drive.
pub proof fn law_accepted_paths_stay_inside(name: Seq<char>)
    requires
        path_refusal(name) is None,
    ensures
        path_parts(name).len() >= 1,
        forall|i: int|
            0 <= i < path_parts(name).len() ==> {
                let part = #[trigger] path_parts(name)[i];
                &&& part.len() > 0
                &&& part != "."@
                &&& part != ".."@
                &&& !names_device(part)
                &&& !part.contains('/')
                &&& !part.contains('\\')
                &&& !part.contains(':')
            },
{
    let inner = without_trailing(name, '/');
    lemma_without_trailing(name, '/');
    lemma_pieces_plain(inner, '/');
    reveal_strlit(".");
    reveal_strlit("..");
    let parts = path_parts(name);
    assert forall|i: int| 0 <= i < parts.len() implies {
        let part = #[trigger] parts[i];
        &&& part.len() > 0
        &&& part != "."@
        &&& part != ".."@
        &&& !names_device(part)
        &&& !part.contains('/')
        &&& !part.contains('\\')
        &&& !part.contains(':')
    } by {
        let part = parts[i];
        assert(is_portable(part));
        assert("."@.last() == '.' && ".."@.last() == '.');
        assert forall|k: int| 0 <= k < part.len() implies name.contains(#[trigger] part[k]) by {
            assert(inner.contains(pieces(inner, '/')[i][k]));
            let at = inner.index_of(part[k]);
            assert(name[at] == part[k]);
        }
        if part.contains('/') {
            let k = part.index_of('/');
            assert(pieces(inner, '/')[i][k] != '/');
        }
        if part.contains('\\') {
            let k = part.index_of('\\');
            assert(name.contains(part[k]));
        }
        if part.contains(':') {
            let k = part.index_of(':');
            assert(name.contains(part[k]));
        }
    }
}

/// An entry of an archive that is to be unpacked.
pub struct ArchiveEntry {
    pub name: String,
    pub unix_mode: Option<u32>,
    pub directory: bool,
}

/// What is done with an entry.
#[derive(Debug)]
pub struct ExtractStep {
    pub parts: Vec<String>,
    pub directory: bool,
    /// The permissions that a file gets, where the archive states any.
    pub permissions: Option<u32>,
}

/// Whether a mode is that of a link or a special file.
pub open spec fn is_special(unix_mode: Option<u32>) -> bool {
    match unix_mode {
        Some(mode) => mode & 0o170000 != 0 && mode & 0o170000 != 0o100000 && mode & 0o170000
            != 0o040000,
        None => false,
    }
}

/// What an entry is refused for, if it is, where these names were unpacked before.
pub open spec fn entry_refusal(seen: Set<Seq<char>>, entry: ArchiveEntry) -> Option<Seq<char>> {
    let name = without_trailing(entry.name@, '/');
    match path_refusal(name) {
        Some(message) => Some(message),
        None => if is_special(entry.unix_mode) {
            Some("ZIP does not support symlinks or special files"@)
        } else if seen.contains(lowered(name)) {
            Some("ZIP contains duplicate file paths"@)
        } else {
            None
        },
    }
}

/// Whether a step is what is done with an entry.
pub open spec fn extracts(entry: ArchiveEntry, step: ExtractStep) -> bool {
    &&& text_views(step.parts@) == path_parts(without_trailing(entry.name@, '/'))
    &&& step.directory == entry.directory
    &&& step.permissions == (match entry.unix_mode {
        Some(mode) if !entry.directory => Some(mode & 0o777),
        _ => None,
    })
}

/// The unpacking of an archive.
pub struct Extraction {
    seen: StringHashMap<bool>,
}

impl View for Extraction {
    type V = Set<Seq<char>>;

    /// The names that were unpacked, in lower case.
    closed spec fn view(&self) -> Set<Seq<char>> {
        self.seen@.dom()
    }
}

impl Extraction {
    /// Before anything was unpacked.
    pub fn new() -> (r: Extraction)
        ensures
            r@ == Set::<Seq<char>>::empty(),
    {
        Extraction { seen: StringHashMap::new() }
    }

    /// What is done with the next entry. Two names that some system cannot tell apart are refused.
    pub fn step(&mut self, entry: &ArchiveEntry) -> (r: Result<ExtractStep, CodexxError>)
        ensures
            match entry_refusal(old(self)@, *entry) {
                Some(message) => r matches Err(error) && error@ == ErrorView::Config(message)
                    && final(self)@ == old(self)@,
                None => r matches Ok(step) && extracts(*entry, step) && final(self)@ == old(
                    self,
                )@.insert(lowered(without_trailing(entry.name@, '/'))),
            },
    {
        let name = trim_end_char(&entry.name, '/');
        let parts = match safe_relative(&name) {
            Ok(parts) => parts,
            Err(error) => return Err(error),
        };
        if let Some(mode) = entry.unix_mode {
            let kind: u32 = mode & 0o170000;
            if kind != 0 && kind != 0o100000 && kind != 0o040000 {
                return Err(invalid("ZIP does not support symlinks or special files"));
            }
        }
        let lower = to_lower(&name);
        if self.seen.contains_key(&lower) {
            return Err(invalid("ZIP contains duplicate file paths"));
        }
        self.seen.insert(lower, true);
        assert(self@ =~= old(self)@.insert(lowered(name@)));
        let permissions: Option<u32> = match entry.unix_mode {
            Some(mode) => if entry.directory {
                None
            } else {
                Some(mode & 0o777)
            },
            None => None,
        };
        Ok(ExtractStep { parts, directory: entry.directory, permissions })
    }
}

/// The names of the first entries, in lower case.
pub open spec fn names_seen(entries: Seq<ArchiveEntry>) -> Set<Seq<char>>
    decreases entries.len(),
{
    if entries.len() == 0 {
        Set::empty()
    } else {
        names_seen(entries.drop_last()).insert(
            lowered(without_trailing(entries.last().name@, '/')),
        )
    }
}

/// What an archive is refused for, if it is: what its first entry that is refused is refused for.
pub open spec fn archive_refusal(entries: Seq<ArchiveEntry>) -> Option<Seq<char>>
    decreases entries.len(),
{
    if entries.len() == 0 {
        None
    } else {
        match archive_refusal(entries.drop_last()) {
            Some(message) => Some(message),
            None => entry_refusal(names_seen(entries.drop_last()), entries.last()),
        }
    }
}

/// What is done with the entries of an archive, in their order.
pub fn extract(entries: &Vec<ArchiveEntry>) -> (r: Result<Vec<ExtractStep>, CodexxError>)
    ensures
        match archive_refusal(entries@) {
            Some(message) => r matches Err(error) && error@ == ErrorView::Config(message),
            None => r matches Ok(steps) && steps@.len() == entries@.len() && forall|i: int|
                0 <= i < entries@.len() ==> extracts(entries@[i], #[trigger] steps@[i]),
        },
{
    let mut state = Extraction::new();
    let mut steps: Vec<ExtractStep> = Vec::new();
    let mut i: usize = 0;
    assert(entries@.take(0) =~= Seq::<ArchiveEntry>::empty());
    while i < entries.len()
        invariant
            i <= entries@.len(),
            state@ == names_seen(entries@.take(i as int)),
            archive_refusal(entries@.take(i as int)) is None,
            steps@.len() == i,
            forall|j: int| 0 <= j < i ==> extracts(entries@[j], #[trigger] steps@[j]),
        decreases entries@.len() - i,
    {
        assert(entries@.take(i + 1).drop_last() =~= entries@.take(i as int));
        match state.step(&entries[i]) {
            Ok(step) => steps.push(step),
            Err(error) => {
                proof {
                    lemma_refusal_stays(entries@, i + 1);
                }
                return Err(error);
            },
        }
        i = i + 1;
    }
    assert(entries@.take(entries@.len() as int) =~= entries@);
    Ok(steps)
}

/// What an archive is refused for does not depend on what follows.
proof fn lemma_refusal_stays(entries: Seq<ArchiveEntry>, n: int)
    requires
        0 <= n <= entries.len(),
        archive_refusal(entries.take(n)) is Some,
    ensures
        archive_refusal(entries) == archive_refusal(entries.take(n)),
    decreases entries.len() - n,
{
    if n < entries.len() {
        assert(entries.take(n + 1).drop_last() =~= entries.take(n));
        lemma_refusal_stays(entries, n + 1);
    } else {
        assert(entries.take(n) =~= entries);
    }
}

proof fn lemma_name_seen(entries: Seq<ArchiveEntry>, i: int)
    requires
        0 <= i < entries.len(),
    ensures
        names_seen(entries).contains(lowered(without_trailing(entries[i].name@, '/'))),
    decreases entries.len(),
{
    if i < entries.len() - 1 {
        lemma_name_seen(entries.drop_last(), i);
    }
}

/// Every entry of an accepted archive has an accepted name and is an ordinary file or directory, and
/// no two have names that differ in case alone.
pub proof fn law_accepted_archive_is_safe(entries: Seq<ArchiveEntry>)
    requires
        archive_refusal(entries) is None,
    ensures
        forall|i: int|
            0 <= i < entries.len() ==> path_refusal(
                without_trailing((#[trigger] entries[i]).name@, '/'),
            ) is None && !is_special(entries[i].unix_mode),
        forall|i: int, j: int|
            0 <= i < j < entries.len() ==> lowered(
                without_trailing((#[trigger] entries[i]).name@, '/'),
            ) != lowered(without_trailing((#[trigger] entries[j]).name@, '/')),
    decreases entries.len(),
{
    if entries.len() > 0 {
        let shorter = entries.drop_last();
        law_accepted_archive_is_safe(shorter);
        assert forall|i: int| 0 <= i < entries.len() implies path_refusal(
            without_trailing((#[trigger] entries[i]).name@, '/'),
        ) is None && !is_special(entries[i].unix_mode) by {
            if i < shorter.len() {
                assert(entries[i] == shorter[i]);
            }
        }
        assert forall|i: int, j: int| 0 <= i < j < entries.len() implies lowered(
            without_trailing((#[trigger] entries[i]).name@, '/'),
        ) != lowered(without_trailing((#[trigger] entries[j]).name@, '/')) by {
            if j < shorter.len() {
                assert(entries[i] == shorter[i] && entries[j] == shorter[j]);
            } else {
                assert(entries[i] == shorter[i]);
                lemma_name_seen(shorter, i);
            }
        }
    }
}

/// What stands at a path of a skill.
#[derive(Clone, Copy, Debug, PartialEq, Eq, Structural)]
pub enum SourceKind {
    Symlink,
    File,
    Directory,
    Special,
}

/// Whether a path of a skill goes into an archive. The directory of the skill itself does not, only
/// what is below it.
pub fn collect_entries(kind: SourceKind, is_root: bool) -> (r: Result<bool, CodexxError>)
    ensures
        match kind {
            SourceKind::Symlink => r matches Err(error) && error@ == ErrorView::Config(
                "Skill contains symlinks; replace them with real files before exporting"@,
            ),
            SourceKind::Special => r matches Err(error) && error@ == ErrorView::Config(
                "Skill contains unsupported special files"@,
            ),
            SourceKind::File => r == Ok::<bool, CodexxError>(true),
            SourceKind::Directory => r == Ok::<bool, CodexxError>(!is_root),
        },
{
    match kind {
        SourceKind::Symlink => Err(
            invalid("Skill contains symlinks; replace them with real files before exporting"),
        ),
        SourceKind::Special => Err(invalid("Skill contains unsupported special files")),
        SourceKind::File => Ok(true),
        SourceKind::Directory => Ok(!is_root),
    }
}

/// A path below a directory: a file with its contents, or a directory.
#[derive(Debug)]
pub struct DirectoryItem {
    pub name: String,
    pub contents: Option<Vec<u8>>,
}

/// A path below a directory, as contracts speak of it. Its name has slashes on every system.
#[verifier::ext_equal]
pub ghost struct ItemView {
    pub name: Seq<char>,
    pub contents: Option<Seq<u8>>,
}

impl View for DirectoryItem {
    type V = ItemView;

    open spec fn view(&self) -> ItemView {
        ItemView { name: replaced(self.name@, '\\', '/'), contents: opt_bytes(self.contents) }
    }
}

/// Items, as contracts speak of them.
pub open spec fn item_views(items: Seq<DirectoryItem>) -> Seq<ItemView> {
    items.map_values(|item: DirectoryItem| item@)
}

/// What a digest takes in of an item: its name with its length, what it is, and the contents of a
/// file with their length.
pub open spec fn item_bytes(item: ItemView) -> Seq<u8> {
    sized(utf8(item.name)) + (match item.contents {
        Some(contents) => utf8("file"@) + sized(contents),
        None => utf8("directory"@),
    })
}

/// What the digest of a directory takes in.
pub open spec fn directory_bytes(items: Seq<ItemView>) -> Seq<u8>
    decreases items.len(),
{
    if items.len() == 0 {
        seq![]
    } else {
        item_bytes(items[0]) + directory_bytes(items.skip(1))
    }
}

fn with_slashes(name: &str) -> (r: String)
    ensures
        r@ == replaced(name@, '\\', '/'),
{
    let chars = chars_of(name);
    assert(name@.skip(0) =~= name@);
    replace_after(&chars, 0, '\\', '/')
}

/// The digest by which two directories are recognised as equal, of what is below them, in order.
pub fn directory_digest(items: &Vec<DirectoryItem>) -> (r: Vec<u8>)
    ensures
        r@ == sha256(directory_bytes(item_views(items@))),
{
    let mut bytes: Vec<u8> = Vec::new();
    let mut i: usize = 0;
    let ghost all = item_views(items@);
    assert(all.skip(0) =~= all);
    assert(bytes@ + directory_bytes(all.skip(0)) =~= directory_bytes(all));
    while i < items.len()
        invariant
            i <= items@.len(),
            all == item_views(items@),
            bytes@ + directory_bytes(all.skip(i as int)) == directory_bytes(all),
        decreases items@.len() - i,
    {
        let ghost before = bytes@;
        let item = &items[i];
        assert(all.skip(i as int)[0] == item@);
        assert(all.skip(i as int).skip(1) =~= all.skip(i + 1));
        add_sized(&mut bytes, with_slashes(&item.name).as_str().as_bytes());
        match &item.contents {
            Some(contents) => {
                add_bytes(&mut bytes, "file".as_bytes());
                add_sized(&mut bytes, contents.as_slice());
            },
            None => add_bytes(&mut bytes, "directory".as_bytes()),
        }
        assert(bytes@ =~= before + item_bytes(item@));
        assert(bytes@ + directory_bytes(all.skip(i + 1)) =~= before + directory_bytes(
            all.skip(i as int),
        ));
        i = i + 1;
    }
    assert(all.skip(all.len() as int) =~= Seq::<ItemView>::empty());
    assert(bytes@ =~= directory_bytes(all));
    sha256_of(bytes.as_slice())
}

/// Whether names and contents are no longer than a machine can hold.
pub open spec fn holdable(items: Seq<ItemView>) -> bool {
    forall|i: int|
        0 <= i < items.len() ==> utf8((#[trigger] items[i]).name).len() <= u64::MAX && (
        items[i].contents matches Some(contents) ==> contents.len() <= u64::MAX)
}

proof fn lemma_tags()
    ensures
        utf8("file"@).len() == 4,
        utf8("file"@)[0] == 102,
        utf8("directory"@).len() == 9,
        utf8("directory"@)[0] == 100,
{
    reveal_strlit("file");
    reveal_strlit("directory");
    is_ascii_chars_encode_utf8("file"@);
    is_ascii_chars_encode_utf8("directory"@);
}

/// The digest never takes in the same bytes for two directories that differ in a name, in what
/// something is or in the contents of a file, however these are cut.
pub proof fn law_directories_are_told_apart(left: Seq<ItemView>, right: Seq<ItemView>)
    requires
        holdable(left),
        holdable(right),
    ensures
        (directory_bytes(left) == directory_bytes(right)) == (left == right),
    decreases left.len(),
{
    if directory_bytes(left) == directory_bytes(right) {
        lemma_auto_spec_u64_to_from_le_bytes();
        if left.len() == 0 {
            if right.len() > 0 {
                assert(directory_bytes(right).len() >= 8);
            }
            assert(left =~= right);
        } else if right.len() == 0 {
            assert(directory_bytes(left).len() >= 8);
        } else {
            lemma_tags();
            let (a, b) = (left[0], right[0]);
            let more = directory_bytes(left.skip(1));
            let other = directory_bytes(right.skip(1));
            let kind = match a.contents {
                Some(contents) => utf8("file"@) + sized(contents),
                None => utf8("directory"@),
            };
            let other_kind = match b.contents {
                Some(contents) => utf8("file"@) + sized(contents),
                None => utf8("directory"@),
            };
            assert(directory_bytes(left) =~= sized(utf8(a.name)) + (kind + more));
            assert(directory_bytes(right) =~= sized(utf8(b.name)) + (other_kind + other));
            lemma_sized_injective(utf8(a.name), utf8(b.name), kind + more, other_kind + other);
            encode_utf8_decode_utf8(a.name);
            encode_utf8_decode_utf8(b.name);
            assert((kind + more)[0] == kind[0]);
            assert((other_kind + other)[0] == other_kind[0]);
            match (a.contents, b.contents) {
                (Some(x), Some(y)) => {
                    let rest = sized(x) + more;
                    let other_rest = sized(y) + other;
                    assert(rest =~= (kind + more).skip(4));
                    assert(other_rest =~= (other_kind + other).skip(4));
                    lemma_sized_injective(x, y, more, other);
                },
                (None, None) => {
                    assert(more =~= (kind + more).skip(9));
                    assert(other =~= (other_kind + other).skip(9));
                },
                _ => {},
            }
            assert(a == b);
            assert(holdable(left.skip(1)));
            assert(holdable(right.skip(1)));
            law_directories_are_told_apart(left.skip(1), right.skip(1));
            assert(left =~= seq![a] + left.skip(1));
            assert(right =~= seq![b] + right.skip(1));
        }
    }
}

/// What a path of a skill is called in an archive.
pub open spec fn member_path(path: Seq<char>, name: Seq<char>, directory: bool) -> Seq<char> {
    path + seq!['/'] + replaced(name, '\\', '/') + (if directory {
        seq!['/']
    } else {
        seq![]
    })
}

/// What a path of a skill is called in an archive. A name that could not be unpacked again is
/// refused.
pub fn archive_member(path: &str, name: &str, directory: bool) -> (r: Result<String, CodexxError>)
    ensures
        match path_refusal(replaced(name@, '\\', '/')) {
            Some(message) => r matches Err(error) && error@ == ErrorView::Config(message),
            None => r matches Ok(member) && member@ == member_path(path@, name@, directory),
        },
{
    let plain = with_slashes(name);
    match safe_relative(&plain) {
        Ok(_) => {},
        Err(error) => return Err(error),
    }
    let mut member = path.to_owned();
    member.push('/');
    member.append(&plain);
    if directory {
        member.push('/');
    }
    assert(member@ =~= member_path(path@, name@, directory));
    Ok(member)
}

/// What stands at the place that was chosen for an archive.
#[derive(Clone, Copy, Debug, PartialEq, Eq, Structural)]
pub enum ArchiveDestination {
    Missing,
    File,
    Other,
}

/// By what the file at the chosen place is recognised again; its contents are given where there is
/// one.
pub fn destination_snapshot(found: ArchiveDestination, contents: &[u8]) -> (r: Result<
    Option<Vec<u8>>,
    CodexxError,
>)
    ensures
        match found {
            ArchiveDestination::Missing => r matches Ok(seen) && seen is None,
            ArchiveDestination::Other => r matches Err(error) && error@ == ErrorView::Config(
                "Choose a regular ZIP file path; cannot overwrite a symlink or directory"@,
            ),
            ArchiveDestination::File => r matches Ok(seen) && opt_bytes(seen) == Some(
                sha256(contents@),
            ),
        },
{
    match found {
        ArchiveDestination::Missing => Ok(None),
        ArchiveDestination::Other => Err(
            invalid("Choose a regular ZIP file path; cannot overwrite a symlink or directory"),
        ),
        ArchiveDestination::File => Ok(Some(sha256_of(contents))),
    }
}

/// Whether the file at the chosen place is still the one that was seen, so that an archive may
/// replace it.
pub fn write_archive_atomic(before: &Option<Vec<u8>>, now: &Option<Vec<u8>>) -> (r: Result<
    (),
    CodexxError,
>)
    ensures
        if opt_bytes(*before) == opt_bytes(*now) {
            r is Ok
        } else {
            r matches Err(error) && error@ == ErrorView::Config(
                "Save location was modified by another program; choose a location again and export"@,
            )
        },
{
    let same = match (before, now) {
        (None, None) => true,
        (Some(before), Some(now)) => same_bytes(before.as_slice(), now.as_slice()),
        _ => false,
    };
    if same {
        Ok(())
    } else {
        Err(
            invalid(
                "Save location was modified by another program; choose a location again and export",
            ),
        )
    }
}

/// Whether an archive can be saved at a place: the extension of its name, whether its folder exists,
/// and whether that folder belongs to the data of Codex or of this application.
pub fn validate_export_destination(
    extension: &Option<String>,
    parent_is_directory: bool,
    inside_protected: bool,
) -> (r: Result<(), CodexxError>)
    ensures
        if !(extension matches Some(found) && lowered(found@) == lowered("zip"@)) {
            r matches Err(error) && error@ == ErrorView::Config(
                "Please save the export as a .zip file"@,
            )
        } else if !parent_is_directory {
            r matches Err(error) && error@ == ErrorView::Config(
                "Please choose a valid save directory"@,
            )
        } else if inside_protected {
            r matches Err(error) && error@ == ErrorView::Config(
                "Save the ZIP to Downloads, Desktop, or similar — not inside Codex config or app data directories"@,
            )
        } else {
            r is Ok
        },
{
    let fits = match extension {
        Some(found) => same_text(&to_lower(found), &to_lower("zip")),
        None => false,
    };
    if !fits {
        return Err(invalid("Please save the export as a .zip file"));
    }
    if !parent_is_directory {
        return Err(invalid("Please choose a valid save directory"));
    }
    if inside_protected {
        return Err(
            invalid(
                "Save the ZIP to Downloads, Desktop, or similar — not inside Codex config or app data directories",
            ),
        );
    }
    Ok(())
}

/// Checks that an archive is not saved inside one of the skills that go into it; `inside` says of
/// each whether it is.
pub fn check_outside_skills(inside: &Vec<bool>) -> (r: Result<(), CodexxError>)
    ensures
        if inside@.contains(true) {
            r matches Err(error) && error@ == ErrorView::Config(
                "Please save the ZIP outside the Skill directory"@,
            )
        } else {
            r is Ok
        },
{
    let mut i: usize = 0;
    while i < inside.len()
        invariant
            i <= inside@.len(),
            forall|j: int| 0 <= j < i ==> !#[trigger] inside@[j],
        decreases inside@.len() - i,
    {
        if inside[i] {
            assert(inside@[i as int]);
            return Err(invalid("Please save the ZIP outside the Skill directory"));
        }
        i = i + 1;
    }
    Ok(())
}

/// Checks once more that nothing is where a skill goes, right before it gets there.
pub fn confirm_free(occupied: bool) -> (r: Result<(), CodexxError>)
    ensures
        if occupied {
            r matches Err(error) && error@ == ErrorView::Config(
                "A Skill with the same name appeared during import; stopped without overwriting"@,
            )
        } else {
            r is Ok
        },
{
    if occupied {
        Err(
            invalid(
                "A Skill with the same name appeared during import; stopped without overwriting",
            ),
        )
    } else {
        Ok(())
    }
}

/// A skill that is there.
pub struct SkillState {
    pub directory: String,
    pub enabled: bool,
    pub note: Option<String>,
}

/// An MCP server that is there.
pub struct McpState {
    pub id: String,
    pub name: String,
    pub config: Value,
    pub enabled: bool,
    pub note: Option<String>,
}

/// What the directories of skills are refused for, if one is: what the first such one is.
pub open spec fn directories_refusal(skills: Seq<SkillState>) -> Option<Seq<char>>
    decreases skills.len(),
{
    if skills.len() == 0 {
        None
    } else {
        match directories_refusal(skills.drop_last()) {
            Some(message) => Some(message),
            None => directory_refusal(skills.last().directory@),
        }
    }
}

/// Whether an entry is that of a skill.
pub open spec fn packs_skill(skill: SkillState, entry: SkillEntry) -> bool {
    &&& entry.directory@ == skill.directory@
    &&& entry.path@ == "skills/"@ + skill.directory@
    &&& entry.enabled == skill.enabled
    &&& opt_view(entry.note) == opt_view(skill.note)
}

/// Whether an entry is that of an MCP server.
pub open spec fn packs_mcp(mcp: McpState, entry: McpEntry) -> bool {
    &&& entry.id@ == mcp.id@
    &&& entry.name@ == mcp.name@
    &&& json_value(entry.config) == json_value(mcp.config)
    &&& entry.enabled == mcp.enabled
    &&& opt_view(entry.note) == opt_view(mcp.note)
}

/// Whether entries are those of skills, in their order.
pub open spec fn packs_skills(skills: Seq<SkillState>, entries: Seq<SkillEntry>) -> bool {
    entries.len() == skills.len() && forall|i: int|
        0 <= i < skills.len() ==> packs_skill(skills[i], #[trigger] entries[i])
}

/// Whether entries are those of MCP servers, in their order.
pub open spec fn packs_mcps(mcps: Seq<McpState>, entries: Seq<McpEntry>) -> bool {
    entries.len() == mcps.len() && forall|i: int|
        0 <= i < mcps.len() ==> packs_mcp(mcps[i], #[trigger] entries[i])
}

proof fn lemma_directories_refusal_stays(skills: Seq<SkillState>, n: int)
    requires
        0 <= n <= skills.len(),
        directories_refusal(skills.take(n)) is Some,
    ensures
        directories_refusal(skills) == directories_refusal(skills.take(n)),
    decreases skills.len() - n,
{
    if n < skills.len() {
        assert(skills.take(n + 1).drop_last() =~= skills.take(n));
        lemma_directories_refusal_stays(skills, n + 1);
    } else {
        assert(skills.take(n) =~= skills);
    }
}

fn pack_skills(skills: &Vec<SkillState>) -> (r: Result<Vec<SkillEntry>, CodexxError>)
    ensures
        match directories_refusal(skills@) {
            Some(message) => r matches Err(error) && error@ == ErrorView::Config(message),
            None => r matches Ok(entries) && packs_skills(skills@, entries@),
        },
{
    let mut entries: Vec<SkillEntry> = Vec::new();
    let mut i: usize = 0;
    assert(skills@.take(0) =~= Seq::<SkillState>::empty());
    while i < skills.len()
        invariant
            i <= skills@.len(),
            directories_refusal(skills@.take(i as int)) is None,
            entries@.len() == i,
            forall|j: int| 0 <= j < i ==> packs_skill(skills@[j], #[trigger] entries@[j]),
        decreases skills@.len() - i,
    {
        let skill = &skills[i];
        assert(skills@.take(i + 1).drop_last() =~= skills@.take(i as int));
        match safe_directory(&skill.directory) {
            Ok(_) => {},
            Err(error) => {
                proof {
                    lemma_directories_refusal_stays(skills@, i + 1);
                }
                return Err(error);
            },
        }
        entries.push(
            SkillEntry {
                directory: skill.directory.clone(),
                path: joined("skills/", &skill.directory),
                enabled: skill.enabled,
                note: copy_opt(&skill.note),
            },
        );
        i = i + 1;
    }
    assert(skills@.take(skills@.len() as int) =~= skills@);
    Ok(entries)
}

fn pack_mcps(mcps: &Vec<McpState>) -> (r: Vec<McpEntry>)
    ensures
        packs_mcps(mcps@, r@),
{
    let mut entries: Vec<McpEntry> = Vec::new();
    let mut i: usize = 0;
    while i < mcps.len()
        invariant
            i <= mcps@.len(),
            entries@.len() == i,
            forall|j: int| 0 <= j < i ==> packs_mcp(mcps@[j], #[trigger] entries@[j]),
        decreases mcps@.len() - i,
    {
        let mcp = &mcps[i];
        entries.push(
            McpEntry {
                id: mcp.id.clone(),
                name: mcp.name.clone(),
                config: mcp.config.clone(),
                enabled: mcp.enabled,
                note: copy_opt(&mcp.note),
            },
        );
        i = i + 1;
    }
    entries
}

/// What an archive of one kind is to hold: all the skills, or all the MCP servers.
pub fn export_skills_mcp_archive_inner(
    kind: &str,
    skills: &Vec<SkillState>,
    mcps: &Vec<McpState>,
) -> (r: Result<Manifest, CodexxError>)
    ensures
        if kind@ != "skills"@ && kind@ != "mcp"@ {
            r matches Err(error) && error@ == ErrorView::Config(
                "Please choose Skills or MCP to export"@,
            )
        } else if kind@ == "skills"@ && directories_refusal(skills@) is Some {
            r matches Err(error) && error@ == ErrorView::Config(directories_refusal(skills@)->0)
        } else if (kind@ == "skills"@ && skills@.len() == 0) || (kind@ != "skills"@ && mcps@.len()
            == 0) {
            r matches Err(error) && error@ == ErrorView::Config("Nothing to export right now"@)
        } else {
            r matches Ok(manifest) && manifest.format@ == archive_format() && manifest.version
                == ARCHIVE_VERSION && (if kind@ == "skills"@ {
                packs_skills(skills@, manifest.skills@) && manifest.mcp_servers@.len() == 0
            } else {
                packs_mcps(mcps@, manifest.mcp_servers@) && manifest.skills@.len() == 0
            })
        },
{
    let for_skills = same_text(kind, "skills");
    if !for_skills && !same_text(kind, "mcp") {
        return Err(invalid("Please choose Skills or MCP to export"));
    }
    let mut manifest = Manifest {
        format: "codex-x-skills-mcp".to_owned(),
        version: ARCHIVE_VERSION,
        skills: Vec::new(),
        mcp_servers: Vec::new(),
    };
    if for_skills {
        match pack_skills(skills) {
            Ok(entries) => manifest.skills = entries,
            Err(error) => return Err(error),
        }
    } else {
        manifest.mcp_servers = pack_mcps(mcps);
    }
    if manifest.skills.len() == 0 && manifest.mcp_servers.len() == 0 {
        return Err(invalid("Nothing to export right now"));
    }
    Ok(manifest)
}

/// A text without an ending, however often it stands there.
pub open spec fn without_endings(s: Seq<char>, ending: Seq<char>) -> Seq<char>
    decreases s.len(),
{
    if ending.len() > 0 && ending.is_suffix_of(s) {
        without_endings(s.take(s.len() - ending.len()), ending)
    } else {
        s
    }
}

/// What a skill without a name of its own is called: after its directory, or after the archive where
/// it is the archive's root.
pub open spec fn fallback_name(
    file_name: Seq<char>,
    is_root: bool,
    directory: Option<Seq<char>>,
) -> Seq<char> {
    if !is_root && directory is Some {
        directory->0
    } else {
        without_endings(file_name, ".zip"@)
    }
}

fn strip_endings(s: &str) -> (r: String)
    ensures
        r@ == without_endings(s@, ".zip"@),
{
    let mut text = s.to_owned();
    proof {
        reveal_strlit(".zip");
    }
    loop
        invariant
            without_endings(s@, ".zip"@) == without_endings(text@, ".zip"@),
            ".zip"@.len() == 4,
        ensures
            text@ == without_endings(s@, ".zip"@),
        decreases text@.len(),
    {
        match strip_suffix(&text, ".zip") {
            Some(head) => {
                assert(head@ =~= text@.take(text@.len() - 4));
                assert(".zip"@.is_suffix_of(text@)) by {
                    assert(text@.subrange(text@.len() - 4, text@.len() as int) =~= ".zip"@);
                }
                text = head;
            },
            None => break,
        }
    }
    text
}

/// What a skill without a name of its own is called.
pub fn skill_fallback(file_name: &str, is_root: bool, directory: &Option<String>) -> (r: String)
    ensures
        r@ == fallback_name(file_name@, is_root, opt_view(*directory)),
{
    if !is_root {
        if let Some(directory) = directory {
            return directory.clone();
        }
    }
    strip_endings(file_name)
}

/// A skill that was found in an archive without a manifest: the name of its directory once unpacked,
/// and where it is in the archive.
pub struct FoundSkill {
    pub directory: String,
    pub path: String,
}

/// Whether entries are those of the skills that were found, in their order.
pub open spec fn packs_found(found: Seq<FoundSkill>, entries: Seq<SkillEntry>) -> bool {
    entries.len() == found.len() && forall|i: int|
        0 <= i < found.len() ==> {
            let entry = #[trigger] entries[i];
            &&& entry.directory@ == found[i].directory@
            &&& entry.path@ == replaced(found[i].path@, '\\', '/')
            &&& entry.enabled
            &&& entry.note is None
        }
}

/// Whether a manifest that was read from an archive can be used.
pub fn check_manifest(manifest: Option<Manifest>) -> (r: Result<Manifest, CodexxError>)
    ensures
        match manifest {
            None => r matches Err(error) && error@ == ErrorView::Config(
                "Astra archive manifest is invalid or too large"@,
            ),
            Some(manifest) => if manifest.format@ != archive_format() || manifest.version
                != ARCHIVE_VERSION {
                r matches Err(error) && error@ == ErrorView::Config(
                    "This archive version is not supported yet; please update Astra"@,
                )
            } else {
                r == Ok::<Manifest, CodexxError>(manifest)
            },
        },
{
    let manifest = match manifest {
        Some(manifest) => manifest,
        None => return Err(invalid("Astra archive manifest is invalid or too large")),
    };
    if !same_text(&manifest.format, "codex-x-skills-mcp") || manifest.version != ARCHIVE_VERSION {
        return Err(invalid("This archive version is not supported yet; please update Astra"));
    }
    Ok(manifest)
}

/// What an archive without a manifest holds: the skills that were found in it, all enabled.
pub fn manifest_from_extracted(found: &Vec<FoundSkill>) -> (r: Manifest)
    ensures
        r.format@ == archive_format(),
        r.version == ARCHIVE_VERSION,
        packs_found(found@, r.skills@),
        r.mcp_servers@.len() == 0,
{
    let mut skills: Vec<SkillEntry> = Vec::new();
    let mut i: usize = 0;
    while i < found.len()
        invariant
            i <= found@.len(),
            packs_found(found@.take(i as int), skills@),
        decreases found@.len() - i,
    {
        let skill = &found[i];
        skills.push(
            SkillEntry {
                directory: skill.directory.clone(),
                path: with_slashes(&skill.path),
                enabled: true,
                note: None,
            },
        );
        i = i + 1;
    }
    assert(found@.take(found@.len() as int) =~= found@);
    Manifest {
        format: "codex-x-skills-mcp".to_owned(),
        version: ARCHIVE_VERSION,
        skills,
        mcp_servers: Vec::new(),
    }
}

/// What is known of a skill of an archive: the identifier that its directory gives it, whether it
/// has its description, whether an equal or a different skill is there under its name, and whether
/// something else is where it would go.
pub struct SkillFacts {
    pub id: String,
    pub described: bool,
    pub existing_equal: Option<bool>,
    pub occupied: bool,
}

/// What is known of an MCP server of an archive: whether its configuration can be used, and whether
/// an equal or a different one is there under its identifier.
pub struct McpFacts {
    pub usable: bool,
    pub existing_equal: Option<bool>,
}

/// What an import is to do, as contracts speak of it: which entries it takes, how many it leaves
/// since they are there already, and which identifiers it met.
#[verifier::ext_equal]
pub ghost struct ImportView {
    pub skills: Seq<usize>,
    pub mcp_servers: Seq<usize>,
    pub skipped: nat,
    pub skill_ids: Set<Seq<char>>,
    pub mcp_ids: Set<Seq<char>>,
}

/// Before anything was met.
pub open spec fn nothing_planned() -> ImportView {
    ImportView {
        skills: seq![],
        mcp_servers: seq![],
        skipped: 0,
        skill_ids: Set::empty(),
        mcp_ids: Set::empty(),
    }
}

/// What the path of a skill is refused for, if it is.
pub open spec fn skill_path_refusal(path: Seq<char>) -> Option<Seq<char>> {
    if path.len() == 0 {
        None
    } else {
        path_refusal(path)
    }
}

/// What a skill of an archive is refused for, if it is.
pub open spec fn skill_refusal(plan: ImportView, entry: SkillEntry, facts: SkillFacts) -> Option<
    Seq<char>,
> {
    let name = entry.directory@;
    if directory_refusal(name) is Some {
        directory_refusal(name)
    } else if plan.skill_ids.contains(facts.id@) {
        Some("Archive contains a Skill with a duplicate name"@)
    } else if skill_path_refusal(entry.path@) is Some {
        skill_path_refusal(entry.path@)
    } else if !facts.described {
        Some("Skill "@ + name + " is missing SKILL.md"@)
    } else if facts.existing_equal == Some(true) {
        None
    } else if facts.existing_equal == Some(false) {
        Some(
            "Skill \""@ + name
                + "\" already exists with different content. Rename or remove it first; import will not overwrite it."@,
        )
    } else if facts.occupied {
        Some("Skill directory \""@ + name + "\" already exists; not overwritten"@)
    } else {
        None
    }
}

/// What meeting a skill of an archive comes to.
pub open spec fn with_skill(
    plan: ImportView,
    index: usize,
    entry: SkillEntry,
    facts: SkillFacts,
) -> Result<ImportView, Seq<char>> {
    match skill_refusal(plan, entry, facts) {
        Some(message) => Err(message),
        None => {
            let met = ImportView { skill_ids: plan.skill_ids.insert(facts.id@), ..plan };
            if facts.existing_equal == Some(true) {
                Ok(ImportView { skipped: plan.skipped + 1, ..met })
            } else {
                Ok(ImportView { skills: plan.skills.push(index), ..met })
            }
        },
    }
}

/// Whether the live configuration has something under the identifier of an MCP server.
pub open spec fn is_live(live: Entries, id: Seq<char>) -> bool {
    section_entry(live, "mcp_servers"@) matches Some(section) && section.contains_key(id)
}

/// What an MCP server of an archive is refused for, if it is.
pub open spec fn mcp_refusal(
    plan: ImportView,
    entry: McpEntry,
    facts: McpFacts,
    live: Entries,
) -> Option<Seq<char>> {
    if blank(entry.id@) || plan.mcp_ids.contains(entry.id@) || !facts.usable {
        Some("Archive contains invalid or duplicate MCP configs"@)
    } else if facts.existing_equal == Some(true) {
        None
    } else if facts.existing_equal == Some(false) {
        Some(
            "MCP \""@ + entry.name@
                + "\" already exists with a different config. Rename or remove it first; import will not overwrite it."@,
        )
    } else if is_live(live, entry.id@) {
        Some("MCP \""@ + entry.name@ + "\" already exists; not overwritten"@)
    } else {
        None
    }
}

/// What meeting an MCP server of an archive comes to.
pub open spec fn with_mcp(
    plan: ImportView,
    index: usize,
    entry: McpEntry,
    facts: McpFacts,
    live: Entries,
) -> Result<ImportView, Seq<char>> {
    match mcp_refusal(plan, entry, facts, live) {
        Some(message) => Err(message),
        None => {
            let met = ImportView { mcp_ids: plan.mcp_ids.insert(entry.id@), ..plan };
            if facts.existing_equal == Some(true) {
                Ok(ImportView { skipped: plan.skipped + 1, ..met })
            } else {
                Ok(ImportView { mcp_servers: plan.mcp_servers.push(index), ..met })
            }
        },
    }
}

/// What an import is to do.
pub struct ImportPlan {
    skills: Vec<usize>,
    mcp_servers: Vec<usize>,
    skipped: u128,
    skill_ids: StringHashMap<bool>,
    mcp_ids: StringHashMap<bool>,
}

impl View for ImportPlan {
    type V = ImportView;

    closed spec fn view(&self) -> ImportView {
        ImportView {
            skills: self.skills@,
            mcp_servers: self.mcp_servers@,
            skipped: self.skipped as nat,
            skill_ids: self.skill_ids@.dom(),
            mcp_ids: self.mcp_ids@.dom(),
        }
    }
}

impl ImportPlan {
    /// The places of the skills to install among those of the archive.
    pub fn skills(&self) -> (r: &Vec<usize>)
        ensures
            r@ == self@.skills,
    {
        &self.skills
    }

    /// The places of the MCP servers to add among those of the archive.
    pub fn mcp_servers(&self) -> (r: &Vec<usize>)
        ensures
            r@ == self@.mcp_servers,
    {
        &self.mcp_servers
    }

    /// How many entries are there already.
    pub fn skipped(&self) -> (r: u128)
        ensures
            r == self@.skipped,
    {
        self.skipped
    }

    /// Before anything was met.
    pub fn new() -> (r: ImportPlan)
        ensures
            r@ == nothing_planned(),
    {
        let plan = ImportPlan {
            skills: Vec::new(),
            mcp_servers: Vec::new(),
            skipped: 0,
            skill_ids: StringHashMap::new(),
            mcp_ids: StringHashMap::new(),
        };
        assert(plan@ =~= nothing_planned());
        plan
    }

    /// Meets a skill of the archive.
    pub fn add_skill(&mut self, index: usize, entry: &SkillEntry, facts: &SkillFacts) -> (r: Result<
        (),
        CodexxError,
    >)
        requires
            old(self)@.skipped < u128::MAX,
        ensures
            match with_skill(old(self)@, index, *entry, *facts) {
                Ok(plan) => r is Ok && final(self)@ == plan,
                Err(message) => r matches Err(error) && error@ == ErrorView::Config(message),
            },
    {
        let ghost before = self@;
        match safe_directory(&entry.directory) {
            Ok(_) => {},
            Err(error) => return Err(error),
        }
        if self.skill_ids.contains_key(&facts.id) {
            return Err(invalid("Archive contains a Skill with a duplicate name"));
        }
        self.skill_ids.insert(facts.id.clone(), true);
        assert(self@.skill_ids =~= before.skill_ids.insert(facts.id@));
        let length: usize = chars_of(&entry.path).len();
        if length > 0 {
            match safe_relative(&entry.path) {
                Ok(_) => {},
                Err(error) => return Err(error),
            }
        }
        if !facts.described {
            return Err(config3("Skill ", &entry.directory, " is missing SKILL.md"));
        }
        if let Some(equal) = facts.existing_equal {
            if equal {
                self.skipped = self.skipped + 1;
                return Ok(());
            }
            return Err(
                config3(
                    "Skill \"",
                    &entry.directory,
                    "\" already exists with different content. Rename or remove it first; import will not overwrite it.",
                ),
            );
        }
        if facts.occupied {
            return Err(
                config3(
                    "Skill directory \"",
                    &entry.directory,
                    "\" already exists; not overwritten",
                ),
            );
        }
        self.skills.push(index);
        Ok(())
    }

    /// Meets an MCP server of the archive.
    pub fn add_mcp(
        &mut self,
        index: usize,
        entry: &McpEntry,
        facts: &McpFacts,
        live: &DocumentMut,
    ) -> (r: Result<(), CodexxError>)
        requires
            old(self)@.skipped < u128::MAX,
        ensures
            match with_mcp(old(self)@, index, *entry, *facts, document_entries(*live)) {
                Ok(plan) => r is Ok && final(self)@ == plan,
                Err(message) => r matches Err(error) && error@ == ErrorView::Config(message),
            },
    {
        let ghost before = self@;
        if is_blank(&entry.id) || self.mcp_ids.contains_key(&entry.id) || !facts.usable {
            return Err(invalid("Archive contains invalid or duplicate MCP configs"));
        }
        self.mcp_ids.insert(entry.id.clone(), true);
        assert(self@.mcp_ids =~= before.mcp_ids.insert(entry.id@));
        if let Some(equal) = facts.existing_equal {
            if equal {
                self.skipped = self.skipped + 1;
                return Ok(());
            }
            return Err(
                config3(
                    "MCP \"",
                    &entry.name,
                    "\" already exists with a different config. Rename or remove it first; import will not overwrite it.",
                ),
            );
        }
        let lives = match get_section(live.as_table(), "mcp_servers") {
            Some(section) => section.get(&entry.id).is_some(),
            None => false,
        };
        if lives {
            return Err(
                config3("MCP \"", &entry.name, "\" already exists; not overwritten"),
            );
        }
        self.mcp_servers.push(index);
        Ok(())
    }
}

/// What meeting the first skills of an archive comes to.
pub open spec fn planned_skills(
    entries: Seq<SkillEntry>,
    facts: Seq<SkillFacts>,
    count: nat,
) -> Result<ImportView, Seq<char>>
    decreases count,
{
    if count == 0 {
        Ok(nothing_planned())
    } else {
        match planned_skills(entries, facts, (count - 1) as nat) {
            Err(message) => Err(message),
            Ok(plan) => with_skill(
                plan,
                (count - 1) as usize,
                entries[count - 1],
                facts[count - 1],
            ),
        }
    }
}

/// What meeting the first MCP servers of an archive comes to, after its skills.
pub open spec fn planned_mcps(
    start: ImportView,
    entries: Seq<McpEntry>,
    facts: Seq<McpFacts>,
    live: Entries,
    count: nat,
) -> Result<ImportView, Seq<char>>
    decreases count,
{
    if count == 0 {
        Ok(start)
    } else {
        match planned_mcps(start, entries, facts, live, (count - 1) as nat) {
            Err(message) => Err(message),
            Ok(plan) => with_mcp(
                plan,
                (count - 1) as usize,
                entries[count - 1],
                facts[count - 1],
                live,
            ),
        }
    }
}

/// What an import of an archive is to do.
pub open spec fn planned(
    manifest: Manifest,
    skills: Seq<SkillFacts>,
    mcps: Seq<McpFacts>,
    live: Entries,
) -> Result<ImportView, Seq<char>> {
    if manifest.skills@.len() == 0 && manifest.mcp_servers@.len() == 0 {
        Err("ZIP has no importable Skills or MCP"@)
    } else {
        match planned_skills(manifest.skills@, skills, manifest.skills@.len()) {
            Err(message) => Err(message),
            Ok(plan) => planned_mcps(
                plan,
                manifest.mcp_servers@,
                mcps,
                live,
                manifest.mcp_servers@.len(),
            ),
        }
    }
}

proof fn lemma_skills_stop(entries: Seq<SkillEntry>, facts: Seq<SkillFacts>, n: nat, count: nat)
    requires
        n <= count,
        planned_skills(entries, facts, n) is Err,
    ensures
        planned_skills(entries, facts, count) == planned_skills(entries, facts, n),
    decreases count,
{
    if n < count {
        lemma_skills_stop(entries, facts, n, (count - 1) as nat);
    }
}

proof fn lemma_mcps_stop(
    start: ImportView,
    entries: Seq<McpEntry>,
    facts: Seq<McpFacts>,
    live: Entries,
    n: nat,
    count: nat,
)
    requires
        n <= count,
        planned_mcps(start, entries, facts, live, n) is Err,
    ensures
        planned_mcps(start, entries, facts, live, count) == planned_mcps(
            start,
            entries,
            facts,
            live,
            n,
        ),
    decreases count,
{
    if n < count {
        lemma_mcps_stop(start, entries, facts, live, n, (count - 1) as nat);
    }
}

/// What an import of an archive is to do. Nothing of it is written before all of it was decided, so
/// an archive that is refused changes nothing.
pub fn import_manifest(
    manifest: &Manifest,
    skills: &Vec<SkillFacts>,
    mcps: &Vec<McpFacts>,
    live: &DocumentMut,
) -> (r: Result<ImportPlan, CodexxError>)
    requires
        skills@.len() == manifest.skills@.len(),
        mcps@.len() == manifest.mcp_servers@.len(),
    ensures
        match planned(*manifest, skills@, mcps@, document_entries(*live)) {
            Ok(plan) => r matches Ok(found) && found@ == plan,
            Err(message) => r matches Err(error) && error@ == ErrorView::Config(message),
        },
{
    if manifest.skills.len() == 0 && manifest.mcp_servers.len() == 0 {
        return Err(invalid("ZIP has no importable Skills or MCP"));
    }
    let mut plan = ImportPlan::new();
    let mut i: usize = 0;
    while i < manifest.skills.len()
        invariant
            i <= manifest.skills@.len() == skills@.len(),
            plan@.skipped <= i,
            planned_skills(manifest.skills@, skills@, i as nat) == Ok::<ImportView, Seq<char>>(
                plan@,
            ),
            manifest.skills@.len() > 0 || manifest.mcp_servers@.len() > 0,
        decreases manifest.skills@.len() - i,
    {
        match plan.add_skill(i, &manifest.skills[i], &skills[i]) {
            Ok(_) => {},
            Err(error) => {
                proof {
                    lemma_skills_stop(
                        manifest.skills@,
                        skills@,
                        (i + 1) as nat,
                        manifest.skills@.len(),
                    );
                }
                return Err(error);
            },
        }
        i = i + 1;
    }
    let ghost start = plan@;
    let mut j: usize = 0;
    while j < manifest.mcp_servers.len()
        invariant
            i <= usize::MAX,
            j <= manifest.mcp_servers@.len() == mcps@.len(),
            plan@.skipped <= i + j,
            planned_mcps(start, manifest.mcp_servers@, mcps@, document_entries(*live), j as nat)
                == Ok::<ImportView, Seq<char>>(plan@),
            planned_skills(manifest.skills@, skills@, manifest.skills@.len()) == Ok::<
                ImportView,
                Seq<char>,
            >(start),
            manifest.skills@.len() > 0 || manifest.mcp_servers@.len() > 0,
        decreases manifest.mcp_servers@.len() - j,
    {
        match plan.add_mcp(j, &manifest.mcp_servers[j], &mcps[j], live) {
            Ok(_) => {},
            Err(error) => {
                proof {
                    lemma_mcps_stop(
                        start,
                        manifest.mcp_servers@,
                        mcps@,
                        document_entries(*live),
                        (j + 1) as nat,
                        manifest.mcp_servers@.len(),
                    );
                }
                return Err(error);
            },
        }
        j = j + 1;
    }
    Ok(plan)
}

proof fn lemma_neither(answer: Option<bool>)
    ensures
        answer is None || answer == Some(true) || answer == Some(false),
{
    if let Some(value) = answer {
        assert(value || !value);
    }
}

proof fn lemma_skills_are_new(entries: Seq<SkillEntry>, facts: Seq<SkillFacts>, count: nat)
    requires
        count <= entries.len() == facts.len(),
        count <= usize::MAX,
        planned_skills(entries, facts, count) is Ok,
    ensures
        ({
            let plan = planned_skills(entries, facts, count)->Ok_0;
            &&& plan.mcp_servers.len() == 0
            &&& forall|k: int|
                0 <= k < plan.skills.len() ==> {
                    let i = #[trigger] plan.skills[k] as int;
                    &&& i < count
                    &&& directory_refusal(entries[i].directory@) is None
                    &&& facts[i].described
                    &&& facts[i].existing_equal is None
                    &&& !facts[i].occupied
                }
        }),
    decreases count,
{
    if count > 0 {
        lemma_skills_are_new(entries, facts, (count - 1) as nat);
        let before = planned_skills(entries, facts, (count - 1) as nat)->Ok_0;
        let plan = planned_skills(entries, facts, count)->Ok_0;
        assert forall|k: int| 0 <= k < plan.skills.len() implies {
            let i = #[trigger] plan.skills[k] as int;
            &&& i < count
            &&& directory_refusal(entries[i].directory@) is None
            &&& facts[i].described
            &&& facts[i].existing_equal is None
            &&& !facts[i].occupied
        } by {
            if k < before.skills.len() {
                assert(plan.skills[k] == before.skills[k]);
            } else {
                lemma_neither(facts[count - 1].existing_equal);
            }
        }
    }
}

proof fn lemma_mcps_are_new(
    start: ImportView,
    entries: Seq<McpEntry>,
    facts: Seq<McpFacts>,
    live: Entries,
    count: nat,
)
    requires
        start.mcp_servers.len() == 0,
        count <= entries.len() == facts.len(),
        count <= usize::MAX,
        planned_mcps(start, entries, facts, live, count) is Ok,
    ensures
        ({
            let plan = planned_mcps(start, entries, facts, live, count)->Ok_0;
            &&& plan.skills == start.skills
            &&& forall|k: int|
                0 <= k < plan.mcp_servers.len() ==> {
                    let i = #[trigger] plan.mcp_servers[k] as int;
                    &&& i < count
                    &&& facts[i].usable
                    &&& facts[i].existing_equal is None
                    &&& !is_live(live, entries[i].id@)
                }
        }),
    decreases count,
{
    if count > 0 {
        lemma_mcps_are_new(start, entries, facts, live, (count - 1) as nat);
        let before = planned_mcps(start, entries, facts, live, (count - 1) as nat)->Ok_0;
        let plan = planned_mcps(start, entries, facts, live, count)->Ok_0;
        assert forall|k: int| 0 <= k < plan.mcp_servers.len() implies {
            let i = #[trigger] plan.mcp_servers[k] as int;
            &&& i < count
            &&& facts[i].usable
            &&& facts[i].existing_equal is None
            &&& !is_live(live, entries[i].id@)
        } by {
            if k < before.mcp_servers.len() {
                assert(plan.mcp_servers[k] == before.mcp_servers[k]);
            } else {
                lemma_neither(facts[count - 1].existing_equal);
            }
        }
    }
}

/// An import replaces nothing: it takes only skills under whose name there is none and whose place
/// is free, and only MCP servers under whose identifier there is none, not even a malformed one in
/// the live configuration.
pub proof fn law_import_replaces_nothing(
    manifest: Manifest,
    skills: Seq<SkillFacts>,
    mcps: Seq<McpFacts>,
    live: Entries,
)
    requires
        skills.len() == manifest.skills@.len() <= usize::MAX,
        mcps.len() == manifest.mcp_servers@.len() <= usize::MAX,
        planned(manifest, skills, mcps, live) is Ok,
    ensures
        ({
            let plan = planned(manifest, skills, mcps, live)->Ok_0;
            &&& forall|k: int|
                0 <= k < plan.skills.len() ==> {
                    let i = #[trigger] plan.skills[k] as int;
                    &&& i < skills.len()
                    &&& skills[i].existing_equal is None
                    &&& !skills[i].occupied
                }
            &&& forall|k: int|
                0 <= k < plan.mcp_servers.len() ==> {
                    let i = #[trigger] plan.mcp_servers[k] as int;
                    &&& i < mcps.len()
                    &&& mcps[i].existing_equal is None
                    &&& !is_live(live, manifest.mcp_servers@[i].id@)
                }
        }),
{
    lemma_skills_are_new(manifest.skills@, skills, skills.len());
    let start = planned_skills(manifest.skills@, skills, skills.len())->Ok_0;
    lemma_mcps_are_new(start, manifest.mcp_servers@, mcps, live, mcps.len());
}

proof fn lemma_present_skills(entries: Seq<SkillEntry>, facts: Seq<SkillFacts>, count: nat)
    requires
        count <= entries.len() == facts.len(),
        forall|i: int| 0 <= i < count ==> (#[trigger] facts[i]).existing_equal == Some(true),
        planned_skills(entries, facts, count) is Ok,
    ensures
        planned_skills(entries, facts, count)->Ok_0.skills.len() == 0,
        planned_skills(entries, facts, count)->Ok_0.mcp_servers.len() == 0,
        planned_skills(entries, facts, count)->Ok_0.skipped == count,
    decreases count,
{
    if count > 0 {
        lemma_present_skills(entries, facts, (count - 1) as nat);
        assert(facts[count - 1].existing_equal == Some(true));
    }
}

proof fn lemma_present_mcps(
    start: ImportView,
    entries: Seq<McpEntry>,
    facts: Seq<McpFacts>,
    live: Entries,
    count: nat,
)
    requires
        count <= entries.len() == facts.len(),
        forall|i: int| 0 <= i < count ==> (#[trigger] facts[i]).existing_equal == Some(true),
        planned_mcps(start, entries, facts, live, count) is Ok,
    ensures
        planned_mcps(start, entries, facts, live, count)->Ok_0.skills == start.skills,
        planned_mcps(start, entries, facts, live, count)->Ok_0.mcp_servers == start.mcp_servers,
        planned_mcps(start, entries, facts, live, count)->Ok_0.skipped == start.skipped + count,
    decreases count,
{
    if count > 0 {
        lemma_present_mcps(start, entries, facts, live, (count - 1) as nat);
        assert(facts[count - 1].existing_equal == Some(true));
    }
}

/// An archive whose entries are all there already, unchanged, is imported without doing anything.
pub proof fn law_second_import_changes_nothing(
    manifest: Manifest,
    skills: Seq<SkillFacts>,
    mcps: Seq<McpFacts>,
    live: Entries,
)
    requires
        skills.len() == manifest.skills@.len(),
        mcps.len() == manifest.mcp_servers@.len(),
        forall|i: int|
            0 <= i < skills.len() ==> (#[trigger] skills[i]).existing_equal == Some(true),
        forall|i: int| 0 <= i < mcps.len() ==> (#[trigger] mcps[i]).existing_equal == Some(true),
        planned(manifest, skills, mcps, live) is Ok,
    ensures
        ({
            let plan = planned(manifest, skills, mcps, live)->Ok_0;
            plan.skills.len() == 0 && plan.mcp_servers.len() == 0 && plan.skipped == skills.len()
                + mcps.len()
        }),
{
    lemma_present_skills(manifest.skills@, skills, skills.len());
    let start = planned_skills(manifest.skills@, skills, skills.len())->Ok_0;
    lemma_present_mcps(start, manifest.mcp_servers@, mcps, live, mcps.len());
}

/// A piece before a separator stands before the pieces of what follows.
proof fn lemma_pieces_after(first: Seq<char>, s: Seq<char>, c: char)
    requires
        !first.contains(c),
    ensures
        pieces(first + seq![c] + s, c) == seq![first] + pieces(s, c),
    decreases s.len(),
{
    let whole = first + seq![c] + s;
    if s.len() == 0 {
        lemma_first_piece(first, c, first.len() as int);
        assert(first.take(first.len() as int) =~= first);
        assert(whole.drop_last() =~= first);
        assert(pieces(first, c) =~= seq![first]);
        assert(pieces(whole, c) =~= seq![first] + pieces(s, c));
    } else {
        let shorter = s.drop_last();
        lemma_pieces_after(first, shorter, c);
        lemma_pieces_plain(shorter, c);
        assert(whole.drop_last() =~= first + seq![c] + shorter);
        assert(pieces(whole, c) =~= seq![first] + pieces(s, c));
    }
}

proof fn lemma_without_trailing_after(before: Seq<char>, s: Seq<char>, c: char)
    requires
        s.len() > 0,
        s[0] != c,
    ensures
        without_trailing(before + s, c) == before + without_trailing(s, c),
    decreases s.len(),
{
    if s.last() == c {
        assert((before + s).drop_last() =~= before + s.drop_last());
        lemma_without_trailing_after(before, s.drop_last(), c);
    }
}

/// The place that a skill gets in an archive is one that an import takes.
proof fn lemma_skill_place(directory: Seq<char>)
    requires
        directory_refusal(directory) is None,
    ensures
        path_refusal("skills/"@ + directory) is None,
{
    reveal_strlit("skills/");
    reveal_strlit("skills");
    reveal_strlit(".");
    reveal_strlit("..");
    reveal_strlit("CON");
    reveal_strlit("PRN");
    reveal_strlit("AUX");
    reveal_strlit("NUL");
    let first = "skills"@;
    let place = "skills/"@ + directory;
    assert(place =~= first + seq!['/'] + directory);
    lemma_pieces_after(first, directory, '/');
    let parts = pieces(directory, '/');
    let all = pieces(place, '/');
    assert(all[0] == first);
    assert(!all.contains(".."@)) by {
        if all.contains(".."@) {
            let i = all.index_of(".."@);
            assert(i > 0);
            assert(parts[i - 1] == ".."@);
        }
    }
    assert forall|c: char| place.contains(c) implies "skills/"@.contains(c) || directory.contains(
        c,
    ) by {
        let i = place.index_of(c);
        if i < 7 {
            assert("skills/"@[i] == c);
        } else {
            assert(directory[i - 7] == c);
        }
    }
    lemma_without_trailing_after("skills/"@, directory, '/');
    let inner = without_trailing(directory, '/');
    assert(without_trailing(place, '/') =~= first + seq!['/'] + inner);
    lemma_pieces_after(first, inner, '/');
    lemma_first_piece(first, '.', 6);
    assert(uppered(pieces(first, '.')[0]).len() == 6);
    assert("CON"@.len() == 3 && "PRN"@.len() == 3 && "AUX"@.len() == 3 && "NUL"@.len() == 3);
    assert(is_portable(first));
    assert forall|i: int| 0 <= i < path_parts(place).len() implies is_portable(
        #[trigger] path_parts(place)[i],
    ) by {
        if i > 0 {
            assert(path_parts(place)[i] == path_parts(directory)[i - 1]);
        }
    }
}

proof fn lemma_packed_skills(
    skills: Seq<SkillState>,
    entries: Seq<SkillEntry>,
    facts: Seq<SkillFacts>,
    count: nat,
)
    requires
        count <= skills.len() == facts.len() <= usize::MAX,
        directories_refusal(skills.take(count as int)) is None,
        packs_skills(skills, entries),
        forall|i: int|
            0 <= i < facts.len() ==> (#[trigger] facts[i]).described && facts[i].existing_equal
                is None && !facts[i].occupied,
        forall|i: int, j: int|
            0 <= i < j < facts.len() ==> (#[trigger] facts[i]).id@ != (#[trigger] facts[j]).id@,
    ensures
        planned_skills(entries, facts, count) is Ok,
        ({
            let plan = planned_skills(entries, facts, count)->Ok_0;
            &&& plan.skills == Seq::new(count, |i: int| i as usize)
            &&& plan.mcp_servers.len() == 0
            &&& plan.skipped == 0
            &&& plan.mcp_ids == Set::<Seq<char>>::empty()
            &&& forall|id: Seq<char>| #[trigger]
                plan.skill_ids.contains(id) ==> exists|i: int|
                    0 <= i < count && (#[trigger] facts[i]).id@ == id
        }),
    decreases count,
{
    if count > 0 {
        let last = count - 1;
        assert(skills.take(count as int).drop_last() =~= skills.take(last));
        lemma_packed_skills(skills, entries, facts, last as nat);
        let before = planned_skills(entries, facts, last as nat)->Ok_0;
        assert(packs_skill(skills[last], entries[last]));
        lemma_skill_place(skills[last].directory@);
        assert(facts[last].described);
        assert(!before.skill_ids.contains(facts[last].id@));
        let plan = planned_skills(entries, facts, count)->Ok_0;
        assert(plan.skills =~= Seq::new(count, |i: int| i as usize));
        assert forall|id: Seq<char>| #[trigger] plan.skill_ids.contains(id) implies exists|i: int|
            0 <= i < count && (#[trigger] facts[i]).id@ == id by {
            if before.skill_ids.contains(id) {
                let i = choose|i: int| 0 <= i < last && (#[trigger] facts[i]).id@ == id;
                assert(facts[i].id@ == id);
            } else {
                assert(facts[last].id@ == id);
            }
        }
    }
}

/// What was exported can be imported where none of it is: an archive of skills that could be
/// exported is taken whole, each skill in its place, provided that their identifiers differ and
/// their descriptions are in it.
pub proof fn law_exported_skills_can_be_imported(
    skills: Seq<SkillState>,
    manifest: Manifest,
    facts: Seq<SkillFacts>,
    live: Entries,
)
    requires
        0 < skills.len() == facts.len() <= usize::MAX,
        directories_refusal(skills) is None,
        packs_skills(skills, manifest.skills@),
        manifest.mcp_servers@.len() == 0,
        forall|i: int|
            0 <= i < facts.len() ==> (#[trigger] facts[i]).described && facts[i].existing_equal
                is None && !facts[i].occupied,
        forall|i: int, j: int|
            0 <= i < j < facts.len() ==> (#[trigger] facts[i]).id@ != (#[trigger] facts[j]).id@,
    ensures
        planned(manifest, facts, seq![], live) matches Ok(plan) && plan.skills == Seq::new(
            skills.len(),
            |i: int| i as usize,
        ) && plan.mcp_servers.len() == 0 && plan.skipped == 0,
{
    assert(skills.take(skills.len() as int) =~= skills);
    lemma_packed_skills(skills, manifest.skills@, facts, skills.len());
}

proof fn lemma_packed_servers(
    mcps: Seq<McpState>,
    entries: Seq<McpEntry>,
    facts: Seq<McpFacts>,
    live: Entries,
    count: nat,
)
    requires
        count <= mcps.len() == facts.len() <= usize::MAX,
        packs_mcps(mcps, entries),
        forall|i: int|
            0 <= i < mcps.len() ==> !blank((#[trigger] mcps[i]).id@) && !is_live(live, mcps[i].id@),
        forall|i: int|
            0 <= i < facts.len() ==> (#[trigger] facts[i]).usable && facts[i].existing_equal
                is None,
        forall|i: int, j: int|
            0 <= i < j < mcps.len() ==> (#[trigger] mcps[i]).id@ != (#[trigger] mcps[j]).id@,
    ensures
        planned_mcps(nothing_planned(), entries, facts, live, count) is Ok,
        ({
            let plan = planned_mcps(nothing_planned(), entries, facts, live, count)->Ok_0;
            &&& plan.mcp_servers == Seq::new(count, |i: int| i as usize)
            &&& plan.skills.len() == 0
            &&& plan.skipped == 0
            &&& forall|id: Seq<char>| #[trigger]
                plan.mcp_ids.contains(id) ==> exists|i: int|
                    0 <= i < count && (#[trigger] mcps[i]).id@ == id
        }),
    decreases count,
{
    if count > 0 {
        let last = count - 1;
        lemma_packed_servers(mcps, entries, facts, live, last as nat);
        let before = planned_mcps(nothing_planned(), entries, facts, live, last as nat)->Ok_0;
        assert(packs_mcp(mcps[last], entries[last]));
        assert(facts[last].usable);
        assert(!before.mcp_ids.contains(mcps[last].id@));
        let plan = planned_mcps(nothing_planned(), entries, facts, live, count)->Ok_0;
        assert(plan.mcp_servers =~= Seq::new(count, |i: int| i as usize));
        assert forall|id: Seq<char>| #[trigger] plan.mcp_ids.contains(id) implies exists|i: int|
            0 <= i < count && (#[trigger] mcps[i]).id@ == id by {
            if before.mcp_ids.contains(id) {
                let i = choose|i: int| 0 <= i < last && (#[trigger] mcps[i]).id@ == id;
                assert(mcps[i].id@ == id);
            } else {
                assert(mcps[last].id@ == id);
            }
        }
    }
}

/// What was exported can be imported where none of it is: an archive of MCP servers is taken whole,
/// provided that their identifiers are not blank and differ and their configurations can be used.
pub proof fn law_exported_servers_can_be_imported(
    mcps: Seq<McpState>,
    manifest: Manifest,
    facts: Seq<McpFacts>,
    live: Entries,
)
    requires
        0 < mcps.len() == facts.len() <= usize::MAX,
        packs_mcps(mcps, manifest.mcp_servers@),
        manifest.skills@.len() == 0,
        forall|i: int|
            0 <= i < mcps.len() ==> !blank((#[trigger] mcps[i]).id@) && !is_live(live, mcps[i].id@),
        forall|i: int|
            0 <= i < facts.len() ==> (#[trigger] facts[i]).usable && facts[i].existing_equal
                is None,
        forall|i: int, j: int|
            0 <= i < j < mcps.len() ==> (#[trigger] mcps[i]).id@ != (#[trigger] mcps[j]).id@,
    ensures
        planned(manifest, seq![], facts, live) matches Ok(plan) && plan.mcp_servers == Seq::new(
            mcps.len(),
            |i: int| i as usize,
        ) && plan.skills.len() == 0 && plan.skipped == 0,
{
    lemma_packed_servers(mcps, manifest.mcp_servers@, facts, live, mcps.len());
}

/// The note of an entry that is stored, if there is one; the longest that one may be is given.
pub fn note_to_save(note: &Option<String>, limit: usize) -> (r: Result<Option<String>, CodexxError>)
    ensures
        match *note {
            Some(note) if !blank(note@) => if note@.len() > limit {
                r matches Err(error) && error@ == ErrorView::Config(
                    "Notes in the archive are too long"@,
                )
            } else {
                r matches Ok(found) && opt_view(found) == Some(note@)
            },
            _ => r matches Ok(found) && found is None,
        },
{
    if let Some(note) = note {
        if !is_blank(note) {
            let count: usize = chars_of(note).len();
            if count > limit {
                return Err(invalid("Notes in the archive are too long"));
            }
            return Ok(Some(note.clone()));
        }
    }
    Ok(None)
}

/// Puts an MCP server into the live configuration. Everything else stays as it is written.
pub fn enable_mcp(live: &mut DocumentMut, id: &str, item: Item) -> (r: Result<(), CodexxError>)
    ensures
        match ensured_section(document_entries(*old(live)), "mcp_servers"@) {
            Ok(section) => r is Ok && document_entries(*final(live)) == document_entries(
                *old(live),
            ).insert(
                "mcp_servers"@,
                TomlView::Section(with_entry(section, id@, item_value(item))),
            ),
            Err(error) => r matches Err(found) && found@ == error && *final(live)
                == *old(live),
        },
        document_spellings(*final(live)).remove("mcp_servers"@) == document_spellings(
            *old(live),
        ).remove("mcp_servers"@),
{
    let mut section = match ensure_table(live.as_table(), "mcp_servers") {
        Ok(section) => section,
        Err(error) => return Err(error),
    };
    section.insert(id, item);
    set_section(live.as_table_mut(), "mcp_servers", section);
    Ok(())
}

/// What is reported of an import.
pub fn install_archive_reader(plan: &ImportPlan) -> (r: String)
    ensures
        r@ == "Imported "@ + decimal(plan@.skills.len()) + " Skills and "@ + decimal(
            plan@.mcp_servers.len(),
        ) + " MCP"@ + (if plan@.skipped > 0 {
            ", skipped "@ + decimal(plan@.skipped) + " existing items"@
        } else {
            seq![]
        }),
{
    let mut message = joined3(
        "Imported ",
        &decimal_of(plan.skills.len() as u128),
        " Skills and ",
    );
    message.append(&decimal_of(plan.mcp_servers.len() as u128));
    message.append(" MCP");
    if plan.skipped > 0 {
        message.append(", skipped ");
        message.append(&decimal_of(plan.skipped));
        message.append(" existing items");
    }
    assert(message@ =~= "Imported "@ + decimal(plan@.skills.len()) + " Skills and "@ + decimal(
        plan@.mcp_servers.len(),
    ) + " MCP"@ + (if plan@.skipped > 0 {
        ", skipped "@ + decimal(plan@.skipped) + " existing items"@
    } else {
        seq![]
    }));
    message
}

} // verus!
