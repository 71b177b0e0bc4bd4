use codexx::error::CodexxError;
use codexx::skills_mcp::archive::{
    archive_member, check_manifest, check_outside_skills, collect_entries, confirm_free, destination_snapshot, directory_digest,
    enable_mcp, export_skills_mcp_archive_inner, extract, import_manifest, install_archive_reader,
    manifest_from_extracted, note_to_save, safe_directory, safe_relative, skill_fallback,
    validate_export_destination, write_archive_atomic, zip_error, ArchiveDestination, ArchiveEntry,
    DirectoryItem, FoundSkill, Manifest, McpEntry, McpFacts, McpState, SkillEntry, SkillFacts,
    SkillState, SourceKind,
};
use codexx::skills_mcp::install::{Install, InstallStage};
use codexx::skills_mcp::skill_roots::{find_skill_roots, Folder};
use serde_json::Value;
use std::io::{Cursor, Write};
use toml_edit::{value, DocumentMut};
use zip::write::SimpleFileOptions;

fn manifest() -> Manifest {
    Manifest {
        format: "codex-x-skills-mcp".to_string(),
        version: 1,
        skills: Vec::new(),
        mcp_servers: Vec::new(),
    }
}

fn zip_entries(entries: &[(&str, &[u8])]) -> Vec<u8> {
    let mut writer = zip::ZipWriter::new(Cursor::new(Vec::new()));
    for (name, data) in entries {
        writer
            .start_file(
                *name,
                SimpleFileOptions::default().compression_method(zip::CompressionMethod::Stored),
            )
            .unwrap();
        writer.write_all(data).unwrap();
    }
    writer.finish().unwrap().into_inner()
}

fn listed(bytes: Vec<u8>) -> Vec<ArchiveEntry> {
    let mut archive = zip::ZipArchive::new(Cursor::new(bytes)).unwrap();
    (0..archive.len())
        .map(|index| {
            let entry = archive.by_index(index).unwrap();
            ArchiveEntry {
                name: entry.name().to_string(),
                unix_mode: entry.unix_mode(),
                directory: entry.is_dir(),
            }
        })
        .collect()
}

fn skill(directory: &str) -> SkillEntry {
    SkillEntry {
        directory: directory.to_string(),
        path: format!("skills/{directory}"),
        enabled: true,
        note: None,
    }
}

fn skill_facts(id: &str) -> SkillFacts {
    SkillFacts {
        id: id.to_string(),
        described: true,
        existing_equal: None,
        occupied: false,
    }
}

fn mcp(id: &str) -> McpEntry {
    McpEntry {
        id: id.to_string(),
        name: format!("Name of {id}"),
        config: Value::Null,
        enabled: true,
        note: None,
    }
}

fn mcp_facts() -> McpFacts {
    McpFacts {
        usable: true,
        existing_equal: None,
    }
}

#[test]
fn unsafe_duplicate_and_link_zip_entries_are_rejected() {
    for name in [
        "../escape",
        "/absolute",
        "C:/drive",
        "folder\\escape",
        "CON.txt",
    ] {
        assert!(
            extract(&listed(zip_entries(&[(name, b"unsafe")]))).is_err(),
            "accepted {name}"
        );
    }
    assert!(extract(&listed(zip_entries(&[("a", b"1"), ("A", b"2")]))).is_err());
    let mut writer = zip::ZipWriter::new(Cursor::new(Vec::new()));
    writer
        .add_symlink("link", "../outside", SimpleFileOptions::default())
        .unwrap();
    assert!(extract(&listed(writer.finish().unwrap().into_inner())).is_err());
    let steps = extract(&listed(zip_entries(&[("a/b.txt", b"1"), ("c", b"2")]))).unwrap();
    assert_eq!(steps[0].parts, ["a", "b.txt"]);
    assert_eq!(steps[1].parts, ["c"]);
    assert!(!steps[0].directory);
    assert_eq!(steps[0].permissions, Some(0o644));
}

#[test]
fn paths_are_refused_for_what_they_are() {
    for name in ["", "a/../b", "./a", ".", "/", "a:b", "a\0b"] {
        assert_eq!(
            safe_relative(name).unwrap_err().text(),
            "配置错误: ZIP contains unsafe file paths",
            "{name}"
        );
    }
    for name in ["a//b", "a/b ", "a/b.", "lpt1.txt", "a/./b", "nul"] {
        assert_eq!(
            safe_relative(name).unwrap_err().text(),
            "配置错误: ZIP contains file paths that are not safe across platforms",
            "{name}"
        );
    }
    assert_eq!(safe_relative("a/b.c/").unwrap(), ["a", "b.c"]);
    assert!(safe_directory("skill-1").is_ok());
    assert!(safe_directory(".hidden").is_err());
    assert!(safe_directory("a/b").is_err());
    assert!(safe_directory("..").is_err());
    assert_eq!(
        zip_error("x").text(),
        "配置错误: Unable to read or write ZIP: x"
    );
}

#[test]
fn empty_and_unknown_version_archives_are_rejected() {
    let found = manifest_from_extracted(&Vec::new());
    assert!(import_manifest(&found, &Vec::new(), &Vec::new(), &DocumentMut::new()).is_err());
    let mut unknown = manifest();
    unknown.version = 99;
    assert!(check_manifest(Some(unknown)).is_err());
    let mut other = manifest();
    other.format = "other".to_string();
    assert!(check_manifest(Some(other)).is_err());
    assert!(check_manifest(None).is_err());
    assert!(check_manifest(Some(manifest())).is_ok());
}

#[test]
fn conflicting_bundle_is_rejected_before_any_skill_or_mcp_is_written() {
    let mut bundle = manifest();
    bundle.skills.push(skill("archive-new-first"));
    bundle.skills.push(skill("archive-existing-second"));
    let mut second = skill_facts("archive-existing-second");
    second.existing_equal = Some(false);
    let error = import_manifest(
        &bundle,
        &vec![skill_facts("archive-new-first"), second],
        &Vec::new(),
        &DocumentMut::new(),
    )
    .err()
    .unwrap();
    assert!(error.text().contains("already exists with different content"));
}

#[test]
fn same_mcp_id_with_different_configuration_does_not_overwrite_live_config() {
    let original = "[mcp_servers.archive_conflict]\ncommand = \"existing\"\n";
    let live: DocumentMut = original.parse().unwrap();
    let mut conflict = manifest();
    let mut server = mcp("archive_conflict");
    server.name = "Conflict".to_string();
    server.config = serde_json::from_str(r#"{"command":"different"}"#).unwrap();
    conflict.mcp_servers.push(server);
    for existing_equal in [Some(false), None] {
        let facts = McpFacts {
            existing_equal,
            ..mcp_facts()
        };
        assert!(import_manifest(&conflict, &Vec::new(), &vec![facts], &live).is_err());
        assert_eq!(live.to_string(), original);
    }

    let mut bundle = manifest();
    bundle.mcp_servers.push(mcp("docs"));
    let plan = |facts: McpFacts, live: &str| {
        import_manifest(&bundle, &Vec::new(), &vec![facts], &live.parse().unwrap())
            .map(|plan| (plan.mcp_servers().clone(), plan.skipped()))
            .map_err(|error| error.text())
    };
    assert_eq!(plan(mcp_facts(), ""), Ok((vec![0], 0)));
    assert!(plan(
        McpFacts {
            existing_equal: Some(false),
            ..mcp_facts()
        },
        ""
    )
    .unwrap_err()
    .contains("different config"));
    assert_eq!(
        plan(
            McpFacts {
                existing_equal: Some(true),
                ..mcp_facts()
            },
            ""
        ),
        Ok((Vec::new(), 1))
    );
    assert!(plan(mcp_facts(), "[mcp_servers.docs]\nbroken = true\n")
        .unwrap_err()
        .contains("already exists; not overwritten"));
    assert!(plan(
        McpFacts {
            usable: false,
            ..mcp_facts()
        },
        ""
    )
    .unwrap_err()
    .contains("invalid or duplicate MCP configs"));
}

#[test]
fn imports_say_what_they_refuse() {
    let refused = |directory: &str, facts: SkillFacts| {
        let mut bundle = manifest();
        bundle.skills.push(skill(directory));
        import_manifest(&bundle, &vec![facts], &Vec::new(), &DocumentMut::new())
            .err()
            .unwrap()
            .text()
    };
    assert!(refused("..", skill_facts("x")).contains("unsafe file paths"));
    assert!(refused(
        "x",
        SkillFacts {
            described: false,
            ..skill_facts("x")
        }
    )
    .contains("Skill x is missing SKILL.md"));
    assert!(refused(
        "x",
        SkillFacts {
            occupied: true,
            ..skill_facts("x")
        }
    )
    .contains("Skill directory \"x\" already exists"));
    let mut twice = manifest();
    twice.skills.push(skill("a"));
    twice.skills.push(skill("A"));
    assert!(import_manifest(
        &twice,
        &vec![skill_facts("a"), skill_facts("a")],
        &Vec::new(),
        &DocumentMut::new()
    )
    .err()
    .unwrap()
    .text()
    .contains("duplicate name"));
}

#[test]
fn a_second_import_changes_nothing() {
    let mut bundle = manifest();
    bundle.skills.push(skill("one"));
    bundle.mcp_servers.push(mcp("docs"));
    let first = import_manifest(
        &bundle,
        &vec![skill_facts("one")],
        &vec![mcp_facts()],
        &DocumentMut::new(),
    )
    .ok()
    .unwrap();
    assert_eq!(install_archive_reader(&first), "Imported 1 Skills and 1 MCP");
    let second = import_manifest(
        &bundle,
        &vec![SkillFacts {
            existing_equal: Some(true),
            ..skill_facts("one")
        }],
        &vec![McpFacts {
            existing_equal: Some(true),
            ..mcp_facts()
        }],
        &DocumentMut::new(),
    )
    .ok()
    .unwrap();
    assert!(second.skills().is_empty() && second.mcp_servers().is_empty());
    assert_eq!(
        install_archive_reader(&second),
        "Imported 0 Skills and 0 MCP, skipped 2 existing items"
    );
}

#[test]
fn exports_hold_one_kind() {
    let skills = vec![SkillState {
        directory: "one".to_string(),
        enabled: false,
        note: Some("note".to_string()),
    }];
    let mcps = vec![McpState {
        id: "docs".to_string(),
        name: "Docs".to_string(),
        config: serde_json::from_str(r#"{"command":"x"}"#).unwrap(),
        enabled: true,
        note: None,
    }];
    let found = export_skills_mcp_archive_inner("skills", &skills, &mcps)
        .ok()
        .unwrap();
    assert_eq!(found.skills[0].path, "skills/one");
    assert_eq!(found.skills[0].note.as_deref(), Some("note"));
    assert!(!found.skills[0].enabled);
    assert!(found.mcp_servers.is_empty());
    let found = export_skills_mcp_archive_inner("mcp", &skills, &mcps)
        .ok()
        .unwrap();
    assert_eq!(found.mcp_servers[0].config["command"], "x");
    assert!(found.skills.is_empty());
    assert!(export_skills_mcp_archive_inner("other", &skills, &mcps).is_err());
    assert!(export_skills_mcp_archive_inner("mcp", &skills, &Vec::new()).is_err());
    let hidden = vec![SkillState {
        directory: ".git".to_string(),
        enabled: true,
        note: None,
    }];
    assert!(export_skills_mcp_archive_inner("skills", &hidden, &mcps).is_err());
}

#[test]
fn exported_archives_can_be_imported() {
    let skills = vec![
        SkillState {
            directory: "one".to_string(),
            enabled: false,
            note: Some("note".to_string()),
        },
        SkillState {
            directory: "two".to_string(),
            enabled: true,
            note: None,
        },
    ];
    let servers = vec![McpState {
        id: "x".to_string(),
        name: "X".to_string(),
        config: Value::Object(Default::default()),
        enabled: true,
        note: None,
    }];
    let live = DocumentMut::new();
    let exported = export_skills_mcp_archive_inner("skills", &skills, &servers)
        .ok()
        .unwrap();
    let exported = check_manifest(Some(exported)).ok().unwrap();
    let facts = vec![skill_facts("one"), skill_facts("two")];
    let plan = import_manifest(&exported, &facts, &Vec::new(), &live)
        .ok()
        .unwrap();
    assert_eq!(*plan.skills(), vec![0, 1]);
    assert_eq!(plan.skipped(), 0);
    let exported = export_skills_mcp_archive_inner("mcp", &skills, &servers)
        .ok()
        .unwrap();
    let exported = check_manifest(Some(exported)).ok().unwrap();
    let plan = import_manifest(&exported, &Vec::new(), &vec![mcp_facts()], &live)
        .ok()
        .unwrap();
    assert_eq!(*plan.mcp_servers(), vec![0]);
    assert_eq!(plan.skipped(), 0);
}

#[test]
fn export_rejects_codex_data_and_non_zip_destinations() {
    assert!(check_outside_skills(&vec![false, false]).is_ok());
    assert!(check_outside_skills(&vec![false, true])
        .unwrap_err()
        .text()
        .contains("outside the Skill directory"));
    assert!(confirm_free(false).is_ok());
    assert!(confirm_free(true)
        .unwrap_err()
        .text()
        .contains("appeared during import"));
    let zip = Some("ZIP".to_string());
    assert!(validate_export_destination(&zip, true, false).is_ok());
    assert!(validate_export_destination(&Some("txt".to_string()), true, false).is_err());
    assert!(validate_export_destination(&None, true, false).is_err());
    assert!(validate_export_destination(&zip, false, false).is_err());
    assert!(validate_export_destination(&zip, true, true).is_err());
}

#[test]
fn export_refuses_changed_destinations_and_cleans_temporary_output() {
    let missing = destination_snapshot(ArchiveDestination::Missing, b"").unwrap();
    let old = destination_snapshot(ArchiveDestination::File, b"old").unwrap();
    let new = destination_snapshot(ArchiveDestination::File, b"new").unwrap();
    assert!(destination_snapshot(ArchiveDestination::Other, b"").is_err());
    assert!(write_archive_atomic(&old, &old).is_ok());
    assert!(write_archive_atomic(&missing, &missing).is_ok());
    assert!(write_archive_atomic(&old, &new).is_err());
    assert!(write_archive_atomic(&missing, &new).is_err());
}

#[test]
fn directories_are_told_apart_by_their_digest() {
    let file = |name: &str, contents: &[u8]| DirectoryItem {
        name: name.to_string(),
        contents: Some(contents.to_vec()),
    };
    let directory = |name: &str| DirectoryItem {
        name: name.to_string(),
        contents: None,
    };
    let one = directory_digest(&vec![file("a", b"bc"), directory("d")]);
    assert_eq!(one, directory_digest(&vec![file("a", b"bc"), directory("d")]));
    assert_eq!(one.len(), 32);
    assert_ne!(one, directory_digest(&vec![file("ab", b"c"), directory("d")]));
    assert_ne!(one, directory_digest(&vec![file("a", b"bc"), file("d", b"")]));
    assert_eq!(
        directory_digest(&vec![file("x\\y", b"")]),
        directory_digest(&vec![file("x/y", b"")])
    );
}

#[test]
fn sources_are_ordinary_files_and_directories() {
    assert!(collect_entries(SourceKind::File, false).unwrap());
    assert!(collect_entries(SourceKind::Directory, false).unwrap());
    assert!(!collect_entries(SourceKind::Directory, true).unwrap());
    assert!(collect_entries(SourceKind::Symlink, false).is_err());
    assert!(collect_entries(SourceKind::Special, false).is_err());
    assert_eq!(
        archive_member("skills/a", "sub\\b.txt", false).unwrap(),
        "skills/a/sub/b.txt"
    );
    assert_eq!(
        archive_member("skills/a", "sub", true).unwrap(),
        "skills/a/sub/"
    );
    assert!(archive_member("skills/a", "con", false).is_err());
}

#[test]
fn archives_without_a_manifest_hold_enabled_skills() {
    assert_eq!(skill_fallback("my.zip.zip", true, &None), "my");
    assert_eq!(
        skill_fallback("my.zip", false, &Some("dir".to_string())),
        "dir"
    );
    assert_eq!(skill_fallback("my.zip", false, &None), "my");
    let found = manifest_from_extracted(&vec![FoundSkill {
        directory: "tool".to_string(),
        path: "a\\tool".to_string(),
    }]);
    assert_eq!(found.skills[0].directory, "tool");
    assert_eq!(found.skills[0].path, "a/tool");
    assert!(found.skills[0].enabled);
}

#[test]
fn notes_and_live_servers_are_added() {
    assert_eq!(note_to_save(&Some(" ".to_string()), 3).unwrap(), None);
    assert_eq!(
        note_to_save(&Some("备注三".to_string()), 3).unwrap().as_deref(),
        Some("备注三")
    );
    assert!(note_to_save(&Some("abcd".to_string()), 3).is_err());
    let mut live: DocumentMut = "# kept\nmodel = 'm'\n[mcp_servers.a]\ncommand = 'a'\n"
        .parse()
        .unwrap();
    enable_mcp(&mut live, "b", value("x")).unwrap();
    assert_eq!(live["mcp_servers"]["b"].as_str(), Some("x"));
    assert_eq!(live["mcp_servers"]["a"]["command"].as_str(), Some("a"));
    assert!(live.to_string().starts_with("# kept"));
    let mut wrong: DocumentMut = "mcp_servers = 1\n".parse().unwrap();
    assert!(enable_mcp(&mut wrong, "b", value("x")).is_err());
}

fn folder(name: &str, described: bool, folders: Vec<Folder>) -> Folder {
    Folder {
        name: name.to_string(),
        described,
        folders,
    }
}

#[test]
fn skills_are_found_below_directories_that_hold_none() {
    let inner = || folder("inner", true, Vec::new());
    let tree = folder(
        "",
        false,
        vec![
            folder("one", true, vec![inner()]),
            folder("group", false, vec![inner(), folder("empty", false, Vec::new())]),
        ],
    );
    let roots = find_skill_roots(&tree, &Vec::new());
    assert_eq!(roots, [vec!["one"], vec!["group", "inner"]]);
    let whole = folder("", true, vec![inner()]);
    assert_eq!(
        find_skill_roots(&whole, &Vec::new()),
        [Vec::<String>::new()]
    );
}

#[test]
fn failed_imports_remove_what_they_created() {
    let failed = || CodexxError::Config("x".to_string());
    let mut install = Install::new(2);
    let mut present: Vec<usize> = Vec::new();
    for outcome in [Ok(()), Ok(()), Ok(()), Err(failed()), Ok(()), Err(failed())] {
        match &install.stage {
            InstallStage::Create(at) => present.push(*at),
            InstallStage::Remove { at, .. } => present.retain(|other| other != at),
            _ => {}
        }
        install = install.advance(outcome);
    }
    assert!(matches!(install.stage, InstallStage::Failed(error) if error == failed()));
    assert!(present.is_empty());

    let mut install = Install::new(1);
    assert!(matches!(install.stage, InstallStage::Records));
    install = install.advance(Ok(()));
    assert!(matches!(install.stage, InstallStage::Create(0)));
    install = install.advance(Ok(()));
    assert!(matches!(install.stage, InstallStage::Commit));
    assert!(matches!(install.advance(Ok(())).stage, InstallStage::Done));
    let refused = Install::new(3).advance(Err(failed()));
    assert!(matches!(refused.stage, InstallStage::Failed(_)));
    let first = Install::new(3).advance(Ok(())).advance(Err(failed()));
    assert!(matches!(first.stage, InstallStage::Failed(_)));
    let empty = Install::new(0).advance(Ok(()));
    assert!(matches!(empty.stage, InstallStage::Commit));
}
