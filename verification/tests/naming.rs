use codexx::sessions::export::{filename, markdown_label};
use codexx::sessions::global_state::normalize_workspace_path;
use codexx::transfers::{archive_file, conversation_file, export_name, require_extension};

#[test]
fn suggested_names_fit_filesystems_without_losing_utf8_or_using_windows_devices() {
    for title in ["中".repeat(100), "🌏".repeat(100)] {
        let name = export_name(&title, "session", "md");
        assert!(name.len() <= 184);
        assert!(name.ends_with(".md"));
        assert!(!name.contains('\u{fffd}'));
    }
    for title in ["CON", "nul", "PRN.notes", "LPT1", "COM9"] {
        assert!(export_name(title, "session", "md").starts_with('_'));
    }
    assert_eq!(export_name(" . /\\ ", "session", "zip"), "session.zip");
}

#[test]
fn multiline_title_cannot_inject_markdown_metadata() {
    assert_eq!(
        markdown_label("名称\n<script>*x*</script>"),
        "名称 &lt;script&gt;\\*x\\*&lt;/script&gt;"
    );
}

#[test]
fn exported_names_fit_common_filesystem_limits_with_emoji_titles() {
    let name = filename(&"😀".repeat(100), 0);
    assert!(name.len() < 240);
    assert!(name.ends_with(".md"));
}

#[test]
fn default_names_keep_what_is_usable() {
    assert_eq!(export_name(" a/b:c?.md ", "session", "md"), "abc.md.md");
    assert_eq!(export_name("COM", "session", "md"), "COM.md");
    assert_eq!(export_name("COM10", "session", "md"), "COM10.md");
    assert_eq!(export_name("com0.txt", "session", "md"), "_com0.txt.md");
    assert_eq!(export_name("", "CON", "md"), "_CON.md");
    assert_eq!(export_name(&"a".repeat(200), "x", "md").len(), 183);
}

#[test]
fn archive_members_are_numbered_and_distinct() {
    assert_eq!(filename("../同一个:标题", 0), "001-_同一个_标题.md");
    assert_eq!(filename("../同一个:标题", 1), "002-_同一个_标题.md");
    assert_eq!(filename(" .. ", 8), "009-会话.md");
    assert_eq!(filename("x", 99), "100-x.md");
    assert_eq!(filename("x", 1233), "1234-x.md");
}

#[test]
fn labels_escape_what_markdown_reads() {
    assert_eq!(markdown_label("a\\b_`[c]`"), "a\\\\b\\_\\`\\[c\\]\\`");
    assert_eq!(markdown_label("a\tb\u{7f}"), "a b ");
}

#[test]
fn extensions_are_asked_for_without_regard_to_case() {
    assert!(require_extension(&Some("ZIP".to_string()), "zip").is_ok());
    assert_eq!(
        require_extension(&Some("txt".to_string()), "zip")
            .unwrap_err()
            .text(),
        "配置错误: 请使用 .zip 文件名保存。"
    );
    assert!(require_extension(&None, "zip").is_err());
}

#[test]
fn saves_start_from_a_default_name() {
    assert!(conversation_file(0, "x").is_err());
    assert_eq!(
        conversation_file(1, "标题").unwrap(),
        ("标题.md".to_string(), "md")
    );
    assert_eq!(
        conversation_file(2, "").unwrap(),
        ("Codex-sessions.zip".to_string(), "zip")
    );
    assert_eq!(
        archive_file("mcp", "20260912").unwrap(),
        ("Astra-MCP-20260912.zip".to_string(), "MCP")
    );
    assert_eq!(archive_file("skills", "20260912").unwrap().1, "Skills");
    assert!(archive_file("other", "20260912").is_err());
}

#[test]
fn workspace_paths_lose_their_extended_prefix() {
    assert_eq!(
        normalize_workspace_path(" \\\\?\\C:\\work\\x ").as_deref(),
        Some("C:/work/x")
    );
    assert_eq!(
        normalize_workspace_path("\\\\?\\UNC\\server/share").as_deref(),
        Some("\\\\server\\share")
    );
    assert_eq!(normalize_workspace_path("/home/x").as_deref(), Some("/home/x"));
    assert!(normalize_workspace_path("  ").is_none());
}
