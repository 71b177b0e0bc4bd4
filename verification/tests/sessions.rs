use codexx::error::CodexxError;
use codexx::sessions::export::{
    check_destination, chosen_sessions, confirm_destination, destination_snapshot,
    export_codex_sessions_inner, find_session, message_key, rollout_path, safe_rollout_path,
    visit_records, write_markdown, DestinationFacts, DestinationKind, RecordLine, SessionHeader,
    SessionOutcome, SessionScan,
};
use codexx::sessions::records::{
    drain_line, injected_user_context, visible_message, ContentPart, JsonLine, Message, MessageRole,
    Payload, Record, MAX_RECORD_BYTES,
};

fn payload(kind: &str) -> Payload {
    Payload {
        kind: kind.to_string(),
        id: None,
        role: None,
        channel: None,
        phase: None,
        recipient: None,
        message: None,
        content: Vec::new(),
        images: false,
        local_images: false,
    }
}

fn record(kind: &str, payload: Payload) -> Record {
    Record {
        kind: kind.to_string(),
        timestamp: Some("2026-09-12T10:00:00Z".to_string()),
        payload,
    }
}

fn meta(id: &str) -> Record {
    record(
        "session_meta",
        Payload {
            id: Some(id.to_string()),
            ..payload("")
        },
    )
}

fn event(role: &str, body: &str) -> Record {
    record(
        "event_msg",
        Payload {
            message: Some(body.to_string()),
            ..payload(if role == "user" {
                "user_message"
            } else {
                "agent_message"
            })
        },
    )
}

fn part(kind: &str, text: Option<&str>) -> ContentPart {
    ContentPart {
        kind: kind.to_string(),
        text: text.map(str::to_string),
    }
}

fn response(role: &str, body: &str) -> Record {
    record(
        "response_item",
        Payload {
            role: Some(role.to_string()),
            content: vec![part(
                if role == "user" {
                    "input_text"
                } else {
                    "output_text"
                },
                Some(body),
            )],
            ..payload("message")
        },
    )
}

fn lines(records: Vec<Record>) -> Vec<RecordLine> {
    records
        .into_iter()
        .map(|record| RecordLine {
            record: Some(record),
            has_content: true,
        })
        .collect()
}

fn header(title: &str) -> SessionHeader {
    SessionHeader {
        id: "session".to_string(),
        title: title.to_string(),
        project: Some("project".to_string()),
        model: Some("sample-model".to_string()),
        updated_at_ms: Some(1789200000000),
    }
}

fn export(title: &str, records: Vec<Record>) -> Result<String, CodexxError> {
    let mut all = vec![meta("session")];
    all.extend(records);
    let scan = visit_records(&lines(all), "session")?;
    write_markdown(&header(title), scan)
}

#[test]
fn exports_markdown_titles_times_and_code_without_system_tools_or_reasoning() {
    let markdown = export(
        "我的项目",
        vec![
            response("system", "SYSTEM-PRIVATE"),
            response("developer", "DEVELOPER-PRIVATE"),
            response("user", "# AGENTS.md instructions\nPRIVATE INSTRUCTIONS"),
            response(
                "user",
                "<environment_context>PRIVATE ENV</environment_context>",
            ),
            event("user", "帮我写代码"),
            record("event_msg", payload("agent_reasoning")),
            record("response_item", payload("function_call")),
            event("assistant", "可以：\n```rust\nprintln!(\"hello\");\n```"),
        ],
    )
    .unwrap();
    assert!(markdown.starts_with("# 我的项目"));
    assert!(markdown.contains("项目 / Project：project"));
    assert!(markdown.contains("2026-09-12T10:00:00+00:00"));
    assert!(markdown.contains("```rust\nprintln!(\"hello\");\n```"));
    assert!(!markdown.contains("PRIVATE"));
    assert_eq!(
        markdown,
        "# 我的项目\n\n- 项目 / Project：project\n- 模型 / Model：sample-model\n- 最近活动 / Last activity：2026-09-12T08:00:00+00:00\n- 会话 / Session：session\n\n---\n\n## 用户 / User\n\n*2026-09-12T10:00:00+00:00*\n\n帮我写代码\n\n---\n\n## 助手 / Assistant\n\n*2026-09-12T10:00:00+00:00*\n\n可以：\n```rust\nprintln!(\"hello\");\n```\n\n"
    );
}

#[test]
fn deduplicates_both_representations_but_preserves_repeated_turns_and_fallbacks() {
    let text = export(
        "问答",
        vec![
            event("user", "继续"),
            response("user", "继续\n"),
            response("assistant", "第一次回答"),
            event("assistant", "第一次回答"),
            event("user", "继续"),
            response("user", "继续"),
            event("assistant", "第二次回答"),
            response("assistant", "第二次回答"),
            response("user", "只有旧格式的问题"),
            response("assistant", "只有旧格式的答案"),
        ],
    )
    .unwrap();
    assert_eq!(text.matches("继续").count(), 2);
    assert_eq!(text.matches("第一次回答").count(), 1);
    assert_eq!(text.matches("第二次回答").count(), 1);
    assert_eq!(text.matches("## 用户 / User").count(), 3);
    assert_eq!(text.matches("## 助手 / Assistant").count(), 3);
    assert!(text.contains("只有旧格式的答案"));
}

#[test]
fn images_are_placeholders_and_large_payload_does_not_hide_later_messages() {
    let text = export(
        "图片",
        vec![
            record(
                "response_item",
                Payload {
                    role: Some("user".to_string()),
                    content: vec![
                        part("input_text", Some("看看图片")),
                        part("input_image", None),
                    ],
                    ..payload("message")
                },
            ),
            record("response_item", payload("function_call_output")),
            response("assistant", "这是一张图片。"),
        ],
    )
    .unwrap();
    assert!(text.contains("看看图片\n\n[图片 / Image]"));
    assert!(text.contains("这是一张图片。"));
    assert!(text.len() < 2000);
    let attached = record(
        "event_msg",
        Payload {
            images: true,
            ..payload("user_message")
        },
    );
    assert_eq!(visible_message(&attached).unwrap().body, "[图片 / Image]");
    let audio = record(
        "response_item",
        Payload {
            role: Some("user".to_string()),
            content: vec![part("audio", None), part("other", Some("hidden"))],
            local_images: true,
            ..payload("message")
        },
    );
    assert_eq!(
        visible_message(&audio).unwrap().body,
        "[音频 / Audio]\n\n[图片 / Image]"
    );
}

#[test]
fn malformed_record_is_skipped_without_consuming_next_message() {
    let mut all = lines(vec![meta("session"), event("user", "第一条")]);
    all.push(RecordLine {
        record: None,
        has_content: true,
    });
    all.extend(lines(vec![event("assistant", "损坏之后的正常回复")]));
    let scan = visit_records(&all, "session").ok().unwrap();
    assert_eq!(scan.finish().unwrap(), 1);
    let text = write_markdown(&header("有损坏记录"), scan).unwrap();
    assert!(text.contains("损坏之后的正常回复"));
    assert!(text.ends_with("> 有 1 条不完整或过大的记录未能导出。\n"));
}

#[test]
fn blank_records_and_analysis_channel_do_not_show_as_incomplete_chat() {
    let mut analysis = response("assistant", "PRIVATE ANALYSIS");
    analysis.payload.channel = Some("analysis".to_string());
    assert!(visible_message(&analysis).is_none());
    let mut all = lines(vec![
        meta("session"),
        event("user", "正常问题"),
        analysis,
        event("assistant", "正常回答"),
    ]);
    all.push(RecordLine {
        record: None,
        has_content: false,
    });
    let scan = visit_records(&all, "session").ok().unwrap();
    assert_eq!(scan.finish().unwrap(), 0);
    let text = write_markdown(&header("正常记录"), scan).unwrap();
    assert!(!text.contains("PRIVATE"));
    for field in ["phase", "recipient", "blank"] {
        let mut hidden = event("user", "text");
        match field {
            "phase" => hidden.payload.phase = Some("analysis".to_string()),
            "recipient" => hidden.payload.recipient = Some("tool".to_string()),
            _ => hidden.payload.message = Some(" \n".to_string()),
        }
        assert!(visible_message(&hidden).is_none(), "{field}");
    }
    let mut open = event("user", "text");
    open.payload.recipient = Some("all".to_string());
    assert!(visible_message(&open).is_some());
}

#[test]
fn rejects_outside_paths_and_mismatched_metadata_without_overwriting_destination() {
    let other = visit_records(
        &lines(vec![meta("another"), event("user", "PRIVATE")]),
        "mismatch",
    );
    assert!(other.err().unwrap().text().contains("不一致"));
    let early = visit_records(
        &lines(vec![event("user", "PRIVATE"), meta("session")]),
        "session",
    );
    assert!(early.err().unwrap().text().contains("身份记录"));
    assert!(visit_records(&Vec::new(), "session").is_err());
    let empty = visit_records(&lines(vec![meta("session")]), "session")
        .ok()
        .unwrap();
    assert!(write_markdown(&header("x"), empty)
        .unwrap_err()
        .text()
        .contains("没有可导出"));
    assert!(safe_rollout_path(true, false, "/a/b.jsonl", true).is_ok());
    assert!(safe_rollout_path(true, true, "/a/b.jsonl", true).is_err());
    assert!(safe_rollout_path(false, false, "/a/b.jsonl", true).is_err());
    assert!(safe_rollout_path(true, false, "/a/b.json", true).is_err());
    assert!(safe_rollout_path(true, false, "/a/b.jsonl", false)
        .unwrap_err()
        .text()
        .contains("不属于所选会话"));
    assert!(rollout_path(&Some("  ".to_string())).is_err());
    assert_eq!(rollout_path(&Some("x".to_string())).unwrap(), "x");
}

#[test]
fn rejects_destination_inside_codex_storage_and_wrong_file_extensions() {
    let facts = |extension: &str| DestinationFacts {
        absolute: true,
        extension: Some(extension.to_string()),
        parent_exists: true,
        inside_codex: false,
        has_file_name: true,
    };
    assert!(check_destination(1, &facts("MD")).is_ok());
    assert!(check_destination(2, &facts("zip")).is_ok());
    assert!(check_destination(1, &facts("zip"))
        .unwrap_err()
        .text()
        .contains("请选择 .md 文件"));
    assert!(check_destination(
        1,
        &DestinationFacts {
            absolute: false,
            ..facts("md")
        }
    )
    .is_err());
    assert!(check_destination(
        1,
        &DestinationFacts {
            parent_exists: false,
            ..facts("md")
        }
    )
    .unwrap_err()
    .text()
    .contains("导出文件夹不存在"));
    assert!(check_destination(
        1,
        &DestinationFacts {
            inside_codex: true,
            ..facts("md")
        }
    )
    .unwrap_err()
    .text()
    .contains("数据目录之外"));
    assert!(check_destination(
        1,
        &DestinationFacts {
            has_file_name: false,
            ..facts("md")
        }
    )
    .is_err());
    assert!(chosen_sessions(&Vec::new()).is_err());
}

#[test]
fn changed_destinations_are_noticed() {
    let none = destination_snapshot(DestinationKind::Missing, b"").unwrap();
    let one = destination_snapshot(DestinationKind::File, b"one").unwrap();
    let two = destination_snapshot(DestinationKind::File, b"two").unwrap();
    assert!(none.is_none());
    assert_eq!(one.as_ref().unwrap().len(), 32);
    assert!(destination_snapshot(DestinationKind::Other, b"").is_err());
    assert!(confirm_destination(&none, &none).is_ok());
    assert!(confirm_destination(&one, &one).is_ok());
    assert!(confirm_destination(&one, &two).is_err());
    assert!(confirm_destination(&none, &one).is_err());
}

#[test]
fn exports_multiple_sessions_to_zip_with_safe_distinct_filenames() {
    let ids = chosen_sessions(&vec![
        "one".to_string(),
        "two".to_string(),
        " ".to_string(),
        "one".to_string(),
    ])
    .unwrap();
    assert_eq!(ids, ["one", "two"]);
    let written = || SessionOutcome::Written {
        title: "../同一个:标题".to_string(),
        malformed: 0,
    };
    let export =
        export_codex_sessions_inner(&ids, &vec![written(), written()], Vec::new()).unwrap();
    assert_eq!(export.exported_sessions, 2);
    let names = export.members.unwrap();
    assert_ne!(names[0], names[1]);
    assert!(names
        .iter()
        .all(|name| !name.contains('/') && name.ends_with(".md")));
}

#[test]
fn unreadable_or_missing_selection_is_reported_without_empty_zip_members() {
    let ids: Vec<String> = ["good", "bad", "missing"]
        .iter()
        .map(|id| id.to_string())
        .collect();
    let outcomes = vec![
        SessionOutcome::Written {
            title: "可读取".to_string(),
            malformed: 0,
        },
        SessionOutcome::Failed {
            title: "无法读取".to_string(),
            error: CodexxError::Config("x".to_string()),
        },
        SessionOutcome::Missing,
    ];
    let result = export_codex_sessions_inner(&ids, &outcomes, Vec::new()).unwrap();
    assert_eq!(result.exported_sessions, 1);
    assert_eq!(result.failed_sessions, 2);
    assert_eq!(result.warnings.len(), 2);
    assert_eq!(result.members.unwrap().len(), 1);
}

#[test]
fn exports_say_what_they_left_out() {
    let ids: Vec<String> = ["good", "bad", "missing-session"]
        .iter()
        .map(|id| id.to_string())
        .collect();
    let outcomes = vec![
        SessionOutcome::Written {
            title: "可读取".to_string(),
            malformed: 2,
        },
        SessionOutcome::Failed {
            title: "无法读取".to_string(),
            error: CodexxError::Config("x".to_string()),
        },
        SessionOutcome::Missing,
    ];
    let export = export_codex_sessions_inner(&ids, &outcomes, vec!["earlier".to_string()]).unwrap();
    assert_eq!(export.exported_sessions, 1);
    assert_eq!(export.failed_sessions, 2);
    assert_eq!(export.members.unwrap().len(), 1);
    assert_eq!(
        export.warnings,
        [
            "earlier",
            "「可读取」有 2 条不完整或过大的记录未能导出",
            "「无法读取」导出失败：配置错误: x",
            "会话 missing- 已不在当前会话列表中",
        ]
    );
    let nothing = export_codex_sessions_inner(
        &ids[..1].to_vec(),
        &vec![SessionOutcome::Missing],
        vec!["earlier".to_string()],
    )
    .unwrap_err();
    assert_eq!(
        nothing.text(),
        "配置错误: earlier；会话 good 已不在当前会话列表中"
    );
    let single = export_codex_sessions_inner(
        &ids[..1].to_vec(),
        &vec![SessionOutcome::Written {
            title: "t".to_string(),
            malformed: 0,
        }],
        Vec::new(),
    )
    .unwrap();
    assert!(single.members.is_none());
}

#[test]
fn the_last_listed_session_of_an_identifier_is_found() {
    let ids = vec!["a".to_string(), "b".to_string(), "a".to_string()];
    assert_eq!(find_session(&ids, "a"), Some(2));
    assert_eq!(find_session(&ids, "x"), None);
}

#[test]
fn keys_ignore_line_breaks_and_trailing_spaces() {
    let message = |body: &str, role: MessageRole| Message {
        role,
        body: body.to_string(),
        timestamp: None,
        event: true,
    };
    let key = |body: &str| message_key(&message(body, MessageRole::User));
    assert_eq!(key("a\nb"), key(" a \r\nb\n"));
    assert_ne!(key("a\nb"), key("a b"));
    assert_ne!(key("a"), message_key(&message("a", MessageRole::Assistant)));
    assert_eq!(key("a").len(), 32);
}

#[test]
fn context_for_the_model_is_recognised() {
    for text in [
        " # AGENTS.md instructions for x",
        "<environment_context>",
        "\n<permissions instructions>",
        "<app-context>",
        "<user_instructions>",
    ] {
        assert!(injected_user_context(text), "{text}");
        assert!(visible_message(&response("user", text)).is_none());
        assert!(visible_message(&response("assistant", text)).is_some());
        assert!(visible_message(&event("user", text)).is_some());
    }
    assert!(!injected_user_context("hello <app-context>"));
}

#[test]
fn reads_stop_at_the_end_of_a_line() {
    let bytes = b"{\"a\":1}\n{\"b\":2}\n";
    let mut line = JsonLine::new();
    assert_eq!(line.read(bytes, 3), Ok(3));
    assert!(!line.ended && line.has_content);
    assert_eq!(line.read(&bytes[3..], 100), Ok(5));
    assert!(line.ended);
    assert_eq!(line.read(&bytes[8..], 100), Ok(0));
    let mut blank = JsonLine::new();
    assert_eq!(blank.read(b" \t\r\n", 100), Ok(4));
    assert!(blank.ended && !blank.has_content);
    let mut last = JsonLine::new();
    assert_eq!(last.read(b"abc", 100), Ok(3));
    assert!(!last.ended);
    assert_eq!(last.read(b"", 100), Ok(0));
    assert!(last.ended);
    let mut full = JsonLine::new();
    full.consumed = MAX_RECORD_BYTES - 1;
    assert_eq!(full.read(b"abc", 100), Ok(1));
    assert_eq!(full.read(b"bc", 100), Err(()));
    assert_eq!(drain_line(b"rest\nnext"), (5, true));
    assert_eq!(drain_line(b"rest"), (4, false));
    assert_eq!(drain_line(b""), (0, true));
}

#[test]
fn a_scan_starts_without_identity() {
    let mut scan = SessionScan::new();
    assert!(scan.finish().is_err());
    let line = RecordLine {
        record: Some(meta("session")),
        has_content: true,
    };
    scan.step(&line, "session").unwrap();
    assert_eq!(scan.finish().unwrap(), 0);
}
