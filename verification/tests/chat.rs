use zoro_desktop::ai_settings::{AiSettings, PdfTranslationSettings, TaskModelDefaults, TranslationPrompts};
use zoro_desktop::chat::{tool_call_from_json, tool_definitions, 
    build_chat_messages, chat_get_config, chat_update_config, confirmation_outcome, decode_tool_call,
    is_tool_choice_error, is_write_tool, max_rounds_reason, needs_confirmation, tool_failure, with_paper_context,
    write_tool_success, ApiMessage, ChatHistoryMessage, ChatLoop, ChatSettings, Confirmation, ContentPart,
    ImageInput, MessageContent, PresetInput, SystemPromptPreset, ToolAction, ToolArgs, UpdateChatConfigInput,
    MAX_TOOL_LOOPS,
};

fn s(x: &str) -> String {
    x.to_string()
}

fn msg(role: &str, content: &str) -> ChatHistoryMessage {
    ChatHistoryMessage { role: s(role), content: s(content) }
}

fn text_of(m: &ApiMessage) -> (String, String) {
    match &m.content {
        MessageContent::Text(t) => (m.role.clone(), t.clone()),
        MessageContent::Parts(_) => panic!("expected a text message"),
    }
}

fn args(rows: &[(&str, &str)], limit: Option<i64>) -> ToolArgs {
    ToolArgs { strings: rows.iter().map(|(k, v)| (s(k), s(v))).collect(), limit }
}

fn ai() -> AiSettings {
    AiSettings {
        provider: s(""),
        base_url: s("https://x/v1"),
        api_key: s(""),
        model: s("m"),
        auto_translate: false,
        html_concurrency: 1,
        glossary_enabled: false,
        glossary_threshold: 1,
        translation_prompts: TranslationPrompts {
            title_system: s(""),
            title_user: s(""),
            abstract_system: s(""),
            abstract_user: s(""),
            html_system: s(""),
            html_user: s(""),
        },
        pdf_translation: PdfTranslationSettings {
            enabled: false,
            babeldoc_command: s(""),
            use_ai_config: true,
            custom_api_key: s(""),
            custom_base_url: s(""),
            custom_model: s(""),
            qps: 1,
            extra_args: s(""),
        },
        providers: vec![],
        task_model_defaults: TaskModelDefaults {
            quick_translation: s(""),
            normal_translation: s(""),
            heavy_translation: s(""),
            glossary_extraction: s(""),
        },
    }
}

#[test]
fn write_tools_are_the_four_library_changes() {
    for t in ["add_note", "add_tag_to_paper", "add_paper_to_collection", "update_paper_status"] {
        assert!(is_write_tool(t));
    }
    for t in ["search_papers", "get_paper", "list_tags", "Add_note"] {
        assert!(!is_write_tool(t));
    }
}

#[test]
fn confirmation_only_for_writes_when_asked() {
    assert!(needs_confirmation(true, "add_note"));
    assert!(!needs_confirmation(false, "add_note"));
    assert!(!needs_confirmation(true, "search_papers"));
}

#[test]
fn consecutive_assistant_messages_are_merged() {
    let history = vec![msg("user", "q1"), msg("assistant", "a1"), msg("assistant", "a2"), msg("user", "q2")];
    let r = build_chat_messages(s("sys"), &history, s("now"), &vec![]);
    let got: Vec<(String, String)> = r.iter().map(text_of).collect();
    assert_eq!(
        got,
        vec![
            (s("system"), s("sys")),
            (s("user"), s("q1")),
            (s("assistant"), s("a1\n\na2")),
            (s("user"), s("q2")),
            (s("user"), s("now")),
        ]
    );
}

#[test]
fn unknown_roles_are_sent_as_user_and_trailing_assistant_kept() {
    let history = vec![msg("tool", "t"), msg("assistant", "a")];
    let r = build_chat_messages(s("sys"), &history, s("now"), &vec![]);
    let got: Vec<(String, String)> = r.iter().map(text_of).collect();
    assert_eq!(
        got,
        vec![(s("system"), s("sys")), (s("user"), s("t")), (s("assistant"), s("a")), (s("user"), s("now"))]
    );
}

#[test]
fn images_become_data_url_parts() {
    let images = vec![ImageInput { base64_data: s("QUJD"), mime_type: s("image/png") }];
    let r = build_chat_messages(s("sys"), &vec![], s("look"), &images);
    assert_eq!(r.len(), 2);
    assert_eq!(r[1].role, "user");
    match &r[1].content {
        MessageContent::Parts(parts) => {
            assert_eq!(parts.len(), 2);
            assert!(matches!(&parts[0], ContentPart::Text(t) if t == "look"));
            assert!(matches!(&parts[1], ContentPart::ImageUrl(u) if u == "data:image/png;base64,QUJD"));
        }
        MessageContent::Text(_) => panic!("expected parts"),
    }
}

#[test]
fn paper_context_is_appended_after_a_blank_line() {
    assert_eq!(with_paper_context(s("You help."), Some(s("Title: X"))), "You help.\n\nTitle: X");
    assert_eq!(with_paper_context(s("You help."), None), "You help.");
}

#[test]
fn decodes_search_with_default_limit() {
    match decode_tool_call("search_papers", &args(&[("query", "graphs")], None)) {
        Ok(ToolAction::SearchPapers { query, limit }) => {
            assert_eq!(query, "graphs");
            assert_eq!(limit, 10);
        }
        _ => panic!("expected a search"),
    }
}

#[test]
fn decodes_list_papers_filters() {
    match decode_tool_call("list_papers", &args(&[("tag_name", "ml")], Some(5))) {
        Ok(ToolAction::ListPapers { in_collection, with_tag, with_status, limit }) => {
            assert_eq!(in_collection, None);
            assert_eq!(with_tag, Some(s("ml")));
            assert_eq!(with_status, None);
            assert_eq!(limit, 5);
        }
        _ => panic!("expected list_papers"),
    }
    match decode_tool_call("list_papers", &args(&[], None)) {
        Ok(ToolAction::ListPapers { limit, .. }) => assert_eq!(limit, 20),
        _ => panic!("expected list_papers"),
    }
}

#[test]
fn missing_arguments_are_reported_in_order() {
    assert!(matches!(decode_tool_call("get_paper", &args(&[], None)),
        Err(e) if e == "Missing required parameter: paper_id"));
    assert!(matches!(decode_tool_call("add_note", &args(&[], None)),
        Err(e) if e == "Missing required parameter: paper_id"));
    assert!(matches!(decode_tool_call("add_note", &args(&[("paper_id", "p")], None)),
        Err(e) if e == "Missing required parameter: content"));
    assert!(matches!(decode_tool_call("search_papers", &args(&[], None)),
        Err(e) if e == "Missing required parameter: query"));
}

#[test]
fn unknown_tool_is_an_error() {
    assert!(matches!(decode_tool_call("delete_everything", &args(&[], None)),
        Err(e) if e == "Unknown tool: delete_everything"));
}

#[test]
fn write_tool_actions_decode() {
    match decode_tool_call("update_paper_status", &args(&[("paper_id", "p1"), ("read_status", "read")], None)) {
        Ok(ToolAction::UpdatePaperStatus { paper_id, read_status }) => {
            assert_eq!(paper_id, "p1");
            assert_eq!(read_status, "read");
        }
        _ => panic!("expected a status update"),
    }
    assert!(matches!(decode_tool_call("list_collections", &args(&[], None)), Ok(ToolAction::ListCollections)));
    assert!(matches!(decode_tool_call("list_tags", &args(&[], None)), Ok(ToolAction::ListTags)));
}

#[test]
fn failure_and_success_texts() {
    let a = ToolAction::AddTagToPaper { paper_id: s("p"), tag_name: s("ml") };
    assert_eq!(tool_failure(&a, "boom"), "Add tag failed: boom");
    assert_eq!(write_tool_success(&a, ""), Some(s("Tag 'ml' added to paper")));
    let n = ToolAction::AddNote { paper_id: s("p"), content: s("c") };
    assert_eq!(write_tool_success(&n, "n-1"), Some(s("Note added successfully (ID: n-1)")));
    let u = ToolAction::UpdatePaperStatus { paper_id: s("p"), read_status: s("unread") };
    assert_eq!(write_tool_success(&u, ""), Some(s("Paper status updated to 'unread'")));
    let g = ToolAction::GetPaper { paper_id: s("p") };
    assert_eq!(tool_failure(&g, "x"), "Paper not found: x");
    assert_eq!(write_tool_success(&g, ""), None);
}

#[test]
fn confirmation_answers() {
    assert!(matches!(confirmation_outcome(Some(true)), Confirmation::Run));
    assert!(matches!(confirmation_outcome(Some(false)),
        Confirmation::Skip(t, false) if t == "Tool call was rejected by the user."));
    assert!(matches!(confirmation_outcome(None),
        Confirmation::Skip(t, true) if t == "Tool confirmation cancelled."));
}

#[test]
fn tool_choice_errors_are_recognised() {
    assert!(is_tool_choice_error(Some("model does not support tool choice")));
    assert!(is_tool_choice_error(Some("invalid tool_choice value")));
    assert!(!is_tool_choice_error(Some("rate limited")));
    assert!(!is_tool_choice_error(None));
}

#[test]
fn chat_loop_stops_after_the_last_round() {
    let mut l = ChatLoop::new();
    let mut started = 0;
    while l.begin_round() {
        started += 1;
    }
    assert_eq!(started, MAX_TOOL_LOOPS);
    assert_eq!(max_rounds_reason(), "max_tool_loops");
}

#[test]
fn tools_are_dropped_once_on_refusal() {
    let mut l = ChatLoop::new();
    assert!(!l.retry_without_tools(false));
    assert!(l.tools_enabled);
    assert!(l.retry_without_tools(true));
    assert!(!l.tools_enabled);
    assert!(!l.retry_without_tools(true));
}

#[test]
fn chat_config_roundtrip() {
    let mut chat = ChatSettings {
        active_preset: s("default"),
        confirm_tool_calls: true,
        presets: vec![SystemPromptPreset { name: s("default"), prompt: s("p") }],
    };
    chat_update_config(
        &mut chat,
        UpdateChatConfigInput {
            active_preset: Some(s("brief")),
            confirm_tool_calls: None,
            presets: Some(vec![PresetInput { name: s("brief"), prompt: s("Be brief.") }]),
        },
    );
    let r = chat_get_config(&chat, &ai());
    assert_eq!(r.active_preset, "brief");
    assert!(r.confirm_tool_calls);
    assert!(!r.ai_configured);
    assert_eq!(r.default_model, "m");
    assert_eq!(r.presets.len(), 1);
    assert_eq!(r.presets[0].prompt, "Be brief.");
    assert_eq!(r.providers.len(), 1);
    assert_eq!(r.providers[0].name, "Default");
}

#[test]
fn chat_tools_offered() {
    let tools = tool_definitions();
    let names: Vec<&str> = tools.iter().map(|t| t.name).collect();
    assert_eq!(
        names,
        vec![
            "search_papers", "get_paper", "list_papers", "list_collections", "list_tags", "list_notes",
            "list_annotations", "add_note", "add_tag_to_paper", "add_paper_to_collection", "update_paper_status"
        ]
    );
    for (i, t) in tools.iter().enumerate() {
        assert_eq!(is_write_tool(t.name), i >= 7);
    }
    let status = &tools[10].params[1];
    assert_eq!(status.name, "read_status");
    assert!(status.required);
    assert_eq!(status.choices, vec!["unread", "reading", "read", "skipped"]);
    assert!(!tools[0].params[1].required);
    assert!(tools[3].params.is_empty());
}

#[test]
fn tool_calls_from_model_json() {
    match tool_call_from_json("search_papers", r#"{"query": "diffusion", "limit": 3}"#) {
        Ok(ToolAction::SearchPapers { query, limit }) => {
            assert_eq!(query, "diffusion");
            assert_eq!(limit, 3);
        }
        _ => panic!("expected a search"),
    }
    match tool_call_from_json("add_note", r#"{"paper_id": "p1", "content": "nice"}"#) {
        Ok(ToolAction::AddNote { paper_id, content }) => {
            assert_eq!(paper_id, "p1");
            assert_eq!(content, "nice");
        }
        _ => panic!("expected a note"),
    }
    match tool_call_from_json("get_paper", "{}") {
        Err(e) => assert_eq!(e, "Missing required parameter: paper_id"),
        _ => panic!("expected an error"),
    }
    match tool_call_from_json("get_paper", "{not json") {
        Err(e) => assert!(e.starts_with("Invalid arguments: ")),
        _ => panic!("expected an error"),
    }
    match tool_call_from_json("delete_everything", "{}") {
        Err(e) => assert_eq!(e, "Unknown tool: delete_everything"),
        _ => panic!("expected an error"),
    }
}
