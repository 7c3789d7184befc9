use visigrid::ai_settings::{
    clean_text, AIProviderOption, AITestStatus, AiSettings, ConfigVerdict,
};
use visigrid::ask_ai::{
    format_ai_error, formula_body, new_request_id, validate_ai_formula, AiConfig, AiConfigStatus,
    AskAIStatus, AskAITruncation, AskError, ContextInfo, FormulaAnswer,
};
use visigrid::diff_report::{
    build_entry_explanation_prompt, chat_answer, chat_reply, chat_request, truncate_value,
    ChatPurpose, DiffCell, DiffEntry, DiffReport,
};
use visigrid::fitting::CellSpan;
use visigrid::state::{DocumentMeta, Mode, Spreadsheet};

fn text(s: &str) -> String {
    s.to_string()
}

fn window() -> Spreadsheet {
    let meta = DocumentMeta {
        display_name: text("Book1"),
        is_saved: false,
        is_read_only: false,
        source: None,
        path: None,
    };
    Spreadsheet::new(meta, 1, 1000, 100)
}

fn says(s: &Spreadsheet) -> &str {
    s.status_message.as_deref().unwrap_or("")
}

fn config() -> AiConfig {
    AiConfig {
        status: AiConfigStatus::Ready,
        provider: text("openai"),
        model: text("gpt"),
        privacy_mode: true,
        api_key: Some(text("k")),
        blocking_reason: None,
        can_analyze: true,
    }
}

fn context(rows: usize, cols: usize) -> ContextInfo {
    ContextInfo {
        actual_range: text("A1:B2"),
        top_left: text("x"),
        row_count: rows,
        col_count: cols,
        has_headers: true,
        warnings: vec![],
    }
}

fn report() -> DiffReport {
    DiffReport {
        since_entry_label: text("Import"),
        entries_spanned: 2,
        value_changes: vec![DiffEntry {
            address: text("A1"),
            old_value: text(""),
            new_value: text("5"),
            ai_touched: true,
        }],
        formula_changes: vec![],
        structural_changes: vec![text("Inserted row 3")],
        named_range_changes: vec![],
        validation_changes: vec![],
        format_change_count: 0,
    }
}

#[test]
fn pasted_keys_are_cleaned() {
    assert_eq!(clean_text("a\tb\nc", false), "abc");
    assert_eq!(clean_text("a\tb\nc", true), "ab\nc");
}

#[test]
fn settings_need_a_provider_and_a_key() {
    let mut s = window();
    s.show_ai_settings(AiSettings::new());
    assert_eq!(s.mode, Mode::AiSettings);
    assert!(s.ai_settings_set_key().is_none());
    s.ai.settings.provider = AIProviderOption::OpenAI;
    assert!(s.ai_settings_set_key().is_none());
    assert_eq!(s.ai.settings.error, Some(text("API key cannot be empty")));
    s.ai.settings.key_input = text("sk");
    let k = s.ai_settings_set_key().unwrap();
    assert_eq!((k.provider.as_str(), k.key.as_str()), ("openai", "sk"));
    s.ai_key_stored("sk", Ok(()), "OpenAI");
    assert_eq!(says(&s), "OpenAI API key saved to keychain");
    s.ai_key_removed(Ok(()), "OpenAI");
    assert_eq!(says(&s), "OpenAI API key removed");
    s.ai_config_validated(ConfigVerdict::Invalid(text("bad key")));
    assert!(matches!(s.ai.settings.test_status, AITestStatus::Error(_)));
}

#[test]
fn one_question_waits_for_its_answer() {
    let mut s = window();
    assert!(s.show_ask_ai(&config()));
    assert!(s.ask_ai_submit_as("1", &config(), &context(2, 2)).is_none());
    assert_eq!(s.ask_ai.error, Some(text("Please enter a question")));
    for c in "sum?".chars() {
        s.ask_ai_type_char(c);
    }
    let r = s.ask_ai_submit_as("id1", &config(), &context(2, 2)).unwrap();
    assert_eq!((r.id.as_str(), r.question.as_str()), ("id1", "sum?"));
    assert!(s.ask_ai_submit_as("id2", &config(), &context(2, 2)).is_none());
    assert_eq!(s.ask_ai.status, AskAIStatus::Loading);
    let answer = || FormulaAnswer {
        raw_response: None,
        explanation: text("adds"),
        formula: Some(text("=SUM(A1:A2)")),
        warnings: vec![],
    };
    s.ask_ai_formula_answered("other", Ok(answer()), &None);
    assert_eq!(s.ask_ai.status, AskAIStatus::Loading);
    s.ask_ai_formula_answered("id1", Ok(answer()), &None);
    assert_eq!(s.ask_ai.status, AskAIStatus::Success);
    let w = s.ask_ai_insert_formula(true).unwrap();
    assert_eq!(w.value, "=SUM(A1:A2)");
    assert_eq!(says(&s), "Formula inserted at A1");
}

#[test]
fn what_was_left_out_is_said() {
    let mut s = window();
    s.show_ask_ai(&config());
    s.ask_ai.question = text("q");
    s.ask_ai.selected_range = Some(CellSpan { min_row: 0, min_col: 0, max_row: 9, max_col: 1 });
    s.ask_ai_submit_as("i", &config(), &context(5, 2)).unwrap();
    let c = s.ask_ai.sent_context.as_ref().unwrap();
    assert_eq!(c.truncation, AskAITruncation::Rows);
    assert_eq!(c.total_cells, 10);
}

#[test]
fn request_ids_are_hexadecimal() {
    let id = new_request_id();
    assert!(!id.is_empty() && id.chars().all(|c| c.is_ascii_hexdigit()));
    let mut s = window();
    s.show_ask_ai(&config());
    s.ask_ai.question = text("q");
    let r = s.ask_ai_submit(&config(), &context(1, 1)).unwrap();
    assert_eq!(s.ask_ai.request_id, Some(r.id));
}

#[test]
fn an_assistant_that_is_not_ready_says_why() {
    let mut s = window();
    let off = AiConfig { status: AiConfigStatus::Disabled, ..config() };
    assert!(!s.show_ask_ai(&off));
    assert_eq!(says(&s), "AI is disabled. Enable in Preferences → AI.");
}

#[test]
fn errors_are_put_plainly() {
    assert_eq!(
        format_ai_error(&AskError::ApiError { status: 401, message: text("x") }),
        "Authentication failed. Check your API key."
    );
    assert_eq!(
        format_ai_error(&AskError::ApiError { status: 429, message: text("x") }),
        "Rate limited. Please wait and retry."
    );
    assert_eq!(
        format_ai_error(&AskError::NetworkError(text("operation timed out"))),
        "Request timed out. Please retry."
    );
    assert_eq!(format_ai_error(&AskError::MissingKey), "API key missing. Check AI Settings.");
}

#[test]
fn formulas_are_checked() {
    assert_eq!(formula_body("=A1"), Some(text("A1")));
    assert_eq!(formula_body("A1"), None);
    assert!(validate_ai_formula("=A1", &None).is_ok());
    assert_eq!(validate_ai_formula("A1", &None), Err(text("Formula must start with '='")));
    assert_eq!(
        validate_ai_formula("=A1+", &Some(text("unexpected end"))),
        Err(text("Parse error: unexpected end"))
    );
}

#[test]
fn differences_are_written_out() {
    let mut s = window();
    s.show_explain_diff(Some(report()));
    assert_eq!(s.mode, Mode::ExplainDiff);
    let t = s.copy_diff_report().unwrap();
    assert!(t.contains("A1 : (empty) → 5 [AI]") || t.contains("(empty) → 5"));
    assert!(t.contains("Inserted row 3"));
    let prompt = s.generate_diff_summary(&config()).unwrap();
    assert!(prompt.contains("Value changes:\n"));
    assert!(s.diff.summary_loading);
    s.diff_summary_answered(Ok(text("short")));
    assert_eq!(s.copy_diff_summary(), Some(text("short")));
    s.close_explain_diff();
    assert_eq!(s.mode, Mode::Navigation);
}

#[test]
fn long_values_are_cut() {
    assert_eq!(truncate_value("abcdef", 3), "abc...");
    assert_eq!(truncate_value("abc", 3), "abc");
    assert_eq!(truncate_value("", 3), "(empty)");
    let p = build_entry_explanation_prompt("A1", "1", "2", false, &None);
    assert!(p.contains("Source: Manual edit\n"));
}

#[test]
fn an_explanation_is_asked_for_once() {
    let mut s = window();
    s.show_explain_diff(Some(report()));
    let cell = DiffCell { sheet: 0, row: 0, col: 0 };
    let names = vec![text("Data")];
    assert!(s.explain_diff_entry(cell, "", "5", true, &None, true, &names).is_some());
    s.diff_entry_explained(cell, Ok(text("it grew")));
    assert!(s.explain_diff_entry(cell, "", "5", true, &None, true, &names).is_none());
}

#[test]
fn replies_are_read() {
    let body = r#"{"choices":[{"message":{"content":"  hello \n"}}]}"#;
    assert_eq!(chat_reply(200, true, body, "bad"), Ok(text("hello")));
    let second = r#"{"choices":[{"text":"a"},{"message":{"content":"b"}}],"content":"c"}"#;
    for other in ["{}", "[]", r#"{"choices":[{"message":"x"}]}"#, second] {
        assert_eq!(chat_reply(200, true, other, "bad"), Err(text("Invalid response format")));
    }
    assert_eq!(chat_reply(200, true, "nonsense", "bad"), Err(text("Parse error: bad")));
    assert_eq!(chat_reply(500, false, "oops", "bad"), Err(text("API error (500): oops")));
    assert_eq!(chat_answer(Some(None), "bad"), Err(text("Invalid response format")));
    assert_eq!(chat_answer(None, "bad"), Err(text("Parse error: bad")));
    let r = chat_request(ChatPurpose::Summary, &config(), &Some(text("https://x")), "p").unwrap();
    assert_eq!((r.url.as_str(), r.api_key.as_str(), r.prompt.as_str()), ("https://x", "k", "p"));
    let none = AiConfig { api_key: None, ..config() };
    assert!(chat_request(ChatPurpose::Summary, &none, &Some(text("u")), "p").is_err());
}
