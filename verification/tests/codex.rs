use niles::usage::codex::{
    parse_codex_transcript, rollout_lines, CodexEventRead, CodexLine, CodexLineRead,
    CodexSessionMeta,
};
use niles::usage::snapshot::CodexTokenUsage;
use serde_json::Value;

fn field_u64(v: &Value, key: &str) -> Result<u64, String> {
    v.get(key)
        .and_then(Value::as_u64)
        .ok_or_else(|| format!("missing field `{key}`"))
}

fn read_event(payload: &Value) -> CodexEventRead {
    let Some(kind) = payload.get("type").and_then(Value::as_str) else {
        return CodexEventRead::Invalid("missing field `type`".to_owned());
    };
    match kind {
        "token_count" => {
            let totals = payload
                .get("info")
                .and_then(|info| info.get("total_token_usage"))
                .ok_or_else(|| "missing field `info`".to_owned());
            CodexEventRead::TokenCount(totals.and_then(|t| {
                Ok(CodexTokenUsage {
                    input_tokens: field_u64(t, "input_tokens")?,
                    cached_input_tokens: field_u64(t, "cached_input_tokens")?,
                    output_tokens: field_u64(t, "output_tokens")?,
                    reasoning_output_tokens: field_u64(t, "reasoning_output_tokens")?,
                    total_tokens: field_u64(t, "total_tokens")?,
                })
            }))
        }
        "user_message" => CodexEventRead::UserMessage,
        "agent_message" => CodexEventRead::AgentMessage,
        _ => CodexEventRead::Other,
    }
}

fn read_line(line_number: usize, text: &str) -> CodexLine {
    let read = match serde_json::from_str::<Value>(text) {
        Err(err) => CodexLineRead::Malformed(err.to_string()),
        Ok(value) => match (value.get("type").and_then(Value::as_str), value.get("payload")) {
            (Some("session_meta"), Some(payload)) => {
                let meta = (|| {
                    let session_id = payload
                        .get("session_id")
                        .and_then(Value::as_str)
                        .ok_or("missing field `session_id`")?;
                    let cwd = payload
                        .get("cwd")
                        .and_then(Value::as_str)
                        .ok_or("missing field `cwd`")?;
                    let timestamp = payload
                        .get("timestamp")
                        .and_then(Value::as_str)
                        .and_then(|t| chrono::DateTime::parse_from_rfc3339(t).ok())
                        .map(|t| niles::time::UtcTime {
                            secs: t.timestamp(),
                            nanos: t.timestamp_subsec_nanos(),
                        })
                        .ok_or("invalid `timestamp`")?;
                    Ok(CodexSessionMeta {
                        session_id: session_id.to_owned(),
                        cwd: cwd.to_owned(),
                        timestamp,
                    })
                })()
                .map_err(|e: &str| e.to_owned());
                CodexLineRead::SessionMeta(meta)
            }
            (Some("event_msg"), Some(payload)) => CodexLineRead::Event(read_event(payload)),
            (Some(_), Some(_)) => CodexLineRead::Other,
            _ => CodexLineRead::Invalid("missing field `type` or `payload`".to_owned()),
        },
    };
    CodexLine { line_number, read }
}

fn read_body(body: &str) -> Vec<CodexLine> {
    rollout_lines(body)
        .into_iter()
        .map(|(n, line)| read_line(n, &line))
        .collect()
}

#[test]
fn last_token_count_wins() {
    let body = r#"
{"type":"session_meta","payload":{"session_id":"s1","cwd":"/tmp/work","timestamp":"2026-07-06T01:00:00Z"}}
{"type":"event_msg","payload":{"type":"token_count","info":{"total_token_usage":{"input_tokens":10,"cached_input_tokens":2,"output_tokens":3,"reasoning_output_tokens":1,"total_tokens":13}}}}
{"type":"event_msg","payload":{"type":"token_count","info":{"total_token_usage":{"input_tokens":100,"cached_input_tokens":20,"output_tokens":30,"reasoning_output_tokens":10,"total_tokens":130}}}}
"#;

    let (summary, _) = parse_codex_transcript(&read_body(body));
    let usage = summary.unwrap().usage.unwrap();

    assert_eq!(usage.usage.input_tokens, 100);
    assert_eq!(usage.usage.cached_input_tokens, 20);
    assert_eq!(usage.usage.output_tokens, 30);
    assert_eq!(usage.usage.reasoning_output_tokens, 10);
    assert_eq!(usage.usage.total_tokens, 130);
    assert_eq!(usage.turns.usage_messages, 2);
}

#[test]
fn malformed_interior_line_fails() {
    let body = r#"
{"type":"event_msg","payload":{"type":"token_count","info":{"total_token_usage":{"input_tokens":10,"cached_input_tokens":2,"output_tokens":3,"reasoning_output_tokens":1,"total_tokens":13}}}}
{"type":"event_msg"
{"type":"event_msg","payload":{"type":"token_count","info":{"total_token_usage":{"input_tokens":100,"cached_input_tokens":20,"output_tokens":30,"reasoning_output_tokens":10,"total_tokens":130}}}}
"#;

    let (summary, _) = parse_codex_transcript(&read_body(body));
    let err = summary.unwrap_err();
    assert!(err.starts_with("malformed Codex rollout line 3: "), "{err}");
}

#[test]
fn truncated_trailing_line_is_tolerated() {
    let body = r#"
{"type":"event_msg","payload":{"type":"token_count","info":{"total_token_usage":{"input_tokens":10,"cached_input_tokens":2,"output_tokens":3,"reasoning_output_tokens":1,"total_tokens":13}}}}
{"type":"event_msg"
"#;

    let (summary, warning) = parse_codex_transcript(&read_body(body));

    assert_eq!(summary.unwrap().usage.unwrap().usage.total_tokens, 13);
    assert!(warning
        .unwrap()
        .starts_with("warning: ignored incomplete trailing Codex rollout line 3: "));
}

#[test]
fn blank_lines_are_skipped_but_counted() {
    let lines = rollout_lines("\n  \na\n\nb");
    assert_eq!(lines, vec![(3, "a".to_owned()), (5, "b".to_owned())]);
}

#[test]
fn turns_count_user_and_agent_messages_and_a_bad_payload_fails() {
    let body = r#"{"type":"event_msg","payload":{"type":"user_message"}}
{"type":"event_msg","payload":{"type":"agent_message"}}
{"type":"event_msg","payload":{"type":"token_count","info":{"total_token_usage":{"input_tokens":1,"cached_input_tokens":0,"output_tokens":1,"reasoning_output_tokens":0,"total_tokens":2}}}}
"#;
    let (summary, warning) = parse_codex_transcript(&read_body(body));
    let usage = summary.unwrap().usage.unwrap();
    assert_eq!(usage.turns.transcript_user_messages, 1);
    assert_eq!(usage.turns.transcript_assistant_messages, 1);
    assert_eq!(warning, None);

    let bad = r#"{"type":"event_msg","payload":{"type":"token_count"}}
{"type":"event_msg","payload":{"type":"user_message"}}
"#;
    let (summary, _) = parse_codex_transcript(&read_body(bad));
    assert_eq!(
        summary.unwrap_err(),
        "invalid Codex token_count payload at line 1: missing field `info`"
    );
}
