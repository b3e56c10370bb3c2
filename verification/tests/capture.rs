use niles::time::UtcTime;
use niles::usage::codex::{CodexResolveResult, CodexResolvedTranscript};
use niles::usage::snapshot::{
    codex_parsed_step, codex_resolved_step, ledger_parsed_step, ledger_transcript_step,
    CodexTokenUsage, CodexUsageSummary, LedgerTokenUsage, LedgerUsageSummary,
    TranscriptTurnCounts, UsageSnapshotUsage, UsageTurnCounts, UsageUnavailableReason,
};

const TURNS: TranscriptTurnCounts = TranscriptTurnCounts {
    transcript_user_messages: 3,
    transcript_assistant_messages: 4,
    usage_messages: 5,
};

fn only_prompts(n: Option<u64>) -> UsageTurnCounts {
    UsageTurnCounts {
        niles_prompt_count: n,
        transcript_user_messages: None,
        transcript_assistant_messages: None,
        usage_messages: None,
    }
}

#[test]
fn a_parsed_ledger_keeps_every_column_in_place() {
    let out = ledger_parsed_step(
        "ledger",
        "Ledger",
        &"sess".to_owned(),
        &"/w".to_owned(),
        UtcTime::from_secs(100),
        Some(2),
        "/home/t.jsonl",
        Ok(Some(LedgerUsageSummary {
            usage: LedgerTokenUsage {
                input_tokens: 10,
                cache_creation_input_tokens: 20,
                cache_read_input_tokens: 30,
                output_tokens: 40,
            },
            turns: TURNS,
        })),
        false,
    );
    assert_eq!(
        out.usage,
        UsageSnapshotUsage::Available {
            family: "ledger".to_owned(),
            input_tokens: 10,
            cached_input_tokens: None,
            cache_creation_input_tokens: Some(20),
            cache_read_input_tokens: Some(30),
            output_tokens: 40,
            reasoning_output_tokens: None,
            total_tokens: 100,
        }
    );
    assert_eq!(out.turns.usage_messages, Some(5));
}

#[test]
fn a_parsed_rollout_keeps_every_column_in_place() {
    let found = CodexResolvedTranscript {
        path: "/c/rollout-1.jsonl".to_owned(),
        session_id: "s1".to_owned(),
    };
    let out = codex_parsed_step(
        &"/w".to_owned(),
        UtcTime::from_secs(100),
        None,
        &found,
        Ok(Some(CodexUsageSummary {
            usage: CodexTokenUsage {
                input_tokens: 1,
                cached_input_tokens: 2,
                output_tokens: 3,
                reasoning_output_tokens: 4,
                total_tokens: 9,
            },
            turns: TURNS,
        })),
        false,
    );
    assert_eq!(
        out.usage,
        UsageSnapshotUsage::Available {
            family: "codex".to_owned(),
            input_tokens: 1,
            cached_input_tokens: Some(2),
            cache_creation_input_tokens: None,
            cache_read_input_tokens: None,
            output_tokens: 3,
            reasoning_output_tokens: Some(4),
            total_tokens: 9,
        }
    );
}

#[test]
fn unavailable_captures_count_only_the_niles_prompts() {
    let missing = ledger_transcript_step(
        "ledger",
        "Ledger",
        &"sess".to_owned(),
        &"/w".to_owned(),
        UtcTime::from_secs(100),
        Some(7),
        "/home/t.jsonl",
        false,
        false,
    )
    .unwrap();
    assert_eq!(missing.turns, only_prompts(Some(7)));
    assert_eq!(
        missing.usage,
        UsageSnapshotUsage::Unavailable {
            reason: UsageUnavailableReason::Missing,
            detail: "Ledger transcript not found at /home/t.jsonl".to_owned(),
        }
    );
    let Err(ambiguous) = codex_resolved_step(
        &"/w".to_owned(),
        UtcTime::from_secs(100),
        Some(1),
        Ok(CodexResolveResult::Ambiguous("two rollouts".to_owned())),
        false,
    ) else {
        panic!("an ambiguous rollout ends the capture");
    };
    assert_eq!(ambiguous.turns, only_prompts(Some(1)));
}
