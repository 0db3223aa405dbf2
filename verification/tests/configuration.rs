use dex_indexer::config::{parse_u64, Config, DEFAULT_MAX_BLOCKS_PER_BATCH};
use dex_indexer::decoder::DecodeError;
use dex_indexer::error::{IndexerError, Severity, SolanaError};
use dex_indexer::supervisor::{may_stop, supervise, FailurePolicy, Verdict};
use dex_indexer::watcher::Phase;

fn some(text: &str) -> Option<String> {
    Some(text.to_string())
}

#[test]
fn parse_u64_reads_decimal_numbers() {
    assert_eq!(parse_u64("100"), Some(100));
    assert_eq!(parse_u64("0"), Some(0));
    assert_eq!(parse_u64("007"), Some(7));
    assert_eq!(parse_u64("+7"), Some(7));
    assert_eq!(parse_u64("18446744073709551615"), Some(u64::MAX));
}

#[test]
fn parse_u64_refuses_what_is_no_number() {
    assert_eq!(parse_u64(""), None);
    assert_eq!(parse_u64("+"), None);
    assert_eq!(parse_u64("-1"), None);
    assert_eq!(parse_u64("12a"), None);
    assert_eq!(parse_u64(" 1"), None);
    assert_eq!(parse_u64("1 "), None);
    assert_eq!(parse_u64("1_000"), None);
    assert_eq!(parse_u64("++1"), None);
    assert_eq!(parse_u64("\u{0663}"), None);
}

#[test]
fn parse_u64_refuses_overflow() {
    assert_eq!(parse_u64("18446744073709551616"), None);
    assert_eq!(parse_u64("99999999999999999999999999"), None);
    assert_eq!(parse_u64("184467440737095516150"), None);
}

#[test]
fn parse_u64_agrees_with_std() {
    for text in ["1", "42", "+42", "", "x", "000", "18446744073709551615", "18446744073709551616"] {
        assert_eq!(parse_u64(text), text.parse::<u64>().ok());
    }
}

#[test]
fn config_from_all_values() {
    let c = Config::from_values(
        some("http://eth"),
        some("ws://eth"),
        some("http://sol"),
        some("ws://sol"),
        some("postgres://db"),
        some("250"),
    )
    .unwrap();
    assert_eq!(
        c,
        Config {
            eth_rpc_url: "http://eth".to_string(),
            eth_ws_url: "ws://eth".to_string(),
            solana_rpc_http_url: "http://sol".to_string(),
            solana_rpc_ws_url: "ws://sol".to_string(),
            db_url: "postgres://db".to_string(),
            max_blocks_per_batch: 250,
        }
    );
}

#[test]
fn config_batch_size_defaults_to_100() {
    let c = Config::from_values(some("a"), some("b"), some("c"), some("d"), some("e"), None).unwrap();
    assert_eq!(c.max_blocks_per_batch, 100);
    assert_eq!(DEFAULT_MAX_BLOCKS_PER_BATCH, 100);
}

#[test]
fn config_reports_the_first_missing_variable() {
    let e = Config::from_values(None, None, some("c"), some("d"), some("e"), None).unwrap_err();
    assert_eq!(e, IndexerError::ConfigError("ETH_RPC_URL is not set".to_string()));
    let e = Config::from_values(some("a"), None, None, some("d"), some("e"), None).unwrap_err();
    assert_eq!(e, IndexerError::ConfigError("ETH_WS_URL is not set".to_string()));
    let e = Config::from_values(some("a"), some("b"), None, None, some("e"), None).unwrap_err();
    assert_eq!(e, IndexerError::ConfigError("SOLANA_RPC_HTTP_URL is not set".to_string()));
    let e = Config::from_values(some("a"), some("b"), some("c"), None, None, None).unwrap_err();
    assert_eq!(e, IndexerError::ConfigError("SOLANA_RPC_WS_URL is not set".to_string()));
    let e = Config::from_values(some("a"), some("b"), some("c"), some("d"), None, some("x")).unwrap_err();
    assert_eq!(e, IndexerError::ConfigError("DATABASE_URL is not set".to_string()));
}

#[test]
fn config_refuses_a_batch_size_that_is_no_number() {
    let e = Config::from_values(some("a"), some("b"), some("c"), some("d"), some("e"), some("ten"))
        .unwrap_err();
    assert_eq!(e, IndexerError::ConfigError("MAX_BLOCKS_PER_BATCH is not a number".to_string()));
    assert_eq!(e.severity(), Severity::FatalAtStartup);
}

#[test]
fn indexer_error_messages() {
    assert_eq!(IndexerError::BlockchainError("timeout".to_string()).message(), "Blockchain error: timeout");
    assert_eq!(IndexerError::DatabaseError("down".to_string()).message(), "Database error: down");
    assert_eq!(IndexerError::ConfigError("bad".to_string()).message(), "Configuration error: bad");
    assert_eq!(IndexerError::SolanaRpcError("429".to_string()).message(), "Solana RPC error: 429");
    assert_eq!(IndexerError::WsError("closed".to_string()).message(), "WebSocket error: closed");
    assert_eq!(IndexerError::DecodeError(DecodeError::DataLength).message(), "Malformed swap record");
    assert_eq!(
        IndexerError::ReorgBeyondBound.message(),
        "Reorganization deeper than the recovery bound"
    );
}

#[test]
fn indexer_error_severities() {
    assert_eq!(IndexerError::BlockchainError(String::new()).severity(), Severity::Transient);
    assert_eq!(IndexerError::SolanaRpcError(String::new()).severity(), Severity::Transient);
    assert_eq!(IndexerError::WsError(String::new()).severity(), Severity::Transient);
    assert_eq!(IndexerError::DecodeError(DecodeError::TopicCount).severity(), Severity::PerItem);
    assert_eq!(IndexerError::DatabaseError(String::new()).severity(), Severity::AbortsBatch);
    assert_eq!(IndexerError::ReorgBeyondBound.severity(), Severity::FatalForChain);
    assert_eq!(IndexerError::ConfigError(String::new()).severity(), Severity::FatalAtStartup);
}

#[test]
fn solana_error_messages() {
    assert_eq!(SolanaError::RpcError("x".to_string()).message(), "RPC error: x");
    assert_eq!(SolanaError::WsError("y".to_string()).message(), "WebSocket error: y");
    assert_eq!(SolanaError::TransactionParseError.message(), "Transaction parsing error");
    assert_eq!(SolanaError::InvalidDexData.message(), "Invalid DEX data format");
}

#[test]
fn solana_error_from_decode_error() {
    assert_eq!(SolanaError::from_decode(DecodeError::AccountCount), SolanaError::TransactionParseError);
    assert_eq!(SolanaError::from_decode(DecodeError::InstructionLength), SolanaError::InvalidDexData);
    assert_eq!(SolanaError::from_decode(DecodeError::DataLength), SolanaError::InvalidDexData);
}

#[test]
fn supervisor_acts_only_on_failed_watchers() {
    let policy = FailurePolicy::Restart { cooldown_ms: 30_000 };
    assert_eq!(supervise(policy, Phase::Polling), Verdict::Continue);
    assert_eq!(supervise(policy, Phase::Persisting), Verdict::Continue);
    assert_eq!(supervise(policy, Phase::Failed), Verdict::RestartAfter { millis: 30_000 });
    assert_eq!(supervise(FailurePolicy::HaltChain, Phase::Failed), Verdict::HaltChain);
    assert_eq!(supervise(FailurePolicy::HaltChain, Phase::Initializing), Verdict::Continue);
}

#[test]
fn watcher_may_be_stopped_only_between_batches() {
    assert!(may_stop(Phase::Initializing));
    assert!(may_stop(Phase::Seeding));
    assert!(may_stop(Phase::Polling));
    assert!(may_stop(Phase::Fetching { first: 1, last: 2 }));
    assert!(may_stop(Phase::ReorgRecovery { probe: 1, remaining: 2 }));
    assert!(may_stop(Phase::Failed));
    assert!(!may_stop(Phase::Persisting));
    assert!(!may_stop(Phase::Checkpointing));
    assert!(!may_stop(Phase::RollingBack));
}
