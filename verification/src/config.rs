//! The process configuration, built from the values that the environment
//! gave.

use crate::error::IndexerError;
use vstd::prelude::*;
use vstd::string::StringExecFns;

verus! {

/// The batch size used where none is configured.
pub const DEFAULT_MAX_BLOCKS_PER_BATCH: u64 = 100;

/// The configuration of the process.
#[derive(Clone, Debug, PartialEq, Eq)]
pub struct Config {
    pub eth_rpc_url: String,
    pub eth_ws_url: String,
    pub solana_rpc_http_url: String,
    pub solana_rpc_ws_url: String,
    pub db_url: String,
    pub max_blocks_per_batch: u64,
}

/// Whether the character is a decimal digit.
pub open spec fn spec_is_digit(c: char) -> bool {
    48 <= c as u32 <= 57
}

/// The value of a decimal digit; zero for any other character.
pub open spec fn spec_digit_value(c: char) -> nat {
    if spec_is_digit(c) {
        (c as u32 - 48) as nat
    } else {
        0
    }
}

/// The number that a string of decimal digits spells.
pub open spec fn spec_digits_value(s: Seq<char>) -> nat
    decreases s.len(),
{
    if s.len() == 0 {
        0
    } else {
        spec_digits_value(s.drop_last()) * 10 + spec_digit_value(s.last())
    }
}

/// Whether every character is a decimal digit.
pub open spec fn spec_all_digits(s: Seq<char>) -> bool {
    forall|i: int| 0 <= i < s.len() ==> spec_is_digit(#[trigger] s[i])
}

/// The number that a text spells: an optional plus sign, then one or more
/// decimal digits, nothing else, and a value that fits in 64 bits.
pub open spec fn spec_parse_u64(s: Seq<char>) -> Option<u64> {
    let digits = if s.len() > 0 && s[0] == '+' {
        s.subrange(1, s.len() as int)
    } else {
        s
    };
    if digits.len() > 0 && spec_all_digits(digits) && spec_digits_value(digits) <= u64::MAX {
        Some(spec_digits_value(digits) as u64)
    } else {
        None
    }
}

/// A prefix of a string of digits spells no more than the whole.
pub proof fn lemma_digits_prefix(s: Seq<char>, k: int)
    requires
        0 <= k <= s.len(),
    ensures
        spec_digits_value(s.take(k)) <= spec_digits_value(s),
    decreases s.len(),
{
    if k == s.len() {
        assert(s.take(k) =~= s);
    } else {
        lemma_digits_prefix(s.drop_last(), k);
        assert(s.drop_last().take(k) =~= s.take(k));
    }
}

/// Reads a decimal number.
pub fn parse_u64(text: &str) -> (r: Option<u64>)
    ensures
        r == spec_parse_u64(text@),
{
    let n: usize = text.unicode_len();
    let start: usize = if n > 0 && text.get_char(0) == '+' {
        1
    } else {
        0
    };
    if start == n {
        return None;
    }
    let ghost digits = if text@.len() > 0 && text@[0] == '+' {
        text@.subrange(1, text@.len() as int)
    } else {
        text@
    };
    let mut acc: u64 = 0;
    let mut i: usize = start;
    assert(digits =~= text@.subrange(start as int, n as int));
    assert(digits.take(0) =~= Seq::<char>::empty());
    while i < n
        invariant
            start <= i <= n,
            start < n,
            n == text@.len(),
            digits == text@.subrange(start as int, n as int),
            digits == (if text@.len() > 0 && text@[0] == '+' {
                text@.subrange(1, text@.len() as int)
            } else {
                text@
            }),
            forall|j: int| 0 <= j < i - start ==> spec_is_digit(#[trigger] digits[j]),
            acc == spec_digits_value(digits.take(i - start)),
        decreases n - i,
    {
        let c = text.get_char(i);
        let code: u32 = c as u32;
        assert(digits[i - start] == c);
        if code < 48 || code > 57 {
            return None;
        }
        proof {
            let part = digits.take(i - start + 1);
            assert(part.drop_last() =~= digits.take(i - start));
            assert(part.last() == c);
            lemma_digits_prefix(digits, i - start + 1);
        }
        let digit: u64 = (code - 48) as u64;
        match acc.checked_mul(10) {
            None => {
                return None;
            },
            Some(scaled) => match scaled.checked_add(digit) {
                None => {
                    return None;
                },
                Some(sum) => {
                    acc = sum;
                },
            },
        }
        i = i + 1;
    }
    assert(digits.take(n - start) =~= digits);
    Some(acc)
}

/// What [`Config::from_values`] returns for the given values.
pub open spec fn spec_config(
    eth_rpc_url: Option<String>,
    eth_ws_url: Option<String>,
    solana_rpc_http_url: Option<String>,
    solana_rpc_ws_url: Option<String>,
    db_url: Option<String>,
    max_blocks_per_batch: Option<String>,
) -> Result<(Seq<char>, Seq<char>, Seq<char>, Seq<char>, Seq<char>, u64), Seq<char>> {
    if eth_rpc_url is None {
        Err("ETH_RPC_URL is not set"@)
    } else if eth_ws_url is None {
        Err("ETH_WS_URL is not set"@)
    } else if solana_rpc_http_url is None {
        Err("SOLANA_RPC_HTTP_URL is not set"@)
    } else if solana_rpc_ws_url is None {
        Err("SOLANA_RPC_WS_URL is not set"@)
    } else if db_url is None {
        Err("DATABASE_URL is not set"@)
    } else {
        let batch = match max_blocks_per_batch {
            None => Some(DEFAULT_MAX_BLOCKS_PER_BATCH),
            Some(text) => spec_parse_u64(text@),
        };
        match batch {
            None => Err("MAX_BLOCKS_PER_BATCH is not a number"@),
            Some(n) => Ok(
                (
                    eth_rpc_url->0@,
                    eth_ws_url->0@,
                    solana_rpc_http_url->0@,
                    solana_rpc_ws_url->0@,
                    db_url->0@,
                    n,
                ),
            ),
        }
    }
}

impl Config {
    /// The fields of the configuration.
    pub open spec fn fields(&self) -> (Seq<char>, Seq<char>, Seq<char>, Seq<char>, Seq<char>, u64) {
        (
            self.eth_rpc_url@,
            self.eth_ws_url@,
            self.solana_rpc_http_url@,
            self.solana_rpc_ws_url@,
            self.db_url@,
            self.max_blocks_per_batch,
        )
    }

    /// Builds the configuration from the values of the variables
    /// `ETH_RPC_URL`, `ETH_WS_URL`, `SOLANA_RPC_HTTP_URL`,
    /// `SOLANA_RPC_WS_URL`, `DATABASE_URL` and `MAX_BLOCKS_PER_BATCH`, each
    /// `None` where the variable is not set. All but the last are
    /// required; the last defaults to [`DEFAULT_MAX_BLOCKS_PER_BATCH`] and
    /// must be a decimal number where it is set. The first fault in that
    /// order is the one reported.
    pub fn from_values(
        eth_rpc_url: Option<String>,
        eth_ws_url: Option<String>,
        solana_rpc_http_url: Option<String>,
        solana_rpc_ws_url: Option<String>,
        db_url: Option<String>,
        max_blocks_per_batch: Option<String>,
    ) -> (r: Result<Config, IndexerError>)
        ensures
            match spec_config(
                eth_rpc_url,
                eth_ws_url,
                solana_rpc_http_url,
                solana_rpc_ws_url,
                db_url,
                max_blocks_per_batch,
            ) {
                Ok(fields) => r matches Ok(c) && c.fields() == fields,
                Err(text) => r matches Err(IndexerError::ConfigError(m)) && m@ == text,
            },
    {
        let eth_rpc = match eth_rpc_url {
            Some(v) => v,
            None => {
                return Err(IndexerError::ConfigError(String::from_str("ETH_RPC_URL is not set")));
            },
        };
        let eth_ws = match eth_ws_url {
            Some(v) => v,
            None => {
                return Err(IndexerError::ConfigError(String::from_str("ETH_WS_URL is not set")));
            },
        };
        let solana_http = match solana_rpc_http_url {
            Some(v) => v,
            None => {
                return Err(
                    IndexerError::ConfigError(String::from_str("SOLANA_RPC_HTTP_URL is not set")),
                );
            },
        };
        let solana_ws = match solana_rpc_ws_url {
            Some(v) => v,
            None => {
                return Err(
                    IndexerError::ConfigError(String::from_str("SOLANA_RPC_WS_URL is not set")),
                );
            },
        };
        let db = match db_url {
            Some(v) => v,
            None => {
                return Err(IndexerError::ConfigError(String::from_str("DATABASE_URL is not set")));
            },
        };
        let batch = match max_blocks_per_batch {
            None => Some(DEFAULT_MAX_BLOCKS_PER_BATCH),
            Some(text) => parse_u64(text.as_str()),
        };
        match batch {
            None => Err(
                IndexerError::ConfigError(String::from_str("MAX_BLOCKS_PER_BATCH is not a number")),
            ),
            Some(n) => Ok(
                Config {
                    eth_rpc_url: eth_rpc,
                    eth_ws_url: eth_ws,
                    solana_rpc_http_url: solana_http,
                    solana_rpc_ws_url: solana_ws,
                    db_url: db,
                    max_blocks_per_batch: n,
                },
            ),
        }
    }
}

} // verus!
