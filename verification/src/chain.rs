//! Which chain the program runs on, told from the addresses of its two
//! services, which must agree.

use crate::felt::{mainnet, mainnet_id, sepolia, sepolia_id};
use crate::scalar::Scalar;
use vstd::prelude::*;
use vstd::string::StrSliceExecFns;

verus! {

/// Whether `pattern` occurs in `text` as a run of adjacent characters.
pub open spec fn contains_text(text: Seq<char>, pattern: Seq<char>) -> bool {
    exists|at: int|
        0 <= at <= text.len() - pattern.len() && #[trigger] text.subrange(
            at,
            at + pattern.len(),
        ) == pattern
}

/// Why the two addresses name no chain.
#[derive(Clone, Copy, Debug, PartialEq, Eq)]
pub enum ChainError {
    /// The quote service is Sepolia's, the node is not.
    SepoliaMismatch,
    /// The quote service is the main network's, the node is not.
    MainnetMismatch,
    /// The quote service's address names neither chain.
    Unsupported,
}

impl ChainError {
    /// What went wrong, in words.
    pub fn message(&self) -> (r: &'static str)
        ensures
            self is SepoliaMismatch ==> r@
                == "Ekubo API and RPC provider urls should point to the same chain: Sepolia"@,
            self is MainnetMismatch ==> r@
                == "Ekubo API and RPC provider urls should point to the same chain: Mainnet"@,
            self is Unsupported ==> r@ == "unsupported chain - verify environment variables"@,
    {
        match self {
            ChainError::SepoliaMismatch => {
                "Ekubo API and RPC provider urls should point to the same chain: Sepolia"
            },
            ChainError::MainnetMismatch => {
                "Ekubo API and RPC provider urls should point to the same chain: Mainnet"
            },
            ChainError::Unsupported => "unsupported chain - verify environment variables",
        }
    }
}

/// The chain that the two addresses name: Sepolia where the quote service's
/// address holds `sepolia`, else the main network where it holds `mainnet`;
/// the node's address must hold the same word.
pub open spec fn chain_of(ekubo_url: Seq<char>, provider_url: Seq<char>) -> Result<
    nat,
    ChainError,
> {
    if contains_text(ekubo_url, "sepolia"@) {
        if contains_text(provider_url, "sepolia"@) {
            Ok(sepolia_id())
        } else {
            Err(ChainError::SepoliaMismatch)
        }
    } else if contains_text(ekubo_url, "mainnet"@) {
        if contains_text(provider_url, "mainnet"@) {
            Ok(mainnet_id())
        } else {
            Err(ChainError::MainnetMismatch)
        }
    } else {
        Err(ChainError::Unsupported)
    }
}

/// Whether `pattern` occurs in `text`.
pub fn contains(text: &str, pattern: &str) -> (r: bool)
    ensures
        r == contains_text(text@, pattern@),
{
    let length: usize = text.unicode_len();
    let width: usize = pattern.unicode_len();
    if width > length {
        return false;
    }
    let last: usize = length - width;
    let mut at: usize = 0;
    while at <= last
        invariant
            at <= last + 1,
            last == length - width,
            length == text@.len(),
            width == pattern@.len(),
            forall|earlier: int|
                0 <= earlier < at ==> #[trigger] text@.subrange(earlier, earlier + width)
                    != pattern@,
        decreases last + 1 - at,
    {
        let mut matched: usize = 0;
        while matched < width && text.get_char(at + matched) == pattern.get_char(matched)
            invariant
                matched <= width,
                at + width <= length,
                length == text@.len(),
                width == pattern@.len(),
                forall|k: int| 0 <= k < matched ==> text@[at + k] == pattern@[k],
            decreases width - matched,
        {
            matched = matched + 1;
        }
        if matched == width {
            assert(text@.subrange(at as int, at + width) =~= pattern@);
            return true;
        }
        assert(text@.subrange(at as int, at + width)[matched as int] != pattern@[matched as int]);
        at = at + 1;
    }
    false
}

/// The identifier of the chain that the quote service and the node are on.
pub fn get_chain_id(ekubo_url: &str, provider_url: &str) -> (r: Result<Scalar, ChainError>)
    ensures
        match r {
            Ok(id) => chain_of(ekubo_url@, provider_url@) == Ok::<nat, ChainError>(id@),
            Err(error) => chain_of(ekubo_url@, provider_url@) == Err::<nat, ChainError>(error),
        },
{
    if contains(ekubo_url, "sepolia") {
        if contains(provider_url, "sepolia") {
            Ok(sepolia())
        } else {
            Err(ChainError::SepoliaMismatch)
        }
    } else if contains(ekubo_url, "mainnet") {
        if contains(provider_url, "mainnet") {
            Ok(mainnet())
        } else {
            Err(ChainError::MainnetMismatch)
        }
    } else {
        Err(ChainError::Unsupported)
    }
}

} // verus!
