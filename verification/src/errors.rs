use vstd::prelude::*;

verus! {

/// Error kinds surfaced by the relay core.
///
/// Every failure carries a distinguishable kind, never just free text, so
/// callers and tests can branch on it. Infrastructure errors reported by the
/// storage or channel collaborators are wrapped verbatim in `Std`,
/// `ChannelError` or `ForeignError` by the embedder; the verified core never
/// produces them itself.
#[derive(Debug, PartialEq, Eq)]
pub enum ContractError {
    /// An error of the storage collaborator, surfaced verbatim.
    Std(String),
    /// A bot registration carried an empty moniker.
    MonikerEmpty,
    /// The caller fails the policy check of the attempted operation.
    Unauthorized,
    /// The peer contract address is already configured and may not change.
    ContractAlreadySet,
    /// A bot registration carried a moniker over the length limit.
    MonikerTooLong,
    /// A randomness request carried a job id over the configured maximum.
    JobIdTooLong,
    /// The caller is not a registered bot and may not submit rounds.
    UnauthorizedAddVerifiedRound,
    /// The configured beacon public key is malformed.
    InvalidPubkey,
    /// The submitted round lies below the configured floor.
    RoundTooLow { round: u64, min_round: u64 },
    /// The beacon signature did not verify against the public key.
    InvalidSignature,
    /// An error of the delivery channel collaborator, surfaced verbatim.
    ChannelError(String),
    /// A delivery channel is already registered and may not be replaced.
    ChannelAlreadyRegistered,
    /// An error reported by a foreign component, surfaced verbatim.
    ForeignError { err: String },
    /// The same bot already submitted this round.
    SubmissionExists,
}

} // verus!
