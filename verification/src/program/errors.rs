//! What the bridge program refuses, and the words it refuses it with.

use vstd::prelude::*;

verus! {

/// Every refusal of the bridge program.
#[derive(Debug, Clone, Copy, PartialEq, Eq, Structural)]
pub enum BridgeError {
    EmptyValidatorSet,
    TooManyValidators,
    DuplicateValidator,
    InvalidValidatorKey,
    ZeroThreshold,
    ThresholdExceedsValidatorCount,
    UnauthorizedInitializer,
    UnauthorizedAdmin,
    PauseStateUnchanged,
    AdminUnchanged,
    NoPendingAdmin,
    PendingAdminMismatch,
    ArithmeticOverflow,
    MintAlreadyConfigured,
    MintNotConfigured,
    WrongWrappedMint,
    BridgePaused,
    StaleValidatorEpoch,
    ZeroDepositAmount,
    BelowMinimumDeposit,
    MissingSignatureVerification,
    MalformedSignatureVerification,
    SignatureMessageMismatch,
    UnknownValidatorSignature,
    DuplicateValidatorSignature,
    InsufficientSignatures,
    ZeroWithdrawalAmount,
    BelowMinimumWithdrawal,
    InvalidGlcAddressLength,
    ZeroGovernanceTimelock,
    WrongGovernanceAction,
    GovernanceTimelockNotElapsed,
    StaleGovernanceProposal,
    WithdrawalAlreadyCompleted,
    WithdrawalNotPending,
    PayoutRecordAlreadySet,
    ZeroPayoutTxid,
    ZeroPayoutHeight,
    ZeroWrappedSupplyCap,
    WrappedSupplyCapExceeded,
    WrappedSupplyCapUnchanged,
    WrappedSupplyCapNotLowered,
    WrappedSupplyCapNotRaised,
    UriTooLong,
    InvalidMetadataAccount,
    NameTooLong,
    SymbolTooLong,
    MetadataNotFound,
}

impl BridgeError {
    /// The message that comes with the refusal.
    pub open spec fn text(self) -> Seq<char> {
        match self {
            BridgeError::EmptyValidatorSet => "Validator set must contain at least one validator"@,
            BridgeError::TooManyValidators => "Validator set exceeds MAX_VALIDATORS"@,
            BridgeError::DuplicateValidator => "Validator set contains a duplicate key"@,
            BridgeError::InvalidValidatorKey =>
                "Validator key is the all-zero (default) pubkey, which cannot sign"@,
            BridgeError::ZeroThreshold => "Signature threshold must be at least one"@,
            BridgeError::ThresholdExceedsValidatorCount =>
                "Signature threshold exceeds the number of validators"@,
            BridgeError::UnauthorizedInitializer => "Signer is not the program upgrade authority"@,
            BridgeError::UnauthorizedAdmin => "Signer is not the bridge admin"@,
            BridgeError::PauseStateUnchanged =>
                "Pause state is already set to the requested value"@,
            BridgeError::AdminUnchanged => "New admin is the same as the current admin"@,
            BridgeError::NoPendingAdmin => "No admin transfer is pending"@,
            BridgeError::PendingAdminMismatch => "Signer is not the pending admin"@,
            BridgeError::ArithmeticOverflow => "Arithmetic overflow"@,
            BridgeError::MintAlreadyConfigured => "Wrapped mint has already been created"@,
            BridgeError::MintNotConfigured => "Wrapped mint has not been created yet"@,
            BridgeError::WrongWrappedMint =>
                "Mint account does not match the configured wrapped mint"@,
            BridgeError::BridgePaused => "Bridge is paused"@,
            BridgeError::StaleValidatorEpoch =>
                "Claim epoch does not match the current validator-set epoch"@,
            BridgeError::ZeroDepositAmount => "Deposit amount must be greater than zero"@,
            BridgeError::BelowMinimumDeposit => "Deposit amount is below the configured minimum"@,
            BridgeError::MissingSignatureVerification =>
                "Expected an ed25519 signature-verification instruction immediately before this one"@,
            BridgeError::MalformedSignatureVerification =>
                "Ed25519 verification instruction data is malformed or references other instructions"@,
            BridgeError::SignatureMessageMismatch =>
                "A signature covers bytes other than the expected claim message"@,
            BridgeError::UnknownValidatorSignature =>
                "A signature was produced by a key that is not a current validator"@,
            BridgeError::DuplicateValidatorSignature => "The same validator signed more than once"@,
            BridgeError::InsufficientSignatures =>
                "Fewer unique validator signatures than the required threshold"@,
            BridgeError::ZeroWithdrawalAmount => "Withdrawal amount must be greater than zero"@,
            BridgeError::BelowMinimumWithdrawal =>
                "Withdrawal amount is below the configured minimum"@,
            BridgeError::InvalidGlcAddressLength =>
                "Goldcoin destination address length is invalid"@,
            BridgeError::ZeroGovernanceTimelock =>
                "Governance timelock must be greater than zero seconds"@,
            BridgeError::WrongGovernanceAction =>
                "Pending governance action is not of the expected type"@,
            BridgeError::GovernanceTimelockNotElapsed =>
                "Governance action is still inside its timelock window"@,
            BridgeError::StaleGovernanceProposal =>
                "Pending governance action was approved under a different validator-set epoch"@,
            BridgeError::WithdrawalAlreadyCompleted =>
                "Withdrawal is already completed; completion is terminal and irreversible"@,
            BridgeError::WithdrawalNotPending =>
                "Withdrawal is not in the Pending state and cannot be completed"@,
            BridgeError::PayoutRecordAlreadySet =>
                "Withdrawal's reserved payout region is not empty; refusing to overwrite it"@,
            BridgeError::ZeroPayoutTxid => "Payout txid must not be all zeroes"@,
            BridgeError::ZeroPayoutHeight => "Payout block height must be greater than zero"@,
            BridgeError::ZeroWrappedSupplyCap => "Wrapped-supply cap must be greater than zero"@,
            BridgeError::WrappedSupplyCapExceeded =>
                "Mint would take wrapped supply above the configured cap"@,
            BridgeError::WrappedSupplyCapUnchanged => "A cap change must actually change the cap"@,
            BridgeError::WrappedSupplyCapNotLowered =>
                "The admin may only LOWER the wrapped-supply cap; raising it requires threshold-approved, timelocked governance"@,
            BridgeError::WrappedSupplyCapNotRaised =>
                "A governance TVL raise must propose a cap above the current one"@,
            BridgeError::UriTooLong => "token metadata URI exceeds the maximum length"@,
            BridgeError::InvalidMetadataAccount =>
                "the metadata account is not the PDA Metaplex derives for this mint"@,
            BridgeError::NameTooLong => "token metadata name must be 1..=32 bytes"@,
            BridgeError::SymbolTooLong => "token metadata symbol must be 1..=10 bytes"@,
            BridgeError::MetadataNotFound =>
                "no token metadata exists for this mint yet — create it first"@,
        }
    }

    /// The message that comes with the refusal.
    pub fn message(&self) -> (m: &'static str)
        ensures
            m@ == self.text(),
    {
        match self {
            BridgeError::EmptyValidatorSet => "Validator set must contain at least one validator",
            BridgeError::TooManyValidators => "Validator set exceeds MAX_VALIDATORS",
            BridgeError::DuplicateValidator => "Validator set contains a duplicate key",
            BridgeError::InvalidValidatorKey =>
                "Validator key is the all-zero (default) pubkey, which cannot sign",
            BridgeError::ZeroThreshold => "Signature threshold must be at least one",
            BridgeError::ThresholdExceedsValidatorCount =>
                "Signature threshold exceeds the number of validators",
            BridgeError::UnauthorizedInitializer => "Signer is not the program upgrade authority",
            BridgeError::UnauthorizedAdmin => "Signer is not the bridge admin",
            BridgeError::PauseStateUnchanged => "Pause state is already set to the requested value",
            BridgeError::AdminUnchanged => "New admin is the same as the current admin",
            BridgeError::NoPendingAdmin => "No admin transfer is pending",
            BridgeError::PendingAdminMismatch => "Signer is not the pending admin",
            BridgeError::ArithmeticOverflow => "Arithmetic overflow",
            BridgeError::MintAlreadyConfigured => "Wrapped mint has already been created",
            BridgeError::MintNotConfigured => "Wrapped mint has not been created yet",
            BridgeError::WrongWrappedMint =>
                "Mint account does not match the configured wrapped mint",
            BridgeError::BridgePaused => "Bridge is paused",
            BridgeError::StaleValidatorEpoch =>
                "Claim epoch does not match the current validator-set epoch",
            BridgeError::ZeroDepositAmount => "Deposit amount must be greater than zero",
            BridgeError::BelowMinimumDeposit => "Deposit amount is below the configured minimum",
            BridgeError::MissingSignatureVerification =>
                "Expected an ed25519 signature-verification instruction immediately before this one",
            BridgeError::MalformedSignatureVerification =>
                "Ed25519 verification instruction data is malformed or references other instructions",
            BridgeError::SignatureMessageMismatch =>
                "A signature covers bytes other than the expected claim message",
            BridgeError::UnknownValidatorSignature =>
                "A signature was produced by a key that is not a current validator",
            BridgeError::DuplicateValidatorSignature => "The same validator signed more than once",
            BridgeError::InsufficientSignatures =>
                "Fewer unique validator signatures than the required threshold",
            BridgeError::ZeroWithdrawalAmount => "Withdrawal amount must be greater than zero",
            BridgeError::BelowMinimumWithdrawal =>
                "Withdrawal amount is below the configured minimum",
            BridgeError::InvalidGlcAddressLength =>
                "Goldcoin destination address length is invalid",
            BridgeError::ZeroGovernanceTimelock =>
                "Governance timelock must be greater than zero seconds",
            BridgeError::WrongGovernanceAction =>
                "Pending governance action is not of the expected type",
            BridgeError::GovernanceTimelockNotElapsed =>
                "Governance action is still inside its timelock window",
            BridgeError::StaleGovernanceProposal =>
                "Pending governance action was approved under a different validator-set epoch",
            BridgeError::WithdrawalAlreadyCompleted =>
                "Withdrawal is already completed; completion is terminal and irreversible",
            BridgeError::WithdrawalNotPending =>
                "Withdrawal is not in the Pending state and cannot be completed",
            BridgeError::PayoutRecordAlreadySet =>
                "Withdrawal's reserved payout region is not empty; refusing to overwrite it",
            BridgeError::ZeroPayoutTxid => "Payout txid must not be all zeroes",
            BridgeError::ZeroPayoutHeight => "Payout block height must be greater than zero",
            BridgeError::ZeroWrappedSupplyCap => "Wrapped-supply cap must be greater than zero",
            BridgeError::WrappedSupplyCapExceeded =>
                "Mint would take wrapped supply above the configured cap",
            BridgeError::WrappedSupplyCapUnchanged => "A cap change must actually change the cap",
            BridgeError::WrappedSupplyCapNotLowered =>
                "The admin may only LOWER the wrapped-supply cap; raising it requires threshold-approved, timelocked governance",
            BridgeError::WrappedSupplyCapNotRaised =>
                "A governance TVL raise must propose a cap above the current one",
            BridgeError::UriTooLong => "token metadata URI exceeds the maximum length",
            BridgeError::InvalidMetadataAccount =>
                "the metadata account is not the PDA Metaplex derives for this mint",
            BridgeError::NameTooLong => "token metadata name must be 1..=32 bytes",
            BridgeError::SymbolTooLong => "token metadata symbol must be 1..=10 bytes",
            BridgeError::MetadataNotFound =>
                "no token metadata exists for this mint yet — create it first",
        }
    }
}

} // verus!
