use vstd::prelude::*;

verus! {

/// Identity of an account or a contract: an opaque 256-bit value, held as
/// its high and low halves. The all-zero value is reserved.
#[derive(Clone, Copy, Debug, PartialEq, Eq, Structural)]
pub struct Address {
    pub hi: u128,
    pub lo: u128,
}

impl Address {
    pub fn new(hi: u128, lo: u128) -> (r: Address)
        ensures
            r.hi == hi,
            r.lo == lo,
    {
        Address { hi, lo }
    }

    /// The reserved all-zero key, which never owns a commitment.
    pub open spec fn zero_spec() -> Address {
        Address { hi: 0, lo: 0 }
    }

    pub fn zero() -> (r: Address)
        ensures
            r == Address::zero_spec(),
    {
        Address { hi: 0, lo: 0 }
    }

    pub fn is_zero(&self) -> (r: bool)
        ensures
            r == (*self == Address::zero_spec()),
    {
        self.hi == 0 && self.lo == 0
    }
}

/// Risk category of a commitment.
#[derive(Clone, Copy, Debug, PartialEq, Eq, Structural)]
pub enum CommitmentType {
    Safe,
    Balanced,
    Aggressive,
}

/// Lifecycle state of a commitment. `Active` is the only state with outgoing
/// transitions.
#[derive(Clone, Copy, Debug, PartialEq, Eq, Structural)]
pub enum Status {
    Active,
    Settled,
    Violated,
    EarlyExit,
}

/// Risk rules declared when a commitment is created.
#[derive(Clone, Copy, Debug, PartialEq, Eq, Structural)]
pub struct CommitmentRules {
    pub duration_days: u32,
    pub max_loss_percent: u32,
    pub commitment_type: CommitmentType,
    pub early_exit_penalty: u32,
    pub min_fee_threshold: i128,
    pub grace_period_days: u32,
}

/// Errors of the commitment ledger.
#[derive(Clone, Copy, Debug, PartialEq, Eq, Structural)]
pub enum CommitmentError {
    InvalidDuration,
    InvalidMaxLossPercent,
    InvalidCommitmentType,
    InvalidAmount,
    InsufficientBalance,
    TransferFailed,
    MintingFailed,
    CommitmentNotFound,
    Unauthorized,
    AlreadyInitialized,
    AlreadySettled,
    ReentrancyDetected,
    NotActive,
    InvalidStatus,
    NotInitialized,
    NotExpired,
    ValueUpdateViolation,
    NotAuthorizedUpdater,
    ZeroAddress,
    /// Duration would cause expires_at to overflow u64
    ExpirationOverflow,
    /// A mutating operation was attempted while the ledger is paused
    ContractPaused,
    /// The caller has used up its call budget for the current window
    RateLimitExceeded,
}

/// The human-readable text of each error.
pub open spec fn error_text(e: CommitmentError) -> Seq<char> {
    match e {
        CommitmentError::InvalidDuration => "Invalid duration: must be greater than zero"@,
        CommitmentError::InvalidMaxLossPercent => "Invalid max loss: must be 0-100"@,
        CommitmentError::InvalidCommitmentType => "Invalid commitment type"@,
        CommitmentError::InvalidAmount => "Invalid amount: must be greater than zero"@,
        CommitmentError::InsufficientBalance => "Insufficient balance"@,
        CommitmentError::TransferFailed => "Token transfer failed"@,
        CommitmentError::MintingFailed => "NFT minting failed"@,
        CommitmentError::CommitmentNotFound => "Commitment not found"@,
        CommitmentError::Unauthorized => "Unauthorized: caller not allowed"@,
        CommitmentError::AlreadyInitialized => "Contract already initialized"@,
        CommitmentError::AlreadySettled => "Commitment already settled"@,
        CommitmentError::ReentrancyDetected => "Reentrancy detected"@,
        CommitmentError::NotActive => "Commitment is not active"@,
        CommitmentError::InvalidStatus => "Invalid commitment status for this operation"@,
        CommitmentError::NotInitialized => "Contract not initialized"@,
        CommitmentError::NotExpired => "Commitment has not expired yet"@,
        CommitmentError::ValueUpdateViolation => "Commitment has value update voilation"@,
        CommitmentError::NotAuthorizedUpdater => "Commitment has not auth updater"@,
        CommitmentError::ZeroAddress => "Zero address is not allowed"@,
        CommitmentError::ExpirationOverflow => "Duration would cause expiration timestamp overflow"@,
        CommitmentError::ContractPaused => "Contract is paused"@,
        CommitmentError::RateLimitExceeded => "Rate limit exceeded"@,
    }
}

/// Length and third character of each error text, which tell the texts apart.
spec fn text_key(e: CommitmentError) -> (nat, char) {
    match e {
        CommitmentError::InvalidDuration => (43nat, 'v'),
        CommitmentError::InvalidMaxLossPercent => (31nat, 'v'),
        CommitmentError::InvalidCommitmentType => (23nat, 'v'),
        CommitmentError::InvalidAmount => (41nat, 'v'),
        CommitmentError::InsufficientBalance => (20nat, 's'),
        CommitmentError::TransferFailed => (21nat, 'k'),
        CommitmentError::MintingFailed => (18nat, 'T'),
        CommitmentError::CommitmentNotFound => (20nat, 'm'),
        CommitmentError::Unauthorized => (32nat, 'a'),
        CommitmentError::AlreadyInitialized => (28nat, 'n'),
        CommitmentError::AlreadySettled => (26nat, 'm'),
        CommitmentError::ReentrancyDetected => (19nat, 'e'),
        CommitmentError::NotActive => (24nat, 'm'),
        CommitmentError::InvalidStatus => (44nat, 'v'),
        CommitmentError::NotInitialized => (24nat, 'n'),
        CommitmentError::NotExpired => (30nat, 'm'),
        CommitmentError::ValueUpdateViolation => (37nat, 'm'),
        CommitmentError::NotAuthorizedUpdater => (31nat, 'm'),
        CommitmentError::ZeroAddress => (27nat, 'r'),
        CommitmentError::ExpirationOverflow => (50nat, 'r'),
        CommitmentError::ContractPaused => (18nat, 'n'),
        CommitmentError::RateLimitExceeded => (19nat, 't'),
    }
}

proof fn lemma_text_key(e: CommitmentError)
    ensures
        error_text(e).len() == text_key(e).0,
        error_text(e)[2] == text_key(e).1,
{
    match e {
        CommitmentError::InvalidDuration => {
            reveal_strlit("Invalid duration: must be greater than zero");
        },
        CommitmentError::InvalidMaxLossPercent => {
            reveal_strlit("Invalid max loss: must be 0-100");
        },
        CommitmentError::InvalidCommitmentType => {
            reveal_strlit("Invalid commitment type");
        },
        CommitmentError::InvalidAmount => {
            reveal_strlit("Invalid amount: must be greater than zero");
        },
        CommitmentError::InsufficientBalance => {
            reveal_strlit("Insufficient balance");
        },
        CommitmentError::TransferFailed => {
            reveal_strlit("Token transfer failed");
        },
        CommitmentError::MintingFailed => {
            reveal_strlit("NFT minting failed");
        },
        CommitmentError::CommitmentNotFound => {
            reveal_strlit("Commitment not found");
        },
        CommitmentError::Unauthorized => {
            reveal_strlit("Unauthorized: caller not allowed");
        },
        CommitmentError::AlreadyInitialized => {
            reveal_strlit("Contract already initialized");
        },
        CommitmentError::AlreadySettled => {
            reveal_strlit("Commitment already settled");
        },
        CommitmentError::ReentrancyDetected => {
            reveal_strlit("Reentrancy detected");
        },
        CommitmentError::NotActive => {
            reveal_strlit("Commitment is not active");
        },
        CommitmentError::InvalidStatus => {
            reveal_strlit("Invalid commitment status for this operation");
        },
        CommitmentError::NotInitialized => {
            reveal_strlit("Contract not initialized");
        },
        CommitmentError::NotExpired => {
            reveal_strlit("Commitment has not expired yet");
        },
        CommitmentError::ValueUpdateViolation => {
            reveal_strlit("Commitment has value update voilation");
        },
        CommitmentError::NotAuthorizedUpdater => {
            reveal_strlit("Commitment has not auth updater");
        },
        CommitmentError::ZeroAddress => {
            reveal_strlit("Zero address is not allowed");
        },
        CommitmentError::ExpirationOverflow => {
            reveal_strlit("Duration would cause expiration timestamp overflow");
        },
        CommitmentError::ContractPaused => {
            reveal_strlit("Contract is paused");
        },
        CommitmentError::RateLimitExceeded => {
            reveal_strlit("Rate limit exceeded");
        },
    }
}

/// Each error has a non-empty text of its own.
pub proof fn lemma_error_texts_distinct(a: CommitmentError, b: CommitmentError)
    ensures
        error_text(a).len() > 0,
        a != b ==> error_text(a) != error_text(b),
{
    lemma_text_key(a);
    lemma_text_key(b);
}

impl CommitmentError {
    /// Human-readable message for debugging and error events.
    pub fn message(&self) -> (r: &'static str)
        ensures
            r@ == error_text(*self),
    {
        proof {
            reveal_strlit("Invalid duration: must be greater than zero");
            reveal_strlit("Invalid max loss: must be 0-100");
            reveal_strlit("Invalid commitment type");
            reveal_strlit("Invalid amount: must be greater than zero");
            reveal_strlit("Insufficient balance");
            reveal_strlit("Token transfer failed");
            reveal_strlit("NFT minting failed");
            reveal_strlit("Commitment not found");
            reveal_strlit("Unauthorized: caller not allowed");
            reveal_strlit("Contract already initialized");
            reveal_strlit("Commitment already settled");
            reveal_strlit("Reentrancy detected");
            reveal_strlit("Commitment is not active");
            reveal_strlit("Invalid commitment status for this operation");
            reveal_strlit("Contract not initialized");
            reveal_strlit("Commitment has not expired yet");
            reveal_strlit("Commitment has value update voilation");
            reveal_strlit("Commitment has not auth updater");
            reveal_strlit("Zero address is not allowed");
            reveal_strlit("Duration would cause expiration timestamp overflow");
            reveal_strlit("Contract is paused");
            reveal_strlit("Rate limit exceeded");
        }
        match self {
            CommitmentError::InvalidDuration => "Invalid duration: must be greater than zero",
            CommitmentError::InvalidMaxLossPercent => "Invalid max loss: must be 0-100",
            CommitmentError::InvalidCommitmentType => "Invalid commitment type",
            CommitmentError::InvalidAmount => "Invalid amount: must be greater than zero",
            CommitmentError::InsufficientBalance => "Insufficient balance",
            CommitmentError::TransferFailed => "Token transfer failed",
            CommitmentError::MintingFailed => "NFT minting failed",
            CommitmentError::CommitmentNotFound => "Commitment not found",
            CommitmentError::Unauthorized => "Unauthorized: caller not allowed",
            CommitmentError::AlreadyInitialized => "Contract already initialized",
            CommitmentError::AlreadySettled => "Commitment already settled",
            CommitmentError::ReentrancyDetected => "Reentrancy detected",
            CommitmentError::NotActive => "Commitment is not active",
            CommitmentError::InvalidStatus => "Invalid commitment status for this operation",
            CommitmentError::NotInitialized => "Contract not initialized",
            CommitmentError::NotExpired => "Commitment has not expired yet",
            CommitmentError::ValueUpdateViolation => "Commitment has value update voilation",
            CommitmentError::NotAuthorizedUpdater => "Commitment has not auth updater",
            CommitmentError::ZeroAddress => "Zero address is not allowed",
            CommitmentError::ExpirationOverflow => "Duration would cause expiration timestamp overflow",
            CommitmentError::ContractPaused => "Contract is paused",
            CommitmentError::RateLimitExceeded => "Rate limit exceeded",
        }
    }
}

impl CommitmentType {
    /// The type named by `name`: one of "safe", "balanced", "aggressive".
    pub fn from_name(name: &String) -> (r: Option<CommitmentType>)
        ensures
            r == Some(CommitmentType::Safe) <==> name@ == "safe"@,
            r == Some(CommitmentType::Balanced) <==> name@ == "balanced"@,
            r == Some(CommitmentType::Aggressive) <==> name@ == "aggressive"@,
            r.is_none() <==> (name@ != "safe"@ && name@ != "balanced"@ && name@ != "aggressive"@),
    {
        proof {
            reveal_strlit("safe");
            reveal_strlit("balanced");
            reveal_strlit("aggressive");
            assert("safe"@.len() == 4 && "balanced"@.len() == 8 && "aggressive"@.len() == 10);
        }
        let safe = String::from_str("safe");
        let balanced = String::from_str("balanced");
        let aggressive = String::from_str("aggressive");
        if *name == safe {
            Some(CommitmentType::Safe)
        } else if *name == balanced {
            Some(CommitmentType::Balanced)
        } else if *name == aggressive {
            Some(CommitmentType::Aggressive)
        } else {
            None
        }
    }
}

} // verus!
