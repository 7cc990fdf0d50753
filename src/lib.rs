//! An escrow ledger of time-locked commitments with a compliance scoring
//! engine and a position-token registry.

pub mod compliance;
pub mod guard;
pub mod ledger;
pub mod limiter;
pub mod math;
pub mod nft;
pub mod types;

pub use compliance::{Attestation, AttestationEngineContract, HealthMetrics, HealthState};
pub use ledger::{generate_commitment_id, Commitment, CommitmentCoreContract};
pub use limiter::{Operation, RateLimit, RateLimiter};
pub use math::{MAX_AMOUNT, SECONDS_PER_DAY};
pub use nft::{CommitmentMetadata, CommitmentNFT, CommitmentNFTContract, ContractError, CURRENT_VERSION};
pub use types::{Address, CommitmentError, CommitmentRules, CommitmentType, Status};

