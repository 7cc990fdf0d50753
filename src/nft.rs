use vstd::prelude::*;
use crate::guard::{AccessDenied, AccessGuard, AddressSet};
use crate::math::{checked_expiration, expiration_spec};
use crate::types::{Address, CommitmentType};

verus! {

/// Errors of the position-token registry.
#[derive(Clone, Copy, Debug, PartialEq, Eq, Structural)]
pub enum ContractError {
    NotInitialized,
    AlreadyInitialized,
    TokenNotFound,
    InvalidTokenId,
    NotOwner,
    NotAuthorized,
    TransferNotAllowed,
    AlreadySettled,
    NotExpired,
    InvalidDuration,
    InvalidMaxLoss,
    InvalidCommitmentType,
    InvalidAmount,
    ReentrancyDetected,
    InvalidWasmHash,
    InvalidVersion,
    AlreadyMigrated,
    TransferToZeroAddress,
    NFTLocked,
    ExpirationOverflow,
    InvalidCommitmentId,
    ContractPaused,
    /// Mutating operations are suspended by the emergency switch
    EmergencyMode,
}

/// Snapshot of the commitment a token is bound to.
#[derive(Clone, Debug, PartialEq, Eq)]
pub struct CommitmentMetadata {
    pub commitment_id: String,
    pub duration_days: u32,
    pub max_loss_percent: u32,
    pub commitment_type: CommitmentType,
    pub created_at: u64,
    pub expires_at: u64,
    pub initial_amount: i128,
    pub asset_address: Address,
}

/// A position token: bound one to one to a commitment, and locked against
/// transfer while that commitment is active.
#[derive(Clone, Debug, PartialEq, Eq)]
pub struct CommitmentNFT {
    pub owner: Address,
    pub token_id: u32,
    pub metadata: CommitmentMetadata,
    pub is_active: bool,
    pub early_exit_penalty: u32,
}

impl CommitmentNFT {
    /// A field-by-field copy.
    pub fn copy_record(&self) -> (r: CommitmentNFT)
        ensures
            r == *self,
    {
        CommitmentNFT {
            owner: self.owner,
            token_id: self.token_id,
            metadata: CommitmentMetadata {
                commitment_id: self.metadata.commitment_id.clone(),
                duration_days: self.metadata.duration_days,
                max_loss_percent: self.metadata.max_loss_percent,
                commitment_type: self.metadata.commitment_type,
                created_at: self.metadata.created_at,
                expires_at: self.metadata.expires_at,
                initial_amount: self.metadata.initial_amount,
                asset_address: self.metadata.asset_address,
            },
            is_active: self.is_active,
            early_exit_penalty: self.early_exit_penalty,
        }
    }
}

/// Number of tokens in `s` held by `owner`.
pub open spec fn owned_count(s: Seq<CommitmentNFT>, owner: Address) -> nat
    decreases s.len(),
{
    if s.len() == 0 {
        0
    } else {
        owned_count(s.drop_last(), owner) + if s.last().owner == owner { 1nat } else { 0nat }
    }
}

/// The tokens of `s` held by `owner`, in minting order.
pub open spec fn owned_tokens(s: Seq<CommitmentNFT>, owner: Address) -> Seq<CommitmentNFT>
    decreases s.len(),
{
    if s.len() == 0 {
        Seq::empty()
    } else if s.last().owner == owner {
        owned_tokens(s.drop_last(), owner).push(s.last())
    } else {
        owned_tokens(s.drop_last(), owner)
    }
}

/// Outcome of an admin-only operation called by `caller`.
pub open spec fn admin_result(admin: Option<Address>, caller: Address) -> Result<(), ContractError> {
    match admin {
        None => Err(ContractError::NotInitialized),
        Some(a) => if a == caller { Ok(()) } else { Err(ContractError::NotAuthorized) },
    }
}

pub open spec fn denied_error(d: AccessDenied) -> ContractError {
    match d {
        AccessDenied::NotInitialized => ContractError::NotInitialized,
        AccessDenied::Unauthorized => ContractError::NotAuthorized,
        AccessDenied::Paused => ContractError::ContractPaused,
        AccessDenied::Reentrant => ContractError::ReentrancyDetected,
    }
}

fn map_denied(d: AccessDenied) -> (r: ContractError)
    ensures
        r == denied_error(d),
{
    match d {
        AccessDenied::NotInitialized => ContractError::NotInitialized,
        AccessDenied::Unauthorized => ContractError::NotAuthorized,
        AccessDenied::Paused => ContractError::ContractPaused,
        AccessDenied::Reentrant => ContractError::ReentrancyDetected,
    }
}

/// Registry of position tokens; token `i` is stored at index `i`.
#[derive(Clone, Debug)]
pub struct CommitmentNFTContract {
    pub guard: AccessGuard,
    pub emergency: bool,
    pub core_contract: Option<Address>,
    pub minters: AddressSet,
    pub tokens: Vec<CommitmentNFT>,
}

impl CommitmentNFTContract {
    /// The error a mutating operation fails with on entry, if any: the latch
    /// is tested first, then the emergency switch, then the pause flag.
    pub open spec fn entry_error(&self) -> Option<ContractError> {
        if self.guard.latched {
            Some(ContractError::ReentrancyDetected)
        } else if self.emergency {
            Some(ContractError::EmergencyMode)
        } else if self.guard.paused {
            Some(ContractError::ContractPaused)
        } else {
            None
        }
    }

    /// Acquires the latch of a mutating operation.
    fn enter(&mut self) -> (r: Result<(), ContractError>)
        ensures
            match r {
                Ok(()) => old(self).entry_error().is_none() && final(self).guard.latched,
                Err(e) => old(self).entry_error() == Some(e),
            },
            r.is_err() ==> *final(self) == *old(self),
            final(self).guard.admin == old(self).guard.admin,
            final(self).guard.paused == old(self).guard.paused,
            final(self).emergency == old(self).emergency,
            final(self).core_contract == old(self).core_contract,
            final(self).minters == old(self).minters,
            final(self).tokens == old(self).tokens,
    {
        if self.guard.latched {
            return Err(ContractError::ReentrancyDetected);
        }
        if self.emergency {
            return Err(ContractError::EmergencyMode);
        }
        match self.guard.enter() {
            Ok(()) => Ok(()),
            Err(d) => Err(map_denied(d)),
        }
    }

    pub open spec fn wf(&self) -> bool {
        &&& self.tokens@.len() <= u32::MAX
        &&& forall|i: int| 0 <= i < self.tokens@.len() ==> (#[trigger] self.tokens@[i]).token_id == i
    }

    /// Whether `a` may mint, settle and deactivate tokens: the admin, the
    /// ledger contract, or an authorized minter.
    pub open spec fn authorized(&self, a: Address) -> bool {
        self.guard.admin == Some(a) || self.core_contract == Some(a) || self.minters.contains(a)
    }

    /// The error `mint` returns, if any.
    pub open spec fn mint_error(
        &self,
        caller: Address,
        duration_days: u32,
        max_loss_percent: u32,
        initial_amount: i128,
        now: u64,
    ) -> Option<ContractError> {
        if self.entry_error().is_some() {
            self.entry_error()
        } else {
            self.mint_check(caller, duration_days, max_loss_percent, initial_amount, now)
        }
    }

    /// The checks of `mint` after the latch and the pause flag.
    pub open spec fn mint_check(
        &self,
        caller: Address,
        duration_days: u32,
        max_loss_percent: u32,
        initial_amount: i128,
        now: u64,
    ) -> Option<ContractError> {
        if self.guard.admin.is_none() {
            Some(ContractError::NotInitialized)
        } else if !self.authorized(caller) {
            Some(ContractError::NotAuthorized)
        } else if duration_days == 0 {
            Some(ContractError::InvalidDuration)
        } else if max_loss_percent > 100 {
            Some(ContractError::InvalidMaxLoss)
        } else if initial_amount <= 0 {
            Some(ContractError::InvalidAmount)
        } else if expiration_spec(now as int, duration_days as int).is_none() {
            Some(ContractError::ExpirationOverflow)
        } else if self.tokens@.len() >= u32::MAX {
            Some(ContractError::InvalidTokenId)
        } else {
            None
        }
    }

    pub fn new() -> (r: CommitmentNFTContract)
        ensures
            r.wf(),
            r.guard.admin.is_none(),
            !r.guard.paused,
            !r.guard.latched,
            !r.emergency,
            r.core_contract.is_none(),
            forall|a: Address| !r.minters.contains(a),
            r.tokens@.len() == 0,
    {
        CommitmentNFTContract {
            guard: AccessGuard::new(),
            emergency: false,
            core_contract: None,
            minters: AddressSet::new(),
            tokens: Vec::new(),
        }
    }

    pub fn initialize(&mut self, admin: Address) -> (r: Result<(), ContractError>)
        ensures
            r == if old(self).guard.admin.is_some() { Err(ContractError::AlreadyInitialized) } else { Ok(()) },
            r.is_ok() ==> final(self).guard.admin == Some(admin) && final(self).tokens == old(self).tokens
                && final(self).core_contract == old(self).core_contract && final(self).minters == old(self).minters
                && final(self).guard.paused == old(self).guard.paused && final(self).guard.latched == old(self).guard.latched,
            r.is_err() ==> *final(self) == *old(self),
    {
        if self.guard.admin.is_some() {
            return Err(ContractError::AlreadyInitialized);
        }
        self.guard.admin = Some(admin);
        Ok(())
    }

    pub fn pause(&mut self, caller: Address) -> (r: Result<(), ContractError>)
        ensures
            r == admin_result(old(self).guard.admin, caller),
            r.is_ok() ==> final(self).guard.paused && final(self).guard.admin == old(self).guard.admin,
            r.is_err() ==> *final(self) == *old(self),
            final(self).tokens == old(self).tokens,
    {
        match self.guard.set_paused(caller, true) {
            Ok(()) => Ok(()),
            Err(d) => Err(map_denied(d)),
        }
    }

    pub fn unpause(&mut self, caller: Address) -> (r: Result<(), ContractError>)
        ensures
            r == admin_result(old(self).guard.admin, caller),
            r.is_ok() ==> !final(self).guard.paused && final(self).guard.admin == old(self).guard.admin,
            r.is_err() ==> *final(self) == *old(self),
            final(self).tokens == old(self).tokens,
    {
        match self.guard.set_paused(caller, false) {
            Ok(()) => Ok(()),
            Err(d) => Err(map_denied(d)),
        }
    }

    pub fn is_paused(&self) -> (r: bool)
        ensures
            r == self.guard.paused,
    {
        self.guard.paused
    }

    /// Names the ledger contract allowed to mint and settle; admin only.
    pub fn set_core_contract(&mut self, caller: Address, core_contract: Address) -> (r: Result<(), ContractError>)
        ensures
            r == admin_result(old(self).guard.admin, caller),
            r.is_ok() ==> final(self).core_contract == Some(core_contract) && final(self).guard == old(self).guard
                && final(self).minters == old(self).minters && final(self).tokens == old(self).tokens,
            r.is_err() ==> *final(self) == *old(self),
    {
        match self.guard.require_admin(caller) {
            Ok(()) => {
                self.core_contract = Some(core_contract);
                Ok(())
            },
            Err(d) => Err(map_denied(d)),
        }
    }

    pub fn get_core_contract(&self) -> (r: Result<Address, ContractError>)
        ensures
            r == match self.core_contract {
                Some(a) => Ok(a),
                None => Err(ContractError::NotInitialized),
            },
    {
        match self.core_contract {
            Some(a) => Ok(a),
            None => Err(ContractError::NotInitialized),
        }
    }

    pub fn get_admin(&self) -> (r: Result<Address, ContractError>)
        ensures
            r == match self.guard.admin {
                Some(a) => Ok(a),
                None => Err(ContractError::NotInitialized),
            },
    {
        match self.guard.admin {
            Some(a) => Ok(a),
            None => Err(ContractError::NotInitialized),
        }
    }

    /// Lets `contract_address` mint; admin only.
    pub fn add_authorized_contract(&mut self, caller: Address, contract_address: Address) -> (r: Result<(), ContractError>)
        ensures
            r == admin_result(old(self).guard.admin, caller),
            r.is_ok() ==> final(self).minters.contains(contract_address)
                && (forall|a: Address| a != contract_address ==> (final(self).minters.contains(a) <==> old(self).minters.contains(a))),
            r.is_err() ==> *final(self) == *old(self),
            final(self).guard == old(self).guard,
            final(self).core_contract == old(self).core_contract,
            final(self).tokens == old(self).tokens,
    {
        match self.guard.require_admin(caller) {
            Ok(()) => {
                self.minters.insert(contract_address);
                Ok(())
            },
            Err(d) => Err(map_denied(d)),
        }
    }

    /// Withdraws the minting right of `contract_address`; admin only.
    pub fn remove_authorized_contract(&mut self, caller: Address, contract_address: Address) -> (r: Result<(), ContractError>)
        ensures
            r == admin_result(old(self).guard.admin, caller),
            r.is_ok() ==> !final(self).minters.contains(contract_address)
                && (forall|a: Address| a != contract_address ==> (final(self).minters.contains(a) <==> old(self).minters.contains(a))),
            r.is_err() ==> *final(self) == *old(self),
            final(self).guard == old(self).guard,
            final(self).core_contract == old(self).core_contract,
            final(self).tokens == old(self).tokens,
    {
        match self.guard.require_admin(caller) {
            Ok(()) => {
                self.minters.remove(contract_address);
                Ok(())
            },
            Err(d) => Err(map_denied(d)),
        }
    }

    pub fn is_authorized(&self, contract_address: Address) -> (r: bool)
        ensures
            r == self.authorized(contract_address),
    {
        if let Some(admin) = self.guard.admin {
            if admin == contract_address {
                return true;
            }
        }
        if let Some(core) = self.core_contract {
            if core == contract_address {
                return true;
            }
        }
        self.minters.has(contract_address)
    }
}


impl CommitmentNFTContract {
    /// The token `mint` creates.
    pub open spec fn minted(
        &self,
        owner: Address,
        commitment_id: String,
        duration_days: u32,
        max_loss_percent: u32,
        commitment_type: CommitmentType,
        initial_amount: i128,
        asset_address: Address,
        early_exit_penalty: u32,
        now: u64,
    ) -> CommitmentNFT {
        CommitmentNFT {
            owner,
            token_id: self.tokens@.len() as u32,
            metadata: CommitmentMetadata {
                commitment_id,
                duration_days,
                max_loss_percent,
                commitment_type,
                created_at: now,
                expires_at: expiration_spec(now as int, duration_days as int)->Some_0,
                initial_amount,
                asset_address,
            },
            is_active: true,
            early_exit_penalty,
        }
    }

    /// Mints a token bound to `commitment_id` for `owner`; the next token id
    /// is the number of tokens minted so far.
    pub fn mint(
        &mut self,
        caller: Address,
        owner: Address,
        commitment_id: String,
        duration_days: u32,
        max_loss_percent: u32,
        commitment_type: CommitmentType,
        initial_amount: i128,
        asset_address: Address,
        early_exit_penalty: u32,
        now: u64,
    ) -> (r: Result<u32, ContractError>)
        requires
            old(self).wf(),
        ensures
            final(self).wf(),
            match r {
                Ok(id) => {
                    &&& old(self).mint_error(caller, duration_days, max_loss_percent, initial_amount, now).is_none()
                    &&& id == old(self).tokens@.len()
                    &&& final(self).tokens@ == old(self).tokens@.push(old(self).minted(owner, commitment_id,
                        duration_days, max_loss_percent, commitment_type, initial_amount, asset_address,
                        early_exit_penalty, now))
                    &&& final(self).guard == old(self).guard
                    &&& final(self).emergency == old(self).emergency
                    &&& final(self).core_contract == old(self).core_contract
                    &&& final(self).minters == old(self).minters
                },
                Err(e) => {
                    &&& old(self).mint_error(caller, duration_days, max_loss_percent, initial_amount, now) == Some(e)
                    &&& *final(self) == *old(self)
                },
            },
    {
        if let Err(e) = self.enter() {
            return Err(e);
        }
        let r = self.mint_entered(caller, owner, commitment_id, duration_days, max_loss_percent,
            commitment_type, initial_amount, asset_address, early_exit_penalty, now);
        self.guard.exit();
        r
    }

    fn mint_entered(
        &mut self,
        caller: Address,
        owner: Address,
        commitment_id: String,
        duration_days: u32,
        max_loss_percent: u32,
        commitment_type: CommitmentType,
        initial_amount: i128,
        asset_address: Address,
        early_exit_penalty: u32,
        now: u64,
    ) -> (r: Result<u32, ContractError>)
        requires
            old(self).wf(),
        ensures
            final(self).wf(),
            final(self).guard == old(self).guard,
            final(self).emergency == old(self).emergency,
            final(self).core_contract == old(self).core_contract,
            final(self).minters == old(self).minters,
            match r {
                Ok(id) => {
                    &&& old(self).mint_check(caller, duration_days, max_loss_percent, initial_amount, now).is_none()
                    &&& id == old(self).tokens@.len()
                    &&& final(self).tokens@ == old(self).tokens@.push(old(self).minted(owner, commitment_id,
                        duration_days, max_loss_percent, commitment_type, initial_amount, asset_address,
                        early_exit_penalty, now))
                },
                Err(e) => {
                    &&& old(self).mint_check(caller, duration_days, max_loss_percent, initial_amount, now) == Some(e)
                    &&& final(self).tokens == old(self).tokens
                },
            },
    {
        if self.guard.admin.is_none() {
            return Err(ContractError::NotInitialized);
        }
        if !self.is_authorized(caller) {
            return Err(ContractError::NotAuthorized);
        }
        if duration_days == 0 {
            return Err(ContractError::InvalidDuration);
        }
        if max_loss_percent > 100 {
            return Err(ContractError::InvalidMaxLoss);
        }
        if initial_amount <= 0 {
            return Err(ContractError::InvalidAmount);
        }
        let expires_at = match checked_expiration(now, duration_days) {
            Some(t) => t,
            None => {
                return Err(ContractError::ExpirationOverflow);
            },
        };
        if self.tokens.len() >= 0xffff_ffff {
            return Err(ContractError::InvalidTokenId);
        }
        let token_id = self.tokens.len() as u32;
        let nft = CommitmentNFT {
            owner,
            token_id,
            metadata: CommitmentMetadata {
                commitment_id,
                duration_days,
                max_loss_percent,
                commitment_type,
                created_at: now,
                expires_at,
                initial_amount,
                asset_address,
            },
            is_active: true,
            early_exit_penalty,
        };
        self.tokens.push(nft);
        Ok(token_id)
    }
}

impl CommitmentNFTContract {
    pub open spec fn has_token(&self, token_id: u32) -> bool {
        token_id < self.tokens@.len()
    }

    pub open spec fn token(&self, token_id: u32) -> CommitmentNFT {
        self.tokens@[token_id as int]
    }

    pub fn token_exists(&self, token_id: u32) -> (r: bool)
        ensures
            r == self.has_token(token_id),
    {
        (token_id as usize) < self.tokens.len()
    }

    pub fn get_metadata(&self, token_id: u32) -> (r: Result<&CommitmentNFT, ContractError>)
        ensures
            self.has_token(token_id) ==> r == Ok::<&CommitmentNFT, ContractError>(&self.token(token_id)),
            !self.has_token(token_id) ==> r == Err::<&CommitmentNFT, ContractError>(ContractError::TokenNotFound),
    {
        if (token_id as usize) < self.tokens.len() {
            Ok(&self.tokens[token_id as usize])
        } else {
            Err(ContractError::TokenNotFound)
        }
    }

    pub fn owner_of(&self, token_id: u32) -> (r: Result<Address, ContractError>)
        ensures
            self.has_token(token_id) ==> r == Ok::<Address, ContractError>(self.token(token_id).owner),
            !self.has_token(token_id) ==> r == Err::<Address, ContractError>(ContractError::TokenNotFound),
    {
        if (token_id as usize) < self.tokens.len() {
            Ok(self.tokens[token_id as usize].owner)
        } else {
            Err(ContractError::TokenNotFound)
        }
    }

    pub fn is_active(&self, token_id: u32) -> (r: Result<bool, ContractError>)
        ensures
            self.has_token(token_id) ==> r == Ok::<bool, ContractError>(self.token(token_id).is_active),
            !self.has_token(token_id) ==> r == Err::<bool, ContractError>(ContractError::TokenNotFound),
    {
        if (token_id as usize) < self.tokens.len() {
            Ok(self.tokens[token_id as usize].is_active)
        } else {
            Err(ContractError::TokenNotFound)
        }
    }

    /// Whether the term of the token's commitment has ended at `now`.
    pub fn is_expired(&self, token_id: u32, now: u64) -> (r: Result<bool, ContractError>)
        ensures
            self.has_token(token_id) ==> r == Ok::<bool, ContractError>(now >= self.token(token_id).metadata.expires_at),
            !self.has_token(token_id) ==> r == Err::<bool, ContractError>(ContractError::TokenNotFound),
    {
        if (token_id as usize) < self.tokens.len() {
            Ok(now >= self.tokens[token_id as usize].metadata.expires_at)
        } else {
            Err(ContractError::TokenNotFound)
        }
    }

    /// Number of tokens minted.
    pub fn total_supply(&self) -> (r: u32)
        requires
            self.wf(),
        ensures
            r == self.tokens@.len(),
    {
        self.tokens.len() as u32
    }

    /// Number of tokens `owner` holds.
    pub fn balance_of(&self, owner: Address) -> (r: u32)
        requires
            self.wf(),
        ensures
            r == owned_count(self.tokens@, owner),
    {
        let mut count: u32 = 0;
        let mut i: usize = 0;
        while i < self.tokens.len()
            invariant
                self.wf(),
                i <= self.tokens@.len(),
                count <= i,
                count == owned_count(self.tokens@.subrange(0, i as int), owner),
            decreases self.tokens@.len() - i,
        {
            proof {
                assert(self.tokens@.subrange(0, i + 1).drop_last() =~= self.tokens@.subrange(0, i as int));
            }
            if self.tokens[i].owner == owner {
                count = count + 1;
            }
            i = i + 1;
        }
        proof {
            assert(self.tokens@.subrange(0, i as int) =~= self.tokens@);
        }
        count
    }

    /// The tokens `owner` holds, in minting order.
    pub fn get_nfts_by_owner(&self, owner: Address) -> (r: Vec<CommitmentNFT>)
        ensures
            r@ == owned_tokens(self.tokens@, owner),
    {
        let mut out: Vec<CommitmentNFT> = Vec::new();
        let mut i: usize = 0;
        while i < self.tokens.len()
            invariant
                i <= self.tokens@.len(),
                out@ == owned_tokens(self.tokens@.subrange(0, i as int), owner),
            decreases self.tokens@.len() - i,
        {
            proof {
                assert(self.tokens@.subrange(0, i + 1).drop_last() =~= self.tokens@.subrange(0, i as int));
            }
            if self.tokens[i].owner == owner {
                out.push(self.tokens[i].copy_record());
            }
            i = i + 1;
        }
        proof {
            assert(self.tokens@.subrange(0, i as int) =~= self.tokens@);
        }
        out
    }

    /// The checks of `transfer` after the latch and the pause flag.
    pub open spec fn transfer_check(&self, from: Address, to: Address, token_id: u32) -> Option<ContractError> {
        if to == from || to == Address::zero_spec() {
            Some(ContractError::TransferToZeroAddress)
        } else if !self.has_token(token_id) {
            Some(ContractError::TokenNotFound)
        } else if self.token(token_id).owner != from {
            Some(ContractError::NotOwner)
        } else if self.token(token_id).is_active {
            Some(ContractError::NFTLocked)
        } else {
            None
        }
    }

    pub open spec fn transfer_error(&self, from: Address, to: Address, token_id: u32) -> Option<ContractError> {
        if self.entry_error().is_some() {
            self.entry_error()
        } else {
            self.transfer_check(from, to, token_id)
        }
    }

    /// Moves token `token_id` from `from` to `to`. A token bound to an
    /// active commitment is locked.
    pub fn transfer(&mut self, from: Address, to: Address, token_id: u32) -> (r: Result<(), ContractError>)
        requires
            old(self).wf(),
        ensures
            final(self).wf(),
            match r {
                Ok(()) => {
                    &&& old(self).transfer_error(from, to, token_id).is_none()
                    &&& final(self).tokens@ == old(self).tokens@.update(token_id as int,
                        CommitmentNFT { owner: to, ..old(self).token(token_id) })
                    &&& final(self).guard == old(self).guard
                    &&& final(self).emergency == old(self).emergency
                    &&& final(self).core_contract == old(self).core_contract
                    &&& final(self).minters == old(self).minters
                },
                Err(e) => {
                    &&& old(self).transfer_error(from, to, token_id) == Some(e)
                    &&& *final(self) == *old(self)
                },
            },
    {
        if let Err(e) = self.enter() {
            return Err(e);
        }
        let r = self.transfer_entered(from, to, token_id);
        self.guard.exit();
        r
    }

    fn transfer_entered(&mut self, from: Address, to: Address, token_id: u32) -> (r: Result<(), ContractError>)
        requires
            old(self).wf(),
        ensures
            final(self).wf(),
            final(self).guard == old(self).guard,
            final(self).emergency == old(self).emergency,
            final(self).core_contract == old(self).core_contract,
            final(self).minters == old(self).minters,
            match r {
                Ok(()) => {
                    &&& old(self).transfer_check(from, to, token_id).is_none()
                    &&& final(self).tokens@ == old(self).tokens@.update(token_id as int,
                        CommitmentNFT { owner: to, ..old(self).token(token_id) })
                },
                Err(e) => {
                    &&& old(self).transfer_check(from, to, token_id) == Some(e)
                    &&& final(self).tokens == old(self).tokens
                },
            },
    {
        if to == from || to.is_zero() {
            return Err(ContractError::TransferToZeroAddress);
        }
        if (token_id as usize) >= self.tokens.len() {
            return Err(ContractError::TokenNotFound);
        }
        let idx = token_id as usize;
        if self.tokens[idx].owner != from {
            return Err(ContractError::NotOwner);
        }
        if self.tokens[idx].is_active {
            return Err(ContractError::NFTLocked);
        }
        let mut t = self.tokens[idx].copy_record();
        t.owner = to;
        self.tokens.set(idx, t);
        Ok(())
    }

    /// The checks shared by `settle` and `mark_inactive` after the latch and
    /// the pause flag.
    pub open spec fn release_check(&self, caller: Address, token_id: u32) -> Option<ContractError> {
        if !self.authorized(caller) {
            Some(ContractError::NotAuthorized)
        } else if !self.has_token(token_id) {
            Some(ContractError::TokenNotFound)
        } else if !self.token(token_id).is_active {
            Some(ContractError::AlreadySettled)
        } else {
            None
        }
    }

    pub open spec fn mark_inactive_error(&self, caller: Address, token_id: u32) -> Option<ContractError> {
        if self.entry_error().is_some() {
            self.entry_error()
        } else {
            self.release_check(caller, token_id)
        }
    }

    pub open spec fn settle_error(&self, caller: Address, token_id: u32, now: u64) -> Option<ContractError> {
        if self.mark_inactive_error(caller, token_id).is_some() {
            self.mark_inactive_error(caller, token_id)
        } else if now < self.token(token_id).metadata.expires_at {
            Some(ContractError::NotExpired)
        } else {
            None
        }
    }

    /// `tokens` with token `token_id` no longer active.
    pub open spec fn deactivated(&self, token_id: u32) -> Seq<CommitmentNFT> {
        self.tokens@.update(token_id as int, CommitmentNFT { is_active: false, ..self.token(token_id) })
    }

    /// Marks an active token inactive (its commitment was exited early).
    pub fn mark_inactive(&mut self, caller: Address, token_id: u32) -> (r: Result<(), ContractError>)
        requires
            old(self).wf(),
        ensures
            final(self).wf(),
            match r {
                Ok(()) => {
                    &&& old(self).mark_inactive_error(caller, token_id).is_none()
                    &&& final(self).tokens@ == old(self).deactivated(token_id)
                    &&& final(self).guard == old(self).guard
                    &&& final(self).emergency == old(self).emergency
                    &&& final(self).core_contract == old(self).core_contract
                    &&& final(self).minters == old(self).minters
                },
                Err(e) => {
                    &&& old(self).mark_inactive_error(caller, token_id) == Some(e)
                    &&& *final(self) == *old(self)
                },
            },
    {
        if let Err(e) = self.enter() {
            return Err(e);
        }
        let r = self.release_entered(caller, token_id, None);
        self.guard.exit();
        r
    }

    /// Marks an active token settled once its term has ended at `now`.
    pub fn settle(&mut self, caller: Address, token_id: u32, now: u64) -> (r: Result<(), ContractError>)
        requires
            old(self).wf(),
        ensures
            final(self).wf(),
            match r {
                Ok(()) => {
                    &&& old(self).settle_error(caller, token_id, now).is_none()
                    &&& final(self).tokens@ == old(self).deactivated(token_id)
                    &&& final(self).guard == old(self).guard
                    &&& final(self).emergency == old(self).emergency
                    &&& final(self).core_contract == old(self).core_contract
                    &&& final(self).minters == old(self).minters
                },
                Err(e) => {
                    &&& old(self).settle_error(caller, token_id, now) == Some(e)
                    &&& *final(self) == *old(self)
                },
            },
    {
        if let Err(e) = self.enter() {
            return Err(e);
        }
        let r = self.release_entered(caller, token_id, Some(now));
        self.guard.exit();
        r
    }

    /// Deactivates an active token; with `Some(now)`, only once its term has
    /// ended.
    fn release_entered(&mut self, caller: Address, token_id: u32, now: Option<u64>) -> (r: Result<(), ContractError>)
        requires
            old(self).wf(),
        ensures
            final(self).wf(),
            final(self).guard == old(self).guard,
            final(self).emergency == old(self).emergency,
            final(self).core_contract == old(self).core_contract,
            final(self).minters == old(self).minters,
            match r {
                Ok(()) => {
                    &&& old(self).release_check(caller, token_id).is_none()
                    &&& (now.is_some() ==> now->Some_0 >= old(self).token(token_id).metadata.expires_at)
                    &&& final(self).tokens@ == old(self).deactivated(token_id)
                },
                Err(e) => {
                    &&& (old(self).release_check(caller, token_id) == Some(e) || (old(self).release_check(caller, token_id).is_none()
                        && now.is_some() && now->Some_0 < old(self).token(token_id).metadata.expires_at && e == ContractError::NotExpired))
                    &&& final(self).tokens == old(self).tokens
                },
            },
    {
        if !self.is_authorized(caller) {
            return Err(ContractError::NotAuthorized);
        }
        if (token_id as usize) >= self.tokens.len() {
            return Err(ContractError::TokenNotFound);
        }
        let idx = token_id as usize;
        if !self.tokens[idx].is_active {
            return Err(ContractError::AlreadySettled);
        }
        if let Some(t) = now {
            if t < self.tokens[idx].metadata.expires_at {
                return Err(ContractError::NotExpired);
            }
        }
        let mut t = self.tokens[idx].copy_record();
        t.is_active = false;
        self.tokens.set(idx, t);
        Ok(())
    }
}
/// Index of the first token of `s` at or after `j` bound to commitment `id`.
pub open spec fn bound_position(s: Seq<CommitmentNFT>, id: Seq<char>, j: int) -> Option<int>
    decreases s.len() - j,
{
    if j < 0 || j >= s.len() {
        None
    } else if s[j].metadata.commitment_id@ == id {
        Some(j)
    } else {
        bound_position(s, id, j + 1)
    }
}

impl CommitmentNFTContract {
    /// The token bound to commitment `commitment_id`.
    pub fn get_commitment_by_id(&self, commitment_id: &String) -> (r: Result<&CommitmentNFT, ContractError>)
        ensures
            match bound_position(self.tokens@, commitment_id@, 0) {
                Some(i) => r == Ok::<&CommitmentNFT, ContractError>(&self.tokens@[i]),
                None => r == Err::<&CommitmentNFT, ContractError>(ContractError::TokenNotFound),
            },
    {
        let mut i: usize = 0;
        while i < self.tokens.len()
            invariant
                i <= self.tokens@.len(),
                bound_position(self.tokens@, commitment_id@, 0) == bound_position(self.tokens@, commitment_id@, i as int),
            decreases self.tokens@.len() - i,
        {
            if self.tokens[i].metadata.commitment_id == *commitment_id {
                return Ok(&self.tokens[i]);
            }
            i = i + 1;
        }
        Err(ContractError::TokenNotFound)
    }

    /// Every token, in minting order.
    pub fn get_all_metadata(&self) -> (r: Vec<CommitmentNFT>)
        ensures
            r@ == self.tokens@,
    {
        let mut out: Vec<CommitmentNFT> = Vec::new();
        let mut i: usize = 0;
        while i < self.tokens.len()
            invariant
                i <= self.tokens@.len(),
                out@ == self.tokens@.subrange(0, i as int),
            decreases self.tokens@.len() - i,
        {
            out.push(self.tokens[i].copy_record());
            proof {
                assert(out@ =~= self.tokens@.subrange(0, i + 1));
            }
            i = i + 1;
        }
        proof {
            assert(out@ =~= self.tokens@);
        }
        out
    }

    /// Hands the admin role to `new_admin`; admin only.
    pub fn set_admin(&mut self, caller: Address, new_admin: Address) -> (r: Result<(), ContractError>)
        ensures
            r == admin_result(old(self).guard.admin, caller),
            r.is_ok() ==> final(self).guard.admin == Some(new_admin) && final(self).guard.paused == old(self).guard.paused
                && final(self).guard.latched == old(self).guard.latched && final(self).tokens == old(self).tokens
                && final(self).minters == old(self).minters && final(self).core_contract == old(self).core_contract,
            r.is_err() ==> *final(self) == *old(self),
    {
        match self.guard.require_admin(caller) {
            Ok(()) => {
                self.guard.admin = Some(new_admin);
                Ok(())
            },
            Err(d) => Err(map_denied(d)),
        }
    }
}

/// Version of the registry's stored layout.
pub const CURRENT_VERSION: u32 = 1;

impl CommitmentNFTContract {
    /// Turns the emergency switch on or off; admin only.
    pub fn set_emergency_mode(&mut self, caller: Address, enabled: bool) -> (r: Result<(), ContractError>)
        ensures
            r == admin_result(old(self).guard.admin, caller),
            r.is_ok() ==> final(self).emergency == enabled,
            r.is_err() ==> *final(self) == *old(self),
            final(self).guard == old(self).guard,
            final(self).core_contract == old(self).core_contract,
            final(self).minters == old(self).minters,
            final(self).tokens == old(self).tokens,
    {
        match self.guard.require_admin(caller) {
            Ok(()) => {
                self.emergency = enabled;
                Ok(())
            },
            Err(d) => Err(map_denied(d)),
        }
    }

    pub fn get_version(&self) -> (r: u32)
        ensures
            r == CURRENT_VERSION,
    {
        CURRENT_VERSION
    }
}

} // verus!
