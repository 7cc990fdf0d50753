use vstd::prelude::*;
use crate::guard::{admin_check, entry_check, AccessDenied, AccessGuard, AddressSet};
use crate::math::{
    append_decimal, checked_expiration, decimal, digit_char, expiration_spec,
    loss_percent, loss_percent_spec, penalty_amount, penalty_spec, MAX_AMOUNT,
};
use crate::limiter::{Operation, RateLimit, RateLimiter};
use crate::nft::CommitmentNFTContract;
use crate::types::{Address, CommitmentError, CommitmentRules, Status};

verus! {

/// A commitment: `amount` of an asset locked by `owner` under `rules` until
/// `expires_at`.
#[derive(Clone, Debug, PartialEq, Eq)]
pub struct Commitment {
    pub commitment_id: String,
    pub owner: Address,
    pub nft_token_id: u32,
    pub rules: CommitmentRules,
    pub amount: i128,
    pub asset_address: Address,
    pub created_at: u64,
    pub expires_at: u64,
    pub current_value: i128,
    pub status: Status,
}

impl Commitment {
    /// A field-by-field copy.
    pub fn copy_record(&self) -> (r: Commitment)
        ensures
            r == *self,
    {
        Commitment {
            commitment_id: self.commitment_id.clone(),
            owner: self.owner,
            nft_token_id: self.nft_token_id,
            rules: self.rules,
            amount: self.amount,
            asset_address: self.asset_address,
            created_at: self.created_at,
            expires_at: self.expires_at,
            current_value: self.current_value,
            status: self.status,
        }
    }

    /// Bounds every stored commitment keeps.
    pub open spec fn wf(&self) -> bool {
        &&& 0 < self.amount <= MAX_AMOUNT
        &&& 0 <= self.current_value <= MAX_AMOUNT
        &&& rules_valid(self.rules)
        &&& (self.status == Status::Settled || self.status == Status::EarlyExit) ==> self.current_value == 0
    }
}

/// Rules a commitment may be created with.
pub open spec fn rules_valid(r: CommitmentRules) -> bool {
    &&& r.duration_days > 0
    &&& r.max_loss_percent <= 100
    &&& r.early_exit_penalty <= 100
    &&& 0 <= r.min_fee_threshold <= MAX_AMOUNT
}

/// The error that rule validation reports, if any.
pub open spec fn rules_error(r: CommitmentRules) -> Option<CommitmentError> {
    if r.duration_days == 0 {
        Some(CommitmentError::InvalidDuration)
    } else if r.max_loss_percent > 100 || r.early_exit_penalty > 100 {
        Some(CommitmentError::InvalidMaxLossPercent)
    } else if r.min_fee_threshold < 0 || r.min_fee_threshold > MAX_AMOUNT {
        Some(CommitmentError::InvalidAmount)
    } else {
        None
    }
}

/// Whether a commitment in this state still holds funds in custody: it has
/// neither been settled nor exited.
pub open spec fn is_locked(s: Status) -> bool {
    s == Status::Active || s == Status::Violated
}

pub open spec fn locked_value(c: Commitment) -> int {
    if is_locked(c.status) { c.current_value as int } else { 0 }
}

pub open spec fn active_value(c: Commitment) -> int {
    if c.status == Status::Active { c.current_value as int } else { 0 }
}

/// Sum of the current values of the commitments that hold funds.
pub open spec fn locked_sum(s: Seq<Commitment>) -> int
    decreases s.len(),
{
    if s.len() == 0 { 0 } else { locked_sum(s.drop_last()) + locked_value(s.last()) }
}

/// Sum of the current values of the active commitments.
pub open spec fn active_sum(s: Seq<Commitment>) -> int
    decreases s.len(),
{
    if s.len() == 0 { 0 } else { active_sum(s.drop_last()) + active_value(s.last()) }
}

/// Text of the id of the `n`-th commitment created: "c_" and `n` in decimal.
pub open spec fn id_text(n: nat) -> Seq<char> {
    seq!['c', '_'] + decimal(n)
}

/// Index of the first commitment of `s` at or after `start` whose id is `id`.
pub open spec fn position_from(s: Seq<Commitment>, id: Seq<char>, start: int) -> Option<int>
    decreases s.len() - start,
{
    if start < 0 || start >= s.len() {
        None
    } else if s[start].commitment_id@ == id {
        Some(start)
    } else {
        position_from(s, id, start + 1)
    }
}

pub open spec fn position(s: Seq<Commitment>, id: Seq<char>) -> Option<int> {
    position_from(s, id, 0)
}

/// Ids of the commitments of `owner` that still hold funds, oldest first.
pub open spec fn owner_ids(s: Seq<Commitment>, owner: Address) -> Seq<Seq<char>>
    decreases s.len(),
{
    if s.len() == 0 {
        Seq::empty()
    } else if s.last().owner == owner && is_locked(s.last().status) {
        owner_ids(s.drop_last(), owner).push(s.last().commitment_id@)
    } else {
        owner_ids(s.drop_last(), owner)
    }
}

proof fn lemma_locked_sum_update(s: Seq<Commitment>, i: int, c: Commitment)
    requires
        0 <= i < s.len(),
    ensures
        locked_sum(s.update(i, c)) == locked_sum(s) - locked_value(s[i]) + locked_value(c),
    decreases s.len(),
{
    if i == s.len() - 1 {
        assert(s.update(i, c).drop_last() =~= s.drop_last());
    } else {
        lemma_locked_sum_update(s.drop_last(), i, c);
        assert(s.update(i, c).drop_last() =~= s.drop_last().update(i, c));
    }
}

proof fn lemma_locked_sum_bounds(s: Seq<Commitment>, i: int)
    requires
        0 <= i < s.len(),
        forall|j: int| 0 <= j < s.len() ==> (#[trigger] s[j]).current_value >= 0,
    ensures
        locked_sum(s) >= locked_value(s[i]) >= 0,
    decreases s.len(),
{
    lemma_locked_sum_nonneg(s.drop_last());
    if i < s.len() - 1 {
        lemma_locked_sum_bounds(s.drop_last(), i);
    }
}

proof fn lemma_locked_sum_nonneg(s: Seq<Commitment>)
    requires
        forall|j: int| 0 <= j < s.len() ==> (#[trigger] s[j]).current_value >= 0,
    ensures
        locked_sum(s) >= 0,
    decreases s.len(),
{
    if s.len() > 0 {
        lemma_locked_sum_nonneg(s.drop_last());
    }
}

proof fn lemma_decimal_nonempty(n: nat)
    ensures
        decimal(n).len() >= 1,
    decreases n,
{
    if n >= 10 {
        lemma_decimal_nonempty(n / 10);
    }
}

proof fn lemma_decimal_injective(n: nat, m: nat)
    requires
        decimal(n) == decimal(m),
    ensures
        n == m,
    decreases n,
{
    if n < 10 && m < 10 {
        assert(decimal(n)[0] == digit_char(n as int));
        assert(decimal(m)[0] == digit_char(m as int));
    } else if n < 10 {
        lemma_decimal_nonempty(m / 10);
        assert(decimal(m).len() >= 2);
    } else if m < 10 {
        lemma_decimal_nonempty(n / 10);
        assert(decimal(n).len() >= 2);
    } else {
        let dn = decimal(n);
        assert(dn.last() == digit_char((n % 10) as int));
        assert(decimal(m).last() == digit_char((m % 10) as int));
        assert(dn.drop_last() =~= decimal(n / 10));
        assert(decimal(m).drop_last() =~= decimal(m / 10));
        lemma_decimal_injective(n / 10, m / 10);
    }
}

proof fn lemma_id_text_injective(n: nat, m: nat)
    requires
        id_text(n) == id_text(m),
    ensures
        n == m,
{
    assert(id_text(n).subrange(2, id_text(n).len() as int) =~= decimal(n));
    assert(id_text(m).subrange(2, id_text(m).len() as int) =~= decimal(m));
    lemma_decimal_injective(n, m);
}

pub open spec fn denied_error(d: AccessDenied) -> CommitmentError {
    match d {
        AccessDenied::NotInitialized => CommitmentError::NotInitialized,
        AccessDenied::Unauthorized => CommitmentError::Unauthorized,
        AccessDenied::Paused => CommitmentError::ContractPaused,
        AccessDenied::Reentrant => CommitmentError::ReentrancyDetected,
    }
}

fn map_denied(d: AccessDenied) -> (r: CommitmentError)
    ensures
        r == denied_error(d),
{
    match d {
        AccessDenied::NotInitialized => CommitmentError::NotInitialized,
        AccessDenied::Unauthorized => CommitmentError::Unauthorized,
        AccessDenied::Paused => CommitmentError::ContractPaused,
        AccessDenied::Reentrant => CommitmentError::ReentrancyDetected,
    }
}

/// Generates the id of the commitment created when `counter` commitments exist.
pub fn generate_commitment_id(counter: u64) -> (r: String)
    ensures
        r@ == id_text(counter as nat),
{
    proof {
        reveal_strlit("c_");
    }
    let mut s = String::from_str("c_");
    append_decimal(&mut s, counter);
    s
}

/// The commitment ledger: records, counters, the authorized-updater set, the
/// rate limiter and the guard. Commitment `i` is stored at index `i`.
#[derive(Clone, Debug)]
pub struct CommitmentCoreContract {
    pub guard: AccessGuard,
    pub self_address: Address,
    pub nft_contract: Option<Address>,
    pub allocation_contract: Option<Address>,
    pub updaters: AddressSet,
    pub limiter: RateLimiter,
    pub commitments: Vec<Commitment>,
    pub total_commitments: u64,
    pub total_value_locked: i128,
}

impl CommitmentCoreContract {
    pub open spec fn wf(&self) -> bool {
        &&& self.total_commitments == self.commitments@.len()
        &&& forall|i: int| 0 <= i < self.commitments@.len() ==> (#[trigger] self.commitments@[i]).wf()
        &&& forall|i: int| 0 <= i < self.commitments@.len() ==> (#[trigger] self.commitments@[i]).commitment_id@ == id_text(i as nat)
        &&& self.total_value_locked == locked_sum(self.commitments@)
        &&& self.nft_contract.is_none() <==> self.guard.admin.is_none()
        &&& self.guard.admin.is_none() ==> self.commitments@.len() == 0 && !self.guard.paused
    }

    /// Every part of the state but the records, the total value locked and
    /// the rate limiter.
    pub open spec fn same_settings(&self, other: &CommitmentCoreContract) -> bool {
        &&& self.guard == other.guard
        &&& self.self_address == other.self_address
        &&& self.nft_contract == other.nft_contract
        &&& self.allocation_contract == other.allocation_contract
        &&& self.updaters == other.updaters
        &&& self.total_commitments == other.total_commitments
    }

    pub open spec fn find(&self, id: Seq<char>) -> Option<int> {
        position(self.commitments@, id)
    }

    pub open spec fn record(&self, i: int) -> Commitment {
        self.commitments@[i]
    }

    /// A ledger for the contract at `self_address`, not yet initialized.
    pub fn new(self_address: Address) -> (r: CommitmentCoreContract)
        ensures
            r.wf(),
            r.self_address == self_address,
            r.guard.admin.is_none(),
            !r.guard.paused,
            !r.guard.latched,
            r.nft_contract.is_none(),
            r.allocation_contract.is_none(),
            forall|a: Address| !r.updaters.contains(a),
            r.commitments@.len() == 0,
            r.total_value_locked == 0,
    {
        CommitmentCoreContract {
            guard: AccessGuard::new(),
            self_address,
            nft_contract: None,
            allocation_contract: None,
            updaters: AddressSet::new(),
            limiter: RateLimiter::new(),
            commitments: Vec::new(),
            total_commitments: 0,
            total_value_locked: 0,
        }
    }

    /// Stores the admin and the position-token registry, once; the ledger
    /// starts with no commitment, nothing locked and unpaused.
    pub fn initialize(&mut self, admin: Address, nft_contract: Address) -> (r: Result<(), CommitmentError>)
        requires
            old(self).wf(),
        ensures
            final(self).wf(),
            r == if old(self).guard.admin.is_some() { Err(CommitmentError::AlreadyInitialized) } else { Ok(()) },
            r.is_ok() ==> final(self).guard.admin == Some(admin) && final(self).nft_contract == Some(nft_contract)
                && !final(self).guard.paused && final(self).guard.latched == old(self).guard.latched
                && final(self).commitments@.len() == 0 && final(self).total_commitments == 0
                && final(self).total_value_locked == 0 && final(self).updaters == old(self).updaters
                && final(self).allocation_contract == old(self).allocation_contract && final(self).self_address == old(self).self_address,
            r.is_err() ==> *final(self) == *old(self),
    {
        if self.guard.admin.is_some() {
            return Err(CommitmentError::AlreadyInitialized);
        }
        self.guard.admin = Some(admin);
        self.nft_contract = Some(nft_contract);
        self.total_commitments = 0;
        self.total_value_locked = 0;
        self.guard.paused = false;
        Ok(())
    }

    pub fn pause(&mut self, caller: Address) -> (r: Result<(), CommitmentError>)
        requires
            old(self).wf(),
        ensures
            final(self).wf(),
            r == match admin_check(old(self).guard.admin, caller) {
                Ok(()) => Ok(()),
                Err(d) => Err(denied_error(d)),
            },
            r.is_ok() ==> final(self).guard.paused,
            r.is_err() ==> *final(self) == *old(self),
            final(self).guard.admin == old(self).guard.admin,
            final(self).guard.latched == old(self).guard.latched,
            final(self).commitments == old(self).commitments,
            final(self).total_value_locked == old(self).total_value_locked,
            final(self).total_commitments == old(self).total_commitments,
    {
        match self.guard.set_paused(caller, true) {
            Ok(()) => Ok(()),
            Err(d) => Err(map_denied(d)),
        }
    }

    pub fn unpause(&mut self, caller: Address) -> (r: Result<(), CommitmentError>)
        requires
            old(self).wf(),
        ensures
            final(self).wf(),
            r == match admin_check(old(self).guard.admin, caller) {
                Ok(()) => Ok(()),
                Err(d) => Err(denied_error(d)),
            },
            r.is_ok() ==> !final(self).guard.paused,
            r.is_err() ==> *final(self) == *old(self),
            final(self).guard.admin == old(self).guard.admin,
            final(self).guard.latched == old(self).guard.latched,
            final(self).commitments == old(self).commitments,
            final(self).total_value_locked == old(self).total_value_locked,
            final(self).total_commitments == old(self).total_commitments,
    {
        match self.guard.set_paused(caller, false) {
            Ok(()) => Ok(()),
            Err(d) => Err(map_denied(d)),
        }
    }

    pub fn is_paused(&self) -> (r: bool)
        ensures
            r == self.guard.paused,
    {
        self.guard.paused
    }
}

proof fn lemma_position_of_id(s: Seq<Commitment>, k: int, j: int)
    requires
        0 <= j <= k < s.len(),
        forall|i: int| 0 <= i < s.len() ==> (#[trigger] s[i]).commitment_id@ == id_text(i as nat),
    ensures
        position_from(s, id_text(k as nat), j) == Some(k),
    decreases k - j,
{
    if j < k {
        if s[j].commitment_id@ == id_text(k as nat) {
            lemma_id_text_injective(j as nat, k as nat);
        }
        lemma_position_of_id(s, k, j + 1);
    }
}

fn validate_rules(rules: &CommitmentRules) -> (r: Result<(), CommitmentError>)
    ensures
        match r {
            Ok(()) => rules_error(*rules).is_none(),
            Err(e) => rules_error(*rules) == Some(e),
        },
{
    if rules.duration_days == 0 {
        return Err(CommitmentError::InvalidDuration);
    }
    if rules.max_loss_percent > 100 || rules.early_exit_penalty > 100 {
        return Err(CommitmentError::InvalidMaxLossPercent);
    }
    if rules.min_fee_threshold < 0 || rules.min_fee_threshold > MAX_AMOUNT {
        return Err(CommitmentError::InvalidAmount);
    }
    Ok(())
}

impl CommitmentCoreContract {
    /// Index of the commitment whose id is `id`.
    pub fn find_index(&self, id: &String) -> (r: Option<usize>)
        ensures
            match r {
                Some(i) => self.find(id@) == Some(i as int) && i < self.commitments@.len(),
                None => self.find(id@).is_none(),
            },
    {
        let mut i: usize = 0;
        while i < self.commitments.len()
            invariant
                i <= self.commitments@.len(),
                position_from(self.commitments@, id@, 0) == position_from(self.commitments@, id@, i as int),
            decreases self.commitments@.len() - i,
        {
            if self.commitments[i].commitment_id == *id {
                return Some(i);
            }
            i = i + 1;
        }
        None
    }

    /// The commitment whose id is `id`.
    pub fn get_commitment(&self, id: &String) -> (r: Result<&Commitment, CommitmentError>)
        ensures
            match self.find(id@) {
                Some(i) => r == Ok::<&Commitment, CommitmentError>(&self.record(i)),
                None => r == Err::<&Commitment, CommitmentError>(CommitmentError::CommitmentNotFound),
            },
    {
        match self.find_index(id) {
            Some(i) => Ok(&self.commitments[i]),
            None => Err(CommitmentError::CommitmentNotFound),
        }
    }

    /// Ids of the commitments of `owner` that still hold funds, oldest first.
    pub fn get_owner_commitments(&self, owner: Address) -> (r: Vec<String>)
        ensures
            r@.map_values(|s: String| s@) == owner_ids(self.commitments@, owner),
    {
        let mut out: Vec<String> = Vec::new();
        let mut i: usize = 0;
        while i < self.commitments.len()
            invariant
                i <= self.commitments@.len(),
                out@.map_values(|s: String| s@) == owner_ids(self.commitments@.subrange(0, i as int), owner),
            decreases self.commitments@.len() - i,
        {
            proof {
                assert(self.commitments@.subrange(0, i + 1).drop_last() =~= self.commitments@.subrange(0, i as int));
            }
            let c = &self.commitments[i];
            if c.owner == owner && (c.status == Status::Active || c.status == Status::Violated) {
                let ghost before = out@;
                out.push(c.commitment_id.clone());
                proof {
                    assert(out@.map_values(|s: String| s@) =~= before.map_values(|s: String| s@).push(c.commitment_id@));
                }
            }
            i = i + 1;
        }
        proof {
            assert(self.commitments@.subrange(0, i as int) =~= self.commitments@);
        }
        out
    }

    pub fn get_total_commitments(&self) -> (r: u64)
        ensures
            r == self.total_commitments,
    {
        self.total_commitments
    }

    /// Total current value of the commitments that hold funds.
    pub fn get_total_value_locked(&self) -> (r: i128)
        ensures
            r == self.total_value_locked,
    {
        self.total_value_locked
    }

    pub fn get_admin(&self) -> (r: Result<Address, CommitmentError>)
        ensures
            r == match self.guard.admin {
                Some(a) => Ok(a),
                None => Err(CommitmentError::NotInitialized),
            },
    {
        match self.guard.admin {
            Some(a) => Ok(a),
            None => Err(CommitmentError::NotInitialized),
        }
    }

    pub fn get_nft_contract(&self) -> (r: Result<Address, CommitmentError>)
        ensures
            r == match self.nft_contract {
                Some(a) => Ok(a),
                None => Err(CommitmentError::NotInitialized),
            },
    {
        match self.nft_contract {
            Some(a) => Ok(a),
            None => Err(CommitmentError::NotInitialized),
        }
    }

    pub fn get_allocation_contract(&self) -> (r: Option<Address>)
        ensures
            r == self.allocation_contract,
    {
        self.allocation_contract
    }

    /// Names the allocation contract, which may update values; admin only.
    pub fn set_allocation_contract(&mut self, caller: Address, allocation_contract: Address) -> (r: Result<(), CommitmentError>)
        requires
            old(self).wf(),
        ensures
            final(self).wf(),
            r == match admin_check(old(self).guard.admin, caller) {
                Ok(()) => Ok(()),
                Err(d) => Err(denied_error(d)),
            },
            r.is_ok() ==> final(self).allocation_contract == Some(allocation_contract),
            r.is_err() ==> *final(self) == *old(self),
            final(self).guard == old(self).guard,
            final(self).updaters == old(self).updaters,
            final(self).nft_contract == old(self).nft_contract,
            final(self).commitments == old(self).commitments,
            final(self).total_value_locked == old(self).total_value_locked,
            final(self).total_commitments == old(self).total_commitments,
    {
        match self.guard.require_admin(caller) {
            Ok(()) => {
                self.allocation_contract = Some(allocation_contract);
                Ok(())
            },
            Err(d) => Err(map_denied(d)),
        }
    }

    /// Adds `updater` to the authorized updaters; admin only.
    pub fn add_updater(&mut self, caller: Address, updater: Address) -> (r: Result<(), CommitmentError>)
        requires
            old(self).wf(),
        ensures
            final(self).wf(),
            r == match admin_check(old(self).guard.admin, caller) {
                Ok(()) => Ok(()),
                Err(d) => Err(denied_error(d)),
            },
            r.is_ok() ==> final(self).updaters.items@ == if old(self).updaters.contains(updater) {
                old(self).updaters.items@
            } else {
                old(self).updaters.items@.push(updater)
            },
            r.is_ok() ==> final(self).updaters.contains(updater)
                && forall|a: Address| a != updater ==> (final(self).updaters.contains(a) <==> old(self).updaters.contains(a)),
            r.is_err() ==> *final(self) == *old(self),
            final(self).guard == old(self).guard,
            final(self).allocation_contract == old(self).allocation_contract,
            final(self).nft_contract == old(self).nft_contract,
            final(self).commitments == old(self).commitments,
            final(self).total_value_locked == old(self).total_value_locked,
            final(self).total_commitments == old(self).total_commitments,
    {
        match self.guard.require_admin(caller) {
            Ok(()) => {
                self.updaters.insert(updater);
                Ok(())
            },
            Err(d) => Err(map_denied(d)),
        }
    }

    /// Removes `updater` from the authorized updaters; admin only.
    pub fn remove_updater(&mut self, caller: Address, updater: Address) -> (r: Result<(), CommitmentError>)
        requires
            old(self).wf(),
        ensures
            final(self).wf(),
            r == match admin_check(old(self).guard.admin, caller) {
                Ok(()) => Ok(()),
                Err(d) => Err(denied_error(d)),
            },
            r.is_ok() ==> !final(self).updaters.contains(updater)
                && forall|a: Address| a != updater ==> (final(self).updaters.contains(a) <==> old(self).updaters.contains(a)),
            r.is_err() ==> *final(self) == *old(self),
            final(self).guard == old(self).guard,
            final(self).allocation_contract == old(self).allocation_contract,
            final(self).nft_contract == old(self).nft_contract,
            final(self).commitments == old(self).commitments,
            final(self).total_value_locked == old(self).total_value_locked,
            final(self).total_commitments == old(self).total_commitments,
    {
        match self.guard.require_admin(caller) {
            Ok(()) => {
                self.updaters.remove(updater);
                Ok(())
            },
            Err(d) => Err(map_denied(d)),
        }
    }

    /// Sets the call budget of `op`; admin only.
    pub fn set_rate_limit(&mut self, caller: Address, op: Operation, window_seconds: u64, max_calls: u32) -> (r: Result<(), CommitmentError>)
        requires
            old(self).wf(),
        ensures
            final(self).wf(),
            r == match admin_check(old(self).guard.admin, caller) {
                Ok(()) => Ok(()),
                Err(d) => Err(denied_error(d)),
            },
            r.is_ok() ==> final(self).limiter.limit_of(op) == Some(RateLimit { window_seconds, max_calls })
                && (forall|o: Operation| o != op ==> final(self).limiter.limit_of(o) == old(self).limiter.limit_of(o))
                && final(self).limiter.exempt == old(self).limiter.exempt && final(self).limiter.usage == old(self).limiter.usage,
            r.is_err() ==> *final(self) == *old(self),
            final(self).same_settings(old(self)),
            final(self).commitments == old(self).commitments,
            final(self).total_value_locked == old(self).total_value_locked,
    {
        match self.guard.require_admin(caller) {
            Ok(()) => {
                self.limiter.set_limit(op, RateLimit { window_seconds, max_calls });
                Ok(())
            },
            Err(d) => Err(map_denied(d)),
        }
    }

    /// Exempts `address` from the call budgets, or ends its exemption; admin only.
    pub fn set_rate_limit_exempt(&mut self, caller: Address, address: Address, exempt: bool) -> (r: Result<(), CommitmentError>)
        requires
            old(self).wf(),
        ensures
            final(self).wf(),
            r == match admin_check(old(self).guard.admin, caller) {
                Ok(()) => Ok(()),
                Err(d) => Err(denied_error(d)),
            },
            r.is_ok() ==> final(self).limiter.exempt.contains(address) == exempt
                && (forall|a: Address| a != address ==> (final(self).limiter.exempt.contains(a) <==> old(self).limiter.exempt.contains(a)))
                && final(self).limiter.usage == old(self).limiter.usage,
            r.is_err() ==> *final(self) == *old(self),
            final(self).same_settings(old(self)),
            final(self).commitments == old(self).commitments,
            final(self).total_value_locked == old(self).total_value_locked,
    {
        match self.guard.require_admin(caller) {
            Ok(()) => {
                self.limiter.set_exempt(address, exempt);
                Ok(())
            },
            Err(d) => Err(map_denied(d)),
        }
    }

    pub fn get_authorized_updaters(&self) -> (r: Vec<Address>)
        ensures
            r@ == self.updaters.items@,
    {
        self.updaters.to_vec()
    }
}

impl CommitmentCoreContract {
    /// The checks of `create_commitment` after the latch and the pause flag,
    /// in the order they are made.
    pub open spec fn create_check(
        &self,
        nft: &CommitmentNFTContract,
        owner: Address,
        amount: i128,
        rules: CommitmentRules,
        owner_balance: i128,
        now: u64,
    ) -> Option<CommitmentError> {
        if owner == Address::zero_spec() {
            Some(CommitmentError::ZeroAddress)
        } else if !self.limiter.allows(owner, Operation::Create, now) {
            Some(CommitmentError::RateLimitExceeded)
        } else if amount <= 0 || amount > MAX_AMOUNT {
            Some(CommitmentError::InvalidAmount)
        } else if rules_error(rules).is_some() {
            rules_error(rules)
        } else if owner_balance < amount {
            Some(CommitmentError::InsufficientBalance)
        } else if expiration_spec(now as int, rules.duration_days as int).is_none() {
            Some(CommitmentError::ExpirationOverflow)
        } else if self.nft_contract.is_none() {
            Some(CommitmentError::NotInitialized)
        } else if self.total_commitments == u64::MAX {
            Some(CommitmentError::InvalidStatus)
        } else if self.total_value_locked + amount > i128::MAX {
            Some(CommitmentError::InvalidAmount)
        } else if nft.mint_error(self.self_address, rules.duration_days, rules.max_loss_percent, amount, now).is_some() {
            Some(CommitmentError::MintingFailed)
        } else {
            None
        }
    }

    /// The error `create_commitment` returns, if any.
    pub open spec fn create_error(
        &self,
        nft: &CommitmentNFTContract,
        owner: Address,
        amount: i128,
        rules: CommitmentRules,
        owner_balance: i128,
        now: u64,
    ) -> Option<CommitmentError> {
        if entry_check(self.guard.latched, self.guard.paused).is_err() {
            Some(denied_error(entry_check(self.guard.latched, self.guard.paused)->Err_0))
        } else {
            self.create_check(nft, owner, amount, rules, owner_balance, now)
        }
    }

    /// Whether `c` is the record `create_commitment` stores as the `n`-th
    /// commitment, bound to token `token_id`.
    pub open spec fn is_created(
        c: Commitment,
        n: nat,
        owner: Address,
        amount: i128,
        asset_address: Address,
        rules: CommitmentRules,
        now: u64,
        token_id: u32,
    ) -> bool {
        &&& c.commitment_id@ == id_text(n)
        &&& c.owner == owner
        &&& c.nft_token_id == token_id
        &&& c.rules == rules
        &&& c.amount == amount
        &&& c.asset_address == asset_address
        &&& c.created_at == now
        &&& Some(c.expires_at) == expiration_spec(now as int, rules.duration_days as int)
        &&& c.current_value == amount
        &&& c.status == Status::Active
    }

    /// Locks `amount` of `asset_address` from `owner` under `rules` and mints
    /// the bound position token. `owner_balance` is the owner's balance of
    /// the asset and `now` the ledger time. On success the caller moves
    /// `amount` from the owner into custody.
    pub fn create_commitment(
        &mut self,
        nft: &mut CommitmentNFTContract,
        owner: Address,
        amount: i128,
        asset_address: Address,
        rules: CommitmentRules,
        owner_balance: i128,
        now: u64,
    ) -> (r: Result<String, CommitmentError>)
        requires
            old(self).wf(),
            old(nft).wf(),
        ensures
            final(self).wf(),
            final(nft).wf(),
            match r {
                Ok(id) => {
                    &&& old(self).create_error(old(nft), owner, amount, rules, owner_balance, now).is_none()
                    &&& id@ == id_text(old(self).total_commitments as nat)
                    &&& final(self).commitments@.len() == old(self).commitments@.len() + 1
                    &&& final(self).commitments@.drop_last() == old(self).commitments@
                    &&& Self::is_created(final(self).commitments@.last(), old(self).total_commitments as nat, owner,
                        amount, asset_address, rules, now, old(nft).tokens@.len() as u32)
                    &&& final(self).total_commitments == old(self).total_commitments + 1
                    &&& final(self).total_value_locked == old(self).total_value_locked + amount
                    &&& final(self).limiter.usage@ == old(self).limiter.counted(owner, Operation::Create, now)
                    &&& final(self).limiter.same_rules(&old(self).limiter)
                    &&& final(self).guard == old(self).guard
                    &&& final(self).nft_contract == old(self).nft_contract
                    &&& final(self).allocation_contract == old(self).allocation_contract
                    &&& final(self).updaters == old(self).updaters
                    &&& final(self).self_address == old(self).self_address
                    &&& final(nft).tokens@.last().metadata.commitment_id@ == id@
                    &&& final(nft).tokens@ == old(nft).tokens@.push(old(nft).minted(owner,
                        final(nft).tokens@.last().metadata.commitment_id, rules.duration_days, rules.max_loss_percent,
                        rules.commitment_type, amount, asset_address, rules.early_exit_penalty, now))
                    &&& final(nft).guard == old(nft).guard
                    &&& final(nft).emergency == old(nft).emergency
                    &&& final(nft).core_contract == old(nft).core_contract
                    &&& final(nft).minters == old(nft).minters
                },
                Err(e) => {
                    &&& old(self).create_error(old(nft), owner, amount, rules, owner_balance, now) == Some(e)
                    &&& *final(self) == *old(self)
                    &&& *final(nft) == *old(nft)
                },
            },
    {
        if let Err(d) = self.guard.enter() {
            return Err(map_denied(d));
        }
        let r = self.create_entered(nft, owner, amount, asset_address, rules, owner_balance, now);
        self.guard.exit();
        r
    }

    fn create_entered(
        &mut self,
        nft: &mut CommitmentNFTContract,
        owner: Address,
        amount: i128,
        asset_address: Address,
        rules: CommitmentRules,
        owner_balance: i128,
        now: u64,
    ) -> (r: Result<String, CommitmentError>)
        requires
            old(self).wf(),
            old(nft).wf(),
        ensures
            final(self).wf(),
            final(nft).wf(),
            final(self).guard == old(self).guard,
            final(self).nft_contract == old(self).nft_contract,
            final(self).allocation_contract == old(self).allocation_contract,
            final(self).updaters == old(self).updaters,
            final(self).self_address == old(self).self_address,
            match r {
                Ok(id) => {
                    &&& old(self).create_check(old(nft), owner, amount, rules, owner_balance, now).is_none()
                    &&& id@ == id_text(old(self).total_commitments as nat)
                    &&& final(self).commitments@.len() == old(self).commitments@.len() + 1
                    &&& final(self).commitments@.drop_last() == old(self).commitments@
                    &&& Self::is_created(final(self).commitments@.last(), old(self).total_commitments as nat, owner,
                        amount, asset_address, rules, now, old(nft).tokens@.len() as u32)
                    &&& final(self).total_commitments == old(self).total_commitments + 1
                    &&& final(self).total_value_locked == old(self).total_value_locked + amount
                    &&& final(self).limiter.usage@ == old(self).limiter.counted(owner, Operation::Create, now)
                    &&& final(self).limiter.same_rules(&old(self).limiter)
                    &&& final(nft).tokens@.last().metadata.commitment_id@ == id@
                    &&& final(nft).tokens@ == old(nft).tokens@.push(old(nft).minted(owner,
                        final(nft).tokens@.last().metadata.commitment_id, rules.duration_days, rules.max_loss_percent,
                        rules.commitment_type, amount, asset_address, rules.early_exit_penalty, now))
                    &&& final(nft).guard == old(nft).guard
                    &&& final(nft).emergency == old(nft).emergency
                    &&& final(nft).core_contract == old(nft).core_contract
                    &&& final(nft).minters == old(nft).minters
                },
                Err(e) => {
                    &&& old(self).create_check(old(nft), owner, amount, rules, owner_balance, now) == Some(e)
                    &&& *final(self) == *old(self)
                    &&& *final(nft) == *old(nft)
                },
            },
    {
        if owner.is_zero() {
            return Err(CommitmentError::ZeroAddress);
        }
        if !self.limiter.check(owner, Operation::Create, now) {
            return Err(CommitmentError::RateLimitExceeded);
        }
        if amount <= 0 || amount > MAX_AMOUNT {
            return Err(CommitmentError::InvalidAmount);
        }
        if let Err(e) = validate_rules(&rules) {
            return Err(e);
        }
        if owner_balance < amount {
            return Err(CommitmentError::InsufficientBalance);
        }
        let expires_at = match checked_expiration(now, rules.duration_days) {
            Some(t) => t,
            None => {
                return Err(CommitmentError::ExpirationOverflow);
            },
        };
        if self.nft_contract.is_none() {
            return Err(CommitmentError::NotInitialized);
        }
        if self.total_commitments == u64::MAX {
            return Err(CommitmentError::InvalidStatus);
        }
        if self.total_value_locked > i128::MAX - amount {
            return Err(CommitmentError::InvalidAmount);
        }
        let commitment_id = generate_commitment_id(self.total_commitments);
        let token_id = match nft.mint(
            self.self_address,
            owner,
            commitment_id.clone(),
            rules.duration_days,
            rules.max_loss_percent,
            rules.commitment_type,
            amount,
            asset_address,
            rules.early_exit_penalty,
            now,
        ) {
            Ok(t) => t,
            Err(_) => {
                return Err(CommitmentError::MintingFailed);
            },
        };
        let commitment = Commitment {
            commitment_id: commitment_id.clone(),
            owner,
            nft_token_id: token_id,
            rules,
            amount,
            asset_address,
            created_at: now,
            expires_at,
            current_value: amount,
            status: Status::Active,
        };
        let ghost before = self.commitments@;
        self.commitments.push(commitment);
        proof {
            assert(self.commitments@.drop_last() =~= before);
            assert forall|i: int| 0 <= i < self.commitments@.len() implies
                (#[trigger] self.commitments@[i]).commitment_id@ == id_text(i as nat) by {
                if i < before.len() {
                    assert(self.commitments@[i] == before[i]);
                }
            }
            assert forall|i: int| 0 <= i < self.commitments@.len() implies (#[trigger] self.commitments@[i]).wf() by {
                if i < before.len() {
                    assert(self.commitments@[i] == before[i]);
                }
            }
        }
        self.total_commitments = self.total_commitments + 1;
        self.total_value_locked = self.total_value_locked + amount;
        self.limiter.record(owner, Operation::Create, now);
        Ok(commitment_id)
    }
}

/// The record after a value update to `new_value`: it becomes `Violated`
/// when the loss exceeds the rule's maximum, strictly.
pub open spec fn revalued(c: Commitment, new_value: i128) -> Commitment {
    Commitment {
        current_value: new_value,
        status: if loss_percent_spec(c.amount as int, new_value as int) > c.rules.max_loss_percent {
            Status::Violated
        } else {
            Status::Active
        },
        ..c
    }
}

/// The record once its funds are released with final status `status`.
pub open spec fn released(c: Commitment, status: Status) -> Commitment {
    Commitment { current_value: 0, status, ..c }
}

/// Whether an active commitment breaks its rules at `now`: its loss exceeds
/// the maximum, or its term has ended.
pub open spec fn violated_at(c: Commitment, now: u64) -> bool {
    c.status == Status::Active && (loss_percent_spec(c.amount as int, c.current_value as int)
        > c.rules.max_loss_percent || now >= c.expires_at)
}

/// `(has_violation, loss_violated, duration_violated, loss_percent, time_remaining)`.
pub open spec fn violation_details(c: Commitment, now: u64) -> (bool, bool, bool, i128, u64) {
    let loss = loss_percent_spec(c.amount as int, c.current_value as int);
    let lv = loss > c.rules.max_loss_percent;
    let dv = now >= c.expires_at;
    (lv || dv, lv, dv, loss as i128, if now < c.expires_at { (c.expires_at - now) as u64 } else { 0 })
}

impl CommitmentCoreContract {
    pub open spec fn authorized_updater(&self, caller: Address) -> bool {
        self.guard.admin == Some(caller) || self.allocation_contract == Some(caller) || self.updaters.contains(caller)
    }

    /// `wf` is kept when record `i` is replaced by `c` and the total value
    /// locked moves by the change in locked value.
    proof fn lemma_store(&self, i: int, c: Commitment)
        requires
            self.wf(),
            0 <= i < self.commitments@.len(),
            c.wf(),
            c.commitment_id@ == self.commitments@[i].commitment_id@,
        ensures
            locked_sum(self.commitments@.update(i, c)) == self.total_value_locked - locked_value(self.commitments@[i])
                + locked_value(c),
            self.total_value_locked - locked_value(self.commitments@[i]) >= 0,
            forall|j: int| 0 <= j < self.commitments@.len() ==> (#[trigger] self.commitments@.update(i, c)[j]).wf(),
            forall|j: int| 0 <= j < self.commitments@.len() ==>
                (#[trigger] self.commitments@.update(i, c)[j]).commitment_id@ == id_text(j as nat),
    {
        lemma_locked_sum_update(self.commitments@, i, c);
        assert forall|j: int| 0 <= j < self.commitments@.len() implies (#[trigger] self.commitments@[j]).current_value >= 0 by {
            assert(self.commitments@[j].wf());
        }
        let upd = self.commitments@.update(i, Commitment { current_value: 0, ..self.commitments@[i] });
        lemma_locked_sum_update(self.commitments@, i, Commitment { current_value: 0, ..self.commitments@[i] });
        assert forall|j: int| 0 <= j < upd.len() implies (#[trigger] upd[j]).current_value >= 0 by {
            if j != i {
                assert(upd[j] == self.commitments@[j]);
            }
        }
        lemma_locked_sum_nonneg(upd);
    }

    /// The checks of `update_value` after the latch and the pause flag.
    pub open spec fn update_check(&self, caller: Address, id: Seq<char>, new_value: i128, now: u64) -> Option<CommitmentError> {
        if self.guard.admin.is_none() {
            Some(CommitmentError::NotInitialized)
        } else if !self.authorized_updater(caller) {
            Some(CommitmentError::Unauthorized)
        } else if !self.limiter.allows(self.self_address, Operation::UpdateValue, now) {
            Some(CommitmentError::RateLimitExceeded)
        } else if new_value < 0 || new_value > MAX_AMOUNT {
            Some(CommitmentError::InvalidAmount)
        } else if self.find(id).is_none() {
            Some(CommitmentError::CommitmentNotFound)
        } else if self.record(self.find(id)->Some_0).status != Status::Active {
            Some(CommitmentError::NotActive)
        } else if self.total_value_locked - self.record(self.find(id)->Some_0).current_value + new_value > i128::MAX {
            Some(CommitmentError::InvalidAmount)
        } else {
            None
        }
    }

    pub open spec fn update_error(&self, caller: Address, id: Seq<char>, new_value: i128, now: u64) -> Option<CommitmentError> {
        if entry_check(self.guard.latched, self.guard.paused).is_err() {
            Some(denied_error(entry_check(self.guard.latched, self.guard.paused)->Err_0))
        } else {
            self.update_check(caller, id, new_value, now)
        }
    }

    /// Records a new value of commitment `id`, reported by the admin, the
    /// allocation contract or an authorized updater. Returns whether the
    /// commitment became `Violated`.
    pub fn update_value(&mut self, caller: Address, id: &String, new_value: i128, now: u64) -> (r: Result<bool, CommitmentError>)
        requires
            old(self).wf(),
        ensures
            final(self).wf(),
            match r {
                Ok(violated) => {
                    let i = old(self).find(id@)->Some_0;
                    let c = old(self).record(i);
                    &&& old(self).update_error(caller, id@, new_value, now).is_none()
                    &&& final(self).commitments@ == old(self).commitments@.update(i, revalued(c, new_value))
                    &&& violated == (revalued(c, new_value).status == Status::Violated)
                    &&& final(self).total_value_locked == old(self).total_value_locked - c.current_value + new_value
                    &&& final(self).same_settings(old(self))
                    &&& final(self).limiter.usage@ == old(self).limiter.counted(old(self).self_address, Operation::UpdateValue, now)
                    &&& final(self).limiter.same_rules(&old(self).limiter)
                },
                Err(e) => {
                    &&& old(self).update_error(caller, id@, new_value, now) == Some(e)
                    &&& *final(self) == *old(self)
                },
            },
    {
        if let Err(d) = self.guard.enter() {
            return Err(map_denied(d));
        }
        let r = self.update_entered(caller, id, new_value, now);
        self.guard.exit();
        r
    }

    fn update_entered(&mut self, caller: Address, id: &String, new_value: i128, now: u64) -> (r: Result<bool, CommitmentError>)
        requires
            old(self).wf(),
        ensures
            final(self).wf(),
            match r {
                Ok(violated) => {
                    let i = old(self).find(id@)->Some_0;
                    let c = old(self).record(i);
                    &&& old(self).update_check(caller, id@, new_value, now).is_none()
                    &&& final(self).commitments@ == old(self).commitments@.update(i, revalued(c, new_value))
                    &&& violated == (revalued(c, new_value).status == Status::Violated)
                    &&& final(self).total_value_locked == old(self).total_value_locked - c.current_value + new_value
                    &&& final(self).same_settings(old(self))
                    &&& final(self).limiter.usage@ == old(self).limiter.counted(old(self).self_address, Operation::UpdateValue, now)
                    &&& final(self).limiter.same_rules(&old(self).limiter)
                },
                Err(e) => {
                    &&& old(self).update_check(caller, id@, new_value, now) == Some(e)
                    &&& *final(self) == *old(self)
                },
            },
    {
        if self.guard.admin.is_none() {
            return Err(CommitmentError::NotInitialized);
        }
        let is_admin = match self.guard.admin {
            Some(a) => a == caller,
            None => false,
        };
        let is_allocator = match self.allocation_contract {
            Some(a) => a == caller,
            None => false,
        };
        if !(is_admin || is_allocator || self.updaters.has(caller)) {
            return Err(CommitmentError::Unauthorized);
        }
        if !self.limiter.check(self.self_address, Operation::UpdateValue, now) {
            return Err(CommitmentError::RateLimitExceeded);
        }
        if new_value < 0 || new_value > MAX_AMOUNT {
            return Err(CommitmentError::InvalidAmount);
        }
        let i = match self.find_index(id) {
            Some(i) => i,
            None => {
                return Err(CommitmentError::CommitmentNotFound);
            },
        };
        if self.commitments[i].status != Status::Active {
            return Err(CommitmentError::NotActive);
        }
        let old_value = self.commitments[i].current_value;
        proof {
            assert(self.commitments@[i as int].wf());
            lemma_locked_sum_bounds(self.commitments@, i as int);
        }
        let base = self.total_value_locked - old_value;
        if base > i128::MAX - new_value {
            return Err(CommitmentError::InvalidAmount);
        }
        let mut c = self.commitments[i].copy_record();
        let loss = loss_percent(c.amount, new_value);
        let violated = loss > c.rules.max_loss_percent as i128;
        c.current_value = new_value;
        if violated {
            c.status = Status::Violated;
        }
        proof {
            self.lemma_store(i as int, c);
        }
        self.commitments.set(i, c);
        self.total_value_locked = base + new_value;
        let me = self.self_address;
        self.limiter.record(me, Operation::UpdateValue, now);
        Ok(violated)
    }

    /// Whether active commitment `id` breaks its rules at `now`; a commitment
    /// that is no longer active reports no violation.
    pub fn check_violations(&self, id: &String, now: u64) -> (r: Result<bool, CommitmentError>)
        requires
            self.wf(),
        ensures
            match self.find(id@) {
                Some(i) => r == Ok::<bool, CommitmentError>(violated_at(self.record(i), now)),
                None => r == Err::<bool, CommitmentError>(CommitmentError::CommitmentNotFound),
            },
    {
        let i = match self.find_index(id) {
            Some(i) => i,
            None => {
                return Err(CommitmentError::CommitmentNotFound);
            },
        };
        let c = &self.commitments[i];
        if c.status != Status::Active {
            return Ok(false);
        }
        proof {
            assert(self.commitments@[i as int].wf());
        }
        let loss = loss_percent(c.amount, c.current_value);
        let loss_violated = loss > c.rules.max_loss_percent as i128;
        let duration_violated = now >= c.expires_at;
        Ok(loss_violated || duration_violated)
    }

    /// `(has_violation, loss_violated, duration_violated, loss_percent,
    /// time_remaining)` of commitment `id` at `now`.
    pub fn get_violation_details(&self, id: &String, now: u64) -> (r: Result<(bool, bool, bool, i128, u64), CommitmentError>)
        requires
            self.wf(),
        ensures
            match self.find(id@) {
                Some(i) => r == Ok::<(bool, bool, bool, i128, u64), CommitmentError>(violation_details(self.record(i), now)),
                None => r == Err::<(bool, bool, bool, i128, u64), CommitmentError>(CommitmentError::CommitmentNotFound),
            },
    {
        let i = match self.find_index(id) {
            Some(i) => i,
            None => {
                return Err(CommitmentError::CommitmentNotFound);
            },
        };
        let c = &self.commitments[i];
        proof {
            assert(self.commitments@[i as int].wf());
        }
        let loss = loss_percent(c.amount, c.current_value);
        let loss_violated = loss > c.rules.max_loss_percent as i128;
        let duration_violated = now >= c.expires_at;
        let time_remaining: u64 = if now < c.expires_at { c.expires_at - now } else { 0 };
        Ok((loss_violated || duration_violated, loss_violated, duration_violated, loss, time_remaining))
    }
}

impl CommitmentCoreContract {
    /// The checks of `settle` after the latch and the pause flag.
    pub open spec fn settle_check(&self, nft: &CommitmentNFTContract, id: Seq<char>, now: u64) -> Option<CommitmentError> {
        if self.find(id).is_none() {
            Some(CommitmentError::CommitmentNotFound)
        } else if now < self.record(self.find(id)->Some_0).expires_at {
            Some(CommitmentError::NotExpired)
        } else if self.record(self.find(id)->Some_0).status == Status::Settled {
            Some(CommitmentError::AlreadySettled)
        } else if self.record(self.find(id)->Some_0).status != Status::Active {
            Some(CommitmentError::NotActive)
        } else if nft.settle_error(self.self_address, self.record(self.find(id)->Some_0).nft_token_id, now).is_some() {
            Some(CommitmentError::InvalidStatus)
        } else {
            None
        }
    }

    pub open spec fn settle_error(&self, nft: &CommitmentNFTContract, id: Seq<char>, now: u64) -> Option<CommitmentError> {
        if entry_check(self.guard.latched, self.guard.paused).is_err() {
            Some(denied_error(entry_check(self.guard.latched, self.guard.paused)->Err_0))
        } else {
            self.settle_check(nft, id, now)
        }
    }

    /// Settles commitment `id` once its term has ended at `now`: anyone may
    /// call it. Returns the settlement amount, the current value, which the
    /// caller pays from custody to the owner; the bound token is settled.
    pub fn settle(&mut self, nft: &mut CommitmentNFTContract, id: &String, now: u64) -> (r: Result<i128, CommitmentError>)
        requires
            old(self).wf(),
            old(nft).wf(),
        ensures
            final(self).wf(),
            final(nft).wf(),
            match r {
                Ok(amount) => {
                    let i = old(self).find(id@)->Some_0;
                    let c = old(self).record(i);
                    &&& old(self).settle_error(old(nft), id@, now).is_none()
                    &&& amount == c.current_value
                    &&& final(self).commitments@ == old(self).commitments@.update(i, released(c, Status::Settled))
                    &&& final(self).total_value_locked == old(self).total_value_locked - c.current_value
                    &&& final(self).same_settings(old(self))
                    &&& final(self).limiter == old(self).limiter
                    &&& final(nft).tokens@ == old(nft).deactivated(c.nft_token_id)
                    &&& final(nft).guard == old(nft).guard
                    &&& final(nft).emergency == old(nft).emergency
                    &&& final(nft).core_contract == old(nft).core_contract
                    &&& final(nft).minters == old(nft).minters
                },
                Err(e) => {
                    &&& old(self).settle_error(old(nft), id@, now) == Some(e)
                    &&& *final(self) == *old(self)
                    &&& *final(nft) == *old(nft)
                },
            },
    {
        if let Err(d) = self.guard.enter() {
            return Err(map_denied(d));
        }
        let r = self.settle_entered(nft, id, now);
        self.guard.exit();
        r
    }

    fn settle_entered(&mut self, nft: &mut CommitmentNFTContract, id: &String, now: u64) -> (r: Result<i128, CommitmentError>)
        requires
            old(self).wf(),
            old(nft).wf(),
        ensures
            final(self).wf(),
            final(nft).wf(),
            match r {
                Ok(amount) => {
                    let i = old(self).find(id@)->Some_0;
                    let c = old(self).record(i);
                    &&& old(self).settle_check(old(nft), id@, now).is_none()
                    &&& amount == c.current_value
                    &&& final(self).commitments@ == old(self).commitments@.update(i, released(c, Status::Settled))
                    &&& final(self).total_value_locked == old(self).total_value_locked - c.current_value
                    &&& final(self).same_settings(old(self))
                    &&& final(self).limiter == old(self).limiter
                    &&& final(nft).tokens@ == old(nft).deactivated(c.nft_token_id)
                    &&& final(nft).guard == old(nft).guard
                    &&& final(nft).emergency == old(nft).emergency
                    &&& final(nft).core_contract == old(nft).core_contract
                    &&& final(nft).minters == old(nft).minters
                },
                Err(e) => {
                    &&& old(self).settle_check(old(nft), id@, now) == Some(e)
                    &&& *final(self) == *old(self)
                    &&& *final(nft) == *old(nft)
                },
            },
    {
        let i = match self.find_index(id) {
            Some(i) => i,
            None => {
                return Err(CommitmentError::CommitmentNotFound);
            },
        };
        if now < self.commitments[i].expires_at {
            return Err(CommitmentError::NotExpired);
        }
        if self.commitments[i].status == Status::Settled {
            return Err(CommitmentError::AlreadySettled);
        }
        if self.commitments[i].status != Status::Active {
            return Err(CommitmentError::NotActive);
        }
        if nft.settle(self.self_address, self.commitments[i].nft_token_id, now).is_err() {
            return Err(CommitmentError::InvalidStatus);
        }
        let mut c = self.commitments[i].copy_record();
        let settlement_amount = c.current_value;
        c.status = Status::Settled;
        c.current_value = 0;
        proof {
            assert(self.commitments@[i as int].wf());
            self.lemma_store(i as int, c);
        }
        self.commitments.set(i, c);
        self.total_value_locked = self.total_value_locked - settlement_amount;
        Ok(settlement_amount)
    }

    /// The checks of `early_exit` after the latch and the pause flag.
    pub open spec fn exit_check(&self, nft: &CommitmentNFTContract, id: Seq<char>, caller: Address) -> Option<CommitmentError> {
        if self.find(id).is_none() {
            Some(CommitmentError::CommitmentNotFound)
        } else if self.record(self.find(id)->Some_0).owner != caller {
            Some(CommitmentError::Unauthorized)
        } else if self.record(self.find(id)->Some_0).status != Status::Active {
            Some(CommitmentError::NotActive)
        } else if nft.mark_inactive_error(self.self_address, self.record(self.find(id)->Some_0).nft_token_id).is_some() {
            Some(CommitmentError::InvalidStatus)
        } else {
            None
        }
    }

    pub open spec fn exit_error(&self, nft: &CommitmentNFTContract, id: Seq<char>, caller: Address) -> Option<CommitmentError> {
        if entry_check(self.guard.latched, self.guard.paused).is_err() {
            Some(denied_error(entry_check(self.guard.latched, self.guard.paused)->Err_0))
        } else {
            self.exit_check(nft, id, caller)
        }
    }

    /// Exits active commitment `id` before its term, at the owner's request.
    /// Returns `(penalty, returned)`: the penalty is the rule's percentage of
    /// the current value, rounded down, and the caller pays the rest to the
    /// owner; the bound token is marked inactive.
    pub fn early_exit(&mut self, nft: &mut CommitmentNFTContract, id: &String, caller: Address) -> (r: Result<(i128, i128), CommitmentError>)
        requires
            old(self).wf(),
            old(nft).wf(),
        ensures
            final(self).wf(),
            final(nft).wf(),
            match r {
                Ok((penalty, returned)) => {
                    let i = old(self).find(id@)->Some_0;
                    let c = old(self).record(i);
                    &&& old(self).exit_error(old(nft), id@, caller).is_none()
                    &&& penalty == penalty_spec(c.current_value as int, c.rules.early_exit_penalty as int)
                    &&& returned == c.current_value - penalty
                    &&& final(self).commitments@ == old(self).commitments@.update(i, released(c, Status::EarlyExit))
                    &&& final(self).total_value_locked == old(self).total_value_locked - c.current_value
                    &&& final(self).same_settings(old(self))
                    &&& final(self).limiter == old(self).limiter
                    &&& final(nft).tokens@ == old(nft).deactivated(c.nft_token_id)
                    &&& final(nft).guard == old(nft).guard
                    &&& final(nft).emergency == old(nft).emergency
                    &&& final(nft).core_contract == old(nft).core_contract
                    &&& final(nft).minters == old(nft).minters
                },
                Err(e) => {
                    &&& old(self).exit_error(old(nft), id@, caller) == Some(e)
                    &&& *final(self) == *old(self)
                    &&& *final(nft) == *old(nft)
                },
            },
    {
        if let Err(d) = self.guard.enter() {
            return Err(map_denied(d));
        }
        let r = self.exit_entered(nft, id, caller);
        self.guard.exit();
        r
    }

    fn exit_entered(&mut self, nft: &mut CommitmentNFTContract, id: &String, caller: Address) -> (r: Result<(i128, i128), CommitmentError>)
        requires
            old(self).wf(),
            old(nft).wf(),
        ensures
            final(self).wf(),
            final(nft).wf(),
            match r {
                Ok((penalty, returned)) => {
                    let i = old(self).find(id@)->Some_0;
                    let c = old(self).record(i);
                    &&& old(self).exit_check(old(nft), id@, caller).is_none()
                    &&& penalty == penalty_spec(c.current_value as int, c.rules.early_exit_penalty as int)
                    &&& returned == c.current_value - penalty
                    &&& final(self).commitments@ == old(self).commitments@.update(i, released(c, Status::EarlyExit))
                    &&& final(self).total_value_locked == old(self).total_value_locked - c.current_value
                    &&& final(self).same_settings(old(self))
                    &&& final(self).limiter == old(self).limiter
                    &&& final(nft).tokens@ == old(nft).deactivated(c.nft_token_id)
                    &&& final(nft).guard == old(nft).guard
                    &&& final(nft).emergency == old(nft).emergency
                    &&& final(nft).core_contract == old(nft).core_contract
                    &&& final(nft).minters == old(nft).minters
                },
                Err(e) => {
                    &&& old(self).exit_check(old(nft), id@, caller) == Some(e)
                    &&& *final(self) == *old(self)
                    &&& *final(nft) == *old(nft)
                },
            },
    {
        let i = match self.find_index(id) {
            Some(i) => i,
            None => {
                return Err(CommitmentError::CommitmentNotFound);
            },
        };
        if self.commitments[i].owner != caller {
            return Err(CommitmentError::Unauthorized);
        }
        if self.commitments[i].status != Status::Active {
            return Err(CommitmentError::NotActive);
        }
        if nft.mark_inactive(self.self_address, self.commitments[i].nft_token_id).is_err() {
            return Err(CommitmentError::InvalidStatus);
        }
        proof {
            assert(self.commitments@[i as int].wf());
        }
        let mut c = self.commitments[i].copy_record();
        let value = c.current_value;
        let penalty = penalty_amount(value, c.rules.early_exit_penalty);
        let returned = value - penalty;
        c.status = Status::EarlyExit;
        c.current_value = 0;
        proof {
            self.lemma_store(i as int, c);
        }
        self.commitments.set(i, c);
        self.total_value_locked = self.total_value_locked - value;
        Ok((penalty, returned))
    }

    /// The checks of `allocate` after the latch and the pause flag.
    pub open spec fn allocate_check(&self, id: Seq<char>, target_pool: Address, amount: i128, now: u64) -> Option<CommitmentError> {
        if !self.limiter.allows(target_pool, Operation::Allocate, now) {
            Some(CommitmentError::RateLimitExceeded)
        } else if amount <= 0 {
            Some(CommitmentError::InvalidAmount)
        } else if self.find(id).is_none() {
            Some(CommitmentError::CommitmentNotFound)
        } else if self.record(self.find(id)->Some_0).status != Status::Active {
            Some(CommitmentError::NotActive)
        } else if self.record(self.find(id)->Some_0).current_value < amount {
            Some(CommitmentError::InsufficientBalance)
        } else {
            None
        }
    }

    pub open spec fn allocate_error(&self, id: Seq<char>, target_pool: Address, amount: i128, now: u64) -> Option<CommitmentError> {
        if entry_check(self.guard.latched, self.guard.paused).is_err() {
            Some(denied_error(entry_check(self.guard.latched, self.guard.paused)->Err_0))
        } else {
            self.allocate_check(id, target_pool, amount, now)
        }
    }

    /// Moves `amount` of active commitment `id` out of custody, to
    /// `target_pool`: the current value drops by `amount` and the status is
    /// kept. The caller makes the transfer.
    pub fn allocate(&mut self, id: &String, target_pool: Address, amount: i128, now: u64) -> (r: Result<(), CommitmentError>)
        requires
            old(self).wf(),
        ensures
            final(self).wf(),
            match r {
                Ok(()) => {
                    let i = old(self).find(id@)->Some_0;
                    let c = old(self).record(i);
                    &&& old(self).allocate_error(id@, target_pool, amount, now).is_none()
                    &&& final(self).commitments@ == old(self).commitments@.update(i,
                        Commitment { current_value: (c.current_value - amount) as i128, ..c })
                    &&& final(self).total_value_locked == old(self).total_value_locked - amount
                    &&& final(self).same_settings(old(self))
                    &&& final(self).limiter.usage@ == old(self).limiter.counted(target_pool, Operation::Allocate, now)
                    &&& final(self).limiter.same_rules(&old(self).limiter)
                },
                Err(e) => {
                    &&& old(self).allocate_error(id@, target_pool, amount, now) == Some(e)
                    &&& *final(self) == *old(self)
                },
            },
    {
        if let Err(d) = self.guard.enter() {
            return Err(map_denied(d));
        }
        let r = self.allocate_entered(id, target_pool, amount, now);
        self.guard.exit();
        r
    }

    fn allocate_entered(&mut self, id: &String, target_pool: Address, amount: i128, now: u64) -> (r: Result<(), CommitmentError>)
        requires
            old(self).wf(),
        ensures
            final(self).wf(),
            match r {
                Ok(()) => {
                    let i = old(self).find(id@)->Some_0;
                    let c = old(self).record(i);
                    &&& old(self).allocate_check(id@, target_pool, amount, now).is_none()
                    &&& final(self).commitments@ == old(self).commitments@.update(i,
                        Commitment { current_value: (c.current_value - amount) as i128, ..c })
                    &&& final(self).total_value_locked == old(self).total_value_locked - amount
                    &&& final(self).same_settings(old(self))
                    &&& final(self).limiter.usage@ == old(self).limiter.counted(target_pool, Operation::Allocate, now)
                    &&& final(self).limiter.same_rules(&old(self).limiter)
                },
                Err(e) => {
                    &&& old(self).allocate_check(id@, target_pool, amount, now) == Some(e)
                    &&& *final(self) == *old(self)
                },
            },
    {
        if !self.limiter.check(target_pool, Operation::Allocate, now) {
            return Err(CommitmentError::RateLimitExceeded);
        }
        if amount <= 0 {
            return Err(CommitmentError::InvalidAmount);
        }
        let i = match self.find_index(id) {
            Some(i) => i,
            None => {
                return Err(CommitmentError::CommitmentNotFound);
            },
        };
        if self.commitments[i].status != Status::Active {
            return Err(CommitmentError::NotActive);
        }
        if self.commitments[i].current_value < amount {
            return Err(CommitmentError::InsufficientBalance);
        }
        proof {
            assert(self.commitments@[i as int].wf());
        }
        let mut c = self.commitments[i].copy_record();
        c.current_value = c.current_value - amount;
        proof {
            self.lemma_store(i as int, c);
        }
        self.commitments.set(i, c);
        self.total_value_locked = self.total_value_locked - amount;
        self.limiter.record(target_pool, Operation::Allocate, now);
        Ok(())
    }
}

proof fn lemma_locked_is_active(s: Seq<Commitment>)
    requires
        forall|i: int| 0 <= i < s.len() ==> (#[trigger] s[i]).status != Status::Violated,
    ensures
        locked_sum(s) == active_sum(s),
    decreases s.len(),
{
    if s.len() > 0 {
        assert(s.last() == s[s.len() - 1]);
        lemma_locked_is_active(s.drop_last());
    }
}

proof fn lemma_position_found(s: Seq<Commitment>, id: Seq<char>, j: int)
    requires
        position_from(s, id, j).is_some(),
    ensures
        0 <= j <= position_from(s, id, j)->Some_0 < s.len(),
        s[position_from(s, id, j)->Some_0].commitment_id@ == id,
    decreases s.len() - j,
{
    if 0 <= j < s.len() && s[j].commitment_id@ != id {
        lemma_position_found(s, id, j + 1);
    }
}

proof fn lemma_position_update(s: Seq<Commitment>, i: int, c: Commitment, id: Seq<char>, j: int)
    requires
        0 <= i < s.len(),
        c.commitment_id@ == s[i].commitment_id@,
    ensures
        position_from(s.update(i, c), id, j) == position_from(s, id, j),
    decreases s.len() - j,
{
    if 0 <= j < s.len() {
        lemma_position_update(s, i, c, id, j + 1);
    }
}

/// In every state of the ledger with no violated commitment, the total
/// value locked is the sum of the current values of the active commitments.
pub proof fn lemma_value_locked_is_active_sum(l: &CommitmentCoreContract)
    requires
        l.wf(),
        forall|i: int| 0 <= i < l.commitments@.len() ==> (#[trigger] l.commitments@[i]).status != Status::Violated,
    ensures
        l.total_value_locked == active_sum(l.commitments@),
{
    lemma_locked_is_active(l.commitments@);
}

/// A value update within the loss limit keeps the total value locked equal
/// to the sum of the current values of the active commitments.
pub proof fn lemma_compliant_update_keeps_active_sum(
    l0: &CommitmentCoreContract,
    l1: &CommitmentCoreContract,
    i: int,
    new_value: i128,
)
    requires
        l0.wf(),
        0 <= i < l0.commitments@.len(),
        forall|j: int| 0 <= j < l0.commitments@.len() ==> (#[trigger] l0.commitments@[j]).status != Status::Violated,
        l0.record(i).status == Status::Active,
        loss_percent_spec(l0.record(i).amount as int, new_value as int) <= l0.record(i).rules.max_loss_percent,
        l1.commitments@ == l0.commitments@.update(i, revalued(l0.record(i), new_value)),
        l1.total_value_locked == l0.total_value_locked - l0.record(i).current_value + new_value,
    ensures
        l1.total_value_locked == active_sum(l1.commitments@),
{
    let c = revalued(l0.record(i), new_value);
    lemma_locked_sum_update(l0.commitments@, i, c);
    assert forall|j: int| 0 <= j < l1.commitments@.len() implies (#[trigger] l1.commitments@[j]).status != Status::Violated by {
        if j != i {
            assert(l1.commitments@[j] == l0.commitments@[j]);
        }
    }
    lemma_locked_is_active(l1.commitments@);
}

/// A commitment settled after its term, with no value update since its
/// creation, pays back exactly the amount it locked: its id finds it, and
/// settling it at any time from its expiry on fails only if the
/// position-token registry refuses, which it does not while its bound token
/// is active, due and open to the ledger.
pub proof fn lemma_round_trip(
    l: &CommitmentCoreContract,
    nft: &CommitmentNFTContract,
    n: nat,
    owner: Address,
    amount: i128,
    asset_address: Address,
    rules: CommitmentRules,
    now: u64,
    token_id: u32,
    t: u64,
)
    requires
        l.wf(),
        n < l.commitments@.len(),
        CommitmentCoreContract::is_created(l.record(n as int), n, owner, amount, asset_address, rules, now, token_id),
        t >= l.record(n as int).expires_at,
    ensures
        l.find(id_text(n)) == Some(n as int),
        l.record(n as int).current_value == amount,
        l.settle_check(nft, id_text(n), t) == if nft.settle_error(l.self_address, token_id, t).is_some() {
            Some(CommitmentError::InvalidStatus)
        } else {
            None::<CommitmentError>
        },
        (nft.entry_error().is_none() && nft.authorized(l.self_address) && nft.has_token(token_id)
            && nft.token(token_id).is_active && nft.token(token_id).metadata.expires_at <= t)
            ==> l.settle_check(nft, id_text(n), t).is_none(),
{
    lemma_position_of_id(l.commitments@, n as int, 0);
}

/// Settling twice fails: once commitment `id` is settled, a second `settle`
/// fails with `AlreadySettled` and an early exit by its owner with
/// `NotActive`.
pub proof fn lemma_settle_idempotent(
    l0: &CommitmentCoreContract,
    l1: &CommitmentCoreContract,
    nft0: &CommitmentNFTContract,
    nft1: &CommitmentNFTContract,
    id: Seq<char>,
    now: u64,
    later: u64,
)
    requires
        l0.wf(),
        l0.settle_error(nft0, id, now).is_none(),
        l1.commitments@ == l0.commitments@.update(l0.find(id)->Some_0,
            released(l0.record(l0.find(id)->Some_0), Status::Settled)),
        l1.same_settings(l0),
        later >= now,
    ensures
        l1.settle_error(nft1, id, later) == Some(CommitmentError::AlreadySettled),
        l1.exit_error(nft1, id, l0.record(l0.find(id)->Some_0).owner) == Some(CommitmentError::NotActive),
{
    let i = l0.find(id)->Some_0;
    lemma_position_found(l0.commitments@, id, 0);
    lemma_position_update(l0.commitments@, i, released(l0.record(i), Status::Settled), id, 0);
}

} // verus!
