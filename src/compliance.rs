use vstd::prelude::*;
use crate::guard::AddressSet;
use crate::ledger::{violated_at, Commitment, CommitmentCoreContract};
use vstd::arithmetic::div_mod::lemma_fundamental_div_mod;
use crate::math::{drawdown_percent, drawdown_spec, loss_percent, loss_percent_spec, MAX_AMOUNT};
use crate::types::{Address, CommitmentError, Status};

verus! {

/// A fact about a commitment asserted by a verifier. `data` maps keys to
/// numeric values: a "fee_generation" attestation carries its fee under
/// "amount", a "drawdown" attestation its percentage under "percent".
#[derive(Clone, Debug, PartialEq, Eq)]
pub struct Attestation {
    pub commitment_id: String,
    pub timestamp: u64,
    pub attestation_type: String,
    pub data: Vec<(String, i128)>,
    pub is_compliant: bool,
    pub verified_by: Address,
}

/// Health aggregated from the attestations of one commitment.
#[derive(Clone, Copy, Debug, PartialEq, Eq, Structural)]
pub struct HealthState {
    /// Sum of the fees attested, saturating at `i128::MAX`.
    pub fees_generated: i128,
    /// The drawdown percentage attested last, if any.
    pub last_drawdown: Option<i128>,
    /// Time of the latest attestation; 0 before any.
    pub last_attestation: u64,
    /// Score cached by the last scoring; 0 means not yet computed.
    pub compliance_score: u32,
}

/// The health report of a commitment.
#[derive(Clone, Debug, PartialEq, Eq)]
pub struct HealthMetrics {
    pub commitment_id: String,
    pub current_value: i128,
    pub initial_value: i128,
    pub drawdown_percent: i128,
    pub fees_generated: i128,
    pub last_attestation: u64,
    pub compliance_score: u32,
}

/// Attestations and health of one commitment.
pub struct HealthRecord {
    pub commitment_id: String,
    pub state: HealthState,
    pub attestations: Vec<Attestation>,
}

pub open spec fn default_health() -> HealthState {
    HealthState { fees_generated: 0, last_drawdown: None, last_attestation: 0, compliance_score: 0 }
}

/// Value of the first entry of `data` under `key`.
pub open spec fn entry_value(data: Seq<(String, i128)>, key: Seq<char>) -> Option<i128>
    decreases data.len(),
{
    if data.len() == 0 {
        None
    } else if data[0].0@ == key {
        Some(data[0].1)
    } else {
        entry_value(data.drop_first(), key)
    }
}

pub open spec fn saturating_sum(a: i128, b: i128) -> i128 {
    if a + b > i128::MAX { i128::MAX } else { (a + b) as i128 }
}

/// The health after an attestation of type `kind` with `data` at `now`.
pub open spec fn attested_health(h: HealthState, kind: Seq<char>, data: Seq<(String, i128)>, now: u64) -> HealthState {
    let fees = if kind == "fee_generation"@ && entry_value(data, "amount"@).is_some() {
        saturating_sum(h.fees_generated, entry_value(data, "amount"@)->Some_0)
    } else {
        h.fees_generated
    };
    let drawdown = if kind == "drawdown"@ && entry_value(data, "percent"@).is_some() {
        entry_value(data, "percent"@)
    } else {
        h.last_drawdown
    };
    HealthState { fees_generated: fees, last_drawdown: drawdown, last_attestation: now, ..h }
}

/// Whether an attestation lowers the score: it is flagged non-compliant or
/// tagged "violation".
pub open spec fn is_adverse(a: Attestation) -> bool {
    !a.is_compliant || a.attestation_type@ == "violation"@
}

pub open spec fn adverse_count(s: Seq<Attestation>) -> nat
    decreases s.len(),
{
    if s.len() == 0 { 0 } else { adverse_count(s.drop_last()) + if is_adverse(s.last()) { 1nat } else { 0nat } }
}

/// The drawdown a health report shows: the one attested last, else the one
/// computed from the ledger's values.
pub open spec fn reported_drawdown(c: Commitment, h: HealthState) -> int {
    match h.last_drawdown {
        Some(p) => p as int,
        None => drawdown_spec(c.amount as int, c.current_value as int),
    }
}

/// The compliance score of `c` at `now`, before clamping: 100, less 20 per
/// adverse attestation, less one per point of loss beyond the maximum, plus
/// the fees as a percentage of the threshold (at most 100), plus 10 while
/// the elapsed part of the term is within 0-100%.
pub open spec fn raw_score(c: Commitment, adverse: nat, fees: i128, now: u64) -> int {
    let loss = loss_percent_spec(c.amount as int, c.current_value as int);
    let over = if c.amount > 0 && loss > c.rules.max_loss_percent { loss - c.rules.max_loss_percent } else { 0 };
    let thr = c.rules.min_fee_threshold as int;
    let bonus = if thr > 0 && fees > 0 {
        if (fees * 100) / thr > 100 { 100 } else { (fees * 100) / thr }
    } else {
        0
    };
    let elapsed: int = if now >= c.created_at { now - c.created_at } else { 0 };
    let on_track = if c.expires_at > c.created_at && (elapsed * 100) / ((c.expires_at - c.created_at) as int) <= 100 {
        10int
    } else {
        0int
    };
    100 - 20 * adverse - over + bonus + on_track
}

pub open spec fn clamp_score(x: int) -> u32 {
    if x < 0 { 0 } else if x > 100 { 100 } else { x as u32 }
}

/// Index of the first key of `s` at or after `j` equal to `id`.
pub open spec fn key_position(s: Seq<String>, id: Seq<char>, j: int) -> Option<int>
    decreases s.len() - j,
{
    if j < 0 || j >= s.len() {
        None
    } else if s[j]@ == id {
        Some(j)
    } else {
        key_position(s, id, j + 1)
    }
}

/// The attestations of `log` about commitment `id`, oldest first.
pub open spec fn attestations_for(log: Seq<Attestation>, id: Seq<char>) -> Seq<Attestation>
    decreases log.len(),
{
    if log.len() == 0 {
        Seq::empty()
    } else if log.last().commitment_id@ == id {
        attestations_for(log.drop_last(), id).push(log.last())
    } else {
        attestations_for(log.drop_last(), id)
    }
}

proof fn lemma_key_found(s: Seq<String>, id: Seq<char>, j: int)
    requires
        key_position(s, id, j).is_some(),
    ensures
        0 <= j <= key_position(s, id, j)->Some_0 < s.len(),
        s[key_position(s, id, j)->Some_0]@ == id,
    decreases s.len() - j,
{
    if 0 <= j < s.len() && s[j]@ != id {
        lemma_key_found(s, id, j + 1);
    }
}

proof fn lemma_key_push(s: Seq<String>, x: String, id: Seq<char>, j: int)
    requires
        0 <= j,
    ensures
        key_position(s.push(x), id, j) == if key_position(s, id, j).is_some() {
            key_position(s, id, j)
        } else if j <= s.len() && x@ == id {
            Some(s.len() as int)
        } else {
            None
        },
    decreases s.len() + 1 - j,
{
    if j < s.len() {
        assert(s.push(x)[j] == s[j]);
        lemma_key_push(s, x, id, j + 1);
    } else if j == s.len() {
        assert(s.push(x)[j] == x);
        assert(key_position(s.push(x), id, j + 1).is_none());
    }
}

fn copy_data(data: &Vec<(String, i128)>) -> (r: Vec<(String, i128)>)
    ensures
        r@ == data@,
{
    let mut out: Vec<(String, i128)> = Vec::new();
    let mut i: usize = 0;
    while i < data.len()
        invariant
            i <= data@.len(),
            out@ == data@.subrange(0, i as int),
        decreases data@.len() - i,
    {
        let (k, v) = (data[i].0.clone(), data[i].1);
        out.push((k, v));
        proof {
            assert(out@ =~= data@.subrange(0, i + 1));
        }
        i = i + 1;
    }
    proof {
        assert(out@ =~= data@);
    }
    out
}

/// Whether `a` and `b` hold the same attestation.
pub open spec fn same_attestation(a: Attestation, b: Attestation) -> bool {
    &&& a.commitment_id == b.commitment_id
    &&& a.timestamp == b.timestamp
    &&& a.attestation_type == b.attestation_type
    &&& a.data@ == b.data@
    &&& a.is_compliant == b.is_compliant
    &&& a.verified_by == b.verified_by
}

impl Attestation {
    /// A field-by-field copy.
    pub fn copy_record(&self) -> (r: Attestation)
        ensures
            same_attestation(r, *self),
    {
        Attestation {
            commitment_id: self.commitment_id.clone(),
            timestamp: self.timestamp,
            attestation_type: self.attestation_type.clone(),
            data: copy_data(&self.data),
            is_compliant: self.is_compliant,
            verified_by: self.verified_by,
        }
    }
}

fn lookup_entry(data: &Vec<(String, i128)>, key: &String) -> (r: Option<i128>)
    ensures
        r == entry_value(data@, key@),
{
    let mut i: usize = 0;
    proof {
        assert(data@.subrange(0, data@.len() as int) =~= data@);
    }
    while i < data.len()
        invariant
            i <= data@.len(),
            entry_value(data@, key@) == entry_value(data@.subrange(i as int, data@.len() as int), key@),
        decreases data@.len() - i,
    {
        proof {
            let rest = data@.subrange(i as int, data@.len() as int);
            assert(rest.drop_first() =~= data@.subrange(i + 1, data@.len() as int));
            assert(rest[0] == data@[i as int]);
        }
        if data[i].0 == *key {
            return Some(data[i].1);
        }
        i = i + 1;
    }
    proof {
        assert(data@.subrange(i as int, data@.len() as int).len() == 0);
    }
    None
}

/// The compliance engine: a verifier whitelist, an append-only log of
/// attestations, and the health of each attested commitment.
pub struct AttestationEngineContract {
    pub admin: Option<Address>,
    pub commitment_core: Option<Address>,
    pub verifiers: AddressSet,
    pub health_ids: Vec<String>,
    pub health: Vec<HealthState>,
    pub log: Vec<Attestation>,
}

impl AttestationEngineContract {
    pub open spec fn wf(&self) -> bool {
        self.health_ids@.len() == self.health@.len()
    }

    /// Health of commitment `id`; before its first attestation, the default.
    pub open spec fn health_of(&self, id: Seq<char>) -> HealthState {
        match key_position(self.health_ids@, id, 0) {
            Some(i) => self.health@[i],
            None => default_health(),
        }
    }

    pub open spec fn attestations_of(&self, id: Seq<char>) -> Seq<Attestation> {
        attestations_for(self.log@, id)
    }

    /// Whether `a` may attest: only whitelisted verifiers may.
    pub open spec fn may_attest(&self, a: Address) -> bool {
        self.verifiers.contains(a)
    }

    pub fn new() -> (r: AttestationEngineContract)
        ensures
            r.wf(),
            r.admin.is_none(),
            r.commitment_core.is_none(),
            forall|a: Address| !r.verifiers.contains(a),
            r.log@.len() == 0,
            forall|id: Seq<char>| r.health_of(id) == default_health(),
    {
        AttestationEngineContract {
            admin: None,
            commitment_core: None,
            verifiers: AddressSet::new(),
            health_ids: Vec::new(),
            health: Vec::new(),
            log: Vec::new(),
        }
    }

    /// Stores the admin and the ledger reference, once.
    pub fn initialize(&mut self, admin: Address, commitment_core: Address) -> (r: Result<(), CommitmentError>)
        ensures
            r == if old(self).admin.is_some() { Err(CommitmentError::AlreadyInitialized) } else { Ok(()) },
            r.is_ok() ==> final(self).admin == Some(admin) && final(self).commitment_core == Some(commitment_core)
                && final(self).verifiers == old(self).verifiers && final(self).health_ids == old(self).health_ids
                && final(self).health == old(self).health && final(self).log == old(self).log,
            r.is_err() ==> *final(self) == *old(self),
    {
        if self.admin.is_some() {
            return Err(CommitmentError::AlreadyInitialized);
        }
        self.admin = Some(admin);
        self.commitment_core = Some(commitment_core);
        Ok(())
    }

    fn require_admin(&self, caller: Address) -> (r: Result<(), CommitmentError>)
        ensures
            r == match self.admin {
                None => Err(CommitmentError::NotInitialized),
                Some(a) => if a == caller { Ok(()) } else { Err(CommitmentError::Unauthorized) },
            },
    {
        match self.admin {
            None => Err(CommitmentError::NotInitialized),
            Some(a) => if a == caller { Ok(()) } else { Err(CommitmentError::Unauthorized) },
        }
    }

    /// Whitelists `verifier`; admin only.
    pub fn add_verifier(&mut self, caller: Address, verifier: Address) -> (r: Result<(), CommitmentError>)
        ensures
            r == match old(self).admin {
                None => Err(CommitmentError::NotInitialized),
                Some(a) => if a == caller { Ok(()) } else { Err(CommitmentError::Unauthorized) },
            },
            r.is_ok() ==> final(self).verifiers.contains(verifier)
                && forall|a: Address| a != verifier ==> (final(self).verifiers.contains(a) <==> old(self).verifiers.contains(a)),
            r.is_err() ==> *final(self) == *old(self),
            final(self).admin == old(self).admin,
            final(self).health_ids == old(self).health_ids,
            final(self).health == old(self).health,
            final(self).log == old(self).log,
    {
        self.require_admin(caller)?;
        self.verifiers.insert(verifier);
        Ok(())
    }

    /// Removes `verifier` from the whitelist; admin only.
    pub fn remove_verifier(&mut self, caller: Address, verifier: Address) -> (r: Result<(), CommitmentError>)
        ensures
            r == match old(self).admin {
                None => Err(CommitmentError::NotInitialized),
                Some(a) => if a == caller { Ok(()) } else { Err(CommitmentError::Unauthorized) },
            },
            r.is_ok() ==> !final(self).verifiers.contains(verifier)
                && forall|a: Address| a != verifier ==> (final(self).verifiers.contains(a) <==> old(self).verifiers.contains(a)),
            r.is_err() ==> *final(self) == *old(self),
            final(self).admin == old(self).admin,
            final(self).health_ids == old(self).health_ids,
            final(self).health == old(self).health,
            final(self).log == old(self).log,
    {
        self.require_admin(caller)?;
        self.verifiers.remove(verifier);
        Ok(())
    }

    pub fn is_verifier(&self, a: Address) -> (r: bool)
        ensures
            r == self.may_attest(a),
    {
        self.verifiers.has(a)
    }

    fn health_index(&self, id: &String) -> (r: Option<usize>)
        ensures
            match r {
                Some(i) => key_position(self.health_ids@, id@, 0) == Some(i as int) && i < self.health_ids@.len(),
                None => key_position(self.health_ids@, id@, 0).is_none(),
            },
    {
        let mut i: usize = 0;
        while i < self.health_ids.len()
            invariant
                i <= self.health_ids@.len(),
                key_position(self.health_ids@, id@, 0) == key_position(self.health_ids@, id@, i as int),
            decreases self.health_ids@.len() - i,
        {
            if self.health_ids[i] == *id {
                return Some(i);
            }
            i = i + 1;
        }
        None
    }

    /// Health of commitment `id`.
    pub fn get_health_state(&self, id: &String) -> (r: HealthState)
        requires
            self.wf(),
        ensures
            r == self.health_of(id@),
    {
        match self.health_index(id) {
            Some(i) => self.health[i],
            None => HealthState { fees_generated: 0, last_drawdown: None, last_attestation: 0, compliance_score: 0 },
        }
    }

    /// Replaces the health of commitment `id` by `h`.
    fn store_health(&mut self, id: &String, h: HealthState)
        requires
            old(self).wf(),
        ensures
            final(self).wf(),
            final(self).health_of(id@) == h,
            forall|other: Seq<char>| other != id@ ==> final(self).health_of(other) == old(self).health_of(other),
            final(self).admin == old(self).admin,
            final(self).commitment_core == old(self).commitment_core,
            final(self).verifiers == old(self).verifiers,
            final(self).log == old(self).log,
    {
        match self.health_index(id) {
            Some(i) => {
                self.health.set(i, h);
                proof {
                    lemma_key_found(self.health_ids@, id@, 0);
                    assert forall|other: Seq<char>| other != id@ implies final(self).health_of(other) == old(self).health_of(other) by {
                        if key_position(self.health_ids@, other, 0).is_some() {
                            lemma_key_found(self.health_ids@, other, 0);
                        }
                    }
                }
            },
            None => {
                let ghost ids = self.health_ids@;
                let key = id.clone();
                let ghost pushed = key;
                self.health_ids.push(key);
                self.health.push(h);
                proof {
                    lemma_key_push(ids, pushed, id@, 0);
                    assert forall|other: Seq<char>| other != id@ implies final(self).health_of(other) == old(self).health_of(other) by {
                        lemma_key_push(ids, pushed, other, 0);
                        if key_position(ids, other, 0).is_some() {
                            lemma_key_found(ids, other, 0);
                        }
                    }
                }
            },
        }
    }
}

/// Whether commitment `c`, with health `h`, complies with its rules at
/// `now`. A settled commitment complies by definition and one exited early
/// does not; otherwise every gate must pass.
pub open spec fn compliant(c: Commitment, h: HealthState, now: u64) -> bool {
    if c.status == Status::Settled {
        true
    } else if c.status == Status::EarlyExit {
        false
    } else {
        &&& reported_drawdown(c, h) <= c.rules.max_loss_percent
        &&& (c.rules.duration_days == 0 || now <= c.expires_at)
        &&& (c.rules.min_fee_threshold <= 0 || h.fees_generated >= c.rules.min_fee_threshold)
        &&& (h.compliance_score == 0 || h.compliance_score >= 80)
        &&& !violated_at(c, now)
        &&& c.status != Status::Violated
    }
}

/// The score `calculate_compliance_score` computes for `c` at `now`.
pub open spec fn score_of(c: Commitment, atts: Seq<Attestation>, h: HealthState, now: u64) -> u32 {
    clamp_score(raw_score(c, adverse_count(atts), h.fees_generated, now))
}

fn fee_bonus(fees: i128, thr: i128) -> (r: i128)
    requires
        0 < thr <= MAX_AMOUNT,
        fees > 0,
    ensures
        r == if (fees * 100) / (thr as int) > 100 { 100 } else { (fees * 100) / (thr as int) },
{
    if fees >= thr {
        proof {
            let x = fees * 100;
            lemma_fundamental_div_mod(x, thr as int);
            assert(x / (thr as int) >= 100) by (nonlinear_arith)
                requires x == (thr as int) * (x / (thr as int)) + x % (thr as int), 0 <= x % (thr as int) < thr,
                    x >= thr * 100, thr > 0;
        }
        100
    } else {
        proof {
            assert(fees * 100 <= MAX_AMOUNT * 100) by (nonlinear_arith)
                requires fees < thr, thr <= MAX_AMOUNT, fees > 0;
        }
        let b = (fees * 100) / thr;
        proof {
            let x = fees * 100;
            lemma_fundamental_div_mod(x, thr as int);
            assert(x / (thr as int) <= 100) by (nonlinear_arith)
                requires x == (thr as int) * (x / (thr as int)) + x % (thr as int), 0 <= x % (thr as int),
                    x < thr * 100, thr > 0;
        }
        b
    }
}

fn term_bonus(created_at: u64, expires_at: u64, now: u64) -> (r: i128)
    ensures
        r == {
            let elapsed: int = if now >= created_at { now - created_at } else { 0 };
            if expires_at > created_at && (elapsed * 100) / ((expires_at - created_at) as int) <= 100 {
                10int
            } else {
                0int
            }
        },
{
    if expires_at <= created_at {
        return 0;
    }
    let elapsed: u64 = if now >= created_at { now - created_at } else { 0 };
    let total: u64 = expires_at - created_at;
    let progress: u128 = ((elapsed as u128) * 100) / (total as u128);
    if progress <= 100 { 10 } else { 0 }
}

impl AttestationEngineContract {
    /// The error `attest` returns, if any.
    pub open spec fn attest_error(
        &self,
        ledger: &CommitmentCoreContract,
        verifier: Address,
        id: Seq<char>,
        kind: Seq<char>,
        data: Seq<(String, i128)>,
    ) -> Option<CommitmentError> {
        if self.admin.is_none() {
            Some(CommitmentError::NotInitialized)
        } else if !self.may_attest(verifier) {
            Some(CommitmentError::Unauthorized)
        } else if ledger.find(id).is_none() {
            Some(CommitmentError::CommitmentNotFound)
        } else if kind == "fee_generation"@ && entry_value(data, "amount"@).is_some()
            && entry_value(data, "amount"@)->Some_0 < 0 {
            Some(CommitmentError::InvalidAmount)
        } else {
            None
        }
    }

    /// Appends an attestation by `verifier` about commitment `id` at `now`,
    /// and folds it into the commitment's health: a "fee_generation"
    /// attestation adds its amount to the fees, a "drawdown" attestation
    /// replaces the last drawdown.
    pub fn attest(
        &mut self,
        ledger: &CommitmentCoreContract,
        verifier: Address,
        id: &String,
        kind: String,
        data: Vec<(String, i128)>,
        is_compliant: bool,
        now: u64,
    ) -> (r: Result<(), CommitmentError>)
        requires
            old(self).wf(),
        ensures
            final(self).wf(),
            match r {
                Ok(()) => {
                    &&& old(self).attest_error(ledger, verifier, id@, kind@, data@).is_none()
                    &&& final(self).log@.len() == old(self).log@.len() + 1
                    &&& final(self).log@.drop_last() == old(self).log@
                    &&& final(self).log@.last().commitment_id@ == id@
                    &&& final(self).log@.last().timestamp == now
                    &&& final(self).log@.last().attestation_type@ == kind@
                    &&& final(self).log@.last().data@ == data@
                    &&& final(self).log@.last().is_compliant == is_compliant
                    &&& final(self).log@.last().verified_by == verifier
                    &&& final(self).attestations_of(id@) == old(self).attestations_of(id@).push(final(self).log@.last())
                    &&& final(self).health_of(id@) == attested_health(old(self).health_of(id@), kind@, data@, now)
                    &&& forall|other: Seq<char>| other != id@ ==> final(self).health_of(other) == old(self).health_of(other)
                    &&& final(self).admin == old(self).admin
                    &&& final(self).commitment_core == old(self).commitment_core
                    &&& final(self).verifiers == old(self).verifiers
                },
                Err(e) => {
                    &&& old(self).attest_error(ledger, verifier, id@, kind@, data@) == Some(e)
                    &&& *final(self) == *old(self)
                },
            },
    {
        if self.admin.is_none() {
            return Err(CommitmentError::NotInitialized);
        }
        if !self.is_verifier(verifier) {
            return Err(CommitmentError::Unauthorized);
        }
        if ledger.find_index(id).is_none() {
            return Err(CommitmentError::CommitmentNotFound);
        }
        proof {
            reveal_strlit("fee_generation");
            reveal_strlit("drawdown");
            reveal_strlit("amount");
            reveal_strlit("percent");
        }
        let is_fee = kind == String::from_str("fee_generation");
        let is_drawdown = kind == String::from_str("drawdown");
        let amount = lookup_entry(&data, &String::from_str("amount"));
        let percent = lookup_entry(&data, &String::from_str("percent"));
        if is_fee {
            if let Some(v) = amount {
                if v < 0 {
                    return Err(CommitmentError::InvalidAmount);
                }
            }
        }
        let mut h = self.get_health_state(id);
        if is_fee {
            if let Some(v) = amount {
                if h.fees_generated > i128::MAX - v {
                    h.fees_generated = i128::MAX;
                } else {
                    h.fees_generated = h.fees_generated + v;
                }
            }
        }
        if is_drawdown {
            if percent.is_some() {
                h.last_drawdown = percent;
            }
        }
        h.last_attestation = now;
        self.store_health(id, h);
        let att = Attestation {
            commitment_id: id.clone(),
            timestamp: now,
            attestation_type: kind,
            data,
            is_compliant,
            verified_by: verifier,
        };
        let ghost before = self.log@;
        self.log.push(att);
        proof {
            assert(self.log@.drop_last() =~= before);
        }
        Ok(())
    }

    /// The error `record_fees` and `record_drawdown` return, if any;
    /// `negative_fee` tells a fee below zero.
    pub open spec fn record_error(
        &self,
        ledger: &CommitmentCoreContract,
        verifier: Address,
        id: Seq<char>,
        negative_fee: bool,
    ) -> Option<CommitmentError> {
        if self.admin.is_none() {
            Some(CommitmentError::NotInitialized)
        } else if !self.may_attest(verifier) {
            Some(CommitmentError::Unauthorized)
        } else if ledger.find(id).is_none() {
            Some(CommitmentError::CommitmentNotFound)
        } else if negative_fee {
            Some(CommitmentError::InvalidAmount)
        } else {
            None
        }
    }

    /// Records a fee of `amount` generated by commitment `id`, as a
    /// "fee_generation" attestation.
    pub fn record_fees(
        &mut self,
        ledger: &CommitmentCoreContract,
        verifier: Address,
        id: &String,
        amount: i128,
        now: u64,
    ) -> (r: Result<(), CommitmentError>)
        requires
            old(self).wf(),
        ensures
            final(self).wf(),
            match r {
                Ok(()) => {
                    &&& final(self).health_of(id@).fees_generated == saturating_sum(old(self).health_of(id@).fees_generated, amount)
                    &&& final(self).health_of(id@).last_drawdown == old(self).health_of(id@).last_drawdown
                    &&& final(self).health_of(id@).last_attestation == now
                    &&& final(self).health_of(id@).compliance_score == old(self).health_of(id@).compliance_score
                    &&& forall|other: Seq<char>| other != id@ ==> final(self).health_of(other) == old(self).health_of(other)
                    &&& final(self).log@.len() == old(self).log@.len() + 1
                    &&& final(self).log@.drop_last() == old(self).log@
                    &&& final(self).log@.last().attestation_type@ == "fee_generation"@
                    &&& final(self).log@.last().is_compliant
                },
                Err(e) => *final(self) == *old(self),
            },
            match r {
                Ok(()) => old(self).record_error(ledger, verifier, id@, amount < 0).is_none(),
                Err(e) => old(self).record_error(ledger, verifier, id@, amount < 0) == Some(e),
            },
    {
        proof {
            reveal_strlit("fee_generation");
            reveal_strlit("amount");
            reveal_strlit("drawdown");
            assert("fee_generation"@.len() == 14 && "drawdown"@.len() == 8);
        }
        let mut data: Vec<(String, i128)> = Vec::new();
        data.push((String::from_str("amount"), amount));
        let kind = String::from_str("fee_generation");
        proof {
            assert(data@[0].0@ == "amount"@);
            assert(entry_value(data@, "amount"@) == Some(amount));
            assert(kind@ == "fee_generation"@);
        }
        self.attest(ledger, verifier, id, kind, data, true, now)
    }

    /// Records a drawdown of `percent` of commitment `id`, as a "drawdown"
    /// attestation that complies when it is within the maximum loss.
    pub fn record_drawdown(
        &mut self,
        ledger: &CommitmentCoreContract,
        verifier: Address,
        id: &String,
        percent: i128,
        now: u64,
    ) -> (r: Result<(), CommitmentError>)
        requires
            old(self).wf(),
        ensures
            final(self).wf(),
            match r {
                Ok(()) => {
                    &&& final(self).health_of(id@).fees_generated == old(self).health_of(id@).fees_generated
                    &&& final(self).health_of(id@).last_drawdown == Some(percent)
                    &&& final(self).health_of(id@).last_attestation == now
                    &&& final(self).health_of(id@).compliance_score == old(self).health_of(id@).compliance_score
                    &&& forall|other: Seq<char>| other != id@ ==> final(self).health_of(other) == old(self).health_of(other)
                    &&& final(self).log@.len() == old(self).log@.len() + 1
                    &&& final(self).log@.drop_last() == old(self).log@
                    &&& final(self).log@.last().attestation_type@ == "drawdown"@
                    &&& final(self).log@.last().is_compliant
                        == (percent <= ledger.record(ledger.find(id@)->Some_0).rules.max_loss_percent)
                },
                Err(e) => *final(self) == *old(self),
            },
            match r {
                Ok(()) => old(self).record_error(ledger, verifier, id@, false).is_none(),
                Err(e) => old(self).record_error(ledger, verifier, id@, false) == Some(e),
            },
    {
        proof {
            reveal_strlit("fee_generation");
            reveal_strlit("percent");
            reveal_strlit("drawdown");
            assert("fee_generation"@.len() == 14 && "drawdown"@.len() == 8);
        }
        let compliant = match ledger.get_commitment(id) {
            Ok(c) => percent <= c.rules.max_loss_percent as i128,
            Err(_) => false,
        };
        let mut data: Vec<(String, i128)> = Vec::new();
        data.push((String::from_str("percent"), percent));
        let kind = String::from_str("drawdown");
        proof {
            assert(data@[0].0@ == "percent"@);
            assert(entry_value(data@, "percent"@) == Some(percent));
            assert(kind@ == "drawdown"@);
            assert(kind@ != "fee_generation"@);
        }
        self.attest(ledger, verifier, id, kind, data, compliant, now)
    }

    /// The attestations about commitment `id`, oldest first.
    pub fn get_attestations(&self, id: &String) -> (r: Vec<Attestation>)
        ensures
            r@.len() == self.attestations_of(id@).len(),
            forall|i: int| 0 <= i < r@.len() ==> same_attestation(#[trigger] r@[i], self.attestations_of(id@)[i]),
    {
        let mut out: Vec<Attestation> = Vec::new();
        let mut i: usize = 0;
        while i < self.log.len()
            invariant
                i <= self.log@.len(),
                out@.len() == attestations_for(self.log@.subrange(0, i as int), id@).len(),
                forall|k: int| 0 <= k < out@.len() ==>
                    same_attestation(#[trigger] out@[k], attestations_for(self.log@.subrange(0, i as int), id@)[k]),
            decreases self.log@.len() - i,
        {
            proof {
                assert(self.log@.subrange(0, i + 1).drop_last() =~= self.log@.subrange(0, i as int));
            }
            if self.log[i].commitment_id == *id {
                out.push(self.log[i].copy_record());
            }
            i = i + 1;
        }
        proof {
            assert(self.log@.subrange(0, i as int) =~= self.log@);
        }
        out
    }

    /// Number of adverse attestations about `id`, at most `cap`.
    fn adverse_upto(&self, id: &String, cap: u64) -> (r: u64)
        ensures
            r == if adverse_count(self.attestations_of(id@)) > cap { cap as nat } else { adverse_count(self.attestations_of(id@)) },
    {
        proof {
            reveal_strlit("violation");
        }
        let violation = String::from_str("violation");
        let mut count: u64 = 0;
        let mut i: usize = 0;
        while i < self.log.len()
            invariant
                i <= self.log@.len(),
                violation@ == "violation"@,
                count == if adverse_count(attestations_for(self.log@.subrange(0, i as int), id@)) > cap {
                    cap as nat
                } else {
                    adverse_count(attestations_for(self.log@.subrange(0, i as int), id@))
                },
            decreases self.log@.len() - i,
        {
            proof {
                assert(self.log@.subrange(0, i + 1).drop_last() =~= self.log@.subrange(0, i as int));
                let pre = attestations_for(self.log@.subrange(0, i as int), id@);
                assert(pre.push(self.log@[i as int]).drop_last() =~= pre);
            }
            let a = &self.log[i];
            let ghost pre = attestations_for(self.log@.subrange(0, i as int), id@);
            let ghost post = attestations_for(self.log@.subrange(0, i + 1), id@);
            proof {
                assert(self.log@.subrange(0, i + 1).last() == self.log@[i as int]);
                if a.commitment_id@ == id@ {
                    assert(post == pre.push(*a));
                    assert(post.drop_last() =~= pre);
                    assert(adverse_count(post) == adverse_count(pre) + if is_adverse(*a) { 1nat } else { 0nat });
                } else {
                    assert(post == pre);
                }
            }
            let matches_id = a.commitment_id == *id;
            let adverse = !a.is_compliant || a.attestation_type == violation;
            proof {
                assert(adverse == is_adverse(*a));
                assert(adverse_count(post) == adverse_count(pre) + if matches_id && adverse { 1nat } else { 0nat });
            }
            if matches_id && adverse {
                if count < cap {
                    count = count + 1;
                }
            }
            i = i + 1;
        }
        proof {
            assert(self.log@.subrange(0, i as int) =~= self.log@);
        }
        count
    }

    /// The score of commitment `c` whose id is `id`, at `now`.
    fn score(&self, c: &Commitment, id: &String, now: u64) -> (r: u32)
        requires
            self.wf(),
            c.wf(),
        ensures
            r == score_of(*c, self.attestations_of(id@), self.health_of(id@), now),
    {
        let adverse = self.adverse_upto(id, 100);
        let h = self.get_health_state(id);
        let loss = loss_percent(c.amount, c.current_value);
        let max = c.rules.max_loss_percent as i128;
        let over: i128 = if loss > max { loss - max } else { 0 };
        let thr = c.rules.min_fee_threshold;
        let bonus: i128 = if thr > 0 && h.fees_generated > 0 { fee_bonus(h.fees_generated, thr) } else { 0 };
        let on_track = term_bonus(c.created_at, c.expires_at, now);
        let raw: i128 = 100 - 20 * (adverse as i128) - over + bonus + on_track;
        proof {
            let n = adverse_count(self.attestations_of(id@));
            if n > 100 {
                assert(raw_score(*c, n, h.fees_generated, now) < 0);
                assert(raw < 0);
            } else {
                assert(raw_score(*c, n, h.fees_generated, now) == raw);
            }
        }
        if raw < 0 {
            0
        } else if raw > 100 {
            100
        } else {
            raw as u32
        }
    }

    /// Computes the compliance score of commitment `id` at `now`, from 0 to
    /// 100, and caches it in the commitment's health.
    pub fn calculate_compliance_score(&mut self, ledger: &CommitmentCoreContract, id: &String, now: u64) -> (r: Result<u32, CommitmentError>)
        requires
            old(self).wf(),
            ledger.wf(),
        ensures
            final(self).wf(),
            match ledger.find(id@) {
                Some(i) => {
                    let score = score_of(ledger.record(i), old(self).attestations_of(id@), old(self).health_of(id@), now);
                    &&& r == Ok::<u32, CommitmentError>(score)
                    &&& score <= 100
                    &&& final(self).health_of(id@) == HealthState { compliance_score: score, ..old(self).health_of(id@) }
                    &&& forall|other: Seq<char>| other != id@ ==> final(self).health_of(other) == old(self).health_of(other)
                    &&& final(self).log == old(self).log
                    &&& final(self).admin == old(self).admin
                    &&& final(self).verifiers == old(self).verifiers
                },
                None => {
                    &&& r == Err::<u32, CommitmentError>(CommitmentError::CommitmentNotFound)
                    &&& *final(self) == *old(self)
                },
            },
    {
        let i = match ledger.find_index(id) {
            Some(i) => i,
            None => {
                return Err(CommitmentError::CommitmentNotFound);
            },
        };
        let c = &ledger.commitments[i];
        proof {
            assert(ledger.commitments@[i as int].wf());
        }
        let score = self.score(c, id, now);
        let mut h = self.get_health_state(id);
        h.compliance_score = score;
        self.store_health(id, h);
        Ok(score)
    }

    /// The health report of commitment `id`: the ledger's values, the fees,
    /// the reported drawdown, the time of the latest attestation and the
    /// cached score.
    pub fn get_health_metrics(&self, ledger: &CommitmentCoreContract, id: &String) -> (r: Result<HealthMetrics, CommitmentError>)
        requires
            self.wf(),
            ledger.wf(),
        ensures
            match ledger.find(id@) {
                Some(i) => {
                    let c = ledger.record(i);
                    let h = self.health_of(id@);
                    &&& r.is_ok()
                    &&& r->Ok_0.commitment_id@ == id@
                    &&& r->Ok_0.current_value == c.current_value
                    &&& r->Ok_0.initial_value == c.amount
                    &&& r->Ok_0.drawdown_percent == reported_drawdown(c, h)
                    &&& r->Ok_0.fees_generated == h.fees_generated
                    &&& r->Ok_0.last_attestation == h.last_attestation
                    &&& r->Ok_0.compliance_score == h.compliance_score
                },
                None => r == Err::<HealthMetrics, CommitmentError>(CommitmentError::CommitmentNotFound),
            },
    {
        let i = match ledger.find_index(id) {
            Some(i) => i,
            None => {
                return Err(CommitmentError::CommitmentNotFound);
            },
        };
        let c = &ledger.commitments[i];
        proof {
            assert(ledger.commitments@[i as int].wf());
        }
        let h = self.get_health_state(id);
        let drawdown = match h.last_drawdown {
            Some(p) => p,
            None => drawdown_percent(c.amount, c.current_value),
        };
        Ok(HealthMetrics {
            commitment_id: id.clone(),
            current_value: c.current_value,
            initial_value: c.amount,
            drawdown_percent: drawdown,
            fees_generated: h.fees_generated,
            last_attestation: h.last_attestation,
            compliance_score: h.compliance_score,
        })
    }

    /// Whether commitment `id` complies with its rules at `now`.
    pub fn verify_compliance(&self, ledger: &CommitmentCoreContract, id: &String, now: u64) -> (r: Result<bool, CommitmentError>)
        requires
            self.wf(),
            ledger.wf(),
        ensures
            match ledger.find(id@) {
                Some(i) => r == Ok::<bool, CommitmentError>(compliant(ledger.record(i), self.health_of(id@), now)),
                None => r == Err::<bool, CommitmentError>(CommitmentError::CommitmentNotFound),
            },
    {
        let i = match ledger.find_index(id) {
            Some(i) => i,
            None => {
                return Err(CommitmentError::CommitmentNotFound);
            },
        };
        let c = &ledger.commitments[i];
        proof {
            assert(ledger.commitments@[i as int].wf());
        }
        if c.status == Status::Settled {
            return Ok(true);
        }
        if c.status == Status::EarlyExit {
            return Ok(false);
        }
        let h = self.get_health_state(id);
        let drawdown = match h.last_drawdown {
            Some(p) => p,
            None => drawdown_percent(c.amount, c.current_value),
        };
        let loss_ok = drawdown <= c.rules.max_loss_percent as i128;
        let duration_ok = c.rules.duration_days == 0 || now <= c.expires_at;
        let fee_ok = c.rules.min_fee_threshold <= 0 || h.fees_generated >= c.rules.min_fee_threshold;
        let score_ok = h.compliance_score == 0 || h.compliance_score >= 80;
        let violated = match ledger.check_violations(id, now) {
            Ok(v) => v,
            Err(_) => true,
        };
        Ok(loss_ok && duration_ok && fee_ok && score_ok && !violated && c.status != Status::Violated)
    }
}

} // verus!
