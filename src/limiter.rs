use vstd::prelude::*;
use crate::guard::AddressSet;
use crate::types::Address;

verus! {

/// The ledger operations that can be rate limited.
#[derive(Clone, Copy, Debug, PartialEq, Eq, Structural)]
pub enum Operation {
    Create,
    UpdateValue,
    Allocate,
}

/// A call budget: at most `max_calls` calls per window of `window_seconds`.
#[derive(Clone, Copy, Debug, PartialEq, Eq, Structural)]
pub struct RateLimit {
    pub window_seconds: u64,
    pub max_calls: u32,
}

/// Calls made by `who` to `op` in the window that started at `window_start`.
#[derive(Clone, Copy, Debug, PartialEq, Eq, Structural)]
pub struct Usage {
    pub who: Address,
    pub op: Operation,
    pub window_start: u64,
    pub calls: u32,
}

/// Index of the first usage record of `s` at or after `j` for `(who, op)`.
pub open spec fn usage_position(s: Seq<Usage>, who: Address, op: Operation, j: int) -> Option<int>
    decreases s.len() - j,
{
    if j < 0 || j >= s.len() {
        None
    } else if s[j].who == who && s[j].op == op {
        Some(j)
    } else {
        usage_position(s, who, op, j + 1)
    }
}

/// Per-address, per-operation call budgets set by the admin, with an
/// exemption list. A window starts at the first call after the previous one
/// ended.
#[derive(Clone, Debug)]
pub struct RateLimiter {
    pub create: Option<RateLimit>,
    pub update_value: Option<RateLimit>,
    pub allocate: Option<RateLimit>,
    pub exempt: AddressSet,
    pub usage: Vec<Usage>,
}

impl RateLimiter {
    pub open spec fn limit_of(&self, op: Operation) -> Option<RateLimit> {
        match op {
            Operation::Create => self.create,
            Operation::UpdateValue => self.update_value,
            Operation::Allocate => self.allocate,
        }
    }

    /// Same budgets and exemptions as `other`.
    pub open spec fn same_rules(&self, other: &RateLimiter) -> bool {
        &&& self.create == other.create
        &&& self.update_value == other.update_value
        &&& self.allocate == other.allocate
        &&& self.exempt == other.exempt
    }

    /// Whether the window of `u` has ended at `now`.
    pub open spec fn window_over(u: Usage, limit: RateLimit, now: u64) -> bool {
        now >= u.window_start && now - u.window_start >= limit.window_seconds
    }

    /// Calls of `who` to `op` counted in the window open at `now`.
    pub open spec fn calls_in_window(&self, who: Address, op: Operation, now: u64) -> int {
        match usage_position(self.usage@, who, op, 0) {
            None => 0,
            Some(i) => if Self::window_over(self.usage@[i], self.limit_of(op)->Some_0, now) {
                0
            } else {
                self.usage@[i].calls as int
            },
        }
    }

    /// Whether `who` is limited on `op`.
    pub open spec fn limited(&self, who: Address, op: Operation) -> bool {
        !self.exempt.contains(who) && self.limit_of(op).is_some()
    }

    /// Whether a call of `who` to `op` at `now` is within budget.
    pub open spec fn allows(&self, who: Address, op: Operation, now: u64) -> bool {
        !self.limited(who, op) || self.calls_in_window(who, op, now) < self.limit_of(op)->Some_0.max_calls
    }

    /// The usage records once a call of `who` to `op` at `now` is counted.
    pub open spec fn counted(&self, who: Address, op: Operation, now: u64) -> Seq<Usage> {
        if !self.limited(who, op) {
            self.usage@
        } else {
            let start = match usage_position(self.usage@, who, op, 0) {
                Some(i) => if Self::window_over(self.usage@[i], self.limit_of(op)->Some_0, now) {
                    now
                } else {
                    self.usage@[i].window_start
                },
                None => now,
            };
            let u = Usage { who, op, window_start: start, calls: (self.calls_in_window(who, op, now) + 1) as u32 };
            match usage_position(self.usage@, who, op, 0) {
                Some(i) => self.usage@.update(i, u),
                None => self.usage@.push(u),
            }
        }
    }

    pub fn new() -> (r: RateLimiter)
        ensures
            r.create.is_none(),
            r.update_value.is_none(),
            r.allocate.is_none(),
            forall|a: Address| !r.exempt.contains(a),
            r.usage@.len() == 0,
    {
        RateLimiter { create: None, update_value: None, allocate: None, exempt: AddressSet::new(), usage: Vec::new() }
    }

    pub fn limit(&self, op: Operation) -> (r: Option<RateLimit>)
        ensures
            r == self.limit_of(op),
    {
        match op {
            Operation::Create => self.create,
            Operation::UpdateValue => self.update_value,
            Operation::Allocate => self.allocate,
        }
    }

    /// Sets the budget of `op`.
    pub fn set_limit(&mut self, op: Operation, limit: RateLimit)
        ensures
            final(self).limit_of(op) == Some(limit),
            forall|o: Operation| o != op ==> final(self).limit_of(o) == old(self).limit_of(o),
            final(self).exempt == old(self).exempt,
            final(self).usage == old(self).usage,
    {
        match op {
            Operation::Create => self.create = Some(limit),
            Operation::UpdateValue => self.update_value = Some(limit),
            Operation::Allocate => self.allocate = Some(limit),
        }
    }

    /// Exempts `who` from every budget, or ends its exemption.
    pub fn set_exempt(&mut self, who: Address, exempt: bool)
        ensures
            final(self).exempt.contains(who) == exempt,
            forall|a: Address| a != who ==> (final(self).exempt.contains(a) <==> old(self).exempt.contains(a)),
            final(self).create == old(self).create,
            final(self).update_value == old(self).update_value,
            final(self).allocate == old(self).allocate,
            final(self).usage == old(self).usage,
    {
        if exempt {
            self.exempt.insert(who);
        } else {
            self.exempt.remove(who);
        }
    }

    fn find_usage(&self, who: Address, op: Operation) -> (r: Option<usize>)
        ensures
            match r {
                Some(i) => usage_position(self.usage@, who, op, 0) == Some(i as int) && i < self.usage@.len(),
                None => usage_position(self.usage@, who, op, 0).is_none(),
            },
    {
        let mut i: usize = 0;
        while i < self.usage.len()
            invariant
                i <= self.usage@.len(),
                usage_position(self.usage@, who, op, 0) == usage_position(self.usage@, who, op, i as int),
            decreases self.usage@.len() - i,
        {
            if self.usage[i].who == who && self.usage[i].op == op {
                return Some(i);
            }
            i = i + 1;
        }
        None
    }

    /// Whether a call of `who` to `op` at `now` is within budget.
    pub fn check(&self, who: Address, op: Operation, now: u64) -> (r: bool)
        ensures
            r == self.allows(who, op, now),
    {
        let limit = match self.limit(op) {
            None => {
                return true;
            },
            Some(l) => l,
        };
        if self.exempt.has(who) {
            return true;
        }
        match self.find_usage(who, op) {
            None => 0 < limit.max_calls,
            Some(i) => {
                let u = self.usage[i];
                let over = now >= u.window_start && now - u.window_start >= limit.window_seconds;
                if over {
                    0 < limit.max_calls
                } else {
                    u.calls < limit.max_calls
                }
            },
        }
    }

    /// Counts a call of `who` to `op` at `now`, which must be within budget.
    pub fn record(&mut self, who: Address, op: Operation, now: u64)
        requires
            old(self).allows(who, op, now),
        ensures
            final(self).usage@ == old(self).counted(who, op, now),
            final(self).create == old(self).create,
            final(self).update_value == old(self).update_value,
            final(self).allocate == old(self).allocate,
            final(self).exempt == old(self).exempt,
    {
        let limit = match self.limit(op) {
            None => {
                return;
            },
            Some(l) => l,
        };
        if self.exempt.has(who) {
            return;
        }
        match self.find_usage(who, op) {
            None => {
                self.usage.push(Usage { who, op, window_start: now, calls: 1 });
            },
            Some(i) => {
                let u = self.usage[i];
                let over = now >= u.window_start && now - u.window_start >= limit.window_seconds;
                let fresh = if over {
                    Usage { who, op, window_start: now, calls: 1 }
                } else {
                    Usage { who, op, window_start: u.window_start, calls: u.calls + 1 }
                };
                self.usage.set(i, fresh);
            },
        }
    }
}

} // verus!
