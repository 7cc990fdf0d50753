use vstd::prelude::*;
use crate::types::Address;

verus! {

/// Why the guard refused an operation.
#[derive(Clone, Copy, Debug, PartialEq, Eq, Structural)]
pub enum AccessDenied {
    NotInitialized,
    Unauthorized,
    Paused,
    Reentrant,
}

/// Admin check, pause flag and reentrancy latch shared by the contracts.
#[derive(Clone, Debug)]
pub struct AccessGuard {
    pub admin: Option<Address>,
    pub paused: bool,
    pub latched: bool,
}

/// Outcome of an admin check by `caller`.
pub open spec fn admin_check(admin: Option<Address>, caller: Address) -> Result<(), AccessDenied> {
    match admin {
        None => Err(AccessDenied::NotInitialized),
        Some(a) => if a == caller { Ok(()) } else { Err(AccessDenied::Unauthorized) },
    }
}

/// Outcome of entering a mutating operation: the latch is tested first, then
/// the pause flag.
pub open spec fn entry_check(latched: bool, paused: bool) -> Result<(), AccessDenied> {
    if latched {
        Err(AccessDenied::Reentrant)
    } else if paused {
        Err(AccessDenied::Paused)
    } else {
        Ok(())
    }
}

impl AccessGuard {
    pub fn new() -> (r: AccessGuard)
        ensures
            r.admin.is_none(),
            !r.paused,
            !r.latched,
    {
        AccessGuard { admin: None, paused: false, latched: false }
    }

    pub fn require_admin(&self, caller: Address) -> (r: Result<(), AccessDenied>)
        ensures
            r == admin_check(self.admin, caller),
    {
        match self.admin {
            None => Err(AccessDenied::NotInitialized),
            Some(a) => if a == caller { Ok(()) } else { Err(AccessDenied::Unauthorized) },
        }
    }

    /// Acquires the reentrancy latch of a mutating operation, failing fast
    /// when it is already held or when the contract is paused.
    pub fn enter(&mut self) -> (r: Result<(), AccessDenied>)
        ensures
            r == entry_check(old(self).latched, old(self).paused),
            r.is_ok() ==> final(self).latched,
            r.is_err() ==> final(self).latched == old(self).latched,
            final(self).admin == old(self).admin,
            final(self).paused == old(self).paused,
    {
        if self.latched {
            return Err(AccessDenied::Reentrant);
        }
        if self.paused {
            return Err(AccessDenied::Paused);
        }
        self.latched = true;
        Ok(())
    }

    /// Releases the reentrancy latch.
    pub fn exit(&mut self)
        ensures
            !final(self).latched,
            final(self).admin == old(self).admin,
            final(self).paused == old(self).paused,
    {
        self.latched = false;
    }

    /// Sets the pause flag to `paused`; admin only.
    pub fn set_paused(&mut self, caller: Address, paused: bool) -> (r: Result<(), AccessDenied>)
        ensures
            r == admin_check(old(self).admin, caller),
            r.is_ok() ==> final(self).paused == paused,
            r.is_err() ==> final(self).paused == old(self).paused,
            final(self).admin == old(self).admin,
            final(self).latched == old(self).latched,
    {
        let c = self.require_admin(caller);
        if c.is_ok() {
            self.paused = paused;
        }
        c
    }
}

/// A set of addresses without repetitions, in insertion order.
#[derive(Clone, Debug)]
pub struct AddressSet {
    pub items: Vec<Address>,
}

impl AddressSet {
    pub open spec fn contains(&self, a: Address) -> bool {
        self.items@.contains(a)
    }

    pub fn new() -> (r: AddressSet)
        ensures
            forall|a: Address| !r.contains(a),
            r.items@.len() == 0,
    {
        AddressSet { items: Vec::new() }
    }

    fn position(&self, a: Address) -> (r: Option<usize>)
        ensures
            match r {
                Some(i) => i < self.items@.len() && self.items@[i as int] == a,
                None => !self.contains(a),
            },
    {
        let mut i: usize = 0;
        while i < self.items.len()
            invariant
                i <= self.items@.len(),
                forall|j: int| 0 <= j < i ==> self.items@[j] != a,
            decreases self.items@.len() - i,
        {
            if self.items[i] == a {
                return Some(i);
            }
            i = i + 1;
        }
        None
    }

    pub fn has(&self, a: Address) -> (r: bool)
        ensures
            r == self.contains(a),
    {
        self.position(a).is_some()
    }

    pub fn insert(&mut self, a: Address)
        ensures
            final(self).items@ == if old(self).contains(a) { old(self).items@ } else { old(self).items@.push(a) },
            final(self).contains(a),
            forall|b: Address| b != a ==> (final(self).contains(b) <==> old(self).contains(b)),
    {
        if self.position(a).is_none() {
            self.items.push(a);
            proof {
                assert(self.items@.last() == a);
                assert forall|b: Address| b != a implies (self.contains(b) <==> old(self).contains(b)) by {
                    if old(self).contains(b) {
                        let k = choose|k: int| 0 <= k < old(self).items@.len() && old(self).items@[k] == b;
                        assert(self.items@[k] == b);
                    }
                    if self.contains(b) {
                        let k = choose|k: int| 0 <= k < self.items@.len() && self.items@[k] == b;
                        assert(old(self).items@[k] == b);
                    }
                }
            }
        }
    }

    pub fn remove(&mut self, x: Address)
        ensures
            !final(self).contains(x),
            forall|b: Address| b != x ==> (final(self).contains(b) <==> old(self).contains(b)),
    {
        let mut kept: Vec<Address> = Vec::new();
        let mut i: usize = 0;
        while i < self.items.len()
            invariant
                i <= self.items@.len(),
                !kept@.contains(x),
                forall|b: Address| b != x ==>
                    (kept@.contains(b) <==> exists|j: int| 0 <= j < i && self.items@[j] == b),
            decreases self.items@.len() - i,
        {
            let m = self.items[i];
            let ghost before = kept@;
            if m != x {
                kept.push(m);
            }
            proof {
                if m != x {
                    assert(kept@ == before.push(m));
                } else {
                    assert(kept@ == before);
                }
                assert forall|k: int| 0 <= k < before.len() implies kept@[k] == before[k] by {}
                assert forall|b: Address| b != x implies
                    (kept@.contains(b) <==> exists|j: int| 0 <= j < i + 1 && self.items@[j] == b) by {
                    if kept@.contains(b) {
                        if before.contains(b) {
                            let j = choose|j: int| 0 <= j < i && self.items@[j] == b;
                            assert(0 <= j < i + 1 && self.items@[j] == b);
                        } else {
                            let k = choose|k: int| 0 <= k < kept@.len() && kept@[k] == b;
                            if k < before.len() {
                                assert(before[k] == b);
                            }
                            assert(self.items@[i as int] == b);
                        }
                    }
                    if exists|j: int| 0 <= j < i + 1 && self.items@[j] == b {
                        let j = choose|j: int| 0 <= j < i + 1 && self.items@[j] == b;
                        if j == i {
                            assert(kept@.last() == b);
                        } else {
                            assert(exists|j2: int| 0 <= j2 < i && self.items@[j2] == b);
                            assert(before.contains(b));
                            let k = choose|k: int| 0 <= k < before.len() && before[k] == b;
                            assert(kept@[k] == b);
                        }
                    }
                }
                if m != x {
                    assert forall|k: int| 0 <= k < kept@.len() implies kept@[k] != x by {
                        if k < before.len() {
                            assert(kept@[k] == before[k]);
                        }
                    }
                }
            }
            i = i + 1;
        }
        proof {
            assert forall|b: Address| b != x implies (kept@.contains(b) <==> self.items@.contains(b)) by {
                if self.items@.contains(b) {
                    let k = choose|k: int| 0 <= k < self.items@.len() && self.items@[k] == b;
                    assert(exists|j: int| 0 <= j < i && self.items@[j] == b);
                }
            }
        }
        self.items = kept;
    }

    /// The members, in insertion order.
    pub fn to_vec(&self) -> (r: Vec<Address>)
        ensures
            r@ == self.items@,
    {
        let mut out: Vec<Address> = Vec::new();
        let mut i: usize = 0;
        while i < self.items.len()
            invariant
                i <= self.items@.len(),
                out@ == self.items@.subrange(0, i as int),
            decreases self.items@.len() - i,
        {
            out.push(self.items[i]);
            proof {
                assert(out@ =~= self.items@.subrange(0, i + 1));
            }
            i = i + 1;
        }
        proof {
            assert(out@ =~= self.items@);
        }
        out
    }
}

} // verus!
