//! The custody controller: one session owning the evidence store and the
//! ledger, and keeping the two in lockstep.
use vstd::prelude::*;
use crate::clock::get_current_timestamp;
use crate::digest::{block_digest, content_fingerprint, genesis, is_digest_shaped};
use crate::evidence::{has_id, registered, transferred, CustodyError, CustodyEvent, Evidence, Store};
use crate::ledger::{chain_status, ChainStatus, Ledger};

verus! {

/// The roles that can hold evidence.
#[derive(Clone, Copy, Debug, PartialEq, Eq, Structural)]
pub enum Role {
    Investigator,
    EvidenceOfficer,
    Analyst,
    Prosecutor,
}

/// The custodian identifier recorded for a role.
pub open spec fn role_name(role: Role) -> Seq<char> {
    match role {
        Role::Investigator => "Investigator"@,
        Role::EvidenceOfficer => "EvidenceOfficer"@,
        Role::Analyst => "Analyst"@,
        Role::Prosecutor => "Prosecutor"@,
    }
}

impl Role {
    /// The custodian identifier recorded for this role.
    pub fn name(&self) -> (r: String)
        ensures
            r@ == role_name(*self),
    {
        match self {
            Role::Investigator => "Investigator".to_owned(),
            Role::EvidenceOfficer => "EvidenceOfficer".to_owned(),
            Role::Analyst => "Analyst".to_owned(),
            Role::Prosecutor => "Prosecutor".to_owned(),
        }
    }
}

/// What an accepted registration reports.
pub struct Registration {
    pub id: String,
    pub content_hash: String,
    pub block_index: usize,
}

/// What an accepted transfer reports.
pub struct Handover {
    pub id: String,
    pub new_custodian: String,
}

/// The store and the ledger of one running session.
pub struct Session {
    pub store: Store,
    pub ledger: Ledger,
}

impl Session {
    /// The store is well formed, and block `k` anchors the registration of
    /// the `k`-th record.
    pub open spec fn wf(&self) -> bool {
        &&& self.store.wf()
        &&& self.store.view().len() == self.ledger.chain@.len()
        &&& forall|k: int| 0 <= k < self.ledger.chain@.len() ==>
            #[trigger] self.ledger.chain@[k].evidence_id@ == self.store.view()[k].id@
    }

    /// An empty session.
    pub fn new() -> (r: Session)
        ensures
            r.wf(),
            r.store.view().len() == 0,
            r.ledger.chain@.len() == 0,
    {
        Session { store: Store::new(), ledger: Ledger::new() }
    }

    /// Registers `id` with `content`, held by `custodian`, at time `now`:
    /// records the item and appends the block that anchors it. A known
    /// identifier is refused and neither the store nor the ledger changes.
    pub fn register_at(&mut self, id: &str, content: &str, custodian: Role, now: u64) -> (r: Result<Registration, CustodyError>)
        requires
            old(self).wf(),
            old(self).ledger.chain@.len() < usize::MAX,
        ensures
            final(self).wf(),
            has_id(old(self).store.view(), id@) ==> r is Err && r->Err_0 == CustodyError::DuplicateId
                && *final(self) == *old(self),
            !has_id(old(self).store.view(), id@) ==> {
                let n = old(self).ledger.chain@.len();
                let block = final(self).ledger.chain@[n as int];
                &&& r is Ok
                &&& r->Ok_0.id@ == id@
                &&& r->Ok_0.content_hash@ == content_fingerprint(content@)
                &&& is_digest_shaped(r->Ok_0.content_hash@)
                &&& r->Ok_0.block_index == n
                &&& final(self).store.view().len() == n + 1
                &&& final(self).store.view().subrange(0, n as int) == old(self).store.view()
                &&& registered(final(self).store.view()[n as int], id@, content@, role_name(custodian), now)
                &&& final(self).ledger.chain@.len() == n + 1
                &&& final(self).ledger.chain@.subrange(0, n as int) == old(self).ledger.chain@
                &&& block.index == n
                &&& block.evidence_id@ == id@
                &&& block.timestamp == now
                &&& block.previous_hash@ == (if n == 0 { genesis() } else { old(self).ledger.chain@[n - 1].hash@ })
                &&& block.hash@ == block_digest(n as nat, block.previous_hash@, id@, now as nat)
                &&& chain_status(old(self).ledger.chain@) == ChainStatus::Valid ==>
                    chain_status(final(self).ledger.chain@) == ChainStatus::Valid
            },
    {
        let holder = custodian.name();
        let pos = match self.store.register(id, content, holder.as_str(), now) {
            Ok(p) => p,
            Err(e) => return Err(e),
        };
        let index = self.ledger.append(id, now);
        let content_hash = self.store.list()[pos].content_hash.clone();
        proof {
            let s = self.store.view();
            let c = self.ledger.chain@;
            assert forall|k: int| 0 <= k < c.len() implies #[trigger] c[k].evidence_id@ == s[k].id@ by {
                if k < pos {
                    assert(c[k] == old(self).ledger.chain@[k]);
                    assert(s[k] == old(self).store.view()[k]);
                }
            }
        }
        Ok(Registration { id: id.to_owned(), content_hash, block_index: index })
    }

    /// Registers `id` as `register_at` does, stamped with the current time.
    pub fn register(&mut self, id: &str, content: &str, custodian: Role) -> (r: Result<Registration, CustodyError>)
        requires
            old(self).wf(),
            old(self).ledger.chain@.len() < usize::MAX,
        ensures
            final(self).wf(),
            has_id(old(self).store.view(), id@) ==> r is Err && r->Err_0 == CustodyError::DuplicateId
                && *final(self) == *old(self),
            !has_id(old(self).store.view(), id@) ==> {
                let n = old(self).ledger.chain@.len();
                let now = final(self).store.view()[n as int].created_at;
                &&& r is Ok
                &&& r->Ok_0.id@ == id@
                &&& r->Ok_0.content_hash@ == content_fingerprint(content@)
                &&& r->Ok_0.block_index == n
                &&& final(self).store.view().subrange(0, n as int) == old(self).store.view()
                &&& registered(final(self).store.view()[n as int], id@, content@, role_name(custodian), now)
                &&& final(self).ledger.chain@.len() == n + 1
                &&& final(self).ledger.chain@.subrange(0, n as int) == old(self).ledger.chain@
                &&& final(self).ledger.chain@[n as int].index == n
                &&& final(self).ledger.chain@[n as int].evidence_id@ == id@
                &&& final(self).ledger.chain@[n as int].timestamp == now
                &&& final(self).ledger.chain@[n as int].previous_hash@ == (if n == 0 {
                    genesis()
                } else {
                    old(self).ledger.chain@[n - 1].hash@
                })
                &&& final(self).ledger.chain@[n as int].hash@ == block_digest(
                    n as nat,
                    final(self).ledger.chain@[n as int].previous_hash@,
                    id@,
                    now as nat,
                )
                &&& chain_status(old(self).ledger.chain@) == ChainStatus::Valid ==>
                    chain_status(final(self).ledger.chain@) == ChainStatus::Valid
            },
    {
        let now = get_current_timestamp();
        self.register_at(id, content, custodian, now)
    }

    /// Hands `id` over to `new_custodian` at time `now`. The ledger is not
    /// touched; an unknown identifier is refused and nothing changes.
    pub fn transfer_at(&mut self, id: &str, new_custodian: Role, now: u64) -> (r: Result<Handover, CustodyError>)
        requires
            old(self).wf(),
        ensures
            final(self).wf(),
            final(self).ledger == old(self).ledger,
            !has_id(old(self).store.view(), id@) ==> r is Err && r->Err_0 == CustodyError::NotFound
                && *final(self) == *old(self),
            has_id(old(self).store.view(), id@) ==> {
                &&& r is Ok
                &&& r->Ok_0.id@ == id@
                &&& r->Ok_0.new_custodian@ == role_name(new_custodian)
                &&& exists|i: int| {
                    &&& 0 <= i < old(self).store.view().len()
                    &&& old(self).store.view()[i].id@ == id@
                    &&& final(self).store.view() == old(self).store.view().update(i, final(self).store.view()[i])
                    &&& transferred(old(self).store.view()[i], final(self).store.view()[i], role_name(new_custodian), now)
                }
            },
    {
        let holder = new_custodian.name();
        let pos = match self.store.transfer(id, holder.as_str(), now) {
            Ok(p) => p,
            Err(e) => return Err(e),
        };
        proof {
            let s = self.store.view();
            let o = old(self).store.view();
            assert(s =~= o.update(pos as int, s[pos as int]));
            assert forall|k: int| 0 <= k < self.ledger.chain@.len() implies #[trigger] self.ledger.chain@[k].evidence_id@ == s[k].id@ by {
                if k != pos {
                    assert(s[k] == o[k]);
                }
            }
        }
        Ok(Handover { id: id.to_owned(), new_custodian: holder })
    }

    /// Hands `id` over as `transfer_at` does, stamped with the current time.
    pub fn transfer(&mut self, id: &str, new_custodian: Role) -> (r: Result<Handover, CustodyError>)
        requires
            old(self).wf(),
        ensures
            final(self).wf(),
            final(self).ledger == old(self).ledger,
            !has_id(old(self).store.view(), id@) ==> r is Err && r->Err_0 == CustodyError::NotFound
                && *final(self) == *old(self),
            has_id(old(self).store.view(), id@) ==> {
                &&& r is Ok
                &&& r->Ok_0.id@ == id@
                &&& r->Ok_0.new_custodian@ == role_name(new_custodian)
                &&& exists|i: int, now: u64| {
                    &&& 0 <= i < old(self).store.view().len()
                    &&& old(self).store.view()[i].id@ == id@
                    &&& final(self).store.view() == old(self).store.view().update(i, final(self).store.view()[i])
                    &&& transferred(old(self).store.view()[i], final(self).store.view()[i], role_name(new_custodian), now)
                }
            },
    {
        let now = get_current_timestamp();
        self.transfer_at(id, new_custodian, now)
    }

    /// The ledger's verdict on itself.
    pub fn verify(&self) -> (r: ChainStatus)
        ensures
            r == chain_status(self.ledger.chain@),
    {
        self.ledger.verify()
    }

    /// All records, in registration order.
    pub fn list(&self) -> (r: &Vec<Evidence>)
        ensures
            r@ == self.store.view(),
    {
        self.store.list()
    }

    /// The custody history of `id`, if it is registered.
    pub fn history(&self, id: &str) -> (r: Option<&Vec<CustodyEvent>>)
        ensures
            r is None <==> !has_id(self.store.view(), id@),
            r matches Some(h) ==> exists|i: int|
                0 <= i < self.store.view().len() && self.store.view()[i].id@ == id@
                    && self.store.view()[i].history == *h,
    {
        match self.store.get(id) {
            Some(e) => Some(&e.history),
            None => None,
        }
    }
}

} // verus!
