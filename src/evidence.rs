//! Evidence records and the store that owns them.
use vstd::prelude::*;
use crate::digest::{content_digest, content_fingerprint, is_digest_shaped};

verus! {

/// One change of custody.
pub struct CustodyEvent {
    /// The previous custodian; absent for the initial handoff.
    pub from: Option<String>,
    pub to: String,
    pub timestamp: u64,
    pub action: String,
}

/// An evidence item and its custody history.
pub struct Evidence {
    pub id: String,
    /// Hex SHA-256 fingerprint of the item's content at registration.
    pub content_hash: String,
    pub created_at: u64,
    pub current_custodian: String,
    /// Custody events, oldest first.
    pub history: Vec<CustodyEvent>,
}

/// Why the store refused a command.
#[derive(Clone, Copy, Debug, PartialEq, Eq, Structural)]
pub enum CustodyError {
    /// An item with this identifier is already registered.
    DuplicateId,
    /// No item with this identifier is registered.
    NotFound,
}

/// The label of the first custody event of every item.
pub open spec fn initial_action() -> Seq<char> {
    "Initial Handoff"@
}

/// The label of a custody event recorded by a transfer.
pub open spec fn transfer_action() -> Seq<char> {
    "Transferred"@
}

/// Event `k + 1` hands over from the custodian that event `k` handed to.
pub open spec fn linked(h: Seq<CustodyEvent>, k: int) -> bool {
    h[k + 1].from is Some && h[k + 1].from->Some_0@ == h[k].to@
}

/// A custody history with no gaps: it starts with a handoff from nobody,
/// each event hands over from the previous event's recipient, and the last
/// recipient is the current custodian.
pub open spec fn continuous(h: Seq<CustodyEvent>, current: Seq<char>) -> bool {
    &&& h.len() >= 1
    &&& h[0].from is None
    &&& forall|k: int| 0 <= k < h.len() - 1 ==> #[trigger] linked(h, k)
    &&& current == h.last().to@
}

/// Some item in `s` has identifier `id`.
pub open spec fn has_id(s: Seq<Evidence>, id: Seq<char>) -> bool {
    exists|i: int| 0 <= i < s.len() && #[trigger] s[i].id@ == id
}

/// No two items in `s` share an identifier.
pub open spec fn ids_unique(s: Seq<Evidence>) -> bool {
    forall|i: int, j: int| 0 <= i < s.len() && 0 <= j < s.len() && i != j ==> s[i].id@ != s[j].id@
}

/// `e` is the record that registering `id` with `content` to `custodian` at `now` creates.
pub open spec fn registered(e: Evidence, id: Seq<char>, content: Seq<char>, custodian: Seq<char>, now: u64) -> bool {
    &&& e.id@ == id
    &&& e.content_hash@ == content_fingerprint(content)
    &&& is_digest_shaped(e.content_hash@)
    &&& e.created_at == now
    &&& e.current_custodian@ == custodian
    &&& e.history@.len() == 1
    &&& e.history@[0].from is None
    &&& e.history@[0].to@ == custodian
    &&& e.history@[0].timestamp == now
    &&& e.history@[0].action@ == initial_action()
}

/// `after` is `before` handed over to `to` at `now`: one event appended,
/// from the previous custodian, and nothing else changed.
pub open spec fn transferred(before: Evidence, after: Evidence, to: Seq<char>, now: u64) -> bool {
    let n = before.history@.len();
    &&& after.id == before.id
    &&& after.content_hash == before.content_hash
    &&& after.created_at == before.created_at
    &&& after.current_custodian@ == to
    &&& after.history@.len() == n + 1
    &&& after.history@.subrange(0, n as int) == before.history@
    &&& after.history@[n as int].from is Some
    &&& after.history@[n as int].from->Some_0@ == before.current_custodian@
    &&& after.history@[n as int].to@ == to
    &&& after.history@[n as int].timestamp == now
    &&& after.history@[n as int].action@ == transfer_action()
}

/// Every item keeps a continuous custody history, and identifiers are unique.
pub open spec fn store_wf(s: Seq<Evidence>) -> bool {
    &&& ids_unique(s)
    &&& forall|i: int| 0 <= i < s.len() ==> continuous(#[trigger] s[i].history@, s[i].current_custodian@)
}

/// Evidence records in registration order, keyed by identifier.
pub struct Store {
    items: Vec<Evidence>,
}

impl Store {
    /// The records, in registration order.
    pub closed spec fn view(&self) -> Seq<Evidence> {
        self.items@
    }

    pub open spec fn wf(&self) -> bool {
        store_wf(self.view())
    }

    /// An empty store.
    pub fn new() -> (r: Store)
        ensures
            r.wf(),
            r.view().len() == 0,
    {
        Store { items: Vec::new() }
    }

    /// The number of records.
    pub fn len(&self) -> (r: usize)
        ensures
            r == self.view().len(),
    {
        self.items.len()
    }

    /// The position of the record with identifier `id`, if there is one.
    pub fn position(&self, id: &str) -> (r: Option<usize>)
        ensures
            r is None <==> !has_id(self.view(), id@),
            r matches Some(i) ==> i < self.view().len() && self.view()[i as int].id@ == id@,
    {
        let key = id.to_owned();
        let mut i: usize = 0;
        while i < self.items.len()
            invariant
                i <= self.items@.len(),
                key@ == id@,
                forall|j: int| 0 <= j < i ==> self.items@[j].id@ != id@,
            decreases self.items@.len() - i,
        {
            if self.items[i].id == key {
                return Some(i);
            }
            i = i + 1;
        }
        None
    }

    /// The record with identifier `id`, if there is one.
    pub fn get(&self, id: &str) -> (r: Option<&Evidence>)
        ensures
            r is None <==> !has_id(self.view(), id@),
            r matches Some(e) ==> e.id@ == id@ && exists|i: int|
                0 <= i < self.view().len() && self.view()[i] == *e,
    {
        match self.position(id) {
            Some(i) => Some(&self.items[i]),
            None => None,
        }
    }

    /// All records, in registration order.
    pub fn list(&self) -> (r: &Vec<Evidence>)
        ensures
            r@ == self.view(),
    {
        &self.items
    }

    /// Registers a new item held by `custodian`, fingerprinting `content`, and
    /// returns its position. An identifier already present is refused and the
    /// store is left as it was.
    pub fn register(&mut self, id: &str, content: &str, custodian: &str, now: u64) -> (r: Result<usize, CustodyError>)
        requires
            old(self).wf(),
        ensures
            final(self).wf(),
            has_id(old(self).view(), id@) ==> r == Err::<usize, CustodyError>(CustodyError::DuplicateId)
                && *final(self) == *old(self),
            !has_id(old(self).view(), id@) ==> {
                &&& r == Ok::<usize, CustodyError>(old(self).view().len() as usize)
                &&& final(self).view().len() == old(self).view().len() + 1
                &&& final(self).view().subrange(0, old(self).view().len() as int) == old(self).view()
                &&& registered(final(self).view().last(), id@, content@, custodian@, now)
            },
    {
        if self.position(id).is_some() {
            return Err(CustodyError::DuplicateId);
        }
        let event = CustodyEvent {
            from: None,
            to: custodian.to_owned(),
            timestamp: now,
            action: "Initial Handoff".to_owned(),
        };
        let mut history: Vec<CustodyEvent> = Vec::new();
        history.push(event);
        let e = Evidence {
            id: id.to_owned(),
            content_hash: content_digest(content),
            created_at: now,
            current_custodian: custodian.to_owned(),
            history,
        };
        let pos = self.items.len();
        self.items.push(e);
        proof {
            let s = self.items@;
            assert(s.subrange(0, pos as int) =~= old(self).items@);
            assert forall|i: int, j: int| 0 <= i < s.len() && 0 <= j < s.len() && i != j implies s[i].id@ != s[j].id@ by {
                if i < pos && j < pos {
                    assert(s[i] == old(self).items@[i] && s[j] == old(self).items@[j]);
                } else if i == pos {
                    assert(s[j] == old(self).items@[j]);
                } else {
                    assert(s[i] == old(self).items@[i]);
                }
            }
            assert forall|i: int| 0 <= i < s.len() implies continuous(#[trigger] s[i].history@, s[i].current_custodian@) by {
                if i < pos {
                    assert(s[i] == old(self).items@[i]);
                }
            }
        }
        Ok(pos)
    }

    /// Hands the item with identifier `id` over to `new_custodian`, recording
    /// the event, and returns its position. An unknown identifier is refused
    /// and the store is left as it was.
    pub fn transfer(&mut self, id: &str, new_custodian: &str, now: u64) -> (r: Result<usize, CustodyError>)
        requires
            old(self).wf(),
        ensures
            final(self).wf(),
            !has_id(old(self).view(), id@) ==> r == Err::<usize, CustodyError>(CustodyError::NotFound)
                && *final(self) == *old(self),
            has_id(old(self).view(), id@) ==> {
                &&& r is Ok
                &&& r->Ok_0 < old(self).view().len()
                &&& old(self).view()[r->Ok_0 as int].id@ == id@
                &&& final(self).view().len() == old(self).view().len()
                &&& forall|i: int| 0 <= i < old(self).view().len() && i != r->Ok_0 ==>
                    #[trigger] final(self).view()[i] == old(self).view()[i]
                &&& transferred(old(self).view()[r->Ok_0 as int], final(self).view()[r->Ok_0 as int], new_custodian@, now)
            },
    {
        let pos = match self.position(id) {
            Some(p) => p,
            None => return Err(CustodyError::NotFound),
        };
        let mut e = self.items.remove(pos);
        let ghost before = e;
        let event = CustodyEvent {
            from: Some(e.current_custodian.clone()),
            to: new_custodian.to_owned(),
            timestamp: now,
            action: "Transferred".to_owned(),
        };
        e.history.push(event);
        e.current_custodian = new_custodian.to_owned();
        self.items.insert(pos, e);
        proof {
            let s = self.items@;
            let o = old(self).items@;
            assert(s =~= o.update(pos as int, e));
            assert(e.history@.subrange(0, before.history@.len() as int) =~= before.history@);
            let h = e.history@;
            assert(continuous(before.history@, before.current_custodian@));
            assert forall|k: int| 0 <= k < h.len() - 1 implies #[trigger] linked(h, k) by {
                if k < h.len() - 2 {
                    assert(linked(before.history@, k));
                }
            }
            assert(continuous(h, e.current_custodian@));
            assert forall|i: int, j: int| 0 <= i < s.len() && 0 <= j < s.len() && i != j implies s[i].id@ != s[j].id@ by {
                assert(o[i].id@ != o[j].id@);
            }
        }
        Ok(pos)
    }
}

} // verus!
