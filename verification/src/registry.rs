//! The subscribers of one session, and the fan-out to them.

use crate::address::Address;
use vstd::prelude::*;
use vstd::slice::slice_to_vec;

verus! {

/// The members after `addr` subscribed: it joins at the end unless it is a
/// member already.
pub open spec fn subscribed(members: Seq<Address>, addr: Address) -> Seq<Address> {
    if members.contains(addr) {
        members
    } else {
        members.push(addr)
    }
}

/// The members after `addr` left: the others, in their order.
pub open spec fn unsubscribed(members: Seq<Address>, addr: Address) -> Seq<Address>
    decreases members.len(),
{
    if members.len() == 0 {
        members
    } else if members.last() == addr {
        unsubscribed(members.drop_last(), addr)
    } else {
        unsubscribed(members.drop_last(), addr).push(members.last())
    }
}

/// What a broadcast of `payload` hands to the bus: one delivery for each
/// member, in the order of the members, each with the whole payload.
pub open spec fn deliveries(members: Seq<Address>, payload: Seq<u8>) -> Seq<(Address, Seq<u8>)> {
    Seq::new(members.len(), |i: int| (members[i], payload))
}

/// One payload for one subscriber.
#[derive(Debug)]
pub struct Delivery {
    /// The subscriber.
    pub to: Address,
    /// The bytes to send.
    pub payload: Vec<u8>,
}

impl View for Delivery {
    type V = (Address, Seq<u8>);

    open spec fn view(&self) -> (Address, Seq<u8>) {
        (self.to, self.payload@)
    }
}

/// The addresses that receive what a session relays. Its view is the list
/// of members in the order in which they subscribed.
#[derive(Debug)]
pub struct Registry {
    members: Vec<Address>,
}

impl View for Registry {
    type V = Seq<Address>;

    closed spec fn view(&self) -> Seq<Address> {
        self.members@
    }
}

/// Leaving keeps who was there apart from the one who left.
pub proof fn lemma_unsubscribed(members: Seq<Address>, addr: Address)
    ensures
        !unsubscribed(members, addr).contains(addr),
        forall|m: Address|
            m != addr ==> (#[trigger] unsubscribed(members, addr).contains(m) <==> members.contains(
                m,
            )),
        unsubscribed(members, addr).len() <= members.len(),
        members.no_duplicates() ==> unsubscribed(members, addr).no_duplicates(),
        !members.contains(addr) ==> unsubscribed(members, addr) == members,
        members.no_duplicates() && members.contains(addr) ==> unsubscribed(members, addr).len()
            == members.len() - 1,
    decreases members.len(),
{
    if members.len() > 0 {
        let front = members.drop_last();
        let last = members.last();
        let kept = unsubscribed(front, addr);
        let after = unsubscribed(members, addr);
        lemma_unsubscribed(front, addr);
        assert(members =~= front.push(last));
        assert forall|m: Address| #[trigger] members.contains(m) <==> front.contains(m) || m
            == last by {
            if members.contains(m) {
                let i = choose|i: int| 0 <= i < members.len() && members[i] == m;
                if i < front.len() {
                    assert(front[i] == m);
                }
            }
            if front.contains(m) {
                let i = choose|i: int| 0 <= i < front.len() && front[i] == m;
                assert(members[i] == m);
            }
            if m == last {
                assert(members[members.len() - 1] == m);
            }
        }
        if last != addr {
            assert(after == kept.push(last));
            assert forall|m: Address| #[trigger] after.contains(m) <==> kept.contains(m) || m
                == last by {
                if after.contains(m) {
                    let i = choose|i: int| 0 <= i < after.len() && after[i] == m;
                    if i < kept.len() {
                        assert(kept[i] == m);
                    }
                }
                if kept.contains(m) {
                    let i = choose|i: int| 0 <= i < kept.len() && kept[i] == m;
                    assert(after[i] == m);
                }
                if m == last {
                    assert(after[after.len() - 1] == m);
                }
            }
        }
        if members.no_duplicates() {
            assert(front.no_duplicates());
            assert(!front.contains(last)) by {
                if front.contains(last) {
                    let i = choose|i: int| 0 <= i < front.len() && front[i] == last;
                    assert(members[i] == members[members.len() - 1]);
                }
            }
            if last != addr {
                assert(!kept.contains(last));
                assert forall|a: int, b: int|
                    0 <= a < after.len() && 0 <= b < after.len() && a != b implies after[a]
                    != after[b] by {
                    if a < kept.len() && b < kept.len() {
                    } else if a < kept.len() {
                        assert(kept.contains(kept[a]));
                    } else if b < kept.len() {
                        assert(kept.contains(kept[b]));
                    }
                }
            }
        }
    }
}

/// Subscribing is idempotent: a second subscription of the same address
/// leaves the members, and so their number, as the first one left them.
pub proof fn lemma_subscribe_idempotent(members: Seq<Address>, addr: Address)
    ensures
        subscribed(members, addr).contains(addr),
        subscribed(subscribed(members, addr), addr) == subscribed(members, addr),
        subscribed(subscribed(members, addr), addr).len() == subscribed(members, addr).len(),
{
    if !members.contains(addr) {
        assert(members.push(addr)[members.len() as int] == addr);
    }
}

/// Unsubscribing an address that is no member changes nothing.
pub proof fn lemma_unsubscribe_absent(members: Seq<Address>, addr: Address)
    requires
        !members.contains(addr),
    ensures
        unsubscribed(members, addr) == members,
{
    lemma_unsubscribed(members, addr);
}

/// An address that left is no member any more, wherever it stood.
pub proof fn lemma_unsubscribe_prunes(members: Seq<Address>, addr: Address)
    ensures
        !unsubscribed(members, addr).contains(addr),
        unsubscribed(unsubscribed(members, addr), addr) == unsubscribed(members, addr),
{
    lemma_unsubscribed(members, addr);
    lemma_unsubscribed(unsubscribed(members, addr), addr);
}

/// No address is ever held twice: members that are pairwise distinct stay
/// so when one subscribes or leaves.
pub proof fn lemma_members_stay_distinct(members: Seq<Address>, addr: Address)
    requires
        members.no_duplicates(),
    ensures
        subscribed(members, addr).no_duplicates(),
        unsubscribed(members, addr).no_duplicates(),
{
    lemma_unsubscribed(members, addr);
    if !members.contains(addr) {
        let after = members.push(addr);
        assert forall|a: int, b: int|
            0 <= a < after.len() && 0 <= b < after.len() && a != b implies after[a]
            != after[b] by {
            if a < members.len() && b < members.len() {
            } else if a < members.len() {
                assert(members.contains(members[a]));
            } else if b < members.len() {
                assert(members.contains(members[b]));
            }
        }
    }
}

/// Fan-out: a broadcast to no member delivers nothing, and a broadcast to
/// any members delivers to each of them once, the same payload to all.
pub proof fn lemma_broadcast_reaches_all(members: Seq<Address>, payload: Seq<u8>)
    ensures
        deliveries(members, payload).len() == members.len(),
        members.len() == 0 ==> deliveries(members, payload) == Seq::<(Address, Seq<u8>)>::empty(),
        forall|i: int|
            0 <= i < members.len() ==> #[trigger] deliveries(members, payload)[i] == (
                members[i],
                payload,
            ),
{
    if members.len() == 0 {
        assert(deliveries(members, payload) =~= Seq::<(Address, Seq<u8>)>::empty());
    }
}

impl Registry {
    #[verifier::type_invariant]
    spec fn distinct(self) -> bool {
        self.members@.no_duplicates()
    }

    /// A registry without members.
    pub fn new() -> (registry: Registry)
        ensures
            registry@ == Seq::<Address>::empty(),
    {
        Registry { members: Vec::new() }
    }

    /// Index of `addr` among the members.
    fn position(&self, addr: Address) -> (r: Option<usize>)
        ensures
            match r {
                Some(i) => i < self@.len() && self@[i as int] == addr,
                None => !self@.contains(addr),
            },
    {
        let mut i: usize = 0;
        while i < self.members.len()
            invariant
                i <= self.members@.len(),
                forall|j: int| 0 <= j < i ==> self.members@[j] != addr,
            decreases self.members@.len() - i,
        {
            if self.members[i] == addr {
                return Some(i);
            }
            i += 1;
        }
        None
    }

    /// Whether `addr` is a member.
    pub fn contains(&self, addr: Address) -> (r: bool)
        ensures
            r == self@.contains(addr),
    {
        self.position(addr).is_some()
    }

    /// The number of members.
    pub fn len(&self) -> (n: usize)
        ensures
            n == self@.len(),
    {
        self.members.len()
    }

    /// Whether there is no member.
    pub fn is_empty(&self) -> (r: bool)
        ensures
            r == (self@.len() == 0),
    {
        self.members.len() == 0
    }

    /// The members, in the order in which they subscribed. No address
    /// occurs twice.
    pub fn members(&self) -> (out: Vec<Address>)
        ensures
            out@ == self@,
            out@.no_duplicates(),
    {
        proof {
            use_type_invariant(self);
        }
        self.members.clone()
    }

    /// Makes `addr` a member. Returns whether it was new; for one that was
    /// a member already nothing changes.
    pub fn subscribe(&mut self, addr: Address) -> (added: bool)
        ensures
            final(self)@ == subscribed(old(self)@, addr),
            added == !old(self)@.contains(addr),
            final(self)@.no_duplicates(),
    {
        proof {
            use_type_invariant(&*self);
        }
        if self.contains(addr) {
            return false;
        }
        let mut members: Vec<Address> = Vec::new();
        std::mem::swap(&mut members, &mut self.members);
        proof {
            let before = members@;
            assert forall|a: int, b: int|
                0 <= a < before.push(addr).len() && 0 <= b < before.push(addr).len() && a
                    != b implies before.push(addr)[a] != before.push(addr)[b] by {
                if a < before.len() && b < before.len() {
                } else if a < before.len() {
                    assert(before.contains(before[a]));
                } else if b < before.len() {
                    assert(before.contains(before[b]));
                }
            }
        }
        members.push(addr);
        self.members = members;
        true
    }

    /// Takes `addr` out of the members. Returns whether it was one; for one
    /// that was no member nothing changes.
    pub fn unsubscribe(&mut self, addr: Address) -> (removed: bool)
        ensures
            final(self)@ == unsubscribed(old(self)@, addr),
            removed == old(self)@.contains(addr),
            final(self)@.no_duplicates(),
    {
        proof {
            use_type_invariant(&*self);
            lemma_unsubscribed(self@, addr);
        }
        let mut kept: Vec<Address> = Vec::new();
        let mut removed = false;
        let mut i: usize = 0;
        assert(self.members@.take(0) =~= Seq::<Address>::empty());
        while i < self.members.len()
            invariant
                i <= self.members@.len(),
                kept@ == unsubscribed(self.members@.take(i as int), addr),
                removed == self.members@.take(i as int).contains(addr),
            decreases self.members@.len() - i,
        {
            let m = self.members[i];
            proof {
                let before = self.members@.take(i as int);
                let after = self.members@.take(i + 1);
                assert(after.drop_last() =~= before);
                assert(after.last() == m);
                assert(after.contains(addr) <==> before.contains(addr) || m == addr) by {
                    if before.contains(addr) {
                        let j = choose|j: int| 0 <= j < before.len() && before[j] == addr;
                        assert(after[j] == addr);
                    }
                    if m == addr {
                        assert(after[i as int] == addr);
                    }
                    if after.contains(addr) {
                        let j = choose|j: int| 0 <= j < after.len() && after[j] == addr;
                        if j < i {
                            assert(before[j] == addr);
                        }
                    }
                }
            }
            if m == addr {
                removed = true;
            } else {
                kept.push(m);
            }
            i += 1;
        }
        assert(self.members@.take(self.members@.len() as int) =~= self.members@);
        self.members = kept;
        removed
    }

    /// Forgets every member, as a session does when it ends.
    pub fn clear(&mut self)
        ensures
            final(self)@ == Seq::<Address>::empty(),
    {
        self.members = Vec::new();
    }

    /// What to hand to the bus so that every member gets `payload`: one
    /// delivery for each member, each with the payload byte for byte. With
    /// no member there is nothing to hand over.
    pub fn broadcast(&self, payload: &[u8]) -> (out: Vec<Delivery>)
        ensures
            out@.len() == self@.len(),
            forall|i: int| 0 <= i < out@.len() ==> (#[trigger] out@[i])@ == deliveries(
                self@,
                payload@,
            )[i],
    {
        let mut out: Vec<Delivery> = Vec::new();
        let mut i: usize = 0;
        while i < self.members.len()
            invariant
                i <= self.members@.len(),
                out@.len() == i,
                forall|j: int| 0 <= j < i ==> (#[trigger] out@[j])@ == (self.members@[j], payload@),
            decreases self.members@.len() - i,
        {
            out.push(Delivery { to: self.members[i], payload: slice_to_vec(payload) });
            i += 1;
        }
        out
    }
}

} // verus!
