//! The packets that the listener has received and that the commands have
//! not yet taken.
use vstd::prelude::*;

use std::collections::VecDeque;

use vstd::string::*;

use crate::helpers::packet::{type_kind, PacketKind, PacketType, ProcessedPacket};
use crate::text::{decimal, push_decimal};

verus! {

/// The last index in `s` that holds a packet of kind `k`.
pub open spec fn last_index_of_kind(s: Seq<ProcessedPacket>, k: PacketKind) -> Option<int>
    decreases s.len(),
{
    if s.len() == 0 {
        None
    } else if s.last().kind_of() == k {
        Some(s.len() - 1)
    } else {
        last_index_of_kind(s.drop_last(), k)
    }
}

/// The last index in `s` that holds a packet of type `t`.
pub open spec fn last_index_of_type(s: Seq<ProcessedPacket>, t: PacketType) -> Option<int> {
    last_index_of_kind(s, type_kind(t))
}

/// A found index is in bounds and holds a packet of the kind.
pub proof fn lemma_last_index_of_kind(s: Seq<ProcessedPacket>, k: PacketKind)
    ensures
        last_index_of_kind(s, k) matches Some(i) ==> 0 <= i < s.len() && s[i].kind_of() == k,
        last_index_of_kind(s, k) is None ==> forall|j: int|
            0 <= j < s.len() ==> (#[trigger] s[j]).kind_of() != k,
    decreases s.len(),
{
    if s.len() > 0 {
        lemma_last_index_of_kind(s.drop_last(), k);
        assert forall|j: int| 0 <= j < s.len() - 1 implies s.drop_last()[j] == s[j] by {}
    }
}

/// A found index is in bounds and holds a packet of the type.
pub proof fn lemma_last_index_of_type(s: Seq<ProcessedPacket>, t: PacketType)
    ensures
        last_index_of_type(s, t) matches Some(k) ==> 0 <= k < s.len() && s[k].has_type(t),
        last_index_of_type(s, t) is None ==> forall|j: int|
            0 <= j < s.len() ==> !(#[trigger] s[j]).has_type(t),
{
    lemma_last_index_of_kind(s, type_kind(t));
}

/// Waiting for a kind finds a packet of that very variant: a queue that
/// holds a name response, say, yields one when a name response is waited
/// for, and the last one in the queue.
pub proof fn lemma_found_is_latest_of_kind(s: Seq<ProcessedPacket>, k: PacketKind, i: int)
    requires
        0 <= i < s.len(),
        s[i].kind_of() == k,
    ensures
        last_index_of_kind(s, k) matches Some(j) && i <= j < s.len() && s[j].kind_of() == k && (
        forall|m: int| j < m < s.len() ==> s[m].kind_of() != k),
    decreases s.len(),
{
    if s.last().kind_of() != k {
        assert(i < s.len() - 1);
        let p = s.drop_last();
        assert(p[i] == s[i]);
        lemma_found_is_latest_of_kind(p, k, i);
        let j = last_index_of_kind(p, k)->Some_0;
        assert(p[j] == s[j]);
        assert forall|m: int| j < m < s.len() implies s[m].kind_of() != k by {
            if m < s.len() - 1 {
                assert(p[m] == s[m]);
            }
        }
    }
}

/// One look at the queue while waiting for a packet.
#[derive(Debug)]
pub enum WaitStep {
    /// Nothing yet: look again.
    Pending,
    /// The packet that was waited for.
    Found(ProcessedPacket),
    /// The wait is over, with the error that says after how many seconds.
    TimedOut(String),
}

/// The error of a wait that ran out after `elapsed_nanos` nanoseconds:
/// the whole seconds.
pub open spec fn timed_out_message(elapsed_nanos: u64) -> Seq<char> {
    "Timed out after: "@ + decimal((elapsed_nanos / 1_000_000_000) as nat)
}

/// The received packets, oldest first.
pub struct Session {
    pub incoming: VecDeque<ProcessedPacket>,
}

impl Session {
    /// A session over the packets received so far.
    pub fn new(incoming: VecDeque<ProcessedPacket>) -> (s: Session)
        ensures
            s.incoming@ == incoming@,
    {
        Session { incoming }
    }

    /// Takes out the most recently received packet of kind `kind`, if
    /// there is one; the other packets stay, in order.
    pub fn remove_last_of_kind(&mut self, kind: PacketKind) -> (res: Option<ProcessedPacket>)
        ensures
            last_index_of_kind(old(self).incoming@, kind) matches Some(k) ==> (res == Some(
                old(self).incoming@[k],
            ) && final(self).incoming@ == old(self).incoming@.remove(k)),
            last_index_of_kind(old(self).incoming@, kind) is None ==> (res is None
                && final(self).incoming@ == old(self).incoming@),
            res matches Some(p) ==> p.kind_of() == kind,
            res is None ==> forall|j: int|
                0 <= j < old(self).incoming@.len() ==> (#[trigger] old(self).incoming@[j]).kind_of()
                    != kind,
    {
        let ghost s = self.incoming@;
        let n = self.incoming.len();
        let mut rm: Option<usize> = None;
        let mut i: usize = 0;
        assert(s.take(0) =~= Seq::<ProcessedPacket>::empty());
        while i < n
            invariant
                s == self.incoming@,
                n == s.len(),
                i <= n,
                rm matches Some(k) ==> last_index_of_kind(s.take(i as int), kind) == Some(k as int),
                rm is None ==> last_index_of_kind(s.take(i as int), kind) is None,
            decreases n - i,
        {
            assert(s.take(i + 1).drop_last() =~= s.take(i as int));
            assert(s.take(i + 1).last() == s[i as int]);
            if self.incoming[i].kind() == kind {
                rm = Some(i);
            }
            i = i + 1;
        }
        assert(s.take(n as int) =~= s);
        proof {
            lemma_last_index_of_kind(s, kind);
        }
        let packet = match rm {
            None => return None,
            Some(idx) => match self.incoming.remove(idx) {
                None => return None,
                Some(packet) => packet,
            },
        };
        Some(packet)
    }

    /// Takes out the most recently received packet of type `packet_type`,
    /// if there is one; the other packets stay, in order.
    pub fn remove_first(&mut self, packet_type: PacketType) -> (res: Option<ProcessedPacket>)
        ensures
            last_index_of_type(old(self).incoming@, packet_type) matches Some(k) ==> (res == Some(
                old(self).incoming@[k],
            ) && final(self).incoming@ == old(self).incoming@.remove(k)),
            last_index_of_type(old(self).incoming@, packet_type) is None ==> (res is None
                && final(self).incoming@ == old(self).incoming@),
    {
        self.remove_last_of_kind(packet_type.kind())
    }

    /// One step of waiting for a packet of kind `kind`, `elapsed_nanos`
    /// after the wait began: once `timeout_nanos` have passed the wait is
    /// over; before that the packet is taken out as `remove_last_of_kind`
    /// takes it, if it has arrived.
    pub fn wait_and_remove_first(
        &mut self,
        kind: PacketKind,
        elapsed_nanos: u64,
        timeout_nanos: u64,
    ) -> (step: WaitStep)
        ensures
            elapsed_nanos >= timeout_nanos ==> (step matches WaitStep::TimedOut(m) && m@
                == timed_out_message(elapsed_nanos) && final(self).incoming@ == old(
                self,
            ).incoming@),
            elapsed_nanos < timeout_nanos ==> (last_index_of_kind(old(self).incoming@, kind) matches Some(k)
                ==> (step == WaitStep::Found(old(self).incoming@[k]) && final(self).incoming@ == old(
                self,
            ).incoming@.remove(k))),
            elapsed_nanos < timeout_nanos ==> (last_index_of_kind(old(self).incoming@, kind) is None
                ==> (step is Pending && final(self).incoming@ == old(self).incoming@)),
            step matches WaitStep::Found(p) ==> p.kind_of() == kind,
            step is Pending ==> forall|j: int|
                0 <= j < old(self).incoming@.len() ==> (#[trigger] old(self).incoming@[j]).kind_of()
                    != kind,
    {
        if elapsed_nanos >= timeout_nanos {
            let mut m = String::from_str("Timed out after: ");
            push_decimal(&mut m, elapsed_nanos / 1_000_000_000);
            return WaitStep::TimedOut(m);
        }
        match self.remove_last_of_kind(kind) {
            Some(packet) => WaitStep::Found(packet),
            None => WaitStep::Pending,
        }
    }
}

} // verus!
