//! What the front end asks of the received packets.
use vstd::prelude::*;
use vstd::string::*;

use std::collections::VecDeque;

use crate::helpers::packet::ProcessedPacket;

verus! {

/// The packets of `s` that are not name assignments, in order.
pub open spec fn without_assignments(s: Seq<ProcessedPacket>) -> Seq<ProcessedPacket>
    decreases s.len(),
{
    if s.len() == 0 {
        s
    } else if s.last() is Assign {
        without_assignments(s.drop_last())
    } else {
        without_assignments(s.drop_last()).push(s.last())
    }
}

/// The identifier in the last name assignment of `s`, if any.
pub open spec fn last_assigned(s: Seq<ProcessedPacket>) -> Option<Seq<char>>
    decreases s.len(),
{
    if s.len() == 0 {
        None
    } else if s.last() is Assign {
        Some(s.last()->Assign_0.content@)
    } else {
        last_assigned(s.drop_last())
    }
}

/// The test that a packet is not a name assignment.
pub open spec fn not_assignment() -> spec_fn(ProcessedPacket) -> bool {
    |p: ProcessedPacket| !(p is Assign)
}

/// The packets of `s` that are not name assignments, in order.
pub open spec fn non_assignments(s: Seq<ProcessedPacket>) -> Seq<ProcessedPacket> {
    s.filter(not_assignment())
}

/// Taking the assignments out keeps exactly the other packets, in their
/// order: the queue filtered by "is not an assignment". None of what is
/// left is an assignment, every other packet stays, and the queue does not
/// grow.
pub proof fn lemma_keeps_non_assignments(s: Seq<ProcessedPacket>)
    ensures
        without_assignments(s) == non_assignments(s),
        forall|i: int|
            0 <= i < non_assignments(s).len() ==> !(#[trigger] non_assignments(s)[i] is Assign),
        forall|i: int|
            0 <= i < s.len() && !(s[i] is Assign) ==> non_assignments(s).contains(#[trigger] s[i]),
        non_assignments(s).len() <= s.len(),
    decreases s.len(),
{
    reveal_with_fuel(Seq::filter, 1);
    let pred = not_assignment();
    s.lemma_filter_len(pred);
    assert forall|i: int| 0 <= i < non_assignments(s).len() implies !(
    #[trigger] non_assignments(s)[i] is Assign) by {
        s.lemma_filter_pred(pred, i);
    }
    assert forall|i: int| 0 <= i < s.len() && !(s[i] is Assign) implies non_assignments(s).contains(
        #[trigger] s[i],
    ) by {
        s.lemma_filter_contains(pred, i);
    }
    if s.len() > 0 {
        lemma_keeps_non_assignments(s.drop_last());
    }
}

/// The answer when no name assignment has arrived.
pub open spec fn no_name_message() -> Seq<char> {
    "No name packet found. This is likely becuase there are no packets (server is down)\n or because the client is asking for a name multiple times."@
}

/// Once the assignments are taken out, none is left to take: a second
/// call finds no identifier and leaves the packets as they are.
pub proof fn lemma_assignments_taken_once(s: Seq<ProcessedPacket>)
    ensures
        last_assigned(without_assignments(s)) is None,
        without_assignments(without_assignments(s)) == without_assignments(s),
    decreases s.len(),
{
    if s.len() > 0 {
        let p = s.drop_last();
        lemma_assignments_taken_once(p);
        if !(s.last() is Assign) {
            let w = without_assignments(p);
            assert(w.push(s.last()).drop_last() =~= w);
        }
    }
}

/// Takes every name assignment out of `incoming` and returns the identifier
/// of the last one; the other packets stay, in order.
pub fn get_identifier(incoming: &mut VecDeque<ProcessedPacket>) -> (res: Result<String, String>)
    ensures
        final(incoming)@ == without_assignments(old(incoming)@),
        final(incoming)@ == non_assignments(old(incoming)@),
        last_assigned(old(incoming)@) matches Some(id) ==> (res matches Ok(s) && s@ == id),
        last_assigned(old(incoming)@) is None ==> (res matches Err(e) && e@ == no_name_message()),
{
    let ghost s = incoming@;
    let mut retval: Result<String, String> = Err(
        String::from_str(
            "No name packet found. This is likely becuase there are no packets (server is down)\n or because the client is asking for a name multiple times.",
        ),
    );
    let mut kept: VecDeque<ProcessedPacket> = VecDeque::new();
    let ghost mut i: int = 0;
    assert(s.take(0) =~= Seq::<ProcessedPacket>::empty());
    while incoming.len() > 0
        invariant
            0 <= i <= s.len(),
            incoming@ == s.skip(i),
            kept@ == without_assignments(s.take(i)),
            last_assigned(s.take(i)) matches Some(id) ==> (retval matches Ok(t) && t@ == id),
            last_assigned(s.take(i)) is None ==> (retval matches Err(e) && e@ == no_name_message()),
        decreases incoming@.len(),
    {
        let packet = incoming.pop_front().unwrap();
        proof {
            assert(packet == s[i]);
            assert(s.take(i + 1).drop_last() =~= s.take(i));
            assert(s.take(i + 1).last() == s[i]);
            assert(s.skip(i + 1) =~= s.skip(i).drop_first());
            i = i + 1;
        }
        match packet {
            ProcessedPacket::Assign(p) => {
                retval = Ok(p.content);
            },
            other => {
                kept.push_back(other);
            },
        }
    }
    assert(s.take(i) =~= s);
    proof {
        lemma_keeps_non_assignments(s);
    }
    *incoming = kept;
    retval
}

/// Connecting by code is not offered: every request is refused.
pub fn try_connect(seq: String) -> (res: Result<String, String>)
    ensures
        res matches Err(e) && e@ == "Unimplemented"@,
{
    Err(String::from_str("Unimplemented"))
}

} // verus!
