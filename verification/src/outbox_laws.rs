//! What the durable outbox promises: no edit that was journaled is lost, sent
//! twice, changed or sent for someone else.

use crate::outbox::{
    acknowledge_db8_outbox, acknowledged_key, attach_db8_durable_outbox, attach_error,
    check_recovered, entry_for, first_mismatch, holds_key, mismatch_of, queue_view, requeue_recovered,
    requeued, AttachedOutbox, FlowCommit, OutboxAttachError, OutboxAttachment, OutboxEntry,
    OutboxIdentity, OutboxKey, OutboxMismatch, PendingCollaborationUpdate, PendingView,
};
use vstd::prelude::*;

verus! {

/// Two entries are known by the same: what they start from, what they lead to
/// and their hash.
pub open spec fn same_change(one: OutboxEntry, other: OutboxEntry) -> bool {
    &&& one.base_frontier@ == other.base_frontier@
    &&& one.resulting_frontier@ == other.resulting_frontier@
    &&& one.hash@ == other.hash@
}

/// A waiting update is known by what an entry is known by.
pub open spec fn waits_as(pending: PendingView, entry: OutboxEntry) -> bool {
    pending matches PendingView::FlowUpdate { key, .. } && {
        &&& key.base_frontier == entry.base_frontier@
        &&& key.resulting_frontier == entry.resulting_frontier@
        &&& key.hash == entry.hash@
    }
}

/// A waiting update carries an entry's own bytes, for its own peer, to be
/// acknowledged in the journal.
pub open spec fn carries(pending: PendingView, entry: OutboxEntry) -> bool {
    &&& waits_as(pending, entry)
    &&& pending matches PendingView::FlowUpdate { peer_id, update, journaled, .. } && {
        &&& peer_id == entry.identity.peer_id
        &&& update == entry.update@
        &&& journaled
    }
}

/// Nothing that waits, and no earlier entry, is known by what an entry is
/// known by.
pub open spec fn is_fresh(queue: Seq<PendingView>, entries: Seq<OutboxEntry>, i: int) -> bool {
    &&& forall|at: int| 0 <= at < queue.len() ==> !waits_as(#[trigger] queue[at], entries[i])
    &&& forall|j: int| 0 <= j < i ==> !same_change(#[trigger] entries[j], entries[i])
}

proof fn lemma_holds(queue: Seq<PendingView>, entry: OutboxEntry)
    ensures
        holds_key(queue, entry.key_view()) <==> exists|at: int|
            0 <= at < queue.len() && waits_as(#[trigger] queue[at], entry),
{
    if holds_key(queue, entry.key_view()) {
        let at = choose|at: int|
            0 <= at < queue.len() && (#[trigger] queue[at] matches PendingView::FlowUpdate {
                key: own,
                ..
            } && own == entry.key_view());
        assert(waits_as(queue[at], entry));
    }
    if exists|at: int| 0 <= at < queue.len() && waits_as(#[trigger] queue[at], entry) {
        let at = choose|at: int| 0 <= at < queue.len() && waits_as(#[trigger] queue[at], entry);
        assert(queue[at] matches PendingView::FlowUpdate { key: own, .. } && own
            =~= entry.key_view());
    }
}

/// A recovery queues the journaled edits themselves. Behind what waited stand
/// the fresh entries and no others, in the journal's order, each with its own
/// bytes and its own peer; what waited is untouched. The places of the entries
/// that are queued are handed back.
pub proof fn a_recovery_sends_the_journaled_edits(
    queue: Seq<PendingView>,
    entries: Seq<OutboxEntry>,
    k: int,
) -> (places: Seq<int>)
    requires
        0 <= k <= entries.len(),
    ensures
        ({
            let after = requeued(queue, entries, k);
            &&& after.len() == queue.len() + places.len()
            &&& forall|at: int| 0 <= at < queue.len() ==> #[trigger] after[at] == queue[at]
            &&& forall|p: int|
                0 <= p < places.len() ==> 0 <= #[trigger] places[p] < k && carries(
                    after[queue.len() + p],
                    entries[places[p]],
                )
            &&& forall|p: int, q: int|
                0 <= p < q < places.len() ==> #[trigger] places[p] < #[trigger] places[q]
            &&& forall|i: int|
                0 <= i < k ==> (#[trigger] is_fresh(queue, entries, i) <==> places.contains(i))
        }),
    decreases k,
{
    if k <= 0 {
        Seq::empty()
    } else {
        let before = requeued(queue, entries, k - 1);
        let earlier = a_recovery_sends_the_journaled_edits(queue, entries, k - 1);
        let entry = entries[k - 1];
        lemma_holds(before, entry);
        let after = requeued(queue, entries, k);
        if is_fresh(queue, entries, k - 1) {
            if holds_key(before, entry.key_view()) {
                let at = choose|at: int|
                    0 <= at < before.len() && waits_as(#[trigger] before[at], entry);
                if at < queue.len() {
                    assert(waits_as(queue[at], entry));
                } else {
                    let p = at - queue.len();
                    assert(before[queue.len() + p] == before[at]);
                    assert(carries(before[at], entries[earlier[p]]));
                    assert(same_change(entries[earlier[p]], entry));
                }
            }
            let places = earlier.push(k - 1);
            assert forall|p: int| 0 <= p < places.len() implies 0 <= #[trigger] places[p] < k
                && carries(after[queue.len() + p], entries[places[p]]) by {
                if p < earlier.len() {
                    assert(after[queue.len() + p] == before[queue.len() + p]);
                    assert(earlier[p] == places[p]);
                }
            }
            assert forall|i: int| 0 <= i < k implies (#[trigger] is_fresh(queue, entries, i)
                <==> places.contains(i)) by {
                if i < k - 1 {
                    if earlier.contains(i) {
                        let p = choose|p: int| 0 <= p < earlier.len() && earlier[p] == i;
                        assert(places[p] == i);
                    }
                    if places.contains(i) {
                        let p = choose|p: int| 0 <= p < places.len() && places[p] == i;
                        assert(earlier[p] == i);
                    }
                } else {
                    assert(places[earlier.len() as int] == i);
                }
            }
            places
        } else {
            if !holds_key(before, entry.key_view()) {
                assert forall|at: int| 0 <= at < queue.len() implies !waits_as(
                    #[trigger] queue[at],
                    entry,
                ) by {
                    assert(before[at] == queue[at]);
                }
                let j = choose|j: int| 0 <= j < k - 1 && same_change(#[trigger] entries[j], entry);
                let first = lemma_first_same(entries, entry, j);
                if is_fresh(queue, entries, first) {
                    let p = choose|p: int| 0 <= p < earlier.len() && earlier[p] == first;
                    assert(carries(before[queue.len() + p], entries[first]));
                    assert(waits_as(before[queue.len() + p], entry));
                } else {
                    let at = choose|at: int|
                        0 <= at < queue.len() && waits_as(#[trigger] queue[at], entries[first]);
                    assert(waits_as(queue[at], entry));
                }
            }
            assert forall|i: int| 0 <= i < k implies (#[trigger] is_fresh(queue, entries, i)
                <==> earlier.contains(i)) by {
                if i == k - 1 && earlier.contains(i) {
                    let p = choose|p: int| 0 <= p < earlier.len() && earlier[p] == i;
                    assert(earlier[p] < k - 1);
                }
            }
            earlier
        }
    }
}

proof fn lemma_first_same(entries: Seq<OutboxEntry>, entry: OutboxEntry, j: int) -> (first: int)
    requires
        0 <= j < entries.len(),
        same_change(entries[j], entry),
    ensures
        0 <= first <= j,
        same_change(entries[first], entry),
        forall|i: int| 0 <= i < first ==> !same_change(#[trigger] entries[i], entries[first]),
    decreases j,
{
    if exists|i: int| 0 <= i < j && same_change(#[trigger] entries[i], entries[j]) {
        let i = choose|i: int| 0 <= i < j && same_change(#[trigger] entries[i], entries[j]);
        lemma_first_same(entries, entry, i)
    } else {
        j
    }
}

/// Once a recovered update is sent, its own entry is acknowledged in the
/// journal and no other.
pub proof fn a_sent_entry_is_acknowledged(pending: PendingView, entry: OutboxEntry)
    requires
        carries(pending, entry),
    ensures
        acknowledged_key(pending) matches Some(key) && {
            &&& key.base_frontier == entry.base_frontier@
            &&& key.resulting_frontier == entry.resulting_frontier@
            &&& key.hash == entry.hash@
        },
{
}

/// Nothing is acknowledged for what was never journaled.
pub proof fn what_is_not_journaled_is_not_acknowledged(pending: PendingView)
    requires
        pending matches PendingView::FlowUpdate { journaled, .. } ==> !journaled,
    ensures
        acknowledged_key(pending) is None,
{
}

/// An edit that was committed and journaled is sent after a restart as it was
/// made: with the journal holding it and nothing waiting, the one update
/// queued has the commit's bytes and the writer's peer.
pub proof fn a_commit_survives_a_restart(
    identity: OutboxIdentity,
    commit: FlowCommit,
    hash: Seq<u8>,
    entries: Seq<OutboxEntry>,
    i: int,
)
    requires
        0 <= i < entries.len(),
        entry_for(entries[i], identity, commit, hash),
        is_fresh(Seq::empty(), entries, i),
    ensures
        exists|at: int|
            0 <= at < requeued(Seq::empty(), entries, entries.len() as int).len() && (
            #[trigger] requeued(Seq::empty(), entries, entries.len() as int)[at] matches PendingView::FlowUpdate {
                peer_id,
                update,
                key,
                journaled,
            } && {
                &&& peer_id == identity.peer_id
                &&& update == commit.update@
                &&& key.base_frontier == commit.base_frontier@
                &&& key.resulting_frontier == commit.resulting_frontier@
                &&& key.hash == hash
                &&& journaled
            }),
        first_mismatch(seq![entries[i]], identity, 0) is None,
{
    let queue = Seq::<PendingView>::empty();
    let places = a_recovery_sends_the_journaled_edits(queue, entries, entries.len() as int);
    let after = requeued(queue, entries, entries.len() as int);
    let p = choose|p: int| 0 <= p < places.len() && places[p] == i;
    assert(places[p] == i);
    assert(carries(after[queue.len() + p], entries[i]));
    assert(after[p] == after[queue.len() + p]);
    reveal_with_fuel(first_mismatch, 3);
}

/// A journal is taken over only where every entry was written by who writes
/// now; else what is told names the first thing that differs, of the first
/// entry that differs.
pub proof fn only_ones_own_journal_is_taken(
    entries: Seq<OutboxEntry>,
    here: OutboxIdentity,
    from: int,
)
    requires
        0 <= from <= entries.len(),
    ensures
        match first_mismatch(entries, here, from) {
            None => forall|i: int|
                from <= i < entries.len() ==> (#[trigger] entries[i]).identity == here,
            Some(mismatch) => exists|i: int|
                from <= i < entries.len() && {
                    let own = (#[trigger] entries[i]).identity;
                    &&& forall|j: int|
                        from <= j < i ==> (#[trigger] entries[j]).identity == here
                    &&& match mismatch {
                        OutboxMismatch::Document => own.document_id != here.document_id,
                        OutboxMismatch::Actor => own.document_id == here.document_id
                            && own.actor_id != here.actor_id,
                        OutboxMismatch::Replica => own.document_id == here.document_id
                            && own.actor_id == here.actor_id && own.replica_id != here.replica_id,
                        OutboxMismatch::Peer => own.document_id == here.document_id
                            && own.actor_id == here.actor_id && own.replica_id == here.replica_id
                            && own.peer_id != here.peer_id,
                    }
                },
        },
    decreases entries.len() - from,
{
    if from < entries.len() {
        if mismatch_of(entries[from], here) is None {
            assert(entries[from].identity == here);
            only_ones_own_journal_is_taken(entries, here, from + 1);
            if first_mismatch(entries, here, from) is Some {
                let mismatch = first_mismatch(entries, here, from)->0;
                let i = choose|i: int|
                    from + 1 <= i < entries.len() && {
                        let own = (#[trigger] entries[i]).identity;
                        &&& forall|j: int|
                            from + 1 <= j < i ==> (#[trigger] entries[j]).identity == here
                        &&& match mismatch {
                            OutboxMismatch::Document => own.document_id != here.document_id,
                            OutboxMismatch::Actor => own.document_id == here.document_id
                                && own.actor_id != here.actor_id,
                            OutboxMismatch::Replica => own.document_id == here.document_id
                                && own.actor_id == here.actor_id && own.replica_id
                                != here.replica_id,
                            OutboxMismatch::Peer => own.document_id == here.document_id
                                && own.actor_id == here.actor_id && own.replica_id
                                == here.replica_id && own.peer_id != here.peer_id,
                        }
                    };
                assert(entries[i].identity != here);
            }
        } else {
            assert(entries[from].identity != here);
        }
    }
}

/// A journal is attached exactly where there is a lease and an authority, its
/// entries could be read, are all of who writes now and were replayed, and a
/// panel shows what they changed.
pub proof fn a_journal_is_attached_when_all_is_well(
    attachment: OutboxAttachment,
    here: OutboxIdentity,
)
    ensures
        attach_error(attachment, here) is None <==> {
            &&& attachment.has_lease
            &&& attachment.has_authority
            &&& attachment.replay is Ok
            &&& attachment.journal matches Ok(entries) && {
                &&& forall|i: int|
                    0 <= i < entries@.len() ==> (#[trigger] entries@[i]).identity == here
                &&& entries@.len() > 0 ==> attachment.panel_open
            }
        },
        attachment.has_lease && attachment.has_authority ==> {
            &&& attachment.journal matches Err(error) ==> attach_error(attachment, here) == Some(
                OutboxAttachError::Journal(error),
            )
            &&& (attach_error(attachment, here) matches Some(OutboxAttachError::Replay(error))
                ==> attachment.replay == Err::<(), String>(error))
        },
        !attachment.has_lease ==> attach_error(attachment, here) == Some(OutboxAttachError::NoLease),
{
    if let Ok(entries) = attachment.journal {
        only_ones_own_journal_is_taken(entries@, here, 0);
        if first_mismatch(entries@, here, 0) is Some {
            assert(exists|i: int|
                0 <= i < entries@.len() && (#[trigger] entries@[i]).identity != here);
        }
    }
}

/// Recovering a journal queues the journaled edits themselves: behind what
/// waited stand the entries that are fresh, in the journal's order, each with
/// its own bytes for its own peer, and nothing else.
pub proof fn recovering_queues_the_journaled_edits(
    queue: &mut Vec<PendingCollaborationUpdate>,
    entries: Vec<OutboxEntry>,
) -> (places: Seq<int>)
    requires
        call_ensures(requeue_recovered, (queue, &entries), ()),
    ensures
        queued_from(queue_view(old(queue)@), queue_view(final(queue)@), entries@, places),
{
    a_recovery_sends_the_journaled_edits(
        queue_view(old(queue)@),
        entries@,
        entries@.len() as int,
    )
}

/// The queue afterwards is the one before with the fresh entries of a journal
/// behind it, in the journal's order.
pub open spec fn queued_from(
    before: Seq<PendingView>,
    after: Seq<PendingView>,
    entries: Seq<OutboxEntry>,
    places: Seq<int>,
) -> bool {
    &&& after.len() == before.len() + places.len()
    &&& forall|at: int| 0 <= at < before.len() ==> #[trigger] after[at] == before[at]
    &&& forall|p: int|
        0 <= p < places.len() ==> 0 <= #[trigger] places[p] < entries.len() && carries(
            after[before.len() + p],
            entries[places[p]],
        )
    &&& forall|p: int, q: int|
        0 <= p < q < places.len() ==> #[trigger] places[p] < #[trigger] places[q]
    &&& forall|i: int|
        0 <= i < entries.len() ==> (#[trigger] is_fresh(before, entries, i) <==> places.contains(
            i,
        ))
}

/// Attaching a journal queues its edits in the same way, and only where all of
/// it was written by who writes now; else the queue is untouched.
pub proof fn attaching_queues_the_journaled_edits(
    queue: &mut Vec<PendingCollaborationUpdate>,
    attachment: OutboxAttachment,
    here: OutboxIdentity,
    limit: usize,
    attached: Result<AttachedOutbox, OutboxAttachError>,
) -> (places: Seq<int>)
    requires
        call_ensures(attach_db8_durable_outbox, (queue, attachment, here, limit), attached),
    ensures
        attached is Err ==> final(queue)@ == old(queue)@,
        attached matches Ok(outbox) ==> {
            &&& attachment.has_lease
            &&& attachment.has_authority
            &&& attachment.replay is Ok
            &&& attachment.journal matches Ok(entries) && {
                &&& forall|i: int|
                    0 <= i < entries@.len() ==> (#[trigger] entries@[i]).identity == here
                &&& queued_from(
                    queue_view(old(queue)@),
                    queue_view(final(queue)@),
                    entries@,
                    places,
                )
                &&& outbox.replaces_document <==> entries@.len() > 0
                &&& outbox.notice is Some <==> entries@.len() > limit
            }
        },
        attachment.has_lease && attachment.has_authority && attachment.replay is Ok
            && attachment.panel_open && (attachment.journal matches Ok(entries) && forall|i: int|
            0 <= i < entries@.len() ==> (#[trigger] entries@[i]).identity == here)
            ==> attached is Ok,
{
    a_journal_is_attached_when_all_is_well(attachment, here);
    if let Ok(entries) = attachment.journal {
        a_recovery_sends_the_journaled_edits(
            queue_view(old(queue)@),
            entries@,
            entries@.len() as int,
        )
    } else {
        Seq::empty()
    }
}

/// A journal is checked by who wrote it: it passes exactly where every entry
/// was written by who writes now.
pub proof fn a_checked_journal_is_ones_own(
    entries: Vec<OutboxEntry>,
    here: OutboxIdentity,
    checked: Result<(), OutboxMismatch>,
)
    requires
        call_ensures(check_recovered, (&entries, here), checked),
    ensures
        checked is Ok <==> forall|i: int|
            0 <= i < entries@.len() ==> (#[trigger] entries@[i]).identity == here,
{
    only_ones_own_journal_is_taken(entries@, here, 0);
}

/// An edit that is journaled, read back after a restart and sent is
/// acknowledged by what it was journaled under.
pub proof fn a_journaled_commit_is_sent_and_acknowledged(
    identity: OutboxIdentity,
    commit: FlowCommit,
    hash: Vec<u8>,
    entry: OutboxEntry,
    update: PendingCollaborationUpdate,
    key: Option<OutboxKey>,
)
    requires
        call_ensures(OutboxIdentity::accept, (identity, &commit, hash), entry),
        carries(update@, entry),
        call_ensures(acknowledge_db8_outbox, (&update,), key),
    ensures
        update matches PendingCollaborationUpdate::FlowUpdate { peer_id, update: bytes, .. } && {
            &&& peer_id == identity.peer_id
            &&& bytes@ == commit.update@
        },
        key matches Some(key) && {
            &&& key.base_frontier@ == commit.base_frontier@
            &&& key.resulting_frontier@ == commit.resulting_frontier@
            &&& key.hash@ == hash@
        },
{
}

} // verus!
