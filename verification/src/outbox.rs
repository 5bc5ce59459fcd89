//! The durable outbox of a shared document: updates that are journaled until
//! every peer has them.

use crate::history::copied;
use crate::text::{decimal, push_decimal};
use vstd::prelude::*;
use vstd::string::StringExecFns;

verus! {

/// Who writes: the document, and the actor, replica and peer that write it.
#[derive(Clone, Copy, Debug, PartialEq, Eq, Structural)]
pub struct OutboxIdentity {
    pub document_id: u128,
    pub actor_id: u128,
    pub replica_id: u128,
    pub peer_id: u64,
}

/// A journaled update.
#[derive(Debug)]
pub struct OutboxEntry {
    pub identity: OutboxIdentity,
    pub update: Vec<u8>,
    pub base_frontier: Vec<u8>,
    pub resulting_frontier: Vec<u8>,
    pub hash: Vec<u8>,
}

/// Why a journal cannot be taken over.
#[derive(Clone, Copy, Debug, PartialEq, Eq, Structural)]
pub enum OutboxMismatch {
    Document,
    Actor,
    Replica,
    Peer,
}

impl OutboxMismatch {
    /// How a mismatch is told.
    pub open spec fn told(self) -> Seq<char> {
        match self {
            OutboxMismatch::Document => "durable outbox document identity mismatch"@,
            OutboxMismatch::Actor => "durable outbox actor identity mismatch"@,
            OutboxMismatch::Replica => "durable outbox replica identity mismatch"@,
            OutboxMismatch::Peer => "durable outbox Loro peer identity mismatch"@,
        }
    }

    /// How a mismatch is told.
    pub fn message(self) -> (text: &'static str)
        ensures
            text@ == self.told(),
    {
        match self {
            OutboxMismatch::Document => "durable outbox document identity mismatch",
            OutboxMismatch::Actor => "durable outbox actor identity mismatch",
            OutboxMismatch::Replica => "durable outbox replica identity mismatch",
            OutboxMismatch::Peer => "durable outbox Loro peer identity mismatch",
        }
    }
}

/// How an entry differs from who writes now.
pub open spec fn mismatch_of(entry: OutboxEntry, here: OutboxIdentity) -> Option<OutboxMismatch> {
    if entry.identity.document_id != here.document_id {
        Some(OutboxMismatch::Document)
    } else if entry.identity.actor_id != here.actor_id {
        Some(OutboxMismatch::Actor)
    } else if entry.identity.replica_id != here.replica_id {
        Some(OutboxMismatch::Replica)
    } else if entry.identity.peer_id != here.peer_id {
        Some(OutboxMismatch::Peer)
    } else {
        None
    }
}

/// The first mismatch of the entries from a place on.
pub open spec fn first_mismatch(entries: Seq<OutboxEntry>, here: OutboxIdentity, from: int) -> Option<
    OutboxMismatch,
>
    decreases entries.len() - from,
{
    if from < 0 || from >= entries.len() {
        None
    } else if mismatch_of(entries[from], here) is Some {
        mismatch_of(entries[from], here)
    } else {
        first_mismatch(entries, here, from + 1)
    }
}

/// Whether a recovered journal is that of who writes now.
pub fn check_recovered(entries: &Vec<OutboxEntry>, here: OutboxIdentity) -> (checked: Result<
    (),
    OutboxMismatch,
>)
    ensures
        match checked {
            Ok(_) => first_mismatch(entries@, here, 0) is None,
            Err(mismatch) => first_mismatch(entries@, here, 0) == Some(mismatch),
        },
{
    let mut next: usize = 0;
    while next < entries.len()
        invariant
            next <= entries@.len(),
            first_mismatch(entries@, here, 0) == first_mismatch(entries@, here, next as int),
        decreases entries@.len() - next,
    {
        let identity = entries[next].identity;
        if identity.document_id != here.document_id {
            return Err(OutboxMismatch::Document);
        }
        if identity.actor_id != here.actor_id {
            return Err(OutboxMismatch::Actor);
        }
        if identity.replica_id != here.replica_id {
            return Err(OutboxMismatch::Replica);
        }
        if identity.peer_id != here.peer_id {
            return Err(OutboxMismatch::Peer);
        }
        next = next + 1;
    }
    Ok(())
}

/// By what a journaled update is known.
#[derive(Debug)]
pub struct OutboxKey {
    pub base_frontier: Vec<u8>,
    pub resulting_frontier: Vec<u8>,
    pub hash: Vec<u8>,
}

/// An update that waits to be sent.
#[derive(Debug)]
pub enum PendingCollaborationUpdate {
    FlowUpdate {
        peer_id: u64,
        update: Vec<u8>,
        key: OutboxKey,
        /// It is journaled, and must be acknowledged there once it is sent.
        journaled: bool,
    },
    Presence(Vec<u8>),
}

fn same_bytes(left: &Vec<u8>, right: &Vec<u8>) -> (b: bool)
    ensures
        b == (left@ == right@),
{
    if left.len() != right.len() {
        return false;
    }
    let mut next: usize = 0;
    while next < left.len()
        invariant
            next <= left@.len(),
            left@.len() == right@.len(),
            forall|i: int| 0 <= i < next ==> left@[i] == right@[i],
        decreases left@.len() - next,
    {
        if left[next] != right[next] {
            return false;
        }
        next = next + 1;
    }
    assert(left@ =~= right@);
    true
}

/// A waiting update by its values.
#[verifier::ext_equal]
pub enum PendingView {
    FlowUpdate { peer_id: u64, update: Seq<u8>, key: KeyView, journaled: bool },
    Presence(Seq<u8>),
}

/// A key by its values.
#[verifier::ext_equal]
pub struct KeyView {
    pub base_frontier: Seq<u8>,
    pub resulting_frontier: Seq<u8>,
    pub hash: Seq<u8>,
}

impl View for OutboxKey {
    type V = KeyView;

    open spec fn view(&self) -> KeyView {
        KeyView {
            base_frontier: self.base_frontier@,
            resulting_frontier: self.resulting_frontier@,
            hash: self.hash@,
        }
    }
}

impl View for PendingCollaborationUpdate {
    type V = PendingView;

    open spec fn view(&self) -> PendingView {
        match *self {
            PendingCollaborationUpdate::FlowUpdate { peer_id, update, key, journaled } =>
                PendingView::FlowUpdate { peer_id, update: update@, key: key@, journaled },
            PendingCollaborationUpdate::Presence(bytes) => PendingView::Presence(bytes@),
        }
    }
}

impl OutboxEntry {
    /// By what the entry is known.
    pub open spec fn key_view(self) -> KeyView {
        KeyView {
            base_frontier: self.base_frontier@,
            resulting_frontier: self.resulting_frontier@,
            hash: self.hash@,
        }
    }

    /// By what the entry is known.
    pub fn key(&self) -> (key: OutboxKey)
        ensures
            key@ == self.key_view(),
    {
        OutboxKey {
            base_frontier: copied(&self.base_frontier),
            resulting_frontier: copied(&self.resulting_frontier),
            hash: copied(&self.hash),
        }
    }
}

/// The queue by its values.
pub open spec fn queue_view(queue: Seq<PendingCollaborationUpdate>) -> Seq<PendingView> {
    Seq::new(queue.len(), |i: int| queue[i]@)
}

/// An update with a key is queued.
pub open spec fn holds_key(queue: Seq<PendingView>, key: KeyView) -> bool {
    exists|i: int|
        0 <= i < queue.len() && (#[trigger] queue[i] matches PendingView::FlowUpdate {
            key: own,
            ..
        } && own == key)
}

/// The queue after the first `k` recovered entries: each that is not queued
/// yet follows once, to be acknowledged in the journal.
pub open spec fn requeued(queue: Seq<PendingView>, entries: Seq<OutboxEntry>, k: int) -> Seq<
    PendingView,
>
    decreases k,
{
    if k <= 0 {
        queue
    } else {
        let before = requeued(queue, entries, k - 1);
        let entry = entries[k - 1];
        if holds_key(before, entry.key_view()) {
            before
        } else {
            before.push(
                PendingView::FlowUpdate {
                    peer_id: entry.identity.peer_id,
                    update: entry.update@,
                    key: entry.key_view(),
                    journaled: true,
                },
            )
        }
    }
}

fn queued(queue: &Vec<PendingCollaborationUpdate>, entry: &OutboxEntry) -> (b: bool)
    ensures
        b == holds_key(queue_view(queue@), entry.key_view()),
{
    let mut next: usize = 0;
    while next < queue.len()
        invariant
            next <= queue@.len(),
            forall|i: int|
                0 <= i < next ==> !(#[trigger] queue_view(queue@)[i] matches PendingView::FlowUpdate {
                    key: own,
                    ..
                } && own == entry.key_view()),
        decreases queue@.len() - next,
    {
        assert(queue_view(queue@)[next as int] == queue@[next as int]@);
        if let PendingCollaborationUpdate::FlowUpdate { key, .. } = &queue[next] {
            if same_bytes(&key.hash, &entry.hash) && same_bytes(
                &key.base_frontier,
                &entry.base_frontier,
            ) && same_bytes(&key.resulting_frontier, &entry.resulting_frontier) {
                return true;
            }
        }
        next = next + 1;
    }
    false
}

/// Queues recovered entries again, each once, behind what is queued.
pub fn requeue_recovered(queue: &mut Vec<PendingCollaborationUpdate>, entries: &Vec<OutboxEntry>)
    ensures
        queue_view(final(queue)@) == requeued(
            queue_view(old(queue)@),
            entries@,
            entries@.len() as int,
        ),
{
    let ghost before = queue_view(queue@);
    let mut next: usize = 0;
    while next < entries.len()
        invariant
            next <= entries@.len(),
            queue_view(queue@) == requeued(before, entries@, next as int),
        decreases entries@.len() - next,
    {
        let entry = &entries[next];
        if !queued(queue, entry) {
            let ghost earlier = queue@;
            let update = PendingCollaborationUpdate::FlowUpdate {
                peer_id: entry.identity.peer_id,
                update: copied(&entry.update),
                key: entry.key(),
                journaled: true,
            };
            queue.push(update);
            assert(queue_view(queue@) =~= queue_view(earlier).push(update@));
        }
        next = next + 1;
    }
}

/// Every recovered entry is queued after a recovery, what was queued keeps
/// its place, and nothing is queued twice by it.
pub proof fn a_recovery_queues_everything_once(
    queue: Seq<PendingView>,
    entries: Seq<OutboxEntry>,
    k: int,
)
    requires
        0 <= k <= entries.len(),
    ensures
        ({
            let after = requeued(queue, entries, k);
            &&& queue.len() <= after.len()
            &&& after.take(queue.len() as int) == queue
            &&& forall|i: int| 0 <= i < k ==> holds_key(after, (#[trigger] entries[i]).key_view())
            &&& requeued(after, entries, k) == after
        }),
    decreases k,
{
    lemma_requeued(queue, entries, k);
    let after = requeued(queue, entries, k);
    lemma_requeued_again(after, entries, k);
}

proof fn lemma_requeued(queue: Seq<PendingView>, entries: Seq<OutboxEntry>, k: int)
    requires
        0 <= k <= entries.len(),
    ensures
        ({
            let after = requeued(queue, entries, k);
            &&& queue.len() <= after.len()
            &&& after.take(queue.len() as int) == queue
            &&& forall|i: int| 0 <= i < k ==> holds_key(after, (#[trigger] entries[i]).key_view())
        }),
    decreases k,
{
    assert(queue.take(queue.len() as int) =~= queue);
    if k > 0 {
        lemma_requeued(queue, entries, k - 1);
        let before = requeued(queue, entries, k - 1);
        let after = requeued(queue, entries, k);
        let new = entries[k - 1].key_view();
        assert(after.take(queue.len() as int) =~= before.take(queue.len() as int));
        if !holds_key(before, new) {
            assert(after[before.len() as int] matches PendingView::FlowUpdate { key: own, .. }
                && own == new);
        }
        assert forall|i: int| 0 <= i < k implies holds_key(
            after,
            (#[trigger] entries[i]).key_view(),
        ) by {
            let key = entries[i].key_view();
            if holds_key(before, key) {
                let at = choose|at: int|
                    0 <= at < before.len() && (#[trigger] before[at] matches PendingView::FlowUpdate {
                        key: own,
                        ..
                    } && own == key);
                assert(after[at] == before[at]);
            }
        }
    }
}

proof fn lemma_requeued_again(after: Seq<PendingView>, entries: Seq<OutboxEntry>, k: int)
    requires
        0 <= k <= entries.len(),
        forall|i: int| 0 <= i < k ==> holds_key(after, (#[trigger] entries[i]).key_view()),
    ensures
        requeued(after, entries, k) == after,
    decreases k,
{
    if k > 0 {
        lemma_requeued_again(after, entries, k - 1);
        assert(holds_key(after, entries[k - 1].key_view()));
    }
}

/// How a large recovery is told.
pub open spec fn recovery_text(recovered: nat) -> Seq<char> {
    "Replaying "@ + decimal(recovered)
        + " exact DB8 updates recovered from the durable outbox; live edits remain journaled until replay catches up."@
}

/// What is told of a large recovery.
pub fn recovery_notice(recovered: usize, limit: usize) -> (text: Option<String>)
    ensures
        text is Some == (recovered > limit),
        text is Some ==> (text->0)@ == recovery_text(recovered as nat),
{
    if recovered <= limit {
        return None;
    }
    let mut text = String::from_str("Replaying ");
    push_decimal(&mut text, recovered as u128);
    text.append(
        " exact DB8 updates recovered from the durable outbox; live edits remain journaled until replay catches up.",
    );
    Some(text)
}

/// The key to acknowledge in the journal once an update is sent.
pub open spec fn acknowledged_key(update: PendingView) -> Option<KeyView> {
    match update {
        PendingView::FlowUpdate { key, journaled, .. } => if journaled {
            Some(key)
        } else {
            None
        },
        PendingView::Presence(_) => None,
    }
}

/// The key to acknowledge in the journal once an update is sent; none for an
/// update that is not journaled.
pub fn acknowledge_db8_outbox(update: &PendingCollaborationUpdate) -> (key: Option<OutboxKey>)
    ensures
        match (key, update@) {
            (Some(key), PendingView::FlowUpdate { key: own, journaled, .. }) => journaled && key@
                == own,
            (None, PendingView::FlowUpdate { journaled, .. }) => !journaled,
            (None, PendingView::Presence(_)) => true,
            (Some(_), PendingView::Presence(_)) => false,
        },
        match key {
            Some(key) => acknowledged_key(update@) == Some(key@),
            None => acknowledged_key(update@) is None,
        },
{
    match update {
        PendingCollaborationUpdate::FlowUpdate { key, journaled, .. } => if *journaled {
            Some(
                OutboxKey {
                    base_frontier: copied(&key.base_frontier),
                    resulting_frontier: copied(&key.resulting_frontier),
                    hash: copied(&key.hash),
                },
            )
        } else {
            None
        },
        _ => None,
    }
}

/// A commit that is to be journaled.
#[derive(Debug)]
pub struct FlowCommit {
    pub update: Vec<u8>,
    pub base_frontier: Vec<u8>,
    pub resulting_frontier: Vec<u8>,
}

/// The entry journals a commit of a writer.
pub open spec fn entry_for(
    entry: OutboxEntry,
    identity: OutboxIdentity,
    commit: FlowCommit,
    hash: Seq<u8>,
) -> bool {
    &&& entry.identity == identity
    &&& entry.update@ == commit.update@
    &&& entry.base_frontier@ == commit.base_frontier@
    &&& entry.resulting_frontier@ == commit.resulting_frontier@
    &&& entry.hash@ == hash
}

impl OutboxIdentity {
    /// The journal's entry for a commit of this writer, given the hash of its
    /// update.
    pub fn accept(self, commit: &FlowCommit, hash: Vec<u8>) -> (entry: OutboxEntry)
        ensures
            entry.identity == self,
            entry.update@ == commit.update@,
            entry.base_frontier@ == commit.base_frontier@,
            entry.resulting_frontier@ == commit.resulting_frontier@,
            entry.hash == hash,
            mismatch_of(entry, self) is None,
            entry_for(entry, self, *commit, hash@),
    {
        OutboxEntry {
            identity: self,
            update: copied(&commit.update),
            base_frontier: copied(&commit.base_frontier),
            resulting_frontier: copied(&commit.resulting_frontier),
            hash,
        }
    }
}

/// Where a document's journal is kept, below the application's data.
pub fn outbox_path(document_id: &str, replica_id: &str) -> (path: String)
    ensures
        path@ == "collaboration-outbox/"@ + document_id@ + "/"@ + replica_id@ + ".flow-outbox"@,
{
    let mut path = String::from_str("collaboration-outbox/");
    path.append(document_id);
    path.append("/");
    path.append(replica_id);
    path.append(".flow-outbox");
    path
}

/// Why a journal was not attached to a document.
#[derive(Debug)]
pub enum OutboxAttachError {
    NoLease,
    NoAuthority,
    /// The journal could not be opened or read.
    Journal(String),
    Mismatch(OutboxMismatch),
    /// Its updates could not be replayed: the document takes no more edits.
    Replay(String),
    PanelClosed,
}

impl OutboxAttachError {
    /// How it is told.
    pub open spec fn told(self) -> Seq<char> {
        match self {
            OutboxAttachError::NoLease => "DB8 replica lineage lease is unavailable; this document is source-read-only"@,
            OutboxAttachError::NoAuthority => "DB8 authority is unavailable for durable outbox attachment"@,
            OutboxAttachError::Journal(error) => error@,
            OutboxAttachError::Mismatch(mismatch) => mismatch.told(),
            OutboxAttachError::Replay(error) => error@,
            OutboxAttachError::PanelClosed => "collaboration DB8 panel is no longer open"@,
        }
    }

    /// How it is told.
    pub fn message(&self) -> (text: String)
        ensures
            text@ == self.told(),
    {
        match self {
            OutboxAttachError::NoLease => String::from_str(
                "DB8 replica lineage lease is unavailable; this document is source-read-only",
            ),
            OutboxAttachError::NoAuthority => String::from_str(
                "DB8 authority is unavailable for durable outbox attachment",
            ),
            OutboxAttachError::Journal(error) => error.clone(),
            OutboxAttachError::Mismatch(mismatch) => String::from_str(mismatch.message()),
            OutboxAttachError::Replay(error) => error.clone(),
            OutboxAttachError::PanelClosed => String::from_str(
                "collaboration DB8 panel is no longer open",
            ),
        }
    }

    /// Why the document takes no more edits, where it takes none.
    pub fn blocks_edits(&self) -> (reason: Option<String>)
        ensures
            match (*self, reason) {
                (OutboxAttachError::Replay(error), Some(reason)) => reason@
                    == "durable outbox replay failed: "@ + error@,
                (OutboxAttachError::Replay(_), None) => false,
                (_, reason) => reason is None,
            },
    {
        match self {
            OutboxAttachError::Replay(error) => {
                let mut reason = String::from_str("durable outbox replay failed: ");
                reason.append(error.as_str());
                Some(reason)
            },
            _ => None,
        }
    }
}

/// A journal that was attached.
#[derive(Debug)]
pub struct AttachedOutbox {
    /// The panel shows the document with the recovered updates.
    pub replaces_document: bool,
    /// What is told of a large recovery.
    pub notice: Option<String>,
}

/// What is at hand when a journal is attached.
#[derive(Debug)]
pub struct OutboxAttachment {
    pub has_lease: bool,
    pub has_authority: bool,
    /// The entries of the journal.
    pub journal: Result<Vec<OutboxEntry>, String>,
    /// What came of replaying them.
    pub replay: Result<(), String>,
    pub panel_open: bool,
}

/// Why a journal is not attached: the first of the things that are wrong.
pub open spec fn attach_error(
    attachment: OutboxAttachment,
    here: OutboxIdentity,
) -> Option<OutboxAttachError> {
    if !attachment.has_lease {
        Some(OutboxAttachError::NoLease)
    } else if !attachment.has_authority {
        Some(OutboxAttachError::NoAuthority)
    } else {
        match attachment.journal {
            Err(error) => Some(OutboxAttachError::Journal(error)),
            Ok(entries) => match first_mismatch(entries@, here, 0) {
                Some(mismatch) => Some(OutboxAttachError::Mismatch(mismatch)),
                None => match attachment.replay {
                    Err(error) => Some(OutboxAttachError::Replay(error)),
                    Ok(_) => if entries@.len() > 0 && !attachment.panel_open {
                        Some(OutboxAttachError::PanelClosed)
                    } else {
                        None
                    },
                },
            },
        }
    }
}

/// Attaches a journal to a document: its recovered entries are queued again,
/// each once, behind what is queued.
pub fn attach_db8_durable_outbox(
    queue: &mut Vec<PendingCollaborationUpdate>,
    attachment: OutboxAttachment,
    here: OutboxIdentity,
    limit: usize,
) -> (attached: Result<AttachedOutbox, OutboxAttachError>)
    ensures
        match attached {
            Err(error) => attach_error(attachment, here) == Some(error) && *final(queue) == *old(
                queue,
            ),
            Ok(attached) => {
                &&& attach_error(attachment, here) is None
                &&& attachment.journal matches Ok(entries) && {
                    &&& queue_view(final(queue)@) == requeued(
                        queue_view(old(queue)@),
                        entries@,
                        entries@.len() as int,
                    )
                    &&& attached.replaces_document == (entries@.len() > 0)
                    &&& match attached.notice {
                        Some(text) => entries@.len() > limit && text@ == recovery_text(
                            entries@.len(),
                        ),
                        None => entries@.len() <= limit,
                    }
                }
            },
        },
{
    if !attachment.has_lease {
        return Err(OutboxAttachError::NoLease);
    }
    if !attachment.has_authority {
        return Err(OutboxAttachError::NoAuthority);
    }
    let entries = match attachment.journal {
        Err(error) => {
            return Err(OutboxAttachError::Journal(error));
        },
        Ok(entries) => entries,
    };
    if let Err(mismatch) = check_recovered(&entries, here) {
        return Err(OutboxAttachError::Mismatch(mismatch));
    }
    if let Err(error) = attachment.replay {
        return Err(OutboxAttachError::Replay(error));
    }
    if entries.len() > 0 && !attachment.panel_open {
        return Err(OutboxAttachError::PanelClosed);
    }
    requeue_recovered(queue, &entries);
    Ok(
        AttachedOutbox {
            replaces_document: entries.len() > 0,
            notice: recovery_notice(entries.len(), limit),
        },
    )
}

} // verus!
