//! Per-backend LSP client state: the request-id counter, the pending
//! table, the lifecycle flags and the memo of opened documents.
//!
//! The transport itself — the subprocess and its framed stdio — lives
//! with the caller that owns the process edge. This state machine
//! decides which id a request gets, how responses, timeouts and
//! transport failures settle pending entries, and when a respawn may
//! happen.

use vstd::prelude::*;
use vstd::string::*;

use crate::errors::LspProxyError;

verus! {

/// Correlation and lifecycle state of one language-server backend.
pub struct LspClientState {
    /// The next request id to issue; ids start at 1 and only grow.
    pub next_id: u64,
    /// Ids of requests sent and not yet resolved, expired or failed.
    pub pending: Vec<u64>,
    /// Whether the `initialize` handshake has been performed.
    pub initialized: bool,
    /// Whether the transport is currently believed usable.
    pub healthy: bool,
    /// Whether the single permitted respawn has been spent.
    pub respawn_attempted: bool,
    /// Uris already opened with `textDocument/didOpen`.
    pub opened_documents: Vec<String>,
}

/// How often `id` occurs in a pending table.
pub open spec fn spec_count(s: Seq<u64>, id: u64) -> nat
    decreases s.len(),
{
    if s.len() == 0 {
        0
    } else {
        (if s.last() == id {
            1nat
        } else {
            0nat
        }) + spec_count(s.drop_last(), id)
    }
}

pub proof fn lemma_count_push(s: Seq<u64>, x: u64, id: u64)
    ensures
        spec_count(s.push(x), id) == spec_count(s, id) + (if x == id {
            1nat
        } else {
            0nat
        }),
{
    assert(s.push(x).drop_last() =~= s);
    assert(s.push(x).last() == x);
}

pub proof fn lemma_count_zero(s: Seq<u64>, id: u64)
    ensures
        (spec_count(s, id) == 0) <==> (forall|i: int| 0 <= i < s.len() ==> s[i] != id),
    decreases s.len(),
{
    if s.len() > 0 {
        lemma_count_zero(s.drop_last(), id);
        assert(forall|i: int| 0 <= i < s.len() - 1 ==> s[i] == s.drop_last()[i]);
    }
}

/// In a table of mutually distinct ids, no id occurs more than once.
pub proof fn lemma_unique_count(s: Seq<u64>, id: u64)
    requires
        forall|i: int, j: int| 0 <= i < j < s.len() ==> s[i] != s[j],
    ensures
        spec_count(s, id) <= 1,
    decreases s.len(),
{
    if s.len() > 0 {
        let t = s.drop_last();
        assert(forall|i: int| 0 <= i < t.len() ==> t[i] == s[i]);
        lemma_unique_count(t, id);
        if s.last() == id {
            assert(forall|i: int| 0 <= i < t.len() ==> t[i] != id);
            lemma_count_zero(t, id);
        }
    }
}

/// What issuing a request id does: the counter's value is handed out,
/// the counter advances, and the id joins the pending table.
pub open spec fn spec_issue_post(pre: LspClientState, post: LspClientState, id: u64) -> bool {
    &&& id == pre.next_id
    &&& post.next_id == id + 1
    &&& post.pending@ == pre.pending@.push(id)
    &&& post.initialized == pre.initialized
    &&& post.healthy == pre.healthy
    &&& post.respawn_attempted == pre.respawn_attempted
    &&& post.opened_documents@ == pre.opened_documents@
}

/// What settling an id does: the id is gone afterwards, every other id
/// is untouched, and `was` tells whether there was anything to settle.
pub open spec fn spec_take_post(
    pre: LspClientState,
    post: LspClientState,
    id: u64,
    was: bool,
) -> bool {
    &&& was == pre.spec_pending_contains(id)
    &&& !post.spec_pending_contains(id)
    &&& forall|x: u64|
        x != id ==> #[trigger] post.spec_pending_contains(x) == pre.spec_pending_contains(x)
    &&& post.pending@.len() == pre.pending@.len() - (if was {
        1int
    } else {
        0int
    })
    &&& post.next_id == pre.next_id
    &&& post.initialized == pre.initialized
    &&& post.healthy == pre.healthy
    &&& post.respawn_attempted == pre.respawn_attempted
    &&& post.opened_documents@ == pre.opened_documents@
}

/// What an initialize attempt does: only a never-initialized client may
/// proceed; a second attempt is rejected and changes nothing.
pub open spec fn spec_initialize_post(
    pre: LspClientState,
    post: LspClientState,
    r: Result<(), LspProxyError>,
) -> bool {
    if pre.initialized {
        &&& r is Err
        &&& post == pre
    } else {
        &&& r is Ok
        &&& post == LspClientState { initialized: true, ..pre }
    }
}

/// What a respawn attempt on a downed client does: the one attempt, if
/// still available, yields a fresh process state (healthy again, not
/// initialized, nothing pending, no document reopened yet, the id
/// counter kept); once spent, attempts change nothing.
pub open spec fn spec_respawn_post(pre: LspClientState, post: LspClientState, r: bool) -> bool {
    &&& r == !pre.respawn_attempted
    &&& post.respawn_attempted
    &&& if r {
        &&& post.healthy
        &&& !post.initialized
        &&& post.pending@.len() == 0
        &&& post.opened_documents@.len() == 0
        &&& post.next_id == pre.next_id
    } else {
        post == pre
    }
}

impl LspClientState {
    /// The invariant: every pending id was issued (is below `next_id`),
    /// pending ids are mutually distinct, and ids start at 1.
    pub open spec fn wf(self) -> bool {
        &&& self.next_id >= 1
        &&& forall|i: int| 0 <= i < self.pending@.len() ==> self.pending@[i] < self.next_id
        &&& forall|i: int, j: int|
            0 <= i < j < self.pending@.len() ==> self.pending@[i] != self.pending@[j]
    }

    pub open spec fn spec_pending_contains(self, id: u64) -> bool {
        exists|i: int| 0 <= i < self.pending@.len() && self.pending@[i] == id
    }

    pub open spec fn spec_opened_contains(self, uri: Seq<char>) -> bool {
        exists|i: int| 0 <= i < self.opened_documents@.len() && self.opened_documents@[i]@ == uri
    }

    pub fn new() -> (r: LspClientState)
        ensures
            r.wf(),
            r.next_id == 1,
            r.pending@.len() == 0,
            !r.initialized,
            r.healthy,
            !r.respawn_attempted,
            r.opened_documents@.len() == 0,
    {
        LspClientState {
            next_id: 1,
            pending: Vec::new(),
            initialized: false,
            healthy: true,
            respawn_attempted: false,
            opened_documents: Vec::new(),
        }
    }

    /// Issues a fresh request id and records it as pending. The id was
    /// never pending before the call and is pending exactly once after.
    pub fn issue_request_id(&mut self) -> (id: u64)
        requires
            old(self).wf(),
            old(self).next_id < u64::MAX,
        ensures
            final(self).wf(),
            spec_issue_post(*old(self), *final(self), id),
            !old(self).spec_pending_contains(id),
            spec_count(final(self).pending@, id) == 1,
    {
        let id = self.next_id;
        self.next_id = self.next_id + 1;
        self.pending.push(id);
        proof {
            lemma_count_zero(old(self).pending@, id);
            lemma_count_push(old(self).pending@, id, id);
        }
        id
    }

    /// Settles `id`: true when it was pending — the entry is removed —
    /// and false when unknown, in which case nothing changes (a stray,
    /// already-settled or expired response is discarded without touching
    /// other pending requests).
    #[verifier::loop_isolation(false)]
    pub fn take_pending(&mut self, id: u64) -> (was: bool)
        requires
            old(self).wf(),
        ensures
            final(self).wf(),
            spec_take_post(*old(self), *final(self), id, was),
    {
        let ghost pre = self.pending@;
        let mut i: usize = 0;
        while i < self.pending.len()
            invariant
                i <= self.pending@.len(),
                *self == *old(self),
                self.pending@ == pre,
                forall|j: int| 0 <= j < i ==> pre[j] != id,
            decreases self.pending@.len() - i,
        {
            if self.pending[i] == id {
                self.pending.remove(i);
                proof {
                    pre.remove_ensures(i as int);
                    assert(!self.spec_pending_contains(id)) by {
                        assert forall|a: int|
                            0 <= a < self.pending@.len() implies self.pending@[a] != id by {
                            if a < i {
                                assert(self.pending@[a] == pre[a]);
                            } else {
                                assert(self.pending@[a] == pre[a + 1]);
                            }
                        }
                    }
                    assert forall|x: u64| x != id implies #[trigger] self.spec_pending_contains(x)
                        == old(self).spec_pending_contains(x) by {
                        if old(self).spec_pending_contains(x) {
                            let a = choose|a: int|
                                0 <= a < pre.len() && pre[a] == x;
                            if a < i {
                                assert(self.pending@[a] == x);
                            } else {
                                assert(self.pending@[a - 1] == x);
                            }
                        } else {
                            if self.spec_pending_contains(x) {
                                let a = choose|a: int|
                                    0 <= a < self.pending@.len() && self.pending@[a] == x;
                                if a < i {
                                    assert(pre[a] == x);
                                } else {
                                    assert(pre[a + 1] == x);
                                }
                            }
                        }
                    }
                    assert(final(self).wf()) by {
                        assert forall|a: int, b: int|
                            0 <= a < b < self.pending@.len() implies self.pending@[a]
                            != self.pending@[b] by {
                            let a0 = if a < i {
                                a
                            } else {
                                a + 1
                            };
                            let b0 = if b < i {
                                b
                            } else {
                                b + 1
                            };
                            assert(self.pending@[a] == pre[a0]);
                            assert(self.pending@[b] == pre[b0]);
                        }
                    }
                }
                return true;
            }
            i = i + 1;
        }
        false
    }

    /// The transport failed: the client is marked unhealthy and every
    /// pending request is taken out, returned so that each caller can be
    /// failed with `TransportFailed`.
    pub fn fail_all_pending(&mut self) -> (ids: Vec<u64>)
        requires
            old(self).wf(),
        ensures
            final(self).wf(),
            ids@ == old(self).pending@,
            final(self).pending@.len() == 0,
            !final(self).healthy,
            final(self).next_id == old(self).next_id,
            final(self).initialized == old(self).initialized,
            final(self).respawn_attempted == old(self).respawn_attempted,
            final(self).opened_documents@ == old(self).opened_documents@,
    {
        self.healthy = false;
        let mut ids: Vec<u64> = Vec::new();
        let mut i: usize = 0;
        while i < self.pending.len()
            invariant
                i <= self.pending@.len(),
                self.pending@ == old(self).pending@,
                ids@ == self.pending@.take(i as int),
            decreases self.pending@.len() - i,
        {
            ids.push(self.pending[i]);
            proof {
                assert(self.pending@.take(i as int + 1) =~= self.pending@.take(i as int).push(
                    self.pending@[i as int],
                ));
            }
            i = i + 1;
        }
        proof {
            assert(self.pending@.take(self.pending@.len() as int) =~= self.pending@);
        }
        self.pending.clear();
        ids
    }

    /// Begins the `initialize` handshake. A client initializes at most
    /// once: a repeated call is rejected and changes nothing.
    pub fn begin_initialize(&mut self) -> (r: Result<(), LspProxyError>)
        requires
            old(self).wf(),
        ensures
            final(self).wf(),
            spec_initialize_post(*old(self), *final(self), r),
            old(self).initialized ==> (r matches Err(e) && (e matches LspProxyError::BackendError {
                code,
                message,
            } && code == -32600 && message@ == "initialize may only be sent once"@)),
    {
        if self.initialized {
            return Err(
                LspProxyError::BackendError {
                    code: -32600,
                    message: String::from_str("initialize may only be sent once"),
                },
            );
        }
        self.initialized = true;
        Ok(())
    }

    /// Attempts the single permitted respawn of a downed backend.
    pub fn attempt_respawn(&mut self) -> (r: bool)
        requires
            old(self).wf(),
            !old(self).healthy,
        ensures
            final(self).wf(),
            spec_respawn_post(*old(self), *final(self), r),
    {
        if self.respawn_attempted {
            return false;
        }
        self.respawn_attempted = true;
        self.healthy = true;
        self.initialized = false;
        self.pending = Vec::new();
        self.opened_documents = Vec::new();
        true
    }

    /// Memoizes a `textDocument/didOpen`: true when the uri still needs
    /// to be sent (it was not opened before and is recorded now), false
    /// when it was already opened.
    #[verifier::loop_isolation(false)]
    pub fn note_document_opened(&mut self, uri: &String) -> (fresh: bool)
        requires
            old(self).wf(),
        ensures
            final(self).wf(),
            fresh == !old(self).spec_opened_contains(uri@),
            final(self).spec_opened_contains(uri@),
            forall|u: Seq<char>|
                u != uri@ ==> #[trigger] final(self).spec_opened_contains(u) == old(
                    self,
                ).spec_opened_contains(u),
            final(self).pending@ == old(self).pending@,
            final(self).next_id == old(self).next_id,
            final(self).initialized == old(self).initialized,
            final(self).healthy == old(self).healthy,
            final(self).respawn_attempted == old(self).respawn_attempted,
    {
        let ghost pre = self.opened_documents@;
        let mut i: usize = 0;
        while i < self.opened_documents.len()
            invariant
                i <= self.opened_documents@.len(),
                self.opened_documents@ == pre,
                forall|j: int| 0 <= j < i ==> pre[j]@ != uri@,
            decreases self.opened_documents@.len() - i,
        {
            if self.opened_documents[i] == *uri {
                return false;
            }
            i = i + 1;
        }
        self.opened_documents.push(uri.clone());
        proof {
            assert(self.opened_documents@.last()@ == uri@);
            assert forall|u: Seq<char>| u != uri@ implies #[trigger] self.spec_opened_contains(u)
                == old(self).spec_opened_contains(u) by {
            assert(forall|j: int|
                    0 <= j < pre.len() ==> self.opened_documents@[j] == pre[j]);
                if self.spec_opened_contains(u) {
                    let a = choose|a: int|
                        0 <= a < self.opened_documents@.len() && self.opened_documents@[a]@ == u;
                    assert(a < pre.len());
                    assert(pre[a]@ == u);
                }
            }
        }
        true
    }
}

/// What the background read loop does with one inbound message.
#[derive(Clone, Copy, PartialEq, Eq, Structural, Debug)]
pub enum InboundAction {
    /// A response: settle the pending entry with the matching id (one
    /// for an unknown id is discarded there).
    SettlePending,
    /// Run the registered handler for the method.
    RunHandler,
    /// No handler is registered for the notification: drop it.
    Discard,
    /// A server-to-client request without a handler: answer with a
    /// method-not-found error.
    AnswerMethodNotFound,
    /// A frame that is no request, response or notification: a protocol
    /// violation, so the backend is shut down.
    FailProtocol,
}

/// The read loop's decision for a decoded message: responses settle the
/// pending table; notifications run their handler or are discarded;
/// server requests run their handler or are answered method-not-found;
/// anything else is a protocol violation.
pub fn plan_inbound(kind: crate::codec::MessageKind, has_handler: bool) -> (r: InboundAction)
    ensures
        kind == crate::codec::MessageKind::Response ==> r == InboundAction::SettlePending,
        kind == crate::codec::MessageKind::Notification ==> r == (if has_handler {
            InboundAction::RunHandler
        } else {
            InboundAction::Discard
        }),
        kind == crate::codec::MessageKind::Request ==> r == (if has_handler {
            InboundAction::RunHandler
        } else {
            InboundAction::AnswerMethodNotFound
        }),
        kind == crate::codec::MessageKind::Invalid ==> r == InboundAction::FailProtocol,
{
    match kind {
        crate::codec::MessageKind::Response => InboundAction::SettlePending,
        crate::codec::MessageKind::Notification => {
            if has_handler {
                InboundAction::RunHandler
            } else {
                InboundAction::Discard
            }
        },
        crate::codec::MessageKind::Request => {
            if has_handler {
                InboundAction::RunHandler
            } else {
                InboundAction::AnswerMethodNotFound
            }
        },
        crate::codec::MessageKind::Invalid => InboundAction::FailProtocol,
    }
}

/// Each issued id is pending exactly once; settling it removes exactly
/// that id, and a repeated settle of the same id finds nothing — the
/// entry leaves the table exactly once.
pub proof fn lemma_request_settles_once(
    s0: LspClientState,
    s1: LspClientState,
    s2: LspClientState,
    s3: LspClientState,
    id: u64,
    was_first: bool,
    was_again: bool,
)
    requires
        s0.wf(),
        s1.wf(),
        spec_issue_post(s0, s1, id),
        spec_take_post(s1, s2, id, was_first),
        spec_take_post(s2, s3, id, was_again),
    ensures
        spec_count(s1.pending@, id) == 1,
        was_first,
        !was_again,
        s3.pending@.len() == s2.pending@.len(),
{
    assert(!s0.spec_pending_contains(id)) by {
        assert(forall|i: int| 0 <= i < s0.pending@.len() ==> s0.pending@[i] < id);
    }
    lemma_count_zero(s0.pending@, id);
    lemma_count_push(s0.pending@, id, id);
    assert(s1.spec_pending_contains(id)) by {
        assert(s1.pending@.last() == id);
    }
}

/// A second initialize on one client is always rejected and leaves the
/// client exactly as the first initialize left it.
pub proof fn lemma_second_initialize_rejected(
    s0: LspClientState,
    s1: LspClientState,
    s2: LspClientState,
    r1: Result<(), LspProxyError>,
    r2: Result<(), LspProxyError>,
)
    requires
        !s0.initialized,
        spec_initialize_post(s0, s1, r1),
        spec_initialize_post(s1, s2, r2),
    ensures
        r1 is Ok,
        r2 is Err,
        s2 == s1,
{
}

/// At most one respawn is ever attempted: once the attempt is spent,
/// every further attempt is refused and changes nothing.
pub proof fn lemma_single_respawn(
    s0: LspClientState,
    s1: LspClientState,
    s2: LspClientState,
    r1: bool,
    r2: bool,
)
    requires
        spec_respawn_post(s0, s1, r1),
        spec_respawn_post(s1, s2, r2),
    ensures
        !r2,
        s2 == s1,
{
}

} // verus!
