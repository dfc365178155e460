//! Server-side sessions: the bounded output ring with its attach/detach
//! state machine, and the keyed pool of live sessions with its
//! create/attach/detach/resize/close/reap lifecycle.
//!
//! The PTY itself (file descriptors, child process, reader task) lives
//! with the host program; this state carries everything the protocol
//! decides on.

use vstd::prelude::*;
use crate::codec::SessionId;
use crate::chan::{channel_send, new_output_channel};
use crate::ids::new_session_id;
use tokio::sync::mpsc::{UnboundedReceiver, UnboundedSender};

verus! {

/// Cap on bytes buffered for a detached session; the oldest bytes beyond
/// it are dropped.
pub const MAX_BUFFER_SIZE: usize = 1048576;

/// `s` trimmed from the front to the buffer cap.
pub open spec fn capped(s: Seq<u8>) -> Seq<u8> {
    if s.len() > MAX_BUFFER_SIZE {
        s.skip(s.len() - MAX_BUFFER_SIZE as int)
    } else {
        s
    }
}

/// Where a session's output goes: to an attached consumer channel, or
/// into the bounded ring while detached.
pub struct SessionOutput {
    pub buffer: Vec<u8>,
    pub sender: Option<UnboundedSender<Vec<u8>>>,
}

impl SessionOutput {
    /// The buffered bytes, oldest first.
    pub open spec fn ring(&self) -> Seq<u8> {
        self.buffer@
    }

    /// Whether a consumer channel is attached.
    pub open spec fn attached(&self) -> bool {
        self.sender is Some
    }

    /// The ring never exceeds its cap.
    pub open spec fn wf(&self) -> bool {
        self.ring().len() <= MAX_BUFFER_SIZE
    }

    /// A fresh output in streaming state.
    pub fn new(sender: UnboundedSender<Vec<u8>>) -> (r: SessionOutput)
        ensures
            r.wf(),
            r.ring().len() == 0,
            r.attached(),
    {
        SessionOutput { buffer: Vec::new(), sender: Some(sender) }
    }

    /// Append bytes to the ring, dropping the oldest overflow.
    pub fn buffer_data(&mut self, data: &[u8])
        requires
            old(self).wf(),
            data@.len() <= MAX_BUFFER_SIZE,
        ensures
            final(self).wf(),
            final(self).ring() == capped(old(self).ring() + data@),
            final(self).attached() == old(self).attached(),
    {
        self.buffer.extend_from_slice(data);
        if self.buffer.len() > MAX_BUFFER_SIZE {
            let excess = self.buffer.len() - MAX_BUFFER_SIZE;
            let mut kept: Vec<u8> = Vec::new();
            let mut i = excess;
            while i < self.buffer.len()
                invariant
                    excess <= i <= self.buffer@.len(),
                    kept@ == self.buffer@.subrange(excess as int, i as int),
                decreases self.buffer@.len() - i,
            {
                let b = self.buffer[i];
                kept.push(b);
                proof {
                    assert(kept@ =~= self.buffer@.subrange(excess as int, i + 1));
                }
                i += 1;
            }
            self.buffer = kept;
        }
        proof {
            assert(self.ring() =~= capped(old(self).ring() + data@));
        }
    }

    /// Route bytes: while attached, send them down the channel, falling
    /// back to the ring if the consumer has gone; while detached, ring
    /// them. Whether an attached send reaches the consumer depends on the
    /// consumer, so both outcomes are allowed for.
    pub fn write(&mut self, data: &[u8])
        requires
            old(self).wf(),
            data@.len() <= MAX_BUFFER_SIZE,
        ensures
            final(self).wf(),
            old(self).attached() ==> ((final(self).attached() && final(self).ring() == old(self).ring()) || (!final(self).attached() && final(self).ring() == capped(
                old(self).ring() + data@,
            ))),
            !old(self).attached() ==> (!final(self).attached() && final(self).ring() == capped(
                old(self).ring() + data@,
            )),
    {
        let sent = match &self.sender {
            Some(tx) => {
                let mut copy: Vec<u8> = Vec::new();
                copy.extend_from_slice(data);
                channel_send(tx, copy)
            },
            None => false,
        };
        if !sent {
            if self.sender.is_some() {
                self.sender = None;
            }
            self.buffer_data(data);
        }
    }

    /// Attach a consumer: the whole ring drains to the caller, to be
    /// delivered before anything live.
    pub fn attach(&mut self, sender: UnboundedSender<Vec<u8>>) -> (drained: Vec<u8>)
        ensures
            drained@ == old(self).ring(),
            final(self).wf(),
            final(self).ring().len() == 0,
            final(self).attached(),
    {
        self.sender = Some(sender);
        let mut out: Vec<u8> = Vec::new();
        core::mem::swap(&mut out, &mut self.buffer);
        out
    }

    /// Detach the consumer; output rings up from here on.
    pub fn detach(&mut self)
        ensures
            final(self).ring() == old(self).ring(),
            final(self).wf() == old(self).wf(),
            !final(self).attached(),
    {
        self.sender = None;
    }
}

/// One session's protocol state. The paired PTY resources (master file
/// descriptor, child process id, reader task) are the host's.
pub struct Session {
    pub cols: u16,
    pub rows: u16,
    pub output: SessionOutput,
    /// When the last consumer detached, in milliseconds of the host's
    /// monotonic clock; `None` while attached.
    pub disconnected_at: Option<u64>,
}

/// The spec-level image of one session.
#[verifier::ext_equal]
pub struct SessionView {
    pub cols: u16,
    pub rows: u16,
    pub ring: Seq<u8>,
    pub attached: bool,
    pub disconnected_at: Option<u64>,
}

impl View for Session {
    type V = SessionView;

    open spec fn view(&self) -> SessionView {
        SessionView {
            cols: self.cols,
            rows: self.rows,
            ring: self.output.ring(),
            attached: self.output.attached(),
            disconnected_at: self.disconnected_at,
        }
    }
}

/// One keyed entry of the pool.
pub struct SessionEntry {
    pub id: SessionId,
    pub session: Session,
}

/// Whether a session counts as stale: detached, and for longer than
/// `max_ms` before `now_ms`.
pub open spec fn is_stale(v: SessionView, now_ms: u64, max_ms: u64) -> bool {
    match v.disconnected_at {
        Some(t) => t <= now_ms && now_ms - t > max_ms,
        None => false,
    }
}

/// The pool with every entry keyed `id` removed.
pub open spec fn spec_without(s: Seq<(SessionId, SessionView)>, id: SessionId) -> Seq<
    (SessionId, SessionView),
>
    decreases s.len(),
{
    if s.len() == 0 {
        Seq::empty()
    } else {
        let rest = spec_without(s.drop_last(), id);
        if s.last().0 == id {
            rest
        } else {
            rest.push(s.last())
        }
    }
}

/// The pool with every stale entry removed.
pub open spec fn spec_reaped(
    s: Seq<(SessionId, SessionView)>,
    now_ms: u64,
    max_ms: u64,
) -> Seq<(SessionId, SessionView)>
    decreases s.len(),
{
    if s.len() == 0 {
        Seq::empty()
    } else {
        let rest = spec_reaped(s.drop_last(), now_ms, max_ms);
        if is_stale(s.last().1, now_ms, max_ms) {
            rest
        } else {
            rest.push(s.last())
        }
    }
}

/// The ids of the stale entries, in pool order.
pub open spec fn spec_stale_ids(
    s: Seq<(SessionId, SessionView)>,
    now_ms: u64,
    max_ms: u64,
) -> Seq<SessionId>
    decreases s.len(),
{
    if s.len() == 0 {
        Seq::empty()
    } else {
        let rest = spec_stale_ids(s.drop_last(), now_ms, max_ms);
        if is_stale(s.last().1, now_ms, max_ms) {
            rest.push(s.last().0)
        } else {
            rest
        }
    }
}

/// The pool of sessions, keyed by id. The host shares one of these
/// between its connection handlers and the reaper, under its own lock.
pub struct SessionManager {
    pub sessions: Vec<SessionEntry>,
}

impl View for SessionManager {
    type V = Seq<(SessionId, SessionView)>;

    open spec fn view(&self) -> Seq<(SessionId, SessionView)> {
        Seq::new(self.sessions@.len(), |i: int| (self.sessions@[i].id, self.sessions@[i].session@))
    }
}

impl SessionManager {
    /// Ids are unique and every ring is within its cap.
    pub open spec fn wf(&self) -> bool {
        &&& forall|i: int, j: int|
            0 <= i < j < self@.len() ==> (#[trigger] self@[i]).0 != (#[trigger] self@[j]).0
        &&& forall|i: int| 0 <= i < self@.len() ==> (#[trigger] self@[i]).1.ring.len()
            <= MAX_BUFFER_SIZE
    }

    /// Whether the pool holds a session with this id.
    pub open spec fn spec_contains(self, id: SessionId) -> bool {
        exists|i: int| 0 <= i < self@.len() && (#[trigger] self@[i]).0 == id
    }

    /// An empty pool.
    pub fn new() -> (r: SessionManager)
        ensures
            r.wf(),
            r@.len() == 0,
    {
        SessionManager { sessions: Vec::new() }
    }

    /// Index of the entry keyed `id`, if any.
    fn find(&self, id: &SessionId) -> (r: Option<usize>)
        ensures
            match r {
                Some(i) => i < self@.len() && self@[i as int].0 == id,
                None => !self.spec_contains(*id),
            },
    {
        let mut i: usize = 0;
        while i < self.sessions.len()
            invariant
                i <= self@.len(),
                forall|k: int| 0 <= k < i ==> (#[trigger] self@[k]).0 != id,
            decreases self@.len() - i,
        {
            if ids_equal(&self.sessions[i].id, id) {
                return Some(i);
            }
            i += 1;
        }
        None
    }

    /// Create a session: mint a fresh id, open its output channel, and
    /// store the session attached. The caller receives the consumer end
    /// to drain. An (astronomically unlikely) id collision replaces the
    /// old session, as a keyed insert does.
    pub fn create_session(&mut self, cols: u16, rows: u16) -> (r: (
        SessionId,
        UnboundedReceiver<Vec<u8>>,
    ))
        requires
            old(self).wf(),
        ensures
            final(self).wf(),
            final(self)@ == spec_without(old(self)@, r.0).push(
                (
                    r.0,
                    SessionView {
                        cols: cols,
                        rows: rows,
                        ring: Seq::empty(),
                        attached: true,
                        disconnected_at: None,
                    },
                ),
            ),
            final(self).spec_contains(r.0),
    {
        let id = new_session_id();
        let (tx, rx) = new_output_channel();
        let session = Session { cols, rows, output: SessionOutput::new(tx), disconnected_at: None };
        self.remove_id(&id);
        let ghost removed = self@;
        let ghost target = removed.push(
            (
                id,
                SessionView {
                    cols: cols,
                    rows: rows,
                    ring: Seq::empty(),
                    attached: true,
                    disconnected_at: None,
                },
            ),
        );
        self.sessions.push(SessionEntry { id, session });
        proof {
            assert(self@.len() == target.len());
            assert(self@[target.len() - 1].0 == id);
            assert(self@[target.len() - 1].1 =~~= target[target.len() - 1].1);
            assert forall|k: int| 0 <= k < removed.len() implies self@[k] == removed[k] by {}
            assert(self@ =~~= target);
            lemma_without_wf(old(self)@, id);
            assert forall|k: int|
                0 <= k < self@.len() implies (#[trigger] self@[k]).1.ring.len()
                <= MAX_BUFFER_SIZE by {
                if k < removed.len() {
                    let j = choose|j: int|
                        0 <= j < old(self)@.len() && old(self)@[j] == spec_without(
                            old(self)@,
                            id,
                        )[k];
                    assert(old(self)@[j].1.ring.len() <= MAX_BUFFER_SIZE);
                }
            }
        }
        (id, rx)
    }

    /// Remove every entry keyed `id` (at most one, under `wf`).
    fn remove_id(&mut self, id: &SessionId)
        requires
            old(self).wf(),
        ensures
            final(self).wf(),
            final(self)@ == spec_without(old(self)@, *id),
            !final(self).spec_contains(*id),
    {
        let ghost g0 = self@;
        let mut src: Vec<SessionEntry> = Vec::new();
        core::mem::swap(&mut src, &mut self.sessions);
        proof {
            assert forall|k: int| 0 <= k < src@.len() implies ((#[trigger] src@[k]).id,
            src@[k].session@) == g0[k] by {}
        }
        let total_exec: usize = src.len();
        let mut kept: Vec<SessionEntry> = Vec::new();
        let ghost total = total_exec as nat;
        let mut i: usize = 0;
        while src.len() > 0
            invariant
                i == total - src@.len(),
                i <= total,
                total <= usize::MAX,
                total == g0.len(),
                forall|k: int|
                    0 <= k < src@.len() ==> ((#[trigger] src@[k]).id, src@[k].session@) == g0[i
                        + k],
                kept@.len() == spec_without(g0.take(i as int), *id).len(),
                forall|k: int|
                    0 <= k < kept@.len() ==> ((#[trigger] kept@[k]).id, kept@[k].session@)
                        == spec_without(g0.take(i as int), *id)[k],
            decreases src@.len(),
        {
            let ghost src0 = src@;
            let entry = src.remove(0);
            proof {
                assert((entry.id, entry.session@) == g0[i as int]);
                assert forall|k: int| 0 <= k < src@.len() implies ((#[trigger] src@[k]).id,
                src@[k].session@) == g0[i + 1 + k] by {
                    assert(src@[k] == src0[k + 1]);
                }
            }
            let keep = !ids_equal(&entry.id, id);
            proof {
                assert(g0.take(i + 1).drop_last() =~= g0.take(i as int));
                assert(g0.take(i + 1).last() == g0[i as int]);
                assert(keep == (g0[i as int].0 != id));
            }
            if keep {
                kept.push(entry);
            }
            i += 1;
        }
        proof {
            assert(g0.take(total as int) =~= g0);
        }
        self.sessions = kept;
        proof {
            assert(self@.len() == spec_without(g0, *id).len());
            assert forall|k: int| 0 <= k < self@.len() implies self@[k] == spec_without(
                g0,
                *id,
            )[k] by {}
            assert(self@ =~~= spec_without(g0, *id));
            lemma_without_wf(g0, *id);
            assert forall|k: int|
                0 <= k < self@.len() implies (#[trigger] self@[k]).1.ring.len()
                <= MAX_BUFFER_SIZE by {
                let j = choose|j: int| 0 <= j < g0.len() && g0[j] == spec_without(g0, *id)[k];
                assert(g0[j].1.ring.len() <= MAX_BUFFER_SIZE);
            }
        }
    }

    /// Destroy the session keyed `id`; the host then reaps its PTY.
    pub fn close_session(&mut self, id: &SessionId)
        requires
            old(self).wf(),
        ensures
            final(self).wf(),
            final(self)@ == spec_without(old(self)@, *id),
            !final(self).spec_contains(*id),
    {
        self.remove_id(id);
    }

    /// Record a session's new size; the host issues the window-size ioctl
    /// on success. Fails exactly when the session does not exist.
    pub fn resize_session(&mut self, id: &SessionId, cols: u16, rows: u16) -> (r: Result<
        (),
        String,
    >)
        requires
            old(self).wf(),
        ensures
            final(self).wf(),
            r is Ok <==> old(self).spec_contains(*id),
            final(self)@.len() == old(self)@.len(),
            forall|i: int|
                0 <= i < old(self)@.len() ==> final(self)@[i] == (if (#[trigger] old(self)@[i]).0
                    == id {
                    (old(self)@[i].0, SessionView { cols: cols, rows: rows, ..old(self)@[i].1 })
                } else {
                    old(self)@[i]
                }),
            r matches Err(m) ==> m@ == crate::mux::not_found_msg(id@),
    {
        match self.find(id) {
            Some(i) => {
                let mut entry = self.sessions.remove(i);
                entry.session.cols = cols;
                entry.session.rows = rows;
                self.sessions.insert(i, entry);
                proof {
                    assert(self@.len() == old(self)@.len());
                    assert(self@[i as int].0 == old(self)@[i as int].0);
                    assert(self@[i as int].1 =~~= (SessionView {
                        cols: cols,
                        rows: rows,
                        ..old(self)@[i as int].1
                    }));
                    assert forall|k: int|
                        0 <= k < old(self)@.len() && k != i implies self@[k] == old(self)@[k] by {}
                    assert forall|k: int|
                        0 <= k < old(self)@.len() && k != i implies (#[trigger] old(self)@[k]).0
                        != id by {}
                }
                Ok(())
            },
            None => Err(crate::mux::session_not_found(id)),
        }
    }

    /// Attach a consumer to the session: a fresh channel replaces any
    /// previous one, and the whole ring drains back to the caller, owed
    /// to the new consumer before any live byte. Fails exactly when the
    /// session does not exist.
    pub fn attach_session(&mut self, id: &SessionId) -> (r: Result<
        (UnboundedReceiver<Vec<u8>>, Vec<u8>),
        String,
    >)
        requires
            old(self).wf(),
        ensures
            final(self).wf(),
            r is Ok <==> old(self).spec_contains(*id),
            final(self)@.len() == old(self)@.len(),
            forall|i: int|
                0 <= i < old(self)@.len() ==> final(self)@[i] == (if (#[trigger] old(self)@[i]).0
                    == id {
                    (
                        old(self)@[i].0,
                        SessionView {
                            ring: Seq::empty(),
                            attached: true,
                            disconnected_at: None,
                            ..old(self)@[i].1
                        },
                    )
                } else {
                    old(self)@[i]
                }),
            r matches Ok((rx, buffered)) ==> forall|i: int|
                0 <= i < old(self)@.len() && (#[trigger] old(self)@[i]).0 == id ==> buffered@
                    == old(self)@[i].1.ring,
            r matches Err(m) ==> m@ == crate::mux::not_found_msg(id@),
    {
        match self.find(id) {
            Some(i) => {
                let mut entry = self.sessions.remove(i);
                let (tx, rx) = new_output_channel();
                let buffered = entry.session.output.attach(tx);
                entry.session.disconnected_at = None;
                self.sessions.insert(i, entry);
                proof {
                    assert(self@.len() == old(self)@.len());
                    assert(self@[i as int].0 == old(self)@[i as int].0);
                    assert(self@[i as int].1 =~~= (SessionView {
                        ring: Seq::empty(),
                        attached: true,
                        disconnected_at: None,
                        ..old(self)@[i as int].1
                    }));
                    assert forall|k: int|
                        0 <= k < old(self)@.len() && k != i implies self@[k] == old(self)@[k] by {}
                    assert forall|k: int|
                        0 <= k < old(self)@.len() && k != i implies (#[trigger] old(self)@[k]).0
                        != id by {}
                }
                Ok((rx, buffered))
            },
            None => Err(crate::mux::session_not_found(id)),
        }
    }

    /// Detach the session's consumer and stamp the disconnection time;
    /// output rings up until the next attach. A missing id changes
    /// nothing, as a disconnect may race a close.
    pub fn detach_session(&mut self, id: &SessionId, now_ms: u64)
        requires
            old(self).wf(),
        ensures
            final(self).wf(),
            final(self)@.len() == old(self)@.len(),
            forall|i: int|
                0 <= i < old(self)@.len() ==> final(self)@[i] == (if (#[trigger] old(self)@[i]).0
                    == id {
                    (
                        old(self)@[i].0,
                        SessionView {
                            attached: false,
                            disconnected_at: Some(now_ms),
                            ..old(self)@[i].1
                        },
                    )
                } else {
                    old(self)@[i]
                }),
    {
        match self.find(id) {
            Some(i) => {
                let mut entry = self.sessions.remove(i);
                entry.session.output.detach();
                entry.session.disconnected_at = Some(now_ms);
                self.sessions.insert(i, entry);
                proof {
                    assert(self@.len() == old(self)@.len());
                    assert(self@[i as int].0 == old(self)@[i as int].0);
                    assert(self@[i as int].1 =~~= (SessionView {
                        attached: false,
                        disconnected_at: Some(now_ms),
                        ..old(self)@[i as int].1
                    }));
                    assert forall|k: int|
                        0 <= k < old(self)@.len() && k != i implies self@[k] == old(self)@[k] by {}
                    assert forall|k: int|
                        0 <= k < old(self)@.len() && k != i implies (#[trigger] old(self)@[k]).0
                        != id by {}
                }
            },
            None => {},
        }
    }

    /// Route freshly read PTY bytes into the session's output: down the
    /// channel while a consumer listens, into the ring otherwise. Returns
    /// whether the session still exists.
    pub fn push_output(&mut self, id: &SessionId, data: &[u8]) -> (found: bool)
        requires
            old(self).wf(),
            data@.len() <= MAX_BUFFER_SIZE,
        ensures
            final(self).wf(),
            found <==> old(self).spec_contains(*id),
            final(self)@.len() == old(self)@.len(),
            forall|i: int|
                0 <= i < old(self)@.len() && (#[trigger] old(self)@[i]).0 != id ==> final(self)@[i]
                    == old(self)@[i],
            forall|i: int|
                0 <= i < old(self)@.len() && (#[trigger] old(self)@[i]).0 == id ==> ({
                    let before = old(self)@[i].1;
                    let after = final(self)@[i].1;
                    &&& final(self)@[i].0 == id
                    &&& after.cols == before.cols
                    &&& after.rows == before.rows
                    &&& after.disconnected_at == before.disconnected_at
                    &&& ((before.attached && after.attached && after.ring == before.ring) || (
                    !after.attached && after.ring == capped(before.ring + data@)))
                }),
    {
        match self.find(id) {
            Some(i) => {
                let mut entry = self.sessions.remove(i);
                entry.session.output.write(data);
                self.sessions.insert(i, entry);
                proof {
                    assert(self@.len() == old(self)@.len());
                    assert(self@[i as int].0 == old(self)@[i as int].0);
                    assert forall|k: int|
                        0 <= k < old(self)@.len() && k != i implies self@[k] == old(self)@[k] by {}
                    assert forall|k: int|
                        0 <= k < old(self)@.len() && k != i implies (#[trigger] old(self)@[k]).0
                        != id by {}
                }
                true
            },
            None => false,
        }
    }

    /// Remove every session whose consumer has been gone longer than
    /// `max_ms`, returning the reaped ids so the host can put down their
    /// PTYs. Sessions detached for less, or still attached, stay.
    pub fn reap_stale_sessions(&mut self, now_ms: u64, max_ms: u64) -> (reaped: Vec<SessionId>)
        requires
            old(self).wf(),
        ensures
            final(self).wf(),
            final(self)@ == spec_reaped(old(self)@, now_ms, max_ms),
            reaped@ == spec_stale_ids(old(self)@, now_ms, max_ms),
    {
        let ghost g0 = self@;
        let mut src: Vec<SessionEntry> = Vec::new();
        core::mem::swap(&mut src, &mut self.sessions);
        proof {
            assert forall|k: int| 0 <= k < src@.len() implies ((#[trigger] src@[k]).id,
            src@[k].session@) == g0[k] by {}
        }
        let total_exec: usize = src.len();
        let mut kept: Vec<SessionEntry> = Vec::new();
        let mut reaped: Vec<SessionId> = Vec::new();
        let ghost total = total_exec as nat;
        let mut i: usize = 0;
        while src.len() > 0
            invariant
                i == total - src@.len(),
                i <= total,
                total <= usize::MAX,
                total == g0.len(),
                forall|k: int|
                    0 <= k < src@.len() ==> ((#[trigger] src@[k]).id, src@[k].session@) == g0[i
                        + k],
                kept@.len() == spec_reaped(g0.take(i as int), now_ms, max_ms).len(),
                forall|k: int|
                    0 <= k < kept@.len() ==> ((#[trigger] kept@[k]).id, kept@[k].session@)
                        == spec_reaped(g0.take(i as int), now_ms, max_ms)[k],
                reaped@ == spec_stale_ids(g0.take(i as int), now_ms, max_ms),
            decreases src@.len(),
        {
            let ghost src0 = src@;
            let entry = src.remove(0);
            proof {
                assert((entry.id, entry.session@) == g0[i as int]);
                assert forall|k: int| 0 <= k < src@.len() implies ((#[trigger] src@[k]).id,
                src@[k].session@) == g0[i + 1 + k] by {
                    assert(src@[k] == src0[k + 1]);
                }
            }
            let stale = match entry.session.disconnected_at {
                Some(t) => t <= now_ms && now_ms - t > max_ms,
                None => false,
            };
            proof {
                assert(g0.take(i + 1).drop_last() =~= g0.take(i as int));
                assert(g0.take(i + 1).last() == g0[i as int]);
                assert(stale == is_stale(g0[i as int].1, now_ms, max_ms));
            }
            if stale {
                reaped.push(entry.id);
                proof {
                    assert(reaped@ =~= spec_stale_ids(g0.take(i + 1), now_ms, max_ms));
                }
            } else {
                kept.push(entry);
                proof {
                    assert(reaped@ =~= spec_stale_ids(g0.take(i + 1), now_ms, max_ms));
                }
            }
            i += 1;
        }
        proof {
            assert(g0.take(total as int) =~= g0);
        }
        self.sessions = kept;
        proof {
            assert(self@.len() == spec_reaped(g0, now_ms, max_ms).len());
            assert forall|k: int| 0 <= k < self@.len() implies self@[k] == spec_reaped(
                g0,
                now_ms,
                max_ms,
            )[k] by {}
            assert(self@ =~~= spec_reaped(g0, now_ms, max_ms));
            lemma_reaped_wf(g0, now_ms, max_ms);
            assert forall|k: int|
                0 <= k < self@.len() implies (#[trigger] self@[k]).1.ring.len()
                <= MAX_BUFFER_SIZE by {
                let j = choose|j: int|
                    0 <= j < g0.len() && g0[j] == spec_reaped(g0, now_ms, max_ms)[k];
                assert(g0[j].1.ring.len() <= MAX_BUFFER_SIZE);
            }
        }
        reaped
    }
}

/// Whether two ids hold the same bytes.
pub fn ids_equal(a: &SessionId, b: &SessionId) -> (r: bool)
    ensures
        r <==> a == b,
{
    let mut i: usize = 0;
    while i < 16
        invariant
            i <= 16,
            forall|k: int| 0 <= k < i ==> a@[k] == b@[k],
        decreases 16 - i,
    {
        if a[i] != b[i] {
            return false;
        }
        i += 1;
    }
    proof {
        assert(a@ =~= b@);
        assert(*a =~= *b);
    }
    true
}

/// `spec_without` keeps no entry with the removed id, keeps ids pairwise
/// distinct, and only keeps entries of the original pool.
pub proof fn lemma_without_wf(s: Seq<(SessionId, SessionView)>, id: SessionId)
    requires
        forall|i: int, j: int| 0 <= i < j < s.len() ==> (#[trigger] s[i]).0 != (#[trigger] s[j]).0,
    ensures
        forall|k: int|
            0 <= k < spec_without(s, id).len() ==> (#[trigger] spec_without(s, id)[k]).0 != id,
        forall|k1: int, k2: int|
            0 <= k1 < k2 < spec_without(s, id).len() ==> (#[trigger] spec_without(s, id)[k1]).0 != (
            #[trigger] spec_without(s, id)[k2]).0,
        forall|k: int|
            0 <= k < spec_without(s, id).len() ==> exists|j: int|
                0 <= j < s.len() && s[j] == #[trigger] spec_without(s, id)[k],
    decreases s.len(),
{
    if s.len() > 0 {
        lemma_without_wf(s.drop_last(), id);
        let w = spec_without(s, id);
        let rest = spec_without(s.drop_last(), id);
        assert forall|k: int| 0 <= k < w.len() implies exists|j: int|
            0 <= j < s.len() && s[j] == #[trigger] w[k] by {
            if k < rest.len() {
                let j = choose|j: int| 0 <= j < s.drop_last().len() && s.drop_last()[j] == rest[k];
                assert(s[j] == w[k]);
            } else {
                assert(s[s.len() - 1] == w[k]);
            }
        }
        if s.last().0 != id {
            assert forall|k1: int, k2: int| 0 <= k1 < k2 < w.len() implies (#[trigger] w[k1]).0 != (
            #[trigger] w[k2]).0 by {
                if k2 == w.len() - 1 {
                    let j = choose|j: int|
                        0 <= j < s.drop_last().len() && s.drop_last()[j] == rest[k1];
                    assert(s[j].0 != s[s.len() - 1].0);
                }
            }
        }
    }
}

/// `spec_reaped` keeps ids pairwise distinct and only keeps entries of
/// the original pool.
pub proof fn lemma_reaped_wf(s: Seq<(SessionId, SessionView)>, now_ms: u64, max_ms: u64)
    requires
        forall|i: int, j: int| 0 <= i < j < s.len() ==> (#[trigger] s[i]).0 != (#[trigger] s[j]).0,
    ensures
        forall|k1: int, k2: int|
            0 <= k1 < k2 < spec_reaped(s, now_ms, max_ms).len() ==> (#[trigger] spec_reaped(
                s,
                now_ms,
                max_ms,
            )[k1]).0 != (#[trigger] spec_reaped(s, now_ms, max_ms)[k2]).0,
        forall|k: int|
            0 <= k < spec_reaped(s, now_ms, max_ms).len() ==> exists|j: int|
                0 <= j < s.len() && s[j] == #[trigger] spec_reaped(s, now_ms, max_ms)[k],
    decreases s.len(),
{
    if s.len() > 0 {
        lemma_reaped_wf(s.drop_last(), now_ms, max_ms);
        let w = spec_reaped(s, now_ms, max_ms);
        let rest = spec_reaped(s.drop_last(), now_ms, max_ms);
        assert forall|k: int| 0 <= k < w.len() implies exists|j: int|
            0 <= j < s.len() && s[j] == #[trigger] w[k] by {
            if k < rest.len() {
                let j = choose|j: int| 0 <= j < s.drop_last().len() && s.drop_last()[j] == rest[k];
                assert(s[j] == w[k]);
            } else {
                assert(s[s.len() - 1] == w[k]);
            }
        }
        if !is_stale(s.last().1, now_ms, max_ms) {
            assert forall|k1: int, k2: int| 0 <= k1 < k2 < w.len() implies (#[trigger] w[k1]).0 != (
            #[trigger] w[k2]).0 by {
                if k2 == w.len() - 1 {
                    let j = choose|j: int|
                        0 <= j < s.drop_last().len() && s.drop_last()[j] == rest[k1];
                    assert(s[j].0 != s[s.len() - 1].0);
                }
            }
        }
    }
}

} // verus!
