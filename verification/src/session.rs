//! Session lifecycle and mouse-ownership arbitration.
//!
//! The session table is keyed by a generated `session_id`; every operation is
//! specified as a transition on the table's sequence view. Timestamps are
//! plain milliseconds supplied by the caller, so the idle-timeout rules are
//! proved for every clock value.

use vstd::prelude::*;
use crate::config::Config;
use crate::sequtil::{
    keep_where,
    lemma_keep_where_complete,
    lemma_keep_where_elements,
    lemma_keep_where_len,
    lemma_keep_where_pred,
    lemma_keep_where_unique_by,
    unique_by,
};
use crate::strutil::str_eq;

verus! {

/// Which side of a session is currently authoritative for pointer input.
#[derive(Clone, Copy, Debug, PartialEq, Eq)]
pub enum MouseOwner {
    Local,
    Remote,
}

/// One bounded-lifetime collaboration with a peer.
#[derive(Debug)]
pub struct Session {
    pub session_id: String,
    pub peer_node_id: String,
    pub peer_name: String,
    pub created_at: u64,
    pub last_activity: u64,
    pub mouse_owner: MouseOwner,
}

impl Clone for Session {
    fn clone(&self) -> (r: Self)
        ensures
            r == *self,
    {
        Session {
            session_id: self.session_id.clone(),
            peer_node_id: self.peer_node_id.clone(),
            peer_name: self.peer_name.clone(),
            created_at: self.created_at,
            last_activity: self.last_activity,
            mouse_owner: self.mouse_owner,
        }
    }
}

/// The session has been idle longer than the configured timeout at `now_ms`.
pub open spec fn session_expired(s: Session, now_ms: u64, timeout_minutes: u64) -> bool {
    now_ms > s.last_activity + timeout_minutes * 60000
}

/// Some entry of the table carries this session id.
pub open spec fn has_session(tbl: Seq<Session>, id: Seq<char>) -> bool {
    exists|i: int| 0 <= i < tbl.len() && (#[trigger] tbl[i]).session_id@ == id
}

/// Session ids are pairwise distinct.
pub open spec fn sessions_unique(tbl: Seq<Session>) -> bool {
    unique_by(tbl, |s: Session| s.session_id@)
}

/// The table without any entry carrying `id`.
pub open spec fn spec_remove_session(tbl: Seq<Session>, id: Seq<char>) -> Seq<Session> {
    keep_where(tbl, |s: Session| s.session_id@ != id)
}

/// The table with the entry carrying `id` (if any) stamped with `now_ms`.
pub open spec fn spec_set_activity(tbl: Seq<Session>, id: Seq<char>, now_ms: u64) -> Seq<Session> {
    tbl.map_values(
        |s: Session|
            if s.session_id@ == id {
                Session {
                    session_id: s.session_id,
                    peer_node_id: s.peer_node_id,
                    peer_name: s.peer_name,
                    created_at: s.created_at,
                    last_activity: now_ms,
                    mouse_owner: s.mouse_owner,
                }
            } else {
                s
            },
    )
}

/// The table with the entry carrying `id` (if any) handed to `owner`.
pub open spec fn spec_set_owner(tbl: Seq<Session>, id: Seq<char>, owner: MouseOwner) -> Seq<
    Session,
> {
    tbl.map_values(
        |s: Session|
            if s.session_id@ == id {
                Session {
                    session_id: s.session_id,
                    peer_node_id: s.peer_node_id,
                    peer_name: s.peer_name,
                    created_at: s.created_at,
                    last_activity: s.last_activity,
                    mouse_owner: owner,
                }
            } else {
                s
            },
    )
}

/// The table after inserting `s`: any existing entry with the same id is
/// replaced, otherwise `s` is appended.
pub open spec fn spec_insert_session(tbl: Seq<Session>, s: Session) -> Seq<Session> {
    spec_remove_session(tbl, s.session_id@).push(s)
}

/// The table after an idle sweep at `now_ms`: exactly the entries whose idle
/// time does not exceed the timeout survive, in order.
pub open spec fn spec_sweep_sessions(
    tbl: Seq<Session>,
    now_ms: u64,
    timeout_minutes: u64,
) -> Seq<Session> {
    keep_where(tbl, |s: Session| !session_expired(s, now_ms, timeout_minutes))
}

/// Relies on uuid's `Uuid::new_v4` and its display form: a fresh random
/// version-4 identifier rendered as the 36-character hyphenated string.
#[verifier::external_body]
fn fresh_session_id() -> (r: String)
    ensures
        r@.len() == 36,
{
    uuid::Uuid::new_v4().to_string()
}

/// The session table and its configuration. All mutating operations keep the
/// table's session ids unique.
pub struct SessionManager {
    pub config: Config,
    pub node_name: String,
    pub sessions: Vec<Session>,
}

impl SessionManager {
    /// Table invariant: session ids are pairwise distinct.
    pub open spec fn wf(&self) -> bool {
        sessions_unique(self.sessions@)
    }

    pub fn new(config: Config, node_name: String) -> (r: Self)
        ensures
            r.wf(),
            r.sessions@.len() == 0,
            r.config == config,
            r.node_name == node_name,
    {
        SessionManager { config, node_name, sessions: Vec::new() }
    }

    /// Rebuilds the table without any entry carrying `session_id`.
    #[verifier::loop_isolation(false)]
    fn remove_where_id(&mut self, session_id: &str)
        ensures
            final(self).sessions@ == spec_remove_session(old(self).sessions@, session_id@),
            final(self).config == old(self).config,
            final(self).node_name == old(self).node_name,
    {
        let ghost old_view = self.sessions@;
        let ghost pred = |s: Session| s.session_id@ != session_id@;
        let n = self.sessions.len();
        let mut kept: Vec<Session> = Vec::new();
        let mut i: usize = 0;
        proof {
            assert(old_view.subrange(0, n as int) =~= old_view);
            assert(kept@ + keep_where(old_view, pred) =~= keep_where(old_view, pred));
        }
        while i < n
            invariant
                n == old_view.len(),
                i <= n,
                self.sessions@ == old_view,
                self.config == old(self).config,
                self.node_name == old(self).node_name,
                keep_where(old_view, pred) == kept@ + keep_where(
                    old_view.subrange(i as int, n as int),
                    pred,
                ),
            decreases n - i,
        {
            let ghost suffix = old_view.subrange(i as int, n as int);
            proof {
                assert(suffix.len() > 0);
                assert(suffix[0] == old_view[i as int]);
                assert(suffix.drop_first() =~= old_view.subrange(i as int + 1, n as int));
            }
            let keep = str_eq(self.sessions[i].session_id.as_str(), session_id) == false;
            proof {
                assert(keep == pred(suffix[0]));
            }
            if keep {
                let ghost prev = kept@;
                let element = self.sessions[i].clone();
                kept.push(element);
                proof {
                    assert(keep_where(suffix, pred) == seq![suffix[0]] + keep_where(
                        suffix.drop_first(),
                        pred,
                    ));
                    assert(kept@ =~= prev + seq![suffix[0]]);
                    assert((prev + seq![suffix[0]]) + keep_where(suffix.drop_first(), pred)
                        =~= prev + (seq![suffix[0]] + keep_where(suffix.drop_first(), pred)));
                }
            } else {
                proof {
                    assert(keep_where(suffix, pred) == keep_where(suffix.drop_first(), pred));
                }
            }
            i = i + 1;
        }
        proof {
            assert(old_view.subrange(n as int, n as int) =~= Seq::<Session>::empty());
        }
        self.sessions = kept;
    }

    /// Creates a session with a fresh id: ownership starts `Local`, and both
    /// `created_at` and `last_activity` are stamped with `now_ms`.
    pub fn create_session(
        &mut self,
        peer_node_id: String,
        peer_name: String,
        now_ms: u64,
    ) -> (r: Session)
        requires
            old(self).wf(),
        ensures
            final(self).wf(),
            final(self).config == old(self).config,
            final(self).node_name == old(self).node_name,
            r.peer_node_id == peer_node_id,
            r.peer_name == peer_name,
            r.created_at == now_ms,
            r.last_activity == now_ms,
            r.mouse_owner == MouseOwner::Local,
            r.session_id@.len() == 36,
            final(self).sessions@ == spec_insert_session(old(self).sessions@, r),
            has_session(final(self).sessions@, r.session_id@),
    {
        let session_id = fresh_session_id();
        let session = Session {
            session_id,
            peer_node_id,
            peer_name,
            created_at: now_ms,
            last_activity: now_ms,
            mouse_owner: MouseOwner::Local,
        };
        let r = session.clone();
        self.remove_where_id(session.session_id.as_str());
        proof {
            lemma_keep_where_pred(old(self).sessions@, |s: Session| s.session_id@ != r.session_id@);
            lemma_keep_where_unique_by(
                old(self).sessions@,
                |s: Session| s.session_id@ != r.session_id@,
                |s: Session| s.session_id@,
            );
        }
        self.sessions.push(session);
        proof {
            let tbl = self.sessions@;
            assert(tbl[tbl.len() - 1].session_id@ == r.session_id@);
        }
        r
    }

    /// A snapshot of the session with this id, if it exists.
    pub fn get_session(&self, session_id: &str) -> (r: Option<Session>)
        requires
            self.wf(),
        ensures
            r is Some <==> has_session(self.sessions@, session_id@),
            match r {
                Some(s) => s.session_id@ == session_id@ && self.sessions@.contains(s),
                None => true,
            },
    {
        let n = self.sessions.len();
        let mut i: usize = 0;
        while i < n
            invariant
                n == self.sessions@.len(),
                i <= n,
                forall|j: int| 0 <= j < i ==> (#[trigger] self.sessions@[j]).session_id@
                    != session_id@,
            decreases n - i,
        {
            if str_eq(self.sessions[i].session_id.as_str(), session_id) {
                let found = self.sessions[i].clone();
                proof {
                    assert(self.sessions@[i as int].session_id@ == session_id@);
                }
                return Some(found);
            }
            i = i + 1;
        }
        None
    }

    /// Advances `last_activity` of the session with this id to `now_ms`; a
    /// silent no-op if the session no longer exists.
    #[verifier::loop_isolation(false)]
    pub fn update_activity(&mut self, session_id: &str, now_ms: u64)
        requires
            old(self).wf(),
        ensures
            final(self).wf(),
            final(self).config == old(self).config,
            final(self).node_name == old(self).node_name,
            final(self).sessions@ == spec_set_activity(old(self).sessions@, session_id@, now_ms),
    {
        let ghost old_view = self.sessions@;
        let ghost target = spec_set_activity(old_view, session_id@, now_ms);
        let n = self.sessions.len();
        let mut i: usize = 0;
        while i < n
            invariant
                old(self).wf(),
                n == old_view.len(),
                i <= n,
                self.sessions@ == old_view,
                self.config == old(self).config,
                self.node_name == old(self).node_name,
                forall|j: int| 0 <= j < i ==> (#[trigger] old_view[j]).session_id@ != session_id@,
            decreases n - i,
        {
            if str_eq(self.sessions[i].session_id.as_str(), session_id) {
                let mut s = self.sessions[i].clone();
                s.last_activity = now_ms;
                self.sessions.set(i, s);
                proof {
                    let key = |s: Session| s.session_id@;
                    assert(target.len() == old_view.len());
                    assert forall|j: int| 0 <= j < n implies self.sessions@[j] == target[j] by {
                        if j < i {
                            assert(key(old_view[j]) != key(old_view[i as int]));
                        }
                        if j > i {
                            assert(key(old_view[i as int]) != key(old_view[j]));
                        }
                    }
                    assert(self.sessions@ =~= target);
                    assert forall|a: int, b: int|
                        0 <= a < b < n implies (|s: Session| s.session_id@)(self.sessions@[a])
                        != (|s: Session| s.session_id@)(self.sessions@[b]) by {
                        assert(self.sessions@[a].session_id@ == old_view[a].session_id@);
                        assert(self.sessions@[b].session_id@ == old_view[b].session_id@);
                    }
                }
                return;
            }
            i = i + 1;
        }
        proof {
            assert(self.sessions@ =~= target);
        }
    }

    /// Atomically hands mouse ownership of the session with this id to
    /// `owner`; idempotent, and a silent no-op if the session is unknown.
    #[verifier::loop_isolation(false)]
    pub fn transfer_mouse(&mut self, session_id: &str, owner: MouseOwner)
        requires
            old(self).wf(),
        ensures
            final(self).wf(),
            final(self).config == old(self).config,
            final(self).node_name == old(self).node_name,
            final(self).sessions@ == spec_set_owner(old(self).sessions@, session_id@, owner),
    {
        let ghost old_view = self.sessions@;
        let ghost target = spec_set_owner(old_view, session_id@, owner);
        let n = self.sessions.len();
        let mut i: usize = 0;
        while i < n
            invariant
                old(self).wf(),
                n == old_view.len(),
                i <= n,
                self.sessions@ == old_view,
                self.config == old(self).config,
                self.node_name == old(self).node_name,
                forall|j: int| 0 <= j < i ==> (#[trigger] old_view[j]).session_id@ != session_id@,
            decreases n - i,
        {
            if str_eq(self.sessions[i].session_id.as_str(), session_id) {
                let mut s = self.sessions[i].clone();
                s.mouse_owner = owner;
                self.sessions.set(i, s);
                proof {
                    let key = |s: Session| s.session_id@;
                    assert(target.len() == old_view.len());
                    assert forall|j: int| 0 <= j < n implies self.sessions@[j] == target[j] by {
                        if j < i {
                            assert(key(old_view[j]) != key(old_view[i as int]));
                        }
                        if j > i {
                            assert(key(old_view[i as int]) != key(old_view[j]));
                        }
                    }
                    assert(self.sessions@ =~= target);
                    assert forall|a: int, b: int|
                        0 <= a < b < n implies (|s: Session| s.session_id@)(self.sessions@[a])
                        != (|s: Session| s.session_id@)(self.sessions@[b]) by {
                        assert(self.sessions@[a].session_id@ == old_view[a].session_id@);
                        assert(self.sessions@[b].session_id@ == old_view[b].session_id@);
                    }
                }
                return;
            }
            i = i + 1;
        }
        proof {
            assert(self.sessions@ =~= target);
        }
    }

    /// Removes the session with this id; a silent no-op if it is unknown.
    pub fn close_session(&mut self, session_id: &str)
        requires
            old(self).wf(),
        ensures
            final(self).wf(),
            final(self).config == old(self).config,
            final(self).node_name == old(self).node_name,
            final(self).sessions@ == spec_remove_session(old(self).sessions@, session_id@),
            !has_session(final(self).sessions@, session_id@),
    {
        self.remove_where_id(session_id);
        proof {
            lemma_keep_where_pred(old(self).sessions@, |s: Session| s.session_id@ != session_id@);
            lemma_keep_where_unique_by(
                old(self).sessions@,
                |s: Session| s.session_id@ != session_id@,
                |s: Session| s.session_id@,
            );
        }
    }

    /// One tick of the background sweep: evicts every session whose idle time
    /// exceeds the configured timeout at `now_ms`, and returns how many
    /// sessions were evicted.
    #[verifier::loop_isolation(false)]
    pub fn sweep_expired(&mut self, now_ms: u64) -> (evicted: usize)
        requires
            old(self).wf(),
        ensures
            final(self).wf(),
            final(self).config == old(self).config,
            final(self).node_name == old(self).node_name,
            final(self).sessions@ == spec_sweep_sessions(
                old(self).sessions@,
                now_ms,
                old(self).config.security.session_timeout_minutes,
            ),
            evicted == old(self).sessions@.len() - final(self).sessions@.len(),
    {
        let ghost m = self.config.security.session_timeout_minutes;
        let ghost old_view = self.sessions@;
        let ghost pred = |s: Session| !session_expired(s, now_ms, m);
        let timeout_ms = self.config.security.session_timeout_minutes.checked_mul(60000);
        let n = self.sessions.len();
        let mut kept: Vec<Session> = Vec::new();
        let mut i: usize = 0;
        proof {
            assert(old_view.subrange(0, n as int) =~= old_view);
            assert(kept@ + keep_where(old_view, pred) =~= keep_where(old_view, pred));
        }
        while i < n
            invariant
                n == old_view.len(),
                i <= n,
                self.sessions@ == old_view,
                self.config == old(self).config,
                self.node_name == old(self).node_name,
                m == self.config.security.session_timeout_minutes,
                timeout_ms == self.config.security.session_timeout_minutes.checked_mul(60000),
                keep_where(old_view, pred) == kept@ + keep_where(
                    old_view.subrange(i as int, n as int),
                    pred,
                ),
            decreases n - i,
        {
            let ghost suffix = old_view.subrange(i as int, n as int);
            proof {
                assert(suffix.len() > 0);
                assert(suffix[0] == old_view[i as int]);
                assert(suffix.drop_first() =~= old_view.subrange(i as int + 1, n as int));
            }
            let last_activity = self.sessions[i].last_activity;
            let expired = match timeout_ms {
                Some(t) => now_ms > last_activity && now_ms - last_activity > t,
                None => false,
            };
            proof {
                assert(expired == session_expired(old_view[i as int], now_ms, m));
                assert((!expired) == pred(suffix[0]));
            }
            if !expired {
                let ghost prev = kept@;
                let element = self.sessions[i].clone();
                kept.push(element);
                proof {
                    assert(keep_where(suffix, pred) == seq![suffix[0]] + keep_where(
                        suffix.drop_first(),
                        pred,
                    ));
                    assert(kept@ =~= prev + seq![suffix[0]]);
                    assert((prev + seq![suffix[0]]) + keep_where(suffix.drop_first(), pred)
                        =~= prev + (seq![suffix[0]] + keep_where(suffix.drop_first(), pred)));
                }
            } else {
                proof {
                    assert(keep_where(suffix, pred) == keep_where(suffix.drop_first(), pred));
                }
            }
            i = i + 1;
        }
        proof {
            assert(old_view.subrange(n as int, n as int) =~= Seq::<Session>::empty());
            lemma_keep_where_len(old_view, pred);
            lemma_keep_where_unique_by(old_view, pred, |s: Session| s.session_id@);
        }
        let evicted = n - kept.len();
        self.sessions = kept;
        evicted
    }
}

/// Handing mouse ownership to the same owner twice is the same as handing it
/// once: the second transfer leaves the table unchanged.
pub proof fn lemma_transfer_mouse_idempotent(tbl: Seq<Session>, id: Seq<char>, owner: MouseOwner)
    ensures
        spec_set_owner(spec_set_owner(tbl, id, owner), id, owner) == spec_set_owner(
            tbl,
            id,
            owner,
        ),
{
    let once = spec_set_owner(tbl, id, owner);
    let twice = spec_set_owner(once, id, owner);
    assert forall|j: int| 0 <= j < tbl.len() implies twice[j] == once[j] by {}
    assert(twice =~= once);
}

/// A sweep at `now_ms` evicts every session whose idle time exceeds the
/// timeout: no entry with that session's id survives.
pub proof fn lemma_sweep_evicts_expired(
    tbl: Seq<Session>,
    now_ms: u64,
    timeout_minutes: u64,
    i: int,
)
    requires
        sessions_unique(tbl),
        0 <= i < tbl.len(),
        session_expired(tbl[i], now_ms, timeout_minutes),
    ensures
        !has_session(spec_sweep_sessions(tbl, now_ms, timeout_minutes), tbl[i].session_id@),
{
    let pred = |s: Session| !session_expired(s, now_ms, timeout_minutes);
    let out = keep_where(tbl, pred);
    lemma_keep_where_pred(tbl, pred);
    lemma_keep_where_elements(tbl, pred);
    assert forall|k: int| 0 <= k < out.len() implies (#[trigger] out[k]).session_id@
        != tbl[i].session_id@ by {
        let j = choose|j: int| 0 <= j < tbl.len() && tbl[j] == out[k];
        if j == i {
            assert(pred(out[k]));
        } else {
            assert(tbl[j].session_id@ != tbl[i].session_id@);
        }
    }
}

/// Updating a session's activity at `now_ms` resets its eviction clock: any
/// sweep at or before `now_ms + timeout` retains the session.
pub proof fn lemma_update_activity_prevents_eviction(
    tbl: Seq<Session>,
    id: Seq<char>,
    now_ms: u64,
    sweep_ms: u64,
    timeout_minutes: u64,
)
    requires
        has_session(tbl, id),
        sweep_ms <= now_ms + timeout_minutes * 60000,
    ensures
        has_session(
            spec_sweep_sessions(spec_set_activity(tbl, id, now_ms), sweep_ms, timeout_minutes),
            id,
        ),
{
    let upd = spec_set_activity(tbl, id, now_ms);
    let pred = |s: Session| !session_expired(s, sweep_ms, timeout_minutes);
    let i = choose|i: int| 0 <= i < tbl.len() && (#[trigger] tbl[i]).session_id@ == id;
    assert(upd[i].session_id@ == id);
    assert(upd[i].last_activity == now_ms);
    assert(pred(upd[i]));
    lemma_keep_where_complete(upd, pred);
    assert(keep_where(upd, pred).contains(upd[i]));
    let k = choose|k: int|
        0 <= k < keep_where(upd, pred).len() && keep_where(upd, pred)[k] == upd[i];
    assert(has_session(spec_sweep_sessions(upd, sweep_ms, timeout_minutes), id));
}

} // verus!
