//! The live-session registry: raw presence changes become session begin/end
//! decisions and video-timer toggles against a per-user map of active
//! sessions.
//!
//! The registry never holds more than one session per user — it is a map —
//! and a duplicate "start studying" event never discards or restarts a
//! session already in progress.

use vstd::prelude::*;
use std::collections::HashMap;
use crate::session::{Accumulator, SessionState};
use crate::Channels;

verus! {

broadcast use vstd::std_specs::hash::group_hash_axioms;

/// What one presence event says about one user: the voice channel they are
/// in, if any, and their camera/screen-share flags.
pub struct PresenceSnapshot {
    pub user_id: u64,
    pub channel_id: Option<u64>,
    pub self_video: bool,
    pub self_stream: Option<bool>,
}

impl PresenceSnapshot {
    /// The user streams video iff the camera is on or the stream flag is set.
    pub open spec fn spec_is_streaming(&self) -> bool {
        self.self_video || (self.self_stream is Some && self.self_stream->0)
    }

    pub fn is_streaming(&self) -> (r: bool)
        ensures
            r == self.spec_is_streaming(),
    {
        self.self_video || self.self_stream.unwrap_or(false)
    }
}

/// Whether a presence snapshot counts as studying: in some voice channel
/// that is not in the exclusion list. No channel means not studying.
pub open spec fn spec_is_studying(channels: &Channels, vs: &PresenceSnapshot) -> bool {
    match vs.channel_id {
        Some(cid) => !channels.slacking_voice_channels@.contains(cid),
        None => false,
    }
}

pub fn is_voice_state_studying(channels: &Channels, vs: &PresenceSnapshot) -> (r: bool)
    ensures
        r == spec_is_studying(channels, vs),
{
    match vs.channel_id {
        Some(cid) => channels.is_study_vc(cid),
        None => false,
    }
}

/// A fresh session beginning at `now`, as the registry inserts it.
pub open spec fn fresh_session(now: u64) -> SessionState {
    SessionState {
        start: now,
        video: Accumulator { running_since: None, accumulated: 0 },
        breaks: Accumulator { running_since: None, accumulated: 0 },
    }
}

/// A session after one video toggle: open the video timer on a
/// not-streaming-to-streaming edge, close it on the reverse edge, and leave
/// everything else alone.
pub open spec fn video_toggled(s: SessionState, streaming: bool, now: u64) -> SessionState {
    match (s.video.running_since, streaming) {
        (Option::None, true) => SessionState {
            video: Accumulator { running_since: Some(now), accumulated: s.video.accumulated },
            ..s
        },
        (Option::Some(since), false) => SessionState {
            video: Accumulator {
                running_since: None,
                accumulated: (s.video.accumulated + now - since) as u64,
            },
            ..s
        },
        _ => s,
    }
}

/// The registry and the ended session after one whole presence event:
/// a session-level begin/end decision followed by a video toggle.
pub open spec fn presence_step(
    m: Map<u64, SessionState>,
    user: u64,
    was_studying: bool,
    now_studying: bool,
    streaming: bool,
    now: u64,
) -> (Map<u64, SessionState>, Option<SessionState>) {
    let m1 = if !was_studying && now_studying {
        if m.dom().contains(user) {
            m
        } else {
            m.insert(user, fresh_session(now))
        }
    } else if was_studying && !now_studying {
        m.remove(user)
    } else {
        m
    };
    let ended = if was_studying && !now_studying && m.dom().contains(user) {
        Some(m[user])
    } else {
        None
    };
    let m2 = if m1.dom().contains(user) {
        m1.insert(user, video_toggled(m1[user], streaming, now))
    } else {
        m1
    };
    (m2, ended)
}

/// Law: the registry is a map, so any event sequence leaves at most one
/// session per user; and a start event while a session is active ends
/// nothing and leaves the session — its start instant included — untouched.
pub proof fn lemma_duplicate_start_preserves(
    m: Map<u64, SessionState>,
    user: u64,
    streaming: bool,
    now: u64,
)
    requires
        m.dom().contains(user),
    ensures
        ({
            let (m2, ended) = presence_step(m, user, false, true, streaming, now);
            &&& ended is None
            &&& m2.dom() =~= m.dom()
            &&& m2[user].start == m[user].start
        }),
{
}

/// The live-session registry: at most one active session per user, plus the
/// latest monotonic-clock reading it has seen.
pub struct SessionRegistry {
    sessions: HashMap<u64, SessionState>,
    clock: u64,
}

impl View for SessionRegistry {
    type V = Map<u64, SessionState>;

    closed spec fn view(&self) -> Map<u64, SessionState> {
        self.sessions@
    }
}

impl SessionRegistry {
    /// The latest monotonic instant any operation has handed the registry.
    pub closed spec fn spec_clock(&self) -> u64 {
        self.clock
    }

    /// Every stored session is well formed as of the registry's clock.
    pub open spec fn wf(&self) -> bool {
        forall|u: u64| self@.dom().contains(u) ==> (#[trigger] self@[u]).wf(
            self.spec_clock() as int,
        )
    }

    pub fn new() -> (r: SessionRegistry)
        ensures
            r@ =~= Map::<u64, SessionState>::empty(),
            r.spec_clock() == 0,
            r.wf(),
    {
        SessionRegistry { sessions: HashMap::new(), clock: 0 }
    }

    proof fn lemma_advance(&self, later: int)
        requires
            self.wf(),
            self.spec_clock() <= later,
        ensures
            forall|u: u64| self@.dom().contains(u) ==> (#[trigger] self@[u]).wf(later),
    {
        assert forall|u: u64| self@.dom().contains(u) implies (#[trigger] self@[u]).wf(
            later,
        ) by {
            self@[u].lemma_wf_monotone(self.spec_clock() as int, later);
        }
    }

    /// Inserts a fresh session for `user` — only if none is active. A
    /// duplicate start is a no-op: time already accrued is never discarded.
    pub fn begin_studying(&mut self, user: u64, now: u64)
        requires
            old(self).wf(),
            old(self).spec_clock() <= now,
        ensures
            final(self).wf(),
            final(self).spec_clock() == now,
            old(self)@.dom().contains(user) ==> final(self)@ == old(self)@,
            !old(self)@.dom().contains(user) ==> final(self)@ == old(self)@.insert(
                user,
                fresh_session(now),
            ),
    {
        proof {
            self.lemma_advance(now as int);
        }
        if !self.sessions.contains_key(&user) {
            self.sessions.insert(user, SessionState::begin(now));
        }
        self.clock = now;
        proof {
            assert forall|u: u64| self@.dom().contains(u) implies (#[trigger] self@[u]).wf(
                now as int,
            ) by {
                if u != user || old(self)@.dom().contains(user) {
                    assert(self@[u] == old(self)@[u]);
                }
            }
        }
    }

    /// Removes and returns the user's session; a silent no-op if none is
    /// active, tolerating duplicate or missing transitions.
    pub fn end_studying(&mut self, user: u64, now: u64) -> (r: Option<SessionState>)
        requires
            old(self).wf(),
            old(self).spec_clock() <= now,
        ensures
            final(self).wf(),
            final(self).spec_clock() == now,
            final(self)@ == old(self)@.remove(user),
            r is Some <==> old(self)@.dom().contains(user),
            r is Some ==> r->0 == old(self)@[user] && r->0.wf(now as int),
    {
        proof {
            self.lemma_advance(now as int);
        }
        let r = self.sessions.remove(&user);
        self.clock = now;
        proof {
            if !old(self)@.dom().contains(user) {
                assert(final(self)@ =~= old(self)@.remove(user));
            }
        }
        r
    }

    /// Applies one video toggle to the user's session, if one is active:
    /// opens the video timer on a not-streaming-to-streaming edge, closes it
    /// (folding the elapsed span) on the reverse edge.
    pub fn video_state_update(&mut self, user: u64, streaming: bool, now: u64)
        requires
            old(self).wf(),
            old(self).spec_clock() <= now,
        ensures
            final(self).wf(),
            final(self).spec_clock() == now,
            !old(self)@.dom().contains(user) ==> final(self)@ == old(self)@,
            old(self)@.dom().contains(user) ==> final(self)@ == old(self)@.insert(
                user,
                video_toggled(old(self)@[user], streaming, now),
            ),
    {
        proof {
            self.lemma_advance(now as int);
        }
        match self.sessions.remove(&user) {
            Some(mut s) => {
                proof {
                    assert(s.wf(now as int));
                }
                if streaming {
                    s.video.open_at(now);
                } else {
                    s.video.close_at(now);
                }
                self.sessions.insert(user, s);
                self.clock = now;
                proof {
                    assert(final(self)@ =~= old(self)@.insert(
                        user,
                        video_toggled(old(self)@[user], streaming, now),
                    ));
                }
            },
            None => {
                self.clock = now;
                proof {
                    assert(final(self)@ =~= old(self)@);
                }
            },
        }
    }

    /// Handles one whole presence event for `user`: classifies the
    /// (before, after) studying pair into a begin/end decision, then applies
    /// the video toggle carried by the same event. Returns the session that
    /// ended, if any, for settlement.
    pub fn voice_state_update(
        &mut self,
        channels: &Channels,
        old_vs: Option<&PresenceSnapshot>,
        new_vs: &PresenceSnapshot,
        now: u64,
    ) -> (ended: Option<SessionState>)
        requires
            old(self).wf(),
            old(self).spec_clock() <= now,
        ensures
            final(self).wf(),
            final(self).spec_clock() == now,
            ({
                let was = match old_vs {
                    Some(vs) => spec_is_studying(channels, vs),
                    None => false,
                };
                let (m2, e) = presence_step(
                    old(self)@,
                    new_vs.user_id,
                    was,
                    spec_is_studying(channels, new_vs),
                    new_vs.spec_is_streaming(),
                    now,
                );
                final(self)@ == m2 && ended == e
            }),
            ended is Some ==> ended->0.wf(now as int),
    {
        let was_studying = match old_vs {
            Some(vs) => is_voice_state_studying(channels, vs),
            None => false,
        };
        let now_studying = is_voice_state_studying(channels, new_vs);
        let user = new_vs.user_id;

        let ended: Option<SessionState> = if !was_studying && now_studying {
            self.begin_studying(user, now);
            None
        } else if was_studying && !now_studying {
            self.end_studying(user, now)
        } else {
            None
        };

        self.video_state_update(user, new_vs.is_streaming(), now);
        ended
    }
}

} // verus!
