//! The voice signaling state machine.
//!
//! The manager owns the per-peer connection registry, the buffer of
//! ICE candidates that arrived before their peer's offer, and the
//! session flags (room, joined, muted, local track). Each entry point
//! takes one command or signaling message, updates the state, and
//! returns the events to emit to the host plus the actions the host
//! must perform on the real transport (create or close a connection,
//! apply a description or candidate, start or stop audio). The host
//! runs the I/O loop; every decision is made here.
//!
//! Signaling payloads (SDP and ICE candidate JSON) are carried as
//! opaque strings: the transport produces and consumes them.

use vstd::prelude::*;
use crate::audio::{ids_without, has_id, ids_unique, AudioEngine, AudioDeviceError};
use crate::strutil::str_eq;

verus! {

/// Voice connection status for display by the host.
#[derive(Debug, Clone, PartialEq, Eq, Structural)]
pub enum VoiceConnectionStatus {
    Disconnected,
    Connecting,
    Connected,
    Reconnecting,
}

impl Default for VoiceConnectionStatus {
    /// A fresh session is disconnected.
    fn default() -> (r: Self)
        ensures
            r == VoiceConnectionStatus::Disconnected,
    {
        VoiceConnectionStatus::Disconnected
    }
}

/// Events sent from the manager to the host application. All voice
/// state the host shows is driven by these.
#[derive(Debug, Clone, PartialEq)]
pub enum VoiceEvent {
    /// Signaling data for the host to forward over its transport;
    /// `target_id` of `None` means broadcast to the room.
    Signal { target_id: Option<String>, signal_type: String, data: String },
    Connecting,
    Connected,
    Disconnected,
    ConnectionFailed(String),
    PeerConnected(String),
    PeerDisconnected(String),
    PeerConnectionFailed(String),
    MuteStateChanged(bool),
    TxActivity(bool),
    AudioError(String),
}

/// The character-level shape of a `VoiceEvent`, used in contracts.
pub enum EventSpec {
    Signal { target: Option<Seq<char>>, typ: Seq<char>, data: Seq<char> },
    Connecting,
    Connected,
    Disconnected,
    ConnectionFailed(Seq<char>),
    PeerConnected(Seq<char>),
    PeerDisconnected(Seq<char>),
    PeerConnectionFailed(Seq<char>),
    MuteStateChanged(bool),
    TxActivity(bool),
    AudioError(Seq<char>),
}

impl DeepView for VoiceEvent {
    type V = EventSpec;

    open spec fn deep_view(&self) -> EventSpec {
        match self {
            VoiceEvent::Signal { target_id, signal_type, data } => EventSpec::Signal {
                target: match target_id {
                    Some(t) => Some(t@),
                    None => None,
                },
                typ: signal_type@,
                data: data@,
            },
            VoiceEvent::Connecting => EventSpec::Connecting,
            VoiceEvent::Connected => EventSpec::Connected,
            VoiceEvent::Disconnected => EventSpec::Disconnected,
            VoiceEvent::ConnectionFailed(m) => EventSpec::ConnectionFailed(m@),
            VoiceEvent::PeerConnected(p) => EventSpec::PeerConnected(p@),
            VoiceEvent::PeerDisconnected(p) => EventSpec::PeerDisconnected(p@),
            VoiceEvent::PeerConnectionFailed(p) => EventSpec::PeerConnectionFailed(p@),
            VoiceEvent::MuteStateChanged(m) => EventSpec::MuteStateChanged(*m),
            VoiceEvent::TxActivity(a) => EventSpec::TxActivity(*a),
            VoiceEvent::AudioError(m) => EventSpec::AudioError(m@),
        }
    }
}

/// Commands sent from the host to the manager.
#[derive(Debug, Clone, PartialEq)]
pub enum VoiceCommand {
    Join(String),
    Leave,
    Mute(bool),
    Signal { sender_id: String, signal_type: String, data: String },
}

/// Actions the host must perform on the real transport and audio
/// hardware, in order. The manager state already reflects them.
#[derive(Debug, Clone, PartialEq)]
pub enum VoiceAction {
    /// Stop the capture stream and every playback stream.
    ResetAudio,
    /// Close this peer's connection object.
    CloseConnection(String),
    /// Build a connection object for this peer; when `initiate_offer`
    /// is set, create an offer, set it as local description and report
    /// it back through `local_description_created`.
    CreateConnection { peer_id: String, initiate_offer: bool },
    /// Apply this remote session description to the peer's connection.
    ApplyRemoteDescription { peer_id: String, data: String },
    /// Apply this ICE candidate to the peer's connection.
    ApplyCandidate { peer_id: String, data: String },
    /// Create an answer, set it as local description and report it
    /// back through `local_description_created`.
    CreateAnswer { peer_id: String },
    /// Tear down this peer's playback stream.
    RemovePeerPlayback(String),
    /// Open (or reuse) the playback stream for this peer.
    StartPlayback(String),
}

/// The character-level shape of a `VoiceAction`, used in contracts.
pub enum ActionSpec {
    ResetAudio,
    CloseConnection(Seq<char>),
    CreateConnection { peer: Seq<char>, initiate_offer: bool },
    ApplyRemoteDescription { peer: Seq<char>, data: Seq<char> },
    ApplyCandidate { peer: Seq<char>, data: Seq<char> },
    CreateAnswer { peer: Seq<char> },
    RemovePeerPlayback(Seq<char>),
    StartPlayback(Seq<char>),
}

impl DeepView for VoiceAction {
    type V = ActionSpec;

    open spec fn deep_view(&self) -> ActionSpec {
        match self {
            VoiceAction::ResetAudio => ActionSpec::ResetAudio,
            VoiceAction::CloseConnection(p) => ActionSpec::CloseConnection(p@),
            VoiceAction::CreateConnection { peer_id, initiate_offer } => (
            ActionSpec::CreateConnection { peer: peer_id@, initiate_offer: *initiate_offer }),
            VoiceAction::ApplyRemoteDescription { peer_id, data } => (
            ActionSpec::ApplyRemoteDescription { peer: peer_id@, data: data@ }),
            VoiceAction::ApplyCandidate { peer_id, data } => (ActionSpec::ApplyCandidate {
                peer: peer_id@,
                data: data@,
            }),
            VoiceAction::CreateAnswer { peer_id } => (ActionSpec::CreateAnswer { peer: peer_id@ }),
            VoiceAction::RemovePeerPlayback(p) => ActionSpec::RemovePeerPlayback(p@),
            VoiceAction::StartPlayback(p) => ActionSpec::StartPlayback(p@),
        }
    }
}

/// One negotiated (or negotiating) peer connection.
pub struct PeerEntry {
    pub id: String,
    pub connected: bool,
    pub applied_candidates: Vec<String>,
}

/// The shape of a peer entry: its id, whether the transport has
/// reported the connection established, and every candidate applied to
/// the connection, in application order.
pub struct PeerSpec {
    pub id: Seq<char>,
    pub connected: bool,
    pub applied: Seq<Seq<char>>,
}

impl DeepView for PeerEntry {
    type V = PeerSpec;

    open spec fn deep_view(&self) -> PeerSpec {
        PeerSpec { id: self.id@, connected: self.connected, applied: self.applied_candidates.deep_view() }
    }
}

/// Candidates that arrived before their peer's offer, in arrival
/// order.
pub struct PendingEntry {
    pub id: String,
    pub candidates: Vec<String>,
}

pub struct PendingSpec {
    pub id: Seq<char>,
    pub candidates: Seq<Seq<char>>,
}

impl DeepView for PendingEntry {
    type V = PendingSpec;

    open spec fn deep_view(&self) -> PendingSpec {
        PendingSpec { id: self.id@, candidates: self.candidates.deep_view() }
    }
}

/// True when some peer entry has this id.
pub open spec fn has_peer(peers: Seq<PeerSpec>, id: Seq<char>) -> bool {
    exists|i: int| 0 <= i < peers.len() && peers[i].id == id
}

/// The index of the entry with this id (unique under `peers_unique`).
pub open spec fn peer_index(peers: Seq<PeerSpec>, id: Seq<char>) -> int {
    choose|i: int| 0 <= i < peers.len() && peers[i].id == id
}

/// The registry without this peer's entry (unchanged when absent).
pub open spec fn peers_without(peers: Seq<PeerSpec>, id: Seq<char>) -> Seq<PeerSpec> {
    if has_peer(peers, id) {
        peers.remove(peer_index(peers, id))
    } else {
        peers
    }
}

/// All peer ids distinct.
pub open spec fn peers_unique(peers: Seq<PeerSpec>) -> bool {
    forall|i: int, j: int| 0 <= i < j < peers.len() ==> peers[i].id != peers[j].id
}

/// True when some pending-candidate entry has this id.
pub open spec fn has_pending(pending: Seq<PendingSpec>, id: Seq<char>) -> bool {
    exists|i: int| 0 <= i < pending.len() && pending[i].id == id
}

/// The index of the pending entry with this id.
pub open spec fn pending_index(pending: Seq<PendingSpec>, id: Seq<char>) -> int {
    choose|i: int| 0 <= i < pending.len() && pending[i].id == id
}

/// The buffered candidates for this peer, in arrival order (empty when
/// none are buffered).
pub open spec fn pending_for(pending: Seq<PendingSpec>, id: Seq<char>) -> Seq<Seq<char>> {
    if has_pending(pending, id) {
        pending[pending_index(pending, id)].candidates
    } else {
        Seq::empty()
    }
}

/// The buffer without this peer's entry (unchanged when absent).
pub open spec fn pending_without(pending: Seq<PendingSpec>, id: Seq<char>) -> Seq<PendingSpec> {
    if has_pending(pending, id) {
        pending.remove(pending_index(pending, id))
    } else {
        pending
    }
}

/// All pending ids distinct.
pub open spec fn pending_unique(pending: Seq<PendingSpec>) -> bool {
    forall|i: int, j: int| 0 <= i < j < pending.len() ==> pending[i].id != pending[j].id
}

/// The abstract state of the whole voice subsystem.
pub struct ManagerSpec {
    pub room: Option<Seq<char>>,
    pub joined: bool,
    pub muted: bool,
    pub has_local_track: bool,
    pub peers: Seq<PeerSpec>,
    pub pending: Seq<PendingSpec>,
    pub capture: bool,
    pub playback: Seq<Seq<char>>,
}

/// The voice signaling state machine.
pub struct VoiceManager {
    room_id: Option<String>,
    joined: bool,
    muted: bool,
    has_local_track: bool,
    peers: Vec<PeerEntry>,
    pending: Vec<PendingEntry>,
    audio: AudioEngine,
}

impl VoiceManager {
    pub closed spec fn view(self) -> ManagerSpec {
        ManagerSpec {
            room: match self.room_id {
                Some(r) => Some(r@),
                None => None,
            },
            joined: self.joined,
            muted: self.muted,
            has_local_track: self.has_local_track,
            peers: self.peers.deep_view(),
            pending: self.pending.deep_view(),
            capture: self.audio.view().capture,
            playback: self.audio.view().playback,
        }
    }

    /// Registry invariant: one entry per peer id, one pending buffer
    /// per peer id, one playback stream per peer id.
    pub open spec fn wf(self) -> bool {
        &&& peers_unique(self.view().peers)
        &&& pending_unique(self.view().pending)
        &&& ids_unique(self.view().playback)
    }

    /// A fresh manager: no room, not joined, unmuted, no track, empty
    /// registries, no streams.
    pub fn new() -> (r: VoiceManager)
        ensures
            r.wf(),
            r.view().room is None,
            !r.view().joined,
            !r.view().muted,
            !r.view().has_local_track,
            r.view().peers == Seq::<PeerSpec>::empty(),
            r.view().pending == Seq::<PendingSpec>::empty(),
            !r.view().capture,
            r.view().playback == Seq::<Seq<char>>::empty(),
    {
        let r = VoiceManager {
            room_id: None,
            joined: false,
            muted: false,
            has_local_track: false,
            peers: Vec::new(),
            pending: Vec::new(),
            audio: AudioEngine::new(),
        };
        proof {
            assert(r.view().peers =~= Seq::<PeerSpec>::empty());
            assert(r.view().pending =~= Seq::<PendingSpec>::empty());
        }
        r
    }

    /// Set the mute flag and report the change. Muting suppresses
    /// transmission only: capture, the registries and everything else
    /// are untouched, so unmuting is instantaneous.
    pub fn set_muted(&mut self, muted: bool) -> (r: Vec<VoiceEvent>)
        requires
            old(self).wf(),
        ensures
            final(self).wf(),
            final(self).view() == (ManagerSpec { muted, ..old(self).view() }),
            r.deep_view() =~= seq![EventSpec::MuteStateChanged(muted)],
    {
        self.muted = muted;
        let mut events: Vec<VoiceEvent> = Vec::new();
        events.push(VoiceEvent::MuteStateChanged(muted));
        events
    }

    /// Whether a captured, encoded packet should be handed to the
    /// transport: exactly when not muted. The encode path keeps
    /// running while muted; only transmission is suppressed.
    pub fn should_transmit(&self) -> (r: bool)
        ensures
            r == !self.view().muted,
    {
        !self.muted
    }

    pub fn is_joined(&self) -> (r: bool)
        ensures
            r == self.view().joined,
    {
        self.joined
    }

    pub fn is_muted(&self) -> (r: bool)
        ensures
            r == self.view().muted,
    {
        self.muted
    }

    /// How many peer connections are registered.
    pub fn peer_count(&self) -> (r: usize)
        ensures
            r == self.view().peers.len(),
    {
        self.peers.len()
    }

    /// How many peers have buffered candidates waiting for an offer.
    pub fn pending_count(&self) -> (r: usize)
        ensures
            r == self.view().pending.len(),
    {
        self.pending.len()
    }

    /// Whether capture is running.
    pub fn capture_running(&self) -> (r: bool)
        ensures
            r == self.view().capture,
    {
        self.audio.capture_running()
    }

    /// How many playback streams are open.
    pub fn playback_count(&self) -> (r: usize)
        ensures
            r == self.view().playback.len(),
    {
        self.audio.playback_count()
    }
}

/// The per-peer events of a full disconnect, in registry order.
pub open spec fn disconnect_events(peers: Seq<PeerSpec>) -> Seq<EventSpec> {
    peers.map_values(|p: PeerSpec| EventSpec::PeerDisconnected(p.id))
}

/// The close actions of a full disconnect, in registry order.
pub open spec fn close_actions(peers: Seq<PeerSpec>) -> Seq<ActionSpec> {
    peers.map_values(|p: PeerSpec| ActionSpec::CloseConnection(p.id))
}

/// Removing one element keeps ids distinct, and removes the id at the
/// removed position when ids were distinct.
proof fn lemma_remove_keeps_distinct<A>(s: Seq<A>, idf: spec_fn(A) -> Seq<char>, w: int)
    requires
        0 <= w < s.len(),
        forall|i: int, j: int| 0 <= i < j < s.len() ==> idf(s[i]) != idf(s[j]),
    ensures
        forall|i: int, j: int|
            0 <= i < j < s.remove(w).len() ==> idf(#[trigger] s.remove(w)[i]) != idf(
                #[trigger] s.remove(w)[j],
            ),
        forall|i: int| 0 <= i < s.remove(w).len() ==> idf(#[trigger] s.remove(w)[i]) != idf(s[w]),
{
    let t = s.remove(w);
    s.remove_ensures(w);
    assert forall|i: int, j: int| 0 <= i < j < t.len() implies idf(#[trigger] t[i]) != idf(
        #[trigger] t[j],
    ) by {
        let x = if i < w {
            i
        } else {
            i + 1
        };
        let y = if j < w {
            j
        } else {
            j + 1
        };
        assert(t[i] == s[x]);
        assert(t[j] == s[y]);
    }
    assert forall|i: int| 0 <= i < t.len() implies idf(#[trigger] t[i]) != idf(s[w]) by {
        let x = if i < w {
            i
        } else {
            i + 1
        };
        assert(t[i] == s[x]);
    }
}

impl VoiceManager {
    /// The position of this peer's registry entry, if any.
    fn find_peer(&self, id: &str) -> (r: Option<usize>)
        requires
            self.wf(),
        ensures
            (match r {
                Some(i) => has_peer(self.view().peers, id@) && i == peer_index(
                    self.view().peers,
                    id@,
                ) && 0 <= i < self.view().peers.len(),
                None => !has_peer(self.view().peers, id@),
            }),
    {
        let n = self.peers.len();
        let mut i: usize = 0;
        while i < n
            invariant
                self.wf(),
                n == self.peers@.len(),
                i <= n,
                forall|t: int| 0 <= t < i ==> self.view().peers[t].id != id@,
            decreases n - i,
        {
            if str_eq(self.peers[i].id.as_str(), id) {
                proof {
                    let ps = self.view().peers;
                    assert(ps[i as int].id == id@);
                    let w = peer_index(ps, id@);
                    assert(ps[w].id == id@);
                    assert(w == i as int);
                }
                return Some(i);
            }
            i = i + 1;
        }
        None
    }

    /// Remove this peer's registry entry if present; reports whether
    /// it was there. Nothing else changes.
    fn take_peer(&mut self, id: &str) -> (r: bool)
        requires
            old(self).wf(),
        ensures
            final(self).wf(),
            r == has_peer(old(self).view().peers, id@),
            final(self).view() == (ManagerSpec {
                peers: peers_without(old(self).view().peers, id@),
                ..old(self).view()
            }),
            !has_peer(final(self).view().peers, id@),
    {
        let found = self.find_peer(id);
        match found {
            Some(i) => {
                self.peers.remove(i);
                proof {
                    let oldps = old(self).view().peers;
                    let w = peer_index(oldps, id@);
                    assert(self.view().peers =~= oldps.remove(w));
                    lemma_remove_keeps_distinct(oldps, |p: PeerSpec| p.id, w);
                    assert(!has_peer(self.view().peers, id@));
                }
                true
            },
            None => {
                proof {
                    assert(final(self).view() == (ManagerSpec {
                        peers: peers_without(old(self).view().peers, id@),
                        ..old(self).view()
                    }));
                }
                false
            },
        }
    }

    /// The position of this peer's pending-candidate buffer, if any.
    fn find_pending(&self, id: &str) -> (r: Option<usize>)
        requires
            self.wf(),
        ensures
            (match r {
                Some(i) => has_pending(self.view().pending, id@) && i == pending_index(
                    self.view().pending,
                    id@,
                ) && 0 <= i < self.view().pending.len(),
                None => !has_pending(self.view().pending, id@),
            }),
    {
        let n = self.pending.len();
        let mut i: usize = 0;
        while i < n
            invariant
                self.wf(),
                n == self.pending@.len(),
                i <= n,
                forall|t: int| 0 <= t < i ==> self.view().pending[t].id != id@,
            decreases n - i,
        {
            if str_eq(self.pending[i].id.as_str(), id) {
                proof {
                    let ps = self.view().pending;
                    assert(ps[i as int].id == id@);
                    let w = pending_index(ps, id@);
                    assert(ps[w].id == id@);
                    assert(w == i as int);
                }
                return Some(i);
            }
            i = i + 1;
        }
        None
    }

    /// Drain this peer's buffered candidates (empty when none were
    /// buffered); its buffer entry is discarded. Nothing else changes.
    fn take_pending(&mut self, id: &str) -> (r: Vec<String>)
        requires
            old(self).wf(),
        ensures
            final(self).wf(),
            r.deep_view() == pending_for(old(self).view().pending, id@),
            final(self).view() == (ManagerSpec {
                pending: pending_without(old(self).view().pending, id@),
                ..old(self).view()
            }),
    {
        let found = self.find_pending(id);
        match found {
            Some(i) => {
                let entry = self.pending.remove(i);
                proof {
                    let oldps = old(self).view().pending;
                    let w = pending_index(oldps, id@);
                    assert(self.view().pending =~= oldps.remove(w));
                    lemma_remove_keeps_distinct(oldps, |p: PendingSpec| p.id, w);
                }
                entry.candidates
            },
            None => {
                let empty: Vec<String> = Vec::new();
                proof {
                    assert(final(self).view() == (ManagerSpec {
                        pending: pending_without(old(self).view().pending, id@),
                        ..old(self).view()
                    }));
                    assert(empty.deep_view() =~= Seq::<Seq<char>>::empty());
                }
                empty
            },
        }
    }

    /// Register a fresh, not-yet-connected entry for this peer, with
    /// the given candidates already counted as applied.
    fn insert_peer(&mut self, id: &str, applied: Vec<String>)
        requires
            old(self).wf(),
            !has_peer(old(self).view().peers, id@),
        ensures
            final(self).wf(),
            final(self).view() == (ManagerSpec {
                peers: old(self).view().peers.push(
                    PeerSpec { id: id@, connected: false, applied: applied.deep_view() },
                ),
                ..old(self).view()
            }),
    {
        let ghost applied_dv = applied.deep_view();
        let entry = PeerEntry { id: id.to_owned(), connected: false, applied_candidates: applied };
        self.peers.push(entry);
        proof {
            let oldps = old(self).view().peers;
            let newps = self.view().peers;
            assert(newps =~= oldps.push(
                PeerSpec { id: id@, connected: false, applied: applied_dv },
            ));
        }
    }
}

impl VoiceManager {
    /// Leave the voice session: announce the departure (when a room
    /// was joined), stop every audio stream, close every peer
    /// connection, drop every buffered candidate, and reset the
    /// session flags. When it returns, the registries are empty and
    /// zero streams are open, so a later join starts from a clean
    /// slate. Per peer one `PeerDisconnected` is emitted, and after
    /// all of them exactly one `Disconnected`.
    #[verifier::loop_isolation(false)]
    pub fn leave_voice(&mut self) -> (r: (Vec<VoiceEvent>, Vec<VoiceAction>))
        requires
            old(self).wf(),
        ensures
            final(self).wf(),
            final(self).view().room is None,
            !final(self).view().joined,
            !final(self).view().muted,
            !final(self).view().has_local_track,
            final(self).view().peers == Seq::<PeerSpec>::empty(),
            final(self).view().pending == Seq::<PendingSpec>::empty(),
            !final(self).view().capture,
            final(self).view().playback == Seq::<Seq<char>>::empty(),
            r.0.deep_view() == (if old(self).view().room is Some {
                seq![
                    (EventSpec::Signal { target: None, typ: "leave_voice"@, data: ""@ }),
                ]
            } else {
                Seq::<EventSpec>::empty()
            }) + disconnect_events(old(self).view().peers) + seq![
                EventSpec::TxActivity(false),
                EventSpec::MuteStateChanged(false),
                EventSpec::Disconnected,
            ],
            r.1.deep_view() == seq![ActionSpec::ResetAudio] + close_actions(
                old(self).view().peers,
            ),
    {
        let ghost oldpeers = old(self).view().peers;
        // mark not-joined first, so late track arrivals start nothing
        self.joined = false;
        let mut events: Vec<VoiceEvent> = Vec::new();
        let mut actions: Vec<VoiceAction> = Vec::new();
        if self.room_id.is_some() {
            events.push(
                VoiceEvent::Signal {
                    target_id: None,
                    signal_type: "leave_voice".to_owned(),
                    data: "".to_owned(),
                },
            );
        }
        let ghost base = events.deep_view();
        proof {
            assert(base =~= (if old(self).view().room is Some {
                seq![(EventSpec::Signal { target: None, typ: "leave_voice"@, data: ""@ })]
            } else {
                Seq::<EventSpec>::empty()
            }));
        }
        actions.push(VoiceAction::ResetAudio);
        self.audio.reset();
        self.has_local_track = false;
        self.pending.clear();
        let n = self.peers.len();
        let mut i: usize = 0;
        while i < n
            invariant
                i <= n,
                self.peers.deep_view() == oldpeers,
                events.deep_view() =~= base + disconnect_events(oldpeers.take(i as int)),
                actions.deep_view() =~= seq![ActionSpec::ResetAudio] + close_actions(
                    oldpeers.take(i as int),
                ),
            decreases n - i,
        {
            let ghost pre_e = events.deep_view();
            let ghost pre_a = actions.deep_view();
            let pid = self.peers[i].id.clone();
            proof {
                assert(self.peers.deep_view()[i as int] == oldpeers[i as int]);
                assert(pid@ == oldpeers[i as int].id);
            }
            actions.push(VoiceAction::CloseConnection(pid.clone()));
            events.push(VoiceEvent::PeerDisconnected(pid));
            proof {
                assert(events.deep_view() =~= pre_e.push(
                    EventSpec::PeerDisconnected(oldpeers[i as int].id),
                ));
                assert(actions.deep_view() =~= pre_a.push(
                    ActionSpec::CloseConnection(oldpeers[i as int].id),
                ));
                assert(oldpeers.take(i + 1 as int) =~= oldpeers.take(i as int).push(
                    oldpeers[i as int],
                ));
                assert(events.deep_view() =~= base + disconnect_events(
                    oldpeers.take(i + 1 as int),
                ));
                assert(actions.deep_view() =~= seq![ActionSpec::ResetAudio] + close_actions(
                    oldpeers.take(i + 1 as int),
                ));
            }
            i = i + 1;
        }
        self.peers.clear();
        self.muted = false;
        self.room_id = None;
        events.push(VoiceEvent::TxActivity(false));
        events.push(VoiceEvent::MuteStateChanged(false));
        events.push(VoiceEvent::Disconnected);
        proof {
            assert(oldpeers.take(n as int) =~= oldpeers);
            assert(self.view().peers =~= Seq::<PeerSpec>::empty());
            assert(self.view().pending =~= Seq::<PendingSpec>::empty());
            assert(events.deep_view() =~= base + disconnect_events(oldpeers) + seq![
                EventSpec::TxActivity(false),
                EventSpec::MuteStateChanged(false),
                EventSpec::Disconnected,
            ]);
        }
        (events, actions)
    }

    /// Join a voice room. The state is defensively reset first (the
    /// registries are cleared, every old connection is closed, all
    /// streams stop), then the outcome of the host's microphone
    /// attempt decides: on success the session is joined, capture and
    /// the local track are live, a broadcast `join_voice` signal is
    /// emitted and `Connecting` is followed by `Connected`; on failure
    /// the join is aborted with `ConnectionFailed` and no peer is
    /// contacted. The mute flag is kept either way.
    #[verifier::loop_isolation(false)]
    pub fn join_voice(&mut self, room_id: String, capture_result: Result<(), String>) -> (r: (
        Vec<VoiceEvent>,
        Vec<VoiceAction>,
    ))
        requires
            old(self).wf(),
        ensures
            final(self).wf(),
            final(self).view().peers == Seq::<PeerSpec>::empty(),
            final(self).view().pending == Seq::<PendingSpec>::empty(),
            final(self).view().playback == Seq::<Seq<char>>::empty(),
            final(self).view().muted == old(self).view().muted,
            final(self).view().joined == (capture_result is Ok),
            final(self).view().capture == (capture_result is Ok),
            final(self).view().has_local_track == (capture_result is Ok),
            final(self).view().room == (if capture_result is Ok {
                Some(room_id@)
            } else {
                Option::<Seq<char>>::None
            }),
            capture_result is Ok ==> r.0.deep_view() == seq![
                EventSpec::Connecting,
                (EventSpec::Signal { target: None, typ: "join_voice"@, data: ""@ }),
                EventSpec::Connected,
            ],
            (capture_result matches Err(e) ==> r.0.deep_view() == seq![
                EventSpec::Connecting,
                EventSpec::ConnectionFailed("Failed to start microphone: "@ + e@),
            ]),
            r.1.deep_view() == seq![ActionSpec::ResetAudio] + close_actions(
                old(self).view().peers,
            ),
    {
        let ghost oldpeers = old(self).view().peers;
        let mut events: Vec<VoiceEvent> = Vec::new();
        let mut actions: Vec<VoiceAction> = Vec::new();
        events.push(VoiceEvent::Connecting);
        // reset any existing state first, for rejoin safety
        actions.push(VoiceAction::ResetAudio);
        self.audio.reset();
        self.has_local_track = false;
        self.pending.clear();
        let n = self.peers.len();
        let mut i: usize = 0;
        while i < n
            invariant
                i <= n,
                self.peers.deep_view() == oldpeers,
                actions.deep_view() =~= seq![ActionSpec::ResetAudio] + close_actions(
                    oldpeers.take(i as int),
                ),
            decreases n - i,
        {
            let ghost pre_a = actions.deep_view();
            let pid = self.peers[i].id.clone();
            proof {
                assert(self.peers.deep_view()[i as int] == oldpeers[i as int]);
                assert(pid@ == oldpeers[i as int].id);
            }
            actions.push(VoiceAction::CloseConnection(pid));
            proof {
                assert(actions.deep_view() =~= pre_a.push(
                    ActionSpec::CloseConnection(oldpeers[i as int].id),
                ));
                assert(oldpeers.take(i + 1 as int) =~= oldpeers.take(i as int).push(
                    oldpeers[i as int],
                ));
                assert(actions.deep_view() =~= seq![ActionSpec::ResetAudio] + close_actions(
                    oldpeers.take(i + 1 as int),
                ));
            }
            i = i + 1;
        }
        self.peers.clear();
        proof {
            assert(oldpeers.take(n as int) =~= oldpeers);
            assert(self.view().peers =~= Seq::<PeerSpec>::empty());
            assert(self.view().pending =~= Seq::<PendingSpec>::empty());
        }
        match capture_result {
            Ok(()) => {
                self.room_id = Some(room_id);
                self.joined = true;
                self.audio.start_capture(true);
                self.has_local_track = true;
                events.push(
                    VoiceEvent::Signal {
                        target_id: None,
                        signal_type: "join_voice".to_owned(),
                        data: "".to_owned(),
                    },
                );
                events.push(VoiceEvent::Connected);
                proof {
                    assert(events.deep_view() =~= seq![
                        EventSpec::Connecting,
                        (EventSpec::Signal { target: None, typ: "join_voice"@, data: ""@ }),
                        EventSpec::Connected,
                    ]);
                }
            },
            Err(e) => {
                self.room_id = None;
                self.joined = false;
                events.push(
                    VoiceEvent::ConnectionFailed(
                        vstd::string::StringExecFns::concat(
                            "Failed to start microphone: ".to_owned(),
                            e.as_str(),
                        ),
                    ),
                );
                proof {
                    assert(events.deep_view() =~= seq![
                        EventSpec::Connecting,
                        EventSpec::ConnectionFailed("Failed to start microphone: "@ + e@),
                    ]);
                }
            },
        }
        (events, actions)
    }
}

/// The five signaling message types, plus everything else (which is
/// ignored).
#[derive(Debug, Clone, Copy, PartialEq, Eq, Structural)]
pub enum SigKind {
    JoinVoice,
    Offer,
    Answer,
    Candidate,
    LeaveVoice,
    Other,
}

/// Classify a signaling message type string.
pub open spec fn sig_kind(t: Seq<char>) -> SigKind {
    if t == "join_voice"@ {
        SigKind::JoinVoice
    } else if t == "offer"@ {
        SigKind::Offer
    } else if t == "answer"@ {
        SigKind::Answer
    } else if t == "candidate"@ {
        SigKind::Candidate
    } else if t == "leave_voice"@ {
        SigKind::LeaveVoice
    } else {
        SigKind::Other
    }
}

/// The connection states the transport reports for one peer.
#[derive(Debug, Clone, Copy, PartialEq, Eq, Structural)]
pub enum PeerConnState {
    Unspecified,
    New,
    Connecting,
    Connected,
    Disconnected,
    Failed,
    Closed,
}

/// Which of offer and answer a created local description is.
#[derive(Debug, Clone, Copy, PartialEq, Eq, Structural)]
pub enum SdpKind {
    Offer,
    Answer,
}

pub open spec fn sdp_kind_name(k: SdpKind) -> Seq<char> {
    match k {
        SdpKind::Offer => "offer"@,
        SdpKind::Answer => "answer"@,
    }
}

impl VoiceManager {
    /// Remove this peer's registry entry, pending buffer and playback
    /// stream; reports whether the entry was there, and the actions to
    /// perform (close the old connection when one existed, tear down
    /// its playback stream).
    fn cleanup_peer(&mut self, peer_id: &str) -> (r: (bool, Vec<VoiceAction>))
        requires
            old(self).wf(),
        ensures
            final(self).wf(),
            r.0 == has_peer(old(self).view().peers, peer_id@),
            final(self).view() == (ManagerSpec {
                peers: peers_without(old(self).view().peers, peer_id@),
                pending: pending_without(old(self).view().pending, peer_id@),
                playback: ids_without(old(self).view().playback, peer_id@),
                ..old(self).view()
            }),
            r.1.deep_view() == (if has_peer(old(self).view().peers, peer_id@) {
                seq![ActionSpec::CloseConnection(peer_id@)]
            } else {
                Seq::<ActionSpec>::empty()
            }) + seq![ActionSpec::RemovePeerPlayback(peer_id@)],
    {
        let mut actions: Vec<VoiceAction> = Vec::new();
        let had = self.take_peer(peer_id);
        if had {
            actions.push(VoiceAction::CloseConnection(peer_id.to_owned()));
        }
        actions.push(VoiceAction::RemovePeerPlayback(peer_id.to_owned()));
        self.audio.remove_peer_stream(peer_id);
        let _ = self.take_pending(peer_id);
        proof {
            assert(actions.deep_view() =~= (if has_peer(old(self).view().peers, peer_id@) {
                seq![ActionSpec::CloseConnection(peer_id@)]
            } else {
                Seq::<ActionSpec>::empty()
            }) + seq![ActionSpec::RemovePeerPlayback(peer_id@)]);
        }
        (had, actions)
    }

    /// A remote peer announced joining: as an existing member, this
    /// side initiates. Any previous connection to that peer is closed
    /// first (one live entry per peer id), its stale playback stream
    /// is dropped, and a fresh connection is created with an offer.
    fn on_remote_join(&mut self, sender_id: &str) -> (r: (Vec<VoiceEvent>, Vec<VoiceAction>))
        requires
            old(self).wf(),
        ensures
            final(self).wf(),
            final(self).view() == (ManagerSpec {
                peers: peers_without(old(self).view().peers, sender_id@).push(
                    (PeerSpec { id: sender_id@, connected: false, applied: Seq::empty() }),
                ),
                playback: ids_without(old(self).view().playback, sender_id@),
                ..old(self).view()
            }),
            r.0.deep_view() == Seq::<EventSpec>::empty(),
            r.1.deep_view() == (if has_peer(old(self).view().peers, sender_id@) {
                seq![ActionSpec::CloseConnection(sender_id@)]
            } else {
                Seq::<ActionSpec>::empty()
            }) + seq![
                ActionSpec::RemovePeerPlayback(sender_id@),
                (ActionSpec::CreateConnection { peer: sender_id@, initiate_offer: true }),
            ],
    {
        let mut actions: Vec<VoiceAction> = Vec::new();
        let had = self.take_peer(sender_id);
        if had {
            actions.push(VoiceAction::CloseConnection(sender_id.to_owned()));
        }
        actions.push(VoiceAction::RemovePeerPlayback(sender_id.to_owned()));
        self.audio.remove_peer_stream(sender_id);
        let empty: Vec<String> = Vec::new();
        proof {
            assert(empty.deep_view() =~= Seq::<Seq<char>>::empty());
        }
        self.insert_peer(sender_id, empty);
        actions.push(
            VoiceAction::CreateConnection { peer_id: sender_id.to_owned(), initiate_offer: true },
        );
        let events: Vec<VoiceEvent> = Vec::new();
        proof {
            assert(events.deep_view() =~= Seq::<EventSpec>::empty());
            assert(actions.deep_view() =~= (if has_peer(old(self).view().peers, sender_id@) {
                seq![ActionSpec::CloseConnection(sender_id@)]
            } else {
                Seq::<ActionSpec>::empty()
            }) + seq![
                ActionSpec::RemovePeerPlayback(sender_id@),
                (ActionSpec::CreateConnection { peer: sender_id@, initiate_offer: true }),
            ]);
        }
        (events, actions)
    }

    /// A remote peer sent an offer: a fresh connection is created (any
    /// old one is closed first), the remote description is applied,
    /// every candidate that arrived before this offer is applied in
    /// arrival order — before any later candidate can be — and an
    /// answer is created for the peer.
    fn on_offer(&mut self, sender_id: &str, data: &str) -> (r: (Vec<VoiceEvent>, Vec<VoiceAction>))
        requires
            old(self).wf(),
        ensures
            final(self).wf(),
            final(self).view() == (ManagerSpec {
                peers: peers_without(old(self).view().peers, sender_id@).push(
                    (PeerSpec {
                        id: sender_id@,
                        connected: false,
                        applied: pending_for(old(self).view().pending, sender_id@),
                    }),
                ),
                pending: pending_without(old(self).view().pending, sender_id@),
                playback: ids_without(old(self).view().playback, sender_id@),
                ..old(self).view()
            }),
            r.0.deep_view() == Seq::<EventSpec>::empty(),
            r.1.deep_view() == (if has_peer(old(self).view().peers, sender_id@) {
                seq![ActionSpec::CloseConnection(sender_id@)]
            } else {
                Seq::<ActionSpec>::empty()
            }) + seq![
                ActionSpec::RemovePeerPlayback(sender_id@),
                (ActionSpec::CreateConnection { peer: sender_id@, initiate_offer: false }),
                (ActionSpec::ApplyRemoteDescription { peer: sender_id@, data: data@ }),
            ] + pending_for(old(self).view().pending, sender_id@).map_values(
                |c: Seq<char>| (ActionSpec::ApplyCandidate { peer: sender_id@, data: c }),
            ) + seq![(ActionSpec::CreateAnswer { peer: sender_id@ })],
    {
        let mut actions: Vec<VoiceAction> = Vec::new();
        let had = self.take_peer(sender_id);
        if had {
            actions.push(VoiceAction::CloseConnection(sender_id.to_owned()));
        }
        actions.push(VoiceAction::RemovePeerPlayback(sender_id.to_owned()));
        self.audio.remove_peer_stream(sender_id);
        actions.push(
            VoiceAction::CreateConnection { peer_id: sender_id.to_owned(), initiate_offer: false },
        );
        actions.push(
            VoiceAction::ApplyRemoteDescription {
                peer_id: sender_id.to_owned(),
                data: data.to_owned(),
            },
        );
        let ghost head = actions.deep_view();
        proof {
            assert(head =~= (if has_peer(old(self).view().peers, sender_id@) {
                seq![ActionSpec::CloseConnection(sender_id@)]
            } else {
                Seq::<ActionSpec>::empty()
            }) + seq![
                ActionSpec::RemovePeerPlayback(sender_id@),
                (ActionSpec::CreateConnection { peer: sender_id@, initiate_offer: false }),
                (ActionSpec::ApplyRemoteDescription { peer: sender_id@, data: data@ }),
            ]);
        }
        let cands = self.take_pending(sender_id);
        let ghost cands_dv = cands.deep_view();
        let n = cands.len();
        let mut k: usize = 0;
        while k < n
            invariant
                k <= n,
                n == cands@.len(),
                cands.deep_view() == cands_dv,
                actions.deep_view() =~= head + cands_dv.take(k as int).map_values(
                    |c: Seq<char>| (ActionSpec::ApplyCandidate { peer: sender_id@, data: c }),
                ),
            decreases n - k,
        {
            let ghost pre_a = actions.deep_view();
            let c = cands[k].clone();
            proof {
                assert(cands.deep_view()[k as int] == cands_dv[k as int]);
                assert(c@ == cands_dv[k as int]);
            }
            actions.push(
                VoiceAction::ApplyCandidate { peer_id: sender_id.to_owned(), data: c },
            );
            proof {
                assert(actions.deep_view() =~= pre_a.push(
                    (ActionSpec::ApplyCandidate { peer: sender_id@, data: cands_dv[k as int] }),
                ));
                assert(cands_dv.take(k + 1 as int) =~= cands_dv.take(k as int).push(
                    cands_dv[k as int],
                ));
                assert(actions.deep_view() =~= head + cands_dv.take(k + 1 as int).map_values(
                    |c: Seq<char>| (ActionSpec::ApplyCandidate { peer: sender_id@, data: c }),
                ));
            }
            k = k + 1;
        }
        proof {
            assert(cands_dv.take(n as int) =~= cands_dv);
        }
        self.insert_peer(sender_id, cands);
        let ghost before_answer = actions.deep_view();
        actions.push(VoiceAction::CreateAnswer { peer_id: sender_id.to_owned() });
        let events: Vec<VoiceEvent> = Vec::new();
        proof {
            assert(events.deep_view() =~= Seq::<EventSpec>::empty());
            assert(before_answer =~= head + cands_dv.map_values(
                |c: Seq<char>| (ActionSpec::ApplyCandidate { peer: sender_id@, data: c }),
            ));
            assert(actions.deep_view() =~= before_answer.push(
                (ActionSpec::CreateAnswer { peer: sender_id@ }),
            ));
            assert(actions.deep_view() =~= (if has_peer(old(self).view().peers, sender_id@) {
                seq![ActionSpec::CloseConnection(sender_id@)]
            } else {
                Seq::<ActionSpec>::empty()
            }) + seq![
                ActionSpec::RemovePeerPlayback(sender_id@),
                (ActionSpec::CreateConnection { peer: sender_id@, initiate_offer: false }),
                (ActionSpec::ApplyRemoteDescription { peer: sender_id@, data: data@ }),
            ] + pending_for(old(self).view().pending, sender_id@).map_values(
                |c: Seq<char>| (ActionSpec::ApplyCandidate { peer: sender_id@, data: c }),
            ) + seq![(ActionSpec::CreateAnswer { peer: sender_id@ })]);
        }
        (events, actions)
    }

    /// A remote peer answered an offer this side sent: apply it when
    /// the connection is still registered, else drop the stale message
    /// silently. The state never changes.
    fn on_answer(&mut self, sender_id: &str, data: &str) -> (r: (
        Vec<VoiceEvent>,
        Vec<VoiceAction>,
    ))
        requires
            old(self).wf(),
        ensures
            final(self).wf(),
            final(self).view() == old(self).view(),
            r.0.deep_view() == Seq::<EventSpec>::empty(),
            r.1.deep_view() == (if has_peer(old(self).view().peers, sender_id@) {
                seq![(ActionSpec::ApplyRemoteDescription { peer: sender_id@, data: data@ })]
            } else {
                Seq::<ActionSpec>::empty()
            }),
    {
        let mut actions: Vec<VoiceAction> = Vec::new();
        if self.find_peer(sender_id).is_some() {
            actions.push(
                VoiceAction::ApplyRemoteDescription {
                    peer_id: sender_id.to_owned(),
                    data: data.to_owned(),
                },
            );
        }
        let events: Vec<VoiceEvent> = Vec::new();
        proof {
            assert(events.deep_view() =~= Seq::<EventSpec>::empty());
            assert(actions.deep_view() =~= (if has_peer(old(self).view().peers, sender_id@) {
                seq![(ActionSpec::ApplyRemoteDescription { peer: sender_id@, data: data@ })]
            } else {
                Seq::<ActionSpec>::empty()
            }));
        }
        (events, actions)
    }

    /// A candidate arrived for this peer: applied at once when the
    /// connection exists, else buffered in arrival order until the
    /// offer creates the connection — never dropped.
    fn on_candidate(&mut self, sender_id: &str, data: &str) -> (r: (
        Vec<VoiceEvent>,
        Vec<VoiceAction>,
    ))
        requires
            old(self).wf(),
        ensures
            final(self).wf(),
            r.0.deep_view() == Seq::<EventSpec>::empty(),
            has_peer(old(self).view().peers, sender_id@) ==> {
                &&& final(self).view() == (ManagerSpec {
                    peers: old(self).view().peers.update(
                        peer_index(old(self).view().peers, sender_id@),
                        (PeerSpec {
                            id: sender_id@,
                            connected: old(self).view().peers[peer_index(
                                old(self).view().peers,
                                sender_id@,
                            )].connected,
                            applied: old(self).view().peers[peer_index(
                                old(self).view().peers,
                                sender_id@,
                            )].applied.push(data@),
                        }),
                    ),
                    ..old(self).view()
                })
                &&& r.1.deep_view() == seq![
                    (ActionSpec::ApplyCandidate { peer: sender_id@, data: data@ }),
                ]
            },
            !has_peer(old(self).view().peers, sender_id@) ==> {
                &&& r.1.deep_view() == Seq::<ActionSpec>::empty()
                &&& (if has_pending(old(self).view().pending, sender_id@) {
                    final(self).view() == (ManagerSpec {
                        pending: old(self).view().pending.update(
                            pending_index(old(self).view().pending, sender_id@),
                            (PendingSpec {
                                id: sender_id@,
                                candidates: old(self).view().pending[pending_index(
                                    old(self).view().pending,
                                    sender_id@,
                                )].candidates.push(data@),
                            }),
                        ),
                        ..old(self).view()
                    })
                } else {
                    final(self).view() == (ManagerSpec {
                        pending: old(self).view().pending.push(
                            (PendingSpec { id: sender_id@, candidates: seq![data@] }),
                        ),
                        ..old(self).view()
                    })
                })
            },
    {
        let events: Vec<VoiceEvent> = Vec::new();
        let mut actions: Vec<VoiceAction> = Vec::new();
        proof {
            assert(events.deep_view() =~= Seq::<EventSpec>::empty());
            assert(actions.deep_view() =~= Seq::<ActionSpec>::empty());
        }
        let found = self.find_peer(sender_id);
        match found {
            Some(i) => {
                let ghost oldps = old(self).view().peers;
                let ghost w = i as int;
                let ghost newspec = PeerSpec {
                    id: sender_id@,
                    connected: oldps[w].connected,
                    applied: oldps[w].applied.push(data@),
                };
                let mut entry = self.peers.remove(i);
                proof {
                    assert(entry.deep_view() == oldps[w]);
                }
                entry.applied_candidates.push(data.to_owned());
                proof {
                    assert(entry.applied_candidates.deep_view() =~= oldps[w].applied.push(data@));
                    assert(entry.deep_view() == newspec);
                }
                self.peers.insert(i, entry);
                actions.push(
                    VoiceAction::ApplyCandidate {
                        peer_id: sender_id.to_owned(),
                        data: data.to_owned(),
                    },
                );
                proof {
                    assert(self.peers@[w].deep_view() == newspec);
                    assert(self.view().peers =~= oldps.update(w, newspec));
                    assert forall|a: int, b: int|
                        0 <= a < b < self.view().peers.len() implies self.view().peers[a].id
                        != self.view().peers[b].id by {
                        assert(self.view().peers[a].id == oldps[a].id);
                        assert(self.view().peers[b].id == oldps[b].id);
                    }
                    assert(actions.deep_view() =~= seq![
                        (ActionSpec::ApplyCandidate { peer: sender_id@, data: data@ }),
                    ]);
                }
            },
            None => {
                let found_pending = self.find_pending(sender_id);
                match found_pending {
                    Some(i) => {
                        let ghost oldpd = old(self).view().pending;
                        let ghost w = i as int;
                        let ghost newspec = PendingSpec {
                            id: sender_id@,
                            candidates: oldpd[w].candidates.push(data@),
                        };
                        let mut entry = self.pending.remove(i);
                        proof {
                            assert(entry.deep_view() == oldpd[w]);
                        }
                        entry.candidates.push(data.to_owned());
                        proof {
                            assert(entry.candidates.deep_view() =~= oldpd[w].candidates.push(
                                data@,
                            ));
                            assert(entry.deep_view() == newspec);
                        }
                        self.pending.insert(i, entry);
                        proof {
                            assert(self.pending@[w].deep_view() == newspec);
                            assert(self.view().pending =~= oldpd.update(w, newspec));
                            assert forall|a: int, b: int|
                                0 <= a < b < self.view().pending.len() implies self.view(
                            ).pending[a].id != self.view().pending[b].id by {
                                assert(self.view().pending[a].id == oldpd[a].id);
                                assert(self.view().pending[b].id == oldpd[b].id);
                            }
                        }
                    },
                    None => {
                        let mut cands: Vec<String> = Vec::new();
                        cands.push(data.to_owned());
                        proof {
                            assert(cands.deep_view() =~= seq![data@]);
                        }
                        let entry = PendingEntry { id: sender_id.to_owned(), candidates: cands };
                        proof {
                            assert(entry.deep_view() == (PendingSpec {
                                id: sender_id@,
                                candidates: seq![data@],
                            }));
                        }
                        self.pending.push(entry);
                        proof {
                            assert(self.view().pending =~= old(self).view().pending.push(
                                (PendingSpec { id: sender_id@, candidates: seq![data@] }),
                            ));
                        }
                    },
                }
            },
        }
        (events, actions)
    }

    /// A remote peer announced leaving: close and remove its
    /// connection, its playback stream and its buffered candidates,
    /// and report the departure.
    fn on_leave_signal(&mut self, sender_id: &str) -> (r: (Vec<VoiceEvent>, Vec<VoiceAction>))
        requires
            old(self).wf(),
        ensures
            final(self).wf(),
            final(self).view() == (ManagerSpec {
                peers: peers_without(old(self).view().peers, sender_id@),
                pending: pending_without(old(self).view().pending, sender_id@),
                playback: ids_without(old(self).view().playback, sender_id@),
                ..old(self).view()
            }),
            r.0.deep_view() == seq![EventSpec::PeerDisconnected(sender_id@)],
            r.1.deep_view() == (if has_peer(old(self).view().peers, sender_id@) {
                seq![ActionSpec::CloseConnection(sender_id@)]
            } else {
                Seq::<ActionSpec>::empty()
            }) + seq![ActionSpec::RemovePeerPlayback(sender_id@)],
    {
        let (_, actions) = self.cleanup_peer(sender_id);
        let mut events: Vec<VoiceEvent> = Vec::new();
        events.push(VoiceEvent::PeerDisconnected(sender_id.to_owned()));
        proof {
            assert(events.deep_view() =~= seq![EventSpec::PeerDisconnected(sender_id@)]);
        }
        (events, actions)
    }

    /// Apply one inbound signaling message from `sender_id`. The five
    /// `type` values drive the per-peer state machine; anything else
    /// is ignored. Payloads are opaque: they are routed, buffered and
    /// handed back in actions, never inspected.
    pub fn handle_signal(&mut self, sender_id: &str, signal_type: &str, data: &str) -> (r: (
        Vec<VoiceEvent>,
        Vec<VoiceAction>,
    ))
        requires
            old(self).wf(),
        ensures
            final(self).wf(),
            sig_kind(signal_type@) == SigKind::JoinVoice ==> {
                &&& final(self).view() == (ManagerSpec {
                    peers: peers_without(old(self).view().peers, sender_id@).push(
                        (PeerSpec { id: sender_id@, connected: false, applied: Seq::empty() }),
                    ),
                    playback: ids_without(old(self).view().playback, sender_id@),
                    ..old(self).view()
                })
                &&& r.0.deep_view() == Seq::<EventSpec>::empty()
                &&& r.1.deep_view() == (if has_peer(old(self).view().peers, sender_id@) {
                    seq![ActionSpec::CloseConnection(sender_id@)]
                } else {
                    Seq::<ActionSpec>::empty()
                }) + seq![
                    ActionSpec::RemovePeerPlayback(sender_id@),
                    (ActionSpec::CreateConnection { peer: sender_id@, initiate_offer: true }),
                ]
            },
            sig_kind(signal_type@) == SigKind::Offer ==> {
                &&& final(self).view() == (ManagerSpec {
                    peers: peers_without(old(self).view().peers, sender_id@).push(
                        (PeerSpec {
                            id: sender_id@,
                            connected: false,
                            applied: pending_for(old(self).view().pending, sender_id@),
                        }),
                    ),
                    pending: pending_without(old(self).view().pending, sender_id@),
                    playback: ids_without(old(self).view().playback, sender_id@),
                    ..old(self).view()
                })
                &&& r.0.deep_view() == Seq::<EventSpec>::empty()
                &&& r.1.deep_view() == (if has_peer(old(self).view().peers, sender_id@) {
                    seq![ActionSpec::CloseConnection(sender_id@)]
                } else {
                    Seq::<ActionSpec>::empty()
                }) + seq![
                    ActionSpec::RemovePeerPlayback(sender_id@),
                    (ActionSpec::CreateConnection { peer: sender_id@, initiate_offer: false }),
                    (ActionSpec::ApplyRemoteDescription { peer: sender_id@, data: data@ }),
                ] + pending_for(old(self).view().pending, sender_id@).map_values(
                    |c: Seq<char>| (ActionSpec::ApplyCandidate { peer: sender_id@, data: c }),
                ) + seq![(ActionSpec::CreateAnswer { peer: sender_id@ })]
            },
            sig_kind(signal_type@) == SigKind::Answer ==> {
                &&& final(self).view() == old(self).view()
                &&& r.0.deep_view() == Seq::<EventSpec>::empty()
                &&& r.1.deep_view() == (if has_peer(old(self).view().peers, sender_id@) {
                    seq![(ActionSpec::ApplyRemoteDescription { peer: sender_id@, data: data@ })]
                } else {
                    Seq::<ActionSpec>::empty()
                })
            },
            sig_kind(signal_type@) == SigKind::Candidate ==> {
                &&& r.0.deep_view() == Seq::<EventSpec>::empty()
                &&& (has_peer(old(self).view().peers, sender_id@) ==> final(self).view() == (
                ManagerSpec {
                    peers: old(self).view().peers.update(
                        peer_index(old(self).view().peers, sender_id@),
                        (PeerSpec {
                            id: sender_id@,
                            connected: old(self).view().peers[peer_index(
                                old(self).view().peers,
                                sender_id@,
                            )].connected,
                            applied: old(self).view().peers[peer_index(
                                old(self).view().peers,
                                sender_id@,
                            )].applied.push(data@),
                        }),
                    ),
                    ..old(self).view()
                }) && r.1.deep_view() == seq![
                    (ActionSpec::ApplyCandidate { peer: sender_id@, data: data@ }),
                ])
                &&& (!has_peer(old(self).view().peers, sender_id@) ==> r.1.deep_view()
                    == Seq::<ActionSpec>::empty() && (if has_pending(
                    old(self).view().pending,
                    sender_id@,
                ) {
                    final(self).view() == (ManagerSpec {
                        pending: old(self).view().pending.update(
                            pending_index(old(self).view().pending, sender_id@),
                            (PendingSpec {
                                id: sender_id@,
                                candidates: old(self).view().pending[pending_index(
                                    old(self).view().pending,
                                    sender_id@,
                                )].candidates.push(data@),
                            }),
                        ),
                        ..old(self).view()
                    })
                } else {
                    final(self).view() == (ManagerSpec {
                        pending: old(self).view().pending.push(
                            (PendingSpec { id: sender_id@, candidates: seq![data@] }),
                        ),
                        ..old(self).view()
                    })
                }))
            },
            sig_kind(signal_type@) == SigKind::LeaveVoice ==> {
                &&& final(self).view() == (ManagerSpec {
                    peers: peers_without(old(self).view().peers, sender_id@),
                    pending: pending_without(old(self).view().pending, sender_id@),
                    playback: ids_without(old(self).view().playback, sender_id@),
                    ..old(self).view()
                })
                &&& r.0.deep_view() == seq![EventSpec::PeerDisconnected(sender_id@)]
                &&& r.1.deep_view() == (if has_peer(old(self).view().peers, sender_id@) {
                    seq![ActionSpec::CloseConnection(sender_id@)]
                } else {
                    Seq::<ActionSpec>::empty()
                }) + seq![ActionSpec::RemovePeerPlayback(sender_id@)]
            },
            sig_kind(signal_type@) == SigKind::Other ==> {
                &&& final(self).view() == old(self).view()
                &&& r.0.deep_view() == Seq::<EventSpec>::empty()
                &&& r.1.deep_view() == Seq::<ActionSpec>::empty()
            },
    {
        if str_eq(signal_type, "join_voice") {
            self.on_remote_join(sender_id)
        } else if str_eq(signal_type, "offer") {
            self.on_offer(sender_id, data)
        } else if str_eq(signal_type, "answer") {
            self.on_answer(sender_id, data)
        } else if str_eq(signal_type, "candidate") {
            self.on_candidate(sender_id, data)
        } else if str_eq(signal_type, "leave_voice") {
            self.on_leave_signal(sender_id)
        } else {
            let events: Vec<VoiceEvent> = Vec::new();
            let actions: Vec<VoiceAction> = Vec::new();
            proof {
                assert(events.deep_view() =~= Seq::<EventSpec>::empty());
                assert(actions.deep_view() =~= Seq::<ActionSpec>::empty());
            }
            (events, actions)
        }
    }

    /// The transport reported a connection-state change for one peer.
    /// `Connected` marks the entry established; `Disconnected`,
    /// `Failed` and `Closed` clean the peer up (entry, buffered
    /// candidates, playback stream) and report it; the rest are
    /// ignored.
    pub fn peer_state_changed(&mut self, peer_id: &str, state: PeerConnState) -> (r: (
        Vec<VoiceEvent>,
        Vec<VoiceAction>,
    ))
        requires
            old(self).wf(),
        ensures
            final(self).wf(),
            state == PeerConnState::Connected ==> {
                &&& (has_peer(old(self).view().peers, peer_id@) ==> final(self).view() == (
                ManagerSpec {
                    peers: old(self).view().peers.update(
                        peer_index(old(self).view().peers, peer_id@),
                        (PeerSpec {
                            id: peer_id@,
                            connected: true,
                            applied: old(self).view().peers[peer_index(
                                old(self).view().peers,
                                peer_id@,
                            )].applied,
                        }),
                    ),
                    ..old(self).view()
                }))
                &&& (!has_peer(old(self).view().peers, peer_id@) ==> final(self).view() == old(
                    self,
                ).view())
                &&& r.0.deep_view() == seq![EventSpec::PeerConnected(peer_id@)]
                &&& r.1.deep_view() == Seq::<ActionSpec>::empty()
            },
            (state == PeerConnState::Disconnected || state == PeerConnState::Closed) ==> {
                &&& final(self).view() == (ManagerSpec {
                    peers: peers_without(old(self).view().peers, peer_id@),
                    pending: pending_without(old(self).view().pending, peer_id@),
                    playback: ids_without(old(self).view().playback, peer_id@),
                    ..old(self).view()
                })
                &&& r.0.deep_view() == seq![EventSpec::PeerDisconnected(peer_id@)]
                &&& r.1.deep_view() == (if has_peer(old(self).view().peers, peer_id@) {
                    seq![ActionSpec::CloseConnection(peer_id@)]
                } else {
                    Seq::<ActionSpec>::empty()
                }) + seq![ActionSpec::RemovePeerPlayback(peer_id@)]
            },
            state == PeerConnState::Failed ==> {
                &&& final(self).view() == (ManagerSpec {
                    peers: peers_without(old(self).view().peers, peer_id@),
                    pending: pending_without(old(self).view().pending, peer_id@),
                    playback: ids_without(old(self).view().playback, peer_id@),
                    ..old(self).view()
                })
                &&& r.0.deep_view() == seq![EventSpec::PeerConnectionFailed(peer_id@)]
                &&& r.1.deep_view() == (if has_peer(old(self).view().peers, peer_id@) {
                    seq![ActionSpec::CloseConnection(peer_id@)]
                } else {
                    Seq::<ActionSpec>::empty()
                }) + seq![ActionSpec::RemovePeerPlayback(peer_id@)]
            },
            (state == PeerConnState::Unspecified || state == PeerConnState::New || state
                == PeerConnState::Connecting) ==> {
                &&& final(self).view() == old(self).view()
                &&& r.0.deep_view() == Seq::<EventSpec>::empty()
                &&& r.1.deep_view() == Seq::<ActionSpec>::empty()
            },
    {
        match state {
            PeerConnState::Connected => {
                let mut events: Vec<VoiceEvent> = Vec::new();
                let actions: Vec<VoiceAction> = Vec::new();
                let found = self.find_peer(peer_id);
                match found {
                    Some(i) => {
                        let ghost oldps = old(self).view().peers;
                        let ghost w = i as int;
                        let ghost newspec = PeerSpec {
                            id: peer_id@,
                            connected: true,
                            applied: oldps[w].applied,
                        };
                        let mut entry = self.peers.remove(i);
                        proof {
                            assert(entry.deep_view() == oldps[w]);
                        }
                        entry.connected = true;
                        proof {
                            assert(entry.deep_view() == newspec);
                        }
                        self.peers.insert(i, entry);
                        proof {
                            assert(self.peers@[w].deep_view() == newspec);
                            assert(self.view().peers =~= oldps.update(w, newspec));
                            assert forall|a: int, b: int|
                                0 <= a < b < self.view().peers.len() implies self.view(
                            ).peers[a].id != self.view().peers[b].id by {
                                assert(self.view().peers[a].id == oldps[a].id);
                                assert(self.view().peers[b].id == oldps[b].id);
                            }
                        }
                    },
                    None => {},
                }
                events.push(VoiceEvent::PeerConnected(peer_id.to_owned()));
                proof {
                    assert(events.deep_view() =~= seq![EventSpec::PeerConnected(peer_id@)]);
                    assert(actions.deep_view() =~= Seq::<ActionSpec>::empty());
                }
                (events, actions)
            },
            PeerConnState::Disconnected | PeerConnState::Closed => {
                let (_, actions) = self.cleanup_peer(peer_id);
                let mut events: Vec<VoiceEvent> = Vec::new();
                events.push(VoiceEvent::PeerDisconnected(peer_id.to_owned()));
                proof {
                    assert(events.deep_view() =~= seq![EventSpec::PeerDisconnected(peer_id@)]);
                }
                (events, actions)
            },
            PeerConnState::Failed => {
                let (_, actions) = self.cleanup_peer(peer_id);
                let mut events: Vec<VoiceEvent> = Vec::new();
                events.push(VoiceEvent::PeerConnectionFailed(peer_id.to_owned()));
                proof {
                    assert(events.deep_view() =~= seq![
                        EventSpec::PeerConnectionFailed(peer_id@),
                    ]);
                }
                (events, actions)
            },
            _ => {
                let events: Vec<VoiceEvent> = Vec::new();
                let actions: Vec<VoiceAction> = Vec::new();
                proof {
                    assert(events.deep_view() =~= Seq::<EventSpec>::empty());
                    assert(actions.deep_view() =~= Seq::<ActionSpec>::empty());
                }
                (events, actions)
            },
        }
    }

    /// A remote media track arrived for one peer, and the host has
    /// tried to open (or reuse) the playback device for it. Outside a
    /// joined session nothing happens (a late track must not revive
    /// playback during teardown). On success the peer owns a playback
    /// stream; on failure the session continues, that peer simply has
    /// no audio.
    pub fn remote_track_arrived(&mut self, peer_id: &str, playback_result: Result<(), String>) -> (
    r: (Vec<VoiceEvent>, Vec<VoiceAction>))
        requires
            old(self).wf(),
        ensures
            final(self).wf(),
            !old(self).view().joined ==> {
                &&& final(self).view() == old(self).view()
                &&& r.0.deep_view() == Seq::<EventSpec>::empty()
                &&& r.1.deep_view() == Seq::<ActionSpec>::empty()
            },
            old(self).view().joined && playback_result is Ok ==> {
                &&& final(self).view() == (ManagerSpec {
                    playback: (if has_id(old(self).view().playback, peer_id@) {
                        old(self).view().playback
                    } else {
                        old(self).view().playback.push(peer_id@)
                    }),
                    ..old(self).view()
                })
                &&& r.0.deep_view() == Seq::<EventSpec>::empty()
                &&& r.1.deep_view() == seq![ActionSpec::StartPlayback(peer_id@)]
            },
            old(self).view().joined ==> (playback_result matches Err(e) ==> {
                &&& final(self).view() == old(self).view()
                &&& r.0.deep_view() == seq![
                    EventSpec::AudioError("Audio playback failed: "@ + e@),
                ]
                &&& r.1.deep_view() == Seq::<ActionSpec>::empty()
            }),
    {
        let mut events: Vec<VoiceEvent> = Vec::new();
        let mut actions: Vec<VoiceAction> = Vec::new();
        proof {
            assert(events.deep_view() =~= Seq::<EventSpec>::empty());
            assert(actions.deep_view() =~= Seq::<ActionSpec>::empty());
        }
        if !self.joined {
            return (events, actions);
        }
        // joined from here on
        match playback_result {
            Ok(()) => {
                self.audio.start_playback_for_peer(peer_id, true);
                actions.push(VoiceAction::StartPlayback(peer_id.to_owned()));
                proof {
                    assert(actions.deep_view() =~= seq![ActionSpec::StartPlayback(peer_id@)]);
                }
            },
            Err(e) => {
                events.push(
                    VoiceEvent::AudioError(
                        vstd::string::StringExecFns::concat(
                            "Audio playback failed: ".to_owned(),
                            e.as_str(),
                        ),
                    ),
                );
                proof {
                    assert(events.deep_view() =~= seq![
                        EventSpec::AudioError("Audio playback failed: "@ + e@),
                    ]);
                }
            },
        }
        (events, actions)
    }

    /// The host created and set a local description (the offer or
    /// answer a `CreateConnection`/`CreateAnswer` action asked for):
    /// emit it as a signal targeted at the peer.
    pub fn local_description_created(&self, peer_id: &str, kind: SdpKind, sdp_json: String) -> (
    r: Vec<VoiceEvent>)
        ensures
            r.deep_view() == seq![
                (EventSpec::Signal {
                    target: Some(peer_id@),
                    typ: sdp_kind_name(kind),
                    data: sdp_json@,
                }),
            ],
    {
        let typ = match kind {
            SdpKind::Offer => "offer".to_owned(),
            SdpKind::Answer => "answer".to_owned(),
        };
        let mut events: Vec<VoiceEvent> = Vec::new();
        events.push(
            VoiceEvent::Signal {
                target_id: Some(peer_id.to_owned()),
                signal_type: typ,
                data: sdp_json,
            },
        );
        proof {
            assert(events.deep_view() =~= seq![
                (EventSpec::Signal {
                    target: Some(peer_id@),
                    typ: sdp_kind_name(kind),
                    data: sdp_json@,
                }),
            ]);
        }
        events
    }
}

impl VoiceManager {
    /// Whether a registry entry exists for this peer.
    pub fn has_peer_entry(&self, peer_id: &str) -> (r: bool)
        requires
            self.wf(),
        ensures
            r == has_peer(self.view().peers, peer_id@),
    {
        self.find_peer(peer_id).is_some()
    }

    /// How many candidates have been applied to this peer's
    /// connection, in application order (`None` when the peer has no
    /// entry).
    pub fn peer_applied_count(&self, peer_id: &str) -> (r: Option<usize>)
        requires
            self.wf(),
        ensures
            (match r {
                Some(c) => has_peer(self.view().peers, peer_id@) && c == self.view().peers[
                    peer_index(self.view().peers, peer_id@)
                ].applied.len(),
                None => !has_peer(self.view().peers, peer_id@),
            }),
    {
        let found = self.find_peer(peer_id);
        match found {
            Some(i) => Some(self.peers[i].applied_candidates.len()),
            None => None,
        }
    }

    /// Whether the transport has reported this peer's connection
    /// established (`None` when the peer has no entry).
    pub fn peer_is_connected(&self, peer_id: &str) -> (r: Option<bool>)
        requires
            self.wf(),
        ensures
            (match r {
                Some(c) => has_peer(self.view().peers, peer_id@) && c == self.view().peers[
                    peer_index(self.view().peers, peer_id@)
                ].connected,
                None => !has_peer(self.view().peers, peer_id@),
            }),
    {
        let found = self.find_peer(peer_id);
        match found {
            Some(i) => Some(self.peers[i].connected),
            None => None,
        }
    }

    /// How many candidates are buffered for this peer, waiting for its
    /// offer.
    pub fn pending_candidate_count(&self, peer_id: &str) -> (r: usize)
        requires
            self.wf(),
        ensures
            r == pending_for(self.view().pending, peer_id@).len(),
    {
        let found = self.find_pending(peer_id);
        match found {
            Some(i) => self.pending[i].candidates.len(),
            None => 0,
        }
    }
}

/// How many registry entries carry this id.
pub open spec fn peer_id_count(peers: Seq<PeerSpec>, id: Seq<char>) -> nat
    decreases peers.len(),
{
    if peers.len() == 0 {
        0
    } else {
        (if peers[0].id == id {
            1nat
        } else {
            0nat
        }) + peer_id_count(peers.drop_first(), id)
    }
}

proof fn lemma_count_from_pointwise(peers: Seq<PeerSpec>, id: Seq<char>)
    ensures
        (forall|t: int| 0 <= t < peers.len() ==> peers[t].id != id) ==> peer_id_count(peers, id)
            == 0,
        (peers.len() > 0 && peers[peers.len() - 1].id == id && (forall|t: int|
            0 <= t < peers.len() - 1 ==> peers[t].id != id)) ==> peer_id_count(peers, id) == 1,
    decreases peers.len(),
{
    if peers.len() > 0 {
        lemma_count_from_pointwise(peers.drop_first(), id);
        assert forall|t: int| 0 <= t < peers.drop_first().len() implies peers.drop_first()[t]
            == peers[t + 1] by {}
    }
}

/// Law (no double connection): a `join_voice` or `offer` signal from a
/// peer replaces whatever entry that peer had — the registry that
/// `handle_signal` leaves behind,
/// `peers_without(peers, id).push(entry)`, carries exactly one entry
/// with that peer's id. A second `join_voice` without an intervening
/// `leave_voice` therefore still yields one live connection.
pub proof fn lemma_no_double_connection(peers: Seq<PeerSpec>, id: Seq<char>, entry: PeerSpec)
    requires
        peers_unique(peers),
        entry.id == id,
    ensures
        peer_id_count(peers_without(peers, id).push(entry), id) == 1,
        peers_unique(peers_without(peers, id).push(entry)),
{
    let base = peers_without(peers, id);
    if has_peer(peers, id) {
        let w = peer_index(peers, id);
        assert(peers[w].id == id);
        lemma_remove_keeps_distinct(peers, |p: PeerSpec| p.id, w);
        assert forall|t: int| 0 <= t < base.len() implies base[t].id != id by {
            assert(base[t] == peers.remove(w)[t]);
        }
    } else {
        assert forall|t: int| 0 <= t < base.len() implies base[t].id != id by {}
    }
    let full = base.push(entry);
    assert(full[full.len() - 1].id == id);
    assert forall|t: int| 0 <= t < full.len() - 1 implies full[t].id != id by {
        assert(full[t] == base[t]);
    }
    lemma_count_from_pointwise(full, id);
}

/// Law (candidate buffering): a candidate that arrives for a peer
/// without a connection is appended to that peer's buffer, never
/// dropped and never reordered: the buffer after the step is the
/// buffer before it with the candidate at the end. Together with
/// `handle_signal`'s offer case — which installs exactly
/// `pending_for(pending, id)` as the new entry's applied list before
/// any later candidate can arrive — every buffered candidate is
/// applied, in arrival order, ahead of all candidates that follow the
/// offer.
pub proof fn lemma_candidate_buffering(pending: Seq<PendingSpec>, id: Seq<char>, c: Seq<char>)
    requires
        pending_unique(pending),
    ensures
        !has_pending(pending, id) ==> pending_for(
            pending.push((PendingSpec { id, candidates: seq![c] })),
            id,
        ) == pending_for(pending, id).push(c),
        has_pending(pending, id) ==> pending_for(
            pending.update(
                pending_index(pending, id),
                (PendingSpec { id, candidates: pending_for(pending, id).push(c) }),
            ),
            id,
        ) == pending_for(pending, id).push(c),
{
    if !has_pending(pending, id) {
        let full = pending.push((PendingSpec { id, candidates: seq![c] }));
        assert(full[pending.len() as int].id == id);
        assert(has_pending(full, id));
        let w = pending_index(full, id);
        assert(full[w].id == id);
        if w != pending.len() {
            assert(full[w] == pending[w]);
            assert(has_pending(pending, id));
            assert(false);
        }
        assert(pending_for(pending, id) =~= Seq::<Seq<char>>::empty());
        assert(pending_for(full, id) =~= seq![c]);
    } else {
        let w0 = pending_index(pending, id);
        assert(pending[w0].id == id);
        let newspec = PendingSpec { id, candidates: pending_for(pending, id).push(c) };
        let full = pending.update(w0, newspec);
        assert(full[w0].id == id);
        assert(has_pending(full, id));
        let w = pending_index(full, id);
        assert(full[w].id == id);
        if w != w0 {
            assert(full[w] == pending[w]);
            assert(pending[w].id == id && pending[w0].id == id);
            assert(false);
        }
        assert(pending_for(full, id) == newspec.candidates);
    }
}

/// The event the host emits for an audio device error.
pub fn audio_error_event(err: &AudioDeviceError) -> (r: VoiceEvent)
    ensures
        (match err {
            AudioDeviceError::OutputDeviceError(e) => r.deep_view() == EventSpec::AudioError(
                "Output device error: "@ + e@,
            ),
            AudioDeviceError::InputDeviceError(e) => r.deep_view() == EventSpec::AudioError(
                "Input device error: "@ + e@,
            ),
        }),
{
    match err {
        AudioDeviceError::OutputDeviceError(e) => VoiceEvent::AudioError(
            vstd::string::StringExecFns::concat("Output device error: ".to_owned(), e.as_str()),
        ),
        AudioDeviceError::InputDeviceError(e) => VoiceEvent::AudioError(
            vstd::string::StringExecFns::concat("Input device error: ".to_owned(), e.as_str()),
        ),
    }
}

} // verus!
