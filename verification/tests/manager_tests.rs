use radiochat::audio::AudioDeviceError;
use radiochat::manager::{
    audio_error_event, PeerConnState, SdpKind, VoiceAction, VoiceEvent, VoiceManager,
};

/// Joining with a working microphone: `Connecting`, the broadcast
/// `join_voice` signal (no target), then `Connected`.
#[test]
fn join_emits_connecting_signal_connected() {
    let mut m = VoiceManager::new();
    let (events, actions) = m.join_voice("room1".to_string(), Ok(()));
    assert_eq!(
        events,
        vec![
            VoiceEvent::Connecting,
            VoiceEvent::Signal {
                target_id: None,
                signal_type: "join_voice".to_string(),
                data: "".to_string(),
            },
            VoiceEvent::Connected,
        ]
    );
    assert_eq!(actions, vec![VoiceAction::ResetAudio]);
    assert!(m.is_joined());
    assert!(m.capture_running());
}

/// A failed microphone aborts the join: `Connecting` then
/// `ConnectionFailed`, and no peer is contacted.
#[test]
fn join_capture_failure_aborts() {
    let mut m = VoiceManager::new();
    let (events, _) = m.join_voice("room1".to_string(), Err("no input device".to_string()));
    assert_eq!(
        events,
        vec![
            VoiceEvent::Connecting,
            VoiceEvent::ConnectionFailed(
                "Failed to start microphone: no input device".to_string()
            ),
        ]
    );
    assert!(!m.is_joined());
    assert!(!m.capture_running());
    assert_eq!(m.peer_count(), 0);
}

/// A remote `join_voice` while already joined: the existing member
/// initiates, creating exactly one connection with an offer; the
/// offer itself is emitted as exactly one signal targeted at the
/// newcomer once the transport hands it back.
#[test]
fn remote_join_yields_one_offer_to_sender() {
    let mut m = VoiceManager::new();
    let _ = m.join_voice("room1".to_string(), Ok(()));
    let (events, actions) = m.handle_signal("alice", "join_voice", "");
    assert_eq!(events, Vec::<VoiceEvent>::new());
    assert_eq!(
        actions,
        vec![
            VoiceAction::RemovePeerPlayback("alice".to_string()),
            VoiceAction::CreateConnection { peer_id: "alice".to_string(), initiate_offer: true },
        ]
    );
    assert_eq!(m.peer_count(), 1);
    let signals = m.local_description_created("alice", SdpKind::Offer, "<sdp-offer>".to_string());
    assert_eq!(
        signals,
        vec![VoiceEvent::Signal {
            target_id: Some("alice".to_string()),
            signal_type: "offer".to_string(),
            data: "<sdp-offer>".to_string(),
        }]
    );
}

/// An offer from a peer yields exactly one answer targeted at that
/// peer, and a later candidate from it is applied without error.
#[test]
fn offer_yields_one_answer_and_candidate_applies() {
    let mut m = VoiceManager::new();
    let _ = m.join_voice("room1".to_string(), Ok(()));
    let (events, actions) = m.handle_signal("bob", "offer", "<sdp>");
    assert_eq!(events, Vec::<VoiceEvent>::new());
    assert_eq!(
        actions,
        vec![
            VoiceAction::RemovePeerPlayback("bob".to_string()),
            VoiceAction::CreateConnection { peer_id: "bob".to_string(), initiate_offer: false },
            VoiceAction::ApplyRemoteDescription {
                peer_id: "bob".to_string(),
                data: "<sdp>".to_string(),
            },
            VoiceAction::CreateAnswer { peer_id: "bob".to_string() },
        ]
    );
    let signals = m.local_description_created("bob", SdpKind::Answer, "<sdp-answer>".to_string());
    assert_eq!(
        signals,
        vec![VoiceEvent::Signal {
            target_id: Some("bob".to_string()),
            signal_type: "answer".to_string(),
            data: "<sdp-answer>".to_string(),
        }]
    );
    let (ev2, act2) = m.handle_signal("bob", "candidate", "<cand>");
    assert_eq!(ev2, Vec::<VoiceEvent>::new());
    assert_eq!(
        act2,
        vec![VoiceAction::ApplyCandidate {
            peer_id: "bob".to_string(),
            data: "<cand>".to_string(),
        }]
    );
    assert_eq!(m.peer_applied_count("bob"), Some(1));
}

/// Candidates that outrun the offer are buffered, and the offer
/// applies all of them, in arrival order, before any later candidate.
#[test]
fn candidates_buffered_until_offer_then_applied_in_order() {
    let mut m = VoiceManager::new();
    let _ = m.join_voice("room1".to_string(), Ok(()));
    let _ = m.handle_signal("p", "candidate", "c1");
    let _ = m.handle_signal("p", "candidate", "c2");
    assert!(!m.has_peer_entry("p"));
    assert_eq!(m.pending_candidate_count("p"), 2);
    let (_, actions) = m.handle_signal("p", "offer", "<sdp>");
    let applies: Vec<&VoiceAction> = actions
        .iter()
        .filter(|a| matches!(a, VoiceAction::ApplyCandidate { .. }))
        .collect();
    assert_eq!(
        applies,
        vec![
            &VoiceAction::ApplyCandidate { peer_id: "p".to_string(), data: "c1".to_string() },
            &VoiceAction::ApplyCandidate { peer_id: "p".to_string(), data: "c2".to_string() },
        ]
    );
    // both buffered candidates are on the connection before any new one
    assert_eq!(m.peer_applied_count("p"), Some(2));
    assert_eq!(m.pending_candidate_count("p"), 0);
    let _ = m.handle_signal("p", "candidate", "c3");
    assert_eq!(m.peer_applied_count("p"), Some(3));
}

/// Two `join_voice` signals from the same peer without a `leave_voice`
/// leave exactly one live entry; the first connection is closed.
#[test]
fn no_double_connection_on_repeated_join() {
    let mut m = VoiceManager::new();
    let _ = m.join_voice("room1".to_string(), Ok(()));
    let _ = m.handle_signal("alice", "join_voice", "");
    assert_eq!(m.peer_count(), 1);
    let (_, actions) = m.handle_signal("alice", "join_voice", "");
    assert_eq!(m.peer_count(), 1);
    assert_eq!(actions[0], VoiceAction::CloseConnection("alice".to_string()));
}

/// Leave is terminal and clean: per peer one `PeerDisconnected`, then
/// exactly one `Disconnected`, and every registry and stream is gone.
#[test]
fn leave_with_two_peers_is_clean() {
    let mut m = VoiceManager::new();
    let _ = m.join_voice("room1".to_string(), Ok(()));
    let _ = m.handle_signal("alice", "join_voice", "");
    let _ = m.handle_signal("bob", "offer", "<sdp>");
    let _ = m.remote_track_arrived("alice", Ok(()));
    let _ = m.remote_track_arrived("bob", Ok(()));
    assert_eq!(m.playback_count(), 2);
    let (events, actions) = m.leave_voice();
    assert_eq!(
        events,
        vec![
            VoiceEvent::Signal {
                target_id: None,
                signal_type: "leave_voice".to_string(),
                data: "".to_string(),
            },
            VoiceEvent::PeerDisconnected("alice".to_string()),
            VoiceEvent::PeerDisconnected("bob".to_string()),
            VoiceEvent::TxActivity(false),
            VoiceEvent::MuteStateChanged(false),
            VoiceEvent::Disconnected,
        ]
    );
    assert_eq!(
        actions,
        vec![
            VoiceAction::ResetAudio,
            VoiceAction::CloseConnection("alice".to_string()),
            VoiceAction::CloseConnection("bob".to_string()),
        ]
    );
    assert_eq!(m.peer_count(), 0);
    assert_eq!(m.pending_count(), 0);
    assert_eq!(m.playback_count(), 0);
    assert!(!m.capture_running());
    assert!(!m.is_joined());
}

/// Muting suppresses transmission only: capture keeps running across
/// mute toggles, so unmuting never reopens the microphone.
#[test]
fn mute_does_not_stop_capture() {
    let mut m = VoiceManager::new();
    let _ = m.join_voice("room1".to_string(), Ok(()));
    assert!(m.capture_running());
    assert!(m.should_transmit());
    let ev = m.set_muted(true);
    assert_eq!(ev, vec![VoiceEvent::MuteStateChanged(true)]);
    assert!(m.capture_running());
    assert!(!m.should_transmit());
    let ev = m.set_muted(false);
    assert_eq!(ev, vec![VoiceEvent::MuteStateChanged(false)]);
    assert!(m.capture_running());
    assert!(m.should_transmit());
}

/// An answer for a peer that was never offered to is dropped silently.
#[test]
fn stale_answer_is_ignored() {
    let mut m = VoiceManager::new();
    let _ = m.join_voice("room1".to_string(), Ok(()));
    let (events, actions) = m.handle_signal("ghost", "answer", "<sdp>");
    assert_eq!(events, Vec::<VoiceEvent>::new());
    assert_eq!(actions, Vec::<VoiceAction>::new());
    assert_eq!(m.peer_count(), 0);
}

/// A remote `leave_voice` removes the peer, its stream and its buffer
/// and reports the departure.
#[test]
fn remote_leave_cleans_peer() {
    let mut m = VoiceManager::new();
    let _ = m.join_voice("room1".to_string(), Ok(()));
    let _ = m.handle_signal("alice", "join_voice", "");
    let _ = m.remote_track_arrived("alice", Ok(()));
    let (events, actions) = m.handle_signal("alice", "leave_voice", "");
    assert_eq!(events, vec![VoiceEvent::PeerDisconnected("alice".to_string())]);
    assert_eq!(
        actions,
        vec![
            VoiceAction::CloseConnection("alice".to_string()),
            VoiceAction::RemovePeerPlayback("alice".to_string()),
        ]
    );
    assert_eq!(m.peer_count(), 0);
    assert_eq!(m.playback_count(), 0);
}

/// A transport failure for one peer cleans up that peer only.
#[test]
fn peer_failure_is_peer_scoped() {
    let mut m = VoiceManager::new();
    let _ = m.join_voice("room1".to_string(), Ok(()));
    let _ = m.handle_signal("alice", "join_voice", "");
    let _ = m.handle_signal("bob", "join_voice", "");
    let (events, _) = m.peer_state_changed("alice", PeerConnState::Failed);
    assert_eq!(events, vec![VoiceEvent::PeerConnectionFailed("alice".to_string())]);
    assert_eq!(m.peer_count(), 1);
    assert!(m.has_peer_entry("bob"));
    assert!(m.is_joined());
}

/// The transport reporting `Connected` marks the entry established.
#[test]
fn peer_connected_marks_entry() {
    let mut m = VoiceManager::new();
    let _ = m.join_voice("room1".to_string(), Ok(()));
    let _ = m.handle_signal("alice", "join_voice", "");
    assert_eq!(m.peer_is_connected("alice"), Some(false));
    let (events, _) = m.peer_state_changed("alice", PeerConnState::Connected);
    assert_eq!(events, vec![VoiceEvent::PeerConnected("alice".to_string())]);
    assert_eq!(m.peer_is_connected("alice"), Some(true));
}

/// A track that arrives outside a joined session starts nothing.
#[test]
fn late_track_outside_session_ignored() {
    let mut m = VoiceManager::new();
    let (events, actions) = m.remote_track_arrived("alice", Ok(()));
    assert_eq!(events, Vec::<VoiceEvent>::new());
    assert_eq!(actions, Vec::<VoiceAction>::new());
    assert_eq!(m.playback_count(), 0);
}

/// A playback device failure is reported and the session continues.
#[test]
fn playback_failure_is_non_fatal() {
    let mut m = VoiceManager::new();
    let _ = m.join_voice("room1".to_string(), Ok(()));
    let (events, _) = m.remote_track_arrived("alice", Err("no output device".to_string()));
    assert_eq!(
        events,
        vec![VoiceEvent::AudioError("Audio playback failed: no output device".to_string())]
    );
    assert!(m.is_joined());
    assert_eq!(m.playback_count(), 0);
}

/// Unknown signal types are ignored.
#[test]
fn unknown_signal_ignored() {
    let mut m = VoiceManager::new();
    let (events, actions) = m.handle_signal("x", "renegotiate", "payload");
    assert_eq!(events, Vec::<VoiceEvent>::new());
    assert_eq!(actions, Vec::<VoiceAction>::new());
}

#[test]
fn audio_error_messages() {
    let e = audio_error_event(&AudioDeviceError::InputDeviceError("gone".to_string()));
    assert_eq!(e, VoiceEvent::AudioError("Input device error: gone".to_string()));
    let e = audio_error_event(&AudioDeviceError::OutputDeviceError("busy".to_string()));
    assert_eq!(e, VoiceEvent::AudioError("Output device error: busy".to_string()));
}
