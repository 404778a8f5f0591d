//! Tests for the session controller.

use kiosk_native::state::{KioskCommand, KioskEvent, KioskState, KioskStateMachine, PhotoInfo};

#[test]
fn test_initial_state() {
    let sm = KioskStateMachine::new();
    assert_eq!(sm.state, KioskState::Welcome);
    assert!(sm.session.is_none());
    assert!(sm.is_live_view());
}

#[test]
fn test_start_session_flow() {
    let mut sm = KioskStateMachine::new();

    // Start session
    let cmds = sm.process(KioskEvent::StartSession);
    assert!(sm.is_loading);
    assert!(cmds
        .iter()
        .any(|c| matches!(c, KioskCommand::CreateSession)));

    // Session created
    let cmds = sm.process(KioskEvent::SessionCreated {
        id: "test-123".into(),
    });
    assert_eq!(sm.state, KioskState::Session);
    assert!(!sm.is_loading);
    assert!(sm.session.is_some());
    assert!(sm.is_live_view());
    assert!(cmds
        .iter()
        .any(|c| matches!(c, KioskCommand::ConnectWebSocket { .. })));
}

#[test]
fn test_capture_flow() {
    let mut sm = KioskStateMachine::new();
    sm.process(KioskEvent::StartSession);
    sm.process(KioskEvent::SessionCreated {
        id: "test-123".into(),
    });

    // Trigger capture
    let cmds = sm.process(KioskEvent::TriggerCapture);
    assert!(cmds
        .iter()
        .any(|c| matches!(c, KioskCommand::TriggerCapture { .. })));

    // Countdown
    sm.process(KioskEvent::CountdownTick { value: 3 });
    assert_eq!(sm.state, KioskState::Countdown);
    assert_eq!(sm.countdown_value, Some(3));

    // Photo ready
    sm.process(KioskEvent::PhotoReady {
        photo: PhotoInfo {
            id: "photo-1".into(),
            thumbnail_url: "/thumb.jpg".into(),
            web_url: "/photo.jpg".into(),
        },
    });
    assert_eq!(sm.session.as_ref().unwrap().photos.len(), 1);

    // Capture complete
    sm.process(KioskEvent::CaptureComplete);
    assert_eq!(sm.state, KioskState::Session);
    assert!(sm.countdown_value.is_none());
    assert!(sm.is_live_view());
}

#[test]
fn test_phone_count() {
    let mut sm = KioskStateMachine::new();
    sm.process(KioskEvent::StartSession);
    sm.process(KioskEvent::SessionCreated {
        id: "test-123".into(),
    });

    sm.process(KioskEvent::PhoneConnected);
    assert_eq!(sm.session.as_ref().unwrap().phone_count, 1);

    sm.process(KioskEvent::PhoneConnected);
    assert_eq!(sm.session.as_ref().unwrap().phone_count, 2);

    sm.process(KioskEvent::PhoneDisconnected);
    assert_eq!(sm.session.as_ref().unwrap().phone_count, 1);
}

#[test]
fn test_photo_viewing() {
    let mut sm = KioskStateMachine::new();
    sm.process(KioskEvent::StartSession);
    sm.process(KioskEvent::SessionCreated {
        id: "test-123".into(),
    });

    // Add some photos
    sm.process(KioskEvent::PhotoReady {
        photo: PhotoInfo {
            id: "photo-1".into(),
            thumbnail_url: "/thumb1.jpg".into(),
            web_url: "/photo1.jpg".into(),
        },
    });
    sm.process(KioskEvent::PhotoReady {
        photo: PhotoInfo {
            id: "photo-2".into(),
            thumbnail_url: "/thumb2.jpg".into(),
            web_url: "/photo2.jpg".into(),
        },
    });

    // Should start in live view
    assert!(sm.is_live_view());

    // Select a photo
    sm.process(KioskEvent::SelectPhoto(0));
    assert_eq!(sm.viewing_photo, Some(0));
    assert!(!sm.is_live_view());

    // Return to live view
    sm.process(KioskEvent::SelectLive);
    assert!(sm.is_live_view());
}

#[test]
fn test_capture_only_from_live_view() {
    let mut sm = KioskStateMachine::new();
    sm.process(KioskEvent::StartSession);
    sm.process(KioskEvent::SessionCreated {
        id: "test-123".into(),
    });
    sm.process(KioskEvent::PhotoReady {
        photo: PhotoInfo {
            id: "photo-1".into(),
            thumbnail_url: "/thumb.jpg".into(),
            web_url: "/photo.jpg".into(),
        },
    });

    // Select photo (not live view)
    sm.process(KioskEvent::SelectPhoto(0));
    assert!(!sm.is_live_view());

    // Try to capture - should not emit command
    let cmds = sm.process(KioskEvent::TriggerCapture);
    assert!(!cmds
        .iter()
        .any(|c| matches!(c, KioskCommand::TriggerCapture { .. })));

    // Return to live and capture - should work
    sm.process(KioskEvent::SelectLive);
    let cmds = sm.process(KioskEvent::TriggerCapture);
    assert!(cmds
        .iter()
        .any(|c| matches!(c, KioskCommand::TriggerCapture { .. })));
}

#[test]
fn test_end_session() {
    let mut sm = KioskStateMachine::new();
    sm.process(KioskEvent::StartSession);
    sm.process(KioskEvent::SessionCreated {
        id: "test-123".into(),
    });

    let cmds = sm.process(KioskEvent::EndSession);
    assert!(cmds
        .iter()
        .any(|c| matches!(c, KioskCommand::EndSession { .. })));

    sm.process(KioskEvent::SessionEnded);
    assert_eq!(sm.state, KioskState::Welcome);
    assert!(sm.session.is_none());
    assert!(sm.is_live_view());
}

#[test]
fn test_end_to_end_scenario() {
    let mut sm = KioskStateMachine::new();
    sm.process(KioskEvent::StartSession);
    sm.process(KioskEvent::SessionCreated { id: "s1".into() });
    sm.process(KioskEvent::CountdownTick { value: 3 });
    let p1 = PhotoInfo {
        id: "p1".into(),
        thumbnail_url: "/t1.jpg".into(),
        web_url: "/w1.jpg".into(),
    };
    sm.process(KioskEvent::PhotoReady { photo: p1 });
    sm.process(KioskEvent::CaptureComplete);

    assert_eq!(sm.state, KioskState::Session);
    let session = sm.session.as_ref().unwrap();
    assert_eq!(session.id, "s1");
    assert_eq!(session.photos.len(), 1);
    assert_eq!(session.photos[0].id, "p1");
    assert_eq!(sm.countdown_value, None);
    assert_eq!(sm.viewing_photo, None);
}

#[test]
fn test_phone_count_never_negative() {
    let mut sm = KioskStateMachine::new();
    sm.process(KioskEvent::StartSession);
    sm.process(KioskEvent::SessionCreated {
        id: "test-123".into(),
    });

    for _ in 0..5 {
        sm.process(KioskEvent::PhoneDisconnected);
        assert_eq!(sm.session.as_ref().unwrap().phone_count, 0);
    }
}

#[test]
fn test_photo_append_order() {
    let mut sm = KioskStateMachine::new();
    sm.process(KioskEvent::StartSession);
    sm.process(KioskEvent::SessionCreated { id: "s".into() });

    for n in 0..4u32 {
        sm.process(KioskEvent::PhotoReady {
            photo: PhotoInfo {
                id: format!("photo-{}", n),
                thumbnail_url: format!("/t{}.jpg", n),
                web_url: format!("/w{}.jpg", n),
            },
        });
    }
    let photos = &sm.session.as_ref().unwrap().photos;
    assert_eq!(photos.len(), 4);
    for n in 0..4usize {
        assert_eq!(photos[n].id, format!("photo-{}", n));
    }
}

#[test]
fn test_ill_timed_events_ignored() {
    // Events that carry no meaning in the welcome state change nothing.
    let mut sm = KioskStateMachine::new();

    let cmds = sm.process(KioskEvent::TriggerCapture);
    assert!(cmds.is_empty());
    assert_eq!(sm.state, KioskState::Welcome);

    let cmds = sm.process(KioskEvent::EndSession);
    assert!(cmds.is_empty());
    assert!(sm.session.is_none());

    let cmds = sm.process(KioskEvent::PhotoReady {
        photo: PhotoInfo {
            id: "x".into(),
            thumbnail_url: "/t.jpg".into(),
            web_url: "/w.jpg".into(),
        },
    });
    assert!(cmds.is_empty());
    assert!(sm.session.is_none());

    let cmds = sm.process(KioskEvent::WebSocketConnected);
    assert!(cmds.is_empty());
    let cmds = sm.process(KioskEvent::WebSocketDisconnected);
    assert!(cmds.is_empty());
}

#[test]
fn test_out_of_bounds_photo_selection_ignored() {
    let mut sm = KioskStateMachine::new();
    sm.process(KioskEvent::StartSession);
    sm.process(KioskEvent::SessionCreated { id: "s".into() });
    sm.process(KioskEvent::PhotoReady {
        photo: PhotoInfo {
            id: "p".into(),
            thumbnail_url: "/t.jpg".into(),
            web_url: "/w.jpg".into(),
        },
    });

    let cmds = sm.process(KioskEvent::SelectPhoto(5));
    assert!(cmds.is_empty());
    assert_eq!(sm.viewing_photo, None);
}

#[test]
fn test_session_create_failed_sets_error() {
    let mut sm = KioskStateMachine::new();
    sm.process(KioskEvent::StartSession);
    let cmds = sm.process(KioskEvent::SessionCreateFailed {
        error: "backend down".into(),
    });
    assert!(!sm.is_loading);
    assert_eq!(sm.error.as_deref(), Some("backend down"));
    assert!(cmds
        .iter()
        .any(|c| matches!(c, KioskCommand::ScheduleErrorClear)));

    let cmds = sm.process(KioskEvent::ClearError);
    assert!(sm.error.is_none());
    assert!(cmds.iter().any(|c| matches!(c, KioskCommand::UpdateUI)));
}

#[test]
fn test_capture_failed_returns_to_session() {
    let mut sm = KioskStateMachine::new();
    sm.process(KioskEvent::StartSession);
    sm.process(KioskEvent::SessionCreated { id: "s".into() });
    sm.process(KioskEvent::CountdownTick { value: 2 });
    sm.process(KioskEvent::Processing);
    assert_eq!(sm.state, KioskState::Processing);

    let cmds = sm.process(KioskEvent::CaptureFailed {
        error: "camera jammed".into(),
    });
    assert_eq!(sm.state, KioskState::Session);
    assert_eq!(sm.countdown_value, None);
    assert_eq!(sm.error.as_deref(), Some("camera jammed"));
    assert!(cmds
        .iter()
        .any(|c| matches!(c, KioskCommand::ScheduleErrorClear)));
}
