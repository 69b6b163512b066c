use rdpm::reconnect::ReconnectPolicy;
use rdpm::server::{AudioMode, ServerEntry};
use rdpm::session::{
    event_from_raw, status_after_event, HostConnectOptions, RdpHostEvent, RdpmEventType,
    SessionStatus,
};
use std::time::Duration;

#[test]
fn test_exponential_backoff() {
    let policy = ReconnectPolicy::default();
    assert_eq!(policy.delay_for_attempt(1), Duration::from_millis(1000));
    assert_eq!(policy.delay_for_attempt(2), Duration::from_millis(2000));
    assert_eq!(policy.delay_for_attempt(3), Duration::from_millis(4000));
    assert_eq!(policy.delay_for_attempt(4), Duration::from_millis(8000));
    assert_eq!(policy.delay_for_attempt(5), Duration::from_millis(16000));
    assert_eq!(policy.delay_for_attempt(6), Duration::from_millis(16000));
}

#[test]
fn backoff_edges() {
    let policy = ReconnectPolicy::default();
    assert_eq!(policy.delay_ms_for_attempt(0), 1000);
    assert_eq!(policy.delay_ms_for_attempt(u32::MAX), 16000);
    let huge = ReconnectPolicy { max_attempts: 3, base_delay_ms: u64::MAX / 2, max_delay_ms: u64::MAX };
    assert_eq!(huge.delay_ms_for_attempt(3), u64::MAX);
    assert!(policy.can_retry(4));
    assert!(!policy.can_retry(5));
    let mut last = 0;
    for a in 1..40 {
        let d = policy.delay_ms_for_attempt(a);
        assert!(d >= last && d <= 16000);
        last = d;
    }
}

#[test]
fn status_predicates() {
    assert!(SessionStatus::Connected.is_active());
    assert!(SessionStatus::Connected.is_connected());
    assert!(SessionStatus::Connecting.is_active());
    assert!(!SessionStatus::Idle.is_active());
    let r = SessionStatus::Reconnecting { attempt: 1, max_attempts: 5, next_retry_seconds: 1 };
    assert!(r.is_active() && !r.is_connected());
    let closed = SessionStatus::user_disconnected();
    assert!(!closed.is_active());
    assert_eq!(
        closed,
        SessionStatus::Disconnected { reason_code: 0, message: "用户主动断开".to_string(), user_initiated: true }
    );
}

#[test]
fn host_events_drive_status() {
    assert_eq!(status_after_event(RdpHostEvent::Connecting), Some(SessionStatus::Connecting));
    assert_eq!(status_after_event(RdpHostEvent::Connected), None);
    assert_eq!(status_after_event(RdpHostEvent::LoginComplete), Some(SessionStatus::Connected));
    assert_eq!(status_after_event(RdpHostEvent::AutoReconnected), Some(SessionStatus::Connected));
    assert_eq!(
        status_after_event(RdpHostEvent::AutoReconnecting),
        Some(SessionStatus::Reconnecting { attempt: 1, max_attempts: 5, next_retry_seconds: 1 })
    );
    assert_eq!(
        status_after_event(RdpHostEvent::Disconnected { reason: 3, description: "x".to_string() }),
        Some(SessionStatus::Disconnected { reason_code: 3, message: "x".to_string(), user_initiated: false })
    );
    assert_eq!(
        status_after_event(RdpHostEvent::FatalError { code: 9, description: "y".to_string() }),
        Some(SessionStatus::Disconnected { reason_code: 9, message: "y".to_string(), user_initiated: false })
    );
}

#[test]
fn raw_events_decode() {
    assert_eq!(event_from_raw(1, 0, String::new()), Some(RdpHostEvent::Connecting));
    assert_eq!(
        event_from_raw(4, 264, "timeout".to_string()),
        Some(RdpHostEvent::Disconnected { reason: 264, description: "timeout".to_string() })
    );
    assert_eq!(
        event_from_raw(7, -1, "bad".to_string()),
        Some(RdpHostEvent::FatalError { code: -1, description: "bad".to_string() })
    );
    assert_eq!(event_from_raw(8, 0, String::new()), None);
    assert_eq!(event_from_raw(0, 0, String::new()), None);
    assert_eq!(RdpmEventType::from_code(3), Some(RdpmEventType::LoginComplete));
    assert_eq!(RdpmEventType::FatalError.code(), 7);
}

#[test]
fn connect_options_follow_the_server() {
    let mut s = ServerEntry::new("n", "host.example", "me");
    s.port = 3390;
    s.domain = Some("CORP".to_string());
    s.options.audio_mode = AudioMode::Disabled;
    s.options.redirect_drives = true;
    let o = HostConnectOptions::for_server(&s, Some("pw".to_string()));
    assert_eq!(o.host, "host.example");
    assert_eq!(o.port, 3390);
    assert_eq!(o.username, "me");
    assert_eq!(o.domain, Some("CORP".to_string()));
    assert_eq!(o.password, Some("pw".to_string()));
    assert_eq!((o.desktop_width, o.desktop_height), (1920, 1080));
    assert!(o.smart_sizing);
    assert_eq!(o.audio_mode, 2);
    assert!(o.redirect_drives && o.redirect_clipboard && !o.redirect_printers);
}

#[test]
fn event_codes_round_trip() {
    let kinds = [
        RdpmEventType::Connecting,
        RdpmEventType::Connected,
        RdpmEventType::LoginComplete,
        RdpmEventType::Disconnected,
        RdpmEventType::AutoReconnecting,
        RdpmEventType::AutoReconnected,
        RdpmEventType::FatalError,
    ];
    for (i, k) in kinds.iter().enumerate() {
        assert_eq!(k.code(), i as i32 + 1);
        assert_eq!(RdpmEventType::from_code(k.code()), Some(*k));
    }
    assert_eq!(RdpmEventType::from_code(-3), None);
}
