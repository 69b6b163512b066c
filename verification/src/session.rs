use crate::server::{audio_code, opt_str, ServerEntry, clone_opt_string};
use vstd::prelude::*;

verus! {

/// Lifecycle state of one remote-desktop session.
#[derive(Debug, Clone, PartialEq, Eq)]
pub enum SessionStatus {
    /// Initial state.
    Idle,
    /// Connecting.
    Connecting,
    /// Connected and ready.
    Connected,
    /// The network dropped and an automatic reconnect is under way.
    Reconnecting { attempt: u32, max_attempts: u32, next_retry_seconds: u64 },
    /// Disconnected for good.
    Disconnected { reason_code: i32, message: String, user_initiated: bool },
}

impl SessionStatus {
    /// Whether the session is connecting, connected or reconnecting.
    pub fn is_active(&self) -> (b: bool)
        ensures
            b == (self is Connecting || self is Connected || self is Reconnecting),
    {
        match self {
            SessionStatus::Connecting | SessionStatus::Connected | SessionStatus::Reconnecting {
                ..
            } => true,
            _ => false,
        }
    }

    /// Whether the session is connected.
    pub fn is_connected(&self) -> (b: bool)
        ensures
            b == (self is Connected),
    {
        match self {
            SessionStatus::Connected => true,
            _ => false,
        }
    }

    /// The status a session takes when the user closes it: disconnected,
    /// reason 0, initiated by the user.
    pub fn user_disconnected() -> (s: Self)
        ensures
            s matches SessionStatus::Disconnected { reason_code, message, user_initiated }
                && reason_code == 0 && message@ == "用户主动断开"@ && user_initiated,
    {
        SessionStatus::Disconnected {
            reason_code: 0,
            message: "用户主动断开".to_string(),
            user_initiated: true,
        }
    }
}

/// A connected session is active, and a session the user closed is not.
pub proof fn lemma_connected_is_active(s: SessionStatus)
    ensures
        s is Connected ==> (s is Connecting || s is Connected || s is Reconnecting),
        s matches SessionStatus::Disconnected { user_initiated, .. } && user_initiated ==> !(
        s is Connecting || s is Connected || s is Reconnecting),
{
}

/// Kinds of notification the native RDP host reports.
#[derive(Debug, Clone, Copy, PartialEq, Eq)]
pub enum RdpmEventType {
    Connecting,
    Connected,
    LoginComplete,
    Disconnected,
    AutoReconnecting,
    AutoReconnected,
    FatalError,
}

/// The numeric code of each notification kind on the native interface.
pub open spec fn event_code(t: RdpmEventType) -> i32 {
    match t {
        RdpmEventType::Connecting => 1,
        RdpmEventType::Connected => 2,
        RdpmEventType::LoginComplete => 3,
        RdpmEventType::Disconnected => 4,
        RdpmEventType::AutoReconnecting => 5,
        RdpmEventType::AutoReconnected => 6,
        RdpmEventType::FatalError => 7,
    }
}

/// Each kind has its own code, from 1 to 7; so `from_code` gives a kind
/// back from its code.
pub proof fn lemma_event_code_roundtrip(a: RdpmEventType, b: RdpmEventType)
    ensures
        event_code(a) == event_code(b) ==> a == b,
        1 <= event_code(a) <= 7,
{
}

impl RdpmEventType {
    /// The numeric code of this kind.
    pub fn code(&self) -> (c: i32)
        ensures
            c == event_code(*self),
    {
        match self {
            RdpmEventType::Connecting => 1,
            RdpmEventType::Connected => 2,
            RdpmEventType::LoginComplete => 3,
            RdpmEventType::Disconnected => 4,
            RdpmEventType::AutoReconnecting => 5,
            RdpmEventType::AutoReconnected => 6,
            RdpmEventType::FatalError => 7,
        }
    }

    /// The kind with the given code; `None` for an unknown code.
    pub fn from_code(code: i32) -> (t: Option<Self>)
        ensures
            match t {
                Some(t) => event_code(t) == code,
                None => !(1 <= code <= 7),
            },
    {
        match code {
            1 => Some(RdpmEventType::Connecting),
            2 => Some(RdpmEventType::Connected),
            3 => Some(RdpmEventType::LoginComplete),
            4 => Some(RdpmEventType::Disconnected),
            5 => Some(RdpmEventType::AutoReconnecting),
            6 => Some(RdpmEventType::AutoReconnected),
            7 => Some(RdpmEventType::FatalError),
            _ => None,
        }
    }
}

/// A notification from the embedded RDP control.
#[derive(Debug, Clone, PartialEq, Eq)]
pub enum RdpHostEvent {
    Connecting,
    Connected,
    LoginComplete,
    Disconnected { reason: i32, description: String },
    AutoReconnecting,
    AutoReconnected,
    FatalError { code: i32, description: String },
}

/// The event a raw native notification stands for.
pub open spec fn raw_event(event_type: i32, reason_or_error: i32, description: String) -> Option<
    RdpHostEvent,
> {
    if event_type == 1 {
        Some(RdpHostEvent::Connecting)
    } else if event_type == 2 {
        Some(RdpHostEvent::Connected)
    } else if event_type == 3 {
        Some(RdpHostEvent::LoginComplete)
    } else if event_type == 4 {
        Some(RdpHostEvent::Disconnected { reason: reason_or_error, description })
    } else if event_type == 5 {
        Some(RdpHostEvent::AutoReconnecting)
    } else if event_type == 6 {
        Some(RdpHostEvent::AutoReconnected)
    } else if event_type == 7 {
        Some(RdpHostEvent::FatalError { code: reason_or_error, description })
    } else {
        None
    }
}

/// The kind of a host event.
pub open spec fn host_event_kind(e: RdpHostEvent) -> RdpmEventType {
    match e {
        RdpHostEvent::Connecting => RdpmEventType::Connecting,
        RdpHostEvent::Connected => RdpmEventType::Connected,
        RdpHostEvent::LoginComplete => RdpmEventType::LoginComplete,
        RdpHostEvent::Disconnected { .. } => RdpmEventType::Disconnected,
        RdpHostEvent::AutoReconnecting => RdpmEventType::AutoReconnecting,
        RdpHostEvent::AutoReconnected => RdpmEventType::AutoReconnected,
        RdpHostEvent::FatalError { .. } => RdpmEventType::FatalError,
    }
}

/// Decoding agrees with the kind codes: a raw notification decodes exactly
/// when its code is a kind's code, into an event of that kind, which carries
/// the reason or error code and the description when it has them.
pub proof fn lemma_raw_event_kind(event_type: i32, reason_or_error: i32, description: String)
    ensures
        raw_event(event_type, reason_or_error, description) is Some <==> 1 <= event_type <= 7,
        forall|t: RdpmEventType|
            #[trigger] event_code(t) == event_type ==> raw_event(
                event_type,
                reason_or_error,
                description,
            ) is Some && host_event_kind(raw_event(event_type, reason_or_error, description)->0) == t,
        raw_event(event_type, reason_or_error, description) matches Some(e) ==> event_code(
            host_event_kind(e),
        ) == event_type,
        raw_event(event_type, reason_or_error, description) matches Some(
            RdpHostEvent::Disconnected { reason, description: d },
        ) ==> reason == reason_or_error && d == description,
        raw_event(event_type, reason_or_error, description) matches Some(
            RdpHostEvent::FatalError { code, description: d },
        ) ==> code == reason_or_error && d == description,
{
}

/// Decodes a raw native notification (kind code, reason or error code,
/// decoded description); unknown kinds are dropped.
pub fn event_from_raw(event_type: i32, reason_or_error: i32, description: String) -> (e: Option<
    RdpHostEvent,
>)
    ensures
        e == raw_event(event_type, reason_or_error, description),
{
    match RdpmEventType::from_code(event_type) {
        Some(RdpmEventType::Connecting) => Some(RdpHostEvent::Connecting),
        Some(RdpmEventType::Connected) => Some(RdpHostEvent::Connected),
        Some(RdpmEventType::LoginComplete) => Some(RdpHostEvent::LoginComplete),
        Some(RdpmEventType::Disconnected) => Some(
            RdpHostEvent::Disconnected { reason: reason_or_error, description },
        ),
        Some(RdpmEventType::AutoReconnecting) => Some(RdpHostEvent::AutoReconnecting),
        Some(RdpmEventType::AutoReconnected) => Some(RdpHostEvent::AutoReconnected),
        Some(RdpmEventType::FatalError) => Some(
            RdpHostEvent::FatalError { code: reason_or_error, description },
        ),
        None => None,
    }
}

/// The status a session moves to on a host event (`None`: unchanged).
pub open spec fn status_after(e: RdpHostEvent) -> Option<SessionStatus> {
    match e {
        RdpHostEvent::Connecting => Some(SessionStatus::Connecting),
        RdpHostEvent::Connected => None,
        RdpHostEvent::LoginComplete => Some(SessionStatus::Connected),
        RdpHostEvent::Disconnected { reason, description } => Some(
            SessionStatus::Disconnected {
                reason_code: reason,
                message: description,
                user_initiated: false,
            },
        ),
        RdpHostEvent::AutoReconnecting => Some(
            SessionStatus::Reconnecting { attempt: 1, max_attempts: 5, next_retry_seconds: 1 },
        ),
        RdpHostEvent::AutoReconnected => Some(SessionStatus::Connected),
        RdpHostEvent::FatalError { code, description } => Some(
            SessionStatus::Disconnected {
                reason_code: code,
                message: description,
                user_initiated: false,
            },
        ),
    }
}

/// The status a session moves to when the host reports `event`; the
/// transport-level `Connected` event leaves the status as it is.
pub fn status_after_event(event: RdpHostEvent) -> (s: Option<SessionStatus>)
    ensures
        s == status_after(event),
{
    match event {
        RdpHostEvent::Connecting => Some(SessionStatus::Connecting),
        RdpHostEvent::Connected => None,
        RdpHostEvent::LoginComplete => Some(SessionStatus::Connected),
        RdpHostEvent::Disconnected { reason, description } => Some(
            SessionStatus::Disconnected {
                reason_code: reason,
                message: description,
                user_initiated: false,
            },
        ),
        RdpHostEvent::AutoReconnecting => Some(
            SessionStatus::Reconnecting { attempt: 1, max_attempts: 5, next_retry_seconds: 1 },
        ),
        RdpHostEvent::AutoReconnected => Some(SessionStatus::Connected),
        RdpHostEvent::FatalError { code, description } => Some(
            SessionStatus::Disconnected {
                reason_code: code,
                message: description,
                user_initiated: false,
            },
        ),
    }
}

/// Connection parameters handed to the native RDP host.
#[derive(Debug)]
pub struct HostConnectOptions {
    pub host: String,
    pub port: u16,
    pub username: String,
    pub domain: Option<String>,
    pub password: Option<String>,
    pub desktop_width: u32,
    pub desktop_height: u32,
    pub smart_sizing: bool,
    pub audio_mode: u32,
    pub redirect_clipboard: bool,
    pub redirect_drives: bool,
    pub redirect_printers: bool,
    pub admin_session: bool,
}

impl Default for HostConnectOptions {
    fn default() -> (o: Self)
        ensures
            o.host@.len() == 0,
            o.port == 0,
            o.username@.len() == 0,
            o.domain is None,
            o.password is None,
            o.desktop_width == 0,
            o.desktop_height == 0,
            !o.smart_sizing,
            o.audio_mode == 0,
            !o.redirect_clipboard,
            !o.redirect_drives,
            !o.redirect_printers,
            !o.admin_session,
    {
        HostConnectOptions {
            host: String::new(),
            port: 0,
            username: String::new(),
            domain: None,
            password: None,
            desktop_width: 0,
            desktop_height: 0,
            smart_sizing: false,
            audio_mode: 0,
            redirect_clipboard: false,
            redirect_drives: false,
            redirect_printers: false,
            admin_session: false,
        }
    }
}

impl HostConnectOptions {
    /// The parameters a session uses to connect to `server`: its address,
    /// account and redirections, a 1920x1080 smart-sized desktop.
    pub fn for_server(server: &ServerEntry, password: Option<String>) -> (o: Self)
        ensures
            o.host@ == server.host@,
            o.port == server.port,
            o.username@ == server.username@,
            opt_str(o.domain) == opt_str(server.domain),
            o.password == password,
            o.desktop_width == 1920,
            o.desktop_height == 1080,
            o.smart_sizing,
            o.audio_mode == audio_code(server.options.audio_mode),
            o.redirect_clipboard == server.options.redirect_clipboard,
            o.redirect_drives == server.options.redirect_drives,
            o.redirect_printers == server.options.redirect_printers,
            o.admin_session == server.options.admin_session,
    {
        HostConnectOptions {
            host: server.host.clone(),
            port: server.port,
            username: server.username.clone(),
            domain: clone_opt_string(&server.domain),
            password,
            desktop_width: 1920,
            desktop_height: 1080,
            smart_sizing: true,
            audio_mode: server.options.audio_mode.code(),
            redirect_clipboard: server.options.redirect_clipboard,
            redirect_drives: server.options.redirect_drives,
            redirect_printers: server.options.redirect_printers,
            admin_session: server.options.admin_session,
        }
    }
}

} // verus!
