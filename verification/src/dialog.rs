use crate::ident::{is_hyphenated_uuid};
use crate::server::{
    clone_opt_string, opt_str, AudioMode, DisplayMode, RdpOptions, ServerEntry, ServerEntryView,
};
use crate::text::{chars_of, is_white_space, trim, trim_end, trim_start, trimmed};
use vstd::prelude::*;

verus! {

/// Whether `c` is an ASCII decimal digit.
pub open spec fn is_digit(c: char) -> bool {
    48 <= (c as u32) && (c as u32) <= 57
}

/// The value of a run of decimal digits.
pub open spec fn decimal_value(d: Seq<char>) -> nat
    decreases d.len(),
{
    if d.len() == 0 {
        0
    } else {
        10 * decimal_value(d.drop_last()) + ((d.last() as u32) - 48) as nat
    }
}

/// The text after an optional leading `+`.
pub open spec fn unsigned_digits(s: Seq<char>) -> Seq<char> {
    if s.len() > 0 && s[0] == '+' {
        s.drop_first()
    } else {
        s
    }
}

/// What `str::parse::<u16>` gives: an optional `+` followed by one or more
/// decimal digits whose value fits in `u16`; anything else is an error.
pub open spec fn parse_u16(s: Seq<char>) -> Option<u16> {
    let digits = unsigned_digits(s);
    if digits.len() == 0 {
        None
    } else if exists|i: int| 0 <= i < digits.len() && !is_digit(#[trigger] digits[i]) {
        None
    } else if decimal_value(digits) > u16::MAX {
        None
    } else {
        Some(decimal_value(digits) as u16)
    }
}

/// The character of the decimal digit `d` (0 to 9).
pub open spec fn digit_char(d: nat) -> char {
    ((48 + d) as u8) as char
}

/// The decimal rendering of `n`, without leading zeros.
pub open spec fn decimal_string(n: nat) -> Seq<char>
    decreases n,
{
    if n < 10 {
        seq![digit_char(n)]
    } else {
        decimal_string(n / 10).push(digit_char(n % 10))
    }
}

/// The reason a server form is refused.
#[derive(Debug, Clone, Copy, PartialEq, Eq)]
pub enum FormError {
    /// The name is blank.
    EmptyName,
    /// The host is blank.
    EmptyHost,
    /// The port is not a number from 0 to 65535.
    InvalidPort,
    /// The port is 0.
    ZeroPort,
    /// The user name is blank.
    EmptyUsername,
}

impl FormError {
    /// The message shown to the user for this error.
    pub fn message(&self) -> (m: String)
        ensures
            m@ == match self {
                FormError::EmptyName => "服务器名称不能为空"@,
                FormError::EmptyHost => "服务器主机名或 IP 地址不能为空"@,
                FormError::InvalidPort => "无效的端口号 (必须在 1~65535 范围内)"@,
                FormError::ZeroPort => "端口号不能为 0"@,
                FormError::EmptyUsername => "用户名不能为空"@,
            },
    {
        match self {
            FormError::EmptyName => "服务器名称不能为空".to_string(),
            FormError::EmptyHost => "服务器主机名或 IP 地址不能为空".to_string(),
            FormError::InvalidPort => "无效的端口号 (必须在 1~65535 范围内)".to_string(),
            FormError::ZeroPort => "端口号不能为 0".to_string(),
            FormError::EmptyUsername => "用户名不能为空".to_string(),
        }
    }
}

/// Editable form state of a server profile (bound to the UI dialog).
#[derive(Debug)]
pub struct ServerFormDraft {
    pub id: Option<String>,
    pub name: String,
    pub host: String,
    pub port: String,
    pub username: String,
    pub domain: String,
    pub password: String,
    pub credential_id: Option<String>,
    pub notes: String,
    pub smart_sizing: bool,
    pub redirect_clipboard: bool,
    pub redirect_drives: bool,
    pub redirect_printers: bool,
    pub admin_session: bool,
}

impl Clone for ServerFormDraft {
    fn clone(&self) -> (r: Self)
        ensures
            opt_str(r.id) == opt_str(self.id),
            r.name@ == self.name@,
            r.host@ == self.host@,
            r.port@ == self.port@,
            r.username@ == self.username@,
            r.domain@ == self.domain@,
            r.password@ == self.password@,
            opt_str(r.credential_id) == opt_str(self.credential_id),
            r.notes@ == self.notes@,
            r.smart_sizing == self.smart_sizing,
            r.redirect_clipboard == self.redirect_clipboard,
            r.redirect_drives == self.redirect_drives,
            r.redirect_printers == self.redirect_printers,
            r.admin_session == self.admin_session,
    {
        ServerFormDraft {
            id: clone_opt_string(&self.id),
            name: self.name.clone(),
            host: self.host.clone(),
            port: self.port.clone(),
            username: self.username.clone(),
            domain: self.domain.clone(),
            password: self.password.clone(),
            credential_id: clone_opt_string(&self.credential_id),
            notes: self.notes.clone(),
            smart_sizing: self.smart_sizing,
            redirect_clipboard: self.redirect_clipboard,
            redirect_drives: self.redirect_drives,
            redirect_printers: self.redirect_printers,
            admin_session: self.admin_session,
        }
    }
}

impl Default for ServerFormDraft {
    fn default() -> (d: Self)
        ensures
            d.id is None,
            d.name@.len() == 0,
            d.host@.len() == 0,
            d.port@ == seq!['3', '3', '8', '9'],
            d.username@ == seq!['a', 'd', 'm', 'i', 'n', 'i', 's', 't', 'r', 'a', 't', 'o', 'r'],
            d.domain@.len() == 0,
            d.password@.len() == 0,
            d.credential_id is None,
            d.notes@.len() == 0,
            d.smart_sizing,
            d.redirect_clipboard,
            !d.redirect_drives,
            !d.redirect_printers,
            !d.admin_session,
    {
        let port = "3389";
        let username = "administrator";
        proof {
            reveal_strlit("3389");
            reveal_strlit("administrator");
        }
        ServerFormDraft {
            id: None,
            name: String::new(),
            host: String::new(),
            port: port.to_string(),
            username: username.to_string(),
            domain: String::new(),
            password: String::new(),
            credential_id: None,
            notes: String::new(),
            smart_sizing: true,
            redirect_clipboard: true,
            redirect_drives: false,
            redirect_printers: false,
            admin_session: false,
        }
    }
}

/// The first check a form fails, if any, in the order the dialog checks them.
pub open spec fn form_error(d: ServerFormDraft) -> Option<FormError> {
    if trimmed(d.name@).len() == 0 {
        Some(FormError::EmptyName)
    } else if trimmed(d.host@).len() == 0 {
        Some(FormError::EmptyHost)
    } else if parse_u16(trimmed(d.port@)) is None {
        Some(FormError::InvalidPort)
    } else if parse_u16(trimmed(d.port@)) == Some(0u16) {
        Some(FormError::ZeroPort)
    } else if trimmed(d.username@).len() == 0 {
        Some(FormError::EmptyUsername)
    } else {
        None
    }
}

/// A trimmed optional text: `None` when blank.
pub open spec fn blank_to_none(s: Seq<char>) -> Option<Seq<char>> {
    if trimmed(s).len() == 0 {
        None
    } else {
        Some(trimmed(s))
    }
}

/// The options a valid form yields.
pub open spec fn form_options(d: ServerFormDraft) -> RdpOptions {
    RdpOptions {
        display_mode: if d.smart_sizing {
            DisplayMode::SmartSizing
        } else {
            DisplayMode::DynamicResolution
        },
        audio_mode: AudioMode::Local,
        redirect_clipboard: d.redirect_clipboard,
        redirect_drives: d.redirect_drives,
        redirect_printers: d.redirect_printers,
        admin_session: d.admin_session,
        timeout_seconds: 15,
    }
}

/// Whether `e` carries the fields of a valid form `d`, credential aside.
pub open spec fn form_fields(d: ServerFormDraft, e: ServerEntryView) -> bool {
    &&& match d.id {
        Some(id) => e.id == id@,
        None => is_hyphenated_uuid(e.id),
    }
    &&& e.name == trimmed(d.name@)
    &&& e.host == trimmed(d.host@)
    &&& Some(e.port) == parse_u16(trimmed(d.port@))
    &&& e.username == trimmed(d.username@)
    &&& e.domain == blank_to_none(d.domain@)
    &&& e.notes == blank_to_none(d.notes@)
    &&& e.options == form_options(d)
}

/// Whether `e` is the entry that a valid form `d` yields.
pub open spec fn form_entry(d: ServerFormDraft, e: ServerEntry) -> bool {
    &&& form_fields(d, e@)
    &&& e@.credential_id == opt_str(d.credential_id)
}

/// The text of an optional field, empty when there is none.
pub open spec fn text_or_empty(o: Option<String>) -> Seq<char> {
    match o {
        Some(x) => x@,
        None => Seq::empty(),
    }
}

/// Whether `d` is the form of server `s` for editing: its fields, the port
/// in decimal, missing texts as empty ones, no password, and the smart-sizing
/// flag from the display mode.
pub open spec fn draft_of(d: ServerFormDraft, s: ServerEntry) -> bool {
    &&& opt_str(d.id) == Some(s.id@)
    &&& d.name@ == s.name@
    &&& d.host@ == s.host@
    &&& d.port@ == decimal_string(s.port as nat)
    &&& d.username@ == s.username@
    &&& d.domain@ == text_or_empty(s.domain)
    &&& d.password@.len() == 0
    &&& opt_str(d.credential_id) == opt_str(s.credential_id)
    &&& d.notes@ == text_or_empty(s.notes)
    &&& d.smart_sizing == (s.options.display_mode is SmartSizing)
    &&& d.redirect_clipboard == s.options.redirect_clipboard
    &&& d.redirect_drives == s.options.redirect_drives
    &&& d.redirect_printers == s.options.redirect_printers
    &&& d.admin_session == s.options.admin_session
}

/// A text the form keeps as it is: not blank, no surrounding white space.
pub open spec fn kept_text(t: Seq<char>) -> bool {
    t.len() > 0 && trimmed(t) == t
}

/// Whether saving the edit form of `s` unchanged gives `s` back: its texts
/// are kept as they are, optional texts are absent or kept, the port is not
/// 0, and its options are among those the form can express (smart sizing or
/// dynamic resolution, local audio, the 15 s timeout).
pub open spec fn form_preserves(s: ServerEntryView) -> bool {
    &&& kept_text(s.name)
    &&& kept_text(s.host)
    &&& kept_text(s.username)
    &&& s.port != 0
    &&& (s.domain matches Some(x) ==> kept_text(x))
    &&& (s.notes matches Some(x) ==> kept_text(x))
    &&& !(s.options.display_mode is Fixed)
    &&& s.options.audio_mode == AudioMode::Local
    &&& s.options.timeout_seconds == 15
}

/// Opening a server in the edit form and saving it unchanged is
/// accepted, carries no password, and gives back the same server.
pub proof fn lemma_edit_roundtrip(s: ServerEntry, d: ServerFormDraft)
    requires
        draft_of(d, s),
        form_preserves(s@),
    ensures
        form_error(d) is None,
        d.password@.len() == 0,
        forall|e: ServerEntry| #[trigger] form_entry(d, e) ==> e@ == s@,
{
    let p = decimal_string(s.port as nat);
    lemma_decimal_string_digits(s.port as nat);
    lemma_port_text_roundtrip(s.port);
    assert(!is_white_space(p[0]));
    assert(!is_white_space(p.last()));
    assert(trim_start(p) == p);
    assert(trim_end(p) == p);
    assert(trimmed(Seq::<char>::empty()) == Seq::<char>::empty());
    assert(parse_u16(trimmed(d.port@)) == Some(s.port));
    assert forall|e: ServerEntry| #[trigger] form_entry(d, e) implies e@ == s@ by {
        assert(e@.domain == opt_str(s.domain));
        assert(e@.notes == opt_str(s.notes));
        assert(e@.options == s.options);
    }
}

/// The optional text of a trimmed form field: `None` when blank.
fn trimmed_or_none(s: &str) -> (r: Option<String>)
    ensures
        opt_str(r) == blank_to_none(s@),
{
    let t = trim(s);
    if t.is_empty() {
        None
    } else {
        Some(t.to_string())
    }
}

impl ServerFormDraft {
    /// A form filled from an existing server (see `draft_of`).
    pub fn from_server(server: &ServerEntry) -> (d: Self)
        ensures
            draft_of(d, *server),
    {
        let domain = match &server.domain {
            Some(x) => x.clone(),
            None => String::new(),
        };
        let notes = match &server.notes {
            Some(x) => x.clone(),
            None => String::new(),
        };
        let smart_sizing = match server.options.display_mode {
            DisplayMode::SmartSizing => true,
            _ => false,
        };
        ServerFormDraft {
            id: Some(server.id.clone()),
            name: server.name.clone(),
            host: server.host.clone(),
            port: port_text(server.port),
            username: server.username.clone(),
            domain,
            password: String::new(),
            credential_id: clone_opt_string(&server.credential_id),
            notes,
            smart_sizing,
            redirect_clipboard: server.options.redirect_clipboard,
            redirect_drives: server.options.redirect_drives,
            redirect_printers: server.options.redirect_printers,
            admin_session: server.options.admin_session,
        }
    }

    /// Checks the form and turns it into a server entry plus the password
    /// typed (`None` when empty). Refused exactly when `form_error` says so;
    /// a new entry gets a fresh id unless the form carries one.
    pub fn validate_and_convert(self) -> (r: Result<(ServerEntry, Option<String>), FormError>)
        ensures
            match r {
                Err(e) => form_error(self) == Some(e),
                Ok((entry, password)) => {
                    &&& form_error(self) is None
                    &&& form_entry(self, entry)
                    &&& opt_str(password) == if self.password@.len() == 0 {
                        None
                    } else {
                        Some(self.password@)
                    }
                },
            },
    {
        let name = trim(self.name.as_str());
        if name.is_empty() {
            return Err(FormError::EmptyName);
        }
        let host = trim(self.host.as_str());
        if host.is_empty() {
            return Err(FormError::EmptyHost);
        }
        let port = match parse_port(trim(self.port.as_str())) {
            Some(p) => p,
            None => return Err(FormError::InvalidPort),
        };
        if port == 0 {
            return Err(FormError::ZeroPort);
        }
        let username = trim(self.username.as_str());
        if username.is_empty() {
            return Err(FormError::EmptyUsername);
        }
        let mut entry = ServerEntry::new(name, host, username);
        let domain = trimmed_or_none(self.domain.as_str());
        let notes = trimmed_or_none(self.notes.as_str());
        let ServerFormDraft {
            id,
            password,
            credential_id,
            smart_sizing,
            redirect_clipboard,
            redirect_drives,
            redirect_printers,
            admin_session,
            ..
        } = self;
        if let Some(id) = id {
            entry.id = id;
        }
        entry.port = port;
        entry.domain = domain;
        entry.notes = notes;
        entry.credential_id = credential_id;
        entry.options = RdpOptions {
            display_mode: if smart_sizing {
                DisplayMode::SmartSizing
            } else {
                DisplayMode::DynamicResolution
            },
            audio_mode: AudioMode::Local,
            redirect_clipboard,
            redirect_drives,
            redirect_printers,
            admin_session,
            timeout_seconds: 15,
        };
        let password = if password.as_str().is_empty() {
            None
        } else {
            Some(password)
        };
        Ok((entry, password))
    }
}

/// A port rendered by `from_server` parses back to the same port.
pub proof fn lemma_port_text_roundtrip(p: u16)
    ensures
        parse_u16(decimal_string(p as nat)) == Some(p),
{
    lemma_decimal_string_digits(p as nat);
    assert(unsigned_digits(decimal_string(p as nat)) == decimal_string(p as nat));
}

/// The decimal rendering is made of digits, starts with a digit and is worth `n`.
pub proof fn lemma_decimal_string_digits(n: nat)
    ensures
        decimal_string(n).len() > 0,
        forall|i: int| 0 <= i < decimal_string(n).len() ==> is_digit(#[trigger] decimal_string(n)[i]),
        decimal_value(decimal_string(n)) == n,
    decreases n,
{
    if n >= 10 {
        lemma_decimal_string_digits(n / 10);
        let s = decimal_string(n);
        let t = decimal_string(n / 10);
        assert(s == t.push(digit_char(n % 10)));
        assert(s.drop_last() =~= t);
        assert forall|i: int| 0 <= i < s.len() implies is_digit(#[trigger] s[i]) by {
            if i < t.len() {
                assert(s[i] == t[i]);
            }
        }
        assert(digit_char(n % 10) as u32 == 48 + n % 10);
        assert(n == 10 * (n / 10) + n % 10) by (nonlinear_arith);
        assert(s.last() == digit_char(n % 10));
        assert(decimal_value(s) == 10 * decimal_value(t) + ((digit_char(n % 10) as u32) - 48) as nat);
    } else {
        let s = decimal_string(n);
        assert(digit_char(n) as u32 == 48 + n);
        assert(s.drop_last() =~= Seq::<char>::empty());
        assert(s.last() == digit_char(n));
        assert(decimal_value(s) == 10 * decimal_value(s.drop_last()) + ((digit_char(n) as u32) - 48) as nat);
    }
}

/// Parses a port number as `str::parse::<u16>` does.
pub fn parse_port(s: &str) -> (r: Option<u16>)
    ensures
        r == parse_u16(s@),
{
    let chars = chars_of(s);
    let mut start: usize = 0;
    if chars.len() > 0 && chars[0] == '+' {
        start = 1;
    }
    let ghost digits = unsigned_digits(s@);
    assert(digits =~= chars@.subrange(start as int, chars@.len() as int));
    if start == chars.len() {
        return None;
    }
    let mut value: u32 = 0;
    let mut i: usize = start;
    while i < chars.len()
        invariant
            chars@ == s@,
            start <= i <= chars.len(),
            digits == chars@.subrange(start as int, chars@.len() as int),
            digits == unsigned_digits(s@),
            forall|j: int| start <= j < i ==> is_digit(#[trigger] chars@[j]),
            value == decimal_value(chars@.subrange(start as int, i as int)),
            value <= u16::MAX,
        decreases chars.len() - i,
    {
        let c = chars[i];
        let u = c as u32;
        assert(u == (c as u32));
        if u < 48 || u > 57 {
            assert(digits[i - start] == c);
            assert(!is_digit(digits[i - start]));
            proof {
                lemma_parse_rejects_non_digit(s@, (i - start) as int);
            }
            return None;
        }
        proof {
            assert(chars@.subrange(start as int, i + 1).drop_last() =~= chars@.subrange(
                start as int,
                i as int,
            ));
        }
        value = value * 10 + (u - 48);
        i = i + 1;
        if value > 65535 {
            proof {
                if forall|j: int| 0 <= j < digits.len() ==> is_digit(#[trigger] digits[j]) {
                    lemma_decimal_value_prefix(digits, i - start);
                    assert(digits.subrange(0, i - start) =~= chars@.subrange(start as int, i as int));
                    assert(decimal_value(digits) > u16::MAX);
                } else {
                    let k = choose|j: int| 0 <= j < digits.len() && !is_digit(#[trigger] digits[j]);
                    lemma_parse_rejects_non_digit(s@, k);
                }
            }
            return None;
        }
    }
    assert(chars@.subrange(start as int, i as int) =~= digits);
    Some(value as u16)
}

/// Appends the decimal rendering of `n` to `out`.
fn push_decimal(n: u16, out: &mut String)
    ensures
        final(out)@ == old(out)@ + decimal_string(n as nat),
    decreases n,
{
    if n >= 10 {
        push_decimal(n / 10, out);
    }
    let d = n % 10;
    out.push(((48 + d) as u8) as char);
    proof {
        if n >= 10 {
            assert(decimal_string(n as nat) == decimal_string((n / 10) as nat).push(digit_char((n % 10) as nat)));
        }
    }
    assert(final(out)@ =~= old(out)@ + decimal_string(n as nat));
}

/// The decimal text of a port number (what `u16::to_string` gives).
pub fn port_text(n: u16) -> (s: String)
    ensures
        s@ == decimal_string(n as nat),
{
    let mut s = String::new();
    push_decimal(n, &mut s);
    assert(s@ =~= decimal_string(n as nat));
    s
}

/// A text whose digit part holds a non-digit does not parse.
pub proof fn lemma_parse_rejects_non_digit(s: Seq<char>, k: int)
    requires
        0 <= k < unsigned_digits(s).len(),
        !is_digit(unsigned_digits(s)[k]),
    ensures
        parse_u16(s) is None,
{
}

/// A run of digits is worth at least any of its prefixes.
pub proof fn lemma_decimal_value_prefix(d: Seq<char>, n: int)
    requires
        0 <= n <= d.len(),
        forall|i: int| 0 <= i < d.len() ==> is_digit(#[trigger] d[i]),
    ensures
        decimal_value(d.subrange(0, n)) <= decimal_value(d),
    decreases d.len(),
{
    if n < d.len() {
        let t = d.drop_last();
        assert forall|i: int| 0 <= i < t.len() implies is_digit(#[trigger] t[i]) by {
            assert(t[i] == d[i]);
        }
        lemma_decimal_value_prefix(t, n);
        assert(t.subrange(0, n) =~= d.subrange(0, n));
    } else {
        assert(d.subrange(0, n) =~= d);
    }
}

} // verus!
