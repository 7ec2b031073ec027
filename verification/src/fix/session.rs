//! FIX session layer.
//!
//! The lifecycle of a session: logon, heartbeats, test requests and sequence number gaps.
use crate::bytes::decimal_digits;
use crate::fix::codec::{FixCodec, FixError, FixMessage, FixTag};
use std::sync::Arc;
use vstd::prelude::*;

verus! {

/// Session state.
#[derive(Debug, Clone, Copy, PartialEq, Eq, Structural)]
pub enum SessionState {
    /// Session disconnected
    Disconnected,
    /// Connecting to counterparty
    Connecting,
    /// Awaiting logon response
    AwaitingLogon,
    /// Logged on and active
    LoggedOn,
    /// Logging off
    LoggingOff,
    /// Session terminated
    Terminated,
    /// In resend request mode
    ResendRequested,
}

impl SessionState {
    pub fn is_active(self) -> (r: bool)
        ensures
            r == (self is LoggedOn || self is ResendRequested),
    {
        match self {
            SessionState::LoggedOn => true,
            SessionState::ResendRequested => true,
            _ => false,
        }
    }
}

/// Session configuration.
#[derive(Debug, Clone, Copy)]
pub struct SessionConfig {
    /// Sender CompID
    pub sender_comp_id: [u8; 32],
    /// Target CompID
    pub target_comp_id: [u8; 32],
    /// Heartbeat interval in seconds
    pub heartbeat_interval_sec: u32,
    /// Session start time (HHMMSS format)
    pub start_time: u32,
    /// Session end time (HHMMSS format)
    pub end_time: u32,
    /// Enable encryption
    pub enable_encryption: bool,
    /// Encrypt method (0 = none, 1 = PKCS, etc.)
    pub encrypt_method: u8,
    /// Maximum message size
    pub max_message_size: u32,
    /// Reset sequence on logon
    pub reset_on_logon: bool,
    /// Reset sequence on disconnect
    pub reset_on_disconnect: bool,
    /// Refresh on logon
    pub refresh_on_logon: bool,
}

impl Default for SessionConfig {
    fn default() -> (c: Self)
        ensures
            c.sender_comp_id@ == Seq::new(32, |i: int| 0u8),
            c.target_comp_id@ == Seq::new(32, |i: int| 0u8),
            c.heartbeat_interval_sec == 30,
            c.start_time == 0,
            c.end_time == 235959,
            !c.enable_encryption,
            c.encrypt_method == 0,
            c.max_message_size == 4096,
            !c.reset_on_logon,
            !c.reset_on_disconnect,
            !c.refresh_on_logon,
    {
        Self {
            sender_comp_id: [0u8;32],
            target_comp_id: [0u8;32],
            heartbeat_interval_sec: 30,
            start_time: 0,
            end_time: 235959,
            enable_encryption: false,
            encrypt_method: 0,
            max_message_size: 4096,
            reset_on_logon: false,
            reset_on_disconnect: false,
            refresh_on_logon: false,
        }
    }
}

/// Resend request parameters.
#[derive(Debug, Clone, Copy)]
pub struct ResendRequest {
    /// Begin sequence number
    pub begin_seq_no: u64,
    /// End sequence number (0 = infinity)
    pub end_seq_no: u64,
    /// Request timestamp
    pub request_time_ns: u64,
}

impl ResendRequest {
    pub fn new(begin_seq_no: u64, end_seq_no: u64) -> (r: Self)
        ensures
            r == (ResendRequest { begin_seq_no, end_seq_no, request_time_ns: 0 }),
    {
        Self { begin_seq_no, end_seq_no, request_time_ns: 0 }
    }

    pub fn with_timestamp(self, timestamp_ns: u64) -> (r: Self)
        ensures
            r == (ResendRequest { request_time_ns: timestamp_ns, ..self }),
    {
        ResendRequest {
            begin_seq_no: self.begin_seq_no,
            end_seq_no: self.end_seq_no,
            request_time_ns: timestamp_ns,
        }
    }
}

/// Session statistics.
#[derive(Debug, Clone, Copy)]
pub struct SessionStats {
    /// Messages sent
    pub messages_sent: u64,
    /// Messages received
    pub messages_received: u64,
    /// Logons sent
    pub logons_sent: u64,
    /// Logons received
    pub logons_received: u64,
    /// Heartbeats sent
    pub heartbeats_sent: u64,
    /// Heartbeats received
    pub heartbeats_received: u64,
    /// Resend requests sent
    pub resend_requests_sent: u64,
    /// Sequence gaps detected
    pub sequence_gaps: u64,
    /// Test requests sent
    pub test_requests_sent: u64,
    /// Last message timestamp
    pub last_message_ns: u64,
    /// Last heartbeat timestamp
    pub last_heartbeat_ns: u64,
}

impl SessionStats {
    /// Statistics of a session in which nothing has happened.
    pub open spec fn zero() -> Self {
        SessionStats {
            messages_sent: 0,
            messages_received: 0,
            logons_sent: 0,
            logons_received: 0,
            heartbeats_sent: 0,
            heartbeats_received: 0,
            resend_requests_sent: 0,
            sequence_gaps: 0,
            test_requests_sent: 0,
            last_message_ns: 0,
            last_heartbeat_ns: 0,
        }
    }

    pub fn new() -> (s: Self)
        ensures
            s == SessionStats::zero(),
    {
        Self {
            messages_sent: 0,
            messages_received: 0,
            logons_sent: 0,
            logons_received: 0,
            heartbeats_sent: 0,
            heartbeats_received: 0,
            resend_requests_sent: 0,
            sequence_gaps: 0,
            test_requests_sent: 0,
            last_message_ns: 0,
            last_heartbeat_ns: 0,
        }
    }
}

impl Default for SessionStats {
    fn default() -> (s: Self)
        ensures
            s == SessionStats::zero(),
    {
        Self::new()
    }
}

/// FIX session.
pub struct FixSession {
    /// Session configuration
    pub config: SessionConfig,
    /// Current session state
    pub state: SessionState,
    /// Outgoing sequence number
    pub outgoing_seq_num: u64,
    /// Incoming (expected) sequence number
    pub incoming_seq_num: u64,
    /// Last received sequence number
    pub last_received_seq: u64,
    /// Codec
    pub codec: Arc<FixCodec>,
    /// Session is running
    pub is_running: bool,
    /// Last activity timestamp (nanoseconds)
    pub last_activity_ns: u64,
    /// Last heartbeat timestamp (nanoseconds)
    pub last_heartbeat_ns: u64,
    /// Heartbeat timeout threshold (nanoseconds)
    pub heartbeat_timeout_ns: u64,
    /// Statistics
    pub stats: SessionStats,
    /// Pending resend request
    pub pending_resend: bool,
    /// Resend begin sequence
    pub resend_begin_seq: u64,
    /// Resend end sequence
    pub resend_end_seq: u64,
}

/// The begin string of every message: FIX.4.4
pub open spec fn fix_version() -> Seq<u8> {
    seq![70u8, 73u8, 88u8, 46u8, 52u8, 46u8, 52u8]
}

/// The sending time of every message: 20240101-12:00:00.000
pub open spec fn sending_time() -> Seq<u8> {
    seq![
        50u8, 48u8, 50u8, 52u8, 48u8, 49u8, 48u8, 49u8, 45u8, 49u8, 50u8,
        58u8, 48u8, 48u8, 58u8, 48u8, 48u8, 46u8, 48u8, 48u8, 48u8,
    ]
}

/// An optional text field.
pub open spec fn tagged_text(tag: u32, text: Option<&str>) -> Option<(u32, Seq<u8>)> {
    match text {
        Some(t) => Some((tag, vstd::utf8::encode_utf8(t@))),
        None => None,
    }
}

/// The text of the first `k` fields opens the text of all of them.
proof fn lemma_text_prefix(fields: Seq<(u32, Seq<u8>)>, k: int)
    requires
        0 <= k <= fields.len(),
    ensures
        ({
            let part = FixSession::message_text(fields.take(k));
            let whole = FixSession::message_text(fields);
            part.len() <= whole.len() && whole.take(part.len() as int) == part
        }),
    decreases fields.len(),
{
    let part = FixSession::message_text(fields.take(k));
    let whole = FixSession::message_text(fields);
    if k == fields.len() {
        assert(fields.take(k) =~= fields);
        assert(whole.take(part.len() as int) =~= part);
    } else {
        lemma_text_prefix(fields.drop_last(), k);
        assert(fields.drop_last().take(k) =~= fields.take(k));
        let shorter = FixSession::message_text(fields.drop_last());
        let kept = without_body_length(fields.drop_last());
        assert(kept.push(fields.last()).drop_last() =~= kept);
        assert(whole.take(part.len() as int) =~= shorter.take(part.len() as int));
    }
}

/// The fields of an owned field list.
pub open spec fn owned_fields(fields: Seq<(u32, Vec<u8>)>) -> Seq<(u32, Seq<u8>)> {
    Seq::new(fields.len(), |i: int| (fields[i].0, fields[i].1@))
}

/// The fields that are written: all but the body length, which stands as a placeholder only.
pub open spec fn without_body_length(fields: Seq<(u32, Seq<u8>)>) -> Seq<(u32, Seq<u8>)>
    decreases fields.len(),
{
    if fields.len() == 0 {
        Seq::empty()
    } else {
        let before = without_body_length(fields.drop_last());
        if fields.last().0 == 9 {
            before
        } else {
            before.push(fields.last())
        }
    }
}

/// What sending `text` into a buffer returns and leaves in it: all of it where it fits, and as
/// much of it as fits where it does not.
pub open spec fn is_sent(
    text: Seq<u8>,
    before: Seq<u8>,
    after: Seq<u8>,
    r: Result<usize, FixError>,
) -> bool {
    if text.len() <= before.len() {
        r == Ok::<usize, FixError>(text.len() as usize) && after == text + before.skip(
            text.len() as int,
        )
    } else {
        r == Err::<usize, FixError>(FixError::BufferTooSmall) && after == text.take(
            before.len() as int,
        )
    }
}

impl FixSession {
    /// The session with one more message counted as sent, where sending succeeded.
    pub open spec fn after_sending(self, r: Result<usize, FixError>) -> Self {
        if r is Ok {
            FixSession {
                stats: SessionStats {
                    messages_sent: self.stats.messages_sent.wrapping_add(1),
                    ..self.stats
                },
                ..self
            }
        } else {
            self
        }
    }

    /// The session with the next outgoing sequence number.
    pub open spec fn with_next_seq(self) -> Self {
        FixSession { outgoing_seq_num: self.outgoing_seq_num.wrapping_add(1), ..self }
    }

    /// The fields that open every message of the session.
    pub open spec fn header(self, kind: u8) -> Seq<(u32, Seq<u8>)> {
        seq![
            (8u32, fix_version()),
            (9u32, seq![48u8, 48u8, 48u8]),
            (35u32, seq![kind]),
            (49u32, self.config.sender_comp_id@),
            (56u32, self.config.target_comp_id@),
            (34u32, crate::bytes::decimal(self.outgoing_seq_num as nat)),
            (52u32, sending_time()),
        ]
    }

    /// The fields of a logon message.
    pub open spec fn logon_fields(self) -> Seq<(u32, Seq<u8>)> {
        let body = self.header(65).push((98u32, seq![self.config.encrypt_method])).push(
            (108u32, crate::bytes::decimal(self.config.heartbeat_interval_sec as nat)),
        );
        if self.config.reset_on_logon {
            body.push((141u32, seq![89u8]))
        } else {
            body
        }
    }

    /// The fields of a message with an optional closing field.
    pub open spec fn short_fields(self, kind: u8, extra: Option<(u32, Seq<u8>)>) -> Seq<
        (u32, Seq<u8>),
    > {
        match extra {
            Some(field) => self.header(kind).push(field),
            None => self.header(kind),
        }
    }

    /// The session once a message has arrived at `now_ns`.
    pub open spec fn noted(self, now_ns: u64) -> Self {
        FixSession {
            last_activity_ns: now_ns,
            stats: SessionStats {
                messages_received: self.stats.messages_received.wrapping_add(1),
                last_message_ns: now_ns,
                ..self.stats
            },
            ..self
        }
    }

    /// The session once the expected sequence number has arrived.
    pub open spec fn advanced(self) -> Self {
        FixSession {
            last_received_seq: self.incoming_seq_num,
            incoming_seq_num: self.incoming_seq_num.wrapping_add(1),
            ..self
        }
    }

    /// The session once a message with sequence number `seq` shows what is missing: the numbers
    /// from behind the last one received up to the one before `seq`, if there are any.
    pub open spec fn gap_noted(self, seq: u64) -> Self {
        if seq > self.last_received_seq + 1 {
            FixSession {
                state: SessionState::ResendRequested,
                pending_resend: true,
                resend_begin_seq: (self.last_received_seq + 1) as u64,
                resend_end_seq: (seq - 1) as u64,
                stats: SessionStats {
                    sequence_gaps: self.stats.sequence_gaps.wrapping_add(1),
                    resend_requests_sent: self.stats.resend_requests_sent.wrapping_add(1),
                    ..self.stats
                },
                ..self
            }
        } else {
            self
        }
    }

    /// The session once a message with sequence number `seq` has been put in order.
    pub open spec fn sequenced(self, seq: u64) -> Self {
        if seq == self.incoming_seq_num {
            self.advanced()
        } else {
            self.gap_noted(seq)
        }
    }

    /// The session once a message of type `kind` has been handled at `now_ns`.
    pub open spec fn handled(self, kind: Option<Seq<u8>>, now_ns: u64) -> Self {
        if kind == Some(seq![48u8]) {
            FixSession {
                last_heartbeat_ns: now_ns,
                stats: SessionStats {
                    heartbeats_received: self.stats.heartbeats_received.wrapping_add(1),
                    ..self.stats
                },
                ..self
            }
        } else if kind == Some(seq![65u8]) {
            FixSession {
                state: SessionState::LoggedOn,
                stats: SessionStats {
                    logons_received: self.stats.logons_received.wrapping_add(1),
                    ..self.stats
                },
                ..self
            }
        } else if kind == Some(seq![53u8]) {
            FixSession { state: SessionState::Disconnected, ..self }
        } else if kind == Some(seq![50u8]) {
            FixSession { state: SessionState::LoggedOn, pending_resend: false, ..self }
        } else {
            self
        }
    }

    /// Creates a session. It times out after twice the heartbeat interval.
    pub fn new(config: SessionConfig, codec: Arc<FixCodec>) -> (r: Result<Self, FixError>)
        ensures
            r == Ok::<FixSession, FixError>(
                FixSession {
                    config,
                    state: SessionState::Disconnected,
                    outgoing_seq_num: 1,
                    incoming_seq_num: 1,
                    last_received_seq: 0,
                    codec,
                    is_running: false,
                    last_activity_ns: 0,
                    last_heartbeat_ns: 0,
                    heartbeat_timeout_ns: (config.heartbeat_interval_sec * 2_000_000_000) as u64,
                    stats: SessionStats::zero(),
                    pending_resend: false,
                    resend_begin_seq: 0,
                    resend_end_seq: 0,
                },
            ),
    {
        let heartbeat_timeout_ns: u64 = config.heartbeat_interval_sec as u64 * 2_000_000_000;
        Ok(
            Self {
                config,
                state: SessionState::Disconnected,
                outgoing_seq_num: 1,
                incoming_seq_num: 1,
                last_received_seq: 0,
                codec,
                is_running: false,
                last_activity_ns: 0,
                last_heartbeat_ns: 0,
                heartbeat_timeout_ns,
                stats: SessionStats::new(),
                pending_resend: false,
                resend_begin_seq: 0,
                resend_end_seq: 0,
            },
        )
    }

    /// The current state.
    pub fn get_state(&self) -> (r: SessionState)
        ensures
            r == self.state,
    {
        self.state
    }

    /// Sets the state.
    pub fn set_state(&mut self, state: SessionState)
        ensures
            *final(self) == (FixSession { state, ..*old(self) }),
    {
        self.state = state;
    }

    /// True while logged on.
    pub fn is_logged_on(&self) -> (r: bool)
        ensures
            r == (self.state is LoggedOn),
    {
        self.state == SessionState::LoggedOn
    }

    /// Starts the session at `now_ns`.
    pub fn start(&mut self, now_ns: u64)
        ensures
            *final(self) == (FixSession {
                state: SessionState::Connecting,
                is_running: true,
                last_activity_ns: now_ns,
                ..*old(self)
            }),
    {
        self.state = SessionState::Connecting;
        self.is_running = true;
        self.last_activity_ns = now_ns;
    }

    /// The session once it is stopped.
    pub open spec fn stopped(self) -> Self {
        let s = FixSession { state: SessionState::Terminated, is_running: false, ..self };
        if self.config.reset_on_disconnect {
            s.with_reset_sequence()
        } else {
            s
        }
    }

    /// Stops the session.
    pub fn stop(&mut self)
        ensures
            *final(self) == old(self).stopped(),
    {
        self.is_running = false;
        if self.config.reset_on_disconnect {
            self.reset_sequence_numbers();
        }
        self.state = SessionState::Terminated;
    }

    /// The session with its sequence numbers reset.
    pub open spec fn with_reset_sequence(self) -> Self {
        FixSession { outgoing_seq_num: 1, incoming_seq_num: 1, last_received_seq: 0, ..self }
    }

    /// Resets the sequence numbers.
    pub fn reset_sequence_numbers(&mut self)
        ensures
            *final(self) == old(self).with_reset_sequence(),
    {
        self.outgoing_seq_num = 1;
        self.incoming_seq_num = 1;
        self.last_received_seq = 0;
    }

    /// Processes a message that arrived at `now_ns`.
    pub fn process_message(&mut self, msg: &FixMessage, now_ns: u64) -> (r: Result<(), FixError>)
        requires
            msg.wf(),
        ensures
            ({
                let seq_field = crate::fix::codec::first_with_tag(msg@, 0, 34);
                let kind = crate::fix::codec::opt_bytes(msg.msg_type);
                let noted = old(self).noted(now_ns);
                if !old(self).is_running {
                    r == Err::<(), FixError>(FixError::SessionNotActive) && *final(self) == *old(self)
                } else {
                    match seq_field {
                        None => r == Ok::<(), FixError>(()) && *final(self) == noted.handled(
                            kind,
                            now_ns,
                        ),
                        Some(field) => match crate::fix::codec::uint_of(field.value@) {
                            Err(_) => r == Err::<(), FixError>(FixError::ParseError) && *final(self)
                                == noted,
                            Ok(seq) => r == Ok::<(), FixError>(()) && *final(self)
                                == noted.sequenced(seq).handled(kind, now_ns),
                        },
                    }
                }
            }),
    {
        if !self.is_running {
            return Err(FixError::SessionNotActive);
        }
        self.last_activity_ns = now_ns;
        self.stats.messages_received = self.stats.messages_received.wrapping_add(1);
        self.stats.last_message_ns = now_ns;
        if let Some(seq_field) = msg.get_field(FixTag::MsgSeqNum) {
            let seq: u64 = match seq_field.as_uint() {
                Ok(n) => n,
                Err(_) => return Err(FixError::ParseError),
            };
            let in_order = self.validate_sequence(seq)?;
            if !in_order {
                self.request_resend(seq)?;
            }
        }
        if let Some(kind) = msg.msg_type {
            self.handle(kind, now_ns);
        }
        Ok(())
    }

    /// Handles a message of the given type.
    fn handle(&mut self, kind: &[u8], now_ns: u64)
        ensures
            *final(self) == old(self).handled(Some(kind@), now_ns),
    {
        if kind.len() != 1 {
            return ;
        }
        let c = kind[0];
        assert(kind@ =~= seq![c]);
        proof {
            lemma_single_bytes_differ(c, 48);
            lemma_single_bytes_differ(c, 65);
            lemma_single_bytes_differ(c, 53);
            lemma_single_bytes_differ(c, 50);
        }
        if c == 48 {
            self.stats.heartbeats_received = self.stats.heartbeats_received.wrapping_add(1);
            self.last_heartbeat_ns = now_ns;
        } else if c == 65 {
            self.stats.logons_received = self.stats.logons_received.wrapping_add(1);
            self.state = SessionState::LoggedOn;
        } else if c == 53 {
            self.state = SessionState::Disconnected;
        } else if c == 50 {
            self.state = SessionState::LoggedOn;
            self.pending_resend = false;
        }
    }

    /// Takes a received sequence number where it is the expected one.
    pub fn validate_sequence(&mut self, received_seq: u64) -> (r: Result<bool, FixError>)
        ensures
            r == Ok::<bool, FixError>(received_seq == old(self).incoming_seq_num),
            *final(self) == if received_seq == old(self).incoming_seq_num {
                old(self).advanced()
            } else {
                *old(self)
            },
    {
        if received_seq != self.incoming_seq_num {
            return Ok(false);
        }
        self.incoming_seq_num = self.incoming_seq_num.wrapping_add(1);
        self.last_received_seq = received_seq;
        Ok(true)
    }

    /// Requests the messages that are missing before `expected_seq`, if there are any.
    pub fn request_resend(&mut self, expected_seq: u64) -> (r: Result<(), FixError>)
        ensures
            r == Ok::<(), FixError>(()),
            *final(self) == old(self).gap_noted(expected_seq),
    {
        let last_received: u64 = self.last_received_seq;
        if expected_seq > last_received && expected_seq - last_received > 1 {
            self.stats.sequence_gaps = self.stats.sequence_gaps.wrapping_add(1);
            self.pending_resend = true;
            self.resend_begin_seq = last_received + 1;
            self.resend_end_seq = expected_seq - 1;
            self.state = SessionState::ResendRequested;
            self.stats.resend_requests_sent = self.stats.resend_requests_sent.wrapping_add(1);
        }
        Ok(())
    }

    /// The text of a message with the given fields.
    pub open spec fn message_text(fields: Seq<(u32, Seq<u8>)>) -> Seq<u8> {
        crate::fix::codec::fields_text(without_body_length(fields))
    }

    /// Sends a logon message.
    pub fn send_logon(&mut self, buffer: &mut [u8]) -> (r: Result<usize, FixError>)
        ensures
            is_sent(
                Self::message_text(old(self).logon_fields()),
                old(buffer)@,
                final(buffer)@,
                r,
            ),
            *final(self) == ({
                let s = old(self).with_next_seq();
                FixSession {
                    state: SessionState::AwaitingLogon,
                    stats: SessionStats {
                        logons_sent: s.stats.logons_sent.wrapping_add(1),
                        ..s.stats
                    },
                    ..s
                }
            }).after_sending(r),
    {
        let mut fields = self.open_message(65);
        let mut method: Vec<u8> = Vec::new();
        method.push(self.config.encrypt_method);
        assert(method@ =~= seq![self.config.encrypt_method]);
        fields.push((98, method));
        fields.push((108, decimal_digits(self.config.heartbeat_interval_sec as u64)));
        if self.config.reset_on_logon {
            let mut flag: Vec<u8> = Vec::new();
            flag.push(89);
            assert(flag@ =~= seq![89u8]);
            fields.push((141, flag));
        }
        assert(owned_fields(fields@) =~= old(self).logon_fields());
        self.stats.logons_sent = self.stats.logons_sent.wrapping_add(1);
        self.state = SessionState::AwaitingLogon;
        self.encode_message(&fields, buffer)
    }

    /// Sends a logout message, with a reason if there is one.
    pub fn send_logout(&mut self, buffer: &mut [u8], reason: Option<&str>) -> (r: Result<
        usize,
        FixError,
    >)
        ensures
            is_sent(
                Self::message_text(old(self).short_fields(53, tagged_text(58, reason))),
                old(buffer)@,
                final(buffer)@,
                r,
            ),
            *final(self) == (FixSession {
                state: SessionState::LoggingOff,
                ..old(self).with_next_seq()
            }).after_sending(r),
    {
        self.state = SessionState::LoggingOff;
        let mut fields = self.open_message(53);
        if let Some(text) = reason {
            fields.push((58, vstd::slice::slice_to_vec(text.as_bytes())));
        }
        assert(owned_fields(fields@) =~= old(self).short_fields(53, tagged_text(58, reason)));
        self.encode_message(&fields, buffer)
    }

    /// Sends a heartbeat at `now_ns`, with the identifier of the test request that it answers if
    /// there is one.
    pub fn send_heartbeat(
        &mut self,
        buffer: &mut [u8],
        test_req_id: Option<&str>,
        now_ns: u64,
    ) -> (r: Result<usize, FixError>)
        ensures
            is_sent(
                Self::message_text(old(self).short_fields(48, tagged_text(112, test_req_id))),
                old(buffer)@,
                final(buffer)@,
                r,
            ),
            *final(self) == ({
                let s = old(self).with_next_seq();
                FixSession {
                    last_heartbeat_ns: now_ns,
                    stats: SessionStats {
                        heartbeats_sent: s.stats.heartbeats_sent.wrapping_add(1),
                        ..s.stats
                    },
                    ..s
                }
            }).after_sending(r),
    {
        let mut fields = self.open_message(48);
        if let Some(id) = test_req_id {
            fields.push((112, vstd::slice::slice_to_vec(id.as_bytes())));
        }
        assert(owned_fields(fields@) =~= old(self).short_fields(48, tagged_text(112, test_req_id)));
        self.stats.heartbeats_sent = self.stats.heartbeats_sent.wrapping_add(1);
        self.last_heartbeat_ns = now_ns;
        self.encode_message(&fields, buffer)
    }

    /// Sends a test request.
    pub fn send_test_request(&mut self, buffer: &mut [u8], test_req_id: &str) -> (r: Result<
        usize,
        FixError,
    >)
        ensures
            is_sent(
                Self::message_text(old(self).short_fields(49, tagged_text(112, Some(test_req_id)))),
                old(buffer)@,
                final(buffer)@,
                r,
            ),
            *final(self) == ({
                let s = old(self).with_next_seq();
                FixSession {
                    stats: SessionStats {
                        test_requests_sent: s.stats.test_requests_sent.wrapping_add(1),
                        ..s.stats
                    },
                    ..s
                }
            }).after_sending(r),
    {
        let mut fields = self.open_message(49);
        fields.push((112, vstd::slice::slice_to_vec(test_req_id.as_bytes())));
        assert(owned_fields(fields@) =~= old(self).short_fields(
            49,
            tagged_text(112, Some(test_req_id)),
        ));
        self.stats.test_requests_sent = self.stats.test_requests_sent.wrapping_add(1);
        self.encode_message(&fields, buffer)
    }

    /// Takes the next outgoing sequence number and returns the fields that open a message.
    fn open_message(&mut self, kind: u8) -> (fields: Vec<(u32, Vec<u8>)>)
        ensures
            owned_fields(fields@) == old(self).header(kind),
            *final(self) == old(self).with_next_seq(),
    {
        let version: [u8; 7] = [70, 73, 88, 46, 52, 46, 52];
        let placeholder: [u8; 3] = [48, 48, 48];
        let kind_bytes: [u8; 1] = [kind];
        let time: [u8; 21] = [
            50, 48, 50, 52, 48, 49, 48, 49, 45, 49, 50, 58, 48, 48, 58, 48, 48, 46, 48, 48, 48,
        ];
        assert(version@ =~= fix_version());
        assert(placeholder@ =~= seq![48u8, 48u8, 48u8]);
        assert(kind_bytes@ =~= seq![kind]);
        assert(time@ =~= sending_time());
        let seq: u64 = self.outgoing_seq_num;
        self.outgoing_seq_num = seq.wrapping_add(1);
        let mut fields: Vec<(u32, Vec<u8>)> = Vec::new();
        fields.push((8, vstd::slice::slice_to_vec(&version)));
        fields.push((9, vstd::slice::slice_to_vec(&placeholder)));
        fields.push((35, vstd::slice::slice_to_vec(&kind_bytes)));
        fields.push((49, vstd::slice::slice_to_vec(&self.config.sender_comp_id)));
        fields.push((56, vstd::slice::slice_to_vec(&self.config.target_comp_id)));
        fields.push((34, decimal_digits(seq)));
        fields.push((52, vstd::slice::slice_to_vec(&time)));
        assert(owned_fields(fields@) =~= old(self).header(kind));
        fields
    }

    /// Writes the fields into a buffer, all but the body length.
    fn encode_message(&mut self, fields: &Vec<(u32, Vec<u8>)>, buffer: &mut [u8]) -> (r: Result<
        usize,
        FixError,
    >)
        ensures
            is_sent(
                Self::message_text(owned_fields(fields@)),
                old(buffer)@,
                final(buffer)@,
                r,
            ),
            *final(self) == old(self).after_sending(r),
    {
        let ghost all = owned_fields(fields@);
        let ghost text = Self::message_text(all);
        let room: usize = buffer.len();
        let mut pos: usize = 0;
        let mut i: usize = 0;
        proof {
            assert(all.take(0) =~= Seq::<(u32, Seq<u8>)>::empty());
            assert(buffer@ =~= Self::message_text(all.take(0)) + old(buffer)@.skip(0));
        }
        while i < fields.len()
            invariant
                i <= fields.len(),
                all == owned_fields(fields@),
                text == Self::message_text(all),
                room == old(buffer)@.len(),
                pos <= room,
                pos == Self::message_text(all.take(i as int)).len(),
                buffer@ == Self::message_text(all.take(i as int)) + old(buffer)@.skip(pos as int),
                *self == *old(self),
            decreases fields.len() - i,
        {
            let ghost done = Self::message_text(all.take(i as int));
            let ghost before = old(buffer)@;
            proof {
                assert(all.take(i + 1).drop_last() =~= all.take(i as int));
                assert(all.take(i + 1).last() == all[i as int]);
            }
            if fields[i].0 != 9 {
                let tag = decimal_digits(fields[i].0 as u64);
                let mut one: Vec<u8> = tag;
                one.push(61);
                let mut j: usize = 0;
                let value: &Vec<u8> = &fields[i].1;
                while j < value.len()
                    invariant
                        j <= value@.len(),
                        one@ =~= crate::bytes::decimal(all[i as int].0 as nat) + seq![61u8]
                            + value@.take(j as int),
                    decreases value.len() - j,
                {
                    one.push(value[j]);
                    j = j + 1;
                }
                one.push(1);
                let ghost written = crate::fix::codec::field_text(all[i as int].0, all[i as int].1);
                assert(one@ =~= written);
                proof {
                    let kept = without_body_length(all.take(i as int));
                    assert(kept.push(all[i as int]).drop_last() =~= kept);
                    assert(Self::message_text(all.take(i + 1)) == done + written);
                }
                if one.len() > room - pos {
                    let part = vstd::slice::slice_subrange(one.as_slice(), 0, room - pos);
                    crate::bytes::write_at(buffer, pos, part);
                    proof {
                        lemma_text_prefix(all, i + 1);
                        assert(buffer@ =~= text.take(room as int));
                    }
                    return Err(FixError::BufferTooSmall);
                }
                crate::bytes::write_at(buffer, pos, one.as_slice());
                proof {
                    assert((done + before.skip(pos as int)).take(pos as int) =~= done);
                    assert(buffer@ =~= done + written + before.skip(pos + written.len()));
                }
                pos = pos + one.len();
            }
            i = i + 1;
        }
        assert(all.take(i as int) =~= all);
        self.stats.messages_sent = self.stats.messages_sent.wrapping_add(1);
        Ok(pos)
    }

    /// True where nothing has arrived for longer than the timeout.
    pub fn check_heartbeat_timeout(&self, now_ns: u64) -> (r: bool)
        ensures
            r == (self.last_activity_ns > 0 && now_ns - self.last_activity_ns
                > self.heartbeat_timeout_ns),
    {
        self.last_activity_ns > 0 && now_ns.saturating_sub(self.last_activity_ns)
            > self.heartbeat_timeout_ns
    }

    /// The statistics.
    pub fn get_stats(&self) -> (s: SessionStats)
        ensures
            s == (SessionStats { last_heartbeat_ns: self.last_heartbeat_ns, ..self.stats }),
    {
        SessionStats {
            messages_sent: self.stats.messages_sent,
            messages_received: self.stats.messages_received,
            logons_sent: self.stats.logons_sent,
            logons_received: self.stats.logons_received,
            heartbeats_sent: self.stats.heartbeats_sent,
            heartbeats_received: self.stats.heartbeats_received,
            resend_requests_sent: self.stats.resend_requests_sent,
            sequence_gaps: self.stats.sequence_gaps,
            test_requests_sent: self.stats.test_requests_sent,
            last_message_ns: self.stats.last_message_ns,
            last_heartbeat_ns: self.last_heartbeat_ns,
        }
    }
}

/// Strings of one byte are equal where the bytes are.
proof fn lemma_single_bytes_differ(a: u8, b: u8)
    ensures
        seq![a] == seq![b] <==> a == b,
{
    assert(seq![a][0] == a);
    assert(seq![b][0] == b);
}

/// Sequence numbers are requested again exactly where they are missing: behind the last one
/// received and before the one that showed the gap.
pub proof fn law_resend_covers_the_gap(s: FixSession, seq: u64, n: u64)
    requires
        seq > s.last_received_seq + 1,
    ensures
        s.gap_noted(seq).pending_resend,
        s.gap_noted(seq).resend_begin_seq <= n <= s.gap_noted(seq).resend_end_seq
            <==> s.last_received_seq < n < seq,
{
}

/// A message in order neither opens nor closes a resend request, and the next expected number is
/// one higher.
pub proof fn law_message_in_order(s: FixSession)
    ensures
        ({
            let t = s.sequenced(s.incoming_seq_num);
            &&& t.last_received_seq == s.incoming_seq_num
            &&& t.incoming_seq_num == s.incoming_seq_num.wrapping_add(1)
            &&& t.state == s.state
            &&& t.pending_resend == s.pending_resend
        }),
{
}

/// A string of digits is free of SOH.
proof fn lemma_decimal_readable(tag: u32, n: nat)
    requires
        tag != 9,
        tag != 10,
    ensures
        crate::fix::codec::readable(tag, crate::bytes::decimal(n)),
{
    crate::bytes::lemma_decimal_roundtrip(n);
    let d = crate::bytes::decimal(n);
    assert forall|i: int| 0 <= i < d.len() implies d[i] != crate::fix::codec::SOH by {
        assert(crate::bytes::is_digit(d[i]));
    }
}

/// True where no CompID of a session holds the field delimiter.
pub open spec fn clean_ids(config: SessionConfig) -> bool {
    &&& forall|i: int|
        0 <= i < 32 ==> #[trigger] config.sender_comp_id@[i] != crate::fix::codec::SOH
    &&& forall|i: int|
        0 <= i < 32 ==> #[trigger] config.target_comp_id@[i] != crate::fix::codec::SOH
}

/// The fields of a header without the body length, all of them readable.
proof fn lemma_header_readable(s: FixSession, kind: u8)
    requires
        clean_ids(s.config),
        kind != crate::fix::codec::SOH,
    ensures
        without_body_length(s.header(kind)) == s.header(kind).remove(1),
        forall|i: int|
            0 <= i < 6 ==> crate::fix::codec::readable(
                (#[trigger] s.header(kind).remove(1)[i]).0,
                s.header(kind).remove(1)[i].1,
            ),
{
    let h = s.header(kind);
    reveal_with_fuel(without_body_length, 8);
    assert(h.drop_last() =~= h.take(6));
    assert(h.take(6).drop_last() =~= h.take(5));
    assert(h.take(5).drop_last() =~= h.take(4));
    assert(h.take(4).drop_last() =~= h.take(3));
    assert(h.take(3).drop_last() =~= h.take(2));
    assert(h.take(2).drop_last() =~= h.take(1));
    assert(h.take(1).drop_last() =~= Seq::<(u32, Seq<u8>)>::empty());
    assert(without_body_length(h) =~= h.remove(1));
    lemma_decimal_readable(34, s.outgoing_seq_num as nat);
}

/// A logon message decodes to the fields that it was built of.
pub proof fn law_logon_decodes(s: FixSession)
    requires
        clean_ids(s.config),
        s.config.encrypt_method != crate::fix::codec::SOH,
    ensures
        ({
            let sent = without_body_length(s.logon_fields());
            let text = FixSession::message_text(s.logon_fields());
            &&& crate::fix::codec::message_fields(text) == Ok::<
                Seq<crate::fix::codec::FieldSpan>,
                FixError,
            >(crate::fix::codec::spans_of(sent))
            &&& forall|i: int|
                0 <= i < sent.len() ==> {
                    &&& (#[trigger] crate::fix::codec::spans_of(sent)[i]).tag == sent[i].0
                    &&& crate::fix::codec::spans_of(sent)[i].value(text) == sent[i].1
                }
        }),
{
    lemma_header_readable(s, 65);
    let h = s.header(65);
    let one = h.push((98u32, seq![s.config.encrypt_method]));
    let two = one.push(
        (108u32, crate::bytes::decimal(s.config.heartbeat_interval_sec as nat)),
    );
    let all = s.logon_fields();
    assert(one.drop_last() =~= h);
    assert(two.drop_last() =~= one);
    assert(two.push((141u32, seq![89u8])).drop_last() =~= two);
    assert(without_body_length(one) == without_body_length(h).push(one.last()));
    assert(without_body_length(two) == without_body_length(one).push(two.last()));
    if s.config.reset_on_logon {
        assert(without_body_length(all) == without_body_length(two).push(all.last()));
    }
    lemma_decimal_readable(108, s.config.heartbeat_interval_sec as nat);
    let sent = without_body_length(all);
    assert forall|i: int| 0 <= i < sent.len() implies crate::fix::codec::readable(
        (#[trigger] sent[i]).0,
        sent[i].1,
    ) by {
        if i < 6 {
            assert(sent[i] == h.remove(1)[i]);
        }
    }
    crate::fix::codec::law_decode_fields_text(sent);
}

/// Any other message of a session decodes to the fields that it was built of.
pub proof fn law_session_message_decodes(s: FixSession, kind: u8, extra: Option<(u32, Seq<u8>)>)
    requires
        clean_ids(s.config),
        kind != crate::fix::codec::SOH,
        extra matches Some(field) ==> field.0 != 9 && crate::fix::codec::readable(field.0, field.1),
    ensures
        ({
            let sent = without_body_length(s.short_fields(kind, extra));
            let text = FixSession::message_text(s.short_fields(kind, extra));
            &&& crate::fix::codec::message_fields(text) == Ok::<
                Seq<crate::fix::codec::FieldSpan>,
                FixError,
            >(crate::fix::codec::spans_of(sent))
            &&& forall|i: int|
                0 <= i < sent.len() ==> {
                    &&& (#[trigger] crate::fix::codec::spans_of(sent)[i]).tag == sent[i].0
                    &&& crate::fix::codec::spans_of(sent)[i].value(text) == sent[i].1
                }
        }),
{
    lemma_header_readable(s, kind);
    let h = s.header(kind);
    let all = s.short_fields(kind, extra);
    if extra is Some {
        assert(all.drop_last() =~= h);
    }
    let sent = without_body_length(all);
    assert forall|i: int| 0 <= i < sent.len() implies crate::fix::codec::readable(
        (#[trigger] sent[i]).0,
        sent[i].1,
    ) by {
        if i < 6 {
            assert(sent[i] == h.remove(1)[i]);
        }
    }
    crate::fix::codec::law_decode_fields_text(sent);
}

/// Incoming messages act by their type: "0" is a heartbeat, "A" logs on, "5" disconnects and "2"
/// ends a pending resend; no other type changes anything.
pub proof fn law_message_types_act(s: FixSession, kind: u8, now_ns: u64)
    ensures
        ({
            let after = s.handled(Some(seq![kind]), now_ns);
            &&& kind == 0x30 ==> after.last_heartbeat_ns == now_ns && after.state == s.state
                && after.stats.heartbeats_received == s.stats.heartbeats_received.wrapping_add(1)
            &&& kind == 0x41 ==> after.state == SessionState::LoggedOn
                && after.stats.logons_received == s.stats.logons_received.wrapping_add(1)
            &&& kind == 0x35 ==> after.state == SessionState::Disconnected
            &&& kind == 0x32 ==> after.state == SessionState::LoggedOn && !after.pending_resend
            &&& kind != 0x30 && kind != 0x41 && kind != 0x35 && kind != 0x32 ==> after == s
            &&& kind != 0x30 ==> after.last_heartbeat_ns == s.last_heartbeat_ns
                && after.stats.heartbeats_received == s.stats.heartbeats_received
            &&& kind != 0x41 ==> after.stats.logons_received == s.stats.logons_received
            &&& kind != 0x32 ==> after.pending_resend == s.pending_resend
            &&& after.incoming_seq_num == s.incoming_seq_num
            &&& after.outgoing_seq_num == s.outgoing_seq_num
            &&& after.last_received_seq == s.last_received_seq
        }),
        s.handled(None, now_ns) == s,
{
    lemma_single_bytes_differ(kind, 48);
    lemma_single_bytes_differ(kind, 65);
    lemma_single_bytes_differ(kind, 53);
    lemma_single_bytes_differ(kind, 50);
}

/// The expected number moves on by one with the message that carries it and with no other; a
/// message beyond the next number asks for those in between, and an old one changes nothing.
pub proof fn law_sequence_moves_on_message_by_message(s: FixSession, seq: u64)
    requires
        s.incoming_seq_num == s.last_received_seq + 1,
        s.incoming_seq_num < u64::MAX,
    ensures
        ({
            let after = s.sequenced(seq);
            &&& seq == s.incoming_seq_num ==> after.incoming_seq_num == seq + 1
                && after.last_received_seq == seq && after.state == s.state
                && after.pending_resend == s.pending_resend
            &&& seq != s.incoming_seq_num ==> after.incoming_seq_num == s.incoming_seq_num
                && after.last_received_seq == s.last_received_seq
            &&& seq > s.incoming_seq_num ==> after.state == SessionState::ResendRequested
                && after.pending_resend && after.resend_begin_seq == s.incoming_seq_num
                && after.resend_end_seq + 1 == seq
            &&& seq < s.incoming_seq_num ==> after == s
            &&& after.incoming_seq_num == after.last_received_seq + 1
            &&& after.outgoing_seq_num == s.outgoing_seq_num
        }),
{
}

/// A message that comes in is counted and noted with its time.
pub proof fn law_messages_are_noted(s: FixSession, now_ns: u64)
    ensures
        s.noted(now_ns).last_activity_ns == now_ns,
        s.noted(now_ns).stats.last_message_ns == now_ns,
        s.noted(now_ns).stats.messages_received == s.stats.messages_received.wrapping_add(1),
        s.noted(now_ns).state == s.state,
        s.noted(now_ns).incoming_seq_num == s.incoming_seq_num,
{
}

/// Every message opens with the version, its type, both parties, its number and its time; numbers
/// go up by one.
pub proof fn law_messages_open_with_their_header(s: FixSession, kind: u8)
    ensures
        ({
            let h = s.header(kind);
            &&& h.len() == 7
            &&& h[0].0 == 8 && h[0].1 == seq![0x46u8, 0x49u8, 0x58u8, 0x2eu8, 0x34u8, 0x2eu8, 0x34u8]
            &&& h[1].0 == 9
            &&& h[2].0 == 35 && h[2].1 == seq![kind]
            &&& h[3].0 == 49 && h[3].1 == s.config.sender_comp_id@
            &&& h[4].0 == 56 && h[4].1 == s.config.target_comp_id@
            &&& h[5].0 == 34 && crate::bytes::decimal_value(h[5].1) == s.outgoing_seq_num
            &&& h[6].0 == 52
            &&& s.outgoing_seq_num < u64::MAX ==> s.with_next_seq().outgoing_seq_num
                == s.outgoing_seq_num + 1
        }),
{
    crate::bytes::lemma_decimal_roundtrip(s.outgoing_seq_num as nat);
}

/// A logon is of type "A" and carries the encryption, the heartbeat interval in decimal and, where
/// numbers are to start anew, the flag "Y".
pub proof fn law_logon_carries_its_settings(s: FixSession)
    ensures
        ({
            let f = s.logon_fields();
            &&& f.take(7) == s.header(0x41)
            &&& f[7] == (98u32, seq![s.config.encrypt_method])
            &&& f[8].0 == 108 && crate::bytes::decimal_value(f[8].1)
                == s.config.heartbeat_interval_sec
            &&& s.config.reset_on_logon ==> f.len() == 10 && f[9] == (141u32, seq![0x59u8])
            &&& !s.config.reset_on_logon ==> f.len() == 9
        }),
{
    crate::bytes::lemma_decimal_roundtrip(s.config.heartbeat_interval_sec as nat);
    assert(s.logon_fields().take(7) =~= s.header(0x41));
}

/// A message that is sent leaves out the body length and nothing else.
pub proof fn law_body_length_is_left_out(fields: Seq<(u32, Seq<u8>)>)
    ensures
        without_body_length(fields) == fields.filter(|f: (u32, Seq<u8>)| f.0 != 9),
    decreases fields.len(),
{
    reveal(Seq::filter);
    if fields.len() > 0 {
        law_body_length_is_left_out(fields.drop_last());
    }
}

/// A stopped session has ended and, where it is set so, starts its numbers anew from one.
pub proof fn law_stopped_session_has_ended(s: FixSession)
    ensures
        s.stopped().state == SessionState::Terminated,
        !s.stopped().is_running,
        s.config.reset_on_disconnect ==> s.stopped().outgoing_seq_num == 1
            && s.stopped().incoming_seq_num == 1 && s.stopped().last_received_seq == 0,
        !s.config.reset_on_disconnect ==> s.stopped().outgoing_seq_num == s.outgoing_seq_num
            && s.stopped().incoming_seq_num == s.incoming_seq_num
            && s.stopped().last_received_seq == s.last_received_seq,
{
}

/// A session in which nothing has happened has counted nothing.
pub proof fn law_fresh_statistics_count_nothing()
    ensures
        SessionStats::zero().messages_sent == 0 && SessionStats::zero().messages_received == 0,
        SessionStats::zero().logons_sent == 0 && SessionStats::zero().logons_received == 0,
        SessionStats::zero().heartbeats_sent == 0 && SessionStats::zero().heartbeats_received == 0,
        SessionStats::zero().resend_requests_sent == 0 && SessionStats::zero().sequence_gaps == 0,
        SessionStats::zero().test_requests_sent == 0,
        SessionStats::zero().last_message_ns == 0 && SessionStats::zero().last_heartbeat_ns == 0,
{
}

/// A message is sent where it fits: it then stands at the start of the buffer, whose rest is as it
/// was, and its length is told. One that does not fit is refused.
pub proof fn law_sent_messages_stand_at_the_start(
    text: Seq<u8>,
    before: Seq<u8>,
    after: Seq<u8>,
    r: Result<usize, FixError>,
    i: int,
)
    requires
        is_sent(text, before, after, r),
        before.len() <= usize::MAX,
        0 <= i < before.len(),
    ensures
        after.len() == before.len(),
        r is Ok <==> text.len() <= before.len(),
        r is Ok ==> r->Ok_0 == text.len(),
        r is Err ==> r->Err_0 == FixError::BufferTooSmall,
        i < text.len() ==> after[i] == text[i],
        r is Ok && i >= text.len() ==> after[i] == before[i],
{
}

/// A reset starts both counts of messages at one again; a message that was sent is counted, one that
/// was refused is not.
pub proof fn law_sequence_starts_at_one(s: FixSession, r: Result<usize, FixError>)
    requires
        s.stats.messages_sent < u64::MAX,
    ensures
        s.with_reset_sequence().outgoing_seq_num == 1,
        s.with_reset_sequence().incoming_seq_num == 1,
        s.with_reset_sequence().last_received_seq == 0,
        r is Ok ==> s.after_sending(r).stats.messages_sent == s.stats.messages_sent + 1,
        r is Err ==> s.after_sending(r) == s,
{
}

} // verus!
