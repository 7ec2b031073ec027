//! FIX 4.4 connectivity: the codec, the session layer, and the engine and router on top of them.
pub mod codec;
pub mod session;

use crate::fix::codec::{FixCodec, FixError, FixMessage};
use crate::fix::session::{FixSession, SessionConfig};
use std::sync::Arc;
use vstd::prelude::*;

verus! {

/// FIX engine: a codec and at most one session.
pub struct FixEngine {
    /// Codec for message encoding/decoding
    pub codec: FixCodec,
    /// Active session
    pub session: Option<FixSession>,
    /// Engine is running
    pub is_running: bool,
    /// Messages processed count
    pub messages_processed: u64,
    /// Encoding errors count
    pub encode_errors: u64,
    /// Decoding errors count
    pub decode_errors: u64,
}

/// FIX engine statistics.
#[derive(Debug, Clone, Copy)]
pub struct FixEngineStats {
    pub messages_processed: u64,
    pub encode_errors: u64,
    pub decode_errors: u64,
    pub is_running: bool,
    pub session_active: bool,
}

impl FixEngine {
    pub fn new() -> (e: Self)
        ensures
            e.codec.messages_encoded == 0,
            e.codec.messages_decoded == 0,
            e.codec.parse_errors == 0,
            e.session is None,
            !e.is_running,
            e.messages_processed == 0,
            e.encode_errors == 0,
            e.decode_errors == 0,
    {
        Self {
            codec: FixCodec::new(),
            session: None,
            is_running: false,
            messages_processed: 0,
            encode_errors: 0,
            decode_errors: 0,
        }
    }

    /// Creates a session and makes it the active one.
    pub fn create_session(&mut self, config: SessionConfig) -> (r: Result<
        &mut FixSession,
        FixError,
    >)
        ensures
            r matches Ok(s) && {
                &&& s.config == config
                &&& s.state is Disconnected
                &&& s.outgoing_seq_num == 1
                &&& s.incoming_seq_num == 1
                &&& s.last_received_seq == 0
                &&& !s.is_running
                &&& s.last_activity_ns == 0
                &&& s.last_heartbeat_ns == 0
                &&& s.heartbeat_timeout_ns == config.heartbeat_interval_sec * 2_000_000_000
                &&& s.stats == crate::fix::session::SessionStats::zero()
                &&& !s.pending_resend
                &&& s.resend_begin_seq == 0
                &&& s.resend_end_seq == 0
                &&& *final(self) == (FixEngine { session: Some(*final(s)), ..*old(self) })
            },
    {
        let session = FixSession::new(config, Arc::new(FixCodec::new()))?;
        self.session = Some(session);
        match &mut self.session {
            Some(s) => Ok(s),
            None => Err(FixError::SessionNotActive),
        }
    }

    /// The active session.
    pub fn get_session(&self) -> (r: Option<&FixSession>)
        ensures
            match r {
                Some(s) => self.session == Some(*s),
                None => self.session is None,
            },
    {
        self.session.as_ref()
    }

    /// Encodes a message while the engine is running.
    pub fn encode(&mut self, msg: &FixMessage, buffer: &mut [u8]) -> (r: Result<usize, FixError>)
        requires
            msg.wf(),
        ensures
            ({
                let fs = msg@;
                let text = crate::fix::codec::encoded(crate::fix::codec::tagged(fs));
                let room = old(buffer)@.len() as int;
                if !old(self).is_running {
                    &&& r == Err::<usize, FixError>(FixError::SessionNotActive)
                    &&& *final(self) == *old(self)
                    &&& final(buffer)@ == old(buffer)@
                } else if crate::fix::codec::all_fit(fs, room) {
                    &&& r == Ok::<usize, FixError>(text.len() as usize)
                    &&& final(buffer)@ == text + old(buffer)@.skip(text.len() as int)
                    &&& *final(self) == (FixEngine {
                        codec: old(self).codec.with_encoded(),
                        messages_processed: old(self).messages_processed.wrapping_add(1),
                        ..*old(self)
                    })
                } else {
                    &&& r == Err::<usize, FixError>(FixError::BufferTooSmall)
                    &&& *final(self) == (FixEngine {
                        codec: old(self).codec.with_error(),
                        encode_errors: old(self).encode_errors.wrapping_add(1),
                        ..*old(self)
                    })
                    &&& exists|k: int| #[trigger]
                        crate::fix::codec::stops_after(fs, room, k) && final(buffer)@
                            == crate::fix::codec::written(fs, k) + old(buffer)@.skip(
                            crate::fix::codec::written(fs, k).len() as int,
                        )
                }
            }),
    {
        if !self.is_running {
            return Err(FixError::SessionNotActive);
        }
        match self.codec.encode(msg, buffer) {
            Ok(len) => {
                self.messages_processed = self.messages_processed.wrapping_add(1);
                Ok(len)
            },
            Err(e) => {
                self.encode_errors = self.encode_errors.wrapping_add(1);
                Err(e)
            },
        }
    }

    /// Decodes a message while the engine is running.
    pub fn decode<'a>(&mut self, buffer: &'a [u8]) -> (r: Result<FixMessage<'a>, FixError>)
        ensures
            if !old(self).is_running {
                r == Err::<FixMessage<'a>, FixError>(FixError::SessionNotActive) && *final(self)
                    == *old(self)
            } else {
                match crate::fix::codec::message_fields(buffer@) {
                    Ok(spans) => {
                        &&& r matches Ok(m) && m.wf() && m.is_decoded(buffer@, spans)
                        &&& *final(self) == (FixEngine {
                            codec: old(self).codec.with_decoded(),
                            messages_processed: old(self).messages_processed.wrapping_add(1),
                            ..*old(self)
                        })
                    },
                    Err(e) => {
                        &&& r == Err::<FixMessage<'a>, FixError>(e)
                        &&& *final(self) == (FixEngine {
                            codec: old(self).codec.with_error(),
                            decode_errors: old(self).decode_errors.wrapping_add(1),
                            ..*old(self)
                        })
                    },
                }
            },
    {
        if !self.is_running {
            return Err(FixError::SessionNotActive);
        }
        match self.codec.decode(buffer) {
            Ok(msg) => {
                self.messages_processed = self.messages_processed.wrapping_add(1);
                Ok(msg)
            },
            Err(e) => {
                self.decode_errors = self.decode_errors.wrapping_add(1);
                Err(e)
            },
        }
    }

    /// Starts the engine, and its session if there is one, at `now_ns`.
    pub fn start(&mut self, now_ns: u64)
        ensures
            *final(self) == (FixEngine {
                is_running: true,
                session: match old(self).session {
                    Some(s) => Some(
                        FixSession {
                            state: crate::fix::session::SessionState::Connecting,
                            is_running: true,
                            last_activity_ns: now_ns,
                            ..s
                        },
                    ),
                    None => None,
                },
                ..*old(self)
            }),
    {
        self.is_running = true;
        if let Some(session) = &mut self.session {
            session.start(now_ns);
        }
    }

    /// Stops the engine, and its session if there is one.
    pub fn stop(&mut self)
        ensures
            *final(self) == (FixEngine {
                is_running: false,
                session: match old(self).session {
                    Some(s) => Some(s.stopped()),
                    None => None,
                },
                ..*old(self)
            }),
    {
        self.is_running = false;
        if let Some(session) = &mut self.session {
            session.stop();
        }
    }

    /// True while the engine is running.
    pub fn is_running(&self) -> (r: bool)
        ensures
            r == self.is_running,
    {
        self.is_running
    }

    /// The statistics.
    pub fn get_stats(&self) -> (s: FixEngineStats)
        ensures
            s.messages_processed == self.messages_processed,
            s.encode_errors == self.encode_errors,
            s.decode_errors == self.decode_errors,
            s.is_running == self.is_running,
            s.session_active == (self.session matches Some(x) && x.state is LoggedOn),
    {
        let session_active = match &self.session {
            Some(s) => s.is_logged_on(),
            None => false,
        };
        FixEngineStats {
            messages_processed: self.messages_processed,
            encode_errors: self.encode_errors,
            decode_errors: self.decode_errors,
            is_running: self.is_running,
            session_active,
        }
    }
}

impl Default for FixEngine {
    fn default() -> (e: Self)
        ensures
            e.codec.messages_encoded == 0,
            e.codec.messages_decoded == 0,
            e.codec.parse_errors == 0,
            e.session is None,
            !e.is_running,
            e.messages_processed == 0,
            e.encode_errors == 0,
            e.decode_errors == 0,
    {
        Self::new()
    }
}

/// Routes orders through a FIX engine.
pub struct FixRouter {
    /// FIX engine
    pub engine: FixEngine,
    /// Orders routed via FIX
    pub orders_routed: u64,
    /// Orders rejected by venue
    pub orders_rejected: u64,
    /// Fills recorded
    pub fills_recorded: u64,
    /// Average fill latency in nanoseconds
    pub avg_fill_latency_ns: u64,
    /// Total fill latency for averaging
    pub total_fill_latency_ns: u64,
}

/// FIX router statistics. The fill rate is `orders_filled` out of `orders_routed`.
#[derive(Debug, Clone, Copy)]
pub struct FixRouterStats {
    pub orders_routed: u64,
    pub orders_rejected: u64,
    pub avg_fill_latency_ns: u64,
    pub orders_filled: u64,
}

impl FixRouter {
    pub fn new(engine: FixEngine) -> (r: Self)
        ensures
            r == (FixRouter {
                engine,
                orders_routed: 0,
                orders_rejected: 0,
                fills_recorded: 0,
                avg_fill_latency_ns: 0,
                total_fill_latency_ns: 0,
            }),
    {
        Self {
            engine,
            orders_routed: 0,
            orders_rejected: 0,
            fills_recorded: 0,
            avg_fill_latency_ns: 0,
            total_fill_latency_ns: 0,
        }
    }

    /// Encodes an order into a buffer of the maximum message size and counts it as routed.
    pub fn route_order(&mut self, order_msg: &FixMessage) -> (r: Result<(), FixError>)
        requires
            order_msg.wf(),
        ensures
            if !old(self).engine.is_running {
                r == Err::<(), FixError>(FixError::SessionNotActive) && *final(self) == *old(self)
            } else if crate::fix::codec::all_fit(order_msg@, codec::MAX_FIX_MESSAGE_SIZE as int) {
                &&& r == Ok::<(), FixError>(())
                &&& *final(self) == (FixRouter {
                    orders_routed: old(self).orders_routed.wrapping_add(1),
                    engine: FixEngine {
                        codec: old(self).engine.codec.with_encoded(),
                        messages_processed: old(self).engine.messages_processed.wrapping_add(1),
                        ..old(self).engine
                    },
                    ..*old(self)
                })
            } else {
                &&& r == Err::<(), FixError>(FixError::BufferTooSmall)
                &&& *final(self) == (FixRouter {
                    engine: FixEngine {
                        codec: old(self).engine.codec.with_error(),
                        encode_errors: old(self).engine.encode_errors.wrapping_add(1),
                        ..old(self).engine
                    },
                    ..*old(self)
                })
            },
    {
        if !self.engine.is_running() {
            return Err(FixError::SessionNotActive);
        }
        let mut buffer: [u8; 4096] = [0u8;4096];
        match self.engine.encode(order_msg, &mut buffer) {
            Ok(_) => {},
            Err(e) => return Err(e),
        }
        self.orders_routed = self.orders_routed.wrapping_add(1);
        Ok(())
    }

    /// Records a fill and its latency. The average is the total latency over the fills recorded.
    pub fn record_fill(&mut self, latency_ns: u64)
        ensures
            ({
                let total = old(self).total_fill_latency_ns.wrapping_add(latency_ns);
                let fills = if old(self).fills_recorded == u64::MAX {
                    u64::MAX
                } else {
                    (old(self).fills_recorded + 1) as u64
                };
                *final(self) == (FixRouter {
                    total_fill_latency_ns: total,
                    fills_recorded: fills,
                    avg_fill_latency_ns: total / fills,
                    ..*old(self)
                })
            }),
    {
        let total: u64 = self.total_fill_latency_ns.wrapping_add(latency_ns);
        let fills: u64 = self.fills_recorded.saturating_add(1);
        self.total_fill_latency_ns = total;
        self.fills_recorded = fills;
        self.avg_fill_latency_ns = total / fills;
    }

    /// Records an order rejection.
    pub fn record_rejection(&mut self)
        ensures
            *final(self) == (FixRouter {
                orders_rejected: old(self).orders_rejected.wrapping_add(1),
                ..*old(self)
            }),
    {
        self.orders_rejected = self.orders_rejected.wrapping_add(1);
    }

    /// The statistics.
    pub fn get_stats(&self) -> (s: FixRouterStats)
        requires
            self.orders_routed > 0 ==> self.orders_rejected <= self.orders_routed,
        ensures
            s.orders_routed == self.orders_routed,
            s.orders_rejected == self.orders_rejected,
            s.avg_fill_latency_ns == self.avg_fill_latency_ns,
            s.orders_filled == if self.orders_routed > 0 {
                self.orders_routed - self.orders_rejected
            } else {
                0
            },
    {
        FixRouterStats {
            orders_routed: self.orders_routed,
            orders_rejected: self.orders_rejected,
            avg_fill_latency_ns: self.avg_fill_latency_ns,
            orders_filled: if self.orders_routed > 0 {
                self.orders_routed - self.orders_rejected
            } else {
                0
            },
        }
    }
}

} // verus!
