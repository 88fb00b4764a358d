//! Per-connection state: buffers, phase, readiness registration, deadline,
//! and the parser. The server loop performs I/O and feeds events in; this
//! module decides what happens next.
use vstd::prelude::*;
use crate::buffer::Buffer;
use crate::parser::{all_lines_ok, complete_bodiless, complete_head, head_headers, head_lines, ParseErrorKind, ParseState, RequestParser, HEADER_SLACK};
use crate::request::{chunked_of, content_length_of, Request};

verus! {

/// Seconds a connection may stay idle.
pub const CONNECTION_TIMEOUT_SECS: u64 = 30;

/// The connection's phase.
#[derive(Debug, Clone, Copy, PartialEq, Eq, Structural)]
pub enum ConnectionState {
    Reading,
    Writing,
    Closed,
}

/// What the connection is registered for with the readiness poller.
#[derive(Debug, Clone, Copy, PartialEq, Eq, Structural)]
pub enum Registration {
    Read,
    Write,
    Removed,
}

/// The registration each phase calls for.
pub open spec fn registration_for(s: ConnectionState) -> Registration {
    match s {
        ConnectionState::Reading => Registration::Read,
        ConnectionState::Writing => Registration::Write,
        ConnectionState::Closed => Registration::Removed,
    }
}

/// What to do with the poller after a step.
#[derive(Debug, Clone, Copy, PartialEq, Eq, Structural)]
pub enum PollAction {
    /// Nothing changes.
    Keep,
    /// Stop watching for reads and watch for writes.
    SwitchToWrite,
    /// Stop watching for writes and watch for reads.
    SwitchToRead,
    /// Unregister everything and close the socket.
    Close,
}

/// The result of feeding received bytes.
#[derive(Debug)]
pub enum ReadOutcome {
    /// More bytes are needed.
    NeedMore,
    /// A whole request arrived.
    Request(Request),
    /// The body exceeded the cap: answer 413 and close.
    TooLarge,
    /// The peer closed or sent something unparsable: close.
    Close,
}

/// One client connection.
pub struct Connection {
    state: ConnectionState,
    registration: Registration,
    write_buffer: Buffer,
    keep_alive: bool,
    server_port: u16,
    deadline: u64,
    parser: RequestParser,
}

/// `now + secs`, saturating.
pub open spec fn deadline_after(now: u64, secs: u64) -> u64 {
    if now as nat + secs as nat > u64::MAX { u64::MAX } else { (now + secs) as u64 }
}

fn deadline_exec(now: u64, secs: u64) -> (r: u64)
    ensures
        r == deadline_after(now, secs),
{
    if now > u64::MAX - secs { u64::MAX } else { now + secs }
}

impl Connection {
    pub closed spec fn state_of(&self) -> ConnectionState {
        self.state
    }

    pub closed spec fn registered(&self) -> Registration {
        self.registration
    }

    /// Bytes of the response not yet written.
    pub closed spec fn pending(&self) -> Seq<u8> {
        self.write_buffer@
    }

    pub closed spec fn keeps_alive(&self) -> bool {
        self.keep_alive
    }

    pub closed spec fn deadline_of(&self) -> u64 {
        self.deadline
    }

    pub closed spec fn parser_of(&self) -> RequestParser {
        self.parser
    }

    /// The registration always matches the phase, the parser is sound, and a
    /// reading connection has nothing left to write.
    pub closed spec fn wf(&self) -> bool {
        &&& self.registration == registration_for(self.state)
        &&& self.parser.wf()
        &&& self.state == ConnectionState::Reading ==> self.write_buffer@.len() == 0
    }

    /// The registration is exactly the one the phase calls for.
    pub proof fn lemma_one_registration(&self)
        requires
            self.wf(),
        ensures
            self.registered() == registration_for(self.state_of()),
            self.state_of() == ConnectionState::Reading <==> self.registered() == Registration::Read,
            self.state_of() == ConnectionState::Writing <==> self.registered() == Registration::Write,
            self.state_of() == ConnectionState::Closed <==> self.registered() == Registration::Removed,
    {
    }

    /// A connection accepted on `port` at `now`, reading, with a fresh parser
    /// capped at `max_body_size`.
    pub fn with_port(port: u16, now: u64, max_body_size: usize) -> (r: Connection)
        requires
            max_body_size <= usize::MAX - HEADER_SLACK,
        ensures
            r.wf(),
            r.state_of() == ConnectionState::Reading,
            r.registered() == Registration::Read,
            r.deadline_of() == deadline_after(now, CONNECTION_TIMEOUT_SECS),
            r.parser_of().state_of() == ParseState::RequestLine,
            r.parser_of().buffered().len() == 0,
            r.parser_of().cap() == max_body_size,
            r.parser_of().is_fresh(),
            r.server_port_spec() == port,
            r.keeps_alive(),
    {
        Connection {
            state: ConnectionState::Reading,
            registration: Registration::Read,
            write_buffer: Buffer::new(),
            keep_alive: true,
            server_port: port,
            deadline: deadline_exec(now, CONNECTION_TIMEOUT_SECS),
            parser: RequestParser::with_max_body_size(max_body_size),
        }
    }

    pub closed spec fn server_port_spec(&self) -> u16 {
        self.server_port
    }

    pub fn server_port(&self) -> (r: u16)
        ensures
            r == self.server_port_spec(),
    {
        self.server_port
    }

    pub fn state(&self) -> (r: ConnectionState)
        ensures
            r == self.state_of(),
    {
        self.state
    }

    pub fn should_keep_alive(&self) -> (r: bool)
        ensures
            r == self.keeps_alive(),
    {
        self.keep_alive
    }

    /// The deadline has passed at `now`.
    pub fn is_timeout(&self, now: u64) -> (r: bool)
        ensures
            r == (now >= self.deadline_of()),
    {
        now >= self.deadline
    }

    /// The bytes still to be written.
    pub fn write_buffer(&self) -> (r: Vec<u8>)
        ensures
            r@ == self.pending(),
    {
        self.write_buffer.as_slice()
    }

    /// Feeds bytes read at `now`; no bytes means the peer closed.
    pub fn on_data(&mut self, data: &[u8], now: u64) -> (r: ReadOutcome)
        requires
            old(self).wf(),
            old(self).state_of() == ConnectionState::Reading,
        ensures
            final(self).wf(),
            match r {
                ReadOutcome::Close => final(self).state_of() == ConnectionState::Closed,
                _ => final(self).state_of() == ConnectionState::Reading,
            },
            data@.len() == 0 ==> r is Close,
            r is TooLarge ==> !final(self).keeps_alive(),
            !(r is Close) ==> final(self).deadline_of() == deadline_after(now, CONNECTION_TIMEOUT_SECS),
            old(self).parser_of().state_of() == ParseState::RequestLine && old(self).parser_of().buffered().len()
                == 0 && data@.len() <= old(self).parser_of().room() && complete_bodiless(data@) ==> (r matches ReadOutcome::Request(
                req,
            ) && req.headers@ == head_headers(data@)),
            old(self).parser_of().state_of() == ParseState::RequestLine && old(self).parser_of().buffered().len()
                == 0 && data@.len() > old(self).parser_of().room() ==> r is TooLarge,
            old(self).parser_of().state_of() == ParseState::RequestLine && old(self).parser_of().buffered().len()
                == 0 && complete_head(data@) && all_lines_ok(head_lines(data@)) && !chunked_of(head_headers(data@))
                && (content_length_of(head_headers(data@)) matches Some(n) && n > old(self).parser_of().cap())
                ==> r is TooLarge && !final(self).keeps_alive(),
    {
        if data.len() == 0 {
            assert(!complete_bodiless(data@) && !complete_head(data@)) by {
                reveal(crate::parser::has_crlf);
            }
            self.close();
            return ReadOutcome::Close;
        }
        self.deadline = deadline_exec(now, CONNECTION_TIMEOUT_SECS);
        match self.parser.add_data(data) {
            Ok(()) => {
                assert(Seq::<u8>::empty() + data@ =~= data@);
                proof {
                    if self.parser.state_of() == ParseState::RequestLine {
                        self.parser.lemma_head_of_buffer();
                    }
                }
            },
            Err(_) => {
                self.keep_alive = false;
                return ReadOutcome::TooLarge;
            },
        }
        match self.parser.parse() {
            Ok(Some(req)) => ReadOutcome::Request(req),
            Ok(None) => ReadOutcome::NeedMore,
            Err(ParseErrorKind::PayloadTooLarge) => {
                self.keep_alive = false;
                ReadOutcome::TooLarge
            },
            Err(_) => {
                self.close();
                ReadOutcome::Close
            },
        }
    }

    /// Queues a serialized response; the connection then waits to write.
    pub fn queue_response(&mut self, bytes: &[u8], keep_alive: bool) -> (r: PollAction)
        requires
            old(self).wf(),
            old(self).state_of() != ConnectionState::Closed,
        ensures
            final(self).wf(),
            final(self).state_of() == ConnectionState::Writing,
            final(self).registered() == Registration::Write,
            final(self).pending() == old(self).pending() + bytes@,
            final(self).keeps_alive() == (old(self).keeps_alive() && keep_alive),
            r == (if old(self).state_of() == ConnectionState::Reading {
                PollAction::SwitchToWrite
            } else {
                PollAction::Keep
            }),
    {
        let was_reading = match self.state {
            ConnectionState::Reading => true,
            _ => false,
        };
        self.write_buffer.extend(bytes);
        self.keep_alive = self.keep_alive && keep_alive;
        self.state = ConnectionState::Writing;
        self.registration = Registration::Write;
        if was_reading {
            PollAction::SwitchToWrite
        } else {
            PollAction::Keep
        }
    }

    /// Records that the first `n` pending bytes were written. Once everything
    /// is out, a kept-alive connection goes back to reading with a clean
    /// parser; any other closes.
    pub fn on_written(&mut self, n: usize) -> (r: PollAction)
        requires
            old(self).wf(),
            old(self).state_of() == ConnectionState::Writing,
        ensures
            final(self).wf(),
            ({
                let k = if n < old(self).pending().len() { n as int } else { old(self).pending().len() as int };
                let rest = old(self).pending().subrange(k, old(self).pending().len() as int);
                if rest.len() > 0 {
                    &&& r == PollAction::Keep
                    &&& final(self).state_of() == ConnectionState::Writing
                    &&& final(self).pending() == rest
                } else if old(self).keeps_alive() {
                    &&& r == PollAction::SwitchToRead
                    &&& final(self).state_of() == ConnectionState::Reading
                    &&& final(self).parser_of().state_of() == ParseState::RequestLine
                    &&& final(self).parser_of().buffered().len() == 0
                    &&& final(self).parser_of().gathered() == 0
                    &&& final(self).parser_of().cap() == old(self).parser_of().cap()
                    &&& final(self).parser_of().is_fresh()
                    &&& final(self).parser_of().pending_headers() is None
                    &&& final(self).parser_of().expected() is None
                    &&& final(self).pending().len() == 0
                } else {
                    &&& r == PollAction::Close
                    &&& final(self).state_of() == ConnectionState::Closed
                }
            }),
    {
        let _ = self.write_buffer.drain(n);
        if !self.write_buffer.is_empty() {
            return PollAction::Keep;
        }
        if self.keep_alive {
            self.parser.reset();
            self.state = ConnectionState::Reading;
            self.registration = Registration::Read;
            PollAction::SwitchToRead
        } else {
            self.close();
            PollAction::Close
        }
    }

    /// Closes the connection: nothing stays registered.
    pub fn close(&mut self)
        requires
            old(self).wf(),
        ensures
            final(self).wf(),
            final(self).state_of() == ConnectionState::Closed,
            final(self).registered() == Registration::Removed,
            final(self).keeps_alive() == old(self).keeps_alive(),
    {
        self.state = ConnectionState::Closed;
        self.registration = Registration::Removed;
    }

    pub fn set_keep_alive(&mut self, keep_alive: bool)
        requires
            old(self).wf(),
        ensures
            final(self).wf(),
            final(self).keeps_alive() == keep_alive,
            final(self).state_of() == old(self).state_of(),
            final(self).pending() == old(self).pending(),
    {
        self.keep_alive = keep_alive;
    }
}

} // verus!
