use vstd::prelude::*;
use vstd::utf8::encode_utf8;
use crate::record::{IngestBody, LineRecord};

verus! {

/// The default bound on the bytes of lines held before a flush.
pub const DEFAULT_BUFFER_MAX_BYTES: usize = 2 * 1024 * 1024;
/// The default period of the flush timer, in milliseconds.
pub const DEFAULT_FLUSH_INTERVAL_MS: u64 = 250;
/// The default time allowed to one request, in milliseconds.
pub const DEFAULT_TIMEOUT_MS: u64 = 10_000;

/// The size in bytes of a record's line, as UTF-8 (as `str::len` reports it).
pub open spec fn line_bytes(l: LineRecord) -> nat {
    (encode_utf8(l.line@).len() as usize) as nat
}

/// The size in bytes of all the lines of `s`.
pub open spec fn total_bytes(s: Seq<LineRecord>) -> nat
    decreases s.len(),
{
    if s.len() == 0 {
        0
    } else {
        total_bytes(s.drop_last()) + line_bytes(s.last())
    }
}

/// What reaches the client.
#[derive(Debug)]
pub enum ClientInput {
    /// A fresh line from the tailer.
    Line(LineRecord),
    /// A body that failed before and comes back from the spool.
    Retry(IngestBody),
    /// The flush timer fired.
    Tick,
}

/// How a request ended.
#[derive(Debug, Clone, Copy, PartialEq, Eq, Structural)]
pub enum SendOutcome {
    /// The service answered with this HTTP status.
    Status(u16),
    /// The request did not get an answer: a transport error or a timeout.
    Transport,
}

/// What becomes of a body after its request.
#[derive(Debug, Clone, Copy, PartialEq, Eq, Structural)]
pub enum Disposal {
    /// The service took it.
    Delivered,
    /// The service refused it; it is not tried again.
    Dropped,
    /// It goes to the retry spool.
    Retry,
}

/// The disposal of a body whose request ended with `o`: a 2xx status is
/// success, another status is final, and no answer means a retry.
pub open spec fn disposal_of(o: SendOutcome) -> Disposal {
    match o {
        SendOutcome::Status(s) => if 200 <= s <= 299 {
            Disposal::Delivered
        } else {
            Disposal::Dropped
        },
        SendOutcome::Transport => Disposal::Retry,
    }
}

/// The disposal of a body whose request ended with `o`.
pub fn disposal(o: SendOutcome) -> (r: Disposal)
    ensures
        r == disposal_of(o),
{
    match o {
        SendOutcome::Status(s) => if 200 <= s && s <= 299 {
            Disposal::Delivered
        } else {
            Disposal::Dropped
        },
        SendOutcome::Transport => Disposal::Retry,
    }
}

/// The client's pending lines and the body to send, if any, after `input`
/// reaches a client holding `pending` with bound `max`: a line is added and
/// everything is flushed once the lines reach `max` bytes; a retried body is
/// sent as it is, apart from the pending lines; the timer flushes whatever
/// is pending.
pub open spec fn step_of(pending: Seq<LineRecord>, max: usize, input: ClientInput) -> (
    Seq<LineRecord>,
    Option<Seq<LineRecord>>,
) {
    match input {
        ClientInput::Line(l) => {
            let b = pending.push(l);
            if total_bytes(b) >= max {
                (Seq::empty(), Some(b))
            } else {
                (b, None)
            }
        },
        ClientInput::Retry(body) => (pending, Some(body.view())),
        ClientInput::Tick => if pending.len() == 0 {
            (pending, None)
        } else {
            (Seq::empty(), Some(pending))
        },
    }
}

/// Gathers lines into bodies for the ingest service: by size, and on a timer.
/// The caller sends the bodies and reports how each request ended.
#[derive(Debug)]
pub struct Client {
    buffer: Vec<LineRecord>,
    buffer_bytes: usize,
    buffer_max_size: usize,
    timeout: u64,
}

proof fn lemma_total_push(s: Seq<LineRecord>, l: LineRecord)
    ensures
        total_bytes(s.push(l)) == total_bytes(s) + line_bytes(l),
{
    assert(s.push(l).drop_last() =~= s);
}

impl Client {
    /// The pending lines are counted right.
    pub closed spec fn wf(&self) -> bool {
        self.buffer_bytes == total_bytes(self.buffer@)
    }

    pub closed spec fn pending(&self) -> Seq<LineRecord> {
        self.buffer@
    }

    pub closed spec fn max_bytes(&self) -> usize {
        self.buffer_max_size
    }

    pub closed spec fn timeout_ms(&self) -> u64 {
        self.timeout
    }

    /// A client with nothing pending and the default bound and timeout.
    pub fn new() -> (r: Client)
        ensures
            r.wf(),
            r.pending() == Seq::<LineRecord>::empty(),
            r.max_bytes() == DEFAULT_BUFFER_MAX_BYTES,
            r.timeout_ms() == DEFAULT_TIMEOUT_MS,
    {
        Client {
            buffer: Vec::new(),
            buffer_bytes: 0,
            buffer_max_size: DEFAULT_BUFFER_MAX_BYTES,
            timeout: DEFAULT_TIMEOUT_MS,
        }
    }

    /// Sets the bound on pending bytes; it applies from the next line on.
    pub fn set_max_buffer_size(&mut self, size: usize)
        requires
            old(self).wf(),
        ensures
            final(self).wf(),
            final(self).max_bytes() == size,
            final(self).pending() == old(self).pending(),
            final(self).timeout_ms() == old(self).timeout_ms(),
    {
        self.buffer_max_size = size;
    }

    /// Sets the time allowed to one request, in milliseconds.
    pub fn set_timeout(&mut self, millis: u64)
        requires
            old(self).wf(),
        ensures
            final(self).wf(),
            final(self).timeout_ms() == millis,
            final(self).pending() == old(self).pending(),
            final(self).max_bytes() == old(self).max_bytes(),
    {
        self.timeout = millis;
    }

    /// The time allowed to one request, in milliseconds.
    pub fn timeout(&self) -> (r: u64)
        ensures
            r == self.timeout_ms(),
    {
        self.timeout
    }

    /// Takes everything pending into one body, if anything is pending.
    pub fn flush(&mut self) -> (r: Option<IngestBody>)
        requires
            old(self).wf(),
        ensures
            final(self).wf(),
            final(self).pending() == Seq::<LineRecord>::empty(),
            final(self).max_bytes() == old(self).max_bytes(),
            final(self).timeout_ms() == old(self).timeout_ms(),
            r is None <==> old(self).pending().len() == 0,
            r matches Some(b) ==> b.view() == old(self).pending(),
    {
        let mut lines: Vec<LineRecord> = Vec::new();
        std::mem::swap(&mut lines, &mut self.buffer);
        self.buffer_bytes = 0;
        IngestBody::new(lines)
    }

    /// Takes in one input; returns the body to send now, if any. See
    /// [`step_of`].
    pub fn step(&mut self, input: ClientInput) -> (r: Option<IngestBody>)
        requires
            old(self).wf(),
        ensures
            final(self).wf(),
            final(self).max_bytes() == old(self).max_bytes(),
            final(self).timeout_ms() == old(self).timeout_ms(),
            final(self).pending() == step_of(old(self).pending(), old(self).max_bytes(), input).0,
            match step_of(old(self).pending(), old(self).max_bytes(), input).1 {
                None => r is None,
                Some(lines) => r matches Some(b) && b.view() == lines,
            },
    {
        match input {
            ClientInput::Line(l) => {
                let n = l.line.as_str().len();
                proof {
                    lemma_total_push(self.buffer@, l);
                }
                let full = self.buffer_bytes >= self.buffer_max_size || n >= self.buffer_max_size
                    - self.buffer_bytes;
                self.buffer.push(l);
                if full {
                    let mut lines: Vec<LineRecord> = Vec::new();
                    std::mem::swap(&mut lines, &mut self.buffer);
                    self.buffer_bytes = 0;
                    IngestBody::new(lines)
                } else {
                    self.buffer_bytes = self.buffer_bytes + n;
                    None
                }
            },
            ClientInput::Retry(body) => Some(body),
            ClientInput::Tick => self.flush(),
        }
    }

    /// What to do with `body` after its request ended with `outcome`: it is
    /// handed back for the spool exactly when no answer came.
    pub fn settle(&self, body: IngestBody, outcome: SendOutcome) -> (r: Option<IngestBody>)
        ensures
            r is Some <==> disposal_of(outcome) == Disposal::Retry,
            r matches Some(b) ==> b.view() == body.view(),
    {
        match disposal(outcome) {
            Disposal::Retry => Some(body),
            _ => None,
        }
    }
}

/// The lines of a body handed out, none when there is none.
pub open spec fn lines_out(out: Option<Seq<LineRecord>>) -> Seq<LineRecord> {
    match out {
        Some(ls) => ls,
        None => Seq::empty(),
    }
}

/// No accepted line is lost by the client: after any input, the lines that
/// were pending, with the new line if one came, are exactly the lines of the
/// body handed out for sending followed by those still pending, in order. A
/// retried body is handed out as it came, the pending lines untouched. After
/// a request, the body goes to the spool exactly when no answer came; it is
/// let go only on a 2xx answer or on another status, which is final.
pub proof fn law_no_line_lost(pending: Seq<LineRecord>, max: usize, input: ClientInput, o: SendOutcome)
    ensures
        input matches ClientInput::Line(l) ==> lines_out(step_of(pending, max, input).1) + step_of(
            pending,
            max,
            input,
        ).0 == pending.push(l),
        input is Tick ==> lines_out(step_of(pending, max, input).1) + step_of(pending, max, input).0
            == pending,
        input matches ClientInput::Retry(b) ==> step_of(pending, max, input) == (
            pending,
            Some(b.view()),
        ),
        disposal_of(o) == Disposal::Retry <==> o is Transport,
        disposal_of(o) == Disposal::Delivered <==> (o matches SendOutcome::Status(s) && 200 <= s
            <= 299),
{
    match input {
        ClientInput::Line(l) => {
            let b = pending.push(l);
            assert(Seq::<LineRecord>::empty() + b =~= b);
            assert(b + Seq::<LineRecord>::empty() =~= b);
        },
        ClientInput::Tick => {
            assert(Seq::<LineRecord>::empty() + pending =~= pending);
            assert(pending + Seq::<LineRecord>::empty() =~= pending);
        },
        ClientInput::Retry(_) => {},
    }
}

} // verus!
