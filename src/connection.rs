//! The decisions a worker takes for one keep-alive connection: when to send,
//! how a response is read, and what gets counted. The worker's reactor does
//! the socket work and reports each outcome here.
use vstd::prelude::*;
use crate::http::{content_length_of, parse_content_length, parse_http_status_code, status_code_of};
use crate::stats::{bumped, error_key, sat_add, ErrorKind, WorkerStats};
use crate::text::occurs_at;

verus! {

/// The bytes that end a response header.
pub open spec fn header_terminator() -> Seq<u8> {
    seq![13u8, 10u8, 13u8, 10u8]
}

/// Index of the first occurrence of `p` in `s` at or after `i`.
pub open spec fn first_occurrence(s: Seq<u8>, p: Seq<u8>, i: int) -> Option<int>
    decreases s.len() + 1 - i,
{
    if i < 0 || i + p.len() > s.len() {
        None
    } else if occurs_at(s, p, i) {
        Some(i)
    } else {
        first_occurrence(s, p, i + 1)
    }
}

pub proof fn lemma_first_occurrence(s: Seq<u8>, p: Seq<u8>, i: int)
    ensures
        first_occurrence(s, p, i) matches Some(j) ==> i <= j && occurs_at(s, p, j),
    decreases s.len() + 1 - i,
{
    if !(i < 0 || i + p.len() > s.len()) && !occurs_at(s, p, i) {
        lemma_first_occurrence(s, p, i + 1);
    }
}

/// The text that std's `String::from_utf8_lossy` makes of some bytes.
pub uninterp spec fn utf8_lossy(b: Seq<u8>) -> Seq<char>;

/// Relies on `twoway::find_bytes`: the index of the first occurrence of
/// `pattern` in `text`, if any.
#[verifier::external_body]
fn find_bytes(text: &[u8], pattern: &[u8]) -> (r: Option<usize>)
    ensures
        match first_occurrence(text@, pattern@, 0) {
            Some(i) => r == Some(i as usize),
            None => r is None,
        },
{
    twoway::find_bytes(text, pattern)
}

/// Relies on std's `String::from_utf8_lossy`: the bytes read as UTF-8, with
/// invalid sequences replaced.
#[verifier::external_body]
fn text_of_bytes(b: &[u8]) -> (s: String)
    ensures
        s@ == utf8_lossy(b@),
{
    String::from_utf8_lossy(b).into_owned()
}

/// The histogram key of an HTTP status code: the code's 16 bits read as signed.
pub open spec fn status_key(code: nat) -> i16 {
    if code < 0x8000 {
        code as i16
    } else {
        (code - 0x10000) as i16
    }
}

/// The histogram key that a response header earns: its status code, or the
/// invalid-response class when the status line cannot be read.
pub open spec fn response_key(text: Seq<char>) -> i16 {
    match status_code_of(text) {
        Some(c) => status_key(c),
        None => error_key(ErrorKind::InvalidResponse),
    }
}

fn key_of_status(code: u16) -> (r: i16)
    ensures
        r == status_key(code as nat),
{
    if code < 0x8000 {
        code as i16
    } else {
        (code as i32 - 0x10000) as i16
    }
}

/// Where a connection stands.
#[derive(Clone, Copy, Debug, PartialEq, Eq, Structural)]
pub enum ConnPhase {
    /// The TLS handshake is under way.
    Connecting,
    /// Ready to send the next request.
    Connected,
    /// The request is sent; the response header is being read.
    AwaitingHeader,
    /// The header is read; the body is being read.
    ReadingBody,
    /// Abandoned after an error.
    Failed,
}

/// The readiness the reactor should wait for next.
#[derive(Clone, Copy, Debug, PartialEq, Eq, Structural)]
pub enum Interest {
    Readable,
    Writable,
    ReadWrite,
    Nothing,
}

pub open spec fn interest_of(p: ConnPhase) -> Interest {
    match p {
        ConnPhase::Connecting => Interest::ReadWrite,
        ConnPhase::Connected => Interest::Writable,
        ConnPhase::AwaitingHeader => Interest::Readable,
        ConnPhase::ReadingBody => Interest::Readable,
        ConnPhase::Failed => Interest::Nothing,
    }
}

/// What one step of a TLS handshake came to.
#[derive(Clone, Copy, Debug, PartialEq, Eq, Structural)]
pub enum HandshakeOutcome {
    Complete,
    InProgress,
    Failed,
}

/// Why a run of reads on a readable socket stopped.
#[derive(Clone, Copy, Debug, PartialEq, Eq, Structural)]
pub enum ReadEnd {
    /// No more bytes for now.
    WouldBlock,
    /// The peer closed the stream.
    Eof,
    TimedOut,
    Failed,
}

/// One connection of a worker.
pub struct ConnTracker {
    pub phase: ConnPhase,
    /// Bytes of the response read while its header is incomplete.
    pub header: Vec<u8>,
    /// Histogram key of the response whose body is being read.
    pub status: i16,
    /// Announced body length of that response.
    pub content_length: Option<usize>,
    /// Body bytes of that response read so far.
    pub body_bytes: u64,
}

/// Whether a body of `received` bytes is complete against an announced length.
pub open spec fn body_complete(content_length: Option<usize>, received: u64) -> bool {
    match content_length {
        Some(c) => received >= c,
        None => false,
    }
}

impl ConnTracker {
    /// A new connection: TLS ones start with the handshake, plain ones are
    /// ready to send.
    pub fn new(tls: bool) -> (c: ConnTracker)
        ensures
            c.phase == (if tls {
                ConnPhase::Connecting
            } else {
                ConnPhase::Connected
            }),
            c.header@.len() == 0,
    {
        ConnTracker {
            phase: if tls {
                ConnPhase::Connecting
            } else {
                ConnPhase::Connected
            },
            header: Vec::new(),
            status: 0,
            content_length: None,
            body_bytes: 0,
        }
    }

    pub fn interest(&self) -> (r: Interest)
        ensures
            r == interest_of(self.phase),
    {
        match self.phase {
            ConnPhase::Connecting => Interest::ReadWrite,
            ConnPhase::Connected => Interest::Writable,
            ConnPhase::AwaitingHeader => Interest::Readable,
            ConnPhase::ReadingBody => Interest::Readable,
            ConnPhase::Failed => Interest::Nothing,
        }
    }

    /// Whether the next request should be written on a writable event.
    pub fn wants_to_send(&self) -> (r: bool)
        ensures
            r == (self.phase == ConnPhase::Connected),
    {
        self.phase == ConnPhase::Connected
    }

    /// Whether readable events should be read.
    pub fn wants_to_read(&self) -> (r: bool)
        ensures
            r == (self.phase == ConnPhase::AwaitingHeader || self.phase == ConnPhase::ReadingBody),
    {
        self.phase == ConnPhase::AwaitingHeader || self.phase == ConnPhase::ReadingBody
    }

    /// A step of the TLS handshake finished with `outcome`. A failed
    /// handshake is counted and abandons the connection.
    pub fn on_handshake(&mut self, stats: &mut WorkerStats, outcome: HandshakeOutcome) -> (r:
        Interest)
        requires
            old(stats).wf(),
        ensures
            final(stats).wf(),
            r == interest_of(final(self).phase),
            final(stats).requests == old(stats).requests,
            final(stats).latencies@ == old(stats).latencies@,
            final(stats).bytes == old(stats).bytes,
            old(self).phase != ConnPhase::Connecting ==> final(self).phase == old(self).phase
                && final(stats).status_counts@ == old(stats).status_counts@,
            old(self).phase == ConnPhase::Connecting ==> match outcome {
                HandshakeOutcome::Complete => final(self).phase == ConnPhase::Connected
                    && final(stats).status_counts@ == old(stats).status_counts@,
                HandshakeOutcome::InProgress => final(self).phase == ConnPhase::Connecting
                    && final(stats).status_counts@ == old(stats).status_counts@,
                HandshakeOutcome::Failed => final(self).phase == ConnPhase::Failed
                    && final(stats).status_counts@ == bumped(
                    old(stats).status_counts@,
                    error_key(ErrorKind::TlsHandshakeFailed),
                ),
            },
    {
        if self.phase == ConnPhase::Connecting {
            match outcome {
                HandshakeOutcome::Complete => {
                    self.phase = ConnPhase::Connected;
                },
                HandshakeOutcome::InProgress => {},
                HandshakeOutcome::Failed => {
                    self.phase = ConnPhase::Failed;
                    stats.record_error(ErrorKind::TlsHandshakeFailed);
                },
            }
        }
        self.interest()
    }

    /// The request was written (`ok`) or the write failed, which is counted
    /// and abandons the connection.
    pub fn on_sent(&mut self, stats: &mut WorkerStats, ok: bool) -> (r: Interest)
        requires
            old(stats).wf(),
        ensures
            final(stats).wf(),
            r == interest_of(final(self).phase),
            final(stats).requests == old(stats).requests,
            final(stats).latencies@ == old(stats).latencies@,
            final(stats).bytes == old(stats).bytes,
            old(self).phase != ConnPhase::Connected ==> final(self).phase == old(self).phase
                && final(stats).status_counts@ == old(stats).status_counts@,
            old(self).phase == ConnPhase::Connected && ok ==> final(self).phase
                == ConnPhase::AwaitingHeader && final(self).header@.len() == 0
                && final(stats).status_counts@ == old(stats).status_counts@,
            old(self).phase == ConnPhase::Connected && !ok ==> final(self).phase == ConnPhase::Failed
                && final(stats).status_counts@ == bumped(
                old(stats).status_counts@,
                error_key(ErrorKind::WriteFailed),
            ),
    {
        if self.phase == ConnPhase::Connected {
            if ok {
                self.phase = ConnPhase::AwaitingHeader;
                self.header = Vec::new();
            } else {
                self.phase = ConnPhase::Failed;
                stats.record_error(ErrorKind::WriteFailed);
            }
        }
        self.interest()
    }

    /// Ends the response being read: it is counted and the connection is
    /// ready for the next request.
    fn complete(&mut self, stats: &mut WorkerStats, latency: u128)
        requires
            old(stats).wf(),
        ensures
            final(stats).wf(),
            final(stats).requests == old(stats).requests + 1,
            final(stats).bytes == sat_add(old(stats).bytes as nat, old(self).body_bytes as nat),
            final(stats).latencies@ == old(stats).latencies@.push(latency),
            final(stats).status_counts@ == bumped(old(stats).status_counts@, old(self).status),
            final(self).phase == ConnPhase::Connected,
            final(self).header@.len() == 0,
    {
        stats.record_response(self.status, self.body_bytes, latency);
        self.phase = ConnPhase::Connected;
        self.header = Vec::new();
        self.content_length = None;
        self.body_bytes = 0;
    }

    /// Bytes `chunk` were read. While the header is incomplete they are
    /// gathered until the header terminator shows; the status line and the
    /// announced length are then read, and the bytes after the header count
    /// as body. A response is counted once its announced body is in, with
    /// exactly the announced number of body bytes; `latency` is the time
    /// since the request began.
    pub fn on_bytes(&mut self, stats: &mut WorkerStats, chunk: &[u8], latency: u128) -> (r:
        Interest)
        requires
            old(stats).wf(),
        ensures
            final(stats).wf(),
            r == interest_of(final(self).phase),
            final(stats).requests != old(stats).requests ==> {
                ||| old(self).phase == ConnPhase::ReadingBody
                ||| (old(self).phase == ConnPhase::AwaitingHeader && first_occurrence(
                    old(self).header@ + chunk@,
                    header_terminator(),
                    0,
                ) is Some)
            },
            old(self).phase != ConnPhase::AwaitingHeader && old(self).phase
                != ConnPhase::ReadingBody ==> final(self).phase == old(self).phase && *final(stats)
                == *old(stats),
            old(self).phase == ConnPhase::AwaitingHeader ==> ({
                let buf = old(self).header@ + chunk@;
                match first_occurrence(buf, header_terminator(), 0) {
                    None => final(self).phase == ConnPhase::AwaitingHeader && final(self).header@
                        == buf && *final(stats) == *old(stats),
                    Some(p) => {
                        let text = utf8_lossy(buf.take(p + 4));
                        let body = (buf.len() - (p + 4)) as u64;
                        let cl = content_length_of(text);
                        if cl is Some && body >= cl->0 {
                            &&& final(self).phase == ConnPhase::Connected
                            &&& final(stats).requests == old(stats).requests + 1
                            &&& final(stats).bytes == sat_add(old(stats).bytes as nat, cl->0)
                            &&& final(stats).latencies@ == old(stats).latencies@.push(latency)
                            &&& final(stats).status_counts@ == bumped(
                                old(stats).status_counts@,
                                response_key(text),
                            )
                        } else {
                            &&& final(self).phase == ConnPhase::ReadingBody
                            &&& final(self).status == response_key(text)
                            &&& final(self).body_bytes == body
                            &&& (match cl {
                                Some(c) => final(self).content_length is Some
                                    && final(self).content_length->0 == c,
                                None => final(self).content_length is None,
                            })
                            &&& *final(stats) == *old(stats)
                        }
                    },
                }
            }),
            old(self).phase == ConnPhase::ReadingBody ==> ({
                let body = sat_add(old(self).body_bytes as nat, chunk@.len());
                if body_complete(old(self).content_length, body) {
                    &&& final(self).phase == ConnPhase::Connected
                    &&& final(stats).requests == old(stats).requests + 1
                    &&& final(stats).bytes == sat_add(
                        old(stats).bytes as nat,
                        old(self).content_length->0 as nat,
                    )
                    &&& final(stats).latencies@ == old(stats).latencies@.push(latency)
                    &&& final(stats).status_counts@ == bumped(
                        old(stats).status_counts@,
                        old(self).status,
                    )
                } else {
                    &&& final(self).phase == ConnPhase::ReadingBody
                    &&& final(self).status == old(self).status
                    &&& final(self).content_length == old(self).content_length
                    &&& final(self).body_bytes == body
                    &&& *final(stats) == *old(stats)
                }
            }),
    {
        if self.phase == ConnPhase::AwaitingHeader {
            let ghost buf = self.header@ + chunk@;
            let mut i: usize = 0;
            while i < chunk.len()
                invariant
                    i <= chunk@.len(),
                    self.header@ == old(self).header@ + chunk@.take(i as int),
                    self.phase == old(self).phase,
                decreases chunk.len() - i,
            {
                self.header.push(chunk[i]);
                i = i + 1;
            }
            assert(chunk@.take(chunk@.len() as int) =~= chunk@);
            assert(self.header@ == buf);
            let header_len = self.header.len();
            let terminator: [u8; 4] = [13u8, 10u8, 13u8, 10u8];
            assert(terminator@ =~= header_terminator());
            match find_bytes(self.header.as_slice(), terminator.as_slice()) {
                None => {},
                Some(p) => {
                    proof {
                        lemma_first_occurrence(self.header@, terminator@, 0);
                    }
                    assert(terminator@.len() == 4);
                    let end = p + 4;
                    let mut head: Vec<u8> = Vec::new();
                    let mut j: usize = 0;
                    while j < end
                        invariant
                            end <= self.header@.len(),
                            j <= end,
                            head@ == self.header@.take(j as int),
                        decreases end - j,
                    {
                        head.push(self.header[j]);
                        j = j + 1;
                    }
                    assert(head@ == buf.take(p + 4));
                    let text = text_of_bytes(head.as_slice());
                    self.status = match parse_http_status_code(text.as_str()) {
                        Some(code) => key_of_status(code),
                        None => ErrorKind::InvalidResponse.key(),
                    };
                    self.content_length = parse_content_length(text.as_str());
                    let body = (header_len - end) as u64;
                    self.body_bytes = body;
                    self.phase = ConnPhase::ReadingBody;
                    match self.content_length {
                        Some(c) => {
                            if body >= c as u64 {
                                self.body_bytes = c as u64;
                                self.complete(stats, latency);
                            }
                        },
                        None => {},
                    }
                },
            }
        } else if self.phase == ConnPhase::ReadingBody {
            self.body_bytes = crate::stats::saturating_add(self.body_bytes, chunk.len() as u64);
            match self.content_length {
                Some(c) => {
                    if self.body_bytes >= c as u64 {
                        self.body_bytes = c as u64;
                        self.complete(stats, latency);
                    }
                },
                None => {},
            }
        }
        self.interest()
    }

    /// A run of reads stopped for `end`. `WouldBlock` waits for the next
    /// readable event. The end of the stream completes a body that announced
    /// no length, and the response is counted. Anything else while a response
    /// is read is counted as an error class (a timeout, the stream ending
    /// before the response did, any other failure) and abandons the
    /// connection.
    pub fn on_read_end(&mut self, stats: &mut WorkerStats, end: ReadEnd, latency: u128) -> (r:
        Interest)
        requires
            old(stats).wf(),
        ensures
            final(stats).wf(),
            r == interest_of(final(self).phase),
            final(stats).requests != old(stats).requests ==> old(self).phase
                == ConnPhase::ReadingBody,
            (end == ReadEnd::WouldBlock || (old(self).phase != ConnPhase::AwaitingHeader
                && old(self).phase != ConnPhase::ReadingBody)) ==> final(self).phase == old(
            self).phase && *final(stats) == *old(stats),
            end == ReadEnd::Eof && old(self).phase == ConnPhase::ReadingBody
                && old(self).content_length is None ==> {
                &&& final(self).phase == ConnPhase::Connected
                &&& final(stats).requests == old(stats).requests + 1
                &&& final(stats).bytes == sat_add(
                    old(stats).bytes as nat,
                    old(self).body_bytes as nat,
                )
                &&& final(stats).latencies@ == old(stats).latencies@.push(latency)
                &&& final(stats).status_counts@ == bumped(
                    old(stats).status_counts@,
                    old(self).status,
                )
            },
            end != ReadEnd::WouldBlock && (old(self).phase == ConnPhase::AwaitingHeader || (
            old(self).phase == ConnPhase::ReadingBody && !(end == ReadEnd::Eof && old(
                self,
            ).content_length is None))) ==> {
                &&& final(self).phase == ConnPhase::Failed
                &&& final(stats).requests == old(stats).requests
                &&& final(stats).latencies@ == old(stats).latencies@
                &&& final(stats).bytes == old(stats).bytes
                &&& final(stats).status_counts@ == bumped(
                    old(stats).status_counts@,
                    error_key(read_end_error(end)),
                )
            },
    {
        match end {
            ReadEnd::WouldBlock => {},
            _ => {
                let reading = self.phase == ConnPhase::AwaitingHeader || self.phase
                    == ConnPhase::ReadingBody;
                if self.phase == ConnPhase::ReadingBody && end == ReadEnd::Eof
                    && self.content_length.is_none() {
                    self.complete(stats, latency);
                } else if reading {
                    let kind = match end {
                        ReadEnd::TimedOut => ErrorKind::Timeout,
                        ReadEnd::Eof => ErrorKind::InvalidResponse,
                        _ => ErrorKind::Unknown,
                    };
                    self.phase = ConnPhase::Failed;
                    stats.record_error(kind);
                }
            },
        }
        self.interest()
    }
}

/// The error class of a read that stopped a response: a timeout, the stream
/// ending before the response did, or any other failure.
pub open spec fn read_end_error(end: ReadEnd) -> ErrorKind {
    match end {
        ReadEnd::TimedOut => ErrorKind::Timeout,
        ReadEnd::Eof => ErrorKind::InvalidResponse,
        _ => ErrorKind::Unknown,
    }
}

} // verus!
