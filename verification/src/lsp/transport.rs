//! The framing of messages: a header with the length of the body, an empty
//! line, and the body.

use vstd::prelude::*;
use vstd::string::*;
use vstd::utf8::*;

use crate::json;
use crate::json::{Json, JsonView};
use crate::text;

verus! {

/// The longest header line, in bytes.
pub const MAX_HEADER_LINE_BYTES: usize = 8192;

/// The most bytes that the headers of one message have together.
pub const MAX_HEADER_BYTES: usize = 32768;

/// The longest body, in bytes.
pub const MAX_CONTENT_LENGTH: usize = 67108864;

// ---------------------------------------------------------------------------
// Writing
// ---------------------------------------------------------------------------

/// The headers of a body of some length.
pub open spec fn header_text(length: nat) -> Seq<char> {
    "Content-Length: "@ + text::decimal(length) + "\r\n\r\n"@
}

/// The bytes of a framed body.
pub open spec fn framed(body: Seq<u8>) -> Seq<u8> {
    encode_utf8(header_text(body.len())) + body
}

/// The bytes of a message on the wire.
pub open spec fn message_bytes(msg: JsonView) -> Seq<u8> {
    framed(encode_utf8(json::json_text(msg)))
}

fn push_bytes(out: &mut Vec<u8>, bytes: &[u8])
    ensures
        final(out)@ == old(out)@ + bytes@,
{
    let ghost before = out@;
    let n: usize = bytes.len();
    let mut i: usize = 0;
    assert(before + bytes@.take(0) =~= before);
    while i < n
        invariant
            i <= n,
            n == bytes@.len(),
            out@ == before + bytes@.take(i as int),
        decreases n - i,
    {
        out.push(bytes[i]);
        assert(out@ =~= before + bytes@.take(i + 1));
        i = i + 1;
    }
    assert(bytes@.take(i as int) =~= bytes@);
}

/// Frames a body.
pub fn frame_body(body: &[u8]) -> (r: Vec<u8>)
    ensures
        r@ == framed(body@),
{
    let header = "Content-Length: ".to_string().concat(
        text::decimal_text(body.len() as u64).as_str(),
    ).concat("\r\n\r\n");
    let mut out: Vec<u8> = Vec::new();
    push_bytes(&mut out, header.as_str().as_bytes());
    push_bytes(&mut out, body);
    assert(out@ =~= framed(body@));
    out
}

/// Whether a message can be read back: its fractions are short, it does not lie
/// too deep, and it is not too long.
pub open spec fn is_sendable(msg: JsonView) -> bool {
    json::readable(msg, json::MAX_LEVELS as int) && encode_utf8(json::json_text(msg)).len()
        <= MAX_CONTENT_LENGTH
}

/// Whether a message that can be read back is read off the front of some bytes,
/// whatever follows them, and what follows is left.
pub open spec fn carries(s: Seq<u8>, msg: JsonView) -> bool {
    is_sendable(msg) ==> forall|rest: Seq<u8>, eof: bool|
        #[trigger] front(s + rest, eof) matches FrameView::Body { from, to } && (s + rest).skip(to)
            == rest && json::json_parsed((s + rest).subrange(from, to)) == Ok::<
            JsonView,
            Seq<char>,
        >(msg)
}

/// Frames a message. A reader takes the same message off the bytes.
pub fn frame(msg: &Json) -> (r: Vec<u8>)
    ensures
        r@ == message_bytes(msg@),
        carries(r@, msg@),
{
    let body = msg.render();
    let r = frame_body(body.as_str().as_bytes());
    proof {
        let bytes = encode_utf8(body@);
        if bytes.len() <= MAX_CONTENT_LENGTH {
            assert forall|rest: Seq<u8>, eof: bool|
                #[trigger] front(r@ + rest, eof) matches FrameView::Body { from, to } && (r@
                    + rest).skip(to) == rest && (r@ + rest).subrange(from, to) == bytes by {
                law_frame_round_trip(bytes, rest, eof);
            }
        }
    }
    r
}

// ---------------------------------------------------------------------------
// Reading
// ---------------------------------------------------------------------------

/// Why a stream of messages cannot be read on.
#[derive(Clone, Copy)]
pub enum FrameError {
    LineTooLong,
    HeadersTooLong,
    NotUtf8,
    DuplicateLength,
    BadLength,
    TooLarge { length: usize },
    MissingLength,
    UnexpectedEnd,
}

/// The text of an error.
pub open spec fn error_text(e: FrameError) -> Seq<char> {
    match e {
        FrameError::LineTooLong => "LSP header line exceeds 8192 bytes"@,
        FrameError::HeadersTooLong => "LSP headers exceed 32768 bytes"@,
        FrameError::NotUtf8 => "LSP header is not UTF-8"@,
        FrameError::DuplicateLength => "duplicate Content-Length header"@,
        FrameError::BadLength => "bad Content-Length"@,
        FrameError::TooLarge { length } => "Content-Length "@ + text::decimal(length as nat)
            + " exceeds 67108864 bytes"@,
        FrameError::MissingLength => "missing Content-Length"@,
        FrameError::UnexpectedEnd => "early eof"@,
    }
}

impl FrameError {
    /// The text of the error.
    pub fn message(&self) -> (r: String)
        ensures
            r@ == error_text(*self),
    {
        match self {
            FrameError::LineTooLong => "LSP header line exceeds 8192 bytes".to_string(),
            FrameError::HeadersTooLong => "LSP headers exceed 32768 bytes".to_string(),
            FrameError::NotUtf8 => "LSP header is not UTF-8".to_string(),
            FrameError::DuplicateLength => "duplicate Content-Length header".to_string(),
            FrameError::BadLength => "bad Content-Length".to_string(),
            FrameError::TooLarge { length } => "Content-Length ".to_string().concat(
                text::decimal_text(*length as u64).as_str(),
            ).concat(" exceeds 67108864 bytes"),
            FrameError::MissingLength => "missing Content-Length".to_string(),
            FrameError::UnexpectedEnd => "early eof".to_string(),
        }
    }
}

/// What a header line says, given the length that earlier lines named.
pub enum HeaderLine {
    /// It is empty: the headers end here.
    Blank,
    /// It says nothing of the length.
    Other,
    /// It names the length.
    Length { length: usize },
    /// It makes no sense.
    Fail { error: FrameError },
}

/// What a header line says.
pub open spec fn header_line(line: Seq<char>, known: bool) -> HeaderLine {
    let t = text::trimmed(line);
    let colon = text::find_from(t, ':', 0);
    if t.len() == 0 {
        HeaderLine::Blank
    } else if colon < t.len() && text::same_ignoring_case(
        text::trimmed(t.take(colon)),
        "Content-Length"@,
    ) {
        if known {
            HeaderLine::Fail { error: FrameError::DuplicateLength }
        } else {
            match text::unsigned_value(text::trimmed(t.skip(colon + 1)), usize::MAX as nat) {
                None => HeaderLine::Fail { error: FrameError::BadLength },
                Some(n) => if n > MAX_CONTENT_LENGTH {
                    HeaderLine::Fail { error: FrameError::TooLarge { length: n as usize } }
                } else {
                    HeaderLine::Length { length: n as usize }
                },
            }
        }
    } else {
        HeaderLine::Other
    }
}

/// Where the first newline at or after a place is, or the end.
pub open spec fn newline_from(s: Seq<u8>, from: int) -> int
    decreases s.len() - from,
{
    if from < 0 || from >= s.len() {
        s.len() as int
    } else if s[from] == 10 {
        from
    } else {
        newline_from(s, from + 1)
    }
}

/// What the headers at the front of some bytes say.
pub enum ScanView {
    /// They are not all there yet.
    More,
    /// The stream ended before a message was complete in its headers.
    End,
    /// They make no sense.
    Fail { error: FrameError },
    /// The body starts at a place and has a length.
    Ready { at: int, length: usize },
}

/// The end of the line that starts at a place: behind its newline, or the end
/// of the bytes.
pub open spec fn line_end(s: Seq<u8>, at: int) -> int {
    let newline = newline_from(s, at);
    if newline < s.len() {
        newline + 1
    } else {
        s.len() as int
    }
}

/// Reads headers from a place on. `total` bytes of headers came before it, and
/// named `length`. `eof` says that no bytes will follow.
pub open spec fn scan_headers(
    s: Seq<u8>,
    at: int,
    total: int,
    length: Option<usize>,
    eof: bool,
) -> ScanView
    decreases s.len() - at,
{
    let found = newline_from(s, at) < s.len();
    let end = line_end(s, at);
    let n = end - at;
    if at < 0 || at > s.len() {
        ScanView::More
    } else if n > MAX_HEADER_LINE_BYTES {
        ScanView::Fail { error: FrameError::LineTooLong }
    } else if !found && !eof {
        ScanView::More
    } else if n <= 0 {
        ScanView::End
    } else if total + n > MAX_HEADER_BYTES {
        ScanView::Fail { error: FrameError::HeadersTooLong }
    } else if !valid_utf8(s.subrange(at, end)) {
        ScanView::Fail { error: FrameError::NotUtf8 }
    } else {
        match header_line(decode_utf8(s.subrange(at, end)), length is Some) {
            HeaderLine::Blank => match length {
                Some(l) => ScanView::Ready { at: end, length: l },
                None => ScanView::Fail { error: FrameError::MissingLength },
            },
            HeaderLine::Fail { error } => ScanView::Fail { error },
            HeaderLine::Length { length: l } => scan_headers(s, end, total + n, Some(l), eof),
            HeaderLine::Other => scan_headers(s, end, total + n, length, eof),
        }
    }
}

/// What the front of some bytes holds.
pub enum FrameView {
    /// Part of a message.
    More,
    /// Nothing, and nothing will follow.
    End,
    /// Nonsense.
    Fail { error: FrameError },
    /// A message whose body lies between two places.
    Body { from: int, to: int },
}

/// What the front of some bytes holds.
pub open spec fn front(s: Seq<u8>, eof: bool) -> FrameView {
    match scan_headers(s, 0, 0, None, eof) {
        ScanView::More => FrameView::More,
        ScanView::End => FrameView::End,
        ScanView::Fail { error } => FrameView::Fail { error },
        ScanView::Ready { at, length } => if s.len() - at >= length {
            FrameView::Body { from: at, to: at + length }
        } else if eof {
            FrameView::Fail { error: FrameError::UnexpectedEnd }
        } else {
            FrameView::More
        },
    }
}

fn read_header_line(line: &str, known: bool) -> (r: HeaderLine)
    ensures
        r == header_line(line@, known),
{
    let t = text::trim(line);
    let cs = text::chars_of(t);
    if cs.len() == 0 {
        return HeaderLine::Blank;
    }
    let colon: usize = text::find_char(&cs, ':', 0);
    if colon == cs.len() {
        return HeaderLine::Other;
    }
    let name = t.substring_char(0, colon);
    assert(name@ =~= t@.take(colon as int));
    if !text::eq_ignore_ascii_case(text::trim(name), "Content-Length") {
        return HeaderLine::Other;
    }
    if known {
        return HeaderLine::Fail { error: FrameError::DuplicateLength };
    }
    let value = t.substring_char(colon + 1, cs.len());
    assert(value@ =~= t@.skip(colon + 1));
    match text::parse_usize(text::trim(value)) {
        None => HeaderLine::Fail { error: FrameError::BadLength },
        Some(n) => if n > MAX_CONTENT_LENGTH {
            HeaderLine::Fail { error: FrameError::TooLarge { length: n } }
        } else {
            HeaderLine::Length { length: n }
        },
    }
}

fn sub_bytes(s: &Vec<u8>, from: usize, to: usize) -> (r: Vec<u8>)
    requires
        from <= to <= s@.len(),
    ensures
        r@ == s@.subrange(from as int, to as int),
{
    let mut out: Vec<u8> = Vec::new();
    let mut i: usize = from;
    assert(out@ =~= s@.subrange(from as int, from as int));
    while i < to
        invariant
            from <= i <= to <= s@.len(),
            out@ == s@.subrange(from as int, i as int),
        decreases to - i,
    {
        out.push(s[i]);
        assert(out@ =~= s@.subrange(from as int, i + 1));
        i = i + 1;
    }
    out
}

enum Scan {
    More,
    End,
    Fail { error: FrameError },
    Ready { at: usize, length: usize },
}

impl Scan {
    spec fn view(self) -> ScanView {
        match self {
            Scan::More => ScanView::More,
            Scan::End => ScanView::End,
            Scan::Fail { error } => ScanView::Fail { error },
            Scan::Ready { at, length } => ScanView::Ready { at: at as int, length },
        }
    }
}

fn scan(s: &Vec<u8>, eof: bool) -> (r: Scan)
    ensures
        r@ == scan_headers(s@, 0, 0, None, eof),
        r matches Scan::Ready { at, length } ==> at <= s@.len(),
{
    let n: usize = s.len();
    let mut at: usize = 0;
    let mut total: usize = 0;
    let mut length: Option<usize> = None;
    loop
        invariant
            n == s@.len(),
            at <= n,
            total <= MAX_HEADER_BYTES,
            scan_headers(s@, 0, 0, None, eof) == scan_headers(
                s@,
                at as int,
                total as int,
                length,
                eof,
            ),
        decreases n - at,
    {
        let mut newline: usize = at;
        while newline < n && s[newline] != 10
            invariant
                n == s@.len(),
                at <= newline <= n,
                newline_from(s@, at as int) == newline_from(s@, newline as int),
            decreases n - newline,
        {
            newline = newline + 1;
        }
        let found = newline < n;
        let end: usize = if found {
            newline + 1
        } else {
            n
        };
        if end - at > MAX_HEADER_LINE_BYTES {
            return Scan::Fail { error: FrameError::LineTooLong };
        }
        if !found && !eof {
            return Scan::More;
        }
        if end == at {
            return Scan::End;
        }
        total = total + (end - at);
        if total > MAX_HEADER_BYTES {
            return Scan::Fail { error: FrameError::HeadersTooLong };
        }
        let line = sub_bytes(s, at, end);
        match text::utf8_text(line.as_slice()) {
            None => {
                return Scan::Fail { error: FrameError::NotUtf8 };
            },
            Some(t) => {
                proof {
                    encode_utf8_decode_utf8(t@);
                }
                match read_header_line(t, length.is_some()) {
                    HeaderLine::Blank => {
                        return match length {
                            Some(l) => Scan::Ready { at: end, length: l },
                            None => Scan::Fail { error: FrameError::MissingLength },
                        };
                    },
                    HeaderLine::Fail { error } => {
                        return Scan::Fail { error };
                    },
                    HeaderLine::Length { length: l } => {
                        length = Some(l);
                    },
                    HeaderLine::Other => {},
                }
            },
        }
        at = end;
    }
}

/// What came of looking for a message.
pub enum FrameStep {
    /// More bytes are needed.
    More,
    /// The stream has ended.
    End,
    /// The stream makes no sense.
    Fail { error: FrameError },
    /// A message's body.
    Body { bytes: Vec<u8> },
}

/// Takes messages out of a stream of bytes, however it is cut into pieces.
pub struct FrameReader {
    pub buffer: Vec<u8>,
}

impl FrameReader {
    /// The bytes that wait to be read.
    pub open spec fn view(&self) -> Seq<u8> {
        self.buffer@
    }

    /// A reader without bytes.
    pub fn new() -> (r: FrameReader)
        ensures
            r@ == Seq::<u8>::empty(),
    {
        FrameReader { buffer: Vec::new() }
    }

    /// Takes more bytes.
    pub fn feed(&mut self, bytes: &[u8])
        ensures
            final(self)@ == old(self)@ + bytes@,
    {
        push_bytes(&mut self.buffer, bytes);
    }

    /// Takes a message off the front of the bytes.
    pub fn next_frame(&mut self, eof: bool) -> (r: FrameStep)
        ensures
            match front(old(self)@, eof) {
                FrameView::More => r is More && final(self)@ == old(self)@,
                FrameView::End => r is End && final(self)@ == old(self)@,
                FrameView::Fail { error } => r == (FrameStep::Fail { error }) && final(self)@
                    == old(self)@,
                FrameView::Body { from, to } => r matches FrameStep::Body { bytes } && bytes@
                    == old(self)@.subrange(from, to) && final(self)@ == old(self)@.skip(to),
            },
    {
        match scan(&self.buffer, eof) {
            Scan::More => FrameStep::More,
            Scan::End => FrameStep::End,
            Scan::Fail { error } => FrameStep::Fail { error },
            Scan::Ready { at, length } => {
                let n: usize = self.buffer.len();
                if n - at >= length {
                    let to: usize = at + length;
                    let bytes = sub_bytes(&self.buffer, at, to);
                    let rest = sub_bytes(&self.buffer, to, n);
                    assert(rest@ =~= self.buffer@.skip(to as int));
                    self.buffer = rest;
                    FrameStep::Body { bytes }
                } else if eof {
                    FrameStep::Fail { error: FrameError::UnexpectedEnd }
                } else {
                    FrameStep::More
                }
            },
        }
    }
}

/// What came of looking for a message.
pub enum ReadStep {
    /// More bytes are needed.
    More,
    /// The stream has ended.
    End,
    /// The stream makes no sense.
    Failed(String),
    /// A message.
    Message(Json),
}

/// Whether a step is what a body comes to, given what it was read as.
pub open spec fn is_body_step(r: ReadStep, parsed: Result<JsonView, Seq<char>>) -> bool {
    match parsed {
        Ok(j) => r matches ReadStep::Message(m) && m@ == j,
        Err(e) => r matches ReadStep::Failed(x) && x@ == e,
    }
}

impl FrameReader {
    /// Reads the next message.
    pub fn read_message(&mut self, eof: bool) -> (r: ReadStep)
        ensures
            match front(old(self)@, eof) {
                FrameView::More => r is More && final(self)@ == old(self)@,
                FrameView::End => r is End && final(self)@ == old(self)@,
                FrameView::Fail { error } => r matches ReadStep::Failed(x) && x@ == error_text(
                    error,
                ) && final(self)@ == old(self)@,
                FrameView::Body { from, to } => is_body_step(
                    r,
                    json::json_parsed(old(self)@.subrange(from, to)),
                ) && final(self)@ == old(self)@.skip(to),
            },
    {
        match self.next_frame(eof) {
            FrameStep::More => ReadStep::More,
            FrameStep::End => ReadStep::End,
            FrameStep::Fail { error } => ReadStep::Failed(error.message()),
            FrameStep::Body { bytes } => match Json::parse(bytes.as_slice()) {
                Ok(m) => ReadStep::Message(m),
                Err(e) => ReadStep::Failed(e),
            },
        }
    }
}

/// What is received from a stream that ends behind some bytes: the messages, and
/// the error that ended them, if one did.
pub open spec fn received(s: Seq<u8>) -> (Seq<JsonView>, Option<Seq<char>>)
    decreases s.len(),
{
    match front(s, true) {
        FrameView::Body { from, to } => match json::json_parsed(s.subrange(from, to)) {
            Ok(msg) => if 0 < to <= s.len() {
                let rest = received(s.skip(to));
                (seq![msg] + rest.0, rest.1)
            } else {
                (seq![msg], None)
            },
            Err(e) => (Seq::empty(), Some(e)),
        },
        FrameView::Fail { error } => (Seq::empty(), Some(error_text(error))),
        _ => (Seq::empty(), None),
    }
}

proof fn lemma_scan_advances(s: Seq<u8>, at: int, total: int, length: Option<usize>, eof: bool)
    requires
        0 <= at <= s.len(),
    ensures
        scan_headers(s, at, total, length, eof) matches ScanView::Ready { at: body, .. } ==> at
            < body <= s.len(),
    decreases s.len() - at,
{
    lemma_newline_bound(s, at);
    let end = line_end(s, at);
    if end > at {
        lemma_scan_advances(s, end, total + (end - at), length, eof);
        if let HeaderLine::Length { length: l } = header_line(
            decode_utf8(s.subrange(at, end)),
            length is Some,
        ) {
            lemma_scan_advances(s, end, total + (end - at), Some(l), eof);
        }
    }
}

/// Taking a message off some bytes leaves fewer.
proof fn lemma_front_advances(s: Seq<u8>, eof: bool)
    ensures
        front(s, eof) matches FrameView::Body { to, .. } ==> 0 < to <= s.len(),
{
    lemma_scan_advances(s, 0, 0, None, eof);
}

impl FrameReader {
    /// Reads the messages that are left in a stream that has ended.
    pub fn read_rest(&mut self) -> (r: (Vec<Json>, Option<String>))
        ensures
            (r.0.deep_view(), r.1.deep_view()) == received(old(self)@),
    {
        let ghost all = self@;
        let mut out: Vec<Json> = Vec::new();
        assert(out.deep_view() + received(all).0 =~= received(all).0);
        loop
            invariant
                all == old(self)@,
                received(all).0 == out.deep_view() + received(self@).0,
                received(all).1 == received(self@).1,
            decreases self@.len(),
        {
            let ghost before = self@;
            let ghost sofar = out.deep_view();
            proof {
                lemma_front_advances(before, true);
            }
            match self.read_message(true) {
                ReadStep::Message(msg) => {
                    out.push(msg);
                    assert(out.deep_view() =~= sofar.push(msg@));
                    assert(sofar + received(before).0 =~= out.deep_view() + received(self@).0);
                },
                ReadStep::Failed(e) => {
                    assert(sofar + received(before).0 =~= out.deep_view());
                    return (out, Some(e));
                },
                _ => {
                    assert(sofar + received(before).0 =~= out.deep_view());
                    return (out, None);
                },
            }
        }
    }
}

// ---------------------------------------------------------------------------
// The connection
// ---------------------------------------------------------------------------

/// Whether messages can be sent to a server.
pub struct LspTransport {
    /// The server's input is open.
    pub open: bool,
    /// The server's process has ended.
    pub terminated: bool,
}

impl LspTransport {
    /// The connection to a server that was just started.
    pub fn new() -> (r: LspTransport)
        ensures
            r.open,
            !r.terminated,
    {
        LspTransport { open: true, terminated: false }
    }

    /// The bytes to write to send a message.
    pub fn send(&self, msg: &Json) -> (r: Result<Vec<u8>, String>)
        ensures
            match r {
                Ok(bytes) => !self.terminated && self.open && bytes@ == message_bytes(msg@)
                    && carries(bytes@, msg@),
                Err(e) => if self.terminated {
                    e@ == "language server transport is terminated"@
                } else {
                    !self.open && e@ == "language server stdin is closed"@
                },
            },
    {
        if self.terminated {
            return Err("language server transport is terminated".to_string());
        }
        if !self.open {
            return Err("language server stdin is closed".to_string());
        }
        Ok(frame(msg))
    }

    /// Begins to stop a server: its input is closed. A false return means that
    /// the server has ended already.
    pub fn begin_terminate(&mut self) -> (r: bool)
        ensures
            r == !old(self).terminated,
            final(self).terminated == old(self).terminated,
            final(self).open == (old(self).open && old(self).terminated),
    {
        if self.terminated {
            return false;
        }
        self.open = false;
        true
    }

    /// Takes note that a server's process has ended.
    pub fn finish_terminate(&mut self)
        ensures
            final(self).terminated,
            final(self).open == old(self).open,
    {
        self.terminated = true;
    }
}

// ---------------------------------------------------------------------------
// Laws
// ---------------------------------------------------------------------------

proof fn lemma_newline_extend(s: Seq<u8>, more: Seq<u8>, from: int)
    requires
        0 <= from <= s.len(),
    ensures
        newline_from(s, from) < s.len() ==> newline_from(s + more, from) == newline_from(s, from),
        newline_from(s, from) == s.len() ==> newline_from(s + more, from) >= s.len(),
        from <= newline_from(s, from) <= s.len(),
    decreases s.len() - from,
{
    if from < s.len() {
        if s[from] != 10 {
            lemma_newline_extend(s, more, from + 1);
        }
    } else {
        lemma_newline_bound(s + more, from);
    }
}

proof fn lemma_newline_bound(s: Seq<u8>, from: int)
    requires
        0 <= from <= s.len(),
    ensures
        from <= newline_from(s, from) <= s.len(),
    decreases s.len() - from,
{
    if from < s.len() && s[from] != 10 {
        lemma_newline_bound(s, from + 1);
    }
}

proof fn lemma_scan_extend(
    s: Seq<u8>,
    more: Seq<u8>,
    at: int,
    total: int,
    length: Option<usize>,
    eof: bool,
)
    requires
        0 <= at <= s.len(),
        !(scan_headers(s, at, total, length, false) is More),
    ensures
        scan_headers(s + more, at, total, length, eof) == scan_headers(s, at, total, length, false),
        scan_headers(s, at, total, length, false) matches ScanView::Ready { at: a, .. } ==> at <= a
            <= s.len(),
        !(scan_headers(s, at, total, length, false) is End),
    decreases s.len() - at,
{
    lemma_newline_extend(s, more, at);
    lemma_newline_bound(s + more, at);
    let found = newline_from(s, at) < s.len();
    if found {
        let end = line_end(s, at);
        assert(line_end(s + more, at) == end);
        assert((s + more).subrange(at, end) =~= s.subrange(at, end));
        let n = end - at;
        if n <= MAX_HEADER_LINE_BYTES && total + n <= MAX_HEADER_BYTES && valid_utf8(
            s.subrange(at, end),
        ) {
            match header_line(decode_utf8(s.subrange(at, end)), length is Some) {
                HeaderLine::Length { length: l } => {
                    lemma_scan_extend(s, more, end, total + n, Some(l), eof);
                },
                HeaderLine::Other => {
                    lemma_scan_extend(s, more, end, total + n, length, eof);
                },
                _ => {},
            }
        }
    } else {
        assert(line_end(s + more, at) >= s.len());
    }
}

/// How a stream is cut into pieces does not matter: once the front of the bytes
/// holds a message, or nonsense, more bytes do not change that.
pub proof fn law_more_bytes_change_nothing(s: Seq<u8>, more: Seq<u8>, eof: bool)
    requires
        !(front(s, false) is More),
    ensures
        front(s + more, eof) == front(s, false),
        front(s, false) matches FrameView::Body { from, to } ==> (s + more).subrange(from, to)
            == s.subrange(from, to),
{
    lemma_scan_extend(s, more, 0, 0, None, eof);
    if let FrameView::Body { from, to } = front(s, false) {
        assert((s + more).subrange(from, to) =~= s.subrange(from, to));
    }
}

/// The header line of a length, without the empty line behind it.
spec fn length_line(length: nat) -> Seq<char> {
    "Content-Length: "@ + text::decimal(length) + "\r\n"@
}

proof fn lemma_trim_line(length: nat)
    ensures
        text::trimmed(length_line(length)) == "Content-Length: "@ + text::decimal(length),
        text::trimmed("\r\n"@) == Seq::<char>::empty(),
{
    reveal_strlit("Content-Length: ");
    reveal_strlit("\r\n");
    text::lemma_decimal_digits(length);
    let core = "Content-Length: "@ + text::decimal(length);
    let line = length_line(length);
    assert(line[0] == 'C');
    assert(!text::whitespace('C'));
    assert(text::trim_start(line) == line);
    assert(line.drop_last() =~= core.push('\r'));
    assert(line.drop_last().drop_last() =~= core);
    assert(line.last() == '\n');
    assert(line.drop_last().last() == '\r');
    let digits = text::decimal(length);
    assert(core.last() == digits[digits.len() - 1]);
    assert(text::is_digit(digits[digits.len() - 1]));
    assert(!text::whitespace(core.last()));
    assert(text::trim_end(core) == core);
    assert(text::trim_end(line.drop_last()) == core);
    assert(text::trim_end(line) == core);
    let e = "\r\n"@;
    assert(e.drop_first() =~= seq!['\n']);
    assert(e.drop_first().drop_first() =~= Seq::<char>::empty());
    assert(text::trim_start(e.drop_first().drop_first()) == Seq::<char>::empty());
    assert(text::trim_start(e.drop_first()) == Seq::<char>::empty());
    assert(text::trim_start(e) == Seq::<char>::empty());
}

proof fn lemma_length_line(length: nat)
    requires
        length <= usize::MAX,
    ensures
        header_line(length_line(length), false) == if length > MAX_CONTENT_LENGTH {
            HeaderLine::Fail { error: FrameError::TooLarge { length: length as usize } }
        } else {
            HeaderLine::Length { length: length as usize }
        },
{
    lemma_trim_line(length);
    reveal_strlit("Content-Length: ");
    reveal_strlit("Content-Length");
    text::lemma_decimal_digits(length);
    let t = "Content-Length: "@ + text::decimal(length);
    text::lemma_find_from(t, ':', 0, 14);
    let name = t.take(14);
    assert(name =~= "Content-Length"@);
    assert(!text::whitespace('C'));
    assert(!text::whitespace('h'));
    assert(text::trim_start(name) == name);
    assert(name.last() == 'h');
    assert(text::trimmed(name) == name);
    let value = t.skip(15);
    let digits = text::decimal(length);
    assert(value =~= seq![' '] + digits);
    assert(value.drop_first() =~= digits);
    assert(text::is_digit(digits[0]) && text::is_digit(digits[digits.len() - 1]));
    assert(text::trim_start(digits) == digits);
    assert(text::trim_start(value) == digits);
    assert(text::trim_end(digits) == digits);
    text::law_decimal_round_trip(length, usize::MAX as nat);
}

proof fn lemma_decimal_short(length: nat)
    requires
        length <= u64::MAX,
    ensures
        text::decimal(length).len() <= 20,
{
    reveal_with_fuel(text::decimal, 21);
}

/// The headers of a length, whatever follows them, are read as that length, or
/// refused where it is too large.
proof fn lemma_scan_header(length: nat, rest: Seq<u8>, eof: bool)
    requires
        length <= usize::MAX,
    ensures
        scan_headers(encode_utf8(header_text(length)) + rest, 0, 0, None, eof) == if length
            > MAX_CONTENT_LENGTH {
            ScanView::Fail { error: FrameError::TooLarge { length: length as usize } }
        } else {
            ScanView::Ready {
                at: encode_utf8(header_text(length)).len() as int,
                length: length as usize,
            }
        },
{
    reveal_strlit("Content-Length: ");
    reveal_strlit("\r\n\r\n");
    reveal_strlit("\r\n");
    text::lemma_decimal_digits(length);
    lemma_decimal_short(length);
    let head = header_text(length);
    let line = length_line(length);
    let empty = "\r\n"@;
    assert(head =~= line + empty);
    let digits = text::decimal(length);
    assert(is_ascii_chars(head)) by {
        assert forall|i: int| 0 <= i < head.len() implies '\0' <= #[trigger] head[i]
            <= '\u{7f}' by {
            if 16 <= i < 16 + digits.len() {
                assert(head[i] == digits[i - 16]);
                assert(text::is_digit(digits[i - 16]));
            }
        }
    }
    assert(is_ascii_chars(line)) by {
        assert forall|i: int| 0 <= i < line.len() implies '\0' <= #[trigger] line[i]
            <= '\u{7f}' by {
            assert(line[i] == head[i]);
        }
    }
    assert(is_ascii_chars(empty));
    is_ascii_chars_encode_utf8(head);
    is_ascii_chars_encode_utf8(line);
    is_ascii_chars_encode_utf8(empty);
    let hb = encode_utf8(head);
    let s = hb + rest;
    let n1 = line.len() as int;
    let n2 = head.len() as int;
    // The first line ends at the first newline.
    assert forall|k: int| 0 <= k < n1 - 1 implies s[k] != 10 by {
        assert(s[k] == hb[k]);
        assert(hb[k] == head[k] as u8);
        if 16 <= k < 16 + digits.len() {
            assert(head[k] == digits[k - 16]);
            assert(text::is_digit(digits[k - 16]));
        }
    }
    assert(s[n1 - 1] == 10) by {
        assert(s[n1 - 1] == hb[n1 - 1]);
        assert(hb[n1 - 1] == head[n1 - 1] as u8);
    }
    lemma_newline_at(s, 0, n1 - 1);
    assert(s.subrange(0, n1) =~= encode_utf8(line)) by {
        assert forall|k: int| 0 <= k < n1 implies s[k] == encode_utf8(line)[k] by {
            assert(s[k] == hb[k]);
            assert(hb[k] == head[k] as u8);
            assert(encode_utf8(line)[k] == line[k] as u8);
            assert(line[k] == head[k]);
        }
    }
    encode_utf8_valid_utf8(line);
    encode_utf8_decode_utf8(line);
    lemma_length_line(length);
    if length <= MAX_CONTENT_LENGTH {
        // The second line is empty.
        assert(s[n1] != 10) by {
            assert(s[n1] == hb[n1]);
            assert(hb[n1] == head[n1] as u8);
        }
        assert(s[n1 + 1] == 10) by {
            assert(s[n1 + 1] == hb[n1 + 1]);
            assert(hb[n1 + 1] == head[n1 + 1] as u8);
        }
        lemma_newline_at(s, n1, n1 + 1);
        assert(s.subrange(n1, n2) =~= encode_utf8(empty)) by {
            assert forall|k: int| 0 <= k < 2 implies s[n1 + k] == encode_utf8(empty)[k] by {
                assert(s[n1 + k] == hb[n1 + k]);
                assert(hb[n1 + k] == head[n1 + k] as u8);
                assert(encode_utf8(empty)[k] == empty[k] as u8);
            }
        }
        encode_utf8_valid_utf8(empty);
        encode_utf8_decode_utf8(empty);
        lemma_trim_line(length);
        assert(scan_headers(s, n1, n1, Some(length as usize), eof) == (ScanView::Ready {
            at: n2,
            length: length as usize,
        }));
    }
}

proof fn lemma_newline_at(s: Seq<u8>, from: int, at: int)
    requires
        0 <= from <= at < s.len(),
        s[at] == 10,
        forall|k: int| from <= k < at ==> s[k] != 10,
    ensures
        newline_from(s, from) == at,
    decreases at - from,
{
    if from < at {
        lemma_newline_at(s, from + 1, at);
    }
}

/// Reading gives back what was written: the front of a framed body, whatever
/// follows it, is that body, and what follows is left.
pub proof fn law_frame_round_trip(body: Seq<u8>, rest: Seq<u8>, eof: bool)
    requires
        body.len() <= MAX_CONTENT_LENGTH,
    ensures
        front(framed(body) + rest, eof) matches FrameView::Body { from, to } && (framed(body)
            + rest).subrange(from, to) == body && (framed(body) + rest).skip(to) == rest,
{
    let head = encode_utf8(header_text(body.len()));
    assert(framed(body) + rest =~= head + (body + rest));
    lemma_scan_header(body.len(), body + rest, eof);
    let s = framed(body) + rest;
    let from = head.len() as int;
    let to = from + body.len();
    assert(s.subrange(from, to) =~= body);
    assert(s.skip(to) =~= rest);
}

/// The bytes of some messages on the wire, one after another.
pub open spec fn wire_bytes(msgs: Seq<JsonView>) -> Seq<u8>
    decreases msgs.len(),
{
    if msgs.len() == 0 {
        Seq::empty()
    } else {
        message_bytes(msgs[0]) + wire_bytes(msgs.drop_first())
    }
}

/// Messages that were sent one after another, before the stream ended, are
/// received as they are and in that order. That the bytes of each carry it is
/// what [`LspTransport::send`] promises.
pub proof fn law_sent_messages_are_received(msgs: Seq<JsonView>)
    requires
        forall|i: int|
            0 <= i < msgs.len() ==> is_sendable(#[trigger] msgs[i]) && carries(
                message_bytes(msgs[i]),
                msgs[i],
            ),
    ensures
        received(wire_bytes(msgs)) == (msgs, None::<Seq<char>>),
    decreases msgs.len(),
{
    let s = wire_bytes(msgs);
    if msgs.len() == 0 {
        assert(front(s, true) is End);
        assert(received(s).0 =~= msgs);
    } else {
        let others = msgs.drop_first();
        assert forall|i: int| 0 <= i < others.len() implies is_sendable(#[trigger] others[i])
            && carries(message_bytes(others[i]), others[i]) by {
            assert(others[i] == msgs[i + 1]);
        }
        law_sent_messages_are_received(others);
        assert(is_sendable(msgs[0]) && carries(message_bytes(msgs[0]), msgs[0]));
        assert(front(message_bytes(msgs[0]) + wire_bytes(others), true) is Body);
        lemma_front_advances(s, true);
        assert(seq![msgs[0]] + others =~= msgs);
    }
}

/// A body that is too large is refused by its headers alone, before any of it
/// is read.
pub proof fn law_oversized_body_is_refused(length: nat, rest: Seq<u8>, eof: bool)
    requires
        MAX_CONTENT_LENGTH < length <= usize::MAX,
    ensures
        front(encode_utf8(header_text(length)) + rest, eof) == (FrameView::Fail {
            error: FrameError::TooLarge { length: length as usize },
        }),
{
    lemma_scan_header(length, rest, eof);
}

/// A line without a newline is refused as soon as it is too long, and so never
/// grows without bound.
pub proof fn law_endless_line_is_refused(s: Seq<u8>, eof: bool)
    requires
        s.len() > MAX_HEADER_LINE_BYTES,
        forall|k: int| 0 <= k < s.len() ==> s[k] != 10,
    ensures
        front(s, eof) == (FrameView::Fail { error: FrameError::LineTooLong }),
{
    lemma_no_newline(s, 0);
}

proof fn lemma_no_newline(s: Seq<u8>, from: int)
    requires
        0 <= from <= s.len(),
        forall|k: int| 0 <= k < s.len() ==> s[k] != 10,
    ensures
        newline_from(s, from) == s.len(),
    decreases s.len() - from,
{
    if from < s.len() {
        lemma_no_newline(s, from + 1);
    }
}

} // verus!
