//! Streaming responses: newline-delimited frames, and the events decoded from them.

use vstd::prelude::*;
use vstd::utf8::*;
use vstd::string::StringSliceAdditionalSpecFns;
use crate::error::Error;
use crate::json::{Json, JsonValue, json_parse, parse_json, trailing_characters, invalid_member, invalid_member_text,
    view_entries, view_json, lemma_view_entries, lemma_view_entries_push};
use crate::models::{Timestamp, TemplateLogEvent, TemplateLogView};
use crate::text::{chars_of, trim, trimmed, has_prefix, starts_with, string_from_range, str_eq};
use crate::wire::{ExecStreamEventType, ManagedProcessConnectEventType, ManagedProcessStream};

verus! {

/// Largest frame a stream may buffer (16 MiB).
pub const MAX_STREAM_EVENT: usize = 16_777_216;

/// Bytes received from a stream and not yet split into lines.
pub struct LineBuffer {
    buffer: Vec<u8>,
    finished: bool,
}

/// Whether `line` is the next line of a buffer holding `before`, leaving `after`: the
/// bytes up to and including the first line feed; or, once the stream has ended, all of
/// the bytes when there is no line feed.
pub open spec fn takes_line(before: Seq<u8>, ended: bool, line: Seq<u8>, after: Seq<u8>) -> bool {
    ||| (exists|i: int| 0 <= i < before.len()
            && before[i] == 0x0Au8
            && (forall|j: int| 0 <= j < i ==> before[j] != 0x0Au8)
            && line == before.subrange(0, i + 1)
            && after == before.subrange(i + 1, before.len() as int))
    ||| ((forall|j: int| 0 <= j < before.len() ==> before[j] != 0x0Au8)
            && ended && before.len() > 0
            && line == before && after.len() == 0)
}

impl LineBuffer {
    /// The buffered bytes.
    pub closed spec fn pending(self) -> Seq<u8> {
        self.buffer@
    }

    /// Whether the stream has ended.
    pub closed spec fn ended(self) -> bool {
        self.finished
    }

    /// An empty buffer of an open stream.
    pub fn new() -> (b: LineBuffer)
        ensures
            b.pending().len() == 0,
            !b.ended(),
    {
        LineBuffer { buffer: Vec::new(), finished: false }
    }

    /// Takes the next complete line, with its line feed; once the stream has ended, the
    /// rest of the bytes form the last line.
    pub fn next_line(&mut self) -> (line: Option<Vec<u8>>)
        ensures
            final(self).ended() == old(self).ended(),
            match line {
                Some(l) => takes_line(old(self).pending(), old(self).ended(), l@, final(self).pending()),
                None => {
                    &&& final(self).pending() == old(self).pending()
                    &&& forall|j: int| 0 <= j < old(self).pending().len() ==> old(self).pending()[j] != 0x0Au8
                    &&& (old(self).ended() ==> old(self).pending().len() == 0)
                },
            },
    {
        let mut i: usize = 0;
        while i < self.buffer.len()
            invariant
                i <= self.buffer.len(),
                self.buffer@ == old(self).buffer@,
                self.finished == old(self).finished,
                forall|j: int| 0 <= j < i ==> self.buffer@[j] != 0x0Au8,
            decreases self.buffer.len() - i,
        {
            if self.buffer[i] == 0x0A {
                let ghost before = self.buffer@;
                let mut rest = self.buffer.split_off(i + 1);
                core::mem::swap(&mut rest, &mut self.buffer);
                assert(rest@ == before.subrange(0, i + 1));
                return Some(rest);
            }
            i += 1;
        }
        if self.finished && self.buffer.len() > 0 {
            let mut rest: Vec<u8> = Vec::new();
            core::mem::swap(&mut rest, &mut self.buffer);
            return Some(rest);
        }
        None
    }

    /// Appends received bytes; more than [`MAX_STREAM_EVENT`] buffered bytes is a protocol error.
    pub fn push_chunk(&mut self, chunk: &[u8]) -> (r: Result<(), Error>)
        ensures
            final(self).pending() == old(self).pending() + chunk@,
            final(self).ended() == old(self).ended(),
            r is Ok == (final(self).pending().len() <= MAX_STREAM_EVENT),
            r matches Err(e) ==> (e matches Error::Protocol(m) && m@ == "stream event exceeds the 16 MiB limit"@),
    {
        let ghost start = self.buffer@;
        let mut i: usize = 0;
        while i < chunk.len()
            invariant
                i <= chunk.len(),
                self.buffer@ == start + chunk@.subrange(0, i as int),
                self.finished == old(self).finished,
            decreases chunk.len() - i,
        {
            self.buffer.push(chunk[i]);
            i += 1;
            assert(self.buffer@ =~= start + chunk@.subrange(0, i as int));
        }
        assert(chunk@.subrange(0, chunk@.len() as int) =~= chunk@);
        self.check_size()
    }

    /// Marks the end of the stream.
    pub fn finish(&mut self) -> (r: Result<(), Error>)
        ensures
            final(self).pending() == old(self).pending(),
            final(self).ended(),
            r is Ok == (old(self).pending().len() <= MAX_STREAM_EVENT),
            r matches Err(e) ==> (e matches Error::Protocol(m) && m@ == "stream event exceeds the 16 MiB limit"@),
    {
        self.finished = true;
        self.check_size()
    }

    fn check_size(&self) -> (r: Result<(), Error>)
        ensures
            r is Ok == (self.pending().len() <= MAX_STREAM_EVENT),
            r matches Err(e) ==> (e matches Error::Protocol(m) && m@ == "stream event exceeds the 16 MiB limit"@),
    {
        if self.buffer.len() > MAX_STREAM_EVENT {
            Err(Error::Protocol(String::from_str("stream event exceeds the 16 MiB limit")))
        } else {
            Ok(())
        }
    }

    /// Whether the stream has ended and every byte has been handed out.
    pub fn exhausted(&self) -> (b: bool)
        ensures
            b == (self.ended() && self.pending().len() == 0),
    {
        self.finished && self.buffer.len() == 0
    }
}

/// How `Utf8Error` describes why `bytes` is not UTF-8.
pub uninterp spec fn utf8_error_text(bytes: Seq<u8>) -> Seq<char>;

/// `std::str::from_utf8`: the text, when the bytes are valid UTF-8; else the error's
/// description.
#[verifier::external_body]
pub(crate) fn utf8_text(bytes: &[u8]) -> (r: Result<String, String>)
    ensures
        r is Ok == valid_utf8(bytes@),
        r matches Ok(s) ==> s@ == decode_utf8(bytes@),
        r matches Err(e) ==> e@ == utf8_error_text(bytes@),
{
    match std::str::from_utf8(bytes) {
        Ok(s) => Ok(s.to_owned()),
        Err(e) => Err(e.to_string()),
    }
}

/// Whether a trimmed line carries no event: empty, a comment, or an `event:`, `id:` or
/// `retry:` field.
pub open spec fn is_control_line(t: Seq<char>) -> bool {
    t.len() == 0 || has_prefix(t, ":"@) || has_prefix(t, "event:"@) || has_prefix(t, "id:"@)
        || has_prefix(t, "retry:"@)
}

/// The payload of a trimmed line: after `data:` and trimmed again, or the whole line.
pub open spec fn line_payload(t: Seq<char>) -> Seq<char> {
    if has_prefix(t, "data:"@) { trimmed(t.subrange(5, t.len() as int)) } else { t }
}

/// What one line of a stream holds: nothing for blank and control lines; otherwise the
/// JSON document of its payload, or why it is not one.
pub open spec fn line_outcome(line: Seq<u8>) -> Result<Option<Json>, Seq<char>> {
    if !valid_utf8(line) {
        Err("stream is not UTF-8: "@ + utf8_error_text(line))
    } else {
        let t = trimmed(decode_utf8(line));
        if is_control_line(t) {
            Ok(None)
        } else {
            let p = line_payload(t);
            if p.len() == 0 {
                Ok(None)
            } else {
                match json_parse(encode_utf8(p)) {
                    Ok(v) => Ok(Some(v)),
                    Err(e) => Err("decode stream event: "@ + e),
                }
            }
        }
    }
}

/// Decodes one line of a stream; see [`line_outcome`]. Failures are protocol errors.
pub fn decode_stream_line(line: &[u8]) -> (r: Result<Option<JsonValue>, Error>)
    ensures
        match (r, line_outcome(line@)) {
            (Ok(None), Ok(None)) => true,
            (Ok(Some(v)), Ok(Some(w))) => v@ == w,
            (Err(Error::Protocol(m)), Err(w)) => m@ == w,
            _ => false,
        },
{
    let text = match utf8_text(line) {
        Ok(s) => s,
        Err(e) => {
            let mut m = String::from_str("stream is not UTF-8: ");
            m.append(e.as_str());
            return Err(Error::Protocol(m));
        },
    };
    let t = trim(text.as_str());
    let cs = chars_of(t.as_str());
    if cs.len() == 0 || starts_with(cs.as_slice(), ":") || starts_with(cs.as_slice(), "event:")
        || starts_with(cs.as_slice(), "id:") || starts_with(cs.as_slice(), "retry:") {
        return Ok(None);
    }
    let payload = if starts_with(cs.as_slice(), "data:") {
        proof {
            reveal_strlit("data:");
        }
        let rest = string_from_range(&cs, 5, cs.len());
        trim(rest.as_str())
    } else {
        t
    };
    if payload.as_str().is_empty() {
        return Ok(None);
    }
    match parse_json(payload.as_str().as_bytes()) {
        Ok(v) => Ok(Some(v)),
        Err(e) => {
            let mut m = String::from_str("decode stream event: ");
            m.append(e.as_str());
            Err(Error::Protocol(m))
        },
    }
}

// ---------------------------------------------------------------------------
// Command output.

/// Raw command stream frame.
#[derive(Clone, Debug, Default, PartialEq)]
pub struct CommandStreamFrame {
    /// Value of the `stdout` API field.
    pub standard_output: String,
    /// Value of the `stderr` API field.
    pub standard_error: String,
    /// Value of the `exit_code` API field.
    pub exit_code: Option<i32>,
    /// Value of the `error` API field.
    pub error_message: String,
    /// Value of the `hb` API field.
    pub heartbeat: bool,
}

/// Decoded command stream event.
#[derive(Clone, Debug, Default, PartialEq)]
pub struct CommandStreamEvent {
    /// Value of the `type` API field.
    pub kind: ExecStreamEventType,
    /// Value of the `data` API field.
    pub data: String,
    /// Value of the `exit_code` API field.
    pub exit_code: Option<i32>,
    /// Value of the `message` API field.
    pub message: String,
}

/// The content of a command stream event: kind, data, exit code and message.
pub open spec fn event_view(e: CommandStreamEvent) -> (Seq<char>, Seq<char>, Option<i32>, Seq<char>) {
    (e.kind.0@, e.data@, e.exit_code, e.message@)
}

/// The message when a frame is neither an object nor an array.
pub open spec fn not_a_frame() -> Seq<char> {
    "invalid type: expected a stream frame object"@
}

/// What a command stream frame given as an array should hold.
pub open spec fn command_frame_shape() -> Seq<char> {
    "struct CommandStreamFrame with 5 elements"@
}

/// Decodes a command stream frame from its JSON object: `stdout`, `stderr` and `error`
/// default to empty, `hb` to false, and `exit_code` is optional. A frame may also be an
/// array of those five in order (`stdout`, `stderr`, `exit_code`, `error`, `hb`), where
/// the elements after `exit_code` may be left out.
pub open spec fn command_frame_from_json(v: Json) -> Result<(Seq<char>, Seq<char>, Option<i32>, Seq<char>, bool), Seq<char>> {
    if !(v is Object || v is Array) {
        Err(not_a_frame())
    } else {
        match v.string_or_default(0, "stdout"@) {
            Err(e) => Err(e),
            Ok(out) => match v.string_or_default(1, "stderr"@) {
                Err(e) => Err(e),
                Ok(err) => match v.optional_i32(2, "exit_code"@, command_frame_shape()) {
                    Err(e) => Err(e),
                    Ok(code) => match v.string_or_default(3, "error"@) {
                        Err(e) => Err(e),
                        Ok(msg) => match v.bool_or_default(4, "hb"@) {
                            Err(e) => Err(e),
                            Ok(hb) => if v.longer_than(5) { Err(trailing_characters()) } else { Ok((out, err, code, msg, hb)) },
                        },
                    },
                },
            },
        }
    }
}

/// The events of a frame, in order: a heartbeat, standard output, standard error, an
/// agent error and the exit, each only when the frame carries it.
pub open spec fn frame_events(f: (Seq<char>, Seq<char>, Option<i32>, Seq<char>, bool)) -> Seq<(Seq<char>, Seq<char>, Option<i32>, Seq<char>)> {
    let empty = Seq::<char>::empty();
    let a = if f.4 { seq![("heartbeat"@, empty, None::<i32>, empty)] } else { Seq::empty() };
    let b = if f.0.len() > 0 { a.push(("stdout"@, f.0, None, empty)) } else { a };
    let c = if f.1.len() > 0 { b.push(("stderr"@, f.1, None, empty)) } else { b };
    let d = if f.3.len() > 0 { c.push(("error"@, empty, None, f.3)) } else { c };
    match f.2 {
        Some(code) => d.push(("exit"@, empty, Some(code), empty)),
        None => d,
    }
}

/// An event of the given kind with no data, exit code or message.
pub fn event(kind: &str) -> (e: CommandStreamEvent)
    ensures
        event_view(e) == (kind@, Seq::<char>::empty(), None::<i32>, Seq::<char>::empty()),
{
    CommandStreamEvent {
        kind: ExecStreamEventType::new(kind),
        data: String::new(),
        exit_code: None,
        message: String::new(),
    }
}

impl CommandStreamFrame {
    /// The frame's content.
    pub open spec fn content(self) -> (Seq<char>, Seq<char>, Option<i32>, Seq<char>, bool) {
        (self.standard_output@, self.standard_error@, self.exit_code, self.error_message@, self.heartbeat)
    }

    /// Decodes a frame; see [`command_frame_from_json`].
    pub fn from_json(v: &JsonValue) -> (r: Result<CommandStreamFrame, String>)
        ensures
            match (r, command_frame_from_json(v@)) {
                (Ok(f), Ok(g)) => f.content() == g,
                (Err(a), Err(b)) => a@ == b,
                _ => false,
            },
    {
        if !(v.is_object() || v.is_array()) {
            return Err(String::from_str("invalid type: expected a stream frame object"));
        }
        let shape = "struct CommandStreamFrame with 5 elements";
        proof {
            reveal_strlit("struct CommandStreamFrame with 5 elements");
        }
        let standard_output = v.string_or_default(0, "stdout")?;
        let standard_error = v.string_or_default(1, "stderr")?;
        let exit_code = v.optional_i32(2, "exit_code", shape)?;
        let error_message = v.string_or_default(3, "error")?;
        let heartbeat = v.bool_or_default(4, "hb")?;
        if v.longer_than(5) {
            return Err(String::from_str("trailing characters"));
        }
        Ok(CommandStreamFrame { standard_output, standard_error, exit_code, error_message, heartbeat })
    }

    /// The events this frame carries; see [`frame_events`].
    pub fn into_events(self) -> (events: Vec<CommandStreamEvent>)
        ensures
            events@.map_values(|e: CommandStreamEvent| event_view(e)) == frame_events(self.content()),
    {
        let ghost f = self.content();
        let mut events: Vec<CommandStreamEvent> = Vec::new();
        if self.heartbeat {
            events.push(event(ExecStreamEventType::HEARTBEAT));
            proof { reveal_strlit("heartbeat"); }
        }
        if !self.standard_output.as_str().is_empty() {
            let mut value = event(ExecStreamEventType::STDOUT);
            value.data = self.standard_output;
            events.push(value);
        }
        if !self.standard_error.as_str().is_empty() {
            let mut value = event(ExecStreamEventType::STDERR);
            value.data = self.standard_error;
            events.push(value);
        }
        if !self.error_message.as_str().is_empty() {
            let mut value = event(ExecStreamEventType::ERROR);
            value.message = self.error_message;
            events.push(value);
        }
        match self.exit_code {
            Some(code) => {
                let mut value = event(ExecStreamEventType::EXIT);
                value.exit_code = Some(code);
                events.push(value);
            },
            None => {},
        }
        assert(events@.map_values(|e: CommandStreamEvent| event_view(e)) =~= frame_events(f));
        events
    }
}

/// Decodes one line of a command stream into a frame; blank and control lines carry none.
pub fn decode_command_line(line: &[u8]) -> (r: Result<Option<CommandStreamFrame>, Error>)
    ensures
        match (r, line_outcome(line@)) {
            (Ok(None), Ok(None)) => true,
            (Ok(Some(f)), Ok(Some(v))) => command_frame_from_json(v) == Ok::<_, Seq<char>>(f.content()),
            (Err(Error::Protocol(m)), Err(w)) => m@ == w,
            (Err(Error::Protocol(m)), Ok(Some(v))) => command_frame_from_json(v) matches Err(e)
                && m@ == "decode stream event: "@ + e,
            _ => false,
        },
{
    match decode_stream_line(line)? {
        None => Ok(None),
        Some(v) => match CommandStreamFrame::from_json(&v) {
            Ok(f) => Ok(Some(f)),
            Err(e) => {
                let mut m = String::from_str("decode stream event: ");
                m.append(e.as_str());
                Err(Error::Protocol(m))
            },
        },
    }
}

// ---------------------------------------------------------------------------
// Managed process output.

/// The bytes that base64 text with the standard alphabet and padding stands for: the
/// bytes whose encoding (see [`base64_encoded`]) is exactly the text; none when the text
/// is no such encoding. No two byte strings have the same encoding
/// ([`lemma_base64_encoding_is_one_to_one`]).
pub open spec fn base64_decoded(text: Seq<char>) -> Option<Seq<u8>> {
    if exists|b: Seq<u8>| base64_encoded(b) == text {
        Some(choose|b: Seq<u8>| base64_encoded(b) == text)
    } else {
        None
    }
}

proof fn lemma_base64_digit(n: int, m: int)
    requires
        0 <= n < 64,
        0 <= m < 64,
    ensures
        base64_digit(n) != '=',
        base64_digit(n) == base64_digit(m) ==> n == m,
{
    let cn = base64_digit(n);
    let cm = base64_digit(m);
    assert(('=' as u32) == 61);
    assert(('+' as u32) == 43);
    assert(('/' as u32) == 47);
    if n < 26 {
        assert(cn as u32 == 65 + n);
    } else if n < 52 {
        assert(cn as u32 == 97 + n - 26);
    } else if n < 62 {
        assert(cn as u32 == 48 + n - 52);
    }
    if m < 26 {
        assert(cm as u32 == 65 + m);
    } else if m < 52 {
        assert(cm as u32 == 97 + m - 26);
    } else if m < 62 {
        assert(cm as u32 == 48 + m - 52);
    }
}

proof fn lemma_base64_group(a0: int, a1: int, a2: int, b0: int, b1: int, b2: int)
    requires
        0 <= a0 < 256, 0 <= a1 < 256, 0 <= a2 < 256,
        0 <= b0 < 256, 0 <= b1 < 256, 0 <= b2 < 256,
        a0 / 4 == b0 / 4,
        (a0 % 4) * 16 + a1 / 16 == (b0 % 4) * 16 + b1 / 16,
    ensures
        a0 == b0,
        a1 / 16 == b1 / 16,
        (a1 % 16) * 4 + a2 / 64 == (b1 % 16) * 4 + b2 / 64 ==> a1 == b1 && a2 / 64 == b2 / 64,
        a1 == b1 && a2 / 64 == b2 / 64 && a2 % 64 == b2 % 64 ==> a2 == b2,
{
    assert(a0 % 4 == b0 % 4 && a1 / 16 == b1 / 16) by (nonlinear_arith)
        requires
            0 <= a1 < 256, 0 <= b1 < 256, 0 <= a0 % 4 < 4, 0 <= b0 % 4 < 4,
            (a0 % 4) * 16 + a1 / 16 == (b0 % 4) * 16 + b1 / 16;
    assert(a0 == 4 * (a0 / 4) + a0 % 4 && b0 == 4 * (b0 / 4) + b0 % 4) by (nonlinear_arith);
    if (a1 % 16) * 4 + a2 / 64 == (b1 % 16) * 4 + b2 / 64 {
        assert(a1 % 16 == b1 % 16 && a2 / 64 == b2 / 64) by (nonlinear_arith)
            requires
                0 <= a2 < 256, 0 <= b2 < 256, 0 <= a1 % 16 < 16, 0 <= b1 % 16 < 16,
                (a1 % 16) * 4 + a2 / 64 == (b1 % 16) * 4 + b2 / 64;
        assert(a1 == 16 * (a1 / 16) + a1 % 16 && b1 == 16 * (b1 / 16) + b1 % 16) by (nonlinear_arith);
    }
    assert(a2 == 64 * (a2 / 64) + a2 % 64 && b2 == 64 * (b2 / 64) + b2 % 64) by (nonlinear_arith);
}

/// No two byte strings have the same base64 encoding.
pub proof fn lemma_base64_encoding_is_one_to_one(a: Seq<u8>, b: Seq<u8>)
    requires
        base64_encoded(a) == base64_encoded(b),
    ensures
        a == b,
    decreases a.len(),
{
    let ea = base64_encoded(a);
    let eb = base64_encoded(b);
    if a.len() == 0 || b.len() == 0 {
        if a.len() > 0 {
            assert(ea.len() >= 4);
        }
        if b.len() > 0 {
            assert(eb.len() >= 4);
        }
        assert(a =~= b);
    } else {
        let a0 = a[0] as int;
        let a1 = if a.len() > 1 { a[1] as int } else { 0 };
        let a2 = if a.len() > 2 { a[2] as int } else { 0 };
        let b0 = b[0] as int;
        let b1 = if b.len() > 1 { b[1] as int } else { 0 };
        let b2 = if b.len() > 2 { b[2] as int } else { 0 };
        assert(ea[0] == eb[0] && ea[1] == eb[1] && ea[2] == eb[2] && ea[3] == eb[3]);
        lemma_base64_digit(a0 / 4, b0 / 4);
        lemma_base64_digit((a0 % 4) * 16 + a1 / 16, (b0 % 4) * 16 + b1 / 16);
        lemma_base64_digit((a1 % 16) * 4 + a2 / 64, (b1 % 16) * 4 + b2 / 64);
        lemma_base64_digit(a2 % 64, b2 % 64);
        lemma_base64_group(a0, a1, a2, b0, b1, b2);
        // The padding shows how many bytes the first group holds.
        assert((a.len() > 1) == (b.len() > 1));
        assert((a.len() > 2) == (b.len() > 2));
        if a.len() <= 3 || b.len() <= 3 {
            if a.len() > 3 {
                let ra = a.subrange(3, a.len() as int);
                assert(base64_encoded(ra).len() >= 4);
                assert(ea.len() > 4);
            }
            if b.len() > 3 {
                let rb = b.subrange(3, b.len() as int);
                assert(base64_encoded(rb).len() >= 4);
                assert(eb.len() > 4);
            }
            assert(a.len() == b.len());
            assert(a =~= b);
        } else {
            let ra = a.subrange(3, a.len() as int);
            let rb = b.subrange(3, b.len() as int);
            assert(ea.subrange(4, ea.len() as int) =~= base64_encoded(ra));
            assert(eb.subrange(4, eb.len() as int) =~= base64_encoded(rb));
            lemma_base64_encoding_is_one_to_one(ra, rb);
            assert(a =~= a.subrange(0, 3) + ra);
            assert(b =~= b.subrange(0, 3) + rb);
            assert(a.subrange(0, 3) =~= b.subrange(0, 3));
        }
    }
}

/// The character of a six-bit value in the standard base64 alphabet: `A` to `Z`, `a` to
/// `z`, `0` to `9`, `+` and `/`.
pub open spec fn base64_digit(n: int) -> char {
    if n < 26 {
        (65 + n) as char
    } else if n < 52 {
        (97 + n - 26) as char
    } else if n < 62 {
        (48 + n - 52) as char
    } else if n == 62 {
        '+'
    } else {
        '/'
    }
}

/// The base64 text, standard alphabet with padding, of some bytes: each group of three
/// bytes becomes four characters of six bits each, and a last group of one or two bytes
/// is filled with zero bits and padded with `=` to four characters.
pub open spec fn base64_encoded(bytes: Seq<u8>) -> Seq<char>
    decreases bytes.len(),
{
    if bytes.len() == 0 {
        Seq::empty()
    } else {
        let b0 = bytes[0] as int;
        let b1 = if bytes.len() > 1 { bytes[1] as int } else { 0 };
        let b2 = if bytes.len() > 2 { bytes[2] as int } else { 0 };
        let group = seq![
            base64_digit(b0 / 4),
            base64_digit((b0 % 4) * 16 + b1 / 16),
            if bytes.len() > 1 { base64_digit((b1 % 16) * 4 + b2 / 64) } else { '=' },
            if bytes.len() > 2 { base64_digit(b2 % 64) } else { '=' },
        ];
        if bytes.len() <= 3 {
            group
        } else {
            group + base64_encoded(bytes.subrange(3, bytes.len() as int))
        }
    }
}

/// `base64::engine::general_purpose::STANDARD.decode(text)`: the engine requires canonical
/// padding and no trailing bits, so it succeeds exactly when the text is the encoding of
/// some bytes, and gives bytes whose encoding the text is.
#[verifier::external_body]
pub(crate) fn base64_decode(text: &str) -> (r: Result<Vec<u8>, base64::DecodeError>)
    ensures
        r is Ok == exists|b: Seq<u8>| base64_encoded(b) == text@,
        r matches Ok(v) ==> base64_encoded(v@) == text@,
{
    base64::Engine::decode(&base64::engine::general_purpose::STANDARD, text)
}

/// `base64::engine::general_purpose::STANDARD.encode(bytes)`.
#[verifier::external_body]
pub(crate) fn base64_encode(bytes: &[u8]) -> (r: String)
    ensures
        r@ == base64_encoded(bytes@),
{
    base64::Engine::encode(&base64::engine::general_purpose::STANDARD, bytes)
}

/// Raw process connection frame.
#[derive(Clone, Debug, Default, PartialEq)]
pub struct ManagedProcessConnectFrame {
    /// Value of the `type` API field.
    pub kind: ManagedProcessConnectEventType,
    /// Value of the `seq` API field.
    pub sequence: i64,
    /// Value of the `stream` API field.
    pub stream: ManagedProcessStream,
    /// Value of the `data_base64` API field.
    pub data_base64: String,
    /// Value of the `exit_code` API field.
    pub exit_code: Option<i32>,
    /// Value of the `signal` API field.
    pub signal: Option<String>,
    /// Value of the `error` API field.
    pub error_message: String,
    /// Value of the `oldest_available_seq` API field.
    pub oldest_available_seq: i64,
}

/// The content of a process connection frame.
pub struct ProcessFrameView {
    pub kind: Seq<char>,
    pub sequence: i64,
    pub stream: Seq<char>,
    pub data_base64: Seq<char>,
    pub exit_code: Option<i32>,
    pub signal: Option<Seq<char>>,
    pub error_message: Seq<char>,
    pub oldest_available_seq: i64,
}

/// What a process connection frame given as an array should hold.
pub open spec fn process_frame_shape() -> Seq<char> {
    "struct ManagedProcessConnectFrame with 8 elements"@
}

/// Decodes a process connection frame: `type` is required; `seq` and
/// `oldest_available_seq` default to 0; `stream`, `data_base64` and `error` to empty;
/// `exit_code` and `signal` are optional. A frame may also be an array of those eight in
/// order (`type`, `seq`, `stream`, `data_base64`, `exit_code`, `signal`, `error`,
/// `oldest_available_seq`), where the last two may be left out.
pub open spec fn process_frame_from_json(v: Json) -> Result<ProcessFrameView, Seq<char>> {
    if !(v is Object || v is Array) {
        Err(not_a_frame())
    } else {
        let shape = process_frame_shape();
        match (v.required_string(0, "type"@, shape), v.i64_or_default(1, "seq"@), v.string_or_default(2, "stream"@),
            v.string_or_default(3, "data_base64"@), v.optional_i32(4, "exit_code"@, shape), v.optional_string(5, "signal"@, shape),
            v.string_or_default(6, "error"@), v.i64_or_default(7, "oldest_available_seq"@)) {
            (Ok(kind), Ok(sequence), Ok(stream), Ok(data_base64), Ok(exit_code), Ok(signal), Ok(error_message), Ok(oldest)) =>
                if v.longer_than(8) {
                    Err(trailing_characters())
                } else {
                    Ok(ProcessFrameView { kind, sequence, stream, data_base64, exit_code, signal, error_message, oldest_available_seq: oldest })
                },
            (Err(e), _, _, _, _, _, _, _) => Err(e),
            (_, Err(e), _, _, _, _, _, _) => Err(e),
            (_, _, Err(e), _, _, _, _, _) => Err(e),
            (_, _, _, Err(e), _, _, _, _) => Err(e),
            (_, _, _, _, Err(e), _, _, _) => Err(e),
            (_, _, _, _, _, Err(e), _, _) => Err(e),
            (_, _, _, _, _, _, Err(e), _) => Err(e),
            (_, _, _, _, _, _, _, Err(e)) => Err(e),
        }
    }
}

impl ManagedProcessConnectFrame {
    /// The frame's content.
    pub open spec fn content(self) -> ProcessFrameView {
        ProcessFrameView {
            kind: self.kind.0@,
            sequence: self.sequence,
            stream: self.stream.0@,
            data_base64: self.data_base64@,
            exit_code: self.exit_code,
            signal: match self.signal { Some(s) => Some(s@), None => None },
            error_message: self.error_message@,
            oldest_available_seq: self.oldest_available_seq,
        }
    }

    /// Decodes a frame; see [`process_frame_from_json`].
    pub fn from_json(v: &JsonValue) -> (r: Result<ManagedProcessConnectFrame, String>)
        ensures
            match (r, process_frame_from_json(v@)) {
                (Ok(f), Ok(g)) => f.content() == g,
                (Err(a), Err(b)) => a@ == b,
                _ => false,
            },
    {
        if !(v.is_object() || v.is_array()) {
            return Err(String::from_str("invalid type: expected a stream frame object"));
        }
        let shape = "struct ManagedProcessConnectFrame with 8 elements";
        proof {
            reveal_strlit("struct ManagedProcessConnectFrame with 8 elements");
        }
        let kind = v.required_string(0, "type", shape)?;
        let sequence = v.i64_or_default(1, "seq")?;
        let stream = v.string_or_default(2, "stream")?;
        let data_base64 = v.string_or_default(3, "data_base64")?;
        let exit_code = v.optional_i32(4, "exit_code", shape)?;
        let signal = v.optional_string(5, "signal", shape)?;
        let error_message = v.string_or_default(6, "error")?;
        let oldest_available_seq = v.i64_or_default(7, "oldest_available_seq")?;
        if v.longer_than(8) {
            return Err(String::from_str("trailing characters"));
        }
        Ok(ManagedProcessConnectFrame {
            kind: ManagedProcessConnectEventType(kind),
            sequence,
            stream: ManagedProcessStream(stream),
            data_base64,
            exit_code,
            signal,
            error_message,
            oldest_available_seq,
        })
    }
}

/// Decoded process connection event.
#[derive(Clone, Debug, Default, PartialEq)]
pub struct ManagedProcessConnectEvent {
    /// Event kind.
    pub kind: ManagedProcessConnectEventType,
    /// Monotonic output sequence.
    pub sequence: i64,
    /// Process output stream that produced the data.
    pub stream: ManagedProcessStream,
    /// Decoded binary event payload.
    pub data: Vec<u8>,
    /// Exit code for an exit event.
    pub exit_code: Option<i32>,
    /// Terminating signal, when present.
    pub signal: Option<String>,
    /// Error message for an error event.
    pub message: String,
    /// Oldest sequence still retained by the server.
    pub oldest_available_sequence: i64,
}

impl ManagedProcessConnectEvent {
    /// The event of a frame: its payload base64-decoded (empty text is no data); the
    /// other members carried over. Invalid base64 is an error.
    pub fn from_frame(frame: ManagedProcessConnectFrame) -> (r: Result<ManagedProcessConnectEvent, Error>)
        ensures
            frame.data_base64@.len() != 0 && base64_decoded(frame.data_base64@) is None <==> r matches Err(Error::Base64(_)),
            r is Err ==> r matches Err(Error::Base64(_)),
            r matches Ok(e) ==> {
                &&& e.kind.0@ == frame.kind.0@
                &&& e.sequence == frame.sequence
                &&& e.stream.0@ == frame.stream.0@
                &&& e.data@ == if frame.data_base64@.len() == 0 { Seq::<u8>::empty() }
                    else { base64_decoded(frame.data_base64@)->0 }
                &&& e.exit_code == frame.exit_code
                &&& e.signal == frame.signal
                &&& e.message@ == frame.error_message@
                &&& e.oldest_available_sequence == frame.oldest_available_seq
            },
    {
        let data = if frame.data_base64.as_str().is_empty() {
            Vec::new()
        } else {
            match base64_decode(frame.data_base64.as_str()) {
                Ok(d) => {
                    proof {
                        let b = choose|b: Seq<u8>| base64_encoded(b) == frame.data_base64@;
                        lemma_base64_encoding_is_one_to_one(d@, b);
                    }
                    d
                },
                Err(e) => return Err(Error::Base64(e)),
            }
        };
        Ok(ManagedProcessConnectEvent {
            kind: frame.kind,
            sequence: frame.sequence,
            stream: frame.stream,
            data,
            exit_code: frame.exit_code,
            signal: frame.signal,
            message: frame.error_message,
            oldest_available_sequence: frame.oldest_available_seq,
        })
    }
}

/// The event a process frame describes: its payload base64-decoded (empty text is no
/// data) and the other members carried over.
pub open spec fn process_event_matches(ev: ManagedProcessConnectEvent, f: ProcessFrameView) -> bool {
    &&& ev.kind.0@ == f.kind
    &&& ev.sequence == f.sequence
    &&& ev.stream.0@ == f.stream
    &&& ev.data@ == (if f.data_base64.len() == 0 { Seq::<u8>::empty() } else { base64_decoded(f.data_base64)->0 })
    &&& ev.exit_code == f.exit_code
    &&& (match ev.signal { Some(s) => Some(s@), None => None }) == f.signal
    &&& ev.message@ == f.error_message
    &&& ev.oldest_available_sequence == f.oldest_available_seq
}

/// Decodes the event of a process frame given as JSON.
pub fn decode_process_frame(v: &JsonValue) -> (r: Result<ManagedProcessConnectEvent, Error>)
    ensures
        match process_frame_from_json(v@) {
            Err(e) => r matches Err(Error::Protocol(m)) && m@ == "decode stream event: "@ + e,
            Ok(f) => {
                &&& (f.data_base64.len() != 0 && base64_decoded(f.data_base64) is None) <==> (r matches Err(Error::Base64(_)))
                &&& r is Err ==> (r matches Err(Error::Base64(_)))
                &&& (r matches Ok(ev) ==> process_event_matches(ev, f))
            },
        },
{
    match ManagedProcessConnectFrame::from_json(v) {
        Ok(f) => ManagedProcessConnectEvent::from_frame(f),
        Err(e) => {
            let mut m = String::from_str("decode stream event: ");
            m.append(e.as_str());
            Err(Error::Protocol(m))
        },
    }
}

/// Decodes one line of a process stream into an event; blank and control lines carry none.
pub fn decode_process_line(line: &[u8]) -> (r: Result<Option<ManagedProcessConnectEvent>, Error>)
    ensures
        line_outcome(line@) matches Ok(None) ==> r matches Ok(None),
        line_outcome(line@) matches Err(w) ==> (r matches Err(Error::Protocol(m)) && m@ == w),
        line_outcome(line@) matches Ok(Some(v)) ==> match process_frame_from_json(v) {
            Err(e) => r matches Err(Error::Protocol(m)) && m@ == "decode stream event: "@ + e,
            Ok(f) => (f.data_base64.len() != 0 && base64_decoded(f.data_base64) is None) <==> r matches Err(Error::Base64(_)),
        },
        r matches Ok(Some(ev)) ==> line_outcome(line@) matches Ok(Some(v))
            && process_frame_from_json(v) matches Ok(f) && process_event_matches(ev, f),
{
    match decode_stream_line(line)? {
        None => Ok(None),
        Some(v) => {
            let ev = decode_process_frame(&v)?;
            Ok(Some(ev))
        },
    }
}

// ---------------------------------------------------------------------------
// Template build logs.

/// The instant an RFC 3339 date and time names, as `chrono` reads a `DateTime<Utc>`:
/// seconds and nanoseconds since the Unix epoch; none when chrono refuses the text.
pub uninterp spec fn rfc3339_instant(text: Seq<char>) -> Option<(i64, u32)>;

/// `text.parse::<chrono::DateTime<chrono::FixedOffset>>()`, as seconds and nanoseconds
/// since the Unix epoch.
#[verifier::external_body]
fn parse_rfc3339(text: &str) -> (r: Option<Timestamp>)
    ensures
        match (r, rfc3339_instant(text@)) {
            (Some(t), Some(x)) => t.seconds == x.0 && t.nanos == x.1,
            (None, None) => true,
            _ => false,
        },
{
    match text.parse::<chrono::DateTime<chrono::FixedOffset>>() {
        Ok(d) => Some(Timestamp { seconds: d.timestamp(), nanos: d.timestamp_subsec_nanos() }),
        Err(_) => None,
    }
}

/// Whether a member of a template log event has a field of its own.
pub open spec fn is_log_field(key: Seq<char>) -> bool {
    key == "ts"@ || key == "level"@ || key == "line"@ || key == "attempt"@ || key == "final"@ || key == "status"@
}

fn log_field(key: &str) -> (b: bool)
    ensures
        b == is_log_field(key@),
{
    str_eq(key, "ts") || str_eq(key, "level") || str_eq(key, "line") || str_eq(key, "attempt")
        || str_eq(key, "final") || str_eq(key, "status")
}

/// The members without a field of their own, in order.
pub open spec fn unknown_members(entries: Seq<(Seq<char>, Json)>) -> Seq<(Seq<char>, Json)>
    decreases entries.len(),
{
    if entries.len() == 0 {
        entries
    } else {
        let earlier = unknown_members(entries.drop_last());
        if is_log_field(entries.last().0) { earlier } else { earlier.push(entries.last()) }
    }
}

/// The timestamp of a template log event: absent or `null` give none; a string must be an
/// RFC 3339 date and time.
pub open spec fn log_timestamp(v: Json) -> Result<Option<(i64, u32)>, Seq<char>> {
    match v.get("ts"@) {
        None => Ok(None),
        Some(Json::Null) => Ok(None),
        Some(Json::Str(s)) => match rfc3339_instant(s) {
            Some(t) => Ok(Some(t)),
            None => Err(invalid_member("ts"@)),
        },
        Some(_) => Err(invalid_member("ts"@)),
    }
}

/// The attempt of a template log event: absent gives 0; otherwise an integer within `u32`.
pub open spec fn log_attempt(v: Json) -> Result<u32, Seq<char>> {
    match v.get("attempt"@) {
        None => Ok(0),
        Some(Json::Number(_, _, Some(u))) => if u <= u32::MAX { Ok(u as u32) } else { Err(invalid_member("attempt"@)) },
        Some(_) => Err(invalid_member("attempt"@)),
    }
}

/// The message when a template log event is not an object.
pub open spec fn not_a_log_event() -> Seq<char> {
    "invalid type: expected a template log event object"@
}

/// Decodes a template build-log event from its JSON object: `ts` is an optional RFC 3339
/// timestamp; `level`, `line` and `status` default to empty, `attempt` to 0 and `final` to
/// false; every other member is kept in `extra`, in order.
pub open spec fn template_log_from_json(v: Json) -> Result<TemplateLogView, Seq<char>> {
    match v {
        Json::Object(entries) => match (log_timestamp(v), v.string_or_default(0, "level"@), v.string_or_default(0, "line"@),
            log_attempt(v), v.bool_or_default(0, "final"@), v.string_or_default(0, "status"@)) {
            (Ok(ts), Ok(level), Ok(line), Ok(attempt), Ok(final_), Ok(status)) =>
                Ok(TemplateLogView { ts, level, line, attempt, final_, status, extra: unknown_members(entries) }),
            (Err(e), _, _, _, _, _) => Err(e),
            (_, Err(e), _, _, _, _) => Err(e),
            (_, _, Err(e), _, _, _) => Err(e),
            (_, _, _, Err(e), _, _) => Err(e),
            (_, _, _, _, Err(e), _) => Err(e),
            (_, _, _, _, _, Err(e)) => Err(e),
        },
        _ => Err(not_a_log_event()),
    }
}

impl TemplateLogEvent {
    /// Decodes an event; see [`template_log_from_json`].
    pub fn from_json(v: JsonValue) -> (r: Result<TemplateLogEvent, String>)
        ensures
            match (r, template_log_from_json(v@)) {
                (Ok(e), Ok(g)) => e.content() == g,
                (Err(a), Err(b)) => a@ == b,
                _ => false,
            },
    {
        if !v.is_object() {
            return Err(String::from_str("invalid type: expected a template log event object"));
        }
        let ts = match v.get("ts") {
            None => None,
            Some(JsonValue::Null) => None,
            Some(JsonValue::String(s)) => match parse_rfc3339(s.as_str()) {
                Some(t) => Some(t),
                None => return Err(invalid_member_text("ts")),
            },
            Some(_) => return Err(invalid_member_text("ts")),
        };
        let level = v.string_or_default(0, "level")?;
        let line = v.string_or_default(0, "line")?;
        let attempt: u32 = match v.get("attempt") {
            None => 0,
            Some(JsonValue::Number(n)) => match n.unsigned {
                Some(u) => if u <= 4294967295 { u as u32 } else { return Err(invalid_member_text("attempt")) },
                None => return Err(invalid_member_text("attempt")),
            },
            Some(_) => return Err(invalid_member_text("attempt")),
        };
        let final_ = v.bool_or_default(0, "final")?;
        let status = v.string_or_default(0, "status")?;
        let ghost whole = v@->Object_0;
        let mut rest = match v {
            JsonValue::Object(entries) => entries,
            _ => Vec::new(),
        };
        let mut extra: Vec<(String, JsonValue)> = Vec::new();
        let ghost mut i: int = 0;
        proof {
            lemma_view_entries(rest@);
            assert(whole.subrange(0, 0) =~= Seq::<(Seq<char>, Json)>::empty());
            assert(whole.subrange(0, whole.len() as int) =~= whole);
            assert(view_entries(extra@) =~= Seq::<(Seq<char>, Json)>::empty());
        }
        while rest.len() > 0
            invariant
                0 <= i <= whole.len(),
                view_entries(rest@) == whole.subrange(i, whole.len() as int),
                view_entries(extra@) == unknown_members(whole.subrange(0, i)),
            decreases rest.len(),
        {
            proof {
                lemma_view_entries(rest@);
            }
            let ghost before = rest@;
            let (k, val) = rest.remove(0);
            proof {
                assert(before.drop_first() =~= rest@);
                assert(view_entries(before) == seq![(before[0].0@, view_json(before[0].1))] + view_entries(before.drop_first()));
                assert(before[0].0 == k && before[0].1 == val);
                assert(whole.subrange(i, whole.len() as int)[0] == whole[i]);
                assert(view_entries(before)[0] == (before[0].0@, view_json(before[0].1)));
                assert(whole[i] == (k@, view_json(val)));
                assert(whole.subrange(i + 1, whole.len() as int) =~= whole.subrange(i, whole.len() as int).drop_first());
                assert(whole.subrange(0, i + 1).drop_last() =~= whole.subrange(0, i));
                assert(whole.subrange(0, i + 1).last() == whole[i]);
            }
            if !log_field(k.as_str()) {
                proof {
                    lemma_view_entries_push(extra@, (k, val));
                }
                extra.push((k, val));
            }
            proof {
                i = i + 1;
            }
        }
        proof {
            lemma_view_entries(rest@);
            assert(i == whole.len());
            assert(whole.subrange(0, i) =~= whole);
        }
        Ok(TemplateLogEvent { ts, level, line, attempt, final_, status, extra })
    }
}

/// Decodes one line of a template log stream into an event; blank and control lines carry
/// none.
pub fn decode_template_log_line(line: &[u8]) -> (r: Result<Option<TemplateLogEvent>, Error>)
    ensures
        match (r, line_outcome(line@)) {
            (Ok(None), Ok(None)) => true,
            (Ok(Some(e)), Ok(Some(v))) => template_log_from_json(v) == Ok::<_, Seq<char>>(e.content()),
            (Err(Error::Protocol(m)), Err(w)) => m@ == w,
            (Err(Error::Protocol(m)), Ok(Some(v))) => template_log_from_json(v) matches Err(e)
                && m@ == "decode stream event: "@ + e,
            _ => false,
        },
{
    match decode_stream_line(line)? {
        None => Ok(None),
        Some(v) => match TemplateLogEvent::from_json(v) {
            Ok(e) => Ok(Some(e)),
            Err(e) => {
                let mut m = String::from_str("decode stream event: ");
                m.append(e.as_str());
                Err(Error::Protocol(m))
            },
        },
    }
}

// ---------------------------------------------------------------------------
// Readers: from received bytes to events, one step at a time.

/// What a stream reader does next.
#[derive(Debug)]
pub enum StreamStep<T> {
    /// Hand out this item.
    Item(T),
    /// A line was consumed without an item to hand out yet; step again.
    Line,
    /// No complete line is buffered: receive more bytes, or finish the input.
    NeedMore,
    /// The stream is over.
    Ended,
}

/// The events one line of a command stream carries, or why it cannot be read.
pub open spec fn command_line_events(line: Seq<u8>) -> Result<Seq<(Seq<char>, Seq<char>, Option<i32>, Seq<char>)>, Seq<char>> {
    match line_outcome(line) {
        Err(w) => Err(w),
        Ok(None) => Ok(Seq::empty()),
        Ok(Some(v)) => match command_frame_from_json(v) {
            Ok(f) => Ok(frame_events(f)),
            Err(e) => Err("decode stream event: "@ + e),
        },
    }
}

/// The first line of the bytes of an ended input, and the bytes after it: up to and
/// including the first line feed, or all of the bytes when there is none.
pub open spec fn first_line(bytes: Seq<u8>) -> (Seq<u8>, Seq<u8>) {
    if exists|i: int| 0 <= i < bytes.len() && bytes[i] == 0x0Au8
        && (forall|j: int| 0 <= j < i ==> bytes[j] != 0x0Au8) {
        let i = choose|i: int| 0 <= i < bytes.len() && bytes[i] == 0x0Au8
            && (forall|j: int| 0 <= j < i ==> bytes[j] != 0x0Au8);
        (bytes.subrange(0, i + 1), bytes.subrange(i + 1, bytes.len() as int))
    } else {
        (bytes, Seq::empty())
    }
}

/// The events of the whole of an ended command stream: the events of each of its lines,
/// in order; or why the first line that cannot be read fails.
pub open spec fn stream_events(bytes: Seq<u8>) -> Result<Seq<(Seq<char>, Seq<char>, Option<i32>, Seq<char>)>, Seq<char>>
    decreases bytes.len(),
{
    if bytes.len() == 0 {
        Ok(Seq::empty())
    } else {
        let (line, rest) = first_line(bytes);
        match command_line_events(line) {
            Err(e) => Err(e),
            Ok(events) => match stream_events(rest) {
                Ok(more) => Ok(events + more),
                Err(e) => Err(e),
            },
        }
    }
}

/// What a step of a command reader hands out, with events by their content.
pub open spec fn step_view(step: StreamStep<CommandStreamEvent>) -> StreamStep<(Seq<char>, Seq<char>, Option<i32>, Seq<char>)> {
    match step {
        StreamStep::Item(e) => StreamStep::Item(event_view(e)),
        StreamStep::Line => StreamStep::Line,
        StreamStep::NeedMore => StreamStep::NeedMore,
        StreamStep::Ended => StreamStep::Ended,
    }
}

/// Whether a command reader holding the bytes `pending` of an input that has `ended` (or
/// not) and the events `queued` may take `step` and be left with `pending2` and
/// `queued2`: the first queued event is handed out; else the next line is read and its
/// events queued; else more input is asked for, or the end reported.
pub open spec fn command_step(
    pending: Seq<u8>,
    ended: bool,
    queued: Seq<(Seq<char>, Seq<char>, Option<i32>, Seq<char>)>,
    step: StreamStep<(Seq<char>, Seq<char>, Option<i32>, Seq<char>)>,
    pending2: Seq<u8>,
    queued2: Seq<(Seq<char>, Seq<char>, Option<i32>, Seq<char>)>,
) -> bool {
    if queued.len() > 0 {
        step == StreamStep::Item(queued[0]) && queued2 == queued.drop_first() && pending2 == pending
    } else {
        match step {
            StreamStep::Item(_) => false,
            StreamStep::Line => exists|l: Seq<u8>| #[trigger] takes_line(pending, ended, l, pending2)
                && command_line_events(l) == Ok::<_, Seq<char>>(queued2),
            StreamStep::NeedMore => {
                &&& !ended
                &&& pending2 == pending
                &&& queued2 == queued
                &&& forall|j: int| 0 <= j < pending.len() ==> pending[j] != 0x0Au8
            },
            StreamStep::Ended => ended && pending.len() == 0 && pending2 == pending && queued2 == queued,
        }
    }
}

/// What is done to a command reader: bytes received, the input finished, or a step taken
/// that hands out what the step shows.
pub enum ReaderMove {
    /// [`CommandReader::push_chunk`] with these bytes.
    Push(Seq<u8>),
    /// [`CommandReader::finish`].
    Finish,
    /// [`CommandReader::next`], with what it handed out.
    Next(StreamStep<(Seq<char>, Seq<char>, Option<i32>, Seq<char>)>),
}

/// Whether a reader holding `pending` bytes of an input that has `ended` (or not) and the
/// events `queued` is left holding `pending2`, `ended2` and `queued2` by a move: bytes are
/// received only before the input is finished, and a step is one [`command_step`] allows.
pub open spec fn command_move(
    pending: Seq<u8>,
    ended: bool,
    queued: Seq<(Seq<char>, Seq<char>, Option<i32>, Seq<char>)>,
    m: ReaderMove,
    pending2: Seq<u8>,
    ended2: bool,
    queued2: Seq<(Seq<char>, Seq<char>, Option<i32>, Seq<char>)>,
) -> bool {
    match m {
        ReaderMove::Push(chunk) => !ended && pending2 == pending + chunk && !ended2 && queued2 == queued,
        ReaderMove::Finish => pending2 == pending && ended2 && queued2 == queued,
        ReaderMove::Next(step) => ended2 == ended && command_step(pending, ended, queued, step, pending2, queued2),
    }
}

/// Reads a command stream: its lines become frames, and frames become events that are
/// handed out one at a time, in order.
pub struct CommandReader {
    lines: LineBuffer,
    queued: Vec<CommandStreamEvent>,
}

impl CommandReader {
    /// Received bytes not yet read as lines.
    pub closed spec fn pending(self) -> Seq<u8> {
        self.lines.pending()
    }

    /// Whether the input has ended.
    pub closed spec fn ended(self) -> bool {
        self.lines.ended()
    }

    /// Events decoded and not yet handed out.
    pub closed spec fn queued(self) -> Seq<(Seq<char>, Seq<char>, Option<i32>, Seq<char>)> {
        self.queued@.map_values(|e: CommandStreamEvent| event_view(e))
    }

    /// A reader of an open stream with nothing received.
    pub fn new() -> (r: CommandReader)
        ensures
            r.pending().len() == 0,
            !r.ended(),
            r.queued().len() == 0,
    {
        let r = CommandReader { lines: LineBuffer::new(), queued: Vec::new() };
        assert(r.queued() =~= Seq::<(Seq<char>, Seq<char>, Option<i32>, Seq<char>)>::empty());
        r
    }

    /// Receives bytes; see [`LineBuffer::push_chunk`].
    pub fn push_chunk(&mut self, chunk: &[u8]) -> (r: Result<(), Error>)
        ensures
            final(self).pending() == old(self).pending() + chunk@,
            final(self).ended() == old(self).ended(),
            final(self).queued() == old(self).queued(),
            r is Ok == (final(self).pending().len() <= MAX_STREAM_EVENT),
            r matches Err(e) ==> (e matches Error::Protocol(m) && m@ == "stream event exceeds the 16 MiB limit"@),
    {
        self.lines.push_chunk(chunk)
    }

    /// Marks the end of the input; see [`LineBuffer::finish`].
    pub fn finish(&mut self) -> (r: Result<(), Error>)
        ensures
            final(self).pending() == old(self).pending(),
            final(self).ended(),
            final(self).queued() == old(self).queued(),
            r is Ok == (old(self).pending().len() <= MAX_STREAM_EVENT),
            r matches Err(e) ==> (e matches Error::Protocol(m) && m@ == "stream event exceeds the 16 MiB limit"@),
    {
        self.lines.finish()
    }

    /// One step: hand out the first queued event; else read the next line and queue the
    /// events of its frame; else ask for more input, or report the end.
    pub fn next(&mut self) -> (r: Result<StreamStep<CommandStreamEvent>, Error>)
        ensures
            final(self).ended() == old(self).ended(),
            old(self).queued().len() > 0 ==> {
                &&& r matches Ok(StreamStep::Item(e)) && event_view(e) == old(self).queued()[0]
                &&& final(self).queued() == old(self).queued().drop_first()
                &&& final(self).pending() == old(self).pending()
            },
            old(self).queued().len() == 0 ==> match r {
                Ok(StreamStep::Item(_)) => false,
                Ok(StreamStep::Line) => exists|l: Seq<u8>| #[trigger] takes_line(old(self).pending(), old(self).ended(), l,
                    final(self).pending()) && command_line_events(l) == Ok::<_, Seq<char>>(final(self).queued()),
                Ok(StreamStep::NeedMore) => {
                    &&& !old(self).ended()
                    &&& final(self).pending() == old(self).pending()
                    &&& forall|j: int| 0 <= j < old(self).pending().len() ==> old(self).pending()[j] != 0x0Au8
                },
                Ok(StreamStep::Ended) => old(self).ended() && old(self).pending().len() == 0,
                Err(Error::Protocol(m)) => exists|l: Seq<u8>| #[trigger] takes_line(old(self).pending(), old(self).ended(), l,
                    final(self).pending()) && command_line_events(l) == Err::<Seq<(Seq<char>, Seq<char>, Option<i32>, Seq<char>)>, _>(m@),
                Err(_) => false,
            },
            r matches Ok(step) ==> command_step(old(self).pending(), old(self).ended(), old(self).queued(),
                step_view(step), final(self).pending(), final(self).queued()),
    {
        if self.queued.len() > 0 {
            let ghost before = self.queued@;
            let e = self.queued.remove(0);
            assert(self.queued@.map_values(|e: CommandStreamEvent| event_view(e))
                =~= before.map_values(|e: CommandStreamEvent| event_view(e)).drop_first());
            return Ok(StreamStep::Item(e));
        }
        match self.lines.next_line() {
            Some(line) => {
                let ghost l = line@;
                match decode_command_line(line.as_slice()) {
                    Ok(None) => {
                        assert(self.queued() =~= Seq::<(Seq<char>, Seq<char>, Option<i32>, Seq<char>)>::empty());
                        assert(takes_line(old(self).pending(), old(self).ended(), l, self.pending()));
                        Ok(StreamStep::Line)
                    },
                    Ok(Some(frame)) => {
                        self.queued = frame.into_events();
                        assert(takes_line(old(self).pending(), old(self).ended(), l, self.pending()));
                        Ok(StreamStep::Line)
                    },
                    Err(e) => {
                        assert(takes_line(old(self).pending(), old(self).ended(), l, self.pending()));
                        Err(e)
                    },
                }
            },
            None => {
                if self.lines.exhausted() {
                    Ok(StreamStep::Ended)
                } else {
                    Ok(StreamStep::NeedMore)
                }
            },
        }
    }
}

/// Reads a stream of JSON documents, one per line, skipping blank and control lines.
pub struct JsonLineReader {
    lines: LineBuffer,
}

impl JsonLineReader {
    /// Received bytes not yet read as lines.
    pub closed spec fn pending(self) -> Seq<u8> {
        self.lines.pending()
    }

    /// Whether the input has ended.
    pub closed spec fn ended(self) -> bool {
        self.lines.ended()
    }

    /// A reader of an open stream with nothing received.
    pub fn new() -> (r: JsonLineReader)
        ensures
            r.pending().len() == 0,
            !r.ended(),
    {
        JsonLineReader { lines: LineBuffer::new() }
    }

    /// Receives bytes; see [`LineBuffer::push_chunk`].
    pub fn push_chunk(&mut self, chunk: &[u8]) -> (r: Result<(), Error>)
        ensures
            final(self).pending() == old(self).pending() + chunk@,
            final(self).ended() == old(self).ended(),
            r is Ok == (final(self).pending().len() <= MAX_STREAM_EVENT),
            r matches Err(e) ==> (e matches Error::Protocol(m) && m@ == "stream event exceeds the 16 MiB limit"@),
    {
        self.lines.push_chunk(chunk)
    }

    /// Marks the end of the input; see [`LineBuffer::finish`].
    pub fn finish(&mut self) -> (r: Result<(), Error>)
        ensures
            final(self).pending() == old(self).pending(),
            final(self).ended(),
            r is Ok == (old(self).pending().len() <= MAX_STREAM_EVENT),
            r matches Err(e) ==> (e matches Error::Protocol(m) && m@ == "stream event exceeds the 16 MiB limit"@),
    {
        self.lines.finish()
    }

    /// One step: read the next line and hand out its document; a blank or control line
    /// is consumed without one; without a complete line, ask for more input or report
    /// the end.
    pub fn next(&mut self) -> (r: Result<StreamStep<JsonValue>, Error>)
        ensures
            final(self).ended() == old(self).ended(),
            match r {
                Ok(StreamStep::Item(v)) => exists|l: Seq<u8>| #[trigger] takes_line(old(self).pending(), old(self).ended(), l,
                    final(self).pending()) && line_outcome(l) == Ok::<_, Seq<char>>(Some(v@)),
                Ok(StreamStep::Line) => exists|l: Seq<u8>| #[trigger] takes_line(old(self).pending(), old(self).ended(), l,
                    final(self).pending()) && line_outcome(l) == Ok::<_, Seq<char>>(None::<Json>),
                Ok(StreamStep::NeedMore) => {
                    &&& !old(self).ended()
                    &&& final(self).pending() == old(self).pending()
                    &&& forall|j: int| 0 <= j < old(self).pending().len() ==> old(self).pending()[j] != 0x0Au8
                },
                Ok(StreamStep::Ended) => old(self).ended() && old(self).pending().len() == 0,
                Err(Error::Protocol(m)) => exists|l: Seq<u8>| #[trigger] takes_line(old(self).pending(), old(self).ended(), l,
                    final(self).pending()) && line_outcome(l) == Err::<Option<Json>, _>(m@),
                Err(_) => false,
            },
    {
        match self.lines.next_line() {
            Some(line) => {
                let ghost l = line@;
                let decoded = decode_stream_line(line.as_slice());
                assert(takes_line(old(self).pending(), old(self).ended(), l, self.pending()));
                match decoded {
                    Ok(Some(v)) => Ok(StreamStep::Item(v)),
                    Ok(None) => Ok(StreamStep::Line),
                    Err(e) => Err(e),
                }
            },
            None => {
                if self.lines.exhausted() {
                    Ok(StreamStep::Ended)
                } else {
                    Ok(StreamStep::NeedMore)
                }
            },
        }
    }
}

} // verus!
