//! The window manager's binary protocol: framing of messages, and what the
//! replies and events hold.

use vstd::prelude::*;
use vstd::slice::slice_to_vec;
use vstd::string::*;
use vstd::utf8::*;
use crate::text::{str_eq, trim_end_char, trim_end_seq};

verus! {

#[verifier::external_type_specification]
#[verifier::external_body]
pub struct ExIoError(std::io::Error);

#[verifier::external_type_specification]
#[verifier::external_body]
pub struct ExJsonError(serde_json::Error);

/// A message that breaks the protocol.
#[derive(Debug)]
pub enum ProtocolError {
    /// A message began with these bytes instead of the magic token.
    BadMagic(Vec<u8>),
    /// A part of a message came with another number of bytes than it has.
    WrongLength { wanted: usize, got: usize },
    /// A message of another type than the one that was due.
    UnexpectedType { expected: u32, received: u32 },
    /// An event that does not say what changed.
    MissingChange,
}

/// Why an exchange with the window manager failed.
#[derive(Debug)]
pub enum MessageError {
    /// Network error sending the message.
    Send(std::io::Error),
    /// Network error receiving the response.
    Receive(std::io::Error),
    /// The response broke the protocol.
    Protocol(ProtocolError),
    /// Got the response but couldn't parse the JSON.
    JsonCouldntParse(serde_json::Error),
}

impl MessageError {
    /// The text that describes each kind of failure.
    pub open spec fn description(self) -> Seq<char> {
        match self {
            MessageError::Send(_) => "Network error while sending message to i3"@,
            MessageError::Receive(_) => "Network error while receiving message from i3"@,
            MessageError::Protocol(_) => "Got a response from i3 that breaks the protocol"@,
            MessageError::JsonCouldntParse(_) =>
                "Got a response from i3 but couldn't parse the JSON"@,
        }
    }

    /// Describes the failure in a sentence.
    pub fn to_string(&self) -> (s: String)
        ensures
            s@ == self.description(),
    {
        match self {
            MessageError::Send(_) => String::from_str("Network error while sending message to i3"),
            MessageError::Receive(_) => String::from_str(
                "Network error while receiving message from i3",
            ),
            MessageError::Protocol(_) => String::from_str(
                "Got a response from i3 that breaks the protocol",
            ),
            MessageError::JsonCouldntParse(_) => String::from_str(
                "Got a response from i3 but couldn't parse the JSON",
            ),
        }
    }
}

/// The request to run commands.
pub const RUN_COMMAND: u32 = 0;

/// The request for the list of workspaces.
pub const GET_WORKSPACES: u32 = 1;

/// The request to be sent events.
pub const SUBSCRIBE: u32 = 2;

/// The request for the window tree.
pub const GET_TREE: u32 = 4;

/// The type of the event that tells of a change to a window.
pub const WINDOW_EVENT: u32 = 3;

/// The six bytes that open every message: the ASCII text `i3-ipc`.
pub open spec fn magic() -> Seq<u8> {
    seq![0x69u8, 0x33u8, 0x2du8, 0x69u8, 0x70u8, 0x63u8]
}

/// The four bytes of a number, lowest first.
pub open spec fn le_bytes(n: u32) -> Seq<u8> {
    seq![
        (n % 256) as u8,
        ((n / 256) % 256) as u8,
        ((n / 65536) % 256) as u8,
        ((n / 16777216) % 256) as u8,
    ]
}

/// The number that four bytes hold, lowest first.
pub open spec fn le_value(bytes: Seq<u8>) -> u32 {
    (bytes[0] + 256 * bytes[1] + 65536 * bytes[2] + 16777216 * bytes[3]) as u32
}

/// The bytes of a message: the magic token, the length of the payload in
/// bytes and the type, each as four bytes lowest first, then the payload
/// in UTF-8. A length that does not fit in 32 bits is cut to its low 32
/// bits.
pub open spec fn frame_bytes(message_type: u32, payload: Seq<char>) -> Seq<u8> {
    magic() + le_bytes((encode_utf8(payload).len() % 0x1_0000_0000) as u32) + le_bytes(
        message_type,
    ) + encode_utf8(payload)
}

/// The text that bytes stand for where they are not valid UTF-8: an
/// invalid sequence is replaced by U+FFFD.
pub uninterp spec fn utf8_lossy(bytes: Seq<u8>) -> Seq<char>;

/// The text that bytes stand for: what they decode to as UTF-8 where they
/// are valid.
pub open spec fn bytes_text(bytes: Seq<u8>) -> Seq<char> {
    if valid_utf8(bytes) {
        decode_utf8(bytes)
    } else {
        utf8_lossy(bytes)
    }
}

/// `byteorder::WriteBytesExt::write_u32` with `LittleEndian`, on a
/// vector: appends the four bytes of the number, lowest first.
#[verifier::external_body]
fn put_u32(out: &mut Vec<u8>, n: u32)
    ensures
        final(out)@ == old(out)@ + le_bytes(n),
{
    let _ = byteorder::WriteBytesExt::write_u32::<byteorder::LittleEndian>(out, n);
}

/// `byteorder::ReadBytesExt::read_u32` with `LittleEndian`, on a slice:
/// the number held by the first four bytes, lowest first; fails on fewer
/// than four bytes.
#[verifier::external_body]
fn get_u32(bytes: &[u8]) -> (r: Option<u32>)
    ensures
        r is Some <==> bytes@.len() >= 4,
        r is Some ==> r->0 == le_value(bytes@.take(4)),
{
    let mut source = bytes;
    byteorder::ReadBytesExt::read_u32::<byteorder::LittleEndian>(&mut source).ok()
}

/// `String::from_utf8_lossy`: valid UTF-8 is decoded as it is; otherwise
/// the result is a function of the bytes.
#[verifier::external_body]
fn lossy_text(bytes: &[u8]) -> (r: String)
    ensures
        valid_utf8(bytes@) ==> r@ == decode_utf8(bytes@),
        !valid_utf8(bytes@) ==> r@ == utf8_lossy(bytes@),
{
    String::from_utf8_lossy(bytes).into_owned()
}

/// Frames a message for sending.
pub fn encode_message(message_type: u32, payload: &str) -> (bytes: Vec<u8>)
    ensures
        bytes@ == frame_bytes(message_type, payload@),
{
    let mut bytes: Vec<u8> = Vec::new();
    bytes.push(0x69u8);
    bytes.push(0x33u8);
    bytes.push(0x2du8);
    bytes.push(0x69u8);
    bytes.push(0x70u8);
    bytes.push(0x63u8);
    assert(bytes@ =~= magic());
    let mut body = payload.as_bytes_vec();
    let len: u32 = ((body.len() as u64) % 0x1_0000_0000u64) as u32;
    put_u32(&mut bytes, len);
    put_u32(&mut bytes, message_type);
    bytes.append(&mut body);
    bytes
}

/// Where the reception of one message stands.
#[derive(Debug)]
pub enum Receiver {
    /// The six bytes of the magic token are due.
    AwaitMagic,
    /// The eight bytes of length and type are due.
    AwaitHeader,
    /// The payload is due.
    AwaitPayload { message_type: u32, len: u32 },
    /// The message is complete.
    Complete { message_type: u32, payload: String },
    /// The message broke the protocol.
    Failed(ProtocolError),
}

impl Receiver {
    /// How many bytes are due next; none once the reception is over.
    pub open spec fn spec_wanted(self) -> nat {
        match self {
            Receiver::AwaitMagic => 6,
            Receiver::AwaitHeader => 8,
            Receiver::AwaitPayload { len, .. } => len as nat,
            Receiver::Complete { .. } => 0,
            Receiver::Failed(_) => 0,
        }
    }

    /// Whether the reception is over, well or badly.
    pub open spec fn spec_finished(self) -> bool {
        self is Complete || self is Failed
    }

    /// Whether `after` is where the reception stands once `bytes` have
    /// come in at `self`.
    ///
    /// Bytes other than the magic token fail the reception at once, as
    /// does a part of another length than was due. Length and type are
    /// read lowest byte first. Once the reception is over nothing changes
    /// it.
    pub open spec fn step(self, bytes: Seq<u8>, after: Receiver) -> bool {
        match self {
            Receiver::AwaitMagic => if bytes == magic() {
                after == Receiver::AwaitHeader
            } else {
                after matches Receiver::Failed(ProtocolError::BadMagic(got)) && got@ == bytes
            },
            Receiver::AwaitHeader => if bytes.len() == 8 {
                after == (Receiver::AwaitPayload {
                    message_type: le_value(bytes.skip(4)),
                    len: le_value(bytes.take(4)),
                })
            } else {
                after == Receiver::Failed(
                    ProtocolError::WrongLength { wanted: 8, got: bytes.len() as usize },
                )
            },
            Receiver::AwaitPayload { message_type, len } => if bytes.len() == len {
                after matches Receiver::Complete { message_type: t, payload } && t == message_type
                    && payload@ == bytes_text(bytes)
            } else {
                after == Receiver::Failed(
                    ProtocolError::WrongLength { wanted: len as usize, got: bytes.len() as usize },
                )
            },
            Receiver::Complete { .. } => after == self,
            Receiver::Failed(_) => after == self,
        }
    }

    /// Starts the reception of a message.
    pub fn new() -> (r: Receiver)
        ensures
            r == Receiver::AwaitMagic,
    {
        Receiver::AwaitMagic
    }

    /// The number of bytes to read next.
    pub fn wanted(&self) -> (n: usize)
        ensures
            n == self.spec_wanted(),
    {
        match self {
            Receiver::AwaitMagic => 6,
            Receiver::AwaitHeader => 8,
            Receiver::AwaitPayload { len, .. } => *len as usize,
            Receiver::Complete { .. } => 0,
            Receiver::Failed(_) => 0,
        }
    }

    /// Tells whether the reception is over.
    pub fn finished(&self) -> (b: bool)
        ensures
            b == self.spec_finished(),
    {
        match self {
            Receiver::Complete { .. } => true,
            Receiver::Failed(_) => true,
            _ => false,
        }
    }

    /// Takes in the bytes that were read.
    pub fn feed(self, bytes: &[u8]) -> (after: Receiver)
        ensures
            self.step(bytes@, after),
    {
        match self {
            Receiver::AwaitMagic => {
                if is_magic(bytes) {
                    Receiver::AwaitHeader
                } else {
                    Receiver::Failed(ProtocolError::BadMagic(slice_to_vec(bytes)))
                }
            },
            Receiver::AwaitHeader => {
                if bytes.len() == 8 {
                    let (first, second) = bytes.split_at(4);
                    let len = get_u32(first);
                    let message_type = get_u32(second);
                    assert(first@ =~= bytes@.take(4));
                    assert(second@ =~= bytes@.skip(4));
                    assert(first@.take(4) =~= first@);
                    assert(second@.take(4) =~= second@);
                    Receiver::AwaitPayload {
                        message_type: message_type.unwrap(),
                        len: len.unwrap(),
                    }
                } else {
                    Receiver::Failed(ProtocolError::WrongLength { wanted: 8, got: bytes.len() })
                }
            },
            Receiver::AwaitPayload { message_type, len } => {
                if bytes.len() == len as usize {
                    Receiver::Complete { message_type, payload: lossy_text(bytes) }
                } else {
                    Receiver::Failed(
                        ProtocolError::WrongLength { wanted: len as usize, got: bytes.len() },
                    )
                }
            },
            Receiver::Complete { message_type, payload } => Receiver::Complete {
                message_type,
                payload,
            },
            Receiver::Failed(e) => Receiver::Failed(e),
        }
    }
}

/// Tells whether bytes are the magic token.
pub fn is_magic(bytes: &[u8]) -> (b: bool)
    ensures
        b == (bytes@ == magic()),
{
    if bytes.len() != 6 {
        return false;
    }
    let b = bytes[0] == 0x69u8 && bytes[1] == 0x33u8 && bytes[2] == 0x2du8 && bytes[3] == 0x69u8
        && bytes[4] == 0x70u8 && bytes[5] == 0x63u8;
    assert(b ==> bytes@ =~= magic());
    b
}

/// Writing a number as four bytes and reading them back gives the number.
pub proof fn lemma_le_round_trip(n: u32)
    ensures
        le_bytes(n).len() == 4,
        le_value(le_bytes(n)) == n,
{
}

/// A message that does not open with the magic token is never received:
/// the reception fails at once with `BadMagic`, and nothing that comes in
/// later completes it.
pub proof fn lemma_bad_magic_is_rejected(
    bytes: Seq<u8>,
    after: Receiver,
    more: Seq<u8>,
    last: Receiver,
)
    requires
        bytes != magic(),
        Receiver::AwaitMagic.step(bytes, after),
        after.step(more, last),
    ensures
        after matches Receiver::Failed(ProtocolError::BadMagic(got)) && got@ == bytes,
        !(after is Complete),
        last == after,
{
}

/// What is framed for sending is received as it was sent: fed the magic
/// token, the eight bytes after it and the rest of a frame in turn, a
/// reception completes with the frame's type and payload.
pub proof fn lemma_frame_round_trip(
    message_type: u32,
    payload: Seq<char>,
    first: Receiver,
    second: Receiver,
    third: Receiver,
)
    requires
        encode_utf8(payload).len() <= u32::MAX,
        Receiver::AwaitMagic.step(frame_bytes(message_type, payload).subrange(0, 6), first),
        first.step(frame_bytes(message_type, payload).subrange(6, 14), second),
        second.step(frame_bytes(message_type, payload).skip(14), third),
    ensures
        third matches Receiver::Complete { message_type: t, payload: p } && t == message_type
            && p@ == payload,
{
    let body = encode_utf8(payload);
    let frame = frame_bytes(message_type, payload);
    let len = (body.len() % 0x1_0000_0000) as u32;
    assert(frame.subrange(0, 6) =~= magic());
    assert(first == Receiver::AwaitHeader);
    let header = frame.subrange(6, 14);
    assert(header.take(4) =~= le_bytes(len));
    assert(header.skip(4) =~= le_bytes(message_type));
    lemma_le_round_trip(len);
    lemma_le_round_trip(message_type);
    assert(second == (Receiver::AwaitPayload { message_type, len }));
    assert(frame.skip(14) =~= body);
    encode_utf8_valid_utf8(payload);
    encode_utf8_decode_utf8(payload);
}

/// Checks that a reply is of the type of the request it answers.
pub fn check_reply(request_type: u32, reply_type: u32) -> (r: Result<(), ProtocolError>)
    ensures
        r is Ok <==> reply_type == request_type,
        r is Err ==> r->Err_0 == (ProtocolError::UnexpectedType {
            expected: request_type,
            received: reply_type,
        }),
{
    if reply_type == request_type {
        Ok(())
    } else {
        Err(ProtocolError::UnexpectedType { expected: request_type, received: reply_type })
    }
}

/// The outcome of a single command.
#[derive(Debug)]
pub struct CommandOutcome {
    /// Whether the command was successful.
    pub success: bool,
    /// A human-readable error message.
    pub error: Option<String>,
}

/// The reply to the `command` request.
#[derive(Debug)]
pub struct Command {
    /// A list of `CommandOutcome` structs; one for each command that was parsed.
    pub outcomes: Vec<CommandOutcome>,
}

/// What the window manager says of one command: whether it succeeded, its
/// error message if it gave one, and whether it marked a parse error.
#[derive(Debug)]
pub struct CommandReport {
    pub success: bool,
    pub error: Option<String>,
    pub parse_error: bool,
}

/// The error message of an outcome: the one that was reported, else a
/// fixed text for a parse error, else none.
pub open spec fn outcome_error(report: CommandReport) -> Option<Seq<char>> {
    match report.error {
        Some(e) => Some(e@),
        None => if report.parse_error {
            Some("Parse error"@)
        } else {
            None
        },
    }
}

/// The error text of an outcome.
pub open spec fn error_text(outcome: CommandOutcome) -> Option<Seq<char>> {
    match outcome.error {
        Some(e) => Some(e@),
        None => None,
    }
}

impl CommandOutcome {
    /// Makes the outcome of one command from what was reported of it.
    pub fn from_report(report: CommandReport) -> (r: CommandOutcome)
        ensures
            r.success == report.success,
            error_text(r) == outcome_error(report),
    {
        let CommandReport { success, error, parse_error } = report;
        let error = match error {
            Some(e) => Some(e),
            None => if parse_error {
                Some(String::from_str("Parse error"))
            } else {
                None
            },
        };
        CommandOutcome { success, error }
    }
}

impl Command {
    /// Makes the reply from the reports, one outcome for each in order.
    pub fn from_reports(reports: Vec<CommandReport>) -> (r: Command)
        ensures
            r.outcomes@.len() == reports@.len(),
            forall|i: int|
                0 <= i < reports@.len() ==> (#[trigger] r.outcomes@[i]).success
                    == reports@[i].success && error_text(r.outcomes@[i]) == outcome_error(
                    reports@[i],
                ),
    {
        let mut rest = reports;
        let mut outcomes: Vec<CommandOutcome> = Vec::new();
        let ghost all = rest@;
        assert(all.skip(0) =~= all);
        while rest.len() > 0
            invariant
                all == reports@,
                outcomes@.len() + rest@.len() == all.len(),
                rest@ == all.skip(outcomes@.len() as int),
                forall|i: int|
                    0 <= i < outcomes@.len() ==> (#[trigger] outcomes@[i]).success
                        == all[i].success && error_text(outcomes@[i]) == outcome_error(all[i]),
            decreases rest.len(),
        {
            let ghost done = outcomes@.len() as int;
            let report = rest.remove(0);
            assert(report == all[done]);
            assert(rest@ =~= all.skip(done + 1));
            outcomes.push(CommandOutcome::from_report(report));
        }
        Command { outcomes }
    }

    /// Whether every command succeeded.
    pub open spec fn spec_succeeded(self) -> bool {
        forall|i: int| 0 <= i < self.outcomes@.len() ==> (#[trigger] self.outcomes@[i]).success
    }

    /// Tells whether every command of the reply succeeded.
    pub fn succeeded(&self) -> (b: bool)
        ensures
            b == self.spec_succeeded(),
    {
        let mut i: usize = 0;
        while i < self.outcomes.len()
            invariant
                i <= self.outcomes.len(),
                forall|j: int| 0 <= j < i ==> (#[trigger] self.outcomes@[j]).success,
            decreases self.outcomes.len() - i,
        {
            if !self.outcomes[i].success {
                return false;
            }
            i += 1;
        }
        true
    }
}

/// The kind of window change.
#[derive(Clone, Copy, Debug, PartialEq, Eq, Structural)]
pub enum WindowChange {
    /// The window has become managed by i3.
    New,
    /// The window has closed.
    Close,
    /// The window has received input focus.
    Focus,
    /// The window's title has changed.
    Title,
    /// The window has entered or exited fullscreen mode.
    FullscreenMode,
    /// The window has changed its position in the tree.
    Move,
    /// The window has transitioned to or from floating.
    Floating,
    /// The window has become urgent or lost its urgent status.
    Urgent,
    /// A mark has been added to or removed from the window.
    Mark,
    /// A WindowChange we don't support yet.
    Unknown,
}

/// What an event tells of a window.
#[derive(Clone, Copy, Debug, PartialEq, Eq, Structural)]
pub struct WindowEventInfo {
    /// Indicates the type of change
    pub change: WindowChange,
}

/// The change that a tag stands for; `Unknown` for any other tag than the
/// nine that are known.
pub open spec fn change_of(tag: Seq<char>) -> WindowChange {
    if tag == "new"@ {
        WindowChange::New
    } else if tag == "close"@ {
        WindowChange::Close
    } else if tag == "focus"@ {
        WindowChange::Focus
    } else if tag == "title"@ {
        WindowChange::Title
    } else if tag == "fullscreen_mode"@ {
        WindowChange::FullscreenMode
    } else if tag == "move"@ {
        WindowChange::Move
    } else if tag == "floating"@ {
        WindowChange::Floating
    } else if tag == "urgent"@ {
        WindowChange::Urgent
    } else if tag == "mark"@ {
        WindowChange::Mark
    } else {
        WindowChange::Unknown
    }
}

impl WindowChange {
    /// Reads the tag of a change.
    pub fn from_tag(tag: &str) -> (c: WindowChange)
        ensures
            c == change_of(tag@),
    {
        if str_eq(tag, "new") {
            WindowChange::New
        } else if str_eq(tag, "close") {
            WindowChange::Close
        } else if str_eq(tag, "focus") {
            WindowChange::Focus
        } else if str_eq(tag, "title") {
            WindowChange::Title
        } else if str_eq(tag, "fullscreen_mode") {
            WindowChange::FullscreenMode
        } else if str_eq(tag, "move") {
            WindowChange::Move
        } else if str_eq(tag, "floating") {
            WindowChange::Floating
        } else if str_eq(tag, "urgent") {
            WindowChange::Urgent
        } else if str_eq(tag, "mark") {
            WindowChange::Mark
        } else {
            WindowChange::Unknown
        }
    }
}

/// What the member `key` of the JSON object in `text` holds, if it is a
/// string: the outer `None` if `text` is no valid JSON, the inner `None`
/// if there is no such member or it is no string.
pub uninterp spec fn json_text_member(text: Seq<char>, key: Seq<char>) -> Option<
    Option<Seq<char>>,
>;

/// `serde_json::from_str` to a `Value`, then `Value::get` and
/// `Value::as_str`: the string under a key of a JSON object. The result
/// is a function of the text and the key.
#[verifier::external_body]
fn text_member(text: &str, key: &str) -> (r: Result<Option<String>, serde_json::Error>)
    ensures
        match r {
            Ok(Some(found)) => json_text_member(text@, key@) == Some(Some(found@)),
            Ok(None) => json_text_member(text@, key@) == Some(None::<Seq<char>>),
            Err(_) => json_text_member(text@, key@) is None,
        },
{
    let value: serde_json::Value = serde_json::from_str(text)?;
    Ok(value.get(key).and_then(|member| member.as_str()).map(|s| s.to_owned()))
}

/// The event that a change tag stands for; an event without one breaks
/// the protocol.
pub fn event_of_change(change: Option<&str>) -> (r: Result<WindowEventInfo, ProtocolError>)
    ensures
        match change {
            Some(tag) => r == Ok::<WindowEventInfo, ProtocolError>(
                WindowEventInfo { change: change_of(tag@) },
            ),
            None => r == Err::<WindowEventInfo, ProtocolError>(ProtocolError::MissingChange),
        },
{
    match change {
        Some(tag) => Ok(WindowEventInfo { change: WindowChange::from_tag(tag) }),
        None => Err(ProtocolError::MissingChange),
    }
}

impl WindowEventInfo {
    /// Reads a window event from its JSON payload: the member `change`
    /// tells the kind of change.
    pub fn from_str(s: &str) -> (r: Result<WindowEventInfo, MessageError>)
        ensures
            match json_text_member(s@, "change"@) {
                Some(Some(tag)) => r == Ok::<WindowEventInfo, MessageError>(
                    WindowEventInfo { change: change_of(tag) },
                ),
                Some(None) => r matches Err(MessageError::Protocol(ProtocolError::MissingChange)),
                None => r matches Err(MessageError::JsonCouldntParse(_)),
            },
    {
        match text_member(s, "change") {
            Ok(Some(tag)) => match event_of_change(Some(tag.as_str())) {
                Ok(event) => Ok(event),
                Err(e) => Err(MessageError::Protocol(e)),
            },
            Ok(None) => Err(MessageError::Protocol(ProtocolError::MissingChange)),
            Err(e) => Err(MessageError::JsonCouldntParse(e)),
        }
    }
}

/// The type of a message without the bit that marks it as an event.
pub open spec fn event_type(raw: u32) -> u32 {
    (raw % 0x8000_0000) as u32
}

/// Strips the highest bit, which marks an event, from a message type.
pub fn strip_event_bit(raw: u32) -> (r: u32)
    ensures
        r == event_type(raw),
{
    let r = raw & 0x7fff_ffffu32;
    assert(raw & 0x7fff_ffffu32 == raw % 0x8000_0000u32) by (bit_vector);
    r
}

/// Reads an event from the type and payload of the message it came in.
/// Only window events are expected: any other type breaks the protocol.
pub fn decode_event(raw_type: u32, payload: &str) -> (r: Result<WindowEventInfo, MessageError>)
    ensures
        event_type(raw_type) != WINDOW_EVENT ==> (r matches Err(
            MessageError::Protocol(ProtocolError::UnexpectedType { expected, received }),
        ) && expected == WINDOW_EVENT && received == event_type(raw_type)),
        event_type(raw_type) == WINDOW_EVENT ==> match json_text_member(payload@, "change"@) {
            Some(Some(tag)) => r == Ok::<WindowEventInfo, MessageError>(
                WindowEventInfo { change: change_of(tag) },
            ),
            Some(None) => r matches Err(MessageError::Protocol(ProtocolError::MissingChange)),
            None => r matches Err(MessageError::JsonCouldntParse(_)),
        },
{
    let message_type = strip_event_bit(raw_type);
    if message_type != WINDOW_EVENT {
        return Err(
            MessageError::Protocol(
                ProtocolError::UnexpectedType { expected: WINDOW_EVENT, received: message_type },
            ),
        );
    }
    WindowEventInfo::from_str(payload)
}

/// The payload of the request that subscribes to window events.
pub open spec fn subscription() -> Seq<char> {
    "[\"window\"]"@
}

/// Frames the request to be sent the events that tell of windows.
pub fn subscribe_request() -> (bytes: Vec<u8>)
    ensures
        bytes@ == frame_bytes(SUBSCRIBE, subscription()),
{
    encode_message(SUBSCRIBE, "[\"window\"]")
}

/// The path of the window manager's socket: the one that the environment
/// names, else what the window manager printed when asked, without the
/// line ends after it.
pub open spec fn socket_path_of(environment: Option<Seq<char>>, printed: Seq<char>) -> Seq<char> {
    match environment {
        Some(path) => path,
        None => trim_end_seq(printed, '\n'),
    }
}

/// Settles the path of the window manager's socket. `environment` is the
/// value of the variable that may name it, `printed` what the window
/// manager printed when asked for it.
pub fn socket_path(environment: Option<&str>, printed: &str) -> (r: String)
    ensures
        r@ == socket_path_of(
            match environment {
                Some(path) => Some(path@),
                None => None,
            },
            printed@,
        ),
{
    match environment {
        Some(path) => String::from_str(path),
        None => trim_end_char(printed, '\n'),
    }
}

} // verus!
