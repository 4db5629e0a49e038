//! The local IPC transport's own rules: where SAM listens, how a message
//! is framed on the byte stream (a four-byte big-endian length, then the
//! encoded message), the limit on frame sizes, and the transport's errors.
//! Reading and writing the bytes is left to the caller.

use vstd::prelude::*;
use vstd::std_specs::convert::FromSpecImpl;
use vstd::string::StringExecFns;

use crate::text::{decimal_text, push_decimal, text_eq, IntoOwnedString};

verus! {

#[verifier::external_type_specification]
#[verifier::external_body]
pub struct ExIoError(std::io::Error);

#[verifier::external_type_specification]
#[verifier::external_body]
pub struct ExPostcardError(postcard::Error);

/// Frames larger than this many bytes are refused, when sending and when
/// receiving, before any buffer for them is allocated.
pub const DEFAULT_MAX_FRAME_SIZE: usize = 64 * 1024;

/// Address of a local IPC endpoint: a Unix domain socket path.
#[derive(Debug, Clone, PartialEq, Eq)]
pub struct LocalEndpoint(String);

impl View for LocalEndpoint {
    type V = Seq<char>;

    closed spec fn view(&self) -> Seq<char> {
        self.0@
    }
}

impl LocalEndpoint {
    pub fn new<T: IntoOwnedString>(value: T) -> (endpoint: Self)
        ensures
            endpoint@ == value.text_view(),
    {
        LocalEndpoint(value.into_owned_string())
    }

    pub fn as_str(&self) -> (text: &str)
        ensures
            text@ == self@,
    {
        self.0.as_str()
    }

    /// The well-known endpoint SAM listens on and applications connect to
    /// by default.
    pub fn sam_default() -> (endpoint: Self)
        ensures
            endpoint@ == "/tmp/sam.sock"@,
    {
        LocalEndpoint::new("/tmp/sam.sock")
    }
}

impl Default for LocalEndpoint {
    fn default() -> (endpoint: Self)
        ensures
            endpoint@ == "/tmp/sam.sock"@,
    {
        Self::sam_default()
    }
}

#[verifier::external_type_specification]
#[verifier::external_body]
pub struct ExPath(std::path::Path);

#[verifier::external_type_specification]
#[verifier::external_body]
pub struct ExPathBuf(std::path::PathBuf);

/// Whether the Unix path spelled by `path` terminates in the root: it
/// starts with `/`, and after that holds only separators and `.`
/// segments, which std's path components normalize away.
pub open spec fn terminates_in_root(path: Seq<char>) -> bool {
    &&& path.len() > 0
    &&& path[0] == '/'
    &&& forall|i: int|
        #![trigger path[i]]
        0 <= i < path.len() ==> path[i] == '/' || (path[i] == '.' && path[i - 1] == '/' && (i + 1 == path.len()
            || path[i + 1] == '/'))
}

/// Whether `std::path::Path::parent` finds a parent for the Unix path
/// spelled by `path`: std documents `None` for the empty path and for a
/// path that terminates in a root (Unix paths have no prefix).
pub open spec fn has_parent_path(path: Seq<char>) -> bool {
    path.len() > 0 && !terminates_in_root(path)
}

/// Views `text` as a filesystem path with `std::path::Path::new`, which
/// only reinterprets the string; nothing is promised of the opaque result.
#[verifier::external_body]
fn path_of(text: &str) -> &std::path::Path {
    std::path::Path::new(text)
}

/// The parent directory of the path spelled by `text`, by
/// `std::path::Path::parent`, as an owned path. The contract says when
/// there is one, as std documents it; which path comes back is std's and
/// is not restated.
#[verifier::external_body]
fn parent_path(text: &str) -> (parent: Option<std::path::PathBuf>)
    ensures
        parent is Some <==> has_parent_path(text@),
{
    std::path::Path::new(text).parent().map(std::path::Path::to_path_buf)
}

impl LocalEndpoint {
    /// The endpoint as a filesystem path.
    pub fn as_path(&self) -> &std::path::Path {
        path_of(self.0.as_str())
    }

    /// The directory that holds the endpoint, if its path has one.
    pub fn parent(&self) -> (parent: Option<std::path::PathBuf>)
        ensures
            parent is Some <==> has_parent_path(self@),
    {
        parent_path(self.0.as_str())
    }
}

/// Failures of the framed transport: the underlying OS transport (`Io`),
/// message encoding (`Serialization`), a frame over the size limit
/// (`FrameTooLarge`), or a client that gave up waiting for the server
/// (`ConnectTimeout`).
#[derive(Debug)]
pub enum TransportError {
    Io(IoFailure),
    Serialization(postcard::Error),
    FrameTooLarge { actual: usize, maximum: usize },
    ConnectTimeout,
}

/// An I/O failure, together with the name of the kind that std gives it
/// (`"BrokenPipe"`, `"UnexpectedEof"`, ...), taken when the error is
/// converted.
#[derive(Debug)]
pub struct IoFailure {
    error: std::io::Error,
    kind: String,
}

impl IoFailure {
    /// The failure's I/O error.
    pub closed spec fn spec_error(&self) -> std::io::Error {
        self.error
    }

    /// The name of the failure's kind.
    pub closed spec fn spec_kind(&self) -> Seq<char> {
        self.kind@
    }

    /// The failure `error`, with the name of its kind.
    pub fn new(error: std::io::Error) -> (failure: Self)
        ensures
            failure.spec_error() == error,
    {
        let kind = io_error_kind_name(&error);
        IoFailure { error, kind }
    }

    pub fn error(&self) -> (error: &std::io::Error)
        ensures
            *error == self.spec_error(),
    {
        &self.error
    }

    pub fn kind(&self) -> (kind: &str)
        ensures
            kind@ == self.spec_kind(),
    {
        self.kind.as_str()
    }
}

impl From<std::io::Error> for TransportError {
    fn from(error: std::io::Error) -> (converted: Self)
        ensures
            converted matches TransportError::Io(failure) && failure.spec_error() == error,
    {
        TransportError::Io(IoFailure::new(error))
    }
}

impl FromSpecImpl<std::io::Error> for TransportError {
    open spec fn obeys_from_spec() -> bool {
        false
    }

    open spec fn from_spec(v: std::io::Error) -> Self {
        TransportError::Io(choose|failure: IoFailure| #[trigger] failure.spec_error() == v)
    }
}

impl From<postcard::Error> for TransportError {
    fn from(error: postcard::Error) -> (converted: Self) {
        TransportError::Serialization(error)
    }
}

impl FromSpecImpl<postcard::Error> for TransportError {
    open spec fn obeys_from_spec() -> bool {
        true
    }

    open spec fn from_spec(v: postcard::Error) -> Self {
        TransportError::Serialization(v)
    }
}

/// Renders an I/O error with its `Display` implementation. The text comes
/// from std and the OS and is not restated here.
#[verifier::external_body]
fn io_error_text(error: &std::io::Error) -> String {
    format!("{error}")
}

/// Renders a postcard error with its `Display` implementation; the text
/// is postcard's and is not restated here.
#[verifier::external_body]
fn postcard_error_text(error: &postcard::Error) -> String {
    format!("{error}")
}

/// The kind that `std::io::Error::kind` gives `error`, by the name its
/// `{:?}` form shows (the variant's name). Which kind an error has is
/// decided by std and the OS, and an `io::Error` has no plain value to
/// state it over, so nothing is promised of the result.
#[verifier::external_body]
fn io_error_kind_name(error: &std::io::Error) -> String {
    format!("{:?}", error.kind())
}

/// The fixed part of each error's description.
pub open spec fn transport_error_text(error: TransportError) -> Seq<char> {
    match error {
        TransportError::Io(_) => "transport I/O failed: "@,
        TransportError::Serialization(_) => "message serialization failed: "@,
        TransportError::FrameTooLarge { actual, maximum } => "frame size "@ + decimal_text(actual as nat)
            + " exceeds configured maximum "@ + decimal_text(maximum as nat),
        TransportError::ConnectTimeout => "connection attempt timed out"@,
    }
}

impl TransportError {
    /// The human-readable description of the error. For `Io` and
    /// `Serialization` the fixed prefix is followed by the wrapped error's
    /// own description.
    pub fn to_string(&self) -> (text: String)
        ensures
            match self {
                TransportError::Io(_) | TransportError::Serialization(_) => transport_error_text(*self).is_prefix_of(text@),
                _ => text@ == transport_error_text(*self),
            },
    {
        proof {
            reveal_strlit("transport I/O failed: ");
            reveal_strlit("message serialization failed: ");
            reveal_strlit("frame size ");
            reveal_strlit(" exceeds configured maximum ");
            reveal_strlit("connection attempt timed out");
        }
        match self {
            TransportError::Io(failure) => {
                let detail = io_error_text(failure.error());
                let text = String::from_str("transport I/O failed: ").concat(detail.as_str());
                assert(transport_error_text(*self) =~= text@.subrange(0, transport_error_text(*self).len() as int));
                text
            },
            TransportError::Serialization(error) => {
                let detail = postcard_error_text(error);
                let text = String::from_str("message serialization failed: ").concat(detail.as_str());
                assert(transport_error_text(*self) =~= text@.subrange(0, transport_error_text(*self).len() as int));
                text
            },
            TransportError::FrameTooLarge { actual, maximum } => {
                let mut text = String::from_str("frame size ");
                push_decimal(&mut text, *actual as u64);
                text.append(" exceeds configured maximum ");
                push_decimal(&mut text, *maximum as u64);
                assert(text@ =~= transport_error_text(*self));
                text
            },
            TransportError::ConnectTimeout => String::from_str("connection attempt timed out"),
        }
    }
}

/// Whether an I/O failure of the kind named `kind` means that the peer
/// went away: end of stream, reset, or broken pipe.
pub open spec fn peer_gone_kind(kind: Seq<char>) -> bool {
    kind == "UnexpectedEof"@ || kind == "ConnectionReset"@ || kind == "BrokenPipe"@
}

/// Whether an I/O failure of the kind named `kind` means that the peer
/// went away.
pub fn peer_gone(kind: &str) -> (gone: bool)
    ensures
        gone == peer_gone_kind(kind@),
{
    text_eq(kind, "UnexpectedEof") || text_eq(kind, "ConnectionReset") || text_eq(kind, "BrokenPipe")
}

/// Whether `error` means that the peer simply went away (end of stream,
/// reset, or broken pipe) rather than a genuine transport failure. Only
/// I/O errors can mean that.
pub fn is_disconnect(error: &TransportError) -> (disconnect: bool)
    ensures
        disconnect == (error matches TransportError::Io(failure) && peer_gone_kind(failure.spec_kind())),
{
    match error {
        TransportError::Io(failure) => peer_gone(failure.kind()),
        _ => false,
    }
}

/// Refuses a frame of `actual` bytes when it is over `maximum`.
fn validate_size(actual: usize, maximum: usize) -> (result: Result<(), TransportError>)
    ensures
        actual <= maximum ==> result is Ok,
        actual > maximum ==> (result matches Err(TransportError::FrameTooLarge { actual: a, maximum: m })
            && a == actual && m == maximum),
{
    if actual > maximum {
        return Err(TransportError::FrameTooLarge { actual, maximum });
    }
    Ok(())
}

/// The four bytes of `n` in big-endian order.
pub open spec fn be_bytes(n: nat) -> Seq<u8> {
    seq![
        ((n / 0x1000000) % 0x100) as u8,
        ((n / 0x10000) % 0x100) as u8,
        ((n / 0x100) % 0x100) as u8,
        (n % 0x100) as u8,
    ]
}

/// The number that four big-endian bytes spell.
pub open spec fn be_value(bytes: Seq<u8>) -> nat {
    (bytes[0] as nat) * 0x1000000 + (bytes[1] as nat) * 0x10000 + (bytes[2] as nat) * 0x100 + (bytes[3] as nat)
}

/// The length prefix that announces a payload of `payload_len` bytes, if
/// the payload may be sent: it must fit the frame limit `maximum` and a
/// four-byte length.
pub fn length_prefix(payload_len: usize, maximum: usize) -> (prefix: Result<[u8; 4], TransportError>)
    ensures
        match prefix {
            Ok(bytes) => payload_len <= maximum && payload_len <= u32::MAX && bytes@ == be_bytes(payload_len as nat),
            Err(TransportError::FrameTooLarge { actual, maximum: m }) => actual == payload_len && m == maximum
                && (payload_len > maximum || payload_len > u32::MAX),
            Err(_) => false,
        },
{
    match validate_size(payload_len, maximum) {
        Ok(()) => {},
        Err(error) => {
            return Err(error);
        },
    }
    if payload_len as u64 > u32::MAX as u64 {
        return Err(TransportError::FrameTooLarge { actual: payload_len, maximum });
    }
    let n = payload_len as u64;
    let bytes: [u8; 4] = [
        ((n / 0x1000000) % 0x100) as u8,
        ((n / 0x10000) % 0x100) as u8,
        ((n / 0x100) % 0x100) as u8,
        (n % 0x100) as u8,
    ];
    assert(bytes@ =~= be_bytes(payload_len as nat));
    Ok(bytes)
}

/// The payload length that the prefix `prefix` announces, if a frame of
/// that size may be received under the limit `maximum`. It is checked
/// before anything is allocated for the payload.
pub fn frame_length(prefix: [u8; 4], maximum: usize) -> (length: Result<usize, TransportError>)
    ensures
        match length {
            Ok(n) => n == be_value(prefix@) && n <= maximum,
            Err(TransportError::FrameTooLarge { actual, maximum: m }) => actual == be_value(prefix@) && m == maximum
                && actual > maximum,
            Err(_) => false,
        },
{
    let value: u64 = (prefix[0] as u64) * 0x1000000 + (prefix[1] as u64) * 0x10000 + (prefix[2] as u64) * 0x100
        + (prefix[3] as u64);
    assert(value <= u32::MAX);
    let length = value as usize;
    match validate_size(length, maximum) {
        Ok(()) => Ok(length),
        Err(error) => Err(error),
    }
}

/// A length prefix read back gives the length it was made for: framing
/// keeps message boundaries.
pub proof fn law_length_prefix_round_trip(n: nat)
    requires
        n <= u32::MAX,
    ensures
        be_value(be_bytes(n)) == n,
        be_bytes(n).len() == 4,
{
    let b = be_bytes(n);
    assert(b[0] as nat == (n / 0x1000000) % 0x100);
    assert(b[1] as nat == (n / 0x10000) % 0x100);
    assert(b[2] as nat == (n / 0x100) % 0x100);
    assert(b[3] as nat == n % 0x100);
    assert(((n / 0x1000000) % 0x100) * 0x1000000 + ((n / 0x10000) % 0x100) * 0x10000 + ((n / 0x100) % 0x100) * 0x100
        + n % 0x100 == n) by (nonlinear_arith)
        requires
            n <= 0xffffffff,
    ;
}

/// A message-oriented wrapper around a byte stream: every message is sent
/// as one frame, so message boundaries survive the stream.
pub struct FramedConnection<S> {
    stream: S,
    max_frame_size: usize,
}

impl<S> FramedConnection<S> {
    /// The wrapped stream.
    pub closed spec fn inner(&self) -> S {
        self.stream
    }

    /// The frame size limit, in bytes.
    pub closed spec fn limit(&self) -> usize {
        self.max_frame_size
    }

    pub fn new(stream: S) -> (connection: Self)
        ensures
            connection.inner() == stream,
            connection.limit() == DEFAULT_MAX_FRAME_SIZE,
    {
        Self::with_max_frame_size(stream, DEFAULT_MAX_FRAME_SIZE)
    }

    pub fn with_max_frame_size(stream: S, max_frame_size: usize) -> (connection: Self)
        ensures
            connection.inner() == stream,
            connection.limit() == max_frame_size,
    {
        FramedConnection { stream, max_frame_size }
    }

    pub fn into_inner(self) -> (stream: S)
        ensures
            stream == self.inner(),
    {
        self.stream
    }

    /// The stream and the frame size limit, for splitting the connection.
    pub fn into_parts(self) -> (parts: (S, usize))
        ensures
            parts == (self.inner(), self.limit()),
    {
        (self.stream, self.max_frame_size)
    }

    pub fn max_frame_size(&self) -> (limit: usize)
        ensures
            limit == self.limit(),
    {
        self.max_frame_size
    }

    /// The stream, for reading and writing frames.
    pub fn stream_mut(&mut self) -> (stream: &mut S)
        ensures
            *stream == old(self).inner(),
            final(self).inner() == *final(stream),
            final(self).limit() == old(self).limit(),
    {
        &mut self.stream
    }
}

/// The read half of a split `FramedConnection`.
pub struct FramedReader<R> {
    reader: R,
    max_frame_size: usize,
}

impl<R> FramedReader<R> {
    pub closed spec fn inner(&self) -> R {
        self.reader
    }

    pub closed spec fn limit(&self) -> usize {
        self.max_frame_size
    }

    pub fn with_max_frame_size(reader: R, max_frame_size: usize) -> (framed: Self)
        ensures
            framed.inner() == reader,
            framed.limit() == max_frame_size,
    {
        FramedReader { reader, max_frame_size }
    }

    pub fn max_frame_size(&self) -> (limit: usize)
        ensures
            limit == self.limit(),
    {
        self.max_frame_size
    }

    pub fn reader_mut(&mut self) -> (reader: &mut R)
        ensures
            *reader == old(self).inner(),
            final(self).inner() == *final(reader),
            final(self).limit() == old(self).limit(),
    {
        &mut self.reader
    }
}

/// The write half of a split `FramedConnection`.
pub struct FramedWriter<W> {
    writer: W,
    max_frame_size: usize,
}

impl<W> FramedWriter<W> {
    pub closed spec fn inner(&self) -> W {
        self.writer
    }

    pub closed spec fn limit(&self) -> usize {
        self.max_frame_size
    }

    pub fn with_max_frame_size(writer: W, max_frame_size: usize) -> (framed: Self)
        ensures
            framed.inner() == writer,
            framed.limit() == max_frame_size,
    {
        FramedWriter { writer, max_frame_size }
    }

    pub fn max_frame_size(&self) -> (limit: usize)
        ensures
            limit == self.limit(),
    {
        self.max_frame_size
    }

    pub fn writer_mut(&mut self) -> (writer: &mut W)
        ensures
            *writer == old(self).inner(),
            final(self).inner() == *final(writer),
            final(self).limit() == old(self).limit(),
    {
        &mut self.writer
    }
}

} // verus!
