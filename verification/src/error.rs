//! Client errors and their translation to and from gRPC statuses.
//!
//! - `NotOwned` and `Code::OutOfRange` stand for each other.
//! - `Draining` and `Code::Aborted` stand for each other.
//! - `Code::Unavailable` is treated as an ownership-class error for retry purposes.

use vstd::prelude::*;
use vstd::string::*;

use crate::statuses::{shown_status, status_text};

verus! {

/// A gRPC status code.
#[derive(Copy, Clone, Debug, PartialEq, Eq, Structural)]
pub enum Code {
    Success,
    Cancelled,
    Unknown,
    InvalidArgument,
    DeadlineExceeded,
    NotFound,
    AlreadyExists,
    PermissionDenied,
    ResourceExhausted,
    FailedPrecondition,
    Aborted,
    OutOfRange,
    Unimplemented,
    Internal,
    Unavailable,
    DataLoss,
    Unauthenticated,
}

impl Code {
    /// The number of the code.
    pub open spec fn number(self) -> i32 {
        match self {
            Code::Success => 0,
            Code::Cancelled => 1,
            Code::Unknown => 2,
            Code::InvalidArgument => 3,
            Code::DeadlineExceeded => 4,
            Code::NotFound => 5,
            Code::AlreadyExists => 6,
            Code::PermissionDenied => 7,
            Code::ResourceExhausted => 8,
            Code::FailedPrecondition => 9,
            Code::Aborted => 10,
            Code::OutOfRange => 11,
            Code::Unimplemented => 12,
            Code::Internal => 13,
            Code::Unavailable => 14,
            Code::DataLoss => 15,
            Code::Unauthenticated => 16,
        }
    }

    /// The number of the code.
    pub fn to_i32(self) -> (v: i32)
        ensures
            v == self.number(),
    {
        match self {
            Code::Success => 0,
            Code::Cancelled => 1,
            Code::Unknown => 2,
            Code::InvalidArgument => 3,
            Code::DeadlineExceeded => 4,
            Code::NotFound => 5,
            Code::AlreadyExists => 6,
            Code::PermissionDenied => 7,
            Code::ResourceExhausted => 8,
            Code::FailedPrecondition => 9,
            Code::Aborted => 10,
            Code::OutOfRange => 11,
            Code::Unimplemented => 12,
            Code::Internal => 13,
            Code::Unavailable => 14,
            Code::DataLoss => 15,
            Code::Unauthenticated => 16,
        }
    }
}

/// A header or trailer that came with a status.
#[derive(Clone, Debug, PartialEq, Eq)]
pub struct MetadataEntry {
    pub name: String,
    pub value: Vec<u8>,
}

/// A gRPC status.
#[derive(Clone, Debug, PartialEq, Eq)]
pub struct Status {
    pub code: Code,
    pub message: String,
    pub details: Vec<u8>,
    pub metadata: Vec<MetadataEntry>,
}

/// What a [`Status`] stands for.
#[verifier::ext_equal]
pub struct StatusView {
    pub code: Code,
    pub message: Seq<char>,
    pub details: Seq<u8>,
    pub metadata: Seq<MetadataEntry>,
}

impl View for Status {
    type V = StatusView;

    open spec fn view(&self) -> StatusView {
        StatusView {
            code: self.code,
            message: self.message@,
            details: self.details@,
            metadata: self.metadata@,
        }
    }
}

/// A status that carries a message and nothing else.
pub open spec fn plain_status(code: Code, message: Seq<char>) -> StatusView {
    StatusView { code, message, details: Seq::empty(), metadata: Seq::empty() }
}

impl Status {
    /// A status that carries a message and nothing else.
    pub fn new<S: Into<String>>(code: Code, message: S) -> (r: Self)
        ensures
            call_ensures(<S as Into<String>>::into, (message,), r.message),
            r@ == plain_status(code, r.message@),
    {
        let message: String = message.into();
        Status { code, message, details: Vec::new(), metadata: Vec::new() }
    }

    /// The code.
    pub fn code(&self) -> (r: Code)
        ensures
            r == self@.code,
    {
        self.code
    }
}

/// What can go wrong in the client.
#[derive(Clone, Debug, PartialEq, Eq)]
pub enum ClientError {
    NotOwned,
    Draining,
    NoResolution,
    Revoked,
    Expired,
    SessionClosed(String),
    Cancelled,
    InvalidMessage(String),
    Transport(Status),
    TransportSetup(String),
}

/// A result with the client's error.
pub type Result<T> = std::result::Result<T, ClientError>;

/// What a [`ClientError`] stands for.
#[verifier::ext_equal]
pub enum ErrorView {
    NotOwned,
    Draining,
    NoResolution,
    Revoked,
    Expired,
    SessionClosed(Seq<char>),
    Cancelled,
    InvalidMessage(Seq<char>),
    Transport(StatusView),
    TransportSetup(Seq<char>),
}

impl View for ClientError {
    type V = ErrorView;

    open spec fn view(&self) -> ErrorView {
        match *self {
            ClientError::NotOwned => ErrorView::NotOwned,
            ClientError::Draining => ErrorView::Draining,
            ClientError::NoResolution => ErrorView::NoResolution,
            ClientError::Revoked => ErrorView::Revoked,
            ClientError::Expired => ErrorView::Expired,
            ClientError::SessionClosed(m) => ErrorView::SessionClosed(m@),
            ClientError::Cancelled => ErrorView::Cancelled,
            ClientError::InvalidMessage(m) => ErrorView::InvalidMessage(m@),
            ClientError::Transport(s) => ErrorView::Transport(s@),
            ClientError::TransportSetup(m) => ErrorView::TransportSetup(m@),
        }
    }
}

impl ErrorView {
    /// The error in words, given how its status, where it has one, is shown.
    pub open spec fn text(self, status: Seq<char>) -> Seq<char> {
        match self {
            ErrorView::NotOwned => "not owned"@,
            ErrorView::Draining => "draining"@,
            ErrorView::NoResolution => "no resolution"@,
            ErrorView::Revoked => "grant revoked"@,
            ErrorView::Expired => "grant expired"@,
            ErrorView::SessionClosed(m) => "session closed: "@ + m,
            ErrorView::Cancelled => "cancelled"@,
            ErrorView::InvalidMessage(m) => "invalid message: "@ + m,
            ErrorView::Transport(_) => "transport: "@ + status,
            ErrorView::TransportSetup(m) => "transport setup: "@ + m,
        }
    }

    /// How the status of the error is shown. A status here has no source, so it shows
    /// its code and its message.
    pub open spec fn status_shown(self) -> Seq<char> {
        match self {
            ErrorView::Transport(s) => shown_status(s.code.number(), s.message),
            _ => Seq::empty(),
        }
    }

    /// The status that stands for an error when it is forwarded.
    pub open spec fn grpc(self) -> StatusView {
        match self {
            ErrorView::NotOwned => plain_status(Code::OutOfRange, "not owned"@),
            ErrorView::Draining => plain_status(Code::Aborted, "draining"@),
            ErrorView::NoResolution => plain_status(Code::Unavailable, "no resolution"@),
            ErrorView::Revoked => plain_status(Code::Aborted, "revoked"@),
            ErrorView::Expired => plain_status(Code::DeadlineExceeded, "expired"@),
            ErrorView::SessionClosed(m) => plain_status(Code::Unavailable, m),
            ErrorView::Cancelled => plain_status(Code::Cancelled, "cancelled"@),
            ErrorView::InvalidMessage(m) => plain_status(Code::InvalidArgument, m),
            ErrorView::Transport(s) => s,
            ErrorView::TransportSetup(m) => plain_status(Code::Unavailable, m),
        }
    }

    /// The error that a peer's status stands for.
    pub open spec fn of_grpc(status: StatusView) -> ErrorView {
        match status.code {
            Code::OutOfRange => ErrorView::NotOwned,
            Code::Aborted => ErrorView::Draining,
            _ => ErrorView::Transport(status),
        }
    }

    /// Whether an error is an ownership-class failure that is worth retrying.
    pub open spec fn ownership(self) -> bool {
        match self {
            ErrorView::NotOwned | ErrorView::Draining => true,
            ErrorView::Transport(s) => s.code == Code::Unavailable,
            _ => false,
        }
    }
}

impl ClientError {
    /// The error in words, given how its status, where it has one, is shown.
    pub fn describe(&self, status: &str) -> (r: String)
        ensures
            r@ == self@.text(status@),
    {
        match self {
            ClientError::NotOwned => "not owned".to_owned(),
            ClientError::Draining => "draining".to_owned(),
            ClientError::NoResolution => "no resolution".to_owned(),
            ClientError::Revoked => "grant revoked".to_owned(),
            ClientError::Expired => "grant expired".to_owned(),
            ClientError::SessionClosed(m) => "session closed: ".to_owned().concat(m.as_str()),
            ClientError::Cancelled => "cancelled".to_owned(),
            ClientError::InvalidMessage(m) => "invalid message: ".to_owned().concat(m.as_str()),
            ClientError::Transport(_) => "transport: ".to_owned().concat(status),
            ClientError::TransportSetup(m) => "transport setup: ".to_owned().concat(m.as_str()),
        }
    }

    /// The error in words.
    pub fn to_string(&self) -> (r: String)
        ensures
            r@ == self@.text(self@.status_shown()),
    {
        match self {
            ClientError::Transport(s) => {
                let status = status_text(s.code.to_i32(), s.message.as_str());
                self.describe(status.as_str())
            },
            _ => self.describe(""),
        }
    }

    /// Translate a domain error into a gRPC status for forwarding.
    pub fn into_grpc(self) -> (r: Status)
        ensures
            r@ == self@.grpc(),
            self matches ClientError::Transport(s) ==> r == s,
    {
        match self {
            ClientError::NotOwned => Status::new(Code::OutOfRange, "not owned"),
            ClientError::Draining => Status::new(Code::Aborted, "draining"),
            ClientError::NoResolution => Status::new(Code::Unavailable, "no resolution"),
            ClientError::Revoked => Status::new(Code::Aborted, "revoked"),
            ClientError::Expired => Status::new(Code::DeadlineExceeded, "expired"),
            ClientError::SessionClosed(msg) => Status::new(Code::Unavailable, msg),
            ClientError::Cancelled => Status::new(Code::Cancelled, "cancelled"),
            ClientError::InvalidMessage(m) => Status::new(Code::InvalidArgument, m),
            ClientError::Transport(s) => s,
            ClientError::TransportSetup(m) => Status::new(Code::Unavailable, m),
        }
    }

    /// Recover a domain error from a gRPC status returned by a peer.
    pub fn from_grpc(status: Status) -> (r: Self)
        ensures
            r@ == ErrorView::of_grpc(status@),
            r matches ClientError::Transport(s) ==> s == status,
    {
        match status.code {
            Code::OutOfRange => ClientError::NotOwned,
            Code::Aborted => ClientError::Draining,
            _ => ClientError::Transport(status),
        }
    }

    /// True when the error is an ownership-class failure that's worth retrying.
    pub fn is_ownership(&self) -> (r: bool)
        ensures
            r == self@.ownership(),
    {
        match self {
            ClientError::NotOwned => true,
            ClientError::Draining => true,
            ClientError::Transport(s) => match s.code {
                Code::Unavailable => true,
                _ => false,
            },
            _ => false,
        }
    }
}

/// `NotOwned` and `Draining` survive the way to a peer and back.
pub proof fn law_ownership_errors_survive_forwarding(e: ErrorView)
    requires
        e is NotOwned || e is Draining,
    ensures
        ErrorView::of_grpc(e.grpc()) == e,
{
}

/// An ownership-class error is still one after the way to a peer and back.
pub proof fn law_forwarded_ownership_error_is_ownership(e: ErrorView)
    requires
        e.ownership(),
    ensures
        ErrorView::of_grpc(e.grpc()).ownership(),
{
}

/// A status is kept whole where it does not stand for an ownership error, and is
/// then given back unchanged when it is forwarded again.
pub proof fn law_other_statuses_are_kept_whole(s: StatusView)
    requires
        s.code != Code::OutOfRange,
        s.code != Code::Aborted,
    ensures
        ErrorView::of_grpc(s) == ErrorView::Transport(s),
        ErrorView::of_grpc(s).grpc() == s,
{
}

/// Forwarding keeps the code of every status.
pub proof fn law_forwarding_keeps_the_code(s: StatusView)
    ensures
        ErrorView::of_grpc(s).grpc().code == s.code,
{
}

/// Each error is forwarded under its own code and with its own text; a status that
/// came from elsewhere is forwarded as it came.
pub proof fn law_each_error_has_its_status(e: ClientError, s: Status)
    requires
        call_ensures(ClientError::into_grpc, (e,), s),
    ensures
        e is NotOwned ==> s.code == Code::OutOfRange && s.message@ == "not owned"@,
        e is Draining ==> s.code == Code::Aborted && s.message@ == "draining"@,
        e is NoResolution ==> s.code == Code::Unavailable && s.message@ == "no resolution"@,
        e is Revoked ==> s.code == Code::Aborted && s.message@ == "revoked"@,
        e is Expired ==> s.code == Code::DeadlineExceeded && s.message@ == "expired"@,
        e is Cancelled ==> s.code == Code::Cancelled && s.message@ == "cancelled"@,
        e matches ClientError::SessionClosed(m) ==> s.code == Code::Unavailable && s.message@
            == m@,
        e matches ClientError::InvalidMessage(m) ==> s.code == Code::InvalidArgument
            && s.message@ == m@,
        e matches ClientError::TransportSetup(m) ==> s.code == Code::Unavailable && s.message@
            == m@,
        e matches ClientError::Transport(t) ==> s == t,
        !(e is Transport) ==> s.details@.len() == 0 && s.metadata@.len() == 0,
{
}

/// A status of a peer is read as an ownership error exactly where its code is one of the
/// two that stand for one; any other is kept whole.
pub proof fn law_statuses_are_read_by_their_code(s: Status, e: ClientError)
    requires
        call_ensures(ClientError::from_grpc, (s,), e),
    ensures
        e is NotOwned <==> s.code == Code::OutOfRange,
        e is Draining <==> s.code == Code::Aborted,
        s.code != Code::OutOfRange && s.code != Code::Aborted ==> e == ClientError::Transport(s),
{
}

/// Exactly three things are worth a retry: a key that is not owned here, an owner that
/// drains, and a peer that is not available.
pub proof fn law_ownership_errors(e: ClientError, r: bool)
    requires
        call_ensures(ClientError::is_ownership, (&e,), r),
    ensures
        r <==> e is NotOwned || e is Draining || (e matches ClientError::Transport(s) && s.code
            == Code::Unavailable),
{
}

/// The words of each error.
pub proof fn law_each_error_has_its_words(e: ClientError, status: &str, text: String)
    requires
        call_ensures(ClientError::describe, (&e, status), text),
    ensures
        e is NotOwned ==> text@ == "not owned"@,
        e is Draining ==> text@ == "draining"@,
        e is NoResolution ==> text@ == "no resolution"@,
        e is Revoked ==> text@ == "grant revoked"@,
        e is Expired ==> text@ == "grant expired"@,
        e is Cancelled ==> text@ == "cancelled"@,
        e matches ClientError::SessionClosed(m) ==> text@ == "session closed: "@ + m@,
        e matches ClientError::InvalidMessage(m) ==> text@ == "invalid message: "@ + m@,
        e matches ClientError::Transport(_) ==> text@ == "transport: "@ + status@,
        e matches ClientError::TransportSetup(m) ==> text@ == "transport setup: "@ + m@,
{
}

/// The words of an error that came with a status show that status by its code and its
/// message; the words of any other need no status.
pub proof fn law_words_show_the_status(
    e: ClientError,
    status: &str,
    described: String,
    text: String,
)
    requires
        call_ensures(ClientError::to_string, (&e,), text),
        call_ensures(ClientError::describe, (&e, status), described),
    ensures
        !(e is Transport) ==> text@ == described@,
        e matches ClientError::Transport(s) ==> (status@ == shown_status(
            s.code.number(),
            s.message@,
        ) ==> text@ == described@),
{
}

/// A fresh status carries its code and its message and nothing else.
pub proof fn law_fresh_status_is_plain(code: Code, message: &str, s: Status)
    requires
        call_ensures(Status::new::<&str>, (code, message), s),
    ensures
        s.code == code,
        s.message@ == message@,
        s.details@.len() == 0,
        s.metadata@.len() == 0,
{
}

/// The number of a code tells it from every other.
pub proof fn law_codes_have_different_numbers(a: Code, b: Code, x: i32, y: i32)
    requires
        call_ensures(Code::to_i32, (a,), x),
        call_ensures(Code::to_i32, (b,), y),
    ensures
        x == y <==> a == b,
        0 <= x <= 16,
{
}

} // verus!
