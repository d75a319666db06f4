//! Rules of a peer server: the endpoint that it advertises, and how it ends.

use vstd::prelude::*;

verus! {

/// Builder for a peer server that is to listen at an address.
#[derive(Clone, Debug)]
pub struct PeerServerBuilder<A> {
    bind: A,
    advertised: Option<String>,
}

/// What a [`PeerServerBuilder`] stands for.
#[verifier::ext_equal]
pub struct PeerServerView<A> {
    pub bind: A,
    /// The endpoint to advertise, where one was given.
    pub advertised: Option<Seq<char>>,
}

impl<A> View for PeerServerBuilder<A> {
    type V = PeerServerView<A>;

    closed spec fn view(&self) -> PeerServerView<A> {
        PeerServerView {
            bind: self.bind,
            advertised: match self.advertised {
                Some(s) => Some(s@),
                None => None,
            },
        }
    }
}

impl<A> PeerServerBuilder<A> {
    /// A server at an address, with nothing overridden.
    pub fn new(bind: A) -> (r: Self)
        ensures
            r@ == (PeerServerView { bind, advertised: None::<Seq<char>> }),
    {
        PeerServerBuilder { bind, advertised: None }
    }

    /// Override the endpoint string that is published. If the bind address is a
    /// wildcard, advertise the externally-reachable address here.
    pub fn advertise<S: Into<String>>(self, endpoint: S) -> (r: Self)
        ensures
            exists|text: String| #[trigger]
                call_ensures(<S as Into<String>>::into, (endpoint,), text) && r@ == (
                PeerServerView { bind: self@.bind, advertised: Some(text@) }),
    {
        let text: String = endpoint.into();
        PeerServerBuilder { bind: self.bind, advertised: Some(text) }
    }

    /// The address to listen at.
    pub fn bind(&self) -> (r: &A)
        ensures
            *r == self@.bind,
    {
        &self.bind
    }

    /// The endpoint to publish once the server listens at a local address. Defaults to
    /// that address prefixed with `http://`.
    pub fn endpoint(self, local_addr: &str) -> (r: String)
        ensures
            r@ == match self@.advertised {
                Some(text) => text,
                None => "http://"@ + local_addr@,
            },
    {
        match self.advertised {
            Some(text) => text,
            None => "http://".to_owned().concat(local_addr),
        }
    }
}

/// How the task of a server ended.
pub enum ServeEnd {
    /// It had ended before.
    Gone,
    /// The server stopped in order.
    Stopped,
    /// The server failed.
    Failed(String),
    /// The task was cancelled.
    Cancelled,
    /// The task broke off.
    Broken(String),
}

/// What can go wrong with a server.
#[derive(Clone, Debug, PartialEq, Eq)]
pub enum ServeError {
    Transport(String),
    Join(String),
}

impl ServeError {
    /// The error in words.
    pub fn to_string(&self) -> (r: String)
        ensures
            r@ == match *self {
                ServeError::Transport(m) => "tonic transport: "@ + m@,
                ServeError::Join(m) => "server task: "@ + m@,
            },
    {
        match self {
            ServeError::Transport(m) => "tonic transport: ".to_owned().concat(m.as_str()),
            ServeError::Join(m) => "server task: ".to_owned().concat(m.as_str()),
        }
    }
}

/// What shutting a server down comes to.
pub fn serve_result(end: ServeEnd) -> (r: Result<(), ServeError>)
    ensures
        r == match end {
            ServeEnd::Gone => Ok(()),
            ServeEnd::Stopped => Ok(()),
            ServeEnd::Cancelled => Ok(()),
            ServeEnd::Failed(m) => Err(ServeError::Transport(m)),
            ServeEnd::Broken(m) => Err(ServeError::Join(m)),
        },
{
    match end {
        ServeEnd::Gone => Ok(()),
        ServeEnd::Stopped => Ok(()),
        ServeEnd::Cancelled => Ok(()),
        ServeEnd::Failed(m) => Err(ServeError::Transport(m)),
        ServeEnd::Broken(m) => Err(ServeError::Join(m)),
    }
}

/// A server publishes the endpoint that it was told to advertise, whatever that is, and
/// without one the address at which it listens.
pub proof fn law_advertised_endpoint_wins<A>(
    bind: A,
    endpoint: &str,
    local: &str,
    plain: PeerServerBuilder<A>,
    told: PeerServerBuilder<A>,
    by_default: String,
    published: String,
)
    requires
        call_ensures(PeerServerBuilder::<A>::new, (bind,), plain),
        call_ensures(PeerServerBuilder::<A>::advertise::<&str>, (plain, endpoint), told),
        call_ensures(PeerServerBuilder::<A>::endpoint, (plain, local), by_default),
        call_ensures(PeerServerBuilder::<A>::endpoint, (told, local), published),
    ensures
        published@ == endpoint@,
        by_default@ == "http://"@ + local@,
        plain@.bind == bind,
        told@.bind == bind,
{
}

/// Shutting a server down fails exactly where the server or its task failed, with that
/// reason.
pub proof fn law_only_failures_fail(end: ServeEnd, r: Result<(), ServeError>)
    requires
        call_ensures(serve_result, (end,), r),
    ensures
        r is Err <==> end is Failed || end is Broken,
        end matches ServeEnd::Failed(m) ==> r == Err::<(), ServeError>(ServeError::Transport(m)),
        end matches ServeEnd::Broken(m) ==> r == Err::<(), ServeError>(ServeError::Join(m)),
{
}

/// The words of each error of a server.
pub proof fn law_server_errors_have_their_words(e: ServeError, text: String)
    requires
        call_ensures(ServeError::to_string, (&e,), text),
    ensures
        e matches ServeError::Transport(m) ==> text@ == "tonic transport: "@ + m@,
        e matches ServeError::Join(m) ==> text@ == "server task: "@ + m@,
{
}

} // verus!
