use crate::channel;
use crate::session::SessionId;
use tokio::sync::mpsc::{UnboundedReceiver, UnboundedSender};
use vstd::prelude::*;
use vstd::string::StringExecFns;

verus! {

/// The wire framing of one named event: UTF-8 text in the standard
/// server-push shape, so generic clients can consume it unmodified.
pub open spec fn frame_spec(event: Seq<char>, data: Seq<char>) -> Seq<char> {
    "event: "@ + event + "\n"@ + "data: "@ + data + "\n\n"@
}

/// The single failure of this subsystem: the channel's consumer is gone.
/// Carries the framed message that could not be delivered.
pub struct SendFailure {
    message: String,
}

impl View for SendFailure {
    type V = Seq<char>;

    closed spec fn view(&self) -> Seq<char> {
        self.message@
    }
}

impl SendFailure {
    /// The framed message that could not be delivered.
    pub fn message(&self) -> (r: &String)
        ensures
            r@ == self@,
    {
        &self.message
    }
}

/// What one poll of an [`EventStream`] yields.
pub enum PollOutcome {
    /// The next framed message, in producer order.
    Item(String),
    /// Nothing is queued, but some send handle is still alive.
    Pending,
    /// The channel is drained and every send handle was dropped: the stream
    /// has terminated and produces no more items.
    Ended,
}

/// The write half of one session's event channel.
///
/// The send handle is shared: the registry keeps one handle and the caller
/// who minted the connection holds another. The paired [`EventStream`] ends
/// only when the last handle is dropped.
pub struct Connection {
    remove_session_actor_on_remove: bool,
    session_id: SessionId,
    sender: UnboundedSender<String>,
}

impl Connection {
    /// The identifier of the session this connection serves.
    pub closed spec fn id(&self) -> u128 {
        self.session_id@
    }

    /// Whether losing this connection must cascade into removing the
    /// session's external state: set exactly when the subscriber supplied the
    /// session identifier itself.
    pub closed spec fn cascades(&self) -> bool {
        self.remove_session_actor_on_remove
    }

    /// Mint a connection and its paired stream. A supplied identifier marks
    /// the connection for cascade on loss; an absent one is generated fresh.
    pub(crate) fn new(session_id: Option<SessionId>) -> (r: (Connection, EventStream))
        ensures
            r.0.cascades() == session_id is Some,
            session_id matches Some(s) ==> r.0.id() == s@,
    {
        let (sender, receiver) = channel::channel_pair();
        let connection = Connection {
            remove_session_actor_on_remove: session_id.is_some(),
            session_id: match session_id {
                Some(supplied) => supplied,
                None => SessionId::new(),
            },
            sender,
        };
        (connection, EventStream { receiver })
    }

    /// A second handle onto the same channel, for the registry entry. This is
    /// the shared-ownership model: the stream ends when the last handle is
    /// dropped, whether that is the registry's or the caller's.
    pub(crate) fn duplicate(&self) -> (r: Connection)
        ensures
            r.id() == self.id(),
            r.cascades() == self.cascades(),
    {
        Connection {
            remove_session_actor_on_remove: self.remove_session_actor_on_remove,
            session_id: self.session_id,
            sender: channel::sender_clone(&self.sender),
        }
    }

    /// The identifier of the session this connection serves.
    pub fn session_id(&self) -> (r: SessionId)
        ensures
            r@ == self.id(),
    {
        self.session_id
    }

    /// Whether losing this connection cascades into removing the session's
    /// external state.
    pub fn cascade_on_loss(&self) -> (r: bool)
        ensures
            r == self.cascades(),
    {
        self.remove_session_actor_on_remove
    }

    /// Encode one named event and push it onto the channel. The push never
    /// blocks; it fails exactly when the receive half is gone, and the
    /// failure then carries the framed message.
    pub fn send(&self, event: &str, data: &str) -> (r: Result<(), SendFailure>)
        ensures
            r matches Err(f) ==> f@ == frame_spec(event@, data@),
    {
        let message = frame_message(event, data);
        match channel::sender_send(&self.sender, message) {
            Ok(()) => Ok(()),
            Err(returned) => Err(SendFailure { message: returned }),
        }
    }
}

/// Serialize one named event into the fixed wire framing.
fn frame_message(event: &str, data: &str) -> (r: String)
    ensures
        r@ == frame_spec(event@, data@),
{
    let mut message = String::new();
    message.append("event: ");
    message.append(event);
    message.append("\n");
    message.append("data: ");
    message.append(data);
    message.append("\n\n");
    proof {
        assert(message@ =~= frame_spec(event@, data@));
    }
    message
}

/// The read half of one session's event channel, exclusively owned by the
/// transport layer that drains it into an outbound byte stream. Yields framed
/// messages in strict producer order and terminates once every paired send
/// handle is dropped.
pub struct EventStream {
    receiver: UnboundedReceiver<String>,
}

impl EventStream {
    /// One non-blocking poll of the stream.
    pub fn try_next(&mut self) -> PollOutcome {
        channel::receiver_try_recv(&mut self.receiver)
    }

    /// Hands the raw receive half to the transport layer, which adapts it to
    /// its own notion of a pollable stream.
    pub fn into_receiver(self) -> UnboundedReceiver<String> {
        self.receiver
    }
}

} // verus!
