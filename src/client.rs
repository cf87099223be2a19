use vstd::prelude::*;

use tokio::sync::mpsc::Sender;
use tokio::task::JoinHandle;

use crate::telnet::{Item, ItemView};
use crate::ClientId;

verus! {

#[verifier::external_type_specification]
#[verifier::external_body]
#[verifier::reject_recursive_types(T)]
pub struct ExSender<T>(Sender<T>);

/// Relies on tokio's `Clone for Sender`: another sender on the same channel.
pub assume_specification<T>[ <Sender<T> as Clone>::clone ](s: &Sender<T>) -> Sender<T>;

#[verifier::external_type_specification]
#[verifier::external_body]
#[verifier::reject_recursive_types(T)]
pub struct ExJoinHandle<T>(JoinHandle<T>);

/// Declared because `JoinHandle`'s `Future` impl names it as its output.
#[verifier::external_type_specification]
#[verifier::external_body]
pub struct ExJoinError(tokio::task::JoinError);

/// Relies on tokio's `Sender::try_send`: queues the message without waiting
/// and returns `Ok` exactly when the queue took it; it fails when the queue
/// is full or the receiver is gone, which depends on other tasks. The handle's
/// log of offers grows by the payload and whether the queue took it.
#[verifier::external_body]
fn try_send_now(h: &mut ClientHandle, msg: FromServer) -> (sent: bool)
    ensures
        final(h).id == old(h).id,
        final(h).offers@ == old(h).offers@.push((payload(msg), sent)),
{
    h.chan.try_send(msg).is_ok()
}

/// Relies on tokio's `JoinHandle::abort`: asks the runtime to cancel the
/// task; it neither blocks nor panics.
#[verifier::external_body]
fn abort_task(task: &JoinHandle<()>)
    opens_invariants none
    no_unwind
{
    task.abort()
}

/// Messages from the registry to one connection actor.
#[derive(Debug)]
pub enum FromServer {
    Message(Vec<u8>),
}

/// The chat payload that a message carries.
pub open spec fn payload(msg: FromServer) -> Seq<u8> {
    match msg {
        FromServer::Message(p) => p@,
    }
}

/// Why an outbound chat payload could not be queued.
#[derive(Debug, Clone, Copy, PartialEq, Eq, Structural)]
pub enum SendError {
    /// The actor's queue is full or the actor is gone.
    CannotKeepUp,
}

/// The registry's handle to one connection actor. Dropping it cancels the
/// actor's task.
pub struct ClientHandle {
    pub id: ClientId,
    chan: Sender<FromServer>,
    kill: JoinHandle<()>,
    /// Each payload offered to the actor's queue, oldest first, with whether
    /// the queue took it.
    offers: Ghost<Seq<(Seq<u8>, bool)>>,
}

impl View for ClientHandle {
    type V = ClientId;

    /// A handle stands for the connection that it identifies.
    closed spec fn view(&self) -> ClientId {
        self.id
    }
}

impl ClientHandle {
    /// Each payload offered to the actor's queue through this handle, oldest
    /// first, with whether the queue took it.
    pub closed spec fn offers(&self) -> Seq<(Seq<u8>, bool)> {
        self.offers@
    }

    /// The identifier of the connection.
    pub fn id(&self) -> (r: ClientId)
        ensures
            r == self@,
    {
        self.id
    }

    /// Bundles an actor's identifier, its outbound queue and its task.
    pub fn new(id: ClientId, chan: Sender<FromServer>, kill: JoinHandle<()>) -> (r: Self)
        ensures
            r@ == id,
            r.offers() == Seq::<(Seq<u8>, bool)>::empty(),
    {
        ClientHandle { id, chan, kill, offers: Ghost(Seq::empty()) }
    }

    /// Queues a message for this actor without waiting. An error means that
    /// the actor cannot keep up with its queue, or is gone.
    pub fn send(&mut self, msg: FromServer) -> (r: Result<(), SendError>)
        ensures
            final(self)@ == old(self)@,
            final(self).offers() == old(self).offers().push((payload(msg), r is Ok)),
            r is Err ==> r == Err::<(), SendError>(SendError::CannotKeepUp),
    {
        if try_send_now(self, msg) {
            Ok(())
        } else {
            Err(SendError::CannotKeepUp)
        }
    }

    /// Ends the actor: dropping the handle cancels its task.
    pub fn kill(self) {
        abort_task(&self.kill);
    }
}

impl Drop for ClientHandle {
    fn drop(&mut self)
        opens_invariants none
        no_unwind
    {
        abort_task(&self.kill);
    }
}

/// Replies that the reader routine hands to the writer routine.
#[derive(Debug, Clone, Copy, PartialEq, Eq, Structural)]
pub enum InternalMsg {
    GotAreYouThere,
    SendDont(u8),
    SendWont(u8),
    SendDo(u8),
}

/// The option code of "suppress go-ahead", the one option that is accepted.
pub const SUPPRESS_GO_AHEAD: u8 = 3;

/// What the reader routine does with one decoded item.
#[derive(Debug)]
pub enum ReaderStep {
    /// Hand the line to the registry as a chat message.
    Forward(Vec<u8>),
    /// Hand a reply to the writer routine.
    Reply(InternalMsg),
    /// Nothing to do.
    Ignore,
    /// End the reader routine without an error.
    Stop,
    /// End the reader routine with an error: the item cannot be handled.
    Fail(Item),
}

/// The reply to a negotiation offer, or to a query, that `item` carries.
pub open spec fn reply_to(item: ItemView) -> Option<InternalMsg> {
    match item {
        ItemView::AreYouThere => Some(InternalMsg::GotAreYouThere),
        ItemView::Will(o) => Some(
            if o == SUPPRESS_GO_AHEAD {
                InternalMsg::SendDo(o)
            } else {
                InternalMsg::SendDont(o)
            },
        ),
        ItemView::Do(o) => Some(InternalMsg::SendWont(o)),
        _ => None,
    }
}

/// Decides what the reader routine does with `item`: lines go to the
/// registry, offers and queries are answered, go-ahead is ignored, an
/// interrupt ends the routine, and anything else is an error.
pub fn reader_step(item: Item) -> (r: ReaderStep)
    ensures
        match item@ {
            ItemView::Line(l) => r matches ReaderStep::Forward(v) && v@ == l,
            ItemView::GoAhead => r matches ReaderStep::Ignore,
            ItemView::InterruptProcess => r matches ReaderStep::Stop,
            _ => match reply_to(item@) {
                Some(m) => r matches ReaderStep::Reply(x) && x == m,
                None => r matches ReaderStep::Fail(x) && x@ == item@,
            },
        },
{
    match item {
        Item::Line(line) => ReaderStep::Forward(line),
        Item::AreYouThere => ReaderStep::Reply(InternalMsg::GotAreYouThere),
        Item::GoAhead => ReaderStep::Ignore,
        Item::InterruptProcess => ReaderStep::Stop,
        Item::Will(SUPPRESS_GO_AHEAD) => ReaderStep::Reply(InternalMsg::SendDo(SUPPRESS_GO_AHEAD)),
        Item::Will(i) => ReaderStep::Reply(InternalMsg::SendDont(i)),
        Item::Do(i) => ReaderStep::Reply(InternalMsg::SendWont(i)),
        item => ReaderStep::Fail(item),
    }
}

/// The bytes that answer an "are you there" query: the text `Yes.\r\n`.
pub open spec fn yes_reply() -> Seq<u8> {
    seq![89u8, 101u8, 115u8, 46u8, 13u8, 10u8]
}

/// What the writer routine puts on the wire for a reply.
pub open spec fn reply_wire(msg: InternalMsg) -> Seq<u8> {
    match msg {
        InternalMsg::GotAreYouThere => yes_reply(),
        InternalMsg::SendDont(i) => seq![255u8, 254u8, i],
        InternalMsg::SendWont(i) => seq![255u8, 252u8, i],
        InternalMsg::SendDo(i) => seq![255u8, 253u8, i],
    }
}

/// Serialises a reply of the reader routine for the wire.
pub fn reply_bytes(msg: InternalMsg) -> (r: Vec<u8>)
    ensures
        r@ == reply_wire(msg),
{
    let r = match msg {
        InternalMsg::GotAreYouThere => vec![89u8, 101, 115, 46, 13, 10],
        InternalMsg::SendDont(i) => vec![0xffu8, 254, i],
        InternalMsg::SendWont(i) => vec![0xffu8, 252, i],
        InternalMsg::SendDo(i) => vec![0xffu8, 253, i],
    };
    assert(r@ =~= reply_wire(msg));
    r
}

/// Serialises an outbound chat payload for the wire: the payload, then a
/// carriage return and a line feed.
pub fn chat_bytes(msg: FromServer) -> (r: Vec<u8>)
    ensures
        match msg {
            FromServer::Message(p) => r@ == p@ + seq![13u8, 10u8],
        },
{
    match msg {
        FromServer::Message(p) => {
            let mut r = p;
            r.push(13);
            r.push(10);
            proof {
                assert(r@ =~= p@ + seq![13u8, 10u8]);
            }
            r
        },
    }
}

} // verus!
