//! In-process message transport backed by std channels.
use vstd::prelude::*;

verus! {

/// std::sync::mpsc::Sender, carried opaquely: the sending end of a channel.
#[verifier::external_type_specification]
#[verifier::external_body]
#[verifier::reject_recursive_types(T)]
pub struct ExSender<T>(std::sync::mpsc::Sender<T>);

/// std::sync::mpsc::Receiver, carried opaquely: the receiving end of a
/// channel.
#[verifier::external_type_specification]
#[verifier::external_body]
#[verifier::reject_recursive_types(T)]
pub struct ExReceiver<T>(std::sync::mpsc::Receiver<T>);

/// Relies on std::sync::mpsc::channel: hands out the two ends of a new
/// channel; nothing is promised of them beyond their types.
pub assume_specification<T>[ std::sync::mpsc::channel::<T> ]() -> (
    std::sync::mpsc::Sender<T>,
    std::sync::mpsc::Receiver<T>,
);

/// Failure of a transport operation.
#[derive(Clone, Copy, Debug, PartialEq, Eq, Structural)]
pub enum NetError {
    /// No message is waiting right now; try again later.
    NoMore,
    /// The transport cannot keep up; try again later.
    FlowControl,
    /// The other end of the channel is gone.
    Disconnected,
}

/// What a non-blocking read of a channel found.
#[derive(Debug)]
pub enum Received<M> {
    /// A message was waiting.
    Message(M),
    /// Nothing is waiting, but senders are still alive.
    Empty,
    /// Nothing is waiting and every sender was dropped.
    Closed,
}

/// Relies on std::sync::mpsc::Sender::send: queues the message, or fails
/// when the receiving end was dropped. Returns whether it was queued.
#[verifier::external_body]
fn queue_message<M>(dest: &std::sync::mpsc::Sender<M>, msg: M) -> (sent: bool) {
    dest.send(msg).is_ok()
}

/// Relies on std::sync::mpsc::Receiver::try_recv: takes the next waiting
/// message without blocking, or tells whether the channel is empty or closed.
#[verifier::external_body]
fn poll_queue<M>(src: &std::sync::mpsc::Receiver<M>) -> (r: Received<M>) {
    match src.try_recv() {
        Ok(m) => Received::Message(m),
        Err(std::sync::mpsc::TryRecvError::Empty) => Received::Empty,
        Err(std::sync::mpsc::TryRecvError::Disconnected) => Received::Closed,
    }
}

/// The result of a read, given what the channel held.
pub open spec fn outcome<M>(r: Received<M>) -> Result<M, NetError> {
    match r {
        Received::Message(m) => Ok(m),
        Received::Empty => Err(NetError::NoMore),
        Received::Closed => Err(NetError::Disconnected),
    }
}

/// Turns what a non-blocking channel read found into the transport's
/// answer: the message, `NoMore` for an empty queue, `Disconnected` for a
/// closed one.
pub fn classify<M>(r: Received<M>) -> (res: Result<M, NetError>)
    ensures
        res == outcome(r),
{
    match r {
        Received::Message(m) => Ok(m),
        Received::Empty => Err(NetError::NoMore),
        Received::Closed => Err(NetError::Disconnected),
    }
}

/// Client transport that exchanges messages with the test harness through
/// in-process channels instead of a socket.
#[verifier::reject_recursive_types(M)]
pub struct StubClient<M> {
    recvq: std::sync::mpsc::Receiver<M>,
    destq: std::sync::mpsc::Sender<M>,
}

impl<M> StubClient<M> {
    /// Creates the client, with the sender that feeds its incoming queue and
    /// the receiver that collects what it sends.
    pub fn new() -> (r: (StubClient<M>, std::sync::mpsc::Sender<M>, std::sync::mpsc::Receiver<M>)) {
        let (recvq_send, recvq_recv) = std::sync::mpsc::channel();
        let (destq_send, destq_recv) = std::sync::mpsc::channel();
        let client = StubClient { recvq: recvq_recv, destq: destq_send };
        (client, recvq_send, destq_recv)
    }

    /// Sends a message; fails with `Disconnected` when the collecting end was
    /// dropped, and succeeds otherwise.
    pub fn send(&self, msg: M) -> (r: Result<(), NetError>)
        ensures
            r is Ok || r == Err::<(), NetError>(NetError::Disconnected),
    {
        if queue_message(&self.destq, msg) {
            Ok(())
        } else {
            Err(NetError::Disconnected)
        }
    }

    /// Takes the next incoming message without blocking.
    pub fn recv(&mut self) -> (r: Result<M, NetError>)
        ensures
            r is Ok || r == Err::<M, NetError>(NetError::NoMore) || r == Err::<M, NetError>(
                NetError::Disconnected,
            ),
    {
        classify(poll_queue(&self.recvq))
    }
}

/// Server transport that exchanges messages, each with its peer's address,
/// with the test harness through in-process channels instead of a socket.
#[verifier::reject_recursive_types(M)]
#[verifier::reject_recursive_types(A)]
pub struct StubServer<M, A> {
    recvq: std::sync::mpsc::Receiver<(M, A)>,
    destq: std::sync::mpsc::Sender<(M, A)>,
}

impl<M, A> StubServer<M, A> {
    /// Creates the server, with the sender that feeds its incoming queue and
    /// the receiver that collects what it sends.
    pub fn new() -> (r: (
        StubServer<M, A>,
        std::sync::mpsc::Sender<(M, A)>,
        std::sync::mpsc::Receiver<(M, A)>,
    )) {
        let (recvq_send, recvq_recv) = std::sync::mpsc::channel();
        let (destq_send, destq_recv) = std::sync::mpsc::channel();
        let server = StubServer { recvq: recvq_recv, destq: destq_send };
        (server, recvq_send, destq_recv)
    }

    /// Sends a message to `addr`; fails with `Disconnected` when the
    /// collecting end was dropped, and succeeds otherwise.
    pub fn send(&self, msg: M, addr: A) -> (r: Result<(), NetError>)
        ensures
            r is Ok || r == Err::<(), NetError>(NetError::Disconnected),
    {
        if queue_message(&self.destq, (msg, addr)) {
            Ok(())
        } else {
            Err(NetError::Disconnected)
        }
    }

    /// Takes the next incoming message and its sender without blocking.
    pub fn recv(&mut self) -> (r: Result<(M, A), NetError>)
        ensures
            r is Ok || r == Err::<(M, A), NetError>(NetError::NoMore) || r == Err::<
                (M, A),
                NetError,
            >(NetError::Disconnected),
    {
        classify(poll_queue(&self.recvq))
    }
}

} // verus!
