use crate::message_error::MessageError;
use crate::messages::{Message, MessageView};
use vstd::prelude::*;

verus! {

/// A duplex channel that carries whole frames: the capability a session talks through.
pub trait Streamable {
    /// Reads one whole message, or says why none could be read.
    fn read(&mut self) -> Result<Message, MessageError>;

    /// Writes one whole message.
    fn write(&mut self, message: &Message) -> Result<(), MessageError>;

    /// Closes both directions of the channel.
    fn shutdown(&mut self) -> Result<(), &'static str>;
}

/// A handle on a stream that keeps account of what went through it: every message
/// handed to the stream, with whether the stream took it, and whether the stream
/// was asked to shut down.
pub struct Channel<S> {
    stream: S,
    sent: Ghost<Seq<(MessageView, bool)>>,
    shut: Ghost<bool>,
}

impl<S> Channel<S> {
    /// Every message handed to this handle's stream, oldest first, with whether the
    /// stream took it.
    pub closed spec fn sent(&self) -> Seq<(MessageView, bool)> {
        self.sent@
    }

    /// Whether this handle asked its stream to shut down.
    pub closed spec fn is_shut(&self) -> bool {
        self.shut@
    }

    /// A handle on `stream` through which nothing went yet.
    pub fn new(stream: S) -> (r: Channel<S>)
        ensures
            r.sent() == Seq::<(MessageView, bool)>::empty(),
            !r.is_shut(),
    {
        Channel { stream, sent: Ghost(Seq::empty()), shut: Ghost(false) }
    }

    /// The stream itself.
    pub fn stream(&self) -> &S {
        &self.stream
    }
}

impl<S: Clone> Channel<S> {
    /// A second handle on a copy of the stream, with an account of its own.
    pub fn share(&self) -> (r: Channel<S>)
        ensures
            r.sent() == Seq::<(MessageView, bool)>::empty(),
            !r.is_shut(),
    {
        Channel::new(self.stream.clone())
    }
}

impl<S: Streamable> Channel<S> {
    /// Reads one whole message; nothing is sent.
    pub fn read(&mut self) -> (r: Result<Message, MessageError>)
        ensures
            final(self).sent() == old(self).sent(),
            final(self).is_shut() == old(self).is_shut(),
    {
        self.stream.read()
    }

    /// Writes one whole message: the stream took it exactly when the result is `Ok`.
    pub fn write(&mut self, message: &Message) -> (r: Result<(), MessageError>)
        ensures
            final(self).sent() == old(self).sent().push((message@, r is Ok)),
            final(self).is_shut() == old(self).is_shut(),
    {
        let r = self.stream.write(message);
        self.sent = Ghost(self.sent@.push((message@, r is Ok)));
        r
    }

    /// Asks the stream to close both directions.
    pub fn shutdown(&mut self) -> (r: Result<(), &'static str>)
        ensures
            final(self).sent() == old(self).sent(),
            final(self).is_shut(),
    {
        let r = self.stream.shutdown();
        self.shut = Ghost(true);
        r
    }
}

} // verus!
