//! Messages for the browser UI wait until the browser is ready, and are then
//! handed over in the order they were sent; once it is ready they pass straight
//! through, until the browser is recreated.
use vstd::prelude::*;

verus! {

/// Whether the browser is ready, and the messages waiting for it, oldest first.
pub struct OutboxView<T> {
    pub ready: bool,
    pub pending: Seq<T>,
}

/// The outbox after a message is sent: queued while the browser is not ready.
pub open spec fn outbox_after_send<T>(g: OutboxView<T>, message: T) -> OutboxView<T> {
    if g.ready {
        g
    } else {
        OutboxView { ready: false, pending: g.pending.push(message) }
    }
}

/// The outbox after the browser reports it is ready: the waiting messages are
/// gone; a second report changes nothing.
pub open spec fn outbox_after_ready<T>(g: OutboxView<T>) -> OutboxView<T> {
    if g.ready {
        g
    } else {
        OutboxView { ready: true, pending: Seq::empty() }
    }
}

/// What a ready report hands over: the waiting messages, oldest first, the
/// first time; nothing when the browser was already ready.
pub open spec fn released_on_ready<T>(g: OutboxView<T>) -> Seq<T> {
    if g.ready {
        Seq::empty()
    } else {
        g.pending
    }
}

/// The outbox after sending each of `messages` in turn.
pub open spec fn outbox_after_sends<T>(g: OutboxView<T>, messages: Seq<T>) -> OutboxView<T>
    decreases messages.len(),
{
    if messages.len() == 0 {
        g
    } else {
        outbox_after_send(outbox_after_sends(g, messages.drop_last()), messages.last())
    }
}

/// The outbox between the desktop and the browser UI.
pub struct MessageOutbox<T> {
    ready: bool,
    pending: Vec<T>,
}

impl<T> View for MessageOutbox<T> {
    type V = OutboxView<T>;

    closed spec fn view(&self) -> OutboxView<T> {
        OutboxView { ready: self.ready, pending: self.pending@ }
    }
}

impl<T> MessageOutbox<T> {
    /// An outbox for a browser that is not ready yet, with nothing waiting.
    pub fn new() -> (g: Self)
        ensures
            !g@.ready,
            g@.pending.len() == 0,
    {
        MessageOutbox { ready: false, pending: Vec::new() }
    }

    /// Whether the browser is ready.
    pub fn is_ready(&self) -> (b: bool)
        ensures
            b == self@.ready,
    {
        self.ready
    }

    /// Sends a message: it is handed back for delivery now when the browser is
    /// ready, and queued otherwise.
    pub fn send(&mut self, message: T) -> (now: Option<T>)
        ensures
            final(self)@ == outbox_after_send(old(self)@, message),
            old(self)@.ready ==> now == Some(message),
            !old(self)@.ready ==> now is None,
    {
        if self.ready {
            Some(message)
        } else {
            self.pending.push(message);
            None
        }
    }

    /// The browser reports it is ready: the waiting messages are handed back
    /// for delivery, oldest first, the first time it does.
    pub fn browser_ready(&mut self) -> (released: Vec<T>)
        ensures
            final(self)@ == outbox_after_ready(old(self)@),
            released@ == released_on_ready(old(self)@),
    {
        if self.ready {
            return Vec::new();
        }
        let mut released: Vec<T> = Vec::new();
        std::mem::swap(&mut released, &mut self.pending);
        self.ready = true;
        released
    }

    /// The browser is being recreated: messages wait again until it reports ready.
    pub fn browser_lost(&mut self)
        ensures
            final(self)@ == (OutboxView { ready: false, pending: old(self)@.pending }),
    {
        self.ready = false;
    }
}

/// No message is lost or reordered: messages sent before the browser is ready
/// are handed over, in the order they were sent, when it reports ready.
pub proof fn lemma_messages_wait_in_order<T>(messages: Seq<T>)
    ensures
        released_on_ready(outbox_after_sends(OutboxView { ready: false, pending: Seq::<T>::empty() }, messages))
            == messages,
    decreases messages.len(),
{
    lemma_sends_while_waiting(OutboxView { ready: false, pending: Seq::<T>::empty() }, messages);
    assert(Seq::<T>::empty() + messages =~= messages);
}

/// While the browser is not ready, sends only append to the waiting messages.
pub proof fn lemma_sends_while_waiting<T>(g: OutboxView<T>, messages: Seq<T>)
    requires
        !g.ready,
    ensures
        outbox_after_sends(g, messages) == (OutboxView { ready: false, pending: g.pending + messages }),
    decreases messages.len(),
{
    if messages.len() > 0 {
        lemma_sends_while_waiting(g, messages.drop_last());
        assert(g.pending + messages.drop_last() + seq![messages.last()] =~= g.pending + messages);
        assert((g.pending + messages.drop_last()).push(messages.last()) =~= g.pending + messages);
    } else {
        assert(g.pending + messages =~= g.pending);
    }
}

/// Once the browser is ready, a ready report releases nothing more and sends
/// pass straight through.
pub proof fn lemma_ready_passes_through<T>(g: OutboxView<T>, message: T)
    requires
        g.ready,
    ensures
        released_on_ready(g).len() == 0,
        outbox_after_send(g, message) == g,
{
}

} // verus!
