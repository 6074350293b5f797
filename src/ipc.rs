//! The synchronous rendezvous channel: one sender meets one receiver, and a
//! single machine word passes between them.

use vstd::prelude::*;
use crate::threads::{Thread, ThreadView};

verus! {

/// Error code written to a sender whose channel already holds a pending send.
pub const SEND_WOULD_BLOCK: u64 = 1;

/// Error code written to a receiver whose channel already holds a waiting receiver.
pub const RECV_WOULD_BLOCK: u64 = 2;

/// The payload of one message.
#[derive(Clone, Copy, Debug, PartialEq, Eq, Structural)]
pub enum Message {
    Short(u64),
    /// Reserved for payloads larger than a word; a receiver sees a fixed marker.
    Long,
}

/// The word a receiver finds in `rdi` for a message.
pub open spec fn message_word(m: Message) -> u64 {
    match m {
        Message::Short(v) => v,
        Message::Long => 42,
    }
}

/// A channel. It holds at most one parked task.
pub enum Rendezvous {
    Empty,
    /// A delivered message, with its sender when the sender waits for a receiver.
    Sending(Option<Thread>, Message),
    /// A task waiting for a message.
    Receiving(Thread),
}

/// What a channel holds, as the contracts see it.
pub enum ChannelView {
    Empty,
    Sending(Option<ThreadView>, Message),
    Receiving(ThreadView),
}

/// The view of an optional task.
pub open spec fn opt_view(t: Option<Thread>) -> Option<ThreadView> {
    match t {
        Some(t) => Some(t@),
        None => None,
    }
}

impl View for Rendezvous {
    type V = ChannelView;

    open spec fn view(&self) -> ChannelView {
        match self {
            Rendezvous::Empty => ChannelView::Empty,
            Rendezvous::Sending(t, m) => ChannelView::Sending(opt_view(*t), *m),
            Rendezvous::Receiving(t) => ChannelView::Receiving(t@),
        }
    }
}

/// The task parked in a channel, if any.
pub open spec fn parked(c: ChannelView) -> Option<ThreadView> {
    match c {
        ChannelView::Sending(Some(t), _) => Some(t),
        ChannelView::Receiving(t) => Some(t),
        _ => None,
    }
}

/// The id of the task parked in a channel, if any.
pub open spec fn parked_id(c: ChannelView) -> Option<u64> {
    match parked(c) {
        Some(t) => Some(t.id),
        None => None,
    }
}

/// What `send` does: from channel `c`, with sender `t` and message `m`, to
/// channel `c2`, handing back the tasks `r`.
pub open spec fn send_spec(
    c: ChannelView,
    t: Option<ThreadView>,
    m: Message,
    c2: ChannelView,
    r: (Option<ThreadView>, Option<ThreadView>),
) -> bool {
    match c {
        ChannelView::Empty => c2 == ChannelView::Sending(t, m) && r == (
        None::<ThreadView>,
        None::<ThreadView>,
        ),
        ChannelView::Sending(_, _) => c2 == c && r == (
        match t {
            Some(t) => Some(t.returning(SEND_WOULD_BLOCK)),
            None => None::<ThreadView>,
        },
        None::<ThreadView>,
        ),
        ChannelView::Receiving(rec) => c2 == ChannelView::Empty && r == (
        Some(rec.receiving(message_word(m))),
        match t {
            Some(t) => Some(t.returning(0)),
            None => None::<ThreadView>,
        },
        ),
    }
}

/// What `receive` does: from channel `c`, with receiver `t`, to channel `c2`,
/// handing back the tasks `r`.
pub open spec fn receive_spec(
    c: ChannelView,
    t: ThreadView,
    c2: ChannelView,
    r: (Option<ThreadView>, Option<ThreadView>),
) -> bool {
    match c {
        ChannelView::Empty => c2 == ChannelView::Receiving(t) && r == (
        None::<ThreadView>,
        None::<ThreadView>,
        ),
        ChannelView::Sending(snd, m) => c2 == ChannelView::Empty && r == (
        Some(t.receiving(message_word(m))),
        match snd {
            Some(s) => Some(s.returning(0)),
            None => None::<ThreadView>,
        },
        ),
        ChannelView::Receiving(_) => c2 == c && r == (
        Some(t.returning(RECV_WOULD_BLOCK)),
        None::<ThreadView>,
        ),
    }
}

impl Rendezvous {
    /// Offers `message` on the channel, on behalf of `thread` when one is given.
    ///
    /// Returns the tasks that leave the channel's hands: both `None` when the
    /// sender is parked; otherwise those to be run again.
    pub fn send(&mut self, thread: Option<Thread>, message: Message) -> (r: (Option<Thread>, Option<Thread>))
        ensures
            send_spec(old(self)@, opt_view(thread), message, final(self)@, (opt_view(r.0), opt_view(r.1))),
    {
        match self {
            Rendezvous::Empty => {
                *self = Rendezvous::Sending(thread, message);
                (None, None)
            },
            Rendezvous::Sending(_, _) => {
                match thread {
                    Some(mut t) => {
                        t.return_error(SEND_WOULD_BLOCK);
                        (Some(t), None)
                    },
                    None => (None, None),
                }
            },
            Rendezvous::Receiving(_) => {
                let mut taken = Rendezvous::Empty;
                std::mem::swap(self, &mut taken);
                match taken {
                    Rendezvous::Receiving(mut rec_thread) => {
                        rec_thread.return_message(message);
                        let sender = match thread {
                            Some(mut t) => {
                                t.return_error(0);
                                Some(t)
                            },
                            None => None,
                        };
                        (Some(rec_thread), sender)
                    },
                    _ => {
                        proof {
                            assert(false);
                        }
                        (None, None)
                    },
                }
            },
        }
    }

    /// Asks the channel for a message on behalf of `thread`.
    ///
    /// Returns both `None` when the receiver is parked; otherwise the receiver
    /// first and, when a waiting sender was released, the sender second.
    pub fn receive(&mut self, thread: Thread) -> (r: (Option<Thread>, Option<Thread>))
        ensures
            receive_spec(old(self)@, thread@, final(self)@, (opt_view(r.0), opt_view(r.1))),
    {
        match self {
            Rendezvous::Empty => {
                *self = Rendezvous::Receiving(thread);
                (None, None)
            },
            Rendezvous::Sending(_, _) => {
                let mut taken = Rendezvous::Empty;
                std::mem::swap(self, &mut taken);
                match taken {
                    Rendezvous::Sending(snd_thread, message) => {
                        let mut thread = thread;
                        thread.return_message(message);
                        let sender = match snd_thread {
                            Some(mut t) => {
                                t.return_error(0);
                                Some(t)
                            },
                            None => None,
                        };
                        (Some(thread), sender)
                    },
                    _ => {
                        proof {
                            assert(false);
                        }
                        (None, None)
                    },
                }
            },
            Rendezvous::Receiving(_) => {
                let mut thread = thread;
                thread.return_error(RECV_WOULD_BLOCK);
                (Some(thread), None)
            },
        }
    }
}

} // verus!
