//! The message bridge: messages that hosted content sends to the host, the
//! callbacks registered for their channels, and the queue that the host polls.

use crate::json::{member, parse_text, render, serde_json_minimal_parse, JsonModel};
use vstd::prelude::*;

verus! {

/// A message from hosted content: a channel name and an opaque payload.
#[derive(Debug, Clone)]
pub struct IpcMessage {
    /// Channel name.
    pub channel: String,
    /// The payload, as text.
    pub data: String,
}

/// The channel and the payload that a raw text stands for.
///
/// A text that holds an object with a string field `channel` and a field
/// `data` stands for that channel and the textual form of `data`. Any other
/// text stands for itself on the channel `default`.
pub open spec fn message_of(raw: Seq<char>) -> (Seq<char>, Seq<char>) {
    match parse_text(raw) {
        Some(v) => match (member(v, "channel"@), member(v, "data"@)) {
            (Some(JsonModel::Text(channel)), Some(data)) => (channel, render(data)),
            _ => ("default"@, raw),
        },
        None => ("default"@, raw),
    }
}

impl IpcMessage {
    /// Decodes a raw message from hosted content.
    pub fn from_js(json: &str) -> (msg: Self)
        ensures
            (msg.channel@, msg.data@) == message_of(json@),
    {
        if let Ok(value) = serde_json_minimal_parse(json) {
            if let Some(channel_value) = value.get("channel") {
                if let Some(channel) = channel_value.as_str() {
                    if let Some(data) = value.get("data") {
                        return IpcMessage {
                            channel: channel.to_owned(),
                            data: data.to_string(),
                        };
                    }
                }
            }
        }
        IpcMessage { channel: "default".to_owned(), data: json.to_owned() }
    }
}

/// Callbacks by channel, and the queue of messages that arrived.
pub struct IpcHandler<F: Fn(&IpcMessage)> {
    callbacks: Vec<(String, F)>,
    pending_messages: Vec<IpcMessage>,
}

impl<F: Fn(&IpcMessage)> IpcHandler<F> {
    /// Every registered callback can be called on every message.
    pub closed spec fn wf(&self) -> bool {
        forall|i: int, m: IpcMessage|
            0 <= i < self.callbacks@.len() ==> #[trigger] call_requires(
                self.callbacks@[i].1,
                (&m,),
            )
    }

    /// The messages that arrived and were not polled yet, oldest first.
    pub closed spec fn pending(&self) -> Seq<IpcMessage> {
        self.pending_messages@
    }

    /// The number of registered callbacks.
    pub closed spec fn callback_count(&self) -> int {
        self.callbacks@.len() as int
    }

    /// The channel of the `i`-th registered callback.
    pub closed spec fn channel_at(&self, i: int) -> Seq<char> {
        self.callbacks@[i].0@
    }

    /// The `i`-th registered callback.
    pub closed spec fn callback_at(&self, i: int) -> F {
        self.callbacks@[i].1
    }

    /// A handler with no callback and no message.
    pub fn new() -> (h: Self)
        ensures
            h.wf(),
            h.pending() == Seq::<IpcMessage>::empty(),
            h.callback_count() == 0,
    {
        IpcHandler { callbacks: Vec::new(), pending_messages: Vec::new() }
    }

    /// Registers a callback for a channel, behind those registered before.
    pub fn on(&mut self, channel: &str, callback: F)
        requires
            old(self).wf(),
            forall|m: IpcMessage| call_requires(callback, (&m,)),
        ensures
            final(self).wf(),
            final(self).pending() == old(self).pending(),
            final(self).callback_count() == old(self).callback_count() + 1,
            final(self).channel_at(old(self).callback_count()) == channel@,
            final(self).callback_at(old(self).callback_count()) == callback,
            forall|i: int|
                0 <= i < old(self).callback_count() ==> final(self).channel_at(i) == old(
                    self,
                ).channel_at(i) && final(self).callback_at(i) == old(self).callback_at(i),
    {
        self.callbacks.push((channel.to_owned(), callback));
    }

    /// Delivers a message: calls each callback registered for its channel, in
    /// the order of registration, then puts the message at the end of the queue.
    pub fn handle_message(&mut self, message: IpcMessage)
        requires
            old(self).wf(),
        ensures
            final(self).wf(),
            final(self).pending() == old(self).pending().push(message),
            final(self).callback_count() == old(self).callback_count(),
            forall|i: int|
                0 <= i < old(self).callback_count() ==> final(self).channel_at(i) == old(
                    self,
                ).channel_at(i) && final(self).callback_at(i) == old(self).callback_at(i),
            forall|i: int|
                0 <= i < old(self).callback_count() && old(self).channel_at(i) == message.channel@
                    ==> call_ensures(old(self).callback_at(i), (&message,), ()),
    {
        let mut i: usize = 0;
        while i < self.callbacks.len()
            invariant
                i <= self.callbacks@.len(),
                *self == *old(self),
                forall|k: int, m: IpcMessage|
                    0 <= k < self.callbacks@.len() ==> #[trigger] call_requires(
                        self.callbacks@[k].1,
                        (&m,),
                    ),
                forall|k: int|
                    0 <= k < i && self.callbacks@[k].0@ == message.channel@ ==> call_ensures(
                        (#[trigger] self.callbacks@[k]).1,
                        (&message,),
                        (),
                    ),
            decreases self.callbacks.len() - i,
        {
            if self.callbacks[i].0 == message.channel {
                (self.callbacks[i].1)(&message);
            }
            i += 1;
        }
        self.pending_messages.push(message);
    }

    /// Decodes a raw text from hosted content and delivers the message.
    pub fn handle_incoming(&mut self, raw_text: &str)
        requires
            old(self).wf(),
        ensures
            final(self).wf(),
            final(self).pending().len() == old(self).pending().len() + 1,
            final(self).pending().drop_last() == old(self).pending(),
            (final(self).pending().last().channel@, final(self).pending().last().data@)
                == message_of(raw_text@),
            final(self).callback_count() == old(self).callback_count(),
            forall|i: int|
                0 <= i < old(self).callback_count() ==> final(self).channel_at(i) == old(
                    self,
                ).channel_at(i) && final(self).callback_at(i) == old(self).callback_at(i),
            forall|i: int|
                0 <= i < old(self).callback_count() && old(self).channel_at(i) == message_of(
                    raw_text@,
                ).0 ==> call_ensures(
                    old(self).callback_at(i),
                    (&final(self).pending().last(),),
                    (),
                ),
    {
        let message = IpcMessage::from_js(raw_text);
        self.handle_message(message);
    }

    /// Takes the queued messages, oldest first, and leaves the queue empty.
    pub fn poll_messages(&mut self) -> (out: Vec<IpcMessage>)
        requires
            old(self).wf(),
        ensures
            final(self).wf(),
            out@ == old(self).pending(),
            final(self).pending() == Seq::<IpcMessage>::empty(),
            final(self).callback_count() == old(self).callback_count(),
    {
        let mut out: Vec<IpcMessage> = Vec::new();
        std::mem::swap(&mut self.pending_messages, &mut out);
        out
    }

    /// Whether a message waits in the queue.
    pub fn has_pending(&self) -> (b: bool)
        ensures
            b == (self.pending().len() > 0),
    {
        !self.pending_messages.is_empty()
    }
}

impl<F: Fn(&IpcMessage)> Default for IpcHandler<F> {
    /// A handler with no callback and no message.
    fn default() -> (h: Self)
        ensures
            h.wf(),
            h.pending() == Seq::<IpcMessage>::empty(),
            h.callback_count() == 0,
    {
        IpcHandler::new()
    }
}

} // verus!
