//! The chat history core: a channel registry, an ordered message log, a
//! backup log for pruned messages, and the retention policy tying them
//! together.

use vstd::prelude::*;
use vstd::slice::slice_index_get;
use vstd::string::*;
use vstd::utf8::encode_utf8;

verus! {

/// Identifier of a chat channel, unique per channel and stable for the
/// session. Id `0` is reserved as the "all channels" wildcard used by the
/// display filter.
#[derive(Clone, Copy, PartialEq, Eq, Structural, Debug)]
pub struct ChannelId(pub usize);

impl ChannelId {
    pub fn new(id: usize) -> (c: ChannelId)
        ensures
            c == (ChannelId(id)),
    {
        ChannelId(id)
    }
}

/// An RGBA text colour. The four channels of the renderer's colour are held
/// bit-for-bit as 32-bit words; the library never interprets them, and the
/// rendering layer converts to and from its own representation losslessly.
#[derive(Clone, Copy, PartialEq, Eq, Structural, Debug)]
pub struct TextColor {
    pub r: u32,
    pub g: u32,
    pub b: u32,
    pub a: u32,
}

/// Mathematical value of a [`Channel`].
#[verifier::ext_equal]
pub ghost struct ChannelModel {
    pub id: ChannelId,
    pub name: Seq<char>,
    pub text_color: TextColor,
}

/// A registered chat channel: an id, a display name, and the colour its
/// messages are rendered in.
#[derive(Debug)]
pub struct Channel {
    pub id: ChannelId,
    pub name: String,
    pub text_color: TextColor,
}

impl View for Channel {
    type V = ChannelModel;

    open spec fn view(&self) -> ChannelModel {
        ChannelModel { id: self.id, name: self.name@, text_color: self.text_color }
    }
}

impl Channel {
    pub fn new(id: ChannelId, name: &str, text_color: TextColor) -> (c: Channel)
        ensures
            c@ == (ChannelModel { id, name: name@, text_color }),
    {
        Channel { id, name: name.to_owned(), text_color }
    }
}

/// Mathematical value of a [`ChatMessage`].
#[verifier::ext_equal]
pub ghost struct MessageModel {
    pub msg: Seq<u8>,
    pub channel_id: ChannelId,
}

/// One logged message: an immutable byte payload tagged with the channel it
/// was sent on. The tag need not name a registered channel.
#[derive(Debug)]
pub struct ChatMessage {
    pub msg: Vec<u8>,
    pub channel_id: ChannelId,
}

impl View for ChatMessage {
    type V = MessageModel;

    open spec fn view(&self) -> MessageModel {
        MessageModel { msg: self.msg@, channel_id: self.channel_id }
    }
}

impl ChatMessage {
    pub fn new(bytes: Vec<u8>, channel_id: ChannelId) -> (m: ChatMessage)
        ensures
            m@ == (MessageModel { msg: bytes@, channel_id }),
    {
        ChatMessage { msg: bytes, channel_id }
    }

    /// A fresh copy of the message's byte payload.
    pub fn to_owned(&self) -> (bytes: Vec<u8>)
        ensures
            bytes@ == self@.msg,
    {
        let mut out: Vec<u8> = Vec::new();
        let mut i: usize = 0;
        while i < self.msg.len()
            invariant
                i <= self.msg.len(),
                out@ == self.msg@.subrange(0, i as int),
            decreases self.msg.len() - i,
        {
            out.push(self.msg[i]);
            i = i + 1;
        }
        proof {
            assert(out@ =~= self.msg@);
        }
        out
    }
}

/// The retention policy: when `enabled`, the active log is trimmed to at most
/// `length` messages at each send. A negative `length` disables trimming.
#[derive(Clone, Copy, PartialEq, Eq, Structural, Debug)]
pub struct ChatPrune {
    pub length: i32,
    pub enabled: bool,
}

/// Mathematical value of a [`ChatHistory`].
#[verifier::ext_equal]
pub ghost struct HistoryModel {
    /// The active log, oldest first; new messages are appended at the tail.
    pub history: Seq<MessageModel>,
    /// Messages moved out of the active log, oldest first.
    pub backup: Seq<MessageModel>,
    /// The channel registry, in registration order.
    pub channels: Seq<ChannelModel>,
    pub prune: ChatPrune,
}

/// The chat history: active log, backup log, channel registry and retention
/// policy.
#[derive(Debug)]
pub struct ChatHistory {
    history: Vec<ChatMessage>,
    history_backup: Vec<ChatMessage>,
    channels: Vec<Channel>,
    prune: ChatPrune,
}

impl View for ChatHistory {
    type V = HistoryModel;

    closed spec fn view(&self) -> HistoryModel {
        HistoryModel {
            history: self.history@.map_values(|m: ChatMessage| m@),
            backup: self.history_backup@.map_values(|m: ChatMessage| m@),
            channels: self.channels@.map_values(|c: Channel| c@),
            prune: self.prune,
        }
    }
}

/// Whether some channel in `channels` carries the id `id`.
pub open spec fn has_channel(channels: Seq<ChannelModel>, id: ChannelId) -> bool {
    exists|i: int| 0 <= i < channels.len() && channels[i].id == id
}

/// Registering a channel: a no-op when the id is already present, otherwise
/// the new channel is appended to the registry. Re-registration never
/// overwrites the stored name or colour.
pub open spec fn spec_add_channel(
    m: HistoryModel,
    id: ChannelId,
    name: Seq<char>,
    text_color: TextColor,
) -> HistoryModel {
    if has_channel(m.channels, id) {
        m
    } else {
        HistoryModel {
            history: m.history,
            backup: m.backup,
            channels: m.channels.push(ChannelModel { id, name, text_color }),
            prune: m.prune,
        }
    }
}

/// Renaming a channel: every channel carrying `id` (under well-formedness,
/// at most one) takes the new name and keeps its colour; an absent id leaves
/// the registry unchanged.
pub open spec fn spec_rename_channel(
    m: HistoryModel,
    id: ChannelId,
    name: Seq<char>,
) -> HistoryModel {
    HistoryModel {
        history: m.history,
        backup: m.backup,
        channels: Seq::new(
            m.channels.len(),
            |i: int|
                if m.channels[i].id == id {
                    ChannelModel { id, name, text_color: m.channels[i].text_color }
                } else {
                    m.channels[i]
                },
        ),
        prune: m.prune,
    }
}

/// Whether a prune pass over a log of length `len` removes anything: the
/// bound must be non-negative and strictly below the length. A negative
/// bound never prunes.
pub open spec fn prune_applies(prune: ChatPrune, len: int) -> bool {
    0 <= prune.length < len
}

/// One prune pass: the oldest overflow messages (a prefix of the active log)
/// move to the tail of the backup log, preserving their order, so that at
/// most `prune.length` messages stay active. Runs regardless of
/// `prune.enabled`; `enabled` only wires pruning into each send.
pub open spec fn spec_prune(m: HistoryModel) -> HistoryModel {
    if prune_applies(m.prune, m.history.len() as int) {
        let cut = m.history.len() - m.prune.length;
        HistoryModel {
            history: m.history.subrange(cut, m.history.len() as int),
            backup: m.backup + m.history.subrange(0, cut),
            channels: m.channels,
            prune: m.prune,
        }
    } else {
        m
    }
}

/// Sending a message: the tagged payload is appended at the tail of the
/// active log; when pruning is enabled a prune pass follows at once.
pub open spec fn spec_send(m: HistoryModel, id: ChannelId, bytes: Seq<u8>) -> HistoryModel {
    let appended = HistoryModel {
        history: m.history.push(MessageModel { msg: bytes, channel_id: id }),
        backup: m.backup,
        channels: m.channels,
        prune: m.prune,
    };
    if m.prune.enabled {
        spec_prune(appended)
    } else {
        appended
    }
}

/// Clearing: the whole active log moves to the tail of the backup log;
/// nothing is discarded.
pub open spec fn spec_clear(m: HistoryModel) -> HistoryModel {
    HistoryModel {
        history: Seq::<MessageModel>::empty(),
        backup: m.backup + m.history,
        channels: m.channels,
        prune: m.prune,
    }
}

/// Restoring: backup and active log reunite, in chronological order, into
/// the active log, and the backup log empties.
pub open spec fn spec_restore(m: HistoryModel) -> HistoryModel {
    HistoryModel {
        history: m.backup + m.history,
        backup: Seq::<MessageModel>::empty(),
        channels: m.channels,
        prune: m.prune,
    }
}

/// Replacing the retention policy; the logs and the registry are untouched,
/// and no prune pass runs until `prune` or the next send with pruning
/// enabled.
pub open spec fn spec_set_prune(m: HistoryModel, enabled: bool, length: i32) -> HistoryModel {
    HistoryModel {
        history: m.history,
        backup: m.backup,
        channels: m.channels,
        prune: ChatPrune { length, enabled },
    }
}

impl ChatHistory {
    /// The registry holds at most one channel per id.
    pub open spec fn wf(&self) -> bool {
        forall|i: int, j: int|
            0 <= i < j < self@.channels.len() ==> self@.channels[i].id != self@.channels[j].id
    }

    /// An empty history: no messages, no channels, pruning disabled.
    pub fn new() -> (h: ChatHistory)
        ensures
            h.wf(),
            h@.history == Seq::<MessageModel>::empty(),
            h@.backup == Seq::<MessageModel>::empty(),
            h@.channels == Seq::<ChannelModel>::empty(),
            h@.prune == (ChatPrune { length: 0, enabled: false }),
    {
        let h = ChatHistory {
            history: Vec::new(),
            history_backup: Vec::new(),
            channels: Vec::new(),
            prune: ChatPrune { length: 0, enabled: false },
        };
        proof {
            assert(h@.history =~= Seq::<MessageModel>::empty());
            assert(h@.backup =~= Seq::<MessageModel>::empty());
            assert(h@.channels =~= Seq::<ChannelModel>::empty());
        }
        h
    }

    /// Move the whole active log to the tail of the backup log.
    pub fn clear(&mut self)
        ensures
            final(self)@ == spec_clear(old(self)@),
            old(self).wf() ==> final(self).wf(),
    {
        self.history_backup.append(&mut self.history);
        proof {
            assert(self@.backup =~= spec_clear(old(self)@).backup);
            assert(self@.history =~= spec_clear(old(self)@).history);
            assert(self@ =~= spec_clear(old(self)@));
        }
    }

    /// Reunite backup and active log, oldest first, into the active log.
    pub fn restore(&mut self)
        ensures
            final(self)@ == spec_restore(old(self)@),
            old(self).wf() ==> final(self).wf(),
    {
        self.clear();
        let ghost mid_history = self.history@;
        let ghost mid_backup = self.history_backup@;
        self.history.append(&mut self.history_backup);
        proof {
            assert(mid_history.map_values(|m: ChatMessage| m@).len() == 0);
            assert(mid_history.len() == 0);
            assert(self.history@ =~= mid_backup);
            assert(self@.history =~= spec_restore(old(self)@).history);
            assert(self@.backup =~= spec_restore(old(self)@).backup);
            assert(self@ =~= spec_restore(old(self)@));
        }
    }

    /// Trim the active log to the policy's bound, moving the oldest overflow
    /// messages to the backup log. A bound at or above the log's length, or
    /// a negative bound, makes this a no-op; a bound of zero moves
    /// everything.
    pub fn prune(&mut self)
        ensures
            final(self)@ == spec_prune(old(self)@),
            old(self).wf() ==> final(self).wf(),
    {
        if self.prune.length >= 0 {
            let length = self.prune.length as usize;
            let history_length = self.history.len();
            if length < history_length {
                let extend_length = history_length - length;
                let kept = self.history.split_off(extend_length);
                self.history_backup.append(&mut self.history);
                self.history = kept;
                proof {
                    assert(self@.history =~= spec_prune(old(self)@).history);
                    assert(self@.backup =~= spec_prune(old(self)@).backup);
                    assert(self@ =~= spec_prune(old(self)@));
                }
            }
        }
    }

    /// The current retention policy.
    pub fn get_prune(&self) -> (p: &ChatPrune)
        ensures
            *p == self@.prune,
    {
        &self.prune
    }

    /// Replace the retention policy. Nothing is trimmed until `prune` runs
    /// or the next send with pruning enabled.
    pub fn set_prune(&mut self, enabled: bool, length: i32)
        ensures
            final(self)@ == spec_set_prune(old(self)@, enabled, length),
            old(self).wf() ==> final(self).wf(),
    {
        self.prune.enabled = enabled;
        self.prune.length = length;
        proof {
            assert(self@ =~= spec_set_prune(old(self)@, enabled, length));
            assert(self@.channels == old(self)@.channels);
        }
    }

    /// Whether a channel with `id` is already registered.
    fn channel_present(&self, id: ChannelId) -> (present: bool)
        ensures
            present == has_channel(self@.channels, id),
    {
        let mut i: usize = 0;
        while i < self.channels.len()
            invariant
                i <= self.channels.len(),
                forall|k: int| 0 <= k < i ==> self@.channels[k].id != id,
            decreases self.channels.len() - i,
        {
            if self.channels[i].id == id {
                proof {
                    assert(self@.channels[i as int].id == id);
                }
                return true;
            }
            i = i + 1;
        }
        false
    }

    /// Register a channel under `id` unless one is already present; an
    /// existing registration keeps its name and colour. Returns whether the
    /// id was already present (in which case nothing happened).
    pub fn add_channel(&mut self, id: ChannelId, name: &str, text_color: TextColor) -> (already_present: bool)
        requires
            old(self).wf(),
        ensures
            final(self).wf(),
            already_present == has_channel(old(self)@.channels, id),
            final(self)@ == spec_add_channel(old(self)@, id, name@, text_color),
    {
        let channel_already_present = self.channel_present(id);
        if !channel_already_present {
            self.channels.push(Channel::new(id, name, text_color));
            proof {
                let target = spec_add_channel(old(self)@, id, name@, text_color);
                assert(self@.channels =~= target.channels);
                assert(self@ =~= target);
                assert forall|i: int, j: int|
                    0 <= i < j < self@.channels.len() implies self@.channels[i].id
                    != self@.channels[j].id by {
                    if j == self@.channels.len() - 1 {
                        assert(old(self)@.channels[i].id != id);
                    }
                }
            }
        }
        channel_already_present
    }

    /// Give the channel registered under `id` the new name, keeping its
    /// colour. Returns whether such a channel existed; an absent id leaves
    /// the history unchanged.
    pub fn rename_channel(&mut self, id: ChannelId, name: &str) -> (renamed: bool)
        requires
            old(self).wf(),
        ensures
            final(self).wf(),
            renamed == has_channel(old(self)@.channels, id),
            final(self)@ == spec_rename_channel(old(self)@, id, name@),
    {
        let ghost target = spec_rename_channel(old(self)@, id, name@);
        let mut i: usize = 0;
        while i < self.channels.len()
            invariant
                old(self).wf(),
                i <= self.channels.len(),
                self@ == old(self)@,
                target == spec_rename_channel(old(self)@, id, name@),
                forall|k: int| 0 <= k < i ==> self@.channels[k].id != id,
            decreases self.channels.len() - i,
        {
            if self.channels[i].id == id {
                self.channels[i].name = name.to_owned();
                proof {
                    assert(old(self)@.channels[i as int].id == id);
                    assert forall|k: int|
                        0 <= k < self@.channels.len() implies self@.channels[k]
                        =~= target.channels[k] by {
                        if k != i {
                            assert(old(self)@.channels[k].id != id);
                        }
                    }
                    assert(self@.channels =~= target.channels);
                    assert(self@ =~= target);
                    assert forall|a: int, b: int|
                        0 <= a < b < self@.channels.len() implies self@.channels[a].id
                        != self@.channels[b].id by {
                        assert(self@.channels[a].id == old(self)@.channels[a].id);
                        assert(self@.channels[b].id == old(self)@.channels[b].id);
                    }
                }
                return true;
            }
            i = i + 1;
        }
        proof {
            assert(!has_channel(self@.channels, id));
            assert(self@.channels =~= target.channels);
            assert(self@ =~= target);
        }
        false
    }

    /// The channel registered under `id`, if any.
    pub fn lookup_channel(&self, id: ChannelId) -> (r: Option<&Channel>)
        ensures
            (r is Some) == has_channel(self@.channels, id),
            r matches Some(c) ==> exists|i: int|
                0 <= i < self@.channels.len() && self@.channels[i].id == id && c@
                    == self@.channels[i],
    {
        let mut i: usize = 0;
        while i < self.channels.len()
            invariant
                i <= self.channels.len(),
                forall|k: int| 0 <= k < i ==> self@.channels[k].id != id,
            decreases self.channels.len() - i,
        {
            if self.channels[i].id == id {
                proof {
                    assert(self@.channels[i as int].id == id);
                }
                return Some(&self.channels[i]);
            }
            i = i + 1;
        }
        None
    }

    /// The position of the channel registered under `id` in the registry.
    fn find_channel_index(&self, id: ChannelId) -> (r: Option<usize>)
        ensures
            (r is Some) == has_channel(self@.channels, id),
            r matches Some(i) ==> i < self@.channels.len() && self@.channels[i as int].id == id,
    {
        let mut i: usize = 0;
        while i < self.channels.len()
            invariant
                i <= self.channels.len(),
                forall|k: int| 0 <= k < i ==> self@.channels[k].id != id,
            decreases self.channels.len() - i,
        {
            if self.channels[i].id == id {
                proof {
                    assert(self@.channels[i as int].id == id);
                }
                return Some(i);
            }
            i = i + 1;
        }
        None
    }

    /// Mutable access to the channel registered under `id`, if any. Writing
    /// through the returned reference changes exactly that registry entry;
    /// a caller that keeps the id field intact keeps the registry
    /// well-formed.
    pub fn lookup_channel_mut(&mut self, id: ChannelId) -> (r: Option<&mut Channel>)
        requires
            old(self).wf(),
        ensures
            (r is Some) == has_channel(old(self)@.channels, id),
            r is None ==> final(self)@ == old(self)@ && final(self).wf(),
            r matches Some(c) ==> exists|i: int|
                0 <= i < old(self)@.channels.len() && old(self)@.channels[i].id == id && (*c)@
                    == old(self)@.channels[i] && final(self)@.history == old(self)@.history
                    && final(self)@.backup == old(self)@.backup && final(self)@.prune
                    == old(self)@.prune && final(self)@.channels == old(self)@.channels.update(
                    i,
                    (*final(c))@,
                ),
    {
        match self.find_channel_index(id) {
            Some(i) => {
                proof {
                    assert(self@.channels[i as int].id == id);
                }
                let c = &mut self.channels[i];
                Some(c)
            },
            None => None,
        }
    }

    /// The display name and text colour of every registered channel, in
    /// registration order.
    pub fn channel_names(&self) -> (names: Vec<(String, TextColor)>)
        ensures
            names@.len() == self@.channels.len(),
            forall|i: int|
                0 <= i < names@.len() ==> names@[i].0@ == self@.channels[i].name && names@[i].1
                    == self@.channels[i].text_color,
    {
        let mut names: Vec<(String, TextColor)> = Vec::new();
        let mut i: usize = 0;
        while i < self.channels.len()
            invariant
                i <= self.channels.len(),
                names@.len() == i,
                forall|k: int|
                    0 <= k < i ==> names@[k].0@ == self@.channels[k].name && names@[k].1
                        == self@.channels[k].text_color,
            decreases self.channels.len() - i,
        {
            let name = self.channels[i].name.clone();
            let color = self.channels[i].text_color;
            names.push((name, color));
            i = i + 1;
        }
        names
    }

    /// Append a message with the given byte payload, tagged with `id`; when
    /// pruning is enabled, trim at once.
    pub fn send_message_u8(&mut self, id: ChannelId, msg: &[u8])
        ensures
            final(self)@ == spec_send(old(self)@, id, msg@),
            old(self).wf() ==> final(self).wf(),
    {
        let message = ChatMessage::new(copy_bytes(msg), id);
        self.history.push(message);
        proof {
            let appended = HistoryModel {
                history: old(self)@.history.push(MessageModel { msg: msg@, channel_id: id }),
                backup: old(self)@.backup,
                channels: old(self)@.channels,
                prune: old(self)@.prune,
            };
            assert(self@.history =~= appended.history);
            assert(self@ =~= appended);
        }
        if self.prune.enabled {
            self.prune();
        }
    }

    /// Append a message with the UTF-8 bytes of `msg`, tagged with `id`.
    pub fn send_message_str(&mut self, id: ChannelId, msg: &str)
        ensures
            final(self)@ == spec_send(old(self)@, id, msg.spec_bytes()),
            old(self).wf() ==> final(self).wf(),
    {
        self.send_message_u8(id, msg.as_bytes())
    }

    /// A cursor over the active log, oldest first.
    pub fn iter<'a>(&'a self) -> (it: ChatHistoryIterator<'a>)
        ensures
            it.messages() == self@.history,
            it.position() == 0,
    {
        ChatHistoryIterator::new(&self.history)
    }

    /// A cursor over the backup log, oldest first.
    pub fn iter_backup<'a>(&'a self) -> (it: ChatHistoryIterator<'a>)
        ensures
            it.messages() == self@.backup,
            it.position() == 0,
    {
        ChatHistoryIterator::new(&self.history_backup)
    }

    /// A history built from seed data: the given retention policy, the seed
    /// messages in order, the seed channels registered in order under ids
    /// 0, 1, 2, and so on, and a greeting from the developers sent on
    /// channel 2 (so the greeting is trimmed at once if the policy asks for
    /// that).
    pub fn from_existing(
        channels: &[(String, TextColor)],
        history: &[(String, ChannelId)],
        prune: ChatPrune,
    ) -> (h: ChatHistory)
        ensures
            h.wf(),
            h@ == spec_from_existing(channels@, history@, prune),
    {
        let ghost seed_msgs = Seq::new(
            history@.len(),
            |k: int| MessageModel { msg: encode_utf8(history@[k].0@), channel_id: history@[k].1 },
        );
        let ghost seed_channels = Seq::new(
            channels@.len(),
            |k: int|
                ChannelModel {
                    id: ChannelId(k as usize),
                    name: channels@[k].0@,
                    text_color: channels@[k].1,
                },
        );
        let mut msgs: Vec<ChatMessage> = Vec::new();
        let mut i: usize = 0;
        while i < history.len()
            invariant
                i <= history@.len(),
                seed_msgs == Seq::new(
                    history@.len(),
                    |k: int|
                        MessageModel {
                            msg: encode_utf8(history@[k].0@),
                            channel_id: history@[k].1,
                        },
                ),
                msgs@.len() == i,
                msgs@.map_values(|m: ChatMessage| m@) =~= seed_msgs.subrange(0, i as int),
            decreases history@.len() - i,
        {
            let pair = slice_index_get(history, i);
            let bytes = copy_bytes(pair.0.as_str().as_bytes());
            msgs.push(ChatMessage::new(bytes, pair.1));
            i = i + 1;
            proof {
                assert(msgs@[i - 1]@ =~= seed_msgs[i - 1]);
                assert(msgs@.map_values(|m: ChatMessage| m@) =~= seed_msgs.subrange(0, i as int));
            }
        }
        let mut h = ChatHistory {
            history: msgs,
            history_backup: Vec::new(),
            channels: Vec::new(),
            prune,
        };
        proof {
            assert(h@.history =~= seed_msgs);
            assert(h@.backup =~= Seq::<MessageModel>::empty());
            assert(h@.channels =~= Seq::<ChannelModel>::empty());
        }
        let mut idx: usize = 0;
        while idx < channels.len()
            invariant
                idx <= channels@.len(),
                seed_channels == Seq::new(
                    channels@.len(),
                    |k: int|
                        ChannelModel {
                            id: ChannelId(k as usize),
                            name: channels@[k].0@,
                            text_color: channels@[k].1,
                        },
                ),
                seed_msgs == Seq::new(
                    history@.len(),
                    |k: int|
                        MessageModel {
                            msg: encode_utf8(history@[k].0@),
                            channel_id: history@[k].1,
                        },
                ),
                h@.history == seed_msgs,
                h@.backup == Seq::<MessageModel>::empty(),
                h@.prune == prune,
                h@.channels =~= seed_channels.subrange(0, idx as int),
                h.wf(),
            decreases channels@.len() - idx,
        {
            let pair = slice_index_get(channels, idx);
            let id = ChannelId::new(idx);
            proof {
                assert forall|k: int| 0 <= k < h@.channels.len() implies h@.channels[k].id
                    != id by {
                    assert(h@.channels[k] == seed_channels[k]);
                }
                assert(!has_channel(h@.channels, id));
            }
            h.add_channel(id, pair.0.as_str(), pair.1);
            idx = idx + 1;
            proof {
                assert(h@.channels =~= seed_channels.subrange(0, idx as int));
            }
        }
        proof {
            assert(h@.channels =~= seed_channels);
        }
        h.send_message_str(ChannelId::new(2), "dev: hi");
        proof {
            let seeded = HistoryModel {
                history: seed_msgs,
                backup: Seq::<MessageModel>::empty(),
                channels: seed_channels,
                prune,
            };
            assert(h@ == spec_send(seeded, ChannelId(2), "dev: hi".spec_bytes()));
            assert(spec_from_existing(channels@, history@, prune) == spec_send(
                seeded,
                ChannelId(2),
                "dev: hi".spec_bytes(),
            ));
        }
        h
    }
}

/// The history that [`ChatHistory::from_existing`] builds from seed data:
/// the seed messages in order, the seed channels registered under ids
/// 0, 1, 2, and so on, the given retention policy, and the developers'
/// greeting sent on channel 2.
pub open spec fn spec_from_existing(
    channels: Seq<(String, TextColor)>,
    history: Seq<(String, ChannelId)>,
    prune: ChatPrune,
) -> HistoryModel {
    let seeded = HistoryModel {
        history: Seq::new(
            history.len(),
            |k: int| MessageModel { msg: encode_utf8(history[k].0@), channel_id: history[k].1 },
        ),
        backup: Seq::<MessageModel>::empty(),
        channels: Seq::new(
            channels.len(),
            |k: int|
                ChannelModel {
                    id: ChannelId(k as usize),
                    name: channels[k].0@,
                    text_color: channels[k].1,
                },
        ),
        prune,
    };
    spec_send(seeded, ChannelId(2), "dev: hi".spec_bytes())
}

/// A restartable cursor over one message log, yielding the messages in
/// stored order. A snapshot of the log it was made from: it borrows the
/// log, so the history cannot change while the cursor lives.
pub struct ChatHistoryIterator<'a> {
    data: &'a Vec<ChatMessage>,
    pos: usize,
}

impl<'a> ChatHistoryIterator<'a> {
    /// The messages the cursor walks.
    pub closed spec fn messages(&self) -> Seq<MessageModel> {
        self.data@.map_values(|m: ChatMessage| m@)
    }

    /// How many messages have been yielded so far.
    pub closed spec fn position(&self) -> int {
        self.pos as int
    }

    pub fn new(data: &'a Vec<ChatMessage>) -> (it: ChatHistoryIterator<'a>)
        ensures
            it.messages() == data@.map_values(|m: ChatMessage| m@),
            it.position() == 0,
    {
        ChatHistoryIterator { data, pos: 0 }
    }

    /// The next message in stored order, or `None` once the log is
    /// exhausted.
    pub fn next(&mut self) -> (r: Option<&'a ChatMessage>)
        ensures
            final(self).messages() == old(self).messages(),
            old(self).position() < old(self).messages().len() ==> final(self).position()
                == old(self).position() + 1 && (r matches Some(m) && m@
                == old(self).messages()[old(self).position()]),
            old(self).position() >= old(self).messages().len() ==> r is None
                && final(self).position() == old(self).position(),
    {
        let pos = self.pos;
        let data: &'a Vec<ChatMessage> = self.data;
        if pos < data.len() {
            self.pos = pos + 1;
            Some(&data[pos])
        } else {
            None
        }
    }
}

/// A fresh vector holding the same bytes as the slice.
fn copy_bytes(bytes: &[u8]) -> (out: Vec<u8>)
    ensures
        out@ == bytes@,
{
    let mut out: Vec<u8> = Vec::new();
    let mut i: usize = 0;
    while i < bytes.len()
        invariant
            i <= bytes@.len(),
            out@ == bytes@.subrange(0, i as int),
        decreases bytes@.len() - i,
    {
        out.push(bytes[i]);
        i = i + 1;
    }
    proof {
        assert(out@ =~= bytes@);
    }
    out
}

} // verus!
