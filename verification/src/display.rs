//! The overlay's display filter: which logged messages the chat window
//! shows while one channel is selected. The reserved channel id `0` is a
//! wildcard meaning "all channels"; any other selection shows exactly the
//! messages tagged with it, in their original order.

use crate::chat_history::{ChannelId, ChatHistory, ChatMessage, MessageModel};
use vstd::prelude::*;

verus! {

/// Whether a message tagged `tag` is shown while `selected` is the viewed
/// channel: the wildcard id 0 shows everything, any other id shows exact
/// matches only.
pub open spec fn spec_channel_matches(selected: ChannelId, tag: ChannelId) -> bool {
    selected == ChannelId(0) || tag == selected
}

/// Executable form of [`spec_channel_matches`].
pub fn channel_matches(selected: ChannelId, tag: ChannelId) -> (shown: bool)
    ensures
        shown == spec_channel_matches(selected, tag),
{
    selected == ChannelId::new(0) || tag == selected
}

/// The subsequence of `log` shown while `selected` is the viewed channel,
/// in original order.
pub open spec fn filter_by_channel(log: Seq<MessageModel>, selected: ChannelId) -> Seq<
    MessageModel,
>
    decreases log.len(),
{
    if log.len() == 0 {
        Seq::empty()
    } else {
        let rest = filter_by_channel(log.drop_last(), selected);
        if spec_channel_matches(selected, log.last().channel_id) {
            rest.push(log.last())
        } else {
            rest
        }
    }
}

/// Copies of the messages of the active log that the overlay shows while
/// `selected` is the viewed channel, oldest first.
pub fn visible_messages(history: &ChatHistory, selected: ChannelId) -> (shown: Vec<ChatMessage>)
    ensures
        shown@.map_values(|m: ChatMessage| m@) == filter_by_channel(history@.history, selected),
{
    let mut shown: Vec<ChatMessage> = Vec::new();
    let mut it = history.iter();
    loop
        invariant
            it.messages() == history@.history,
            0 <= it.position() <= it.messages().len(),
            shown@.map_values(|m: ChatMessage| m@) =~= filter_by_channel(
                it.messages().subrange(0, it.position()),
                selected,
            ),
        ensures
            it.position() == it.messages().len(),
            it.messages() == history@.history,
            shown@.map_values(|m: ChatMessage| m@) =~= filter_by_channel(
                it.messages().subrange(0, it.position()),
                selected,
            ),
        decreases it.messages().len() - it.position(),
    {
        let ghost pos = it.position();
        match it.next() {
            Some(m) => {
                if channel_matches(selected, m.channel_id) {
                    let copy = ChatMessage::new(m.to_owned(), m.channel_id);
                    proof {
                        assert(copy@ =~= m@);
                    }
                    shown.push(copy);
                }
                proof {
                    let walked = it.messages().subrange(0, pos + 1);
                    assert(walked.drop_last() =~= it.messages().subrange(0, pos));
                    assert(walked.last() == it.messages()[pos]);
                    assert(shown@.map_values(|m2: ChatMessage| m2@) =~= filter_by_channel(
                        walked,
                        selected,
                    ));
                }
            },
            None => {
                break ;
            },
        }
    }
    proof {
        assert(history@.history.subrange(0, history@.history.len() as int) =~= history@.history);
    }
    shown
}

/// The wildcard channel id 0 shows every logged message, whatever it is
/// tagged with.
pub proof fn lemma_wildcard_shows_all(log: Seq<MessageModel>)
    ensures
        filter_by_channel(log, ChannelId(0)) == log,
    decreases log.len(),
{
    if log.len() == 0 {
        assert(filter_by_channel(log, ChannelId(0)) =~= log);
    } else {
        lemma_wildcard_shows_all(log.drop_last());
        assert(filter_by_channel(log, ChannelId(0)) =~= log);
    }
}

/// Selecting a channel other than the wildcard shows exactly the
/// subsequence of messages tagged with it, in original relative order: the
/// display filter agrees with the standard filtering of the log by the
/// message's tag.
pub proof fn lemma_selected_shows_exactly_tagged(log: Seq<MessageModel>, selected: ChannelId)
    requires
        selected != ChannelId(0),
    ensures
        filter_by_channel(log, selected) == log.filter(
            |mm: MessageModel| mm.channel_id == selected,
        ),
    decreases log.len(),
{
    reveal(Seq::filter);
    if log.len() == 0 {
        assert(filter_by_channel(log, selected) =~= log.filter(
            |mm: MessageModel| mm.channel_id == selected,
        ));
    } else {
        lemma_selected_shows_exactly_tagged(log.drop_last(), selected);
    }
}

} // verus!
