//! Laws of the chat history, stated over the spec-level transitions that
//! specify the executable operations, and proved once for every input.

use crate::chat_history::{
    has_channel, spec_add_channel, spec_prune, spec_rename_channel, spec_restore, spec_send,
    spec_set_prune, ChannelId, ChannelModel, ChatPrune, HistoryModel, MessageModel, TextColor,
};
use vstd::prelude::*;

verus! {

/// Registering the same id twice keeps the first registration's name and
/// colour: the second registration changes nothing and finds the id
/// already present.
pub proof fn lemma_add_channel_idempotent(
    m: HistoryModel,
    id: ChannelId,
    name1: Seq<char>,
    color1: TextColor,
    name2: Seq<char>,
    color2: TextColor,
)
    requires
        !has_channel(m.channels, id),
    ensures
        spec_add_channel(m, id, name1, color1).channels == m.channels.push(
            ChannelModel { id, name: name1, text_color: color1 },
        ),
        has_channel(spec_add_channel(m, id, name1, color1).channels, id),
        spec_add_channel(spec_add_channel(m, id, name1, color1), id, name2, color2)
            == spec_add_channel(m, id, name1, color1),
{
    let m1 = spec_add_channel(m, id, name1, color1);
    assert(m1.channels[m.channels.len() as int].id == id);
}

/// Messages arrive in send order: three sends with pruning disabled extend
/// the active log by exactly those three messages, in that order, and
/// leave the backup log, the registry and the policy untouched.
pub proof fn lemma_message_ordering(
    m: HistoryModel,
    id1: ChannelId,
    b1: Seq<u8>,
    id2: ChannelId,
    b2: Seq<u8>,
    id3: ChannelId,
    b3: Seq<u8>,
)
    requires
        !m.prune.enabled,
    ensures
        ({
            let m3 = spec_send(spec_send(spec_send(m, id1, b1), id2, b2), id3, b3);
            m3.history == m.history + seq![
                MessageModel { msg: b1, channel_id: id1 },
                MessageModel { msg: b2, channel_id: id2 },
                MessageModel { msg: b3, channel_id: id3 },
            ] && m3.backup == m.backup && m3.channels == m.channels && m3.prune == m.prune
        }),
{
    let m3 = spec_send(spec_send(spec_send(m, id1, b1), id2, b2), id3, b3);
    assert(m3.history =~= m.history + seq![
        MessageModel { msg: b1, channel_id: id1 },
        MessageModel { msg: b2, channel_id: id2 },
        MessageModel { msg: b3, channel_id: id3 },
    ]);
}

/// Pruning a log of N messages down to k of them banishes exactly the N - k
/// oldest to the backup log, and a restore afterwards brings the log back
/// to all N messages in their original send order, emptying the backup.
pub proof fn lemma_prune_restore_round_trip(m: HistoryModel, k: i32)
    requires
        m.backup.len() == 0,
        0 <= k < m.history.len(),
    ensures
        ({
            let pruned = spec_prune(spec_set_prune(m, true, k));
            pruned.history.len() == k && pruned.backup.len() == m.history.len() - k
                && spec_restore(pruned).history == m.history && spec_restore(
                pruned,
            ).backup.len() == 0
        }),
{
    let pruned = spec_prune(spec_set_prune(m, true, k));
    let cut = m.history.len() - k;
    assert(pruned.history =~= m.history.subrange(cut as int, m.history.len() as int));
    assert(pruned.backup =~= m.history.subrange(0, cut as int));
    assert(spec_restore(pruned).history =~= m.history);
}

/// Renaming an id that no channel carries changes nothing at all.
pub proof fn lemma_rename_absent(m: HistoryModel, id: ChannelId, name: Seq<char>)
    requires
        !has_channel(m.channels, id),
    ensures
        spec_rename_channel(m, id, name) == m,
{
    assert forall|k: int|
        0 <= k < m.channels.len() implies spec_rename_channel(m, id, name).channels[k]
        == m.channels[k] by {
        assert(m.channels[k].id != id);
    }
    assert(spec_rename_channel(m, id, name).channels =~= m.channels);
    assert(spec_rename_channel(m, id, name) =~= m);
}

} // verus!
