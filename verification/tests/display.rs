use chat_overlay::chat_history::{ChannelId, ChatHistory, TextColor};
use chat_overlay::display::{channel_matches, visible_messages};

fn seeded_history() -> ChatHistory {
    let mut h = ChatHistory::new();
    h.add_channel(ChannelId::new(1), "General", TextColor { r: 1, g: 1, b: 1, a: 1 });
    h.add_channel(ChannelId::new(2), "Combat Log", TextColor { r: 2, g: 2, b: 2, a: 2 });
    h.send_message_str(ChannelId::new(1), "g1");
    h.send_message_str(ChannelId::new(2), "c1");
    h.send_message_str(ChannelId::new(1), "g2");
    h.send_message_str(ChannelId::new(9), "untagged");
    h
}

fn payloads(shown: &[chat_overlay::chat_history::ChatMessage]) -> Vec<Vec<u8>> {
    shown.iter().map(|m| m.to_owned()).collect()
}

#[test]
fn wildcard_selection_shows_every_message() {
    let h = seeded_history();
    let shown = visible_messages(&h, ChannelId::new(0));
    assert_eq!(
        payloads(&shown),
        vec![
            b"g1".to_vec(),
            b"c1".to_vec(),
            b"g2".to_vec(),
            b"untagged".to_vec()
        ]
    );
}

#[test]
fn specific_selection_shows_exactly_its_messages_in_order() {
    let h = seeded_history();
    let shown = visible_messages(&h, ChannelId::new(1));
    assert_eq!(payloads(&shown), vec![b"g1".to_vec(), b"g2".to_vec()]);
    for m in &shown {
        assert_eq!(m.channel_id, ChannelId::new(1));
    }
    let combat = visible_messages(&h, ChannelId::new(2));
    assert_eq!(payloads(&combat), vec![b"c1".to_vec()]);
}

#[test]
fn selection_without_messages_shows_nothing() {
    let h = seeded_history();
    let shown = visible_messages(&h, ChannelId::new(7));
    assert!(shown.is_empty());
}

#[test]
fn unregistered_tags_still_match_their_own_selection() {
    let h = seeded_history();
    let shown = visible_messages(&h, ChannelId::new(9));
    assert_eq!(payloads(&shown), vec![b"untagged".to_vec()]);
}

#[test]
fn channel_matches_rules() {
    assert!(channel_matches(ChannelId::new(0), ChannelId::new(5)));
    assert!(channel_matches(ChannelId::new(0), ChannelId::new(0)));
    assert!(channel_matches(ChannelId::new(3), ChannelId::new(3)));
    assert!(!channel_matches(ChannelId::new(3), ChannelId::new(4)));
    assert!(!channel_matches(ChannelId::new(3), ChannelId::new(0)));
}

#[test]
fn display_after_prune_only_walks_active_log() {
    let mut h = seeded_history();
    h.set_prune(true, 1);
    h.prune();
    let shown = visible_messages(&h, ChannelId::new(0));
    assert_eq!(payloads(&shown), vec![b"untagged".to_vec()]);
}
