use chat_overlay::chat_history::{ChannelId, ChatHistory, ChatHistoryIterator, ChatMessage, ChatPrune, TextColor};

fn color(r: u32, g: u32, b: u32, a: u32) -> TextColor {
    TextColor { r, g, b, a }
}

fn log_lengths(h: &ChatHistory) -> (usize, usize) {
    let mut it = h.iter();
    let mut active: usize = 0;
    while let Some(_) = it.next() {
        active += 1;
    }
    let mut itb = h.iter_backup();
    let mut backup: usize = 0;
    while let Some(_) = itb.next() {
        backup += 1;
    }
    (active, backup)
}

fn active_payloads(h: &ChatHistory) -> Vec<Vec<u8>> {
    let mut out = Vec::new();
    let mut it = h.iter();
    while let Some(m) = it.next() {
        out.push(m.to_owned());
    }
    out
}

#[test]
fn new_history_is_empty() {
    let h = ChatHistory::new();
    assert_eq!(log_lengths(&h), (0, 0));
    assert_eq!(h.channel_names().len(), 0);
    let p = h.get_prune();
    assert_eq!(p.length, 0);
    assert!(!p.enabled);
}

#[test]
fn send_message_appends_in_order() {
    let mut h = ChatHistory::new();
    h.send_message_str(ChannelId::new(1), "1");
    h.send_message_str(ChannelId::new(2), "2");
    h.send_message_str(ChannelId::new(1), "3");
    let payloads = active_payloads(&h);
    assert_eq!(payloads, vec![b"1".to_vec(), b"2".to_vec(), b"3".to_vec()]);
}

#[test]
fn send_message_u8_stores_exact_bytes() {
    let mut h = ChatHistory::new();
    h.send_message_u8(ChannelId::new(9), &[0, 255, 7]);
    let payloads = active_payloads(&h);
    assert_eq!(payloads, vec![vec![0u8, 255, 7]]);
}

#[test]
fn add_channel_registers_once() {
    let mut h = ChatHistory::new();
    let already = h.add_channel(ChannelId::new(1), "General", color(1, 2, 3, 4));
    assert!(!already);
    let names = h.channel_names();
    assert_eq!(names.len(), 1);
    assert_eq!(names[0].0, "General".to_string());
    assert_eq!(names[0].1, color(1, 2, 3, 4));
}

#[test]
fn add_channel_twice_keeps_first_registration() {
    let mut h = ChatHistory::new();
    let first = h.add_channel(ChannelId::new(5), "Combat Log", color(9, 9, 9, 9));
    let second = h.add_channel(ChannelId::new(5), "Other", color(1, 1, 1, 1));
    assert!(!first);
    assert!(second);
    let names = h.channel_names();
    assert_eq!(names.len(), 1);
    assert_eq!(names[0].0, "Combat Log".to_string());
    assert_eq!(names[0].1, color(9, 9, 9, 9));
}

#[test]
fn rename_channel_present() {
    let mut h = ChatHistory::new();
    h.add_channel(ChannelId::new(3), "Old", color(0, 0, 0, 0));
    let renamed = h.rename_channel(ChannelId::new(3), "New");
    assert!(renamed);
    let names = h.channel_names();
    assert_eq!(names[0].0, "New".to_string());
    assert_eq!(names[0].1, color(0, 0, 0, 0));
}

#[test]
fn rename_channel_absent_changes_nothing() {
    let mut h = ChatHistory::new();
    h.add_channel(ChannelId::new(1), "Kept", color(2, 2, 2, 2));
    let renamed = h.rename_channel(ChannelId::new(42), "X");
    assert!(!renamed);
    let names = h.channel_names();
    assert_eq!(names.len(), 1);
    assert_eq!(names[0].0, "Kept".to_string());
}

#[test]
fn lookup_channel_present_and_absent() {
    let mut h = ChatHistory::new();
    h.add_channel(ChannelId::new(2), "Here", color(5, 6, 7, 8));
    let found = h.lookup_channel(ChannelId::new(2));
    assert!(found.is_some());
    let c = found.unwrap();
    assert_eq!(c.name, "Here".to_string());
    assert_eq!(c.text_color, color(5, 6, 7, 8));
    assert!(h.lookup_channel(ChannelId::new(3)).is_none());
}

#[test]
fn lookup_channel_mut_updates_color() {
    let mut h = ChatHistory::new();
    h.add_channel(ChannelId::new(2), "Tinted", color(0, 0, 0, 0));
    {
        let c = h.lookup_channel_mut(ChannelId::new(2)).unwrap();
        c.text_color = color(8, 8, 8, 8);
    }
    assert_eq!(h.channel_names()[0].1, color(8, 8, 8, 8));
    assert!(h.lookup_channel_mut(ChannelId::new(7)).is_none());
}

#[test]
fn prune_moves_oldest_prefix_to_backup() {
    let mut h = ChatHistory::new();
    for i in 0..5u8 {
        h.send_message_u8(ChannelId::new(1), &[i]);
    }
    h.set_prune(true, 2);
    h.prune();
    assert_eq!(log_lengths(&h), (2, 3));
    assert_eq!(active_payloads(&h), vec![vec![3u8], vec![4u8]]);
    let mut itb = h.iter_backup();
    let mut backed = Vec::new();
    while let Some(m) = itb.next() {
        backed.push(m.to_owned());
    }
    assert_eq!(backed, vec![vec![0u8], vec![1u8], vec![2u8]]);
}

#[test]
fn prune_is_noop_when_log_within_bound() {
    let mut h = ChatHistory::new();
    h.send_message_u8(ChannelId::new(1), b"a");
    h.set_prune(true, 5);
    h.prune();
    assert_eq!(log_lengths(&h), (1, 0));
}

#[test]
fn prune_to_zero_moves_everything() {
    let mut h = ChatHistory::new();
    h.send_message_u8(ChannelId::new(1), b"a");
    h.send_message_u8(ChannelId::new(1), b"b");
    h.set_prune(true, 0);
    h.prune();
    assert_eq!(log_lengths(&h), (0, 2));
}

#[test]
fn negative_prune_length_never_prunes() {
    let mut h = ChatHistory::new();
    h.set_prune(true, -3);
    h.send_message_u8(ChannelId::new(1), b"a");
    h.send_message_u8(ChannelId::new(1), b"b");
    h.prune();
    assert_eq!(log_lengths(&h), (2, 0));
}

#[test]
fn send_with_pruning_enabled_trims_at_once() {
    let mut h = ChatHistory::new();
    h.set_prune(true, 1);
    h.send_message_u8(ChannelId::new(1), b"first");
    h.send_message_u8(ChannelId::new(1), b"second");
    assert_eq!(log_lengths(&h), (1, 1));
    assert_eq!(active_payloads(&h), vec![b"second".to_vec()]);
}

#[test]
fn set_prune_alone_does_not_trim() {
    let mut h = ChatHistory::new();
    h.send_message_u8(ChannelId::new(1), b"a");
    h.send_message_u8(ChannelId::new(1), b"b");
    h.set_prune(true, 1);
    assert_eq!(log_lengths(&h), (2, 0));
    let p = h.get_prune();
    assert!(p.enabled);
    assert_eq!(p.length, 1);
}

#[test]
fn clear_moves_all_to_backup() {
    let mut h = ChatHistory::new();
    h.send_message_u8(ChannelId::new(1), b"x");
    h.send_message_u8(ChannelId::new(2), b"y");
    h.clear();
    assert_eq!(log_lengths(&h), (0, 2));
}

#[test]
fn clear_and_restore_on_empty_history() {
    let mut h = ChatHistory::new();
    h.clear();
    h.restore();
    assert_eq!(log_lengths(&h), (0, 0));
}

#[test]
fn prune_restore_round_trip_keeps_send_order() {
    let mut h = ChatHistory::new();
    for i in 0..6u8 {
        h.send_message_u8(ChannelId::new(1), &[i]);
    }
    h.set_prune(true, 2);
    h.prune();
    assert_eq!(log_lengths(&h), (2, 4));
    h.restore();
    assert_eq!(log_lengths(&h), (6, 0));
    let expected: Vec<Vec<u8>> = (0..6u8).map(|i| vec![i]).collect();
    assert_eq!(active_payloads(&h), expected);
}

#[test]
fn iterator_walks_in_stored_order_then_stays_done() {
    let mut h = ChatHistory::new();
    h.send_message_u8(ChannelId::new(4), b"one");
    h.send_message_u8(ChannelId::new(4), b"two");
    let mut it = h.iter();
    assert_eq!(it.next().unwrap().to_owned(), b"one".to_vec());
    assert_eq!(it.next().unwrap().to_owned(), b"two".to_vec());
    assert!(it.next().is_none());
    assert!(it.next().is_none());
    let mut again = h.iter();
    assert_eq!(again.next().unwrap().to_owned(), b"one".to_vec());
}

#[test]
fn message_to_owned_copies_payload() {
    let m = ChatMessage::new(vec![1, 2, 3], ChannelId::new(8));
    let copy = m.to_owned();
    assert_eq!(copy, vec![1, 2, 3]);
    assert_eq!(m.msg, vec![1, 2, 3]);
    assert_eq!(m.channel_id, ChannelId::new(8));
}

#[test]
fn iterator_over_external_log() {
    let data = vec![
        ChatMessage::new(vec![10], ChannelId::new(1)),
        ChatMessage::new(vec![20], ChannelId::new(2)),
    ];
    let mut it = ChatHistoryIterator::new(&data);
    assert_eq!(it.next().unwrap().to_owned(), vec![10]);
    assert_eq!(it.next().unwrap().to_owned(), vec![20]);
    assert!(it.next().is_none());
}

#[test]
fn send_message_str_stores_utf8_bytes() {
    let mut h = ChatHistory::new();
    h.send_message_str(ChannelId::new(1), "héllo");
    assert_eq!(active_payloads(&h), vec!["héllo".as_bytes().to_vec()]);
}

#[test]
fn from_existing_seeds_channels_messages_and_greeting() {
    let channels = vec![
        ("Faction".to_string(), color(1, 0, 0, 1)),
        ("Guild".to_string(), color(0, 1, 0, 1)),
        ("Dev".to_string(), color(0, 0, 1, 1)),
    ];
    let seeds = vec![
        ("hello".to_string(), ChannelId::new(0)),
        ("there".to_string(), ChannelId::new(1)),
    ];
    let h = ChatHistory::from_existing(
        &channels,
        &seeds,
        ChatPrune { length: 0, enabled: false },
    );
    let names = h.channel_names();
    assert_eq!(names.len(), 3);
    assert_eq!(names[0].0, "Faction".to_string());
    assert_eq!(names[2].0, "Dev".to_string());
    assert!(h.lookup_channel(ChannelId::new(2)).is_some());
    let payloads = active_payloads(&h);
    assert_eq!(
        payloads,
        vec![b"hello".to_vec(), b"there".to_vec(), b"dev: hi".to_vec()]
    );
    let mut it = h.iter();
    it.next();
    it.next();
    assert_eq!(it.next().unwrap().channel_id, ChannelId::new(2));
}

#[test]
fn from_existing_with_pruning_enabled_trims_greeting_send() {
    let channels: Vec<(String, TextColor)> = Vec::new();
    let seeds = vec![
        ("a".to_string(), ChannelId::new(1)),
        ("b".to_string(), ChannelId::new(1)),
    ];
    let h = ChatHistory::from_existing(&channels, &seeds, ChatPrune { length: 1, enabled: true });
    assert_eq!(log_lengths(&h), (1, 2));
    assert_eq!(active_payloads(&h), vec![b"dev: hi".to_vec()]);
}
