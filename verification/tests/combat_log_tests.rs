use endless_ui::combat_log::{
    chat_counterpart, ChatMessage, faction_filter_label, faction_shown, kind_color, kind_shown, merge_log_feed, CombatEventKind,
    CombatLine, FeedItem, FeedSource, LogFilterState, LogTime,
};


fn all_on() -> LogFilterState {
    LogFilterState {
        show_kills: true,
        show_spawns: true,
        show_raids: true,
        show_harvests: true,
        show_levelups: true,
        show_npc_activity: true,
        show_ai: true,
        show_building_damage: true,
        show_loot: true,
        show_llm: true,
        show_chat: true,
        faction_filter: -1,
        initialized: true,
        chat_input: String::new(),
    }
}

fn t(day: u32, hour: u32, minute: u32) -> LogTime {
    LogTime { day, hour, minute }
}

fn line(kind: CombatEventKind, faction: i32, time: LogTime) -> CombatLine {
    CombatLine { kind, faction, time }
}

#[test]
fn filters_follow_the_checkboxes() {
    let mut f = all_on();
    f.show_loot = false;
    assert!(!kind_shown(&f, CombatEventKind::Loot));
    assert!(kind_shown(&f, CombatEventKind::Kill));
    assert!(faction_shown(&f, 5));
    f.faction_filter = 0;
    assert!(faction_shown(&f, 0));
    assert!(faction_shown(&f, -1));
    assert!(!faction_shown(&f, 2));
    assert_eq!(kind_color(CombatEventKind::Kill), (220, 80, 80));
    assert_eq!(kind_color(CombatEventKind::Loot), (255, 215, 0));
}

#[test]
fn chat_lines_name_the_other_town() {
    assert_eq!(chat_counterpart(0, 3), (3, true));
    assert_eq!(chat_counterpart(2, 0), (2, false));
}

#[test]
fn feed_merges_sources_by_time_stably() {
    let mut f = all_on();
    f.show_raids = false;
    let combat = vec![
        line(CombatEventKind::Kill, 0, t(1, 8, 0)),
        line(CombatEventKind::Raid, 0, t(1, 1, 0)),
        line(CombatEventKind::Spawn, 3, t(1, 5, 30)),
        line(CombatEventKind::Kill, 1, t(1, 8, 0)),
    ];
    let npc_logs = vec![vec![t(9, 9, 9)], vec![t(1, 8, 0), t(0, 23, 59)]];
    let chat = vec![t(1, 8, 0), t(2, 0, 0)];
    let feed = merge_log_feed(&f, &combat, &npc_logs, 1, &chat);
    let expected = vec![
        FeedItem { key: 2359, source: FeedSource::Npc(1) },
        FeedItem { key: 10530, source: FeedSource::Combat(2) },
        FeedItem { key: 10800, source: FeedSource::Combat(0) },
        FeedItem { key: 10800, source: FeedSource::Combat(3) },
        FeedItem { key: 10800, source: FeedSource::Npc(0) },
        FeedItem { key: 10800, source: FeedSource::Chat(0) },
        FeedItem { key: 20000, source: FeedSource::Chat(1) },
    ];
    assert_eq!(feed, expected);
}

#[test]
fn mine_only_keeps_player_and_neutral_events() {
    let mut f = all_on();
    f.faction_filter = 0;
    f.show_chat = false;
    f.show_npc_activity = false;
    let combat = vec![
        line(CombatEventKind::Kill, 0, t(0, 0, 1)),
        line(CombatEventKind::Kill, 4, t(0, 0, 2)),
        line(CombatEventKind::Ai, -1, t(0, 0, 3)),
    ];
    let feed = merge_log_feed(&f, &combat, &vec![vec![t(0, 0, 0)]], 0, &vec![t(0, 0, 0)]);
    let sources: Vec<FeedSource> = feed.iter().map(|i| i.source).collect();
    assert_eq!(sources, vec![FeedSource::Combat(0), FeedSource::Combat(2)]);
}

#[test]
fn npc_lines_need_a_valid_selection() {
    let f = all_on();
    let npc_logs = vec![vec![t(0, 0, 5)]];
    assert!(merge_log_feed(&f, &vec![], &npc_logs, -1, &vec![]).is_empty());
    assert!(merge_log_feed(&f, &vec![], &npc_logs, 1, &vec![]).is_empty());
    assert_eq!(merge_log_feed(&f, &vec![], &npc_logs, 0, &vec![]).len(), 1);
}

#[test]
fn chat_box_sends_trimmed_text() {
    let mut f = all_on();
    f.chat_input = "  hello there \n".to_string();
    assert_eq!(f.take_chat(), Some("hello there".to_string()));
    assert_eq!(f.chat_input, "");
    f.chat_input = "   ".to_string();
    assert_eq!(f.take_chat(), None);
    assert_eq!(f.chat_input, "   ");
    assert_eq!(faction_filter_label(-1), "All");
    assert_eq!(faction_filter_label(0), "Mine");
}

#[test]
fn chat_goes_to_each_allowed_town_trimmed_and_stamped() {
    let time = LogTime { day: 3, hour: 14, minute: 5 };
    let mut f = all_on();
    f.chat_input = "  truce?  ".to_string();
    let msgs: Vec<ChatMessage> = f.send_chat(&vec![], time);
    assert!(msgs.is_empty());
    assert_eq!(f.chat_input, "  truce?  ");
    let msgs = f.send_chat(&vec![2, 5], time);
    assert_eq!(msgs.len(), 2);
    for (m, to) in msgs.iter().zip([2usize, 5]) {
        assert_eq!((m.from_town, m.to_town, m.text.as_str()), (0, to, "truce?"));
        assert_eq!(m.time, time);
        assert!(!m.sent_to_llm && !m.has_reply);
    }
    assert_eq!(f.chat_input, "");
    f.chat_input = " \t".to_string();
    assert!(f.send_chat(&vec![2], time).is_empty());
    assert_eq!(f.chat_input, " \t");
    assert!(f.show_chat);
}
