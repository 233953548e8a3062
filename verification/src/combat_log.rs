//! The combat-log feed: which events pass the filters, and the merged,
//! time-ordered feed of combat events, the selected NPC's own log and chat.

use vstd::prelude::*;

use crate::text::{spec_trim, trimmed};

verus! {

broadcast use vstd::seq_lib::group_to_multiset_ensures;

/// Faction of the human player.
pub const FACTION_PLAYER: i32 = 0;

/// Faction id of events that belong to no faction.
pub const FACTION_NEUTRAL: i32 = -1;

/// Kind of a combat-log event.
#[derive(Clone, Copy, Debug, PartialEq, Eq, Structural)]
pub enum CombatEventKind {
    Kill,
    Spawn,
    Raid,
    Harvest,
    LevelUp,
    Ai,
    BuildingDamage,
    Loot,
    Llm,
    Chat,
}

/// Filter switches of the combat-log window.
pub struct LogFilterState {
    pub show_kills: bool,
    pub show_spawns: bool,
    pub show_raids: bool,
    pub show_harvests: bool,
    pub show_levelups: bool,
    pub show_npc_activity: bool,
    pub show_ai: bool,
    pub show_building_damage: bool,
    pub show_loot: bool,
    pub show_llm: bool,
    pub show_chat: bool,
    /// -1 = all factions, 0 = my faction only
    pub faction_filter: i32,
    pub initialized: bool,
    pub chat_input: String,
}

/// In-game time of a log line.
#[derive(Clone, Copy, Debug, PartialEq, Eq, Structural)]
pub struct LogTime {
    pub day: u32,
    pub hour: u32,
    pub minute: u32,
}

/// What the feed needs of a combat-log entry.
#[derive(Clone, Copy, Debug, PartialEq, Eq, Structural)]
pub struct CombatLine {
    pub kind: CombatEventKind,
    pub faction: i32,
    pub time: LogTime,
}

/// Where a feed line comes from: an index into the combat log, into the
/// selected NPC's log, or into the chat inbox.
#[derive(Clone, Copy, Debug, PartialEq, Eq, Structural)]
pub enum FeedSource {
    Combat(usize),
    Npc(usize),
    Chat(usize),
}

/// One line of the merged feed and its sort key.
#[derive(Clone, Copy, Debug, PartialEq, Eq, Structural)]
pub struct FeedItem {
    pub key: i64,
    pub source: FeedSource,
}

/// Sort key of a time: day, hour and minute as one decimal number.
pub open spec fn time_key(t: LogTime) -> int {
    t.day * 10000 + t.hour * 100 + t.minute
}

/// Whether the filters show events of this kind.
pub open spec fn spec_kind_shown(f: &LogFilterState, kind: CombatEventKind) -> bool {
    match kind {
        CombatEventKind::Kill => f.show_kills,
        CombatEventKind::Spawn => f.show_spawns,
        CombatEventKind::Raid => f.show_raids,
        CombatEventKind::Harvest => f.show_harvests,
        CombatEventKind::LevelUp => f.show_levelups,
        CombatEventKind::Ai => f.show_ai,
        CombatEventKind::BuildingDamage => f.show_building_damage,
        CombatEventKind::Loot => f.show_loot,
        CombatEventKind::Llm => f.show_llm,
        CombatEventKind::Chat => f.show_chat,
    }
}

/// "Mine" (faction filter 0) keeps the player's and faction-less events only.
pub open spec fn spec_faction_shown(f: &LogFilterState, faction: i32) -> bool {
    !(f.faction_filter == 0 && faction != FACTION_PLAYER && faction != FACTION_NEUTRAL)
}

/// Whether the filters show events of this kind.
pub fn kind_shown(f: &LogFilterState, kind: CombatEventKind) -> (b: bool)
    ensures
        b == spec_kind_shown(f, kind),
        kind == CombatEventKind::Kill ==> b == f.show_kills,
        kind == CombatEventKind::Spawn ==> b == f.show_spawns,
        kind == CombatEventKind::Raid ==> b == f.show_raids,
        kind == CombatEventKind::Harvest ==> b == f.show_harvests,
        kind == CombatEventKind::LevelUp ==> b == f.show_levelups,
        kind == CombatEventKind::Ai ==> b == f.show_ai,
        kind == CombatEventKind::BuildingDamage ==> b == f.show_building_damage,
        kind == CombatEventKind::Loot ==> b == f.show_loot,
        kind == CombatEventKind::Llm ==> b == f.show_llm,
        kind == CombatEventKind::Chat ==> b == f.show_chat,
{
    match kind {
        CombatEventKind::Kill => f.show_kills,
        CombatEventKind::Spawn => f.show_spawns,
        CombatEventKind::Raid => f.show_raids,
        CombatEventKind::Harvest => f.show_harvests,
        CombatEventKind::LevelUp => f.show_levelups,
        CombatEventKind::Ai => f.show_ai,
        CombatEventKind::BuildingDamage => f.show_building_damage,
        CombatEventKind::Loot => f.show_loot,
        CombatEventKind::Llm => f.show_llm,
        CombatEventKind::Chat => f.show_chat,
    }
}

/// Each event kind is shown exactly when its own checkbox is ticked.
pub proof fn lemma_kind_follows_its_checkbox(f: &LogFilterState)
    ensures
        spec_kind_shown(f, CombatEventKind::Kill) == f.show_kills,
        spec_kind_shown(f, CombatEventKind::Spawn) == f.show_spawns,
        spec_kind_shown(f, CombatEventKind::Raid) == f.show_raids,
        spec_kind_shown(f, CombatEventKind::Harvest) == f.show_harvests,
        spec_kind_shown(f, CombatEventKind::LevelUp) == f.show_levelups,
        spec_kind_shown(f, CombatEventKind::Ai) == f.show_ai,
        spec_kind_shown(f, CombatEventKind::BuildingDamage) == f.show_building_damage,
        spec_kind_shown(f, CombatEventKind::Loot) == f.show_loot,
        spec_kind_shown(f, CombatEventKind::Llm) == f.show_llm,
        spec_kind_shown(f, CombatEventKind::Chat) == f.show_chat,
{
}

/// A combat line makes it into the feed only when the checkbox of its own
/// kind is ticked.
pub proof fn lemma_feed_lists_only_ticked_kinds(
    f: &LogFilterState,
    combat: Seq<CombatLine>,
    npc_logs: Seq<Vec<LogTime>>,
    selected: i32,
    chat: Seq<LogTime>,
    x: FeedItem,
    i: usize,
)
    requires
        in_feed(f, combat, npc_logs, selected, chat, x),
        x.source == FeedSource::Combat(i),
    ensures
        combat[i as int].kind == CombatEventKind::Kill ==> f.show_kills,
        combat[i as int].kind == CombatEventKind::Spawn ==> f.show_spawns,
        combat[i as int].kind == CombatEventKind::Raid ==> f.show_raids,
        combat[i as int].kind == CombatEventKind::Harvest ==> f.show_harvests,
        combat[i as int].kind == CombatEventKind::LevelUp ==> f.show_levelups,
        combat[i as int].kind == CombatEventKind::Ai ==> f.show_ai,
        combat[i as int].kind == CombatEventKind::BuildingDamage ==> f.show_building_damage,
        combat[i as int].kind == CombatEventKind::Loot ==> f.show_loot,
        combat[i as int].kind == CombatEventKind::Llm ==> f.show_llm,
        combat[i as int].kind == CombatEventKind::Chat ==> f.show_chat,
{
}

/// "All" (any filter but 0) lets every faction's events through; "Mine"
/// (filter 0) lets through exactly the player's faction and events that
/// belong to no faction.
pub proof fn lemma_faction_filter_modes(f: &LogFilterState, faction: i32)
    ensures
        f.faction_filter != 0 ==> spec_faction_shown(f, faction),
        f.faction_filter == 0 ==> (spec_faction_shown(f, faction) <==> (faction == 0 || faction == -1)),
{
}

/// Whether the faction filter lets an event of `faction` through.
pub fn faction_shown(f: &LogFilterState, faction: i32) -> (b: bool)
    ensures
        b == spec_faction_shown(f, faction),
{
    !(f.faction_filter == 0 && faction != FACTION_PLAYER && faction != FACTION_NEUTRAL)
}

/// Text colour of an event kind, as RGB.
pub open spec fn spec_kind_color(kind: CombatEventKind) -> (u8, u8, u8) {
    match kind {
        CombatEventKind::Kill => (220, 80, 80),
        CombatEventKind::Spawn => (80, 200, 80),
        CombatEventKind::Raid => (220, 160, 40),
        CombatEventKind::Harvest => (200, 200, 60),
        CombatEventKind::LevelUp => (80, 180, 255),
        CombatEventKind::Ai => (180, 120, 220),
        CombatEventKind::BuildingDamage => (220, 130, 50),
        CombatEventKind::Loot => (255, 215, 0),
        CombatEventKind::Llm => (0, 200, 180),
        CombatEventKind::Chat => (240, 200, 80),
    }
}

/// Text colour of an event kind, as RGB.
pub fn kind_color(kind: CombatEventKind) -> (c: (u8, u8, u8))
    ensures
        c == spec_kind_color(kind),
{
    match kind {
        CombatEventKind::Kill => (220, 80, 80),
        CombatEventKind::Spawn => (80, 200, 80),
        CombatEventKind::Raid => (220, 160, 40),
        CombatEventKind::Harvest => (200, 200, 60),
        CombatEventKind::LevelUp => (80, 180, 255),
        CombatEventKind::Ai => (180, 120, 220),
        CombatEventKind::BuildingDamage => (220, 130, 50),
        CombatEventKind::Loot => (255, 215, 0),
        CombatEventKind::Llm => (0, 200, 180),
        CombatEventKind::Chat => (240, 200, 80),
    }
}

/// Label of the faction drop-down: "All" for filter -1, "Mine" otherwise.
pub fn faction_filter_label(filter: i32) -> (s: &'static str)
    ensures
        filter == -1 ==> s@ == "All"@,
        filter != -1 ==> s@ == "Mine"@,
{
    if filter == -1 {
        "All"
    } else {
        "Mine"
    }
}

impl LogFilterState {
    /// The chat box's Send (or Enter): text that is not blank once trimmed
    /// is sent, trimmed, and the box is cleared; blank text stays.
    pub fn take_chat(&mut self) -> (sent: Option<String>)
        ensures
            spec_trim(old(self).chat_input@).len() == 0 ==> sent.is_none() && final(self).chat_input
                == old(self).chat_input,
            spec_trim(old(self).chat_input@).len() > 0 ==> (sent matches Some(t) && t@ == spec_trim(
                old(self).chat_input@,
            ) && final(self).chat_input@ == Seq::<char>::empty()),
            *final(self) == (LogFilterState { chat_input: final(self).chat_input, ..*old(self) }),
    {
        let t = trimmed(self.chat_input.as_str());
        if t.unicode_len() == 0 {
            None
        } else {
            self.chat_input = String::new();
            Some(t)
        }
    }
}

/// A chat message between two towns.
pub struct ChatMessage {
    pub from_town: usize,
    pub to_town: usize,
    pub text: String,
    pub time: LogTime,
    pub sent_to_llm: bool,
    pub has_reply: bool,
}

/// The message the player's town 0 sends to `to_town`: not yet handed to
/// the town's model, and unanswered.
pub open spec fn is_outgoing(m: ChatMessage, to_town: usize, text: Seq<char>, time: LogTime) -> bool {
    &&& m.from_town == 0
    &&& m.to_town == to_town
    &&& m.text@ == text
    &&& m.time == time
    &&& !m.sent_to_llm
    &&& !m.has_reply
}

impl LogFilterState {
    /// Sending from the chat box, shown only when some town takes chat
    /// (`allowed` not empty): text that is not blank once trimmed goes,
    /// trimmed and stamped with `time`, to each allowed town in turn, and
    /// the box is cleared. Returns the messages for the chat inbox (none
    /// when nothing is sent).
    pub fn send_chat(&mut self, allowed: &Vec<usize>, time: LogTime) -> (msgs: Vec<ChatMessage>)
        ensures
            (allowed@.len() == 0 || spec_trim(old(self).chat_input@).len() == 0) ==> *final(self)
                == *old(self) && msgs@.len() == 0,
            (allowed@.len() > 0 && spec_trim(old(self).chat_input@).len() > 0) ==> {
                &&& *final(self) == (LogFilterState { chat_input: final(self).chat_input, ..*old(self) })
                &&& final(self).chat_input@ == Seq::<char>::empty()
                &&& msgs@.len() == allowed@.len()
                &&& forall|k: int|
                    0 <= k < msgs@.len() ==> is_outgoing(
                        #[trigger] msgs@[k],
                        allowed@[k],
                        spec_trim(old(self).chat_input@),
                        time,
                    )
            },
    {
        let mut msgs: Vec<ChatMessage> = Vec::new();
        if allowed.len() == 0 {
            return msgs;
        }
        let sent = self.take_chat();
        if let Some(text) = sent {
            let mut k: usize = 0;
            while k < allowed.len()
                invariant
                    k <= allowed@.len(),
                    msgs@.len() == k,
                    forall|j: int| 0 <= j < k ==> is_outgoing(#[trigger] msgs@[j], allowed@[j], text@, time),
                decreases allowed@.len() - k,
            {
                msgs.push(
                    ChatMessage {
                        from_town: 0,
                        to_town: allowed[k],
                        text: text.clone(),
                        time,
                        sent_to_llm: false,
                        has_reply: false,
                    },
                );
                k = k + 1;
            }
        }
        msgs
    }
}

/// The other town of a chat message involving the player's town 0, and
/// whether the player sent it.
pub fn chat_counterpart(from_town: usize, to_town: usize) -> (r: (usize, bool))
    ensures
        r == (if from_town == 0 {
            (to_town, true)
        } else {
            (from_town, false)
        }),
{
    if from_town == 0 {
        (to_town, true)
    } else {
        (from_town, false)
    }
}

/// Position of a source in the unsorted feed: combat lines first, then the
/// NPC's log, then chat, each in its own order.
pub open spec fn source_order(s: FeedSource) -> (int, int) {
    match s {
        FeedSource::Combat(i) => (0, i as int),
        FeedSource::Npc(i) => (1, i as int),
        FeedSource::Chat(i) => (2, i as int),
    }
}

/// Strict order of the sources in the unsorted feed.
pub open spec fn source_lt(a: FeedSource, b: FeedSource) -> bool {
    source_order(a).0 < source_order(b).0 || (source_order(a).0 == source_order(b).0
        && source_order(a).1 < source_order(b).1)
}

/// Feed order: by time, and lines of equal time in their unsorted order
/// (the sort is stable).
pub open spec fn feed_before(a: FeedItem, b: FeedItem) -> bool {
    a.key < b.key || (a.key == b.key && source_lt(a.source, b.source))
}

/// Whether `item` belongs in the feed for these filters and logs.
pub open spec fn in_feed(
    f: &LogFilterState,
    combat: Seq<CombatLine>,
    npc_logs: Seq<Vec<LogTime>>,
    selected: i32,
    chat: Seq<LogTime>,
    item: FeedItem,
) -> bool {
    match item.source {
        FeedSource::Combat(i) => {
            &&& i < combat.len()
            &&& spec_kind_shown(f, combat[i as int].kind)
            &&& spec_faction_shown(f, combat[i as int].faction)
            &&& item.key == time_key(combat[i as int].time)
        },
        FeedSource::Npc(i) => {
            &&& f.show_npc_activity
            &&& 0 <= selected < npc_logs.len()
            &&& i < npc_logs[selected as int]@.len()
            &&& item.key == time_key(npc_logs[selected as int]@[i as int])
        },
        FeedSource::Chat(i) => {
            &&& f.show_chat
            &&& i < chat.len()
            &&& item.key == time_key(chat[i as int])
        },
    }
}

fn log_key(t: LogTime) -> (k: i64)
    ensures
        k == time_key(t),
{
    (t.day as i64) * 10000 + (t.hour as i64) * 100 + t.minute as i64
}

fn feed_lt(a: FeedItem, b: FeedItem) -> (r: bool)
    ensures
        r == feed_before(a, b),
{
    let (ca, ia): (u8, usize) = match a.source {
        FeedSource::Combat(i) => (0, i),
        FeedSource::Npc(i) => (1, i),
        FeedSource::Chat(i) => (2, i),
    };
    let (cb, ib): (u8, usize) = match b.source {
        FeedSource::Combat(i) => (0, i),
        FeedSource::Npc(i) => (1, i),
        FeedSource::Chat(i) => (2, i),
    };
    a.key < b.key || (a.key == b.key && (ca < cb || (ca == cb && ia < ib)))
}

proof fn lemma_feed_before_transitive(a: FeedItem, b: FeedItem, c: FeedItem)
    requires
        feed_before(a, b),
        feed_before(b, c),
    ensures
        feed_before(a, c),
{
}

proof fn lemma_feed_before_total(a: FeedItem, b: FeedItem)
    requires
        source_lt(a.source, b.source),
    ensures
        feed_before(a, b) || feed_before(b, a),
        !feed_before(b, a) ==> feed_before(a, b),
{
}

/// Strictly increasing in feed order.
pub open spec fn feed_sorted(s: Seq<FeedItem>) -> bool {
    forall|i: int, j: int| 0 <= i < j < s.len() ==> feed_before(#[trigger] s[i], #[trigger] s[j])
}

/// Strictly increasing in source order.
pub open spec fn source_sorted(s: Seq<FeedItem>) -> bool {
    forall|i: int, j: int| 0 <= i < j < s.len() ==> source_lt(#[trigger] s[i].source, #[trigger] s[j].source)
}

/// Sorts feed items by time, keeping lines of equal time in their given
/// order (the given items come in source order).
fn sort_feed(items: &Vec<FeedItem>) -> (out: Vec<FeedItem>)
    requires
        source_sorted(items@),
    ensures
        feed_sorted(out@),
        forall|x: FeedItem| out@.contains(x) <==> items@.contains(x),
{
    let mut out: Vec<FeedItem> = Vec::new();
    let mut i: usize = 0;
    while i < items.len()
        invariant
            source_sorted(items@),
            i <= items@.len(),
            feed_sorted(out@),
            out@.to_multiset() == items@.take(i as int).to_multiset(),
        decreases items@.len() - i,
    {
        let e = items[i];
        let mut p: usize = 0;
        while p < out.len() && !feed_lt(e, out[p])
            invariant
                p <= out@.len(),
                forall|j: int| 0 <= j < p ==> !feed_before(e, #[trigger] out@[j]),
            decreases out@.len() - p,
        {
            p = p + 1;
        }
        proof {
            assert forall|j: int| 0 <= j < out@.len() implies source_lt(#[trigger] out@[j].source, e.source) by {
                assert(out@.to_multiset().count(out@[j]) > 0);
                assert(items@.take(i as int).to_multiset().count(out@[j]) > 0);
                assert(items@.take(i as int).contains(out@[j]));
                let k = choose|k: int| 0 <= k < i && items@.take(i as int)[k] == out@[j];
                assert(items@[k] == out@[j]);
            }
            assert forall|j: int| 0 <= j < p implies feed_before(#[trigger] out@[j], e) by {
                lemma_feed_before_total(out@[j], e);
            }
            if p < out@.len() {
                assert forall|j: int| p <= j < out@.len() implies feed_before(e, #[trigger] out@[j]) by {
                    if j > p {
                        lemma_feed_before_transitive(e, out@[p as int], out@[j]);
                    }
                }
            }
        }
        let ghost old_out = out@;
        out.insert(p, e);
        proof {
            assert(out@ =~= old_out.insert(p as int, e));
            assert forall|a: int, b: int| 0 <= a < b < out@.len() implies feed_before(#[trigger] out@[a], #[trigger] out@[b]) by {
                if a < p && b == p {
                } else if a < p && b > p {
                    assert(out@[b] == old_out[b - 1]);
                } else if a == p {
                    assert(out@[b] == old_out[b - 1]);
                } else if b < p {
                } else {
                    assert(out@[a] == old_out[a - 1]);
                    assert(out@[b] == old_out[b - 1]);
                }
            }
            assert(items@.take(i + 1) =~= items@.take(i as int).push(e));
        }
        i = i + 1;
    }
    proof {
        assert(items@.take(i as int) =~= items@);
        assert forall|x: FeedItem| out@.contains(x) <==> items@.contains(x) by {
            assert(out@.contains(x) <==> out@.to_multiset().count(x) > 0);
            assert(items@.contains(x) <==> items@.to_multiset().count(x) > 0);
        }
    }
    out
}

/// `s` comes before position `i` of category `cat` in the unsorted feed.
pub open spec fn source_below(s: FeedSource, cat: int, i: int) -> bool {
    source_order(s).0 < cat || (source_order(s).0 == cat && source_order(s).1 < i)
}

/// The unsorted feed so far: every line belongs in the feed and comes before
/// (`cat`, `i`), lines are in source order, and no line of the feed before
/// (`cat`, `i`) is missing.
pub open spec fn feed_prefix(
    f: &LogFilterState,
    combat: Seq<CombatLine>,
    npc_logs: Seq<Vec<LogTime>>,
    selected: i32,
    chat: Seq<LogTime>,
    items: Seq<FeedItem>,
    cat: int,
    i: int,
) -> bool {
    &&& source_sorted(items)
    &&& forall|k: int|
        0 <= k < items.len() ==> in_feed(f, combat, npc_logs, selected, chat, #[trigger] items[k])
            && source_below(items[k].source, cat, i)
    &&& forall|x: FeedItem|
        in_feed(f, combat, npc_logs, selected, chat, x) && #[trigger] source_below(x.source, cat, i)
            ==> items.contains(x)
}

proof fn lemma_feed_prefix_push(
    f: &LogFilterState,
    combat: Seq<CombatLine>,
    npc_logs: Seq<Vec<LogTime>>,
    selected: i32,
    chat: Seq<LogTime>,
    items: Seq<FeedItem>,
    cat: int,
    i: int,
    e: FeedItem,
)
    requires
        feed_prefix(f, combat, npc_logs, selected, chat, items, cat, i),
        in_feed(f, combat, npc_logs, selected, chat, e),
        source_order(e.source) == (cat, i),
    ensures
        feed_prefix(f, combat, npc_logs, selected, chat, items.push(e), cat, i + 1),
{
    let items2 = items.push(e);
    assert forall|a: int, b: int| 0 <= a < b < items2.len() implies source_lt(#[trigger] items2[a].source, #[trigger] items2[b].source) by {
        if b == items.len() {
            assert(source_below(items[a].source, cat, i));
        } else {
            assert(source_lt(items[a].source, items[b].source));
        }
    }
    assert forall|x: FeedItem| in_feed(f, combat, npc_logs, selected, chat, x) && #[trigger] source_below(x.source, cat, i + 1) implies items2.contains(x) by {
        if source_below(x.source, cat, i) {
            assert(items.contains(x));
            let k = choose|k: int| 0 <= k < items.len() && items[k] == x;
            assert(items2[k] == x);
        } else {
            assert(source_order(x.source) == source_order(e.source));
            assert(x.source == e.source);
            assert(x.key == e.key);
            assert(items2[items.len() as int] == x);
        }
    }
}

proof fn lemma_feed_prefix_skip(
    f: &LogFilterState,
    combat: Seq<CombatLine>,
    npc_logs: Seq<Vec<LogTime>>,
    selected: i32,
    chat: Seq<LogTime>,
    items: Seq<FeedItem>,
    cat: int,
    i: int,
)
    requires
        feed_prefix(f, combat, npc_logs, selected, chat, items, cat, i),
        forall|x: FeedItem| source_order(x.source) == (cat, i) ==> !in_feed(f, combat, npc_logs, selected, chat, x),
    ensures
        feed_prefix(f, combat, npc_logs, selected, chat, items, cat, i + 1),
{
    assert forall|x: FeedItem| in_feed(f, combat, npc_logs, selected, chat, x) && #[trigger] source_below(x.source, cat, i + 1) implies items.contains(x) by {
        if !source_below(x.source, cat, i) {
            assert(source_order(x.source) == (cat, i));
        }
    }
}

proof fn lemma_feed_prefix_next_cat(
    f: &LogFilterState,
    combat: Seq<CombatLine>,
    npc_logs: Seq<Vec<LogTime>>,
    selected: i32,
    chat: Seq<LogTime>,
    items: Seq<FeedItem>,
    cat: int,
    i: int,
)
    requires
        feed_prefix(f, combat, npc_logs, selected, chat, items, cat, i),
        forall|x: FeedItem| source_order(x.source).0 == cat && source_order(x.source).1 >= i ==> !in_feed(f, combat, npc_logs, selected, chat, x),
    ensures
        feed_prefix(f, combat, npc_logs, selected, chat, items, cat + 1, 0),
{
    assert forall|x: FeedItem| in_feed(f, combat, npc_logs, selected, chat, x) && #[trigger] source_below(x.source, cat + 1, 0) implies items.contains(x) by {
        assert(source_order(x.source).1 >= 0);
        if !source_below(x.source, cat, i) {
            assert(source_order(x.source).0 == cat);
        }
    }
    assert forall|k: int| 0 <= k < items.len() implies in_feed(f, combat, npc_logs, selected, chat, #[trigger] items[k])
        && source_below(items[k].source, cat + 1, 0) by {
        assert(source_below(items[k].source, cat, i));
    }
}

/// The combat-log window's feed: the combat events that pass the kind and
/// faction filters, the selected NPC's own log lines (when "NPC" is on), and
/// the chat messages (when "Chat" is on), ordered by time, lines of equal
/// time in that order.
pub fn merge_log_feed(
    f: &LogFilterState,
    combat: &Vec<CombatLine>,
    npc_logs: &Vec<Vec<LogTime>>,
    selected: i32,
    chat: &Vec<LogTime>,
) -> (feed: Vec<FeedItem>)
    ensures
        feed_sorted(feed@),
        forall|x: FeedItem|
            #[trigger] feed@.contains(x) <==> in_feed(f, combat@, npc_logs@, selected, chat@, x),
{
    let mut items: Vec<FeedItem> = Vec::new();
    let mut i: usize = 0;
    proof {
        assert forall|x: FeedItem| in_feed(f, combat@, npc_logs@, selected, chat@, x) && #[trigger] source_below(x.source, 0, 0) implies items@.contains(x) by {
            assert(source_order(x.source).1 >= 0);
        }
    }
    while i < combat.len()
        invariant
            i <= combat@.len(),
            feed_prefix(f, combat@, npc_logs@, selected, chat@, items@, 0, i as int),
        decreases combat@.len() - i,
    {
        let line = combat[i];
        let e = FeedItem { key: log_key(line.time), source: FeedSource::Combat(i) };
        if kind_shown(f, line.kind) && faction_shown(f, line.faction) {
            proof {
                lemma_feed_prefix_push(f, combat@, npc_logs@, selected, chat@, items@, 0, i as int, e);
            }
            items.push(e);
        } else {
            proof {
                lemma_feed_prefix_skip(f, combat@, npc_logs@, selected, chat@, items@, 0, i as int);
            }
        }
        i = i + 1;
    }
    proof {
        lemma_feed_prefix_next_cat(f, combat@, npc_logs@, selected, chat@, items@, 0, i as int);
    }
    if f.show_npc_activity && selected >= 0 && (selected as usize) < npc_logs.len() {
        let log = &npc_logs[selected as usize];
        let mut j: usize = 0;
        while j < log.len()
            invariant
                f.show_npc_activity,
                0 <= selected < npc_logs@.len(),
                log@ == npc_logs@[selected as int]@,
                j <= log@.len(),
                feed_prefix(f, combat@, npc_logs@, selected, chat@, items@, 1, j as int),
            decreases log@.len() - j,
        {
            let e = FeedItem { key: log_key(log[j]), source: FeedSource::Npc(j) };
            proof {
                lemma_feed_prefix_push(f, combat@, npc_logs@, selected, chat@, items@, 1, j as int, e);
            }
            items.push(e);
            j = j + 1;
        }
        proof {
            lemma_feed_prefix_next_cat(f, combat@, npc_logs@, selected, chat@, items@, 1, j as int);
        }
    } else {
        proof {
            lemma_feed_prefix_next_cat(f, combat@, npc_logs@, selected, chat@, items@, 1, 0);
        }
    }
    if f.show_chat {
        let mut c: usize = 0;
        while c < chat.len()
            invariant
                f.show_chat,
                c <= chat@.len(),
                feed_prefix(f, combat@, npc_logs@, selected, chat@, items@, 2, c as int),
            decreases chat@.len() - c,
        {
            let e = FeedItem { key: log_key(chat[c]), source: FeedSource::Chat(c) };
            proof {
                lemma_feed_prefix_push(f, combat@, npc_logs@, selected, chat@, items@, 2, c as int, e);
            }
            items.push(e);
            c = c + 1;
        }
        proof {
            lemma_feed_prefix_next_cat(f, combat@, npc_logs@, selected, chat@, items@, 2, c as int);
        }
    } else {
        proof {
            lemma_feed_prefix_next_cat(f, combat@, npc_logs@, selected, chat@, items@, 2, 0);
        }
    }
    let feed = sort_feed(&items);
    proof {
        assert forall|x: FeedItem| #[trigger] feed@.contains(x) <==> in_feed(f, combat@, npc_logs@, selected, chat@, x) by {
            if in_feed(f, combat@, npc_logs@, selected, chat@, x) {
                assert(source_below(x.source, 3, 0));
            }
            if items@.contains(x) {
                let k = choose|k: int| 0 <= k < items@.len() && items@[k] == x;
                assert(in_feed(f, combat@, npc_logs@, selected, chat@, items@[k]));
            }
        }
    }
    feed
}

} // verus!
