//! Resource icons of the top bar: which atlas cell each icon comes from,
//! and in which order the icons and their values are laid out.

use vstd::prelude::*;

verus! {

/// Sprite atlas an icon is cut from.
#[derive(Clone, Copy, Debug, PartialEq, Eq, Structural)]
pub enum ResourceIconAtlas {
    World,
}

/// A resource shown in the top bar.
#[derive(Clone, Copy, Debug, PartialEq, Eq, Structural)]
pub enum HudResourceIcon {
    Food,
    Gold,
    Wood,
    Stone,
}

/// Where an icon sits in its atlas.
#[derive(Clone, Copy, Debug, PartialEq, Eq, Structural)]
pub struct ResourceIconSpec {
    pub atlas: ResourceIconAtlas,
    pub col: u32,
    pub row: u32,
}

/// The two widgets of one resource readout.
#[derive(Clone, Copy, Debug, PartialEq, Eq, Structural)]
pub enum ResourceIconPart {
    Icon,
    Value,
}

/// Atlas cell of each resource icon.
pub open spec fn spec_resource_icon_spec(icon: HudResourceIcon) -> ResourceIconSpec {
    match icon {
        HudResourceIcon::Food => ResourceIconSpec { atlas: ResourceIconAtlas::World, col: 24, row: 9 },
        HudResourceIcon::Gold => ResourceIconSpec { atlas: ResourceIconAtlas::World, col: 41, row: 11 },
        HudResourceIcon::Wood => ResourceIconSpec { atlas: ResourceIconAtlas::World, col: 13, row: 9 },
        HudResourceIcon::Stone => ResourceIconSpec { atlas: ResourceIconAtlas::World, col: 7, row: 15 },
    }
}

/// Atlas cell of a resource icon.
pub fn resource_icon_spec(icon: HudResourceIcon) -> (s: ResourceIconSpec)
    ensures
        s == spec_resource_icon_spec(icon),
{
    match icon {
        HudResourceIcon::Food => ResourceIconSpec { atlas: ResourceIconAtlas::World, col: 24, row: 9 },
        HudResourceIcon::Gold => ResourceIconSpec { atlas: ResourceIconAtlas::World, col: 41, row: 11 },
        HudResourceIcon::Wood => ResourceIconSpec { atlas: ResourceIconAtlas::World, col: 13, row: 9 },
        HudResourceIcon::Stone => ResourceIconSpec { atlas: ResourceIconAtlas::World, col: 7, row: 15 },
    }
}

/// Widget order of a readout: icon then value, swapped inside a
/// right-to-left layout so the icon still shows on the left.
pub fn resource_icon_parts(prefer_right_to_left: bool) -> (p: [ResourceIconPart; 2])
    ensures
        !prefer_right_to_left ==> p@ == seq![ResourceIconPart::Icon, ResourceIconPart::Value],
        prefer_right_to_left ==> p@ == seq![ResourceIconPart::Value, ResourceIconPart::Icon],
{
    if prefer_right_to_left {
        [ResourceIconPart::Value, ResourceIconPart::Icon]
    } else {
        [ResourceIconPart::Icon, ResourceIconPart::Value]
    }
}

/// On-screen order of the resources, left to right.
pub open spec fn spec_display_order() -> Seq<HudResourceIcon> {
    seq![HudResourceIcon::Wood, HudResourceIcon::Stone, HudResourceIcon::Food, HudResourceIcon::Gold]
}

/// On-screen order of the resources: wood, stone, food, gold.
pub fn top_bar_resource_display_order() -> (o: [HudResourceIcon; 4])
    ensures
        o@ == spec_display_order(),
{
    [HudResourceIcon::Wood, HudResourceIcon::Stone, HudResourceIcon::Food, HudResourceIcon::Gold]
}

/// Order in which the readouts are added: the display order, reversed inside
/// a right-to-left layout.
pub fn top_bar_resource_widget_order(prefer_right_to_left: bool) -> (o: [HudResourceIcon; 4])
    ensures
        !prefer_right_to_left ==> o@ == spec_display_order(),
        prefer_right_to_left ==> o@ == spec_display_order().reverse(),
{
    let d = top_bar_resource_display_order();
    let a = d[0];
    let b = d[1];
    let c = d[2];
    let e = d[3];
    let r = if prefer_right_to_left {
        [e, c, b, a]
    } else {
        [a, b, c, e]
    };
    assert(r@ =~= (if prefer_right_to_left {
        spec_display_order().reverse()
    } else {
        spec_display_order()
    }));
    r
}

/// Playback speeds the jukebox offers, in percent: 10% to 100% in steps of
/// 10, then 150% to 500% in steps of 50.
pub open spec fn spec_speed_percent(i: int) -> int {
    if i < 10 {
        10 * (i + 1)
    } else {
        150 + 50 * (i - 10)
    }
}

/// The jukebox's speed choices, in percent, in menu order.
pub fn jukebox_speed_percents() -> (p: Vec<u32>)
    ensures
        p@.len() == 18,
        forall|i: int| 0 <= i < 18 ==> #[trigger] p@[i] as int == spec_speed_percent(i),
{
    let mut p: Vec<u32> = Vec::new();
    let mut pct: u32 = 10;
    while pct <= 100
        invariant
            10 <= pct <= 110,
            pct % 10 == 0,
            p@.len() == pct / 10 - 1,
            forall|i: int| 0 <= i < p@.len() ==> #[trigger] p@[i] as int == spec_speed_percent(i),
        decreases 110 - pct,
    {
        p.push(pct);
        pct = pct + 10;
    }
    let mut pct: u32 = 150;
    while pct <= 500
        invariant
            150 <= pct <= 550,
            pct % 50 == 0,
            p@.len() == 10 + (pct - 150) / 50,
            forall|i: int| 0 <= i < p@.len() ==> #[trigger] p@[i] as int == spec_speed_percent(i),
        decreases 550 - pct,
    {
        p.push(pct);
        pct = pct + 50;
    }
    p
}

/// State of the outside model that may play a town.
#[derive(Clone, Copy, Debug, PartialEq, Eq, Structural)]
pub enum LlmStatus {
    Idle,
    Sending,
    Thinking,
    /// Finished a turn with this many actions.
    Done(usize),
}

/// Colour (RGB) and tooltip of the model's status light in the top bar.
pub fn llm_indicator(status: LlmStatus) -> (r: ((u8, u8, u8), &'static str))
    ensures
        status == LlmStatus::Idle ==> r.0 == (80u8, 80u8, 80u8) && r.1@ == "LLM idle"@,
        status == LlmStatus::Sending ==> r.0 == (80u8, 180u8, 255u8) && r.1@ == "LLM sending state"@,
        status == LlmStatus::Thinking ==> r.0 == (255u8, 200u8, 50u8) && r.1@ == "LLM thinking..."@,
        status matches LlmStatus::Done(n) ==> r.0 == (80u8, 220u8, 120u8) && (n > 0 ==> r.1@
            == "LLM executed actions"@) && (n == 0 ==> r.1@ == "LLM no actions"@),
{
    match status {
        LlmStatus::Idle => ((80, 80, 80), "LLM idle"),
        LlmStatus::Sending => ((80, 180, 255), "LLM sending state"),
        LlmStatus::Thinking => ((255, 200, 50), "LLM thinking..."),
        LlmStatus::Done(n) => ((80, 220, 120), if n > 0 {
            "LLM executed actions"
        } else {
            "LLM no actions"
        }),
    }
}

/// A right-to-left layout places the first widget rightmost: the screen
/// shows a widget sequence in reverse.
pub open spec fn on_screen<T>(widgets: Seq<T>, prefer_right_to_left: bool) -> Seq<T> {
    if prefer_right_to_left {
        widgets.reverse()
    } else {
        widgets
    }
}

/// Whatever the layout direction, the bar reads wood, stone, food, gold from
/// left to right, and each readout shows its icon left of its value.
pub proof fn lemma_top_bar_reads_same_both_ways(prefer_right_to_left: bool, order: Seq<HudResourceIcon>, parts: Seq<ResourceIconPart>)
    requires
        !prefer_right_to_left ==> order == spec_display_order(),
        prefer_right_to_left ==> order == spec_display_order().reverse(),
        !prefer_right_to_left ==> parts == seq![ResourceIconPart::Icon, ResourceIconPart::Value],
        prefer_right_to_left ==> parts == seq![ResourceIconPart::Value, ResourceIconPart::Icon],
    ensures
        on_screen(order, prefer_right_to_left) == spec_display_order(),
        on_screen(parts, prefer_right_to_left) == seq![ResourceIconPart::Icon, ResourceIconPart::Value],
{
    if prefer_right_to_left {
        assert(spec_display_order().reverse().reverse() =~= spec_display_order());
        assert(parts.reverse() =~= seq![ResourceIconPart::Icon, ResourceIconPart::Value]);
    }
}

/// Every icon is cut from the world atlas, each from its own cell.
pub proof fn lemma_icon_cells_distinct(a: HudResourceIcon, b: HudResourceIcon)
    ensures
        spec_resource_icon_spec(a).atlas == ResourceIconAtlas::World,
        a != b ==> (spec_resource_icon_spec(a).col, spec_resource_icon_spec(a).row) != (
            spec_resource_icon_spec(b).col,
            spec_resource_icon_spec(b).row,
        ),
{
}

} // verus!
