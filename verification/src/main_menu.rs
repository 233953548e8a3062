//! The game lobby: AI player slots, their saved form, the slots a
//! difficulty preset produces, and the towns the AI slots end up with.

use vstd::prelude::*;

verus! {

/// Per-AI-player slot kind.
#[derive(Clone, Copy, Debug, PartialEq, Eq, Structural)]
pub enum AiSlotKind {
    Builder,
    Raider,
}

impl AiSlotKind {
    /// Display name of the slot kind.
    pub fn label(self) -> (s: &'static str)
        ensures
            self == AiSlotKind::Builder ==> s@ == "Builder"@,
            self == AiSlotKind::Raider ==> s@ == "Raider"@,
    {
        match self {
            AiSlotKind::Builder => "Builder",
            AiSlotKind::Raider => "Raider",
        }
    }
}

/// Per-AI-player slot config of the game lobby: the town's kind and whether
/// an outside model may control it.
#[derive(Clone, Copy, Debug, PartialEq, Eq, Structural)]
pub struct AiSlotConfig {
    pub kind: AiSlotKind,
    pub llm: bool,
}

/// Most AI slots the lobby offers.
pub const MAX_AI_SLOTS: usize = 20;

/// Number written to the settings file for a slot kind.
pub open spec fn spec_kind_code(kind: AiSlotKind) -> u8 {
    match kind {
        AiSlotKind::Builder => 0,
        AiSlotKind::Raider => 1,
    }
}

/// The slot a saved entry stands for: kind number 1 is a raider, any other
/// number a builder.
pub open spec fn spec_slot_from_saved(kind: u8, llm: bool) -> AiSlotConfig {
    AiSlotConfig {
        kind: if kind == 1 {
            AiSlotKind::Raider
        } else {
            AiSlotKind::Builder
        },
        llm,
    }
}

/// Kind number saved for a slot.
pub fn saved_kind_code(kind: AiSlotKind) -> (code: u8)
    ensures
        code == spec_kind_code(kind),
{
    match kind {
        AiSlotKind::Builder => 0,
        AiSlotKind::Raider => 1,
    }
}

/// Slot restored from a saved entry.
pub fn slot_from_saved(kind: u8, llm: bool) -> (slot: AiSlotConfig)
    ensures
        slot == spec_slot_from_saved(kind, llm),
{
    AiSlotConfig {
        kind: if kind == 1 {
            AiSlotKind::Raider
        } else {
            AiSlotKind::Builder
        },
        llm,
    }
}

/// Saving the lobby and loading it again gives back the same slots.
pub proof fn lemma_saved_slot_round_trip(slot: AiSlotConfig)
    ensures
        spec_slot_from_saved(spec_kind_code(slot.kind), slot.llm) == slot,
{
}

/// Number of slots of the given kind.
pub open spec fn count_kind(slots: Seq<AiSlotConfig>, kind: AiSlotKind) -> nat
    decreases slots.len(),
{
    if slots.len() == 0 {
        0
    } else {
        count_kind(slots.drop_last(), kind) + (if slots.last().kind == kind {
            1nat
        } else {
            0nat
        })
    }
}

/// Numbers of builder and raider slots, which become the world's AI towns.
pub fn slot_counts(slots: &Vec<AiSlotConfig>) -> (r: (usize, usize))
    ensures
        r.0 == count_kind(slots@, AiSlotKind::Builder),
        r.1 == count_kind(slots@, AiSlotKind::Raider),
{
    let mut builders: usize = 0;
    let mut raiders: usize = 0;
    let mut i: usize = 0;
    while i < slots.len()
        invariant
            i <= slots@.len(),
            builders == count_kind(slots@.take(i as int), AiSlotKind::Builder),
            raiders == count_kind(slots@.take(i as int), AiSlotKind::Raider),
            builders + raiders == i,
        decreases slots@.len() - i,
    {
        proof {
            assert(slots@.take(i + 1).drop_last() =~= slots@.take(i as int));
        }
        match slots[i].kind {
            AiSlotKind::Builder => {
                builders = builders + 1;
            },
            AiSlotKind::Raider => {
                raiders = raiders + 1;
            },
        }
        i = i + 1;
    }
    proof {
        assert(slots@.take(i as int) =~= slots@);
    }
    (builders, raiders)
}

/// Whether any slot is a raider (the raider settings are shown then).
pub fn has_raiders(slots: &Vec<AiSlotConfig>) -> (b: bool)
    ensures
        b == exists|i: int| 0 <= i < slots@.len() && #[trigger] slots@[i].kind == AiSlotKind::Raider,
{
    let mut i: usize = 0;
    while i < slots.len()
        invariant
            i <= slots@.len(),
            forall|j: int| 0 <= j < i ==> #[trigger] slots@[j].kind != AiSlotKind::Raider,
        decreases slots@.len() - i,
    {
        if slots[i].kind == AiSlotKind::Raider {
            return true;
        }
        i = i + 1;
    }
    false
}

/// A click on "+ Builder" or "+ Raider": a new slot without model control,
/// offered while fewer than `MAX_AI_SLOTS` slots exist.
pub fn add_slot(slots: &mut Vec<AiSlotConfig>, kind: AiSlotKind)
    ensures
        old(slots)@.len() < MAX_AI_SLOTS ==> final(slots)@ == old(slots)@.push(
            AiSlotConfig { kind, llm: false },
        ),
        old(slots)@.len() >= MAX_AI_SLOTS ==> final(slots)@ == old(slots)@,
{
    if slots.len() < MAX_AI_SLOTS {
        slots.push(AiSlotConfig { kind, llm: false });
    }
}

/// Index of the first raider slot, or the number of slots when there is none.
pub open spec fn first_raider(slots: Seq<AiSlotConfig>) -> int
    decreases slots.len(),
{
    if slots.len() == 0 {
        0
    } else if first_raider(slots.drop_last()) < slots.len() - 1 {
        first_raider(slots.drop_last())
    } else if slots.last().kind == AiSlotKind::Raider {
        slots.len() - 1
    } else {
        slots.len() as int
    }
}

/// Slot `i` exists, is of `kind` and allows model control.
pub open spec fn llm_slot(slots: Seq<AiSlotConfig>, i: int, kind: AiSlotKind) -> bool {
    0 <= i < slots.len() && slots[i].llm && slots[i].kind == kind
}

/// Slots after switching to a difficulty preset with `ai_towns` builders and
/// `raider_towns` raiders: builder `i` keeps model control if old slot `i`
/// was a builder with it, and raider `i` if the `i`-th slot from the old
/// first raider on was a raider with it.
pub open spec fn preset_slots(old: Seq<AiSlotConfig>, ai_towns: nat, raider_towns: nat) -> Seq<AiSlotConfig> {
    Seq::new(
        ai_towns + raider_towns,
        |i: int|
            if i < ai_towns {
                AiSlotConfig { kind: AiSlotKind::Builder, llm: llm_slot(old, i, AiSlotKind::Builder) }
            } else {
                AiSlotConfig {
                    kind: AiSlotKind::Raider,
                    llm: llm_slot(old, first_raider(old) + (i - ai_towns), AiSlotKind::Raider),
                }
            },
    )
}

proof fn lemma_first_raider(slots: Seq<AiSlotConfig>)
    ensures
        0 <= first_raider(slots) <= slots.len(),
        first_raider(slots) < slots.len() ==> slots[first_raider(slots)].kind == AiSlotKind::Raider,
        forall|j: int| 0 <= j < first_raider(slots) ==> #[trigger] slots[j].kind != AiSlotKind::Raider,
    decreases slots.len(),
{
    if slots.len() > 0 {
        let rest = slots.drop_last();
        lemma_first_raider(rest);
        assert forall|j: int| 0 <= j < first_raider(slots) implies #[trigger] slots[j].kind
            != AiSlotKind::Raider by {
            if j < rest.len() {
                assert(rest[j] == slots[j]);
            }
        }
        if first_raider(rest) < rest.len() {
            assert(rest[first_raider(rest)] == slots[first_raider(rest)]);
        }
    }
}

/// Index of the first raider slot, or the number of slots.
fn find_first_raider(slots: &Vec<AiSlotConfig>) -> (r: usize)
    ensures
        r == first_raider(slots@),
{
    proof {
        lemma_first_raider(slots@);
    }
    let mut i: usize = 0;
    while i < slots.len()
        invariant
            i <= slots@.len(),
            0 <= first_raider(slots@) <= slots@.len(),
            first_raider(slots@) < slots@.len() ==> slots@[first_raider(slots@)].kind
                == AiSlotKind::Raider,
            forall|j: int| 0 <= j < first_raider(slots@) ==> #[trigger] slots@[j].kind != AiSlotKind::Raider,
            forall|j: int| 0 <= j < i ==> #[trigger] slots@[j].kind != AiSlotKind::Raider,
        decreases slots@.len() - i,
    {
        if slots[i].kind == AiSlotKind::Raider {
            return i;
        }
        i = i + 1;
    }
    i
}

/// Rebuilds the slots for a difficulty preset, keeping model control where
/// a slot of the same kind had it.
pub fn slots_for_preset(old: &Vec<AiSlotConfig>, ai_towns: usize, raider_towns: usize) -> (slots: Vec<
    AiSlotConfig,
>)
    requires
        ai_towns + raider_towns <= usize::MAX,
        old@.len() + raider_towns <= usize::MAX,
    ensures
        slots@ == preset_slots(old@, ai_towns as nat, raider_towns as nat),
{
    let mut slots: Vec<AiSlotConfig> = Vec::new();
    let mut i: usize = 0;
    while i < ai_towns
        invariant
            i <= ai_towns,
            slots@ == preset_slots(old@, ai_towns as nat, raider_towns as nat).take(i as int),
        decreases ai_towns - i,
    {
        let llm = i < old.len() && old[i].llm && old[i].kind == AiSlotKind::Builder;
        slots.push(AiSlotConfig { kind: AiSlotKind::Builder, llm });
        proof {
            assert(slots@ =~= preset_slots(old@, ai_towns as nat, raider_towns as nat).take(i + 1));
        }
        i = i + 1;
    }
    let start = find_first_raider(old);
    proof {
        lemma_first_raider(old@);
    }
    let mut k: usize = 0;
    while k < raider_towns
        invariant
            k <= raider_towns,
            ai_towns + raider_towns <= usize::MAX,
            old@.len() + raider_towns <= usize::MAX,
            start == first_raider(old@),
            start <= old@.len(),
            slots@ == preset_slots(old@, ai_towns as nat, raider_towns as nat).take(ai_towns + k),
        decreases raider_towns - k,
    {
        let j = start + k;
        let llm = j < old.len() && old[j].llm && old[j].kind == AiSlotKind::Raider;
        slots.push(AiSlotConfig { kind: AiSlotKind::Raider, llm });
        proof {
            assert(slots@ =~= preset_slots(old@, ai_towns as nat, raider_towns as nat).take(
                ai_towns + k + 1,
            ));
        }
        k = k + 1;
    }
    proof {
        assert(slots@ =~= preset_slots(old@, ai_towns as nat, raider_towns as nat));
    }
    slots
}

/// Town of AI slot `i` when the world has `player_towns` player towns
/// first, then one town per builder slot, then one per raider slot, each
/// group in slot order.
pub open spec fn town_of_slot(slots: Seq<AiSlotConfig>, i: int, player_towns: int) -> int {
    if slots[i].kind == AiSlotKind::Builder {
        player_towns + count_kind(slots.take(i), AiSlotKind::Builder)
    } else {
        player_towns + count_kind(slots, AiSlotKind::Builder) + count_kind(
            slots.take(i),
            AiSlotKind::Raider,
        )
    }
}

/// Towns of the model-controlled slots among the first `k`, in slot order.
pub open spec fn llm_towns_upto(slots: Seq<AiSlotConfig>, k: int, player_towns: int) -> Seq<int>
    decreases k,
{
    if k <= 0 {
        Seq::empty()
    } else if slots[k - 1].llm {
        llm_towns_upto(slots, k - 1, player_towns).push(town_of_slot(slots, k - 1, player_towns))
    } else {
        llm_towns_upto(slots, k - 1, player_towns)
    }
}

proof fn lemma_count_prefix(slots: Seq<AiSlotConfig>, kind: AiSlotKind, i: int, j: int)
    requires
        0 <= i <= j <= slots.len(),
    ensures
        count_kind(slots.take(i), kind) <= count_kind(slots.take(j), kind),
        i < j && slots[i].kind == kind ==> count_kind(slots.take(i), kind) + 1 <= count_kind(
            slots.take(j),
            kind,
        ),
        count_kind(slots.take(j), kind) - count_kind(slots.take(i), kind) <= j - i,
    decreases j - i,
{
    if i < j {
        lemma_count_prefix(slots, kind, i, j - 1);
        assert(slots.take(j).drop_last() =~= slots.take(j - 1));
        if i == j - 1 {
            assert(slots.take(j).last() == slots[i]);
        }
    }
}

proof fn lemma_count_total(slots: Seq<AiSlotConfig>)
    ensures
        count_kind(slots, AiSlotKind::Builder) + count_kind(slots, AiSlotKind::Raider) == slots.len(),
    decreases slots.len(),
{
    if slots.len() > 0 {
        lemma_count_total(slots.drop_last());
    }
}

/// Every AI slot gets a town of its own: the towns of two different slots
/// differ, and all lie after the player towns, within one town per slot.
pub proof fn lemma_slot_towns_distinct(slots: Seq<AiSlotConfig>, player_towns: int, i: int, j: int)
    requires
        0 <= i < slots.len(),
        0 <= j < slots.len(),
        i != j,
    ensures
        town_of_slot(slots, i, player_towns) != town_of_slot(slots, j, player_towns),
        player_towns <= town_of_slot(slots, i, player_towns) < player_towns + slots.len(),
{
    let n = slots.len() as int;
    assert(slots.take(n) =~= slots);
    lemma_count_total(slots);
    lemma_count_prefix(slots, AiSlotKind::Builder, i, n);
    lemma_count_prefix(slots, AiSlotKind::Raider, i, n);
    lemma_count_prefix(slots, AiSlotKind::Builder, j, n);
    lemma_count_prefix(slots, AiSlotKind::Raider, j, n);
    if i < j {
        lemma_count_prefix(slots, AiSlotKind::Builder, i, j);
        lemma_count_prefix(slots, AiSlotKind::Raider, i, j);
    } else {
        lemma_count_prefix(slots, AiSlotKind::Builder, j, i);
        lemma_count_prefix(slots, AiSlotKind::Raider, j, i);
    }
}

/// Towns that an outside model may control: the town of every slot that
/// allows it, in slot order.
pub fn llm_towns(slots: &Vec<AiSlotConfig>, player_towns: usize) -> (towns: Vec<usize>)
    requires
        player_towns + slots@.len() <= usize::MAX,
    ensures
        towns@.len() == llm_towns_upto(slots@, slots@.len() as int, player_towns as int).len(),
        forall|k: int|
            0 <= k < towns@.len() ==> #[trigger] towns@[k] as int == llm_towns_upto(
                slots@,
                slots@.len() as int,
                player_towns as int,
            )[k],
{
    let (builder_count, _) = slot_counts(slots);
    let mut towns: Vec<usize> = Vec::new();
    let mut builder_idx: usize = 0;
    let mut raider_idx: usize = 0;
    let mut i: usize = 0;
    proof {
        lemma_count_total(slots@);
    }
    while i < slots.len()
        invariant
            i <= slots@.len(),
            player_towns + slots@.len() <= usize::MAX,
            builder_count == count_kind(slots@, AiSlotKind::Builder),
            builder_count <= slots@.len(),
            builder_idx == count_kind(slots@.take(i as int), AiSlotKind::Builder),
            raider_idx == count_kind(slots@.take(i as int), AiSlotKind::Raider),
            towns@.len() == llm_towns_upto(slots@, i as int, player_towns as int).len(),
            forall|k: int|
                0 <= k < towns@.len() ==> #[trigger] towns@[k] as int == llm_towns_upto(
                    slots@,
                    i as int,
                    player_towns as int,
                )[k],
        decreases slots@.len() - i,
    {
        proof {
            assert(slots@.take(i + 1).drop_last() =~= slots@.take(i as int));
            lemma_count_prefix(slots@, AiSlotKind::Builder, i as int, slots@.len() as int);
            lemma_count_prefix(slots@, AiSlotKind::Raider, i as int, slots@.len() as int);
            assert(slots@.take(slots@.len() as int) =~= slots@);
            lemma_count_total(slots@);
        }
        let slot = slots[i];
        match slot.kind {
            AiSlotKind::Builder => {
                if slot.llm {
                    towns.push(player_towns + builder_idx);
                }
                builder_idx = builder_idx + 1;
            },
            AiSlotKind::Raider => {
                if slot.llm {
                    towns.push(player_towns + builder_count + raider_idx);
                }
                raider_idx = raider_idx + 1;
            },
        }
        i = i + 1;
    }
    towns
}

/// Name of a world size (the slider value in world units).
pub open spec fn spec_size_name(size: i32) -> Seq<char> {
    if size == 8000 {
        "Tiny"@
    } else if size == 16000 {
        "Small"@
    } else if size == 24000 {
        "Medium"@
    } else if size == 32000 {
        "Large"@
    } else if size == 40000 {
        "Huge"@
    } else if size == 48000 {
        "Massive"@
    } else if size == 56000 {
        "Epic"@
    } else if size == 64000 {
        "Endless"@
    } else {
        "Custom"@
    }
}

/// Name of a world size, given the slider value cut to an integer.
pub fn size_name(size: i32) -> (s: &'static str)
    ensures
        s@ == spec_size_name(size),
{
    match size {
        8000 => "Tiny",
        16000 => "Small",
        24000 => "Medium",
        32000 => "Large",
        40000 => "Huge",
        48000 => "Massive",
        56000 => "Epic",
        64000 => "Endless",
        _ => "Custom",
    }
}

} // verus!
