use endless_ui::main_menu::{
    add_slot, has_raiders, llm_towns, saved_kind_code, slot_counts, slot_from_saved,
    slots_for_preset, AiSlotConfig, AiSlotKind, MAX_AI_SLOTS,
};

fn slot(kind: AiSlotKind, llm: bool) -> AiSlotConfig {
    AiSlotConfig { kind, llm }
}

const B: AiSlotKind = AiSlotKind::Builder;
const R: AiSlotKind = AiSlotKind::Raider;

#[test]
fn saved_slots_round_trip() {
    assert_eq!(saved_kind_code(B), 0);
    assert_eq!(saved_kind_code(R), 1);
    assert_eq!(slot_from_saved(1, true), slot(R, true));
    assert_eq!(slot_from_saved(0, false), slot(B, false));
    assert_eq!(slot_from_saved(7, false), slot(B, false));
    for s in [slot(B, true), slot(B, false), slot(R, true), slot(R, false)] {
        assert_eq!(slot_from_saved(saved_kind_code(s.kind), s.llm), s);
    }
}

#[test]
fn slot_counts_and_raider_flag() {
    let slots = vec![slot(B, false), slot(R, true), slot(B, true)];
    assert_eq!(slot_counts(&slots), (2, 1));
    assert!(has_raiders(&slots));
    assert!(!has_raiders(&vec![slot(B, true)]));
    assert_eq!(slot_counts(&vec![]), (0, 0));
}

#[test]
fn adding_slots_stops_at_the_cap() {
    let mut slots = Vec::new();
    add_slot(&mut slots, R);
    assert_eq!(slots, vec![slot(R, false)]);
    for _ in 0..30 {
        add_slot(&mut slots, B);
    }
    assert_eq!(slots.len(), MAX_AI_SLOTS);
    assert_eq!(slots[0], slot(R, false));
}

#[test]
fn preset_keeps_model_control_per_kind() {
    let old = vec![slot(B, true), slot(B, false), slot(R, false), slot(R, true)];
    // 3 builders, 3 raiders: builder i looks at old slot i, raider i at old
    // slot (first raider + i).
    let new = slots_for_preset(&old, 3, 3);
    assert_eq!(
        new,
        vec![
            slot(B, true),
            slot(B, false),
            slot(B, false),
            slot(R, false),
            slot(R, true),
            slot(R, false),
        ]
    );
    // Old slot 0 was a raider with control: the new builder 0 does not keep it.
    let old = vec![slot(R, true)];
    assert_eq!(slots_for_preset(&old, 1, 1), vec![slot(B, false), slot(R, true)]);
    assert_eq!(slots_for_preset(&old, 0, 0), vec![]);
}

#[test]
fn llm_towns_follow_player_then_builders_then_raiders() {
    // Towns: player 0; builders 1, 2; raiders 3, 4.
    let slots = vec![slot(R, true), slot(B, false), slot(R, false), slot(B, true)];
    assert_eq!(llm_towns(&slots, 1), vec![3, 2]);
    let slots = vec![slot(B, true), slot(R, true), slot(B, true)];
    assert_eq!(llm_towns(&slots, 1), vec![1, 3, 2]);
    assert_eq!(llm_towns(&vec![slot(B, false)], 1), Vec::<usize>::new());
}
