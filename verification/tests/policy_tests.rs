use endless_ui::policies::{
    off_duty_from_index, off_duty_index, personality_from_index, personality_index,
    personality_label, road_style_from_index, road_style_index, road_style_label,
    schedule_from_index, schedule_index, AiPersonality, OffDutyBehavior, RoadStyle, WorkSchedule,
};

#[test]
fn personality_drop_down() {
    assert_eq!(personality_from_index(0), AiPersonality::Aggressive);
    assert_eq!(personality_from_index(1), AiPersonality::Balanced);
    assert_eq!(personality_from_index(2), AiPersonality::Economic);
    assert_eq!(personality_from_index(9), AiPersonality::Balanced);
    assert_eq!(personality_label(AiPersonality::Economic), "Economic");
    for p in [AiPersonality::Aggressive, AiPersonality::Balanced, AiPersonality::Economic] {
        assert_eq!(personality_from_index(personality_index(p)), p);
    }
}

#[test]
fn road_style_drop_down() {
    assert_eq!(road_style_from_index(0), RoadStyle::NoRoads);
    assert_eq!(road_style_from_index(1), RoadStyle::Cardinal);
    assert_eq!(road_style_from_index(2), RoadStyle::Grid4);
    assert_eq!(road_style_from_index(3), RoadStyle::Grid5);
    assert_eq!(road_style_from_index(17), RoadStyle::Grid4);
    assert_eq!(road_style_label(RoadStyle::NoRoads), "None");
    assert_eq!(road_style_label(RoadStyle::Grid5), "Grid 5");
    for r in [RoadStyle::NoRoads, RoadStyle::Cardinal, RoadStyle::Grid4, RoadStyle::Grid5] {
        assert_eq!(road_style_from_index(road_style_index(r)), r);
    }
}

#[test]
fn schedule_and_off_duty_drop_downs() {
    assert_eq!(schedule_from_index(0), WorkSchedule::Both);
    assert_eq!(schedule_from_index(1), WorkSchedule::DayOnly);
    assert_eq!(schedule_from_index(2), WorkSchedule::NightOnly);
    assert_eq!(schedule_from_index(5), WorkSchedule::Both);
    assert_eq!(off_duty_from_index(0), OffDutyBehavior::GoToBed);
    assert_eq!(off_duty_from_index(1), OffDutyBehavior::StayAtFountain);
    assert_eq!(off_duty_from_index(2), OffDutyBehavior::WanderTown);
    assert_eq!(off_duty_from_index(3), OffDutyBehavior::GoToBed);
    for s in [WorkSchedule::Both, WorkSchedule::DayOnly, WorkSchedule::NightOnly] {
        assert_eq!(schedule_from_index(schedule_index(s)), s);
    }
    for b in [OffDutyBehavior::GoToBed, OffDutyBehavior::StayAtFountain, OffDutyBehavior::WanderTown] {
        assert_eq!(off_duty_from_index(off_duty_index(b)), b);
    }
}
