//! Town policy choices of the policies tab: the drop-down position of each
//! choice and the choice a position selects.

use vstd::prelude::*;

verus! {

/// Strategy of the AI manager of a town.
#[derive(Clone, Copy, Debug, PartialEq, Eq, Structural)]
pub enum AiPersonality {
    Aggressive,
    Balanced,
    Economic,
}

/// Road layout the AI manager builds (`NoRoads`: it builds none).
#[derive(Clone, Copy, Debug, PartialEq, Eq, Structural)]
pub enum RoadStyle {
    NoRoads,
    Cardinal,
    Grid4,
    Grid5,
}

/// When a job works.
#[derive(Clone, Copy, Debug, PartialEq, Eq, Structural)]
pub enum WorkSchedule {
    Both,
    DayOnly,
    NightOnly,
}

/// What a job does off duty.
#[derive(Clone, Copy, Debug, PartialEq, Eq, Structural)]
pub enum OffDutyBehavior {
    GoToBed,
    StayAtFountain,
    WanderTown,
}

/// Drop-down position of a personality (Aggressive, Balanced, Economic).
pub open spec fn spec_personality_index(p: AiPersonality) -> usize {
    match p {
        AiPersonality::Aggressive => 0,
        AiPersonality::Balanced => 1,
        AiPersonality::Economic => 2,
    }
}

/// Drop-down position of the town's personality.
pub fn personality_index(p: AiPersonality) -> (i: usize)
    ensures
        i == spec_personality_index(p),
{
    match p {
        AiPersonality::Aggressive => 0,
        AiPersonality::Balanced => 1,
        AiPersonality::Economic => 2,
    }
}

/// Personality picked at a drop-down position: 0 Aggressive, 2 Economic,
/// any other Balanced.
pub open spec fn spec_personality_from_index(i: usize) -> AiPersonality {
    if i == 0 {
        AiPersonality::Aggressive
    } else if i == 2 {
        AiPersonality::Economic
    } else {
        AiPersonality::Balanced
    }
}

/// Personality picked at a drop-down position.
pub fn personality_from_index(i: usize) -> (p: AiPersonality)
    ensures
        p == spec_personality_from_index(i),
{
    match i {
        0 => AiPersonality::Aggressive,
        2 => AiPersonality::Economic,
        _ => AiPersonality::Balanced,
    }
}

/// Drop-down label of a personality.
pub fn personality_label(p: AiPersonality) -> (s: &'static str)
    ensures
        p == AiPersonality::Aggressive ==> s@ == "Aggressive"@,
        p == AiPersonality::Balanced ==> s@ == "Balanced"@,
        p == AiPersonality::Economic ==> s@ == "Economic"@,
{
    match p {
        AiPersonality::Aggressive => "Aggressive",
        AiPersonality::Balanced => "Balanced",
        AiPersonality::Economic => "Economic",
    }
}

/// Drop-down position of a road style (None, Cardinal, Grid 4, Grid 5).
pub open spec fn spec_road_style_index(r: RoadStyle) -> usize {
    match r {
        RoadStyle::NoRoads => 0,
        RoadStyle::Cardinal => 1,
        RoadStyle::Grid4 => 2,
        RoadStyle::Grid5 => 3,
    }
}

/// Drop-down position of the town's road style.
pub fn road_style_index(r: RoadStyle) -> (i: usize)
    ensures
        i == spec_road_style_index(r),
{
    match r {
        RoadStyle::NoRoads => 0,
        RoadStyle::Cardinal => 1,
        RoadStyle::Grid4 => 2,
        RoadStyle::Grid5 => 3,
    }
}

/// Road style picked at a drop-down position: 0 None, 1 Cardinal, 3 Grid 5,
/// any other Grid 4.
pub open spec fn spec_road_style_from_index(i: usize) -> RoadStyle {
    if i == 0 {
        RoadStyle::NoRoads
    } else if i == 1 {
        RoadStyle::Cardinal
    } else if i == 3 {
        RoadStyle::Grid5
    } else {
        RoadStyle::Grid4
    }
}

/// Road style picked at a drop-down position.
pub fn road_style_from_index(i: usize) -> (r: RoadStyle)
    ensures
        r == spec_road_style_from_index(i),
{
    match i {
        0 => RoadStyle::NoRoads,
        1 => RoadStyle::Cardinal,
        3 => RoadStyle::Grid5,
        _ => RoadStyle::Grid4,
    }
}

/// Drop-down label of a road style.
pub fn road_style_label(r: RoadStyle) -> (s: &'static str)
    ensures
        r == RoadStyle::NoRoads ==> s@ == "None"@,
        r == RoadStyle::Cardinal ==> s@ == "Cardinal"@,
        r == RoadStyle::Grid4 ==> s@ == "Grid 4"@,
        r == RoadStyle::Grid5 ==> s@ == "Grid 5"@,
{
    match r {
        RoadStyle::NoRoads => "None",
        RoadStyle::Cardinal => "Cardinal",
        RoadStyle::Grid4 => "Grid 4",
        RoadStyle::Grid5 => "Grid 5",
    }
}

/// Drop-down position of a work schedule (Both, Day only, Night only).
pub open spec fn spec_schedule_index(s: WorkSchedule) -> usize {
    match s {
        WorkSchedule::Both => 0,
        WorkSchedule::DayOnly => 1,
        WorkSchedule::NightOnly => 2,
    }
}

/// Drop-down position of a job's schedule.
pub fn schedule_index(s: WorkSchedule) -> (i: usize)
    ensures
        i == spec_schedule_index(s),
{
    match s {
        WorkSchedule::Both => 0,
        WorkSchedule::DayOnly => 1,
        WorkSchedule::NightOnly => 2,
    }
}

/// Schedule picked at a drop-down position: 1 day only, 2 night only, any
/// other both.
pub open spec fn spec_schedule_from_index(i: usize) -> WorkSchedule {
    if i == 1 {
        WorkSchedule::DayOnly
    } else if i == 2 {
        WorkSchedule::NightOnly
    } else {
        WorkSchedule::Both
    }
}

/// Schedule picked at a drop-down position.
pub fn schedule_from_index(i: usize) -> (s: WorkSchedule)
    ensures
        s == spec_schedule_from_index(i),
{
    match i {
        1 => WorkSchedule::DayOnly,
        2 => WorkSchedule::NightOnly,
        _ => WorkSchedule::Both,
    }
}

/// Drop-down position of an off-duty behaviour (bed, fountain, wander).
pub open spec fn spec_off_duty_index(b: OffDutyBehavior) -> usize {
    match b {
        OffDutyBehavior::GoToBed => 0,
        OffDutyBehavior::StayAtFountain => 1,
        OffDutyBehavior::WanderTown => 2,
    }
}

/// Drop-down position of a job's off-duty behaviour.
pub fn off_duty_index(b: OffDutyBehavior) -> (i: usize)
    ensures
        i == spec_off_duty_index(b),
{
    match b {
        OffDutyBehavior::GoToBed => 0,
        OffDutyBehavior::StayAtFountain => 1,
        OffDutyBehavior::WanderTown => 2,
    }
}

/// Off-duty behaviour picked at a drop-down position: 1 stay at the
/// fountain, 2 wander the town, any other go to bed.
pub open spec fn spec_off_duty_from_index(i: usize) -> OffDutyBehavior {
    if i == 1 {
        OffDutyBehavior::StayAtFountain
    } else if i == 2 {
        OffDutyBehavior::WanderTown
    } else {
        OffDutyBehavior::GoToBed
    }
}

/// Off-duty behaviour picked at a drop-down position.
pub fn off_duty_from_index(i: usize) -> (b: OffDutyBehavior)
    ensures
        b == spec_off_duty_from_index(i),
{
    match i {
        1 => OffDutyBehavior::StayAtFountain,
        2 => OffDutyBehavior::WanderTown,
        _ => OffDutyBehavior::GoToBed,
    }
}

/// Showing a policy in its drop-down and reading the drop-down back leaves
/// the policy as it was, for every choice of each drop-down.
pub proof fn lemma_policy_choices_round_trip(
    p: AiPersonality,
    r: RoadStyle,
    s: WorkSchedule,
    b: OffDutyBehavior,
)
    ensures
        spec_personality_from_index(spec_personality_index(p)) == p,
        spec_road_style_from_index(spec_road_style_index(r)) == r,
        spec_schedule_from_index(spec_schedule_index(s)) == s,
        spec_off_duty_from_index(spec_off_duty_index(b)) == b,
{
}

} // verus!
