//! The squads tab: selecting a squad, recruiting soldiers from the default
//! squad into it, and dismissing them. Soldiers are named by their unit ids.

use vstd::prelude::*;

verus! {

/// Group sizes offered by the recruit buttons, smallest first.
pub open spec fn recruit_steps() -> Seq<usize> {
    seq![1usize, 2, 4, 8, 16, 32]
}

/// Selection after a click on squad `i`: clicking the selected squad again
/// clears the selection (-1).
pub fn click_squad(selected: i32, i: usize) -> (r: i32)
    requires
        i <= i32::MAX,
    ensures
        r as int == (if selected as int == i as int {
            -1
        } else {
            i as int
        }),
{
    let idx = i as i32;
    if selected == idx {
        -1
    } else {
        idx
    }
}

/// The squad whose details are shown: the selection, when it names one of
/// the `squad_count` squads.
pub fn selected_squad(selected: i32, squad_count: usize) -> (r: Option<usize>)
    ensures
        r == (if 0 <= selected && (selected as int) < squad_count as int {
            Some(selected as usize)
        } else {
            None::<usize>
        }),
{
    if selected < 0 {
        None
    } else if (selected as usize) < squad_count {
        Some(selected as usize)
    } else {
        None
    }
}

/// Recruit buttons shown for a job with `available` soldiers in the default
/// squad: every group size up to that number.
pub fn recruit_amounts(available: usize) -> (amounts: Vec<usize>)
    ensures
        amounts@ == recruit_steps().filter(|a: usize| a <= available),
{
    let steps: Vec<usize> = vec![1, 2, 4, 8, 16, 32];
    let mut amounts: Vec<usize> = Vec::new();
    let mut i: usize = 0;
    proof {
        assert(steps@ == recruit_steps());
    }
    while i < steps.len()
        invariant
            steps@ == recruit_steps(),
            i <= steps@.len(),
            amounts@ == recruit_steps().take(i as int).filter(|a: usize| a <= available),
        decreases steps@.len() - i,
    {
        proof {
            reveal_with_fuel(Seq::filter, 2);
            assert(recruit_steps().take(i + 1).drop_last() =~= recruit_steps().take(i as int));
        }
        let a = steps[i];
        if a <= available {
            amounts.push(a);
        }
        i = i + 1;
    }
    proof {
        assert(recruit_steps().take(6) =~= recruit_steps());
    }
    amounts
}

/// `s` without the ids listed in `removed`, order kept.
pub open spec fn without(s: Seq<u64>, removed: Seq<u64>) -> Seq<u64>
    decreases s.len(),
{
    if s.len() == 0 {
        s
    } else if removed.contains(s.last()) {
        without(s.drop_last(), removed)
    } else {
        without(s.drop_last(), removed).push(s.last())
    }
}

/// `s` with each id of `added` appended in turn unless already present.
pub open spec fn add_missing(s: Seq<u64>, added: Seq<u64>) -> Seq<u64>
    decreases added.len(),
{
    if added.len() == 0 {
        s
    } else {
        let t = add_missing(s, added.drop_last());
        if t.contains(added.last()) {
            t
        } else {
            t.push(added.last())
        }
    }
}

/// The soldiers a recruit click moves: the first `amount` available ones.
pub open spec fn recruits_of(available: Seq<u64>, amount: usize) -> Seq<u64> {
    if amount < available.len() {
        available.take(amount as int)
    } else {
        available
    }
}

proof fn lemma_without_contains(s: Seq<u64>, removed: Seq<u64>, x: u64)
    ensures
        without(s, removed).contains(x) == (s.contains(x) && !removed.contains(x)),
    decreases s.len(),
{
    if s.len() > 0 {
        lemma_without_contains(s.drop_last(), removed, x);
        if s.contains(x) && s.last() != x {
            let i = choose|i: int| 0 <= i < s.len() && s[i] == x;
            assert(s.drop_last()[i] == x);
        }
        if s.drop_last().contains(x) {
            let i = choose|i: int| 0 <= i < s.drop_last().len() && s.drop_last()[i] == x;
            assert(s[i] == x);
        }
        if s.last() == x {
            assert(s[s.len() - 1] == x);
        }
        let w = without(s.drop_last(), removed);
        if !removed.contains(s.last()) {
            assert(w.push(s.last())[w.len() as int] == s.last());
            if w.contains(x) {
                let i = choose|i: int| 0 <= i < w.len() && w[i] == x;
                assert(w.push(s.last())[i] == x);
            }
            if w.push(s.last()).contains(x) && s.last() != x {
                let i = choose|i: int| 0 <= i < w.push(s.last()).len() && w.push(s.last())[i] == x;
                assert(w[i] == x);
            }
        }
    }
}

proof fn lemma_add_missing_contains(s: Seq<u64>, added: Seq<u64>, x: u64)
    ensures
        add_missing(s, added).contains(x) == (s.contains(x) || added.contains(x)),
    decreases added.len(),
{
    if added.len() > 0 {
        let rest = added.drop_last();
        lemma_add_missing_contains(s, rest, x);
        let t = add_missing(s, rest);
        if added.contains(x) && added.last() != x {
            let i = choose|i: int| 0 <= i < added.len() && added[i] == x;
            assert(rest[i] == x);
        }
        if rest.contains(x) {
            let i = choose|i: int| 0 <= i < rest.len() && rest[i] == x;
            assert(added[i] == x);
        }
        if added.last() == x {
            assert(added[added.len() - 1] == x);
        }
        if !t.contains(added.last()) {
            assert(t.push(added.last())[t.len() as int] == added.last());
            if t.contains(x) {
                let i = choose|i: int| 0 <= i < t.len() && t[i] == x;
                assert(t.push(added.last())[i] == x);
            }
            if t.push(added.last()).contains(x) && added.last() != x {
                let i = choose|i: int| 0 <= i < t.push(added.last()).len() && t.push(added.last())[i]
                    == x;
                assert(t[i] == x);
            }
        }
    }
}

/// Whether `v` holds the id `x`.
fn holds(v: &Vec<u64>, x: u64) -> (b: bool)
    ensures
        b == v@.contains(x),
{
    let mut i: usize = 0;
    while i < v.len()
        invariant
            i <= v@.len(),
            forall|k: int| 0 <= k < i ==> v@[k] != x,
        decreases v@.len() - i,
    {
        if v[i] == x {
            proof {
                assert(v@[i as int] == x);
            }
            return true;
        }
        i = i + 1;
    }
    false
}

/// A click on a "+amount" button of the selected squad: the first `amount`
/// soldiers of `available` (the default squad's soldiers of that job) leave
/// the default squad and join the selected one unless already in it; the
/// squad's target size grows to at least its new size.
pub fn recruit(
    default_members: &mut Vec<u64>,
    members: &mut Vec<u64>,
    target_size: &mut usize,
    available: &Vec<u64>,
    amount: usize,
)
    requires
        old(members)@.len() + available@.len() <= usize::MAX,
    ensures
        final(default_members)@ == without(old(default_members)@, recruits_of(available@, amount)),
        final(members)@ == add_missing(old(members)@, recruits_of(available@, amount)),
        *final(target_size) == (if *old(target_size) >= final(members)@.len() {
            *old(target_size) as int
        } else {
            final(members)@.len() as int
        }),
{
    let n = if amount < available.len() {
        amount
    } else {
        available.len()
    };
    let mut recruits: Vec<u64> = Vec::new();
    let mut i: usize = 0;
    while i < n
        invariant
            n <= available@.len(),
            i <= n,
            recruits@ == available@.take(i as int),
        decreases n - i,
    {
        recruits.push(available[i]);
        proof {
            assert(recruits@ =~= available@.take(i + 1));
        }
        i = i + 1;
    }
    proof {
        if n == available@.len() {
            assert(available@.take(n as int) =~= available@);
        }
        assert(recruits@ == recruits_of(available@, amount));
    }
    let mut kept: Vec<u64> = Vec::new();
    let mut j: usize = 0;
    while j < default_members.len()
        invariant
            j <= default_members@.len(),
            kept@ == without(default_members@.take(j as int), recruits@),
        decreases default_members@.len() - j,
    {
        proof {
            assert(default_members@.take(j + 1).drop_last() =~= default_members@.take(j as int));
        }
        let uid = default_members[j];
        if !holds(&recruits, uid) {
            kept.push(uid);
        }
        j = j + 1;
    }
    proof {
        assert(default_members@.take(j as int) =~= default_members@);
    }
    *default_members = kept;
    let ghost start = members@;
    let mut k: usize = 0;
    while k < recruits.len()
        invariant
            k <= recruits@.len(),
            recruits@.len() <= available@.len(),
            start.len() + available@.len() <= usize::MAX,
            members@ == add_missing(start, recruits@.take(k as int)),
            members@.len() <= start.len() + k,
        decreases recruits@.len() - k,
    {
        proof {
            assert(recruits@.take(k + 1).drop_last() =~= recruits@.take(k as int));
        }
        let uid = recruits[k];
        if !holds(members, uid) {
            members.push(uid);
        }
        k = k + 1;
    }
    proof {
        assert(recruits@.take(k as int) =~= recruits@);
    }
    if *target_size < members.len() {
        *target_size = members.len();
    }
}

/// "Dismiss All": the squad is emptied and its target size cleared.
pub fn dismiss_all(members: &mut Vec<u64>, target_size: &mut usize)
    ensures
        final(members)@ == Seq::<u64>::empty(),
        *final(target_size) == 0,
{
    members.clear();
    *target_size = 0;
}

/// A member of a squad as the map sees it: its NPC slot (if the unit is on
/// the map), whether it is alive, and whether it is under direct control.
#[derive(Clone, Copy, Debug, PartialEq, Eq, Structural)]
pub struct MemberInfo {
    pub slot: Option<usize>,
    pub alive: bool,
    pub direct_control: bool,
}

/// Slots of the living direct-control members among the first `k`.
pub open spec fn dc_member_slots(members: Seq<MemberInfo>, k: int) -> Seq<usize>
    decreases k,
{
    if k <= 0 {
        Seq::empty()
    } else {
        let m = members[k - 1];
        let rest = dc_member_slots(members, k - 1);
        match m.slot {
            Some(s) => if m.alive && m.direct_control {
                rest.push(s)
            } else {
                rest
            },
            None => rest,
        }
    }
}

/// Units under direct control: the living direct-control members of the
/// selected squad, when the selection names a squad of the player
/// (`player_squads` says, per squad, whether the player owns it; `members`
/// are the selected squad's members).
pub fn dc_slots(selected: i32, player_squads: &Vec<bool>, members: &Vec<MemberInfo>) -> (slots: Vec<usize>)
    ensures
        (selected < 0 || selected as int >= player_squads@.len() || !player_squads@[selected as int])
            ==> slots@ == Seq::<usize>::empty(),
        (0 <= selected < player_squads@.len() && player_squads@[selected as int]) ==> slots@
            == dc_member_slots(members@, members@.len() as int),
{
    let mut slots: Vec<usize> = Vec::new();
    if selected < 0 {
        return slots;
    }
    let si = selected as usize;
    if si >= player_squads.len() || !player_squads[si] {
        return slots;
    }
    let mut i: usize = 0;
    while i < members.len()
        invariant
            i <= members@.len(),
            slots@ == dc_member_slots(members@, i as int),
        decreases members@.len() - i,
    {
        let m = members[i];
        if let Some(s) = m.slot {
            if m.alive && m.direct_control {
                slots.push(s);
            }
        }
        i = i + 1;
    }
    slots
}

/// Recruiting only moves soldiers: when the recruits come from the default
/// squad and no soldier is in both squads, every soldier is afterwards in
/// exactly one of the two squads, and in one of them exactly when he was
/// before.
pub proof fn lemma_recruit_moves_soldiers(
    default_members: Seq<u64>,
    members: Seq<u64>,
    available: Seq<u64>,
    amount: usize,
    x: u64,
)
    requires
        forall|i: int| 0 <= i < available.len() ==> default_members.contains(#[trigger] available[i]),
        forall|i: int| 0 <= i < members.len() ==> !default_members.contains(#[trigger] members[i]),
    ensures
        ({
            let r = recruits_of(available, amount);
            let d = without(default_members, r);
            let m = add_missing(members, r);
            &&& (d.contains(x) || m.contains(x)) == (default_members.contains(x) || members.contains(x))
            &&& !(d.contains(x) && m.contains(x))
        }),
{
    let r = recruits_of(available, amount);
    lemma_without_contains(default_members, r, x);
    lemma_add_missing_contains(members, r, x);
    if r.contains(x) {
        let i = choose|i: int| 0 <= i < r.len() && r[i] == x;
        assert(available[i] == x);
        assert(default_members.contains(available[i]));
    }
    if members.contains(x) {
        let i = choose|i: int| 0 <= i < members.len() && members[i] == x;
        assert(!default_members.contains(members[i]));
    }
}

} // verus!
