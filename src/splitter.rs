//! The rules that turn a tick's snapshot into timer commands.
use crate::binary64::{
    equals_whole, exact_integer, float_eq, float_equal, lemma_int_value_unique, rem_ten_at_least,
    rem_ten_at_most, rem_ten_compare, truncate, truncate_to_u64, value_is_int,
};
use crate::game::{bytes_equal, has_boss_name, names_boss, Variables};
use crate::settings::SplitterSettings;
use std::collections::HashSet;
use vstd::prelude::*;

verus! {

broadcast use vstd::std_specs::hash::group_hash_axioms;

pub const MAP_ID_TITLE_SCREEN: i32 = 1;

/// The cliff scene that only a new game leads to.
pub const MAP_ID_INTRO_SCENE: i32 = 43;

pub const MAP_ID_SACRED_TEMPLE: i32 = 236;

/// The map from which the sacred temple is re-entered on the way out.
pub const MAP_ID_SACRED_TEMPLE_EXIT_MAP: i32 = 245;

/// The state of the host's timer.
#[derive(Clone, Copy, PartialEq, Eq, Debug)]
pub enum TimerState {
    NotRunning,
    Running,
    Paused,
    Ended,
}

/// What to do with game time this tick.
#[derive(Clone, Copy, PartialEq, Eq, Debug)]
pub enum GameTimeRequest {
    Pause,
    Resume,
}

/// A command for the host's timer.
#[derive(Clone, Copy, PartialEq, Eq, Debug)]
pub enum TimerCommand {
    Start,
    Split,
}

/// The split rules, in the order in which they are tried.
#[derive(Clone, Copy, PartialEq, Eq, Debug)]
pub enum SplitRule {
    NewMap,
    GameCompleted,
    BossEnd,
    BossStart,
    Achievement,
    ProgramChip,
    Chapter,
    TenPercent,
    HundredPercent,
    SacredTemple,
    AnyMap,
}

/// The rule that fired on a tick, and whether it asks for a split (a rule
/// can fire and still hold the split back).
#[derive(Clone, Copy, PartialEq, Eq, Debug)]
pub struct SplitDecision {
    pub rule: SplitRule,
    pub split: bool,
}

impl SplitRule {
    /// The place of the rule in the order, from 1.
    pub open spec fn rank(self) -> nat {
        match self {
            SplitRule::NewMap => 1,
            SplitRule::GameCompleted => 2,
            SplitRule::BossEnd => 3,
            SplitRule::BossStart => 4,
            SplitRule::Achievement => 5,
            SplitRule::ProgramChip => 6,
            SplitRule::Chapter => 7,
            SplitRule::TenPercent => 8,
            SplitRule::HundredPercent => 9,
            SplitRule::SacredTemple => 10,
            SplitRule::AnyMap => 11,
        }
    }
}

/// The rule at a place in the order (places run from 1 to 11).
pub open spec fn rule_at(i: nat) -> SplitRule {
    if i <= 1 {
        SplitRule::NewMap
    } else if i == 2 {
        SplitRule::GameCompleted
    } else if i == 3 {
        SplitRule::BossEnd
    } else if i == 4 {
        SplitRule::BossStart
    } else if i == 5 {
        SplitRule::Achievement
    } else if i == 6 {
        SplitRule::ProgramChip
    } else if i == 7 {
        SplitRule::Chapter
    } else if i == 8 {
        SplitRule::TenPercent
    } else if i == 9 {
        SplitRule::HundredPercent
    } else if i == 10 {
        SplitRule::SacredTemple
    } else {
        SplitRule::AnyMap
    }
}

/// The values of the progress counter at which a chapter begins.
pub open spec fn chapter_breakpoint(n: int) -> bool {
    n == 0 || n == 160 || n == 530 || n == 630 || n == 930 || n == 1160 || n == 1540 || n == 1770
        || n == 2010 || n == 2170 || n == 2570 || n == 2600 || n == 2680 || n == 3090 || n == 3400
        || n == 3880 || n == 3940 || n == 4210 || n == 4530 || n == 5050 || n == 5510
}

/// The number is exactly one of the chapter breakpoints.
pub open spec fn at_chapter_breakpoint(b: u64) -> bool {
    exists|n: int| chapter_breakpoint(n) && #[trigger] value_is_int(b, n)
}

pub open spec fn map_changed(v: Variables) -> bool {
    v.map_id.old != v.map_id.current
}

/// The player pressed New Game: the title screen gave way to the intro
/// scene with the progress counter at zero.
pub open spec fn new_game_started(v: Variables) -> bool {
    v.map_id.old == MAP_ID_TITLE_SCREEN && v.map_id.current == MAP_ID_INTRO_SCENE && value_is_int(
        v.game_progress.current,
        0,
    )
}

pub open spec fn reset_wanted(v: Variables, st: SplitterSettings) -> bool {
    (st.reset_on_titlescreen && v.map_id.old != MAP_ID_TITLE_SCREEN && v.map_id.current
        == MAP_ID_TITLE_SCREEN) || new_game_started(v)
}

pub open spec fn game_time_request(v: Variables, st: SplitterSettings) -> GameTimeRequest {
    if (st.remove_pause_time && value_is_int(v.is_paused.current, 1)) || (st.remove_cutscene_time
        && value_is_int(v.in_cutscene.current, 1)) || (st.remove_gameover && value_is_int(
        v.in_game_over.current,
        1,
    )) {
        GameTimeRequest::Pause
    } else {
        GameTimeRequest::Resume
    }
}

pub open spec fn start_wanted(v: Variables, st: SplitterSettings) -> bool {
    ||| new_game_started(v)
    ||| st.start_on_continue && v.map_id.old == MAP_ID_TITLE_SCREEN && v.map_id.current
        != MAP_ID_TITLE_SCREEN
    ||| st.start_on_map_change && v.map_id.old != MAP_ID_TITLE_SCREEN && v.map_id.current
        != MAP_ID_TITLE_SCREEN && map_changed(v)
}

/// The rule is enabled and its event happened on this tick; `seen` is the
/// set of maps visited in this run.
pub open spec fn rule_holds(rule: SplitRule, v: Variables, st: SplitterSettings, seen: Set<i32>) -> bool {
    match rule {
        SplitRule::NewMap => st.split_on_every_new_map_change && map_changed(v) && !seen.contains(
            v.map_id.current,
        ),
        SplitRule::GameCompleted => st.split_on_game_completed && !value_is_int(
            v.game_completed.old,
            1,
        ) && value_is_int(v.game_completed.current, 1),
        SplitRule::BossEnd => st.split_on_every_boss && v.current_boss is Some && names_boss(
            v.current_boss->0.old@,
        ) && !names_boss(v.current_boss->0.current@),
        SplitRule::BossStart => st.split_on_every_boss_start && v.current_boss is Some
            && !names_boss(v.current_boss->0.old@) && names_boss(v.current_boss->0.current@),
        SplitRule::Achievement => st.split_on_achievement && (v.token_recognitions.current@
            != v.token_recognitions.old@ || v.token_recognitions_two.current@
            != v.token_recognitions_two.old@),
        SplitRule::ProgramChip => st.split_on_every_program_chip && !float_eq(
            v.program_chips.current,
            v.program_chips.old,
        ),
        SplitRule::Chapter => st.split_on_every_chapter && !float_eq(
            v.game_progress.current,
            v.game_progress.old,
        ) && at_chapter_breakpoint(v.game_progress.current),
        SplitRule::TenPercent => st.split_every_ten_percent && rem_ten_at_least(
            v.game_percent.old,
            9,
        ) && rem_ten_at_most(v.game_percent.current, 1),
        SplitRule::HundredPercent => st.split_at_100_percent && truncate_to_u64(v.game_percent.old)
            < 100 && truncate_to_u64(v.game_percent.current) >= 100,
        SplitRule::SacredTemple => st.split_on_sacred_temple && v.map_id.old
            != MAP_ID_SACRED_TEMPLE_EXIT_MAP && v.map_id.old != MAP_ID_SACRED_TEMPLE
            && v.map_id.current == MAP_ID_SACRED_TEMPLE,
        SplitRule::AnyMap => st.split_on_every_map_change && map_changed(v),
    }
}

/// Whether a rule that fired asks for a split: a new map does unless the
/// title screen is involved, a boss event does outside the boss gallery or
/// when the gallery counts, every other rule does.
pub open spec fn rule_splits(rule: SplitRule, v: Variables, st: SplitterSettings) -> bool {
    match rule {
        SplitRule::NewMap => v.map_id.old != MAP_ID_TITLE_SCREEN && v.map_id.current
            != MAP_ID_TITLE_SCREEN && map_changed(v),
        SplitRule::BossEnd | SplitRule::BossStart => st.split_on_boss_gallery || value_is_int(
            v.boss_gallery.current,
            0,
        ),
        _ => true,
    }
}

/// The first rule that holds, trying the places from `i` on.
pub open spec fn first_rule_from(i: nat, v: Variables, st: SplitterSettings, seen: Set<i32>) -> Option<
    SplitRule,
>
    decreases 12 - i,
{
    if i > 11 {
        None
    } else if rule_holds(rule_at(i), v, st, seen) {
        Some(rule_at(i))
    } else {
        first_rule_from(i + 1, v, st, seen)
    }
}

/// The rule that fires on a tick while the timer runs.
pub open spec fn fired_rule(v: Variables, st: SplitterSettings, seen: Set<i32>) -> Option<SplitRule> {
    first_rule_from(1, v, st, seen)
}

proof fn lemma_rank_of_rule_at(i: nat)
    requires
        1 <= i <= 11,
    ensures
        rule_at(i).rank() == i,
{
}

proof fn lemma_rule_at_rank(r: SplitRule)
    ensures
        rule_at(r.rank()) == r,
        1 <= r.rank() <= 11,
{
}

proof fn lemma_first_rule_from(i: nat, v: Variables, st: SplitterSettings, seen: Set<i32>)
    requires
        1 <= i <= 12,
    ensures
        match first_rule_from(i, v, st, seen) {
            Some(r) => rule_holds(r, v, st, seen) && i <= r.rank() <= 11 && forall|j: nat|
                i <= j < r.rank() ==> !#[trigger] rule_holds(rule_at(j), v, st, seen),
            None => forall|j: nat| i <= j <= 11 ==> !#[trigger] rule_holds(rule_at(j), v, st, seen),
        },
    decreases 12 - i,
{
    if i <= 11 {
        lemma_rank_of_rule_at(i);
        lemma_first_rule_from(i + 1, v, st, seen);
    }
}

/// The rule that fires is the first in the order that holds, and when none
/// fires, none holds.
pub proof fn lemma_fired_rule_is_first(v: Variables, st: SplitterSettings, seen: Set<i32>)
    ensures
        match fired_rule(v, st, seen) {
            Some(r) => rule_holds(r, v, st, seen) && forall|q: SplitRule|
                q.rank() < r.rank() ==> !#[trigger] rule_holds(q, v, st, seen),
            None => forall|q: SplitRule| !#[trigger] rule_holds(q, v, st, seen),
        },
{
    lemma_first_rule_from(1, v, st, seen);
    match fired_rule(v, st, seen) {
        Some(r) => {
            assert forall|q: SplitRule| q.rank() < r.rank() implies !#[trigger] rule_holds(
                q,
                v,
                st,
                seen,
            ) by {
                lemma_rule_at_rank(q);
                assert(!rule_holds(rule_at(q.rank()), v, st, seen));
            }
        },
        None => {
            assert forall|q: SplitRule| !#[trigger] rule_holds(q, v, st, seen) by {
                lemma_rule_at_rank(q);
                assert(!rule_holds(rule_at(q.rank()), v, st, seen));
            }
        },
    }
}

/// Of two rules that hold on the same tick, the later one in the order never
/// fires; the earlier one fires unless a rule earlier still holds too.
pub proof fn lemma_earlier_rule_wins(
    v: Variables,
    st: SplitterSettings,
    seen: Set<i32>,
    a: SplitRule,
    b: SplitRule,
)
    requires
        a.rank() < b.rank(),
        rule_holds(a, v, st, seen),
        rule_holds(b, v, st, seen),
    ensures
        fired_rule(v, st, seen) is Some,
        fired_rule(v, st, seen)->0.rank() <= a.rank(),
        fired_rule(v, st, seen) != Some(b),
        (forall|q: SplitRule| q.rank() < a.rank() ==> !#[trigger] rule_holds(q, v, st, seen))
            ==> fired_rule(v, st, seen) == Some(a),
{
    lemma_fired_rule_is_first(v, st, seen);
    lemma_rule_at_rank(a);
    lemma_rule_at_rank(b);
    if let Some(r) = fired_rule(v, st, seen) {
        lemma_rule_at_rank(r);
        if r.rank() > a.rank() {
            assert(!rule_holds(a, v, st, seen));
        }
        if forall|q: SplitRule| q.rank() < a.rank() ==> !#[trigger] rule_holds(q, v, st, seen) {
            if r.rank() < a.rank() {
                assert(!rule_holds(r, v, st, seen));
            }
            assert(r.rank() == a.rank());
            assert(r == rule_at(r.rank()));
        }
    }
}

/// The game-time request depends on the three flags and the settings alone,
/// so ticks with the same flags ask for the same thing.
pub proof fn lemma_game_time_request_depends_on_flags(
    v1: Variables,
    v2: Variables,
    st: SplitterSettings,
)
    requires
        v1.is_paused.current == v2.is_paused.current,
        v1.in_cutscene.current == v2.in_cutscene.current,
        v1.in_game_over.current == v2.in_game_over.current,
    ensures
        game_time_request(v1, st) == game_time_request(v2, st),
{
}

/// Whether the number is exactly one of the chapter breakpoints.
pub fn is_chapter_breakpoint(b: u64) -> (r: bool)
    ensures
        r == at_chapter_breakpoint(b),
{
    match exact_integer(b) {
        Some(n) => {
            let r = n == 0 || n == 160 || n == 530 || n == 630 || n == 930 || n == 1160 || n
                == 1540 || n == 1770 || n == 2010 || n == 2170 || n == 2570 || n == 2600 || n
                == 2680 || n == 3090 || n == 3400 || n == 3880 || n == 3940 || n == 4210 || n
                == 4530 || n == 5050 || n == 5510;
            proof {
                if r {
                    assert(chapter_breakpoint(n as int) && value_is_int(b, n as int));
                }
                if at_chapter_breakpoint(b) {
                    let c = choose|c: int| chapter_breakpoint(c) && #[trigger] value_is_int(b, c);
                    lemma_int_value_unique(b, c, n as int);
                }
            }
            r
        },
        None => {
            proof {
                if at_chapter_breakpoint(b) {
                    let c = choose|c: int| chapter_breakpoint(c) && #[trigger] value_is_int(b, c);
                    assert(0 <= c <= u64::MAX);
                }
            }
            false
        },
    }
}

/// The reset pass: back to the title screen (when enabled), or a new game
/// begun, which always resets.
pub fn handle_resets(vars: &Variables, settings: &SplitterSettings) -> (r: bool)
    ensures
        r == reset_wanted(*vars, *settings),
{
    if settings.reset_on_titlescreen && vars.map_id.old != MAP_ID_TITLE_SCREEN
        && vars.map_id.current == MAP_ID_TITLE_SCREEN {
        true
    } else {
        vars.map_id.old == MAP_ID_TITLE_SCREEN && vars.map_id.current == MAP_ID_INTRO_SCENE
            && equals_whole(vars.game_progress.current, 0)
    }
}

/// The game-time pass: pause game time while a removed state (pause,
/// cutscene, game over) is on, resume it otherwise.
pub fn handle_is_loading(vars: &Variables, settings: &SplitterSettings) -> (r: GameTimeRequest)
    ensures
        r == game_time_request(*vars, *settings),
{
    if settings.remove_pause_time && equals_whole(vars.is_paused.current, 1) {
        GameTimeRequest::Pause
    } else if settings.remove_cutscene_time && equals_whole(vars.in_cutscene.current, 1) {
        GameTimeRequest::Pause
    } else if settings.remove_gameover && equals_whole(vars.in_game_over.current, 1) {
        GameTimeRequest::Pause
    } else {
        GameTimeRequest::Resume
    }
}

/// While the timer is not running: forget the visited maps and decide
/// whether to start. On a start the map just entered is the only one visited.
pub fn timer_not_running(
    vars: &Variables,
    settings: &SplitterSettings,
    map_ids: &mut HashSet<i32>,
) -> (r: bool)
    ensures
        r == start_wanted(*vars, *settings),
        final(map_ids)@ == (if r {
            Set::empty().insert(vars.map_id.current)
        } else {
            Set::empty()
        }),
{
    map_ids.clear();
    let should_start = if vars.map_id.old == MAP_ID_TITLE_SCREEN && vars.map_id.current
        == MAP_ID_INTRO_SCENE && equals_whole(vars.game_progress.current, 0) {
        true
    } else if settings.start_on_continue && vars.map_id.old == MAP_ID_TITLE_SCREEN
        && vars.map_id.current != MAP_ID_TITLE_SCREEN {
        true
    } else {
        settings.start_on_map_change && vars.map_id.old != MAP_ID_TITLE_SCREEN
            && vars.map_id.current != MAP_ID_TITLE_SCREEN && vars.map_id.old
            != vars.map_id.current
    };
    if should_start {
        map_ids.insert(vars.map_id.current);
    }
    should_start
}

fn rule_for_rank(i: u64) -> (r: SplitRule)
    requires
        1 <= i <= 11,
    ensures
        r == rule_at(i as nat),
{
    if i == 1 {
        SplitRule::NewMap
    } else if i == 2 {
        SplitRule::GameCompleted
    } else if i == 3 {
        SplitRule::BossEnd
    } else if i == 4 {
        SplitRule::BossStart
    } else if i == 5 {
        SplitRule::Achievement
    } else if i == 6 {
        SplitRule::ProgramChip
    } else if i == 7 {
        SplitRule::Chapter
    } else if i == 8 {
        SplitRule::TenPercent
    } else if i == 9 {
        SplitRule::HundredPercent
    } else if i == 10 {
        SplitRule::SacredTemple
    } else {
        SplitRule::AnyMap
    }
}

/// Whether a rule holds on this tick.
pub fn check_rule(
    rule: SplitRule,
    vars: &Variables,
    settings: &SplitterSettings,
    map_ids: &HashSet<i32>,
) -> (r: bool)
    ensures
        r == rule_holds(rule, *vars, *settings, map_ids@),
{
    match rule {
        SplitRule::NewMap => settings.split_on_every_new_map_change && vars.map_id.old
            != vars.map_id.current && !map_ids.contains(&vars.map_id.current),
        SplitRule::GameCompleted => settings.split_on_game_completed && !equals_whole(
            vars.game_completed.old,
            1,
        ) && equals_whole(vars.game_completed.current, 1),
        SplitRule::BossEnd => match vars.current_boss {
            Some(boss) => settings.split_on_every_boss && has_boss_name(&boss.old)
                && !has_boss_name(&boss.current),
            None => false,
        },
        SplitRule::BossStart => match vars.current_boss {
            Some(boss) => settings.split_on_every_boss_start && !has_boss_name(&boss.old)
                && has_boss_name(&boss.current),
            None => false,
        },
        SplitRule::Achievement => {
            if !settings.split_on_achievement {
                false
            } else {
                let first_same = bytes_equal(
                    vars.token_recognitions.current.as_slice(),
                    vars.token_recognitions.old.as_slice(),
                );
                let second_same = bytes_equal(
                    vars.token_recognitions_two.current.as_slice(),
                    vars.token_recognitions_two.old.as_slice(),
                );
                !first_same || !second_same
            }
        },
        SplitRule::ProgramChip => settings.split_on_every_program_chip && !float_equal(
            vars.program_chips.current,
            vars.program_chips.old,
        ),
        SplitRule::Chapter => settings.split_on_every_chapter && !float_equal(
            vars.game_progress.current,
            vars.game_progress.old,
        ) && is_chapter_breakpoint(vars.game_progress.current),
        SplitRule::TenPercent => settings.split_every_ten_percent && rem_ten_compare(
            vars.game_percent.old,
            9,
            true,
        ) && rem_ten_compare(vars.game_percent.current, 1, false),
        SplitRule::HundredPercent => settings.split_at_100_percent && truncate(
            vars.game_percent.old,
        ) < 100 && truncate(vars.game_percent.current) >= 100,
        SplitRule::SacredTemple => settings.split_on_sacred_temple && vars.map_id.old
            != MAP_ID_SACRED_TEMPLE_EXIT_MAP && vars.map_id.old != MAP_ID_SACRED_TEMPLE
            && vars.map_id.current == MAP_ID_SACRED_TEMPLE,
        SplitRule::AnyMap => settings.split_on_every_map_change && vars.map_id.old
            != vars.map_id.current,
    }
}

/// Whether a rule that fired asks for a split.
pub fn rule_split(rule: SplitRule, vars: &Variables, settings: &SplitterSettings) -> (r: bool)
    ensures
        r == rule_splits(rule, *vars, *settings),
{
    match rule {
        SplitRule::NewMap => vars.map_id.old != MAP_ID_TITLE_SCREEN && vars.map_id.current
            != MAP_ID_TITLE_SCREEN && vars.map_id.old != vars.map_id.current,
        SplitRule::BossEnd | SplitRule::BossStart => settings.split_on_boss_gallery
            || equals_whole(vars.boss_gallery.current, 0),
        _ => true,
    }
}

/// While the timer runs: the first rule in the order that holds fires, and
/// no other. A new map joins the visited set when its rule fires, whether or
/// not it splits.
pub fn timer_running(
    vars: &Variables,
    settings: &SplitterSettings,
    map_ids: &mut HashSet<i32>,
) -> (r: Option<SplitDecision>)
    ensures
        r == (match fired_rule(*vars, *settings, old(map_ids)@) {
            None => None,
            Some(rule) => Some(SplitDecision { rule, split: rule_splits(rule, *vars, *settings) }),
        }),
        final(map_ids)@ == (if fired_rule(*vars, *settings, old(map_ids)@) == Some(
            SplitRule::NewMap,
        ) {
            old(map_ids)@.insert(vars.map_id.current)
        } else {
            old(map_ids)@
        }),
{
    let mut i: u64 = 1;
    while i <= 11
        invariant
            1 <= i <= 12,
            map_ids@ == old(map_ids)@,
            fired_rule(*vars, *settings, old(map_ids)@) == first_rule_from(
                i as nat,
                *vars,
                *settings,
                old(map_ids)@,
            ),
        decreases 12 - i,
    {
        let rule = rule_for_rank(i);
        if check_rule(rule, vars, settings, map_ids) {
            if let SplitRule::NewMap = rule {
                map_ids.insert(vars.map_id.current);
            }
            let split = rule_split(rule, vars, settings);
            return Some(SplitDecision { rule, split });
        }
        i = i + 1;
    }
    None
}

/// The command that the timer's state and this tick's snapshot call for.
/// Nothing is decided while the timer is paused or has ended.
pub fn on_timer_state(
    timer: TimerState,
    vars: &Variables,
    settings: &SplitterSettings,
    map_ids: &mut HashSet<i32>,
) -> (r: Option<TimerCommand>)
    ensures
        match timer {
            TimerState::NotRunning => {
                &&& r == (if start_wanted(*vars, *settings) {
                    Some(TimerCommand::Start)
                } else {
                    None
                })
                &&& final(map_ids)@ == (if start_wanted(*vars, *settings) {
                    Set::empty().insert(vars.map_id.current)
                } else {
                    Set::empty()
                })
            },
            TimerState::Running => {
                let fired = fired_rule(*vars, *settings, old(map_ids)@);
                &&& r == (if fired is Some && rule_splits(fired->0, *vars, *settings) {
                    Some(TimerCommand::Split)
                } else {
                    None
                })
                &&& final(map_ids)@ == (if fired == Some(SplitRule::NewMap) {
                    old(map_ids)@.insert(vars.map_id.current)
                } else {
                    old(map_ids)@
                })
            },
            _ => r is None && final(map_ids)@ == old(map_ids)@,
        },
{
    match timer {
        TimerState::NotRunning => {
            if timer_not_running(vars, settings, map_ids) {
                Some(TimerCommand::Start)
            } else {
                None
            }
        },
        TimerState::Running => match timer_running(vars, settings, map_ids) {
            Some(decision) => {
                if decision.split {
                    Some(TimerCommand::Split)
                } else {
                    None
                }
            },
            None => None,
        },
        _ => None,
    }
}

} // verus!
