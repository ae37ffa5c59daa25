use dt3_autosplitter::game::{Readings, State, Variables};
use dt3_autosplitter::settings::SplitterSettings;
use dt3_autosplitter::splitter::{
    check_rule, handle_is_loading, handle_resets, on_timer_state, timer_not_running,
    timer_running, GameTimeRequest, SplitDecision, SplitRule, TimerCommand, TimerState,
};
use dt3_autosplitter::variable::Pair;
use std::collections::HashSet;

fn boss(name: &str) -> [u8; 100] {
    let mut b = [0u8; 100];
    b[..name.len()].copy_from_slice(name.as_bytes());
    b
}

fn quiet_settings() -> SplitterSettings {
    SplitterSettings {
        split_on_every_boss_start: false,
        split_on_every_boss: false,
        split_at_100_percent: false,
        remove_gameover: false,
        ..SplitterSettings::default()
    }
}

fn readings(map_id: i32, progress: f64, percent: f64, boss_name: &str, gallery: f64) -> Readings {
    Readings {
        map_id: Some(map_id),
        game_progress: Some(progress.to_bits()),
        program_chips: Some(0.0f64.to_bits()),
        game_percent: Some(percent.to_bits()),
        game_completed: Some(0.0f64.to_bits()),
        token_recognitions: Some([0x30; 50]),
        token_recognitions_two: Some([0x30; 50]),
        in_cutscene: Some(0.0f64.to_bits()),
        in_game_over: Some(0.0f64.to_bits()),
        is_paused: Some(0.0f64.to_bits()),
        current_boss: Some(boss(boss_name)),
        boss_track: Some(0.0f64.to_bits()),
        boss_gallery: Some(gallery.to_bits()),
    }
}

fn still(r: &Readings) -> Variables {
    let mut state = State::default();
    state.update(r).unwrap()
}

/// Runs the ticks with the timer in one state, collecting resets and commands.
fn run(
    ticks: &[Readings],
    timer: TimerState,
    settings: &SplitterSettings,
) -> (Vec<bool>, Vec<Option<TimerCommand>>) {
    let mut state = State::default();
    let mut seen = HashSet::new();
    let mut resets = Vec::new();
    let mut commands = Vec::new();
    for r in ticks {
        let vars = state.update(r).expect("complete readings");
        resets.push(handle_resets(&vars, settings));
        commands.push(on_timer_state(timer, &vars, settings, &mut seen));
    }
    (resets, commands)
}

#[test]
fn new_game_starts_timer_on_intro_scene() {
    let ticks = [
        readings(1, 12.0, 0.0, "", 0.0),
        readings(1, 12.0, 0.0, "", 0.0),
        readings(43, 0.0, 0.0, "", 0.0),
    ];
    let (resets, commands) = run(&ticks, TimerState::NotRunning, &SplitterSettings::default());
    assert_eq!(commands, vec![None, None, Some(TimerCommand::Start)]);
    assert_eq!(resets, vec![false, false, true]);
}

#[test]
fn hundred_percent_splits_once() {
    let settings = SplitterSettings { split_at_100_percent: true, ..quiet_settings() };
    let ticks = [
        readings(5, 100.0, 98.5, "", 0.0),
        readings(5, 100.0, 99.6, "", 0.0),
        readings(5, 100.0, 100.2, "", 0.0),
        readings(5, 100.0, 100.4, "", 0.0),
    ];
    let (_, commands) = run(&ticks, TimerState::Running, &settings);
    assert_eq!(commands, vec![None, None, Some(TimerCommand::Split), None]);
}

#[test]
fn ten_percent_splits_on_wraparound() {
    let settings = SplitterSettings { split_every_ten_percent: true, ..quiet_settings() };
    let ticks = [
        readings(5, 100.0, 19.2, "", 0.0),
        readings(5, 100.0, 19.9, "", 0.0),
        readings(5, 100.0, 20.1, "", 0.0),
    ];
    let (_, commands) = run(&ticks, TimerState::Running, &settings);
    assert_eq!(commands, vec![None, None, Some(TimerCommand::Split)]);
}

#[test]
fn boss_end_splits_outside_gallery() {
    let settings = SplitterSettings { split_on_every_boss: true, ..quiet_settings() };
    let ticks = [
        readings(5, 100.0, 10.0, "DRAGON", 0.0),
        readings(5, 100.0, 10.0, "DRAGON", 0.0),
        readings(5, 100.0, 10.0, "", 0.0),
    ];
    let (_, commands) = run(&ticks, TimerState::Running, &settings);
    assert_eq!(commands, vec![None, None, Some(TimerCommand::Split)]);
}

#[test]
fn boss_end_in_gallery_does_not_split() {
    let settings = SplitterSettings { split_on_every_boss: true, ..quiet_settings() };
    let ticks = [
        readings(5, 100.0, 10.0, "DRAGON", 0.0),
        readings(5, 100.0, 10.0, "DRAGON", 0.0),
        readings(5, 100.0, 10.0, "", 1.0),
    ];
    let (_, commands) = run(&ticks, TimerState::Running, &settings);
    assert_eq!(commands, vec![None, None, None]);
    let gallery = SplitterSettings { split_on_boss_gallery: true, ..settings };
    let (_, commands) = run(&ticks, TimerState::Running, &gallery);
    assert_eq!(commands, vec![None, None, Some(TimerCommand::Split)]);
}

#[test]
fn unchanged_map_does_nothing() {
    let ticks = [readings(1, 5.0, 0.0, "", 0.0), readings(1, 5.0, 0.0, "", 0.0)];
    let all_on = SplitterSettings {
        split_on_every_map_change: true,
        split_on_every_new_map_change: true,
        start_on_continue: true,
        start_on_map_change: true,
        reset_on_titlescreen: true,
        ..SplitterSettings::default()
    };
    for timer in [TimerState::NotRunning, TimerState::Running] {
        let (resets, commands) = run(&ticks, timer, &all_on);
        assert_eq!(resets, vec![false, false]);
        assert_eq!(commands, vec![None, None]);
    }
}

#[test]
fn earlier_rule_wins() {
    let settings = SplitterSettings {
        split_on_sacred_temple: true,
        split_on_every_map_change: true,
        ..quiet_settings()
    };
    let mut state = State::default();
    state.update(&readings(30, 5.0, 0.0, "", 0.0));
    let vars = state.update(&readings(236, 5.0, 0.0, "", 0.0)).unwrap();
    let mut seen = HashSet::new();
    assert!(check_rule(SplitRule::AnyMap, &vars, &settings, &seen));
    assert!(check_rule(SplitRule::SacredTemple, &vars, &settings, &seen));
    assert_eq!(
        timer_running(&vars, &settings, &mut seen),
        Some(SplitDecision { rule: SplitRule::SacredTemple, split: true })
    );
    let with_new = SplitterSettings { split_on_every_new_map_change: true, ..settings };
    assert_eq!(
        timer_running(&vars, &with_new, &mut seen),
        Some(SplitDecision { rule: SplitRule::NewMap, split: true })
    );
    assert!(seen.contains(&236));
}

#[test]
fn new_map_from_title_screen_records_without_split() {
    let settings = SplitterSettings {
        split_on_every_new_map_change: true,
        split_on_every_map_change: true,
        ..quiet_settings()
    };
    let mut state = State::default();
    state.update(&readings(1, 5.0, 0.0, "", 0.0));
    let vars = state.update(&readings(30, 5.0, 0.0, "", 0.0)).unwrap();
    let mut seen = HashSet::new();
    assert_eq!(
        timer_running(&vars, &settings, &mut seen),
        Some(SplitDecision { rule: SplitRule::NewMap, split: false })
    );
    assert!(seen.contains(&30));
    // The map is known now, so the catch-all rule takes the next such tick.
    assert_eq!(
        timer_running(&vars, &settings, &mut seen),
        Some(SplitDecision { rule: SplitRule::AnyMap, split: true })
    );
}

#[test]
fn start_leaves_only_the_entered_map() {
    let mut seen: HashSet<i32> = [3, 4, 5].into_iter().collect();
    let settings = SplitterSettings { start_on_continue: true, ..quiet_settings() };
    let mut state = State::default();
    state.update(&readings(1, 5.0, 0.0, "", 0.0));
    let vars = state.update(&readings(77, 5.0, 0.0, "", 0.0)).unwrap();
    assert!(timer_not_running(&vars, &settings, &mut seen));
    assert_eq!(seen, [77].into_iter().collect());
    let vars = still(&readings(77, 5.0, 0.0, "", 0.0));
    assert!(!timer_not_running(&vars, &settings, &mut seen));
    assert!(seen.is_empty());
}

#[test]
fn start_on_map_change_ignores_title_screen() {
    let settings = SplitterSettings { start_on_map_change: true, ..quiet_settings() };
    let mut seen = HashSet::new();
    let mut state = State::default();
    state.update(&readings(1, 5.0, 0.0, "", 0.0));
    let vars = state.update(&readings(20, 5.0, 0.0, "", 0.0)).unwrap();
    assert!(!timer_not_running(&vars, &settings, &mut seen));
    let vars = state.update(&readings(21, 5.0, 0.0, "", 0.0)).unwrap();
    assert!(timer_not_running(&vars, &settings, &mut seen));
}

#[test]
fn game_time_request_is_repeatable() {
    let settings = SplitterSettings::default();
    let mut r = readings(5, 5.0, 0.0, "", 0.0);
    r.in_game_over = Some(1.0f64.to_bits());
    let vars = still(&r);
    assert_eq!(handle_is_loading(&vars, &settings), GameTimeRequest::Pause);
    assert_eq!(handle_is_loading(&vars, &settings), GameTimeRequest::Pause);
    let quiet = quiet_settings();
    assert_eq!(handle_is_loading(&vars, &quiet), GameTimeRequest::Resume);
    let mut r = readings(5, 5.0, 0.0, "", 0.0);
    r.is_paused = Some(1.0f64.to_bits());
    let pause = SplitterSettings { remove_pause_time: true, ..quiet };
    assert_eq!(handle_is_loading(&still(&r), &pause), GameTimeRequest::Pause);
    assert_eq!(handle_is_loading(&still(&r), &quiet), GameTimeRequest::Resume);
}

#[test]
fn reset_on_title_screen() {
    let settings = SplitterSettings { reset_on_titlescreen: true, ..quiet_settings() };
    let mut state = State::default();
    state.update(&readings(30, 5.0, 0.0, "", 0.0));
    let vars = state.update(&readings(1, 5.0, 0.0, "", 0.0)).unwrap();
    assert!(handle_resets(&vars, &settings));
    assert!(!handle_resets(&vars, &quiet_settings()));
    let vars = state.update(&readings(43, 3.0, 0.0, "", 0.0)).unwrap();
    assert!(!handle_resets(&vars, &settings));
}

#[test]
fn game_completed_is_edge_triggered() {
    let settings = SplitterSettings { split_on_game_completed: true, ..quiet_settings() };
    let mut r = readings(5, 5.0, 0.0, "", 0.0);
    let mut state = State::default();
    let mut seen = HashSet::new();
    state.update(&r);
    r.game_completed = Some(1.0f64.to_bits());
    let vars = state.update(&r).unwrap();
    assert_eq!(
        on_timer_state(TimerState::Running, &vars, &settings, &mut seen),
        Some(TimerCommand::Split)
    );
    let vars = state.update(&r).unwrap();
    assert_eq!(on_timer_state(TimerState::Running, &vars, &settings, &mut seen), None);
}

#[test]
fn boss_start_splits() {
    let settings = SplitterSettings::default();
    let mut state = State::default();
    let mut seen = HashSet::new();
    state.update(&readings(5, 5.0, 0.0, "", 0.0));
    let vars = state.update(&readings(5, 5.0, 0.0, "GOLEM", 0.0)).unwrap();
    assert_eq!(
        timer_running(&vars, &settings, &mut seen),
        Some(SplitDecision { rule: SplitRule::BossStart, split: true })
    );
}

#[test]
fn achievement_change_splits() {
    let settings = SplitterSettings { split_on_achievement: true, ..quiet_settings() };
    let mut r = readings(5, 5.0, 0.0, "", 0.0);
    let mut state = State::default();
    let mut seen = HashSet::new();
    state.update(&r);
    let mut tokens = [0x30u8; 50];
    tokens[49] = 0x31;
    r.token_recognitions_two = Some(tokens);
    let vars = state.update(&r).unwrap();
    assert_eq!(
        timer_running(&vars, &settings, &mut seen),
        Some(SplitDecision { rule: SplitRule::Achievement, split: true })
    );
    let vars = state.update(&r).unwrap();
    assert_eq!(timer_running(&vars, &settings, &mut seen), None);
}

#[test]
fn program_chip_and_chapter_rules() {
    let chips = SplitterSettings { split_on_every_program_chip: true, ..quiet_settings() };
    let mut r = readings(5, 150.0, 0.0, "", 0.0);
    let mut state = State::default();
    let mut seen = HashSet::new();
    state.update(&r);
    r.program_chips = Some(1.0f64.to_bits());
    r.game_progress = Some(160.0f64.to_bits());
    let vars = state.update(&r).unwrap();
    assert_eq!(
        timer_running(&vars, &chips, &mut seen).map(|d| d.rule),
        Some(SplitRule::ProgramChip)
    );
    let chapters = SplitterSettings { split_on_every_chapter: true, ..quiet_settings() };
    assert_eq!(
        timer_running(&vars, &chapters, &mut seen).map(|d| d.rule),
        Some(SplitRule::Chapter)
    );
    r.game_progress = Some(165.0f64.to_bits());
    let vars = state.update(&r).unwrap();
    assert_eq!(timer_running(&vars, &chapters, &mut seen), None);
}

#[test]
fn sacred_temple_not_from_exit_map() {
    let settings = SplitterSettings { split_on_sacred_temple: true, ..quiet_settings() };
    let mut state = State::default();
    let mut seen = HashSet::new();
    state.update(&readings(245, 5.0, 0.0, "", 0.0));
    let vars = state.update(&readings(236, 5.0, 0.0, "", 0.0)).unwrap();
    assert_eq!(timer_running(&vars, &settings, &mut seen), None);
    state.update(&readings(200, 5.0, 0.0, "", 0.0));
    let vars = state.update(&readings(236, 5.0, 0.0, "", 0.0)).unwrap();
    assert_eq!(
        timer_running(&vars, &settings, &mut seen).map(|d| d.rule),
        Some(SplitRule::SacredTemple)
    );
}

#[test]
fn paused_and_ended_timer_decide_nothing() {
    let settings = SplitterSettings { split_on_every_map_change: true, ..quiet_settings() };
    let mut state = State::default();
    state.update(&readings(1, 0.0, 0.0, "", 0.0));
    let vars = state.update(&readings(43, 0.0, 0.0, "", 0.0)).unwrap();
    let mut seen: HashSet<i32> = [9].into_iter().collect();
    for timer in [TimerState::Paused, TimerState::Ended] {
        assert_eq!(on_timer_state(timer, &vars, &settings, &mut seen), None);
    }
    assert_eq!(seen, [9].into_iter().collect());
}

#[test]
fn failed_read_keeps_state_and_gives_no_snapshot() {
    let mut state = State::default();
    state.update(&readings(3, 5.0, 0.0, "", 0.0));
    let mut bad = readings(4, 5.0, 0.0, "", 0.0);
    bad.game_percent = None;
    assert!(state.update(&bad).is_none());
    assert_eq!(state.map_id.get(), Some(Pair { old: 3, current: 3 }));
    let vars = state.update(&readings(4, 5.0, 0.0, "", 0.0)).unwrap();
    assert_eq!(vars.map_id, Pair { old: 3, current: 4 });
}

#[test]
fn failed_boss_read_is_no_boss() {
    let mut state = State::default();
    state.update(&readings(3, 5.0, 0.0, "HYDRA", 0.0));
    let mut r = readings(3, 5.0, 0.0, "", 0.0);
    r.current_boss = None;
    let vars = state.update(&r).unwrap();
    assert!(vars.current_boss.is_none());
    let mut seen = HashSet::new();
    assert_eq!(timer_running(&vars, &SplitterSettings::default(), &mut seen), None);
    let vars = state.update(&readings(3, 5.0, 0.0, "", 0.0)).unwrap();
    assert_eq!(vars.current_boss, Some(Pair { old: boss("HYDRA"), current: boss("") }));
}
