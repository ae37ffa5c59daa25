//! The user's choices: which events start, split, reset and pause the timer.
use vstd::prelude::*;

verus! {

/// A flat set of toggles, fixed for a session.
#[derive(Clone, Copy, PartialEq, Eq, Debug)]
pub struct SplitterSettings {
    /// Split when a boss fight starts (the boss name appears).
    pub split_on_every_boss_start: bool,
    /// Split when a boss fight ends (the boss name goes from something to nothing).
    pub split_on_every_boss: bool,
    /// Split when the progress counter reaches a chapter boundary.
    pub split_on_every_chapter: bool,
    /// Split whenever the program chip counter changes.
    pub split_on_every_program_chip: bool,
    /// Split when the completion flag becomes set.
    pub split_on_game_completed: bool,
    /// Split whenever an achievement token changes.
    pub split_on_achievement: bool,
    /// Also split on boss fights inside the boss gallery.
    pub split_on_boss_gallery: bool,
    /// Split each time the item percentage crosses a multiple of ten.
    pub split_every_ten_percent: bool,
    /// Split when the item percentage reaches 100.
    pub split_at_100_percent: bool,
    /// Split when entering the sacred temple, except from its exit map.
    pub split_on_sacred_temple: bool,
    /// Split whenever the map changes.
    pub split_on_every_map_change: bool,
    /// Split whenever a map not yet visited in this run is entered.
    pub split_on_every_new_map_change: bool,
    /// Pause game time during cutscenes.
    pub remove_cutscene_time: bool,
    /// Pause game time while the game is paused.
    pub remove_pause_time: bool,
    /// Pause game time on the game over screen.
    pub remove_gameover: bool,
    /// Start the timer when a saved game is continued from the title screen.
    pub start_on_continue: bool,
    /// Start the timer on any map change away from the title screen.
    pub start_on_map_change: bool,
    /// Reset the timer on returning to the title screen.
    pub reset_on_titlescreen: bool,
    /// The game runs at double speed, so it is polled twice as often.
    pub cheat_double_speed: bool,
}

impl SplitterSettings {
    /// Ticks per second at which the game should be polled.
    pub fn tick_rate(&self) -> (r: u32)
        ensures
            r == (if self.cheat_double_speed {
                60u32
            } else {
                30u32
            }),
    {
        if self.cheat_double_speed {
            60
        } else {
            30
        }
    }
}

impl Default for SplitterSettings {
    fn default() -> (r: Self)
        ensures
            r == (SplitterSettings {
                split_on_every_boss_start: true,
                split_on_every_boss: true,
                split_on_every_chapter: false,
                split_on_every_program_chip: false,
                split_on_game_completed: false,
                split_on_achievement: false,
                split_on_boss_gallery: false,
                split_every_ten_percent: false,
                split_at_100_percent: true,
                split_on_sacred_temple: false,
                split_on_every_map_change: false,
                split_on_every_new_map_change: false,
                remove_cutscene_time: false,
                remove_pause_time: false,
                remove_gameover: true,
                start_on_continue: false,
                start_on_map_change: false,
                reset_on_titlescreen: false,
                cheat_double_speed: false,
            }),
    {
        SplitterSettings {
            split_on_every_boss_start: true,
            split_on_every_boss: true,
            split_on_every_chapter: false,
            split_on_every_program_chip: false,
            split_on_game_completed: false,
            split_on_achievement: false,
            split_on_boss_gallery: false,
            split_every_ten_percent: false,
            split_at_100_percent: true,
            split_on_sacred_temple: false,
            split_on_every_map_change: false,
            split_on_every_new_map_change: false,
            remove_cutscene_time: false,
            remove_pause_time: false,
            remove_gameover: true,
            start_on_continue: false,
            start_on_map_change: false,
            reset_on_titlescreen: false,
            cheat_double_speed: false,
        }
    }
}

} // verus!
