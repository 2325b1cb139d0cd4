//! Tests of the rotation controller: activation and deactivation,
//! sequential cycling and its resumption, the random-to-sequential mode
//! transition, and random selection.

use wallpaper_changer::config::AppConfig;
use wallpaper_changer::schedule::{LocalTime, Weekday};
use wallpaper_changer::state::AppState;
use wallpaper_changer::tick::{apply_outcome, tick, tick_now, TickOutcome};

fn noon() -> LocalTime {
    LocalTime { weekday: Weekday::Mon, day_of_month: 5, secs_of_day: 12 * 3600 }
}

fn targets_abc() -> Vec<String> {
    vec![String::from("a.png"), String::from("b.png"), String::from("c.png")]
}

fn sequential_state() -> AppState {
    let mut cfg = AppConfig::default();
    cfg.file_targets = targets_abc();
    cfg.random = false;
    AppState::new(Some(String::from("orig.png")), cfg)
}

fn blocking_config(cfg: &AppConfig) -> AppConfig {
    // Same targets and mode, but a weekday filter that never matches noon()'s Monday.
    let mut blocked = cfg.clone();
    blocked.weekly = Some(vec![String::from("tue")]);
    blocked
}

#[test]
fn new_state_is_inactive() {
    let mut cfg = AppConfig::default();
    cfg.random = false;
    let s = AppState::new(Some(String::from("w.png")), cfg);
    assert_eq!(s.initial_wallpaper, Some(String::from("w.png")));
    assert!(!s.random_active);
    assert!(!s.last_random_enabled);
    assert!(s.current_index.is_none());
    assert!(s.last_shown.is_none());
}

#[test]
fn new_state_seeds_mode_flag_from_config() {
    let cfg = AppConfig::default();
    assert!(cfg.random);
    let s = AppState::new(None, cfg);
    assert!(s.last_random_enabled);
}

#[test]
fn no_targets_is_a_noop_when_inactive() {
    let mut s = AppState::new(Some(String::from("orig.png")), AppConfig::default());
    // A paused sequential position survives an empty-list tick while
    // rotation is not overriding the background.
    s.current_index = Some(2);
    s.last_shown = Some(String::from("b.png"));
    let o = tick(&mut s, noon());
    assert_eq!(o, TickOutcome::Idle);
    assert!(!s.random_active);
    assert_eq!(s.current_index, Some(2));
    assert_eq!(s.last_shown, Some(String::from("b.png")));
}

#[test]
fn emptying_and_refilling_while_paused_keeps_the_sequence() {
    let mut s = sequential_state();
    s.current_index = Some(0);
    assert_eq!(tick(&mut s, noon()), TickOutcome::Show(String::from("a.png")));
    assert_eq!(tick(&mut s, noon()), TickOutcome::Show(String::from("b.png")));
    // The schedule closes: deactivate, cursor kept.
    let open_cfg = s.config.clone();
    s.config = blocking_config(&open_cfg);
    assert_eq!(tick(&mut s, noon()), TickOutcome::Restore(String::from("orig.png")));
    // The list is emptied while inactive: still a no-op for the cursor.
    s.config.file_targets = Vec::new();
    assert_eq!(tick(&mut s, noon()), TickOutcome::Idle);
    assert_eq!(s.current_index, Some(2));
    // Refilled and reopened: the sequence resumes where it stopped.
    s.config = open_cfg;
    assert_eq!(tick(&mut s, noon()), TickOutcome::Show(String::from("c.png")));
}

#[test]
fn no_targets_deactivates_and_restores() {
    let mut s = AppState::new(Some(String::from("orig.png")), AppConfig::default());
    s.random_active = true;
    s.last_shown = Some(String::from("a.png"));
    let o = tick(&mut s, noon());
    assert_eq!(o, TickOutcome::Restore(String::from("orig.png")));
    assert!(!s.random_active);
    assert!(s.current_index.is_none());
    assert!(s.last_shown.is_none());
}

#[test]
fn sequential_ticks_cycle_through_targets() {
    let mut s = sequential_state();
    s.current_index = Some(0);
    let shown: Vec<TickOutcome> = (0..4).map(|_| tick(&mut s, noon())).collect();
    assert_eq!(shown[0], TickOutcome::Show(String::from("a.png")));
    assert_eq!(shown[1], TickOutcome::Show(String::from("b.png")));
    assert_eq!(shown[2], TickOutcome::Show(String::from("c.png")));
    assert_eq!(shown[3], TickOutcome::Show(String::from("a.png")));
    assert!(s.random_active);
    assert_eq!(s.last_shown, Some(String::from("a.png")));
}

#[test]
fn first_sequential_tick_starts_at_zero() {
    // Sequential from the start: no random phase was ever observed.
    let mut s = sequential_state();
    assert!(!s.last_random_enabled);
    let o = tick(&mut s, noon());
    assert_eq!(o, TickOutcome::Show(String::from("a.png")));
    assert_eq!(s.current_index, Some(1));
}

#[test]
fn pause_preserves_cursor_and_resumes() {
    let mut s = sequential_state();
    s.current_index = Some(0);
    assert_eq!(tick(&mut s, noon()), TickOutcome::Show(String::from("a.png")));
    assert_eq!(tick(&mut s, noon()), TickOutcome::Show(String::from("b.png")));
    // The schedule window closes: deactivate, restore, keep the cursor.
    let open_cfg = s.config.clone();
    s.config = blocking_config(&open_cfg);
    let o = tick(&mut s, noon());
    assert_eq!(o, TickOutcome::Restore(String::from("orig.png")));
    assert!(!s.random_active);
    assert_eq!(s.current_index, Some(2));
    assert_eq!(s.last_shown, Some(String::from("b.png")));
    // It opens again: the sequence resumes where it stopped.
    s.config = open_cfg;
    assert_eq!(tick(&mut s, noon()), TickOutcome::Show(String::from("c.png")));
}

#[test]
fn deactivation_restores_captured_original() {
    let mut s = sequential_state();
    s.current_index = Some(0);
    let _ = tick(&mut s, noon());
    assert!(s.random_active);
    s.config = blocking_config(&s.config.clone());
    let o = tick(&mut s, noon());
    assert_eq!(o, TickOutcome::Restore(String::from("orig.png")));
    // A second blocked tick has nothing left to restore.
    assert_eq!(tick(&mut s, noon()), TickOutcome::Idle);
}

#[test]
fn deactivation_without_captured_original_is_idle() {
    let mut s = sequential_state();
    s.initial_wallpaper = None;
    s.random_active = true;
    s.config = blocking_config(&s.config.clone());
    assert_eq!(tick(&mut s, noon()), TickOutcome::Idle);
    assert!(!s.random_active);
}

#[test]
fn mode_switch_resumes_after_last_shown() {
    // A random phase was observed, then the mode flag flipped to
    // sequential while the controller still remembers the random phase:
    // the next pick starts right after the last shown image, not at 0.
    let mut s = sequential_state();
    s.last_random_enabled = true;
    s.last_shown = Some(String::from("b.png"));
    s.current_index = None;
    let o = tick(&mut s, noon());
    assert_eq!(o, TickOutcome::Show(String::from("c.png")));
    assert!(!s.last_random_enabled);
    assert_eq!(s.current_index, Some(0));
}

#[test]
fn mode_switch_wraps_around_from_last_target() {
    let mut s = sequential_state();
    s.last_random_enabled = true;
    s.last_shown = Some(String::from("c.png"));
    s.current_index = None;
    assert_eq!(tick(&mut s, noon()), TickOutcome::Show(String::from("a.png")));
}

#[test]
fn mode_switch_with_unlisted_last_shown_starts_at_zero() {
    let mut s = sequential_state();
    s.last_random_enabled = true;
    s.last_shown = Some(String::from("gone.png"));
    s.current_index = None;
    assert_eq!(tick(&mut s, noon()), TickOutcome::Show(String::from("a.png")));
}

#[test]
fn mode_switch_without_last_shown_picks_a_listed_target() {
    // With no remembered path the controller may consult the platform for
    // the current background; whatever that reports, the pick must be a
    // listed target and the state must advance consistently.
    let mut s = sequential_state();
    s.last_random_enabled = true;
    s.last_shown = None;
    s.current_index = None;
    let o = tick(&mut s, noon());
    match o {
        TickOutcome::Show(p) => {
            assert!(s.config.file_targets.contains(&p));
            assert_eq!(s.last_shown, Some(p));
        }
        other => panic!("expected a shown target, got {:?}", other),
    }
    assert!(s.current_index.is_some());
    assert!(!s.last_random_enabled);
}

#[test]
fn random_ticks_show_listed_targets_roughly_uniformly() {
    let mut cfg = AppConfig::default();
    cfg.file_targets = targets_abc();
    cfg.random = true;
    let mut s = AppState::new(None, cfg);
    let mut counts = [0usize; 3];
    for _ in 0..1000 {
        match tick(&mut s, noon()) {
            TickOutcome::Show(p) => {
                let i = s.config.file_targets.iter().position(|t| *t == p);
                match i {
                    Some(i) => counts[i] += 1,
                    None => panic!("random pick {:?} is not a listed target", p),
                }
            }
            other => panic!("expected a shown target, got {:?}", other),
        }
        assert!(s.current_index.is_none());
        assert!(s.last_random_enabled);
        assert!(s.random_active);
    }
    for &c in &counts {
        // Loose statistical bounds: each of three targets out of 1000
        // draws; far more than six standard deviations of slack.
        assert!(c > 200 && c < 470, "counts too skewed: {:?}", counts);
    }
}

#[test]
fn random_tick_clears_cursor_and_remembers_pick() {
    let mut cfg = AppConfig::default();
    cfg.file_targets = vec![String::from("only.png")];
    cfg.random = true;
    let mut s = AppState::new(None, cfg);
    s.current_index = Some(7);
    let o = tick(&mut s, noon());
    assert_eq!(o, TickOutcome::Show(String::from("only.png")));
    assert_eq!(s.last_shown, Some(String::from("only.png")));
    assert!(s.current_index.is_none());
}

#[test]
fn shrinking_target_list_keeps_cursor_in_range() {
    let mut s = sequential_state();
    s.current_index = Some(0);
    for _ in 0..2 {
        let _ = tick(&mut s, noon());
    }
    assert_eq!(s.current_index, Some(2));
    // The list shrinks below the cursor while paused; the next tick must
    // still index within the shorter list.
    s.config.file_targets = vec![String::from("x.png"), String::from("y.png")];
    let o = tick(&mut s, noon());
    assert_eq!(o, TickOutcome::Show(String::from("x.png")));
    assert_eq!(s.current_index, Some(1));
}

#[test]
fn zero_interval_is_read_as_default_every_cycle() {
    let mut cfg = AppConfig::default();
    cfg.interval = 0;
    let mut s = AppState::new(None, cfg);
    let (o1, iv1) = tick_now(&mut s);
    assert_eq!(o1, TickOutcome::Idle);
    assert_eq!(iv1, 60);
    // Still 0 in the stored configuration: coerced again on the next cycle.
    assert_eq!(s.config.interval, 0);
    let (_, iv2) = tick_now(&mut s);
    assert_eq!(iv2, 60);
}

#[test]
fn nonzero_interval_is_used_as_stored() {
    let mut cfg = AppConfig::default();
    cfg.interval = 7;
    let mut s = AppState::new(None, cfg);
    let (_, iv) = tick_now(&mut s);
    assert_eq!(iv, 7);
}

#[test]
fn apply_outcome_idle_does_nothing() {
    assert!(!apply_outcome(&TickOutcome::Idle));
}

#[test]
fn saved_config_updates_mode_flag() {
    let mut s = sequential_state();
    s.last_random_enabled = true;
    let mut newcfg = s.config.clone();
    newcfg.random = false;
    newcfg.interval = 30;
    s.apply_saved_config(newcfg);
    assert!(!s.last_random_enabled);
    assert_eq!(s.config.interval, 30);
}

#[test]
fn set_targets_touches_only_the_list() {
    let mut s = sequential_state();
    s.current_index = Some(1);
    s.set_targets(vec![String::from("z.png")]);
    assert_eq!(s.config.file_targets, vec![String::from("z.png")]);
    assert_eq!(s.current_index, Some(1));
    assert!(!s.config.random);
}
