//! The rotation controller's decision cycle.  One tick snapshots the
//! state, asks the schedule evaluator whether rotation is allowed, and
//! then either deactivates (restoring the original background), draws a
//! random target, or advances the sequential cursor — handling the
//! transition from random to sequential mode by resuming right after the
//! last shown image.

use vstd::prelude::*;

use crate::config::spec_effective_interval;
use crate::platform::{choose_target, now_stamp, query_background, set_background};
use crate::schedule::{now_valid, should_run, spec_should_run, LocalTime};
use crate::state::AppState;
use crate::targets::{contains_path, first_pos, lemma_first_pos};
use vstd::arithmetic::div_mod::{lemma_add_mod_noop_right, lemma_mod_bound, lemma_small_mod};

verus! {

/// What a tick decided to do at the platform boundary: nothing, show a
/// selected target, or restore the original background on deactivation.
#[derive(Debug, Clone, PartialEq, Eq)]
pub enum TickOutcome {
    Idle,
    Show(String),
    Restore(String),
}

/// The outcome of a tick that found rotation disallowed: restore the
/// original background if rotation was overriding it and the original is
/// known; otherwise nothing.
pub open spec fn deactivation_outcome(pre: AppState) -> TickOutcome {
    if pre.random_active {
        match pre.initial_wallpaper {
            Some(w) => TickOutcome::Restore(w),
            None => TickOutcome::Idle,
        }
    } else {
        TickOutcome::Idle
    }
}

/// The sequential cursor to resume from after the path `p`: the slot right
/// after the first occurrence of `p`, or `0` when `p` does not occur.
pub open spec fn start_after(ts: Seq<String>, p: Seq<char>) -> int {
    let k = first_pos(ts, p);
    if k >= 0 {
        (k + 1) % (ts.len() as int)
    } else {
        0
    }
}

/// The cursor a sequential tick starts from.  A set cursor is used as it
/// is.  With no cursor set: after an observed random phase the controller
/// resumes after `last_shown` when known, and otherwise after whatever
/// path the platform happens to report as the current background; with no
/// random phase observed it starts at `0`.
pub open spec fn start_cursor_ok(pre: AppState, c0: int) -> bool {
    let ts = pre.config.file_targets@;
    match pre.current_index {
        Some(c) => c0 == c,
        None => if pre.last_random_enabled {
            match pre.last_shown {
                Some(p) => c0 == start_after(ts, p@),
                None => c0 == 0 || exists|b: Seq<char>| c0 == #[trigger] start_after(ts, b),
            }
        } else {
            c0 == 0
        },
    }
}

/// How one tick transforms the state and what it applies at the platform
/// boundary.  With no targets, an active rotation deactivates, restores,
/// and clears the cursor and last-shown; an inactive tick is a no-op.
/// With targets but a blocking schedule, rotation deactivates and the
/// cursor and last-shown are preserved.  Otherwise
/// rotation activates: random mode shows some listed target, remembers it
/// and discards the cursor; sequential mode starts from `start_cursor_ok`,
/// shows the target at that cursor (modulo the current length) and
/// advances the cursor by one.
pub open spec fn tick_rel(pre: AppState, now: LocalTime, post: AppState, o: TickOutcome) -> bool {
    let ts = pre.config.file_targets@;
    let run = spec_should_run(now, pre.config);
    &&& post.config == pre.config
    &&& post.initial_wallpaper == pre.initial_wallpaper
    &&& (if ts.len() == 0 {
        &&& post.random_active == false
        &&& (if pre.random_active {
            post.current_index is None && post.last_shown is None
        } else {
            post.current_index == pre.current_index && post.last_shown == pre.last_shown
        })
        &&& post.last_random_enabled == pre.last_random_enabled
        &&& o == deactivation_outcome(pre)
    } else if !run {
        &&& post.random_active == false
        &&& post.current_index == pre.current_index
        &&& post.last_shown == pre.last_shown
        &&& post.last_random_enabled == pre.last_random_enabled
        &&& o == deactivation_outcome(pre)
    } else if pre.config.random {
        &&& post.random_active == true
        &&& post.current_index is None
        &&& post.last_random_enabled == true
        &&& (o matches TickOutcome::Show(p) && contains_path(ts, p@) && post.last_shown == Some(
            p,
        ))
    } else {
        exists|c0: int|
            {
                &&& #[trigger] start_cursor_ok(pre, c0)
                &&& 0 <= c0
                &&& o == TickOutcome::Show(ts[c0 % (ts.len() as int)])
                &&& post.last_shown == Some(ts[c0 % (ts.len() as int)])
                &&& post.current_index == Some(((c0 + 1) % (ts.len() as int)) as usize)
                &&& post.random_active == true
                &&& post.last_random_enabled == false
            }
    })
}

/// The index of the first element of `targets` equal to `p`, or `None`.
fn find_target(targets: &Vec<String>, p: &String) -> (r: Option<usize>)
    ensures
        r matches Some(i) ==> first_pos(targets@, p@) == i as int,
        r is None ==> first_pos(targets@, p@) < 0,
{
    proof {
        lemma_first_pos(targets@, p@);
    }
    let mut i: usize = 0;
    while i < targets.len()
        invariant
            i <= targets@.len(),
            forall|j: int| 0 <= j < i ==> targets@[j]@ != p@,
        decreases targets@.len() - i,
    {
        if targets[i] == *p {
            proof {
                lemma_first_pos(targets@, p@);
                let ts = targets@;
                let fp = first_pos(ts, p@);
                assert(0 <= (i as int) < ts.len() && ts[i as int]@ == p@);
                assert(contains_path(ts, p@));
                assert(fp >= 0);
                assert(fp < ts.len() && ts[fp]@ == p@);
                if fp < i as int {
                    assert(ts[fp]@ != p@);
                    assert(false);
                }
                if fp > i as int {
                    assert(ts[i as int]@ != p@);
                    assert(false);
                }
            }
            return Some(i);
        }
        i += 1;
    }
    proof {
        if first_pos(targets@, p@) >= 0 {
            assert(targets@[first_pos(targets@, p@)]@ == p@);
            assert(false);
        }
    }
    None
}

/// The cursor a sequential run resumes from after `hint`: the slot right
/// after the first occurrence of `hint`, or `0` when it is not listed.
pub fn start_index_after(targets: &Vec<String>, hint: &String) -> (r: usize)
    requires
        targets@.len() > 0,
    ensures
        r as int == start_after(targets@, hint@),
        r < targets@.len(),
{
    proof {
        lemma_first_pos(targets@, hint@);
    }
    match find_target(targets, hint) {
        Some(pos) => {
            let len = targets.len();
            proof {
                assert(len == targets@.len());
                assert(first_pos(targets@, hint@) == pos as int);
                assert((pos as int) < targets@.len());
                assert(pos < len);
            }
            (pos + 1) % len
        },
        None => 0,
    }
}

/// One controller cycle at wall-clock `now`: decides activation via the
/// schedule evaluator, selects a target in the configured mode, updates
/// the rotation state, and reports what to apply at the platform boundary.
pub fn tick(state: &mut AppState, now: LocalTime) -> (o: TickOutcome)
    ensures
        tick_rel(*old(state), now, *final(state), o),
{
    let run = should_run(&now, &state.config);
    if state.config.file_targets.len() == 0 {
        if state.random_active {
            let o = match &state.initial_wallpaper {
                Some(w) => TickOutcome::Restore(w.clone()),
                None => TickOutcome::Idle,
            };
            state.random_active = false;
            state.current_index = None;
            state.last_shown = None;
            o
        } else {
            TickOutcome::Idle
        }
    } else if run {
        if state.config.random {
            state.random_active = true;
            let choice = choose_target(&state.config.file_targets);
            let p = choice.unwrap();
            state.last_shown = Some(p.clone());
            state.current_index = None;
            state.last_random_enabled = true;
            TickOutcome::Show(p)
        } else {
            let ghost mut queried: Seq<char> = Seq::empty();
            let ghost mut used_query = false;
            let c0: usize = if state.last_random_enabled && state.current_index.is_none() {
                match &state.last_shown {
                    Some(p) => start_index_after(&state.config.file_targets, p),
                    None => {
                        match query_background() {
                            Some(cur) => {
                                proof {
                                    queried = cur@;
                                    used_query = true;
                                }
                                start_index_after(&state.config.file_targets, &cur)
                            },
                            None => 0,
                        }
                    },
                }
            } else {
                match state.current_index {
                    Some(c) => c,
                    None => 0,
                }
            };
            proof {
                let ts = old(state).config.file_targets@;
                if old(state).current_index is None && old(state).last_random_enabled && old(
                    state,
                ).last_shown is None && used_query {
                    assert(c0 as int == start_after(ts, queried));
                }
                assert(start_cursor_ok(*old(state), c0 as int));
            }
            state.random_active = true;
            state.last_random_enabled = false;
            let len = state.config.file_targets.len();
            let idx = c0 % len;
            let path = state.config.file_targets[idx].clone();
            state.last_shown = Some(path.clone());
            state.current_index = Some((idx + 1) % len);
            proof {
                let ts = old(state).config.file_targets@;
                lemma_add_mod_noop_right(1, c0 as int, len as int);
                assert(((idx + 1) as int) % (len as int) == (c0 as int + 1) % (len as int));
                assert(tick_rel(*old(state), now, *state, TickOutcome::Show(path)));
            }
            TickOutcome::Show(path)
        }
    } else {
        let o = if state.random_active {
            match &state.initial_wallpaper {
                Some(w) => TickOutcome::Restore(w.clone()),
                None => TickOutcome::Idle,
            }
        } else {
            TickOutcome::Idle
        };
        state.random_active = false;
        o
    }
}

/// Performs one full decision cycle against the real clock: reads the
/// wall clock, runs the tick, and reports the decided outcome together
/// with the effective interval (a stored `0` read as the default) to
/// sleep before the next cycle — re-read on every cycle, not once.
pub fn tick_now(state: &mut AppState) -> (r: (TickOutcome, u64))
    ensures
        exists|now: LocalTime|
            #[trigger] tick_rel(*old(state), now, *final(state), r.0) && now_valid(now),
        r.1 == spec_effective_interval(final(state).config),
{
    let now = now_stamp();
    let o = tick(state, now);
    let interval = state.config.effective_interval();
    let r = (o, interval);
    proof {
        assert(tick_rel(*old(state), now, *state, r.0));
        assert(now_valid(now));
    }
    r
}

/// Applies a tick's outcome at the platform boundary: a best-effort call;
/// the result reports whether a background change was attempted and
/// accepted by the platform.
pub fn apply_outcome(o: &TickOutcome) -> (applied: bool)
    ensures
        o is Idle ==> applied == false,
{
    match o {
        TickOutcome::Idle => false,
        TickOutcome::Show(p) => set_background(p),
        TickOutcome::Restore(p) => set_background(p),
    }
}

/// Law: with targets present and the schedule blocking, a tick
/// deactivates rotation but leaves the sequential cursor and the
/// last-shown path untouched, so a later reactivation resumes where the
/// sequence stopped.
pub proof fn lemma_pause_preserves_cursor(
    pre: AppState,
    now: LocalTime,
    post: AppState,
    o: TickOutcome,
)
    requires
        tick_rel(pre, now, post, o),
        pre.config.file_targets@.len() > 0,
        !spec_should_run(now, pre.config),
    ensures
        post.current_index == pre.current_index,
        post.last_shown == pre.last_shown,
        post.config == pre.config,
        post.random_active == false,
{
}

/// Law: when the schedule window closes, or the target list becomes
/// empty, while rotation is overriding the background, the tick restores
/// exactly the original background captured at startup.
pub proof fn lemma_deactivation_restores(
    pre: AppState,
    now: LocalTime,
    post: AppState,
    o: TickOutcome,
    w: String,
)
    requires
        tick_rel(pre, now, post, o),
        pre.random_active,
        pre.initial_wallpaper == Some(w),
        pre.config.file_targets@.len() == 0 || !spec_should_run(now, pre.config),
    ensures
        o == TickOutcome::Restore(w),
        post.random_active == false,
{
}

/// Law: an active random tick only ever shows a path from the target
/// list, and remembers it as the last shown path.
pub proof fn lemma_random_pick_is_listed(
    pre: AppState,
    now: LocalTime,
    post: AppState,
    o: TickOutcome,
)
    requires
        tick_rel(pre, now, post, o),
        pre.config.file_targets@.len() > 0,
        spec_should_run(now, pre.config),
        pre.config.random,
    ensures
        o matches TickOutcome::Show(p) && contains_path(pre.config.file_targets@, p@)
            && post.last_shown == Some(p),
{
}

/// Law: switching from random to sequential mode resumes right after the
/// last shown image — when the controller still remembers a random phase,
/// no cursor is set and the last shown path occurs in the target list,
/// the next sequential pick is the target just after it (wrapping
/// around), not target `0`.
pub proof fn lemma_mode_switch_resumes(
    pre: AppState,
    now: LocalTime,
    post: AppState,
    o: TickOutcome,
    p: String,
)
    requires
        tick_rel(pre, now, post, o),
        pre.config.file_targets@.len() > 0,
        spec_should_run(now, pre.config),
        pre.config.random == false,
        pre.last_random_enabled,
        pre.current_index is None,
        pre.last_shown == Some(p),
        contains_path(pre.config.file_targets@, p@),
    ensures
        o == TickOutcome::Show(
            pre.config.file_targets@[(first_pos(pre.config.file_targets@, p@) + 1) % (
            pre.config.file_targets@.len() as int)],
        ),
{
    let ts = pre.config.file_targets@;
    let len = ts.len() as int;
    lemma_first_pos(ts, p@);
    let c0 = choose|c0: int|
        {
            &&& #[trigger] start_cursor_ok(pre, c0)
            &&& 0 <= c0
            &&& o == TickOutcome::Show(ts[c0 % (ts.len() as int)])
            &&& post.last_shown == Some(ts[c0 % (ts.len() as int)])
            &&& post.current_index == Some(((c0 + 1) % (ts.len() as int)) as usize)
            &&& post.random_active == true
            &&& post.last_random_enabled == false
        };
    assert(c0 == start_after(ts, p@));
    lemma_mod_bound(first_pos(ts, p@) + 1, len);
    lemma_small_mod(c0 as nat, len as nat);
}

/// The states and outcomes of consecutive sequential ticks: each
/// neighbouring pair is related by `tick_rel` at the same wall-clock
/// reading.
pub open spec fn tick_trace(states: Seq<AppState>, outs: Seq<TickOutcome>, now: LocalTime) -> bool {
    &&& states.len() == outs.len() + 1
    &&& forall|i: int|
        0 <= i < outs.len() ==> #[trigger] tick_rel(states[i], now, states[i + 1], outs[i])
}

/// After `k` sequential ticks from cursor `0` the configuration is
/// unchanged and the cursor stands at `k` modulo the length, each tick so
/// far having shown the target its cursor pointed at.
proof fn lemma_sequential_trace_aux(
    states: Seq<AppState>,
    outs: Seq<TickOutcome>,
    now: LocalTime,
    k: int,
)
    requires
        tick_trace(states, outs, now),
        states[0].config.file_targets@.len() > 0,
        states[0].config.random == false,
        states[0].current_index == Some(0usize),
        spec_should_run(now, states[0].config),
        0 <= k <= outs.len(),
    ensures
        states[k].config == states[0].config,
        states[k].current_index matches Some(c) && c as int == k % (
        states[0].config.file_targets@.len() as int),
        forall|i: int|
            0 <= i < k ==> outs[i] == TickOutcome::Show(
                states[0].config.file_targets@[i % (states[0].config.file_targets@.len() as int)],
            ),
    decreases k,
{
    let ts = states[0].config.file_targets@;
    let len = ts.len() as int;
    if k == 0 {
        lemma_small_mod(0, len as nat);
    } else {
        lemma_sequential_trace_aux(states, outs, now, k - 1);
        let pre = states[k - 1];
        let post = states[k];
        let o = outs[k - 1];
        assert(tick_rel(states[k - 1], now, states[(k - 1) + 1], outs[k - 1]));
        assert((k - 1) + 1 == k);
        assert(states[(k - 1) + 1] == states[k]);
        assert(tick_rel(pre, now, post, o));
        assert(pre.config == states[0].config);
        assert(spec_should_run(now, pre.config));
        assert(pre.config.file_targets@ == ts);
        let c0 = choose|c0: int|
            {
                &&& #[trigger] start_cursor_ok(pre, c0)
                &&& 0 <= c0
                &&& o == TickOutcome::Show(ts[c0 % (ts.len() as int)])
                &&& post.last_shown == Some(ts[c0 % (ts.len() as int)])
                &&& post.current_index == Some(((c0 + 1) % (ts.len() as int)) as usize)
                &&& post.random_active == true
                &&& post.last_random_enabled == false
            };
        assert(c0 == (k - 1) % len);
        lemma_mod_bound(k - 1, len);
        lemma_small_mod(c0 as nat, len as nat);
        assert(c0 % len == c0);
        assert(o == TickOutcome::Show(ts[(k - 1) % len]));
        lemma_add_mod_noop_right(1, k - 1, len);
        assert((c0 + 1) % len == k % len);
        lemma_mod_bound(k, len);
        assert(ts.len() == states[0].config.file_targets.len());
        assert((((c0 + 1) % len) as usize) as int == k % len);
        assert forall|i: int|
            0 <= i < k implies outs[i] == TickOutcome::Show(ts[i % len]) by {
            if i < k - 1 {
            }
        }
    }
}

/// Law: in sequential mode with a fixed non-empty target list and the
/// schedule allowing every tick, consecutive ticks starting from cursor
/// `0` show target `0`, target `1`, and so on, wrapping around — so each
/// of the first `len` ticks shows a distinct target, every target is
/// visited exactly once per round, and the round repeats.
pub proof fn lemma_sequential_round_robin(
    states: Seq<AppState>,
    outs: Seq<TickOutcome>,
    now: LocalTime,
)
    requires
        tick_trace(states, outs, now),
        states[0].config.file_targets@.len() > 0,
        states[0].config.random == false,
        states[0].current_index == Some(0usize),
        spec_should_run(now, states[0].config),
    ensures
        forall|i: int|
            0 <= i < outs.len() ==> outs[i] == TickOutcome::Show(
                states[0].config.file_targets@[i % (states[0].config.file_targets@.len() as int)],
            ),
        forall|i: int, j: int|
            #![trigger i % (states[0].config.file_targets@.len() as int), j % (states[0].config.file_targets@.len() as int)]
            0 <= i < j < outs.len() && j < states[0].config.file_targets@.len() ==> i % (
            states[0].config.file_targets@.len() as int) != j % (
            states[0].config.file_targets@.len() as int),
{
    let ts = states[0].config.file_targets@;
    let len = ts.len() as int;
    lemma_sequential_trace_aux(states, outs, now, outs.len() as int);
    assert forall|i: int, j: int|
        #![trigger i % (states[0].config.file_targets@.len() as int), j % (states[0].config.file_targets@.len() as int)]
        0 <= i < j < outs.len() && j < ts.len() implies i % len != j % len by {
        lemma_small_mod(i as nat, len as nat);
        lemma_small_mod(j as nat, len as nat);
    }
}

} // verus!
