//! Debounced click counting for the single button: one click types the
//! value once the multi-click window has closed, three clicks insert the
//! storage volume, two clicks do nothing.

use vstd::prelude::*;

verus! {

/// Time the button must stay in a new state before the change counts.
pub const DEBOUNCE_MS: u64 = 30;
/// Time after the last release within which another click continues the
/// same multi-click gesture.
pub const MULTI_CLICK_MS: u64 = 650;

/// What a finished gesture asks for.
#[derive(Clone, Copy, Debug, PartialEq, Eq, Structural)]
pub enum ClickAction {
    TypeText,
    MountStorage,
}

/// The state of a `ClickDetector`.
pub struct ClickState {
    /// Last raw reading.
    pub candidate_pressed: bool,
    /// When the raw reading last changed.
    pub candidate_since_ms: u64,
    /// Debounced state.
    pub stable_pressed: bool,
    /// Debounced releases in the current gesture.
    pub release_count: u8,
    /// When the last debounced release happened.
    pub last_release_ms: u64,
}

/// Milliseconds from `since` to `now`, zero if `now` is earlier.
pub open spec fn elapsed(now: u64, since: u64) -> u64 {
    if now >= since {
        (now - since) as u64
    } else {
        0
    }
}

/// The detector's state after a raw reading `pressed` at time `now`, and
/// the action that the reading completes, if any.
pub open spec fn spec_update(s: ClickState, pressed: bool, now: u64) -> (ClickState, Option<ClickAction>) {
    let s1 = if pressed != s.candidate_pressed {
        ClickState { candidate_pressed: pressed, candidate_since_ms: now, ..s }
    } else {
        s
    };
    let settles = s1.candidate_pressed != s1.stable_pressed && elapsed(now, s1.candidate_since_ms)
        >= DEBOUNCE_MS;
    let released = settles && !s1.candidate_pressed;
    let s2 = if settles {
        ClickState { stable_pressed: s1.candidate_pressed, ..s1 }
    } else {
        s1
    };
    let s3 = if released {
        ClickState {
            release_count: if s2.release_count == 255 {
                255u8
            } else {
                (s2.release_count + 1) as u8
            },
            last_release_ms: now,
            ..s2
        }
    } else {
        s2
    };
    if released && s3.release_count == 3 {
        (ClickState { release_count: 0, ..s3 }, Some(ClickAction::MountStorage))
    } else if s3.release_count != 0 && !s3.candidate_pressed && !s3.stable_pressed && elapsed(
        now,
        s3.last_release_ms,
    ) >= MULTI_CLICK_MS {
        (
            ClickState { release_count: 0, ..s3 },
            if s3.release_count == 1 {
                Some(ClickAction::TypeText)
            } else {
                None
            },
        )
    } else {
        (s3, None)
    }
}

/// Turns raw button readings into click gestures.
#[derive(Debug)]
pub struct ClickDetector {
    candidate_pressed: bool,
    candidate_since_ms: u64,
    stable_pressed: bool,
    release_count: u8,
    last_release_ms: u64,
}

impl View for ClickDetector {
    type V = ClickState;

    closed spec fn view(&self) -> ClickState {
        ClickState {
            candidate_pressed: self.candidate_pressed,
            candidate_since_ms: self.candidate_since_ms,
            stable_pressed: self.stable_pressed,
            release_count: self.release_count,
            last_release_ms: self.last_release_ms,
        }
    }
}

impl ClickDetector {
    /// A detector that starts at `now_ms` with the button in the given
    /// state and no click counted.
    pub fn new(now_ms: u64, initially_pressed: bool) -> (d: Self)
        ensures
            d@ == (ClickState {
                candidate_pressed: initially_pressed,
                candidate_since_ms: now_ms,
                stable_pressed: initially_pressed,
                release_count: 0,
                last_release_ms: now_ms,
            }),
    {
        Self {
            candidate_pressed: initially_pressed,
            candidate_since_ms: now_ms,
            stable_pressed: initially_pressed,
            release_count: 0,
            last_release_ms: now_ms,
        }
    }

    /// Takes the raw reading `pressed` at time `now_ms` and returns the
    /// action that it completes, if any.
    pub fn update(&mut self, pressed: bool, now_ms: u64) -> (action: Option<ClickAction>)
        ensures
            (final(self)@, action) == spec_update(old(self)@, pressed, now_ms),
    {
        if pressed != self.candidate_pressed {
            self.candidate_pressed = pressed;
            self.candidate_since_ms = now_ms;
        }

        if self.candidate_pressed != self.stable_pressed && now_ms.saturating_sub(
            self.candidate_since_ms,
        ) >= DEBOUNCE_MS {
            self.stable_pressed = self.candidate_pressed;
            if !self.stable_pressed {
                self.release_count = self.release_count.saturating_add(1);
                self.last_release_ms = now_ms;
                if self.release_count == 3 {
                    self.release_count = 0;
                    return Some(ClickAction::MountStorage);
                }
            }
        }

        let window_expired = self.release_count != 0 && !self.candidate_pressed
            && !self.stable_pressed && now_ms.saturating_sub(self.last_release_ms)
            >= MULTI_CLICK_MS;
        if window_expired {
            let releases = self.release_count;
            self.release_count = 0;
            if releases == 1 {
                return Some(ClickAction::TypeText);
            }
        }

        None
    }
}

/// Starting from no counted click, a detector never counts more than two
/// releases: the third one completes the gesture and resets the count.
pub proof fn lemma_release_count_at_most_two(s: ClickState, pressed: bool, now: u64)
    requires
        s.release_count <= 2,
    ensures
        spec_update(s, pressed, now).0.release_count <= 2,
{
}

/// The debounced state changes only to the current reading, and only once
/// that reading has lasted `DEBOUNCE_MS`.
pub proof fn lemma_debounced_change(s: ClickState, pressed: bool, now: u64)
    ensures
        ({
            let r = spec_update(s, pressed, now).0;
            r.stable_pressed != s.stable_pressed ==> r.stable_pressed == pressed && elapsed(
                now,
                r.candidate_since_ms,
            ) >= DEBOUNCE_MS && r.candidate_pressed == pressed
        }),
{
}

/// Text is typed only for a gesture of exactly one click, once the button
/// has stayed released for `MULTI_CLICK_MS` after it; so neither a double
/// nor a triple click ever types.
pub proof fn lemma_type_text_only_for_single_click(s: ClickState, pressed: bool, now: u64)
    requires
        spec_update(s, pressed, now).1 == Some(ClickAction::TypeText),
    ensures
        s.release_count == 1,
        !pressed,
        !s.stable_pressed,
        elapsed(now, s.last_release_ms) >= MULTI_CLICK_MS,
        spec_update(s, pressed, now).0.release_count == 0,
{
}

/// A single click, once the button has stayed released for
/// `MULTI_CLICK_MS` after it, types the value and ends the gesture.
pub proof fn lemma_single_click_types(s: ClickState, now: u64)
    requires
        s.release_count == 1,
        !s.candidate_pressed,
        !s.stable_pressed,
        elapsed(now, s.last_release_ms) >= MULTI_CLICK_MS,
    ensures
        spec_update(s, false, now).1 == Some(ClickAction::TypeText),
        spec_update(s, false, now).0.release_count == 0,
{
}

/// The storage volume is inserted exactly on the debounced third release
/// of a gesture, and the gesture starts over.
pub proof fn lemma_mount_on_third_release(s: ClickState, pressed: bool, now: u64)
    requires
        s.release_count <= 2,
    ensures
        (spec_update(s, pressed, now).1 == Some(ClickAction::MountStorage)) <==> (
        s.release_count == 2 && s.stable_pressed && !spec_update(s, pressed, now).0.stable_pressed),
        spec_update(s, pressed, now).1 == Some(ClickAction::MountStorage) ==> spec_update(
            s,
            pressed,
            now,
        ).0.release_count == 0,
{
}

/// The states of a detector before each call of `inputs` (reading, time),
/// and after the last one.
pub open spec fn click_states(s: ClickState, inputs: Seq<(bool, u64)>) -> Seq<ClickState>
    decreases inputs.len(),
{
    if inputs.len() == 0 {
        seq![s]
    } else {
        seq![s] + click_states(spec_update(s, inputs[0].0, inputs[0].1).0, inputs.drop_first())
    }
}

/// What call `k` of `inputs` returns.
pub open spec fn click_action_at(s: ClickState, inputs: Seq<(bool, u64)>, k: int) -> Option<
    ClickAction,
> {
    spec_update(click_states(s, inputs)[k], inputs[k].0, inputs[k].1).1
}

/// Whether a call with reading `pressed` at `now` registers a debounced
/// release.
pub open spec fn registers_release(s: ClickState, pressed: bool, now: u64) -> bool {
    let since = if pressed != s.candidate_pressed {
        now
    } else {
        s.candidate_since_ms
    };
    !pressed && s.stable_pressed && elapsed(now, since) >= DEBOUNCE_MS
}

/// A run of `n` calls passes through `n + 1` states, the first of them `s`.
proof fn lemma_click_states_len(s: ClickState, inputs: Seq<(bool, u64)>)
    ensures
        click_states(s, inputs).len() == inputs.len() + 1,
        click_states(s, inputs)[0] == s,
    decreases inputs.len(),
{
    if inputs.len() > 0 {
        lemma_click_states_len(spec_update(s, inputs[0].0, inputs[0].1).0, inputs.drop_first());
    }
}

/// Each state of the run is the one that the call before it leaves.
pub proof fn lemma_click_states_step(s: ClickState, inputs: Seq<(bool, u64)>, k: int)
    requires
        0 <= k < inputs.len(),
    ensures
        click_states(s, inputs).len() == inputs.len() + 1,
        click_states(s, inputs)[k + 1] == spec_update(
            click_states(s, inputs)[k],
            inputs[k].0,
            inputs[k].1,
        ).0,
    decreases inputs.len(),
{
    let next = spec_update(s, inputs[0].0, inputs[0].1).0;
    lemma_click_states_len(s, inputs);
    lemma_click_states_len(next, inputs.drop_first());
    if k > 0 {
        lemma_click_states_step(next, inputs.drop_first(), k - 1);
        assert(inputs.drop_first()[k - 1] == inputs[k]);
    }
}

/// The releases between the first and the third click of a gesture keep
/// the count at one and then two.
proof fn lemma_triple_click_count(
    s: ClickState,
    inputs: Seq<(bool, u64)>,
    j1: int,
    j2: int,
    j3: int,
    k: int,
)
    requires
        0 <= j1 < j2 < j3 < inputs.len(),
        j1 < k <= j3,
        click_states(s, inputs)[j1].release_count == 0,
        registers_release(click_states(s, inputs)[j1], inputs[j1].0, inputs[j1].1),
        registers_release(click_states(s, inputs)[j2], inputs[j2].0, inputs[j2].1),
        forall|i: int|
            j1 < i < j3 && i != j2 ==> !registers_release(
                #[trigger] click_states(s, inputs)[i],
                inputs[i].0,
                inputs[i].1,
            ),
        forall|i: int|
            j1 < i < j3 && !inputs[i].0 ==> elapsed(
                inputs[i].1,
                (#[trigger] click_states(s, inputs)[i]).last_release_ms,
            ) < MULTI_CLICK_MS,
    ensures
        click_states(s, inputs)[k].release_count == if k <= j2 {
            1u8
        } else {
            2u8
        },
    decreases k - j1,
{
    let st = click_states(s, inputs);
    lemma_click_states_step(s, inputs, k - 1);
    if k - 1 > j1 {
        lemma_triple_click_count(s, inputs, j1, j2, j3, k - 1);
        if k - 1 != j2 {
            assert(!registers_release(st[k - 1], inputs[k - 1].0, inputs[k - 1].1));
        }
    }
}

/// A triple click never types: from a detector with no pending click,
/// when three debounced releases are registered by calls `j1 < j2 < j3`,
/// no other call between them registers one, and every released reading
/// between them comes less than `MULTI_CLICK_MS` after the last release,
/// then no call from `j1` to `j3` types, and call `j3` inserts the
/// storage volume.
pub proof fn lemma_triple_click_never_types(
    s: ClickState,
    inputs: Seq<(bool, u64)>,
    j1: int,
    j2: int,
    j3: int,
)
    requires
        0 <= j1 < j2 < j3 < inputs.len(),
        click_states(s, inputs)[j1].release_count == 0,
        registers_release(click_states(s, inputs)[j1], inputs[j1].0, inputs[j1].1),
        registers_release(click_states(s, inputs)[j2], inputs[j2].0, inputs[j2].1),
        registers_release(click_states(s, inputs)[j3], inputs[j3].0, inputs[j3].1),
        forall|i: int|
            j1 < i < j3 && i != j2 ==> !registers_release(
                #[trigger] click_states(s, inputs)[i],
                inputs[i].0,
                inputs[i].1,
            ),
        forall|i: int|
            j1 < i < j3 && !inputs[i].0 ==> elapsed(
                inputs[i].1,
                (#[trigger] click_states(s, inputs)[i]).last_release_ms,
            ) < MULTI_CLICK_MS,
    ensures
        forall|k: int|
            j1 <= k <= j3 ==> click_action_at(s, inputs, k) != Some(ClickAction::TypeText),
        click_action_at(s, inputs, j3) == Some(ClickAction::MountStorage),
{
    let st = click_states(s, inputs);
    assert forall|k: int| j1 <= k <= j3 implies click_action_at(s, inputs, k) != Some(
        ClickAction::TypeText,
    ) by {
        if k > j1 {
            lemma_triple_click_count(s, inputs, j1, j2, j3, k);
        }
        if k > j1 && k < j3 && k != j2 {
            assert(!registers_release(st[k], inputs[k].0, inputs[k].1));
        }
    }
    lemma_triple_click_count(s, inputs, j1, j2, j3, j3);
}

/// Between the releases of a gesture the last-release time is that of the
/// latest of them: every debounced release restarts the window.
proof fn lemma_triple_click_release_times(
    s: ClickState,
    inputs: Seq<(bool, u64)>,
    j1: int,
    j2: int,
    j3: int,
    k: int,
)
    requires
        0 <= j1 < j2 < j3 < inputs.len(),
        j1 < k <= j3,
        registers_release(click_states(s, inputs)[j1], inputs[j1].0, inputs[j1].1),
        registers_release(click_states(s, inputs)[j2], inputs[j2].0, inputs[j2].1),
        forall|i: int|
            j1 < i < j3 && i != j2 ==> !registers_release(
                #[trigger] click_states(s, inputs)[i],
                inputs[i].0,
                inputs[i].1,
            ),
    ensures
        click_states(s, inputs)[k].last_release_ms == if k <= j2 {
            inputs[j1].1
        } else {
            inputs[j2].1
        },
    decreases k - j1,
{
    let st = click_states(s, inputs);
    lemma_click_states_step(s, inputs, k - 1);
    if k - 1 > j1 {
        lemma_triple_click_release_times(s, inputs, j1, j2, j3, k - 1);
        if k - 1 != j2 {
            assert(!registers_release(st[k - 1], inputs[k - 1].0, inputs[k - 1].1));
        }
    }
}

/// A triple click inserts the storage volume and never types, however
/// long the whole gesture lasts, as long as each debounced release comes
/// less than `MULTI_CLICK_MS` after the one before: the window restarts at
/// every release. Stated on the readings alone: from a detector with no
/// pending click, calls `j1 < j2 < j3` register debounced releases, no call
/// between them registers one, the clock does not run backwards over
/// them, and the releases are less than `MULTI_CLICK_MS` apart. Then no
/// call from `j1` to `j3` types, and call `j3` inserts the volume.
pub proof fn lemma_triple_click_mounts(
    s: ClickState,
    inputs: Seq<(bool, u64)>,
    j1: int,
    j2: int,
    j3: int,
)
    requires
        0 <= j1 < j2 < j3 < inputs.len(),
        click_states(s, inputs)[j1].release_count == 0,
        registers_release(click_states(s, inputs)[j1], inputs[j1].0, inputs[j1].1),
        registers_release(click_states(s, inputs)[j2], inputs[j2].0, inputs[j2].1),
        registers_release(click_states(s, inputs)[j3], inputs[j3].0, inputs[j3].1),
        forall|i: int|
            j1 < i < j3 && i != j2 ==> !registers_release(
                #[trigger] click_states(s, inputs)[i],
                inputs[i].0,
                inputs[i].1,
            ),
        forall|a: int, b: int|
            j1 <= a <= b <= j3 ==> #[trigger] inputs[a].1 <= #[trigger] inputs[b].1,
        inputs[j2].1 - inputs[j1].1 < MULTI_CLICK_MS,
        inputs[j3].1 - inputs[j2].1 < MULTI_CLICK_MS,
    ensures
        forall|k: int|
            j1 <= k <= j3 ==> click_action_at(s, inputs, k) != Some(ClickAction::TypeText),
        click_action_at(s, inputs, j3) == Some(ClickAction::MountStorage),
{
    let st = click_states(s, inputs);
    assert forall|i: int| j1 < i < j3 && !inputs[i].0 implies elapsed(
        inputs[i].1,
        (#[trigger] st[i]).last_release_ms,
    ) < MULTI_CLICK_MS by {
        lemma_triple_click_release_times(s, inputs, j1, j2, j3, i);
        if i <= j2 {
            assert(inputs[j1].1 <= inputs[i].1 && inputs[i].1 <= inputs[j2].1);
        } else {
            assert(inputs[j2].1 <= inputs[i].1 && inputs[i].1 <= inputs[j3].1);
        }
    }
    lemma_triple_click_never_types(s, inputs, j1, j2, j3);
}

} // verus!
