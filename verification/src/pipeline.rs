//! Pipeline: filter -> map -> execute, with lightweight metrics.
//!
//! `Pipeline` owns the compiled rules, the default sound ids, the counters and
//! the executor, and drives each `InputEvent` to the engine. The counters live
//! here so that a single counter set covers the whole flow: `metrics()` hands
//! out the shared `Metrics` (atomics), which later events keep advancing, and
//! `counts()` reads the proved model of the same counters.

use crate::audio::{play_calls, AudioEngine, EngineCall};
use crate::config::CompiledConfig;
use crate::domain::{Action, CompiledRule, InputEvent, SoundId};
use crate::draw::{no_draw, random_below, Draw};
use crate::executor::Executor;
use std::sync::atomic::AtomicU64;
use std::sync::Arc;
use vstd::prelude::*;

verus! {

/// A pseudo-random index below `n` (0 when `n` is 0), drawn by the
/// generator over the whole range `0..n`: the draw's bound is `n` itself, so
/// every index below `n` is in the range drawn from.
fn fastrand(n: usize) -> (r: Draw)
    ensures
        r.bound_spec() == n,
        n == 0 ==> r.index_spec() == 0,
        n > 0 ==> r.index_spec() < n,
{
    if n == 0 {
        return no_draw();
    }
    random_below(n)
}

/// `x` advanced by `k`, wrapping around at 2^64 like an atomic `fetch_add`.
pub open spec fn bump(x: u64, k: nat) -> u64 {
    ((x + k) % 0x1_0000_0000_0000_0000) as u64
}

/// Counters for the whole pipeline, shared: handles to them stay live while
/// the pipeline handles events. Read them with `load`.
#[derive(Debug, Default)]
pub struct Metrics {
    pub received: AtomicU64,
    pub filtered: AtomicU64,
    pub mapped: AtomicU64,
    pub played: AtomicU64,
}

/// Calls `Arc::clone`: the clone is another pointer to the same allocation,
/// so it is the same value.
#[verifier::external_body]
fn share(metrics: &Arc<Metrics>) -> (r: Arc<Metrics>)
    ensures
        r == *metrics,
{
    metrics.clone()
}

/// Advance one shared counter by one (wrapping, like the model's `bump`).
fn bump_shared(counter: &AtomicU64) {
    counter.fetch_add(1, std::sync::atomic::Ordering::Relaxed);
}

/// The counters of the pipeline as the library models them: the shared
/// `Metrics` receive the same increments, in the same order.
#[derive(Debug, Clone, Copy, PartialEq, Eq, Structural)]
pub struct Counts {
    /// Events handed to the pipeline.
    pub received: u64,
    /// Events dropped by the filter.
    pub filtered: u64,
    /// Events that matched a rule or fell back to a default sound.
    pub mapped: u64,
    /// Sounds sent to the executor.
    pub played: u64,
}

/// All counters at zero.
pub open spec fn zero_counts() -> Counts {
    Counts { received: 0, filtered: 0, mapped: 0, played: 0 }
}

impl Default for Counts {
    fn default() -> (r: Counts)
        ensures
            r == zero_counts(),
    {
        Counts { received: 0, filtered: 0, mapped: 0, played: 0 }
    }
}

/// Where an event goes.
#[derive(Debug, Clone, Copy, PartialEq, Eq, Structural)]
pub enum Route {
    /// Dropped by the filter.
    Filtered,
    /// The rule at this index is the first whose trigger matches.
    Rule(usize),
    /// No rule matches: a random default sound plays.
    Default,
    /// No rule matches and there is no default sound.
    Unmapped,
}

/// The trackpad guard behind the backends' own tagging: no event that reaches
/// the pipeline is recognized as a trackpad event.
pub open spec fn is_trackpad_event(event: InputEvent) -> bool {
    false
}

/// Rule `i` is the first one whose trigger is `event`.
pub open spec fn is_first_match(rules: Seq<CompiledRule>, event: InputEvent, i: int) -> bool {
    &&& 0 <= i < rules.len()
    &&& rules[i].trigger == event
    &&& forall|j: int| 0 <= j < i ==> #[trigger] rules[j].trigger != event
}

/// Some rule has `event` as its trigger.
pub open spec fn has_match(rules: Seq<CompiledRule>, event: InputEvent) -> bool {
    exists|i: int| 0 <= i < rules.len() && #[trigger] rules[i].trigger == event
}

/// The route of `event`: `Ignored` (and trackpad events unless trackpads are
/// enabled) is filtered; otherwise the first matching rule wins; otherwise a
/// default sound plays if there is one.
pub open spec fn route_of(
    rules: Seq<CompiledRule>,
    n_defaults: nat,
    trackpads: bool,
    event: InputEvent,
) -> Route {
    if event is Ignored || (!trackpads && is_trackpad_event(event)) {
        Route::Filtered
    } else if has_match(rules, event) {
        Route::Rule((choose|i: int| is_first_match(rules, event, i)) as usize)
    } else if n_defaults > 0 {
        Route::Default
    } else {
        Route::Unmapped
    }
}

/// How many sounds a route plays.
pub open spec fn plays_of(rules: Seq<CompiledRule>, route: Route) -> nat {
    match route {
        Route::Rule(i) => rules[i as int].actions@.len(),
        Route::Default => 1,
        _ => 0,
    }
}

/// The counters after one event took `route` and played `plays` sounds.
pub open spec fn record(m: Counts, route: Route, plays: nat) -> Counts {
    Counts {
        received: bump(m.received, 1),
        filtered: if route is Filtered {
            bump(m.filtered, 1)
        } else {
            m.filtered
        },
        mapped: if route is Rule || route is Default {
            bump(m.mapped, 1)
        } else {
            m.mapped
        },
        played: bump(m.played, plays),
    }
}

/// The sound an action plays.
pub open spec fn action_sound(a: Action) -> SoundId {
    match a {
        Action::PlaySound(id) => id,
    }
}

/// The sounds a route plays: the actions of the matched rule in order, or
/// the default at index `pick`, or nothing.
pub open spec fn route_sounds(
    rules: Seq<CompiledRule>,
    defaults: Seq<SoundId>,
    route: Route,
    pick: int,
) -> Seq<SoundId> {
    match route {
        Route::Rule(i) => rules[i as int].actions@.map_values(|a: Action| action_sound(a)),
        Route::Default => seq![defaults[pick]],
        _ => Seq::empty(),
    }
}

proof fn lemma_bump_step(x: u64, k: nat)
    ensures
        bump(x, 0) == x,
        (if bump(x, k) + 1 > u64::MAX {
            (bump(x, k) + 1 - 0x1_0000_0000_0000_0000) as u64
        } else {
            (bump(x, k) + 1) as u64
        }) == bump(x, k + 1),
{
    assert(bump(x, 0) == x);
    let m: int = 0x1_0000_0000_0000_0000;
    let a: int = x + k;
    assert(a % m + 1 == m ==> (a + 1) % m == 0) by (nonlinear_arith)
        requires
            m == 0x1_0000_0000_0000_0000,
            a >= 0,
    ;
    assert(a % m + 1 < m ==> (a + 1) % m == a % m + 1) by (nonlinear_arith)
        requires
            m == 0x1_0000_0000_0000_0000,
            a >= 0,
    ;
}

/// An `Ignored` event is always filtered and plays nothing: the engine
/// receives no call, whatever the rules, defaults and trackpad setting.
pub proof fn lemma_ignored_is_filtered(
    rules: Seq<CompiledRule>,
    defaults: Seq<SoundId>,
    trackpads: bool,
    pick: int,
)
    ensures
        route_of(rules, defaults.len(), trackpads, InputEvent::Ignored) == Route::Filtered,
        plays_of(rules, Route::Filtered) == 0,
        play_calls(route_sounds(rules, defaults, Route::Filtered, pick)) == Seq::<EngineCall>::empty(),
{
    assert(play_calls(route_sounds(rules, defaults, Route::Filtered, pick)) =~= Seq::<
        EngineCall,
    >::empty());
}

/// An event that some rule has as trigger is never filtered or sent to a
/// default: the first rule with that trigger plays, exactly its actions.
pub proof fn lemma_first_rule_wins(
    rules: Seq<CompiledRule>,
    n_defaults: nat,
    trackpads: bool,
    event: InputEvent,
    i: int,
)
    requires
        event != InputEvent::Ignored,
        is_first_match(rules, event, i),
        rules.len() <= usize::MAX,
    ensures
        route_of(rules, n_defaults, trackpads, event) == Route::Rule(i as usize),
        plays_of(rules, Route::Rule(i as usize)) == rules[i].actions@.len(),
        forall|defaults: Seq<SoundId>, pick: int|
            #[trigger] route_sounds(rules, defaults, Route::Rule(i as usize), pick)
                == rules[i].actions@.map_values(|a: Action| action_sound(a)),
{
    assert(has_match(rules, event));
    let c = choose|c: int| is_first_match(rules, event, c);
    if c < i {
        assert(rules[c].trigger != event);
    }
    if c > i {
        assert(rules[i].trigger != event);
    }
}

/// An event no rule matches plays exactly one default sound, the one drawn,
/// when there are defaults; and nothing otherwise.
pub proof fn lemma_unmatched_falls_back(
    rules: Seq<CompiledRule>,
    defaults: Seq<SoundId>,
    trackpads: bool,
    event: InputEvent,
    pick: int,
)
    requires
        event != InputEvent::Ignored,
        !has_match(rules, event),
    ensures
        route_of(rules, defaults.len(), trackpads, event) == (if defaults.len() > 0 {
            Route::Default
        } else {
            Route::Unmapped
        }),
        route_sounds(rules, defaults, route_of(rules, defaults.len(), trackpads, event), pick) == (
        if defaults.len() > 0 {
            seq![defaults[pick]]
        } else {
            Seq::empty()
        }),
{
}

/// The played counter grows by exactly the number of sounds the engine is
/// asked to play for the event, whichever default is drawn.
pub proof fn lemma_played_counts_engine_calls(
    rules: Seq<CompiledRule>,
    defaults: Seq<SoundId>,
    route: Route,
    pick: int,
)
    requires
        route matches Route::Rule(i) ==> i < rules.len(),
    ensures
        play_calls(route_sounds(rules, defaults, route, pick)).len() == plays_of(rules, route),
{
}

/// Each handled event is counted once as received and at most once as
/// filtered or mapped, so filtered + mapped never exceeds received (until the
/// received counter wraps).
pub proof fn lemma_counts_stay_consistent(m: Counts, route: Route, plays: nat)
    requires
        m.filtered + m.mapped <= m.received,
        m.received < u64::MAX,
    ensures
        record(m, route, plays).filtered + record(m, route, plays).mapped <= record(
            m,
            route,
            plays,
        ).received,
        record(m, route, plays).received == m.received + 1,
{
    lemma_bump_step(m.received, 0);
    lemma_bump_step(m.filtered, 0);
    lemma_bump_step(m.mapped, 0);
}

/// The counters after handling `events` in turn, starting from `c`: each
/// event advances them as `handle` does.
pub open spec fn counts_after(
    rules: Seq<CompiledRule>,
    n_defaults: nat,
    trackpads: bool,
    c: Counts,
    events: Seq<InputEvent>,
) -> Counts
    decreases events.len(),
{
    if events.len() == 0 {
        c
    } else {
        let prev = counts_after(rules, n_defaults, trackpads, c, events.drop_last());
        let route = route_of(rules, n_defaults, trackpads, events.last());
        record(prev, route, plays_of(rules, route))
    }
}

/// How many of `events` are `Ignored`.
pub open spec fn count_ignored(events: Seq<InputEvent>) -> nat
    decreases events.len(),
{
    if events.len() == 0 {
        0
    } else {
        count_ignored(events.drop_last()) + if events.last() is Ignored {
            1nat
        } else {
            0nat
        }
    }
}

/// How many sounds the engine is asked to play over `events`.
pub open spec fn total_plays(
    rules: Seq<CompiledRule>,
    n_defaults: nat,
    trackpads: bool,
    events: Seq<InputEvent>,
) -> nat
    decreases events.len(),
{
    if events.len() == 0 {
        0
    } else {
        total_plays(rules, n_defaults, trackpads, events.drop_last()) + plays_of(
            rules,
            route_of(rules, n_defaults, trackpads, events.last()),
        )
    }
}

/// Handling one more event advances the run's counters by that event's step,
/// exactly as `handle` advances a pipeline's counters.
pub proof fn lemma_counts_after_push(
    rules: Seq<CompiledRule>,
    n_defaults: nat,
    trackpads: bool,
    c: Counts,
    events: Seq<InputEvent>,
    event: InputEvent,
)
    ensures
        counts_after(rules, n_defaults, trackpads, c, events.push(event)) == record(
            counts_after(rules, n_defaults, trackpads, c, events),
            route_of(rules, n_defaults, trackpads, event),
            plays_of(rules, route_of(rules, n_defaults, trackpads, event)),
        ),
{
    assert(events.push(event).drop_last() =~= events);
}

proof fn lemma_bump_no_wrap(x: u64, k: nat)
    requires
        x + k < 0x1_0000_0000_0000_0000,
    ensures
        bump(x, k) == x + k,
{
}

/// Over a run of events from fresh counters (fewer than 2^64 events and
/// plays, so nothing wraps): `received` is the number of events, `filtered`
/// the number of `Ignored` events, `filtered + mapped` never exceeds
/// `received`, and `played` is the number of sounds the engine was asked to
/// play.
pub proof fn lemma_run_counts(
    rules: Seq<CompiledRule>,
    n_defaults: nat,
    trackpads: bool,
    events: Seq<InputEvent>,
)
    requires
        events.len() < 0x1_0000_0000_0000_0000,
        total_plays(rules, n_defaults, trackpads, events) < 0x1_0000_0000_0000_0000,
    ensures
        counts_after(rules, n_defaults, trackpads, zero_counts(), events).received == events.len(),
        counts_after(rules, n_defaults, trackpads, zero_counts(), events).filtered
            == count_ignored(events),
        counts_after(rules, n_defaults, trackpads, zero_counts(), events).filtered + counts_after(
            rules,
            n_defaults,
            trackpads,
            zero_counts(),
            events,
        ).mapped <= events.len(),
        counts_after(rules, n_defaults, trackpads, zero_counts(), events).played == total_plays(
            rules,
            n_defaults,
            trackpads,
            events,
        ),
    decreases events.len(),
{
    if events.len() > 0 {
        let rest = events.drop_last();
        lemma_run_counts(rules, n_defaults, trackpads, rest);
        let prev = counts_after(rules, n_defaults, trackpads, zero_counts(), rest);
        let route = route_of(rules, n_defaults, trackpads, events.last());
        lemma_bump_no_wrap(prev.received, 1);
        lemma_bump_no_wrap(prev.played, plays_of(rules, route));
        if route is Filtered {
            lemma_bump_no_wrap(prev.filtered, 1);
        }
        if route is Rule || route is Default {
            lemma_bump_no_wrap(prev.mapped, 1);
        }
    }
}

/// The runtime flow controller.
pub struct Pipeline<E: AudioEngine> {
    rules: Vec<CompiledRule>,
    default_ids: Vec<SoundId>,
    executor: Executor<E>,
    counts: Counts,
    metrics: Arc<Metrics>,
    enable_trackpads: bool,
}

impl<E: AudioEngine> Pipeline<E> {
    pub closed spec fn rules(&self) -> Seq<CompiledRule> {
        self.rules@
    }

    pub closed spec fn default_ids(&self) -> Seq<SoundId> {
        self.default_ids@
    }

    pub closed spec fn trackpads_enabled(&self) -> bool {
        self.enable_trackpads
    }

    pub closed spec fn counters(&self) -> Counts {
        self.counts
    }

    /// The pipeline's shared counter set.
    pub closed spec fn metrics_handle(&self) -> Arc<Metrics> {
        self.metrics
    }

    pub closed spec fn engine(&self) -> E {
        self.executor.engine()
    }

    /// The route `event` takes in this pipeline.
    pub open spec fn route_spec(&self, event: InputEvent) -> Route {
        route_of(self.rules(), self.default_ids().len(), self.trackpads_enabled(), event)
    }

    pub fn new(config: CompiledConfig, engine: E, enable_trackpads: bool) -> (r: Pipeline<E>)
        ensures
            r.rules() == config.rules@,
            r.default_ids() == config.default_ids@,
            r.trackpads_enabled() == enable_trackpads,
            r.counters() == zero_counts(),
            r.engine() == engine,
    {
        Pipeline {
            rules: config.rules,
            default_ids: config.default_ids,
            executor: Executor::new(engine),
            counts: Counts::default(),
            metrics: Arc::new(
                Metrics {
                    received: AtomicU64::new(0),
                    filtered: AtomicU64::new(0),
                    mapped: AtomicU64::new(0),
                    played: AtomicU64::new(0),
                },
            ),
            enable_trackpads,
        }
    }

    /// A handle to the pipeline's shared counters: every call hands out the
    /// same counter set, which `handle` keeps advancing.
    pub fn metrics(&self) -> (r: Arc<Metrics>)
        ensures
            r == self.metrics_handle(),
    {
        share(&self.metrics)
    }

    /// A reading of the counters, as the proved model gives them.
    pub fn counts(&self) -> (r: Counts)
        ensures
            r == self.counters(),
    {
        self.counts
    }

    /// Filter and map: where `event` goes.
    pub fn route(&self, event: InputEvent) -> (r: Route)
        ensures
            r == self.route_spec(event),
            r matches Route::Rule(i) ==> is_first_match(self.rules(), event, i as int),
    {
        if event == InputEvent::Ignored {
            return Route::Filtered;
        }
        if !self.enable_trackpads && is_trackpad(event) {
            return Route::Filtered;
        }
        let mut i: usize = 0;
        while i < self.rules.len()
            invariant
                i <= self.rules@.len(),
                event != InputEvent::Ignored,
                forall|j: int| 0 <= j < i ==> #[trigger] self.rules@[j].trigger != event,
            decreases self.rules@.len() - i,
        {
            if self.rules[i].trigger == event {
                proof {
                    assert(is_first_match(self.rules@, event, i as int));
                    assert(has_match(self.rules@, event));
                    let c = choose|c: int| is_first_match(self.rules@, event, c);
                    if c < i {
                        assert(self.rules@[c].trigger != event);
                    }
                    if c > i {
                        assert(self.rules@[i as int].trigger != event);
                    }
                    assert(c == i as int);
                }
                return Route::Rule(i);
            }
            i = i + 1;
        }
        if self.default_ids.len() > 0 {
            Route::Default
        } else {
            Route::Unmapped
        }
    }

    /// The sounds a route plays, in order: the actions of the matched rule, or
    /// the default sound at index `pick`, or nothing.
    pub fn sounds_for(&self, route: Route, pick: usize) -> (r: Vec<SoundId>)
        requires
            route matches Route::Rule(i) ==> i < self.rules().len(),
            route is Default ==> pick < self.default_ids().len(),
        ensures
            r@ == route_sounds(self.rules(), self.default_ids(), route, pick as int),
    {
        let mut out: Vec<SoundId> = Vec::new();
        match route {
            Route::Rule(i) => {
                let actions = &self.rules[i].actions;
                let mut k: usize = 0;
                while k < actions.len()
                    invariant
                        k <= actions@.len(),
                        out@ =~= actions@.take(k as int).map_values(|a: Action| action_sound(a)),
                    decreases actions@.len() - k,
                {
                    let Action::PlaySound(id) = actions[k];
                    out.push(id);
                    k = k + 1;
                }
                assert(actions@.take(actions@.len() as int) =~= actions@);
            },
            Route::Default => {
                out.push(self.default_ids[pick]);
            },
            _ => {},
        }
        out
    }

    /// Drive one event through filter -> map -> execute.
    pub fn handle(&mut self, event: InputEvent)
        ensures
            final(self).rules() == old(self).rules(),
            final(self).default_ids() == old(self).default_ids(),
            final(self).trackpads_enabled() == old(self).trackpads_enabled(),
            final(self).metrics_handle() == old(self).metrics_handle(),
            final(self).counters() == record(
                old(self).counters(),
                old(self).route_spec(event),
                plays_of(old(self).rules(), old(self).route_spec(event)),
            ),
            final(self).engine().records_calls() == old(self).engine().records_calls(),
            old(self).engine().records_calls() ==> exists|pick: int|
                {
                    &&& (old(self).route_spec(event) is Default ==> 0 <= pick < old(
                        self,
                    ).default_ids().len())
                    &&& final(self).engine().calls() == old(self).engine().calls() + play_calls(
                        route_sounds(
                            old(self).rules(),
                            old(self).default_ids(),
                            old(self).route_spec(event),
                            pick,
                        ),
                    )
                },
    {
        let route = self.route(event);
        self.counts.received = self.counts.received.wrapping_add(1);
        bump_shared(&self.metrics.received);
        proof {
            lemma_bump_step(old(self).counts.received, 0);
        }
        match route {
            Route::Filtered => {
                self.counts.filtered = self.counts.filtered.wrapping_add(1);
                bump_shared(&self.metrics.filtered);
                proof {
                    lemma_bump_step(old(self).counts.filtered, 0);
                }
            },
            Route::Rule(_) | Route::Default => {
                self.counts.mapped = self.counts.mapped.wrapping_add(1);
                bump_shared(&self.metrics.mapped);
                proof {
                    lemma_bump_step(old(self).counts.mapped, 0);
                }
            },
            Route::Unmapped => {},
        }
        let pick = match route {
            Route::Default => fastrand(self.default_ids.len()).index(),
            _ => 0,
        };
        let sounds = self.sounds_for(route, pick);
        let ghost m1 = self.counts;
        let ghost c0 = self.executor.engine().calls();
        let ghost rec = self.executor.engine().records_calls();
        let ghost played0 = self.counts.played;
        proof {
            lemma_bump_step(played0, 0);
        }
        let mut k: usize = 0;
        while k < sounds.len()
            invariant
                k <= sounds@.len(),
                self.counts.played == bump(played0, k as nat),
                self.counts.received == m1.received,
                self.counts.filtered == m1.filtered,
                self.counts.mapped == m1.mapped,
                self.rules@ == old(self).rules@,
                self.default_ids@ == old(self).default_ids@,
                self.enable_trackpads == old(self).enable_trackpads,
                self.metrics == old(self).metrics,
                self.executor.engine().records_calls() == rec,
                rec ==> self.executor.engine().calls() == c0 + play_calls(sounds@.take(k as int)),
            decreases sounds@.len() - k,
        {
            proof {
                lemma_bump_step(played0, k as nat);
            }
            self.counts.played = self.counts.played.wrapping_add(1);
            bump_shared(&self.metrics.played);
            self.executor.play(sounds[k]);
            proof {
                assert(play_calls(sounds@.take(k + 1)) =~= play_calls(sounds@.take(k as int)).push(
                    EngineCall::Play(sounds@[k as int]),
                ));
            }
            k = k + 1;
        }
        proof {
            assert(sounds@.take(sounds@.len() as int) =~= sounds@);
            assert(sounds@.len() == plays_of(self.rules@, route));
        }
    }
}

/// Heuristic trackpad guard. The backends already tag trackpads by emitting
/// `Ignored`, so nothing that reaches the pipeline is recognized here.
fn is_trackpad(event: InputEvent) -> (r: bool)
    ensures
        r == is_trackpad_event(event),
{
    false
}

} // verus!
