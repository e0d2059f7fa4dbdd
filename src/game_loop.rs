//! The loop driver: one clock reading and at most one `update` per step.

use vstd::prelude::*;

use crate::clock::{get_time, Duration, Timestamp};

verus! {

/// A game that the loop drives.
pub trait Game: Sized {
    /// `update`, called on `pre` with `dt`, may leave the game as `post` and
    /// answer `go`. A game may state here what its own update does; by
    /// default nothing is said of it.
    open spec fn updated(pre: Self, dt: Duration, post: Self, go: bool) -> bool {
        true
    }

    /// Advances the game by `dt`, the time since the previous call (or since
    /// the loop started, on the first call). Returns `false` when the game
    /// wants the loop to stop.
    fn update(&mut self, dt: Duration) -> (go: bool)
        ensures
            Self::updated(*old(self), dt, *final(self), go),
    ;
}

/// Where a loop stands.
#[derive(Clone, Copy, Debug, PartialEq, Eq, Structural)]
pub enum Phase {
    /// No reading taken yet.
    Idle,
    /// Running; `last` is the latest reading, from which the next frame's
    /// time is measured.
    Running { last: Timestamp },
    /// The game asked to stop; the loop takes no further readings.
    Stopped,
}

/// What has happened on a loop so far, as seen by the proofs.
pub ghost struct LoopView {
    pub phase: Phase,
    /// Every clock reading taken, in order.
    pub readings: Seq<Timestamp>,
    /// Every duration handed to `update`, in order.
    pub frames: Seq<Duration>,
}

/// The time from `earlier` to `later`, as `Timestamp::since` computes it.
pub open spec fn gap(earlier: Timestamp, later: Timestamp) -> Duration {
    Duration { nanos: (later.as_nanos() - earlier.as_nanos()) as i128 }
}

impl LoopView {
    /// A loop that has not started.
    pub open spec fn initial() -> LoopView {
        LoopView { phase: Phase::Idle, readings: Seq::empty(), frames: Seq::empty() }
    }

    /// One step with the clock at `now`, where `go` is what `update` returned
    /// (ignored where no update is made).
    pub open spec fn next(self, now: Timestamp, go: bool) -> LoopView {
        match self.phase {
            Phase::Idle => LoopView {
                phase: Phase::Running { last: now },
                readings: self.readings.push(now),
                frames: self.frames,
            },
            Phase::Running { last } => LoopView {
                phase: if go {
                    Phase::Running { last: now }
                } else {
                    Phase::Stopped
                },
                readings: self.readings.push(now),
                frames: self.frames.push(gap(last, now)),
            },
            Phase::Stopped => self,
        }
    }

    /// The steps of `steps` taken in order from `self`; each step is a clock
    /// reading and what `update` returned on it.
    pub open spec fn run(self, steps: Seq<(Timestamp, bool)>) -> LoopView
        decreases steps.len(),
    {
        if steps.len() == 0 {
            self
        } else {
            self.run(steps.drop_last()).next(steps.last().0, steps.last().1)
        }
    }
}

/// Drives a game: each step reads the clock and hands the time since the
/// previous reading to the game's `update`, until `update` returns `false`.
pub struct GameLoop<T: Game> {
    pub game: T,
    phase: Phase,
    readings: Ghost<Seq<Timestamp>>,
    frames: Ghost<Seq<Duration>>,
}

impl<T: Game> GameLoop<T> {
    pub closed spec fn view(&self) -> LoopView {
        LoopView { phase: self.phase, readings: self.readings@, frames: self.frames@ }
    }

    /// The game that the loop drives.
    pub closed spec fn spec_game(&self) -> T {
        self.game
    }

    /// The phase agrees with the readings, and each frame is the gap between
    /// two consecutive readings.
    pub closed spec fn wf(&self) -> bool {
        &&& match self.phase {
            Phase::Idle => self.readings@.len() == 0,
            Phase::Running { last } => {
                &&& self.readings@.len() == self.frames@.len() + 1
                &&& self.readings@.last() == last
            },
            Phase::Stopped => {
                &&& self.readings@.len() == self.frames@.len() + 1
                &&& self.frames@.len() > 0
            },
        }
        &&& self.readings@.len() == 0 ==> self.frames@.len() == 0
        &&& forall|i: int| 0 <= i < self.readings@.len() ==> (#[trigger] self.readings@[i]).wf()
        &&& forall|i: int|
            0 <= i < self.frames@.len() ==> #[trigger] self.frames@[i] == gap(
                self.readings@[i],
                self.readings@[i + 1],
            )
    }

    /// Creates a loop around `game`; the clock is first read by the first step.
    pub fn new(game: T) -> (r: GameLoop<T>)
        ensures
            r.spec_game() == game,
            r.view() == LoopView::initial(),
            r.wf(),
    {
        GameLoop { game, phase: Phase::Idle, readings: Ghost(Seq::empty()), frames: Ghost(Seq::empty()) }
    }

    /// One step with the clock reading `now`. The first step only takes the
    /// reading as the starting point. Each later one hands the time since the
    /// previous reading to `update`; if that returns `false` the loop stops,
    /// and from then on a step does nothing. Returns whether the loop goes on.
    pub fn step_at(&mut self, now: Timestamp) -> (go: bool)
        requires
            old(self).wf(),
            now.wf(),
        ensures
            final(self).wf(),
            final(self).view() == old(self).view().next(now, go),
            go == !(final(self).view().phase is Stopped),
            !(old(self).view().phase is Running) ==> final(self).spec_game() == old(self).spec_game(),
            match old(self).view().phase {
                Phase::Running { last } => T::updated(
                    old(self).spec_game(),
                    gap(last, now),
                    final(self).spec_game(),
                    go,
                ),
                _ => true,
            },
    {
        match self.phase {
            Phase::Idle => {
                self.phase = Phase::Running { last: now };
                self.readings = Ghost(self.readings@.push(now));
                true
            },
            Phase::Running { last } => {
                let dt = now.since(&last);
                let go = self.game.update(dt);
                self.readings = Ghost(self.readings@.push(now));
                self.frames = Ghost(self.frames@.push(dt));
                self.phase = if go {
                    Phase::Running { last: now }
                } else {
                    Phase::Stopped
                };
                go
            },
            Phase::Stopped => false,
        }
    }

    /// One step with the clock read now, as `step_at` describes it. Once the
    /// loop has stopped, the clock is not read again.
    pub fn step(&mut self) -> (go: bool)
        requires
            old(self).wf(),
        ensures
            final(self).wf(),
            old(self).view().phase is Stopped ==> final(self).view() == old(self).view(),
            !(old(self).view().phase is Stopped) ==> {
                let now = final(self).view().readings.last();
                &&& now.wf()
                &&& final(self).view() == old(self).view().next(now, go)
            },
            go == !(final(self).view().phase is Stopped),
            !(old(self).view().phase is Running) ==> final(self).spec_game() == old(self).spec_game(),
            match old(self).view().phase {
                Phase::Running { last } => T::updated(
                    old(self).spec_game(),
                    gap(last, final(self).view().readings.last()),
                    final(self).spec_game(),
                    go,
                ),
                _ => true,
            },
    {
        match self.phase {
            Phase::Stopped => false,
            _ => {
                let now = get_time();
                self.step_at(now)
            },
        }
    }
}

} // verus!
