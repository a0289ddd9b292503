//! The whole simulation and its tick: the clock advances, every pop tends to
//! its needs, every pop walks, and the markets are matched, in that order.

use vstd::prelude::*;
use crate::clock::{ClockCommand, GameClock};
use crate::directory::{Directory, DirectoryView};
use crate::grid::{Grid, Position};
use crate::market::{match_markets, matched, HousingMarket, JobMarket};
use crate::movement::{after_movement, move_pops};
use crate::needs::{after_needs, draw_rolls, update_pops_with, Roll, IDLE_SPAN};

verus! {

/// The clock, the directory and the two markets: all that a tick reads and
/// writes.
#[derive(Clone, Debug, PartialEq, Eq)]
pub struct World {
    pub clock: GameClock,
    pub directory: Directory,
    pub job_market: JobMarket,
    pub housing_market: HousingMarket,
}

/// The simulation as a mathematical value.
pub struct WorldView {
    pub clock: GameClock,
    pub directory: DirectoryView,
    pub jobs: Seq<(u32, u32, Position)>,
    pub houses: Seq<(u32, Position)>,
}

impl View for World {
    type V = WorldView;

    open spec fn view(&self) -> WorldView {
        WorldView {
            clock: self.clock,
            directory: self.directory@,
            jobs: self.job_market.available_jobs@,
            houses: self.housing_market.available_houses@,
        }
    }
}

impl WorldView {
    pub open spec fn wf(&self) -> bool {
        self.clock.wf() && self.directory.wf()
    }
}

/// The simulation one tick later, on the draws given. A paused simulation
/// stands still. Otherwise the clock advances, and then the need engine, the
/// movement engine and the market matcher each pass over the directory once.
pub open spec fn stepped(world: WorldView, rolls: Seq<Roll>) -> WorldView {
    if world.clock.paused {
        world
    } else {
        let clock = world.clock.spec_tick();
        let tended = after_needs(world.directory, clock, rolls);
        let walked = after_movement(tended);
        let matching = matched(walked);
        WorldView {
            clock,
            directory: matching.directory,
            jobs: matching.jobs,
            houses: matching.houses,
        }
    }
}

/// The draws for the tick numbered `tick`: none where the list is too short.
pub open spec fn rolls_for(rolls: Seq<Seq<Roll>>, tick: int) -> Seq<Roll> {
    if 0 <= tick < rolls.len() {
        rolls[tick]
    } else {
        Seq::empty()
    }
}

/// The simulation after `ticks` ticks, the tick numbered `t` on the draws
/// `rolls[t]`.
pub open spec fn ran(world: WorldView, rolls: Seq<Seq<Roll>>, ticks: int) -> WorldView
    decreases ticks,
{
    if ticks <= 0 {
        world
    } else {
        stepped(ran(world, rolls, ticks - 1), rolls_for(rolls, ticks - 1))
    }
}

/// The draws of a run as mathematical values.
pub open spec fn roll_views(rolls: Seq<Vec<Roll>>) -> Seq<Seq<Roll>> {
    Seq::new(rolls.len(), |t: int| rolls[t]@)
}

impl World {
    pub open spec fn wf(&self) -> bool {
        self@.wf()
    }

    /// A simulation at tick 0 on an empty map, with the clock's usual
    /// settings and nothing on the markets.
    pub fn new(grid: Grid) -> (world: World)
        requires
            grid.wf(),
        ensures
            world.wf(),
            world@ == (WorldView {
                clock: GameClock {
                    current_tick: 0,
                    ticks_per_hour: 60,
                    hours_per_day: 24,
                    speed: 1,
                    paused: false,
                },
                directory: DirectoryView {
                    grid,
                    pops: Seq::empty(),
                    houses: Seq::empty(),
                    workplaces: Seq::empty(),
                    restaurants: Seq::empty(),
                    next_id: 0,
                },
                jobs: Seq::empty(),
                houses: Seq::empty(),
            }),
    {
        World {
            clock: GameClock::default(),
            directory: Directory::new(grid),
            job_market: JobMarket::new(),
            housing_market: HousingMarket::new(),
        }
    }

    /// Carries out a command of the input layer. It takes effect between two
    /// ticks, and touches nothing but the clock.
    pub fn command(&mut self, command: ClockCommand)
        ensures
            final(self)@ == (WorldView {
                clock: old(self).clock.spec_apply(command),
                ..old(self)@
            }),
            old(self).wf() ==> final(self).wf(),
    {
        self.clock.apply(command);
    }

    /// Runs one tick on the draws given: the pop at place `i` wanders by
    /// `rolls[i]` if it wanders at all.
    pub fn step_with(&mut self, rolls: &Vec<Roll>)
        requires
            old(self).wf(),
        ensures
            final(self)@ == stepped(old(self)@, rolls@),
            final(self).wf(),
            final(self).clock.current_tick >= old(self).clock.current_tick,
    {
        if self.clock.paused {
            return ;
        }
        self.clock.tick();
        update_pops_with(&mut self.directory, &self.clock, rolls);
        move_pops(&mut self.directory);
        match_markets(&mut self.directory, &mut self.job_market, &mut self.housing_market);
    }

    /// Runs one tick with fresh draws. Whatever was drawn, the simulation is
    /// what `step_with` makes of it on some list of draws within the span,
    /// one for each pop.
    pub fn step(&mut self)
        requires
            old(self).wf(),
        ensures
            final(self).wf(),
            exists|rolls: Seq<Roll>|
                {
                    &&& rolls.len() == old(self)@.directory.pops.len()
                    &&& forall|i: int|
                        0 <= i < rolls.len() ==> (#[trigger] rolls[i]).dx < IDLE_SPAN
                            && rolls[i].dy < IDLE_SPAN
                    &&& final(self)@ == stepped(old(self)@, rolls)
                },
    {
        let rolls: Vec<Roll> = draw_rolls(self.directory.pops.len());
        self.step_with(&rolls);
    }

    /// Runs one tick for each list of draws given, in their order.
    pub fn run_with(&mut self, rolls: &Vec<Vec<Roll>>)
        requires
            old(self).wf(),
        ensures
            final(self)@ == ran(old(self)@, roll_views(rolls@), rolls.len() as int),
            final(self).wf(),
    {
        let ghost start = self@;
        let ghost draws = roll_views(rolls@);
        let mut t: usize = 0;
        while t < rolls.len()
            invariant
                t <= rolls.len(),
                draws == roll_views(rolls@),
                self.wf(),
                self@ == ran(start, draws, t as int),
            decreases rolls.len() - t,
        {
            self.step_with(&rolls[t]);
            t += 1;
        }
    }
}

/// A tick leaves a sound simulation sound: every pop on the map with its
/// needs within their limits, no workplace or house over its capacity, and
/// the clock no earlier than it was.
pub proof fn lemma_step_keeps_sound(world: WorldView, rolls: Seq<Roll>)
    requires
        world.wf(),
    ensures
        stepped(world, rolls).wf(),
        stepped(world, rolls).clock.current_tick >= world.clock.current_tick,
{
    if !world.clock.paused {
        let clock = world.clock.spec_tick();
        let tended = after_needs(world.directory, clock, rolls);
        crate::needs::lemma_needs_keep_sound(world.directory, clock, rolls);
        crate::movement::lemma_movement_keeps_sound(tended);
        crate::market::lemma_matching_respects_capacity(after_movement(tended));
    }
}

/// However long a sound simulation runs, and whatever is drawn, it stays
/// sound.
pub proof fn lemma_run_keeps_sound(world: WorldView, rolls: Seq<Seq<Roll>>, ticks: int)
    requires
        world.wf(),
    ensures
        ran(world, rolls, ticks).wf(),
        ran(world, rolls, ticks).clock.current_tick >= world.clock.current_tick,
    decreases ticks,
{
    if ticks > 0 {
        lemma_run_keeps_sound(world, rolls, ticks - 1);
        lemma_step_keeps_sound(ran(world, rolls, ticks - 1), rolls_for(rolls, ticks - 1));
    }
}

/// Two runs from the same state, for the same number of ticks and on draws
/// that agree tick by tick, end in the same state.
pub proof fn lemma_replay_is_identical(
    first: WorldView,
    second: WorldView,
    rolls: Seq<Seq<Roll>>,
    again: Seq<Seq<Roll>>,
    ticks: int,
)
    requires
        first == second,
        forall|t: int| 0 <= t < ticks ==> rolls_for(rolls, t) == rolls_for(again, t),
    ensures
        ran(first, rolls, ticks) == ran(second, again, ticks),
    decreases ticks,
{
    if ticks > 0 {
        lemma_replay_is_identical(first, second, rolls, again, ticks - 1);
    }
}

/// A paused simulation stands still, however many ticks are asked of it.
pub proof fn lemma_paused_stands_still(world: WorldView, rolls: Seq<Seq<Roll>>, ticks: int)
    requires
        world.clock.paused,
    ensures
        ran(world, rolls, ticks) == world,
    decreases ticks,
{
    if ticks > 0 {
        lemma_paused_stands_still(world, rolls, ticks - 1);
    }
}

} // verus!
