//! The game clock: a tick counter from which the day and the hour are read.

use vstd::prelude::*;

verus! {

/// The fastest the simulation can be asked to run.
pub const MAX_SPEED: u32 = 512;

/// The first hour of the working day.
pub const WORKDAY_START: u64 = 9;

/// The first hour after the working day.
pub const WORKDAY_END: u64 = 17;

/// The number of hours worked in a day.
pub const WORKDAY_HOURS: u64 = 8;

/// The seconds of real time that an hour of the game takes at speed 1.
pub const SECONDS_PER_GAME_HOUR: u64 = 60;

/// What the input layer can ask of the clock.
#[derive(Clone, Copy, Debug, PartialEq, Eq, Structural)]
pub enum ClockCommand {
    /// Halve the speed, never below 1.
    SlowDown,
    /// Double the speed, never above `MAX_SPEED`.
    SpeedUp,
    /// Pause if running, resume if paused.
    TogglePause,
    /// Run at the given speed, pulled into `1..=MAX_SPEED`.
    SetSpeed(u32),
}

/// The clock of the simulation. The day and the hour are read off the tick
/// counter and stored nowhere.
#[derive(Clone, Copy, Debug, PartialEq, Eq, Structural)]
pub struct GameClock {
    pub current_tick: u64,
    pub ticks_per_hour: u64,
    pub hours_per_day: u64,
    pub speed: u32,
    pub paused: bool,
}

/// A speed pulled into `1..=MAX_SPEED`.
pub open spec fn clamp_speed(multiplier: int) -> int {
    if multiplier < 1 {
        1
    } else if multiplier > MAX_SPEED {
        MAX_SPEED as int
    } else {
        multiplier
    }
}

/// Whether an hour of the day falls in the working day.
pub open spec fn in_workday(hour: int) -> bool {
    WORKDAY_START <= hour < WORKDAY_END
}

impl GameClock {
    /// Hours and days have at least one tick, a day's ticks fit the counter,
    /// and the speed lies in `1..=MAX_SPEED`.
    pub open spec fn wf(&self) -> bool {
        &&& self.ticks_per_hour >= 1
        &&& self.hours_per_day >= 1
        &&& self.ticks_per_hour * self.hours_per_day <= u64::MAX
        &&& 1 <= self.speed <= MAX_SPEED
    }

    /// The number of ticks in a day.
    pub open spec fn spec_ticks_per_day(&self) -> int {
        self.ticks_per_hour * self.hours_per_day
    }

    /// The day that the current tick falls in, counted from 1.
    pub open spec fn spec_day(&self) -> int {
        self.current_tick as int / self.spec_ticks_per_day() + 1
    }

    /// The day as a counter can report it: held at the counter's last value.
    pub open spec fn spec_day_shown(&self) -> u64 {
        if self.spec_day() > u64::MAX {
            u64::MAX
        } else {
            self.spec_day() as u64
        }
    }

    /// The number of ticks since the current day began.
    pub open spec fn spec_tick_of_day(&self) -> int {
        self.current_tick as int % self.spec_ticks_per_day()
    }

    /// The whole hours since the current day began.
    pub open spec fn spec_hour(&self) -> int {
        self.spec_tick_of_day() / (self.ticks_per_hour as int)
    }

    /// The number of ticks since the current hour began.
    pub open spec fn spec_tick_of_hour(&self) -> int {
        self.spec_tick_of_day() % (self.ticks_per_hour as int)
    }

    /// The whole minutes since the current hour began, an hour having sixty.
    pub open spec fn spec_minute(&self) -> int {
        self.spec_tick_of_hour() * 60 / (self.ticks_per_hour as int)
    }

    /// The clock one tick later: unchanged while paused, and held at the
    /// counter's last value once it is reached.
    pub open spec fn spec_tick(&self) -> GameClock {
        if self.paused || self.current_tick == u64::MAX {
            *self
        } else {
            GameClock { current_tick: (self.current_tick + 1) as u64, ..*self }
        }
    }

    /// The clock after a command.
    pub open spec fn spec_apply(&self, command: ClockCommand) -> GameClock {
        match command {
            ClockCommand::SlowDown => GameClock {
                speed: clamp_speed(self.speed as int / 2) as u32,
                ..*self
            },
            ClockCommand::SpeedUp => GameClock {
                speed: clamp_speed(self.speed as int * 2) as u32,
                ..*self
            },
            ClockCommand::TogglePause => GameClock { paused: !self.paused, ..*self },
            ClockCommand::SetSpeed(multiplier) => GameClock {
                speed: clamp_speed(multiplier as int) as u32,
                ..*self
            },
        }
    }

    /// A running clock at tick 0 and speed 1, or nothing where an hour or a
    /// day would be empty or a day's ticks would not fit the counter.
    pub fn new(ticks_per_hour: u64, hours_per_day: u64) -> (clock: Option<GameClock>)
        ensures
            (ticks_per_hour >= 1 && hours_per_day >= 1 && ticks_per_hour * hours_per_day
                <= u64::MAX) ==> clock == Some(
                (GameClock {
                    current_tick: 0,
                    ticks_per_hour,
                    hours_per_day,
                    speed: 1,
                    paused: false,
                }),
            ),
            !(ticks_per_hour >= 1 && hours_per_day >= 1 && ticks_per_hour * hours_per_day
                <= u64::MAX) ==> clock.is_none(),
            clock.is_some() ==> clock.unwrap().wf(),
    {
        if ticks_per_hour == 0 || hours_per_day == 0 {
            return None;
        }
        match ticks_per_hour.checked_mul(hours_per_day) {
            Some(_) => Some(
                GameClock { current_tick: 0, ticks_per_hour, hours_per_day, speed: 1, paused: false },
            ),
            None => None,
        }
    }

    /// Whether the clock's settings are ones it can run on.
    pub fn is_valid(&self) -> (b: bool)
        ensures
            b == self.wf(),
    {
        if self.ticks_per_hour == 0 || self.hours_per_day == 0 {
            return false;
        }
        if self.speed < 1 || self.speed > MAX_SPEED {
            return false;
        }
        self.ticks_per_hour.checked_mul(self.hours_per_day).is_some()
    }

    /// Advances the counter by one tick unless the clock is paused.
    pub fn tick(&mut self)
        ensures
            *final(self) == old(self).spec_tick(),
            final(self).current_tick >= old(self).current_tick,
            old(self).wf() ==> final(self).wf(),
    {
        if !self.paused {
            self.current_tick = self.current_tick.saturating_add(1);
        }
    }

    /// The number of ticks in a day.
    pub fn ticks_per_day(&self) -> (n: u64)
        requires
            self.wf(),
        ensures
            n == self.spec_ticks_per_day(),
            n >= 1,
    {
        assert(self.ticks_per_hour * self.hours_per_day >= 1) by (nonlinear_arith)
            requires
                self.ticks_per_hour >= 1,
                self.hours_per_day >= 1,
        ;
        self.ticks_per_hour * self.hours_per_day
    }

    /// The day that the current tick falls in, counted from 1.
    pub fn day(&self) -> (d: u64)
        requires
            self.wf(),
        ensures
            d == self.spec_day_shown(),
            d >= 1,
    {
        let per_day: u64 = self.ticks_per_day();
        let whole: u64 = self.current_tick / per_day;
        whole.saturating_add(1)
    }

    /// The whole hours since the current day began.
    pub fn hour(&self) -> (h: u64)
        requires
            self.wf(),
        ensures
            h == self.spec_hour(),
            h < self.hours_per_day,
    {
        let per_day: u64 = self.ticks_per_day();
        let of_day: u64 = self.current_tick % per_day;
        proof {
            lemma_hour_bound(of_day as int, self.ticks_per_hour as int, self.hours_per_day as int);
        }
        of_day / self.ticks_per_hour
    }

    /// The number of ticks since the current hour began.
    pub fn tick_of_hour(&self) -> (t: u64)
        requires
            self.wf(),
        ensures
            t == self.spec_tick_of_hour(),
            t < self.ticks_per_hour,
    {
        let per_day: u64 = self.ticks_per_day();
        let of_day: u64 = self.current_tick % per_day;
        of_day % self.ticks_per_hour
    }

    /// The whole minutes since the current hour began, an hour having sixty.
    pub fn minute(&self) -> (m: u64)
        requires
            self.wf(),
        ensures
            m == self.spec_minute(),
            m < 60,
    {
        let of_hour: u128 = self.tick_of_hour() as u128;
        let per_hour: u128 = self.ticks_per_hour as u128;
        assert(0 <= of_hour * 60 / (per_hour as int) < 60) by (nonlinear_arith)
            requires
                0 <= of_hour < per_hour,
        ;
        (of_hour * 60 / per_hour) as u64
    }

    /// Whether the current hour falls in the working day.
    pub fn is_workday_hour(&self) -> (b: bool)
        requires
            self.wf(),
        ensures
            b == in_workday(self.spec_hour()),
    {
        let h: u64 = self.hour();
        WORKDAY_START <= h && h < WORKDAY_END
    }

    /// Pauses a running clock and resumes a paused one.
    pub fn toggle_pause(&mut self)
        ensures
            *final(self) == old(self).spec_apply(ClockCommand::TogglePause),
            final(self).paused == !old(self).paused,
    {
        self.paused = !self.paused;
    }

    /// Sets the speed, pulled into `1..=MAX_SPEED`.
    pub fn set_speed(&mut self, multiplier: u32)
        ensures
            *final(self) == old(self).spec_apply(ClockCommand::SetSpeed(multiplier)),
            final(self).speed == clamp_speed(multiplier as int),
            1 <= final(self).speed <= MAX_SPEED,
    {
        self.speed = limit_speed(multiplier);
    }

    /// Carries out one command of the input layer.
    pub fn apply(&mut self, command: ClockCommand)
        ensures
            *final(self) == old(self).spec_apply(command),
            old(self).wf() ==> final(self).wf(),
            final(self).current_tick == old(self).current_tick,
    {
        match command {
            ClockCommand::SlowDown => {
                let halved: u32 = self.speed / 2;
                self.speed = limit_speed(halved);
            },
            ClockCommand::SpeedUp => {
                let doubled: u32 = match self.speed.checked_mul(2) {
                    Some(doubled) => doubled,
                    None => u32::MAX,
                };
                self.speed = limit_speed(doubled);
            },
            ClockCommand::TogglePause => {
                self.paused = !self.paused;
            },
            ClockCommand::SetSpeed(multiplier) => {
                self.speed = limit_speed(multiplier);
            },
        }
    }

    /// The rate at which ticks pass in real time, as a fraction: so many
    /// ticks in so many seconds. At speed 1 an hour of the game passes in a
    /// minute. The number of ticks is held at the counter's last value.
    pub fn ticks_per_second(&self) -> (rate: (u64, u64))
        ensures
            rate.0 == if self.ticks_per_hour * self.speed <= u64::MAX {
                self.ticks_per_hour * self.speed
            } else {
                u64::MAX as int
            },
            rate.1 == SECONDS_PER_GAME_HOUR,
    {
        let ticks: u64 = match self.ticks_per_hour.checked_mul(self.speed as u64) {
            Some(n) => n,
            None => u64::MAX,
        };
        (ticks, SECONDS_PER_GAME_HOUR)
    }
}

impl Default for GameClock {
    /// One tick a minute, twenty-four hours a day, running at speed 1.
    fn default() -> (clock: GameClock)
        ensures
            clock == (GameClock {
                current_tick: 0,
                ticks_per_hour: 60,
                hours_per_day: 24,
                speed: 1,
                paused: false,
            }),
            clock.wf(),
    {
        GameClock { current_tick: 0, ticks_per_hour: 60, hours_per_day: 24, speed: 1, paused: false }
    }
}

/// A speed pulled into `1..=MAX_SPEED`.
pub fn limit_speed(multiplier: u32) -> (speed: u32)
    ensures
        speed == clamp_speed(multiplier as int),
        1 <= speed <= MAX_SPEED,
{
    if multiplier < 1 {
        1
    } else if multiplier > MAX_SPEED {
        MAX_SPEED
    } else {
        multiplier
    }
}

/// A tick of the day, counted in whole hours, falls short of the day's hours.
pub proof fn lemma_hour_bound(of_day: int, per_hour: int, hours: int)
    requires
        per_hour >= 1,
        hours >= 1,
        0 <= of_day < per_hour * hours,
    ensures
        0 <= of_day / per_hour < hours,
{
    assert(0 <= of_day / per_hour < hours) by (nonlinear_arith)
        requires
            per_hour >= 1,
            hours >= 1,
            0 <= of_day < per_hour * hours,
    ;
}

/// The counter never runs backwards, and a paused clock stands still.
pub proof fn lemma_tick_monotonic(clock: GameClock)
    ensures
        clock.spec_tick().current_tick >= clock.current_tick,
        clock.paused ==> clock.spec_tick() == clock,
        !clock.paused && clock.current_tick < u64::MAX ==> clock.spec_tick().current_tick
            == clock.current_tick + 1,
{
}

/// Pausing twice leaves the clock as it was.
pub proof fn lemma_toggle_twice(clock: GameClock)
    ensures
        clock.spec_apply(ClockCommand::TogglePause).spec_apply(ClockCommand::TogglePause) == clock,
{
}

} // verus!
