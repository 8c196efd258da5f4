use vstd::prelude::*;

use crate::decimal::{decimal, decimal_signed, i64_text, report_text, usize_text, write_report};

verus! {

/// The races the demonstration can run.
pub enum RaceKind {
    UnsafeAccum,
    UnsafeBuffer,
    StdlibMutexAccum,
    StdlibMutexBuffer,
    BinarySemaphoreAccum,
    BinarySemaphoreBuffer,
    HappyLockAccum,
    HappyLockBuffer,
    SemaphoreMonitorAccum,
    SemaphoreMonitorBuffer,
    FutexMonitorAccum,
    FutexMonitorBuffer,
}

/// Size of a run: how many producer threads, and how many items each produces.
#[derive(Debug)]
pub struct Config {
    pub _mode: ConfigKind,
    pub num_producer: usize,
    pub per_producer: usize,
}

/// The preset run sizes.
#[derive(Debug, Clone, Copy, PartialEq, Eq, Structural)]
pub enum ConfigKind {
    Fast,
    Medium,
    Slow,
}

/// Number of producer threads of each preset.
pub open spec fn producers_of(kind: ConfigKind) -> usize {
    match kind {
        ConfigKind::Fast => 4,
        ConfigKind::Medium => 64,
        ConfigKind::Slow => 1024,
    }
}

impl Config {
    /// The configuration of a preset: 4, 64 or 1024 producers of 50 items each.
    pub fn new(config: ConfigKind) -> (c: Self)
        ensures
            c._mode == config,
            c.num_producer == producers_of(config),
            c.per_producer == 50,
    {
        match config {
            ConfigKind::Fast => Config { num_producer: 4, per_producer: 50, _mode: ConfigKind::Fast },
            ConfigKind::Medium => Config { num_producer: 64, per_producer: 50, _mode: ConfigKind::Medium },
            ConfigKind::Slow => Config { num_producer: 1024, per_producer: 50, _mode: ConfigKind::Slow },
        }
    }
}

/// The value a run should have ended with, and the value it ended with.
pub struct RaceCondition<T> {
    pub expected: T,
    pub actual: T,
}

impl<T: Copy> RaceCondition<T> {
    pub fn new(expected: T, actual: T) -> (r: Self)
        ensures
            r.expected == expected,
            r.actual == actual,
    {
        RaceCondition { expected, actual }
    }
}

/// `a - b`, clamped to the range of `i64`.
pub open spec fn saturating_sub_i64(a: i64, b: i64) -> i64 {
    if a - b < i64::MIN {
        i64::MIN
    } else if a - b > i64::MAX {
        i64::MAX
    } else {
        (a - b) as i64
    }
}

impl RaceCondition<usize> {
    /// The run lost or invented updates.
    pub fn is_race(&self) -> (r: bool)
        ensures
            r == (self.expected != self.actual),
    {
        self.expected != self.actual
    }

    /// How many items are missing: the expected count minus the actual one, or zero.
    pub fn missing_items(&self) -> (r: usize)
        ensures
            r == (if self.expected >= self.actual { self.expected - self.actual } else { 0 }),
    {
        self.expected.saturating_sub(self.actual)
    }

    /// The report printed after a run: `[NO RACE]`, or `[RACE CONDITION]` with the
    /// expected and actual counts and the number of missing items, one per line.
    pub fn report(&self) -> (r: String)
        ensures
            r@ == report_text(
                self.expected != self.actual,
                decimal(self.expected as nat),
                decimal(self.actual as nat),
                decimal((if self.expected >= self.actual { self.expected - self.actual } else { 0 }) as nat),
            ),
    {
        let missing = self.missing_items();
        write_report(self.is_race(), &usize_text(self.expected), &usize_text(self.actual), &usize_text(missing))
    }
}

impl RaceCondition<i64> {
    /// The run lost or invented updates.
    pub fn is_race(&self) -> (r: bool)
        ensures
            r == (self.expected != self.actual),
    {
        self.expected != self.actual
    }

    /// How many items are missing: the expected value minus the actual one, clamped
    /// to the range of `i64`.
    pub fn missing_items(&self) -> (r: i64)
        ensures
            r == saturating_sub_i64(self.expected, self.actual),
    {
        match self.expected.checked_sub(self.actual) {
            Some(d) => d,
            None => {
                if self.actual > 0 {
                    i64::MIN
                } else {
                    i64::MAX
                }
            },
        }
    }

    /// The report printed after a run: `[NO RACE]`, or `[RACE CONDITION]` with the
    /// expected and actual values and the number of missing items, one per line.
    pub fn report(&self) -> (r: String)
        ensures
            r@ == report_text(
                self.expected != self.actual,
                decimal_signed(self.expected as int),
                decimal_signed(self.actual as int),
                decimal_signed(saturating_sub_i64(self.expected, self.actual) as int),
            ),
    {
        let missing = self.missing_items();
        write_report(self.is_race(), &i64_text(self.expected), &i64_text(self.actual), &i64_text(missing))
    }
}

} // verus!
