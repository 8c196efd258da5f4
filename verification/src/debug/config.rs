use vstd::prelude::*;

use crate::decimal::{decimal, report_text, usize_text, write_report};

verus! {

/// Size of a run: how many producer threads, and how many items each produces.
#[derive(Debug)]
pub struct Config {
    pub _mode: ConfigKind,
    pub num_producer: usize,
    pub per_producer: usize,
}

/// The preset run sizes.
#[derive(Debug, Clone, Copy, PartialEq, Eq, Structural)]
pub enum ConfigKind {
    Fast,
    Medium,
    Slow,
}

/// Number of producer threads of each preset.
pub open spec fn producers_of(kind: ConfigKind) -> usize {
    match kind {
        ConfigKind::Fast => 4,
        ConfigKind::Medium => 64,
        ConfigKind::Slow => 1024,
    }
}

impl Config {
    /// The configuration of a preset: 4, 64 or 1024 producers of 50 items each.
    pub fn new(config: ConfigKind) -> (c: Self)
        ensures
            c._mode == config,
            c.num_producer == producers_of(config),
            c.per_producer == 50,
    {
        match config {
            ConfigKind::Fast => Config { num_producer: 4, per_producer: 50, _mode: ConfigKind::Fast },
            ConfigKind::Medium => Config { num_producer: 64, per_producer: 50, _mode: ConfigKind::Medium },
            ConfigKind::Slow => Config { num_producer: 1024, per_producer: 50, _mode: ConfigKind::Slow },
        }
    }
}

/// The count a run should have ended with, and the count it ended with.
pub struct RaceCondition {
    pub expected: usize,
    pub actual: usize,
}

impl RaceCondition {
    pub fn new(expected: usize, actual: usize) -> (r: Self)
        ensures
            r.expected == expected,
            r.actual == actual,
    {
        RaceCondition { expected, actual }
    }

    /// The run lost or invented updates.
    pub fn is_race(&self) -> (r: bool)
        ensures
            r == (self.expected != self.actual),
    {
        self.expected != self.actual
    }

    /// How many items are missing: the expected count minus the actual one, or zero.
    pub fn missing_items(&self) -> (r: usize)
        ensures
            r == (if self.expected >= self.actual { self.expected - self.actual } else { 0 }),
    {
        self.expected.saturating_sub(self.actual)
    }

    /// The report printed after a run: `[NO RACE]`, or `[RACE CONDITION]` with the
    /// expected and actual counts and the number of missing items, one per line.
    pub fn report(&self) -> (r: String)
        ensures
            r@ == report_text(
                self.expected != self.actual,
                decimal(self.expected as nat),
                decimal(self.actual as nat),
                decimal((if self.expected >= self.actual { self.expected - self.actual } else { 0 }) as nat),
            ),
    {
        let missing = self.missing_items();
        write_report(self.is_race(), &usize_text(self.expected), &usize_text(self.actual), &usize_text(missing))
    }
}

} // verus!
