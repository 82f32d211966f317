//! Which string commands have their values compressed, and a cell that
//! shares that choice between tasks.

use vstd::prelude::*;
use std::sync::atomic::{AtomicU8, Ordering};

verus! {

/// How far value compression reaches.
#[derive(Debug, PartialEq, Eq, Structural, Clone, Copy)]
pub enum CompressionStrategy {
    /// No value is compressed.
    Disabled,
    /// Only SET, SETEX, PSETEX, SETNX, GET and GETSET are let through; the
    /// other string commands would see compressed bytes and are refused.
    SetGetOnly,
    /// Every string command is let through; scripts must bypass compression
    /// themselves.
    AllowAll,
}

impl CompressionStrategy {
    /// The number a strategy is stored as.
    pub open spec fn spec_code(self) -> u8 {
        match self {
            CompressionStrategy::Disabled => 0u8,
            CompressionStrategy::SetGetOnly => 1u8,
            CompressionStrategy::AllowAll => 2u8,
        }
    }

    /// The strategy a stored number stands for; numbers above 2 read as
    /// `AllowAll`.
    pub open spec fn spec_from_code(code: u8) -> CompressionStrategy {
        if code == 0 {
            CompressionStrategy::Disabled
        } else if code == 1 {
            CompressionStrategy::SetGetOnly
        } else {
            CompressionStrategy::AllowAll
        }
    }

    /// The number this strategy is stored as.
    pub fn code(self) -> (r: u8)
        ensures
            r == self.spec_code(),
    {
        match self {
            CompressionStrategy::Disabled => 0u8,
            CompressionStrategy::SetGetOnly => 1u8,
            CompressionStrategy::AllowAll => 2u8,
        }
    }

    /// Reads a stored number back.
    pub fn from_code(code: u8) -> (r: CompressionStrategy)
        ensures
            r == Self::spec_from_code(code),
    {
        match code {
            0u8 => CompressionStrategy::Disabled,
            1u8 => CompressionStrategy::SetGetOnly,
            _ => CompressionStrategy::AllowAll,
        }
    }

    /// Storing a strategy and reading the number back gives the strategy.
    pub proof fn lemma_code_round_trip(strategy: CompressionStrategy)
        ensures
            Self::spec_from_code(strategy.spec_code()) == strategy,
    {
    }
}

/// A compression strategy that several tasks can read and replace.
///
/// The cell is shared, so nothing is known of what a read returns beyond its
/// being a strategy: another task may have stored one in between.
#[derive(Debug)]
pub struct AtomicCompressionStrategy {
    inner: AtomicU8,
}

impl AtomicCompressionStrategy {
    /// A cell that starts out as `Disabled`.
    pub fn new() -> (r: Self) {
        Self { inner: AtomicU8::new(CompressionStrategy::Disabled.code()) }
    }

    /// Stores `strategy` for every reader.
    pub fn set_strategy(&self, strategy: CompressionStrategy) {
        self.inner.store(strategy.code(), Ordering::SeqCst);
    }

    /// The strategy stored last.
    pub fn get_strategy(&self) -> (r: CompressionStrategy) {
        CompressionStrategy::from_code(self.inner.load(Ordering::SeqCst))
    }
}

} // verus!
