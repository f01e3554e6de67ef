//! Interfaces shared by indicators and strategies.

use vstd::prelude::*;

verus! {

use crate::errors::TaUtilsResult;
use crate::output::OutputShape;
use crate::types::Bar;
use vstd::string::StringExecFns;

/// A read-only market-data sample: open, close, high, low, price and volume,
/// each an IEEE 754 binary64 bit pattern. Each executable accessor returns
/// exactly the value its spec counterpart names.
pub trait Candle {
    /// The opening value.
    spec fn spec_open(&self) -> u64;

    /// The closing value.
    spec fn spec_close(&self) -> u64;

    /// The highest value.
    spec fn spec_high(&self) -> u64;

    /// The lowest value.
    spec fn spec_low(&self) -> u64;

    /// The plain price of a sample without bar structure.
    spec fn spec_price(&self) -> u64;

    /// The traded volume; NaN where not applicable.
    spec fn spec_volume(&self) -> u64;

    fn open(&self) -> (r: u64)
        ensures
            r == self.spec_open(),
    ;

    fn close(&self) -> (r: u64)
        ensures
            r == self.spec_close(),
    ;

    fn high(&self) -> (r: u64)
        ensures
            r == self.spec_high(),
    ;

    fn low(&self) -> (r: u64)
        ensures
            r == self.spec_low(),
    ;

    fn price(&self) -> (r: u64)
        ensures
            r == self.spec_price(),
    ;

    fn volume(&self) -> (r: u64)
        ensures
            r == self.spec_volume(),
    ;

    /// Collects the sample into a [`Bar`].
    fn to_bar(&self) -> (r: Bar)
        ensures
            r == (Bar {
                open: self.spec_open(),
                high: self.spec_high(),
                low: self.spec_low(),
                close: self.spec_close(),
                price: self.spec_price(),
                volume: self.spec_volume(),
            }),
    {
        Bar::new().set_open(self.open()).set_high(self.high()).set_low(self.low()).set_close(
            self.close(),
        ).set_price(self.price()).set_volume(self.volume())
    }
}

/// A step of a computation that consumes one input and produces one output.
pub trait Next<T> {
    type Output;

    fn next(&mut self, input: T) -> TaUtilsResult<Self::Output>;
}

impl Next<&crate::types::MarketData> for () {
    type Output = u64;

    /// The unit type computes nothing: every step is rejected.
    fn next(&mut self, _input: &crate::types::MarketData) -> (r: TaUtilsResult<u64>)
        ensures
            r matches Err(e) && (e matches crate::errors::TaUtilsError::InvalidParameter(m) && m@
                == "Cannot call next on unit type"@),
    {
        Err(crate::errors::TaUtilsError::InvalidParameter(
            String::from_str("Cannot call next on unit type"),
        ))
    }
}

/// An indicator: it can report the shape of its output, reset, and tell its
/// period.
pub trait IndicatorTrait: Reset + Period {
    fn output_shape(&self) -> OutputShape;

    fn name(&self) -> String;
}

/// Resets a component to its initial state.
pub trait Reset {
    fn reset(&mut self);
}

/// The look-back period of a component.
pub trait Period {
    fn period(&self) -> usize;
}

} // verus!
