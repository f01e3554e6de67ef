//! Market-data carriers and the fixed-capacity queue.

use vstd::prelude::*;

verus! {

use crate::errors::{TaUtilsError, TaUtilsResult};
use crate::num::NAN_BITS;
use crate::traits::{Candle, Period, Reset};
use vstd::string::StringExecFns;

/// One bar of market data. Every field is an IEEE 754 binary64 bit pattern.
#[derive(Clone, Copy, Debug, PartialEq, Eq, Structural)]
pub struct Bar {
    pub open: u64,
    pub high: u64,
    pub low: u64,
    pub close: u64,
    pub price: u64,
    pub volume: u64,
}

/// Market data passed to strategies and indicators: a full bar, or a single
/// scalar.
#[derive(Clone, Copy, Debug)]
pub enum MarketData {
    Bar(Bar),
    Float(u64),
}

impl Default for Bar {
    /// A bar of all zeros (the bit pattern of `0.0`).
    fn default() -> (r: Self)
        ensures
            r == (Bar { open: 0, high: 0, low: 0, close: 0, price: 0, volume: 0 }),
    {
        Bar { open: 0, close: 0, low: 0, high: 0, price: 0, volume: 0 }
    }
}

impl Bar {
    /// A bar of all zeros.
    pub fn new() -> (r: Self)
        ensures
            r == (Bar { open: 0, high: 0, low: 0, close: 0, price: 0, volume: 0 }),
    {
        Bar { open: 0, close: 0, low: 0, high: 0, price: 0, volume: 0 }
    }

    /// Replaces the opening value.
    pub fn set_open(self, val: u64) -> (r: Self)
        ensures
            r == (Bar { open: val, ..self }),
    {
        Bar { open: val, ..self }
    }

    /// Replaces the highest value.
    pub fn set_high(self, val: u64) -> (r: Self)
        ensures
            r == (Bar { high: val, ..self }),
    {
        Bar { high: val, ..self }
    }

    /// Replaces the lowest value.
    pub fn set_low(self, val: u64) -> (r: Self)
        ensures
            r == (Bar { low: val, ..self }),
    {
        Bar { low: val, ..self }
    }

    /// Replaces the closing value.
    pub fn set_close(self, val: u64) -> (r: Self)
        ensures
            r == (Bar { close: val, ..self }),
    {
        Bar { close: val, ..self }
    }

    /// Replaces the plain price.
    pub fn set_price(self, val: u64) -> (r: Self)
        ensures
            r == (Bar { price: val, ..self }),
    {
        Bar { price: val, ..self }
    }

    /// Replaces the traded volume.
    pub fn set_volume(self, val: u64) -> (r: Self)
        ensures
            r == (Bar { volume: val, ..self }),
    {
        Bar { volume: val, ..self }
    }
}

impl Candle for Bar {
    open spec fn spec_open(&self) -> u64 {
        self.open
    }

    open spec fn spec_close(&self) -> u64 {
        self.close
    }

    open spec fn spec_high(&self) -> u64 {
        self.high
    }

    open spec fn spec_low(&self) -> u64 {
        self.low
    }

    open spec fn spec_price(&self) -> u64 {
        self.price
    }

    open spec fn spec_volume(&self) -> u64 {
        self.volume
    }

    fn open(&self) -> u64 {
        self.open
    }

    fn close(&self) -> u64 {
        self.close
    }

    fn high(&self) -> u64 {
        self.high
    }

    fn low(&self) -> u64 {
        self.low
    }

    fn price(&self) -> u64 {
        self.price
    }

    fn volume(&self) -> u64 {
        self.volume
    }
}

impl Candle for MarketData {
    open spec fn spec_open(&self) -> u64 {
        match self {
            MarketData::Bar(bar) => bar.open,
            MarketData::Float(value) => *value,
        }
    }

    open spec fn spec_close(&self) -> u64 {
        match self {
            MarketData::Bar(bar) => bar.close,
            MarketData::Float(value) => *value,
        }
    }

    open spec fn spec_high(&self) -> u64 {
        match self {
            MarketData::Bar(bar) => bar.high,
            MarketData::Float(value) => *value,
        }
    }

    open spec fn spec_low(&self) -> u64 {
        match self {
            MarketData::Bar(bar) => bar.low,
            MarketData::Float(value) => *value,
        }
    }

    open spec fn spec_price(&self) -> u64 {
        match self {
            MarketData::Bar(bar) => bar.price,
            MarketData::Float(value) => *value,
        }
    }

    /// Volume is not applicable to a plain scalar, so it is NaN there.
    open spec fn spec_volume(&self) -> u64 {
        match self {
            MarketData::Bar(bar) => bar.volume,
            MarketData::Float(_) => NAN_BITS,
        }
    }

    fn open(&self) -> u64 {
        match self {
            MarketData::Bar(bar) => bar.open,
            MarketData::Float(value) => *value,
        }
    }

    fn close(&self) -> u64 {
        match self {
            MarketData::Bar(bar) => bar.close,
            MarketData::Float(value) => *value,
        }
    }

    fn high(&self) -> u64 {
        match self {
            MarketData::Bar(bar) => bar.high,
            MarketData::Float(value) => *value,
        }
    }

    fn low(&self) -> u64 {
        match self {
            MarketData::Bar(bar) => bar.low,
            MarketData::Float(value) => *value,
        }
    }

    fn price(&self) -> u64 {
        match self {
            MarketData::Bar(bar) => bar.price,
            MarketData::Float(value) => *value,
        }
    }

    fn volume(&self) -> u64 {
        match self {
            MarketData::Bar(bar) => bar.volume,
            MarketData::Float(_) => crate::num::nan_bits(),
        }
    }
}

/// A vector of fixed capacity: pushing beyond the period removes and returns
/// the oldest element.
#[derive(Clone, Debug, PartialEq)]
pub struct Queue<T> {
    queue: Vec<T>,
    period: usize,
}

impl<T> View for Queue<T> {
    type V = Seq<T>;

    closed spec fn view(&self) -> Seq<T> {
        self.queue@
    }
}

impl<T> Queue<T> {
    /// The capacity the queue was created with.
    pub closed spec fn spec_period(&self) -> usize {
        self.period
    }
}

impl<T: Default + Clone> Queue<T> {
    /// An empty queue of the given period; a period of zero is rejected.
    pub fn new(period: usize) -> (r: TaUtilsResult<Self>)
        ensures
            period > 0 ==> (r matches Ok(q) && q@ == Seq::<T>::empty() && q.spec_period()
                == period),
            period == 0 ==> (r matches Err(e) && (e matches TaUtilsError::InvalidParameter(m)
                && m@ == "Period must be greater than 0"@)),
    {
        if period == 0 {
            return Err(TaUtilsError::InvalidParameter(
                String::from_str("Period must be greater than 0"),
            ));
        }
        Ok(Queue { queue: Vec::with_capacity(period), period })
    }

    /// Appends an element; when the queue already holds a full period, the
    /// oldest element leaves and is returned.
    pub fn push(&mut self, value: T) -> (r: Option<T>)
        ensures
            final(self).spec_period() == old(self).spec_period(),
            old(self)@.len() < old(self).spec_period() ==> (final(self)@ == old(self)@.push(value)
                && r is None),
            old(self)@.len() >= old(self).spec_period() ==> (final(self)@ == old(self)@.push(
                value,
            ).drop_first() && (r matches Some(x) && x == old(self)@.push(value)[0])),
    {
        self.queue.push(value);
        if self.queue.len() > self.period {
            let removed = self.queue.remove(0);
            proof {
                assert(self.queue@ =~= old(self)@.push(value).drop_first());
            }
            Some(removed)
        } else {
            None
        }
    }
}

impl<T> Queue<T> {
    /// The elements currently held, oldest first.
    pub fn items(&self) -> (r: &Vec<T>)
        ensures
            r@ == self@,
    {
        &self.queue
    }
}

impl<T> Period for Queue<T> {
    fn period(&self) -> (r: usize)
        ensures
            r == self.spec_period(),
    {
        self.period
    }
}

impl<T> Reset for Queue<T> {
    /// Clears the elements and keeps the period.
    fn reset(&mut self)
        ensures
            final(self)@ == Seq::<T>::empty(),
            final(self).spec_period() == old(self).spec_period(),
    {
        self.queue = Vec::with_capacity(self.period);
    }
}

} // verus!
