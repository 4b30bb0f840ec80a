//! Scales: the mapping of data values onto a pixel range.

pub mod band;
pub mod linear;
pub mod logarithmic;
pub mod mapping;
pub mod ticks;

use crate::rational::Rational;
use crate::scales::band::ScaleBand;
use crate::scales::linear::ScaleLinear;
use crate::scales::logarithmic::ScaleLogarithmic;
use vstd::prelude::*;

verus! {

/// Why a scale could not answer.
#[derive(Clone, Copy, Debug, PartialEq, Eq, Structural)]
pub enum ScaleError {
    /// The value handed in does not belong to this kind of scale.
    KindMismatch,
    /// The exact result, or a step on the way to it, exceeds the machine
    /// representation.
    OutOfRange,
    /// The category is not in the scale's domain.
    UnknownCategory,
    /// The scale kind is declared but has no behaviour yet.
    Unimplemented,
    /// No step exists: the interval is empty or no tick is asked for.
    EmptySpan,
}

/// The kinds of scale.
#[derive(Clone, Copy, Debug, PartialEq, Eq, Structural)]
pub enum ScaleKind {
    Band,
    Linear,
    Logarithmic,
    Ordinal,
}

/// What a continuous scale holds: the domain bounds, the pixel range and the
/// number of ticks asked for.
pub ghost struct ContinuousView {
    pub domain: Seq<Rational>,
    pub range: Seq<isize>,
    pub tick_count: usize,
}

impl ContinuousView {
    /// Domain and range hold two bounds each.
    pub open spec fn defined(self) -> bool {
        self.domain.len() == 2 && self.range.len() == 2
    }

    /// The pixel that `x` maps to, or the error that the exact pixel has no
    /// 64-bit representation.
    pub open spec fn scaled(self, x: Rational) -> Result<Rational, ScaleError> {
        match crate::scales::linear::scaled(
            self.domain[0],
            self.domain[1],
            self.range[0],
            self.range[1],
            x,
        ) {
            Some(v) => Ok(v),
            None => Err(ScaleError::OutOfRange),
        }
    }
}

/// The operations that every scale offers.
pub trait Scale<T> {
    /// Domain and range are set, so that the scale can map and tick.
    spec fn defined(&self) -> bool;

    /// Get the type of the scale.
    fn get_type(&self) -> ScaleKind;

    /// Get the domain of the scale.
    fn get_domain(&self) -> Vec<T>;

    /// Get the upper bound of the domain, where the scale has one.
    fn domain_max(&self) -> Option<Rational>
        requires
            self.defined(),
    ;

    /// Get the range value for the given domain entry.
    fn scale(&self, domain: &T) -> Result<Rational, ScaleError>
        requires
            self.defined(),
    ;

    /// Get the bandwidth (if present).
    fn bandwidth(&self) -> Option<Rational>;

    /// Get the start range value.
    fn range_start(&self) -> isize
        requires
            self.defined(),
    ;

    /// Get the end range value.
    fn range_end(&self) -> isize
        requires
            self.defined(),
    ;

    /// Check whether the range is in reversed order, meaning the start is greater than the end.
    fn is_range_reversed(&self) -> bool
        requires
            self.defined(),
    ;

    /// Get the list of ticks that represent the scale on a chart axis.
    fn get_ticks(&self) -> Result<Vec<T>, ScaleError>
        requires
            self.defined(),
    ;
}

/// A scale of one of the kinds.
#[derive(Debug, PartialEq)]
pub enum ScaleType {
    Band(ScaleBand),
    Linear(ScaleLinear),
    Logarithmic(ScaleLogarithmic),
    /// Declared, without behaviour: every operation on it reports
    /// `Unimplemented`.
    Ordinal,
}

/// A value of the domain of one of the kinds of scale.
#[derive(Debug, PartialEq)]
pub enum ScaleDomainValue {
    Band(String),
    Linear(Rational),
    Logarithmic(Rational),
}

impl ScaleType {
    /// The scale inside is defined.
    pub open spec fn defined(&self) -> bool {
        match self {
            ScaleType::Band(s) => s@.defined(),
            ScaleType::Linear(s) => s@.defined(),
            ScaleType::Logarithmic(s) => s@.defined(),
            ScaleType::Ordinal => true,
        }
    }

    /// The start and the end of the range of the scale inside.
    pub open spec fn range(&self) -> Seq<isize> {
        match self {
            ScaleType::Band(s) => s@.range,
            ScaleType::Linear(s) => s@.range,
            ScaleType::Logarithmic(s) => s@.range,
            ScaleType::Ordinal => Seq::empty(),
        }
    }

    /// What `scale` answers.
    pub open spec fn scaled(&self, domain: &ScaleDomainValue) -> Result<Rational, ScaleError> {
        match (self, domain) {
            (ScaleType::Band(s), ScaleDomainValue::Band(d)) => s@.scaled(d@),
            (ScaleType::Linear(s), ScaleDomainValue::Linear(d)) => s@.scaled(*d),
            (ScaleType::Logarithmic(s), ScaleDomainValue::Logarithmic(d)) => s@.scaled(*d),
            (ScaleType::Ordinal, _) => Err(ScaleError::Unimplemented),
            _ => Err(ScaleError::KindMismatch),
        }
    }

    /// Get the range value for the given domain entry. A value of another
    /// kind than the scale is an error.
    pub fn scale(&self, domain: &ScaleDomainValue) -> (r: Result<Rational, ScaleError>)
        requires
            self.defined(),
        ensures
            r == self.scaled(domain),
    {
        match self {
            ScaleType::Band(s) => match domain {
                ScaleDomainValue::Band(d) => s.scale(d),
                _ => Err(ScaleError::KindMismatch),
            },
            ScaleType::Linear(s) => match domain {
                ScaleDomainValue::Linear(d) => s.scale(d),
                _ => Err(ScaleError::KindMismatch),
            },
            ScaleType::Logarithmic(s) => match domain {
                ScaleDomainValue::Logarithmic(d) => s.scale(d),
                _ => Err(ScaleError::KindMismatch),
            },
            ScaleType::Ordinal => Err(ScaleError::Unimplemented),
        }
    }

    /// Check whether the range is in reversed order, meaning the start is
    /// greater than the end.
    pub fn is_range_reversed(&self) -> (r: Result<bool, ScaleError>)
        requires
            self.defined(),
        ensures
            r == if *self is Ordinal {
                Err::<bool, ScaleError>(ScaleError::Unimplemented)
            } else {
                Ok::<bool, ScaleError>(self.range()[0] > self.range()[1])
            },
    {
        match self {
            ScaleType::Band(s) => Ok(s.is_range_reversed()),
            ScaleType::Linear(s) => Ok(s.is_range_reversed()),
            ScaleType::Logarithmic(s) => Ok(s.is_range_reversed()),
            ScaleType::Ordinal => Err(ScaleError::Unimplemented),
        }
    }

    /// Get the bandwidth: that of a band scale, nothing for every other kind.
    pub fn bandwidth(&self) -> (b: Option<Rational>)
        ensures
            b == match self {
                ScaleType::Band(s) => Some(s@.bandwidth),
                _ => None::<Rational>,
            },
    {
        match self {
            ScaleType::Band(s) => s.bandwidth(),
            _ => None,
        }
    }
}

} // verus!
