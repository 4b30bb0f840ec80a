//! The scale for categories. Each category owns a band of the range; where
//! the bands start and how wide they are is laid out by the chart and held
//! here as given.

use crate::rational::Rational;
use crate::scales::{Scale, ScaleError, ScaleKind};
use vstd::prelude::*;

verus! {

/// What a band scale holds: the categories in order, the pixel at which the
/// band of each starts, the width of one band, and the pixel range.
pub ghost struct BandView {
    pub domain: Seq<Seq<char>>,
    pub starts: Seq<Rational>,
    pub bandwidth: Rational,
    pub range: Seq<isize>,
}

impl BandView {
    /// Every category has a start, and the range holds two bounds.
    pub open spec fn defined(self) -> bool {
        self.domain.len() == self.starts.len() && self.range.len() == 2
    }

    /// The start of the first band from index `from` on whose category is
    /// `category`.
    pub open spec fn start_from(self, category: Seq<char>, from: int) -> Option<Rational>
        decreases self.domain.len() - from,
    {
        if from < 0 || from >= self.domain.len() {
            None
        } else if self.domain[from] == category {
            Some(self.starts[from])
        } else {
            self.start_from(category, from + 1)
        }
    }

    /// The pixel at which the band of `category` starts, or the error that
    /// the category is not in the domain.
    pub open spec fn scaled(self, category: Seq<char>) -> Result<Rational, ScaleError> {
        match self.start_from(category, 0) {
            Some(start) => Ok(start),
            None => Err(ScaleError::UnknownCategory),
        }
    }
}

/// The views of the strings, in order.
pub open spec fn texts(v: Seq<String>) -> Seq<Seq<char>> {
    v.map_values(|s: String| s@)
}

/// A copy of the strings.
pub fn copy_texts(values: &Vec<String>) -> (r: Vec<String>)
    ensures
        texts(r@) == texts(values@),
{
    let mut r: Vec<String> = Vec::new();
    let mut i: usize = 0;
    while i < values.len()
        invariant
            i <= values.len(),
            r@.len() == i,
            forall|k: int| 0 <= k < i ==> r@[k]@ == values@[k]@,
        decreases values.len() - i,
    {
        r.push(values[i].clone());
        i = i + 1;
    }
    assert(texts(r@) =~= texts(values@));
    r
}

/// The scale to represent categories.
#[derive(Debug, PartialEq)]
pub struct ScaleBand {
    /// The categories, in the order in which they are drawn.
    domain: Vec<String>,
    /// The pixel at which the band of each category starts.
    starts: Vec<Rational>,
    /// The width of one band in pixels.
    bandwidth: Rational,
    /// The range limits of the drawable area on the chart.
    range: Vec<isize>,
}

impl View for ScaleBand {
    type V = BandView;

    closed spec fn view(&self) -> BandView {
        BandView {
            domain: texts(self.domain@),
            starts: self.starts@,
            bandwidth: self.bandwidth,
            range: self.range@,
        }
    }
}

impl ScaleBand {
    /// Create a band scale from its layout.
    pub fn new(
        domain: Vec<String>,
        starts: Vec<Rational>,
        bandwidth: Rational,
        range: Vec<isize>,
    ) -> (s: Self)
        ensures
            s@ == (BandView { domain: texts(domain@), starts: starts@, bandwidth, range: range@ }),
    {
        ScaleBand { domain, starts, bandwidth, range }
    }

    /// Get the categories of the scale.
    pub fn domain(&self) -> (d: &Vec<String>)
        ensures
            texts(d@) == self@.domain,
    {
        &self.domain
    }

    /// Get the pixel at which the band of each category starts.
    pub fn starts(&self) -> (s: &Vec<Rational>)
        ensures
            s@ == self@.starts,
    {
        &self.starts
    }

    /// Get the width of one band.
    pub fn width(&self) -> (w: Rational)
        ensures
            w == self@.bandwidth,
    {
        self.bandwidth
    }

    /// Get the range limits of the scale.
    pub fn range(&self) -> (r: &Vec<isize>)
        ensures
            r@ == self@.range,
    {
        &self.range
    }
}

impl Scale<String> for ScaleBand {
    open spec fn defined(&self) -> bool {
        self@.defined()
    }

    /// Get the type of the scale.
    fn get_type(&self) -> (k: ScaleKind)
        ensures
            k == ScaleKind::Band,
    {
        ScaleKind::Band
    }

    /// Get the domain of the scale.
    fn get_domain(&self) -> (d: Vec<String>)
        ensures
            texts(d@) == self@.domain,
    {
        copy_texts(&self.domain)
    }

    /// A band scale has no upper bound.
    fn domain_max(&self) -> (m: Option<Rational>)
        ensures
            m is None,
    {
        None
    }

    /// Get the start of the band of the given category.
    fn scale(&self, domain: &String) -> (r: Result<Rational, ScaleError>)
        ensures
            r == self@.scaled(domain@),
    {
        let mut i: usize = 0;
        while i < self.domain.len()
            invariant
                i <= self.domain.len(),
                self@.defined(),
                self@.domain == texts(self.domain@),
                self@.starts == self.starts@,
                self@.start_from(domain@, 0) == self@.start_from(domain@, i as int),
            decreases self.domain.len() - i,
        {
            if self.domain[i] == *domain {
                return Ok(self.starts[i]);
            }
            i = i + 1;
        }
        Err(ScaleError::UnknownCategory)
    }

    /// Get the bandwidth (if present).
    fn bandwidth(&self) -> (b: Option<Rational>)
        ensures
            b == Some(self@.bandwidth),
    {
        Some(self.bandwidth)
    }

    /// Get the start range value.
    fn range_start(&self) -> (r: isize)
        ensures
            r == self@.range[0],
    {
        self.range[0]
    }

    /// Get the end range value.
    fn range_end(&self) -> (r: isize)
        ensures
            r == self@.range[1],
    {
        self.range[1]
    }

    /// Tell whether the range runs from a larger start to a smaller end.
    fn is_range_reversed(&self) -> (b: bool)
        ensures
            b == (self@.range[0] > self@.range[1]),
    {
        self.range[0] > self.range[1]
    }

    /// Get the list of ticks that represent the scale on a chart axis: the
    /// categories, in order.
    fn get_ticks(&self) -> (r: Result<Vec<String>, ScaleError>)
        ensures
            r matches Ok(t) && texts(t@) == self@.domain,
    {
        Ok(copy_texts(&self.domain))
    }
}

} // verus!
