//! An axis along one edge of a chart: a scale laid against the edge, with
//! its baseline, its ticks and its label.
//!
//! An axis takes what it needs from the scale when it is built. A scale
//! changed afterwards leaves the axis as it is.

use crate::components::axis::{AxisError, AxisLine, AxisLineView, AxisTick, AxisTickView};
use crate::markup::{
    group_add_group, group_add_line, group_add_text, group_markup, group_new, group_set, text_new,
    text_set, Markup,
};
use crate::rational::{Fraction, Rational};
use crate::scales::band::{BandView, ScaleBand};
use crate::scales::linear::{is_linear_ticks, scale_value};
use crate::scales::logarithmic::is_logarithmic_ticks;
use crate::scales::{ContinuousView, Scale, ScaleError, ScaleType};
use crate::text::{integer_text, integer_to_string, pixels, pixels_text};
use vstd::prelude::*;

verus! {

/// Enum of possible axis positions on the chart.
#[derive(Copy, Clone, Debug, PartialEq, Eq, Structural)]
pub enum AxisPosition {
    Top,
    Right,
    Bottom,
    Left,
}

impl AxisPosition {
    /// The axis runs from left to right: it lies at the top or at the bottom.
    pub open spec fn horizontal(self) -> bool {
        self is Top || self is Bottom
    }

    /// Whether the axis runs from left to right.
    pub fn is_horizontal(&self) -> (b: bool)
        ensures
            b == self.horizontal(),
    {
        match self {
            AxisPosition::Top => true,
            AxisPosition::Bottom => true,
            AxisPosition::Left => false,
            AxisPosition::Right => false,
        }
    }

    /// The rotation of the axis label in degrees: none on a horizontal axis,
    /// a quarter turn on a vertical one, so that the text reads along the edge.
    pub open spec fn label_angle(self) -> int {
        match self {
            AxisPosition::Top => 0,
            AxisPosition::Bottom => 0,
            AxisPosition::Left => -90,
            AxisPosition::Right => 90,
        }
    }

    /// The rotation of the axis label in degrees.
    pub fn label_rotation(&self) -> (angle: i32)
        ensures
            angle == self.label_angle(),
            *self is Left ==> angle == -90,
            *self is Right ==> angle == 90,
            self.horizontal() ==> angle == 0,
    {
        match self {
            AxisPosition::Top => 0,
            AxisPosition::Bottom => 0,
            AxisPosition::Left => -90,
            AxisPosition::Right => 90,
        }
    }

    /// The class of the axis in markup.
    pub open spec fn class(self) -> Seq<char> {
        if self.horizontal() {
            "x-axis"@
        } else {
            "y-axis"@
        }
    }

    /// The distance of the tick labels from the axis line: sixteen pixels on
    /// a horizontal axis, twelve on a vertical one.
    pub open spec fn label_offset(self) -> usize {
        if self.horizontal() {
            16
        } else {
            12
        }
    }
}

/// The size of the drawing area of a chart.
#[derive(Clone, Copy, Debug, PartialEq, Eq, Structural)]
pub struct Viewport {
    pub width: isize,
    pub height: isize,
}

impl Viewport {
    /// A drawing area of the given size.
    pub fn new(width: isize, height: isize) -> (v: Self)
        ensures
            v == (Viewport { width, height }),
    {
        Viewport { width, height }
    }

    /// The width of the drawing area.
    pub fn get_view_width(&self) -> (w: isize)
        ensures
            w == self.width,
    {
        self.width
    }

    /// The height of the drawing area.
    pub fn get_view_height(&self) -> (h: isize)
        ensures
            h == self.height,
    {
        self.height
    }
}

/// A hint of how much room the tick labels take.
#[derive(Clone, Copy, Debug, PartialEq, Eq, Structural)]
pub enum TickLabel {
    /// The number of characters of the longest category.
    Band(usize),
    /// The upper bound of the domain.
    Linear(Rational),
    Ordinal(usize),
}

/// The pixels that `characters` characters of the given font size take:
/// `12 + 0.7 * characters * font_size` rounded to the nearest integer, a half
/// rounded up, and no more than the largest 32-bit integer.
pub open spec fn px_for(characters: int, font_size: int) -> int {
    let tenths = 120 + 7 * (characters * font_size);
    let rounded = (tenths + 5) / 10;
    if rounded > i32::MAX {
        i32::MAX as int
    } else {
        rounded
    }
}

/// Half of a length, rounded toward zero.
pub open spec fn half(length: int) -> int {
    if length >= 0 {
        length / 2
    } else {
        -((-length) / 2)
    }
}

/// The number of characters of the longest text; zero where there is none.
pub open spec fn longest(texts: Seq<Seq<char>>) -> nat
    decreases texts.len(),
{
    if texts.len() == 0 {
        0
    } else {
        let rest = longest(texts.drop_last());
        if texts.last().len() > rest {
            texts.last().len()
        } else {
            rest
        }
    }
}

/// The tick that an axis at `position` builds for a data value: at the
/// offset the scale gives, labelled with the value, unrotated, unformatted,
/// in the default font size.
pub open spec fn mark(position: AxisPosition, offset: Rational, label: Seq<char>) -> AxisTickView {
    AxisTickView {
        axis_position: position,
        label_offset: position.label_offset(),
        label_rotation: 0,
        tick_offset: offset,
        label,
        label_format: None,
        label_font_size: pixels_text(12),
    }
}

/// `r` holds one tick per offset, in order; or, where the scale failed on an
/// offset, the error of the first on which it failed.
pub open spec fn is_marks(
    r: Result<Seq<AxisTickView>, AxisError>,
    offsets: Seq<Result<Rational, ScaleError>>,
    labels: Seq<Seq<char>>,
    position: AxisPosition,
) -> bool {
    if forall|i: int| 0 <= i < offsets.len() ==> (#[trigger] offsets[i]) is Ok {
        &&& r matches Ok(v)
        &&& v.len() == offsets.len()
        &&& forall|i: int|
            0 <= i < v.len() ==> #[trigger] v[i] == mark(position, offsets[i]->Ok_0, labels[i])
    } else {
        exists|i: int|
            {
                &&& 0 <= i < offsets.len()
                &&& (#[trigger] offsets[i]) is Err
                &&& forall|j: int| 0 <= j < i ==> (#[trigger] offsets[j]) is Ok
                &&& r == Err::<Seq<AxisTickView>, AxisError>(AxisError::Scale(offsets[i]->Err_0))
            }
    }
}

/// The offsets of the ticks of a continuous scale: the pixel of each.
pub open spec fn continuous_offsets(scale: ContinuousView, ticks: Seq<Rational>) -> Seq<
    Result<Rational, ScaleError>,
> {
    Seq::new(ticks.len(), |i: int| scale.scaled(ticks[i]))
}

/// The labels of the ticks of a continuous scale: the decimal text of each.
pub open spec fn continuous_labels(ticks: Seq<Rational>) -> Seq<Seq<char>> {
    Seq::new(ticks.len(), |i: int| ticks[i]@.decimal_text(18))
}

/// `r` is built from what the continuous scale gave as its ticks.
pub open spec fn is_continuous_marks(
    r: Result<Seq<AxisTickView>, AxisError>,
    ticks: Result<Vec<Rational>, ScaleError>,
    scale: ContinuousView,
    position: AxisPosition,
) -> bool {
    match ticks {
        Err(e) => r == Err::<Seq<AxisTickView>, AxisError>(AxisError::Scale(e)),
        Ok(t) => is_marks(r, continuous_offsets(scale, t@), continuous_labels(t@), position),
    }
}

/// The middle of a band: its start and half the bandwidth.
pub open spec fn band_center(start: Rational, bandwidth: Rational) -> Option<Rational> {
    match Rational::narrow(bandwidth@.over(Fraction::integer(2))) {
        Some(h) => Rational::narrow(start@.plus(h@)),
        None => None,
    }
}

/// The offset of the tick of the `i`-th category: the middle of its band.
pub open spec fn band_offset(scale: BandView, i: int) -> Result<Rational, ScaleError> {
    match scale.scaled(scale.domain[i]) {
        Ok(start) => match band_center(start, scale.bandwidth) {
            Some(c) => Ok(c),
            None => Err(ScaleError::OutOfRange),
        },
        Err(e) => Err(e),
    }
}

/// The offsets of the ticks of a band scale.
pub open spec fn band_offsets(scale: BandView) -> Seq<Result<Rational, ScaleError>> {
    Seq::new(scale.domain.len(), |i: int| band_offset(scale, i))
}

/// `r` is what an axis at `position` builds from the scale as its ticks.
pub open spec fn is_generated(
    r: Result<Seq<AxisTickView>, AxisError>,
    scale: &ScaleType,
    position: AxisPosition,
) -> bool {
    match scale {
        ScaleType::Band(s) => is_marks(r, band_offsets(s@), s@.domain, position),
        ScaleType::Linear(s) => exists|ticks: Result<Vec<Rational>, ScaleError>| #[trigger]
            is_linear_ticks(ticks, s@.domain[0], s@.domain[1], s@.tick_count as int)
                && is_continuous_marks(r, ticks, s@, position),
        ScaleType::Logarithmic(s) => exists|ticks: Result<Vec<Rational>, ScaleError>| #[trigger]
            is_logarithmic_ticks(ticks, s@.domain[0], s@.domain[1], s@.tick_count as int)
                && is_continuous_marks(r, ticks, s@, position),
        ScaleType::Ordinal => r == Err::<Seq<AxisTickView>, AxisError>(
            AxisError::Scale(ScaleError::Unimplemented),
        ),
    }
}

/// The hint of the room that the tick labels of the scale take.
pub open spec fn hint(scale: &ScaleType) -> TickLabel {
    match scale {
        ScaleType::Band(s) => TickLabel::Band(longest(s@.domain) as usize),
        ScaleType::Linear(s) => TickLabel::Linear(s@.domain[1]),
        ScaleType::Logarithmic(s) => TickLabel::Linear(s@.domain[1]),
        ScaleType::Ordinal => TickLabel::Ordinal(0),
    }
}

/// The length of the edge that an axis at `position` lies along.
pub open spec fn edge(position: AxisPosition, chart: Viewport) -> isize {
    if position.horizontal() {
        chart.width
    } else {
        chart.height
    }
}

/// The baseline of an axis at `position`: from the origin along the edge.
pub open spec fn baseline(position: AxisPosition, chart: Viewport) -> AxisLineView {
    if position.horizontal() {
        AxisLineView { x1: 0, y1: 0, x2: chart.width, y2: 0 }
    } else {
        AxisLineView { x1: 0, y1: 0, x2: 0, y2: chart.height }
    }
}

/// The views of the ticks, in order.
pub open spec fn tick_views(ticks: Seq<AxisTick>) -> Seq<AxisTickView> {
    ticks.map_values(|t: AxisTick| t@)
}

/// What an axis holds.
pub ghost struct AxisView {
    pub ticks: Seq<AxisTickView>,
    pub tick_label_font_size: Option<usize>,
    pub max_tick_length: TickLabel,
    pub axis_line: AxisLineView,
    pub position: AxisPosition,
    pub label: Seq<char>,
    pub label_rotation: isize,
    pub label_format: Seq<char>,
    pub label_font_size: Seq<char>,
    pub length: isize,
}

impl AxisView {
    /// The axis as it is right after it was built from ticks.
    pub open spec fn fresh(
        ticks: Seq<AxisTickView>,
        scale: &ScaleType,
        position: AxisPosition,
        chart: Viewport,
    ) -> AxisView {
        AxisView {
            ticks,
            tick_label_font_size: None,
            max_tick_length: hint(scale),
            axis_line: baseline(position, chart),
            position,
            label: Seq::empty(),
            label_rotation: 0,
            label_format: Seq::empty(),
            label_font_size: pixels_text(14),
            length: edge(position, chart),
        }
    }

    /// The font size that the room for the tick labels is reckoned with.
    pub open spec fn font_size(self) -> int {
        match self.tick_label_font_size {
            Some(size) => size as int,
            None => 12,
        }
    }

    /// The distance of the axis label from the axis line, given the number
    /// of characters of the formatted upper bound of the domain.
    pub open spec fn label_distance(self, upper_bound_length: nat) -> int {
        match self.max_tick_length {
            TickLabel::Band(characters) => if self.position.horizontal() {
                42
            } else {
                px_for(characters as int, self.font_size())
            },
            TickLabel::Linear(_) => if self.position.horizontal() {
                42
            } else {
                px_for((upper_bound_length + 2) as int, self.font_size())
            },
            TickLabel::Ordinal(_) => 42,
        }
    }

    /// Where the axis label stands: in the middle of the axis, at its
    /// distance from the axis line on the side away from the chart.
    pub open spec fn label_at(self, upper_bound_length: nat) -> (int, int) {
        let y = self.label_distance(upper_bound_length);
        match self.position {
            AxisPosition::Top => (half(self.length as int), -(y - 10)),
            AxisPosition::Bottom => (half(self.length as int), y),
            AxisPosition::Left => (-half(self.length as int), -y),
            AxisPosition::Right => (half(self.length as int), -y),
        }
    }

    /// The markup of the axis label.
    pub open spec fn label_markup(self, upper_bound_length: nat) -> Markup {
        let at = self.label_at(upper_bound_length);
        Markup::empty("text"@).with_child(Markup::Text(self.label)).with(
            "x"@,
            integer_text(at.0),
        ).with("y"@, integer_text(at.1)).with("text-anchor"@, "middle"@).with(
            "font-size"@,
            self.label_font_size,
        ).with("font-family"@, "sans-serif"@).with("fill"@, "#777"@).with(
            "transform"@,
            "rotate("@ + integer_text(self.position.label_angle()) + ")"@,
        )
    }

    /// The markup of the axis up to and including its first `n` ticks, each
    /// showing its text.
    pub open spec fn partial_markup(self, texts: Seq<Seq<char>>, n: nat) -> Markup
        decreases n,
    {
        if n == 0 {
            Markup::empty("g"@).with("class"@, self.position.class()).with_child(
                crate::components::axis::stroke_markup(
                    self.axis_line.x1 as int,
                    self.axis_line.y1 as int,
                    self.axis_line.x2 as int,
                    self.axis_line.y2 as int,
                    "1"@,
                ),
            )
        } else {
            self.partial_markup(texts, (n - 1) as nat).with_child(
                self.ticks[n - 1].markup(texts[n - 1]),
            )
        }
    }

    /// The markup of the axis: a group of its class that holds the baseline,
    /// the ticks in order and, where the axis has a label, the label.
    pub open spec fn markup(self, texts: Seq<Seq<char>>, upper_bound_length: nat) -> Markup {
        let body = self.partial_markup(texts, self.ticks.len());
        if self.label.len() > 0 {
            body.with_child(self.label_markup(upper_bound_length))
        } else {
            body
        }
    }

    /// What `to_svg` answers, given the formatter's texts: the error that the
    /// texts are not one per tick; else the error of a tick that has nothing
    /// to show; else the markup.
    pub open spec fn drawn(
        self,
        r: Result<svg::node::element::Group, AxisError>,
        formatted: Seq<Option<Seq<char>>>,
        upper_bound_length: nat,
    ) -> bool {
        if formatted.len() != self.ticks.len() {
            r == Err::<svg::node::element::Group, AxisError>(AxisError::LabelCount)
        } else if exists|i: int|
            0 <= i < self.ticks.len() && (#[trigger] self.ticks[i]).shown(formatted[i]) is None {
            r == Err::<svg::node::element::Group, AxisError>(AxisError::InvalidNumber)
        } else {
            r matches Ok(group) && group_markup(group) == self.markup(
                Seq::new(self.ticks.len(), |i: int| self.ticks[i].shown(formatted[i])->Some_0),
                upper_bound_length,
            )
        }
    }
}

/// The views of the optional texts, in order.
pub open spec fn optional_texts(v: Seq<Option<String>>) -> Seq<Option<Seq<char>>> {
    v.map_values(
        |t: Option<String>|
            match t {
                Some(s) => Some(s@),
                None => None,
            },
    )
}

/// An axis struct that represents an axis along a dimension of the chart.
#[derive(Debug)]
pub struct Axis {
    ticks: Vec<AxisTick>,
    tick_label_font_size: Option<usize>,
    max_tick_length: TickLabel,
    axis_line: AxisLine,
    position: AxisPosition,
    label: String,
    label_rotation: isize,
    label_format: String,
    label_font_size: String,
    length: isize,
}

impl View for Axis {
    type V = AxisView;

    closed spec fn view(&self) -> AxisView {
        AxisView {
            ticks: tick_views(self.ticks@),
            tick_label_font_size: self.tick_label_font_size,
            max_tick_length: self.max_tick_length,
            axis_line: self.axis_line@,
            position: self.position,
            label: self.label@,
            label_rotation: self.label_rotation,
            label_format: self.label_format@,
            label_font_size: self.label_font_size@,
            length: self.length,
        }
    }
}

/// The result with the ticks replaced by their views.
pub open spec fn viewed(r: Result<Vec<AxisTick>, AxisError>) -> Result<Seq<AxisTickView>, AxisError> {
    match r {
        Ok(v) => Ok(tick_views(v@)),
        Err(e) => Err(e),
    }
}

/// The ticks for the values that a continuous scale gave.
fn continuous_marks(
    ticks: &Vec<Rational>,
    d0: &Rational,
    d1: &Rational,
    r0: isize,
    r1: isize,
    position: AxisPosition,
    Ghost(scale): Ghost<ContinuousView>,
) -> (r: Result<Vec<AxisTick>, AxisError>)
    requires
        scale.defined(),
        scale.domain[0] == *d0,
        scale.domain[1] == *d1,
        scale.range[0] == r0,
        scale.range[1] == r1,
    ensures
        is_marks(
            viewed(r),
            continuous_offsets(scale, ticks@),
            continuous_labels(ticks@),
            position,
        ),
{
    let ghost offsets = continuous_offsets(scale, ticks@);
    let ghost labels = continuous_labels(ticks@);
    let label_offset: usize = if position.is_horizontal() {
        16
    } else {
        12
    };
    let mut marks: Vec<AxisTick> = Vec::new();
    let mut i: usize = 0;
    while i < ticks.len()
        invariant
            i <= ticks.len(),
            marks@.len() == i,
            offsets == continuous_offsets(scale, ticks@),
            labels == continuous_labels(ticks@),
            label_offset == position.label_offset(),
            scale.defined(),
            scale.domain[0] == *d0,
            scale.domain[1] == *d1,
            scale.range[0] == r0,
            scale.range[1] == r1,
            forall|k: int| 0 <= k < i ==> (#[trigger] offsets[k]) is Ok,
            forall|k: int|
                0 <= k < i ==> (#[trigger] marks@[k])@ == mark(
                    position,
                    offsets[k]->Ok_0,
                    labels[k],
                ),
        decreases ticks.len() - i,
    {
        let tick = ticks[i];
        match scale_value(d0, d1, r0, r1, &tick) {
            Ok(offset) => {
                assert(offsets[i as int] == Ok::<Rational, ScaleError>(offset));
                marks.push(AxisTick::new(offset, label_offset, 0, tick.to_string(), None, position));
            },
            Err(e) => {
                assert(offsets[i as int] == Err::<Rational, ScaleError>(e));
                return Err(AxisError::Scale(e));
            },
        }
        i = i + 1;
    }
    assert(forall|k: int|
        0 <= k < marks@.len() ==> #[trigger] tick_views(marks@)[k] == mark(
            position,
            offsets[k]->Ok_0,
            labels[k],
        ));
    Ok(marks)
}

/// The ticks for the categories of a band scale.
fn band_marks(scale: &ScaleBand, position: AxisPosition) -> (r: Result<Vec<AxisTick>, AxisError>)
    requires
        scale@.defined(),
    ensures
        is_marks(viewed(r), band_offsets(scale@), scale@.domain, position),
{
    let ghost offsets = band_offsets(scale@);
    let label_offset: usize = if position.is_horizontal() {
        16
    } else {
        12
    };
    let categories = scale.domain();
    let bandwidth = scale.width();
    let two = Rational::from_i32(2);
    let half_width = bandwidth.checked_div(&two);
    let mut marks: Vec<AxisTick> = Vec::new();
    let mut i: usize = 0;
    while i < categories.len()
        invariant
            i <= categories.len(),
            marks@.len() == i,
            crate::scales::band::texts(categories@) == scale@.domain,
            offsets == band_offsets(scale@),
            label_offset == position.label_offset(),
            scale@.defined(),
            bandwidth == scale@.bandwidth,
            half_width == Rational::narrow(bandwidth@.over(Fraction::integer(2))),
            forall|k: int| 0 <= k < i ==> (#[trigger] offsets[k]) is Ok,
            forall|k: int|
                0 <= k < i ==> (#[trigger] marks@[k])@ == mark(
                    position,
                    offsets[k]->Ok_0,
                    scale@.domain[k],
                ),
        decreases categories.len() - i,
    {
        let category = &categories[i];
        assert(category@ == scale@.domain[i as int]);
        let offset: Result<Rational, ScaleError> = match scale.scale(category) {
            Ok(start) => match half_width {
                Some(h) => match start.checked_add(&h) {
                    Some(c) => Ok(c),
                    None => Err(ScaleError::OutOfRange),
                },
                None => Err(ScaleError::OutOfRange),
            },
            Err(e) => Err(e),
        };
        assert(offset == offsets[i as int]);
        match offset {
            Ok(c) => {
                marks.push(AxisTick::new(c, label_offset, 0, category.clone(), None, position));
            },
            Err(e) => {
                return Err(AxisError::Scale(e));
            },
        }
        i = i + 1;
    }
    assert(forall|k: int|
        0 <= k < marks@.len() ==> #[trigger] tick_views(marks@)[k] == mark(
            position,
            offsets[k]->Ok_0,
            scale@.domain[k],
        ));
    Ok(marks)
}

/// The number of characters of the longest category.
fn longest_text(values: &Vec<String>) -> (n: usize)
    ensures
        n == longest(crate::scales::band::texts(values@)),
{
    let ghost all = crate::scales::band::texts(values@);
    let mut n: usize = 0;
    let mut i: usize = 0;
    while i < values.len()
        invariant
            i <= values.len(),
            all == crate::scales::band::texts(values@),
            n == longest(all.subrange(0, i as int)),
        decreases values.len() - i,
    {
        let len = values[i].as_str().unicode_len();
        assert(all.subrange(0, i + 1).drop_last() == all.subrange(0, i as int));
        if len > n {
            n = len;
        }
        i = i + 1;
    }
    assert(all.subrange(0, values@.len() as int) == all);
    n
}

impl Axis {
    /// Create a new instance of an axis for a chart based on the provided scale and position.
    fn new(scale: &ScaleType, position: AxisPosition, chart: &Viewport) -> (r: Result<
        Self,
        AxisError,
    >)
        requires
            scale.defined(),
        ensures
            match r {
                Ok(axis) => is_generated(
                    Ok::<Seq<AxisTickView>, AxisError>(axis@.ticks),
                    scale,
                    position,
                ) && axis@ == AxisView::fresh(axis@.ticks, scale, position, *chart),
                Err(e) => is_generated(Err::<Seq<AxisTickView>, AxisError>(e), scale, position),
            },
    {
        let ticks = match Self::generate_ticks(scale, position) {
            Ok(ticks) => ticks,
            Err(e) => {
                return Err(e);
            },
        };
        let max_tick_length = match Self::calculate_max_tick_length(scale) {
            Ok(hint) => hint,
            Err(e) => {
                return Err(e);
            },
        };
        Ok(
            Self {
                ticks,
                tick_label_font_size: None,
                max_tick_length,
                position,
                axis_line: Self::get_axis_line(position, chart),
                label: String::new(),
                label_rotation: 0,
                label_format: String::new(),
                length: Self::get_axis_length(position, chart),
                label_font_size: pixels(14),
            },
        )
    }

    /// Create a new axis at the top of the chart.
    pub fn new_top_axis(scale: &ScaleType, chart: &Viewport) -> (r: Result<Self, AxisError>)
        requires
            scale.defined(),
        ensures
            match r {
                Ok(axis) => is_generated(
                    Ok::<Seq<AxisTickView>, AxisError>(axis@.ticks),
                    scale,
                    AxisPosition::Top,
                ) && axis@ == AxisView::fresh(axis@.ticks, scale, AxisPosition::Top, *chart),
                Err(e) => is_generated(
                    Err::<Seq<AxisTickView>, AxisError>(e),
                    scale,
                    AxisPosition::Top,
                ),
            },
    {
        Self::new(scale, AxisPosition::Top, chart)
    }

    /// Create a new axis to the right of the chart.
    pub fn new_right_axis(scale: &ScaleType, chart: &Viewport) -> (r: Result<Self, AxisError>)
        requires
            scale.defined(),
        ensures
            match r {
                Ok(axis) => is_generated(
                    Ok::<Seq<AxisTickView>, AxisError>(axis@.ticks),
                    scale,
                    AxisPosition::Right,
                ) && axis@ == AxisView::fresh(axis@.ticks, scale, AxisPosition::Right, *chart),
                Err(e) => is_generated(
                    Err::<Seq<AxisTickView>, AxisError>(e),
                    scale,
                    AxisPosition::Right,
                ),
            },
    {
        Self::new(scale, AxisPosition::Right, chart)
    }

    /// Create a new axis at the bottom of the chart.
    pub fn new_bottom_axis(scale: &ScaleType, chart: &Viewport) -> (r: Result<Self, AxisError>)
        requires
            scale.defined(),
        ensures
            match r {
                Ok(axis) => is_generated(
                    Ok::<Seq<AxisTickView>, AxisError>(axis@.ticks),
                    scale,
                    AxisPosition::Bottom,
                ) && axis@ == AxisView::fresh(axis@.ticks, scale, AxisPosition::Bottom, *chart),
                Err(e) => is_generated(
                    Err::<Seq<AxisTickView>, AxisError>(e),
                    scale,
                    AxisPosition::Bottom,
                ),
            },
    {
        Self::new(scale, AxisPosition::Bottom, chart)
    }

    /// Create a new axis to the left of the chart.
    pub fn new_left_axis(scale: &ScaleType, chart: &Viewport) -> (r: Result<Self, AxisError>)
        requires
            scale.defined(),
        ensures
            match r {
                Ok(axis) => is_generated(
                    Ok::<Seq<AxisTickView>, AxisError>(axis@.ticks),
                    scale,
                    AxisPosition::Left,
                ) && axis@ == AxisView::fresh(axis@.ticks, scale, AxisPosition::Left, *chart),
                Err(e) => is_generated(
                    Err::<Seq<AxisTickView>, AxisError>(e),
                    scale,
                    AxisPosition::Left,
                ),
            },
    {
        Self::new(scale, AxisPosition::Left, chart)
    }

    /// Set axis label.
    pub fn set_axis_label(&mut self, label: String)
        ensures
            final(self)@ == (AxisView { label: label@, ..old(self)@ }),
    {
        self.label = label;
    }

    /// Set font size for axis label.
    pub fn set_axis_label_font_size(&mut self, size: usize)
        ensures
            final(self)@ == (AxisView { label_font_size: pixels_text(size as nat), ..old(self)@ }),
    {
        self.label_font_size = pixels(size);
    }

    /// Set tick label rotation: on the axis and on every tick it holds.
    pub fn set_tick_label_rotation(&mut self, rotation: isize)
        ensures
            final(self)@ == (AxisView {
                label_rotation: rotation,
                ticks: old(self)@.ticks.map_values(
                    |t: AxisTickView| AxisTickView { label_rotation: rotation, ..t },
                ),
                ..old(self)@
            }),
    {
        self.label_rotation = rotation;
        let n = self.ticks.len();
        let mut i: usize = 0;
        while i < n
            invariant
                i <= n,
                n == self.ticks@.len(),
                self.ticks@.len() == old(self).ticks@.len(),
                self.tick_label_font_size == old(self).tick_label_font_size,
                self.max_tick_length == old(self).max_tick_length,
                self.axis_line == old(self).axis_line,
                self.position == old(self).position,
                self.label == old(self).label,
                self.label_rotation == rotation,
                self.label_format == old(self).label_format,
                self.label_font_size == old(self).label_font_size,
                self.length == old(self).length,
                forall|k: int|
                    0 <= k < i ==> (#[trigger] self.ticks@[k])@ == (AxisTickView {
                        label_rotation: rotation,
                        ..old(self).ticks@[k]@
                    }),
                forall|k: int| i <= k < n ==> (#[trigger] self.ticks@[k]) == old(self).ticks@[k],
            decreases n - i,
        {
            self.ticks[i].set_label_rotation(rotation);
            i = i + 1;
        }
        assert(tick_views(self.ticks@) =~= tick_views(old(self).ticks@).map_values(
            |t: AxisTickView| AxisTickView { label_rotation: rotation, ..t },
        ));
    }

    /// Set tick label font size: on the axis and on every tick it holds.
    pub fn set_tick_label_font_size(&mut self, size: usize)
        ensures
            final(self)@ == (AxisView {
                tick_label_font_size: Some(size),
                ticks: old(self)@.ticks.map_values(
                    |t: AxisTickView|
                        AxisTickView { label_font_size: pixels_text(size as nat), ..t },
                ),
                ..old(self)@
            }),
    {
        self.tick_label_font_size = Some(size);
        let n = self.ticks.len();
        let mut i: usize = 0;
        while i < n
            invariant
                i <= n,
                n == self.ticks@.len(),
                self.ticks@.len() == old(self).ticks@.len(),
                self.tick_label_font_size == Some(size),
                self.max_tick_length == old(self).max_tick_length,
                self.axis_line == old(self).axis_line,
                self.position == old(self).position,
                self.label == old(self).label,
                self.label_rotation == old(self).label_rotation,
                self.label_format == old(self).label_format,
                self.label_font_size == old(self).label_font_size,
                self.length == old(self).length,
                forall|k: int|
                    0 <= k < i ==> (#[trigger] self.ticks@[k])@ == (AxisTickView {
                        label_font_size: pixels_text(size as nat),
                        ..old(self).ticks@[k]@
                    }),
                forall|k: int| i <= k < n ==> (#[trigger] self.ticks@[k]) == old(self).ticks@[k],
            decreases n - i,
        {
            self.ticks[i].set_label_font_size(size);
            i = i + 1;
        }
        assert(tick_views(self.ticks@) =~= tick_views(old(self).ticks@).map_values(
            |t: AxisTickView| AxisTickView { label_font_size: pixels_text(size as nat), ..t },
        ));
    }

    /// Set the label format: on the axis and on every tick it holds.
    pub fn set_tick_label_format(&mut self, format: &str)
        ensures
            final(self)@ == (AxisView {
                label_format: format@,
                ticks: old(self)@.ticks.map_values(
                    |t: AxisTickView| AxisTickView { label_format: Some(format@), ..t },
                ),
                ..old(self)@
            }),
    {
        self.label_format = format.to_owned();
        let n = self.ticks.len();
        let mut i: usize = 0;
        while i < n
            invariant
                i <= n,
                n == self.ticks@.len(),
                self.ticks@.len() == old(self).ticks@.len(),
                self.tick_label_font_size == old(self).tick_label_font_size,
                self.max_tick_length == old(self).max_tick_length,
                self.axis_line == old(self).axis_line,
                self.position == old(self).position,
                self.label == old(self).label,
                self.label_rotation == old(self).label_rotation,
                self.label_format@ == format@,
                self.label_font_size == old(self).label_font_size,
                self.length == old(self).length,
                forall|k: int|
                    0 <= k < i ==> (#[trigger] self.ticks@[k])@ == (AxisTickView {
                        label_format: Some(format@),
                        ..old(self).ticks@[k]@
                    }),
                forall|k: int| i <= k < n ==> (#[trigger] self.ticks@[k]) == old(self).ticks@[k],
            decreases n - i,
        {
            self.ticks[i].set_label_format(format);
            i = i + 1;
        }
        assert(tick_views(self.ticks@) =~= tick_views(old(self).ticks@).map_values(
            |t: AxisTickView| AxisTickView { label_format: Some(format@), ..t },
        ));
    }

    /// Return whether the axis has a label or not.
    pub fn has_label(&self) -> (b: bool)
        ensures
            b == (self@.label.len() > 0),
    {
        self.label.as_str().unicode_len() > 0
    }

    /// The ticks of the axis, in order.
    pub fn ticks(&self) -> (ticks: &Vec<AxisTick>)
        ensures
            tick_views(ticks@) == self@.ticks,
    {
        &self.ticks
    }

    /// The upper bound of the domain that the room for the tick labels is
    /// reckoned from, on an axis of a continuous scale.
    pub fn upper_bound(&self) -> (bound: Option<Rational>)
        ensures
            bound == match self@.max_tick_length {
                TickLabel::Linear(b) => Some(b),
                _ => None::<Rational>,
            },
    {
        match self.max_tick_length {
            TickLabel::Linear(b) => Some(b),
            _ => None,
        }
    }

    /// The number format of the tick labels; empty where none is set.
    pub fn label_format(&self) -> (format: &String)
        ensures
            format@ == self@.label_format,
    {
        &self.label_format
    }

    /// Compute the length of the axis.
    pub fn get_axis_length(position: AxisPosition, chart: &Viewport) -> (length: isize)
        ensures
            length == edge(position, *chart),
    {
        if position.is_horizontal() {
            chart.get_view_width()
        } else {
            chart.get_view_height()
        }
    }

    /// Calculate analogue for the length of the tick labels.
    pub fn calculate_max_tick_length(scale: &ScaleType) -> (r: Result<TickLabel, AxisError>)
        requires
            scale.defined(),
        ensures
            r == if *scale is Ordinal {
                Err::<TickLabel, AxisError>(AxisError::Scale(ScaleError::Unimplemented))
            } else {
                Ok::<TickLabel, AxisError>(hint(scale))
            },
    {
        match scale {
            ScaleType::Band(s) => Ok(TickLabel::Band(longest_text(s.domain()))),
            ScaleType::Linear(s) => Ok(TickLabel::Linear(s.domain()[1])),
            ScaleType::Logarithmic(s) => Ok(TickLabel::Linear(s.domain()[1])),
            ScaleType::Ordinal => Err(AxisError::Scale(ScaleError::Unimplemented)),
        }
    }

    /// Calculate the y position for the label. `upper_bound_text` is what the
    /// number formatter made of the upper bound of the domain under the
    /// axis's format; only its length counts, and only on a vertical axis of
    /// a continuous scale.
    pub fn calculate_y_for_label(&self, upper_bound_text: &str) -> (y: i32)
        ensures
            y == self@.label_distance(upper_bound_text@.len()),
    {
        let font_size: usize = match self.tick_label_font_size {
            Some(font_size) => font_size,
            None => 12,
        };
        match self.max_tick_length {
            TickLabel::Band(characters) => {
                let calculated = Axis::characters_to_px(characters, font_size);
                match self.position {
                    AxisPosition::Top => 42,
                    AxisPosition::Bottom => 42,
                    AxisPosition::Left => calculated,
                    AxisPosition::Right => calculated,
                }
            },
            TickLabel::Linear(_) => {
                let characters: u128 = upper_bound_text.unicode_len() as u128 + 2;
                let calculated = px(characters, font_size as u128);
                match self.position {
                    AxisPosition::Top => 42,
                    AxisPosition::Bottom => 42,
                    AxisPosition::Left => calculated,
                    AxisPosition::Right => calculated,
                }
            },
            TickLabel::Ordinal(_size) => 42,
        }
    }

    /// The pixels that `characters` characters of the given font size take.
    pub fn characters_to_px(characters: usize, font_size: usize) -> (pixels: i32)
        ensures
            pixels == px_for(characters as int, font_size as int),
    {
        px(characters as u128, font_size as u128)
    }

    /// Generate svg for the axis. `tick_texts` holds, for each tick in order,
    /// what the number formatter made of its label, or nothing where the
    /// label is not a number; `upper_bound_text` is what it made of the upper
    /// bound of the domain.
    pub fn to_svg(&self, tick_texts: &Vec<Option<String>>, upper_bound_text: &str) -> (r: Result<
        svg::node::element::Group,
        AxisError,
    >)
        ensures
            self@.drawn(r, optional_texts(tick_texts@), upper_bound_text@.len()),
    {
        let ghost formatted = optional_texts(tick_texts@);
        if tick_texts.len() != self.ticks.len() {
            return Err(AxisError::LabelCount);
        }
        let axis_class = match self.position {
            AxisPosition::Top => "x-axis",
            AxisPosition::Bottom => "x-axis",
            AxisPosition::Left => "y-axis",
            AxisPosition::Right => "y-axis",
        };
        let line = match self.axis_line.to_svg() {
            Ok(line) => line,
            Err(e) => {
                return Err(e);
            },
        };
        let mut group = group_add_line(group_set(group_new(), "class", axis_class), line);
        let ghost all = Seq::new(
            self@.ticks.len(),
            |i: int| self@.ticks[i].shown(formatted[i])->Some_0,
        );
        let mut i: usize = 0;
        while i < self.ticks.len()
            invariant
                i <= self.ticks.len(),
                tick_texts@.len() == self.ticks@.len(),
                formatted == optional_texts(tick_texts@),
                all == Seq::new(
                    self@.ticks.len(),
                    |i: int| self@.ticks[i].shown(formatted[i])->Some_0,
                ),
                forall|k: int| 0 <= k < i ==> (#[trigger] self@.ticks[k]).shown(formatted[k]) is Some,
                group_markup(group) == self@.partial_markup(all, i as nat),
            decreases self.ticks.len() - i,
        {
            let text: Option<&str> = match &tick_texts[i] {
                Some(t) => Some(t.as_str()),
                None => None,
            };
            assert(crate::components::axis::text_of(text) == formatted[i as int]);
            assert(self@.ticks[i as int] == self.ticks@[i as int]@);
            match self.ticks[i].to_svg(text) {
                Ok(tick) => {
                    group = group_add_group(group, tick);
                },
                Err(e) => {
                    return Err(e);
                },
            }
            i = i + 1;
        }
        if self.has_label() {
            let y: i128 = self.calculate_y_for_label(upper_bound_text) as i128;
            let length: i128 = self.length as i128;
            let middle: i128 = if length >= 0 {
                length / 2
            } else {
                -((-length) / 2)
            };
            let (x, y, rotate): (i128, i128, i128) = match self.position {
                AxisPosition::Top => (middle, -(y - 10), 0),
                AxisPosition::Bottom => (middle, y, 0),
                AxisPosition::Left => (-middle, -y, -90),
                AxisPosition::Right => (middle, -y, 90),
            };
            let mut transform = String::new();
            transform.append("rotate(");
            transform.append(integer_to_string(rotate).as_str());
            transform.append(")");
            let axis_label = text_new(self.label.as_str());
            let axis_label = text_set(axis_label, "x", integer_to_string(x).as_str());
            let axis_label = text_set(axis_label, "y", integer_to_string(y).as_str());
            let axis_label = text_set(axis_label, "text-anchor", "middle");
            let axis_label = text_set(axis_label, "font-size", self.label_font_size.as_str());
            let axis_label = text_set(axis_label, "font-family", "sans-serif");
            let axis_label = text_set(axis_label, "fill", "#777");
            let axis_label = text_set(axis_label, "transform", transform.as_str());
            group = group_add_text(group, axis_label);
        }
        Ok(group)
    }

    /// Generate ticks for the axis based on the scale and position.
    pub fn generate_ticks(scale: &ScaleType, position: AxisPosition) -> (r: Result<
        Vec<AxisTick>,
        AxisError,
    >)
        requires
            scale.defined(),
        ensures
            is_generated(viewed(r), scale, position),
    {
        match scale {
            ScaleType::Band(s) => band_marks(s, position),
            ScaleType::Linear(s) => {
                let ticks = s.get_ticks();
                match ticks {
                    Ok(t) => {
                        let r = continuous_marks(
                            &t,
                            &s.domain()[0],
                            &s.domain()[1],
                            s.range()[0],
                            s.range()[1],
                            position,
                            Ghost(s@),
                        );
                        assert(is_continuous_marks(viewed(r), ticks, s@, position));
                        r
                    },
                    Err(e) => {
                        assert(is_continuous_marks(
                            Err::<Seq<AxisTickView>, AxisError>(AxisError::Scale(e)),
                            ticks,
                            s@,
                            position,
                        ));
                        Err(AxisError::Scale(e))
                    },
                }
            },
            ScaleType::Logarithmic(s) => {
                let ticks = s.get_ticks();
                match ticks {
                    Ok(t) => {
                        let r = continuous_marks(
                            &t,
                            &s.domain()[0],
                            &s.domain()[1],
                            s.range()[0],
                            s.range()[1],
                            position,
                            Ghost(s@),
                        );
                        assert(is_continuous_marks(viewed(r), ticks, s@, position));
                        r
                    },
                    Err(e) => {
                        assert(is_continuous_marks(
                            Err::<Seq<AxisTickView>, AxisError>(AxisError::Scale(e)),
                            ticks,
                            s@,
                            position,
                        ));
                        Err(AxisError::Scale(e))
                    },
                }
            },
            ScaleType::Ordinal => Err(AxisError::Scale(ScaleError::Unimplemented)),
        }
    }

    /// Generate the line that represents the axis.
    pub fn get_axis_line(position: AxisPosition, chart: &Viewport) -> (line: AxisLine)
        ensures
            line@ == baseline(position, *chart),
    {
        match position {
            AxisPosition::Top => AxisLine::new(0, 0, chart.get_view_width(), 0),
            AxisPosition::Right => AxisLine::new(0, 0, 0, chart.get_view_height()),
            AxisPosition::Bottom => AxisLine::new(0, 0, chart.get_view_width(), 0),
            AxisPosition::Left => AxisLine::new(0, 0, 0, chart.get_view_height()),
        }
    }
}

/// The pixels that `characters` characters of the given font size take.
fn px(characters: u128, font_size: u128) -> (pixels: i32)
    requires
        characters <= 0x1_0000_0000_0000_0001,
        font_size <= 0xffff_ffff_ffff_ffff,
    ensures
        pixels == px_for(characters as int, font_size as int),
{
    assert(0 <= characters * font_size <= 0x1_0000_0000_0000_0001 * 0xffff_ffff_ffff_ffff)
        by (nonlinear_arith)
        requires
            0 <= characters <= 0x1_0000_0000_0000_0001,
            0 <= font_size <= 0xffff_ffff_ffff_ffff,
    ;
    let n: u128 = characters * font_size;
    if n >= 3_067_833_764 {
        i32::MAX
    } else {
        ((125 + 7 * n) / 10) as i32
    }
}

} // verus!
