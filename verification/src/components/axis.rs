//! The baseline of an axis and its ticks.

use crate::axis::AxisPosition;
use crate::markup::{
    group_add_line, group_add_text, group_markup, group_new, group_set, line_markup, line_new,
    line_set, text_new, text_set, Markup,
};
use crate::rational::Rational;
use crate::text::{billions, billions_text, integer_text, integer_to_string, pixels, pixels_text};
use vstd::prelude::*;

verus! {

/// Digits after the point that a tick offset is written with.
pub const OFFSET_PLACES: u8 = 6;

/// Why an axis or a part of it could not be drawn or built.
#[derive(Clone, Copy, Debug, PartialEq, Eq, Structural)]
pub enum AxisError {
    /// A number format is set, and the label of a tick is not a number.
    InvalidNumber,
    /// The formatted labels handed in are not one per tick.
    LabelCount,
    /// The scale could not give its ticks or map one of them.
    Scale(crate::scales::ScaleError),
}

/// The line element of the given end points and stroke.
pub open spec fn stroke_markup(
    x1: int,
    y1: int,
    x2: int,
    y2: int,
    width: Seq<char>,
) -> Markup {
    Markup::empty("line"@).with("x1"@, integer_text(x1)).with("y1"@, integer_text(y1)).with(
        "x2"@,
        integer_text(x2),
    ).with("y2"@, integer_text(y2)).with("shape-rendering"@, "crispEdges"@).with(
        "stroke-width"@,
        width,
    ).with("stroke"@, "#bbbbbb"@)
}

/// A line element of the given end points and stroke width.
fn stroke(x1: i128, y1: i128, x2: i128, y2: i128, width: &str) -> (line:
    svg::node::element::Line)
    ensures
        line_markup(line) == stroke_markup(x1 as int, y1 as int, x2 as int, y2 as int, width@),
{
    let line = line_new();
    let line = line_set(line, "x1", integer_to_string(x1).as_str());
    let line = line_set(line, "y1", integer_to_string(y1).as_str());
    let line = line_set(line, "x2", integer_to_string(x2).as_str());
    let line = line_set(line, "y2", integer_to_string(y2).as_str());
    let line = line_set(line, "shape-rendering", "crispEdges");
    let line = line_set(line, "stroke-width", width);
    line_set(line, "stroke", "#bbbbbb")
}

/// What an axis line holds: its two end points.
pub ghost struct AxisLineView {
    pub x1: isize,
    pub y1: isize,
    pub x2: isize,
    pub y2: isize,
}

/// A simple struct that represents an axis line.
#[derive(Clone, Copy, Debug, PartialEq, Eq)]
pub struct AxisLine {
    x1: isize,
    y1: isize,
    x2: isize,
    y2: isize,
}

impl View for AxisLine {
    type V = AxisLineView;

    closed spec fn view(&self) -> AxisLineView {
        AxisLineView { x1: self.x1, y1: self.y1, x2: self.x2, y2: self.y2 }
    }
}

impl AxisLine {
    /// The markup of the line: one stroke, one pixel wide, light gray, with
    /// crisp edges.
    pub open spec fn markup(self) -> Markup {
        stroke_markup(
            self@.x1 as int,
            self@.y1 as int,
            self@.x2 as int,
            self@.y2 as int,
            "1"@,
        )
    }

    /// Create a new instance of axis line.
    pub fn new(x1: isize, y1: isize, x2: isize, y2: isize) -> (line: Self)
        ensures
            line@ == (AxisLineView { x1, y1, x2, y2 }),
    {
        Self { x1, y1, x2, y2 }
    }

    /// Render the axis line to svg.
    pub fn to_svg(&self) -> (r: Result<svg::node::element::Line, AxisError>)
        ensures
            r matches Ok(line) && line_markup(line) == self.markup(),
    {
        Ok(stroke(self.x1 as i128, self.y1 as i128, self.x2 as i128, self.y2 as i128, "1"))
    }
}

/// Where the short stroke of a tick ends: six pixels from the axis, away
/// from the chart at the top and on the left, toward it at the bottom and on
/// the right.
pub open spec fn tick_end(position: AxisPosition) -> (int, int) {
    match position {
        AxisPosition::Left => (-6, 0),
        AxisPosition::Bottom => (0, 6),
        AxisPosition::Right => (6, 0),
        AxisPosition::Top => (0, -6),
    }
}

/// Where the label of a tick stands, `label_offset` pixels from the axis.
pub open spec fn label_at(position: AxisPosition, label_offset: int) -> (int, int) {
    match position {
        AxisPosition::Left => (-label_offset, 0),
        AxisPosition::Bottom => (0, label_offset),
        AxisPosition::Right => (label_offset, 0),
        AxisPosition::Top => (0, -label_offset),
    }
}

/// How the label of a tick is anchored.
pub open spec fn anchor(position: AxisPosition) -> Seq<char> {
    match position {
        AxisPosition::Left => "end"@,
        AxisPosition::Right => "start"@,
        AxisPosition::Bottom => "middle"@,
        AxisPosition::Top => "middle"@,
    }
}

/// The transform that moves a tick group to its offset: along the x axis on
/// a horizontal axis, along the y axis on a vertical one.
pub open spec fn shift(position: AxisPosition, offset: Seq<char>) -> Seq<char> {
    if position.horizontal() {
        "translate("@ + offset + ","@ + "0"@ + ")"@
    } else {
        "translate("@ + "0"@ + ","@ + offset + ")"@
    }
}

/// The rotation of a label by `angle` degrees about the point `(x, y)`.
pub open spec fn rotation(angle: int, x: int, y: int) -> Seq<char> {
    "rotate("@ + integer_text(angle) + ","@ + integer_text(x) + ","@ + integer_text(y) + ")"@
}

/// What a tick holds.
pub ghost struct AxisTickView {
    pub axis_position: AxisPosition,
    pub label_offset: usize,
    pub label_rotation: isize,
    pub tick_offset: Rational,
    pub label: Seq<char>,
    pub label_format: Option<Seq<char>>,
    pub label_font_size: Seq<char>,
}

impl AxisTickView {
    /// The text that the tick shows, given what the formatter made of the
    /// label: the label itself where no format is set; else the formatter's
    /// text with `G` for giga turned into `B` for billions. Nothing where a
    /// format is set and the formatter had no number to format.
    pub open spec fn shown(self, formatted: Option<Seq<char>>) -> Option<Seq<char>> {
        match self.label_format {
            None => Some(self.label),
            Some(_) => match formatted {
                Some(text) => Some(billions_text(text)),
                None => None,
            },
        }
    }

    /// The markup of the tick showing `text`: a shifted group of the short
    /// stroke and the label.
    pub open spec fn markup(self, text: Seq<char>) -> Markup {
        let end = tick_end(self.axis_position);
        let at = label_at(self.axis_position, self.label_offset as int);
        let label = Markup::empty("text"@).with_child(Markup::Text(text)).with(
            "transform"@,
            rotation(self.label_rotation as int, at.0, at.1),
        ).with("x"@, integer_text(at.0)).with("y"@, integer_text(at.1)).with("dy"@, ".35em"@).with(
            "text-anchor"@,
            anchor(self.axis_position),
        ).with("font-size"@, self.label_font_size).with("font-family"@, "sans-serif"@).with(
            "fill"@,
            "#777"@,
        );
        Markup::empty("g"@).with("class"@, "tick"@).with(
            "transform"@,
            shift(
                self.axis_position,
                self.tick_offset@.decimal_text(OFFSET_PLACES as nat),
            ),
        ).with_child(stroke_markup(0, 0, end.0, end.1, "1px"@)).with_child(label)
    }
}

/// A struct to represent an axis tick
#[derive(Debug)]
pub struct AxisTick {
    axis_position: AxisPosition,
    label_offset: usize,
    label_rotation: isize,
    tick_offset: Rational,
    label: String,
    label_format: Option<String>,
    label_font_size: String,
}

impl View for AxisTick {
    type V = AxisTickView;

    closed spec fn view(&self) -> AxisTickView {
        AxisTickView {
            axis_position: self.axis_position,
            label_offset: self.label_offset,
            label_rotation: self.label_rotation,
            tick_offset: self.tick_offset,
            label: self.label@,
            label_format: match self.label_format {
                Some(f) => Some(f@),
                None => None,
            },
            label_font_size: self.label_font_size@,
        }
    }
}

/// The view of an optional text.
pub open spec fn text_of(text: Option<&str>) -> Option<Seq<char>> {
    match text {
        Some(s) => Some(s@),
        None => None,
    }
}

impl AxisTick {
    /// Create a new instance of AxisTick. The font size of the label is
    /// twelve pixels unless one is given.
    pub fn new(
        tick_offset: Rational,
        label_offset: usize,
        label_rotation: isize,
        label: String,
        label_font_size_opt: Option<usize>,
        axis_position: AxisPosition,
    ) -> (tick: Self)
        ensures
            tick@ == (AxisTickView {
                axis_position,
                label_offset,
                label_rotation,
                tick_offset,
                label: label@,
                label_format: None,
                label_font_size: match label_font_size_opt {
                    Some(size) => pixels_text(size as nat),
                    None => pixels_text(12),
                },
            }),
    {
        let label_font_size = match label_font_size_opt {
            Some(size) => pixels(size),
            None => pixels(12),
        };
        Self {
            label_offset,
            tick_offset,
            label_rotation,
            label,
            axis_position,
            label_format: None,
            label_font_size,
        }
    }

    /// Set label rotation.
    pub fn set_label_rotation(&mut self, rotation: isize)
        ensures
            final(self)@ == (AxisTickView { label_rotation: rotation, ..old(self)@ }),
    {
        self.label_rotation = rotation;
    }

    /// Set label format.
    pub fn set_label_format(&mut self, format: &str)
        ensures
            final(self)@ == (AxisTickView { label_format: Some(format@), ..old(self)@ }),
    {
        self.label_format = Some(format.to_owned());
    }

    /// Set label font size.
    pub fn set_label_font_size(&mut self, size: usize)
        ensures
            final(self)@ == (AxisTickView {
                label_font_size: pixels_text(size as nat),
                ..old(self)@
            }),
    {
        self.label_font_size = pixels(size);
    }

    /// The font size of the label, as markup writes it.
    pub fn label_font_size(&self) -> (size: &String)
        ensures
            size@ == self@.label_font_size,
    {
        &self.label_font_size
    }

    /// The label as the scale gave it.
    pub fn label(&self) -> (label: &String)
        ensures
            label@ == self@.label,
    {
        &self.label
    }

    /// The position of the tick along the axis.
    pub fn tick_offset(&self) -> (offset: Rational)
        ensures
            offset == self@.tick_offset,
    {
        self.tick_offset
    }

    /// The rotation of the label in degrees.
    pub fn label_rotation(&self) -> (rotation: isize)
        ensures
            rotation == self@.label_rotation,
    {
        self.label_rotation
    }

    /// The number format of the label, if one is set.
    pub fn label_format(&self) -> (format: &Option<String>)
        ensures
            match *format {
                Some(f) => self@.label_format == Some(f@),
                None => self@.label_format is None,
            },
    {
        &self.label_format
    }

    /// Render the axis tick to svg. `formatted` is what the number formatter
    /// made of the label under the tick's format, or nothing where the label
    /// is not a number; it is not looked at where no format is set.
    pub fn to_svg(&self, formatted: Option<&str>) -> (r: Result<
        svg::node::element::Group,
        AxisError,
    >)
        ensures
            match self@.shown(text_of(formatted)) {
                Some(text) => r matches Ok(group) && group_markup(group) == self@.markup(text),
                None => r == Err::<svg::node::element::Group, AxisError>(AxisError::InvalidNumber),
            },
    {
        let formatted_label: String = match &self.label_format {
            None => self.label.clone(),
            Some(_) => match formatted {
                Some(text) => billions(text),
                None => {
                    return Err(AxisError::InvalidNumber);
                },
            },
        };
        let offset = self.tick_offset.to_decimal(OFFSET_PLACES);
        let lo: i128 = self.label_offset as i128;
        let mut transform = String::new();
        transform.append("translate(");
        let end: (i128, i128);
        let at: (i128, i128);
        let tick_label_text_anchor: &str;
        match self.axis_position {
            AxisPosition::Left => {
                transform.append("0");
                transform.append(",");
                transform.append(offset.as_str());
                end = (-6, 0);
                at = (-lo, 0);
                tick_label_text_anchor = "end";
            },
            AxisPosition::Bottom => {
                transform.append(offset.as_str());
                transform.append(",");
                transform.append("0");
                end = (0, 6);
                at = (0, lo);
                tick_label_text_anchor = "middle";
            },
            AxisPosition::Right => {
                transform.append("0");
                transform.append(",");
                transform.append(offset.as_str());
                end = (6, 0);
                at = (lo, 0);
                tick_label_text_anchor = "start";
            },
            AxisPosition::Top => {
                transform.append(offset.as_str());
                transform.append(",");
                transform.append("0");
                end = (0, -6);
                at = (0, -lo);
                tick_label_text_anchor = "middle";
            },
        }
        transform.append(")");
        assert(transform@ == shift(
            self@.axis_position,
            self@.tick_offset@.decimal_text(OFFSET_PLACES as nat),
        ));

        let group = group_new();
        let group = group_set(group, "class", "tick");
        let group = group_set(group, "transform", transform.as_str());

        let tick_line = stroke(0, 0, end.0, end.1, "1px");

        let mut rotate = String::new();
        rotate.append("rotate(");
        rotate.append(integer_to_string(self.label_rotation as i128).as_str());
        rotate.append(",");
        rotate.append(integer_to_string(at.0).as_str());
        rotate.append(",");
        rotate.append(integer_to_string(at.1).as_str());
        rotate.append(")");
        assert(rotate@ == rotation(self@.label_rotation as int, at.0 as int, at.1 as int));

        let tick_label = text_new(formatted_label.as_str());
        let tick_label = text_set(tick_label, "transform", rotate.as_str());
        let tick_label = text_set(tick_label, "x", integer_to_string(at.0).as_str());
        let tick_label = text_set(tick_label, "y", integer_to_string(at.1).as_str());
        let tick_label = text_set(tick_label, "dy", ".35em");
        let tick_label = text_set(tick_label, "text-anchor", tick_label_text_anchor);
        let tick_label = text_set(tick_label, "font-size", self.label_font_size.as_str());
        let tick_label = text_set(tick_label, "font-family", "sans-serif");
        let tick_label = text_set(tick_label, "fill", "#777");

        let group = group_add_line(group, tick_line);
        let group = group_add_text(group, tick_label);
        Ok(group)
    }
}

} // verus!
