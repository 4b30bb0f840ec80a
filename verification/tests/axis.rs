use charts::axis::TickLabel;
use charts::{Axis, AxisError, AxisLine, AxisPosition, AxisTick, Rational, ScaleBand, ScaleError};
use charts::{ScaleLinear, ScaleLogarithmic, ScaleType, Viewport};
use format_num::NumberFormat;

fn q(n: i64, d: i64) -> Rational {
    Rational::new(n, d).unwrap()
}

fn hundred() -> ScaleType {
    ScaleType::Linear(ScaleLinear::new().set_domain(vec![q(0, 1), q(100, 1)]).set_range(vec![0, 500]))
}

fn chart() -> Viewport {
    Viewport::new(640, 481)
}

#[test]
fn calculate_px() {
    let string = NumberFormat::new().format(".3%", 0.7);
    let characters = string.len();
    let font_size = 14;
    let px = Axis::characters_to_px(characters, font_size);

    println!(
        "With the string {} we have characters {} and font size {} we get px {}",
        string, characters, font_size, px
    );

    assert_eq!(px, 81);
}

#[test]
fn tick_label_font_size_test_default() {
    let tick = AxisTick::new(q(16, 1), 16, 0, "label".to_owned(), None, AxisPosition::Bottom);

    assert_eq!(tick.label_font_size(), "12px");
}

#[test]
fn tick_label_font_size_test_updated() {
    let mut tick = AxisTick::new(q(16, 1), 16, 0, "label".to_owned(), None, AxisPosition::Bottom);

    tick.set_label_font_size(20);

    assert_eq!(tick.label_font_size(), "20px");
}

#[test]
fn tick_label_font_size_test_explicit() {
    let tick = AxisTick::new(q(16, 1), 16, 0, "label".to_owned(), Some(20), AxisPosition::Bottom);

    assert_eq!(tick.label_font_size(), "20px");
}

#[test]
fn characters_to_px_rounds_to_the_nearest_pixel() {
    // 12 + 6 * 14 * 0.7 = 70.8
    assert_eq!(Axis::characters_to_px(6, 14), 71);
    // 12 + 0.7 = 12.7, 12 + 1.4 = 13.4, 12 + 3.5 = 15.5
    assert_eq!(Axis::characters_to_px(1, 1), 13);
    assert_eq!(Axis::characters_to_px(1, 2), 13);
    assert_eq!(Axis::characters_to_px(1, 5), 16);
    assert_eq!(Axis::characters_to_px(0, 14), 12);
    assert_eq!(Axis::characters_to_px(10, 10), 82);
    assert_eq!(Axis::characters_to_px(usize::MAX, usize::MAX), i32::MAX);
    assert_eq!(Axis::characters_to_px(3_067_833_763, 1), 2_147_483_646);
    assert_eq!(Axis::characters_to_px(3_067_833_764, 1), i32::MAX);
}

#[test]
fn axis_line_markup() {
    let line = AxisLine::new(0, 0, 640, 0);
    assert_eq!(
        line.to_svg().unwrap().to_string(),
        "<line shape-rendering=\"crispEdges\" stroke=\"#bbbbbb\" stroke-width=\"1\" \
         x1=\"0\" x2=\"640\" y1=\"0\" y2=\"0\"/>"
    );
    let line = AxisLine::new(-1, 2, -3, 481);
    assert_eq!(
        line.to_svg().unwrap().to_string(),
        "<line shape-rendering=\"crispEdges\" stroke=\"#bbbbbb\" stroke-width=\"1\" \
         x1=\"-1\" x2=\"-3\" y1=\"2\" y2=\"481\"/>"
    );
}

fn tick_text(transform: &str, line: &str, label: &str) -> String {
    format!(
        "<g class=\"tick\" transform=\"{}\">\n\
         <line shape-rendering=\"crispEdges\" stroke=\"#bbbbbb\" stroke-width=\"1px\" {}/>\n\
         <text dy=\".35em\" fill=\"#777\" font-family=\"sans-serif\" {}>\nlabel\n</text>\n\
         </g>",
        transform, line, label
    )
}

#[test]
fn axis_tick_markup_by_position() {
    let make = |position| AxisTick::new(q(33, 2), 16, 0, "label".to_owned(), None, position);
    assert_eq!(
        make(AxisPosition::Bottom).to_svg(None).unwrap().to_string(),
        tick_text(
            "translate(16.5,0)",
            "x1=\"0\" x2=\"0\" y1=\"0\" y2=\"6\"",
            "font-size=\"12px\" text-anchor=\"middle\" transform=\"rotate(0,0,16)\" x=\"0\" y=\"16\""
        )
    );
    assert_eq!(
        make(AxisPosition::Top).to_svg(None).unwrap().to_string(),
        tick_text(
            "translate(16.5,0)",
            "x1=\"0\" x2=\"0\" y1=\"0\" y2=\"-6\"",
            "font-size=\"12px\" text-anchor=\"middle\" transform=\"rotate(0,0,-16)\" x=\"0\" y=\"-16\""
        )
    );
    assert_eq!(
        make(AxisPosition::Left).to_svg(None).unwrap().to_string(),
        tick_text(
            "translate(0,16.5)",
            "x1=\"0\" x2=\"-6\" y1=\"0\" y2=\"0\"",
            "font-size=\"12px\" text-anchor=\"end\" transform=\"rotate(0,-16,0)\" x=\"-16\" y=\"0\""
        )
    );
    assert_eq!(
        make(AxisPosition::Right).to_svg(None).unwrap().to_string(),
        tick_text(
            "translate(0,16.5)",
            "x1=\"0\" x2=\"6\" y1=\"0\" y2=\"0\"",
            "font-size=\"12px\" text-anchor=\"start\" transform=\"rotate(0,16,0)\" x=\"16\" y=\"0\""
        )
    );
}

#[test]
fn axis_tick_setters_show_in_the_markup() {
    let mut tick = AxisTick::new(q(-500, 3), 12, 0, "label".to_owned(), None, AxisPosition::Left);
    tick.set_label_rotation(-45);
    tick.set_label_font_size(9);
    assert_eq!(tick.label_rotation(), -45);
    assert_eq!(tick.tick_offset(), q(-500, 3));
    assert_eq!(tick.label(), "label");
    assert_eq!(
        tick.to_svg(None).unwrap().to_string(),
        tick_text(
            "translate(0,-166.666667)",
            "x1=\"0\" x2=\"-6\" y1=\"0\" y2=\"0\"",
            "font-size=\"9px\" text-anchor=\"end\" transform=\"rotate(-45,-12,0)\" x=\"-12\" y=\"0\""
        )
    );
}

#[test]
fn axis_tick_shows_the_formatted_label() {
    let mut tick =
        AxisTick::new(q(0, 1), 16, 0, "4200000000".to_owned(), None, AxisPosition::Bottom);
    assert_eq!(tick.label_format(), &None);
    // without a format the label is shown as it is, whatever the formatter made
    let plain = tick.to_svg(Some("4.2G")).unwrap().to_string();
    assert!(plain.contains("\n4200000000\n"));

    tick.set_label_format(".2s");
    assert_eq!(tick.label_format(), &Some(".2s".to_owned()));
    let formatted = NumberFormat::new().format(".2s", 4200000000u32);
    assert_eq!(formatted, "4.2G");
    let shown = tick.to_svg(Some(&formatted)).unwrap().to_string();
    assert!(shown.contains("\n4.2B\n"));
    assert!(!shown.contains("4200000000"));
}

#[test]
fn axis_tick_reports_a_label_that_is_no_number() {
    let mut tick = AxisTick::new(q(0, 1), 16, 0, "label".to_owned(), None, AxisPosition::Bottom);
    tick.set_label_format(".1%");
    assert_eq!(tick.to_svg(None).err(), Some(AxisError::InvalidNumber));
}

#[test]
fn axis_takes_its_geometry_from_position_and_chart() {
    let top = Axis::new_top_axis(&hundred(), &chart()).unwrap();
    let bottom = Axis::new_bottom_axis(&hundred(), &chart()).unwrap();
    let left = Axis::new_left_axis(&hundred(), &chart()).unwrap();
    let right = Axis::new_right_axis(&hundred(), &chart()).unwrap();
    for axis in [&top, &bottom, &left, &right] {
        assert_eq!(axis.ticks().len(), 11);
        assert!(!axis.has_label());
        assert_eq!(axis.upper_bound(), Some(q(100, 1)));
        assert_eq!(axis.label_format(), "");
        for (i, tick) in axis.ticks().iter().enumerate() {
            assert_eq!(tick.tick_offset(), q(50 * i as i64, 1));
            assert_eq!(tick.label(), &(10 * i).to_string());
            assert_eq!(tick.label_font_size(), "12px");
            assert_eq!(tick.label_rotation(), 0);
            assert_eq!(tick.label_format(), &None);
        }
    }
    assert_eq!(Axis::get_axis_length(AxisPosition::Top, &chart()), 640);
    assert_eq!(Axis::get_axis_length(AxisPosition::Bottom, &chart()), 640);
    assert_eq!(Axis::get_axis_length(AxisPosition::Left, &chart()), 481);
    assert_eq!(Axis::get_axis_length(AxisPosition::Right, &chart()), 481);
    assert_eq!(Axis::get_axis_line(AxisPosition::Top, &chart()), AxisLine::new(0, 0, 640, 0));
    assert_eq!(Axis::get_axis_line(AxisPosition::Bottom, &chart()), AxisLine::new(0, 0, 640, 0));
    assert_eq!(Axis::get_axis_line(AxisPosition::Left, &chart()), AxisLine::new(0, 0, 0, 481));
    assert_eq!(Axis::get_axis_line(AxisPosition::Right, &chart()), AxisLine::new(0, 0, 0, 481));
}

#[test]
fn axis_label_rotation_by_position() {
    assert_eq!(AxisPosition::Left.label_rotation(), -90);
    assert_eq!(AxisPosition::Right.label_rotation(), 90);
    assert_eq!(AxisPosition::Top.label_rotation(), 0);
    assert_eq!(AxisPosition::Bottom.label_rotation(), 0);
    assert!(AxisPosition::Top.is_horizontal() && AxisPosition::Bottom.is_horizontal());
    assert!(!AxisPosition::Left.is_horizontal() && !AxisPosition::Right.is_horizontal());
}

fn plain(axis: &Axis) -> Vec<Option<String>> {
    axis.ticks().iter().map(|_| None).collect()
}

fn label_line(svg: &str) -> String {
    let lines: Vec<&str> = svg.lines().collect();
    lines[lines.len() - 4].to_string()
}

#[test]
fn axis_label_placement() {
    // the formatted upper bound "100.000000" has ten characters: 12 + 12 * 12 * 0.7 = 112.8
    let upper = NumberFormat::new().format("", 100);
    assert_eq!(upper, "100.000000");
    let mut left = Axis::new_left_axis(&hundred(), &chart()).unwrap();
    left.set_axis_label("Speed".to_string());
    assert!(left.has_label());
    assert_eq!(left.calculate_y_for_label(&upper), 113);
    let svg = left.to_svg(&plain(&left), &upper).unwrap().to_string();
    assert!(svg.starts_with("<g class=\"y-axis\">\n<line "));
    assert!(svg.ends_with("\nSpeed\n</text>\n</g>"));
    assert_eq!(
        label_line(&svg),
        "<text fill=\"#777\" font-family=\"sans-serif\" font-size=\"14px\" text-anchor=\"middle\" \
         transform=\"rotate(-90)\" x=\"-240\" y=\"-113\">"
    );

    let mut right = Axis::new_right_axis(&hundred(), &chart()).unwrap();
    right.set_axis_label("Speed".to_string());
    right.set_axis_label_font_size(18);
    right.set_tick_label_font_size(20);
    // 12 + 12 * 20 * 0.7 = 180
    assert_eq!(right.calculate_y_for_label(&upper), 180);
    let svg = right.to_svg(&plain(&right), &upper).unwrap().to_string();
    assert_eq!(
        label_line(&svg),
        "<text fill=\"#777\" font-family=\"sans-serif\" font-size=\"18px\" text-anchor=\"middle\" \
         transform=\"rotate(90)\" x=\"240\" y=\"-180\">"
    );

    let mut top = Axis::new_top_axis(&hundred(), &chart()).unwrap();
    top.set_axis_label("Speed".to_string());
    assert_eq!(top.calculate_y_for_label(&upper), 42);
    let svg = top.to_svg(&plain(&top), &upper).unwrap().to_string();
    assert!(svg.starts_with("<g class=\"x-axis\">\n<line "));
    assert_eq!(
        label_line(&svg),
        "<text fill=\"#777\" font-family=\"sans-serif\" font-size=\"14px\" text-anchor=\"middle\" \
         transform=\"rotate(0)\" x=\"320\" y=\"-32\">"
    );

    let mut bottom = Axis::new_bottom_axis(&hundred(), &chart()).unwrap();
    bottom.set_axis_label("Speed".to_string());
    let svg = bottom.to_svg(&plain(&bottom), &upper).unwrap().to_string();
    assert_eq!(
        label_line(&svg),
        "<text fill=\"#777\" font-family=\"sans-serif\" font-size=\"14px\" text-anchor=\"middle\" \
         transform=\"rotate(0)\" x=\"320\" y=\"42\">"
    );
}

#[test]
fn axis_markup_holds_line_ticks_and_label_in_order() {
    let scale = ScaleType::Linear(
        ScaleLinear::new().set_domain(vec![q(0, 1), q(1, 1)]).set_range(vec![0, 10]).set_tick_count(2),
    );
    let mut axis = Axis::new_bottom_axis(&scale, &Viewport::new(10, 4)).unwrap();
    let without = axis.to_svg(&plain(&axis), "").unwrap().to_string();
    let tick = |offset: &str, label: &str| {
        format!(
            "<g class=\"tick\" transform=\"translate({},0)\">\n\
             <line shape-rendering=\"crispEdges\" stroke=\"#bbbbbb\" stroke-width=\"1px\" \
             x1=\"0\" x2=\"0\" y1=\"0\" y2=\"6\"/>\n\
             <text dy=\".35em\" fill=\"#777\" font-family=\"sans-serif\" font-size=\"12px\" \
             text-anchor=\"middle\" transform=\"rotate(0,0,16)\" x=\"0\" y=\"16\">\n{}\n</text>\n\
             </g>",
            offset, label
        )
    };
    let body = format!(
        "<g class=\"x-axis\">\n\
         <line shape-rendering=\"crispEdges\" stroke=\"#bbbbbb\" stroke-width=\"1\" \
         x1=\"0\" x2=\"10\" y1=\"0\" y2=\"0\"/>\n{}\n{}\n{}\n",
        tick("0", "0"),
        tick("5", "0.5"),
        tick("10", "1")
    );
    assert_eq!(without, format!("{}</g>", body));
    axis.set_axis_label("t".to_string());
    let with = axis.to_svg(&plain(&axis), "").unwrap().to_string();
    assert_eq!(
        with,
        format!(
            "{}<text fill=\"#777\" font-family=\"sans-serif\" font-size=\"14px\" \
             text-anchor=\"middle\" transform=\"rotate(0)\" x=\"5\" y=\"42\">\nt\n</text>\n</g>",
            body
        )
    );
}

#[test]
fn axis_setters_reach_every_tick() {
    let mut axis = Axis::new_left_axis(&hundred(), &chart()).unwrap();
    axis.set_tick_label_font_size(17);
    axis.set_tick_label_rotation(30);
    axis.set_tick_label_format(".0%");
    assert_eq!(axis.label_format(), ".0%");
    assert_eq!(axis.ticks().len(), 11);
    for tick in axis.ticks() {
        assert_eq!(tick.label_font_size(), "17px");
        assert_eq!(tick.label_rotation(), 30);
        assert_eq!(tick.label_format(), &Some(".0%".to_owned()));
    }
    let texts: Vec<Option<String>> = axis
        .ticks()
        .iter()
        .map(|t| t.label().parse::<f64>().ok().map(|v| NumberFormat::new().format(".0%", v)))
        .collect();
    let svg = axis.to_svg(&texts, "10000%").unwrap().to_string();
    assert_eq!(svg.matches("font-size=\"17px\"").count(), 11);
    assert_eq!(svg.matches("transform=\"rotate(30,-12,0)\"").count(), 11);
    assert!(svg.contains("\n5000%\n"));
}

#[test]
fn axis_reports_texts_that_do_not_match_the_ticks() {
    let mut axis = Axis::new_left_axis(&hundred(), &chart()).unwrap();
    assert_eq!(axis.to_svg(&vec![], "").err(), Some(AxisError::LabelCount));
    axis.set_tick_label_format(".0%");
    assert_eq!(axis.to_svg(&plain(&axis), "").err(), Some(AxisError::InvalidNumber));
}

#[test]
fn axis_is_a_snapshot_of_the_scale() {
    let scale = ScaleLinear::new().set_domain(vec![q(0, 1), q(100, 1)]).set_range(vec![0, 500]);
    let kind = ScaleType::Linear(scale);
    let axis = Axis::new_bottom_axis(&kind, &chart()).unwrap();
    let before: Vec<Rational> = axis.ticks().iter().map(|t| t.tick_offset()).collect();
    let changed = match kind {
        ScaleType::Linear(s) => ScaleType::Linear(s.set_domain(vec![q(0, 1), q(7, 1)])),
        other => other,
    };
    assert_eq!(Axis::new_bottom_axis(&changed, &chart()).unwrap().ticks().len(), 15);
    let after: Vec<Rational> = axis.ticks().iter().map(|t| t.tick_offset()).collect();
    assert_eq!(before, after);
}

#[test]
fn axis_of_a_band_scale_puts_ticks_in_the_middle_of_the_bands() {
    let scale = ScaleType::Band(ScaleBand::new(
        vec!["a".to_string(), "bcd".to_string(), "é€".to_string()],
        vec![q(0, 1), q(100, 3), q(200, 3)],
        q(100, 3),
        vec![0, 100],
    ));
    let axis = Axis::new_bottom_axis(&scale, &chart()).unwrap();
    let offsets: Vec<Rational> = axis.ticks().iter().map(|t| t.tick_offset()).collect();
    assert_eq!(offsets, vec![q(50, 3), q(50, 1), q(250, 3)]);
    let labels: Vec<&String> = axis.ticks().iter().map(|t| t.label()).collect();
    assert_eq!(labels, vec!["a", "bcd", "é€"]);
    assert_eq!(axis.upper_bound(), None);
    assert_eq!(Axis::calculate_max_tick_length(&scale), Ok(TickLabel::Band(3)));
    // the longest category has three characters: 12 + 3 * 12 * 0.7 = 37.2
    let left = Axis::new_left_axis(&scale, &chart()).unwrap();
    assert_eq!(left.calculate_y_for_label("ignored"), 37);
    assert_eq!(axis.calculate_y_for_label("ignored"), 42);
}

#[test]
fn axis_of_a_logarithmic_scale() {
    let scale = ScaleType::Logarithmic(ScaleLogarithmic::new().set_range(vec![0, 999]));
    let axis = Axis::new_right_axis(&scale, &chart()).unwrap();
    assert_eq!(axis.ticks().len(), 50);
    assert_eq!(axis.ticks()[1].tick_offset(), q(20, 1));
    assert_eq!(axis.ticks()[1].label(), "21");
    assert_eq!(Axis::calculate_max_tick_length(&scale), Ok(TickLabel::Linear(q(1000, 1))));
}

#[test]
fn axis_passes_on_what_the_scale_reports() {
    let ordinal = ScaleType::Ordinal;
    assert_eq!(
        Axis::new_top_axis(&ordinal, &chart()).err(),
        Some(AxisError::Scale(ScaleError::Unimplemented))
    );
    assert_eq!(
        Axis::calculate_max_tick_length(&ordinal),
        Err(AxisError::Scale(ScaleError::Unimplemented))
    );
    let far = ScaleType::Linear(
        ScaleLinear::new().set_domain(vec![q(0, 1), q(i64::MAX, 1)]).set_range(vec![0, 500]),
    );
    assert_eq!(
        Axis::generate_ticks(&far, AxisPosition::Left).err(),
        Some(AxisError::Scale(ScaleError::OutOfRange))
    );
    let unknown_start = ScaleType::Band(ScaleBand::new(
        vec!["a".to_string()],
        vec![q(i64::MAX, 1)],
        q(2, 1),
        vec![0, 100],
    ));
    assert_eq!(
        Axis::new_top_axis(&unknown_start, &chart()).err(),
        Some(AxisError::Scale(ScaleError::OutOfRange))
    );
}
