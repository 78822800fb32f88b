use gcode_analyzer::emit::Emit;
use gcode_analyzer::file::{check_extension, ExtensionError};
use gcode_analyzer::layers::{drop_repeats, layers_of, sort_ascending};
use gcode_analyzer::numbers::parse_decimal;
use gcode_analyzer::purge::steps_agree;
use gcode_analyzer::{
    Command, Counter, GCodeLine, GCodeModel, GCodeParseError, Id, Microns, PurgeConfig, Tag, G1,
};

fn chars(s: &str) -> Vec<char> {
    s.chars().collect()
}

fn decimal(s: &str) -> Option<Microns> {
    parse_decimal(&chars(s))
}

#[test]
fn amounts_add_and_saturate() {
    assert_eq!(Microns(1500) + Microns(-500), Microns(1000));
    assert_eq!(Microns(i32::MAX) + Microns(1), Microns(i32::MAX));
    assert_eq!(Microns(i32::MIN) + Microns(-1), Microns(i32::MIN));
    assert_eq!(Microns(i32::MIN) + Microns(5), Microns(i32::MIN + 5));
}

#[test]
fn amounts_subtract_and_saturate() {
    assert_eq!(Microns(1500) - Microns(500), Microns(1000));
    assert_eq!(Microns(i32::MIN) - Microns(1), Microns(i32::MIN));
    assert_eq!(Microns(i32::MAX) - Microns(-1), Microns(i32::MAX));
    assert_eq!(Microns(0) - Microns(i32::MIN), Microns(i32::MAX));
    assert_eq!(Microns(i32::MIN) - Microns(i32::MIN), Microns(0));
}

#[test]
fn the_magnitude_of_an_amount() {
    assert_eq!(Microns(-7).abs(), Microns(7));
    assert_eq!(Microns(7).abs(), Microns(7));
    assert_eq!(Microns(0).abs(), Microns(0));
    assert_eq!(Microns(i32::MIN + 1).abs(), Microns(i32::MAX));
}

#[test]
fn zero_and_unset() {
    assert_eq!(Microns::zero(), Microns(0));
    assert_eq!(Microns::unset(), Microns(i32::MIN));
    assert!(Microns::unset() < Microns::zero());
    assert!(Microns(1) > Microns::zero());
}

#[test]
fn the_default_limits() {
    assert_eq!(
        PurgeConfig::default(),
        PurgeConfig {
            margin: Microns(2000),
            slope_tolerance_ppm: 0
        }
    );
}

#[test]
fn decimal_numbers_are_read_in_thousandths() {
    assert_eq!(decimal("1"), Some(Microns(1000)));
    assert_eq!(decimal("1.0"), Some(Microns(1000)));
    assert_eq!(decimal("0.2"), Some(Microns(200)));
    assert_eq!(decimal("12.345"), Some(Microns(12345)));
    assert_eq!(decimal("-2.5"), Some(Microns(-2500)));
    assert_eq!(decimal("+2.5"), Some(Microns(2500)));
    assert_eq!(decimal(".5"), Some(Microns(500)));
    assert_eq!(decimal("5."), Some(Microns(5000)));
    assert_eq!(decimal("-.25"), Some(Microns(-250)));
    assert_eq!(decimal("007"), Some(Microns(7000)));
    assert_eq!(decimal("0"), Some(Microns(0)));
    assert_eq!(decimal("-0"), Some(Microns(0)));
}

#[test]
fn places_behind_the_third_are_cut_off() {
    assert_eq!(decimal("1.2345"), Some(Microns(1234)));
    assert_eq!(decimal("1.9999"), Some(Microns(1999)));
    assert_eq!(decimal("-1.9999"), Some(Microns(-1999)));
    assert_eq!(decimal("0.000000001"), Some(Microns(0)));
    assert_eq!(decimal("-0.0004"), Some(Microns(0)));
}

#[test]
fn amounts_out_of_range_saturate() {
    assert_eq!(decimal("2147483.647"), Some(Microns(i32::MAX)));
    assert_eq!(decimal("2147483.648"), Some(Microns(i32::MAX)));
    assert_eq!(decimal("2147484"), Some(Microns(i32::MAX)));
    assert_eq!(decimal("99999999999999999999999999"), Some(Microns(i32::MAX)));
    assert_eq!(decimal("-2147483.647"), Some(Microns(-i32::MAX)));
    assert_eq!(decimal("-2147483.648"), Some(Microns(i32::MIN)));
    assert_eq!(decimal("-99999999999999999999999999"), Some(Microns(i32::MIN)));
    assert_eq!(decimal("2999999.999"), Some(Microns(i32::MAX)));
    assert_eq!(decimal("3000000"), Some(Microns(i32::MAX)));
}

#[test]
fn what_is_no_decimal_number_names_no_amount() {
    for text in ["", ".", "+", "-", "-.", "1.2.3", "1-2", "--1", "1.2+-0.0001", "1e5", "x", "1 ", "٣"] {
        assert_eq!(decimal(text), None, "{}", text);
    }
}

#[test]
fn amounts_are_written_in_millimeters() {
    let cases = [
        (0, "G1 X0"),
        (1, "G1 X0.001"),
        (10, "G1 X0.01"),
        (100, "G1 X0.1"),
        (120, "G1 X0.12"),
        (1000, "G1 X1"),
        (1050, "G1 X1.05"),
        (-500, "G1 X-0.5"),
        (-2000, "G1 X-2"),
        (123456789, "G1 X123456.789"),
        (i32::MAX, "G1 X2147483.647"),
        (i32::MIN, "G1 X-2147483.648"),
    ];
    for (amount, expected) in cases {
        let command = Command::G1(G1 {
            x: Some(Microns(amount)),
            ..Default::default()
        });
        assert_eq!(command.to_string(), expected);
    }
}

#[test]
fn emit_puts_a_blank_behind_each_part() {
    let g = G1 {
        x: Some(Microns(1000)),
        y: None,
        z: Some(Microns(-250)),
        e: Some(Microns(11)),
        f: Some(Microns(1800000)),
        tag: Tag::Extrusion,
    };
    assert_eq!(g.emit(false), "G1 X1 Z-0.25 E0.011 F1800 ");
    assert_eq!(g.emit(true), "G1 X1 Z-0.25 E0.011 F1800 ");
    assert_eq!(G1::default().emit(false), "G1 ");
    assert_eq!(Command::G1(g.clone()).emit(false), "G1 X1 Z-0.25 E0.011 F1800 ");
    assert_eq!(Command::G1(g.clone()).to_string() + " ", g.emit(false));
}

#[test]
fn every_command_can_be_written() {
    assert_eq!(Command::G90.emit(false), "G90");
    assert_eq!(Command::G91.emit(false), "G91");
    assert_eq!(Command::M82.emit(false), "M82");
    assert_eq!(Command::M83.emit(false), "M83");
    assert_eq!(Command::Raw(String::from("M104 S200")).emit(false), "M104 S200");
    assert_eq!(Command::Home(String::from("G28 X")).emit(false), "G28 X");
    assert_eq!(Command::G90.to_string(), "G90");
    assert_eq!(Command::G91.to_string(), "G91");
    assert_eq!(Command::M82.to_string(), "M82");
    assert_eq!(Command::M83.to_string(), "M83");
    assert_eq!(Command::Raw(String::from(" T0 ")).to_string(), " T0 ");
    assert_eq!(Command::Home(String::from("G28")).to_string(), "G28");
}

#[test]
fn a_line_is_written_with_its_comment() {
    let line = GCodeLine {
        id: Id(0),
        command: Command::G90,
        comments: String::from(" absolute"),
    };
    assert_eq!(line.emit(false), "G90; absolute");
    assert_eq!(line.to_string(), "G90; absolute");
    let bare = GCodeLine {
        id: Id(1),
        command: Command::G1(G1 {
            x: Some(Microns(1500)),
            ..Default::default()
        }),
        comments: String::new(),
    };
    assert_eq!(bare.emit(false), "G1 X1.5 ");
    assert_eq!(bare.to_string(), "G1 X1.5");
}

#[test]
fn a_model_is_written_line_by_line() {
    let model: GCodeModel = "G90\nG1 X1.50 Y2;move\n\n  M83 ; relative\nfoo".parse().unwrap();
    assert_eq!(model.to_string(), "G90\nG1 X1.5 Y2;move\nM83; relative\nfoo\n");
    assert_eq!(model.emit(false), "G90\nG1 X1.5 Y2 ;move\nM83; relative\nfoo\n");
    assert_eq!(GCodeModel::default().to_string(), "");
    assert_eq!(GCodeModel::default().emit(false), "");
}

#[test]
fn tags_without_a_move() {
    let mut model = GCodeModel::default();
    for g in [
        G1 { z: Some(Microns(5)), ..Default::default() },
        G1 { z: Some(Microns(-5)), ..Default::default() },
        G1 { x: Some(Microns(5)), ..Default::default() },
        G1 { y: Some(Microns(-5)), z: Some(Microns(1)), ..Default::default() },
        G1 { x: Some(Microns(0)), e: Some(Microns(1)), ..Default::default() },
    ] {
        let id = model.id_counter.get();
        model.lines.push(GCodeLine { id, command: Command::G1(g), comments: String::new() });
    }
    let id = model.id_counter.get();
    model.lines.push(GCodeLine { id, command: Command::G90, comments: String::from("c") });
    model.tag_g1();
    let tags: Vec<Tag> = model.lines.iter().map(|l| l.command.tag()).collect();
    assert_eq!(
        tags,
        vec![
            Tag::RaiseZ,
            Tag::LowerZ,
            Tag::Travel,
            Tag::Travel,
            Tag::DeRetraction,
            Tag::Uninitialized
        ]
    );
    assert_eq!(model.lines[5].command, Command::G90);
    assert_eq!(model.lines[5].comments, "c");
    assert_eq!(model.lines[2].id, Id(2));
}

#[test]
fn tagging_saturates_where_the_sum_does() {
    let mut model = GCodeModel::default();
    for g in [
        G1 { x: Some(Microns(i32::MAX)), ..Default::default() },
        G1 { x: Some(Microns(5)), ..Default::default() },
        G1 { x: Some(Microns(-5)), ..Default::default() },
    ] {
        let id = model.id_counter.get();
        model.lines.push(GCodeLine { id, command: Command::G1(g), comments: String::new() });
    }
    model.tag_g1();
    assert_eq!(model.lines[0].command.tag(), Tag::Travel);
    assert_eq!(model.lines[1].command.tag(), Tag::Uninitialized);
    assert_eq!(model.lines[2].command.tag(), Tag::Travel);
}

#[test]
fn tagging_twice_changes_nothing() {
    let mut model: GCodeModel = "G1 X1 E1\nG1 E-1\nG1 X2\nfoo".parse().unwrap();
    model.tag_g1();
    let once = model.clone();
    model.tag_g1();
    assert_eq!(model, once);
}

#[test]
fn the_counter_counts_and_starts_again() {
    let mut counter = Counter::default();
    assert_eq!(counter.get(), Id(0));
    assert_eq!(counter.get().get(), 1);
    assert_eq!(counter.count, 2);
    let mut last = Counter { count: u32::MAX };
    assert_eq!(last.get(), Id(u32::MAX));
    assert_eq!(last.count, 0);
}

#[test]
fn only_a_linear_move_has_a_tag() {
    let g = G1 { tag: Tag::Wipe, ..Default::default() };
    assert_eq!(Command::G1(g).tag(), Tag::Wipe);
    assert_eq!(Command::G90.tag(), Tag::Uninitialized);
    assert_eq!(Command::Raw(String::from("G1")).tag(), Tag::Uninitialized);
    assert_eq!(Tag::default(), Tag::Uninitialized);
}

#[test]
fn repeats_are_dropped() {
    assert_eq!(drop_repeats(&vec![1, 1, 2, 2, 2, 1, 3, 3]), vec![1, 2, 1, 3]);
    assert_eq!(drop_repeats(&vec![]), Vec::<i32>::new());
    assert_eq!(drop_repeats(&vec![7]), vec![7]);
}

#[test]
fn values_are_sorted() {
    assert_eq!(sort_ascending(&vec![3, -1, 2, 2, i32::MIN, 0]), vec![i32::MIN, -1, 0, 2, 2, 3]);
    assert_eq!(sort_ascending(&vec![]), Vec::<i32>::new());
}

#[test]
fn layers_are_read_from_sorted_heights() {
    assert_eq!(layers_of(&vec![]), (Microns(0), Microns(0)));
    assert_eq!(layers_of(&vec![300]), (Microns(300), Microns(0)));
    assert_eq!(layers_of(&vec![300, 500]), (Microns(200), Microns(0)));
    assert_eq!(layers_of(&vec![300, 500, 600]), (Microns(200), Microns(100)));
    assert_eq!(layers_of(&vec![300, 500, 600, 700, 800]), (Microns(200), Microns(100)));
    assert_eq!(layers_of(&vec![300, 500, 600, 700, 801]), (Microns(200), Microns(0)));
    assert_eq!(layers_of(&vec![i32::MIN, i32::MAX, i32::MAX]), (Microns(i32::MAX), Microns(0)));
}

#[test]
fn slopes_are_compared_without_dividing() {
    assert!(steps_agree(1, 2, 2, 4, 0));
    assert!(steps_agree(1, 2, -2, 4, 0));
    assert!(!steps_agree(1, 2, 2, 5, 0));
    assert!(steps_agree(0, 5, 0, -7, 0));
    assert!(!steps_agree(0, 5, 1, 7, 0));
    assert!(steps_agree(3, 0, 9, 0, 0));
    assert!(steps_agree(1000, 1000, 1000, 999, 1000));
    assert!(!steps_agree(1000, 1000, 1000, 998, 1000));
    let far = 1i64 << 32;
    assert!(steps_agree(far, -far, -far, far, 0));
    assert!(!steps_agree(far, far, far, far - 1, 0));
    assert!(steps_agree(far, far, far, far - 1, u32::MAX));
}

#[test]
fn only_gcode_files_are_taken() {
    assert_eq!(check_extension(Some("gcode")), Ok(()));
    assert_eq!(
        check_extension(Some("txt")),
        Err(ExtensionError::Invalid(String::from("txt")))
    );
    assert_eq!(
        check_extension(Some("GCODE")),
        Err(ExtensionError::Invalid(String::from("GCODE")))
    );
    assert_eq!(
        check_extension(Some("gcodes")),
        Err(ExtensionError::Invalid(String::from("gcodes")))
    );
    assert_eq!(check_extension(Some("")), Err(ExtensionError::Invalid(String::new())));
    assert_eq!(check_extension(None), Err(ExtensionError::Missing));
}

#[test]
fn an_error_spans_one_character() {
    let e = GCodeParseError::from_parse(String::from("m"), 1, "aäb");
    assert_eq!(e.span, 1..3);
    assert_eq!(e.message, "m");
    assert_eq!(e.input, "aäb");
    let e = GCodeParseError::from_parse(String::new(), 2, "aäb");
    assert_eq!(e.span, 2..3);
    let e = GCodeParseError::from_parse(String::new(), 3, "aäb");
    assert_eq!(e.span, 3..4);
    let e = GCodeParseError::from_parse(String::new(), 4, "aäb");
    assert_eq!(e.span, 4..4);
    let e = GCodeParseError::from_parse(String::new(), 9, "aäb");
    assert_eq!(e.span, 9..9);
    let e = GCodeParseError::from_parse(String::new(), 0, "");
    assert_eq!(e.span, 0..0);
}

#[test]
fn an_error_is_rendered_with_its_line() {
    let e = GCodeParseError::from_parse(String::from("bad word"), 9, "G1 X1\nG1 Q5\nG1 X2\n");
    assert!(e.can_render());
    let text = e.to_string();
    assert_ne!(text, "bad word");
    assert_ne!(text, "G1 X1\nG1 Q5\nG1 X2\n");
    assert_eq!(text, "error: bad word\n  |\n2 | G1 Q5\n  |    ^\n  |");
}

#[test]
fn what_cannot_be_rendered_is_told() {
    let long = "X".repeat(101);
    assert!(!GCodeParseError::from_parse(String::new(), 0, &long).can_render());
    let fits = "X".repeat(100) + "\n" + &"Y".repeat(100);
    assert!(GCodeParseError::from_parse(String::new(), 0, &fits).can_render());
    let past = GCodeParseError::from_parse(String::new(), 9, "abc");
    assert!(!past.can_render());
    let inside = GCodeParseError { message: String::new(), span: 2..3, input: String::from("aäb") };
    assert!(!inside.can_render());
    let wide = GCodeParseError { message: String::new(), span: 0..2, input: String::from("abc") };
    assert!(!wide.can_render());
    let backwards = GCodeParseError { message: String::new(), span: 2..1, input: String::from("abc") };
    assert!(!backwards.can_render());
    let empty = GCodeParseError { message: String::new(), span: 1..1, input: String::from("abc") };
    assert!(empty.can_render());
    let end = GCodeParseError::from_parse(String::new(), 3, "abc");
    assert_eq!(end.span, 3..3);
    assert!(end.can_render());
}

#[test]
fn rendering_copes_with_the_edges_of_the_input() {
    let wide = "\t".repeat(99) + "x";
    let full = "X".repeat(100);
    let indented = " ".repeat(90) + "G1 X1 Y1";
    let inputs: Vec<String> = vec![
        String::new(),
        String::from("\n"),
        String::from("\r\n"),
        String::from("a\r\nb"),
        String::from("G1 X1\n\n\nG1 Q5"),
        String::from("aäb\n€uro 🙂"),
        String::from("\t\tG1 X1 ; c\n"),
        wide,
        full,
        indented,
    ];
    for input in inputs.iter() {
        for offset in 0..=input.len() {
            if !input.is_char_boundary(offset) {
                continue;
            }
            let e = GCodeParseError::from_parse(String::from("m"), offset, input);
            assert!(e.can_render(), "{:?} at {}", input, offset);
            let text = e.to_string();
            assert!(text.starts_with("error: m"), "{:?} at {}", input, offset);
            let empty = GCodeParseError {
                message: String::from("line one\nline two"),
                span: offset..offset,
                input: input.clone(),
            };
            assert!(empty.can_render());
            assert!(empty.to_string().starts_with("error: line one"));
        }
    }
}
