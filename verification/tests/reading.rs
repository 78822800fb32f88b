use gcode_analyzer::parsers::{
    g1_parameter_parse, gcode_parser, parse_command, parse_line, parse_lines, parse_word,
};
use gcode_analyzer::scan::is_number_char;
use gcode_analyzer::{Command, GCodeModel, Id, Microns, Tag, G1};

fn command(text: &str) -> Command {
    let chars: Vec<char> = text.chars().collect();
    parse_command(&chars)
}

fn raw(text: &str) -> Command {
    Command::Raw(String::from(text))
}

#[test]
fn a_linear_move_is_read_with_its_parameters() {
    assert_eq!(
        command("G1 X1.5 Y-2 Z0.2 E0.0123 F1800"),
        Command::G1(G1 {
            x: Some(Microns(1500)),
            y: Some(Microns(-2000)),
            z: Some(Microns(200)),
            e: Some(Microns(12)),
            f: Some(Microns(1800000)),
            tag: Tag::Uninitialized,
        })
    );
    assert_eq!(command("G1"), Command::G1(G1::default()));
    assert_eq!(command("  G 1  X 1 "), Command::G1(G1 { x: Some(Microns(1000)), ..Default::default() }));
    assert_eq!(command("G1X1X2"), Command::G1(G1 { x: Some(Microns(2000)), ..Default::default() }));
    assert_eq!(command("G1 F.5 E5."), Command::G1(G1 {
        e: Some(Microns(5000)),
        f: Some(Microns(500)),
        ..Default::default()
    }));
}

#[test]
fn a_linear_move_that_cannot_be_read_is_kept_as_text() {
    for text in [
        "G1 M104 S200",
        "G1 X1 S5",
        "G1 X",
        "G1 X1.2.3",
        "G1 X1 Y",
        "G1 X--1",
        "G1 x1",
        "G1 X1e5",
        "G1 X1 ! ",
    ] {
        assert_eq!(command(text), raw(text), "{}", text);
    }
}

#[test]
fn mode_switches_are_read_whatever_follows() {
    assert_eq!(command("G90"), Command::G90);
    assert_eq!(command("G91"), Command::G91);
    assert_eq!(command("M82"), Command::M82);
    assert_eq!(command("M83"), Command::M83);
    assert_eq!(command(" G90 "), Command::G90);
    assert_eq!(command("G91 X1 whatever"), Command::G91);
    assert_eq!(command("M83 ; not a comment here"), Command::M83);
}

#[test]
fn other_words_are_kept_as_text() {
    for text in [
        "", " ", "G", "G0 X1", "G01 X1", "G10", "G11", "G900", "G9", "M8", "M84", "g1 X1", "M 104",
        "G28", "G92 E0", "T0", "1", "G1.5", "G-1", "X1 G1",
    ] {
        assert_eq!(command(text), raw(text), "{:?}", text);
    }
}

#[test]
fn number_characters() {
    for c in "0123456789.+-".chars() {
        assert!(is_number_char(c));
    }
    assert!(is_number_char('٣'));
    assert!(is_number_char('½'));
    for c in "eEXx ,;\n".chars() {
        assert!(!is_number_char(c));
    }
}

#[test]
fn a_line_ends_at_a_line_feed_or_a_carriage_return() {
    assert_eq!(parse_line("a b\r\n  c"), (String::from("a b"), String::from("c")));
    assert_eq!(parse_line("a\rb"), (String::from("a"), String::from("b")));
    assert_eq!(parse_line("  a\t\n\n \t b\n"), (String::from("  a\t"), String::from("b\n")));
    assert_eq!(parse_line("\n\na"), (String::new(), String::from("a")));
    assert_eq!(parse_line("a"), (String::from("a"), String::new()));
}

#[test]
fn blank_lines_and_indents_belong_to_no_line() {
    assert_eq!(parse_lines("a\n\n\n  b \n\tc"), vec!["a", "b ", "c"]);
    assert_eq!(parse_lines("  a\r\nb\r\n"), vec!["  a", "b"]);
    assert_eq!(parse_lines("\n\na"), vec!["", "a"]);
    assert_eq!(parse_lines(" \n"), vec![" "]);
    assert_eq!(parse_lines("ä;ö\nü"), vec!["ä;ö", "ü"]);
}

#[test]
fn a_word_is_a_character_and_its_digits() {
    assert_eq!(parse_word(""), None);
    let (a, b, c) = parse_word("X").unwrap();
    assert_eq!((a.as_str(), b.as_str(), c.as_str()), ("X", "", ""));
    let (a, b, c) = parse_word("12 3").unwrap();
    assert_eq!((a.as_str(), b.as_str(), c.as_str()), ("1", "2", " 3"));
    let (a, b, c) = parse_word("ä٣x").unwrap();
    assert_eq!((a.as_str(), b.as_str(), c.as_str()), ("ä", "٣", "x"));
}

#[test]
fn parameters_are_read_up_to_what_is_none() {
    let (g, rest) = g1_parameter_parse("X1Y2 Z3");
    assert_eq!(g, G1 { x: Some(Microns(1000)), y: Some(Microns(2000)), ..Default::default() });
    assert_eq!(rest, " Z3");
    let (g, rest) = g1_parameter_parse("X1Y1.2.3Z3");
    assert_eq!(g, G1 { x: Some(Microns(1000)), ..Default::default() });
    assert_eq!(rest, "Y1.2.3Z3");
    let (g, rest) = g1_parameter_parse("");
    assert_eq!(g, G1::default());
    assert_eq!(rest, "");
    let (g, rest) = g1_parameter_parse("E");
    assert_eq!(g, G1::default());
    assert_eq!(rest, "E");
    let (g, rest) = g1_parameter_parse("F100E-1E-2");
    assert_eq!(g, G1 { e: Some(Microns(-2000)), f: Some(Microns(100000)), ..Default::default() });
    assert_eq!(rest, "");
}

#[test]
fn the_last_mode_switch_decides() {
    let m = gcode_parser("G1 X1").unwrap();
    assert!(!m.rel_xyz);
    assert!(!m.rel_e);
    let m = gcode_parser("G91\nM83\nG1 X1").unwrap();
    assert!(m.rel_xyz);
    assert!(m.rel_e);
    let m = gcode_parser("G91\nM83\nG90\nG1 X1\nM82\nM83").unwrap();
    assert!(!m.rel_xyz);
    assert!(m.rel_e);
    let m = gcode_parser("G90 ; G91\nM82 ; M83").unwrap();
    assert!(!m.rel_xyz);
    assert!(!m.rel_e);
}

#[test]
fn lines_are_numbered_in_order() {
    let m = gcode_parser("a\nb\n\nc;d;e\n;").unwrap();
    assert_eq!(m.lines.len(), 4);
    assert_eq!(m.id_counter.count, 4);
    for (k, line) in m.lines.iter().enumerate() {
        assert_eq!(line.id, Id(k as u32));
    }
    assert_eq!(m.lines[2].command, raw("c"));
    assert_eq!(m.lines[2].comments, "d;e");
    assert_eq!(m.lines[3].command, raw(""));
    assert_eq!(m.lines[3].comments, "");
}

#[test]
fn an_empty_text_is_an_empty_model() {
    let m = gcode_parser("").unwrap();
    assert_eq!(m, GCodeModel::default());
    let m: GCodeModel = "".parse().unwrap();
    assert!(m.lines.is_empty());
}

#[test]
fn every_text_can_be_read() {
    for text in ["G1 M104 S200", "\u{0}\u{1}", ";;;;", "G1 X1 ; c\r\nG1 Y", "🙂 G1", "\n\n\n"] {
        assert!(gcode_parser(text).is_ok());
        assert!(text.parse::<GCodeModel>().is_ok());
    }
}

#[test]
fn what_is_read_can_be_written_and_read_again() {
    let text = "G28 ; home\nG90\nM83\nG1 X1.5 Y-2 Z0.2 E0.012 F1800;go\nG1 M104 S200\nT0\n";
    let first: GCodeModel = text.parse().unwrap();
    assert_eq!(first.to_string(), text);
    let second: GCodeModel = first.to_string().parse().unwrap();
    assert_eq!(first, second);
}

#[test]
fn a_file_with_unknown_words_is_read() {
    let text = "
    G28
    G666; FAKE COMMAND
    FAKE_MACRO FAKE_PARAM 299.00
    G1234 P12.88
    G1 Y-1 Z0.2
    G1 X25 E15.5
    G1 X10 E10
    G1 Z2.0 E-0.2
    G1 M104 S200
    G1 X50 Y50
    G1 E1.23
    G1 Y100 E10
    ";
    let m = gcode_parser(text).unwrap();
    let g = |x: Option<i32>, y: Option<i32>, z: Option<i32>, e: Option<i32>| {
        Command::G1(G1 {
            x: x.map(Microns),
            y: y.map(Microns),
            z: z.map(Microns),
            e: e.map(Microns),
            f: None,
            tag: Tag::Uninitialized,
        })
    };
    let expected = vec![
        raw(""),
        raw("G28"),
        raw("G666"),
        raw("FAKE_MACRO FAKE_PARAM 299.00"),
        raw("G1234 P12.88"),
        g(None, Some(-1000), Some(200), None),
        g(Some(25000), None, None, Some(15500)),
        g(Some(10000), None, None, Some(10000)),
        g(None, None, Some(2000), Some(-200)),
        raw("G1 M104 S200"),
        g(Some(50000), Some(50000), None, None),
        g(None, None, None, Some(1230)),
        g(None, Some(100000), None, Some(10000)),
    ];
    let commands: Vec<Command> = m.lines.iter().map(|l| l.command.clone()).collect();
    assert_eq!(commands, expected);
    assert_eq!(m.lines[2].comments, " FAKE COMMAND");
    assert_eq!(m.id_counter.count, 13);
}
