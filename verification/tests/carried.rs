use gcode_analyzer::parsers::{
    g1_parameter_parse, gcode_parser, parse_line, parse_lines, parse_word,
};
use gcode_analyzer::scan::is_number_char;
use gcode_analyzer::{
    Command, Counter, GCodeLine, GCodeModel, GCodeParseError, Id, Microns, Tag, G1,
};
use winnow::ascii::multispace1;
use winnow::error::{ContextError, ParseError};
use winnow::Parser;

fn mm(f: f32) -> Microns {
    Microns((f * 1000.0).trunc() as i32)
}

fn moved(x: Option<f32>, y: Option<f32>, z: Option<f32>, e: Option<f32>, f: Option<f32>) -> G1 {
    G1 {
        x: x.map(mm),
        y: y.map(mm),
        z: z.map(mm),
        e: e.map(mm),
        f: f.map(mm),
        tag: Tag::Uninitialized,
    }
}

#[test]
fn g1_tests() {
    let g1 = [
        (
            Command::G1(G1 {
                x: Some(Microns(1000)),
                y: Some(Microns(2000)),
                z: Some(Microns(3000)),
                e: Some(Microns(11)),
                f: Some(Microns(5500)),
                tag: Tag::Uninitialized,
            }),
            "G1 X1 Y2 Z3 E0.011 F5.5",
        ),
        (
            Command::G1(G1 {
                x: None,
                y: None,
                z: None,
                e: None,
                f: None,
                tag: Tag::Uninitialized,
            }),
            "G1",
        ),
        (
            Command::G1(G1 {
                x: Some(Microns(1111111)),
                y: None,
                z: None,
                e: None,
                f: Some(Microns(-1111111)),
                tag: Tag::Uninitialized,
            }),
            "G1 X1111.111 F-1111.111",
        ),
    ];
    for (cmd, expected) in g1 {
        assert_eq!(cmd.to_string(), expected);
    }
}

#[test]
fn parse_emit_test() {
    let tests = [
        "G28 W\n",
        "M666\n",
        "UNKNOWN_MACRO\n",
        "special command\n",
        "T0 11\n",
    ];
    for test in tests.iter() {
        let model: GCodeModel = test.parse().unwrap();
        assert_eq!(model.to_string(), *test);
    }
}

#[test]
fn tag_test() {
    let mut gcode = GCodeModel::default();
    gcode.lines.push(GCodeLine {
        id: gcode.id_counter.get(),
        command: Command::G1(G1 {
            x: Some(mm(10.0)),
            y: Some(mm(10.0)),
            z: Some(mm(10.0)),
            e: Some(mm(10.0)),
            f: Some(mm(10.0)),
            tag: Tag::Uninitialized,
        }),
        comments: String::new(),
    });
    gcode.tag_g1();
    assert_eq!(gcode.lines[0].command.tag(), Tag::Extrusion);
    gcode.lines.push(GCodeLine {
        id: gcode.id_counter.get(),
        command: Command::G1(G1::default()),
        comments: String::new(),
    });
    gcode.tag_g1();
    assert_eq!(gcode.lines[1].command.tag(), Tag::Uninitialized);
    gcode.lines.push(GCodeLine {
        id: gcode.id_counter.get(),
        command: Command::G1(G1 {
            e: Some(mm(-10.0)),
            ..Default::default()
        }),
        comments: String::new(),
    });
    gcode.tag_g1();
    assert_eq!(gcode.lines[2].command.tag(), Tag::Retraction);
    gcode.lines.push(GCodeLine {
        id: gcode.id_counter.get(),
        command: Command::G1(G1 {
            e: Some(mm(-10.0)),
            x: Some(mm(10.0)),
            y: Some(mm(10.0)),
            ..Default::default()
        }),
        comments: String::new(),
    });
    gcode.tag_g1();
    assert_eq!(gcode.lines[3].command.tag(), Tag::Wipe);
    gcode.lines.push(GCodeLine {
        id: gcode.id_counter.get(),
        command: Command::G1(G1 {
            e: Some(mm(-10.0)),
            z: Some(mm(10.0)),
            ..Default::default()
        }),
        comments: String::new(),
    });
    gcode.tag_g1();
    assert_eq!(gcode.lines[4].command.tag(), Tag::Retraction);
    gcode.lines.push(GCodeLine {
        id: gcode.id_counter.get(),
        command: Command::G1(G1 {
            e: Some(mm(-10.0)),
            z: Some(mm(-10.0)),
            ..Default::default()
        }),
        comments: String::new(),
    });
    gcode.tag_g1();
    assert_eq!(gcode.lines[5].command.tag(), Tag::Retraction);
    gcode.lines.push(GCodeLine {
        id: gcode.id_counter.get(),
        command: Command::G1(G1 {
            f: Some(mm(10.0)),
            ..Default::default()
        }),
        comments: String::new(),
    });
    gcode.tag_g1();
    assert_eq!(gcode.lines[6].command.tag(), Tag::Feedrate);
    gcode.lines.push(GCodeLine {
        id: gcode.id_counter.get(),
        command: Command::G1(G1 {
            e: Some(mm(10.0)),
            ..Default::default()
        }),
        comments: String::new(),
    });
    gcode.tag_g1();
    assert_eq!(gcode.lines[7].command.tag(), Tag::DeRetraction);
}

#[test]
fn gcode_parser_test() {
    let input = "G1 X1.0 Y2.0 Z3.0 E4.0 F5.0;hello world\nG28 W ; hello world\nG90; hello world\nG91; hello world\nM82\n; asdf".to_string();
    let input = input.as_str();
    let result = gcode_parser(input).unwrap();
    let expected = GCodeModel {
        id_counter: Counter { count: 5 },
        rel_xyz: true,
        rel_e: false,
        lines: vec![
            GCodeLine {
                id: Id(0),
                command: Command::G1(moved(
                    Some(1.0),
                    Some(2.0),
                    Some(3.0),
                    Some(4.0),
                    Some(5.0),
                )),
                comments: String::from("hello world"),
            },
            GCodeLine {
                id: Id(1),
                command: Command::Raw(String::from("G28 W ")),
                comments: String::from(" hello world"),
            },
            GCodeLine {
                id: Id(2),
                command: Command::G90,
                comments: String::from(" hello world"),
            },
            GCodeLine {
                id: Id(3),
                command: Command::G91,
                comments: String::from(" hello world"),
            },
            GCodeLine {
                id: Id(4),
                command: Command::M82,
                comments: String::from(""),
            },
            GCodeLine {
                id: Id(5),
                command: Command::Raw(String::from("")),
                comments: String::from(" asdf"),
            },
        ],
    };
    for (a, b) in result.lines.iter().zip(expected.lines.iter()) {
        assert_eq!(a, b);
    }
}

#[test]
fn parse_line_test() {
    let tests = [
        ("hello\n", "hello"),
        ("hello", "hello"),
        ("hello\nworld", "hello"),
        ("hello\nworld\n", "hello"),
        ("hello\nworld\nmore", "hello"),
        ("hello\nworld\nmore\n", "hello"),
        ("hello\nworld\nmore\n\n", "hello"),
        ("\n", ""),
        ("\r", ""),
        ("", ""),
    ];
    for (input, expected) in tests.iter() {
        let (result, _rest) = parse_line(input);
        assert_eq!(result, *expected);
    }
}

#[test]
fn parse_lines_test() {
    let tests = [
        ("hello\nworld\nmore\n", vec!["hello", "world", "more"]),
        ("hello\nworld\nmore", vec!["hello", "world", "more"]),
        ("hello\nworld\nmore\n\n", vec!["hello", "world", "more"]),
        ("hello", vec!["hello"]),
        ("hello\n", vec!["hello"]),
        ("\n", vec![""]),
        ("", vec![]),
    ];
    for (input, expected) in tests.iter() {
        let result = parse_lines(input);
        assert_eq!(result, *expected);
    }
}

#[test]
fn parse_word_test() {
    let tests = [
        ("G1", ("G", "1", "")),
        ("M1234", ("M", "1234", "")),
        ("G28W", ("G", "28", "W")),
        (
            "G1 X1.0 Y2.0 Z3.0 E4.0 F5.0",
            ("G", "1", " X1.0 Y2.0 Z3.0 E4.0 F5.0"),
        ),
    ];
    for (input, expected) in tests.iter() {
        let (letter, digits, rest) = parse_word(input).unwrap();
        assert_eq!((letter.as_str(), digits.as_str(), rest.as_str()), *expected);
    }
}

#[test]
fn number_chars() {
    let tests = ["1.0000231", "-1.02030", "1.2+-0.0001", "-0.0000011"];
    for test in tests {
        for c in test.chars() {
            if !is_number_char(c) {
                panic!("invalid charachter found: {}", c);
            }
        }
    }
}

#[test]
fn g1_parameter_parse_test() {
    let tests = [
        (
            "X1.0Y2.0Z3.0E4.0F5.0",
            moved(Some(1.0), Some(2.0), Some(3.0), Some(4.0), Some(5.0)),
        ),
        (
            "X1.0Y2.0Z3.0E4.0",
            moved(Some(1.0), Some(2.0), Some(3.0), Some(4.0), None),
        ),
        (
            "X1.0Y2.0Z3.0",
            moved(Some(1.0), Some(2.0), Some(3.0), None, None),
        ),
        ("X1.0Y2.0", moved(Some(1.0), Some(2.0), None, None, None)),
        ("X1.0", moved(Some(1.0), None, None, None, None)),
        ("Y-2.0", moved(None, Some(-2.0), None, None, None)),
        (
            "Z0.000000001",
            moved(None, None, Some(0.000000001), None, None),
        ),
    ];
    for (input, expected) in tests.iter() {
        let (result, _rest) = g1_parameter_parse(input);
        assert_eq!(result, *expected);
    }
}

#[test]
fn gcode_parse_error_test() {
    let test = "0";
    let error: ParseError<&str, ContextError> = multispace1.parse(test).unwrap_err();
    let error = GCodeParseError::from_parse(error.inner().to_string(), error.offset(), test);
    assert_eq!(
        GCodeParseError {
            message: "".to_string(),
            span: 0..1,
            input: "0".to_string()
        },
        error
    );
}
