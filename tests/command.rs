use gcode_nom::command::g_drop;
use gcode_nom::command::m_drop;
use gcode_nom::command::Command;
use gcode_nom::command::Form;
use gcode_nom::multipart::parse_mp_a;
use gcode_nom::multipart::parse_mp_c;
use gcode_nom::multipart::parse_mp_s;
use gcode_nom::multipart::MultiPartVal;
use gcode_nom::number::double_no_exponent;
use gcode_nom::number::Number;
use gcode_nom::params::ArcVal;
use gcode_nom::params::PosVal;
use gcode_nom::block::BlockError;

fn fin(negative: bool, whole: &str, fraction: &str) -> Number {
    Number::Finite {
        negative,
        whole: whole.as_bytes().to_vec(),
        fraction: fraction.as_bytes().to_vec(),
    }
}

fn check(cases: Vec<(&str, Result<(&str, Command), BlockError>)>) {
    for (line, expected) in cases {
        let actual = Command::parse_line(line);
        assert_eq!(actual, expected, "line: {line}");
    }
}

#[test]
fn comments() {
    check(vec![
        (
            "; perimeters extrusion width = 0.67mm\n",
            Ok(("", Command::Comment(String::from(" perimeters extrusion width = 0.67mm")))),
        ),
        (
            "; 7K6Ho8Q5vPBT4ZkdDGAk/t/wOw4rChXwlVJwAAAABJRU5ErkJggg==\n",
            Ok((
                "",
                Command::Comment(String::from(" 7K6Ho8Q5vPBT4ZkdDGAk/t/wOw4rChXwlVJwAAAABJRU5ErkJggg==")),
            )),
        ),
        (
            "; generated by Slic3r 1.2.9 on 2015-10-01 at 20:51:53\n\n; external perimeters extrusion width = 0.40mm",
            Ok((
                "\n; external perimeters extrusion width = 0.40mm",
                Command::Comment(" generated by Slic3r 1.2.9 on 2015-10-01 at 20:51:53".into()),
            )),
        ),
    ]);
}

#[test]
fn g0() {
    check(vec![
        (
            "G0E-2.7F4200",
            Ok(("", Command::G0(vec![PosVal::E(fin(true, "2", "7")), PosVal::F(fin(false, "4200", ""))]))),
        ),
        ("G00 E20", Ok(("", Command::G0(vec![PosVal::E(fin(false, "20", ""))])))),
        ("G00E20", Ok(("", Command::G0(vec![PosVal::E(fin(false, "20", ""))])))),
    ]);
}

#[test]
fn command_g1() {
    check(vec![
        ("G1 Z5", Ok(("", Command::G1(vec![PosVal::Z(fin(false, "5", ""))])))),
        (
            "G1 Z5 F5000 ; lift nozzle",
            Ok((" ; lift nozzle", Command::G1(vec![PosVal::Z(fin(false, "5", "")), PosVal::F(fin(false, "5000", ""))]))),
        ),
        (
            "G1 E1.00000 F1800.00000 ; text",
            Ok((" ; text", Command::G1(vec![PosVal::E(fin(false, "1", "")), PosVal::F(fin(false, "1800", ""))]))),
        ),
        (
            "G1 Z0.350 F7800.000",
            Ok(("", Command::G1(vec![PosVal::Z(fin(false, "", "35")), PosVal::F(fin(false, "7800", ""))]))),
        ),
        (
            "G1Z0.350F7800.000",
            Ok(("", Command::G1(vec![PosVal::Z(fin(false, "", "35")), PosVal::F(fin(false, "7800", ""))]))),
        ),
        (
            "G1 Z0.350F7800.000",
            Ok(("", Command::G1(vec![PosVal::Z(fin(false, "", "35")), PosVal::F(fin(false, "7800", ""))]))),
        ),
        (
            "G1X888F1000",
            Ok(("", Command::G1(vec![PosVal::X(fin(false, "888", "")), PosVal::F(fin(false, "1000", ""))]))),
        ),
        (
            "G01X100E20",
            Ok(("", Command::G1(vec![PosVal::X(fin(false, "100", "")), PosVal::E(fin(false, "20", ""))]))),
        ),
        ("G1 ", Ok((" ", Command::GDrop(1)))),
    ]);
}

#[test]
fn g2() {
    check(vec![
        (
            "G2 X125 Y32 I10.5 J10.5; arc",
            Ok((
                "; arc",
                Command::G2(Form::IJ(vec![
                    ArcVal::X(fin(false, "125", "")),
                    ArcVal::Y(fin(false, "32", "")),
                    ArcVal::I(fin(false, "10", "5")),
                    ArcVal::J(fin(false, "10", "5")),
                ])),
            )),
        ),
        (
            "G2 I20 J20; X and Y can be omitted to do a complete circle.",
            Ok((
                "; X and Y can be omitted to do a complete circle.",
                Command::G2(Form::IJ(vec![ArcVal::I(fin(false, "20", "")), ArcVal::J(fin(false, "20", ""))])),
            )),
        ),
        (
            "G02X100J20",
            Ok(("", Command::G2(Form::IJ(vec![ArcVal::X(fin(false, "100", "")), ArcVal::J(fin(false, "20", ""))])))),
        ),
    ]);
}

#[test]
fn g3() {
    check(vec![
        (
            "G3 X125 Y32 I10.5 J10.5; arc",
            Ok((
                "; arc",
                Command::G3(Form::IJ(vec![
                    ArcVal::X(fin(false, "125", "")),
                    ArcVal::Y(fin(false, "32", "")),
                    ArcVal::I(fin(false, "10", "5")),
                    ArcVal::J(fin(false, "10", "5")),
                ])),
            )),
        ),
        (
            "G3 I20 J20; X and Y can be omitted to do a complete circle.",
            Ok((
                "; X and Y can be omitted to do a complete circle.",
                Command::G3(Form::IJ(vec![ArcVal::I(fin(false, "20", "")), ArcVal::J(fin(false, "20", ""))])),
            )),
        ),
        (
            "G03X100J20",
            Ok(("", Command::G3(Form::IJ(vec![ArcVal::X(fin(false, "100", "")), ArcVal::J(fin(false, "20", ""))])))),
        ),
    ]);
}

#[test]
fn m486() {
    check(vec![
        (
            "M486 C; cancel the current object (use with care)",
            Ok(("; cancel the current object (use with care)", Command::M486(MultiPartVal::C))),
        ),
        (
            "M486 S3; Indicate that the 4th object is starting now",
            Ok(("; Indicate that the 4th object is starting now", Command::M486(MultiPartVal::S(3, None)))),
        ),
        (
            "M486 P10; Cancel object with index 10 (the 11th object)",
            Ok(("; Cancel object with index 10 (the 11th object)", Command::M486(MultiPartVal::P(10)))),
        ),
        (
            "M486 U2; Un-cancel object with index 2 (the 3rd object)",
            Ok(("; Un-cancel object with index 2 (the 3rd object)", Command::M486(MultiPartVal::U(2)))),
        ),
        (
            "M486 T12; Total of 12 objects (otherwise the firmware must count)",
            Ok(("; Total of 12 objects (otherwise the firmware must count)", Command::M486(MultiPartVal::T(12)))),
        ),
        ("M486 S-1", Ok(("", Command::M486(MultiPartVal::S(-1, None))))),
        ("M486 T12", Ok(("", Command::M486(MultiPartVal::T(12))))),
        ("M486 U2", Ok(("", Command::M486(MultiPartVal::U(2))))),
        ("M486 P1", Ok(("", Command::M486(MultiPartVal::P(1))))),
        ("M486 S2", Ok(("", Command::M486(MultiPartVal::S(2, None))))),
        ("M486 T3", Ok(("", Command::M486(MultiPartVal::T(3))))),
        ("M486 U-1", Ok(("", Command::M486(MultiPartVal::U(-1))))),
    ]);
}

#[test]
fn m486_named_object() {
    check(vec![
        ("M486 S0 A\"a\"", Ok(("", Command::M486(MultiPartVal::S(0, Some("a".to_string())))))),
        ("M486 S3 \"cube copy 3\" ; x", Ok((" ; x", Command::M486(MultiPartVal::S(3, Some("cube copy 3".to_string())))))),
    ]);
}

#[test]
fn command_parse_g_drop() {
    assert_eq!(g_drop("G28 X0"), Some((" X0", 28)));
    assert_eq!(g_drop("G70000"), None);
    assert_eq!(g_drop("M104"), None);
    assert_eq!(m_drop("M 104 S200"), Some((" S200", 104)));
    check(vec![
        ("G28 X0", Ok((" X0", Command::GDrop(28)))),
        ("M104 S200", Ok((" S200", Command::MDrop(104)))),
    ]);
}

#[test]
fn parse_comment() {
    check(vec![
        ("  ;abc\r\nG1 X1", Ok(("G1 X1", Command::Comment("abc".into())))),
        ("; no line ending", Ok(("; no line ending", Command::Nop))),
        ("; café\n", Ok(("", Command::Comment(" café".into())))),
    ]);
}

#[test]
fn tags_and_empty_line() {
    check(vec![
        ("G20", Ok(("", Command::G20))),
        ("G21", Ok(("", Command::G21))),
        ("G90 ; absolute", Ok((" ; absolute", Command::G90))),
        ("G91", Ok(("", Command::G91))),
        ("G92 E0", Ok(("", Command::G92(vec![PosVal::E(fin(false, "", ""))])))),
        ("", Ok(("", Command::Nop))),
        ("hello", Ok(("hello", Command::Nop))),
    ]);
}

#[test]
fn duplicate_letters_collapse() {
    check(vec![(
        "G1 X95 X96 E2",
        Ok(("", Command::G1(vec![PosVal::X(fin(false, "95", "")), PosVal::E(fin(false, "2", ""))]))),
    )]);
}

#[test]
fn exponent_is_a_parameter() {
    check(vec![(
        "G1 X12E5",
        Ok(("", Command::G1(vec![PosVal::X(fin(false, "12", "")), PosVal::E(fin(false, "5", ""))]))),
    )]);
}

#[test]
fn special_numbers() {
    check(vec![
        ("G1 XNaN", Ok(("", Command::G1(vec![PosVal::X(Number::NaN)])))),
        ("G1 Xinf Yinfinity", Ok(("", Command::G1(vec![PosVal::X(Number::Infinity), PosVal::Y(Number::Infinity)])))),
        ("G1 X.5 Y5.", Ok(("", Command::G1(vec![PosVal::X(fin(false, "", "5")), PosVal::Y(fin(false, "5", ""))])))),
        ("G1 X-0", Ok(("", Command::G1(vec![PosVal::X(fin(true, "", ""))])))),
    ]);
}

#[test]
fn arc_forms() {
    check(vec![
        (
            "G2 X1 Y2 R5",
            Ok((
                "",
                Command::G2(Form::R(vec![
                    ArcVal::X(fin(false, "1", "")),
                    ArcVal::Y(fin(false, "2", "")),
                    ArcVal::R(fin(false, "5", "")),
                ])),
            )),
        ),
        ("G2 X1 Y2", Err(BlockError::InvalidArc)),
        ("G3 I1 R5", Err(BlockError::InvalidArc)),
        ("G2", Ok(("", Command::GDrop(2)))),
    ]);
}

#[test]
fn multipart_value_equality() {
    assert_eq!(parse_mp_a("Aa.stl\n"), Some(("", MultiPartVal::A(String::from("a.stl")))));
    assert_eq!(parse_mp_c("C"), Some(("", MultiPartVal::C)));
    assert_eq!(parse_mp_s("S-1"), Some(("", MultiPartVal::S(-1, None))));
}

#[test]
fn params_pos_value_equality() {
    assert!(PosVal::A(fin(false, "95", "")) == PosVal::A(fin(false, "95", "")));
    assert!(PosVal::A(fin(false, "95", "")) != PosVal::B(fin(false, "9", "")));
    assert!(PosVal::A(fin(false, "95", "")) != PosVal::B(fin(false, "95", "")));
}

#[test]
fn arc_pos_value_equality() {
    assert!(ArcVal::A(fin(false, "95", "")) == ArcVal::A(fin(false, "95", "")));
    assert!(ArcVal::A(fin(false, "95", "")) != ArcVal::B(fin(false, "9", "")));
    assert!(ArcVal::A(fin(false, "95", "")) != ArcVal::B(fin(false, "95", "")));
}

#[test]
fn parse_a_macro() {
    assert_eq!(gcode_nom::params::parse_a("A95.110"), Some(("", PosVal::A(fin(false, "95", "11")))));
    assert_eq!(gcode_nom::params::parse_a("B95.110"), None);
}

#[test]
fn parse_negative_value() {
    assert_eq!(gcode_nom::params::parse_e("E-1.1"), Some(("", PosVal::E(fin(true, "1", "1")))));
    assert_eq!(gcode_nom::params::parse_x(" X-10.10 Y2"), Some((" Y2", PosVal::X(fin(true, "10", "1")))));
    assert_eq!(gcode_nom::params::parse_z("Z-100.100"), Some(("", PosVal::Z(fin(true, "100", "1")))));
}

#[test]
fn numbers_without_exponent() {
    assert_eq!(double_no_exponent("11e-1"), Some(("e-1", fin(false, "11", ""))));
    assert_eq!(double_no_exponent("+007.2500X"), Some(("X", fin(false, "7", "25"))));
    assert_eq!(double_no_exponent("-.5"), Some(("", fin(true, "", "5"))));
    assert_eq!(double_no_exponent("INFINITY"), Some(("", Number::Infinity)));
    assert_eq!(double_no_exponent("Inf1"), Some(("1", Number::Infinity)));
    assert_eq!(double_no_exponent("nan"), Some(("", Number::NaN)));
    assert_eq!(double_no_exponent("abc"), None);
    assert_eq!(double_no_exponent("."), None);
    assert_eq!(double_no_exponent("-"), None);
}

// The first few lines of a sliced benchy.
static BENCHY_START: &str = r"
; generated by Slic3r 1.2.9 on 2015-10-01 at 20:51:53

; external perimeters extrusion width = 0.40mm
; perimeters extrusion width = 0.67mm
; infill extrusion width = 0.67mm
; solid infill extrusion width = 0.67mm
; top infill extrusion width = 0.67mm

M107
M190 S65 ; set bed temperature
M104 S205 ; set temperature
G28 ; home all axes
G1 Z5 F5000 ; lift nozzle
M109 S205 ; wait for temperature to be reached
G21 ; set units to millimeters
G90 ; use absolute coordinates
M82 ; use absolute distances for extrusion
G92 E0
G1 E-1.00000 F1800.00000
G92 E0
G1 Z0.350 F7800.000
";

#[test]
fn main_nothing_unhandled() {
    for line in BENCHY_START.lines() {
        assert!(Command::parse_line(line).is_ok());
    }
}

#[test]
fn svg_nothing_unhandled() {
    for line in BENCHY_START.lines() {
        assert!(Command::parse_line(line).is_ok());
    }
    assert_eq!(Command::parse_line("M190 S65 ; set bed temperature"), Ok((" S65 ; set bed temperature", Command::MDrop(190))));
    assert_eq!(Command::parse_line("G92 E0"), Ok(("", Command::G92(vec![PosVal::E(fin(false, "", ""))]))));
}
