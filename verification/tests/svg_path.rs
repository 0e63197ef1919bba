use makepad_draw::svg_path::{parse_svg_path, arity, PathSegment, SvgCommand, SvgNumber, SvgPathError};

fn num(n: &SvgNumber) -> String {
    let mut s = String::new();
    if n.negative {
        s.push('-');
    }
    let split = n.digits.len() - n.frac_digits;
    for (i, d) in n.digits.iter().enumerate() {
        if i == split && n.has_dot {
            s.push('.');
        }
        s.push((b'0' + d) as char);
    }
    if n.has_dot && split == n.digits.len() {
        s.push('.');
    }
    s
}

fn show(segs: &[PathSegment]) -> Vec<(SvgCommand, Vec<String>)> {
    segs.iter().map(|g| (g.command, g.args.iter().map(num).collect())).collect()
}

fn args(a: &[&str]) -> Vec<String> {
    a.iter().map(|s| s.to_string()).collect()
}

#[test]
fn absolute_move_line_close() {
    let segs = parse_svg_path(b"M1 2L3 4Z").unwrap();
    assert_eq!(
        show(&segs),
        vec![
            (SvgCommand::Move(true), args(&["1", "2"])),
            (SvgCommand::Line(true), args(&["3", "4"])),
            (SvgCommand::Close, args(&[])),
        ]
    );
}

#[test]
fn relative_commands_and_decimals() {
    let segs = parse_svg_path(b"m-1.5,2 h10 v-0.25 l.0 1").unwrap_err();
    // a dot may not start a number
    assert_eq!(segs, SvgPathError::UnexpectedDot);
    let segs = parse_svg_path(b"m-1.5,2 h10 v-0.25").unwrap();
    assert_eq!(
        show(&segs),
        vec![
            (SvgCommand::Move(false), args(&["-1.5", "2"])),
            (SvgCommand::Hor(false), args(&["10"])),
            (SvgCommand::Vert(false), args(&["-0.25"])),
        ]
    );
    assert_eq!(segs[0].args[0].frac_digits, 1);
    assert_eq!(segs[0].args[0].digits, vec![1, 5]);
}

#[test]
fn cubic_and_quadratic_take_six_and_four() {
    let segs = parse_svg_path(b"C1 2 3 4 5 6 q1 2 3 4").unwrap();
    assert_eq!(
        show(&segs),
        vec![
            (SvgCommand::Cubic(true), args(&["1", "2", "3", "4", "5", "6"])),
            (SvgCommand::Quadratic(false), args(&["1", "2", "3", "4"])),
        ]
    );
    assert_eq!(parse_svg_path(b"C1 2 3 4 5").unwrap_err(), SvgPathError::WrongArgumentCount {
        command: Some(SvgCommand::Cubic(true)),
        expected: 6,
        got: 5
    });
}

#[test]
fn repeated_numbers_repeat_the_command() {
    let segs = parse_svg_path(b"M1 2 3 4").unwrap();
    assert_eq!(
        show(&segs),
        vec![(SvgCommand::Move(true), args(&["1", "2"])), (SvgCommand::Move(true), args(&["3", "4"]))]
    );
    let segs = parse_svg_path(b"L1 2 3").unwrap_err();
    assert_eq!(segs, SvgPathError::WrongArgumentCount { command: Some(SvgCommand::Line(true)), expected: 2, got: 1 });
}

#[test]
fn empty_path_reads_as_nothing() {
    assert_eq!(parse_svg_path(b"").unwrap().len(), 0);
    assert_eq!(parse_svg_path(b"  ,\n").unwrap().len(), 0);
}

#[test]
fn closes_repeat() {
    let segs = parse_svg_path(b"Z Z").unwrap();
    assert_eq!(show(&segs), vec![(SvgCommand::Close, args(&[])), (SvgCommand::Close, args(&[]))]);
    let segs = parse_svg_path(b"zz ").unwrap();
    assert_eq!(segs.len(), 2);
}

#[test]
fn each_error_variant() {
    assert_eq!(parse_svg_path(b"Z-1").unwrap_err(), SvgPathError::UnexpectedMinus);
    assert_eq!(parse_svg_path(b"1").unwrap_err(), SvgPathError::UnexpectedDigit);
    assert_eq!(parse_svg_path(b"Z 1").unwrap_err(), SvgPathError::UnexpectedDigit);
    assert_eq!(parse_svg_path(b"M1.2.3 4").unwrap_err(), SvgPathError::UnexpectedDot);
    assert_eq!(parse_svg_path(b"M . 4").unwrap_err(), SvgPathError::UnexpectedDot);
    assert_eq!(parse_svg_path(b"M1 2 x").unwrap_err(), SvgPathError::UnexpectedCharacter(b'x'));
    assert_eq!(
        parse_svg_path(b"M Z").unwrap_err(),
        SvgPathError::WrongArgumentCount { command: Some(SvgCommand::Move(true)), expected: 2, got: 0 }
    );
}

#[test]
fn a_minus_drops_the_number_being_written() {
    // "1" is being written when "-" starts a new number; it is not kept.
    assert_eq!(
        parse_svg_path(b"M1-2").unwrap_err(),
        SvgPathError::WrongArgumentCount { command: Some(SvgCommand::Move(true)), expected: 2, got: 1 }
    );
    let segs = parse_svg_path(b"M1 2-3 4 5").unwrap();
    assert_eq!(
        show(&segs),
        vec![(SvgCommand::Move(true), args(&["1", "-3"])), (SvgCommand::Move(true), args(&["4", "5"]))]
    );
}

#[test]
fn separators_at_either_end_change_nothing() {
    let plain = show(&parse_svg_path(b"M1 2L3 4").unwrap());
    assert_eq!(show(&parse_svg_path(b" M1 2L3 4").unwrap()), plain);
    assert_eq!(show(&parse_svg_path(b"\t\nM1 2L3 4").unwrap()), plain);
    assert_eq!(show(&parse_svg_path(b"M1 2L3 4 ,").unwrap()), plain);
    assert_eq!(parse_svg_path(b" 1").unwrap_err(), parse_svg_path(b"1").unwrap_err());
}

#[test]
fn separators_are_interchangeable() {
    let a = show(&parse_svg_path(b"M1,2L3 4").unwrap());
    let b = show(&parse_svg_path(b"M1\t2L3\r4").unwrap());
    assert_eq!(a, b);
}

#[test]
fn foreign_bytes_are_refused() {
    assert!(parse_svg_path(b"M1 2 L3 4 #").is_err());
    assert_eq!(parse_svg_path(b"A1 2").unwrap_err(), SvgPathError::UnexpectedCharacter(b'A'));
}

#[test]
fn arities() {
    assert_eq!(arity(SvgCommand::Move(true)), 2);
    assert_eq!(arity(SvgCommand::Hor(false)), 1);
    assert_eq!(arity(SvgCommand::Vert(true)), 1);
    assert_eq!(arity(SvgCommand::Line(false)), 2);
    assert_eq!(arity(SvgCommand::Cubic(true)), 6);
    assert_eq!(arity(SvgCommand::Quadratic(true)), 4);
    assert_eq!(arity(SvgCommand::Close), 0);
}

#[test]
fn trailing_dot_and_lone_minus() {
    let segs = parse_svg_path(b"M1. -").unwrap();
    assert_eq!(show(&segs), vec![(SvgCommand::Move(true), args(&["1.", "-"]))]);
    assert!(segs[0].args[0].has_dot);
    assert_eq!(segs[0].args[1].digits.len(), 0);
}

#[test]
fn reads_back_plain_text() {
    let text = b"M 1 -2.5L 30 4.Q 1 2 -3 .0H 7V -.5C 1 2 3 4 5 6Z";
    // ".0" has no digit before the point and is no writable number; the rest is.
    assert_eq!(parse_svg_path(text).unwrap_err(), SvgPathError::UnexpectedDot);
    let text = b"M 1 -2.5L 30 4.Q 1 2 -3 0H 7V -.5C 1 2 3 4 5 6Z";
    let segs = parse_svg_path(text).unwrap();
    let mut written = String::new();
    for g in &segs {
        let letter = match g.command {
            SvgCommand::Move(true) => 'M',
            SvgCommand::Line(true) => 'L',
            SvgCommand::Quadratic(true) => 'Q',
            SvgCommand::Hor(true) => 'H',
            SvgCommand::Vert(true) => 'V',
            SvgCommand::Cubic(true) => 'C',
            SvgCommand::Close => 'Z',
            _ => '?',
        };
        written.push(letter);
        for a in &g.args {
            written.push(' ');
            written.push_str(&num(a));
        }
    }
    assert_eq!(written.as_bytes(), &text[..]);
}
