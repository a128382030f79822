use svg::path::{Command, Data, Error, Kind, Parameters, Position};
use svg::value::Decimal;

fn d(n: i64) -> Decimal {
    Decimal::new(n, 0)
}

fn params(n: usize) -> Parameters {
    let mut values = Vec::new();
    for i in 0..n {
        values.push(d(i as i64 + 1));
    }
    Parameters::new(values)
}

const KINDS: [(Kind, usize, &str); 10] = [
    (Kind::Move, 2, "M"),
    (Kind::Line, 2, "L"),
    (Kind::HorizontalLine, 1, "H"),
    (Kind::VerticalLine, 1, "V"),
    (Kind::CubicCurve, 6, "C"),
    (Kind::SmoothCubicCurve, 4, "S"),
    (Kind::QuadraticCurve, 4, "Q"),
    (Kind::SmoothQuadraticCurve, 2, "T"),
    (Kind::EllipticalArc, 7, "A"),
    (Kind::ClosePath, 0, "Z"),
];

#[test]
fn wrong_arity_is_refused() {
    for (kind, arity, _) in KINDS.iter() {
        assert_eq!(kind.arity(), *arity);
        for n in 0..9 {
            if n != *arity {
                let r = Command::new(*kind, Position::Absolute, params(n));
                assert_eq!(r.unwrap_err(), Error::InvalidArity);
            }
        }
    }
}

#[test]
fn exact_arity_renders_letter_and_operands() {
    for (kind, arity, letter) in KINDS.iter() {
        let operands: Vec<String> = (1..=*arity).map(|i| i.to_string()).collect();
        let mut expected = letter.to_string();
        if *arity > 0 {
            expected = format!("{} {}", expected, operands.join(" "));
        }
        let c = Command::new(*kind, Position::Absolute, params(*arity)).unwrap();
        assert_eq!(c.render(), expected);
        let c = Command::new(*kind, Position::Relative, params(*arity)).unwrap();
        assert_eq!(c.render(), expected.to_lowercase());
    }
}

#[test]
fn constructors_per_command() {
    let a = Position::Absolute;
    let r = Position::Relative;
    assert_eq!(Command::move_to(a, d(1), d(2)).render(), "M 1 2");
    assert_eq!(Command::line_to(r, d(-3), Decimal::new(45, 1)).render(), "l -3 4.5");
    assert_eq!(Command::horizontal_line_to(a, d(7)).render(), "H 7");
    assert_eq!(Command::vertical_line_to(r, d(8)).render(), "v 8");
    assert_eq!(
        Command::cubic_curve_to(a, d(1), d(2), d(3), d(4), d(5), d(6)).render(),
        "C 1 2 3 4 5 6"
    );
    assert_eq!(Command::smooth_cubic_curve_to(r, d(1), d(2), d(3), d(4)).render(), "s 1 2 3 4");
    assert_eq!(Command::quadratic_curve_to(a, d(1), d(2), d(3), d(4)).render(), "Q 1 2 3 4");
    assert_eq!(Command::smooth_quadratic_curve_to(r, d(1), d(2)).render(), "t 1 2");
    assert_eq!(
        Command::elliptical_arc_to(a, d(25), d(25), d(-30), d(0), d(1), d(50), d(-25)).render(),
        "A 25 25 -30 0 1 50 -25"
    );
    assert_eq!(Command::close_path(a).render(), "Z");
    assert_eq!(Command::close_path(r).render(), "z");
}

#[test]
fn path_data_end_to_end() {
    let data = Data::new()
        .append(Command::new(Kind::Move, Position::Absolute, Parameters::new(vec![d(0), d(0)])).unwrap())
        .append(Command::new(Kind::Line, Position::Relative, Parameters::new(vec![d(10), d(0)])).unwrap())
        .append(Command::new(Kind::ClosePath, Position::Absolute, Parameters::new(vec![])).unwrap());
    assert_eq!(data.render(), "M 0 0 l 10 0 Z");
}

#[test]
fn render_after_append_adds_space_and_command() {
    let c2_text = Command::vertical_line_to(Position::Relative, d(5)).render();
    let once = Data::new()
        .append(Command::move_to(Position::Absolute, d(1), d(1)))
        .append(Command::horizontal_line_to(Position::Absolute, d(3)));
    let before = once.render();
    let twice = once.append(Command::vertical_line_to(Position::Relative, d(5)));
    assert_eq!(twice.render(), format!("{} {}", before, c2_text));
    assert_eq!(twice.render(), "M 1 1 H 3 v 5");
}

#[test]
fn empty_data_renders_empty() {
    assert_eq!(Data::new().render(), "");
}

#[test]
fn parameters_render() {
    let p = Parameters::new(vec![Decimal::new(15, 1), d(-2), Decimal::new(0, 2)]);
    assert_eq!(p.len(), 3);
    assert_eq!(p.render(), "1.5 -2 0");
    assert_eq!(Parameters::new(vec![]).render(), "");
}
