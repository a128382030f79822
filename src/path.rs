//! Path data: drawing commands with their operands, serialized to the text
//! of a path's `d` attribute.

use vstd::prelude::*;
use crate::text::{join_spaced, lemma_join_push};
use crate::value::Decimal;

verus! {

/// A positioning method.
#[derive(Clone, Copy, Debug, PartialEq, Eq, Structural)]
pub enum Position {
    /// Absolute.
    Absolute,
    /// Relative.
    Relative,
}

/// The operation of a path command.
#[derive(Clone, Copy, Debug, PartialEq, Eq, Structural)]
pub enum Kind {
    /// Move to a point: `x y`.
    Move,
    /// A straight segment: `x y`.
    Line,
    /// A horizontal segment: `x`.
    HorizontalLine,
    /// A vertical segment: `y`.
    VerticalLine,
    /// A cubic Bézier curve: `x1 y1 x2 y2 x y`.
    CubicCurve,
    /// A cubic Bézier curve with a mirrored first control point: `x2 y2 x y`.
    SmoothCubicCurve,
    /// A quadratic Bézier curve: `x1 y1 x y`.
    QuadraticCurve,
    /// A quadratic Bézier curve with a mirrored control point: `x y`.
    SmoothQuadraticCurve,
    /// An elliptical arc: `rx ry rotation large-arc sweep x y`.
    EllipticalArc,
    /// Close the current subpath: no operands.
    ClosePath,
}

/// What can go wrong when building path data.
#[derive(Clone, Copy, Debug, PartialEq, Eq, Structural)]
pub enum Error {
    /// The number of operands does not match the command's arity.
    InvalidArity,
}

/// The number of operands that a command of the kind takes.
pub open spec fn arity(k: Kind) -> nat {
    match k {
        Kind::Move => 2,
        Kind::Line => 2,
        Kind::HorizontalLine => 1,
        Kind::VerticalLine => 1,
        Kind::CubicCurve => 6,
        Kind::SmoothCubicCurve => 4,
        Kind::QuadraticCurve => 4,
        Kind::SmoothQuadraticCurve => 2,
        Kind::EllipticalArc => 7,
        Kind::ClosePath => 0,
    }
}

/// The command's letter: upper case when absolute, lower case when relative.
pub open spec fn letter(k: Kind, p: Position) -> char {
    let abs = p == Position::Absolute;
    match k {
        Kind::Move => if abs { 'M' } else { 'm' },
        Kind::Line => if abs { 'L' } else { 'l' },
        Kind::HorizontalLine => if abs { 'H' } else { 'h' },
        Kind::VerticalLine => if abs { 'V' } else { 'v' },
        Kind::CubicCurve => if abs { 'C' } else { 'c' },
        Kind::SmoothCubicCurve => if abs { 'S' } else { 's' },
        Kind::QuadraticCurve => if abs { 'Q' } else { 'q' },
        Kind::SmoothQuadraticCurve => if abs { 'T' } else { 't' },
        Kind::EllipticalArc => if abs { 'A' } else { 'a' },
        Kind::ClosePath => if abs { 'Z' } else { 'z' },
    }
}

/// The operands' texts joined by single spaces.
pub open spec fn operands_text(ps: Seq<Decimal>) -> Seq<char> {
    join_spaced(ps.map_values(|d: Decimal| d.text()))
}

/// A command's text: its letter, then a space and its operands if it has any.
pub open spec fn command_text(k: Kind, p: Position, ps: Seq<Decimal>) -> Seq<char> {
    if ps.len() == 0 {
        seq![letter(k, p)]
    } else {
        seq![letter(k, p), ' '] + operands_text(ps)
    }
}

impl Kind {
    /// The number of operands that a command of this kind takes.
    pub fn arity(&self) -> (r: usize)
        ensures
            r == arity(*self),
    {
        match self {
            Kind::Move => 2,
            Kind::Line => 2,
            Kind::HorizontalLine => 1,
            Kind::VerticalLine => 1,
            Kind::CubicCurve => 6,
            Kind::SmoothCubicCurve => 4,
            Kind::QuadraticCurve => 4,
            Kind::SmoothQuadraticCurve => 2,
            Kind::EllipticalArc => 7,
            Kind::ClosePath => 0,
        }
    }

    /// The letter of a command of this kind, as text.
    fn letter(&self, p: Position) -> (r: &'static str)
        ensures
            r@ == seq![letter(*self, p)],
    {
        proof {
            reveal_strlit("M");
            reveal_strlit("m");
            reveal_strlit("L");
            reveal_strlit("l");
            reveal_strlit("H");
            reveal_strlit("h");
            reveal_strlit("V");
            reveal_strlit("v");
            reveal_strlit("C");
            reveal_strlit("c");
            reveal_strlit("S");
            reveal_strlit("s");
            reveal_strlit("Q");
            reveal_strlit("q");
            reveal_strlit("T");
            reveal_strlit("t");
            reveal_strlit("A");
            reveal_strlit("a");
            reveal_strlit("Z");
            reveal_strlit("z");
        }
        let abs = match p {
            Position::Absolute => true,
            Position::Relative => false,
        };
        match self {
            Kind::Move => if abs { "M" } else { "m" },
            Kind::Line => if abs { "L" } else { "l" },
            Kind::HorizontalLine => if abs { "H" } else { "h" },
            Kind::VerticalLine => if abs { "V" } else { "v" },
            Kind::CubicCurve => if abs { "C" } else { "c" },
            Kind::SmoothCubicCurve => if abs { "S" } else { "s" },
            Kind::QuadraticCurve => if abs { "Q" } else { "q" },
            Kind::SmoothQuadraticCurve => if abs { "T" } else { "t" },
            Kind::EllipticalArc => if abs { "A" } else { "a" },
            Kind::ClosePath => if abs { "Z" } else { "z" },
        }
    }
}

/// The operands of one command, in order.
#[derive(Debug)]
pub struct Parameters {
    values: Vec<Decimal>,
}

impl View for Parameters {
    type V = Seq<Decimal>;

    closed spec fn view(&self) -> Seq<Decimal> {
        self.values@
    }
}

impl Parameters {
    /// Parameters holding the values in order.
    pub fn new(values: Vec<Decimal>) -> (r: Parameters)
        ensures
            r@ == values@,
    {
        Parameters { values }
    }

    /// The number of operands.
    pub fn len(&self) -> (r: usize)
        ensures
            r == self@.len(),
    {
        self.values.len()
    }

    /// Renders the operands joined by single spaces.
    pub fn render(&self) -> (r: String)
        ensures
            r@ == operands_text(self@),
    {
        let mut out = String::new();
        let mut i: usize = 0;
        while i < self.values.len()
            invariant
                i <= self@.len(),
                out@ == operands_text(self@.subrange(0, i as int)),
            decreases self@.len() - i,
        {
            proof {
                reveal_strlit(" ");
            }
            if i > 0 {
                out.append(" ");
            }
            let t = self.values[i].render();
            out.append(t.as_str());
            proof {
                let f = |d: Decimal| d.text();
                let s = self@.subrange(0, i as int);
                assert(self@.subrange(0, i + 1) =~= s.push(self@[i as int]));
                assert(s.push(self@[i as int]).map_values(f) =~= s.map_values(f).push(f(self@[i as int])));
                lemma_join_push(s.map_values(f), f(self@[i as int]));
            }
            i = i + 1;
        }
        assert(self@.subrange(0, self@.len() as int) =~= self@);
        out
    }
}

/// One drawing command: an operation, a positioning method and operands.
/// The number of operands always matches the operation's arity.
#[derive(Debug)]
pub struct Command {
    kind: Kind,
    position: Position,
    parameters: Parameters,
}

impl Command {
    /// The operation.
    pub closed spec fn kind(&self) -> Kind {
        self.kind
    }

    /// The positioning method.
    pub closed spec fn position(&self) -> Position {
        self.position
    }

    /// The operands, in order.
    pub closed spec fn operands(&self) -> Seq<Decimal> {
        self.parameters@
    }

    /// The operands number as many as the operation takes.
    pub open spec fn wf(&self) -> bool {
        self.operands().len() == arity(self.kind())
    }

    /// The command's text.
    pub open spec fn text(&self) -> Seq<char> {
        command_text(self.kind(), self.position(), self.operands())
    }

    /// A command of the kind, if the parameters number exactly as many as it
    /// takes; `InvalidArity` otherwise.
    pub fn new(kind: Kind, position: Position, parameters: Parameters) -> (r: Result<Command, Error>)
        ensures
            r is Ok <==> parameters@.len() == arity(kind),
            r is Err ==> r == Err::<Command, Error>(Error::InvalidArity),
            r is Ok ==> ({
                let c = r->Ok_0;
                &&& c.kind() == kind
                &&& c.position() == position
                &&& c.operands() == parameters@
                &&& c.wf()
            }),
    {
        if parameters.len() != kind.arity() {
            Err(Error::InvalidArity)
        } else {
            Ok(Command { kind, position, parameters })
        }
    }

    /// A command to set the current point.
    pub fn move_to(position: Position, x: Decimal, y: Decimal) -> (r: Command)
        ensures
            r.kind() == Kind::Move,
            r.position() == position,
            r.operands() == seq![x, y],
            r.wf(),
    {
        let values: Vec<Decimal> = vec![x, y];
        assert(values@ =~= seq![x, y]);
        Command { kind: Kind::Move, position, parameters: Parameters::new(values) }
    }

    /// A command to a straight segment.
    pub fn line_to(position: Position, x: Decimal, y: Decimal) -> (r: Command)
        ensures
            r.kind() == Kind::Line,
            r.position() == position,
            r.operands() == seq![x, y],
            r.wf(),
    {
        let values: Vec<Decimal> = vec![x, y];
        assert(values@ =~= seq![x, y]);
        Command { kind: Kind::Line, position, parameters: Parameters::new(values) }
    }

    /// A command to a horizontal segment.
    pub fn horizontal_line_to(position: Position, x: Decimal) -> (r: Command)
        ensures
            r.kind() == Kind::HorizontalLine,
            r.position() == position,
            r.operands() == seq![x],
            r.wf(),
    {
        let values: Vec<Decimal> = vec![x];
        assert(values@ =~= seq![x]);
        Command { kind: Kind::HorizontalLine, position, parameters: Parameters::new(values) }
    }

    /// A command to a vertical segment.
    pub fn vertical_line_to(position: Position, y: Decimal) -> (r: Command)
        ensures
            r.kind() == Kind::VerticalLine,
            r.position() == position,
            r.operands() == seq![y],
            r.wf(),
    {
        let values: Vec<Decimal> = vec![y];
        assert(values@ =~= seq![y]);
        Command { kind: Kind::VerticalLine, position, parameters: Parameters::new(values) }
    }

    /// A command to a cubic Bézier curve with both control points.
    pub fn cubic_curve_to(position: Position, x1: Decimal, y1: Decimal, x2: Decimal, y2: Decimal, x: Decimal, y: Decimal) -> (r: Command)
        ensures
            r.kind() == Kind::CubicCurve,
            r.position() == position,
            r.operands() == seq![x1, y1, x2, y2, x, y],
            r.wf(),
    {
        let values: Vec<Decimal> = vec![x1, y1, x2, y2, x, y];
        assert(values@ =~= seq![x1, y1, x2, y2, x, y]);
        Command { kind: Kind::CubicCurve, position, parameters: Parameters::new(values) }
    }

    /// A command to a cubic Bézier curve whose first control point mirrors the previous one.
    pub fn smooth_cubic_curve_to(position: Position, x2: Decimal, y2: Decimal, x: Decimal, y: Decimal) -> (r: Command)
        ensures
            r.kind() == Kind::SmoothCubicCurve,
            r.position() == position,
            r.operands() == seq![x2, y2, x, y],
            r.wf(),
    {
        let values: Vec<Decimal> = vec![x2, y2, x, y];
        assert(values@ =~= seq![x2, y2, x, y]);
        Command { kind: Kind::SmoothCubicCurve, position, parameters: Parameters::new(values) }
    }

    /// A command to a quadratic Bézier curve.
    pub fn quadratic_curve_to(position: Position, x1: Decimal, y1: Decimal, x: Decimal, y: Decimal) -> (r: Command)
        ensures
            r.kind() == Kind::QuadraticCurve,
            r.position() == position,
            r.operands() == seq![x1, y1, x, y],
            r.wf(),
    {
        let values: Vec<Decimal> = vec![x1, y1, x, y];
        assert(values@ =~= seq![x1, y1, x, y]);
        Command { kind: Kind::QuadraticCurve, position, parameters: Parameters::new(values) }
    }

    /// A command to a quadratic Bézier curve whose control point mirrors the previous one.
    pub fn smooth_quadratic_curve_to(position: Position, x: Decimal, y: Decimal) -> (r: Command)
        ensures
            r.kind() == Kind::SmoothQuadraticCurve,
            r.position() == position,
            r.operands() == seq![x, y],
            r.wf(),
    {
        let values: Vec<Decimal> = vec![x, y];
        assert(values@ =~= seq![x, y]);
        Command { kind: Kind::SmoothQuadraticCurve, position, parameters: Parameters::new(values) }
    }

    /// A command to an elliptical arc.
    pub fn elliptical_arc_to(position: Position, rx: Decimal, ry: Decimal, rotation: Decimal, large_arc: Decimal, sweep: Decimal, x: Decimal, y: Decimal) -> (r: Command)
        ensures
            r.kind() == Kind::EllipticalArc,
            r.position() == position,
            r.operands() == seq![rx, ry, rotation, large_arc, sweep, x, y],
            r.wf(),
    {
        let values: Vec<Decimal> = vec![rx, ry, rotation, large_arc, sweep, x, y];
        assert(values@ =~= seq![rx, ry, rotation, large_arc, sweep, x, y]);
        Command { kind: Kind::EllipticalArc, position, parameters: Parameters::new(values) }
    }

    /// A command to close the current subpath.
    pub fn close_path(position: Position) -> (r: Command)
        ensures
            r.kind() == Kind::ClosePath,
            r.position() == position,
            r.operands() == Seq::<Decimal>::empty(),
            r.wf(),
    {
        let values: Vec<Decimal> = Vec::new();
        assert(values@ =~= Seq::<Decimal>::empty());
        Command { kind: Kind::ClosePath, position, parameters: Parameters::new(values) }
    }

    /// Renders the command: its letter, then its operands.
    pub fn render(&self) -> (r: String)
        ensures
            r@ == self.text(),
    {
        let mut out = String::new();
        out.append(self.kind.letter(self.position));
        if self.parameters.len() > 0 {
            proof {
                reveal_strlit(" ");
            }
            out.append(" ");
            let t = self.parameters.render();
            out.append(t.as_str());
        }
        assert(out@ =~= self.text());
        out
    }
}

/// The commands' texts joined by single spaces.
pub open spec fn data_text(cs: Seq<Command>) -> Seq<char> {
    join_spaced(cs.map_values(|c: Command| c.text()))
}

/// Path data: a sequence of commands, kept in the order they were appended.
#[derive(Debug)]
pub struct Data {
    commands: Vec<Command>,
}

impl View for Data {
    type V = Seq<Command>;

    closed spec fn view(&self) -> Seq<Command> {
        self.commands@
    }
}

impl Data {
    /// Empty path data.
    pub fn new() -> (r: Data)
        ensures
            r@ == Seq::<Command>::empty(),
    {
        Data { commands: Vec::new() }
    }

    /// The data with the command appended at the end.
    pub fn append(self, command: Command) -> (r: Data)
        ensures
            r@ == self@.push(command),
    {
        let mut commands = self.commands;
        commands.push(command);
        Data { commands }
    }

    /// Renders the commands in order, separated by single spaces.
    pub fn render(&self) -> (r: String)
        ensures
            r@ == data_text(self@),
    {
        let mut out = String::new();
        let mut i: usize = 0;
        while i < self.commands.len()
            invariant
                i <= self@.len(),
                out@ == data_text(self@.subrange(0, i as int)),
            decreases self@.len() - i,
        {
            proof {
                reveal_strlit(" ");
            }
            if i > 0 {
                out.append(" ");
            }
            let t = self.commands[i].render();
            out.append(t.as_str());
            proof {
                let f = |c: Command| c.text();
                let s = self@.subrange(0, i as int);
                assert(self@.subrange(0, i + 1) =~= s.push(self@[i as int]));
                assert(s.push(self@[i as int]).map_values(f) =~= s.map_values(f).push(f(self@[i as int])));
                lemma_join_push(s.map_values(f), f(self@[i as int]));
            }
            i = i + 1;
        }
        assert(self@.subrange(0, self@.len() as int) =~= self@);
        out
    }
}

/// Rendering data with two commands appended gives the text of the data with
/// the first appended, a space, and the text of the second.
pub proof fn lemma_render_append(data: Data, c1: Command, c2: Command)
    ensures
        data_text(data@.push(c1).push(c2)) == data_text(data@.push(c1)) + seq![' '] + c2.text(),
{
    let f = |c: Command| c.text();
    let s = data@.push(c1);
    assert(s.push(c2).map_values(f) =~= s.map_values(f).push(f(c2)));
    lemma_join_push(s.map_values(f), f(c2));
}

} // verus!
