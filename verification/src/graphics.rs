//! Points, paths, colours and line styles, and the operations that draw
//! them.

use vstd::prelude::*;
use crate::object::{
    array, integer_array, integer_values, operations_of, Object,
    Operation, OperationValue, Value,
};
use crate::scale::{ratio, Mm, Pt, Real};

verus! {

/// A point on a page, measured from the lower left corner.
#[derive(Debug, Copy, Clone, PartialEq, Eq, Structural)]
pub struct Point {
    pub x: Pt,
    pub y: Pt,
}

impl Point {
    /// The point at the given distances from the lower left corner.
    pub fn new(x: Mm, y: Mm) -> (p: Point)
        ensures
            p == (Point { x: x.spec_to_pt(), y: y.spec_to_pt() }),
    {
        Point { x: x.to_pt(), y: y.to_pt() }
    }
}

/// A path: its points, each with a flag that marks a control point of a
/// curve, and how the path is painted.
#[derive(Debug, Clone, PartialEq)]
pub struct Line {
    pub points: Vec<(Point, bool)>,
    pub is_closed: bool,
    pub has_fill: bool,
    pub has_stroke: bool,
    pub is_clipping_path: bool,
}

/// The operand that stands for a length.
pub open spec fn pt_value(p: Pt) -> Value {
    Value::Real(p.spec_to_real())
}

/// An operation without operands.
pub open spec fn plain_op(operator: &str) -> OperationValue {
    OperationValue { operator: operator@, operands: Seq::empty() }
}

/// An operation whose operands are the coordinates of points, in order.
pub open spec fn points_op(operator: &str, points: Seq<Point>) -> OperationValue {
    OperationValue {
        operator: operator@,
        operands: Seq::new(
            2 * points.len(),
            |i: int|
                if i % 2 == 0 {
                    pt_value(points[i / 2].x)
                } else {
                    pt_value(points[i / 2].y)
                },
        ),
    }
}

/// The operation that draws a curve from the point `pt_a` to the point `pt_d`
/// with the control points `pt_b` and `pt_c`. Where the first control point
/// lies on the start of the curve, or the second on the first, the shorter
/// form of the operation is taken.
pub open spec fn curve_op(pt_a: Point, pt_b: Point, pt_c: Point, pt_d: Point) -> OperationValue {
    if pt_a == pt_b {
        points_op("v", seq![pt_c, pt_d])
    } else if pt_b == pt_c {
        points_op("y", seq![pt_b, pt_d])
    } else {
        points_op("c", seq![pt_b, pt_c, pt_d])
    }
}

/// The operations for the points of a path from the one at `current` on.
/// Where the point before and the point at `current` are both flagged and
/// two more points follow, a curve is drawn from the point before, with the
/// point at `current` and the next as control points, to the one after
/// them. Otherwise a straight line is drawn to the point at `current`.
pub open spec fn segment_ops(points: Seq<(Point, bool)>, current: int) -> Seq<OperationValue>
    decreases points.len() - current,
{
    if current < 1 || current >= points.len() {
        Seq::empty()
    } else if points[current - 1].1 && points[current].1 && current + 2 < points.len() {
        seq![
            curve_op(
                points[current - 1].0,
                points[current].0,
                points[current + 1].0,
                points[current + 2].0,
            ),
        ] + segment_ops(points, current + 3)
    } else {
        seq![points_op("l", seq![points[current].0])] + segment_ops(points, current + 1)
    }
}

/// The operations that end a path: clip and discard for a clipping path,
/// else fill and stroke, stroke, fill, or nothing painted.
pub open spec fn paint_ops(has_fill: bool, has_stroke: bool, is_clipping_path: bool) -> Seq<
    OperationValue,
> {
    if is_clipping_path {
        seq![plain_op("W"), plain_op("n")]
    } else if has_fill && has_stroke {
        seq![plain_op("B")]
    } else if has_stroke {
        seq![plain_op("S")]
    } else if has_fill {
        seq![plain_op("f")]
    } else {
        seq![plain_op("n")]
    }
}

/// The operations that close a path, if it is closed.
pub open spec fn close_ops(is_closed: bool) -> Seq<OperationValue> {
    if is_closed {
        seq![plain_op("h")]
    } else {
        Seq::empty()
    }
}

/// The operations that draw a path: none for a path without points;
/// otherwise a move to the first point, the segments, the close of a closed
/// path, and the painting.
pub open spec fn line_ops(
    points: Seq<(Point, bool)>,
    is_closed: bool,
    has_fill: bool,
    has_stroke: bool,
    is_clipping_path: bool,
) -> Seq<OperationValue> {
    if points.len() == 0 {
        Seq::empty()
    } else {
        seq![points_op("m", seq![points[0].0])] + segment_ops(points, 1) + close_ops(is_closed)
            + paint_ops(has_fill, has_stroke, is_clipping_path)
    }
}

/// The operand that stands for a length.
pub fn pt_operand(p: Pt) -> (o: Object)
    ensures
        o@ == pt_value(p),
{
    Object::Real(p.to_real())
}

/// An operation without operands.
pub fn plain_operation(operator: &str) -> (op: Operation)
    ensures
        op@ == plain_op(operator),
{
    let op = Operation::new(operator, Vec::new());
    assert(op@.operands =~= Seq::empty());
    op
}

/// An operation on one point.
pub fn point_operation(operator: &str, p: Point) -> (op: Operation)
    ensures
        op@ == points_op(operator, seq![p]),
{
    let mut operands: Vec<Object> = Vec::new();
    operands.push(pt_operand(p.x));
    operands.push(pt_operand(p.y));
    let op = Operation::new(operator, operands);
    assert(op@.operands =~= points_op(operator, seq![p]).operands);
    op
}

/// An operation on two points.
pub fn two_point_operation(operator: &str, pt_a: Point, pt_b: Point) -> (op: Operation)
    ensures
        op@ == points_op(operator, seq![pt_a, pt_b]),
{
    let mut operands: Vec<Object> = Vec::new();
    operands.push(pt_operand(pt_a.x));
    operands.push(pt_operand(pt_a.y));
    operands.push(pt_operand(pt_b.x));
    operands.push(pt_operand(pt_b.y));
    let op = Operation::new(operator, operands);
    assert(op@.operands =~= points_op(operator, seq![pt_a, pt_b]).operands);
    op
}

/// An operation on three points.
pub fn three_point_operation(operator: &str, pt_a: Point, pt_b: Point, pt_c: Point) -> (op: Operation)
    ensures
        op@ == points_op(operator, seq![pt_a, pt_b, pt_c]),
{
    let mut operands: Vec<Object> = Vec::new();
    operands.push(pt_operand(pt_a.x));
    operands.push(pt_operand(pt_a.y));
    operands.push(pt_operand(pt_b.x));
    operands.push(pt_operand(pt_b.y));
    operands.push(pt_operand(pt_c.x));
    operands.push(pt_operand(pt_c.y));
    let op = Operation::new(operator, operands);
    assert(op@.operands =~= points_op(operator, seq![pt_a, pt_b, pt_c]).operands);
    op
}

/// The operation that draws a curve from `pt_a` to `pt_d` with the control
/// points `pt_b` and `pt_c`.
pub fn curve_operation(pt_a: Point, pt_b: Point, pt_c: Point, pt_d: Point) -> (op: Operation)
    ensures
        op@ == curve_op(pt_a, pt_b, pt_c, pt_d),
{
    if pt_a == pt_b {
        two_point_operation("v", pt_c, pt_d)
    } else if pt_b == pt_c {
        two_point_operation("y", pt_b, pt_d)
    } else {
        three_point_operation("c", pt_b, pt_c, pt_d)
    }
}

/// Appending an operation appends its value.
pub proof fn lemma_operations_push(ops: Seq<Operation>, op: Operation)
    ensures
        operations_of(ops.push(op)) == operations_of(ops).push(op@),
{
    assert(operations_of(ops.push(op)) =~= operations_of(ops).push(op@));
}

impl Line {
    /// The operations that draw the path.
    pub open spec fn spec_ops(self) -> Seq<OperationValue> {
        line_ops(
            self.points@,
            self.is_closed,
            self.has_fill,
            self.has_stroke,
            self.is_clipping_path,
        )
    }

    /// The operations that draw the path.
    pub fn into_stream_op(self) -> (ops: Vec<Operation>)
        ensures
            operations_of(ops@) == self.spec_ops(),
    {
        let mut ops: Vec<Operation> = Vec::new();
        if self.points.len() == 0 {
            assert(operations_of(ops@) =~= self.spec_ops());
            return ops;
        }
        let ghost points = self.points@;
        let ghost head = seq![points_op("m", seq![points[0].0])];
        ops.push(point_operation("m", self.points[0].0));
        assert(operations_of(ops@) =~= head);
        let mut current: usize = 1;
        let n = self.points.len();
        while current < n
            invariant
                1 <= current,
                n == points.len(),
                points == self.points@,
                operations_of(ops@) + segment_ops(points, current as int) == head + segment_ops(
                    points,
                    1,
                ),
            decreases n - current,
        {
            let ghost before = operations_of(ops@);
            let pt_a = self.points[current - 1];
            let pt_b = self.points[current];
            if pt_a.1 && pt_b.1 && n - current > 2 {
                let pt_c = self.points[current + 1];
                let pt_d = self.points[current + 2];
                let op = curve_operation(pt_a.0, pt_b.0, pt_c.0, pt_d.0);
                proof {
                    lemma_operations_push(ops@, op);
                    assert(before.push(op@) + segment_ops(points, current + 3) =~= before
                        + segment_ops(points, current as int));
                }
                ops.push(op);
                current += 3;
            } else {
                let op = point_operation("l", pt_b.0);
                proof {
                    lemma_operations_push(ops@, op);
                    assert(before.push(op@) + segment_ops(points, current + 1) =~= before
                        + segment_ops(points, current as int));
                }
                ops.push(op);
                current += 1;
            }
        }
        assert(operations_of(ops@) =~= head + segment_ops(points, 1));
        if self.is_closed {
            let op = plain_operation("h");
            proof {
                lemma_operations_push(ops@, op);
            }
            ops.push(op);
        }
        assert(operations_of(ops@) =~= head + segment_ops(points, 1) + close_ops(self.is_closed));
        let ghost drawn = operations_of(ops@);
        if self.is_clipping_path {
            let clip = plain_operation("W");
            proof {
                lemma_operations_push(ops@, clip);
            }
            ops.push(clip);
            let end = plain_operation("n");
            proof {
                lemma_operations_push(ops@, end);
            }
            ops.push(end);
        } else {
            let op = if self.has_fill && self.has_stroke {
                plain_operation("B")
            } else if self.has_stroke {
                plain_operation("S")
            } else if self.has_fill {
                plain_operation("f")
            } else {
                plain_operation("n")
            };
            proof {
                lemma_operations_push(ops@, op);
            }
            ops.push(op);
        }
        assert(operations_of(ops@) =~= drawn + paint_ops(
            self.has_fill,
            self.has_stroke,
            self.is_clipping_path,
        ));
        ops
    }
}


/// An operation whose operands are the given numbers.
pub open spec fn reals_op(operator: &str, reals: Seq<Real>) -> OperationValue {
    OperationValue {
        operator: operator@,
        operands: Seq::new(reals.len(), |i: int| Value::Real(reals[i])),
    }
}

/// An operation whose one operand is a whole number.
pub open spec fn integer_op(operator: &str, n: i64) -> OperationValue {
    OperationValue { operator: operator@, operands: seq![Value::Integer(n)] }
}

/// An operation whose operands are the given numbers.
pub fn reals_operation(operator: &str, reals: Vec<Real>) -> (op: Operation)
    ensures
        op@ == reals_op(operator, reals@),
{
    let mut operands: Vec<Object> = Vec::new();
    let mut i: usize = 0;
    while i < reals.len()
        invariant
            i <= reals@.len(),
            operands@.len() == i,
            forall|j: int| 0 <= j < i ==> (#[trigger] operands@[j])@ == Value::Real(reals@[j]),
        decreases reals@.len() - i,
    {
        operands.push(Object::Real(reals[i]));
        i += 1;
    }
    let op = Operation::new(operator, operands);
    assert(op@.operands =~= reals_op(operator, reals@).operands);
    op
}

/// An operation whose one operand is a whole number.
pub fn integer_operation(operator: &str, n: i64) -> (op: Operation)
    ensures
        op@ == integer_op(operator, n),
{
    let mut operands: Vec<Object> = Vec::new();
    operands.push(Object::Integer(n));
    let op = Operation::new(operator, operands);
    assert(op@.operands =~= integer_op(operator, n).operands);
    op
}

/// A colour of red, green and blue parts.
#[derive(Debug, Copy, Clone, PartialEq, Eq, Structural)]
pub struct Rgb {
    pub r: Real,
    pub g: Real,
    pub b: Real,
}

/// A colour of cyan, magenta, yellow and black parts.
#[derive(Debug, Copy, Clone, PartialEq, Eq, Structural)]
pub struct Cmyk {
    pub c: Real,
    pub m: Real,
    pub y: Real,
    pub k: Real,
}

/// A shade of grey.
#[derive(Debug, Copy, Clone, PartialEq, Eq, Structural)]
pub struct Greyscale {
    pub percent: Real,
}

/// A spot colour, given by its process colour parts.
#[derive(Debug, Copy, Clone, PartialEq, Eq, Structural)]
pub struct SpotColor {
    pub c: Real,
    pub m: Real,
    pub y: Real,
    pub k: Real,
}

/// A colour.
#[derive(Debug, Copy, Clone, PartialEq, Eq, Structural)]
pub enum Color {
    Rgb(Rgb),
    Cmyk(Cmyk),
    Greyscale(Greyscale),
    SpotColor(SpotColor),
}

/// A colour together with what it is for.
#[derive(Debug, Copy, Clone, PartialEq, Eq, Structural)]
pub enum PdfColor {
    FillColor(Color),
    OutlineColor(Color),
}

impl Color {
    /// The parts of the colour, in the order of its operands.
    pub open spec fn spec_parts(self) -> Seq<Real> {
        match self {
            Color::Rgb(c) => seq![c.r, c.g, c.b],
            Color::Cmyk(c) => seq![c.c, c.m, c.y, c.k],
            Color::Greyscale(c) => seq![c.percent],
            Color::SpotColor(c) => seq![c.c, c.m, c.y, c.k],
        }
    }

    /// The parts of the colour, in the order of its operands.
    pub fn parts(self) -> (v: Vec<Real>)
        ensures
            v@ == self.spec_parts(),
    {
        let mut v: Vec<Real> = Vec::new();
        match self {
            Color::Rgb(c) => {
                v.push(c.r);
                v.push(c.g);
                v.push(c.b);
            },
            Color::Cmyk(c) => {
                v.push(c.c);
                v.push(c.m);
                v.push(c.y);
                v.push(c.k);
            },
            Color::Greyscale(c) => {
                v.push(c.percent);
            },
            Color::SpotColor(c) => {
                v.push(c.c);
                v.push(c.m);
                v.push(c.y);
                v.push(c.k);
            },
        }
        assert(v@ =~= self.spec_parts());
        v
    }
}

impl PdfColor {
    /// The operator that sets the colour.
    pub open spec fn spec_operator(self) -> &'static str {
        match self {
            PdfColor::FillColor(Color::Rgb(_)) => "rg",
            PdfColor::FillColor(Color::Greyscale(_)) => "g",
            PdfColor::FillColor(_) => "k",
            PdfColor::OutlineColor(Color::Rgb(_)) => "RG",
            PdfColor::OutlineColor(Color::Greyscale(_)) => "G",
            PdfColor::OutlineColor(_) => "K",
        }
    }

    /// The colour.
    pub open spec fn spec_color(self) -> Color {
        match self {
            PdfColor::FillColor(c) => c,
            PdfColor::OutlineColor(c) => c,
        }
    }

    /// The operation that sets the colour.
    pub open spec fn spec_op(self) -> OperationValue {
        reals_op(self.spec_operator(), self.spec_color().spec_parts())
    }

    /// The operation that sets the colour.
    pub fn to_operation(self) -> (op: Operation)
        ensures
            op@ == self.spec_op(),
    {
        match self {
            PdfColor::FillColor(c) => {
                let operator = match c {
                    Color::Rgb(_) => "rg",
                    Color::Greyscale(_) => "g",
                    _ => "k",
                };
                reals_operation(operator, c.parts())
            },
            PdfColor::OutlineColor(c) => {
                let operator = match c {
                    Color::Rgb(_) => "RG",
                    Color::Greyscale(_) => "G",
                    _ => "K",
                };
                reals_operation(operator, c.parts())
            },
        }
    }
}

/// How two segments of a line are joined.
#[derive(Debug, Copy, Clone, PartialEq, Eq, Structural)]
pub enum LineJoinStyle {
    Miter,
    Round,
    Bevel,
}

/// How the end of a line is drawn.
#[derive(Debug, Copy, Clone, PartialEq, Eq, Structural)]
pub enum LineCapStyle {
    Butt,
    Round,
    ProjectingSquare,
}

impl LineJoinStyle {
    /// The operation that sets the style.
    pub open spec fn spec_op(self) -> OperationValue {
        integer_op(
            "j",
            match self {
                LineJoinStyle::Miter => 0,
                LineJoinStyle::Round => 1,
                LineJoinStyle::Bevel => 2,
            },
        )
    }

    /// The operation that sets the style.
    pub fn to_operation(self) -> (op: Operation)
        ensures
            op@ == self.spec_op(),
    {
        integer_operation(
            "j",
            match self {
                LineJoinStyle::Miter => 0,
                LineJoinStyle::Round => 1,
                LineJoinStyle::Bevel => 2,
            },
        )
    }
}

impl LineCapStyle {
    /// The operation that sets the style.
    pub open spec fn spec_op(self) -> OperationValue {
        integer_op(
            "J",
            match self {
                LineCapStyle::Butt => 0,
                LineCapStyle::Round => 1,
                LineCapStyle::ProjectingSquare => 2,
            },
        )
    }

    /// The operation that sets the style.
    pub fn to_operation(self) -> (op: Operation)
        ensures
            op@ == self.spec_op(),
    {
        integer_operation(
            "J",
            match self {
                LineCapStyle::Butt => 0,
                LineCapStyle::Round => 1,
                LineCapStyle::ProjectingSquare => 2,
            },
        )
    }
}

/// A pattern of dashes and gaps. The lengths count in order as long as they
/// are given: the first that is missing ends the pattern.
#[derive(Debug, Copy, Clone, PartialEq, Eq, Structural)]
pub struct LineDashPattern {
    pub offset: i64,
    pub dash_1: Option<i64>,
    pub gap_1: Option<i64>,
    pub dash_2: Option<i64>,
    pub gap_2: Option<i64>,
    pub dash_3: Option<i64>,
    pub gap_3: Option<i64>,
}

/// The lengths of a run that come before the first missing one, from the
/// place `from` on.
pub open spec fn leading_lengths(lengths: Seq<Option<i64>>, from: int) -> Seq<i64>
    decreases lengths.len() - from,
{
    if from < 0 || from >= lengths.len() {
        Seq::empty()
    } else {
        match lengths[from] {
            None => Seq::empty(),
            Some(n) => seq![n] + leading_lengths(lengths, from + 1),
        }
    }
}

impl LineDashPattern {
    /// The six lengths of the pattern, given or not.
    pub open spec fn spec_lengths(self) -> Seq<Option<i64>> {
        seq![self.dash_1, self.gap_1, self.dash_2, self.gap_2, self.dash_3, self.gap_3]
    }

    /// The operation that sets the pattern.
    pub open spec fn spec_op(self) -> OperationValue {
        OperationValue {
            operator: "d"@,
            operands: seq![
                Value::Array(integer_values(leading_lengths(self.spec_lengths(), 0))),
                Value::Integer(self.offset),
            ],
        }
    }

    /// A solid line: no dash and no gap.
    pub fn new() -> (p: LineDashPattern)
        ensures
            p == (LineDashPattern {
                offset: 0,
                dash_1: None,
                gap_1: None,
                dash_2: None,
                gap_2: None,
                dash_3: None,
                gap_3: None,
            }),
    {
        LineDashPattern {
            offset: 0,
            dash_1: None,
            gap_1: None,
            dash_2: None,
            gap_2: None,
            dash_3: None,
            gap_3: None,
        }
    }

    /// The operation that sets the pattern.
    pub fn to_operation(self) -> (op: Operation)
        ensures
            op@ == self.spec_op(),
    {
        let mut all: Vec<Option<i64>> = Vec::new();
        all.push(self.dash_1);
        all.push(self.gap_1);
        all.push(self.dash_2);
        all.push(self.gap_2);
        all.push(self.dash_3);
        all.push(self.gap_3);
        assert(all@ =~= self.spec_lengths());
        let mut lengths: Vec<i64> = Vec::new();
        let mut i: usize = 0;
        let mut open = true;
        while open && i < all.len()
            invariant
                i <= all@.len(),
                open ==> lengths@ + leading_lengths(all@, i as int) == leading_lengths(all@, 0),
                !open ==> lengths@ == leading_lengths(all@, 0),
            decreases all@.len() - i + if open { 1nat } else { 0nat },
        {
            match all[i] {
                None => {
                    assert(lengths@ + Seq::<i64>::empty() =~= lengths@);
                    open = false;
                },
                Some(n) => {
                    let ghost before = lengths@;
                    lengths.push(n);
                    assert(lengths@ + leading_lengths(all@, i + 1) =~= before + leading_lengths(
                        all@,
                        i as int,
                    ));
                    i += 1;
                },
            }
        }
        assert(lengths@ =~= leading_lengths(all@, 0)) by {
            if open {
                assert(lengths@ + Seq::<i64>::empty() =~= lengths@);
            }
        }
        let mut operands: Vec<Object> = Vec::new();
        operands.push(integer_array(&lengths));
        operands.push(Object::Integer(self.offset));
        let op = Operation::new("d", operands);
        assert(op@.operands =~= self.spec_op().operands);
        op
    }
}

/// A rotation, given by the cosine and the sine of its angle.
#[derive(Debug, Copy, Clone, PartialEq, Eq, Structural)]
pub struct Rotation {
    pub cos: Real,
    pub sin: Real,
}

/// The six numbers of a matrix that turns by a rotation and then moves by
/// `x` and `y`.
pub open spec fn matrix_parts(a: Real, b: Real, c: Real, d: Real, x: Real, y: Real) -> Seq<Real> {
    seq![a, b, c, d, x, y]
}

/// The six numbers of a matrix, as a list.
pub fn matrix(a: Real, b: Real, c: Real, d: Real, x: Real, y: Real) -> (v: Vec<Real>)
    ensures
        v@ == matrix_parts(a, b, c, d, x, y),
{
    let mut v: Vec<Real> = Vec::new();
    v.push(a);
    v.push(b);
    v.push(c);
    v.push(d);
    v.push(x);
    v.push(y);
    assert(v@ =~= matrix_parts(a, b, c, d, x, y));
    v
}

/// A change of the coordinate system.
#[derive(Debug, Copy, Clone, PartialEq, Eq, Structural)]
pub enum CurTransMat {
    /// A move by the two lengths.
    Translate(Pt, Pt),
    /// A turn.
    Rotate(Rotation),
    /// A stretch by the two factors.
    Scale(Real, Real),
    /// No change.
    Identity,
}

impl CurTransMat {
    /// The six numbers of the matrix.
    pub open spec fn spec_parts(self) -> Seq<Real> {
        let zero = ratio(0, 1);
        let one = ratio(1, 1);
        match self {
            CurTransMat::Translate(x, y) => matrix_parts(
                one,
                zero,
                zero,
                one,
                x.spec_to_real(),
                y.spec_to_real(),
            ),
            CurTransMat::Rotate(r) => matrix_parts(r.cos, r.sin.spec_neg(), r.sin, r.cos, zero, zero),
            CurTransMat::Scale(x, y) => matrix_parts(x, zero, zero, y, zero, zero),
            CurTransMat::Identity => matrix_parts(one, zero, zero, one, zero, zero),
        }
    }

    /// The operation that applies the change.
    pub open spec fn spec_op(self) -> OperationValue {
        reals_op("cm", self.spec_parts())
    }

    /// The operation that applies the change.
    pub fn to_operation(self) -> (op: Operation)
        ensures
            op@ == self.spec_op(),
    {
        let zero = Real::from_int(0);
        let one = Real::from_int(1);
        let parts = match self {
            CurTransMat::Translate(x, y) => matrix(one, zero, zero, one, x.to_real(), y.to_real()),
            CurTransMat::Rotate(r) => matrix(r.cos, r.sin.neg(), r.sin, r.cos, zero, zero),
            CurTransMat::Scale(x, y) => matrix(x, zero, zero, y, zero, zero),
            CurTransMat::Identity => matrix(one, zero, zero, one, zero, zero),
        };
        reals_operation("cm", parts)
    }
}

/// The matrix that places text.
#[derive(Debug, Copy, Clone, PartialEq, Eq, Structural)]
pub enum TextMatrix {
    /// A turn.
    Rotate(Rotation),
    /// A move by the two lengths.
    Translate(Pt, Pt),
    /// A turn and then a move.
    TranslateRotate(Pt, Pt, Rotation),
}

impl TextMatrix {
    /// The six numbers of the matrix.
    pub open spec fn spec_parts(self) -> Seq<Real> {
        let zero = ratio(0, 1);
        let one = ratio(1, 1);
        match self {
            TextMatrix::Rotate(r) => matrix_parts(r.cos, r.sin.spec_neg(), r.sin, r.cos, zero, zero),
            TextMatrix::Translate(x, y) => matrix_parts(
                one,
                zero,
                zero,
                one,
                x.spec_to_real(),
                y.spec_to_real(),
            ),
            TextMatrix::TranslateRotate(x, y, r) => matrix_parts(
                r.cos,
                r.sin.spec_neg(),
                r.sin,
                r.cos,
                x.spec_to_real(),
                y.spec_to_real(),
            ),
        }
    }

    /// The operation that sets the matrix.
    pub open spec fn spec_op(self) -> OperationValue {
        reals_op("Tm", self.spec_parts())
    }

    /// The operation that sets the matrix.
    pub fn to_operation(self) -> (op: Operation)
        ensures
            op@ == self.spec_op(),
    {
        let zero = Real::from_int(0);
        let one = Real::from_int(1);
        let parts = match self {
            TextMatrix::Rotate(r) => matrix(r.cos, r.sin.neg(), r.sin, r.cos, zero, zero),
            TextMatrix::Translate(x, y) => matrix(one, zero, zero, one, x.to_real(), y.to_real()),
            TextMatrix::TranslateRotate(x, y, r) => matrix(
                r.cos,
                r.sin.neg(),
                r.sin,
                r.cos,
                x.to_real(),
                y.to_real(),
            ),
        };
        reals_operation("Tm", parts)
    }
}

/// The name under which a page knows an external object.
#[derive(Debug, Clone, PartialEq)]
pub struct XObjectRef {
    pub name: String,
}

/// The name under which a page knows a graphics state.
#[derive(Debug, Clone, PartialEq)]
pub struct ExtendedGraphicsStateRef {
    pub gs_name: String,
}

/// The name under which a document knows a font.
#[derive(Debug, Clone, PartialEq)]
pub struct IndirectFontRef {
    pub name: String,
}

} // verus!
