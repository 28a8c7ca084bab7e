use vstd::prelude::*;

verus! {

/// A location in application space, in the caller's integer unit.
#[derive(Clone, Copy, Debug, PartialEq, Eq, Structural)]
pub struct DataPoint {
    pub x: i64,
    pub y: i64,
}

/// An exact fraction `num / den`: the mathematical value of a [`Ratio`].
pub struct Fraction {
    pub num: int,
    pub den: int,
}

impl Fraction {
    /// A fraction has a value only over a positive denominator.
    pub open spec fn valid(self) -> bool {
        self.den > 0
    }

    /// The whole number `n` as a fraction.
    pub open spec fn whole(n: int) -> Fraction {
        Fraction { num: n, den: 1 }
    }

    /// Whether two valid fractions have the same value.
    pub open spec fn same_value(self, other: Fraction) -> bool {
        self.num * other.den == other.num * self.den
    }

    /// Whether the value of this valid fraction lies below that of the other.
    pub open spec fn less_than(self, other: Fraction) -> bool {
        self.num * other.den < other.num * self.den
    }

    /// Whether the value of this valid fraction is the sum of the values of
    /// the two others.
    pub open spec fn is_sum_of(self, a: Fraction, b: Fraction) -> bool {
        self.num * (a.den * b.den) == (a.num * b.den + b.num * a.den) * self.den
    }

    /// The fraction as it is held in machine integers.
    pub open spec fn held(self) -> Ratio {
        Ratio { num: self.num as i128, den: self.den as i128 }
    }
}

/// A drawing-space number, held exactly as `num / den`. Nothing is rounded on
/// the way from application space; whoever needs a rounded number divides
/// once, at the end.
///
/// `==` compares numerator and denominator, not values: one half and two
/// quarters are different ratios of the same value.
#[derive(Clone, Copy, Debug, PartialEq, Eq, Structural)]
pub struct Ratio {
    pub num: i128,
    pub den: i128,
}

impl View for Ratio {
    type V = Fraction;

    open spec fn view(&self) -> Fraction {
        Fraction { num: self.num as int, den: self.den as int }
    }
}

impl Ratio {
    /// A ratio has a value only over a positive denominator.
    pub open spec fn valid(&self) -> bool {
        self.den > 0
    }

    pub fn is_valid(&self) -> (b: bool)
        ensures
            b == self.valid(),
    {
        self.den > 0
    }
}

/// A location in drawing space.
#[derive(Clone, Copy, Debug, PartialEq, Eq, Structural)]
pub struct DrawPoint {
    pub x: Ratio,
    pub y: Ratio,
}

impl DrawPoint {
    /// Both coordinates have a value.
    pub open spec fn valid(&self) -> bool {
        self.x.valid() && self.y.valid()
    }
}

/// The size of the output surface in pixels.
#[derive(Clone, Copy, Debug, PartialEq, Eq, Structural)]
pub struct Screen {
    pub width: u32,
    pub height: u32,
}

impl Screen {
    /// A surface has an aspect ratio only if neither side is empty.
    pub open spec fn valid(&self) -> bool {
        self.width > 0 && self.height > 0
    }

    pub fn is_valid(&self) -> (b: bool)
        ensures
            b == self.valid(),
    {
        self.width > 0 && self.height > 0
    }
}

/// An axis-aligned rectangle in application space: the part of the data that
/// is mapped onto the drawing surface.
#[derive(Clone, Copy, Debug, PartialEq, Eq, Structural)]
pub struct Viewport {
    pub min: DataPoint,
    pub max: DataPoint,
}

impl Viewport {
    /// A viewport must have positive width and positive height.
    pub open spec fn valid(&self) -> bool {
        self.min.x < self.max.x && self.min.y < self.max.y
    }

    pub open spec fn width(&self) -> int {
        self.max.x - self.min.x
    }

    pub open spec fn height(&self) -> int {
        self.max.y - self.min.y
    }

    pub fn is_valid(&self) -> (b: bool)
        ensures
            b == self.valid(),
    {
        self.min.x < self.max.x && self.min.y < self.max.y
    }
}

/// An RGB colour. Each channel is a 32-bit word, normally the bit pattern of a
/// single-precision number between zero and one. The pipeline copies colours
/// and never looks inside them.
#[derive(Clone, Copy, Debug, PartialEq, Eq, Structural)]
pub struct Color {
    pub r: u32,
    pub g: u32,
    pub b: u32,
}

/// How a single location is drawn.
#[derive(Clone, Copy, Debug, PartialEq, Eq, Structural)]
pub enum PointStyle {
    /// A filled disc whose radius is given in pixels.
    Circle { radius: u32 },
}

impl PointStyle {
    pub open spec fn radius(&self) -> int {
        match *self {
            PointStyle::Circle { radius } => radius as int,
        }
    }
}

/// One geometric primitive in application space.
#[derive(Clone, Debug)]
pub enum Geom {
    /// A single location, drawn as a disc of fixed pixel size.
    Point(DataPoint),
    /// A connected polyline of at least two points, stroked with `width`
    /// application units.
    Lines { points: Vec<DataPoint>, width: i64 },
    /// A closed boundary of at least three points, filled. The first point is
    /// not repeated at the end.
    Polygon(Vec<DataPoint>),
}

/// The mathematical content of a [`Geom`].
pub enum GeomView {
    Point(DataPoint),
    Lines { points: Seq<DataPoint>, width: i64 },
    Polygon(Seq<DataPoint>),
}

impl GeomView {
    /// The number of points a primitive of this kind needs at least.
    pub open spec fn min_points(&self) -> nat {
        match *self {
            GeomView::Point(_) => 1,
            GeomView::Lines { .. } => 2,
            GeomView::Polygon(_) => 3,
        }
    }

    /// The number of points the primitive holds.
    pub open spec fn point_count(&self) -> nat {
        match *self {
            GeomView::Point(_) => 1,
            GeomView::Lines { points, .. } => points.len(),
            GeomView::Polygon(points) => points.len(),
        }
    }

    /// A primitive is drawable if it holds enough points for its kind.
    pub open spec fn valid(&self) -> bool {
        self.point_count() >= self.min_points()
    }
}

impl View for Geom {
    type V = GeomView;

    open spec fn view(&self) -> GeomView {
        match *self {
            Geom::Point(p) => GeomView::Point(p),
            Geom::Lines { points, width } => GeomView::Lines { points: points@, width },
            Geom::Polygon(points) => GeomView::Polygon(points@),
        }
    }
}

impl Geom {
    /// The number of points a primitive of this kind needs at least.
    pub fn min_points(&self) -> (n: usize)
        ensures
            n == self@.min_points(),
    {
        match self {
            Geom::Point(_) => 1,
            Geom::Lines { .. } => 2,
            Geom::Polygon(_) => 3,
        }
    }

    /// The number of points the primitive holds.
    pub fn point_count(&self) -> (n: usize)
        ensures
            n == self@.point_count(),
    {
        match self {
            Geom::Point(_) => 1,
            Geom::Lines { points, .. } => points.len(),
            Geom::Polygon(points) => points.len(),
        }
    }

    /// Whether the primitive holds enough points for its kind.
    pub fn is_valid(&self) -> (b: bool)
        ensures
            b == self@.valid(),
    {
        self.point_count() >= self.min_points()
    }
}

/// A primitive together with the colour it is drawn in.
#[derive(Clone, Debug)]
pub struct StyledGeom {
    pub geom: Geom,
    pub color: Color,
}

/// The mathematical content of a [`StyledGeom`].
pub struct StyledGeomView {
    pub geom: GeomView,
    pub color: Color,
}

impl View for StyledGeom {
    type V = StyledGeomView;

    open spec fn view(&self) -> StyledGeomView {
        StyledGeomView { geom: self.geom@, color: self.color }
    }
}

} // verus!
