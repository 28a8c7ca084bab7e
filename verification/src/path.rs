use vstd::prelude::*;
use crate::geometry::DataPoint;
use crate::geometry::DrawPoint;
use crate::geometry::Geom;
use crate::geometry::GeomView;
use crate::geometry::PointStyle;
use crate::geometry::Ratio;
use crate::geometry::Screen;
use crate::geometry::Viewport;
use crate::transform::lemma_extents_in_range;
use crate::transform::lemma_transformed_in_range;
use crate::transform::pixel_extent;
use crate::transform::shifted_x;
use crate::transform::transform_x_shifted;
use crate::transform::pixels_to_drawing;
use crate::transform::transform_length;
use crate::transform::transform_point;
use crate::transform::transformed;
use crate::transform::transformed_length;

verus! {

/// One step of a vector path in drawing space.
#[derive(Clone, Copy, Debug, PartialEq, Eq, Structural)]
pub enum PathCommand {
    /// Start a new sub-path at the point.
    MoveTo(DrawPoint),
    /// Draw a straight segment from the current point to the point.
    LineTo(DrawPoint),
    /// Draw one full turn of the axis-aligned ellipse around `center`,
    /// starting and ending at the current point.
    Arc { center: DrawPoint, radius_x: Ratio, radius_y: Ratio },
    /// Close the current sub-path back to its start.
    Close,
}

impl PathCommand {
    /// Every ratio in the command has a value.
    pub open spec fn valid(&self) -> bool {
        match *self {
            PathCommand::MoveTo(p) => p.valid(),
            PathCommand::LineTo(p) => p.valid(),
            PathCommand::Arc { center, radius_x, radius_y } => center.valid() && radius_x.valid()
                && radius_y.valid(),
            PathCommand::Close => true,
        }
    }
}

/// Whether a path is filled or stroked.
#[derive(Clone, Copy, Debug, PartialEq, Eq, Structural)]
pub enum PathTag {
    Filled,
    Stroked,
}

/// A vector path together with the way it is to be triangulated.
#[derive(Clone, Debug)]
pub enum TaggedPath {
    /// The interior of the path is filled.
    Filled(Vec<PathCommand>),
    /// The path is widened into a ribbon that is `width` wide in drawing
    /// space.
    Stroked { path: Vec<PathCommand>, width: Ratio },
}

/// The mathematical content of a [`TaggedPath`].
pub enum TaggedPathView {
    Filled(Seq<PathCommand>),
    Stroked { path: Seq<PathCommand>, width: Ratio },
}

impl TaggedPathView {
    pub open spec fn tag(&self) -> PathTag {
        match *self {
            TaggedPathView::Filled(_) => PathTag::Filled,
            TaggedPathView::Stroked { .. } => PathTag::Stroked,
        }
    }

    pub open spec fn commands(&self) -> Seq<PathCommand> {
        match *self {
            TaggedPathView::Filled(path) => path,
            TaggedPathView::Stroked { path, .. } => path,
        }
    }

    /// Every ratio in the path has a value, so each can be divided out.
    pub open spec fn valid(&self) -> bool {
        &&& forall|i: int|
            0 <= i < self.commands().len() ==> (#[trigger] self.commands()[i]).valid()
        &&& self matches TaggedPathView::Stroked { width, .. } ==> width.valid()
    }
}

impl View for TaggedPath {
    type V = TaggedPathView;

    open spec fn view(&self) -> TaggedPathView {
        match *self {
            TaggedPath::Filled(path) => TaggedPathView::Filled(path@),
            TaggedPath::Stroked { path, width } => TaggedPathView::Stroked { path: path@, width },
        }
    }
}

impl TaggedPath {
    pub fn tag(&self) -> (t: PathTag)
        ensures
            t == self@.tag(),
    {
        match self {
            TaggedPath::Filled(_) => PathTag::Filled,
            TaggedPath::Stroked { .. } => PathTag::Stroked,
        }
    }

    pub fn commands(&self) -> (c: &Vec<PathCommand>)
        ensures
            c@ == self@.commands(),
    {
        match self {
            TaggedPath::Filled(path) => path,
            TaggedPath::Stroked { path, .. } => path,
        }
    }
}

/// Why a primitive cannot be turned into a path.
#[derive(Clone, Copy, Debug, PartialEq, Eq, Structural)]
pub enum GeometryError {
    /// The primitive holds `found` points where its kind needs `required`.
    TooFewPoints { required: usize, found: usize },
}

/// The open polyline through the images of `points`: a move to the first
/// point, then a line to each further point in order.
pub open spec fn polyline(points: Seq<DataPoint>, viewport: Viewport, screen: Screen) -> Seq<
    PathCommand,
> {
    Seq::new(
        points.len(),
        |i: int|
            if i == 0 {
                PathCommand::MoveTo(transformed(points[i], viewport, screen))
            } else {
                PathCommand::LineTo(transformed(points[i], viewport, screen))
            },
    )
}

/// The closed outline of the ellipse that is a circle of `radius` pixels on
/// screen around the image of `point`: a move to its rightmost point, one
/// full turn, and a close.
pub open spec fn ellipse(point: DataPoint, radius: int, viewport: Viewport, screen: Screen) -> Seq<
    PathCommand,
> {
    let center = transformed(point, viewport, screen);
    seq![
        PathCommand::MoveTo(
            DrawPoint {
                x: shifted_x(point.x as int, radius, viewport, screen).held(),
                y: center.y,
            },
        ),
        PathCommand::Arc {
            center,
            radius_x: pixel_extent(radius, screen.width as int).held(),
            radius_y: pixel_extent(radius, screen.height as int).held(),
        },
        PathCommand::Close,
    ]
}

/// The path that draws a valid primitive.
///
/// A point becomes a filled ellipse that is a circle of the style's pixel
/// radius on screen; a polyline becomes an open stroked path whose width is
/// the scaled stroke width; a polygon becomes a filled path closed back to its
/// first point.
pub open spec fn path_of(geom: GeomView, viewport: Viewport, screen: Screen, style: PointStyle)
    -> TaggedPathView {
    match geom {
        GeomView::Point(p) => TaggedPathView::Filled(
            ellipse(p, style.radius(), viewport, screen),
        ),
        GeomView::Lines { points, width } => TaggedPathView::Stroked {
            path: polyline(points, viewport, screen),
            width: transformed_length(width as int, viewport).held(),
        },
        GeomView::Polygon(points) => TaggedPathView::Filled(
            polyline(points, viewport, screen).push(PathCommand::Close),
        ),
    }
}

/// The shape of a path follows the number of points: a polyline through `n`
/// points is one move followed by `n - 1` lines, so two points give exactly
/// one segment; the outline of a polygon has one more command, the close.
pub proof fn lemma_path_shape(
    geom: GeomView,
    viewport: Viewport,
    screen: Screen,
    style: PointStyle,
)
    requires
        geom.valid(),
    ensures
        geom matches GeomView::Lines { points, .. } ==> {
            let path = path_of(geom, viewport, screen, style).commands();
            &&& path_of(geom, viewport, screen, style).tag() == PathTag::Stroked
            &&& path.len() == points.len()
            &&& path[0] is MoveTo
            &&& forall|i: int| 1 <= i < path.len() ==> (#[trigger] path[i]) is LineTo
        },
        geom matches GeomView::Polygon(points) ==> {
            let path = path_of(geom, viewport, screen, style).commands();
            &&& path_of(geom, viewport, screen, style).tag() == PathTag::Filled
            &&& path.len() == points.len() + 1
            &&& path[0] is MoveTo
            &&& forall|i: int| 1 <= i < points.len() ==> (#[trigger] path[i]) is LineTo
            &&& path[points.len() as int] is Close
        },
        geom is Point ==> {
            let path = path_of(geom, viewport, screen, style).commands();
            &&& path_of(geom, viewport, screen, style).tag() == PathTag::Filled
            &&& path.len() == 3
            &&& path[0] is MoveTo
            &&& path[1] is Arc
            &&& path[2] is Close
        },
{
}

/// Every ratio in the path of a drawable primitive has a value.
pub proof fn lemma_path_is_valid(
    geom: GeomView,
    viewport: Viewport,
    screen: Screen,
    style: PointStyle,
)
    requires
        geom.valid(),
        viewport.valid(),
        screen.valid(),
    ensures
        path_of(geom, viewport, screen, style).valid(),
{
    let path = path_of(geom, viewport, screen, style);
    match geom {
        GeomView::Point(p) => {
            let radius = match style {
                PointStyle::Circle { radius } => radius,
            };
            lemma_transformed_in_range(p, viewport, screen);
            lemma_extents_in_range(p.x, 0, radius, viewport, screen);
            assert(path.commands()[0].valid());
            assert(path.commands()[1].valid());
            assert(path.commands()[2].valid());
        },
        GeomView::Lines { points, width } => {
            lemma_extents_in_range(0, width, 0, viewport, screen);
            assert forall|i: int| 0 <= i < path.commands().len() implies (
            #[trigger] path.commands()[i]).valid() by {
                lemma_transformed_in_range(points[i], viewport, screen);
            }
        },
        GeomView::Polygon(points) => {
            assert forall|i: int| 0 <= i < path.commands().len() implies (
            #[trigger] path.commands()[i]).valid() by {
                if i < points.len() {
                    lemma_transformed_in_range(points[i], viewport, screen);
                }
            }
        },
    }
}

fn build_polyline(points: &Vec<DataPoint>, viewport: &Viewport, screen: &Screen) -> (path: Vec<
    PathCommand,
>)
    requires
        viewport.valid(),
        screen.valid(),
    ensures
        path@ == polyline(points@, *viewport, *screen),
{
    let mut path: Vec<PathCommand> = Vec::new();
    let mut i: usize = 0;
    while i < points.len()
        invariant
            viewport.valid(),
            screen.valid(),
            i <= points.len(),
            path@ == polyline(points@, *viewport, *screen).take(i as int),
        decreases points.len() - i,
    {
        let p = transform_point(&points[i], viewport, screen);
        if i == 0 {
            path.push(PathCommand::MoveTo(p));
        } else {
            path.push(PathCommand::LineTo(p));
        }
        i = i + 1;
    }
    path
}

/// Builds the path that draws `geom`.
///
/// A primitive with too few points for its kind is refused; no path is built
/// for it.
pub fn path_for(geom: &Geom, viewport: &Viewport, screen: &Screen, style: &PointStyle) -> (r:
    Result<TaggedPath, GeometryError>)
    requires
        viewport.valid(),
        screen.valid(),
    ensures
        geom@.valid() ==> r is Ok && r->Ok_0@ == path_of(geom@, *viewport, *screen, *style),
        r matches Ok(path) ==> path@.valid(),
        !geom@.valid() ==> r == Err::<TaggedPath, GeometryError>(
            GeometryError::TooFewPoints {
                required: geom@.min_points() as usize,
                found: geom@.point_count() as usize,
            },
        ),
{
    proof {
        if geom@.valid() {
            lemma_path_is_valid(geom@, *viewport, *screen, *style);
        }
    }
    if !geom.is_valid() {
        return Err(
            GeometryError::TooFewPoints { required: geom.min_points(), found: geom.point_count() },
        );
    }
    match geom {
        Geom::Point(p) => {
            let radius = match style {
                PointStyle::Circle { radius } => *radius,
            };
            let center = transform_point(p, viewport, screen);
            let start = transform_x_shifted(p, radius, viewport, screen);
            let radius_x = pixels_to_drawing(radius, screen.width);
            let radius_y = pixels_to_drawing(radius, screen.height);
            let mut path: Vec<PathCommand> = Vec::new();
            path.push(PathCommand::MoveTo(DrawPoint { x: start, y: center.y }));
            path.push(PathCommand::Arc { center, radius_x, radius_y });
            path.push(PathCommand::Close);
            assert(path@ =~= ellipse(*p, radius as int, *viewport, *screen));
            Ok(TaggedPath::Filled(path))
        },
        Geom::Lines { points, width } => {
            let path = build_polyline(points, viewport, screen);
            let width = transform_length(*width, viewport);
            Ok(TaggedPath::Stroked { path, width })
        },
        Geom::Polygon(points) => {
            let mut path = build_polyline(points, viewport, screen);
            path.push(PathCommand::Close);
            Ok(TaggedPath::Filled(path))
        },
    }
}

/// Builds the path that draws `geom`, consuming the primitive.
pub fn geom_to_path(geom: Geom, viewport: Viewport, screen: Screen, style: PointStyle) -> (r:
    Result<TaggedPath, GeometryError>)
    requires
        viewport.valid(),
        screen.valid(),
    ensures
        geom@.valid() ==> r is Ok && r->Ok_0@ == path_of(geom@, viewport, screen, style),
        r matches Ok(path) ==> path@.valid(),
        !geom@.valid() ==> r == Err::<TaggedPath, GeometryError>(
            GeometryError::TooFewPoints {
                required: geom@.min_points() as usize,
                found: geom@.point_count() as usize,
            },
        ),
{
    path_for(&geom, &viewport, &screen, &style)
}

} // verus!
