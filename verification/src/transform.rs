use vstd::prelude::*;
use crate::geometry::DataPoint;
use crate::geometry::DrawPoint;
use crate::geometry::Fraction;
use crate::geometry::Ratio;
use crate::geometry::Screen;
use crate::geometry::Viewport;

verus! {

/// Number of steps that make up a length of one where a drawing-space
/// quantity is configured as a whole number of steps.
pub const UNIT: i128 = 1_048_576;

/// The horizontal drawing coordinate of the application coordinate `x`.
///
/// The viewport's left edge goes to `-1 / aspect` and its right edge to
/// `1 / aspect`, where `aspect` is the screen's width over its height: the
/// value is `(2 (x - min.x) / width_of_viewport - 1) * height / width`.
pub open spec fn transformed_x(x: int, viewport: Viewport, screen: Screen) -> Fraction {
    Fraction {
        num: (2 * (x - viewport.min.x) - viewport.width()) * screen.height,
        den: viewport.width() * screen.width,
    }
}

/// The vertical drawing coordinate of the application coordinate `y`: the
/// viewport's lower edge goes to `-1` and its upper edge to `1`.
pub open spec fn transformed_y(y: int, viewport: Viewport) -> Fraction {
    Fraction { num: 2 * (y - viewport.min.y) - viewport.height(), den: viewport.height() }
}

/// The image of an application-space point in drawing space. Points outside
/// the viewport are not clamped.
pub open spec fn transformed(point: DataPoint, viewport: Viewport, screen: Screen) -> DrawPoint {
    DrawPoint {
        x: transformed_x(point.x as int, viewport, screen).held(),
        y: transformed_y(point.y as int, viewport).held(),
    }
}

/// An application-space length in drawing space: `2 * length` over the
/// viewport's height. Lengths are scaled by the vertical factor alone, so on
/// a viewport that is not square a width is distorted against a horizontal
/// extent; this is how the system is defined.
pub open spec fn transformed_length(length: int, viewport: Viewport) -> Fraction {
    Fraction { num: 2 * length, den: viewport.height() }
}

/// The drawing-space size of `pixels_len` pixels along an axis that is
/// `pixels` pixels long; the whole axis spans a length of two.
pub open spec fn pixel_extent(pixels_len: int, pixels: int) -> Fraction {
    Fraction { num: 2 * pixels_len, den: pixels }
}

/// The horizontal drawing coordinate of the application coordinate `x`,
/// moved right by `pixels_len` pixels of the screen's width.
pub open spec fn shifted_x(x: int, pixels_len: int, viewport: Viewport, screen: Screen)
    -> Fraction {
    Fraction {
        num: (2 * (x - viewport.min.x) - viewport.width()) * screen.height + 2 * pixels_len
            * viewport.width(),
        den: viewport.width() * screen.width,
    }
}

/// Largest magnitude of a numerator or denominator of a drawing-space ratio.
pub open spec fn ratio_limit() -> int {
    0x10_0000_0000_0000_0000_0000_0000
}

proof fn lemma_product_within(a: int, b: int, bound_a: int, bound_b: int)
    requires
        -bound_a <= a <= bound_a,
        0 <= b <= bound_b,
    ensures
        -(bound_a * bound_b) <= a * b <= bound_a * bound_b,
{
    assert(-(bound_a * bound_b) <= a * b <= bound_a * bound_b) by (nonlinear_arith)
        requires
            -bound_a <= a <= bound_a,
            0 <= b <= bound_b,
    ;
}

/// Every drawing-space ratio that the transform produces is held without
/// loss: its numerator and its denominator fit the machine integers, and its
/// denominator is positive.
pub proof fn lemma_transformed_in_range(point: DataPoint, viewport: Viewport, screen: Screen)
    requires
        viewport.valid(),
        screen.valid(),
    ensures
        transformed(point, viewport, screen).x@ == transformed_x(
            point.x as int,
            viewport,
            screen,
        ),
        transformed(point, viewport, screen).y@ == transformed_y(point.y as int, viewport),
        transformed_x(point.x as int, viewport, screen).valid(),
        transformed_y(point.y as int, viewport).valid(),
        -ratio_limit() <= transformed_x(point.x as int, viewport, screen).num <= ratio_limit(),
        transformed_x(point.x as int, viewport, screen).den <= ratio_limit(),
        -ratio_limit() <= transformed_y(point.y as int, viewport).num <= ratio_limit(),
{
    let dx = viewport.width();
    let a = 2 * (point.x - viewport.min.x) - dx;
    lemma_product_within(a, screen.height as int, 0x3_0000_0000_0000_0000, 0x1_0000_0000);
    lemma_product_within(screen.width as int, dx, 0x1_0000_0000, 0x1_0000_0000_0000_0000);
    assert(dx * screen.width >= 1 && dx * screen.width == screen.width * dx) by (nonlinear_arith)
        requires
            dx >= 1,
            screen.width >= 1,
    ;
}

/// A scaled length, a pixel extent and a shifted coordinate are held without
/// loss too.
pub proof fn lemma_extents_in_range(
    x: i64,
    length: i64,
    pixels_len: u32,
    viewport: Viewport,
    screen: Screen,
)
    requires
        viewport.valid(),
        screen.valid(),
    ensures
        transformed_length(length as int, viewport).held()@ == transformed_length(
            length as int,
            viewport,
        ),
        pixel_extent(pixels_len as int, screen.width as int).held()@ == pixel_extent(
            pixels_len as int,
            screen.width as int,
        ),
        pixel_extent(pixels_len as int, screen.height as int).held()@ == pixel_extent(
            pixels_len as int,
            screen.height as int,
        ),
        shifted_x(x as int, pixels_len as int, viewport, screen).held()@ == shifted_x(
            x as int,
            pixels_len as int,
            viewport,
            screen,
        ),
        shifted_x(x as int, pixels_len as int, viewport, screen).valid(),
{
    let dx = viewport.width();
    let a = 2 * (x - viewport.min.x) - dx;
    lemma_product_within(a, screen.height as int, 0x3_0000_0000_0000_0000, 0x1_0000_0000);
    lemma_product_within(2 * pixels_len, dx, 0x2_0000_0000, 0x1_0000_0000_0000_0000);
    lemma_product_within(screen.width as int, dx, 0x1_0000_0000, 0x1_0000_0000_0000_0000);
    assert(dx * screen.width >= 1 && dx * screen.width == screen.width * dx) by (nonlinear_arith)
        requires
            dx >= 1,
            screen.width >= 1,
    ;
}

/// The viewport's corners land exactly on the corners of the drawing area:
/// its minimum goes to `(-1 / aspect, -1)` and its maximum to
/// `(1 / aspect, 1)`, where `1 / aspect` is the screen's height over its
/// width.
pub proof fn lemma_viewport_corners(viewport: Viewport, screen: Screen)
    requires
        viewport.valid(),
        screen.valid(),
    ensures
        transformed(viewport.min, viewport, screen).y@.same_value(Fraction::whole(-1)),
        transformed(viewport.max, viewport, screen).y@.same_value(Fraction::whole(1)),
        transformed(viewport.min, viewport, screen).x@.same_value(
            Fraction { num: -screen.height, den: screen.width as int },
        ),
        transformed(viewport.max, viewport, screen).x@.same_value(
            Fraction { num: screen.height as int, den: screen.width as int },
        ),
{
    let dx = viewport.width();
    let w = screen.width as int;
    let h = screen.height as int;
    lemma_transformed_in_range(viewport.min, viewport, screen);
    lemma_transformed_in_range(viewport.max, viewport, screen);
    assert(((2 * (viewport.min.x - viewport.min.x) - dx) * h) * w == (-h) * (dx * w))
        by (nonlinear_arith);
    assert(((2 * (viewport.max.x - viewport.min.x) - dx) * h) * w == h * (dx * w))
        by (nonlinear_arith)
        requires
            dx == viewport.max.x - viewport.min.x,
    ;
}

/// The transform keeps the order of coordinates, strictly: of two points the
/// one that lies further right is drawn further right, the one that lies
/// higher is drawn higher, and equal coordinates are drawn equal. Neither
/// coordinate depends on the other.
pub proof fn lemma_transform_keeps_order(
    p: DataPoint,
    q: DataPoint,
    viewport: Viewport,
    screen: Screen,
)
    requires
        viewport.valid(),
        screen.valid(),
    ensures
        p.x < q.x ==> transformed(p, viewport, screen).x@.less_than(
            transformed(q, viewport, screen).x@,
        ),
        p.y < q.y ==> transformed(p, viewport, screen).y@.less_than(
            transformed(q, viewport, screen).y@,
        ),
        p.x == q.x ==> transformed(p, viewport, screen).x == transformed(q, viewport, screen).x,
        p.y == q.y ==> transformed(p, viewport, screen).y == transformed(q, viewport, screen).y,
{
    let dx = viewport.width();
    let dy = viewport.height();
    let w = screen.width as int;
    let h = screen.height as int;
    lemma_transformed_in_range(p, viewport, screen);
    lemma_transformed_in_range(q, viewport, screen);
    if p.x < q.x {
        let a = 2 * (p.x - viewport.min.x) - dx;
        let b = 2 * (q.x - viewport.min.x) - dx;
        assert((a * h) * (dx * w) < (b * h) * (dx * w)) by (nonlinear_arith)
            requires
                a < b,
                h >= 1,
                dx >= 1,
                w >= 1,
        ;
    }
    if p.y < q.y {
        let a = 2 * (p.y - viewport.min.y) - dy;
        let b = 2 * (q.y - viewport.min.y) - dy;
        assert(a * dy < b * dy) by (nonlinear_arith)
            requires
                a < b,
                dy >= 1,
        ;
    }
}

/// Only the screen's aspect ratio matters: on two screens of the same
/// proportions a point is drawn at the same place.
pub proof fn lemma_same_aspect_same_image(
    p: DataPoint,
    viewport: Viewport,
    first: Screen,
    second: Screen,
)
    requires
        viewport.valid(),
        first.valid(),
        second.valid(),
        first.width * second.height == second.width * first.height,
    ensures
        transformed(p, viewport, first).x@.same_value(transformed(p, viewport, second).x@),
        transformed(p, viewport, first).y == transformed(p, viewport, second).y,
{
    let dx = viewport.width();
    let a = 2 * (p.x - viewport.min.x) - dx;
    lemma_transformed_in_range(p, viewport, first);
    lemma_transformed_in_range(p, viewport, second);
    assert((a * first.height) * (dx * second.width) == (a * second.height) * (dx * first.width))
        by (nonlinear_arith)
        requires
            first.width * second.height == second.width * first.height,
    ;
}

/// Nothing is clamped: a point beyond an edge of the viewport is drawn
/// strictly beyond the matching edge of the drawing area, however little it
/// is beyond, and a point inside the viewport is drawn inside.
pub proof fn lemma_nothing_is_clamped(p: DataPoint, viewport: Viewport, screen: Screen)
    requires
        viewport.valid(),
        screen.valid(),
    ensures
        ({
            let image = transformed(p, viewport, screen);
            let left = Fraction { num: -screen.height, den: screen.width as int };
            let right = Fraction { num: screen.height as int, den: screen.width as int };
            &&& p.y > viewport.max.y <==> Fraction::whole(1).less_than(image.y@)
            &&& p.y < viewport.min.y <==> image.y@.less_than(Fraction::whole(-1))
            &&& p.x > viewport.max.x <==> right.less_than(image.x@)
            &&& p.x < viewport.min.x <==> image.x@.less_than(left)
        }),
{
    let dx = viewport.width();
    let w = screen.width as int;
    let h = screen.height as int;
    lemma_transformed_in_range(p, viewport, screen);
    let a = 2 * (p.x - viewport.min.x) - dx;
    assert((h * (dx * w) < (a * h) * w) <==> dx < a) by (nonlinear_arith)
        requires
            h >= 1,
            w >= 1,
            dx >= 1,
    ;
    assert(((a * h) * w < (-h) * (dx * w)) <==> a < -dx) by (nonlinear_arith)
        requires
            h >= 1,
            w >= 1,
            dx >= 1,
    ;
}

/// A length keeps its sign and nothing of its size: a positive length stays
/// positive however short it is, zero stays zero, and the result depends on
/// the viewport's height alone.
pub proof fn lemma_length_keeps_sign(length: int, viewport: Viewport)
    requires
        viewport.valid(),
    ensures
        length > 0 <==> Fraction::whole(0).less_than(transformed_length(length, viewport)),
        length < 0 <==> transformed_length(length, viewport).less_than(Fraction::whole(0)),
        length == 0 <==> transformed_length(length, viewport).num == 0,
        transformed_length(length, viewport).same_value(
            Fraction { num: 2 * length, den: viewport.max.y - viewport.min.y },
        ),
{
}

/// Lengths are scaled exactly as vertical extents are: two points that lie
/// `length` apart vertically are drawn `transformed_length(length)` apart.
pub proof fn lemma_length_matches_vertical_scale(y: int, length: int, viewport: Viewport)
    requires
        viewport.valid(),
    ensures
        transformed_y(y + length, viewport).is_sum_of(
            transformed_y(y, viewport),
            transformed_length(length, viewport),
        ),
{
    let dy = viewport.height();
    let a = 2 * (y - viewport.min.y) - dy;
    let b = 2 * (y + length - viewport.min.y) - dy;
    let c = 2 * length;
    assert(b * (dy * dy) == (a * dy + c * dy) * dy) by (nonlinear_arith)
        requires
            b == a + c,
    ;
}

/// A shifted coordinate is the coordinate plus the pixel extent.
pub proof fn lemma_shift_adds_pixels(x: int, pixels_len: int, viewport: Viewport, screen: Screen)
    requires
        viewport.valid(),
        screen.valid(),
    ensures
        shifted_x(x, pixels_len, viewport, screen).is_sum_of(
            transformed_x(x, viewport, screen),
            pixel_extent(pixels_len, screen.width as int),
        ),
{
    let dx = viewport.width();
    let w = screen.width as int;
    let h = screen.height as int;
    let a = (2 * (x - viewport.min.x) - dx) * h;
    let e = 2 * pixels_len;
    assert((a + e * dx) * ((dx * w) * w) == (a * w + e * (dx * w)) * (dx * w))
        by (nonlinear_arith);
}

/// Maps a point from application space into drawing space.
pub fn transform_point(point: &DataPoint, viewport: &Viewport, screen: &Screen) -> (r: DrawPoint)
    requires
        viewport.valid(),
        screen.valid(),
    ensures
        r == transformed(*point, *viewport, *screen),
        r.x@ == transformed_x(point.x as int, *viewport, *screen),
        r.y@ == transformed_y(point.y as int, *viewport),
        r.x.valid(),
        r.y.valid(),
{
    let dx: i128 = viewport.max.x as i128 - viewport.min.x as i128;
    let dy: i128 = viewport.max.y as i128 - viewport.min.y as i128;
    let a: i128 = 2 * (point.x as i128 - viewport.min.x as i128) - dx;
    let c: i128 = 2 * (point.y as i128 - viewport.min.y as i128) - dy;
    proof {
        lemma_product_within(a as int, screen.height as int, 0x3_0000_0000_0000_0000,
            0x1_0000_0000);
        lemma_product_within(screen.width as int, dx as int, 0x1_0000_0000,
            0x1_0000_0000_0000_0000);
        assert(dx * screen.width == screen.width * dx) by (nonlinear_arith);
        lemma_transformed_in_range(*point, *viewport, *screen);
    }
    DrawPoint {
        x: Ratio { num: a * (screen.height as i128), den: dx * (screen.width as i128) },
        y: Ratio { num: c, den: dy },
    }
}

/// Maps the horizontal coordinate of a point into drawing space and moves it
/// right by `pixels_len` pixels.
pub fn transform_x_shifted(
    point: &DataPoint,
    pixels_len: u32,
    viewport: &Viewport,
    screen: &Screen,
) -> (r: Ratio)
    requires
        viewport.valid(),
        screen.valid(),
    ensures
        r == shifted_x(point.x as int, pixels_len as int, *viewport, *screen).held(),
        r@ == shifted_x(point.x as int, pixels_len as int, *viewport, *screen),
        r.valid(),
{
    let dx: i128 = viewport.max.x as i128 - viewport.min.x as i128;
    let a: i128 = 2 * (point.x as i128 - viewport.min.x as i128) - dx;
    proof {
        lemma_product_within(a as int, screen.height as int, 0x3_0000_0000_0000_0000,
            0x1_0000_0000);
        lemma_product_within(2 * pixels_len, dx as int, 0x2_0000_0000, 0x1_0000_0000_0000_0000);
        lemma_product_within(screen.width as int, dx as int, 0x1_0000_0000,
            0x1_0000_0000_0000_0000);
        assert(dx * screen.width == screen.width * dx) by (nonlinear_arith);
        lemma_extents_in_range(point.x, 0, pixels_len, *viewport, *screen);
    }
    Ratio {
        num: a * (screen.height as i128) + 2 * (pixels_len as i128) * dx,
        den: dx * (screen.width as i128),
    }
}

/// Scales an application-space length, such as a stroke width, into drawing
/// space.
pub fn transform_length(length: i64, viewport: &Viewport) -> (r: Ratio)
    requires
        viewport.valid(),
    ensures
        r == transformed_length(length as int, *viewport).held(),
        r@ == transformed_length(length as int, *viewport),
        r.valid(),
{
    let dy: i128 = viewport.max.y as i128 - viewport.min.y as i128;
    Ratio { num: 2 * (length as i128), den: dy }
}

/// Converts a length in pixels along an axis of `pixels` pixels into drawing
/// space.
pub fn pixels_to_drawing(pixels_len: u32, pixels: u32) -> (r: Ratio)
    requires
        pixels > 0,
    ensures
        r == pixel_extent(pixels_len as int, pixels as int).held(),
        r@ == pixel_extent(pixels_len as int, pixels as int),
        r.valid(),
{
    Ratio { num: 2 * (pixels_len as i128), den: pixels as i128 }
}

} // verus!
