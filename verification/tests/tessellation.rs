use glx::buffers::{Position, Triangles};
use glx::geometry::{Color, DataPoint, Geom, PointStyle, Ratio, Screen, StyledGeom, Viewport};
use glx::path::{PathCommand, PathTag, TaggedPath};
use glx::pipeline::{create_vertices, Config, Job, Outcome, PipelineError, Rendered};
use lyon::math::{point, vector, Angle, Point};
use lyon::path::Path;
use lyon::tessellation::{
    BuffersBuilder, FillOptions, FillTessellator, FillVertex, StrokeOptions, StrokeTessellator,
    StrokeVertex, VertexBuffers,
};

const VIEW: Viewport =
    Viewport { min: DataPoint { x: -1000, y: -1000 }, max: DataPoint { x: 1000, y: 1000 } };
const WIDE: Screen = Screen { width: 2880, height: 1800 };
const MAGENTA: Color = Color { r: 0x3f80_0000, g: 0, b: 0x3f80_0000 };
const GREY: Color = Color { r: 0x3f33_3333, g: 0x3f33_3333, b: 0x3f33_3333 };

fn config() -> Config {
    Config {
        tolerance: 105,
        point_style: PointStyle::Circle { radius: 10 },
        default_line_width: 2097,
        strict: false,
    }
}

fn at(x: i64, y: i64) -> DataPoint {
    DataPoint { x, y }
}

fn drawing(r: Ratio) -> f32 {
    (r.num as f64 / r.den as f64) as f32
}

fn drawing_point(p: glx::geometry::DrawPoint) -> Point {
    point(drawing(p.x), drawing(p.y))
}

fn lyon_path(commands: &[PathCommand]) -> Path {
    let mut builder = Path::builder().with_svg();
    for command in commands {
        match *command {
            PathCommand::MoveTo(p) => {
                builder.move_to(drawing_point(p));
            },
            PathCommand::LineTo(p) => {
                builder.line_to(drawing_point(p));
            },
            PathCommand::Arc { center, radius_x, radius_y } => builder.arc(
                drawing_point(center),
                vector(drawing(radius_x), drawing(radius_y)),
                Angle::two_pi(),
                Angle::zero(),
            ),
            PathCommand::Close => builder.close(),
        }
    }
    builder.build()
}

fn tessellate(job: &Job) -> Outcome {
    let mut geometry: VertexBuffers<Position, u32> = VertexBuffers::new();
    let tolerance = drawing(job.options.tolerance);
    let result = match &job.path {
        TaggedPath::Filled(commands) => FillTessellator::new().tessellate_path(
            &lyon_path(commands),
            &FillOptions::DEFAULT.with_tolerance(tolerance),
            &mut BuffersBuilder::new(&mut geometry, |v: FillVertex| Position {
                x: v.position().x.to_bits(),
                y: v.position().y.to_bits(),
            }),
        ),
        TaggedPath::Stroked { path, .. } => StrokeTessellator::new().tessellate_path(
            &lyon_path(path),
            &StrokeOptions::DEFAULT
                .with_line_width(drawing(job.options.line_width))
                .with_tolerance(tolerance),
            &mut BuffersBuilder::new(&mut geometry, |v: StrokeVertex| Position {
                x: v.position().x.to_bits(),
                y: v.position().y.to_bits(),
            }),
        ),
    };
    match result {
        Ok(_) => Outcome::Tessellated(Triangles {
            positions: geometry.vertices,
            indices: geometry.indices,
        }),
        Err(_) => Outcome::Failed,
    }
}

fn render(geoms: Vec<StyledGeom>) -> Rendered {
    create_vertices(geoms, WIDE, VIEW, &config(), tessellate).unwrap()
}

fn xy(rendered: &Rendered) -> Vec<(f32, f32)> {
    rendered
        .buffers
        .vertices()
        .iter()
        .map(|v| (f32::from_bits(v.pos.x), f32::from_bits(v.pos.y)))
        .collect()
}

fn bounds(points: &[(f32, f32)]) -> (f32, f32, f32, f32) {
    let mut b = (f32::MAX, f32::MAX, f32::MIN, f32::MIN);
    for &(x, y) in points {
        b = (b.0.min(x), b.1.min(y), b.2.max(x), b.3.max(y));
    }
    b
}

#[test]
fn two_point_line_gives_one_segment() {
    let geom = Geom::Lines { points: vec![at(-1000, -500), at(0, -500)], width: 1000 };
    let rendered = render(vec![StyledGeom { geom, color: MAGENTA }]);
    assert!(rendered.failures.is_empty());
    // One segment is one quad: four corners and two triangles.
    assert_eq!(rendered.buffers.vertices().len(), 4);
    assert_eq!(rendered.buffers.indices().len(), 6);
}

#[test]
fn straight_lines_give_whole_quads() {
    // Each two-point line is one segment: four vertices and six indices.
    let scene = vec![
        StyledGeom { geom: Geom::Lines { points: vec![at(-900, 0), at(900, 0)], width: 30 }, color: GREY },
        StyledGeom { geom: Geom::Lines { points: vec![at(0, -900), at(0, 900)], width: 5 }, color: MAGENTA },
        StyledGeom { geom: Geom::Lines { points: vec![at(-5, -5), at(700, 650)], width: 1 }, color: GREY },
    ];
    let rendered = render(scene);
    assert!(rendered.failures.is_empty());
    assert_eq!(rendered.buffers.vertices().len(), 3 * 4);
    assert_eq!(rendered.buffers.indices().len(), 3 * 6);
}

#[test]
fn line_counts_are_multiples_of_one_segment() {
    let points = vec![at(-900, -900), at(-300, 200), at(100, -400), at(700, 650), at(900, -100)];
    let geom = Geom::Lines { points, width: 20 };
    let rendered = render(vec![StyledGeom { geom, color: GREY }]);
    assert!(rendered.failures.is_empty());
    let vertices = rendered.buffers.vertices().len();
    let indices = rendered.buffers.indices().len();
    assert!(vertices > 0 && indices > 0);
    assert_eq!(indices % 3, 0);
    assert!(indices >= 4 * 6);
    assert!(rendered.buffers.indices().iter().all(|&i| (i as usize) < vertices));
}

#[test]
fn stroke_stays_near_the_line() {
    let geom = Geom::Lines { points: vec![at(-500, -500), at(500, 250)], width: 100 };
    let rendered = render(vec![StyledGeom { geom, color: GREY }]);
    let (min_x, min_y, max_x, max_y) = bounds(&xy(&rendered));
    // The line runs from (-0.3125, -0.5) to (0.3125, 0.25) and is 0.1 wide.
    let slack = 0.05 + 0.0001 + 0.00001;
    assert!(min_x >= -0.3125 - slack && max_x <= 0.3125 + slack);
    assert!(min_y >= -0.5 - slack && max_y <= 0.25 + slack);
    assert!(min_x < -0.3125 && max_x > 0.3125);
}

#[test]
fn triangle_polygon_gives_one_triangle() {
    let geom = Geom::Polygon(vec![at(-500, -500), at(500, -500), at(0, 500)]);
    let rendered = render(vec![StyledGeom { geom, color: MAGENTA }]);
    assert!(rendered.failures.is_empty());
    assert_eq!(rendered.buffers.indices().len(), 3);
    assert_eq!(rendered.buffers.vertices().len(), 3);
    assert!(rendered.buffers.vertices().iter().all(|v| v.color == MAGENTA));
}

#[test]
fn polygon_triangles_are_in_range_and_not_degenerate() {
    let outline = vec![
        at(-800, -800),
        at(0, -300),
        at(800, -800),
        at(300, 0),
        at(800, 800),
        at(0, 300),
        at(-800, 800),
        at(-300, 0),
    ];
    let rendered = render(vec![StyledGeom { geom: Geom::Polygon(outline), color: GREY }]);
    assert!(rendered.failures.is_empty());
    let points = xy(&rendered);
    let indices = rendered.buffers.indices();
    assert!(!indices.is_empty());
    assert_eq!(indices.len() % 3, 0);
    for corner in indices.chunks(3) {
        let (a, b, c) =
            (points[corner[0] as usize], points[corner[1] as usize], points[corner[2] as usize]);
        let doubled_area = (b.0 - a.0) * (c.1 - a.1) - (c.0 - a.0) * (b.1 - a.1);
        assert!(doubled_area.abs() > 0.0);
    }
}

#[test]
fn point_becomes_a_disc_of_ten_pixels() {
    let rendered = render(vec![StyledGeom { geom: Geom::Point(at(0, 0)), color: MAGENTA }]);
    assert!(rendered.failures.is_empty());
    assert!(rendered.buffers.indices().len() >= 3);
    let (min_x, min_y, max_x, max_y) = bounds(&xy(&rendered));
    // Ten pixels are 20 / 2880 of the width and 20 / 1800 of the height.
    let rx = 20.0 / 2880.0;
    let ry = 20.0 / 1800.0;
    assert!((max_x - rx).abs() < 0.0002 && (min_x + rx).abs() < 0.0002);
    assert!((max_y - ry).abs() < 0.0002 && (min_y + ry).abs() < 0.0002);
}

#[test]
fn calibration_ribbons_take_their_width_from_the_vertical_scale() {
    // Both ribbons are one unit wide in drawing space. On a 2880 x 1800
    // screen the one that runs across covers 900 by 900 pixels; the one that
    // runs up is 900 pixels long and 1440 pixels wide.
    let across = Geom::Lines { points: vec![at(-1000, -500), at(0, -500)], width: 1000 };
    let up = Geom::Lines { points: vec![at(500, 0), at(500, 1000)], width: 1000 };
    let (half_width_px, half_height_px) = (1440.0, 900.0);

    let first = render(vec![StyledGeom { geom: across, color: MAGENTA }]);
    let (min_x, min_y, max_x, max_y) = bounds(&xy(&first));
    let length_px = (max_x - min_x) * half_width_px;
    let width_px = (max_y - min_y) * half_height_px;
    assert!((length_px - 900.0).abs() < 0.01);
    assert!((width_px - 900.0).abs() < 0.01);

    let second = render(vec![StyledGeom { geom: up, color: MAGENTA }]);
    let (min_x, min_y, max_x, max_y) = bounds(&xy(&second));
    let length_px = (max_y - min_y) * half_height_px;
    let width_px = (max_x - min_x) * half_width_px;
    assert!((length_px - 900.0).abs() < 0.01);
    assert!((width_px - 1440.0).abs() < 0.01);
}

#[test]
fn calibration_scene_is_gathered_in_order() {
    let across = Geom::Lines { points: vec![at(-1000, -500), at(0, -500)], width: 1000 };
    let up = Geom::Lines { points: vec![at(500, 0), at(500, 1000)], width: 1000 };
    let rendered = render(vec![
        StyledGeom { geom: across, color: MAGENTA },
        StyledGeom { geom: up, color: GREY },
    ]);
    let vertices = rendered.buffers.vertices();
    assert_eq!(vertices.len(), 8);
    assert!(vertices[..4].iter().all(|v| v.color == MAGENTA));
    assert!(vertices[4..].iter().all(|v| v.color == GREY));
    let indices = rendered.buffers.indices();
    assert_eq!(indices.len(), 12);
    assert!(indices[..6].iter().all(|&i| i < 4));
    assert!(indices[6..].iter().all(|&i| (4..8).contains(&i)));
}

#[test]
fn malformed_line_is_reported_and_the_rest_is_drawn() {
    let broken = Geom::Lines { points: vec![at(0, 0)], width: 1000 };
    let fine = Geom::Polygon(vec![at(-500, -500), at(500, -500), at(0, 500)]);
    let rendered = render(vec![
        StyledGeom { geom: broken, color: GREY },
        StyledGeom { geom: fine, color: MAGENTA },
    ]);
    assert_eq!(rendered.failures, vec![PipelineError::InvalidGeometry { index: 0 }]);
    let mut corners = rendered.buffers.indices().clone();
    corners.sort();
    assert_eq!(corners, vec![0, 1, 2]);
    assert!(rendered.buffers.vertices().iter().all(|v| v.color == MAGENTA));
}

#[test]
fn flat_polygon_is_a_tessellation_failure() {
    let flat = Geom::Polygon(vec![at(-500, 0), at(0, 0), at(500, 0)]);
    let rendered = render(vec![StyledGeom { geom: flat, color: GREY }]);
    assert_eq!(
        rendered.failures,
        vec![PipelineError::TessellationFailure { index: 0, tag: PathTag::Filled }]
    );
    assert!(rendered.buffers.vertices().is_empty());
}

#[test]
fn real_tessellation_is_repeatable() {
    let scene = || {
        vec![
            StyledGeom { geom: Geom::Point(at(10, 20)), color: MAGENTA },
            StyledGeom {
                geom: Geom::Lines { points: vec![at(-900, 0), at(0, 900), at(900, 0)], width: 30 },
                color: GREY,
            },
            StyledGeom {
                geom: Geom::Polygon(vec![at(-100, -100), at(100, -100), at(100, 100), at(-100, 100)]),
                color: MAGENTA,
            },
        ]
    };
    let first = render(scene());
    let second = render(scene());
    assert_eq!(first.buffers.vertices(), second.buffers.vertices());
    assert_eq!(first.buffers.indices(), second.buffers.indices());
    assert!(first.failures.is_empty());
}
