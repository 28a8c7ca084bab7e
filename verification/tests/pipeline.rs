use glx::buffers::{Position, Triangles, Vertex};
use glx::geometry::{Color, DataPoint, Geom, PointStyle, Ratio, Screen, StyledGeom, Viewport};
use glx::path::{PathTag, TaggedPath};
use glx::pipeline::{
    assemble, build_paths, create_vertices, Config, Job, Outcome, PathBatch, PipelineError,
    TessellationOptions,
};
use glx::transform::UNIT;

const VIEW: Viewport =
    Viewport { min: DataPoint { x: -1000, y: -1000 }, max: DataPoint { x: 1000, y: 1000 } };
const WIDE: Screen = Screen { width: 2880, height: 1800 };
const RED: Color = Color { r: 1, g: 0, b: 0 };
const GREEN: Color = Color { r: 0, g: 1, b: 0 };
const BLUE: Color = Color { r: 0, g: 0, b: 1 };

fn config(strict: bool) -> Config {
    Config {
        tolerance: 105,
        point_style: PointStyle::Circle { radius: 10 },
        default_line_width: 2097,
        strict,
    }
}

fn at(x: i64, y: i64) -> DataPoint {
    DataPoint { x, y }
}

fn line(color: Color) -> StyledGeom {
    StyledGeom { geom: Geom::Lines { points: vec![at(0, 0), at(500, 0)], width: 8 }, color }
}

fn broken_line(color: Color) -> StyledGeom {
    StyledGeom { geom: Geom::Lines { points: vec![at(0, 0)], width: 1000 }, color }
}

fn polygon(color: Color) -> StyledGeom {
    StyledGeom { geom: Geom::Polygon(vec![at(0, 0), at(500, 0), at(0, 500)]), color }
}

fn broken_polygon(color: Color) -> StyledGeom {
    StyledGeom { geom: Geom::Polygon(vec![at(0, 0), at(500, 0)]), color }
}

fn dot(color: Color) -> StyledGeom {
    StyledGeom { geom: Geom::Point(at(0, 0)), color }
}

fn corner(x: u32, y: u32) -> Position {
    Position { x, y }
}

fn triangle(base: u32) -> Outcome {
    Outcome::Tessellated(Triangles {
        positions: vec![corner(base, 0), corner(base, 1), corner(base, 2)],
        indices: vec![0, 1, 2],
    })
}

fn quad(base: u32) -> Outcome {
    Outcome::Tessellated(Triangles {
        positions: vec![corner(base, 0), corner(base, 1), corner(base, 2), corner(base, 3)],
        indices: vec![0, 1, 2, 0, 2, 3],
    })
}

fn out_of_range() -> Outcome {
    Outcome::Tessellated(Triangles { positions: vec![corner(0, 0)], indices: vec![0, 0, 1] })
}

/// A stand-in tessellator: one triangle per path command.
fn one_triangle_per_command(job: &Job) -> Outcome {
    let commands = job.path.commands().len() as u32;
    let mut positions = Vec::new();
    let mut indices = Vec::new();
    for c in 0..commands {
        for k in 0..3 {
            positions.push(corner(job.index as u32, 3 * c + k));
            indices.push(3 * c + k);
        }
    }
    Outcome::Tessellated(Triangles { positions, indices })
}

#[test]
fn empty_viewport_fails_before_any_work() {
    let flat = Viewport { min: at(0, 0), max: at(10, 0) };
    let thin = Viewport { min: at(5, 0), max: at(5, 10) };
    let inverted = Viewport { min: at(10, 10), max: at(-10, -10) };
    for vp in [flat, thin, inverted] {
        for strict in [false, true] {
            let r = build_paths(vec![line(RED), broken_line(RED)], vp, WIDE, &config(strict));
            assert_eq!(r.unwrap_err(), PipelineError::TransformFailure);
        }
    }
}

#[test]
fn empty_screen_fails_before_any_work() {
    for screen in [Screen { width: 0, height: 1800 }, Screen { width: 2880, height: 0 }] {
        let r = build_paths(vec![line(RED)], VIEW, screen, &config(false));
        assert_eq!(r.unwrap_err(), PipelineError::TransformFailure);
        let r = create_vertices(vec![line(RED)], screen, VIEW, &config(false), one_triangle_per_command);
        assert_eq!(r.unwrap_err(), PipelineError::TransformFailure);
    }
}

#[test]
fn empty_input_gives_an_empty_batch() {
    let batch = build_paths(vec![], VIEW, WIDE, &config(true)).unwrap();
    assert!(batch.jobs.is_empty());
    assert!(batch.failures.is_empty());
}

#[test]
fn jobs_keep_input_order_and_colour() {
    let batch =
        build_paths(vec![line(RED), polygon(GREEN), dot(BLUE)], VIEW, WIDE, &config(false)).unwrap();
    assert!(batch.failures.is_empty());
    assert_eq!(batch.jobs.len(), 3);
    let indices: Vec<usize> = batch.jobs.iter().map(|job| job.index).collect();
    assert_eq!(indices, vec![0, 1, 2]);
    let colors: Vec<Color> = batch.jobs.iter().map(|job| job.color).collect();
    assert_eq!(colors, vec![RED, GREEN, BLUE]);
    let tags: Vec<PathTag> = batch.jobs.iter().map(|job| job.path.tag()).collect();
    assert_eq!(tags, vec![PathTag::Stroked, PathTag::Filled, PathTag::Filled]);
}

#[test]
fn options_carry_tolerance_and_width() {
    let batch = build_paths(vec![line(RED), polygon(GREEN)], VIEW, WIDE, &config(false)).unwrap();
    // A width of 8 on a viewport 2000 high is 8 * 2 / 2000 of a unit.
    let tolerance = Ratio { num: 105, den: UNIT };
    let width = Ratio { num: 16, den: 2000 };
    assert_eq!(batch.jobs[0].options, TessellationOptions { tolerance, line_width: width });
    match &batch.jobs[0].path {
        TaggedPath::Stroked { width: w, .. } => assert_eq!(*w, width),
        TaggedPath::Filled(_) => panic!("a polyline is stroked"),
    }
    assert_eq!(
        batch.jobs[1].options,
        TessellationOptions { tolerance, line_width: Ratio { num: 2097, den: UNIT } }
    );
}

#[test]
fn every_ratio_handed_out_has_a_value() {
    let far = StyledGeom {
        geom: Geom::Lines { points: vec![at(i64::MIN, i64::MAX), at(i64::MAX, i64::MIN)], width: -3 },
        color: RED,
    };
    let batch =
        build_paths(vec![line(RED), polygon(GREEN), dot(BLUE), far], VIEW, WIDE, &config(false))
            .unwrap();
    assert_eq!(batch.jobs.len(), 4);
    for job in batch.jobs.iter() {
        assert!(job.options.tolerance.is_valid());
        assert!(job.options.line_width.is_valid());
        for command in job.path.commands().iter() {
            match *command {
                glx::path::PathCommand::MoveTo(p) | glx::path::PathCommand::LineTo(p) => {
                    assert!(p.x.is_valid() && p.y.is_valid());
                },
                glx::path::PathCommand::Arc { center, radius_x, radius_y } => {
                    assert!(center.x.is_valid() && center.y.is_valid());
                    assert!(radius_x.is_valid() && radius_y.is_valid());
                },
                glx::path::PathCommand::Close => {},
            }
        }
    }
}

#[test]
fn malformed_lines_are_reported_and_skipped() {
    let batch = build_paths(vec![broken_line(RED)], VIEW, WIDE, &config(false)).unwrap();
    assert!(batch.jobs.is_empty());
    assert_eq!(batch.failures, vec![PipelineError::InvalidGeometry { index: 0 }]);
}

#[test]
fn invalid_primitives_do_not_stop_the_others() {
    let geoms = vec![line(RED), broken_line(GREEN), polygon(BLUE), broken_polygon(RED), dot(GREEN)];
    let batch = build_paths(geoms, VIEW, WIDE, &config(false)).unwrap();
    let indices: Vec<usize> = batch.jobs.iter().map(|job| job.index).collect();
    assert_eq!(indices, vec![0, 2, 4]);
    assert_eq!(
        batch.failures,
        vec![
            PipelineError::InvalidGeometry { index: 1 },
            PipelineError::InvalidGeometry { index: 3 },
        ]
    );
}

#[test]
fn strict_mode_stops_at_the_first_invalid_primitive() {
    let geoms = vec![line(RED), broken_line(GREEN), polygon(BLUE), broken_polygon(RED)];
    let r = build_paths(geoms, VIEW, WIDE, &config(true));
    assert_eq!(r.unwrap_err(), PipelineError::InvalidGeometry { index: 1 });
}

#[test]
fn strict_mode_accepts_valid_input() {
    let batch = build_paths(vec![line(RED), dot(BLUE)], VIEW, WIDE, &config(true)).unwrap();
    assert_eq!(batch.jobs.len(), 2);
    assert!(batch.failures.is_empty());
}

#[test]
fn assemble_concatenates_with_running_offsets() {
    let batch =
        build_paths(vec![line(RED), polygon(GREEN), dot(BLUE)], VIEW, WIDE, &config(false)).unwrap();
    let rendered =
        assemble(batch, vec![quad(100), triangle(200), quad(300)], &config(false)).unwrap();
    assert!(rendered.failures.is_empty());
    assert_eq!(
        rendered.buffers.indices(),
        &vec![0, 1, 2, 0, 2, 3, 4, 5, 6, 7, 8, 9, 7, 9, 10]
    );
    let vertices = rendered.buffers.vertices();
    assert_eq!(vertices.len(), 11);
    assert_eq!(vertices[0], Vertex { pos: corner(100, 0), color: RED });
    assert_eq!(vertices[3], Vertex { pos: corner(100, 3), color: RED });
    assert_eq!(vertices[4], Vertex { pos: corner(200, 0), color: GREEN });
    assert_eq!(vertices[6], Vertex { pos: corner(200, 2), color: GREEN });
    assert_eq!(vertices[7], Vertex { pos: corner(300, 0), color: BLUE });
    assert_eq!(vertices[10], Vertex { pos: corner(300, 3), color: BLUE });
}

#[test]
fn gathering_in_parts_gives_the_same_buffers() {
    let scene = || vec![line(RED), polygon(GREEN), dot(BLUE), line(GREEN)];
    let outcomes = || vec![quad(100), Outcome::Failed, triangle(300), quad(400)];
    let whole = assemble(
        build_paths(scene(), VIEW, WIDE, &config(false)).unwrap(),
        outcomes(),
        &config(false),
    )
    .unwrap();

    let mut head = scene();
    let tail = head.split_off(2);
    let mut head_outcomes = outcomes();
    let tail_outcomes = head_outcomes.split_off(2);
    let first =
        assemble(build_paths(head, VIEW, WIDE, &config(false)).unwrap(), head_outcomes, &config(false))
            .unwrap();
    let later =
        assemble(build_paths(tail, VIEW, WIDE, &config(false)).unwrap(), tail_outcomes, &config(false))
            .unwrap();

    let mut vertices = first.buffers.vertices().clone();
    vertices.extend(later.buffers.vertices().iter().cloned());
    let offset = first.buffers.vertices().len() as u32;
    let mut indices = first.buffers.indices().clone();
    indices.extend(later.buffers.indices().iter().map(|i| i + offset));
    assert_eq!(offset, 4);
    assert_eq!(whole.buffers.vertices(), &vertices);
    assert_eq!(whole.buffers.indices(), &indices);
    assert_eq!(whole.buffers.indices(), &vec![0, 1, 2, 0, 2, 3, 4, 5, 6, 7, 8, 9, 7, 9, 10]);
}

#[test]
fn a_failed_primitive_leaves_the_others_intact() {
    let geoms = vec![line(RED), polygon(GREEN), dot(BLUE), line(GREEN)];
    let batch = build_paths(geoms, VIEW, WIDE, &config(false)).unwrap();
    let outcomes = vec![triangle(1), Outcome::Failed, out_of_range(), triangle(4)];
    let rendered = assemble(batch, outcomes, &config(false)).unwrap();
    assert_eq!(
        rendered.failures,
        vec![
            PipelineError::TessellationFailure { index: 1, tag: PathTag::Filled },
            PipelineError::TessellationFailure { index: 2, tag: PathTag::Filled },
        ]
    );
    assert_eq!(rendered.buffers.indices(), &vec![0, 1, 2, 3, 4, 5]);
    assert_eq!(rendered.buffers.vertices().len(), 6);
    assert_eq!(rendered.buffers.vertices()[3], Vertex { pos: corner(4, 0), color: GREEN });
}

#[test]
fn geometry_reports_come_before_tessellation_reports() {
    let geoms = vec![broken_line(RED), line(RED), broken_polygon(BLUE), polygon(GREEN)];
    let batch = build_paths(geoms, VIEW, WIDE, &config(false)).unwrap();
    let rendered = assemble(batch, vec![Outcome::Failed, triangle(0)], &config(false)).unwrap();
    assert_eq!(
        rendered.failures,
        vec![
            PipelineError::InvalidGeometry { index: 0 },
            PipelineError::InvalidGeometry { index: 2 },
            PipelineError::TessellationFailure { index: 1, tag: PathTag::Stroked },
        ]
    );
    assert_eq!(rendered.buffers.indices(), &vec![0, 1, 2]);
    assert_eq!(rendered.buffers.vertices()[0].color, GREEN);
}

#[test]
fn a_missing_outcome_counts_as_a_failure() {
    let batch = build_paths(vec![line(RED), polygon(GREEN)], VIEW, WIDE, &config(false)).unwrap();
    let rendered = assemble(batch, vec![triangle(0)], &config(false)).unwrap();
    assert_eq!(
        rendered.failures,
        vec![PipelineError::TessellationFailure { index: 1, tag: PathTag::Filled }]
    );
    assert_eq!(rendered.buffers.vertices().len(), 3);
}

#[test]
fn surplus_outcomes_are_ignored() {
    let batch = build_paths(vec![line(RED)], VIEW, WIDE, &config(false)).unwrap();
    let rendered = assemble(batch, vec![triangle(0), quad(1)], &config(false)).unwrap();
    assert!(rendered.failures.is_empty());
    assert_eq!(rendered.buffers.indices(), &vec![0, 1, 2]);
}

#[test]
fn strict_mode_stops_at_the_first_failed_tessellation() {
    let geoms = vec![dot(RED), line(GREEN), polygon(BLUE)];
    let batch = build_paths(geoms, VIEW, WIDE, &config(true)).unwrap();
    let r = assemble(batch, vec![triangle(0), out_of_range(), Outcome::Failed], &config(true));
    assert_eq!(
        r.unwrap_err(),
        PipelineError::TessellationFailure { index: 1, tag: PathTag::Stroked }
    );
}

#[test]
fn assemble_takes_a_hand_made_batch() {
    let job = Job {
        index: 7,
        path: TaggedPath::Stroked { path: vec![], width: Ratio { num: 1, den: 1 } },
        color: BLUE,
        options: TessellationOptions {
            tolerance: Ratio { num: 1, den: UNIT },
            line_width: Ratio { num: 1, den: 1 },
        },
    };
    let batch =
        PathBatch { jobs: vec![job], failures: vec![PipelineError::InvalidGeometry { index: 3 }] };
    let rendered = assemble(batch, vec![Outcome::Failed], &config(false)).unwrap();
    assert_eq!(
        rendered.failures,
        vec![
            PipelineError::InvalidGeometry { index: 3 },
            PipelineError::TessellationFailure { index: 7, tag: PathTag::Stroked },
        ]
    );
    assert!(rendered.buffers.vertices().is_empty());
}

#[test]
fn create_vertices_asks_the_tessellator_once_per_job() {
    let geoms = vec![line(RED), broken_line(GREEN), polygon(BLUE), dot(GREEN)];
    let rendered =
        create_vertices(geoms, WIDE, VIEW, &config(false), one_triangle_per_command).unwrap();
    assert_eq!(rendered.failures, vec![PipelineError::InvalidGeometry { index: 1 }]);
    // Two commands for the line, four for the polygon, three for the dot.
    let vertices = rendered.buffers.vertices();
    assert_eq!(vertices.len(), 3 * (2 + 4 + 3));
    let expected: Vec<u32> = (0..27).collect();
    assert_eq!(rendered.buffers.indices(), &expected);
    assert_eq!(vertices[0], Vertex { pos: corner(0, 0), color: RED });
    assert_eq!(vertices[5], Vertex { pos: corner(0, 5), color: RED });
    assert_eq!(vertices[6], Vertex { pos: corner(2, 0), color: BLUE });
    assert_eq!(vertices[17], Vertex { pos: corner(2, 11), color: BLUE });
    assert_eq!(vertices[18], Vertex { pos: corner(3, 0), color: GREEN });
    assert_eq!(vertices[26], Vertex { pos: corner(3, 8), color: GREEN });
}

#[test]
fn create_vertices_in_strict_mode_fails_on_bad_geometry() {
    let geoms = vec![line(RED), broken_polygon(GREEN)];
    let r = create_vertices(geoms, WIDE, VIEW, &config(true), one_triangle_per_command);
    assert_eq!(r.unwrap_err(), PipelineError::InvalidGeometry { index: 1 });
}

#[test]
fn create_vertices_reports_a_failing_tessellator() {
    let r = create_vertices(vec![line(RED), dot(BLUE)], WIDE, VIEW, &config(false), |_job: &Job| {
        Outcome::Failed
    })
    .unwrap();
    assert!(r.buffers.vertices().is_empty());
    assert_eq!(
        r.failures,
        vec![
            PipelineError::TessellationFailure { index: 0, tag: PathTag::Stroked },
            PipelineError::TessellationFailure { index: 1, tag: PathTag::Filled },
        ]
    );
    let strict = create_vertices(vec![line(RED), dot(BLUE)], WIDE, VIEW, &config(true), |_job: &Job| {
        Outcome::Failed
    });
    assert_eq!(
        strict.unwrap_err(),
        PipelineError::TessellationFailure { index: 0, tag: PathTag::Stroked }
    );
}

#[test]
fn two_runs_give_identical_buffers() {
    let geoms = || vec![line(RED), broken_line(GREEN), polygon(BLUE), dot(GREEN)];
    let first =
        create_vertices(geoms(), WIDE, VIEW, &config(false), one_triangle_per_command).unwrap();
    let second =
        create_vertices(geoms(), WIDE, VIEW, &config(false), one_triangle_per_command).unwrap();
    assert_eq!(first.buffers.vertices(), second.buffers.vertices());
    assert_eq!(first.buffers.indices(), second.buffers.indices());
    assert_eq!(first.failures, second.failures);
}

#[test]
fn every_index_names_a_vertex() {
    let geoms = vec![line(RED), polygon(BLUE), dot(GREEN), line(BLUE)];
    let batch = build_paths(geoms, VIEW, WIDE, &config(false)).unwrap();
    let outcomes = vec![quad(0), out_of_range(), triangle(2), quad(3)];
    let rendered = assemble(batch, outcomes, &config(false)).unwrap();
    let count = rendered.buffers.vertices().len();
    assert_eq!(count, 11);
    assert_eq!(rendered.buffers.indices().len() % 3, 0);
    assert!(rendered.buffers.indices().iter().all(|&i| (i as usize) < count));
}
