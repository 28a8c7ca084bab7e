use vstd::prelude::*;
use vstd::arithmetic::div_mod::lemma_fundamental_div_mod;
use vstd::arithmetic::div_mod::lemma_fundamental_div_mod_converse;
use crate::buffers::lemma_appended_wf;
use crate::buffers::Vertex;
use crate::buffers::BuffersView;
use crate::buffers::Triangles;
use crate::buffers::TrianglesView;
use crate::buffers::VertexBuffers;
use crate::geometry::Color;
use crate::geometry::PointStyle;
use crate::geometry::Ratio;
use crate::geometry::Screen;
use crate::geometry::StyledGeom;
use crate::geometry::Viewport;
use crate::path::lemma_path_is_valid;
use crate::path::path_for;
use crate::path::path_of;
use crate::path::PathTag;
use crate::path::TaggedPath;
use crate::path::TaggedPathView;
use crate::transform::UNIT;

verus! {

/// Everything a run of the pipeline is configured with.
#[derive(Clone, Copy, Debug, PartialEq, Eq, Structural)]
pub struct Config {
    /// Largest distance, in steps of `1 / UNIT` of drawing space, by which
    /// the triangles may stray from the true path.
    pub tolerance: u32,
    /// How single locations are drawn.
    pub point_style: PointStyle,
    /// Stroke width, in steps of `1 / UNIT` of drawing space, that the
    /// tessellator is set to where a path brings none of its own.
    pub default_line_width: u32,
    /// Whether the first faulty primitive fails the whole run. Otherwise
    /// faulty primitives are left out and reported.
    pub strict: bool,
}

/// What the tessellator is told for one path, in drawing space.
#[derive(Clone, Copy, Debug, PartialEq, Eq, Structural)]
pub struct TessellationOptions {
    pub tolerance: Ratio,
    pub line_width: Ratio,
}

/// What went wrong in a run of the pipeline.
#[derive(Clone, Copy, Debug, PartialEq, Eq, Structural)]
pub enum PipelineError {
    /// The primitive at `index` of the input holds too few points.
    InvalidGeometry { index: usize },
    /// No usable triangles came back for the path of the primitive at
    /// `index` of the input.
    TessellationFailure { index: usize, tag: PathTag },
    /// The viewport or the screen is empty, so no transform exists.
    TransformFailure,
}

/// One path that is ready for the tessellator.
#[derive(Clone, Debug)]
pub struct Job {
    /// Where the primitive stood in the input.
    pub index: usize,
    pub path: TaggedPath,
    pub color: Color,
    pub options: TessellationOptions,
}

/// The mathematical content of a [`Job`].
pub struct JobView {
    pub index: usize,
    pub path: TaggedPathView,
    pub color: Color,
    pub options: TessellationOptions,
}

impl JobView {
    /// Every ratio the tessellator is handed with this job has a value.
    pub open spec fn valid(&self) -> bool {
        self.path.valid() && self.options.tolerance.valid() && self.options.line_width.valid()
    }
}

impl View for Job {
    type V = JobView;

    open spec fn view(&self) -> JobView {
        JobView { index: self.index, path: self.path@, color: self.color, options: self.options }
    }
}

/// The paths of all drawable primitives, in input order, and a report on
/// each primitive that was left out.
#[derive(Clone, Debug)]
pub struct PathBatch {
    pub jobs: Vec<Job>,
    pub failures: Vec<PipelineError>,
}

/// The mathematical content of a [`PathBatch`].
pub struct BatchView {
    pub jobs: Seq<JobView>,
    pub failures: Seq<PipelineError>,
}

impl View for PathBatch {
    type V = BatchView;

    open spec fn view(&self) -> BatchView {
        BatchView { jobs: self.jobs@.map_values(|job: Job| job@), failures: self.failures@ }
    }
}

/// The options for tessellating `path`: the configured tolerance, and the
/// path's own width where it is stroked.
pub open spec fn options_for(path: TaggedPathView, config: Config) -> TessellationOptions {
    TessellationOptions {
        tolerance: Ratio { num: config.tolerance as i128, den: UNIT },
        line_width: match path {
            TaggedPathView::Filled(_) => Ratio { num: config.default_line_width as i128, den: UNIT },
            TaggedPathView::Stroked { width, .. } => width,
        },
    }
}

/// The job for the primitive at `index`, which must be drawable.
pub open spec fn job_at(
    geoms: Seq<StyledGeom>,
    index: int,
    viewport: Viewport,
    screen: Screen,
    config: Config,
) -> JobView {
    let path = path_of(geoms[index]@.geom, viewport, screen, config.point_style);
    JobView {
        index: index as usize,
        path,
        color: geoms[index].color,
        options: options_for(path, config),
    }
}

/// The jobs for the drawable primitives among the first `n`, in input order.
pub open spec fn jobs_until(
    geoms: Seq<StyledGeom>,
    n: int,
    viewport: Viewport,
    screen: Screen,
    config: Config,
) -> Seq<JobView>
    decreases n,
{
    if n <= 0 {
        Seq::empty()
    } else {
        let earlier = jobs_until(geoms, n - 1, viewport, screen, config);
        if geoms[n - 1]@.geom.valid() {
            earlier.push(job_at(geoms, n - 1, viewport, screen, config))
        } else {
            earlier
        }
    }
}

/// The reports on the primitives among the first `n` that cannot be drawn,
/// in input order.
pub open spec fn rejects_until(geoms: Seq<StyledGeom>, n: int) -> Seq<PipelineError>
    decreases n,
{
    if n <= 0 {
        Seq::empty()
    } else {
        let earlier = rejects_until(geoms, n - 1);
        if geoms[n - 1]@.geom.valid() {
            earlier
        } else {
            earlier.push(PipelineError::InvalidGeometry { index: (n - 1) as usize })
        }
    }
}

/// Whether `index` is the first primitive that cannot be drawn.
pub open spec fn first_invalid(geoms: Seq<StyledGeom>, index: int) -> bool {
    &&& 0 <= index < geoms.len()
    &&& !geoms[index]@.geom.valid()
    &&& forall|j: int| 0 <= j < index ==> (#[trigger] geoms[j])@.geom.valid()
}

/// What preparing the paths of `geoms` comes to.
///
/// An empty viewport or screen fails the run before anything else is looked
/// at. In strict mode the first primitive that cannot be drawn fails the run.
/// Otherwise every drawable primitive gets its job and every other one its
/// report.
pub open spec fn prepares(
    geoms: Seq<StyledGeom>,
    viewport: Viewport,
    screen: Screen,
    config: Config,
    result: Result<BatchView, PipelineError>,
) -> bool {
    if !viewport.valid() || !screen.valid() {
        result == Err::<BatchView, PipelineError>(PipelineError::TransformFailure)
    } else {
        match result {
            Ok(batch) => {
                &&& config.strict ==> forall|j: int|
                    0 <= j < geoms.len() ==> (#[trigger] geoms[j])@.geom.valid()
                &&& batch.jobs == jobs_until(geoms, geoms.len() as int, viewport, screen, config)
                &&& batch.failures == rejects_until(geoms, geoms.len() as int)
            },
            Err(PipelineError::InvalidGeometry { index }) => config.strict && first_invalid(
                geoms,
                index as int,
            ),
            Err(_) => false,
        }
    }
}

/// Preparing the same input twice gives the same result.
pub proof fn lemma_prepares_deterministic(
    geoms: Seq<StyledGeom>,
    viewport: Viewport,
    screen: Screen,
    config: Config,
    first: Result<BatchView, PipelineError>,
    second: Result<BatchView, PipelineError>,
)
    requires
        prepares(geoms, viewport, screen, config, first),
        prepares(geoms, viewport, screen, config, second),
    ensures
        first == second,
{
    if viewport.valid() && screen.valid() {
        match (first, second) {
            (
                Err(PipelineError::InvalidGeometry { index: a }),
                Err(PipelineError::InvalidGeometry { index: b }),
            ) => {
                assert(a == b) by {
                    if a < b {
                        assert(geoms[a as int]@.geom.valid());
                    }
                    if b < a {
                        assert(geoms[b as int]@.geom.valid());
                    }
                }
            },
            (Ok(_), Err(PipelineError::InvalidGeometry { index })) => {
                assert(geoms[index as int]@.geom.valid());
            },
            (Err(PipelineError::InvalidGeometry { index }), Ok(_)) => {
                assert(geoms[index as int]@.geom.valid());
            },
            _ => {},
        }
    }
}

/// A primitive that cannot be drawn is reported under its index and gets no
/// job; a drawable primitive gets its job and no report.
pub proof fn lemma_each_primitive_accounted_for(
    geoms: Seq<StyledGeom>,
    n: int,
    viewport: Viewport,
    screen: Screen,
    config: Config,
    i: int,
)
    requires
        0 <= i < n <= geoms.len() <= usize::MAX,
    ensures
        geoms[i]@.geom.valid() ==> jobs_until(geoms, n, viewport, screen, config).contains(
            job_at(geoms, i, viewport, screen, config),
        ) && !rejects_until(geoms, n).contains(
            PipelineError::InvalidGeometry { index: i as usize },
        ),
        !geoms[i]@.geom.valid() ==> rejects_until(geoms, n).contains(
            PipelineError::InvalidGeometry { index: i as usize },
        ) && forall|k: int|
            0 <= k < jobs_until(geoms, n, viewport, screen, config).len() ==> (
            #[trigger] jobs_until(geoms, n, viewport, screen, config)[k]).index != i,
    decreases n,
{
    let jobs = jobs_until(geoms, n, viewport, screen, config);
    let earlier_jobs = jobs_until(geoms, n - 1, viewport, screen, config);
    let rejects = rejects_until(geoms, n);
    let earlier_rejects = rejects_until(geoms, n - 1);
    let report = PipelineError::InvalidGeometry { index: i as usize };
    if i < n - 1 {
        lemma_each_primitive_accounted_for(geoms, n - 1, viewport, screen, config, i);
        if geoms[i]@.geom.valid() {
            let k = choose|k: int|
                0 <= k < earlier_jobs.len() && earlier_jobs[k] == job_at(
                    geoms,
                    i,
                    viewport,
                    screen,
                    config,
                );
            assert(jobs[k] == job_at(geoms, i, viewport, screen, config));
            assert forall|j: int| 0 <= j < rejects.len() implies rejects[j] != report by {
                if j < earlier_rejects.len() {
                    assert(earlier_rejects[j] == rejects[j]);
                }
            }
        } else {
            let k = choose|k: int| 0 <= k < earlier_rejects.len() && earlier_rejects[k] == report;
            assert(rejects[k] == report);
            assert forall|k: int| 0 <= k < jobs.len() implies (#[trigger] jobs[k]).index != i by {
                if k < earlier_jobs.len() {
                    assert(earlier_jobs[k] == jobs[k]);
                }
            }
        }
    } else {
        lemma_indices_below(geoms, n - 1, viewport, screen, config);
        if geoms[i]@.geom.valid() {
            assert(jobs[jobs.len() - 1] == job_at(geoms, i, viewport, screen, config));
            assert(rejects == earlier_rejects);
        } else {
            assert(rejects[rejects.len() - 1] == report);
            assert(jobs == earlier_jobs);
        }
    }
}

/// Every ratio in every job of a batch has a value, so the tessellator's
/// side can divide each out.
pub proof fn lemma_jobs_are_valid(
    geoms: Seq<StyledGeom>,
    n: int,
    viewport: Viewport,
    screen: Screen,
    config: Config,
)
    requires
        0 <= n <= geoms.len(),
        viewport.valid(),
        screen.valid(),
    ensures
        forall|k: int|
            0 <= k < jobs_until(geoms, n, viewport, screen, config).len() ==> (
            #[trigger] jobs_until(geoms, n, viewport, screen, config)[k]).valid(),
    decreases n,
{
    if n > 0 {
        lemma_jobs_are_valid(geoms, n - 1, viewport, screen, config);
        let jobs = jobs_until(geoms, n, viewport, screen, config);
        let earlier = jobs_until(geoms, n - 1, viewport, screen, config);
        if geoms[n - 1]@.geom.valid() {
            lemma_path_is_valid(geoms[n - 1]@.geom, viewport, screen, config.point_style);
            let job = job_at(geoms, n - 1, viewport, screen, config);
            assert(job.options.tolerance.den == UNIT);
            assert(job.valid());
        }
        assert forall|k: int| 0 <= k < jobs.len() implies (#[trigger] jobs[k]).valid() by {
            if k < earlier.len() {
                assert(jobs[k] == earlier[k]);
            }
        }
    }
}

/// The jobs of a batch stand in input order: their indices rise strictly.
pub proof fn lemma_jobs_in_input_order(
    geoms: Seq<StyledGeom>,
    n: int,
    viewport: Viewport,
    screen: Screen,
    config: Config,
)
    requires
        0 <= n <= geoms.len() <= usize::MAX,
    ensures
        forall|a: int, b: int|
            0 <= a < b < jobs_until(geoms, n, viewport, screen, config).len() ==> jobs_until(
                geoms,
                n,
                viewport,
                screen,
                config,
            )[a].index < jobs_until(geoms, n, viewport, screen, config)[b].index,
    decreases n,
{
    if n > 0 {
        lemma_jobs_in_input_order(geoms, n - 1, viewport, screen, config);
        lemma_indices_below(geoms, n - 1, viewport, screen, config);
        let jobs = jobs_until(geoms, n, viewport, screen, config);
        let earlier = jobs_until(geoms, n - 1, viewport, screen, config);
        assert forall|a: int, b: int| 0 <= a < b < jobs.len() implies jobs[a].index
            < jobs[b].index by {
            if b < earlier.len() {
                assert(jobs[a] == earlier[a] && jobs[b] == earlier[b]);
            } else {
                assert(jobs[a] == earlier[a]);
                assert(earlier[a].index < n - 1);
            }
        }
    }
}

/// Jobs and reports among the first `n` primitives carry indices below `n`.
proof fn lemma_indices_below(
    geoms: Seq<StyledGeom>,
    n: int,
    viewport: Viewport,
    screen: Screen,
    config: Config,
)
    requires
        0 <= n <= geoms.len() <= usize::MAX,
    ensures
        forall|k: int|
            0 <= k < jobs_until(geoms, n, viewport, screen, config).len() ==> (
            #[trigger] jobs_until(geoms, n, viewport, screen, config)[k]).index < n,
        forall|k: int|
            0 <= k < rejects_until(geoms, n).len() ==> ((
            #[trigger] rejects_until(geoms, n)[k]) matches PipelineError::InvalidGeometry {
                index,
            } && index < n),
    decreases n,
{
    if n > 0 {
        lemma_indices_below(geoms, n - 1, viewport, screen, config);
    }
}

/// The mathematical content of what [`build_paths`] returns.
pub open spec fn batch_result_view(r: Result<PathBatch, PipelineError>) -> Result<
    BatchView,
    PipelineError,
> {
    match r {
        Ok(batch) => Ok(batch@),
        Err(e) => Err(e),
    }
}

/// Turns every primitive into the path that draws it.
///
/// The primitives are taken in input order. The result is fully described by
/// [`prepares`].
pub fn build_paths(geoms: Vec<StyledGeom>, viewport: Viewport, screen: Screen, config: &Config)
    -> (r: Result<PathBatch, PipelineError>)
    ensures
        prepares(geoms@, viewport, screen, *config, batch_result_view(r)),
        r is Ok <==> viewport.valid() && screen.valid() && (config.strict ==> forall|j: int|
            0 <= j < geoms.len() ==> (#[trigger] geoms@[j])@.geom.valid()),
{
    if !viewport.is_valid() || !screen.is_valid() {
        return Err(PipelineError::TransformFailure);
    }
    let mut jobs: Vec<Job> = Vec::new();
    let mut failures: Vec<PipelineError> = Vec::new();
    let mut i: usize = 0;
    while i < geoms.len()
        invariant
            viewport.valid(),
            screen.valid(),
            i <= geoms.len(),
            config.strict ==> forall|j: int| 0 <= j < i ==> (#[trigger] geoms@[j])@.geom.valid(),
            jobs@.map_values(|job: Job| job@) == jobs_until(
                geoms@,
                i as int,
                viewport,
                screen,
                *config,
            ),
            failures@ == rejects_until(geoms@, i as int),
        decreases geoms.len() - i,
    {
        match path_for(&geoms[i].geom, &viewport, &screen, &config.point_style) {
            Ok(path) => {
                let line_width = match &path {
                    TaggedPath::Filled(_) => Ratio {
                        num: config.default_line_width as i128,
                        den: UNIT,
                    },
                    TaggedPath::Stroked { width, .. } => *width,
                };
                let options = TessellationOptions {
                    tolerance: Ratio { num: config.tolerance as i128, den: UNIT },
                    line_width,
                };
                let job = Job { index: i, path, color: geoms[i].color, options };
                proof {
                    assert(job@ == job_at(geoms@, i as int, viewport, screen, *config));
                    assert(jobs@.push(job).map_values(|job: Job| job@) =~= jobs@.map_values(
                        |job: Job| job@,
                    ).push(job@));
                }
                jobs.push(job);
            },
            Err(_) => {
                if config.strict {
                    return Err(PipelineError::InvalidGeometry { index: i });
                }
                failures.push(PipelineError::InvalidGeometry { index: i });
            },
        }
        i = i + 1;
    }
    Ok(PathBatch { jobs, failures })
}

/// What the tessellator made of one path.
#[derive(Clone, Debug)]
pub enum Outcome {
    /// The tessellator finished and these are its triangles.
    Tessellated(Triangles),
    /// The tessellator gave up on the path.
    Failed,
}

/// The mathematical content of an [`Outcome`].
pub enum OutcomeView {
    Tessellated(TrianglesView),
    Failed,
}

impl View for Outcome {
    type V = OutcomeView;

    open spec fn view(&self) -> OutcomeView {
        match *self {
            Outcome::Tessellated(mesh) => OutcomeView::Tessellated(mesh@),
            Outcome::Failed => OutcomeView::Failed,
        }
    }
}

/// The gathered buffers and a report on each primitive that is not in them.
#[derive(Debug)]
pub struct Rendered {
    pub buffers: VertexBuffers,
    pub failures: Vec<PipelineError>,
}

/// The mathematical content of a [`Rendered`].
pub struct RenderedView {
    pub buffers: BuffersView,
    pub failures: Seq<PipelineError>,
}

impl View for Rendered {
    type V = RenderedView;

    open spec fn view(&self) -> RenderedView {
        RenderedView { buffers: self.buffers@, failures: self.failures@ }
    }
}

/// The outcome that belongs to the job at position `k`. A job that no
/// outcome was handed in for counts as failed.
pub open spec fn outcome_at(outcomes: Seq<OutcomeView>, k: int) -> OutcomeView {
    if 0 <= k < outcomes.len() {
        outcomes[k]
    } else {
        OutcomeView::Failed
    }
}

/// Whether `outcome` holds triangles that can be added to `buffers`.
pub open spec fn usable(buffers: BuffersView, outcome: OutcomeView) -> bool {
    outcome matches OutcomeView::Tessellated(mesh) && buffers.accepts(mesh)
}

/// The buffers after one outcome is dealt with: usable triangles are added in
/// `color`, anything else leaves the buffers as they were.
pub open spec fn absorbed(buffers: BuffersView, outcome: OutcomeView, color: Color)
    -> BuffersView {
    match outcome {
        OutcomeView::Tessellated(mesh) => if buffers.accepts(mesh) {
            buffers.appended(mesh, color)
        } else {
            buffers
        },
        OutcomeView::Failed => buffers,
    }
}

/// The buffers after the first `n` jobs are dealt with, in order.
pub open spec fn assembled(jobs: Seq<JobView>, outcomes: Seq<OutcomeView>, n: int) -> BuffersView
    decreases n,
{
    if n <= 0 {
        BuffersView::empty()
    } else {
        absorbed(
            assembled(jobs, outcomes, n - 1),
            outcome_at(outcomes, n - 1),
            jobs[n - 1].color,
        )
    }
}

/// Whether the job at position `k` contributes nothing.
pub open spec fn fails_at(jobs: Seq<JobView>, outcomes: Seq<OutcomeView>, k: int) -> bool {
    !usable(assembled(jobs, outcomes, k), outcome_at(outcomes, k))
}

/// The report on a job that contributed nothing.
pub open spec fn failure_of(job: JobView) -> PipelineError {
    PipelineError::TessellationFailure { index: job.index, tag: job.path.tag() }
}

/// The reports on the jobs among the first `n` that contributed nothing, in
/// order.
pub open spec fn failures_until(jobs: Seq<JobView>, outcomes: Seq<OutcomeView>, n: int) -> Seq<
    PipelineError,
>
    decreases n,
{
    if n <= 0 {
        Seq::empty()
    } else {
        let earlier = failures_until(jobs, outcomes, n - 1);
        if fails_at(jobs, outcomes, n - 1) {
            earlier.push(failure_of(jobs[n - 1]))
        } else {
            earlier
        }
    }
}

/// Whether the job at position `k` is the first that contributes nothing.
pub open spec fn first_failure(jobs: Seq<JobView>, outcomes: Seq<OutcomeView>, k: int) -> bool {
    &&& 0 <= k < jobs.len()
    &&& fails_at(jobs, outcomes, k)
    &&& forall|j: int| 0 <= j < k ==> !fails_at(jobs, outcomes, j)
}

/// What gathering the outcomes of a batch comes to.
///
/// In strict mode the first job that contributes nothing fails the run.
/// Otherwise the triangles of every other job are in the buffers, in job
/// order, and the reports of the batch are followed by one report for each
/// job that contributed nothing.
pub open spec fn assembles(
    batch: BatchView,
    outcomes: Seq<OutcomeView>,
    config: Config,
    result: Result<RenderedView, PipelineError>,
) -> bool {
    match result {
        Ok(rendered) => {
            &&& config.strict ==> forall|k: int|
                0 <= k < batch.jobs.len() ==> !fails_at(batch.jobs, outcomes, k)
            &&& rendered.buffers == assembled(batch.jobs, outcomes, batch.jobs.len() as int)
            &&& rendered.failures == batch.failures + failures_until(
                batch.jobs,
                outcomes,
                batch.jobs.len() as int,
            )
        },
        Err(e) => {
            &&& config.strict
            &&& exists|k: int| #[trigger]
                first_failure(batch.jobs, outcomes, k) && e == failure_of(batch.jobs[k])
        },
    }
}

/// The mathematical content of a list of outcomes.
pub open spec fn outcome_views(outcomes: Seq<Outcome>) -> Seq<OutcomeView> {
    outcomes.map_values(|outcome: Outcome| outcome@)
}

/// The mathematical content of what [`assemble`] returns.
pub open spec fn rendered_result_view(r: Result<Rendered, PipelineError>) -> Result<
    RenderedView,
    PipelineError,
> {
    match r {
        Ok(rendered) => Ok(rendered@),
        Err(e) => Err(e),
    }
}

/// However many jobs have been dealt with, the buffers are well formed: the
/// indices come in whole triangles and each names a vertex that is there.
pub proof fn lemma_assembled_wf(jobs: Seq<JobView>, outcomes: Seq<OutcomeView>, n: int)
    ensures
        assembled(jobs, outcomes, n).wf(),
    decreases n,
{
    if n > 0 {
        lemma_assembled_wf(jobs, outcomes, n - 1);
        let before = assembled(jobs, outcomes, n - 1);
        if let OutcomeView::Tessellated(mesh) = outcome_at(outcomes, n - 1) {
            if before.accepts(mesh) {
                lemma_appended_wf(before, mesh, jobs[n - 1].color);
            }
        }
    }
}

/// What one job does to the buffers.
///
/// A job that contributes nothing leaves them exactly as they were. Any other
/// job leaves what was there in place and adds at least one vertex and a
/// positive number of whole triangles; every vertex it adds carries the job's
/// colour, and every index it adds names one of the vertices it added.
pub proof fn lemma_job_contribution(jobs: Seq<JobView>, outcomes: Seq<OutcomeView>, k: int)
    requires
        0 <= k,
    ensures
        fails_at(jobs, outcomes, k) ==> assembled(jobs, outcomes, k + 1) == assembled(
            jobs,
            outcomes,
            k,
        ),
        !fails_at(jobs, outcomes, k) ==> ({
            let before = assembled(jobs, outcomes, k);
            let after = assembled(jobs, outcomes, k + 1);
            &&& after.vertices.len() > before.vertices.len()
            &&& after.indices.len() > before.indices.len()
            &&& (after.indices.len() - before.indices.len()) % 3 == 0
            &&& after.vertices.take(before.vertices.len() as int) == before.vertices
            &&& after.indices.take(before.indices.len() as int) == before.indices
            &&& forall|i: int|
                before.vertices.len() <= i < after.vertices.len() ==> (
                #[trigger] after.vertices[i]).color == jobs[k].color
            &&& forall|i: int|
                before.indices.len() <= i < after.indices.len() ==> before.vertices.len() <= (
                #[trigger] after.indices[i]) < after.vertices.len()
        }),
{
    let before = assembled(jobs, outcomes, k);
    let after = assembled(jobs, outcomes, k + 1);
    lemma_assembled_wf(jobs, outcomes, k);
    assert(after == absorbed(before, outcome_at(outcomes, k), jobs[k].color));
    if !fails_at(jobs, outcomes, k) {
        let mesh = outcome_at(outcomes, k)->Tessellated_0;
        lemma_appended_wf(before, mesh, jobs[k].color);
        assert(mesh.positions.len() > 0) by {
            assert(mesh.indices[0] < mesh.positions.len());
        }
        assert forall|i: int| before.indices.len() <= i < after.indices.len() implies before.vertices.len()
            <= (#[trigger] after.indices[i]) < after.vertices.len() by {
            let j = i - before.indices.len();
            assert(mesh.indices[j] < mesh.positions.len());
        }
    }
}

/// A run of one job hands the tessellator's triangles on as they are: with
/// usable triangles the vertices are its positions in the job's colour and
/// the indices are its indices, so both counts are positive, the indices
/// come in threes, and the counts are those of the tessellator.
pub proof fn lemma_single_job_run(jobs: Seq<JobView>, outcomes: Seq<OutcomeView>)
    requires
        jobs.len() == 1,
        !fails_at(jobs, outcomes, 0),
    ensures
        ({
            let mesh = outcome_at(outcomes, 0)->Tessellated_0;
            let run = assembled(jobs, outcomes, 1);
            &&& run.indices == mesh.indices
            &&& run.vertices.len() == mesh.positions.len()
            &&& forall|i: int|
                0 <= i < run.vertices.len() ==> (#[trigger] run.vertices[i]) == (Vertex {
                    pos: mesh.positions[i],
                    color: jobs[0].color,
                })
            &&& run.vertices.len() > 0
            &&& run.indices.len() > 0
            &&& run.indices.len() % 3 == 0
        }),
{
    let mesh = outcome_at(outcomes, 0)->Tessellated_0;
    let none = assembled(jobs, outcomes, 0);
    let run = assembled(jobs, outcomes, 1);
    assert(run == absorbed(none, outcome_at(outcomes, 0), jobs[0].color));
    assert(run.indices =~= mesh.indices);
    assert(mesh.indices[0] < mesh.positions.len());
}

/// Where the counts of every outcome are whole multiples of what the
/// tessellator emits for one piece, such as four vertices and six indices
/// for one straight segment of a stroke, the counts of the gathered buffers
/// are whole multiples of the same.
pub proof fn lemma_counts_are_multiples(
    jobs: Seq<JobView>,
    outcomes: Seq<OutcomeView>,
    n: int,
    vertices_each: nat,
    indices_each: nat,
)
    requires
        vertices_each > 0,
        indices_each > 0,
        forall|k: int|
            0 <= k < n ==> ((#[trigger] outcome_at(outcomes, k)) matches OutcomeView::Tessellated(
                mesh,
            ) ==> mesh.positions.len() % vertices_each == 0 && mesh.indices.len() % indices_each
                == 0),
    ensures
        assembled(jobs, outcomes, n).vertices.len() % vertices_each == 0,
        assembled(jobs, outcomes, n).indices.len() % indices_each == 0,
    decreases n,
{
    if n > 0 {
        lemma_counts_are_multiples(jobs, outcomes, n - 1, vertices_each, indices_each);
        let before = assembled(jobs, outcomes, n - 1);
        let after = assembled(jobs, outcomes, n);
        let outcome = outcome_at(outcomes, n - 1);
        assert(after == absorbed(before, outcome, jobs[n - 1].color));
        if let OutcomeView::Tessellated(mesh) = outcome {
            if before.accepts(mesh) {
                assert(after.vertices.len() == before.vertices.len() + mesh.positions.len());
                assert(after.indices.len() == before.indices.len() + mesh.indices.len());
                lemma_sum_of_multiples(
                    before.vertices.len() as int,
                    mesh.positions.len() as int,
                    vertices_each as int,
                );
                lemma_sum_of_multiples(
                    before.indices.len() as int,
                    mesh.indices.len() as int,
                    indices_each as int,
                );
            }
        }
    } else {
        assert(assembled(jobs, outcomes, n).vertices.len() == 0);
        assert(assembled(jobs, outcomes, n).indices.len() == 0);
        assert(0int % (vertices_each as int) == 0 && 0int % (indices_each as int) == 0)
            by (nonlinear_arith)
            requires
                vertices_each > 0,
                indices_each > 0,
        ;
    }
}

proof fn lemma_sum_of_multiples(a: int, b: int, m: int)
    requires
        m > 0,
        a % m == 0,
        b % m == 0,
    ensures
        (a + b) % m == 0,
{
    lemma_fundamental_div_mod(a, m);
    lemma_fundamental_div_mod(b, m);
    assert(a + b == (a / m + b / m) * m + 0) by (nonlinear_arith)
        requires
            a == m * (a / m) + a % m,
            b == m * (b / m) + b % m,
            a % m == 0,
            b % m == 0,
    ;
    lemma_fundamental_div_mod_converse(a + b, m, a / m + b / m, 0);
}

/// The first jobs of a longer run are gathered as they are alone.
proof fn lemma_assembled_prefix(
    first_jobs: Seq<JobView>,
    first_outcomes: Seq<OutcomeView>,
    later_jobs: Seq<JobView>,
    later_outcomes: Seq<OutcomeView>,
    k: int,
)
    requires
        first_outcomes.len() == first_jobs.len(),
        0 <= k <= first_jobs.len(),
    ensures
        assembled(first_jobs + later_jobs, first_outcomes + later_outcomes, k) == assembled(
            first_jobs,
            first_outcomes,
            k,
        ),
    decreases k,
{
    if k > 0 {
        lemma_assembled_prefix(first_jobs, first_outcomes, later_jobs, later_outcomes, k - 1);
        assert((first_jobs + later_jobs)[k - 1] == first_jobs[k - 1]);
        assert((first_outcomes + later_outcomes)[k - 1] == first_outcomes[k - 1]);
    }
}

/// Gathering is additive: the buffers of one run after another are the
/// buffers of the first followed by those of the second, as long as all
/// vertices together stay within reach of a 32-bit index.
pub proof fn lemma_assembled_in_parts(
    first_jobs: Seq<JobView>,
    first_outcomes: Seq<OutcomeView>,
    later_jobs: Seq<JobView>,
    later_outcomes: Seq<OutcomeView>,
    n: int,
)
    requires
        first_outcomes.len() == first_jobs.len(),
        0 <= n <= later_jobs.len(),
        assembled(first_jobs, first_outcomes, first_jobs.len() as int).vertices.len() + assembled(
            later_jobs,
            later_outcomes,
            n,
        ).vertices.len() <= u32::MAX,
    ensures
        assembled(
            first_jobs + later_jobs,
            first_outcomes + later_outcomes,
            first_jobs.len() + n,
        ) == assembled(first_jobs, first_outcomes, first_jobs.len() as int).followed_by(
            assembled(later_jobs, later_outcomes, n),
        ),
    decreases n,
{
    let jobs = first_jobs + later_jobs;
    let outcomes = first_outcomes + later_outcomes;
    let first = assembled(first_jobs, first_outcomes, first_jobs.len() as int);
    let whole = assembled(jobs, outcomes, first_jobs.len() + n);
    let later = assembled(later_jobs, later_outcomes, n);
    if n == 0 {
        lemma_assembled_prefix(
            first_jobs,
            first_outcomes,
            later_jobs,
            later_outcomes,
            first_jobs.len() as int,
        );
        assert(first.followed_by(later).vertices =~= first.vertices);
        assert(first.followed_by(later).indices =~= first.indices);
    } else {
        let before = assembled(later_jobs, later_outcomes, n - 1);
        let outcome = outcome_at(later_outcomes, n - 1);
        let color = later_jobs[n - 1].color;
        lemma_assembled_wf(later_jobs, later_outcomes, n - 1);
        assert(later == absorbed(before, outcome, color));
        assert(before.vertices.len() <= later.vertices.len());
        lemma_assembled_in_parts(first_jobs, first_outcomes, later_jobs, later_outcomes, n - 1);
        let joined = first.followed_by(before);
        assert(jobs[first_jobs.len() + n - 1] == later_jobs[n - 1]);
        assert(outcome_at(outcomes, first_jobs.len() + n - 1) == outcome) by {
            if n - 1 < later_outcomes.len() {
                assert(outcomes[first_jobs.len() + n - 1] == later_outcomes[n - 1]);
            }
        }
        assert(whole == absorbed(joined, outcome, color));
        if let OutcomeView::Tessellated(mesh) = outcome {
            if before.accepts(mesh) {
                assert(joined.accepts(mesh));
                let lhs = joined.appended(mesh, color);
                let rhs = first.followed_by(before.appended(mesh, color));
                assert(lhs.vertices =~= rhs.vertices);
                assert(lhs.indices.len() == rhs.indices.len());
                assert forall|i: int| 0 <= i < lhs.indices.len() implies lhs.indices[i]
                    == rhs.indices[i] by {
                    if i >= first.indices.len() + before.indices.len() {
                        let j = i - first.indices.len() - before.indices.len();
                        assert(mesh.indices[j] < mesh.positions.len());
                    }
                }
                assert(lhs.indices =~= rhs.indices);
            } else {
                assert(!joined.accepts(mesh));
            }
        }
    }
}

/// Every job is accounted for: one that contributes nothing is reported, and,
/// where the jobs stand in input order, one that contributes is not.
pub proof fn lemma_each_job_accounted_for(
    jobs: Seq<JobView>,
    outcomes: Seq<OutcomeView>,
    n: int,
    k: int,
)
    requires
        0 <= k < n <= jobs.len(),
    ensures
        fails_at(jobs, outcomes, k) ==> failures_until(jobs, outcomes, n).contains(
            failure_of(jobs[k]),
        ),
        !fails_at(jobs, outcomes, k) && (forall|a: int, b: int|
            0 <= a < b < jobs.len() ==> jobs[a].index < jobs[b].index)
            ==> !failures_until(jobs, outcomes, n).contains(failure_of(jobs[k])),
    decreases n,
{
    let reports = failures_until(jobs, outcomes, n);
    let earlier = failures_until(jobs, outcomes, n - 1);
    if fails_at(jobs, outcomes, k) {
        if k < n - 1 {
            lemma_each_job_accounted_for(jobs, outcomes, n - 1, k);
            let at = choose|at: int| 0 <= at < earlier.len() && earlier[at] == failure_of(jobs[k]);
            assert(reports[at] == failure_of(jobs[k]));
        } else {
            assert(reports[reports.len() - 1] == failure_of(jobs[k]));
        }
    } else if forall|a: int, b: int| 0 <= a < b < jobs.len() ==> jobs[a].index < jobs[b].index {
        if k < n - 1 {
            lemma_each_job_accounted_for(jobs, outcomes, n - 1, k);
        }
        lemma_reports_name_failed_jobs(jobs, outcomes, n);
        assert forall|at: int| 0 <= at < reports.len() implies reports[at] != failure_of(
            jobs[k],
        ) by {
            let j = choose|j: int|
                0 <= j < n && fails_at(jobs, outcomes, j) && reports[at] == failure_of(jobs[j]);
            if j < k {
                assert(jobs[j].index < jobs[k].index);
            } else if k < j {
                assert(jobs[k].index < jobs[j].index);
            }
        }
    }
}

/// Every report on a job names a job that contributed nothing.
proof fn lemma_reports_name_failed_jobs(jobs: Seq<JobView>, outcomes: Seq<OutcomeView>, n: int)
    requires
        0 <= n <= jobs.len(),
    ensures
        forall|at: int|
            0 <= at < failures_until(jobs, outcomes, n).len() ==> exists|j: int|
                0 <= j < n && fails_at(jobs, outcomes, j) && (#[trigger] failures_until(
                    jobs,
                    outcomes,
                    n,
                )[at]) == failure_of(jobs[j]),
    decreases n,
{
    if n > 0 {
        lemma_reports_name_failed_jobs(jobs, outcomes, n - 1);
        let reports = failures_until(jobs, outcomes, n);
        let earlier = failures_until(jobs, outcomes, n - 1);
        assert forall|at: int| 0 <= at < reports.len() implies exists|j: int|
            0 <= j < n && fails_at(jobs, outcomes, j) && (#[trigger] reports[at]) == failure_of(
                jobs[j],
            ) by {
            if at < earlier.len() {
                assert(reports[at] == earlier[at]);
                let j = choose|j: int|
                    0 <= j < n - 1 && fails_at(jobs, outcomes, j) && earlier[at] == failure_of(
                        jobs[j],
                    );
                assert(0 <= j < n && fails_at(jobs, outcomes, j) && reports[at] == failure_of(
                    jobs[j],
                ));
            } else {
                assert(fails_at(jobs, outcomes, n - 1) && reports[at] == failure_of(jobs[n - 1]));
            }
        }
    }
}

/// Gathering the same outcomes for the same batch twice gives the same
/// buffers and the same reports.
pub proof fn lemma_assembles_deterministic(
    batch: BatchView,
    outcomes: Seq<OutcomeView>,
    config: Config,
    first: Result<RenderedView, PipelineError>,
    second: Result<RenderedView, PipelineError>,
)
    requires
        assembles(batch, outcomes, config, first),
        assembles(batch, outcomes, config, second),
    ensures
        first == second,
{
    match (first, second) {
        (Err(a), Err(b)) => {
            let i = choose|k: int| #[trigger]
                first_failure(batch.jobs, outcomes, k) && a == failure_of(batch.jobs[k]);
            let j = choose|k: int| #[trigger]
                first_failure(batch.jobs, outcomes, k) && b == failure_of(batch.jobs[k]);
            assert(i == j);
        },
        (Ok(_), Err(b)) => {
            let j = choose|k: int| #[trigger]
                first_failure(batch.jobs, outcomes, k) && b == failure_of(batch.jobs[k]);
            assert(fails_at(batch.jobs, outcomes, j));
        },
        (Err(a), Ok(_)) => {
            let i = choose|k: int| #[trigger]
                first_failure(batch.jobs, outcomes, k) && a == failure_of(batch.jobs[k]);
            assert(fails_at(batch.jobs, outcomes, i));
        },
        (Ok(_), Ok(_)) => {},
    }
}

/// Gathers the triangles of all jobs of a batch into one vertex array and one
/// index array.
///
/// The jobs are taken in order, the outcome at position `k` belonging to the
/// job at position `k`. The result is fully described by [`assembles`].
pub fn assemble(batch: PathBatch, outcomes: Vec<Outcome>, config: &Config) -> (r: Result<
    Rendered,
    PipelineError,
>)
    ensures
        assembles(batch@, outcome_views(outcomes@), *config, rendered_result_view(r)),
        r is Ok <==> (config.strict ==> forall|k: int|
            0 <= k < batch.jobs.len() ==> !fails_at(batch@.jobs, outcome_views(outcomes@), k)),
        r matches Ok(rendered) ==> rendered.buffers.wf(),
{
    let PathBatch { jobs, failures } = batch;
    let ghost views = jobs@.map_values(|job: Job| job@);
    let ghost results = outcome_views(outcomes@);
    let ghost reported = failures@;
    let mut failures = failures;
    let mut buffers = VertexBuffers::new();
    let mut k: usize = 0;
    while k < jobs.len()
        invariant
            k <= jobs.len(),
            views == jobs@.map_values(|job: Job| job@),
            views == batch@.jobs,
            reported == batch@.failures,
            results == outcome_views(outcomes@),
            buffers.wf(),
            buffers@ == assembled(views, results, k as int),
            failures@ == reported + failures_until(views, results, k as int),
            config.strict ==> forall|j: int| 0 <= j < k ==> !fails_at(views, results, j),
        decreases jobs.len() - k,
    {
        let job = &jobs[k];
        assert(views[k as int] == job@);
        let added = if k < outcomes.len() {
            match &outcomes[k] {
                Outcome::Tessellated(mesh) => buffers.append(mesh, job.color),
                Outcome::Failed => false,
            }
        } else {
            false
        };
        assert(added == !fails_at(views, results, k as int));
        if !added {
            let failure = PipelineError::TessellationFailure {
                index: job.index,
                tag: job.path.tag(),
            };
            if config.strict {
                assert(first_failure(batch@.jobs, results, k as int) && failure == failure_of(
                    batch@.jobs[k as int],
                ));
                return Err(failure);
            }
            failures.push(failure);
            assert(failures@ =~= reported + failures_until(views, results, k + 1));
        }
        k = k + 1;
    }
    Ok(Rendered { buffers, failures })
}

/// Whether `batch` and `outcomes` are one way in which a run on `geoms`
/// with the tessellator `tessellate` comes to `result`: the batch is what
/// preparing the paths gives, each outcome is one that the tessellator may
/// return for its job, and gathering them gives the result.
pub open spec fn explains<F: Fn(&Job) -> Outcome>(
    geoms: Seq<StyledGeom>,
    viewport: Viewport,
    screen: Screen,
    config: Config,
    tessellate: F,
    batch: Result<PathBatch, PipelineError>,
    outcomes: Seq<Outcome>,
    result: Result<RenderedView, PipelineError>,
) -> bool {
    &&& prepares(geoms, viewport, screen, config, batch_result_view(batch))
    &&& match batch {
        Err(e) => result == Err::<RenderedView, PipelineError>(e),
        Ok(batch) => {
            &&& outcomes.len() == batch.jobs.len()
            &&& forall|k: int|
                0 <= k < outcomes.len() ==> call_ensures(
                    tessellate,
                    (&batch.jobs[k],),
                    #[trigger] outcomes[k],
                )
            &&& assembles(batch@, outcome_views(outcomes), config, result)
        },
    }
}

/// What a whole run comes to: the paths are prepared, the tessellator is
/// asked once for each job, and the outcomes are gathered.
pub open spec fn renders<F: Fn(&Job) -> Outcome>(
    geoms: Seq<StyledGeom>,
    viewport: Viewport,
    screen: Screen,
    config: Config,
    tessellate: F,
    result: Result<RenderedView, PipelineError>,
) -> bool {
    exists|batch: Result<PathBatch, PipelineError>, outcomes: Seq<Outcome>|
        explains(geoms, viewport, screen, config, tessellate, batch, outcomes, result)
}

/// Turns styled primitives into one vertex array and one index array.
///
/// Every primitive is transformed and turned into a path, `tessellate` is
/// called once for each path, in input order, and the triangles it returns
/// are gathered. The result is fully described by [`renders`].
pub fn create_vertices<F: Fn(&Job) -> Outcome>(
    styled_geoms: Vec<StyledGeom>,
    screen: Screen,
    viewport: Viewport,
    config: &Config,
    tessellate: F,
) -> (r: Result<Rendered, PipelineError>)
    requires
        forall|job: &Job| call_requires(tessellate, (job,)),
    ensures
        renders(styled_geoms@, viewport, screen, *config, tessellate, rendered_result_view(r)),
        !(viewport.valid() && screen.valid()) ==> r matches Err(PipelineError::TransformFailure),
        viewport.valid() && screen.valid() && !config.strict ==> r is Ok,
        r matches Ok(rendered) ==> rendered.buffers.wf(),
{
    let prepared = build_paths(styled_geoms, viewport, screen, config);
    let ghost shown = prepared;
    match prepared {
        Err(e) => {
            assert(explains(
                styled_geoms@,
                viewport,
                screen,
                *config,
                tessellate,
                shown,
                Seq::<Outcome>::empty(),
                Err::<RenderedView, PipelineError>(e),
            ));
            Err(e)
        },
        Ok(batch) => {
            let mut outcomes: Vec<Outcome> = Vec::new();
            let mut k: usize = 0;
            while k < batch.jobs.len()
                invariant
                    k <= batch.jobs.len(),
                    outcomes.len() == k,
                    forall|job: &Job| call_requires(tessellate, (job,)),
                    forall|j: int|
                        0 <= j < k ==> call_ensures(
                            tessellate,
                            (&batch.jobs[j],),
                            #[trigger] outcomes[j],
                        ),
                decreases batch.jobs.len() - k,
            {
                let outcome = tessellate(&batch.jobs[k]);
                outcomes.push(outcome);
                k = k + 1;
            }
            let ghost asked = outcomes@;
            let r = assemble(batch, outcomes, config);
            assert(explains(
                styled_geoms@,
                viewport,
                screen,
                *config,
                tessellate,
                shown,
                asked,
                rendered_result_view(r),
            ));
            r
        },
    }
}

/// With a tessellator whose answer depends on nothing but the job, two runs
/// on the same input come to the same buffers and the same reports.
pub proof fn lemma_renders_deterministic<F: Fn(&Job) -> Outcome>(
    geoms: Seq<StyledGeom>,
    viewport: Viewport,
    screen: Screen,
    config: Config,
    tessellate: F,
    first: Result<RenderedView, PipelineError>,
    second: Result<RenderedView, PipelineError>,
)
    requires
        forall|a: &Job, b: &Job, x: Outcome, y: Outcome|
            a@ == b@ && #[trigger] call_ensures(tessellate, (a,), x) && #[trigger] call_ensures(
                tessellate,
                (b,),
                y,
            ) ==> x@ == y@,
        renders(geoms, viewport, screen, config, tessellate, first),
        renders(geoms, viewport, screen, config, tessellate, second),
    ensures
        first == second,
{
    let (batch_a, outcomes_a) = choose|batch: Result<PathBatch, PipelineError>, outcomes: Seq<Outcome>|
        explains(geoms, viewport, screen, config, tessellate, batch, outcomes, first);
    let (batch_b, outcomes_b) = choose|batch: Result<PathBatch, PipelineError>, outcomes: Seq<Outcome>|
        explains(geoms, viewport, screen, config, tessellate, batch, outcomes, second);
    lemma_prepares_deterministic(
        geoms,
        viewport,
        screen,
        config,
        batch_result_view(batch_a),
        batch_result_view(batch_b),
    );
    match (batch_a, batch_b) {
        (Ok(a), Ok(b)) => {
            assert(a@ == b@);
            assert(a.jobs.len() == a@.jobs.len());
            assert(b.jobs.len() == b@.jobs.len());
            assert forall|k: int| 0 <= k < outcomes_a.len() implies outcome_views(outcomes_a)[k]
                == outcome_views(outcomes_b)[k] by {
                assert(a@.jobs[k] == a.jobs[k]@);
                assert(b@.jobs[k] == b.jobs[k]@);
                assert(call_ensures(tessellate, (&a.jobs[k],), outcomes_a[k]));
                assert(call_ensures(tessellate, (&b.jobs[k],), outcomes_b[k]));
            }
            assert(outcome_views(outcomes_a) =~= outcome_views(outcomes_b));
            lemma_assembles_deterministic(a@, outcome_views(outcomes_a), config, first, second);
        },
        _ => {},
    }
}

} // verus!
