//! Load scenarios and the job store of the optimisation service.
use vstd::prelude::*;

use crate::fem::{all_in_range, clamp_pairs, BoundaryConditions, ZERO_BITS};
use crate::mesh::{grid_fits, lemma_grid_fits, node_index, Mesh};

verus! {

/// Bit pattern of `-1.0`, the unit load pointing down that every scenario applies.
pub const UNIT_LOAD_DOWN_BITS: u64 = 0xBFF0_0000_0000_0000;

/// Predefined load cases that a client picks from.
#[derive(Debug, Clone, Copy, PartialEq, Eq)]
pub enum LoadScenario {
    /// Cantilever: left edge clamped, load at the middle of the right edge.
    Cantilever,
    /// Bridge: both lower corners clamped, load at the middle of the top edge.
    Bridge,
    /// MBB beam: upper left and lower right corner held in y, load at the upper left corner.
    MbbBeam,
}

/// The clamps of the lowest `rows` nodes of column `col`, bottom to top.
pub open spec fn clamp_column(nelx: int, col: int, rows: nat) -> Seq<(usize, u64)>
    decreases rows,
{
    if rows == 0 {
        Seq::empty()
    } else {
        clamp_column(nelx, col, (rows - 1) as nat) + clamp_pairs(node_index(nelx, col, rows - 1))
    }
}

/// A downward unit load on the y degree of freedom of `node`.
pub open spec fn load_down(node: int) -> (usize, u64) {
    ((2 * node + 1) as usize, UNIT_LOAD_DOWN_BITS)
}

/// A support in y only at `node`.
pub open spec fn hold_y(node: int) -> (usize, u64) {
    ((2 * node + 1) as usize, ZERO_BITS)
}

impl LoadScenario {
    /// The fixed degrees of freedom that the scenario prescribes on a grid `nelx × nely`.
    pub open spec fn fixed_spec(self, nelx: int, nely: int) -> Seq<(usize, u64)> {
        match self {
            LoadScenario::Cantilever => clamp_column(nelx, 0, (nely + 1) as nat),
            LoadScenario::Bridge => clamp_pairs(node_index(nelx, 0, 0)) + clamp_pairs(
                node_index(nelx, nelx, 0),
            ),
            LoadScenario::MbbBeam => seq![hold_y(node_index(nelx, 0, nely)), hold_y(node_index(nelx, nelx, 0))],
        }
    }

    /// The loads that the scenario applies on a grid `nelx × nely`.
    pub open spec fn forces_spec(self, nelx: int, nely: int) -> Seq<(usize, u64)> {
        match self {
            LoadScenario::Cantilever => seq![load_down(node_index(nelx, nelx, nely / 2))],
            LoadScenario::Bridge => seq![load_down(node_index(nelx, nelx / 2, nely))],
            LoadScenario::MbbBeam => seq![load_down(node_index(nelx, 0, nely))],
        }
    }

    /// Builds the boundary conditions of this scenario for the given grid.
    pub fn build_bc(&self, mesh: &Mesh) -> (bc: BoundaryConditions)
        requires
            grid_fits(mesh.nelx as int, mesh.nely as int),
        ensures
            bc.fixed_dofs@ == self.fixed_spec(mesh.nelx as int, mesh.nely as int),
            bc.forces@ == self.forces_spec(mesh.nelx as int, mesh.nely as int),
            *self matches LoadScenario::Cantilever ==> bc.forces@.len() == 1 && bc.forces@[0].0 == 2 * ((
            mesh.nely as int / 2) * (mesh.nelx as int + 1) + mesh.nelx as int) + 1 && bc.forces@[0].1 == 0xBFF0_0000_0000_0000u64,
            *self matches LoadScenario::Cantilever ==> bc.fixed_dofs@.len() == 2 * (mesh.nely as int + 1) && forall|k: int|
                0 <= k < bc.fixed_dofs@.len() ==> (#[trigger] bc.fixed_dofs@[k]).0 == 2 * ((k / 2) * (mesh.nelx as int + 1))
                    + k % 2 && bc.fixed_dofs@[k].1 == 0u64,
            *self matches LoadScenario::Bridge ==> bc.forces@.len() == 1 && bc.forces@[0].0 == 2 * (mesh.nely as int * (
            mesh.nelx as int + 1) + mesh.nelx as int / 2) + 1 && bc.forces@[0].1 == 0xBFF0_0000_0000_0000u64,
            *self matches LoadScenario::Bridge ==> bc.fixed_dofs@.len() == 4 && bc.fixed_dofs@[0].0 == 0
                && bc.fixed_dofs@[1].0 == 1 && bc.fixed_dofs@[2].0 == 2 * mesh.nelx as int && bc.fixed_dofs@[3].0 == 2 * mesh.nelx as int
                + 1 && forall|k: int| 0 <= k < 4 ==> (#[trigger] bc.fixed_dofs@[k]).1 == 0u64,
            *self matches LoadScenario::MbbBeam ==> bc.forces@.len() == 1 && bc.forces@[0].0 == 2 * (mesh.nely as int * (
            mesh.nelx as int + 1)) + 1 && bc.forces@[0].1 == 0xBFF0_0000_0000_0000u64,
            *self matches LoadScenario::MbbBeam ==> bc.fixed_dofs@.len() == 2 && bc.fixed_dofs@[0].0 == 2 * (
            mesh.nely as int * (mesh.nelx as int + 1)) + 1 && bc.fixed_dofs@[1].0 == 2 * mesh.nelx as int + 1 && bc.fixed_dofs@[0].1 == 0u64
                && bc.fixed_dofs@[1].1 == 0u64,
    {
        let ghost nelx = mesh.nelx as int;
        let ghost nely = mesh.nely as int;
        proof {
            lemma_grid_fits(nelx, nely);
            lemma_node_dofs_fit(nelx, nely, nelx, nely);
            lemma_node_dofs_fit(nelx, nely, 0, nely);
            lemma_node_dofs_fit(nelx, nely, nelx, 0);
            lemma_node_dofs_fit(nelx, nely, nelx, nely / 2);
            lemma_node_dofs_fit(nelx, nely, nelx / 2, nely);
        }
        let mut bc = BoundaryConditions::new();
        match self {
            LoadScenario::Cantilever => {
                let left = mesh.left_edge_nodes();
                let n = left.len();
                for i in 0..n
                    invariant
                        n == left@.len(),
                        n == nely + 1,
                        nelx == mesh.nelx,
                        nely == mesh.nely,
                        grid_fits(nelx, nely),
                        forall|row: int| 0 <= row <= nely ==> #[trigger] left@[row] == node_index(nelx, 0, row),
                        bc.fixed_dofs@ == clamp_column(nelx, 0, i as nat),
                        bc.forces@ == Seq::<(usize, u64)>::empty(),
                {
                    proof {
                        lemma_node_dofs_fit(nelx, nely, 0, i as int);
                    }
                    bc.fix_node(left[i]);
                }
                let tip = mesh.node_id(mesh.nelx, mesh.nely / 2);
                bc.apply_force_y(tip, UNIT_LOAD_DOWN_BITS);
            },
            LoadScenario::Bridge => {
                bc.fix_node(mesh.node_id(0, 0));
                bc.fix_node(mesh.node_id(mesh.nelx, 0));
                let top_mid = mesh.node_id(mesh.nelx / 2, mesh.nely);
                bc.apply_force_y(top_mid, UNIT_LOAD_DOWN_BITS);
            },
            LoadScenario::MbbBeam => {
                bc.fix_node_y(mesh.node_id(0, mesh.nely));
                bc.fix_node_y(mesh.node_id(mesh.nelx, 0));
                bc.apply_force_y(mesh.node_id(0, mesh.nely), UNIT_LOAD_DOWN_BITS);
            },
        }
        assert(bc.fixed_dofs@ =~= self.fixed_spec(nelx, nely));
        assert(bc.forces@ =~= self.forces_spec(nelx, nely));
        proof {
            lemma_clamp_column_entries(nelx, nely, 0, (nely + 1) as nat);
        }
        bc
    }
}

/// Entry `k` of the clamps of a column fixes, at `+0.0`, dof `k % 2` (x, then y) of the node of
/// row `k / 2` in that column.
proof fn lemma_clamp_column_entries(nelx: int, nely: int, col: int, rows: nat)
    requires
        grid_fits(nelx, nely),
        0 <= col <= nelx,
        rows <= nely + 1,
    ensures
        clamp_column(nelx, col, rows).len() == 2 * rows,
        forall|k: int|
            0 <= k < 2 * rows ==> (#[trigger] clamp_column(nelx, col, rows)[k]).0 == 2 * ((k / 2) * (nelx + 1) + col)
                + k % 2 && clamp_column(nelx, col, rows)[k].1 == ZERO_BITS,
    decreases rows,
{
    if rows > 0 {
        lemma_clamp_column_entries(nelx, nely, col, (rows - 1) as nat);
        lemma_node_dofs_fit(nelx, nely, col, rows - 1);
        let prev = clamp_column(nelx, col, (rows - 1) as nat);
        let all = clamp_column(nelx, col, rows);
        assert forall|k: int| 0 <= k < 2 * rows implies (#[trigger] all[k]).0 == 2 * ((k / 2) * (nelx + 1) + col)
            + k % 2 && all[k].1 == ZERO_BITS by {
            if k < 2 * (rows - 1) {
                assert(all[k] == prev[k]);
            } else {
                assert(k / 2 == rows - 1);
            }
        }
    }
}

/// The clamps of a column name only degrees of freedom of the grid.
proof fn lemma_clamp_column_in_grid(nelx: int, nely: int, col: int, rows: nat)
    requires
        grid_fits(nelx, nely),
        0 <= col <= nelx,
        rows <= nely + 1,
    ensures
        clamp_column(nelx, col, rows).len() == 2 * rows,
        all_in_range(clamp_column(nelx, col, rows), 2 * ((nelx + 1) * (nely + 1))),
    decreases rows,
{
    if rows > 0 {
        lemma_clamp_column_in_grid(nelx, nely, col, (rows - 1) as nat);
        lemma_node_in_grid(nelx, nely, col, rows - 1);
        let prev = clamp_column(nelx, col, (rows - 1) as nat);
        let all = clamp_column(nelx, col, rows);
        assert forall|i: int| 0 <= i < all.len() implies (#[trigger] all[i]).0 < 2 * ((nelx + 1) * (nely + 1)) by {
            if i < prev.len() {
                assert(all[i] == prev[i]);
            }
        }
    }
}

/// Node (`col`, `row`) of a grid that fits has both its degrees of freedom below the grid's count.
proof fn lemma_node_in_grid(nelx: int, nely: int, col: int, row: int)
    by (nonlinear_arith)
    requires
        grid_fits(nelx, nely),
        0 <= col <= nelx,
        0 <= row <= nely,
    ensures
        0 <= node_index(nelx, col, row),
        2 * node_index(nelx, col, row) + 1 < 2 * ((nelx + 1) * (nely + 1)),
{
    assert(row * (nelx + 1) + col < (row + 1) * (nelx + 1));
    assert((row + 1) * (nelx + 1) <= (nely + 1) * (nelx + 1));
}

/// Every predefined scenario only names degrees of freedom of the grid it is built for, so
/// the boundary-condition check of the solver accepts it on the regular grid of that size.
pub proof fn law_scenarios_fit_grid(s: LoadScenario, nelx: int, nely: int)
    requires
        grid_fits(nelx, nely),
    ensures
        all_in_range(s.fixed_spec(nelx, nely), 2 * ((nelx + 1) * (nely + 1))),
        all_in_range(s.forces_spec(nelx, nely), 2 * ((nelx + 1) * (nely + 1))),
{
    lemma_node_in_grid(nelx, nely, 0, 0);
    lemma_node_in_grid(nelx, nely, nelx, 0);
    lemma_node_in_grid(nelx, nely, 0, nely);
    lemma_node_in_grid(nelx, nely, nelx, nely / 2);
    lemma_node_in_grid(nelx, nely, nelx / 2, nely);
    lemma_node_dofs_fit(nelx, nely, 0, 0);
    lemma_node_dofs_fit(nelx, nely, nelx, 0);
    lemma_node_dofs_fit(nelx, nely, 0, nely);
    lemma_node_dofs_fit(nelx, nely, nelx, nely / 2);
    lemma_node_dofs_fit(nelx, nely, nelx / 2, nely);
    match s {
        LoadScenario::Cantilever => {
            lemma_clamp_column_in_grid(nelx, nely, 0, (nely + 1) as nat);
        },
        LoadScenario::Bridge => {
            let f = s.fixed_spec(nelx, nely);
            assert(f.len() == 4);
            assert forall|i: int| 0 <= i < f.len() implies (#[trigger] f[i]).0 < 2 * ((nelx + 1) * (nely + 1)) by {
                if i < 2 {
                    assert(f[i] == clamp_pairs(node_index(nelx, 0, 0))[i]);
                } else {
                    assert(f[i] == clamp_pairs(node_index(nelx, nelx, 0))[i - 2]);
                }
            }
        },
        LoadScenario::MbbBeam => {},
    }
}

/// The load of each scenario acts downward on the y dof of the node the scenario names: the
/// middle of the right edge for the cantilever, the middle of the top edge for the bridge, the
/// upper left corner for the MBB beam; the cantilever clamps every node of the left edge.
pub proof fn law_scenario_geometry(s: LoadScenario, nelx: int, nely: int)
    requires
        grid_fits(nelx, nely),
    ensures
        s.forces_spec(nelx, nely).len() == 1,
        s.forces_spec(nelx, nely)[0].1 == UNIT_LOAD_DOWN_BITS,
        s.forces_spec(nelx, nely)[0].0 as int % 2 == 1,
        ({
            let node = s.forces_spec(nelx, nely)[0].0 as int / 2;
            let (col, row) = (node % (nelx + 1), node / (nelx + 1));
            match s {
                LoadScenario::Cantilever => col == nelx && row == nely / 2,
                LoadScenario::Bridge => col == nelx / 2 && row == nely,
                LoadScenario::MbbBeam => col == 0 && row == nely,
            }
        }),
        s matches LoadScenario::Cantilever ==> forall|k: int|
            0 <= k < s.fixed_spec(nelx, nely).len() ==> ((#[trigger] s.fixed_spec(nelx, nely)[k]).0 as int / 2) % (nelx + 1)
                == 0 && (s.fixed_spec(nelx, nely)[k].0 as int / 2) / (nelx + 1) == k / 2 && s.fixed_spec(nelx, nely)[k].0
                as int % 2 == k % 2,
{
    let w = nelx + 1;
    let (col, row) = match s {
        LoadScenario::Cantilever => (nelx, nely / 2),
        LoadScenario::Bridge => (nelx / 2, nely),
        LoadScenario::MbbBeam => (0, nely),
    };
    lemma_node_dofs_fit(nelx, nely, col, row);
    let node = row * w + col;
    assert((2 * node + 1) / 2 == node && (2 * node + 1) % 2 == 1);
    vstd::arithmetic::div_mod::lemma_fundamental_div_mod_converse(node, w, row, col);
    match s {
        LoadScenario::Cantilever => {
            lemma_clamp_column_entries(nelx, nely, 0, (nely + 1) as nat);
            let f = s.fixed_spec(nelx, nely);
            assert forall|k: int| 0 <= k < f.len() implies ((#[trigger] f[k]).0 as int / 2) % w == 0 && (f[k].0 as int / 2) / w == k / 2
                && f[k].0 as int % 2 == k % 2 by {
                lemma_node_dofs_fit(nelx, nely, 0, k / 2);
                let nd = (k / 2) * w;
                assert((2 * nd + k % 2) / 2 == nd && (2 * nd + k % 2) % 2 == k % 2);
                vstd::arithmetic::div_mod::lemma_fundamental_div_mod_converse(nd, w, k / 2, 0);
            }
        },
        _ => {},
    }

}

/// Every node of a grid that fits has both its degrees of freedom counted by a `usize`.
proof fn lemma_node_dofs_fit(nelx: int, nely: int, col: int, row: int)
    by (nonlinear_arith)
    requires
        grid_fits(nelx, nely),
        0 <= col <= nelx,
        0 <= row <= nely,
    ensures
        0 <= node_index(nelx, col, row),
        2 * node_index(nelx, col, row) + 1 <= usize::MAX,
{
    assert(row * (nelx + 1) + col <= nely * (nelx + 1) + nelx);
}


/// Status of a job.
#[derive(Debug, Clone, PartialEq, Eq)]
pub enum JobStatus {
    Pending,
    Running,
    Done,
    Failed(String),
}

/// One job of the store. `Q` is the client's request, `P` a progress report of one
/// iteration, `R` the final result.
#[derive(Debug, Clone)]
pub struct Job<Q, P, R> {
    pub id: u128,
    pub status: JobStatus,
    pub request: Q,
    /// Latest iteration report (for polling clients).
    pub last_iteration: Option<P>,
    /// Final result, once the job is done.
    pub result: Option<R>,
}

/// The store of all jobs, keyed by their UUID (as a `u128`).
pub struct JobStore<Q, P, R> {
    jobs: std::collections::HashMap<u128, Job<Q, P, R>>,
}

/// A freshly created job.
pub open spec fn pending_job<Q, P, R>(id: u128, request: Q) -> Job<Q, P, R> {
    Job { id, status: JobStatus::Pending, request, last_iteration: None, result: None }
}

/// The store after the job `id`, if present, takes status `status`.
pub open spec fn with_status<Q, P, R>(m: Map<u128, Job<Q, P, R>>, id: u128, status: JobStatus) -> Map<
    u128,
    Job<Q, P, R>,
> {
    if m.contains_key(id) {
        m.insert(id, Job { status, ..m[id] })
    } else {
        m
    }
}

/// The store after the job `id`, if present, records `report` as its latest iteration.
pub open spec fn with_progress<Q, P, R>(m: Map<u128, Job<Q, P, R>>, id: u128, report: P) -> Map<
    u128,
    Job<Q, P, R>,
> {
    if m.contains_key(id) {
        m.insert(id, Job { last_iteration: Some(report), ..m[id] })
    } else {
        m
    }
}

/// The store after the job `id`, if present, is done with `result`.
pub open spec fn with_result<Q, P, R>(m: Map<u128, Job<Q, P, R>>, id: u128, result: R) -> Map<
    u128,
    Job<Q, P, R>,
> {
    if m.contains_key(id) {
        m.insert(id, Job { status: JobStatus::Done, result: Some(result), ..m[id] })
    } else {
        m
    }
}

/// `id` is the `u128` form of a version-4 UUID of the RFC 4122 variant.
pub open spec fn is_v4_uuid(id: u128) -> bool {
    &&& (id >> 76u128) & 0xfu128 == 4
    &&& (id >> 62u128) & 0x3u128 == 2
}

/// Draws a fresh job id: calls `uuid::Uuid::new_v4` and returns it as `Uuid::as_u128`.
/// The source builds the value from random bits, then sets the version nibble to 4 and the
/// variant bits to `10`; the contract claims that and nothing about the other bits, so two
/// calls may give any ids. (`new_v4` panics if the operating system's random source fails.)
#[verifier::external_body]
fn fresh_job_id() -> (id: u128)
    ensures
        is_v4_uuid(id),
{
    uuid::Uuid::new_v4().as_u128()
}

impl<Q, P, R> View for JobStore<Q, P, R> {
    type V = Map<u128, Job<Q, P, R>>;

    closed spec fn view(&self) -> Map<u128, Job<Q, P, R>> {
        self.jobs@
    }
}

impl<Q, P, R> JobStore<Q, P, R> {
    /// Every job is stored under its own id.
    #[verifier::type_invariant]
    closed spec fn ids_match_keys(&self) -> bool {
        forall|k: u128| #[trigger] self.jobs@.contains_key(k) ==> self.jobs@[k].id == k
    }

    /// Moves the map out of the store, leaving an empty one behind.
    fn take_jobs(&mut self) -> (jobs: std::collections::HashMap<u128, Job<Q, P, R>>)
        ensures
            jobs@ == old(self)@,
            final(self)@ == Map::<u128, Job<Q, P, R>>::empty(),
            forall|k: u128| #[trigger] jobs@.contains_key(k) ==> jobs@[k].id == k,
    {
        proof {
            use_type_invariant(&*self);
        }
        let mut jobs = std::collections::HashMap::new();
        std::mem::swap(&mut jobs, &mut self.jobs);
        jobs
    }

    pub fn new() -> (s: Self)
        ensures
            s@ == Map::<u128, Job<Q, P, R>>::empty(),
    {
        JobStore { jobs: std::collections::HashMap::new() }
    }

    /// Creates a pending job for `request` and returns its new id.
    pub fn create_job(&mut self, request: Q) -> (id: u128)
        ensures
            is_v4_uuid(id),
            final(self)@ == old(self)@.insert(id, pending_job(id, request)),
            final(self)@[id] == (Job::<Q, P, R> {
                id,
                status: JobStatus::Pending,
                request,
                last_iteration: None,
                result: None,
            }),
    {
        broadcast use vstd::std_specs::hash::group_hash_axioms;

        proof {
            use_type_invariant(&*self);
        }
        let id = fresh_job_id();
        let job = Job { id, status: JobStatus::Pending, request, last_iteration: None, result: None };
        let mut jobs = self.take_jobs();
        jobs.insert(id, job);
        self.jobs = jobs;
        id
    }

    /// The job with this id, if any.
    pub fn get_job(&self, id: u128) -> (r: Option<&Job<Q, P, R>>)
        ensures
            r is None <==> !self@.contains_key(id),
            r matches Some(j) ==> *j == self@[id] && j.id == id,
    {
        broadcast use vstd::std_specs::hash::group_hash_axioms;

        proof {
            use_type_invariant(self);
        }
        self.jobs.get(&id)
    }

    /// Marks the job as running; a missing id changes nothing.
    pub fn set_running(&mut self, id: u128)
        ensures
            final(self)@ == with_status(old(self)@, id, JobStatus::Running),
            final(self)@.dom() == old(self)@.dom(),
            forall|k: u128|
                k != id && #[trigger] old(self)@.contains_key(k) ==> final(self)@[k] == old(self)@[k],
            old(self)@.contains_key(id) ==> final(self)@[id] == (Job { status: JobStatus::Running, ..old(self)@[id] }),
    {
        self.set_status(id, JobStatus::Running)
    }

    /// Marks the job as failed with the given message; a missing id changes nothing.
    pub fn set_failed(&mut self, id: u128, error: String)
        ensures
            final(self)@ == with_status(old(self)@, id, JobStatus::Failed(error)),
            final(self)@.dom() == old(self)@.dom(),
            forall|k: u128|
                k != id && #[trigger] old(self)@.contains_key(k) ==> final(self)@[k] == old(self)@[k],
            old(self)@.contains_key(id) ==> final(self)@[id] == (Job { status: JobStatus::Failed(error), ..old(self)@[id] }),
    {
        self.set_status(id, JobStatus::Failed(error))
    }

    fn set_status(&mut self, id: u128, status: JobStatus)
        ensures
            final(self)@ == with_status(old(self)@, id, status),
            final(self)@.dom() == old(self)@.dom(),
            forall|k: u128|
                k != id && #[trigger] old(self)@.contains_key(k) ==> final(self)@[k] == old(self)@[k],
            old(self)@.contains_key(id) ==> final(self)@[id] == (Job { status, ..old(self)@[id] }),
    {
        broadcast use vstd::std_specs::hash::group_hash_axioms;

        proof {
            use_type_invariant(&*self);
        }
        let mut jobs = self.take_jobs();
        match jobs.remove(&id) {
            Some(job) => {
                let job = Job { status, ..job };
                jobs.insert(id, job);
                assert(jobs@ =~= with_status(old(self)@, id, status));
            },
            None => {
                assert(jobs@ =~= old(self)@);
            },
        }
        self.jobs = jobs;
    }

    /// Records the latest iteration report of the job; a missing id changes nothing.
    pub fn update_iteration(&mut self, id: u128, report: P)
        ensures
            final(self)@ == with_progress(old(self)@, id, report),
            final(self)@.dom() == old(self)@.dom(),
            forall|k: u128|
                k != id && #[trigger] old(self)@.contains_key(k) ==> final(self)@[k] == old(self)@[k],
            old(self)@.contains_key(id) ==> final(self)@[id] == (Job { last_iteration: Some(report), ..old(self)@[id] }),
    {
        broadcast use vstd::std_specs::hash::group_hash_axioms;

        proof {
            use_type_invariant(&*self);
        }
        let mut jobs = self.take_jobs();
        match jobs.remove(&id) {
            Some(job) => {
                let job = Job { last_iteration: Some(report), ..job };
                jobs.insert(id, job);
                assert(jobs@ =~= with_progress(old(self)@, id, report));
            },
            None => {
                assert(jobs@ =~= old(self)@);
            },
        }
        self.jobs = jobs;
    }

    /// Marks the job as done with its result; a missing id changes nothing.
    pub fn set_done(&mut self, id: u128, result: R)
        ensures
            final(self)@ == with_result(old(self)@, id, result),
            final(self)@.dom() == old(self)@.dom(),
            forall|k: u128|
                k != id && #[trigger] old(self)@.contains_key(k) ==> final(self)@[k] == old(self)@[k],
            old(self)@.contains_key(id) ==> final(self)@[id] == (Job { status: JobStatus::Done, result: Some(result), ..old(self)@[id] }),
    {
        broadcast use vstd::std_specs::hash::group_hash_axioms;

        proof {
            use_type_invariant(&*self);
        }
        let mut jobs = self.take_jobs();
        match jobs.remove(&id) {
            Some(job) => {
                let job = Job { status: JobStatus::Done, result: Some(result), ..job };
                jobs.insert(id, job);
                assert(jobs@ =~= with_result(old(self)@, id, result));
            },
            None => {
                assert(jobs@ =~= old(self)@);
            },
        }
        self.jobs = jobs;
    }

    /// Records how the optimisation of a job ended: done with its result, or failed with
    /// the error's message.
    pub fn finish(&mut self, id: u128, outcome: Result<R, String>)
        ensures
            final(self)@ == match outcome {
                Ok(result) => with_result(old(self)@, id, result),
                Err(error) => with_status(old(self)@, id, JobStatus::Failed(error)),
            },
            final(self)@.dom() == old(self)@.dom(),
            forall|k: u128|
                k != id && #[trigger] old(self)@.contains_key(k) ==> final(self)@[k] == old(self)@[k],
            old(self)@.contains_key(id) ==> final(self)@[id] == match outcome {
                Ok(result) => Job { status: JobStatus::Done, result: Some(result), ..old(self)@[id] },
                Err(error) => Job { status: JobStatus::Failed(error), ..old(self)@[id] },
            },
    {
        match outcome {
            Ok(result) => self.set_done(id, result),
            Err(error) => self.set_failed(id, error),
        }
    }
}

impl<Q, P, R> Default for JobStore<Q, P, R> {
    fn default() -> (s: Self)
        ensures
            s@ == Map::<u128, Job<Q, P, R>>::empty(),
    {
        Self::new()
    }
}

/// Each update of the store touches only the job it names: every other job, and the set
/// of ids, stay as they were.
pub proof fn law_updates_are_local<Q, P, R>(
    m: Map<u128, Job<Q, P, R>>,
    id: u128,
    other: u128,
    status: JobStatus,
    report: P,
    result: R,
)
    requires
        other != id,
    ensures
        with_status(m, id, status).dom() == m.dom(),
        with_progress(m, id, report).dom() == m.dom(),
        with_result(m, id, result).dom() == m.dom(),
        m.contains_key(other) ==> with_status(m, id, status)[other] == m[other],
        m.contains_key(other) ==> with_progress(m, id, report)[other] == m[other],
        m.contains_key(other) ==> with_result(m, id, result)[other] == m[other],
{
    assert(with_status(m, id, status).dom() =~= m.dom());
    assert(with_progress(m, id, report).dom() =~= m.dom());
    assert(with_result(m, id, result).dom() =~= m.dom());
}

/// A read of a job gives back what the last update wrote, and the rest of the job as it was:
/// a status update keeps request, report and result; a progress report keeps the status;
/// finishing sets status `Done` and the result together.
pub proof fn law_read_back<Q, P, R>(
    m: Map<u128, Job<Q, P, R>>,
    id: u128,
    status: JobStatus,
    report: P,
    result: R,
)
    requires
        m.contains_key(id),
    ensures
        with_status(m, id, status)[id] == (Job { status, ..m[id] }),
        with_progress(m, id, report)[id] == (Job { last_iteration: Some(report), ..m[id] }),
        with_result(m, id, result)[id] == (Job {
            status: JobStatus::Done,
            result: Some(result),
            ..m[id]
        }),
        m.insert(id, pending_job(id, m[id].request))[id].status == JobStatus::Pending,
{
}

} // verus!
