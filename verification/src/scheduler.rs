//! Sweeps over the mesh, and the worker that runs them and publishes what they yield.

use std::sync::atomic::AtomicBool;
use rand::seq::SliceRandom;
use vstd::prelude::*;
use crate::vec2::I64x2;
use crate::pixels::Image;
use crate::triangle::{Triangles, MeshView, well_shaped, all_vertices};
use crate::optimizer::{
    Candidate,
    Config,
    Scene,
    allowed_pick,
    candidates,
    optimize_one,
    optimized,
    lemma_search_keeps_mesh,
};

verus! {

#[verifier::external_type_specification]
#[verifier::external_body]
#[verifier::reject_recursive_types(T)]
pub struct ExSender<T>(flume::Sender<T>);

/// `flume::Sender::send`: hands a snapshot of the mesh with the number of its sweep to
/// the consumer, waiting while the queue is full. `false` says that the consumer is
/// gone; whether it is depends on the consumer alone.
#[verifier::external_body]
fn send_snapshot(queue: &flume::Sender<(usize, Triangles)>, iteration: usize, snapshot: Triangles) -> (sent:
    bool) {
    queue.send((iteration, snapshot)).is_ok()
}

/// `rand::seq::SliceRandom::shuffle` on the generator of the thread: the same
/// vertices in an order that chance decides.
#[verifier::external_body]
fn shuffle(verts: &mut Vec<(u32, u32, I64x2)>)
    ensures
        final(verts)@.to_multiset() == old(verts)@.to_multiset(),
{
    verts.shuffle(&mut rand::thread_rng());
}

/// Whether the consumer has asked the worker to stop.
fn cancelled(flag: &AtomicBool) -> bool {
    flag.load(std::sync::atomic::Ordering::Relaxed)
}

/// The mesh after the search has run for the first `n` vertices of `order`, one after
/// the other, where chance has picked `picks[k]` for the `k`-th of them.
pub open spec fn after_steps(
    s: Scene,
    v: MeshView,
    shift: i64,
    order: Seq<(u32, u32, I64x2)>,
    picks: Seq<Option<Candidate>>,
    n: int,
) -> MeshView
    decreases n,
{
    if n <= 0 {
        v
    } else {
        optimized(
            s,
            after_steps(s, v, shift, order, picks, n - 1),
            order[n - 1].0,
            order[n - 1].1,
            shift,
            picks[n - 1],
        )
    }
}

/// Each of the first `n` picks is one that chance may make at its step.
pub open spec fn allowed_picks(
    s: Scene,
    v: MeshView,
    shift: i64,
    randomness: usize,
    order: Seq<(u32, u32, I64x2)>,
    picks: Seq<Option<Candidate>>,
    n: int,
) -> bool {
    forall|k: int|
        0 <= k < n ==> allowed_pick(
            candidates(
                s,
                after_steps(s, v, shift, order, picks, k),
                order[k].0,
                order[k].1,
                shift,
            ),
            randomness,
            #[trigger] picks[k],
        )
}

/// `result` is the mesh `v` after the search has run for the first `n` vertices of
/// `order`, for some picks that chance may make.
pub open spec fn swept(
    s: Scene,
    v: MeshView,
    shift: i64,
    randomness: usize,
    order: Seq<(u32, u32, I64x2)>,
    n: int,
    result: MeshView,
) -> bool {
    exists|picks: Seq<Option<Candidate>>|
        picks.len() == n && allowed_picks(s, v, shift, randomness, order, picks, n) && result
            == #[trigger] after_steps(s, v, shift, order, picks, n)
}

/// No pick at any of `n` steps.
pub open spec fn no_picks(n: int) -> Seq<Option<Candidate>> {
    Seq::new(n as nat, |k: int| None::<Candidate>)
}

proof fn lemma_after_steps_prefix(
    s: Scene,
    v: MeshView,
    shift: i64,
    order: Seq<(u32, u32, I64x2)>,
    a: Seq<Option<Candidate>>,
    b: Seq<Option<Candidate>>,
    n: int,
)
    requires
        n <= a.len(),
        n <= b.len(),
        forall|k: int| 0 <= k < n ==> a[k] == b[k],
    ensures
        after_steps(s, v, shift, order, a, n) == after_steps(s, v, shift, order, b, n),
    decreases n,
{
    if n > 0 {
        lemma_after_steps_prefix(s, v, shift, order, a, b, n - 1);
    }
}

/// Every step of the search keeps the shape of the mesh.
pub proof fn lemma_after_steps_well_shaped(
    s: Scene,
    v: MeshView,
    shift: i64,
    order: Seq<(u32, u32, I64x2)>,
    picks: Seq<Option<Candidate>>,
    n: int,
)
    requires
        well_shaped(v),
    ensures
        well_shaped(after_steps(s, v, shift, order, picks, n)),
    decreases n,
{
    if n > 0 {
        lemma_after_steps_well_shaped(s, v, shift, order, picks, n - 1);
        let before = after_steps(s, v, shift, order, picks, n - 1);
        let x = order[n - 1].0;
        let y = order[n - 1].1;
        if !crate::triangle::is_edge(before, x as int, y as int) {
            crate::optimizer::lemma_interior_stored(before, x, y);
            lemma_search_keeps_mesh(s, before, x, y, shift, picks[n - 1]);
        }
    }
}

/// Runs the search for the vertices of `order`, one after the other, and stops after
/// the first vertex at which the consumer has asked to stop. Returns the number of
/// vertices for which it has run.
pub fn sweep_in_order(
    image: &Image,
    tris: &mut Triangles,
    order: &Vec<(u32, u32, I64x2)>,
    config: &Config,
    cancel: &AtomicBool,
) -> (done: usize)
    requires
        old(tris).wf(),
        config.wf(),
    ensures
        final(tris).wf(),
        done <= order@.len(),
        order@.len() > 0 ==> done > 0,
        swept(
            config.scene(*image),
            old(tris)@,
            config.shift,
            config.randomness,
            order@,
            done as int,
            final(tris)@,
        ),
        config.randomness == 0 ==> final(tris)@ == after_steps(
            config.scene(*image),
            old(tris)@,
            config.shift,
            order@,
            no_picks(done as int),
            done as int,
        ),
{
    let ghost scene = config.scene(*image);
    let ghost v = tris@;
    let ghost picks: Seq<Option<Candidate>> = Seq::empty();
    let mut i: usize = 0;
    while i < order.len()
        invariant_except_break
            i <= order@.len(),
        invariant
            tris.wf(),
            config.wf(),
            scene == config.scene(*image),
            picks.len() == i,
            i <= order@.len(),
            allowed_picks(scene, v, config.shift, config.randomness, order@, picks, i as int),
            tris@ == after_steps(scene, v, config.shift, order@, picks, i as int),
            config.randomness == 0 ==> picks =~= no_picks(i as int),
        ensures
            order@.len() > 0 ==> i > 0,
        decreases order@.len() - i,
    {
        let ghost before = tris@;
        let ghost old_picks = picks;
        let (x, y, _) = order[i];
        optimize_one(image, tris, (x, y), config);
        proof {
            let pick = choose|pick: Option<Candidate>|
                allowed_pick(
                    candidates(scene, before, x, y, config.shift),
                    config.randomness,
                    pick,
                ) && tris@ == #[trigger] optimized(scene, before, x, y, config.shift, pick);
            picks = old_picks.push(pick);
            assert forall|k: int| 0 <= k <= i implies after_steps(
                scene,
                v,
                config.shift,
                order@,
                picks,
                k,
            ) == after_steps(scene, v, config.shift, order@, old_picks, k) by {
                lemma_after_steps_prefix(scene, v, config.shift, order@, picks, old_picks, k);
            }
            assert forall|k: int| 0 <= k < i + 1 implies allowed_pick(
                candidates(
                    scene,
                    after_steps(scene, v, config.shift, order@, picks, k),
                    order@[k].0,
                    order@[k].1,
                    config.shift,
                ),
                config.randomness,
                #[trigger] picks[k],
            ) by {
                if k < i {
                    assert(picks[k] == old_picks[k]);
                }
            }
        }
        i += 1;
        if cancelled(cancel) {
            break ;
        }
    }
    i
}

/// `result` is the mesh `v` after a sweep: the search has run for its vertices one
/// after the other, in some order, for all of them if `completed` and else for some
/// of the first, and for the first in any case.
#[verifier::opaque]
pub open spec fn sweep_result(
    s: Scene,
    v: MeshView,
    shift: i64,
    randomness: usize,
    result: MeshView,
    completed: bool,
) -> bool {
    exists|order: Seq<(u32, u32, I64x2)>, n: int|
        order.to_multiset() == all_vertices(v).to_multiset() && 0 <= n <= order.len() && (completed
            <==> n == order.len()) && (order.len() > 0 ==> n >= 1) && #[trigger] swept(
            s,
            v,
            shift,
            randomness,
            order,
            n,
            result,
        )
}

/// One sweep: runs the search once for every vertex of the mesh, in an order that
/// chance decides, and stops after the first vertex at which the consumer has asked
/// to stop. Returns whether it has run for every vertex.
pub fn sweep(image: &Image, tris: &mut Triangles, config: &Config, cancel: &AtomicBool) -> (completed:
    bool)
    requires
        old(tris).wf(),
        config.wf(),
    ensures
        final(tris).wf(),
        sweep_result(
            config.scene(*image),
            old(tris)@,
            config.shift,
            config.randomness,
            final(tris)@,
            completed,
        ),
{
    let mut verts = tris.clone().into_iter_verts();
    shuffle(&mut verts);
    let done = sweep_in_order(image, tris, &verts, config, cancel);
    reveal(sweep_result);
    assert(swept(
        config.scene(*image),
        old(tris)@,
        config.shift,
        config.randomness,
        verts@,
        done as int,
        tris@,
    ));
    done == verts.len()
}

/// The sweep that makes the mesh `chain[i + 1]` of the mesh `chain[i]` has run for
/// every vertex.
pub open spec fn whole_sweep(s: Scene, shift: i64, randomness: usize, chain: Seq<MeshView>, i: int) -> bool {
    sweep_result(s, chain[i], shift, randomness, chain[i + 1], true)
}

/// `result` is the mesh `v` after `n` sweeps that have each run for every vertex:
/// there is a chain of meshes from `v` to `result`, each made of the one before it by
/// such a sweep.
pub open spec fn after_sweeps(
    s: Scene,
    v: MeshView,
    shift: i64,
    randomness: usize,
    n: nat,
    result: MeshView,
) -> bool {
    exists|chain: Seq<MeshView>|
        #![trigger chain.len()]
        chain.len() == n + 1 && chain[0] == v && chain[n as int] == result && forall|i: int|
            0 <= i < n ==> #[trigger] whole_sweep(s, shift, randomness, chain, i)
}

/// What follows a sweep.
#[derive(Debug, Clone, Copy, PartialEq, Eq, Structural)]
pub enum Verdict {
    /// Another sweep.
    Continue,
    /// The sweep has moved nothing, and the worker is to stop then.
    Converged,
    /// The sweeps asked for have been run.
    BudgetSpent,
    /// The sweep was cut short: the consumer has asked to stop.
    Cancelled,
    /// The queue has refused the sweep: the consumer is gone.
    Disconnected,
}

/// The number under which a sweep is published that follows `sweeps` whole sweeps:
/// the next number if it has run for every vertex, and none if it was cut short.
pub fn number_to_publish(sweeps: usize, completed: bool) -> (r: Option<usize>)
    requires
        sweeps < usize::MAX,
    ensures
        r == (if completed {
            Some((sweeps + 1) as usize)
        } else {
            None
        }),
{
    if completed {
        Some(sweeps + 1)
    } else {
        None
    }
}

/// What follows a sweep: the worker stops where the sweep was cut short, and where the
/// queue has refused it; then where it has left the mesh unchanged, if the worker is
/// to stop early; then where `iteration`, the number of whole sweeps with this one, has
/// reached the number of sweeps asked for.
pub open spec fn verdict(
    iteration: usize,
    completed: bool,
    accepted: bool,
    unchanged: bool,
    exit_early: bool,
    iterations: usize,
) -> Verdict {
    if !completed {
        Verdict::Cancelled
    } else if !accepted {
        Verdict::Disconnected
    } else if exit_early && unchanged {
        Verdict::Converged
    } else if iteration >= iterations {
        Verdict::BudgetSpent
    } else {
        Verdict::Continue
    }
}

/// What follows a sweep that has made `current` of `previous`: `completed` says whether
/// it has run for every vertex, `accepted` whether the queue has taken it, and
/// `iteration` is the number of whole sweeps with this one.
pub fn judge(
    iteration: usize,
    completed: bool,
    accepted: bool,
    current: &Triangles,
    previous: &Triangles,
    config: &Config,
) -> (r: Verdict)
    ensures
        r == verdict(
            iteration,
            completed,
            accepted,
            current@ == previous@,
            config.exit_early,
            config.iterations,
        ),
{
    if !completed {
        Verdict::Cancelled
    } else if !accepted {
        Verdict::Disconnected
    } else if config.exit_early && *current == *previous {
        Verdict::Converged
    } else if iteration >= config.iterations {
        Verdict::BudgetSpent
    } else {
        Verdict::Continue
    }
}

/// The number that is published in place of a sweep's to say that all further sweeps
/// would change nothing.
pub fn sentinel() -> (r: usize)
    ensures
        r == usize::MAX,
{
    usize::MAX
}

/// Why the worker has stopped.
#[derive(Debug, Clone, Copy, PartialEq, Eq, Structural)]
pub enum Exit {
    /// The sweeps asked for have been run.
    BudgetSpent,
    /// A sweep has moved nothing.
    Converged,
    /// The consumer has asked to stop.
    Cancelled,
    /// The consumer is gone.
    Disconnected,
}

/// What the worker leaves behind.
#[derive(Debug)]
pub struct Report {
    /// The number of sweeps that have been run to their end.
    pub sweeps: usize,
    /// Why the worker has stopped.
    pub exit: Exit,
    /// The mesh as the worker has left it.
    pub mesh: Triangles,
}

/// `log` is what a worker that leaves `sweeps`, `exit` and `mesh` behind has handed to
/// the queue, in order: for each whole sweep its number, counted from 1, with the mesh
/// as that sweep has left it; and after them, where the worker has stopped because a
/// sweep has moved nothing, the sentinel with the mesh once more. Nothing is handed
/// over for a sweep that was cut short.
pub open spec fn handed_over(
    s: Scene,
    v: MeshView,
    shift: i64,
    randomness: usize,
    log: Seq<(usize, MeshView)>,
    sweeps: usize,
    exit: Exit,
    mesh: MeshView,
) -> bool {
    &&& log.len() == sweeps + if exit == Exit::Converged {
        1int
    } else {
        0int
    }
    &&& forall|i: int|
        0 <= i < sweeps ==> (#[trigger] log[i]).0 == i + 1 && after_sweeps(
            s,
            v,
            shift,
            randomness,
            (i + 1) as nat,
            log[i].1,
        )
    &&& sweeps >= 1 && exit != Exit::Cancelled ==> log[sweeps - 1].1 == mesh
    &&& exit == Exit::Converged ==> log[sweeps as int] == (usize::MAX, mesh)
}

/// The worker: runs sweeps over the mesh and hands a snapshot of it to the queue after
/// each, with the number of the sweep, counted from 1. It stops when the sweeps asked
/// for have been run; when a sweep has moved nothing, if it is to stop then, after it
/// has handed over the snapshot once more with the sentinel in place of the number;
/// when the consumer asks to stop, without handing over the sweep at hand; and when
/// the queue refuses a snapshot because the consumer is gone.
///
/// Returns what it leaves behind, and beside it what it has handed to the queue. The
/// queue has taken all of that but, where the consumer is gone, the last.
pub fn run_worker(
    image: &Image,
    tris: Triangles,
    config: &Config,
    cancel: &AtomicBool,
    queue: &flume::Sender<(usize, Triangles)>,
) -> (r: (Report, Ghost<Seq<(usize, MeshView)>>))
    requires
        tris.wf(),
        config.wf(),
    ensures
        r.0.mesh.wf(),
        r.0.sweeps <= config.iterations,
        config.iterations == 0 ==> r.0.exit == Exit::BudgetSpent && r.0.mesh@ == tris@,
        r.0.exit == Exit::BudgetSpent ==> r.0.sweeps == config.iterations,
        r.0.exit == Exit::Disconnected ==> r.0.sweeps >= 1,
        r.0.exit == Exit::Cancelled ==> r.0.sweeps < config.iterations,
        r.0.exit == Exit::Converged ==> config.exit_early && r.0.sweeps >= 1 && after_sweeps(
            config.scene(*image),
            tris@,
            config.shift,
            config.randomness,
            (r.0.sweeps - 1) as nat,
            r.0.mesh@,
        ),
        r.0.exit != Exit::Cancelled ==> after_sweeps(
            config.scene(*image),
            tris@,
            config.shift,
            config.randomness,
            r.0.sweeps as nat,
            r.0.mesh@,
        ),
        r.0.exit == Exit::Cancelled ==> exists|before: MeshView| #[trigger]
            after_sweeps(
                config.scene(*image),
                tris@,
                config.shift,
                config.randomness,
                r.0.sweeps as nat,
                before,
            ) && sweep_result(
                config.scene(*image),
                before,
                config.shift,
                config.randomness,
                r.0.mesh@,
                false,
            ),
        handed_over(
            config.scene(*image),
            tris@,
            config.shift,
            config.randomness,
            r.1@,
            r.0.sweeps,
            r.0.exit,
            r.0.mesh@,
        ),
{
    let ghost scene = config.scene(*image);
    let ghost chain: Seq<MeshView> = seq![tris@];
    let ghost log: Seq<(usize, MeshView)> = Seq::empty();
    assert(after_sweeps(scene, tris@, config.shift, config.randomness, 0, tris@)) by {
        assert(chain.len() == 1);
    }
    let mut mesh = tris;
    let mut last_tris = mesh.clone();
    let mut iteration: usize = 0;
    while iteration < config.iterations
        invariant
            mesh.wf(),
            config.wf(),
            scene == config.scene(*image),
            iteration <= config.iterations,
            chain.len() == iteration + 1,
            chain[0] == tris@,
            chain[iteration as int] == mesh@,
            forall|i: int|
                0 <= i < iteration ==> #[trigger] whole_sweep(
                    scene,
                    config.shift,
                    config.randomness,
                    chain,
                    i,
                ),
            after_sweeps(scene, tris@, config.shift, config.randomness, iteration as nat, mesh@),
            config.exit_early && iteration < config.iterations ==> last_tris@ == mesh@,
            log.len() == iteration,
            forall|i: int|
                0 <= i < iteration ==> (#[trigger] log[i]).0 == i + 1 && after_sweeps(
                    scene,
                    tris@,
                    config.shift,
                    config.randomness,
                    (i + 1) as nat,
                    log[i].1,
                ),
            iteration >= 1 ==> log[iteration - 1].1 == mesh@,
        decreases config.iterations - iteration,
    {
        let ghost before = mesh@;
        let completed = sweep(image, &mut mesh, config, cancel);
        let accepted = match number_to_publish(iteration, completed) {
            Some(number) => {
                iteration = number;
                proof {
                    let longer = chain.push(mesh@);
                    assert forall|i: int| 0 <= i < iteration implies #[trigger] whole_sweep(
                        scene,
                        config.shift,
                        config.randomness,
                        longer,
                        i,
                    ) by {
                        if i < iteration - 1 {
                            assert(whole_sweep(scene, config.shift, config.randomness, chain, i));
                        }
                    }
                    chain = longer;
                    assert(chain.len() == iteration + 1);
                    assert(chain[0] == tris@);
                    assert(chain[iteration as int] == mesh@);
                    assert(whole_sweep(
                        scene,
                        config.shift,
                        config.randomness,
                        chain,
                        iteration - 1,
                    ));
                    assert(after_sweeps(
                        scene,
                        tris@,
                        config.shift,
                        config.randomness,
                        iteration as nat,
                        mesh@,
                    ));
                    log = log.push((number, mesh@));
                }
                send_snapshot(queue, number, mesh.clone())
            },
            None => {
                assert(after_sweeps(
                    scene,
                    tris@,
                    config.shift,
                    config.randomness,
                    iteration as nat,
                    before,
                ));
                false
            },
        };
        match judge(iteration, completed, accepted, &mesh, &last_tris, config) {
            Verdict::Cancelled => {
                assert(after_sweeps(
                    scene,
                    tris@,
                    config.shift,
                    config.randomness,
                    iteration as nat,
                    before,
                ) && sweep_result(
                    scene,
                    before,
                    config.shift,
                    config.randomness,
                    mesh@,
                    false,
                ));
                return (Report { sweeps: iteration, exit: Exit::Cancelled, mesh }, Ghost(log));
            },
            Verdict::Disconnected => {
                return (Report { sweeps: iteration, exit: Exit::Disconnected, mesh }, Ghost(log));
            },
            Verdict::Converged => {
                proof {
                    log = log.push((usize::MAX, mesh@));
                }
                send_snapshot(queue, sentinel(), mesh.clone());
                return (Report { sweeps: iteration, exit: Exit::Converged, mesh }, Ghost(log));
            },
            Verdict::BudgetSpent => {},
            Verdict::Continue => {
                if config.exit_early {
                    last_tris = mesh.clone();
                }
            },
        }
    }
    (Report { sweeps: iteration, exit: Exit::BudgetSpent, mesh }, Ghost(log))
}

} // verus!
