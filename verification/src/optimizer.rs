//! The local search that moves one vertex of the mesh to a better place.

use std::cmp::Ordering;
use rand::Rng;
use rand::seq::SliceRandom;
use vstd::prelude::*;
use crate::vec2::I64x2;
use crate::pixels::Image;
use crate::triangle::{
    Triangle,
    Triangles,
    MeshView,
    faces,
    in_buffer,
    is_edge,
    well_shaped,
    with_vertex,
    lemma_with_vertex_keeps_lattice,
};
use crate::scoring::{
    ScoreWrapper,
    ScoringScheme,
    compare,
    group_score,
    inside,
    point_in_triangle,
    scheme_of,
    score_for_group,
};
use crate::scoring::avg_with_shape_weight::ShapeWeights;

verus! {

/// The number of moves that are tried for a vertex: four lengths in each of eight
/// directions.
pub const MOVES: usize = 32;

/// The greatest step: four steps then fit in `i64`.
pub const MAX_SHIFT: i64 = 0x1fff_ffff_ffff_ffff;

/// What the search is run with.
#[derive(Debug)]
pub struct Config {
    /// The spacing of the mesh.
    pub tri_size: i64,
    /// The number of sweeps to run.
    pub iterations: usize,
    /// The length of the shortest move.
    pub shift: i64,
    /// One move in this many is random; 0 for none. More than `u32::MAX` counts as
    /// `u32::MAX`.
    pub randomness: usize,
    /// Stop when a sweep has moved nothing.
    pub exit_early: bool,
    /// The scheme that scores the faces.
    pub scoring: ScoringScheme,
    /// The curve of the shape-weighted scheme.
    pub weights: ShapeWeights,
}

impl Config {
    /// The step is small enough and the curve usable.
    pub open spec fn wf(&self) -> bool {
        &&& -MAX_SHIFT <= self.shift <= MAX_SHIFT
        &&& self.weights.wf()
    }
}

/// The `k`-th compass direction: up, then clockwise.
pub open spec fn direction(k: int) -> (int, int) {
    if k == 0 {
        (0, 1)
    } else if k == 1 {
        (1, 1)
    } else if k == 2 {
        (1, 0)
    } else if k == 3 {
        (1, -1)
    } else if k == 4 {
        (0, -1)
    } else if k == 5 {
        (-1, -1)
    } else if k == 6 {
        (-1, 0)
    } else {
        (-1, 1)
    }
}

/// The `j`-th move: direction `j / 4`, and `j % 4 + 1` steps of length `shift`.
pub open spec fn displacement(shift: i64, j: int) -> (int, int) {
    let d = direction(j / 4);
    let steps = j % 4 + 1;
    (d.0 * shift * steps, d.1 * shift * steps)
}

/// `pt` lies in one of the faces.
pub open spec fn inside_any(pt: I64x2, group: Seq<Triangle>) -> bool {
    exists|i: int| 0 <= i < group.len() && inside(pt, #[trigger] group[i].0, group[i].1, group[i].2)
}

/// Where the vertex at `(x, y)` comes to lie when moved by `d`, if that is a position.
pub open spec fn displaced(v: MeshView, x: u32, y: u32, d: (int, int)) -> Option<I64x2> {
    let p = v.rows[y as int][x as int];
    if i64::MIN <= p.x + d.0 <= i64::MAX && i64::MIN <= p.y + d.1 <= i64::MAX {
        Some(I64x2 { x: (p.x + d.0) as i64, y: (p.y + d.1) as i64 })
    } else {
        None
    }
}

/// The move `d` of the vertex at `(x, y)` is feasible: it leaves the vertex in one of
/// the faces that lie around it before the move.
pub open spec fn feasible(v: MeshView, x: u32, y: u32, d: (int, int)) -> bool {
    match displaced(v, x, y, d) {
        Some(p) => inside_any(p, faces(v, x, y)),
        None => false,
    }
}

/// A feasible move with the score that the faces around the vertex have after it.
#[derive(Debug, Clone, Copy, PartialEq, Eq, Structural)]
pub struct Candidate {
    pub dx: i64,
    pub dy: i64,
    pub score: ScoreWrapper,
}

/// What scores are taken over: the image and the settings that bear on scores.
pub struct Scene {
    pub img: Image,
    pub tri_size: i64,
    pub scheme: ScoringScheme,
    pub table: Seq<i64>,
}

/// The score of the faces around `(x, y)`.
pub open spec fn local_score(s: Scene, v: MeshView, x: u32, y: u32) -> ScoreWrapper {
    group_score(s.img, faces(v, x, y), s.tri_size, s.scheme, s.table)
}

/// The `j`-th move as a candidate, where it is feasible.
pub open spec fn candidate(s: Scene, v: MeshView, x: u32, y: u32, shift: i64, j: int) -> Option<
    Candidate,
> {
    let d = displacement(shift, j);
    if feasible(v, x, y, d) {
        Some(
            Candidate {
                dx: d.0 as i64,
                dy: d.1 as i64,
                score: local_score(
                    s,
                    with_vertex(v, x as int, y as int, displaced(v, x, y, d).unwrap()),
                    x,
                    y,
                ),
            },
        )
    } else {
        None
    }
}

/// The candidates among the first `k` moves, in order.
pub open spec fn candidates_upto(s: Scene, v: MeshView, x: u32, y: u32, shift: i64, k: int) -> Seq<
    Candidate,
>
    decreases k,
{
    if k <= 0 {
        Seq::empty()
    } else {
        let before = candidates_upto(s, v, x, y, shift, k - 1);
        match candidate(s, v, x, y, shift, k - 1) {
            Some(c) => before.push(c),
            None => before,
        }
    }
}

/// The candidates for the vertex at `(x, y)`: its feasible moves, in order.
pub open spec fn candidates(s: Scene, v: MeshView, x: u32, y: u32, shift: i64) -> Seq<Candidate> {
    candidates_upto(s, v, x, y, shift, MOVES as int)
}

/// `i` is the index of the best candidate: none is better, and each before it is worse.
pub open spec fn is_best(cands: Seq<Candidate>, i: int) -> bool {
    &&& 0 <= i < cands.len()
    &&& forall|j: int|
        0 <= j < cands.len() ==> compare(#[trigger] cands[j].score, cands[i].score)
            != Ordering::Greater
    &&& forall|j: int|
        0 <= j < i ==> compare(#[trigger] cands[j].score, cands[i].score) == Ordering::Less
}

/// The move that is made: none where there is no candidate; the random pick where
/// there is one, whatever its score; else the best candidate, where it is better
/// than the score before the move.
pub open spec fn decided(
    cands: Seq<Candidate>,
    best: int,
    before_move: ScoreWrapper,
    random_pick: Option<Candidate>,
) -> Option<Candidate> {
    if cands.len() == 0 {
        None
    } else {
        match random_pick {
            Some(c) => Some(c),
            None => if compare(cands[best].score, before_move) == Ordering::Greater {
                Some(cands[best])
            } else {
                None
            },
        }
    }
}

/// The mesh after the move `c`, or as it is where there is none.
pub open spec fn moved(v: MeshView, x: u32, y: u32, c: Option<Candidate>) -> MeshView {
    match c {
        Some(c) => {
            let p = v.rows[y as int][x as int];
            with_vertex(
                v,
                x as int,
                y as int,
                I64x2 { x: (p.x + c.dx) as i64, y: (p.y + c.dy) as i64 },
            )
        },
        None => v,
    }
}

impl Config {
    /// What scores are taken over with these settings and the image `img`.
    pub open spec fn scene(&self, img: Image) -> Scene {
        Scene { img, tri_size: self.tri_size, scheme: self.scoring, table: self.weights@ }
    }
}

fn direction_at(k: usize) -> (r: (i64, i64))
    requires
        k < 8,
    ensures
        r.0 == direction(k as int).0,
        r.1 == direction(k as int).1,
{
    if k == 0 {
        (0, 1)
    } else if k == 1 {
        (1, 1)
    } else if k == 2 {
        (1, 0)
    } else if k == 3 {
        (1, -1)
    } else if k == 4 {
        (0, -1)
    } else if k == 5 {
        (-1, -1)
    } else if k == 6 {
        (-1, 0)
    } else {
        (-1, 1)
    }
}

fn move_at(shift: i64, j: usize) -> (r: (i64, i64))
    requires
        j < MOVES,
        -MAX_SHIFT <= shift <= MAX_SHIFT,
    ensures
        r.0 == displacement(shift, j as int).0,
        r.1 == displacement(shift, j as int).1,
{
    let d = direction_at(j / 4);
    let steps: i64 = (j % 4) as i64 + 1;
    assert(-MAX_SHIFT <= d.0 * shift <= MAX_SHIFT && -MAX_SHIFT <= d.1 * shift <= MAX_SHIFT)
        by (nonlinear_arith)
        requires
            -1 <= d.0 <= 1,
            -1 <= d.1 <= 1,
            -MAX_SHIFT <= shift <= MAX_SHIFT,
    ;
    let sx: i64 = d.0 * shift;
    let sy: i64 = d.1 * shift;
    assert(-4 * MAX_SHIFT <= sx * steps <= 4 * MAX_SHIFT && -4 * MAX_SHIFT <= sy * steps <= 4
        * MAX_SHIFT) by (nonlinear_arith)
        requires
            1 <= steps <= 4,
            -MAX_SHIFT <= sx <= MAX_SHIFT,
            -MAX_SHIFT <= sy <= MAX_SHIFT,
    ;
    (sx * steps, sy * steps)
}

fn in_any_face(pt: I64x2, group: &Vec<Triangle>) -> (r: bool)
    ensures
        r == inside_any(pt, group@),
{
    let mut i: usize = 0;
    while i < group.len()
        invariant
            i <= group@.len(),
            forall|k: int| 0 <= k < i ==> !inside(pt, #[trigger] group@[k].0, group@[k].1, group@[k].2),
        decreases group@.len() - i,
    {
        if point_in_triangle(pt, group[i].0, group[i].1, group[i].2) {
            return true;
        }
        i += 1;
    }
    false
}

/// The feasible moves of the vertex at `xy`, each with the score that the faces around
/// the vertex have after it, in the order of the moves. The mesh is left as it was.
pub fn evaluate_candidates(
    image: &Image,
    tris: &mut Triangles,
    xy: (u32, u32),
    config: &Config,
) -> (r: Vec<Candidate>)
    requires
        old(tris).wf(),
        in_buffer(old(tris)@, xy.0 as int, xy.1 as int),
        config.wf(),
    ensures
        final(tris)@ == old(tris)@,
        r@ == candidates(config.scene(*image), old(tris)@, xy.0, xy.1, config.shift),
        scored_by(r@, config.scoring),
        all_feasible(r@, old(tris)@, xy.0, xy.1),
{
    let ghost v = tris@;
    let ghost scene = config.scene(*image);
    let group = tris.triangles_around_point(xy.0, xy.1);
    let before_move = *tris.get_vert(xy.0, xy.1);
    let mut out: Vec<Candidate> = Vec::new();
    let mut j: usize = 0;
    while j < MOVES
        invariant
            j <= MOVES,
            tris@ == v,
            well_shaped(v),
            in_buffer(v, xy.0 as int, xy.1 as int),
            config.wf(),
            scene == config.scene(*image),
            group@ == faces(v, xy.0, xy.1),
            before_move == v.rows[xy.1 as int][xy.0 as int],
            out@ == candidates_upto(scene, v, xy.0, xy.1, config.shift, j as int),
            scored_by(out@, config.scoring),
            all_feasible(out@, v, xy.0, xy.1),
        decreases MOVES - j,
    {
        let d = move_at(config.shift, j);
        let ghost dd = displacement(config.shift, j as int);
        assert(dd == (d.0 as int, d.1 as int));
        match before_move.checked_add(I64x2::new(d.0, d.1)) {
            Some(target) => {
                assert(displaced(v, xy.0, xy.1, dd) == Some(target));
                if in_any_face(target, &group) {
                    tris.set_vert(xy.0, xy.1, target);
                    proof {
                        lemma_with_vertex_keeps_lattice(v, xy.0 as int, xy.1 as int, target);
                    }
                    let after = tris.triangles_around_point(xy.0, xy.1);
                    let score = score_for_group(
                        image,
                        &after,
                        config.tri_size,
                        config.scoring,
                        &config.weights,
                    );
                    tris.set_vert(xy.0, xy.1, before_move);
                    proof {
                        let w = with_vertex(v, xy.0 as int, xy.1 as int, target);
                        assert(w.rows[xy.1 as int].update(xy.0 as int, before_move)
                            =~= v.rows[xy.1 as int]);
                        assert(with_vertex(w, xy.0 as int, xy.1 as int, before_move).rows =~= v.rows);
                    }
                    out.push(Candidate { dx: d.0, dy: d.1, score });
                }
            },
            None => {
                assert(displaced(v, xy.0, xy.1, dd).is_none());
            },
        }
        j += 1;
    }
    out
}

/// Every candidate is a feasible move of the vertex at `(x, y)`.
pub open spec fn all_feasible(cands: Seq<Candidate>, v: MeshView, x: u32, y: u32) -> bool {
    forall|i: int|
        0 <= i < cands.len() ==> feasible(v, x, y, ((#[trigger] cands[i]).dx as int, cands[i].dy as int))
}

/// The index of the best candidate.
pub open spec fn best_index(cands: Seq<Candidate>) -> int {
    choose|i: int| is_best(cands, i)
}

/// All candidates carry scores of the scheme `scheme`.
pub open spec fn scored_by(cands: Seq<Candidate>, scheme: ScoringScheme) -> bool {
    forall|i: int| 0 <= i < cands.len() ==> scheme_of(#[trigger] cands[i].score) == scheme
}

/// Among candidates of one scheme only one index is that of the best.
pub proof fn lemma_best_unique(cands: Seq<Candidate>, scheme: ScoringScheme, a: int, b: int)
    requires
        scored_by(cands, scheme),
        is_best(cands, a),
        is_best(cands, b),
    ensures
        a == b,
{
    if a < b {
        assert(compare(cands[a].score, cands[b].score) == Ordering::Less);
        assert(compare(cands[b].score, cands[a].score) != Ordering::Greater);
    } else if b < a {
        assert(compare(cands[b].score, cands[a].score) == Ordering::Less);
        assert(compare(cands[a].score, cands[b].score) != Ordering::Greater);
    }
}

/// The score of the candidate at index `i`.
pub open spec fn score_at(cands: Seq<Candidate>, i: usize) -> ScoreWrapper {
    cands[i as int].score
}

/// `i` is the index of the best candidate.
pub open spec fn best_at(cands: Seq<Candidate>, i: usize) -> bool {
    is_best(cands, i as int)
}

proof fn lemma_best_is_choice(cands: Seq<Candidate>, scheme: ScoringScheme, i: usize)
    requires
        scored_by(cands, scheme),
        best_at(cands, i),
    ensures
        i == best_index(cands),
{
    lemma_best_unique(cands, scheme, i as int, best_index(cands));
}

/// The index of the best candidate: the first of those that no other is better than.
/// `None` where there is no candidate.
pub fn best_candidate(cands: &Vec<Candidate>, scheme: ScoringScheme) -> (r: Option<usize>)
    requires
        scored_by(cands@, scheme),
    ensures
        r.is_none() <==> cands@.len() == 0,
        r matches Some(i) ==> best_at(cands@, i) && i == best_index(cands@),
{
    if cands.len() == 0 {
        return None;
    }
    let mut best: usize = 0;
    let mut i: usize = 1;
    while i < cands.len()
        invariant
            1 <= i <= cands@.len(),
            scored_by(cands@, scheme),
            best < i,
            forall|j: int|
                0 <= j < i ==> compare(#[trigger] cands@[j].score, score_at(cands@, best))
                    != Ordering::Greater,
            forall|j: int|
                0 <= j < best ==> compare(#[trigger] cands@[j].score, score_at(cands@, best))
                    == Ordering::Less,
        decreases cands@.len() - i,
    {
        let ghost prev = score_at(cands@, best);
        let ghost next = score_at(cands@, i);
        let better = cands[i].score.cmp(&cands[best].score);
        match better {
            Ordering::Greater => {
                best = i;
            },
            _ => {},
        }
        proof {
            let top = score_at(cands@, best);
            assert(compare(next, top) != Ordering::Greater);
            assert forall|j: int| 0 <= j < i + 1 implies compare(#[trigger] cands@[j].score, top)
                != Ordering::Greater by {
                if j < i {
                    assert(compare(cands@[j].score, prev) != Ordering::Greater);
                }
            }
            assert forall|j: int| 0 <= j < best implies compare(#[trigger] cands@[j].score, top)
                == Ordering::Less by {
                assert(compare(cands@[j].score, prev) != Ordering::Greater);
            }
        }
        i += 1;
    }
    proof {
        lemma_best_is_choice(cands@, scheme, best);
    }
    Some(best)
}

/// `rand::Rng::gen_ratio` on the generator of the thread, with numerator 1: `true` with
/// a chance of one in `denominator`, and always where `denominator` is 1. It panics on
/// a `denominator` of 0.
#[verifier::external_body]
fn one_in(denominator: u32) -> (r: bool)
    requires
        denominator >= 1,
    ensures
        denominator == 1 ==> r,
{
    rand::thread_rng().gen_ratio(1, denominator)
}

/// `rand::seq::SliceRandom::choose` on the generator of the thread: one of the
/// candidates, or `None` where there is none.
#[verifier::external_body]
fn choose_one(cands: &Vec<Candidate>) -> (r: Option<Candidate>)
    ensures
        r.is_some() <==> cands@.len() > 0,
        r matches Some(c) ==> cands@.contains(c),
{
    cands.choose(&mut rand::thread_rng()).copied()
}

/// The number in which the chance of a random move is one: `randomness`, cut to
/// `u32::MAX`.
pub open spec fn chance_denominator(randomness: usize) -> u32 {
    if randomness > u32::MAX {
        u32::MAX
    } else {
        randomness as u32
    }
}

/// The number in which the chance of a random move is one.
pub fn cut_denominator(randomness: usize) -> (r: u32)
    ensures
        r == chance_denominator(randomness),
{
    if randomness > u32::MAX as usize {
        u32::MAX
    } else {
        randomness as u32
    }
}

/// The candidate that chance puts in place of the best: with a chance of one in
/// `randomness` one of the candidates, each as likely as the other; else, and always
/// where `randomness` is 0, none. A `randomness` above `u32::MAX` counts as `u32::MAX`:
/// the chance is then one in `u32::MAX`.
pub fn random_pick(cands: &Vec<Candidate>, randomness: usize) -> (r: Option<Candidate>)
    ensures
        allowed_pick(cands@, randomness, r),
{
    if randomness == 0 {
        return None;
    }
    if one_in(cut_denominator(randomness)) {
        choose_one(cands)
    } else {
        None
    }
}

proof fn lemma_contains_at(cands: Seq<Candidate>, i: usize)
    requires
        i < cands.len(),
    ensures
        cands.contains(cands[i as int]),
{
}

/// The move that is made for a vertex with the candidates `cands`, before which the
/// faces around it score `before_move`, where chance has picked `random_pick`.
pub fn choose_move(
    cands: &Vec<Candidate>,
    scheme: ScoringScheme,
    before_move: ScoreWrapper,
    random_pick: Option<Candidate>,
) -> (r: Option<Candidate>)
    requires
        scored_by(cands@, scheme),
        scheme_of(before_move) == scheme,
    ensures
        r == decided(cands@, best_index(cands@), before_move, random_pick),
        r matches Some(m) ==> random_pick == Some(m) || cands@.contains(m),
{
    match best_candidate(cands, scheme) {
        None => None,
        Some(best) => {
            assert(scheme_of(score_at(cands@, best)) == scheme);
            proof {
                lemma_contains_at(cands@, best);
            }
            match random_pick {
                Some(c) => Some(c),
                None => {
                    match cands[best].score.cmp(&before_move) {
                        Ordering::Greater => Some(cands[best]),
                        _ => None,
                    }
                },
            }
        },
    }
}

/// Moves the vertex at `xy` as `c` says.
pub fn apply_move(tris: &mut Triangles, xy: (u32, u32), c: Option<Candidate>)
    requires
        in_buffer(old(tris)@, xy.0 as int, xy.1 as int),
        c matches Some(m) ==> displaced(old(tris)@, xy.0, xy.1, (m.dx as int, m.dy as int)).is_some(),
    ensures
        final(tris)@ == moved(old(tris)@, xy.0, xy.1, c),
{
    match c {
        Some(m) => {
            let p = *tris.get_vert(xy.0, xy.1);
            tris.set_vert(xy.0, xy.1, I64x2::new(p.x + m.dx, p.y + m.dy));
        },
        None => {},
    }
}

/// What chance may pick among the candidates: where `randomness` is 0 nothing, where
/// it is 1 always one of them, else one of them or nothing.
pub open spec fn allowed_pick(cands: Seq<Candidate>, randomness: usize, pick: Option<Candidate>) -> bool {
    match pick {
        Some(c) => randomness != 0 && cands.contains(c),
        None => randomness != 1 || cands.len() == 0,
    }
}

/// The mesh after the search for the vertex at `(x, y)`, where chance has picked
/// `random_pick`: a pinned vertex stays; another moves as `decided` says.
pub open spec fn optimized(
    s: Scene,
    v: MeshView,
    x: u32,
    y: u32,
    shift: i64,
    random_pick: Option<Candidate>,
) -> MeshView {
    if is_edge(v, x as int, y as int) {
        v
    } else {
        let cands = candidates(s, v, x, y, shift);
        moved(v, x, y, decided(cands, best_index(cands), local_score(s, v, x, y), random_pick))
    }
}

/// A vertex that is not pinned is stored.
pub proof fn lemma_interior_stored(v: MeshView, x: u32, y: u32)
    requires
        well_shaped(v),
        !is_edge(v, x as int, y as int),
    ensures
        in_buffer(v, x as int, y as int),
{
    assert(v.rows[y as int].len() == crate::triangle::row_len(crate::triangle::extent(v).0, y as int));
}

/// Finds a better place for the vertex at `xy` and moves it there: a pinned vertex
/// stays where it is; for another, the best feasible move is made if it betters the
/// score of the faces around the vertex, or a random feasible move where chance
/// says so.
pub fn optimize_one(image: &Image, tris: &mut Triangles, xy: (u32, u32), config: &Config)
    requires
        old(tris).wf(),
        config.wf(),
    ensures
        final(tris).wf(),
        exists|pick: Option<Candidate>|
            allowed_pick(
                candidates(config.scene(*image), old(tris)@, xy.0, xy.1, config.shift),
                config.randomness,
                pick,
            ) && final(tris)@ == #[trigger] optimized(
                config.scene(*image),
                old(tris)@,
                xy.0,
                xy.1,
                config.shift,
                pick,
            ),
        config.randomness == 0 ==> final(tris)@ == optimized(
            config.scene(*image),
            old(tris)@,
            xy.0,
            xy.1,
            config.shift,
            None,
        ),
{
    if tris.vert_is_edge(xy.0, xy.1) {
        proof {
            let cands = candidates(config.scene(*image), tris@, xy.0, xy.1, config.shift);
            let pick: Option<Candidate> = if config.randomness == 1 && cands.len() > 0 {
                Some(cands[0])
            } else {
                None
            };
            assert(allowed_pick(cands, config.randomness, pick));
            assert(tris@ == optimized(
                config.scene(*image),
                tris@,
                xy.0,
                xy.1,
                config.shift,
                pick,
            ));
        }
        return ;
    }
    proof {
        lemma_interior_stored(tris@, xy.0, xy.1);
    }
    let ghost v = tris@;
    let group = tris.triangles_around_point(xy.0, xy.1);
    let score_before = score_for_group(
        image,
        &group,
        config.tri_size,
        config.scoring,
        &config.weights,
    );
    let cands = evaluate_candidates(image, tris, xy, config);
    let pick = random_pick(&cands, config.randomness);
    let chosen = choose_move(&cands, config.scoring, score_before, pick);
    proof {
        if chosen.is_some() {
            let m = chosen.unwrap();
            assert(cands@.contains(m));
            let i = choose|i: int| 0 <= i < cands@.len() && cands@[i] == m;
            assert(feasible(v, xy.0, xy.1, (cands@[i].dx as int, cands@[i].dy as int)));
            let p = v.rows[xy.1 as int][xy.0 as int];
            lemma_with_vertex_keeps_lattice(
                v,
                xy.0 as int,
                xy.1 as int,
                I64x2 { x: (p.x + m.dx) as i64, y: (p.y + m.dy) as i64 },
            );
        }
    }
    apply_move(tris, xy, chosen);
    proof {
        assert(tris@ == optimized(config.scene(*image), v, xy.0, xy.1, config.shift, pick));
    }
}

proof fn lemma_displacement_fits(shift: i64, j: int)
    requires
        -MAX_SHIFT <= shift <= MAX_SHIFT,
        0 <= j,
    ensures
        i64::MIN <= displacement(shift, j).0 <= i64::MAX,
        i64::MIN <= displacement(shift, j).1 <= i64::MAX,
{
    let d = direction(j / 4);
    let steps = j % 4 + 1;
    assert(-4 * MAX_SHIFT <= d.0 * shift * steps <= 4 * MAX_SHIFT && -4 * MAX_SHIFT <= d.1 * shift
        * steps <= 4 * MAX_SHIFT) by (nonlinear_arith)
        requires
            -1 <= d.0 <= 1,
            -1 <= d.1 <= 1,
            1 <= steps <= 4,
            -MAX_SHIFT <= shift <= MAX_SHIFT,
    ;
}

/// Every candidate among the first `k` moves is a feasible move, and its score is the
/// score of the faces around the vertex after that move.
pub proof fn lemma_candidates_upto(s: Scene, v: MeshView, x: u32, y: u32, shift: i64, k: int, i: int)
    requires
        -MAX_SHIFT <= shift <= MAX_SHIFT,
        0 <= i < candidates_upto(s, v, x, y, shift, k).len(),
    ensures
        ({
            let c = candidates_upto(s, v, x, y, shift, k)[i];
            &&& feasible(v, x, y, (c.dx as int, c.dy as int))
            &&& c.score == local_score(s, moved(v, x, y, Some(c)), x, y)
            &&& scheme_of(c.score) == s.scheme
        }),
    decreases k,
{
    if k > 0 {
        let before = candidates_upto(s, v, x, y, shift, k - 1);
        if i < before.len() {
            lemma_candidates_upto(s, v, x, y, shift, k - 1, i);
        } else {
            let d = displacement(shift, k - 1);
            let c = candidate(s, v, x, y, shift, k - 1).unwrap();
            assert(candidates_upto(s, v, x, y, shift, k)[i] == c);
            assert(displaced(v, x, y, d).is_some());
            lemma_displacement_fits(shift, k - 1);
            assert(d.0 == c.dx && d.1 == c.dy);
        }
    }
}

proof fn lemma_best_exists_upto(cands: Seq<Candidate>, scheme: ScoringScheme, n: int) -> (b: int)
    requires
        1 <= n <= cands.len(),
        scored_by(cands, scheme),
    ensures
        is_best(cands.take(n), b),
    decreases n,
{
    if n == 1 {
        assert(compare(cands[0].score, cands[0].score) == Ordering::Equal);
        0
    } else {
        let prev = lemma_best_exists_upto(cands, scheme, n - 1);
        let before = cands.take(n - 1);
        let now = cands.take(n);
        let b = if compare(cands[n - 1].score, before[prev].score) == Ordering::Greater {
            n - 1
        } else {
            prev
        };
        assert forall|j: int| 0 <= j < now.len() implies compare(
            #[trigger] now[j].score,
            now[b].score,
        ) != Ordering::Greater by {
            if j < n - 1 {
                assert(compare(before[j].score, before[prev].score) != Ordering::Greater);
            }
        }
        assert forall|j: int| 0 <= j < b implies compare(#[trigger] now[j].score, now[b].score)
            == Ordering::Less by {
            assert(compare(before[j].score, before[prev].score) != Ordering::Greater);
        }
        b
    }
}

/// Among candidates of one scheme, as long as there is one, one is the best.
pub proof fn lemma_best_exists(cands: Seq<Candidate>, scheme: ScoringScheme)
    requires
        cands.len() > 0,
        scored_by(cands, scheme),
    ensures
        is_best(cands, best_index(cands)),
{
    let b = lemma_best_exists_upto(cands, scheme, cands.len() as int);
    assert(cands.take(cands.len() as int) =~= cands);
}

/// The move that is made for a vertex is one of its candidates: a feasible move whose
/// score is the score of the faces around the vertex after it.
pub proof fn lemma_move_is_candidate(
    s: Scene,
    v: MeshView,
    x: u32,
    y: u32,
    shift: i64,
    random_pick: Option<Candidate>,
)
    requires
        -MAX_SHIFT <= shift <= MAX_SHIFT,
        random_pick matches Some(c) ==> candidates(s, v, x, y, shift).contains(c),
    ensures
        ({
            let cands = candidates(s, v, x, y, shift);
            decided(cands, best_index(cands), local_score(s, v, x, y), random_pick) matches Some(c)
                ==> {
                &&& feasible(v, x, y, (c.dx as int, c.dy as int))
                &&& c.score == local_score(s, moved(v, x, y, Some(c)), x, y)
            }
        }),
{
    let cands = candidates(s, v, x, y, shift);
    let m = decided(cands, best_index(cands), local_score(s, v, x, y), random_pick);
    if m.is_some() {
        assert forall|i: int| 0 <= i < cands.len() implies scheme_of(#[trigger] cands[i].score)
            == s.scheme by {
            lemma_candidates_upto(s, v, x, y, shift, MOVES as int, i);
        }
        lemma_best_exists(cands, s.scheme);
        let c = m.unwrap();
        assert(cands.contains(c));
        let i = choose|i: int| 0 <= i < cands.len() && cands[i] == c;
        lemma_candidates_upto(s, v, x, y, shift, MOVES as int, i);
    }
}

/// A pinned vertex is never moved.
pub proof fn lemma_pinned_vertex_stays(
    s: Scene,
    v: MeshView,
    x: u32,
    y: u32,
    shift: i64,
    random_pick: Option<Candidate>,
)
    requires
        is_edge(v, x as int, y as int),
    ensures
        optimized(s, v, x, y, shift, random_pick) == v,
{
}

/// A move leaves the vertex in one of the faces that lay around it before: after the
/// search the vertex is where it was or in one of those faces.
pub proof fn lemma_vertex_stays_in_faces(
    s: Scene,
    v: MeshView,
    x: u32,
    y: u32,
    shift: i64,
    random_pick: Option<Candidate>,
)
    requires
        well_shaped(v),
        in_buffer(v, x as int, y as int),
        -MAX_SHIFT <= shift <= MAX_SHIFT,
        random_pick matches Some(c) ==> candidates(s, v, x, y, shift).contains(c),
    ensures
        ({
            let after = optimized(s, v, x, y, shift, random_pick).rows[y as int][x as int];
            after == v.rows[y as int][x as int] || inside_any(after, faces(v, x, y))
        }),
{
    lemma_move_is_candidate(s, v, x, y, shift, random_pick);
}

/// The search leaves a mesh of the same shape, in which every vertex but the one at
/// `(x, y)` is where it was; and that one too where it is pinned.
pub proof fn lemma_search_keeps_mesh(
    s: Scene,
    v: MeshView,
    x: u32,
    y: u32,
    shift: i64,
    random_pick: Option<Candidate>,
)
    requires
        well_shaped(v),
        in_buffer(v, x as int, y as int),
    ensures
        well_shaped(optimized(s, v, x, y, shift, random_pick)),
        forall|a: int, b: int|
            in_buffer(optimized(s, v, x, y, shift, random_pick), a, b) == in_buffer(v, a, b),
        forall|a: int, b: int|
            in_buffer(v, a, b) && (is_edge(v, a, b) || a != x || b != y) ==> #[trigger] optimized(
                s,
                v,
                x,
                y,
                shift,
                random_pick,
            ).rows[b][a] == v.rows[b][a],
{
    let w = optimized(s, v, x, y, shift, random_pick);
    if w != v {
        let cands = candidates(s, v, x, y, shift);
        let c = decided(cands, best_index(cands), local_score(s, v, x, y), random_pick).unwrap();
        let p = v.rows[y as int][x as int];
        lemma_with_vertex_keeps_lattice(
            v,
            x as int,
            y as int,
            I64x2 { x: (p.x + c.dx) as i64, y: (p.y + c.dy) as i64 },
        );
    }
}

/// Where chance has no part, the search never worsens the score of the faces around
/// the vertex: after it they score no worse than before.
pub proof fn lemma_search_never_worsens(s: Scene, v: MeshView, x: u32, y: u32, shift: i64)
    requires
        -MAX_SHIFT <= shift <= MAX_SHIFT,
    ensures
        compare(
            local_score(s, optimized(s, v, x, y, shift, None), x, y),
            local_score(s, v, x, y),
        ) != Ordering::Less,
{
    lemma_move_is_candidate(s, v, x, y, shift, None);
    let before = local_score(s, v, x, y);
    assert(compare(before, before) == Ordering::Equal);
}

} // verus!
