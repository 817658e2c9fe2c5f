//! The proximity graph: every pair of atoms closer than their cutoff.
//!
//! Units: coordinates are in milliångström, radii in centiångström and the
//! scaling factor in thousandths, so a cutoff comes out in units of
//! 10⁻⁵ Å. An edge keeps its squared distance in the square of that unit,
//! which makes `dist_sq < cutoff * cutoff` the exact test. Its weight,
//! `(cutoff - sqrt(dist_sq)) / cutoff`, is left to the caller, as it needs a
//! square root.
use vstd::prelude::*;
use crate::atom::{all_wf, atoms_view, Atom, AtomView};
use crate::error::PdbError;
use crate::radii::{covalent_radius, is_known_element, lemma_radius_bounds, radius_of};

verus! {

/// One edge of the graph: node `from` joined to an earlier node `to`, with the
/// squared distance of the two atoms and their cutoff.
#[derive(Clone, Copy, Debug, PartialEq, Eq, Structural)]
pub struct Edge {
    /// 0-based index of the later atom.
    pub from: usize,
    /// 0-based index of the earlier atom.
    pub to: usize,
    /// Squared distance between the two atoms, in (10⁻⁵ Å)².
    pub dist_sq: u128,
    /// The pair's cutoff, in 10⁻⁵ Å.
    pub cutoff: u64,
}

pub struct EdgeView {
    pub from: int,
    pub to: int,
    pub dist_sq: int,
    pub cutoff: int,
}

impl View for Edge {
    type V = EdgeView;

    open spec fn view(&self) -> EdgeView {
        EdgeView {
            from: self.from as int,
            to: self.to as int,
            dist_sq: self.dist_sq as int,
            cutoff: self.cutoff as int,
        }
    }
}

pub open spec fn edges_view(edges: Seq<Edge>) -> Seq<EdgeView> {
    edges.map_values(|e: Edge| e@)
}

/// Squared distance between two atoms, in squared milliångström.
pub open spec fn distance_sq_milli(a: AtomView, b: AtomView) -> int {
    (a.x - b.x) * (a.x - b.x) + (a.y - b.y) * (a.y - b.y) + (a.z - b.z) * (a.z - b.z)
}

/// Squared distance between two atoms, in (10⁻⁵ Å)².
pub open spec fn dist_sq_of(a: AtomView, b: AtomView) -> int {
    distance_sq_milli(a, b) * 10000
}

/// The cutoff of a pair of atoms, in 10⁻⁵ Å: the sum of their covalent radii
/// times the scaling factor.
pub open spec fn cutoff_of(a: AtomView, b: AtomView, scale: int) -> int {
    (radius_of(a.element)->0 + radius_of(b.element)->0) * scale
}

/// Whether two atoms stand strictly closer than their cutoff.
pub open spec fn within_cutoff(a: AtomView, b: AtomView, scale: int) -> bool {
    dist_sq_of(a, b) < cutoff_of(a, b, scale) * cutoff_of(a, b, scale)
}

/// The edge from atom `i` to atom `j`.
pub open spec fn edge_between(atoms: Seq<AtomView>, scale: int, i: int, j: int) -> EdgeView {
    EdgeView {
        from: i,
        to: j,
        dist_sq: dist_sq_of(atoms[i], atoms[j]),
        cutoff: cutoff_of(atoms[i], atoms[j], scale),
    }
}

/// The edges from atom `i` to the atoms before `j`, by ascending `to`.
pub open spec fn row_edges(atoms: Seq<AtomView>, scale: int, i: int, j: int) -> Seq<EdgeView>
    decreases j,
{
    if j <= 0 {
        Seq::empty()
    } else {
        let prev = row_edges(atoms, scale, i, j - 1);
        if within_cutoff(atoms[i], atoms[j - 1], scale) {
            prev.push(edge_between(atoms, scale, i, j - 1))
        } else {
            prev
        }
    }
}

/// The edges among the first `n` atoms: by ascending `from`, then ascending
/// `to`.
pub open spec fn edges_below(atoms: Seq<AtomView>, scale: int, n: int) -> Seq<EdgeView>
    decreases n,
{
    if n <= 0 {
        Seq::empty()
    } else {
        edges_below(atoms, scale, n - 1) + row_edges(atoms, scale, n - 1, n - 1)
    }
}

/// The edges of the graph of `atoms`.
pub open spec fn graph_edges(atoms: Seq<AtomView>, scale: int) -> Seq<EdgeView> {
    edges_below(atoms, scale, atoms.len() as int)
}

/// Every atom's element is in the radius table.
pub open spec fn all_known(atoms: Seq<AtomView>) -> bool {
    forall|k: int| 0 <= k < atoms.len() ==> is_known_element(#[trigger] atoms[k].element)
}

/// The graph of `atoms`, or `UnknownElement` where an atom's element is not in
/// the radius table.
pub open spec fn build_spec(atoms: Seq<AtomView>, scale: int) -> Result<Seq<EdgeView>, PdbError> {
    if all_known(atoms) {
        Ok(graph_edges(atoms, scale))
    } else {
        Err(PdbError::UnknownElement)
    }
}

/// Squared distance between two atoms, in squared milliångström.
pub fn distance_squared(a: &Atom, b: &Atom) -> (r: u128)
    requires
        a@.wf(),
        b@.wf(),
    ensures
        r == distance_sq_milli(a@, b@),
        r < 120_000_000_000_000_000_000_000,
{
    let dx: i128 = a.x as i128 - b.x as i128;
    let dy: i128 = a.y as i128 - b.y as i128;
    let dz: i128 = a.z as i128 - b.z as i128;
    assert(0 <= dx * dx < 40_000_000_000_000_000_000_000) by (nonlinear_arith)
        requires
            -200_000_000_000 < dx < 200_000_000_000,
    ;
    assert(0 <= dy * dy < 40_000_000_000_000_000_000_000) by (nonlinear_arith)
        requires
            -200_000_000_000 < dy < 200_000_000_000,
    ;
    assert(0 <= dz * dz < 40_000_000_000_000_000_000_000) by (nonlinear_arith)
        requires
            -200_000_000_000 < dz < 200_000_000_000,
    ;
    (dx * dx + dy * dy + dz * dz) as u128
}

/// Builds the proximity graph of `atoms` for a scaling factor given in
/// thousandths (`2500` for 2.5).
///
/// Each pair `j < i` is tested once, with `i` ascending and, for each `i`,
/// `j` ascending; the pair is joined when the atoms stand strictly closer than
/// the sum of their covalent radii times the scaling factor.
pub fn build_graph(atoms: &Vec<Atom>, scale: u32) -> (r: Result<Vec<Edge>, PdbError>)
    requires
        all_wf(atoms_view(atoms@)),
    ensures
        match r {
            Ok(edges) => build_spec(atoms_view(atoms@), scale as int) == Ok::<
                Seq<EdgeView>,
                PdbError,
            >(edges_view(edges@)),
            Err(e) => build_spec(atoms_view(atoms@), scale as int) == Err::<
                Seq<EdgeView>,
                PdbError,
            >(e),
        },
{
    let ghost av = atoms_view(atoms@);
    let n = atoms.len();
    let mut radii: Vec<u32> = Vec::new();
    let mut k: usize = 0;
    while k < n
        invariant
            k <= n == atoms@.len() == av.len(),
            av == atoms_view(atoms@),
            radii@.len() == k,
            forall|m: int| 0 <= m < k ==> is_known_element(#[trigger] av[m].element),
            forall|m: int| 0 <= m < k ==> #[trigger] radii@[m] == radius_of(av[m].element)->0,
        decreases n - k,
    {
        match covalent_radius(atoms[k].element.as_slice()) {
            Some(rad) => radii.push(rad),
            None => {
                assert(!is_known_element(av[k as int].element));
                return Err(PdbError::UnknownElement);
            },
        }
        k = k + 1;
    }
    let ghost s = scale as int;
    let mut edges: Vec<Edge> = Vec::new();
    let mut i: usize = 0;
    assert(edges_view(edges@) =~= edges_below(av, s, 0));
    while i < n
        invariant
            i <= n == atoms@.len() == av.len() == radii@.len(),
            av == atoms_view(atoms@),
            s == scale as int,
            all_wf(av),
            all_known(av),
            forall|m: int| 0 <= m < n ==> #[trigger] radii@[m] == radius_of(av[m].element)->0,
            edges_view(edges@) == edges_below(av, s, i as int),
        decreases n - i,
    {
        let mut j: usize = 0;
        assert(edges_view(edges@) =~= edges_below(av, s, i as int) + row_edges(av, s, i as int, 0));
        while j < i
            invariant
                j <= i < n == atoms@.len() == av.len() == radii@.len(),
                av == atoms_view(atoms@),
                s == scale as int,
                all_wf(av),
                all_known(av),
                forall|m: int| 0 <= m < n ==> #[trigger] radii@[m] == radius_of(av[m].element)->0,
                edges_view(edges@) == edges_below(av, s, i as int) + row_edges(
                    av,
                    s,
                    i as int,
                    j as int,
                ),
            decreases i - j,
        {
            let ghost a = av[i as int];
            let ghost b = av[j as int];
            assert(all_wf(av) ==> a.wf() && b.wf());
            let d_milli = distance_squared(&atoms[i], &atoms[j]);
            let dist_sq: u128 = d_milli * 10000;
            proof {
                lemma_radius_bounds(a.element);
                lemma_radius_bounds(b.element);
            }
            let ra = radii[i];
            let rb = radii[j];
            assert((ra as u64 + rb as u64) * (scale as u64) <= 520 * 4_294_967_295) by (
            nonlinear_arith)
                requires
                    ra <= 260,
                    rb <= 260,
            ;
            let cutoff: u64 = (ra as u64 + rb as u64) * scale as u64;
            assert((cutoff as u128) * (cutoff as u128) <= 2_233_382_993_400 * 2_233_382_993_400)
                by (nonlinear_arith)
                requires
                    cutoff <= 2_233_382_993_400,
            ;
            let cc: u128 = cutoff as u128 * cutoff as u128;
            let ghost before = edges@;
            if dist_sq < cc {
                edges.push(Edge { from: i, to: j, dist_sq, cutoff });
                assert(edges_view(edges@) =~= edges_view(before).push(
                    edge_between(av, s, i as int, j as int),
                ));
            }
            assert(edges_view(edges@) =~= edges_below(av, s, i as int) + row_edges(
                av,
                s,
                i as int,
                j + 1,
            ));
            j = j + 1;
        }
        assert(edges_view(edges@) =~= edges_below(av, s, i + 1));
        i = i + 1;
    }
    Ok(edges)
}

/// `e` joins two of the first `n` atoms, later to earlier, closer than their
/// cutoff, and carries their distance and cutoff.
pub open spec fn edge_fits(atoms: Seq<AtomView>, scale: int, e: EdgeView, n: int) -> bool {
    &&& 0 <= e.to < e.from < n
    &&& e == edge_between(atoms, scale, e.from, e.to)
    &&& within_cutoff(atoms[e.from], atoms[e.to], scale)
}

/// `a` comes before `b` in the order in which pairs are visited.
pub open spec fn precedes(a: EdgeView, b: EdgeView) -> bool {
    a.from < b.from || (a.from == b.from && a.to < b.to)
}

/// Some edge of `g` joins atom `i` to atom `j`.
pub open spec fn joins(g: Seq<EdgeView>, i: int, j: int) -> bool {
    exists|k: int| 0 <= k < g.len() && (#[trigger] g[k]).from == i && g[k].to == j
}

proof fn lemma_row_shape(atoms: Seq<AtomView>, scale: int, i: int, j: int)
    requires
        0 <= j <= i,
    ensures
        forall|k: int|
            0 <= k < row_edges(atoms, scale, i, j).len() ==> {
                let e = #[trigger] row_edges(atoms, scale, i, j)[k];
                &&& e.from == i
                &&& 0 <= e.to < j
                &&& e == edge_between(atoms, scale, e.from, e.to)
                &&& within_cutoff(atoms[e.from], atoms[e.to], scale)
            },
        forall|k1: int, k2: int|
            0 <= k1 < k2 < row_edges(atoms, scale, i, j).len() ==> (#[trigger] row_edges(
                atoms,
                scale,
                i,
                j,
            )[k1]).to < (#[trigger] row_edges(atoms, scale, i, j)[k2]).to,
        forall|m: int|
            0 <= m < j && #[trigger] within_cutoff(atoms[i], atoms[m], scale) ==> joins(
                row_edges(atoms, scale, i, j),
                i,
                m,
            ),
    decreases j,
{
    if j > 0 {
        lemma_row_shape(atoms, scale, i, j - 1);
        let prev = row_edges(atoms, scale, i, j - 1);
        let r = row_edges(atoms, scale, i, j);
        assert forall|m: int|
            0 <= m < j && #[trigger] within_cutoff(atoms[i], atoms[m], scale) implies joins(
            r,
            i,
            m,
        ) by {
            if m < j - 1 {
                let k = choose|k: int| 0 <= k < prev.len() && (#[trigger] prev[k]).from == i
                    && prev[k].to == m;
                assert(r[k] == prev[k]);
            } else {
                assert(r[prev.len() as int] == edge_between(atoms, scale, i, m));
            }
        }
    }
}

proof fn lemma_edges_below_shape(atoms: Seq<AtomView>, scale: int, n: int)
    requires
        0 <= n,
    ensures
        forall|k: int|
            0 <= k < edges_below(atoms, scale, n).len() ==> edge_fits(
                atoms,
                scale,
                #[trigger] edges_below(atoms, scale, n)[k],
                n,
            ),
        forall|k1: int, k2: int|
            0 <= k1 < k2 < edges_below(atoms, scale, n).len() ==> precedes(
                #[trigger] edges_below(atoms, scale, n)[k1],
                #[trigger] edges_below(atoms, scale, n)[k2],
            ),
        forall|i: int, j: int|
            0 <= j < i < n && #[trigger] within_cutoff(atoms[i], atoms[j], scale) ==> joins(
                edges_below(atoms, scale, n),
                i,
                j,
            ),
    decreases n,
{
    if n > 0 {
        lemma_edges_below_shape(atoms, scale, n - 1);
        lemma_row_shape(atoms, scale, n - 1, n - 1);
        let prev = edges_below(atoms, scale, n - 1);
        let row = row_edges(atoms, scale, n - 1, n - 1);
        let g = edges_below(atoms, scale, n);
        assert(g == prev + row);
        assert forall|k: int| 0 <= k < g.len() implies edge_fits(atoms, scale, #[trigger] g[k], n) by {
            if k < prev.len() {
                assert(g[k] == prev[k]);
                assert(edge_fits(atoms, scale, prev[k], n - 1));
            } else {
                assert(g[k] == row[k - prev.len()]);
            }
        }
        assert forall|k1: int, k2: int| 0 <= k1 < k2 < g.len() implies precedes(
            #[trigger] g[k1],
            #[trigger] g[k2],
        ) by {
            if k2 < prev.len() {
                assert(g[k1] == prev[k1] && g[k2] == prev[k2]);
            } else if k1 < prev.len() {
                assert(g[k1] == prev[k1]);
                assert(edge_fits(atoms, scale, prev[k1], n - 1));
                assert(g[k2] == row[k2 - prev.len()]);
            } else {
                assert(g[k1] == row[k1 - prev.len()]);
                assert(g[k2] == row[k2 - prev.len()]);
            }
        }
        assert forall|i: int, j: int|
            0 <= j < i < n && #[trigger] within_cutoff(atoms[i], atoms[j], scale) implies joins(
            g,
            i,
            j,
        ) by {
            if i < n - 1 {
                let k = choose|k: int| 0 <= k < prev.len() && (#[trigger] prev[k]).from == i
                    && prev[k].to == j;
                assert(g[k] == prev[k]);
            } else {
                let k = choose|k: int| 0 <= k < row.len() && (#[trigger] row[k]).from == i
                    && row[k].to == j;
                assert(g[k + prev.len()] == row[k]);
            }
        }
    }
}

/// A pair's cutoff, distance and test do not depend on which of the two
/// atoms comes first.
pub proof fn lemma_pair_symmetric(a: AtomView, b: AtomView, scale: int)
    ensures
        cutoff_of(a, b, scale) == cutoff_of(b, a, scale),
        dist_sq_of(a, b) == dist_sq_of(b, a),
        within_cutoff(a, b, scale) == within_cutoff(b, a, scale),
{
    assert((a.x - b.x) * (a.x - b.x) == (b.x - a.x) * (b.x - a.x)) by (nonlinear_arith);
    assert((a.y - b.y) * (a.y - b.y) == (b.y - a.y) * (b.y - a.y)) by (nonlinear_arith);
    assert((a.z - b.z) * (a.z - b.z) == (b.z - a.z) * (b.z - a.z)) by (nonlinear_arith);
}

/// Every edge joins a later atom to an earlier one, and edges come in the
/// order in which pairs are visited, so no pair of atoms is joined twice.
pub proof fn lemma_each_pair_once(atoms: Seq<AtomView>, scale: int)
    ensures
        forall|k: int|
            0 <= k < graph_edges(atoms, scale).len() ==> 0 <= (#[trigger] graph_edges(
                atoms,
                scale,
            )[k]).to < graph_edges(atoms, scale)[k].from < atoms.len(),
        forall|k1: int, k2: int|
            0 <= k1 < k2 < graph_edges(atoms, scale).len() ==> precedes(
                #[trigger] graph_edges(atoms, scale)[k1],
                #[trigger] graph_edges(atoms, scale)[k2],
            ),
        forall|k1: int, k2: int|
            0 <= k1 < graph_edges(atoms, scale).len() && 0 <= k2 < graph_edges(atoms, scale).len()
                && k1 != k2 ==> (#[trigger] graph_edges(atoms, scale)[k1]).from != (
            #[trigger] graph_edges(atoms, scale)[k2]).from || graph_edges(atoms, scale)[k1].to
                != graph_edges(atoms, scale)[k2].to,
{
    lemma_edges_below_shape(atoms, scale, atoms.len() as int);
    let g = graph_edges(atoms, scale);
    assert forall|k: int| 0 <= k < g.len() implies 0 <= (#[trigger] g[k]).to < g[k].from
        < atoms.len() by {
        assert(edge_fits(atoms, scale, g[k], atoms.len() as int));
    }
    assert forall|k1: int, k2: int|
        0 <= k1 < g.len() && 0 <= k2 < g.len() && k1 != k2 implies (#[trigger] g[k1]).from != (
        #[trigger] g[k2]).from || g[k1].to != g[k2].to by {
        if k1 < k2 {
            assert(precedes(g[k1], g[k2]));
        } else {
            assert(precedes(g[k2], g[k1]));
        }
    }
}

/// Two atoms are joined exactly when they stand strictly closer than their
/// cutoff: a pair at the cutoff distance is not joined, one any closer is.
/// Each edge carries its pair's distance and cutoff.
pub proof fn lemma_joined_iff_within_cutoff(atoms: Seq<AtomView>, scale: int, i: int, j: int)
    requires
        0 <= j < i < atoms.len(),
    ensures
        joins(graph_edges(atoms, scale), i, j) <==> within_cutoff(atoms[i], atoms[j], scale),
        forall|k: int|
            0 <= k < graph_edges(atoms, scale).len() ==> #[trigger] graph_edges(atoms, scale)[k]
                == edge_between(
                atoms,
                scale,
                graph_edges(atoms, scale)[k].from,
                graph_edges(atoms, scale)[k].to,
            ),
{
    lemma_edges_below_shape(atoms, scale, atoms.len() as int);
    let g = graph_edges(atoms, scale);
    if joins(g, i, j) {
        let k = choose|k: int| 0 <= k < g.len() && (#[trigger] g[k]).from == i && g[k].to == j;
        assert(edge_fits(atoms, scale, g[k], atoms.len() as int));
    }
    assert forall|k: int| 0 <= k < g.len() implies #[trigger] g[k] == edge_between(
        atoms,
        scale,
        g[k].from,
        g[k].to,
    ) by {
        assert(edge_fits(atoms, scale, g[k], atoms.len() as int));
    }
}

/// Every edge's weight `(cutoff - sqrt(dist_sq)) / cutoff` lies in `[0, 1]`:
/// the cutoff is positive and `0 <= dist_sq < cutoff²`. Where no two atoms
/// share a position, `dist_sq` is positive too, and the weight is below 1.
pub proof fn lemma_weight_range(atoms: Seq<AtomView>, scale: int)
    requires
        scale >= 0,
    ensures
        forall|k: int|
            0 <= k < graph_edges(atoms, scale).len() ==> {
                let e = #[trigger] graph_edges(atoms, scale)[k];
                0 < e.cutoff && 0 <= e.dist_sq < e.cutoff * e.cutoff
            },
        (forall|i: int, j: int|
            0 <= j < i < atoms.len() ==> (#[trigger] atoms[i].x != #[trigger] atoms[j].x
                || atoms[i].y != atoms[j].y || atoms[i].z != atoms[j].z)) ==> forall|k: int|
            0 <= k < graph_edges(atoms, scale).len() ==> 0 < (#[trigger] graph_edges(
                atoms,
                scale,
            )[k]).dist_sq,
{
    lemma_edges_below_shape(atoms, scale, atoms.len() as int);
    let g = graph_edges(atoms, scale);
    assert forall|k: int| 0 <= k < g.len() implies {
        let e = #[trigger] g[k];
        0 < e.cutoff && 0 <= e.dist_sq < e.cutoff * e.cutoff
    } by {
        let e = g[k];
        assert(edge_fits(atoms, scale, e, atoms.len() as int));
        let a = atoms[e.from];
        let b = atoms[e.to];
        lemma_square_sum_nonnegative(a.x - b.x, a.y - b.y, a.z - b.z);
        lemma_radii_nonnegative(a.element, b.element);
        assert(e.cutoff >= 0) by (nonlinear_arith)
            requires
                e.cutoff == (radius_of(a.element)->0 + radius_of(b.element)->0) * scale,
                radius_of(a.element)->0 + radius_of(b.element)->0 >= 0,
                scale >= 0,
        ;
        assert(e.cutoff > 0) by (nonlinear_arith)
            requires
                e.cutoff >= 0,
                0 <= e.dist_sq < e.cutoff * e.cutoff,
        ;
    }
    if forall|i: int, j: int|
        0 <= j < i < atoms.len() ==> (#[trigger] atoms[i].x != #[trigger] atoms[j].x
            || atoms[i].y != atoms[j].y || atoms[i].z != atoms[j].z) {
        assert forall|k: int| 0 <= k < g.len() implies 0 < (#[trigger] g[k]).dist_sq by {
            let e = g[k];
            assert(edge_fits(atoms, scale, e, atoms.len() as int));
            let a = atoms[e.from];
            let b = atoms[e.to];
            assert(a.x != b.x || a.y != b.y || a.z != b.z);
            lemma_square_sum_positive(a.x - b.x, a.y - b.y, a.z - b.z);
        }
    }
}

proof fn lemma_radii_nonnegative(a: Seq<u8>, b: Seq<u8>)
    ensures
        radius_of(a)->0 + radius_of(b)->0 >= 0,
{
}

proof fn lemma_square_sum_nonnegative(x: int, y: int, z: int)
    ensures
        (x * x + y * y + z * z) * 10000 >= 0,
{
    assert(x * x >= 0 && y * y >= 0 && z * z >= 0) by (nonlinear_arith);
}

proof fn lemma_square_sum_positive(x: int, y: int, z: int)
    requires
        x != 0 || y != 0 || z != 0,
    ensures
        (x * x + y * y + z * z) * 10000 > 0,
{
    assert(x * x >= 0 && y * y >= 0 && z * z >= 0) by (nonlinear_arith);
    assert(x != 0 ==> x * x > 0) by (nonlinear_arith);
    assert(y != 0 ==> y * y > 0) by (nonlinear_arith);
    assert(z != 0 ==> z * z > 0) by (nonlinear_arith);
}

} // verus!
