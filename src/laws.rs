use vstd::prelude::*;

use crate::factory::{oriented_pair, pipe_live, port_live, refers, Factory, FlowDirection, Link};
use crate::grid::{cell_index, in_bounds, lemma_cell_in_range, lemma_cells_distinct, Grid, TileCoords, GRID_CELLS};
use crate::network::chain_traced;
use vstd::set_lib::{lemma_int_range, lemma_len_subset, set_int_range};
use crate::production::{
    ammo_convert_spec, rocket_convert_spec, AMMO_PER_MINERAL, ROCKET_GAS, ROCKET_MINERALS,
};

verus! {

/// Off the lattice there is neither a buildable tile nor a building.
pub proof fn lemma_off_grid_is_empty(g: &Grid, pos: TileCoords)
    requires
        !in_bounds(pos.x as int, pos.y as int),
    ensures
        !g.tile_spec(pos),
        g.building_spec(pos) is None,
{
}

/// Connections are reciprocal: in a well-formed factory, whatever `a` refers to
/// refers back to `a`.
pub proof fn lemma_connection_symmetry(f: &Factory, a: Link, b: Link)
    requires
        f.wf(),
        f.refers_spec(a, b),
    ensures
        f.refers_spec(b, a),
        f.live(b),
{
    assert(crate::factory::refers(f.pipes@, f.ports@, a, b));
}

/// Two ports connected directly: if `p` is connected to port `q`, then `q` is a live
/// port connected to `p`.
pub proof fn lemma_ports_reciprocal(f: &Factory, p: usize, q: usize)
    requires
        f.wf(),
        port_live(f.ports@, p as int),
        f.ports@[p as int]->0.connected == Some(Link::Port(q)),
    ensures
        port_live(f.ports@, q as int),
        f.ports@[q as int]->0.connected == Some(Link::Port(p)),
{
    assert(crate::factory::refers(f.pipes@, f.ports@, Link::Port(p), Link::Port(q)));
}

/// An ammo factory's tick moves one mineral into three ammo when the source has a
/// mineral and the factory has room, and changes nothing when the source is empty.
pub proof fn lemma_ammo_conversion(source: i64, own: i64)
    ensures
        source >= 1 && own < 10 ==> ammo_convert_spec(source, own) == (
            (source - 1) as i64,
            (own + AMMO_PER_MINERAL) as i64,
        ),
        source < 1 ==> ammo_convert_spec(source, own) == (source, own),
{
}

/// A rocket factory's tick is all or nothing: either three minerals and two gas become
/// one rocket, or no buffer changes; with fewer than three minerals nothing changes.
pub proof fn lemma_rocket_all_or_nothing(mineral: i64, gas: i64, own: i64)
    ensures
        ({
            let r = rocket_convert_spec(mineral, gas, own);
            r == (mineral, gas, own) || (r.0 == mineral - ROCKET_MINERALS && r.1 == gas
                - ROCKET_GAS && r.2 == own + 1)
        }),
        mineral < ROCKET_MINERALS ==> rocket_convert_spec(mineral, gas, own) == (mineral, gas, own),
        gas < ROCKET_GAS ==> rocket_convert_spec(mineral, gas, own) == (mineral, gas, own),
{
}


/// Distinct integers that all lie in `[0, n)` number at most `n`.
proof fn lemma_distinct_in_range(s: Seq<int>, n: int)
    requires
        n >= 0,
        s.no_duplicates(),
        forall|i: int| 0 <= i < s.len() ==> 0 <= #[trigger] s[i] < n,
    ensures
        s.len() <= n,
{
    s.unique_seq_to_set();
    lemma_int_range(0, n);
    assert forall|x: int| s.to_set().contains(x) implies set_int_range(0, n).contains(x) by {
        let i = choose|i: int| 0 <= i < s.len() && #[trigger] s[i] == x;
    }
    lemma_len_subset(s.to_set(), set_int_range(0, n));
}

/// Cycle safety: in a well-formed factory, the pipes that a trace walks, up to the
/// first one that repeats, are no more than the cells of the grid, since each stands on
/// its own cell.
pub proof fn lemma_chain_within_grid(
    f: &Factory,
    first: Link,
    chain: Seq<Link>,
    sink: Option<usize>,
)
    requires
        f.wf(),
        chain_traced(f.pipes@, f.port_is_live(), first, chain, sink),
    ensures
        chain.len() <= GRID_CELLS,
{
    let cells = Seq::new(
        chain.len(),
        |i: int|
            {
                let pos = f.pipes@[chain[i]->Pipe_0 as int]->0.pos;
                cell_index(pos.x as int, pos.y as int)
            },
    );
    assert forall|i: int| 0 <= i < cells.len() implies 0 <= #[trigger] cells[i] < GRID_CELLS by {
        let k = chain[i]->Pipe_0;
        assert(pipe_live(f.pipes@, k as int));
        let pos = f.pipes@[k as int]->0.pos;
        assert(f.grid.building_spec(pos) is Some);
        lemma_cell_in_range(pos.x as int, pos.y as int);
    }
    assert forall|i: int, j: int|
        0 <= i < cells.len() && 0 <= j < cells.len() && i != j implies cells[i] != cells[j] by {
        let ki = chain[i]->Pipe_0;
        let kj = chain[j]->Pipe_0;
        assert(pipe_live(f.pipes@, ki as int));
        assert(pipe_live(f.pipes@, kj as int));
        let pi = f.pipes@[ki as int]->0.pos;
        let pj = f.pipes@[kj as int]->0.pos;
        assert(f.grid.building_spec(pi) == Some(crate::grid::Building::Pipe(ki)));
        assert(f.grid.building_spec(pj) == Some(crate::grid::Building::Pipe(kj)));
        if i < j {
            assert(chain[i] != chain[j]);
        } else {
            assert(chain[j] != chain[i]);
        }
        if pi != pj {
            lemma_cells_distinct(pi, pj);
        }
    }
    lemma_distinct_in_range(cells, GRID_CELLS as int);
}


/// Links follow the flow: a port linked to a pipe sits in the pipe's `to` slot if it is
/// an inlet and in its `from` slot if it is an outlet; two pipes are linked `to` to
/// `from`.
pub proof fn lemma_links_follow_flow(f: &Factory, p: usize, k: usize, j: usize)
    requires
        f.wf(),
    ensures
        port_live(f.ports@, p as int) && f.ports@[p as int]->0.connected == Some(Link::Pipe(k)) ==> {
            &&& pipe_live(f.pipes@, k as int)
            &&& f.ports@[p as int]->0.flow == FlowDirection::Inlet ==> f.pipes@[k as int]->0.to == Some(
                Link::Port(p),
            )
            &&& f.ports@[p as int]->0.flow == FlowDirection::Outlet ==> f.pipes@[k as int]->0.from
                == Some(Link::Port(p))
        },
        pipe_live(f.pipes@, k as int) && f.pipes@[k as int]->0.to == Some(Link::Pipe(j)) ==> pipe_live(
            f.pipes@,
            j as int,
        ) && f.pipes@[j as int]->0.from == Some(Link::Pipe(k)),
{
    if port_live(f.ports@, p as int) && f.ports@[p as int]->0.connected == Some(Link::Pipe(k)) {
        assert(refers(f.pipes@, f.ports@, Link::Port(p), Link::Pipe(k)));
        assert(refers(f.pipes@, f.ports@, Link::Pipe(k), Link::Port(p)));
        assert(oriented_pair(f.pipes@, f.ports@, Link::Port(p), Link::Pipe(k)));
    }
    if pipe_live(f.pipes@, k as int) && f.pipes@[k as int]->0.to == Some(Link::Pipe(j)) {
        assert(refers(f.pipes@, f.ports@, Link::Pipe(k), Link::Pipe(j)));
        assert(refers(f.pipes@, f.ports@, Link::Pipe(j), Link::Pipe(k)));
        assert(oriented_pair(f.pipes@, f.ports@, Link::Pipe(k), Link::Pipe(j)));
    }
}


/// Cycle safety over a rebuild: in every network that a rebuild records, each pipe is
/// listed once and the members (source, pipes, sink) number at most the grid's cells
/// plus two, whatever loops the pipes form.
pub proof fn lemma_networks_bounded(f: &Factory, i: int)
    requires
        f.wf(),
        f.networks_built(),
        0 <= i < f.networks@.len(),
    ensures
        f.networks@[i].members@.len() <= GRID_CELLS + 2,
        forall|a: int, b: int|
            0 <= a < b < f.networks@[i].members@.len() && f.networks@[i].members@[a] is Pipe
                ==> f.networks@[i].members@[a] != f.networks@[i].members@[b],
{
    let nw = f.networks@[i];
    let m = nw.members@;
    assert(f.port_traced(nw.source, m, nw.sink));
    let tail: int = if nw.sink is Some { 1 } else { 0 };
    match f.ports@[nw.source as int]->0.connected {
        Some(Link::Pipe(k)) => {
            let chain = m.subrange(1, m.len() - tail);
            lemma_chain_within_grid(f, Link::Pipe(k), chain, nw.sink);
            assert forall|a: int, b: int|
                0 <= a < b < m.len() && m[a] is Pipe implies m[a] != m[b] by {
                if 1 <= b < m.len() - tail {
                    assert(m[a] == chain[a - 1]);
                    assert(m[b] == chain[b - 1]);
                }
            }
        },
        _ => {},
    }
}

} // verus!
