//! The spatial arrangement of machines and its edge map.
//!
//! A topology records which machine sits beyond each screen edge. It is
//! built once from the configuration and read on every cursor move:
//! [`Topology::detect_edge`] decides whether a cursor position lies in
//! the threshold band of an edge that has a neighbor, checking the edges
//! in the fixed order right, left, top, bottom, so that a corner resolves
//! to a horizontal edge.

use vstd::prelude::*;
use crate::text::str_eq;

verus! {

/// A screen edge.
#[derive(Debug, Clone, Copy, PartialEq, Eq, Hash, Structural)]
pub enum Edge {
    Right,
    Left,
    Top,
    Bottom,
}

/// A machine's place in the topology's logical grid (not pixels).
#[derive(Debug, Clone, Copy, PartialEq, Eq, Structural)]
pub struct Position {
    pub x: i32,
    pub y: i32,
}

/// The static map from a machine's edges to its neighbors.
///
/// Invariant: machine names are unique, and each machine has at most one
/// neighbor per edge.
#[derive(Debug, Clone)]
pub struct Topology {
    machines: Vec<(String, Position)>,
    edges: Vec<(String, Edge, String)>,
}

impl Topology {
    /// The machines and their grid positions, as name and position pairs.
    pub closed spec fn machines_seq(&self) -> Seq<(Seq<char>, Position)> {
        self.machines@.map_values(|p: (String, Position)| (p.0@, p.1))
    }

    /// The edge entries, as (machine, edge, neighbor) triples.
    pub closed spec fn edges_seq(&self) -> Seq<(Seq<char>, Edge, Seq<char>)> {
        self.edges@.map_values(|t: (String, Edge, String)| (t.0@, t.1, t.2@))
    }

    /// Names are unique, and at most one neighbor hangs on each
    /// (machine, edge) pair.
    pub open spec fn wf(&self) -> bool {
        &&& forall|i: int, j: int|
            0 <= i < j < self.machines_seq().len() ==> #[trigger] self.machines_seq()[i].0
                != #[trigger] self.machines_seq()[j].0
        &&& forall|i: int, j: int|
            0 <= i < j < self.edges_seq().len() ==> !(#[trigger] self.edges_seq()[i].0
                == #[trigger] self.edges_seq()[j].0 && self.edges_seq()[i].1
                == self.edges_seq()[j].1)
    }

    /// Whether a machine of this name is known.
    pub open spec fn spec_has_machine(&self, m: Seq<char>) -> bool {
        exists|i: int| 0 <= i < self.machines_seq().len() && #[trigger] self.machines_seq()[i].0 == m
    }

    /// Whether the machine has a neighbor on the edge.
    pub open spec fn spec_has_neighbor(&self, m: Seq<char>, e: Edge) -> bool {
        exists|i: int|
            0 <= i < self.edges_seq().len() && #[trigger] self.edges_seq()[i].0 == m
                && self.edges_seq()[i].1 == e
    }

    /// The machine's neighbor beyond the edge, if one is configured.
    pub open spec fn spec_neighbor(&self, m: Seq<char>, e: Edge) -> Option<Seq<char>> {
        if self.spec_has_neighbor(m, e) {
            let i = choose|i: int|
                0 <= i < self.edges_seq().len() && #[trigger] self.edges_seq()[i].0 == m
                    && self.edges_seq()[i].1 == e;
            Some(self.edges_seq()[i].2)
        } else {
            None
        }
    }

    /// An empty topology: no machines, no edges.
    pub fn new() -> (r: Topology)
        ensures
            r.wf(),
            r.machines_seq() == Seq::<(Seq<char>, Position)>::empty(),
            r.edges_seq() == Seq::<(Seq<char>, Edge, Seq<char>)>::empty(),
    {
        let r = Topology { machines: Vec::new(), edges: Vec::new() };
        proof {
            assert(r.machines_seq() =~= Seq::<(Seq<char>, Position)>::empty());
            assert(r.edges_seq() =~= Seq::<(Seq<char>, Edge, Seq<char>)>::empty());
        }
        r
    }

    /// How many machines the topology knows.
    pub fn machine_count(&self) -> (n: usize)
        ensures
            n == self.machines_seq().len(),
    {
        self.machines.len()
    }

    /// Adds a machine, or moves it when the name is already known.
    pub fn add_machine(&mut self, name: String, pos: Position)
        requires
            old(self).wf(),
        ensures
            final(self).wf(),
            final(self).spec_has_machine(name@),
            forall|m: Seq<char>|
                #[trigger] final(self).spec_has_machine(m) == (old(self).spec_has_machine(m) || m
                    == name@),
            final(self).machines_seq().len() == if old(self).spec_has_machine(name@) {
                old(self).machines_seq().len() as int
            } else {
                old(self).machines_seq().len() + 1 as int
            },
            final(self).edges_seq() == old(self).edges_seq(),
    {
        let n = self.machines.len();
        let mut i: usize = 0;
        while i < n
            invariant
                i <= n,
                n == self.machines@.len(),
                self == old(self),
                old(self).wf(),
                forall|j: int| 0 <= j < i ==> #[trigger] self.machines_seq()[j].0 != name@,
            decreases n - i,
        {
            if str_eq(self.machines[i].0.as_str(), name.as_str()) {
                let entry = vstd::std_specs::vec::vec_index_mut(&mut self.machines, i);
                *entry = (name, pos);
                proof {
                    assert(self.edges_seq() =~= old(self).edges_seq());
                    let ms = self.machines_seq();
                    let oms = old(self).machines_seq();
                    assert(oms[i as int].0 == name@);
                    assert(ms =~= oms.update(i as int, (name@, pos)));
                    assert forall|k: int| 0 <= k < ms.len() implies (#[trigger] ms[k]).0
                        == oms[k].0 by {}
                    assert forall|a: int, b: int| 0 <= a < b < ms.len() implies ms[a].0
                        != ms[b].0 by {
                        assert(oms[a].0 != oms[b].0);
                    }
                    assert(ms[i as int].0 == name@);
                    assert forall|m: Seq<char>| #[trigger] self.spec_has_machine(m) == (old(
                        self,
                    ).spec_has_machine(m) || m == name@) by {
                        if old(self).spec_has_machine(m) {
                            let k = choose|k: int| 0 <= k < oms.len() && #[trigger] oms[k].0 == m;
                            assert(ms[k].0 == m);
                        }
                        if self.spec_has_machine(m) && m != name@ {
                            let k = choose|k: int| 0 <= k < ms.len() && #[trigger] ms[k].0 == m;
                            assert(oms[k].0 == m);
                        }
                    }
                }
                return ;
            }
            i = i + 1;
        }
        self.machines.push((name, pos));
        proof {
            assert(self.edges_seq() =~= old(self).edges_seq());
            let ms = self.machines_seq();
            let oms = old(self).machines_seq();
            assert(ms =~= oms.push((name@, pos)));
            assert forall|k: int| 0 <= k < oms.len() implies (#[trigger] ms[k]) == oms[k] by {}
            assert(ms[n as int].0 == name@);
            assert forall|a: int, b: int| 0 <= a < b < ms.len() implies ms[a].0 != ms[b].0 by {
                if b < n as int {
                    assert(oms[a].0 != oms[b].0);
                } else {
                    assert(ms[b].0 == name@);
                    assert(ms[a].0 == oms[a].0);
                    assert(oms[a].0 != name@);
                }
            }
            assert(!old(self).spec_has_machine(name@));
            assert forall|m: Seq<char>| #[trigger] self.spec_has_machine(m) == (old(
                self,
            ).spec_has_machine(m) || m == name@) by {
                if old(self).spec_has_machine(m) {
                    let k = choose|k: int| 0 <= k < oms.len() && #[trigger] oms[k].0 == m;
                    assert(ms[k].0 == m);
                }
                if self.spec_has_machine(m) && m != name@ {
                    let k = choose|k: int| 0 <= k < ms.len() && #[trigger] ms[k].0 == m;
                    assert(k < n as int);
                    assert(oms[k].0 == m);
                }
                if m == name@ {
                    assert(ms[n as int].0 == m);
                }
            }
        }
    }

    /// Connects the machine's edge to a neighbor, replacing any neighbor
    /// that edge had. The connection is one-way.
    pub fn add_edge(&mut self, from: String, edge: Edge, to: String)
        requires
            old(self).wf(),
        ensures
            final(self).wf(),
            final(self).spec_neighbor(from@, edge) == Some(to@),
            forall|m: Seq<char>, e: Edge|
                !(m == from@ && e == edge) ==> #[trigger] final(self).spec_neighbor(m, e) == old(
                    self,
                ).spec_neighbor(m, e),
            final(self).machines_seq() == old(self).machines_seq(),
    {
        let n = self.edges.len();
        let mut i: usize = 0;
        while i < n
            invariant
                i <= n,
                n == self.edges@.len(),
                self == old(self),
                old(self).wf(),
                forall|j: int|
                    0 <= j < i ==> !(#[trigger] self.edges_seq()[j].0 == from@
                        && self.edges_seq()[j].1 == edge),
            decreases n - i,
        {
            let hit = str_eq(self.edges[i].0.as_str(), from.as_str()) && self.edges[i].1 == edge;
            if hit {
                let entry = vstd::std_specs::vec::vec_index_mut(&mut self.edges, i);
                *entry = (from, edge, to);
                proof {
                    assert(self.machines_seq() =~= old(self).machines_seq());
                    let es = self.edges_seq();
                    let oes = old(self).edges_seq();
                    assert(oes[i as int].0 == from@ && oes[i as int].1 == edge);
                    assert(es =~= oes.update(i as int, (from@, edge, to@)));
                    assert forall|k: int| 0 <= k < es.len() implies (#[trigger] es[k]).0
                        == oes[k].0 && es[k].1 == oes[k].1 by {}
                    assert forall|a: int, b: int| 0 <= a < b < es.len() implies !(es[a].0 == es[b].0
                        && es[a].1 == es[b].1) by {
                        assert(!(oes[a].0 == oes[b].0 && oes[a].1 == oes[b].1));
                    }
                    self.lemma_neighbor_at(i as int);
                    assert forall|m: Seq<char>, e: Edge| !(m == from@ && e == edge) implies
                        #[trigger] self.spec_neighbor(m, e) == old(self).spec_neighbor(m, e) by {
                        lemma_neighbor_agree(self, old(self), m, e);
                    }
                }
                return ;
            }
            i = i + 1;
        }
        self.edges.push((from, edge, to));
        proof {
            assert(self.machines_seq() =~= old(self).machines_seq());
            let es = self.edges_seq();
            let oes = old(self).edges_seq();
            assert(es =~= oes.push((from@, edge, to@)));
            assert forall|k: int| 0 <= k < oes.len() implies (#[trigger] es[k]) == oes[k] by {}
            assert(es[n as int] == (from@, edge, to@));
            assert forall|a: int, b: int| 0 <= a < b < es.len() implies !(es[a].0 == es[b].0
                && es[a].1 == es[b].1) by {
                if b < n as int {
                    assert(!(oes[a].0 == oes[b].0 && oes[a].1 == oes[b].1));
                } else {
                    assert(es[a] == oes[a]);
                    assert(!(oes[a].0 == from@ && oes[a].1 == edge));
                }
            }
            self.lemma_neighbor_at(n as int);
            assert forall|m: Seq<char>, e: Edge| !(m == from@ && e == edge) implies #[trigger] self
                .spec_neighbor(m, e) == old(self).spec_neighbor(m, e) by {
                lemma_neighbor_agree(self, old(self), m, e);
            }
        }
    }

    /// With the invariant, the entry at a matching index is what
    /// [`Self::spec_neighbor`] denotes.
    proof fn lemma_neighbor_at(&self, i: int)
        requires
            self.wf(),
            0 <= i < self.edges_seq().len(),
        ensures
            self.spec_neighbor(self.edges_seq()[i].0, self.edges_seq()[i].1) == Some(
                self.edges_seq()[i].2,
            ),
    {
        let es = self.edges_seq();
        let m = es[i].0;
        let e = es[i].1;
        assert(self.spec_has_neighbor(m, e));
        let k = choose|k: int|
            0 <= k < self.edges_seq().len() && #[trigger] self.edges_seq()[k].0 == m
                && self.edges_seq()[k].1 == e;
        if k < i {
            assert(!(es[k].0 == es[i].0 && es[k].1 == es[i].1));
        } else if i < k {
            assert(!(es[i].0 == es[k].0 && es[i].1 == es[k].1));
        }
    }

    /// The neighbor beyond the machine's edge, when one is configured.
    pub fn get_neighbor(&self, machine: &str, edge: &Edge) -> (r: Option<&String>)
        requires
            self.wf(),
        ensures
            match r {
                Some(s) => self.spec_neighbor(machine@, *edge) == Some(s@),
                None => self.spec_neighbor(machine@, *edge) is None,
            },
    {
        let n = self.edges.len();
        let mut i: usize = 0;
        while i < n
            invariant
                i <= n,
                n == self.edges@.len(),
                self.wf(),
                forall|j: int|
                    0 <= j < i ==> !(#[trigger] self.edges_seq()[j].0 == machine@
                        && self.edges_seq()[j].1 == *edge),
            decreases n - i,
        {
            if str_eq(self.edges[i].0.as_str(), machine) && self.edges[i].1 == *edge {
                proof {
                    self.lemma_neighbor_at(i as int);
                }
                return Some(&self.edges[i].2);
            }
            i = i + 1;
        }
        None
    }

    /// Decides which configured edge the cursor stands at, if any: the
    /// first edge, in the order right, left, top, bottom, that both has a
    /// neighbor and holds the cursor within `threshold` pixels.
    pub fn detect_edge(
        &self,
        machine: &str,
        x: i32,
        y: i32,
        screen_width: u32,
        screen_height: u32,
        threshold: u32,
    ) -> (r: Option<Edge>)
        requires
            self.wf(),
        ensures
            r == self.spec_detect_edge(
                machine@,
                x as int,
                y as int,
                screen_width as int,
                screen_height as int,
                threshold as int,
            ),
    {
        let xi = x as i64;
        let yi = y as i64;
        let w = screen_width as i64;
        let h = screen_height as i64;
        let t = threshold as i64;
        if self.has_neighbor(machine, &Edge::Right) && xi >= w - t {
            Some(Edge::Right)
        } else if self.has_neighbor(machine, &Edge::Left) && xi < t {
            Some(Edge::Left)
        } else if self.has_neighbor(machine, &Edge::Top) && yi < t {
            Some(Edge::Top)
        } else if self.has_neighbor(machine, &Edge::Bottom) && yi >= h - t {
            Some(Edge::Bottom)
        } else {
            None
        }
    }

    /// What [`Self::detect_edge`] returns.
    pub open spec fn spec_detect_edge(
        &self,
        m: Seq<char>,
        x: int,
        y: int,
        w: int,
        h: int,
        t: int,
    ) -> Option<Edge> {
        if self.spec_has_neighbor(m, Edge::Right) && x >= w - t {
            Some(Edge::Right)
        } else if self.spec_has_neighbor(m, Edge::Left) && x < t {
            Some(Edge::Left)
        } else if self.spec_has_neighbor(m, Edge::Top) && y < t {
            Some(Edge::Top)
        } else if self.spec_has_neighbor(m, Edge::Bottom) && y >= h - t {
            Some(Edge::Bottom)
        } else {
            None
        }
    }

    fn has_neighbor(&self, machine: &str, edge: &Edge) -> (r: bool)
        requires
            self.wf(),
        ensures
            r == self.spec_has_neighbor(machine@, *edge),
    {
        match self.get_neighbor(machine, edge) {
            Some(_) => true,
            None => false,
        }
    }

    /// Where the cursor lands on the neighbor screen after a horizontal
    /// crossing: the x coordinate wraps to the far edge, the y coordinate
    /// carries over.
    pub fn calculate_relative_position(
        &self,
        _x: i32,
        y: i32,
        _screen_width: u32,
        _screen_height: u32,
    ) -> (r: (i32, i32))
        ensures
            r.0 == 0,
            r.1 == y,
    {
        (0, y)
    }
}

/// Two edge tables that agree on every entry keyed (m, e) denote the
/// same neighbor for (m, e).
proof fn lemma_neighbor_agree(a: &Topology, b: &Topology, m: Seq<char>, e: Edge)
    requires
        forall|i: int, j: int|
            0 <= i < j < a.edges_seq().len() ==> !(#[trigger] a.edges_seq()[i].0
                == #[trigger] a.edges_seq()[j].0 && a.edges_seq()[i].1 == a.edges_seq()[j].1),
        forall|i: int, j: int|
            0 <= i < j < b.edges_seq().len() ==> !(#[trigger] b.edges_seq()[i].0
                == #[trigger] b.edges_seq()[j].0 && b.edges_seq()[i].1 == b.edges_seq()[j].1),
        forall|k: int|
            0 <= k < a.edges_seq().len() && (#[trigger] a.edges_seq()[k]).0 == m
                && a.edges_seq()[k].1 == e ==> 0 <= k < b.edges_seq().len() && b.edges_seq()[k]
                == a.edges_seq()[k],
        forall|k: int|
            0 <= k < b.edges_seq().len() && (#[trigger] b.edges_seq()[k]).0 == m
                && b.edges_seq()[k].1 == e ==> 0 <= k < a.edges_seq().len() && a.edges_seq()[k]
                == b.edges_seq()[k],
    ensures
        a.spec_neighbor(m, e) == b.spec_neighbor(m, e),
{
    if a.spec_has_neighbor(m, e) {
        let ka = choose|k: int|
            0 <= k < a.edges_seq().len() && #[trigger] a.edges_seq()[k].0 == m && a.edges_seq()[k].1
                == e;
        assert(b.edges_seq()[ka] == a.edges_seq()[ka]);
        assert(b.spec_has_neighbor(m, e));
    }
    if b.spec_has_neighbor(m, e) {
        let kb = choose|k: int|
            0 <= k < b.edges_seq().len() && #[trigger] b.edges_seq()[k].0 == m && b.edges_seq()[k].1
                == e;
        assert(a.edges_seq()[kb] == b.edges_seq()[kb]);
        assert(a.spec_has_neighbor(m, e));
    }
    if a.spec_has_neighbor(m, e) && b.spec_has_neighbor(m, e) {
        let ka = choose|k: int|
            0 <= k < a.edges_seq().len() && #[trigger] a.edges_seq()[k].0 == m && a.edges_seq()[k].1
                == e;
        let kb = choose|k: int|
            0 <= k < b.edges_seq().len() && #[trigger] b.edges_seq()[k].0 == m && b.edges_seq()[k].1
                == e;
        assert(b.edges_seq()[ka] == a.edges_seq()[ka]);
        assert(b.edges_seq()[ka].0 == m && b.edges_seq()[ka].1 == e);
        if ka < kb {
            assert(!(b.edges_seq()[ka].0 == b.edges_seq()[kb].0 && b.edges_seq()[ka].1
                == b.edges_seq()[kb].1));
        } else if kb < ka {
            assert(!(b.edges_seq()[kb].0 == b.edges_seq()[ka].0 && b.edges_seq()[kb].1
                == b.edges_seq()[ka].1));
        }
        assert(ka == kb);
    }
}

/// Whether the cursor lies within the threshold band of the edge.
pub open spec fn near_edge(e: Edge, x: int, y: int, w: int, h: int, t: int) -> bool {
    match e {
        Edge::Right => x >= w - t,
        Edge::Left => x < t,
        Edge::Top => y < t,
        Edge::Bottom => y >= h - t,
    }
}

/// Edge detection is sound and complete: an edge comes back exactly when
/// it has a neighbor and the cursor is in its band, never more than one
/// at a time, and at a corner the horizontal edge wins.
pub proof fn lemma_detect_edge_exact(
    topo: &Topology,
    m: Seq<char>,
    x: int,
    y: int,
    w: int,
    h: int,
    t: int,
)
    ensures
        match topo.spec_detect_edge(m, x, y, w, h, t) {
            Some(e) => topo.spec_has_neighbor(m, e) && near_edge(e, x, y, w, h, t),
            None => forall|e: Edge|
                !(#[trigger] topo.spec_has_neighbor(m, e) && near_edge(e, x, y, w, h, t)),
        },
{
    if topo.spec_detect_edge(m, x, y, w, h, t) is None {
        assert forall|e: Edge| !(#[trigger] topo.spec_has_neighbor(m, e) && near_edge(
            e,
            x,
            y,
            w,
            h,
            t,
        )) by {
            match e {
                Edge::Right => {}
                Edge::Left => {}
                Edge::Top => {}
                Edge::Bottom => {}
            }
        }
    }
}

} // verus!
