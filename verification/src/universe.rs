//! The simulation engine: generations of a bounded Game-of-Life grid and the
//! transition that derives each generation from the previous one.
//!
//! A generation is a snapshot: the grid bound, a generation counter, the set
//! of live cells, and the cells that were born or died in the step that
//! produced it. The transition rule is specified by the spec functions
//! [`cell_dies`], [`cell_born`] and [`step_alive`], all defined over sets of
//! points; `tick` is proved to realise exactly those sets.

use random::Source;
use vstd::prelude::*;
use vstd::seq_lib::*;
use vstd::set_lib::*;

verus! {

broadcast use
    vstd::seq_lib::group_seq_properties,
    vstd::seq_lib::seq_to_set_is_finite,
    vstd::set::group_set_axioms;

/// A cell position: an ordered pair of signed coordinates, compared by value.
#[derive(Copy, Clone, PartialEq, Eq, Hash, Debug, Structural)]
pub struct Point(pub i32, pub i32);

/// The largest grid dimension the engine accepts. Coordinates are stored as
/// `i32`, so every in-bound coordinate `0 <= c < size` must fit in an `i32`;
/// `size <= 2^31` guarantees that.
pub const MAX_SIZE: u32 = 0x8000_0000;

/// A point lies on the `xsize` by `ysize` grid.
pub open spec fn in_bound(xsize: u32, ysize: u32, p: Point) -> bool {
    0 <= p.0 && p.0 < xsize && 0 <= p.1 && p.1 < ysize
}

/// Two distinct points are horizontally, vertically or diagonally adjacent.
pub open spec fn is_neighbor(p: Point, q: Point) -> bool {
    &&& p != q
    &&& -1 <= p.0 - q.0 && p.0 - q.0 <= 1
    &&& -1 <= p.1 - q.1 && p.1 - q.1 <= 1
}

/// The live, in-bound neighbors of `p`: cells outside the bound never count,
/// so a cell on the edge simply has fewer neighbors (no wraparound).
pub open spec fn live_nbrs(xsize: u32, ysize: u32, alive: Set<Point>, p: Point) -> Set<Point> {
    alive.filter(|q: Point| is_neighbor(p, q) && in_bound(xsize, ysize, q))
}

/// A live cell dies iff it has fewer than 2 or more than 3 live neighbors.
pub open spec fn cell_dies(xsize: u32, ysize: u32, alive: Set<Point>, p: Point) -> bool {
    live_nbrs(xsize, ysize, alive, p).len() < 2 || live_nbrs(xsize, ysize, alive, p).len() > 3
}

/// A dead, in-bound cell is born iff it has exactly 3 live neighbors.
pub open spec fn cell_born(xsize: u32, ysize: u32, alive: Set<Point>, p: Point) -> bool {
    &&& !alive.contains(p)
    &&& in_bound(xsize, ysize, p)
    &&& live_nbrs(xsize, ysize, alive, p).len() == 3
}

/// The cells that die in one step: the live cells for which `cell_dies` holds.
pub open spec fn step_died(xsize: u32, ysize: u32, alive: Set<Point>) -> Set<Point> {
    alive.filter(|p: Point| cell_dies(xsize, ysize, alive, p))
}

/// The cells born in one step.
pub open spec fn step_born(xsize: u32, ysize: u32, alive: Set<Point>) -> Set<Point> {
    Set::new(|p: Point| cell_born(xsize, ysize, alive, p))
}

/// The live set of the next generation: survivors plus births.
pub open spec fn step_alive(xsize: u32, ysize: u32, alive: Set<Point>) -> Set<Point> {
    Set::new(
        |p: Point|
            (alive.contains(p) && !cell_dies(xsize, ysize, alive, p)) || cell_born(
                xsize,
                ysize,
                alive,
                p,
            ),
    )
}

/// One generation of the simulation: an immutable snapshot. `alive` is the
/// sole input to the next transition; `born` and `died` report what the step
/// that produced this snapshot changed, relative to its predecessor.
#[derive(Debug)]
pub struct Universe {
    pub xsize: u32,
    pub ysize: u32,
    pub gen: u32,
    pub alive: Vec<Point>,
    pub died: Vec<Point>,
    pub born: Vec<Point>,
}

impl Universe {
    /// The live cells, as a set (the order of `alive` carries no meaning).
    pub open spec fn alive_set(self) -> Set<Point> {
        self.alive@.to_set()
    }

    /// The cells born in the step that produced this generation, as a set.
    pub open spec fn born_set(self) -> Set<Point> {
        self.born@.to_set()
    }

    /// The cells that died in the step that produced this generation, as a set.
    pub open spec fn died_set(self) -> Set<Point> {
        self.died@.to_set()
    }

    /// Well-formedness: dimensions fit the coordinate type, the three vectors
    /// are duplicate-free, every recorded cell is in bound, `born` is a subset
    /// of `alive`, and `died` is disjoint from `alive`.
    pub open spec fn wf(self) -> bool {
        &&& self.xsize <= MAX_SIZE
        &&& self.ysize <= MAX_SIZE
        &&& self.alive@.no_duplicates()
        &&& self.born@.no_duplicates()
        &&& self.died@.no_duplicates()
        &&& forall|i: int|
            0 <= i < self.alive@.len() ==> in_bound(self.xsize, self.ysize, #[trigger] self.alive@[i])
        &&& forall|i: int|
            0 <= i < self.died@.len() ==> in_bound(self.xsize, self.ysize, #[trigger] self.died@[i])
        &&& self.born_set().subset_of(self.alive_set())
        &&& self.died_set().disjoint(self.alive_set())
    }

    /// Builds generation 0 from a bound and a seed population. Out-of-bound
    /// seed coordinates are dropped and duplicates are removed, so the result
    /// is always well formed; `born` and `died` are empty, there being no
    /// prior generation.
    pub fn new(xsize: u32, ysize: u32, alive: Vec<Point>) -> (r: Universe)
        requires
            xsize <= MAX_SIZE,
            ysize <= MAX_SIZE,
        ensures
            r.xsize == xsize,
            r.ysize == ysize,
            r.gen == 0,
            r.alive_set() == alive@.to_set().filter(|p: Point| in_bound(xsize, ysize, p)),
            r.born@ == Seq::<Point>::empty(),
            r.died@ == Seq::<Point>::empty(),
            r.wf(),
    {
        let mut kept: Vec<Point> = Vec::new();
        let mut i: usize = 0;
        while i < alive.len()
            invariant
                i <= alive.len(),
                kept@.no_duplicates(),
                forall|q: Point|
                    #[trigger] kept@.contains(q) ==> alive@.contains(q) && in_bound(xsize, ysize, q),
                forall|j: int|
                    0 <= j < i && in_bound(xsize, ysize, #[trigger] alive@[j]) ==> kept@.contains(
                        alive@[j],
                    ),
            decreases alive.len() - i,
        {
            let p = alive[i];
            if pt_in_bound(xsize, ysize, &p) && !contains_point(&kept, &p) {
                let ghost old_kept = kept@;
                kept.push(p);
                assert(forall|q: Point|
                    #[trigger] kept@.contains(q) <==> old_kept.contains(q) || q == p);
            }
            assert(kept@.contains(alive@[i as int]) || !in_bound(xsize, ysize, alive@[i as int]));
            i += 1;
        }
        proof {
            assert forall|q: Point| #[trigger]
                kept@.to_set().contains(q) <==> alive@.to_set().filter(
                    |p: Point| in_bound(xsize, ysize, p),
                ).contains(q) by {
                if alive@.contains(q) && in_bound(xsize, ysize, q) {
                    let j = alive@.index_of(q);
                    assert(kept@.contains(alive@[j]));
                }
            }
            assert(kept@.to_set() =~= alive@.to_set().filter(
                |p: Point| in_bound(xsize, ysize, p),
            ));
            assert forall|j: int| 0 <= j < kept@.len() implies in_bound(
                xsize,
                ysize,
                kept@[j],
            ) by {
                assert(kept@.contains(kept@[j]));
            }
        }
        let r = Universe { xsize, ysize, gen: 0, alive: kept, died: Vec::new(), born: Vec::new() };
        proof {
            assert(r.born_set() =~= Set::<Point>::empty());
            assert(r.died_set() =~= Set::<Point>::empty());
        }
        r
    }
}

impl Universe {
    /// Computes the successor generation: the standard Game-of-Life rule on
    /// the bounded grid. The rule depends only on the current `alive` set;
    /// the input's `born` and `died` are not consulted. The bound is kept,
    /// the counter grows by exactly 1, and the three result sets are exactly
    /// [`step_alive`], [`step_died`] and [`step_born`] of the input's live
    /// set — whatever order the cells are stored or visited in.
    pub fn tick(self) -> (r: Universe)
        requires
            self.wf(),
            self.gen < u32::MAX,
        ensures
            r.xsize == self.xsize,
            r.ysize == self.ysize,
            r.gen == self.gen + 1,
            r.alive_set() == step_alive(self.xsize, self.ysize, self.alive_set()),
            r.died_set() == step_died(self.xsize, self.ysize, self.alive_set()),
            r.born_set() == step_born(self.xsize, self.ysize, self.alive_set()),
            r.born_set().subset_of(r.alive_set()),
            r.died_set().subset_of(self.alive_set()),
            r.wf(),
    {
        let ghost aset = self.alive@.to_set();
        // The live cells whose neighbor count falls outside 2..=3.
        let mut died: Vec<Point> = Vec::new();
        let mut i: usize = 0;
        while i < self.alive.len()
            invariant
                self.wf(),
                i <= self.alive@.len(),
                died@.no_duplicates(),
                forall|q: Point|
                    #[trigger] died@.contains(q) ==> self.alive@.contains(q) && cell_dies(
                        self.xsize,
                        self.ysize,
                        aset,
                        q,
                    ),
                forall|j: int|
                    0 <= j < i && cell_dies(self.xsize, self.ysize, aset, #[trigger] self.alive@[j])
                        ==> died@.contains(self.alive@[j]),
                aset == self.alive@.to_set(),
            decreases self.alive@.len() - i,
        {
            let p = self.alive[i];
            let ln = self.live_neighbors(&self.alive, &p);
            if (ln.len() < 2 || ln.len() > 3) && !contains_point(&died, &p) {
                died.push(p);
            }
            i += 1;
        }
        // The dead cells adjacent to a live one whose neighbor count is
        // exactly 3. Only such cells can be born, so enumerating the dead
        // neighbors of live cells covers every candidate.
        let mut born: Vec<Point> = Vec::new();
        i = 0;
        while i < self.alive.len()
            invariant
                self.wf(),
                i <= self.alive@.len(),
                born@.no_duplicates(),
                forall|q: Point|
                    #[trigger] born@.contains(q) ==> cell_born(self.xsize, self.ysize, aset, q),
                forall|j: int, q: Point|
                    0 <= j < i && !aset.contains(q) && #[trigger] is_neighbor(self.alive@[j], q)
                        && in_bound(self.xsize, self.ysize, q) && live_nbrs(
                        self.xsize,
                        self.ysize,
                        aset,
                        q,
                    ).len() == 3 ==> born@.contains(q),
                aset == self.alive@.to_set(),
            decreases self.alive@.len() - i,
        {
            let p = self.alive[i];
            let dn = self.dead_neighbors(&self.alive, &p);
            let mut k: usize = 0;
            while k < dn.len()
                invariant
                    self.wf(),
                    k <= dn@.len(),
                    born@.no_duplicates(),
                    forall|q: Point|
                        #[trigger] born@.contains(q) ==> cell_born(self.xsize, self.ysize, aset, q),
                    forall|m: int|
                        0 <= m < k && live_nbrs(self.xsize, self.ysize, aset, #[trigger] dn@[m]).len()
                            == 3 ==> born@.contains(dn@[m]),
                    forall|q: Point|
                        #[trigger] dn@.contains(q) <==> !self.alive@.contains(q) && is_neighbor(
                            self.alive@[i as int],
                            q,
                        ) && in_bound(self.xsize, self.ysize, q),
                    forall|j: int, q: Point|
                        0 <= j < i && !aset.contains(q) && #[trigger] is_neighbor(self.alive@[j], q)
                            && in_bound(self.xsize, self.ysize, q) && live_nbrs(
                            self.xsize,
                            self.ysize,
                            aset,
                            q,
                        ).len() == 3 ==> born@.contains(q),
                    i < self.alive@.len(),
                    aset == self.alive@.to_set(),
                decreases dn@.len() - k,
            {
                let q = dn[k];
                let ln = self.live_neighbors(&self.alive, &q);
                if ln.len() == 3 && !contains_point(&born, &q) {
                    proof {
                        assert(dn@.contains(q));
                    }
                    born.push(q);
                }
                k += 1;
            }
            proof {
                assert forall|q: Point|
                    !aset.contains(q) && #[trigger] is_neighbor(self.alive@[i as int], q)
                        && in_bound(self.xsize, self.ysize, q) && live_nbrs(
                        self.xsize,
                        self.ysize,
                        aset,
                        q,
                    ).len() == 3 implies born@.contains(q) by {
                    assert(dn@.contains(q));
                    let m = dn@.index_of(q);
                    assert(born@.contains(dn@[m]));
                }
            }
            i += 1;
        }
        // Survivors: the live cells that did not die.
        let mut next: Vec<Point> = Vec::new();
        i = 0;
        while i < self.alive.len()
            invariant
                self.wf(),
                i <= self.alive@.len(),
                next@.no_duplicates(),
                forall|q: Point|
                    #[trigger] next@.contains(q) ==> self.alive@.contains(q) && !died@.contains(q),
                forall|j: int|
                    0 <= j < i && !died@.contains(#[trigger] self.alive@[j]) ==> next@.contains(
                        self.alive@[j],
                    ),
                died@.no_duplicates(),
                forall|q: Point|
                    #[trigger] died@.contains(q) ==> self.alive@.contains(q) && cell_dies(
                        self.xsize,
                        self.ysize,
                        aset,
                        q,
                    ),
                forall|j: int|
                    0 <= j < self.alive@.len() && cell_dies(
                        self.xsize,
                        self.ysize,
                        aset,
                        #[trigger] self.alive@[j],
                    ) ==> died@.contains(self.alive@[j]),
                aset == self.alive@.to_set(),
            decreases self.alive@.len() - i,
        {
            let p = self.alive[i];
            if !contains_point(&died, &p) && !contains_point(&next, &p) {
                next.push(p);
            }
            i += 1;
        }
        // Births extend the survivors; a born cell is dead now, so it cannot
        // already be present.
        let ghost survivors = next@;
        i = 0;
        while i < born.len()
            invariant
                i <= born@.len(),
                born@.no_duplicates(),
                forall|q: Point|
                    #[trigger] born@.contains(q) ==> cell_born(self.xsize, self.ysize, aset, q),
                next@.no_duplicates(),
                next@ == survivors + born@.take(i as int),
                forall|q: Point|
                    #[trigger] survivors.contains(q) ==> self.alive@.contains(q),
                aset == self.alive@.to_set(),
            decreases born@.len() - i,
        {
            let q = born[i];
            proof {
                assert(born@.contains(born@[i as int]));
                if next@.contains(q) {
                    assert(survivors.contains(q) || born@.take(i as int).contains(q));
                }
                assert(born@.take(i + 1) =~= born@.take(i as int).push(q));
            }
            next.push(q);
            i += 1;
        }
        proof {
            assert(born@.take(born@.len() as int) =~= born@);
        }
        let r = Universe {
            xsize: self.xsize,
            ysize: self.ysize,
            gen: self.gen + 1,
            alive: next,
            died,
            born,
        };
        proof {
            // Every cell the rule declares born was reached by the
            // enumeration: a count of 3 live neighbors yields a live witness
            // adjacent to it.
            assert forall|q: Point|
                cell_born(self.xsize, self.ysize, aset, q) implies born@.contains(q) by {
                let lns = live_nbrs(self.xsize, self.ysize, aset, q);
                aset.lemma_len_filter(
                    |q2: Point| is_neighbor(q, q2) && in_bound(self.xsize, self.ysize, q2),
                );
                if !(exists|a: Point| lns.contains(a)) {
                    assert(lns =~= Set::<Point>::empty());
                }
                let a = choose|a: Point| lns.contains(a);
                assert(aset.contains(a) && is_neighbor(q, a));
                assert(is_neighbor(a, q));
                let j = self.alive@.index_of(a);
                assert(is_neighbor(self.alive@[j], q));
            }
            assert forall|q: Point| #[trigger]
                r.alive@.contains(q) <==> step_alive(self.xsize, self.ysize, aset).contains(q) by {
                assert(r.alive@ == survivors + r.born@);
                if r.alive@.contains(q) {
                    assert(survivors.contains(q) || r.born@.contains(q));
                }
                if aset.contains(q) && !cell_dies(self.xsize, self.ysize, aset, q) {
                    let j = self.alive@.index_of(q);
                    assert(survivors.contains(self.alive@[j]));
                }
            }
            assert(r.alive_set() =~= step_alive(self.xsize, self.ysize, aset));
            assert forall|q: Point| #[trigger]
                r.died@.contains(q) <==> step_died(self.xsize, self.ysize, aset).contains(q) by {
                if aset.contains(q) && cell_dies(self.xsize, self.ysize, aset, q) {
                    let j = self.alive@.index_of(q);
                    assert(r.died@.contains(self.alive@[j]));
                }
            }
            assert(r.died_set() =~= step_died(self.xsize, self.ysize, aset));
            assert(r.born_set() =~= step_born(self.xsize, self.ysize, aset));
            assert forall|j: int| 0 <= j < r.alive@.len() implies in_bound(
                self.xsize,
                self.ysize,
                r.alive@[j],
            ) by {
                assert(r.alive@.contains(r.alive@[j]));
                if survivors.contains(r.alive@[j]) {
                    let m = self.alive@.index_of(r.alive@[j]);
                    assert(in_bound(self.xsize, self.ysize, self.alive@[m]));
                }
            }
            assert forall|j: int| 0 <= j < r.died@.len() implies in_bound(
                self.xsize,
                self.ysize,
                r.died@[j],
            ) by {
                assert(r.died@.contains(r.died@[j]));
                let m = self.alive@.index_of(r.died@[j]);
                assert(in_bound(self.xsize, self.ysize, self.alive@[m]));
            }
            assert(r.born_set().subset_of(r.alive_set()));
            assert(r.died_set().disjoint(r.alive_set()));
        }
        r
    }

    /// The up-to-8 in-bound grid neighbors of `p`. Candidates that fall
    /// outside the bound are discarded, so a cell on the boundary has fewer
    /// than 8 neighbors and no coordinate ever wraps around.
    fn neighbors(&self, p: &Point) -> (r: Vec<Point>)
        requires
            self.xsize <= MAX_SIZE,
            self.ysize <= MAX_SIZE,
        ensures
            r@.no_duplicates(),
            forall|q: Point|
                #[trigger] r@.contains(q) <==> is_neighbor(*p, q) && in_bound(
                    self.xsize,
                    self.ysize,
                    q,
                ),
    {
        let x = p.0 as i64;
        let y = p.1 as i64;
        let mut r: Vec<Point> = Vec::new();
        self.push_if_in_bound(&mut r, x + 1, y);
        self.push_if_in_bound(&mut r, x - 1, y);
        self.push_if_in_bound(&mut r, x, y + 1);
        self.push_if_in_bound(&mut r, x, y - 1);
        self.push_if_in_bound(&mut r, x + 1, y + 1);
        self.push_if_in_bound(&mut r, x - 1, y + 1);
        self.push_if_in_bound(&mut r, x + 1, y - 1);
        self.push_if_in_bound(&mut r, x - 1, y - 1);
        r
    }

    /// Appends the cell at `(nx, ny)` unless it lies off the grid or is
    /// already present.
    fn push_if_in_bound(&self, r: &mut Vec<Point>, nx: i64, ny: i64)
        requires
            self.xsize <= MAX_SIZE,
            self.ysize <= MAX_SIZE,
            old(r)@.no_duplicates(),
        ensures
            final(r)@.no_duplicates(),
            forall|q: Point|
                #[trigger] final(r)@.contains(q) <==> old(r)@.contains(q) || (0 <= nx && nx
                    < self.xsize && 0 <= ny && ny < self.ysize && q.0 == nx && q.1 == ny),
    {
        if 0 <= nx && nx < self.xsize as i64 && 0 <= ny && ny < self.ysize as i64 {
            let p = Point(nx as i32, ny as i32);
            if !contains_point(r, &p) {
                r.push(p);
            }
        }
    }

    /// The members of `alive` among the in-bound neighbors of `p`.
    fn live_neighbors(&self, alive: &Vec<Point>, p: &Point) -> (r: Vec<Point>)
        requires
            self.xsize <= MAX_SIZE,
            self.ysize <= MAX_SIZE,
        ensures
            r@.no_duplicates(),
            forall|q: Point|
                #[trigger] r@.contains(q) <==> alive@.contains(q) && is_neighbor(*p, q) && in_bound(
                    self.xsize,
                    self.ysize,
                    q,
                ),
            r@.len() == live_nbrs(self.xsize, self.ysize, alive@.to_set(), *p).len(),
            r@.to_set() == live_nbrs(self.xsize, self.ysize, alive@.to_set(), *p),
    {
        let ns = self.neighbors(p);
        let mut r: Vec<Point> = Vec::new();
        let mut i: usize = 0;
        while i < ns.len()
            invariant
                i <= ns.len(),
                r@.no_duplicates(),
                forall|q: Point|
                    #[trigger] r@.contains(q) ==> ns@.contains(q) && alive@.contains(q),
                forall|j: int|
                    0 <= j < i && alive@.contains(#[trigger] ns@[j]) ==> r@.contains(ns@[j]),
            decreases ns.len() - i,
        {
            let q = ns[i];
            if contains_point(alive, &q) && !contains_point(&r, &q) {
                r.push(q);
            }
            i += 1;
        }
        proof {
            assert forall|q: Point| #[trigger] r@.contains(q) <==> alive@.contains(q)
                && is_neighbor(*p, q) && in_bound(self.xsize, self.ysize, q) by {
                if alive@.contains(q) && is_neighbor(*p, q) && in_bound(self.xsize, self.ysize, q) {
                    assert(ns@.contains(q));
                    let j = ns@.index_of(q);
                    assert(r@.contains(ns@[j]));
                }
            }
            assert(r@.to_set() =~= live_nbrs(self.xsize, self.ysize, alive@.to_set(), *p));
            r@.unique_seq_to_set();
        }
        r
    }

    /// The in-bound neighbors of `p` that are not members of `alive`: the
    /// dead cells around a live one, the only candidates for birth.
    fn dead_neighbors(&self, alive: &Vec<Point>, p: &Point) -> (r: Vec<Point>)
        requires
            self.xsize <= MAX_SIZE,
            self.ysize <= MAX_SIZE,
        ensures
            r@.no_duplicates(),
            forall|q: Point|
                #[trigger] r@.contains(q) <==> !alive@.contains(q) && is_neighbor(*p, q)
                    && in_bound(self.xsize, self.ysize, q),
    {
        let ns = self.neighbors(p);
        let mut r: Vec<Point> = Vec::new();
        let mut i: usize = 0;
        while i < ns.len()
            invariant
                i <= ns.len(),
                r@.no_duplicates(),
                forall|q: Point|
                    #[trigger] r@.contains(q) ==> ns@.contains(q) && !alive@.contains(q),
                forall|j: int|
                    0 <= j < i && !alive@.contains(#[trigger] ns@[j]) ==> r@.contains(ns@[j]),
            decreases ns.len() - i,
        {
            let q = ns[i];
            if !contains_point(alive, &q) && !contains_point(&r, &q) {
                r.push(q);
            }
            i += 1;
        }
        proof {
            assert forall|q: Point| #[trigger] r@.contains(q) <==> !alive@.contains(q)
                && is_neighbor(*p, q) && in_bound(self.xsize, self.ysize, q) by {
                if !alive@.contains(q) && is_neighbor(*p, q) && in_bound(self.xsize, self.ysize, q) {
                    assert(ns@.contains(q));
                    let j = ns@.index_of(q);
                    assert(r@.contains(ns@[j]));
                }
            }
        }
        r
    }
}

/// No wraparound at the corner: every live neighbor counted for the cell at
/// `(0, 0)` is one of its at most 3 grid neighbors `(1, 0)`, `(0, 1)` and
/// `(1, 1)` — never a cell at the far edge of the grid — so its live
/// neighbor count never exceeds 3.
pub proof fn lemma_corner_neighbors(xsize: u32, ysize: u32, alive: Set<Point>)
    requires
        alive.finite(),
    ensures
        forall|q: Point|
            #[trigger] live_nbrs(xsize, ysize, alive, Point(0, 0)).contains(q) ==> (q == Point(1, 0)
                || q == Point(0, 1) || q == Point(1, 1)),
        live_nbrs(xsize, ysize, alive, Point(0, 0)).len() <= 3,
{
    let lns = live_nbrs(xsize, ysize, alive, Point(0, 0));
    let three = set![Point(1, 0), Point(0, 1), Point(1, 1)];
    assert forall|q: Point| #[trigger] lns.contains(q) implies three.contains(q) by {
        assert(q.0 == 0 || q.0 == 1);
        assert(q.1 == 0 || q.1 == 1);
        assert(q == Point(q.0, q.1));
    }
    lemma_len_subset(lns, three);
}

/// Advancing is order-independent: the next generation's sets depend only on
/// the bound and on which cells are alive, never on the order the live cells
/// are stored or visited in, nor on the input's `born`/`died` history.
pub proof fn lemma_advance_order_independent(u1: Universe, u2: Universe)
    requires
        u1.xsize == u2.xsize,
        u1.ysize == u2.ysize,
        u1.alive_set() == u2.alive_set(),
    ensures
        step_alive(u1.xsize, u1.ysize, u1.alive_set()) == step_alive(
            u2.xsize,
            u2.ysize,
            u2.alive_set(),
        ),
        step_died(u1.xsize, u1.ysize, u1.alive_set()) == step_died(
            u2.xsize,
            u2.ysize,
            u2.alive_set(),
        ),
        step_born(u1.xsize, u1.ysize, u1.alive_set()) == step_born(
            u2.xsize,
            u2.ysize,
            u2.alive_set(),
        ),
{
}

/// An isolated live cell dies of under-population in one step and nothing is
/// born: advancing `{p}` leaves an empty grid, with `died = {p}`.
pub proof fn lemma_lone_cell_dies(xsize: u32, ysize: u32, p: Point)
    requires
        in_bound(xsize, ysize, p),
    ensures
        step_alive(xsize, ysize, set![p]) =~= Set::<Point>::empty(),
        step_died(xsize, ysize, set![p]) =~= set![p],
        step_born(xsize, ysize, set![p]) =~= Set::<Point>::empty(),
{
    let s = set![p];
    assert forall|q: Point| #[trigger] live_nbrs(xsize, ysize, s, q).len() <= 1 by {
        lemma_len_subset(live_nbrs(xsize, ysize, s, q), s);
    }
    assert(live_nbrs(xsize, ysize, s, p) =~= Set::<Point>::empty());
    assert(cell_dies(xsize, ysize, s, p));
}

/// The four cells of a solid 2-by-2 block whose top-left cell is `p`.
pub open spec fn block_cells(p: Point) -> Set<Point> {
    set![
        p,
        Point((p.0 + 1) as i32, p.1),
        Point(p.0, (p.1 + 1) as i32),
        Point((p.0 + 1) as i32, (p.1 + 1) as i32),
    ]
}

/// A solid 2-by-2 block of live cells with nothing else alive is a still
/// life: each of its cells has exactly 3 live neighbors and survives, every
/// dead cell sees at most 2, so one step changes nothing — nothing dies,
/// nothing is born, and the live set is unchanged.
pub proof fn lemma_block_still_life(xsize: u32, ysize: u32, p: Point)
    requires
        0 <= p.0,
        p.0 + 1 < xsize,
        0 <= p.1,
        p.1 + 1 < ysize,
        xsize <= MAX_SIZE,
        ysize <= MAX_SIZE,
    ensures
        step_alive(xsize, ysize, block_cells(p)) =~= block_cells(p),
        step_died(xsize, ysize, block_cells(p)) =~= Set::<Point>::empty(),
        step_born(xsize, ysize, block_cells(p)) =~= Set::<Point>::empty(),
{
    let s = block_cells(p);
    let a = p;
    let b = Point((p.0 + 1) as i32, p.1);
    let c = Point(p.0, (p.1 + 1) as i32);
    let d = Point((p.0 + 1) as i32, (p.1 + 1) as i32);
    assert(b.0 == p.0 + 1 && d.0 == p.0 + 1 && c.1 == p.1 + 1 && d.1 == p.1 + 1);
    assert(s.finite());
    // Each block cell is adjacent to the other three, and they are all the
    // live cells there are: every block cell has exactly 3 live neighbors.
    assert forall|q: Point| #[trigger] s.contains(q) implies live_nbrs(xsize, ysize, s, q)
        =~= s.remove(q) by {}
    assert(s.remove(a).len() == 3 && s.remove(b).len() == 3 && s.remove(c).len() == 3 && s.remove(
        d,
    ).len() == 3);
    assert forall|q: Point| #[trigger] s.contains(q) implies !cell_dies(xsize, ysize, s, q) by {
        assert(live_nbrs(xsize, ysize, s, q) =~= s.remove(q));
        assert(q == Point(q.0, q.1));
        assert(q == a || q == b || q == c || q == d);
    }
    // A dead cell sees at most 2 of the block's cells: the block spans only
    // 2 columns and 2 rows, and a cell outside it is beyond one of them.
    assert forall|q: Point| !s.contains(q) implies live_nbrs(xsize, ysize, s, q).len() <= 2 by {
        let lns = live_nbrs(xsize, ysize, s, q);
        if q.0 <= p.0 - 1 {
            assert(lns.subset_of(set![a, c]));
            lemma_len_subset(lns, set![a, c]);
        } else if q.0 >= p.0 + 2 {
            assert(lns.subset_of(set![b, d]));
            lemma_len_subset(lns, set![b, d]);
        } else if q.1 <= p.1 - 1 {
            assert(lns.subset_of(set![a, b]));
            lemma_len_subset(lns, set![a, b]);
        } else if q.1 >= p.1 + 2 {
            assert(lns.subset_of(set![c, d]));
            lemma_len_subset(lns, set![c, d]);
        } else {
            assert(q == Point(q.0, q.1));
            assert(s.contains(q));
        }
    }
}

/// Whether `p` lies on the grid; the executable counterpart of [`in_bound`].
pub(crate) fn pt_in_bound(xsize: u32, ysize: u32, p: &Point) -> (b: bool)
    ensures
        b == in_bound(xsize, ysize, *p),
{
    p.0 >= 0 && (p.0 as i64) < (xsize as i64) && p.1 >= 0 && (p.1 as i64) < (ysize as i64)
}

/// The pseudo-random source used for seeding grids: the `random` crate's
/// Xorshift128+ generator, its default source. Opaque to the verifier; its
/// values pass straight into arithmetic that is verified for every outcome.
#[verifier::external_type_specification]
#[verifier::external_body]
pub struct ExXorshift(random::Xorshift128Plus);

/// Relies on `random::default`, which builds the Xorshift128+ source from a
/// seed. Total: the two state words it derives from the seed can never both
/// be zero, so its seed check always passes.
#[verifier::external_body]
fn rng_from_seed(seed: u64) -> random::Xorshift128Plus {
    random::default(seed)
}

/// Relies on `random::Source::read`, which advances the source and hands out
/// its next value; nothing is promised of the value drawn.
#[verifier::external_body]
fn next_random_u32(src: &mut random::Xorshift128Plus) -> u32 {
    src.read::<u32>()
}

/// Seeds a population: draws `n` coordinate pairs from the Xorshift128+
/// source started at `seed` and reduces each draw into the bound. Which
/// cells come out depends on the draws alone; every one of them lies on the
/// grid, and repeats may occur (the list is a sample, not a set).
pub fn random_alive(n: u32, xsize: u32, ysize: u32, seed: u64) -> (r: Vec<Point>)
    requires
        1 <= xsize <= MAX_SIZE,
        1 <= ysize <= MAX_SIZE,
    ensures
        r@.len() == n,
        forall|i: int| 0 <= i < r@.len() ==> in_bound(xsize, ysize, #[trigger] r@[i]),
{
    let mut rand = rng_from_seed(seed);
    let mut r: Vec<Point> = Vec::new();
    let mut i: u32 = 0;
    while i < n
        invariant
            i <= n,
            r@.len() == i,
            1 <= xsize <= MAX_SIZE,
            1 <= ysize <= MAX_SIZE,
            forall|j: int| 0 <= j < r@.len() ==> in_bound(xsize, ysize, #[trigger] r@[j]),
        decreases n - i,
    {
        let x = next_random_u32(&mut rand) % xsize;
        let y = next_random_u32(&mut rand) % ysize;
        r.push(Point(x as i32, y as i32));
        i += 1;
    }
    r
}

/// Linear search for a point; the executable counterpart of `Seq::contains`.
pub(crate) fn contains_point(v: &Vec<Point>, p: &Point) -> (b: bool)
    ensures
        b == v@.contains(*p),
{
    let mut i: usize = 0;
    while i < v.len()
        invariant
            i <= v.len(),
            forall|j: int| 0 <= j < i ==> v@[j] != *p,
        decreases v.len() - i,
    {
        if v[i].0 == p.0 && v[i].1 == p.1 {
            return true;
        }
        i += 1;
    }
    false
}

} // verus!
