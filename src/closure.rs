use vstd::prelude::*;
use crate::error::GsimError;

verus! {

/// Where a candidate for the basis comes from: a generator, given by its
/// position in the generator set, or the commutator `[B_a, B_b]` of two
/// basis operators already found.
#[derive(Clone, Copy, Debug, PartialEq, Eq, Structural)]
pub enum Origin {
    Generator(usize),
    Commutator(usize, usize),
}

/// The work list of the Lie closure of a generator set.
///
/// Candidates are handed out by `next`: first each generator in order, then
/// the commutator of each pair of basis operators `(a, b)` with `a < b`,
/// ordered by `b` and then by `a`. The caller orthogonalizes the candidate
/// against the basis found so far and reports with `record` whether a
/// non-negligible residual remained; if so, the normalized residual becomes
/// the next basis operator, and its pairs join the work list. The basis of
/// `d × d` operators never exceeds `d²` elements, so the work stops there.
pub struct Closure {
    pub n_generators: usize,
    pub capacity: usize,
    pub next_generator: usize,
    pub i: usize,
    pub j: usize,
    pub origins: Vec<Origin>,
    pub submitted: Ghost<Seq<Origin>>,
}

/// The abstract state of a `Closure`.
pub struct ClosureModel {
    pub n_generators: nat,
    pub capacity: nat,
    pub next_generator: nat,
    pub i: nat,
    pub j: nat,
    /// The origin of each basis operator, in basis order.
    pub origins: Seq<Origin>,
    /// Every candidate handed out so far, in order.
    pub submitted: Seq<Origin>,
}

impl View for Closure {
    type V = ClosureModel;

    open spec fn view(&self) -> ClosureModel {
        ClosureModel {
            n_generators: self.n_generators as nat,
            capacity: self.capacity as nat,
            next_generator: self.next_generator as nat,
            i: self.i as nat,
            j: self.j as nat,
            origins: self.origins@,
            submitted: self.submitted@,
        }
    }
}

impl ClosureModel {
    /// The state before any candidate was handed out.
    pub open spec fn initial(n_generators: nat, capacity: nat) -> ClosureModel {
        ClosureModel {
            n_generators,
            capacity,
            next_generator: 0,
            i: 0,
            j: 1,
            origins: Seq::empty(),
            submitted: Seq::empty(),
        }
    }

    /// A measure of the work left, which every `record` lowers.
    pub open spec fn rank(self) -> nat {
        let bound = (self.capacity + 2) * self.capacity;
        let weight = self.n_generators + bound + 1;
        let position = self.j * self.capacity + self.i;
        ((self.capacity - self.size()) * weight + (self.n_generators - self.next_generator) + (
        bound - position)) as nat
    }

    /// The number of basis operators found so far.
    pub open spec fn size(self) -> nat {
        self.origins.len()
    }

    /// The cursor has passed candidate `o`.
    pub open spec fn passed(self, o: Origin) -> bool {
        match o {
            Origin::Generator(g) => g < self.next_generator,
            Origin::Commutator(a, b) => a < b && (b < self.j || (b == self.j && a < self.i)),
        }
    }

    /// Basis operator `k` came from an existing generator, or from two
    /// basis operators found before it.
    pub open spec fn origin_ok(self, k: int) -> bool {
        match self.origins[k] {
            Origin::Generator(g) => g < self.n_generators,
            Origin::Commutator(a, b) => a < b < k,
        }
    }

    /// The basis fits its capacity, the cursor stays within the pairs of the
    /// basis, each basis operator has a valid origin, and the candidates
    /// handed out are exactly those the cursor has passed.
    pub open spec fn wf(self) -> bool {
        &&& self.n_generators <= usize::MAX
        &&& self.capacity <= usize::MAX
        &&& self.size() <= self.capacity
        &&& self.next_generator <= self.n_generators
        &&& 1 <= self.j
        &&& self.i < self.j
        &&& self.j <= self.size() + 1
        &&& self.j == self.size() + 1 ==> self.i == 0
        &&& self.next_generator < self.n_generators ==> self.j == 1 && self.i == 0
        &&& forall|k: int| 0 <= k < self.size() ==> #[trigger] self.origin_ok(k)
        &&& forall|o: Origin| self.submitted.contains(o) <==> #[trigger] self.passed(o)
    }

    /// The candidate that is handed out next, or `None` once the closure is
    /// complete or the basis is full.
    pub open spec fn pending(self) -> Option<Origin> {
        if self.size() >= self.capacity {
            None
        } else if self.next_generator < self.n_generators {
            Some(Origin::Generator(self.next_generator as usize))
        } else if self.j < self.size() {
            Some(Origin::Commutator(self.i as usize, self.j as usize))
        } else {
            None
        }
    }

    /// The state after the pending candidate was reported independent or not.
    pub open spec fn after(self, independent: bool) -> ClosureModel
        recommends
            self.pending() is Some,
    {
        let o = self.pending()->Some_0;
        let origins = if independent {
            self.origins.push(o)
        } else {
            self.origins
        };
        let submitted = self.submitted.push(o);
        match o {
            Origin::Generator(g) => ClosureModel {
                next_generator: g as nat + 1,
                origins,
                submitted,
                ..self
            },
            Origin::Commutator(a, b) => if a + 1 == b {
                ClosureModel { i: 0, j: b as nat + 1, origins, submitted, ..self }
            } else {
                ClosureModel { i: a as nat + 1, origins, submitted, ..self }
            },
        }
    }
}

/// Handing out the pending candidate keeps the state well formed.
pub proof fn lemma_after_wf(c: ClosureModel, independent: bool)
    requires
        c.wf(),
        c.pending() is Some,
    ensures
        c.after(independent).wf(),
{
    let o = c.pending()->Some_0;
    let n = c.after(independent);
    assert forall|k: int| 0 <= k < n.size() implies #[trigger] n.origin_ok(k) by {
        if k < c.size() {
            assert(c.origin_ok(k));
        }
    }
    assert forall|o2: Origin| n.submitted.contains(o2) <==> #[trigger] n.passed(o2) by {
        vstd::seq_lib::lemma_seq_contains_after_push(c.submitted, o, o2);
        assert(c.submitted.contains(o2) <==> c.passed(o2));
        match o2 {
            Origin::Generator(g) => {},
            Origin::Commutator(a, b) => {},
        }
    }
}

/// Once no candidate is pending and the basis is not full, every generator
/// and the commutator of every pair of basis operators has been handed out:
/// the span of the basis is closed under the bracket.
pub proof fn lemma_closure_complete(c: ClosureModel)
    requires
        c.wf(),
        c.pending() is None,
        c.size() < c.capacity,
    ensures
        forall|g: usize| g < c.n_generators ==> c.submitted.contains(Origin::Generator(g)),
        forall|a: usize, b: usize|
            a < b < c.size() ==> #[trigger] c.submitted.contains(Origin::Commutator(a, b)),
{
    assert forall|g: usize| g < c.n_generators implies c.submitted.contains(
        Origin::Generator(g),
    ) by {
        assert(c.passed(Origin::Generator(g)));
    }
    assert forall|a: usize, b: usize| a < b < c.size() implies #[trigger] c.submitted.contains(
        Origin::Commutator(a, b),
    ) by {
        assert(c.passed(Origin::Commutator(a, b)));
    }
}

/// A single generator that leaves a non-zero residual yields a basis of one
/// operator, which comes from that generator, and nothing more is computed:
/// a generator commutes with itself. A single zero generator yields no basis.
pub proof fn lemma_single_generator(dim: usize)
    requires
        1 <= dim,
        dim * dim <= usize::MAX,
    ensures
        ClosureModel::initial(1, (dim * dim) as nat).wf(),
        ClosureModel::initial(1, (dim * dim) as nat).pending() == Some(Origin::Generator(0)),
        ClosureModel::initial(1, (dim * dim) as nat).after(true).pending() is None,
        ClosureModel::initial(1, (dim * dim) as nat).after(true).origins == seq![Origin::Generator(0)],
        ClosureModel::initial(1, (dim * dim) as nat).after(false).pending() is None,
        ClosureModel::initial(1, (dim * dim) as nat).after(false).size() == 0,
{
    let capacity = (dim * dim) as nat;
    assert(capacity >= 1) by (nonlinear_arith)
        requires
            capacity == dim * dim,
            dim >= 1,
    ;
    let c = ClosureModel::initial(1, capacity);
    assert forall|o: Origin| c.submitted.contains(o) <==> #[trigger] c.passed(o) by {}
    assert(c.after(true).origins =~= seq![Origin::Generator(0)]);
}

/// Every `record` lowers `rank`, so the work list empties after finitely
/// many candidates.
pub proof fn lemma_record_progress(c: ClosureModel, independent: bool)
    requires
        c.wf(),
        c.pending() is Some,
    ensures
        c.after(independent).rank() < c.rank(),
{
    let n = c.after(independent);
    lemma_after_wf(c, independent);
    let cap = c.capacity as int;
    let bound = (cap + 2) * cap;
    let weight = c.n_generators + bound + 1;
    assert(c.j * cap + c.i <= bound) by (nonlinear_arith)
        requires
            c.j <= cap + 1,
            c.i < c.j,
            bound == (cap + 2) * cap,
            cap >= 0,
    ;
    assert(n.j * cap + n.i <= bound) by (nonlinear_arith)
        requires
            n.j <= cap + 1,
            n.i < n.j,
            bound == (cap + 2) * cap,
            cap >= 0,
    ;
    assert(n.j * cap + n.i >= c.j * cap + c.i) by (nonlinear_arith)
        requires
            n.j == c.j && n.i >= c.i || n.j == c.j + 1,
            c.i < c.j,
            c.j <= cap,
            cap >= 0,
    ;
    assert((cap - n.size()) * weight <= (cap - c.size()) * weight) by (nonlinear_arith)
        requires
            n.size() >= c.size(),
            weight >= 0,
    ;
    assert(n.size() > c.size() ==> (cap - n.size()) * weight + weight == (cap - c.size())
        * weight) by (nonlinear_arith)
        requires
            n.size() == c.size() + 1 || n.size() == c.size(),
    ;
    assert(n.j * cap + n.i > c.j * cap + c.i || n.next_generator > c.next_generator) by (
    nonlinear_arith)
        requires
            n.j == c.j && n.i == c.i + 1 || n.j == c.j + 1 && n.i == 0 && c.i + 1 == c.j
                || n.next_generator == c.next_generator + 1,
            c.j <= cap,
            cap >= 0,
    ;
}

impl Closure {
    /// Starts the closure of `n_generators` generators of dimension `dim`.
    pub fn new(n_generators: usize, dim: usize) -> (r: Closure)
        requires
            dim * dim <= usize::MAX,
        ensures
            r@ == ClosureModel::initial(n_generators as nat, (dim * dim) as nat),
            r@.wf(),
    {
        Closure {
            n_generators,
            capacity: dim * dim,
            next_generator: 0,
            i: 0,
            j: 1,
            origins: Vec::new(),
            submitted: Ghost(Seq::empty()),
        }
    }

    /// The number of basis operators found so far.
    pub fn size(&self) -> (r: usize)
        ensures
            r == self@.size(),
    {
        self.origins.len()
    }

    /// The next candidate to orthogonalize, or `None` when the work is done.
    pub fn next(&self) -> (r: Option<Origin>)
        requires
            self@.wf(),
        ensures
            r == self@.pending(),
    {
        if self.origins.len() >= self.capacity {
            None
        } else if self.next_generator < self.n_generators {
            Some(Origin::Generator(self.next_generator))
        } else if self.j < self.origins.len() {
            Some(Origin::Commutator(self.i, self.j))
        } else {
            None
        }
    }

    /// Records whether the pending candidate left an independent residual,
    /// which then becomes the next basis operator.
    pub fn record(&mut self, independent: bool)
        requires
            old(self)@.wf(),
            old(self)@.pending() is Some,
        ensures
            final(self)@ == old(self)@.after(independent),
            final(self)@.wf(),
    {
        let o = self.next().unwrap();
        if independent {
            self.origins.push(o);
        }
        self.submitted = Ghost(self.submitted@.push(o));
        match o {
            Origin::Generator(g) => {
                self.next_generator = g + 1;
            },
            Origin::Commutator(a, b) => {
                if a + 1 == b {
                    self.i = 0;
                    self.j = b + 1;
                } else {
                    self.i = a + 1;
                }
            },
        }
        proof {
            lemma_after_wf(old(self)@, independent);
        }
    }

    /// The origins of the basis operators, or `DegenerateInput` when no
    /// generator left a non-zero residual.
    pub fn finish(self) -> (r: Result<Vec<Origin>, GsimError>)
        ensures
            self@.size() == 0 ==> r == Err::<Vec<Origin>, GsimError>(GsimError::DegenerateInput),
            self@.size() > 0 ==> (r matches Ok(v) && v@ == self@.origins),
    {
        if self.origins.len() == 0 {
            Err(GsimError::DegenerateInput)
        } else {
            Ok(self.origins)
        }
    }
}

} // verus!
