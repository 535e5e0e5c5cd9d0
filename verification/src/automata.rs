//! The automaton engine: a fixed-size toroidal lattice of boolean cells, a
//! rule, and the append-only history of the generations computed so far.

use vstd::prelude::*;

use crate::kernel::Kernel;
use crate::kernel::Kernel1D;
use crate::kernel::kernel1_indices;
use crate::kernel::pack;
use crate::rule::Rule;

verus! {

use vstd::arithmetic::power2::lemma2_to64;
use crate::kernel::lemma_pack_bound;

/// Why a construction attempt was rejected.
#[derive(Clone, Copy, PartialEq, Eq, Structural, Debug)]
pub enum AutomataError {
    /// The requested lattice size is not positive.
    InvalidSize,
    /// The seed generation's length differs from the requested size.
    SizeMismatch,
}

/// The cell at coordinate x of the generation that follows `last`: the rule
/// applied to the 1D kernel at x, evaluated against `last`.
pub open spec fn next_cell<R: Rule>(f: R, size: usize, last: Seq<bool>, x: usize) -> bool {
    f.spec_apply(pack(kernel1_indices(x, size), last) as u8)
}

/// The whole generation that follows `last`, cell by cell in coordinate
/// order.
pub open spec fn next_generation_spec<R: Rule>(f: R, size: usize, last: Seq<bool>) -> Seq<bool> {
    Seq::new(size as nat, |x: int| next_cell(f, size, last, x as usize))
}

/// The history left by stepping the kernel-and-rule update m times: each
/// step appends the generation that follows the last stored one.
pub open spec fn evolve<R: Rule>(f: R, size: usize, history: Seq<Seq<bool>>, m: nat) -> Seq<
    Seq<bool>,
>
    decreases m,
{
    if m == 0 {
        history
    } else {
        evolve(f, size, history.push(next_generation_spec(f, size, history.last())), (m - 1) as nat)
    }
}

/// Stepping m times grows the history by exactly m generations.
pub proof fn lemma_evolve_length<R: Rule>(f: R, size: usize, history: Seq<Seq<bool>>, m: nat)
    ensures
        evolve(f, size, history, m).len() == history.len() + m,
    decreases m,
{
    if m > 0 {
        lemma_evolve_length(
            f,
            size,
            history.push(next_generation_spec(f, size, history.last())),
            (m - 1) as nat,
        );
    }
}

/// Determinism: two rules that answer every pattern alike drive the same
/// starting history to the same history, however many steps are taken. In
/// particular, automatons seeded with the same size, rule and seed produce
/// identical generation sequences.
pub proof fn lemma_seeded_determinism<R1: Rule, R2: Rule>(
    f1: R1,
    f2: R2,
    size: usize,
    history: Seq<Seq<bool>>,
    m: nat,
)
    requires
        forall|p: u8| f1.spec_apply(p) == f2.spec_apply(p),
    ensures
        evolve(f1, size, history, m) == evolve(f2, size, history, m),
    decreases m,
{
    if m > 0 {
        let next1 = next_generation_spec(f1, size, history.last());
        let next2 = next_generation_spec(f2, size, history.last());
        assert(next1 =~= next2);
        lemma_seeded_determinism(f1, f2, size, history.push(next1), (m - 1) as nat);
    }
}

/// Relies on rand::rngs::ThreadRng: a handle to the thread-local random
/// generator.
#[verifier::external_type_specification]
#[verifier::external_body]
pub struct ExThreadRng(rand::rngs::ThreadRng);

/// Relies on rand::thread_rng: hands out a handle to the thread-local
/// random generator.
#[verifier::external_body]
fn new_rng() -> rand::rngs::ThreadRng {
    rand::thread_rng()
}

/// Relies on rand::Rng::gen with the Standard distribution on bool: draws
/// one boolean uniformly; nothing is promised of its value.
#[verifier::external_body]
fn next_bool(rng: &mut rand::rngs::ThreadRng) -> bool {
    let cell: bool = rand::Rng::gen(rng);
    cell
}

/// A one-dimensional cellular automaton: a fixed lattice size, a rule, and
/// the ordered history of the generations computed so far.
pub struct Automata<R: Rule> {
    size: usize,
    generations: Vec<Vec<bool>>,
    f: R,
}

impl<R: Rule> Automata<R> {
    /// The fixed lattice size.
    pub closed spec fn spec_size(&self) -> usize {
        self.size
    }

    /// The stored generations, oldest first.
    pub closed spec fn history(&self) -> Seq<Seq<bool>> {
        self.generations@.map_values(|g: Vec<bool>| g@)
    }

    /// The rule the automaton applies.
    pub closed spec fn rule(&self) -> R {
        self.f
    }

    /// Every stored generation spans the whole lattice.
    pub open spec fn wf(&self) -> bool {
        forall|i: int|
            0 <= i < self.history().len() ==> (#[trigger] self.history()[i]).len()
                == self.spec_size() as nat
    }

    /// An automaton with empty history. Rejected with InvalidSize exactly
    /// when the requested size is not positive.
    pub fn new(size: usize, f: R) -> (result: Result<Self, AutomataError>)
        ensures
            match result {
                Ok(automata) => size > 0 && automata.wf() && automata.spec_size() == size
                    && automata.history().len() == 0 && automata.rule() == f,
                Err(e) => size == 0 && e == AutomataError::InvalidSize,
            },
    {
        if size == 0 {
            Err(AutomataError::InvalidSize)
        } else {
            Ok(Automata { size, generations: Vec::new(), f })
        }
    }

    /// An automaton whose history holds exactly the given seed as its sole,
    /// first generation. Rejected with SizeMismatch exactly when the seed's
    /// length differs from the requested size.
    pub fn with_seed(size: usize, f: R, seed: Vec<bool>) -> (result: Result<Self, AutomataError>)
        ensures
            match result {
                Ok(automata) => seed@.len() == size && automata.wf() && automata.spec_size()
                    == size && automata.history() == seq![seed@] && automata.rule() == f,
                Err(e) => seed@.len() != size && e == AutomataError::SizeMismatch,
            },
    {
        if seed.len() != size {
            Err(AutomataError::SizeMismatch)
        } else {
            let automata = Automata { size, generations: vec![seed], f };
            proof {
                assert(automata.history() =~= seq![automata.generations@[0]@]);
            }
            Ok(automata)
        }
    }

    /// The fixed lattice size.
    pub fn size(&self) -> (size: usize)
        ensures
            size == self.spec_size(),
    {
        self.size
    }

    /// The generation that follows the current state, without storing it:
    /// with a non-empty history, the kernel-and-rule step applied to the
    /// last stored generation; with an empty history, a fresh generation
    /// whose cells are drawn independently and uniformly at random. Either
    /// way it spans the whole lattice.
    pub fn new_generation(&self) -> (generation: Vec<bool>)
        requires
            self.wf(),
        ensures
            generation@.len() == self.spec_size() as nat,
            self.history().len() > 0 ==> generation@ == next_generation_spec(
                self.rule(),
                self.spec_size(),
                self.history().last(),
            ),
    {
        let n = self.generations.len();
        if n == 0 {
            let mut generation: Vec<bool> = Vec::new();
            let mut rng = new_rng();
            let mut x: usize = 0;
            while x < self.size
                invariant
                    x <= self.size,
                    generation@.len() == x as nat,
                decreases self.size - x,
            {
                let cell = next_bool(&mut rng);
                generation.push(cell);
                x = x + 1;
            }
            generation
        } else {
            let last: &Vec<bool> = &self.generations[n - 1];
            proof {
                assert(last@ == self.history().last());
                assert(last@.len() == self.spec_size() as nat);
            }
            let mut generation: Vec<bool> = Vec::new();
            let mut x: usize = 0;
            while x < self.size
                invariant
                    x <= self.size,
                    generation@.len() == x as nat,
                    last@.len() == self.size as nat,
                    forall|t: int|
                        0 <= t < x ==> generation@[t] == next_cell(
                            self.f,
                            self.size,
                            last@,
                            t as usize,
                        ),
                decreases self.size - x,
            {
                let kernel = Kernel1D::new(x, self.size);
                let packed = kernel.eval(last.as_slice());
                proof {
                    lemma_pack_bound(kernel.indices(), last@);
                    lemma2_to64();
                    assert(packed < 8);
                }
                let cell = self.f.apply(packed as u8);
                generation.push(cell);
                x = x + 1;
            }
            proof {
                assert(generation@ =~= next_generation_spec(
                    self.rule(),
                    self.spec_size(),
                    self.history().last(),
                ));
            }
            generation
        }
    }

    /// Compute the next generation and append it to history: with a
    /// non-empty history the deterministic kernel-and-rule step, after bare
    /// construction the one random bootstrap. History only ever grows, one
    /// generation per call, and everything already stored stays as it was.
    pub fn advance(&mut self)
        requires
            old(self).wf(),
        ensures
            final(self).wf(),
            final(self).spec_size() == old(self).spec_size(),
            final(self).rule() == old(self).rule(),
            final(self).history().len() == old(self).history().len() + 1,
            final(self).history().take(old(self).history().len() as int) == old(self).history(),
            final(self).history().last().len() == old(self).spec_size() as nat,
            old(self).history().len() > 0 ==> final(self).history() == old(self).history().push(
                next_generation_spec(
                    old(self).rule(),
                    old(self).spec_size(),
                    old(self).history().last(),
                ),
            ),
    {
        let generation = self.new_generation();
        self.generations.push(generation);
        proof {
            assert(self.history() =~= old(self).history().push(generation@));
            assert(self.history().take(old(self).history().len() as int) =~= old(self).history());
            assert forall|i: int|
                0 <= i < self.history().len() implies (#[trigger] self.history()[i]).len()
                == self.spec_size() as nat by {
                if i < old(self).history().len() {
                    assert(self.history()[i] == old(self).history()[i]);
                }
            }
        }
    }

    /// The stored generations, oldest first. Reading them neither consumes
    /// nor changes the history: the result is pinned to the history, so
    /// repeated calls with no advance in between answer alike.
    pub fn generations(&self) -> (generations: &Vec<Vec<bool>>)
        ensures
            generations@.len() == self.history().len(),
            forall|i: int|
                0 <= i < generations@.len() ==> (#[trigger] generations@[i])@ == self.history()[i],
    {
        &self.generations
    }
}

} // verus!
