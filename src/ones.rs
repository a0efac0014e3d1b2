use vstd::prelude::*;

use crate::engine::Evolution;
use crate::random::random_below;
use crate::text::string_of;

verus! {

/// Number of `true` entries among the first `n` of `b`.
pub open spec fn ones_upto(b: Seq<bool>, n: int) -> nat
    decreases n,
{
    if n <= 0 {
        0
    } else {
        ones_upto(b, n - 1) + if b[n - 1] {
            1nat
        } else {
            0nat
        }
    }
}

/// Number of `true` entries of `b`.
pub open spec fn ones(b: Seq<bool>) -> nat {
    ones_upto(b, b.len() as int)
}

proof fn lemma_ones_upto_bounded(b: Seq<bool>, n: int)
    requires
        0 <= n,
    ensures
        ones_upto(b, n) <= n,
    decreases n,
{
    if n > 0 {
        lemma_ones_upto_bounded(b, n - 1);
    }
}

proof fn lemma_ones_upto_all(b: Seq<bool>, n: int)
    requires
        0 <= n <= b.len(),
    ensures
        ones_upto(b, n) == n <==> forall|i: int| 0 <= i < n ==> b[i],
    decreases n,
{
    if n > 0 {
        lemma_ones_upto_all(b, n - 1);
        lemma_ones_upto_bounded(b, n - 1);
    }
}

/// The text of a bit vector: `'1'` for each set bit, `'0'` for each clear one.
pub open spec fn bits_text(b: Seq<bool>) -> Seq<char> {
    b.map_values(|x: bool| if x { '1' } else { '0' })
}

/// A vector of bits, the candidate of a [`OneMaximizer`].
#[derive(Debug, Clone)]
pub struct Genes(pub Vec<bool>);

impl View for Genes {
    type V = Seq<bool>;

    open spec fn view(&self) -> Seq<bool> {
        self.0@
    }
}

impl core::ops::Deref for Genes {
    type Target = Vec<bool>;

    fn deref(&self) -> (r: &Vec<bool>)
        ensures
            r@ == self@,
    {
        &self.0
    }
}

impl Genes {
    /// A copy of these bits with the one at `idx` inverted.
    pub fn flipped(&self, idx: usize) -> (r: Genes)
        requires
            idx < self@.len(),
        ensures
            r@ == self@.update(idx as int, !self@[idx as int]),
    {
        let mut v: Vec<bool> = Vec::new();
        let mut i: usize = 0;
        while i < self.0.len()
            invariant
                i <= self@.len(),
                v@ == self@.subrange(0, i as int),
            decreases self@.len() - i,
        {
            v.push(self.0[i]);
            i = i + 1;
        }
        assert(v@ =~= self@);
        let bit = v[idx];
        v.set(idx, !bit);
        Genes(v)
    }

    /// The bits as text, `'1'` or `'0'` for each in index order.
    pub fn to_text(&self) -> (r: String)
        ensures
            r@ == bits_text(self@),
    {
        let mut c: Vec<char> = Vec::new();
        let mut i: usize = 0;
        while i < self.0.len()
            invariant
                i <= self@.len(),
                c@ == bits_text(self@.subrange(0, i as int)),
            decreases self@.len() - i,
        {
            let ch = if self.0[i] {
                '1'
            } else {
                '0'
            };
            c.push(ch);
            i = i + 1;
            assert(bits_text(self@.subrange(0, i as int)) =~= bits_text(
                self@.subrange(0, i - 1 as int),
            ).push(ch));
        }
        assert(self@.subrange(0, self@.len() as int) =~= self@);
        string_of(&c)
    }
}

/// A search for a bit vector of `target` bits, all set, one flip at a time.
#[derive(Debug, Clone)]
pub struct OneMaximizer {
    genes: Genes,
    pub target: usize,
}

impl OneMaximizer {
    /// The values a bit is drawn from.
    pub closed spec fn genes_view(&self) -> Seq<bool> {
        self.genes@
    }

    /// The number of bits a candidate has.
    pub closed spec fn target_spec(&self) -> usize {
        self.target
    }

    /// A maximizer for vectors of `target` bits, each drawn from both values.
    pub fn new(target: usize) -> (r: Self)
        ensures
            r.target_spec() == target,
            r.genes_view() == seq![true, false],
    {
        let r = OneMaximizer { genes: Genes(vec![true, false]), target };
        assert(r.genes_view() =~= seq![true, false]);
        r
    }

    /// A candidate reaches the maximum score exactly when all its bits are set.
    pub proof fn lemma_solved_iff_all_set(&self, m: Genes)
        requires
            self.well_formed(),
            self.valid(m),
        ensures
            self.fitness(m) >= self.max_fitness_spec() <==> forall|i: int| 0 <= i < m@.len() ==> m@[i],
    {
        lemma_ones_upto_all(m@, m@.len() as int);
        lemma_ones_upto_bounded(m@, m@.len() as int);
    }

    /// The score of a candidate depends on its bits alone.
    pub proof fn lemma_fitness_deterministic(&self, a: Genes, b: Genes)
        requires
            a@ == b@,
        ensures
            self.fitness(a) == self.fitness(b),
    {
    }
}

impl Default for OneMaximizer {
    fn default() -> (r: Self)
        ensures
            r.target_spec() == 100,
            r.genes_view() == seq![true, false],
    {
        Self::new(100)
    }
}

impl Evolution for OneMaximizer {
    type Member = Genes;

    type Gene = usize;

    open spec fn well_formed(&self) -> bool {
        &&& self.genes_view().len() > 0
        &&& self.target_spec() > 0
    }

    open spec fn valid(&self, m: Genes) -> bool {
        m@.len() == self.target_spec()
    }

    open spec fn fitness(&self, m: Genes) -> nat {
        ones(m@)
    }

    open spec fn max_fitness_spec(&self) -> nat {
        self.target_spec() as nat
    }

    open spec fn neighbour(&self, m: Genes, n: Genes) -> bool {
        exists|i: int| 0 <= i < m@.len() && n@ == m@.update(i, !m@[i])
    }

    proof fn lemma_fitness_bounded(&self, m: Genes) {
        lemma_ones_upto_bounded(m@, m@.len() as int);
    }

    fn is_ready(&self) -> (r: bool) {
        self.genes.0.len() > 0 && self.target > 0
    }

    fn max_fitness(&self) -> (r: u64) {
        self.target as u64
    }

    fn generate_member(&self) -> (m: Genes)
        ensures
            forall|j: int| 0 <= j < m@.len() ==> self.genes_view().contains(#[trigger] m@[j]),
    {
        let mut v: Vec<bool> = Vec::new();
        let mut i: usize = 0;
        while i < self.target
            invariant
                self.well_formed(),
                v@.len() == i,
                i <= self.target,
                forall|j: int| 0 <= j < v@.len() ==> self.genes_view().contains(#[trigger] v@[j]),
            decreases self.target - i,
        {
            let k = random_below(self.genes.0.len());
            v.push(self.genes.0[k]);
            assert(self.genes_view()[k as int] == v@[i as int]);
            i = i + 1;
        }
        Genes(v)
    }

    fn get_fitness(&self, member: &Genes) -> (r: u64) {
        let mut count: u64 = 0;
        let mut i: usize = 0;
        while i < member.0.len()
            invariant
                i <= member@.len(),
                count as nat == ones_upto(member@, i as int),
            decreases member@.len() - i,
        {
            proof {
                lemma_ones_upto_bounded(member@, i as int);
            }
            if member.0[i] {
                count = count + 1;
            }
            i = i + 1;
        }
        count
    }

    fn mutate(&self, member: &Genes) -> (m: Genes) {
        let idx = random_below(self.target);
        member.flipped(idx)
    }
}

} // verus!
