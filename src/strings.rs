use vstd::prelude::*;

use crate::engine::Evolution;
use crate::random::random_below;
use crate::text::{chars_of, string_of};

verus! {

/// The symbols a guess is built from unless others are given: letters,
/// digits, punctuation and the space.
pub open spec fn default_genes() -> Seq<char> {
    seq![
        'a', 'b', 'c', 'd', 'e', 'f', 'g', 'h', 'i', 'j', 'k', 'l',
        'm', 'n', 'o', 'p', 'q', 'r', 's', 't', 'u', 'v', 'w', 'x',
        'y', 'z', 'A', 'B', 'C', 'D', 'E', 'F', 'G', 'H', 'I', 'J',
        'K', 'L', 'M', 'N', 'O', 'P', 'Q', 'R', 'S', 'T', 'U', 'V',
        'W', 'X', 'Y', 'Z', '0', '1', '2', '3', '4', '5', '6', '7',
        '8', '9', '!', '@', '#', '$', '%', '^', '&', '*', '(', ')',
        '-', '_', '=', '+', '[', '{', ']', '}', ';', ':', '\'', '"',
        ',', '<', '.', '>', '/', '?', '|', '\\', '`', '~', ' ',
    ]
}

fn default_gene_vec() -> (r: Vec<char>)
    ensures
        r@ == default_genes(),
{
    let r = vec![
        'a', 'b', 'c', 'd', 'e', 'f', 'g', 'h', 'i', 'j', 'k', 'l',
        'm', 'n', 'o', 'p', 'q', 'r', 's', 't', 'u', 'v', 'w', 'x',
        'y', 'z', 'A', 'B', 'C', 'D', 'E', 'F', 'G', 'H', 'I', 'J',
        'K', 'L', 'M', 'N', 'O', 'P', 'Q', 'R', 'S', 'T', 'U', 'V',
        'W', 'X', 'Y', 'Z', '0', '1', '2', '3', '4', '5', '6', '7',
        '8', '9', '!', '@', '#', '$', '%', '^', '&', '*', '(', ')',
        '-', '_', '=', '+', '[', '{', ']', '}', ';', ':', '\'', '"',
        ',', '<', '.', '>', '/', '?', '|', '\\', '`', '~', ' ',
    ];
    assert(r@ =~= default_genes());
    r
}

/// Number of positions below `n` at which `t` and `m` hold the same character.
pub open spec fn matches_upto(t: Seq<char>, m: Seq<char>, n: int) -> nat
    decreases n,
{
    if n <= 0 {
        0
    } else {
        matches_upto(t, m, n - 1) + if t[n - 1] == m[n - 1] {
            1nat
        } else {
            0nat
        }
    }
}

/// Number of positions of `t` at which `m` holds the same character.
pub open spec fn matching(t: Seq<char>, m: Seq<char>) -> nat {
    matches_upto(t, m, t.len() as int)
}

proof fn lemma_matches_upto_bounded(t: Seq<char>, m: Seq<char>, n: int)
    requires
        0 <= n,
    ensures
        matches_upto(t, m, n) <= n,
    decreases n,
{
    if n > 0 {
        lemma_matches_upto_bounded(t, m, n - 1);
    }
}

proof fn lemma_matches_upto_all(t: Seq<char>, m: Seq<char>, n: int)
    requires
        0 <= n <= t.len(),
        n <= m.len(),
    ensures
        matches_upto(t, m, n) == n <==> forall|i: int| 0 <= i < n ==> t[i] == m[i],
    decreases n,
{
    if n > 0 {
        lemma_matches_upto_all(t, m, n - 1);
        lemma_matches_upto_bounded(t, m, n - 1);
    }
}

/// A search for a target string, one character substitution at a time.
#[derive(Debug, Clone)]
pub struct StringGuesser {
    genes: Vec<char>,
    pub target: String,
}

impl StringGuesser {
    /// The string searched for, as characters.
    pub closed spec fn target_view(&self) -> Seq<char> {
        self.target@
    }

    /// The symbols a guess is built from.
    pub closed spec fn genes_view(&self) -> Seq<char> {
        self.genes@
    }

    /// A guesser for `target` over the default symbols.
    pub fn new(target: &str) -> (r: Self)
        ensures
            r.target_view() == target@,
            r.genes_view() == default_genes(),
    {
        StringGuesser { target: target.to_owned(), genes: default_gene_vec() }
    }

    /// The same target, built from the symbols `genes`.
    pub fn with_genes(self, genes: &[char]) -> (r: Self)
        ensures
            r.target_view() == self.target_view(),
            r.genes_view() == genes@,
    {
        StringGuesser { target: self.target, genes: vstd::slice::slice_to_vec(genes) }
    }

    /// The same symbols, aimed at `target`.
    pub fn with_target(self, target: &str) -> (r: Self)
        ensures
            r.target_view() == target@,
            r.genes_view() == self.genes_view(),
    {
        StringGuesser { target: target.to_owned(), genes: self.genes }
    }

    /// `member` with the character at `idx` replaced by `new_gene`, or by
    /// `alternate_gene` where `new_gene` is already there.
    pub fn replace_gene(member: &String, idx: usize, new_gene: char, alternate_gene: char) -> (r:
        String)
        requires
            idx < member@.len(),
        ensures
            r@ == member@.update(
                idx as int,
                if member@[idx as int] == new_gene {
                    alternate_gene
                } else {
                    new_gene
                },
            ),
    {
        let mut c = chars_of(member.as_str());
        if c[idx] == new_gene {
            c.set(idx, alternate_gene);
        } else {
            c.set(idx, new_gene);
        }
        string_of(&c)
    }

    /// A candidate reaches the maximum score exactly when it spells the target.
    pub proof fn lemma_solved_iff_target(&self, m: String)
        requires
            self.well_formed(),
            self.valid(m),
        ensures
            self.fitness(m) >= self.max_fitness_spec() <==> m@ == self.target_view(),
    {
        lemma_matches_upto_all(self.target_view(), m@, self.target_view().len() as int);
        lemma_matches_upto_bounded(self.target_view(), m@, self.target_view().len() as int);
        if forall|i: int| 0 <= i < m@.len() ==> self.target_view()[i] == m@[i] {
            assert(m@ =~= self.target_view());
        }
    }

    /// The score of `a` depends on its characters alone.
    pub proof fn lemma_fitness_deterministic(&self, a: String, b: String)
        requires
            a@ == b@,
        ensures
            self.fitness(a) == self.fitness(b),
    {
    }
}

impl Default for StringGuesser {
    fn default() -> (r: Self)
        ensures
            r.target_view().len() == 0,
            r.genes_view() == default_genes(),
    {
        proof {
            reveal_strlit("");
        }
        StringGuesser::new("")
    }
}

impl Evolution for StringGuesser {
    type Member = String;

    type Gene = char;

    open spec fn well_formed(&self) -> bool {
        &&& self.genes_view().len() > 0
        &&& 0 < self.target_view().len() <= usize::MAX
    }

    open spec fn valid(&self, m: String) -> bool {
        m@.len() == self.target_view().len()
    }

    open spec fn fitness(&self, m: String) -> nat {
        matching(self.target_view(), m@)
    }

    open spec fn max_fitness_spec(&self) -> nat {
        self.target_view().len()
    }

    open spec fn neighbour(&self, m: String, n: String) -> bool {
        exists|i: int, c: char|
            0 <= i < m@.len() && self.genes_view().contains(c) && n@ == m@.update(i, c)
    }

    proof fn lemma_fitness_bounded(&self, m: String) {
        lemma_matches_upto_bounded(self.target_view(), m@, self.target_view().len() as int);
    }

    fn is_ready(&self) -> (r: bool) {
        self.genes.len() > 0 && chars_of(self.target.as_str()).len() > 0
    }

    fn max_fitness(&self) -> (r: u64) {
        chars_of(self.target.as_str()).len() as u64
    }

    fn generate_member(&self) -> (m: String)
        ensures
            forall|j: int| 0 <= j < m@.len() ==> self.genes_view().contains(#[trigger] m@[j]),
    {
        let n = chars_of(self.target.as_str()).len();
        let mut c: Vec<char> = Vec::new();
        let mut i: usize = 0;
        while i < n
            invariant
                self.well_formed(),
                c@.len() == i,
                i <= n,
                forall|j: int| 0 <= j < c@.len() ==> self.genes_view().contains(#[trigger] c@[j]),
            decreases n - i,
        {
            let k = random_below(self.genes.len());
            c.push(self.genes[k]);
            assert(self.genes_view()[k as int] == c@[i as int]);
            i = i + 1;
        }
        string_of(&c)
    }

    fn get_fitness(&self, member: &String) -> (r: u64) {
        let t = chars_of(self.target.as_str());
        let m = chars_of(member.as_str());
        let mut count: u64 = 0;
        let mut i: usize = 0;
        while i < t.len()
            invariant
                t@ == self.target_view(),
                m@ == member@,
                m@.len() == t@.len(),
                i <= t@.len(),
                count as nat == matches_upto(t@, m@, i as int),
            decreases t@.len() - i,
        {
            proof {
                lemma_matches_upto_bounded(t@, m@, i as int);
            }
            if t[i] == m[i] {
                count = count + 1;
            }
            i = i + 1;
        }
        count
    }

    fn mutate(&self, member: &String) -> (m: String) {
        let n = chars_of(member.as_str()).len();
        let idx = random_below(n);
        let new_gene = self.genes[random_below(self.genes.len())];
        let alternate_gene = self.genes[random_below(self.genes.len())];
        let r = StringGuesser::replace_gene(member, idx, new_gene, alternate_gene);
        proof {
            let c = if member@[idx as int] == new_gene {
                alternate_gene
            } else {
                new_gene
            };
            assert(self.genes_view().contains(c));
            assert(r@ == member@.update(idx as int, c));
        }
        r
    }
}

} // verus!
