use vstd::prelude::*;

verus! {

/// A velocity update rule: an expression over the coordinates, personal
/// bests and velocities of the particle being moved (`Current...`) and of the
/// best particle it follows (`Best...`).
#[derive(Debug, PartialEq, Eq)]
pub enum Velocity {
    CurrentCoords,
    BestCoords,
    CurrentBestCoords,
    BestBestCoords,
    CurrentVelocity,
    BestVelocity,
    Mul(Box<Velocity>, Box<ScalarOps>),
    Add(Box<Velocity>, Box<Velocity>),
    Sub(Box<Velocity>, Box<Velocity>),
}

/// Why a chromosome could not be decoded.
#[derive(Debug, Clone, Copy, PartialEq, Eq)]
pub enum DecodeError {
    /// The chromosome holds no codon.
    InvalidGenome,
}

/// A scalar expression of a velocity rule.
#[derive(Debug, PartialEq, Eq)]
pub enum ScalarOps {
    Cognitive,
    Social,
    InertiaWeight,
    Rand,
    Mul(Box<ScalarOps>, Box<ScalarOps>),
    Add(Box<ScalarOps>, Box<ScalarOps>),
    Sub(Box<ScalarOps>, Box<ScalarOps>),
}

impl Velocity {
    /// Number of nodes of the rule, scalar sub-expressions included.
    pub open spec fn size(&self) -> nat
        decreases self,
    {
        match self {
            Velocity::Mul(v, k) => v.size() + k.size() + 1,
            Velocity::Add(l, r) | Velocity::Sub(l, r) => l.size() + r.size() + 1,
            _ => 1,
        }
    }

    /// Length of the longest path from the root to a leaf, in nodes.
    pub open spec fn depth(&self) -> nat
        decreases self,
    {
        match self {
            Velocity::Mul(v, k) => {
                let (dl, dr) = (v.depth(), k.depth());
                (if dl >= dr { dl } else { dr }) + 1
            },
            Velocity::Add(l, r) | Velocity::Sub(l, r) => {
                let (dl, dr) = (l.depth(), r.depth());
                (if dl >= dr { dl } else { dr }) + 1
            },
            _ => 1,
        }
    }

    /// A leaf: no sub-expression below it.
    pub open spec fn is_terminal(&self) -> bool {
        !(self is Mul || self is Add || self is Sub)
    }

    /// Number of leaves of the rule, scalar leaves included.
    pub open spec fn leaves(&self) -> nat
        decreases self,
    {
        match self {
            Velocity::Mul(v, k) => v.leaves() + k.leaves(),
            Velocity::Add(l, r) | Velocity::Sub(l, r) => l.leaves() + r.leaves(),
            _ => 1,
        }
    }
}

impl ScalarOps {
    /// Number of nodes of the expression.
    pub open spec fn size(&self) -> nat
        decreases self,
    {
        match self {
            ScalarOps::Mul(l, r) | ScalarOps::Add(l, r) | ScalarOps::Sub(l, r) => l.size() + r.size()
                + 1,
            _ => 1,
        }
    }

    /// Length of the longest path from the root to a leaf, in nodes.
    pub open spec fn depth(&self) -> nat
        decreases self,
    {
        match self {
            ScalarOps::Mul(l, r) | ScalarOps::Add(l, r) | ScalarOps::Sub(l, r) => {
                let (dl, dr) = (l.depth(), r.depth());
                (if dl >= dr { dl } else { dr }) + 1
            },
            _ => 1,
        }
    }

    /// A leaf: no sub-expression below it.
    pub open spec fn is_terminal(&self) -> bool {
        !(self is Mul || self is Add || self is Sub)
    }

    /// Number of leaves of the expression.
    pub open spec fn leaves(&self) -> nat
        decreases self,
    {
        match self {
            ScalarOps::Mul(l, r) | ScalarOps::Add(l, r) | ScalarOps::Sub(l, r) => l.leaves()
                + r.leaves(),
            _ => 1,
        }
    }
}

impl Velocity {
    /// Decodes the velocity rule a chromosome encodes; an empty chromosome
    /// encodes none.
    pub fn generate(chromosome: &[u8]) -> (r: Result<Self, DecodeError>)
        requires
            8 * chromosome@.len() < usize::MAX,
        ensures
            chromosome@.len() == 0 ==> r == Err::<Self, DecodeError>(DecodeError::InvalidGenome),
            chromosome@.len() > 0 ==> r == Ok::<Self, DecodeError>(decode(chromosome@)),
    {
        if chromosome.len() == 0 {
            return Err(DecodeError::InvalidGenome);
        }
        let mut pos: usize = 0;
        Ok(Self::generate_helper(&mut pos, chromosome))
    }

    /// Decodes a velocity expression from the codon under `*pos`, leaving
    /// `*pos` just past the last codon read.
    pub fn generate_helper(pos: &mut usize, chromosome: &[u8]) -> (r: Self)
        requires
            chromosome@.len() > 0,
            end_bound(chromosome@, *old(pos) as nat) <= usize::MAX,
        ensures
            (r, *final(pos) as nat) == decode_vector(chromosome@, *old(pos) as nat),
        decreases open_positions(chromosome@, *old(pos) as nat),
    {
        proof {
            lemma_decode_vector_span(chromosome@, *pos as nat);
        }
        let len = chromosome.len();
        let p = *pos % len;
        let size: u8 = if *pos / len > 3 { 6 } else { 9 };
        proof {
            lemma_restricted_iff_wrapped(chromosome@, *pos as nat);
        }
        *pos += 1;
        let rule = chromosome[p] % size;
        if rule == 0 {
            Velocity::CurrentCoords
        } else if rule == 1 {
            Velocity::BestCoords
        } else if rule == 2 {
            Velocity::CurrentBestCoords
        } else if rule == 3 {
            Velocity::BestBestCoords
        } else if rule == 4 {
            Velocity::CurrentVelocity
        } else if rule == 5 {
            Velocity::BestVelocity
        } else {
            proof {
                lemma_decode_vector_span(chromosome@, *pos as nat);
            }
            let left = Box::new(Self::generate_helper(pos, chromosome));
            if rule == 6 {
                proof {
                    lemma_decode_scalar_span(chromosome@, *pos as nat);
                }
                let factor = Box::new(ScalarOps::generate_helper(pos, chromosome));
                Velocity::Mul(left, factor)
            } else {
                proof {
                    lemma_decode_vector_span(chromosome@, *pos as nat);
                }
                let right = Box::new(Self::generate_helper(pos, chromosome));
                if rule == 7 {
                    Velocity::Add(left, right)
                } else {
                    Velocity::Sub(left, right)
                }
            }
        }
    }
}

impl ScalarOps {
    /// Decodes a scalar expression from the codon under `*pos`, leaving
    /// `*pos` just past the last codon read.
    pub fn generate_helper(pos: &mut usize, chromosome: &[u8]) -> (r: Self)
        requires
            chromosome@.len() > 0,
            end_bound(chromosome@, *old(pos) as nat) <= usize::MAX,
        ensures
            (r, *final(pos) as nat) == decode_scalar(chromosome@, *old(pos) as nat),
        decreases open_positions(chromosome@, *old(pos) as nat),
    {
        proof {
            lemma_decode_scalar_span(chromosome@, *pos as nat);
        }
        let len = chromosome.len();
        let p = *pos % len;
        let size: u8 = if *pos / len > 3 { 4 } else { 7 };
        proof {
            lemma_restricted_iff_wrapped(chromosome@, *pos as nat);
        }
        *pos += 1;
        let rule = chromosome[p] % size;
        if rule == 0 {
            ScalarOps::Cognitive
        } else if rule == 1 {
            ScalarOps::Social
        } else if rule == 2 {
            ScalarOps::InertiaWeight
        } else if rule == 3 {
            ScalarOps::Rand
        } else {
            proof {
                lemma_decode_scalar_span(chromosome@, *pos as nat);
            }
            let left = Box::new(Self::generate_helper(pos, chromosome));
            proof {
                lemma_decode_scalar_span(chromosome@, *pos as nat);
            }
            let right = Box::new(Self::generate_helper(pos, chromosome));
            if rule == 4 {
                ScalarOps::Mul(left, right)
            } else if rule == 5 {
                ScalarOps::Add(left, right)
            } else {
                ScalarOps::Sub(left, right)
            }
        }
    }
}

/// The codon read at `cursor`: the chromosome is reused cyclically.
pub open spec fn codon(chromosome: Seq<u8>, cursor: nat) -> u8
    recommends
        chromosome.len() > 0,
{
    chromosome[(cursor % chromosome.len()) as int]
}

/// How many times the chromosome has been wrapped when `cursor` is read.
pub open spec fn wrap_count(chromosome: Seq<u8>, cursor: nat) -> nat
    recommends
        chromosome.len() > 0,
{
    cursor / chromosome.len()
}

/// Past the third wrap (`wrap_count > 3`, see `lemma_restricted_iff_wrapped`)
/// only the terminal productions may be chosen.
pub open spec fn restricted(chromosome: Seq<u8>, cursor: nat) -> bool {
    cursor >= 4 * chromosome.len()
}

/// Termination measure of the decoder: the cursor positions left before the
/// restricted tables take over.
pub open spec fn open_positions(chromosome: Seq<u8>, cursor: nat) -> nat {
    if cursor < 4 * chromosome.len() {
        (4 * chromosome.len() - cursor) as nat
    } else {
        0
    }
}

/// The production chosen for a scalar expression at `cursor`. The table is
/// `Cognitive, Social, InertiaWeight, Rand, Mul, Add, Sub`; the restricted
/// table is its first four entries.
pub open spec fn scalar_rule(chromosome: Seq<u8>, cursor: nat) -> nat {
    let size: u8 = if restricted(chromosome, cursor) { 4 } else { 7 };
    (codon(chromosome, cursor) % size) as nat
}

/// The production chosen for a velocity expression at `cursor`. The table is
/// the six terminals in declaration order, then `Mul, Add, Sub`; the
/// restricted table is its first six entries.
pub open spec fn vector_rule(chromosome: Seq<u8>, cursor: nat) -> nat {
    let size: u8 = if restricted(chromosome, cursor) { 6 } else { 9 };
    (codon(chromosome, cursor) % size) as nat
}

/// The velocity expression decoded from `cursor`, and the cursor after it.
/// Children are decoded left to right from the cursor their left sibling
/// left behind; a scalar factor is decoded with the scalar grammar from the
/// same cursor.
pub open spec fn decode_vector(chromosome: Seq<u8>, cursor: nat) -> (Velocity, nat)
    decreases open_positions(chromosome, cursor),
{
    let rule = vector_rule(chromosome, cursor);
    let next = cursor + 1;
    if rule == 0 {
        (Velocity::CurrentCoords, next)
    } else if rule == 1 {
        (Velocity::BestCoords, next)
    } else if rule == 2 {
        (Velocity::CurrentBestCoords, next)
    } else if rule == 3 {
        (Velocity::BestBestCoords, next)
    } else if rule == 4 {
        (Velocity::CurrentVelocity, next)
    } else if rule == 5 {
        (Velocity::BestVelocity, next)
    } else {
        let (left, mid) = decode_vector(chromosome, next);
        if mid <= cursor {
            // never taken: every decode consumes at least one codon
            (left, mid)
        } else if rule == 6 {
            let (factor, end) = decode_scalar(chromosome, mid);
            (Velocity::Mul(Box::new(left), Box::new(factor)), end)
        } else {
            let (right, end) = decode_vector(chromosome, mid);
            if rule == 7 {
                (Velocity::Add(Box::new(left), Box::new(right)), end)
            } else {
                (Velocity::Sub(Box::new(left), Box::new(right)), end)
            }
        }
    }
}

/// The velocity rule a whole chromosome encodes: decoding starts at its
/// first codon.
pub open spec fn decode(chromosome: Seq<u8>) -> Velocity {
    decode_vector(chromosome, 0).0
}

/// The scalar expression decoded from `cursor`, and the cursor after it.
pub open spec fn decode_scalar(chromosome: Seq<u8>, cursor: nat) -> (ScalarOps, nat)
    decreases open_positions(chromosome, cursor),
{
    let rule = scalar_rule(chromosome, cursor);
    let next = cursor + 1;
    if rule == 0 {
        (ScalarOps::Cognitive, next)
    } else if rule == 1 {
        (ScalarOps::Social, next)
    } else if rule == 2 {
        (ScalarOps::InertiaWeight, next)
    } else if rule == 3 {
        (ScalarOps::Rand, next)
    } else {
        let (left, mid) = decode_scalar(chromosome, next);
        if mid <= cursor {
            // never taken: every decode consumes at least one codon
            (left, mid)
        } else {
            let (right, end) = decode_scalar(chromosome, mid);
            if rule == 4 {
                (ScalarOps::Mul(Box::new(left), Box::new(right)), end)
            } else if rule == 5 {
                (ScalarOps::Add(Box::new(left), Box::new(right)), end)
            } else {
                (ScalarOps::Sub(Box::new(left), Box::new(right)), end)
            }
        }
    }
}

/// The restricted tables are in force exactly when the chromosome has been
/// wrapped more than three times.
pub proof fn lemma_restricted_iff_wrapped(chromosome: Seq<u8>, cursor: nat)
    requires
        chromosome.len() > 0,
    ensures
        restricted(chromosome, cursor) <==> wrap_count(chromosome, cursor) > 3,
{
    let len = chromosome.len();
    assert(cursor >= 4 * len <==> cursor / len > 3) by (nonlinear_arith)
        requires
            len > 0,
    ;
}

/// The largest cursor a decode starting at `cursor` can end at: each
/// recursive production takes a position before the fourth wrap, and adds one
/// pending leaf.
pub open spec fn end_bound(chromosome: Seq<u8>, cursor: nat) -> nat {
    if restricted(chromosome, cursor) {
        cursor + 1
    } else {
        (8 * chromosome.len() - cursor + 1) as nat
    }
}

/// Decoding a scalar expression reads one codon per node, stays within
/// `end_bound`, and yields a single terminal once the tables are restricted.
pub proof fn lemma_decode_scalar_span(chromosome: Seq<u8>, cursor: nat)
    ensures
        ({
            let (e, end) = decode_scalar(chromosome, cursor);
            &&& end == cursor + e.size()
            &&& end <= end_bound(chromosome, cursor)
            &&& e.depth() <= open_positions(chromosome, cursor) + 1
            &&& restricted(chromosome, cursor) ==> e.is_terminal()
        }),
    decreases open_positions(chromosome, cursor),
{
    let rule = scalar_rule(chromosome, cursor);
    if rule >= 4 {
        let next = cursor + 1;
        lemma_decode_scalar_span(chromosome, next);
        let (left, mid) = decode_scalar(chromosome, next);
        lemma_decode_scalar_span(chromosome, mid);
    }
}

/// Decoding a velocity expression reads one codon per node, stays within
/// `end_bound`, and yields a single terminal once the tables are restricted.
pub proof fn lemma_decode_vector_span(chromosome: Seq<u8>, cursor: nat)
    ensures
        ({
            let (e, end) = decode_vector(chromosome, cursor);
            &&& end == cursor + e.size()
            &&& end <= end_bound(chromosome, cursor)
            &&& e.depth() <= open_positions(chromosome, cursor) + 1
            &&& restricted(chromosome, cursor) ==> e.is_terminal()
        }),
    decreases open_positions(chromosome, cursor),
{
    let rule = vector_rule(chromosome, cursor);
    if rule >= 6 {
        let next = cursor + 1;
        lemma_decode_vector_span(chromosome, next);
        let (left, mid) = decode_vector(chromosome, next);
        if rule == 6 {
            lemma_decode_scalar_span(chromosome, mid);
        } else {
            lemma_decode_vector_span(chromosome, mid);
        }
    }
}

/// Decoding any non-empty chromosome ends: the rule it yields has one node
/// per codon read, at most `8 * len + 1` of them, and its depth is at most
/// `4 * len + 1`.
pub proof fn lemma_decode_terminates(chromosome: Seq<u8>)
    requires
        chromosome.len() > 0,
    ensures
        ({
            let (rule, end) = decode_vector(chromosome, 0);
            &&& end == rule.size()
            &&& rule.size() <= 8 * chromosome.len() + 1
            &&& rule.depth() <= 4 * chromosome.len() + 1
        }),
{
    lemma_decode_vector_span(chromosome, 0);
}

/// Once the chromosome has been wrapped more than three times, each pending
/// expression, vector or scalar, is closed by a terminal read from the very
/// next codon.
pub proof fn lemma_wrap_rule(chromosome: Seq<u8>, cursor: nat)
    requires
        chromosome.len() > 0,
        wrap_count(chromosome, cursor) > 3,
    ensures
        decode_vector(chromosome, cursor).0.is_terminal(),
        decode_vector(chromosome, cursor).1 == cursor + 1,
        decode_scalar(chromosome, cursor).0.is_terminal(),
        decode_scalar(chromosome, cursor).1 == cursor + 1,
{
    lemma_restricted_iff_wrapped(chromosome, cursor);
    lemma_decode_vector_span(chromosome, cursor);
    lemma_decode_scalar_span(chromosome, cursor);
}

/// Decoding involves no randomness: equal chromosomes decode to the same
/// rule, node for node, and read the same number of codons.
pub proof fn lemma_decode_deterministic(a: Seq<u8>, b: Seq<u8>)
    requires
        a == b,
    ensures
        decode(a) == decode(b),
        decode_vector(a, 0).1 == decode_vector(b, 0).1,
{
}

/// A chromosome whose every codon picks a recursive vector production keeps
/// recursing until the fourth wrap: decoding from a cursor `p` at most
/// `4 * len` takes `4 * len - p` recursive nodes, then closes the `4 * len -
/// p + 1` pending branches with one leaf each, reading exactly that many
/// further codons.
pub proof fn lemma_recursive_codons_close_after_fourth_wrap(chromosome: Seq<u8>, cursor: nat)
    requires
        chromosome.len() > 0,
        forall|i: int| 0 <= i < chromosome.len() ==> #[trigger] chromosome[i] % 9 >= 6,
        cursor <= 4 * chromosome.len(),
    ensures
        ({
            let (rule, end) = decode_vector(chromosome, cursor);
            &&& end == 8 * chromosome.len() - cursor + 1
            &&& rule.leaves() == 4 * chromosome.len() - cursor + 1
            &&& rule.size() == 2 * (4 * chromosome.len() - cursor) + 1
        }),
    decreases 4 * chromosome.len() - cursor,
{
    let len = chromosome.len();
    lemma_decode_vector_span(chromosome, cursor);
    if cursor < 4 * len {
        let idx = cursor % len;
        assert(0 <= idx < len) by (nonlinear_arith)
            requires
                idx == cursor % len,
                len > 0,
        ;
        assert(chromosome[idx as int] % 9 >= 6);
        let next = cursor + 1;
        lemma_recursive_codons_close_after_fourth_wrap(chromosome, next);
        let (left, mid) = decode_vector(chromosome, next);
        // the left spine reaches past the fourth wrap, so the sibling is a leaf
        assert(restricted(chromosome, mid));
        lemma_decode_vector_span(chromosome, mid);
        lemma_decode_scalar_span(chromosome, mid);
        assert(decode_vector(chromosome, mid).0.leaves() == 1);
        assert(decode_scalar(chromosome, mid).0.leaves() == 1);
    } else {
        assert(decode_vector(chromosome, cursor).0.leaves() == 1);
    }
}

} // verus!
