use crate::error::ZerosolError;
use crate::point::{point_add_of, G1Point};
use crate::scalar::{sadd, scalar_add, scalar_mul, smul, Scalar};
use vstd::prelude::*;

verus! {

/// One rank-1 constraint `⟨a, w⟩ · ⟨b, w⟩ = ⟨c, w⟩`, each side a sparse list of
/// `(variable, coefficient)`.
#[derive(Debug)]
pub struct Constraint {
    pub a: Vec<(usize, Scalar)>,
    pub b: Vec<(usize, Scalar)>,
    pub c: Vec<(usize, Scalar)>,
}

/// A rank-1 constraint system with its witness.
#[derive(Debug)]
pub struct ConstraintSystem {
    pub num_constraints: usize,
    pub num_variables: usize,
    pub constraints: Vec<Constraint>,
    pub public_inputs: Vec<Scalar>,
    pub witness: Vec<Scalar>,
}

/// Every variable a term names exists in the witness.
pub open spec fn terms_in_range(terms: Seq<(usize, Scalar)>, w: Seq<Scalar>) -> bool {
    forall|i: int| 0 <= i < terms.len() ==> (#[trigger] terms[i]).0 < w.len()
}

/// `Σ coeff · w[var]` modulo the group order.
pub open spec fn lc_value(terms: Seq<(usize, Scalar)>, w: Seq<Scalar>) -> nat
    decreases terms.len(),
{
    if terms.len() == 0 {
        0
    } else {
        let n = (terms.len() - 1) as int;
        sadd(lc_value(terms.subrange(0, n), w), smul(terms[n].1@, w[terms[n].0 as int]@))
    }
}

pub open spec fn constraint_in_range(c: Constraint, w: Seq<Scalar>) -> bool {
    terms_in_range(c.a@, w) && terms_in_range(c.b@, w) && terms_in_range(c.c@, w)
}

pub open spec fn constraint_holds(c: Constraint, w: Seq<Scalar>) -> bool {
    smul(lc_value(c.a@, w), lc_value(c.b@, w)) == lc_value(c.c@, w)
}

/// Checks a witness against a rank-1 constraint system.
#[derive(Debug)]
pub struct R1CSVerifier {
    pub constraint_system: ConstraintSystem,
}

/// Evaluates a linear combination; `InvalidProofStructure` if a variable is missing.
pub fn evaluate_linear_combination(coeffs: &Vec<(usize, Scalar)>, witness: &Vec<Scalar>) -> (r: Result<
    Scalar,
    ZerosolError,
>)
    ensures
        r.is_ok() == terms_in_range(coeffs@, witness@),
        r matches Ok(v) ==> v@ == lc_value(coeffs@, witness@),
        r.is_err() ==> r == Err::<Scalar, ZerosolError>(ZerosolError::InvalidProofStructure),
{
    let mut acc = Scalar::zero();
    let mut i: usize = 0;
    while i < coeffs.len()
        invariant
            i <= coeffs@.len(),
            terms_in_range(coeffs@.subrange(0, i as int), witness@),
            acc@ == lc_value(coeffs@.subrange(0, i as int), witness@),
        decreases coeffs@.len() - i,
    {
        let idx = coeffs[i].0;
        if idx >= witness.len() {
            assert(!terms_in_range(coeffs@, witness@)) by {
                assert(coeffs@[i as int].0 >= witness@.len());
            }
            return Err(ZerosolError::InvalidProofStructure);
        }
        let t = scalar_mul(&coeffs[i].1, &witness[idx]);
        acc = scalar_add(&acc, &t);
        i = i + 1;
        proof {
            let sub = coeffs@.subrange(0, i as int);
            assert(sub.subrange(0, i - 1) =~= coeffs@.subrange(0, i - 1));
            assert forall|j: int| 0 <= j < sub.len() implies (#[trigger] sub[j]).0 < witness@.len() by {
                if j < i - 1 {
                    assert(coeffs@.subrange(0, i - 1)[j] == sub[j]);
                }
            }
        }
    }
    assert(coeffs@.subrange(0, coeffs@.len() as int) =~= coeffs@);
    Ok(acc)
}

impl R1CSVerifier {
    pub fn new(constraint_system: ConstraintSystem) -> (r: R1CSVerifier)
        ensures
            r.constraint_system == constraint_system,
    {
        R1CSVerifier { constraint_system }
    }

    /// Whether the witness satisfies every constraint. `InvalidProofStructure` if
    /// the witness is shorter than the variable count or a constraint names a
    /// variable the witness lacks (checked in constraint order).
    pub fn verify_constraints(&self) -> (r: Result<bool, ZerosolError>)
        ensures
            self.constraint_system.witness@.len() < self.constraint_system.num_variables ==> r
                == Err::<bool, ZerosolError>(ZerosolError::InvalidProofStructure),
            r matches Ok(b) ==> (b == forall|i: int|
                0 <= i < self.constraint_system.constraints@.len() ==> constraint_holds(
                    #[trigger] self.constraint_system.constraints@[i],
                    self.constraint_system.witness@,
                )),
            (self.constraint_system.witness@.len() >= self.constraint_system.num_variables
                && forall|i: int|
                0 <= i < self.constraint_system.constraints@.len() ==> constraint_in_range(
                    #[trigger] self.constraint_system.constraints@[i],
                    self.constraint_system.witness@,
                )) ==> r.is_ok(),
            r.is_err() ==> r == Err::<bool, ZerosolError>(ZerosolError::InvalidProofStructure),
    {
        let cs = &self.constraint_system;
        if cs.witness.len() < cs.num_variables {
            return Err(ZerosolError::InvalidProofStructure);
        }
        let mut i: usize = 0;
        while i < cs.constraints.len()
            invariant
                i <= cs.constraints@.len(),
                cs == self.constraint_system,
                cs.witness@.len() >= cs.num_variables,
                forall|j: int| 0 <= j < i ==> constraint_holds(#[trigger] cs.constraints@[j], cs.witness@),
                forall|j: int| 0 <= j < i ==> constraint_in_range(#[trigger] cs.constraints@[j], cs.witness@),
            decreases cs.constraints@.len() - i,
        {
            let c = &cs.constraints[i];
            let a_val = evaluate_linear_combination(&c.a, &cs.witness)?;
            let b_val = evaluate_linear_combination(&c.b, &cs.witness)?;
            let c_val = evaluate_linear_combination(&c.c, &cs.witness)?;
            if !scalar_mul(&a_val, &b_val).equals(&c_val) {
                return Ok(false);
            }
            i = i + 1;
        }
        Ok(true)
    }
}

/// Builds a constraint system variable by variable.
#[derive(Debug)]
pub struct ConstraintSystemBuilder {
    pub constraints: Vec<Constraint>,
    pub num_variables: usize,
    pub public_inputs: Vec<Scalar>,
}

fn one_term(var: usize) -> (r: Vec<(usize, Scalar)>)
    ensures
        r@.len() == 1,
        r@[0].0 == var,
        r@[0].1@ == 1,
{
    let mut v: Vec<(usize, Scalar)> = Vec::new();
    v.push((var, Scalar::one()));
    v
}

impl ConstraintSystemBuilder {
    pub fn new() -> (r: ConstraintSystemBuilder)
        ensures
            r.constraints@.len() == 0,
            r.num_variables == 0,
            r.public_inputs@.len() == 0,
    {
        ConstraintSystemBuilder { constraints: Vec::new(), num_variables: 0, public_inputs: Vec::new() }
    }

    /// Allocates the next variable and returns its index.
    pub fn add_variable(&mut self) -> (r: usize)
        requires
            old(self).num_variables < usize::MAX,
        ensures
            r == old(self).num_variables,
            final(self).num_variables == old(self).num_variables + 1,
            final(self).constraints@ == old(self).constraints@,
            final(self).public_inputs@ == old(self).public_inputs@,
    {
        let id = self.num_variables;
        self.num_variables = self.num_variables + 1;
        id
    }

    /// Allocates a variable for a public input.
    pub fn add_public_input(&mut self, value: Scalar) -> (r: usize)
        requires
            old(self).num_variables < usize::MAX,
        ensures
            r == old(self).num_variables,
            final(self).num_variables == old(self).num_variables + 1,
            final(self).constraints@ == old(self).constraints@,
            final(self).public_inputs@ == old(self).public_inputs@.push(value),
    {
        let id = self.add_variable();
        self.public_inputs.push(value);
        id
    }

    /// `(w[a] + w[b]) · w[0] = w[c]` (variable 0 is the constant one).
    pub fn add_addition_constraint(&mut self, a: usize, b: usize, c: usize)
        ensures
            final(self).num_variables == old(self).num_variables,
            final(self).constraints@.len() == old(self).constraints@.len() + 1,
            forall|i: int| 0 <= i < old(self).constraints@.len() ==> final(self).constraints@[i] == old(self).constraints@[i],
            ({
                let k = final(self).constraints@.last();
                &&& k.a@.len() == 2 && k.a@[0].0 == a && k.a@[0].1@ == 1 && k.a@[1].0 == b && k.a@[1].1@ == 1
                &&& k.b@.len() == 1 && k.b@[0].0 == 0 && k.b@[0].1@ == 1
                &&& k.c@.len() == 1 && k.c@[0].0 == c && k.c@[0].1@ == 1
            }),
    {
        let mut la: Vec<(usize, Scalar)> = Vec::new();
        la.push((a, Scalar::one()));
        la.push((b, Scalar::one()));
        self.constraints.push(Constraint { a: la, b: one_term(0), c: one_term(c) });
    }

    /// `w[a] · w[b] = w[c]`.
    pub fn add_multiplication_constraint(&mut self, a: usize, b: usize, c: usize)
        ensures
            final(self).num_variables == old(self).num_variables,
            final(self).constraints@.len() == old(self).constraints@.len() + 1,
            forall|i: int| 0 <= i < old(self).constraints@.len() ==> final(self).constraints@[i] == old(self).constraints@[i],
            ({
                let k = final(self).constraints@.last();
                &&& k.a@.len() == 1 && k.a@[0].0 == a && k.a@[0].1@ == 1
                &&& k.b@.len() == 1 && k.b@[0].0 == b && k.b@[0].1@ == 1
                &&& k.c@.len() == 1 && k.c@[0].0 == c && k.c@[0].1@ == 1
            }),
    {
        self.constraints.push(Constraint { a: one_term(a), b: one_term(b), c: one_term(c) });
    }

    /// `(Σ coeff · w[var]) · w[0] = 0`.
    pub fn add_linear_constraint(&mut self, terms: Vec<(usize, Scalar)>)
        ensures
            final(self).num_variables == old(self).num_variables,
            final(self).constraints@.len() == old(self).constraints@.len() + 1,
            forall|i: int| 0 <= i < old(self).constraints@.len() ==> final(self).constraints@[i] == old(self).constraints@[i],
            ({
                let k = final(self).constraints@.last();
                &&& k.a@ == terms@
                &&& k.b@.len() == 1 && k.b@[0].0 == 0 && k.b@[0].1@ == 1
                &&& k.c@.len() == 0
            }),
    {
        self.constraints.push(Constraint { a: terms, b: one_term(0), c: Vec::new() });
    }

    /// The system with the given witness.
    pub fn build(self, witness: Vec<Scalar>) -> (r: ConstraintSystem)
        ensures
            r.num_constraints == self.constraints@.len(),
            r.num_variables == self.num_variables,
            r.constraints == self.constraints,
            r.public_inputs == self.public_inputs,
            r.witness == witness,
    {
        let n = self.constraints.len();
        ConstraintSystem {
            num_constraints: n,
            num_variables: self.num_variables,
            constraints: self.constraints,
            public_inputs: self.public_inputs,
            witness,
        }
    }
}

/// Checks relations between commitments.
#[derive(Debug)]
pub struct ArithmeticConstraintVerifier;

impl ArithmeticConstraintVerifier {
    /// `Com(a) + Com(b) == Com(c)`: the commitment to a sum is the sum of commitments.
    pub fn verify_addition_constraint(
        commitment_a: &G1Point,
        commitment_b: &G1Point,
        commitment_c: &G1Point,
    ) -> (r: bool)
        ensures
            r == (point_add_of(commitment_a@, commitment_b@) == commitment_c@),
    {
        commitment_a.add(commitment_b).eq(commitment_c)
    }
}

} // verus!
