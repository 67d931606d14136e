//! Linear combinations: weighted sums of variables over a field.

use vstd::prelude::*;
use crate::assignment::{Assignment, AssignmentModel};
use crate::field::{add_mod, mul_mod, neg_mod, Field};
use crate::variable::Variable;

verus! {

/// No variable occurs in two terms.
pub open spec fn distinct_vars(s: Seq<(Variable, nat)>) -> bool {
    forall|i: int, j: int| 0 <= i < j < s.len() ==> s[i].0 != s[j].0
}

/// Some term of `s` is on the variable `v`.
pub open spec fn mentions(s: Seq<(Variable, nat)>, v: Variable) -> bool {
    exists|i: int| 0 <= i < s.len() && s[i].0 == v
}

/// The position of a term on `v`, where there is one.
pub open spec fn position_of(s: Seq<(Variable, nat)>, v: Variable) -> int {
    choose|i: int| 0 <= i < s.len() && s[i].0 == v
}

/// The coefficient that `s` gives to `v`: zero where no term is on `v`.
pub open spec fn coefficient_of(s: Seq<(Variable, nat)>, v: Variable) -> nat {
    if mentions(s, v) {
        s[position_of(s, v)].1
    } else {
        0
    }
}

/// `s` with `c` added to the coefficient of `v`. A term on `v` keeps its
/// place; a new variable goes to the end.
pub open spec fn with_term(s: Seq<(Variable, nat)>, v: Variable, c: nat, p: nat) -> Seq<
    (Variable, nat),
> {
    if mentions(s, v) {
        let i = position_of(s, v);
        s.update(i, (v, add_mod(s[i].1, c, p)))
    } else {
        s.push((v, c))
    }
}

/// The sum of two combinations: the terms of `b` added to `a` one by one,
/// first to last.
pub open spec fn sum_of(a: Seq<(Variable, nat)>, b: Seq<(Variable, nat)>, p: nat) -> Seq<
    (Variable, nat),
>
    decreases b.len(),
{
    if b.len() == 0 {
        a
    } else {
        with_term(sum_of(a, b.drop_last(), p), b.last().0, b.last().1, p)
    }
}

/// Every coefficient of `s` multiplied by `k`.
pub open spec fn scaled(s: Seq<(Variable, nat)>, k: nat, p: nat) -> Seq<(Variable, nat)> {
    Seq::new(s.len(), |i: int| (s[i].0, mul_mod(s[i].1, k, p)))
}

/// The difference `a - b`: the sum of `a` and of `b` scaled by minus one.
pub open spec fn difference_of(a: Seq<(Variable, nat)>, b: Seq<(Variable, nat)>, p: nat) -> Seq<
    (Variable, nat),
> {
    sum_of(a, scaled(b, neg_mod(1, p), p), p)
}

/// The value of a combination under an assignment: the field sum of each
/// coefficient times its variable's value.
pub open spec fn lc_eval(s: Seq<(Variable, nat)>, asg: AssignmentModel, p: nat) -> nat
    decreases s.len(),
{
    if s.len() == 0 {
        0
    } else {
        add_mod(lc_eval(s.drop_last(), asg, p), mul_mod(s.last().1, asg.value_of(s.last().0), p), p)
    }
}

/// Every variable of `s` was issued by a system with the given counts.
pub open spec fn lc_closed(s: Seq<(Variable, nat)>, num_public: nat, num_witness: nat) -> bool {
    forall|i: int| 0 <= i < s.len() ==> (#[trigger] s[i]).0.allocated_in(num_public, num_witness)
}

/// Adding a term on `v` keeps every variable and brings in `v` at most.
pub proof fn lemma_closed_with_term(
    s: Seq<(Variable, nat)>,
    v: Variable,
    c: nat,
    p: nat,
    num_public: nat,
    num_witness: nat,
)
    ensures
        lc_closed(with_term(s, v, c, p), num_public, num_witness) <==> (lc_closed(
            s,
            num_public,
            num_witness,
        ) && v.allocated_in(num_public, num_witness)),
{
    let w = with_term(s, v, c, p);
    if mentions(s, v) {
        let i = position_of(s, v);
        assert(w[i].0 == v);
        assert(s[i].0 == v);
        if lc_closed(w, num_public, num_witness) {
            assert forall|j: int| 0 <= j < s.len() implies (#[trigger] s[j]).0.allocated_in(
                num_public,
                num_witness,
            ) by {
                assert(w[j].0 == s[j].0);
            }
        }
        if lc_closed(s, num_public, num_witness) {
            assert forall|j: int| 0 <= j < w.len() implies (#[trigger] w[j]).0.allocated_in(
                num_public,
                num_witness,
            ) by {
                assert(w[j].0 == s[j].0);
            }
        }
    } else {
        if lc_closed(w, num_public, num_witness) {
            assert(w[s.len() as int].0 == v);
            assert forall|j: int| 0 <= j < s.len() implies (#[trigger] s[j]).0.allocated_in(
                num_public,
                num_witness,
            ) by {
                assert(w[j] == s[j]);
            }
        }
    }
}

/// A sum mentions issued variables only exactly when both summands do.
pub proof fn lemma_closed_sum_of(
    a: Seq<(Variable, nat)>,
    b: Seq<(Variable, nat)>,
    p: nat,
    num_public: nat,
    num_witness: nat,
)
    ensures
        lc_closed(sum_of(a, b, p), num_public, num_witness) <==> (lc_closed(
            a,
            num_public,
            num_witness,
        ) && lc_closed(b, num_public, num_witness)),
    decreases b.len(),
{
    if b.len() > 0 {
        let rest = b.drop_last();
        lemma_closed_sum_of(a, rest, p, num_public, num_witness);
        lemma_closed_with_term(
            sum_of(a, rest, p),
            b.last().0,
            b.last().1,
            p,
            num_public,
            num_witness,
        );
        if lc_closed(b, num_public, num_witness) {
            assert forall|j: int| 0 <= j < rest.len() implies (#[trigger] rest[j]).0.allocated_in(
                num_public,
                num_witness,
            ) by {
                assert(rest[j] == b[j]);
            }
            assert(b[b.len() - 1].0.allocated_in(num_public, num_witness));
        }
        if lc_closed(rest, num_public, num_witness) && b.last().0.allocated_in(
            num_public,
            num_witness,
        ) {
            assert forall|j: int| 0 <= j < b.len() implies (#[trigger] b[j]).0.allocated_in(
                num_public,
                num_witness,
            ) by {
                if j < rest.len() {
                    assert(rest[j] == b[j]);
                }
            }
        }
    }
}

/// Scaling keeps the variables.
pub proof fn lemma_closed_scaled(
    s: Seq<(Variable, nat)>,
    k: nat,
    p: nat,
    num_public: nat,
    num_witness: nat,
)
    ensures
        lc_closed(scaled(s, k, p), num_public, num_witness) <==> lc_closed(
            s,
            num_public,
            num_witness,
        ),
{
    let w = scaled(s, k, p);
    if lc_closed(w, num_public, num_witness) {
        assert forall|j: int| 0 <= j < s.len() implies (#[trigger] s[j]).0.allocated_in(
            num_public,
            num_witness,
        ) by {
            assert(w[j].0 == s[j].0);
        }
    }
    if lc_closed(s, num_public, num_witness) {
        assert forall|j: int| 0 <= j < w.len() implies (#[trigger] w[j]).0.allocated_in(
            num_public,
            num_witness,
        ) by {
            assert(w[j].0 == s[j].0);
        }
    }
}

/// A difference mentions issued variables only exactly when both sides do.
pub proof fn lemma_closed_difference_of(
    a: Seq<(Variable, nat)>,
    b: Seq<(Variable, nat)>,
    p: nat,
    num_public: nat,
    num_witness: nat,
)
    ensures
        lc_closed(difference_of(a, b, p), num_public, num_witness) <==> (lc_closed(
            a,
            num_public,
            num_witness,
        ) && lc_closed(b, num_public, num_witness)),
{
    lemma_closed_scaled(b, neg_mod(1, p), p, num_public, num_witness);
    lemma_closed_sum_of(a, scaled(b, neg_mod(1, p), p), p, num_public, num_witness);
}

/// A coefficient on a variable.
#[derive(Clone, Copy, Debug)]
pub struct Term<F: Field> {
    pub var: Variable,
    pub coeff: F,
}

/// The variables and residues of a sequence of terms.
pub open spec fn term_models<F: Field>(s: Seq<Term<F>>) -> Seq<(Variable, nat)> {
    Seq::new(s.len(), |i: int| (s[i].var, s[i].coeff.value()))
}

/// An affine expression over allocated variables. Values are immutable:
/// every operation returns a new combination.
pub struct LinearCombination<F: Field> {
    terms: Vec<Term<F>>,
}

impl<F: Field> View for LinearCombination<F> {
    type V = Seq<(Variable, nat)>;

    closed spec fn view(&self) -> Seq<(Variable, nat)> {
        term_models(self.terms@)
    }
}

impl<F: Field> LinearCombination<F> {
    #[verifier::type_invariant]
    spec fn no_repeated_variable(self) -> bool {
        distinct_vars(term_models(self.terms@))
    }

    /// The empty combination, whose value is zero.
    pub fn zero() -> (r: Self)
        ensures
            r@ == Seq::<(Variable, nat)>::empty(),
            distinct_vars(r@),
    {
        let r = LinearCombination { terms: Vec::new() };
        assert(r@ =~= Seq::<(Variable, nat)>::empty());
        r
    }

    /// The combination `1 * v`.
    pub fn from_variable(v: Variable) -> (r: Self)
        ensures
            r@ == seq![(v, 1nat)],
            distinct_vars(r@),
    {
        let mut terms: Vec<Term<F>> = Vec::new();
        terms.push(Term { var: v, coeff: F::one() });
        let r = LinearCombination { terms };
        assert(r@ =~= seq![(v, 1nat)]);
        r
    }

    /// The number of terms. No two of them are on the same variable.
    pub fn len(&self) -> (n: usize)
        ensures
            n == self@.len(),
            distinct_vars(self@),
    {
        proof {
            use_type_invariant(self);
        }
        self.terms.len()
    }

    /// The term at position `i`.
    pub fn term(&self, i: usize) -> (t: Term<F>)
        requires
            i < self@.len(),
        ensures
            (t.var, t.coeff.value()) == self@[i as int],
    {
        self.terms[i]
    }

    /// A copy of this combination.
    pub fn duplicate(&self) -> (r: Self)
        ensures
            r@ == self@,
            distinct_vars(r@),
    {
        proof {
            use_type_invariant(self);
        }
        let mut terms: Vec<Term<F>> = Vec::new();
        let mut i: usize = 0;
        while i < self.terms.len()
            invariant
                i <= self.terms.len(),
                terms.len() == i,
                forall|j: int| 0 <= j < i ==> terms@[j] == self.terms@[j],
            decreases self.terms.len() - i,
        {
            terms.push(self.terms[i]);
            i += 1;
        }
        assert(term_models(terms@) =~= term_models(self.terms@));
        LinearCombination { terms }
    }

    /// This combination with `coeff` added to the coefficient of `var`.
    pub fn add_term(&self, var: Variable, coeff: F) -> (r: Self)
        ensures
            r@ == with_term(self@, var, coeff.value(), F::modulus()),
            distinct_vars(r@),
    {
        proof {
            use_type_invariant(self);
        }
        let ghost old_terms = term_models(self.terms@);
        let ghost c = coeff.value();
        let ghost p = F::modulus();
        let mut terms: Vec<Term<F>> = Vec::new();
        let mut found = false;
        let ghost mut at: int = 0;
        let mut i: usize = 0;
        while i < self.terms.len()
            invariant
                i <= self.terms.len(),
                terms.len() == i,
                old_terms == term_models(self.terms@),
                c == coeff.value(),
                p == F::modulus(),
                found ==> 0 <= at < i && old_terms[at].0 == var,
                !found ==> forall|j: int| 0 <= j < i ==> old_terms[j].0 != var,
                forall|j: int| 0 <= j < i ==> (#[trigger] terms@[j]).var == self.terms@[j].var,
                forall|j: int|
                    0 <= j < i ==> (#[trigger] terms@[j]).coeff.value() == if self.terms@[j].var
                        == var {
                        add_mod(self.terms@[j].coeff.value(), c, p)
                    } else {
                        self.terms@[j].coeff.value()
                    },
            decreases self.terms.len() - i,
        {
            let t = self.terms[i];
            assert(old_terms[i as int] == (t.var, t.coeff.value()));
            if t.var == var {
                terms.push(Term { var: t.var, coeff: t.coeff.add(&coeff) });
                found = true;
                proof {
                    at = i as int;
                }
            } else {
                terms.push(t);
            }
            i += 1;
        }
        if !found {
            terms.push(Term { var, coeff });
        }
        proof {
            let new_terms = term_models(terms@);
            if found {
                assert(mentions(old_terms, var));
                let k = position_of(old_terms, var);
                assert(k == at) by {
                    if k < at {
                        assert(old_terms[k].0 != old_terms[at].0);
                    } else if at < k {
                        assert(old_terms[at].0 != old_terms[k].0);
                    }
                }
                let target = old_terms.update(k, (var, add_mod(old_terms[k].1, c, p)));
                assert forall|j: int| 0 <= j < new_terms.len() implies new_terms[j] == target[j] by {
                    let tj = terms@[j];
                    assert(old_terms[j] == (self.terms@[j].var, self.terms@[j].coeff.value()));
                    if j < k {
                        assert(old_terms[j].0 != old_terms[k].0);
                    } else if k < j {
                        assert(old_terms[k].0 != old_terms[j].0);
                    }
                }
                assert(new_terms =~= target);
                assert forall|a: int, b: int| 0 <= a < b < new_terms.len() implies new_terms[a].0
                    != new_terms[b].0 by {
                    assert(new_terms[a].0 == old_terms[a].0);
                    assert(new_terms[b].0 == old_terms[b].0);
                }
            } else {
                assert(!mentions(old_terms, var));
                let target = old_terms.push((var, c));
                assert forall|j: int| 0 <= j < new_terms.len() implies new_terms[j] == target[j] by {
                    let tj = terms@[j];
                    if j < old_terms.len() {
                        assert(old_terms[j] == (self.terms@[j].var, self.terms@[j].coeff.value()));
                    }
                }
                assert(new_terms =~= target);
                assert forall|a: int, b: int| 0 <= a < b < new_terms.len() implies new_terms[a].0
                    != new_terms[b].0 by {
                    if b < old_terms.len() {
                        assert(old_terms[a].0 != old_terms[b].0);
                    }
                }
            }
        }
        LinearCombination { terms }
    }

    /// This combination plus the constant `k`, carried by the sentinel.
    pub fn add_constant(&self, k: F) -> (r: Self)
        ensures
            r@ == with_term(
                self@,
                Variable { kind: crate::variable::VariableKind::ConstantOne, index: 0 },
                k.value(),
                F::modulus(),
            ),
            distinct_vars(r@),
    {
        self.add_term(Variable::one(), k)
    }

    /// The sum of two combinations. A variable that both mention gets the
    /// field sum of its two coefficients.
    pub fn add(&self, other: &Self) -> (r: Self)
        ensures
            r@ == sum_of(self@, other@, F::modulus()),
            distinct_vars(r@),
    {
        let mut acc = self.duplicate();
        let mut i: usize = 0;
        assert(other@.take(0) =~= Seq::<(Variable, nat)>::empty());
        while i < other.terms.len()
            invariant
                i <= other.terms.len(),
                acc@ == sum_of(self@, other@.take(i as int), F::modulus()),
                distinct_vars(acc@),
            decreases other.terms.len() - i,
        {
            let t = other.terms[i];
            proof {
                let next = other@.take(i as int + 1);
                assert(next.drop_last() =~= other@.take(i as int));
                assert(next.last() == (t.var, t.coeff.value()));
            }
            acc = acc.add_term(t.var, t.coeff);
            i += 1;
        }
        assert(other@.take(i as int) =~= other@);
        acc
    }

    /// Every coefficient multiplied by `k`.
    pub fn scale(&self, k: &F) -> (r: Self)
        ensures
            r@ == scaled(self@, k.value(), F::modulus()),
            distinct_vars(r@),
    {
        proof {
            use_type_invariant(self);
        }
        let mut terms: Vec<Term<F>> = Vec::new();
        let mut i: usize = 0;
        while i < self.terms.len()
            invariant
                i <= self.terms.len(),
                terms.len() == i,
                forall|j: int| 0 <= j < i ==> (#[trigger] terms@[j]).var == self.terms@[j].var,
                forall|j: int|
                    0 <= j < i ==> (#[trigger] terms@[j]).coeff.value() == mul_mod(
                        self.terms@[j].coeff.value(),
                        k.value(),
                        F::modulus(),
                    ),
            decreases self.terms.len() - i,
        {
            let t = self.terms[i];
            terms.push(Term { var: t.var, coeff: t.coeff.mul(k) });
            i += 1;
        }
        proof {
            let new_terms = term_models(terms@);
            let target = scaled(term_models(self.terms@), k.value(), F::modulus());
            assert forall|j: int| 0 <= j < new_terms.len() implies new_terms[j] == target[j] by {
                let tj = terms@[j];
            }
            assert(new_terms =~= target);
            assert forall|a: int, b: int| 0 <= a < b < new_terms.len() implies new_terms[a].0
                != new_terms[b].0 by {
                let ta = terms@[a];
                let tb = terms@[b];
                assert(term_models(self.terms@)[a].0 != term_models(self.terms@)[b].0);
            }
        }
        LinearCombination { terms }
    }

    /// This combination minus `other`.
    pub fn sub(&self, other: &Self) -> (r: Self)
        ensures
            r@ == difference_of(self@, other@, F::modulus()),
            distinct_vars(r@),
    {
        let minus_one = F::one().neg();
        let negated = other.scale(&minus_one);
        self.add(&negated)
    }

    /// Whether the assignment has an entry for every variable mentioned.
    pub fn covered_by(&self, asg: &Assignment<F>) -> (b: bool)
        ensures
            b == lc_closed(self@, asg@.public_inputs.len(), asg@.witnesses.len()),
    {
        self.closed_in(asg.public_inputs.len(), asg.witnesses.len())
    }

    /// Executable form of `lc_closed`.
    pub fn closed_in(&self, num_public: usize, num_witness: usize) -> (b: bool)
        ensures
            b == lc_closed(self@, num_public as nat, num_witness as nat),
    {
        let mut i: usize = 0;
        while i < self.terms.len()
            invariant
                i <= self.terms.len(),
                forall|j: int|
                    0 <= j < i ==> (#[trigger] self@[j]).0.allocated_in(
                        num_public as nat,
                        num_witness as nat,
                    ),
            decreases self.terms.len() - i,
        {
            if !self.terms[i].var.is_allocated_in(num_public, num_witness) {
                assert(self@[i as int].0 == self.terms@[i as int].var);
                return false;
            }
            assert(self@[i as int].0 == self.terms@[i as int].var);
            i += 1;
        }
        true
    }

    /// The value of this combination under an assignment.
    pub fn evaluate(&self, asg: &Assignment<F>) -> (r: F)
        requires
            lc_closed(self@, asg@.public_inputs.len(), asg@.witnesses.len()),
        ensures
            r.value() == lc_eval(self@, asg@, F::modulus()),
    {
        let mut acc = F::zero();
        let mut i: usize = 0;
        assert(self@.take(0) =~= Seq::<(Variable, nat)>::empty());
        while i < self.terms.len()
            invariant
                i <= self.terms.len(),
                lc_closed(self@, asg@.public_inputs.len(), asg@.witnesses.len()),
                acc.value() == lc_eval(self@.take(i as int), asg@, F::modulus()),
            decreases self.terms.len() - i,
        {
            let t = self.terms[i];
            assert(self@[i as int] == (t.var, t.coeff.value()));
            let x = asg.value_of(t.var);
            let prod = t.coeff.mul(&x);
            proof {
                let next = self@.take(i as int + 1);
                assert(next.drop_last() =~= self@.take(i as int));
                assert(next.last() == (t.var, t.coeff.value()));
            }
            acc = acc.add(&prod);
            i += 1;
        }
        assert(self@.take(i as int) =~= self@);
        acc
    }
}

} // verus!
