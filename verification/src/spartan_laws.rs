//! The sparse matrices of a rank-1 system mean what its constraints mean.

use vstd::prelude::*;
use crate::assignment::AssignmentModel;
use crate::checker::{all_hold, complete_for};
use crate::constraint::{constraint_closed, constraint_holds, ConstraintModel};
use crate::field::{add_mod, mul_mod};
use crate::lc::{lc_closed, lc_eval};
use crate::spartan::{all_rank1, column_of, matrix_entries, row_entries, side_of, sides_of, Side};
use crate::system::SystemModel;
use crate::variable::Variable;

verus! {

/// The vector that the matrices are multiplied with: the witnesses, the
/// constant one, the public inputs.
pub open spec fn z_vector(asg: AssignmentModel) -> Seq<nat> {
    asg.witnesses + seq![1nat] + asg.public_inputs
}

/// Entry `row` of the product of a sparse matrix with the vector `z`.
pub open spec fn row_product(entries: Seq<(nat, nat, nat)>, row: nat, z: Seq<nat>, p: nat) -> nat
    decreases entries.len(),
{
    if entries.len() == 0 {
        0
    } else {
        let rest = row_product(entries.drop_last(), row, z, p);
        let e = entries.last();
        if e.0 == row {
            add_mod(rest, mul_mod(e.2, z[e.1 as int], p), p)
        } else {
            rest
        }
    }
}

/// The vector `z` satisfies the matrices: in every row the product of the
/// entries of `A z` and `B z` is the entry of `C z`.
pub open spec fn matrices_satisfied(
    a: Seq<(nat, nat, nat)>,
    b: Seq<(nat, nat, nat)>,
    c: Seq<(nat, nat, nat)>,
    num_cons: nat,
    z: Seq<nat>,
    p: nat,
) -> bool {
    forall|r: nat|
        r < num_cons ==> mul_mod(
            #[trigger] row_product(a, r, z, p),
            row_product(b, r, z, p),
            p,
        ) == row_product(c, r, z, p)
}

/// The column of an issued variable holds the variable's value.
proof fn lemma_column_value(v: Variable, asg: AssignmentModel)
    requires
        v.allocated_in(asg.public_inputs.len(), asg.witnesses.len()),
    ensures
        0 <= column_of(v, asg.witnesses.len()) < z_vector(asg).len(),
        z_vector(asg)[column_of(v, asg.witnesses.len()) as int] == asg.value_of(v),
{
}

/// Appending the entries of one row changes that row's product by the value
/// of the row's combination and leaves every other row as it was.
proof fn lemma_row_appended(
    entries: Seq<(nat, nat, nat)>,
    lc: Seq<(Variable, nat)>,
    at: nat,
    row: nat,
    asg: AssignmentModel,
    p: nat,
)
    requires
        lc_closed(lc, asg.public_inputs.len(), asg.witnesses.len()),
        row_product(entries, at, z_vector(asg), p) == 0,
    ensures
        row_product(
            entries + row_entries(lc, at, asg.witnesses.len()),
            row,
            z_vector(asg),
            p,
        ) == if row == at {
            lc_eval(lc, asg, p)
        } else {
            row_product(entries, row, z_vector(asg), p)
        },
    decreases lc.len(),
{
    let nv = asg.witnesses.len();
    let added = row_entries(lc, at, nv);
    let all = entries + added;
    if lc.len() == 0 {
        assert(all =~= entries);
    } else {
        let rest = lc.drop_last();
        assert forall|j: int| 0 <= j < rest.len() implies (#[trigger] rest[j]).0.allocated_in(
            asg.public_inputs.len(),
            nv,
        ) by {
            assert(rest[j] == lc[j]);
        }
        lemma_row_appended(entries, rest, at, row, asg, p);
        assert(all.drop_last() =~= entries + row_entries(rest, at, nv));
        assert(all.last() == (at, column_of(lc.last().0, nv), lc.last().1));
        assert(lc[lc.len() - 1].0.allocated_in(asg.public_inputs.len(), nv));
        lemma_column_value(lc.last().0, asg);
    }
}

/// Row `i` of the product of a matrix with `z` is the value of the
/// combination that the row was made from, and zero past the last row.
pub proof fn lemma_matrix_row(rows: Seq<Seq<(Variable, nat)>>, i: nat, asg: AssignmentModel, p: nat)
    requires
        forall|k: int|
            0 <= k < rows.len() ==> lc_closed(
                #[trigger] rows[k],
                asg.public_inputs.len(),
                asg.witnesses.len(),
            ),
    ensures
        row_product(matrix_entries(rows, asg.witnesses.len()), i, z_vector(asg), p) == if i
            < rows.len() {
            lc_eval(rows[i as int], asg, p)
        } else {
            0
        },
    decreases rows.len(),
{
    if rows.len() > 0 {
        let before = rows.drop_last();
        let last = (rows.len() - 1) as nat;
        assert forall|k: int| 0 <= k < before.len() implies lc_closed(
            #[trigger] before[k],
            asg.public_inputs.len(),
            asg.witnesses.len(),
        ) by {
            assert(before[k] == rows[k]);
        }
        lemma_matrix_row(before, i, asg, p);
        lemma_matrix_row(before, last, asg, p);
        lemma_row_appended(
            matrix_entries(before, asg.witnesses.len()),
            rows.last(),
            last,
            i,
            asg,
            p,
        );
        if i < last {
            assert(before[i as int] == rows[i as int]);
        }
    }
}

/// The export is faithful. For a well-formed system of rank-1 constraints
/// and a complete assignment, the vector of the assignment satisfies the
/// three matrices of the system exactly where the assignment fulfils every
/// constraint.
pub proof fn lemma_export_faithful(m: SystemModel, asg: AssignmentModel, p: nat)
    requires
        m.wf(),
        all_rank1(m.constraints),
        complete_for(asg, m),
    ensures
        matrices_satisfied(
            matrix_entries(sides_of(m.constraints, Side::A), m.num_witnesses),
            matrix_entries(sides_of(m.constraints, Side::B), m.num_witnesses),
            matrix_entries(sides_of(m.constraints, Side::C), m.num_witnesses),
            m.constraints.len(),
            z_vector(asg),
            p,
        ) <==> all_hold(m.constraints, asg, p),
{
    let n = m.constraints.len();
    let z = z_vector(asg);
    let rows_a = sides_of(m.constraints, Side::A);
    let rows_b = sides_of(m.constraints, Side::B);
    let rows_c = sides_of(m.constraints, Side::C);
    let a = matrix_entries(rows_a, m.num_witnesses);
    let b = matrix_entries(rows_b, m.num_witnesses);
    let c = matrix_entries(rows_c, m.num_witnesses);
    assert forall|k: int| 0 <= k < n implies lc_closed(
        #[trigger] rows_a[k],
        asg.public_inputs.len(),
        asg.witnesses.len(),
    ) && lc_closed(rows_b[k], asg.public_inputs.len(), asg.witnesses.len()) && lc_closed(
        rows_c[k],
        asg.public_inputs.len(),
        asg.witnesses.len(),
    ) by {
        assert(m.constraints[k] is Rank1);
        assert(constraint_closed(m.constraints[k], m.num_public_inputs, m.num_witnesses));
    }
    assert forall|r: nat| r < n implies (mul_mod(
        #[trigger] row_product(a, r, z, p),
        row_product(b, r, z, p),
        p,
    ) == row_product(c, r, z, p)) == constraint_holds(m.constraints[r as int], asg, p) by {
        lemma_matrix_row(rows_a, r, asg, p);
        lemma_matrix_row(rows_b, r, asg, p);
        lemma_matrix_row(rows_c, r, asg, p);
        assert(m.constraints[r as int] is Rank1);
    }
    if all_hold(m.constraints, asg, p) {
        assert forall|r: nat| r < n implies mul_mod(
            #[trigger] row_product(a, r, z, p),
            row_product(b, r, z, p),
            p,
        ) == row_product(c, r, z, p) by {
            assert(constraint_holds(m.constraints[r as int], asg, p));
        }
    }
    if matrices_satisfied(a, b, c, n, z, p) {
        assert forall|k: int| 0 <= k < n implies constraint_holds(
            #[trigger] m.constraints[k],
            asg,
            p,
        ) by {
            let r = k as nat;
            assert(mul_mod(row_product(a, r, z, p), row_product(b, r, z, p), p) == row_product(
                c,
                r,
                z,
                p,
            ));
        }
    }
}

} // verus!
