use vstd::prelude::*;

verus! {

/// The unnormalised starting direction of agent `id`: `(id mod 3 - 1, id mod 5 - 2)`.
/// Each component is small, so neighbours with consecutive ids start out
/// pointing in different directions instead of overlapping.
pub open spec fn heading_of(id: nat) -> (int, int) {
    ((id % 3) as int - 1, (id % 5) as int - 2)
}

/// The heading of `id` is the zero vector exactly when `id mod 15 == 7`;
/// those agents are the ones that start at rest.
pub proof fn lemma_heading_zero_iff(id: nat)
    ensures
        (heading_of(id).0 == 0 && heading_of(id).1 == 0) <==> id % 15 == 7,
{
    let r = id % 15;
    vstd::arithmetic::div_mod::lemma_mod_mod(id as int, 3, 5);
    vstd::arithmetic::div_mod::lemma_mod_mod(id as int, 5, 3);
    assert((r % 3 == 1 && r % 5 == 2) <==> r == 7) by (nonlinear_arith)
        requires
            r < 15,
    ;
}

/// The integer direction an agent with this id starts moving in, before it is
/// normalised and scaled to the starting speed.
pub fn initial_heading(id: usize) -> (r: (i32, i32))
    ensures
        r.0 as int == heading_of(id as nat).0,
        r.1 as int == heading_of(id as nat).1,
        -1 <= r.0 <= 1,
        -2 <= r.1 <= 2,
        (r.0 == 0 && r.1 == 0) <==> id % 15 == 7,
{
    proof {
        lemma_heading_zero_iff(id as nat);
    }
    let a: i32 = (id % 3) as i32;
    let b: i32 = (id % 5) as i32;
    (a - 1, b - 2)
}

} // verus!
