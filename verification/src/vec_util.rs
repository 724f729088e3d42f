use vstd::prelude::*;

verus! {

/// Exchanges the elements at positions `i` and `j`, leaving every other
/// position unchanged.
pub(crate) fn swap_elements<T>(v: &mut Vec<T>, i: usize, j: usize)
    requires
        i < old(v).len(),
        j < old(v).len(),
    ensures
        final(v)@ == old(v)@.update(i as int, old(v)@[j as int]).update(
            j as int,
            old(v)@[i as int],
        ),
{
    if i == j {
        proof {
            assert(v@ =~= old(v)@.update(i as int, old(v)@[j as int]).update(
                j as int,
                old(v)@[i as int],
            ));
        }
        return ;
    }
    let lo: usize = if i < j { i } else { j };
    let hi: usize = if i < j { j } else { i };
    let high_elem = v.remove(hi);
    let low_elem = v.remove(lo);
    v.insert(lo, high_elem);
    v.insert(hi, low_elem);
    proof {
        assert(v@ =~= old(v)@.update(i as int, old(v)@[j as int]).update(
            j as int,
            old(v)@[i as int],
        ));
    }
}

} // verus!
