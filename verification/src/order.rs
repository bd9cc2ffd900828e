//! Putting rows in order by a pair of numbers, for the store's listings.
//! The store never has two rows with the same pair: the second number is
//! the row's identity.

use vstd::prelude::*;

verus! {

/// Pair `a` comes before pair `b`: by the first number, and by the second
/// among equal first numbers.
pub open spec fn key_before(a: (u64, u64), b: (u64, u64)) -> bool {
    a.0 < b.0 || (a.0 == b.0 && a.1 < b.1)
}

/// `out` lists every position of `keys` once, in rising order of the keys.
pub open spec fn is_rising(keys: Seq<(u64, u64)>, out: Seq<usize>) -> bool {
    &&& out.len() == keys.len()
    &&& forall|k: int| 0 <= k < out.len() ==> (#[trigger] out[k]) < keys.len()
    &&& forall|a: int, b: int|
        0 <= a < b < out.len() ==> key_before(keys[out[a] as int], keys[out[b] as int])
    &&& forall|i: usize| i < keys.len() ==> out.contains(i)
}

fn before(a: (u64, u64), b: (u64, u64)) -> (r: bool)
    ensures
        r == key_before(a, b),
{
    a.0 < b.0 || (a.0 == b.0 && a.1 < b.1)
}

/// The positions of `keys`, in rising order of the keys, which differ from
/// one another.
pub(crate) fn rising(keys: &Vec<(u64, u64)>) -> (out: Vec<usize>)
    requires
        forall|i: int, j: int| 0 <= i < j < keys.len() ==> keys[i] != keys[j],
    ensures
        is_rising(keys@, out@),
{
    let mut out: Vec<usize> = Vec::new();
    let mut j: usize = 0;
    while j < keys.len()
        invariant
            j <= keys.len(),
            forall|a: int, b: int| 0 <= a < b < keys.len() ==> keys[a] != keys[b],
            out.len() == j,
            forall|k: int| 0 <= k < out.len() ==> (#[trigger] out@[k]) < j,
            forall|a: int, b: int|
                0 <= a < b < out.len() ==> key_before(keys@[out@[a] as int], keys@[out@[b] as int]),
            forall|i: usize| i < j ==> out@.contains(i),
        decreases keys.len() - j,
    {
        let key = keys[j];
        let mut pos: usize = 0;
        while pos < out.len() && before(keys[out[pos]], key)
            invariant
                pos <= out.len(),
                out.len() == j,
                j < keys.len(),
                key == keys@[j as int],
                forall|k: int| 0 <= k < out.len() ==> (#[trigger] out@[k]) < j,
                forall|k: int| 0 <= k < pos ==> key_before(keys@[out@[k] as int], key),
            decreases out.len() - pos,
        {
            pos = pos + 1;
        }
        let ghost old_out = out@;
        out.insert(pos, j);
        proof {
            assert forall|k: int| 0 <= k < out.len() implies (#[trigger] out@[k]) < j + 1 by {
                if k < pos {
                    assert(out@[k] == old_out[k]);
                } else if k > pos {
                    assert(out@[k] == old_out[k - 1]);
                }
            }
            assert forall|a: int, b: int| 0 <= a < b < out.len() implies key_before(
                keys@[out@[a] as int],
                keys@[out@[b] as int],
            ) by {
                let ia = if a < pos { a } else { a - 1 };
                let ib = if b < pos { b } else { b - 1 };
                if a != pos {
                    assert(out@[a] == old_out[ia]);
                }
                if b != pos {
                    assert(out@[b] == old_out[ib]);
                }
                if b > pos {
                    // what stood at `pos` is not before the new key, so it and
                    // all behind it come after the new key
                    assert(old_out[pos as int] < j);
                    assert(keys@[old_out[pos as int] as int] != key);
                    if ib > pos {
                        assert(key_before(
                            keys@[old_out[pos as int] as int],
                            keys@[old_out[ib] as int],
                        ));
                    }
                }
            }
            assert forall|i: usize| i < j + 1 implies out@.contains(i) by {
                if i == j {
                    assert(out@[pos as int] == j);
                } else {
                    assert(old_out.contains(i));
                    let k = choose|k: int| 0 <= k < old_out.len() && old_out[k] == i;
                    if k < pos {
                        assert(out@[k] == i);
                    } else {
                        assert(out@[k + 1] == i);
                    }
                }
            }
        }
        j = j + 1;
    }
    out
}

} // verus!
