//! Deciding whether a generated header has to be written.

use vstd::prelude::*;

verus! {

/// What a header file holds for the comparison: its bytes, or nothing where
/// the file could not be read.
pub open spec fn held(existing: Option<&[u8]>) -> Seq<u8> {
    match existing {
        Some(bytes) => bytes@,
        None => Seq::empty(),
    }
}

/// Whether a freshly generated header has to be written over the one on
/// disk: only if the two differ, so that an unchanged header keeps its date
/// and nothing that includes it is built again. A header that could not be
/// read counts as empty.
pub fn header_changed(generated: &[u8], existing: Option<&[u8]>) -> (changed: bool)
    ensures
        changed == (generated@ != held(existing)),
{
    match existing {
        None => {
            assert(generated@.len() == 0 ==> generated@ =~= Seq::<u8>::empty());
            generated.len() != 0
        },
        Some(bytes) => {
            if generated.len() != bytes.len() {
                return true;
            }
            let mut i: usize = 0;
            while i < generated.len()
                invariant
                    i <= generated.len(),
                    existing == Some(bytes),
                    generated.len() == bytes.len(),
                    forall|j: int| 0 <= j < i ==> generated@[j] == bytes@[j],
                decreases generated.len() - i,
            {
                if generated[i] != bytes[i] {
                    assert(generated@[i as int] != bytes@[i as int]);
                    return true;
                }
                i += 1;
            }
            assert(generated@ =~= bytes@);
            false
        },
    }
}

} // verus!
