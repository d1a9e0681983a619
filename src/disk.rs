//! Choosing the disk that holds a directory, for the storage figures of the
//! models directory. The application tests each disk's mount point against
//! the directory and measures it; the choice is made here.
use vstd::prelude::*;

verus! {

/// Whether disk `i` holds the path: its mount point is a non-empty prefix of it.
pub open spec fn holds(c: Seq<(bool, usize)>, i: int) -> bool {
    c[i].0 && c[i].1 > 0
}

/// Disk `i` is the choice: it holds the path, no disk that holds it has a
/// longer mount point, and every earlier one that holds it has a shorter one.
pub open spec fn is_best(c: Seq<(bool, usize)>, i: int) -> bool {
    &&& 0 <= i < c.len()
    &&& holds(c, i)
    &&& forall|j: int| 0 <= j < c.len() && #[trigger] holds(c, j) ==> c[j].1 <= c[i].1
    &&& forall|j: int| 0 <= j < i && #[trigger] holds(c, j) ==> c[j].1 < c[i].1
}

/// Picks a disk from `(mount point is a prefix of the path, mount point length)`
/// per disk: the disk with the longest mount point that holds the path (the
/// first such on a tie); when none holds it, the first disk; `None` when
/// there are no disks.
pub fn pick_disk(candidates: &Vec<(bool, usize)>) -> (r: Option<usize>)
    ensures
        (exists|i: int| 0 <= i < candidates@.len() && #[trigger] holds(candidates@, i)) ==> (
        r matches Some(i) && is_best(candidates@, i as int)),
        !(exists|i: int| 0 <= i < candidates@.len() && #[trigger] holds(candidates@, i)) ==> (
        if candidates@.len() == 0 {
            r is None
        } else {
            r == Some(0usize)
        }),
{
    let mut best: Option<usize> = None;
    let mut best_len: usize = 0;
    let mut i: usize = 0;
    while i < candidates.len()
        invariant
            i <= candidates@.len(),
            match best {
                Some(b) => {
                    &&& b < i
                    &&& holds(candidates@, b as int)
                    &&& best_len == candidates@[b as int].1
                    &&& forall|j: int| 0 <= j < i && #[trigger] holds(candidates@, j) ==> candidates@[j].1 <= best_len
                    &&& forall|j: int| 0 <= j < b && #[trigger] holds(candidates@, j) ==> candidates@[j].1 < best_len
                },
                None => {
                    &&& best_len == 0
                    &&& forall|j: int| 0 <= j < i ==> !#[trigger] holds(candidates@, j)
                },
            },
        decreases candidates@.len() - i,
    {
        let (matches, len) = candidates[i];
        if matches && len > best_len {
            best = Some(i);
            best_len = len;
        }
        i = i + 1;
    }
    match best {
        Some(b) => Some(b),
        None => {
            if candidates.len() == 0 {
                None
            } else {
                Some(0)
            }
        },
    }
}

} // verus!
