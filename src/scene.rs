use vstd::prelude::*;

verus! {

/// Whether candidate `i` is a hit that no candidate before it matches or beats,
/// and that no candidate after it beats.
///
/// Each candidate is the order key of one surface's accepted hit distance, or
/// `None` where the ray misses that surface. Keys order as the distances do.
pub open spec fn is_nearest(keys: Seq<Option<u32>>, i: int) -> bool {
    &&& 0 <= i < keys.len()
    &&& keys[i] is Some
    &&& forall|j: int|
        0 <= j < keys.len() && keys[j] is Some ==> keys[i]->0 <= keys[j]->0
    &&& forall|j: int| 0 <= j < i && keys[j] is Some ==> keys[i]->0 < keys[j]->0
}

/// Picks the surface with the nearest hit from the per-surface candidates,
/// the first one in scene order where several are equally near.
pub fn nearest_hit(keys: &Vec<Option<u32>>) -> (r: Option<usize>)
    ensures
        r is None <==> forall|j: int| 0 <= j < keys@.len() ==> keys@[j] is None,
        r matches Some(i) ==> is_nearest(keys@, i as int),
{
    let mut best: Option<usize> = None;
    let mut best_key: u32 = 0;
    let mut i: usize = 0;
    while i < keys.len()
        invariant
            i <= keys@.len(),
            best is None <==> forall|j: int| 0 <= j < i ==> keys@[j] is None,
            best matches Some(b) ==> {
                &&& b < i
                &&& keys@[b as int] == Some(best_key)
                &&& forall|j: int| 0 <= j < i && keys@[j] is Some ==> best_key <= keys@[j]->0
                &&& forall|j: int| 0 <= j < b && keys@[j] is Some ==> best_key < keys@[j]->0
            },
        decreases keys@.len() - i,
    {
        if let Some(k) = keys[i] {
            let closer = match best {
                None => true,
                Some(_) => k < best_key,
            };
            if closer {
                best = Some(i);
                best_key = k;
            }
        }
        i = i + 1;
    }
    best
}

} // verus!
