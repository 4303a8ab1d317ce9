//! Intersection windows, root selection and nearest-hit aggregation.
//!
//! A primitive presents the parameters at which a ray meets it as a list of
//! candidates in ascending order (a sphere has none or two). It accepts the
//! first candidate that lies inside the half-open search window `[lo, hi)`.
//! A scene is a list of such candidate lists; the scene's hit is found by
//! asking every member in turn while shrinking the window to the closest hit
//! found so far.
use vstd::prelude::*;

verus! {

/// True when the parameter `t` lies in the half-open window `[lo, hi)`.
pub open spec fn in_window(t: int, lo: int, hi: int) -> bool {
    lo <= t < hi
}

/// True when the candidates of one primitive are in ascending order.
pub open spec fn ascending(c: Seq<i64>) -> bool {
    forall|i: int, j: int| 0 <= i <= j < c.len() ==> c[i] <= c[j]
}

/// Index of the first candidate at or after position `i` that lies in `[lo, hi)`.
pub open spec fn first_from(c: Seq<i64>, lo: int, hi: int, i: int) -> Option<int>
    decreases c.len() - i,
{
    if i < 0 || i >= c.len() {
        None
    } else if in_window(c[i] as int, lo, hi) {
        Some(i)
    } else {
        first_from(c, lo, hi, i + 1)
    }
}

/// Index of the candidate that a primitive accepts in the window `[lo, hi)`.
pub open spec fn first_index(c: Seq<i64>, lo: int, hi: int) -> Option<int> {
    first_from(c, lo, hi, 0)
}

/// The parameter at which a primitive is hit in the window `[lo, hi)`, if any.
pub open spec fn object_hit(c: Seq<i64>, lo: int, hi: int) -> Option<int> {
    match first_index(c, lo, hi) {
        Some(k) => Some(c[k] as int),
        None => None,
    }
}

/// True when the scene and each of its candidate lists could be held in a `Vec`.
pub open spec fn fits_in_memory(scene: Seq<Seq<i64>>) -> bool {
    &&& scene.len() <= usize::MAX
    &&& forall|i: int| 0 <= i < scene.len() ==> (#[trigger] scene[i]).len() <= usize::MAX
}

/// The nearest hit of a scene: which member, which of its candidates, and the
/// parameter itself.
#[derive(Clone, Copy, Debug, PartialEq, Eq, Structural)]
pub struct Hit {
    /// Position of the member in the scene.
    pub object: usize,
    /// Position of the accepted candidate among the member's candidates.
    pub root: usize,
    /// Key of the accepted parameter.
    pub t: i64,
}

/// The scene's candidate lists as sequences.
pub open spec fn scene_view(scene: &Vec<Vec<i64>>) -> Seq<Seq<i64>> {
    scene@.map_values(|v: Vec<i64>| v@)
}

/// The upper end of the window after `best`: its parameter, or `hi` when
/// nothing has been hit yet.
pub open spec fn closest(best: Option<Hit>, hi: int) -> int {
    match best {
        Some(h) => h.t as int,
        None => hi,
    }
}

/// The hit found after asking the first `n` members of `scene`, each in the
/// window `[lo, closest so far)`.
pub open spec fn scan(scene: Seq<Seq<i64>>, lo: int, hi: int, n: int) -> Option<Hit>
    decreases n,
{
    if n <= 0 {
        None
    } else {
        let prev = scan(scene, lo, hi, n - 1);
        let c = scene[n - 1];
        match first_index(c, lo, closest(prev, hi)) {
            Some(k) => Some(Hit { object: (n - 1) as usize, root: k as usize, t: c[k] }),
            None => prev,
        }
    }
}

/// The hit of the whole scene in the window `[lo, hi)`.
pub open spec fn nearest(scene: Seq<Seq<i64>>, lo: int, hi: int) -> Option<Hit> {
    scan(scene, lo, hi, scene.len() as int)
}

/// Index of the first candidate of `c` that lies in `[lo, hi)`, if any.
pub fn first_in_window(c: &Vec<i64>, lo: i64, hi: i64) -> (r: Option<usize>)
    ensures
        r matches Some(k) ==> k < c@.len() && first_index(c@, lo as int, hi as int) == Some(k as int),
        r is None ==> first_index(c@, lo as int, hi as int) is None,
        r matches Some(k) ==> in_window(c@[k as int] as int, lo as int, hi as int) && forall|j: int|
            0 <= j < k ==> !in_window(#[trigger] c@[j] as int, lo as int, hi as int),
        r is None ==> forall|j: int|
            0 <= j < c@.len() ==> !in_window(#[trigger] c@[j] as int, lo as int, hi as int),
{
    let mut i: usize = 0;
    while i < c.len()
        invariant
            i <= c@.len(),
            first_index(c@, lo as int, hi as int) == first_from(c@, lo as int, hi as int, i as int),
            forall|j: int| 0 <= j < i ==> !in_window(#[trigger] c@[j] as int, lo as int, hi as int),
        decreases c@.len() - i,
    {
        if lo <= c[i] && c[i] < hi {
            return Some(i);
        }
        i = i + 1;
    }
    None
}

/// The nearest hit of `scene` in the window `[lo, hi)`.
///
/// Members are asked in order, each in the window `[lo, closest so far)`, so
/// a member whose hit ties with an earlier one is not taken.
pub fn nearest_hit(scene: &Vec<Vec<i64>>, lo: i64, hi: i64) -> (r: Option<Hit>)
    ensures
        r == nearest(scene_view(scene), lo as int, hi as int),
        r matches Some(h) ==> {
            &&& h.object < scene@.len()
            &&& h.root < scene@[h.object as int]@.len()
            &&& h.t == scene@[h.object as int]@[h.root as int]
            &&& in_window(h.t as int, lo as int, hi as int)
        },
        r is None <==> forall|i: int, j: int|
            0 <= i < scene@.len() && 0 <= j < scene@[i]@.len() ==> !in_window(
                #[trigger] scene@[i]@[j] as int,
                lo as int,
                hi as int,
            ),
{
    let ghost s = scene_view(scene);
    let mut best: Option<Hit> = None;
    let mut bound: i64 = hi;
    let mut i: usize = 0;
    while i < scene.len()
        invariant
            i <= scene@.len(),
            s == scene_view(scene),
            best == scan(s, lo as int, hi as int, i as int),
            bound as int == closest(best, hi as int),
            best matches Some(h) ==> {
                &&& h.object < i
                &&& h.root < scene@[h.object as int]@.len()
                &&& h.t == scene@[h.object as int]@[h.root as int]
                &&& in_window(h.t as int, lo as int, hi as int)
            },
            best is None <==> forall|i2: int, j: int|
                0 <= i2 < i && 0 <= j < scene@[i2]@.len() ==> !in_window(
                    #[trigger] scene@[i2]@[j] as int,
                    lo as int,
                    hi as int,
                ),
        decreases scene@.len() - i,
    {
        let c = &scene[i];
        assert(c@ == s[i as int]);
        match first_in_window(c, lo, bound) {
            Some(k) => {
                let t = c[k];
                best = Some(Hit { object: i, root: k, t });
                bound = t;
            },
            None => {},
        }
        i = i + 1;
    }
    best
}

/// What `first_from` returns: the first position at or after `i` whose
/// candidate lies in the window, or none when there is no such position.
proof fn lemma_first_from(c: Seq<i64>, lo: int, hi: int, i: int)
    requires
        0 <= i,
    ensures
        first_from(c, lo, hi, i) matches Some(k) ==> i <= k < c.len() && in_window(c[k] as int, lo, hi)
            && forall|j: int| i <= j < k ==> !in_window(#[trigger] c[j] as int, lo, hi),
        first_from(c, lo, hi, i) is None ==> forall|j: int|
            i <= j < c.len() ==> !in_window(#[trigger] c[j] as int, lo, hi),
    decreases c.len() - i,
{
    if i < c.len() && !in_window(c[i] as int, lo, hi) {
        lemma_first_from(c, lo, hi, i + 1);
    }
}

/// Shrinking the window to `[lo, b)` keeps an ascending primitive's hit when
/// it lies below `b`, and loses it otherwise.
proof fn lemma_first_shrink(c: Seq<i64>, lo: int, hi: int, b: int)
    requires
        ascending(c),
        b <= hi,
    ensures
        first_index(c, lo, b) == (match first_index(c, lo, hi) {
            Some(k) => if c[k] < b { Some(k) } else { None },
            None => None,
        }),
{
    lemma_first_from(c, lo, hi, 0);
    lemma_first_from(c, lo, b, 0);
    match first_index(c, lo, hi) {
        Some(k) => {
            if c[k] < b {
                assert(in_window(c[k] as int, lo, b));
                match first_index(c, lo, b) {
                    Some(k2) => {
                        if k2 < k {
                            assert(!in_window(c[k2] as int, lo, hi));
                        }
                        if k < k2 {
                            assert(!in_window(c[k] as int, lo, b));
                        }
                    },
                    None => {
                        assert(!in_window(c[k] as int, lo, b));
                    },
                }
            } else {
                match first_index(c, lo, b) {
                    Some(k2) => {
                        if k2 < k {
                            assert(!in_window(c[k2] as int, lo, hi));
                        } else {
                            assert(c[k] <= c[k2]);
                        }
                    },
                    None => {},
                }
            }
        },
        None => {
            match first_index(c, lo, b) {
                Some(k2) => {
                    assert(!in_window(c[k2] as int, lo, hi));
                },
                None => {},
            }
        },
    }
}

/// The scan over the first `n` members picks the smallest of their hits,
/// from the earliest member that has it.
proof fn lemma_scan_minimum(scene: Seq<Seq<i64>>, lo: int, hi: int, n: int)
    requires
        0 <= n <= scene.len(),
        forall|i: int| 0 <= i < scene.len() ==> ascending(#[trigger] scene[i]),
        fits_in_memory(scene),
    ensures
        scan(scene, lo, hi, n) is None <==> forall|i: int|
            0 <= i < n ==> (#[trigger] object_hit(scene[i], lo, hi)) is None,
        scan(scene, lo, hi, n) matches Some(h) ==> {
            &&& 0 <= h.object < n
            &&& first_index(scene[h.object as int], lo, hi) == Some(h.root as int)
            &&& object_hit(scene[h.object as int], lo, hi) == Some(h.t as int)
            &&& lo <= h.t < hi
            &&& forall|i: int| 0 <= i < n ==> (#[trigger] object_hit(scene[i], lo, hi) matches Some(t)
                ==> h.t <= t)
            &&& forall|i: int| 0 <= i < h.object ==> (#[trigger] object_hit(scene[i], lo, hi) matches Some(t)
                ==> h.t < t)
        },
    decreases n,
{
    if n > 0 {
        lemma_scan_minimum(scene, lo, hi, n - 1);
        let prev = scan(scene, lo, hi, n - 1);
        let c = scene[n - 1];
        let b = closest(prev, hi);
        lemma_first_shrink(c, lo, hi, b);
        lemma_first_from(c, lo, hi, 0);
        match first_index(c, lo, hi) {
            Some(k) => {
                assert(object_hit(c, lo, hi) == Some(c[k] as int));
            },
            None => {},
        }
        match prev {
            Some(h) => {
                assert(lo <= h.t < hi);
            },
            None => {},
        }
    }
}

/// The nearest hit of a scene whose members present ascending candidates is
/// the smallest of the members' own hits in the window, taken from the
/// earliest member that has it; there is none exactly when no member is hit.
pub proof fn lemma_nearest_is_minimum(scene: Seq<Seq<i64>>, lo: int, hi: int)
    requires
        forall|i: int| 0 <= i < scene.len() ==> ascending(#[trigger] scene[i]),
        fits_in_memory(scene),
    ensures
        nearest(scene, lo, hi) is None <==> forall|i: int|
            0 <= i < scene.len() ==> (#[trigger] object_hit(scene[i], lo, hi)) is None,
        nearest(scene, lo, hi) matches Some(h) ==> {
            &&& 0 <= h.object < scene.len()
            &&& first_index(scene[h.object as int], lo, hi) == Some(h.root as int)
            &&& object_hit(scene[h.object as int], lo, hi) == Some(h.t as int)
            &&& lo <= h.t < hi
            &&& forall|i: int| 0 <= i < scene.len() ==> (#[trigger] object_hit(scene[i], lo, hi) matches Some(t)
                ==> h.t <= t)
            &&& forall|i: int| 0 <= i < h.object ==> (#[trigger] object_hit(scene[i], lo, hi) matches Some(t)
                ==> h.t < t)
        },
{
    lemma_scan_minimum(scene, lo, hi, scene.len() as int);
}

/// The parameter of the nearest hit does not depend on the order in which
/// the members of a scene are listed.
pub proof fn lemma_nearest_order_free(s1: Seq<Seq<i64>>, s2: Seq<Seq<i64>>, lo: int, hi: int)
    requires
        forall|i: int| 0 <= i < s1.len() ==> ascending(#[trigger] s1[i]),
        fits_in_memory(s1),
        s1.to_multiset() =~= s2.to_multiset(),
    ensures
        nearest(s1, lo, hi) is None <==> nearest(s2, lo, hi) is None,
        nearest(s1, lo, hi) matches Some(h1) ==> (nearest(s2, lo, hi) matches Some(h2) && h1.t == h2.t),
{
    s1.to_multiset_ensures();
    s2.to_multiset_ensures();
    assert(s1.len() == s2.len());
    assert forall|i: int| 0 <= i < s2.len() implies ascending(#[trigger] s2[i]) && s2[i].len() <= usize::MAX by {
        assert(s2.to_multiset().count(s2[i]) > 0);
        assert(s1.contains(s2[i]));
    }
    lemma_nearest_is_minimum(s1, lo, hi);
    lemma_nearest_is_minimum(s2, lo, hi);
    assert forall|i: int| 0 <= i < s1.len() implies exists|j: int|
        0 <= j < s2.len() && #[trigger] s2[j] == #[trigger] s1[i] by {
        assert(s1.to_multiset().count(s1[i]) > 0);
        assert(s2.contains(s1[i]));
    }
    assert forall|i: int| 0 <= i < s2.len() implies exists|j: int|
        0 <= j < s1.len() && #[trigger] s1[j] == #[trigger] s2[i] by {
        assert(s2.to_multiset().count(s2[i]) > 0);
        assert(s1.contains(s2[i]));
    }
    if nearest(s1, lo, hi) is None {
        if nearest(s2, lo, hi) is Some {
            let h2 = nearest(s2, lo, hi)->0;
            let j = choose|j: int| 0 <= j < s1.len() && s1[j] == s2[h2.object as int];
            assert(object_hit(s1[j], lo, hi) is None);
        }
    } else {
        let h1 = nearest(s1, lo, hi)->0;
        let j2 = choose|j: int| 0 <= j < s2.len() && s2[j] == s1[h1.object as int];
        assert(object_hit(s2[j2], lo, hi) is Some);
        let h2 = nearest(s2, lo, hi)->0;
        let j1 = choose|j: int| 0 <= j < s1.len() && s1[j] == s2[h2.object as int];
        assert(object_hit(s1[j1], lo, hi) is Some);
    }
}

} // verus!
