//! Packing textures into the renderer's atlas: textures are placed left to
//! right on shelves, a new shelf starting below the tallest texture of the
//! previous one when the next texture no longer fits across.
use vstd::prelude::*;

verus! {

/// Width and height of the square atlas, in pixels.
pub const ATLAS_SIZE: u32 = 1024;

/// Where textures of sizes `sizes[i..]` go, given the current shelf: the next
/// free column `x`, the shelf's top `y` and its height `h` so far. `None`
/// when a texture is larger than the atlas or no longer fits below.
pub open spec fn shelf_from(sizes: Seq<(u32, u32)>, i: int, x: int, y: int, h: int) -> Option<Seq<(u32, u32)>>
    decreases sizes.len() - i,
{
    if i < 0 || i >= sizes.len() {
        Some(Seq::empty())
    } else {
        let (w, th) = sizes[i];
        if w > ATLAS_SIZE || th > ATLAS_SIZE {
            None
        } else {
            let new_shelf = x + w > ATLAS_SIZE;
            let x1 = if new_shelf { 0 } else { x };
            let y1 = if new_shelf { y + h } else { y };
            let h1 = if new_shelf { 0 } else { h };
            if y1 + th > ATLAS_SIZE {
                None
            } else {
                match shelf_from(sizes, i + 1, x1 + w, y1, if h1 >= th { h1 } else { th as int }) {
                    Some(rest) => Some(seq![(x1 as u32, y1 as u32)] + rest),
                    None => None,
                }
            }
        }
    }
}

/// The top-left corner of each texture, in order, or `None` when they do not
/// all fit.
pub open spec fn atlas_plan(sizes: Seq<(u32, u32)>) -> Option<Seq<(u32, u32)>> {
    shelf_from(sizes, 0, 0, 0, 0)
}

/// Places textures of the given sizes, in order, into the atlas: the corner
/// of each, or `None` when a texture is larger than the atlas or the atlas
/// is full. Every texture placed lies inside the atlas, and no two placed
/// textures share a pixel.
pub fn pack_atlas(sizes: &[(u32, u32)]) -> (r: Option<Vec<(u32, u32)>>)
    ensures
        match atlas_plan(sizes@) {
            Some(p) => r matches Some(v) && v@ == p,
            None => r is None,
        },
        r matches Some(v) ==> v@.len() == sizes@.len() && well_placed(sizes@, v@),
{
    proof {
        lemma_atlas_plan_well_placed(sizes@);
    }
    let n = sizes.len();
    let mut out: Vec<(u32, u32)> = Vec::new();
    let mut x: u32 = 0;
    let mut y: u32 = 0;
    let mut h: u32 = 0;
    for i in 0..n
        invariant
            n == sizes@.len(),
            x <= ATLAS_SIZE,
            y + h <= ATLAS_SIZE,
            h <= ATLAS_SIZE,
            atlas_plan(sizes@) == match shelf_from(sizes@, i as int, x as int, y as int, h as int) {
                Some(rest) => Some(out@ + rest),
                None => None::<Seq<(u32, u32)>>,
            },
    {
        let (w, th) = sizes[i];
        if w > ATLAS_SIZE || th > ATLAS_SIZE {
            return None;
        }
        if x + w > ATLAS_SIZE {
            y = y + h;
            x = 0;
            h = 0;
        }
        if y + th > ATLAS_SIZE {
            return None;
        }
        let ghost prev = out@;
        out.push((x, y));
        proof {
            let nh: int = if h >= th { h as int } else { th as int };
            match shelf_from(sizes@, i + 1, (x + w) as int, y as int, nh) {
                Some(rest) => {
                    assert(out@ + rest =~= prev + (seq![(x, y)] + rest));
                },
                None => {},
            }
        }
        x = x + w;
        if th > h {
            h = th;
        }
    }
    proof {
        assert(out@ + Seq::<(u32, u32)>::empty() =~= out@);
    }
    Some(out)
}

/// The rectangle of a texture of size `sa` at corner `a` and that of one of
/// size `sb` at `b` share no pixel.
pub open spec fn apart(a: (u32, u32), sa: (u32, u32), b: (u32, u32), sb: (u32, u32)) -> bool {
    ||| a.0 + sa.0 <= b.0
    ||| b.0 + sb.0 <= a.0
    ||| a.1 + sa.1 <= b.1
    ||| b.1 + sb.1 <= a.1
}

/// The first `corners.len()` textures, placed at `corners`, each lie inside
/// the atlas and share no pixel with one another.
pub open spec fn well_placed(sizes: Seq<(u32, u32)>, corners: Seq<(u32, u32)>) -> bool {
    &&& corners.len() <= sizes.len()
    &&& forall|k: int|
        0 <= k < corners.len() ==> #[trigger] corners[k].0 + sizes[k].0 <= ATLAS_SIZE
            && corners[k].1 + sizes[k].1 <= ATLAS_SIZE
    &&& forall|j: int, k: int|
        0 <= j < k < corners.len() ==> apart(#[trigger] corners[j], sizes[j], #[trigger] corners[k], sizes[k])
}

/// Every texture placed so far lies either on the open shelf, left of `x` and
/// within the shelf's height `h`, or wholly above the shelf's top `y`.
pub open spec fn behind_shelf(sizes: Seq<(u32, u32)>, corners: Seq<(u32, u32)>, x: int, y: int, h: int) -> bool {
    forall|j: int|
        0 <= j < corners.len() ==> {
            ||| (#[trigger] corners[j]).1 == y && corners[j].0 + sizes[j].0 <= x && corners[j].1 + sizes[j].1 <= y + h
            ||| corners[j].1 + sizes[j].1 <= y
        }
}

proof fn lemma_shelf_well_placed(
    sizes: Seq<(u32, u32)>,
    i: int,
    x: int,
    y: int,
    h: int,
    done: Seq<(u32, u32)>,
)
    requires
        0 <= i <= sizes.len(),
        done.len() == i,
        0 <= x <= ATLAS_SIZE,
        0 <= y,
        0 <= h,
        y + h <= ATLAS_SIZE,
        well_placed(sizes, done),
        behind_shelf(sizes, done, x, y, h),
    ensures
        shelf_from(sizes, i, x, y, h) matches Some(rest) ==> rest.len() == sizes.len() - i
            && well_placed(sizes, done + rest),
    decreases sizes.len() - i,
{
    if i == sizes.len() {
        assert(done + Seq::<(u32, u32)>::empty() =~= done);
    } else {
        let (w, th) = sizes[i];
        if w <= ATLAS_SIZE && th <= ATLAS_SIZE {
            let new_shelf = x + w > ATLAS_SIZE;
            let x1: int = if new_shelf { 0 } else { x };
            let y1: int = if new_shelf { y + h } else { y };
            let h1: int = if new_shelf { 0 } else { h };
            if y1 + th <= ATLAS_SIZE {
                let c: (u32, u32) = (x1 as u32, y1 as u32);
                let done2 = done.push(c);
                let h2: int = if h1 >= th { h1 } else { th as int };
                assert forall|j: int, k: int| 0 <= j < k < done2.len() implies apart(
                    #[trigger] done2[j],
                    sizes[j],
                    #[trigger] done2[k],
                    sizes[k],
                ) by {
                    if k < i {
                        assert(done2[j] == done[j] && done2[k] == done[k]);
                    } else {
                        assert(done2[j] == done[j]);
                        assert(done2[k] == c);
                    }
                }
                assert forall|j: int| 0 <= j < done2.len() implies {
                    ||| (#[trigger] done2[j]).1 == y1 && done2[j].0 + sizes[j].0 <= x1 + w
                        && done2[j].1 + sizes[j].1 <= y1 + h2
                    ||| done2[j].1 + sizes[j].1 <= y1
                } by {
                    if j < i {
                        assert(done2[j] == done[j]);
                    }
                }
                lemma_shelf_well_placed(sizes, i + 1, x1 + w, y1, h2, done2);
                match shelf_from(sizes, i + 1, x1 + w, y1, h2) {
                    Some(rest) => {
                        assert(done + (seq![c] + rest) =~= done2 + rest);
                    },
                    None => {},
                }
            }
        }
    }
}

/// Whatever the atlas accepts, it holds: every texture gets a corner, lies
/// inside the atlas, and shares no pixel with any other texture.
pub proof fn lemma_atlas_plan_well_placed(sizes: Seq<(u32, u32)>)
    ensures
        atlas_plan(sizes) matches Some(p) ==> p.len() == sizes.len() && well_placed(sizes, p),
{
    lemma_shelf_well_placed(sizes, 0, 0, 0, 0, Seq::empty());
    assert(Seq::<(u32, u32)>::empty() + Seq::<(u32, u32)>::empty() =~= Seq::<(u32, u32)>::empty());
    match atlas_plan(sizes) {
        Some(p) => {
            assert(Seq::<(u32, u32)>::empty() + p =~= p);
        },
        None => {},
    }
}

} // verus!
