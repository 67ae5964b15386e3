//! Which image textures a terminal frame keeps, builds anew and retires: the cache holds one
//! texture per image identifier and generation, built from that image's pixels.

use vstd::prelude::*;

verus! {

/// An image the terminal shows: its identifier, generation, size in pixels and RGBA bytes.
#[derive(Clone, Debug, PartialEq, Eq)]
pub struct GraphicImage {
    pub id: u32,
    pub generation: u64,
    pub width: u32,
    pub height: u32,
    pub rgba: Vec<u8>,
}

/// An image as its identifier, generation, size and bytes.
pub open spec fn image_view(i: GraphicImage) -> (u32, u64, u32, u32, Seq<u8>) {
    (i.id, i.generation, i.width, i.height, i.rgba@)
}

/// A texture: the one the cache held for its `i`th image, or one built for the `j`th image
/// of the frame.
#[derive(Clone, Copy, Debug, PartialEq, Eq, Structural)]
pub enum Texture {
    Cached(usize),
    Built(usize),
}

/// The image a texture was built from.
pub open spec fn source(t: Texture, cached: Seq<GraphicImage>, used: Seq<GraphicImage>) -> (u32, u64, u32, u32, Seq<u8>) {
    match t {
        Texture::Cached(i) => image_view(cached[i as int]),
        Texture::Built(j) => image_view(used[j as int]),
    }
}

/// Whether the frame shows an image with this identifier and generation.
pub open spec fn used_key(used: Seq<GraphicImage>, id: u32, generation: u64) -> bool {
    exists|j: int| 0 <= j < used.len() && used[j].id == id && used[j].generation == generation
}

/// The cache after dropping the textures of images the frame does not show, and the textures
/// dropped, for the first `n` cached images, in order.
pub open spec fn retain_upto(cached: Seq<GraphicImage>, used: Seq<GraphicImage>, n: int) -> (
    Seq<(u32, u64, Texture)>,
    Seq<Texture>,
)
    decreases n,
{
    if n <= 0 {
        (Seq::empty(), Seq::empty())
    } else {
        let (kept, retired) = retain_upto(cached, used, n - 1);
        let c = cached[n - 1];
        if used_key(used, c.id, c.generation) {
            (kept.push((c.id, c.generation, Texture::Cached((n - 1) as usize))), retired)
        } else {
            (kept, retired.push(Texture::Cached((n - 1) as usize)))
        }
    }
}

/// `k` is the first entry of the cache with this identifier and generation.
pub open spec fn is_first_entry(s: Seq<(u32, u64, Texture)>, id: u32, generation: u64, k: int) -> bool {
    0 <= k < s.len() && s[k].0 == id && s[k].1 == generation && forall|j: int|
        0 <= j < k ==> !(s[j].0 == id && s[j].1 == generation)
}

/// The first entry of the cache with this identifier and generation, or -1.
pub open spec fn entry_of(s: Seq<(u32, u64, Texture)>, id: u32, generation: u64) -> int {
    if exists|k: int| is_first_entry(s, id, generation, k) {
        choose|k: int| is_first_entry(s, id, generation, k)
    } else {
        -1
    }
}

/// The frame's `j`th image against the cache: kept where the cache holds a texture of the same
/// image; otherwise built, replacing and retiring a texture of the same identifier and
/// generation, if any.
pub open spec fn build_step(
    s: Seq<(u32, u64, Texture)>,
    cached: Seq<GraphicImage>,
    used: Seq<GraphicImage>,
    j: int,
) -> (Seq<(u32, u64, Texture)>, Option<Texture>, bool) {
    let u = used[j];
    let k = entry_of(s, u.id, u.generation);
    if k >= 0 && source(s[k].2, cached, used) == image_view(u) {
        (s, None, false)
    } else if k >= 0 {
        (s.update(k, (u.id, u.generation, Texture::Built(j as usize))), Some(s[k].2), true)
    } else {
        (s.push((u.id, u.generation, Texture::Built(j as usize))), None, true)
    }
}

/// The cache, the textures retired and the images built, after the first `n` images of the
/// frame, in order.
pub open spec fn build_upto(
    s0: Seq<(u32, u64, Texture)>,
    cached: Seq<GraphicImage>,
    used: Seq<GraphicImage>,
    n: int,
) -> (Seq<(u32, u64, Texture)>, Seq<Texture>, Seq<usize>)
    decreases n,
{
    if n <= 0 {
        (s0, Seq::empty(), Seq::empty())
    } else {
        let (s, retired, built) = build_upto(s0, cached, used, n - 1);
        let (s2, out, b) = build_step(s, cached, used, n - 1);
        (s2, match out {
            Some(t) => retired.push(t),
            None => retired,
        }, if b {
            built.push((n - 1) as usize)
        } else {
            built
        })
    }
}

/// What a frame does to the cache: the textures of images it does not show retire, in the
/// cache's order; then each image it shows, in order, keeps its cached texture where that was
/// built from the same image, and is built anew otherwise, retiring the texture it replaces.
pub open spec fn texture_plan(cached: Seq<GraphicImage>, used: Seq<GraphicImage>) -> (Seq<Texture>, Seq<usize>) {
    let (kept, retired) = retain_upto(cached, used, cached.len() as int);
    let (_, replaced, built) = build_upto(kept, cached, used, used.len() as int);
    (retired + replaced, built)
}

/// Whether two images are the same.
fn same_image(a: &GraphicImage, b: &GraphicImage) -> (r: bool)
    ensures
        r == (image_view(*a) == image_view(*b)),
{
    if a.id != b.id || a.generation != b.generation || a.width != b.width || a.height != b.height
        || a.rgba.len() != b.rgba.len() {
        return false;
    }
    let mut i: usize = 0;
    while i < a.rgba.len()
        invariant
            a.rgba@.len() == b.rgba@.len(),
            i <= a.rgba@.len(),
            forall|t: int| 0 <= t < i ==> a.rgba@[t] == b.rgba@[t],
        decreases a.rgba@.len() - i,
    {
        if a.rgba[i] != b.rgba[i] {
            return false;
        }
        i = i + 1;
    }
    assert(a.rgba@ =~= b.rgba@);
    true
}

/// Whether the frame shows an image with this identifier and generation.
fn is_used(used: &Vec<GraphicImage>, id: u32, generation: u64) -> (r: bool)
    ensures
        r == used_key(used@, id, generation),
{
    let mut j: usize = 0;
    while j < used.len()
        invariant
            j <= used@.len(),
            forall|t: int| 0 <= t < j ==> !(used@[t].id == id && used@[t].generation == generation),
        decreases used@.len() - j,
    {
        if used[j].id == id && used[j].generation == generation {
            return true;
        }
        j = j + 1;
    }
    false
}

/// The first entry with this identifier and generation, if any.
fn find_entry(s: &Vec<(u32, u64, Texture)>, id: u32, generation: u64) -> (r: Option<usize>)
    ensures
        match r {
            Some(k) => k == entry_of(s@, id, generation) && k < s@.len(),
            None => entry_of(s@, id, generation) == -1,
        },
{
    let mut i: usize = 0;
    while i < s.len()
        invariant
            i <= s@.len(),
            forall|j: int| 0 <= j < i ==> !(s@[j].0 == id && s@[j].1 == generation),
        decreases s@.len() - i,
    {
        if s[i].0 == id && s[i].1 == generation {
            assert(is_first_entry(s@, id, generation, i as int));
            proof {
                let c = choose|k: int| is_first_entry(s@, id, generation, k);
                if c < i {
                    assert(!(s@[c].0 == id && s@[c].1 == generation));
                }
                if c > i {
                    assert(!(s@[i as int].0 == id && s@[i as int].1 == generation));
                }
            }
            return Some(i);
        }
        i = i + 1;
    }
    None
}

/// What a frame does to the cache of textures, as `texture_plan` says: the textures that
/// retire, and the frame's images whose textures are built.
pub fn plan_textures(cached: &Vec<GraphicImage>, used: &Vec<GraphicImage>) -> (r: (Vec<Texture>, Vec<usize>))
    ensures
        (r.0@, r.1@) == texture_plan(cached@, used@),
{
    let mut entries: Vec<(u32, u64, Texture)> = Vec::new();
    let mut retired: Vec<Texture> = Vec::new();
    let mut i: usize = 0;
    while i < cached.len()
        invariant
            i <= cached@.len(),
            (entries@, retired@) == retain_upto(cached@, used@, i as int),
        decreases cached@.len() - i,
    {
        let c = &cached[i];
        if is_used(used, c.id, c.generation) {
            entries.push((c.id, c.generation, Texture::Cached(i)));
        } else {
            retired.push(Texture::Cached(i));
        }
        i = i + 1;
    }
    let ghost kept = entries@;
    let ghost first = retired@;
    proof {
        lemma_retain_entries_cached(cached@, used@, cached@.len() as int);
    }
    let mut replaced: Vec<Texture> = Vec::new();
    let mut built: Vec<usize> = Vec::new();
    let mut j: usize = 0;
    while j < used.len()
        invariant
            j <= used@.len(),
            (kept, first) == retain_upto(cached@, used@, cached@.len() as int),
            (entries@, replaced@, built@) == build_upto(kept, cached@, used@, j as int),
            forall|t: int| 0 <= t < entries@.len() ==> match (#[trigger] entries@[t]).2 {
                Texture::Cached(c) => c < cached@.len(),
                Texture::Built(b) => b < j,
            },
        decreases used@.len() - j,
    {
        let u = &used[j];
        match find_entry(&entries, u.id, u.generation) {
            Some(k) => {
                let t = entries[k].2;
                let same = match t {
                    Texture::Cached(c) => same_image(&cached[c], u),
                    Texture::Built(b) => same_image(&used[b], u),
                };
                if !same {
                    entries.set(k, (u.id, u.generation, Texture::Built(j)));
                    replaced.push(t);
                    built.push(j);
                }
            },
            None => {
                entries.push((u.id, u.generation, Texture::Built(j)));
                built.push(j);
            },
        }
        j = j + 1;
    }
    let mut all = retired;
    all.append(&mut replaced);
    (all, built)
}

/// The entries kept from the cache are all cached textures of it.
proof fn lemma_retain_entries_cached(cached: Seq<GraphicImage>, used: Seq<GraphicImage>, n: int)
    requires
        n <= cached.len(),
    ensures
        forall|t: int| 0 <= t < retain_upto(cached, used, n).0.len() ==> match (#[trigger] retain_upto(cached, used, n).0[t]).2 {
            Texture::Cached(c) => c < cached.len(),
            Texture::Built(b) => false,
        },
    decreases n,
{
    if n > 0 {
        lemma_retain_entries_cached(cached, used, n - 1);
    }
}

/// Every cached texture of an image that the frame no longer shows retires.
pub proof fn lemma_unused_textures_retire(cached: Seq<GraphicImage>, used: Seq<GraphicImage>, i: int)
    requires
        0 <= i < cached.len(),
        !used_key(used, cached[i].id, cached[i].generation),
    ensures
        texture_plan(cached, used).0.contains(Texture::Cached(i as usize)),
{
    lemma_unused_retire(cached, used, cached.len() as int, i);
    let (kept, retired) = retain_upto(cached, used, cached.len() as int);
    let (_, replaced, _) = build_upto(kept, cached, used, used.len() as int);
    let k = choose|k: int| 0 <= k < retired.len() && retired[k] == Texture::Cached(i as usize);
    assert((retired + replaced)[k] == Texture::Cached(i as usize));
}

/// An unused cached image's texture is among those the retain drops.
proof fn lemma_unused_retire(cached: Seq<GraphicImage>, used: Seq<GraphicImage>, n: int, i: int)
    requires
        0 <= i < n <= cached.len(),
        !used_key(used, cached[i].id, cached[i].generation),
    ensures
        retain_upto(cached, used, n).1.contains(Texture::Cached(i as usize)),
    decreases n,
{
    let (kept, retired) = retain_upto(cached, used, n - 1);
    if i == n - 1 {
        assert(retain_upto(cached, used, n).1 == retired.push(Texture::Cached(i as usize)));
        assert(retired.push(Texture::Cached(i as usize))[retired.len() as int] == Texture::Cached(i as usize));
    } else {
        lemma_unused_retire(cached, used, n - 1, i);
        let k = choose|k: int| 0 <= k < retired.len() && retired[k] == Texture::Cached(i as usize);
        let c = cached[n - 1];
        if used_key(used, c.id, c.generation) {
            assert(retain_upto(cached, used, n).1 == retired);
        } else {
            assert(retain_upto(cached, used, n).1[k] == Texture::Cached(i as usize));
        }
    }
}

/// A placement of an image on the terminal: the identifier of the image it shows and its
/// depth.
#[derive(Clone, Copy, Debug, PartialEq, Eq)]
pub struct Placement {
    pub image: u32,
    pub z: i32,
}

/// The first of the first `n` images with identifier `id`, or -1.
pub open spec fn first_image(images: Seq<GraphicImage>, id: u32, n: int) -> int
    decreases n,
{
    if n <= 0 {
        -1
    } else if first_image(images, id, n - 1) >= 0 {
        first_image(images, id, n - 1)
    } else if images[n - 1].id == id {
        n - 1
    } else {
        -1
    }
}

/// The first `n` placements whose image the frame has, in order, each with the index of its
/// image: the first image with its identifier.
pub open spec fn shown_upto(images: Seq<GraphicImage>, placements: Seq<Placement>, n: int) -> Seq<(usize, usize)>
    decreases n,
{
    if n <= 0 {
        Seq::empty()
    } else {
        let before = shown_upto(images, placements, n - 1);
        let k = first_image(images, placements[n - 1].image, images.len() as int);
        if k >= 0 {
            before.push(((n - 1) as usize, k as usize))
        } else {
            before
        }
    }
}

/// Whether a shown placement is drawn before another: by depth, and at equal depth in the
/// order of the placements.
pub open spec fn drawn_before(placements: Seq<Placement>, a: (usize, usize), b: (usize, usize)) -> bool {
    placements[a.0 as int].z < placements[b.0 as int].z || (placements[a.0 as int].z
        == placements[b.0 as int].z && a.0 < b.0)
}

/// The index of the first image with this identifier, if any.
fn find_image(images: &Vec<GraphicImage>, id: u32) -> (r: Option<usize>)
    ensures
        match r {
            Some(k) => k == first_image(images@, id, images@.len() as int),
            None => first_image(images@, id, images@.len() as int) == -1,
        },
{
    let mut j: usize = 0;
    while j < images.len()
        invariant
            j <= images@.len(),
            first_image(images@, id, j as int) == -1,
        decreases images@.len() - j,
    {
        if images[j].id == id {
            proof {
                lemma_first_image_stays(images@, id, j as int + 1, images@.len() as int);
            }
            return Some(j);
        }
        j = j + 1;
    }
    None
}

/// Once found among the first `m` images, the first image with an identifier stays found.
proof fn lemma_first_image_stays(images: Seq<GraphicImage>, id: u32, m: int, n: int)
    requires
        0 < m <= n <= images.len(),
        first_image(images, id, m) >= 0,
    ensures
        first_image(images, id, n) == first_image(images, id, m),
    decreases n - m,
{
    if n > m {
        lemma_first_image_stays(images, id, m, n - 1);
    }
}

/// The placements to draw, each with its image, in the order they are drawn: those whose image
/// the frame has, by depth, and at equal depth in their own order.
pub fn placement_order(images: &Vec<GraphicImage>, placements: &Vec<Placement>) -> (r: Vec<(usize, usize)>)
    ensures
        r@.len() == shown_upto(images@, placements@, placements@.len() as int).len(),
        forall|k: int| 0 <= k < r@.len() ==> shown_upto(images@, placements@, placements@.len() as int).contains(#[trigger] r@[k]),
        forall|k: int|
            0 <= k < shown_upto(images@, placements@, placements@.len() as int).len() ==> r@.contains(
                #[trigger] shown_upto(images@, placements@, placements@.len() as int)[k],
            ),
        forall|a: int, b: int| 0 <= a < b < r@.len() ==> drawn_before(placements@, #[trigger] r@[a], #[trigger] r@[b]),
{
    let mut out: Vec<(usize, usize)> = Vec::new();
    let mut i: usize = 0;
    while i < placements.len()
        invariant
            i <= placements@.len(),
            out@.len() == shown_upto(images@, placements@, i as int).len(),
            forall|k: int| 0 <= k < out@.len() ==> shown_upto(images@, placements@, i as int).contains(#[trigger] out@[k]),
            forall|k: int|
                0 <= k < shown_upto(images@, placements@, i as int).len() ==> out@.contains(
                    #[trigger] shown_upto(images@, placements@, i as int)[k],
                ),
            forall|k: int| 0 <= k < out@.len() ==> (#[trigger] out@[k]).0 < i,
            forall|a: int, b: int| 0 <= a < b < out@.len() ==> drawn_before(placements@, #[trigger] out@[a], #[trigger] out@[b]),
        decreases placements@.len() - i,
    {
        let ghost before = out@;
        let ghost old_shown = shown_upto(images@, placements@, i as int);
        match find_image(images, placements[i].image) {
            None => {},
            Some(img) => {
                let z = placements[i].z;
                let mut k: usize = 0;
                while k < out.len() && placements[out[k].0].z <= z
                    invariant
                        k <= out@.len(),
                        out@ == before,
                        forall|k: int| 0 <= k < out@.len() ==> (#[trigger] out@[k]).0 < i,
                        i < placements@.len(),
                        z == placements@[i as int].z,
                        forall|t: int| 0 <= t < k ==> placements@[(#[trigger] out@[t]).0 as int].z <= z,
                    decreases out@.len() - k,
                {
                    k = k + 1;
                }
                let e = (i, img);
                out.insert(k, e);
                proof {
                    let new = shown_upto(images@, placements@, i + 1);
                    assert(new == old_shown.push(e));
                    assert forall|a: int, b: int| 0 <= a < b < out@.len() implies drawn_before(
                        placements@,
                        #[trigger] out@[a],
                        #[trigger] out@[b],
                    ) by {
                        if b < k {
                            assert(out@[a] == before[a] && out@[b] == before[b]);
                        } else if b == k {
                            assert(out@[a] == before[a]);
                        } else if a == k {
                            assert(out@[b] == before[b - 1]);
                            assert(placements@[before[k as int].0 as int].z > z);
                            if b - 1 > k {
                                assert(drawn_before(placements@, before[k as int], before[b - 1]));
                            }
                        } else if a < k {
                            assert(out@[a] == before[a] && out@[b] == before[b - 1]);
                        } else {
                            assert(out@[a] == before[a - 1] && out@[b] == before[b - 1]);
                        }
                    }
                    assert forall|t: int| 0 <= t < out@.len() implies new.contains(#[trigger] out@[t]) by {
                        if t < k {
                            assert(out@[t] == before[t]);
                            let w = choose|w: int| 0 <= w < old_shown.len() && old_shown[w] == before[t];
                            assert(new[w] == before[t]);
                        } else if t == k {
                            assert(new[old_shown.len() as int] == e);
                        } else {
                            assert(out@[t] == before[t - 1]);
                            let w = choose|w: int| 0 <= w < old_shown.len() && old_shown[w] == before[t - 1];
                            assert(new[w] == before[t - 1]);
                        }
                    }
                    assert forall|t: int| 0 <= t < new.len() implies out@.contains(#[trigger] new[t]) by {
                        if t < old_shown.len() {
                            assert(new[t] == old_shown[t]);
                            let w = choose|w: int| 0 <= w < before.len() && before[w] == old_shown[t];
                            if w < k {
                                assert(out@[w] == before[w]);
                            } else {
                                assert(out@[w + 1] == before[w]);
                            }
                        } else {
                            assert(out@[k as int] == e);
                        }
                    }
                }
            },
        }
        i = i + 1;
    }
    out
}

} // verus!
