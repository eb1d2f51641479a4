use vstd::prelude::*;

use crate::flags::{COLOR_SPACE_SRGB_NONLINEAR, FORMAT_B8G8R8A8_SRGB, PHYSICAL_DEVICE_TYPE_DISCRETE_GPU, QUEUE_GRAPHICS};
use crate::text::bytes_occur_at;

verus! {

/// Bonus a discrete GPU gets over an integrated one.
pub const DISCRETE_GPU_BONUS: u32 = 10000u32;

pub open spec fn spec_device_score(device_type: u32, max_image_dimension_2d: u32) -> int {
    (if device_type == PHYSICAL_DEVICE_TYPE_DISCRETE_GPU { DISCRETE_GPU_BONUS as int } else { 0 })
        + max_image_dimension_2d
}

/// How much a physical device is preferred: being a discrete GPU counts for
/// [`DISCRETE_GPU_BONUS`], plus the largest 2D image it supports.
pub fn device_score(device_type: u32, max_image_dimension_2d: u32) -> (score: u32)
    requires
        spec_device_score(device_type, max_image_dimension_2d) <= u32::MAX,
    ensures
        score == spec_device_score(device_type, max_image_dimension_2d),
        device_type == PHYSICAL_DEVICE_TYPE_DISCRETE_GPU ==> score == DISCRETE_GPU_BONUS + max_image_dimension_2d,
        device_type != PHYSICAL_DEVICE_TYPE_DISCRETE_GPU ==> score == max_image_dimension_2d,
{
    let is_discrete: u32 = if device_type == PHYSICAL_DEVICE_TYPE_DISCRETE_GPU { 1 } else { 0 };
    is_discrete * DISCRETE_GPU_BONUS + max_image_dimension_2d
}

/// Only a discrete GPU gets the bonus: any other kind of device (integrated,
/// virtual, CPU) scores just its largest 2D image, and a discrete GPU scores
/// [`DISCRETE_GPU_BONUS`] more than a device of another kind with the same
/// largest image, so it outranks every such device whose largest image is
/// less than [`DISCRETE_GPU_BONUS`] larger.
pub proof fn law_only_discrete_gpus_get_the_bonus(device_type: u32, other_type: u32, d: u32, e: u32)
    ensures
        device_type != PHYSICAL_DEVICE_TYPE_DISCRETE_GPU ==> spec_device_score(device_type, d) == d,
        device_type == PHYSICAL_DEVICE_TYPE_DISCRETE_GPU ==> spec_device_score(device_type, d) == DISCRETE_GPU_BONUS + d,
        device_type != PHYSICAL_DEVICE_TYPE_DISCRETE_GPU && other_type != PHYSICAL_DEVICE_TYPE_DISCRETE_GPU
            ==> spec_device_score(device_type, d) == spec_device_score(other_type, d),
        other_type != PHYSICAL_DEVICE_TYPE_DISCRETE_GPU && e < d + DISCRETE_GPU_BONUS
            ==> spec_device_score(other_type, e) < spec_device_score(PHYSICAL_DEVICE_TYPE_DISCRETE_GPU, d),
{
}

/// `i` holds the greatest key, and no later position holds as great a one.
pub open spec fn is_last_max(keys: Seq<u32>, i: int) -> bool {
    &&& 0 <= i < keys.len()
    &&& forall|j: int| 0 <= j < keys.len() ==> keys[j] <= keys[i]
    &&& forall|j: int| i < j < keys.len() ==> keys[j] < keys[i]
}

/// The position of the greatest key, the last one among equals; nothing for
/// no keys.
pub fn last_max_index(keys: &Vec<u32>) -> (r: Option<usize>)
    ensures
        match r {
            Some(i) => is_last_max(keys@, i as int),
            None => keys@.len() == 0,
        },
{
    if keys.len() == 0 {
        return None;
    }
    let mut best: usize = 0;
    let mut i: usize = 1;
    while i < keys.len()
        invariant
            1 <= i <= keys@.len(),
            best < i,
            forall|j: int| 0 <= j < i ==> keys@[j] <= keys@[best as int],
            forall|j: int| best < j < i ==> keys@[j] < keys@[best as int],
        decreases keys@.len() - i,
    {
        if keys[i] >= keys[best] {
            best = i;
        }
        i = i + 1;
    }
    Some(best)
}

/// Picks the physical device with the greatest score, the last among equals.
pub fn select_physical_device(scores: &Vec<u32>) -> (r: Option<usize>)
    ensures
        match r {
            Some(i) => is_last_max(scores@, i as int),
            None => scores@.len() == 0,
        },
{
    last_max_index(scores)
}

/// A queue family as far as the choice of the graphics queue goes.
#[derive(Clone, Copy, PartialEq, Eq, Structural, Debug)]
pub struct QueueFamilyCandidate {
    pub queue_flags: u32,
    pub supports_surface: bool,
}

pub open spec fn is_usable_family(f: QueueFamilyCandidate) -> bool {
    f.queue_flags & QUEUE_GRAPHICS != 0 && f.supports_surface
}

/// The first queue family that does graphics and can present to the surface.
pub fn select_queue_family(families: &Vec<QueueFamilyCandidate>) -> (r: Option<usize>)
    ensures
        match r {
            Some(i) => i < families@.len() && is_usable_family(families@[i as int])
                && forall|j: int| 0 <= j < i ==> !is_usable_family(#[trigger] families@[j]),
            None => forall|j: int| 0 <= j < families@.len() ==> !is_usable_family(#[trigger] families@[j]),
        },
{
    let mut i: usize = 0;
    while i < families.len()
        invariant
            i <= families@.len(),
            forall|j: int| 0 <= j < i ==> !is_usable_family(#[trigger] families@[j]),
        decreases families@.len() - i,
    {
        let family = families[i];
        if family.queue_flags & QUEUE_GRAPHICS != 0 && family.supports_surface {
            return Some(i);
        }
        i = i + 1;
    }
    None
}

/// Whether two byte strings are equal.
pub fn bytes_equal(a: &[u8], b: &[u8]) -> (eq: bool)
    ensures
        eq == (a@ == b@),
{
    if a.len() != b.len() {
        return false;
    }
    let r = bytes_occur_at(a, b, 0);
    assert(r ==> a@.subrange(0, a@.len() as int) == b@);
    assert(a@.subrange(0, a@.len() as int) =~= a@);
    r
}

pub open spec fn names_view(names: &Vec<Vec<u8>>) -> Seq<Seq<u8>> {
    Seq::new(names@.len(), |i: int| names@[i]@)
}

/// The positions `k < n` of required names that no available name equals.
pub open spec fn missing_positions(required: Seq<Seq<u8>>, available: Seq<Seq<u8>>, n: int) -> Seq<usize>
    decreases n,
{
    if n <= 0 {
        Seq::empty()
    } else {
        let prev = missing_positions(required, available, n - 1);
        if available.contains(required[n - 1]) {
            prev
        } else {
            prev.push((n - 1) as usize)
        }
    }
}

/// The required device extensions that the device does not offer, by their
/// position among the required ones.
pub fn missing_extensions(required: &Vec<Vec<u8>>, available: &Vec<Vec<u8>>) -> (missing: Vec<usize>)
    ensures
        missing@ == missing_positions(names_view(required), names_view(available), required@.len() as int),
{
    let ghost req = names_view(required);
    let ghost avail = names_view(available);
    let mut missing: Vec<usize> = Vec::new();
    let mut k: usize = 0;
    while k < required.len()
        invariant
            req == names_view(required),
            avail == names_view(available),
            k <= required@.len(),
            missing@ == missing_positions(req, avail, k as int),
        decreases required@.len() - k,
    {
        let mut found = false;
        let mut j: usize = 0;
        while j < available.len()
            invariant
                req == names_view(required),
                avail == names_view(available),
                k < required@.len(),
                j <= available@.len(),
                found == exists|jj: int| 0 <= jj < j && avail[jj] == req[k as int],
            decreases available@.len() - j,
        {
            if bytes_equal(available[j].as_slice(), required[k].as_slice()) {
                found = true;
            }
            proof {
                assert(avail[j as int] == available@[j as int]@);
                assert(req[k as int] == required@[k as int]@);
            }
            j = j + 1;
        }
        proof {
            if found {
                let jj = choose|jj: int| 0 <= jj < available@.len() && avail[jj] == req[k as int];
                assert(avail.contains(req[k as int]));
            } else {
                if avail.contains(req[k as int]) {
                    let jj = choose|jj: int| 0 <= jj < avail.len() && avail[jj] == req[k as int];
                    assert(false);
                }
            }
        }
        if !found {
            missing.push(k);
        }
        k = k + 1;
    }
    missing
}

/// A surface format as far as the choice goes.
#[derive(Clone, Copy, PartialEq, Eq, Structural, Debug)]
pub struct SurfaceFormatCandidate {
    pub format: u32,
    pub color_space: u32,
}

pub open spec fn format_preference(f: SurfaceFormatCandidate) -> u32 {
    if f.format == FORMAT_B8G8R8A8_SRGB && f.color_space == COLOR_SPACE_SRGB_NONLINEAR { 1 } else { 0 }
}

/// Picks the last sRGB BGRA8 format with the sRGB non-linear color space when
/// there is one, and otherwise the last format offered.
pub fn choose_surface_format(formats: &Vec<SurfaceFormatCandidate>) -> (r: Option<usize>)
    ensures
        match r {
            Some(i) => is_last_max(Seq::new(formats@.len(), |k: int| format_preference(formats@[k])), i as int),
            None => formats@.len() == 0,
        },
{
    let mut keys: Vec<u32> = Vec::new();
    let mut k: usize = 0;
    while k < formats.len()
        invariant
            k <= formats@.len(),
            keys@ == Seq::new(k as nat, |kk: int| format_preference(formats@[kk])),
        decreases formats@.len() - k,
    {
        let f = formats[k];
        let key: u32 = if f.format == FORMAT_B8G8R8A8_SRGB && f.color_space == COLOR_SPACE_SRGB_NONLINEAR { 1 } else { 0 };
        keys.push(key);
        k = k + 1;
    }
    last_max_index(&keys)
}

/// Whether `mode` is among the present modes offered.
pub fn supports_present_mode(modes: &Vec<u32>, mode: u32) -> (b: bool)
    ensures
        b == modes@.contains(mode),
{
    let mut i: usize = 0;
    while i < modes.len()
        invariant
            i <= modes@.len(),
            forall|j: int| 0 <= j < i ==> modes@[j] != mode,
        decreases modes@.len() - i,
    {
        if modes[i] == mode {
            assert(modes@[i as int] == mode);
            return true;
        }
        i = i + 1;
    }
    false
}

/// A width and a height.
#[derive(Clone, Copy, PartialEq, Eq, Structural, Debug)]
pub struct Extent2D {
    pub width: u32,
    pub height: u32,
}

pub open spec fn clamp(x: u32, lo: u32, hi: u32) -> u32 {
    if x < lo { lo } else if x > hi { hi } else { x }
}

/// The extent of the swapchain: the surface's current extent when it has one,
/// otherwise the window size clamped to what the surface allows.
pub fn choose_swapchain_extent(current: Extent2D, min: Extent2D, max: Extent2D, window: Extent2D) -> (e: Extent2D)
    requires
        current.width == u32::MAX ==> min.width <= max.width && min.height <= max.height,
    ensures
        current.width != u32::MAX ==> e == current,
        current.width == u32::MAX ==> e.width == clamp(window.width, min.width, max.width)
            && e.height == clamp(window.height, min.height, max.height),
{
    if current.width != u32::MAX {
        current
    } else {
        let width = if window.width < min.width { min.width } else if window.width > max.width { max.width } else { window.width };
        let height = if window.height < min.height { min.height } else if window.height > max.height { max.height } else { window.height };
        Extent2D { width, height }
    }
}

/// One image more than the minimum, unless the surface caps the count lower
/// (a maximum of zero means no cap).
pub fn choose_swapchain_image_count(min_image_count: u32, max_image_count: u32) -> (count: u32)
    requires
        min_image_count < u32::MAX,
    ensures
        count == (if max_image_count != 0 && max_image_count < min_image_count + 1 {
            max_image_count as int
        } else {
            min_image_count + 1
        }),
{
    let max_swap_count = if max_image_count != 0 { max_image_count } else { u32::MAX };
    let wanted = min_image_count + 1;
    if wanted < max_swap_count { wanted } else { max_swap_count }
}

} // verus!
