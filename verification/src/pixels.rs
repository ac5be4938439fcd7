//! Pixel-buffer transforms of the pipeline: packing an RGBA image into the
//! channel-first plane layout the model reads, building a grayscale RGBA mask
//! from the model's quantized output, and compositing a mask over the source
//! pixels as an alpha channel.
//!
//! An image of width `w` and height `h` is a byte sequence of length
//! `4 * w * h`: pixel `(x, y)` occupies the four bytes starting at
//! `4 * (y * w + x)`, in R, G, B, A order.

use vstd::prelude::*;

verus! {

/// One color plane of an RGBA buffer: the bytes of channel `c`, pixel by
/// pixel in row-major order.
pub open spec fn plane_of(rgba: Seq<u8>, c: nat) -> Seq<u8> {
    Seq::new(rgba.len() / 4, |p: int| rgba[4 * p + c])
}

/// The channel-first packing of an RGBA buffer: the whole R plane, then the
/// whole G plane, then the whole B plane.  The alpha channel is dropped.
pub open spec fn planar_of(rgba: Seq<u8>) -> Seq<u8> {
    plane_of(rgba, 0) + plane_of(rgba, 1) + plane_of(rgba, 2)
}

/// The grayscale RGBA mask built from per-pixel intensities: each intensity
/// is replicated into R, G and B, and alpha is fully opaque.
pub open spec fn mask_of(intensities: Seq<u8>) -> Seq<u8> {
    Seq::new(4 * intensities.len(), |i: int| if i % 4 == 3 {
            255u8
        } else {
            intensities[i / 4]
        })
}

/// The composite of a source image and a mask of the same dimensions: R, G
/// and B come from the source, and each pixel's alpha is the mask's red
/// channel at that pixel.
pub open spec fn composite_of(src: Seq<u8>, mask: Seq<u8>) -> Seq<u8> {
    Seq::new(src.len(), |i: int| if i % 4 == 3 {
            mask[4 * (i / 4)]
        } else {
            src[i]
        })
}

/// Packs an RGBA buffer into the model's channel-first layout: all red
/// bytes, then all green bytes, then all blue bytes.
pub fn pack_channels(rgba: &Vec<u8>) -> (r: Vec<u8>)
    ensures
        r@ == planar_of(rgba@),
        r@.len() == 3 * (rgba@.len() / 4),
{
    let npix: usize = rgba.len() / 4;
    let mut out: Vec<u8> = Vec::new();
    let mut c: usize = 0;
    while c < 3
        invariant
            c <= 3,
            npix == rgba@.len() / 4,
            rgba@.len() <= usize::MAX,
            out@ == full_planes(rgba@, c as nat),
        decreases 3 - c,
    {
        let mut p: usize = 0;
        while p < npix
            invariant
                p <= npix,
                c < 3,
                npix == rgba@.len() / 4,
                4 * npix <= rgba@.len(),
                rgba@.len() <= usize::MAX,
                out@ == full_planes(rgba@, c as nat) + plane_of(rgba@, c as nat).take(p as int),
            decreases npix - p,
        {
            out.push(rgba[4 * p + c]);
            proof {
                assert(plane_of(rgba@, c as nat).take(p + 1) =~= plane_of(
                    rgba@,
                    c as nat,
                ).take(p as int).push(rgba@[4 * p + c]));
            }
            p = p + 1;
        }
        proof {
            assert(plane_of(rgba@, c as nat).take(npix as int) =~= plane_of(rgba@, c as nat));
            assert(out@ =~= full_planes(rgba@, (c + 1) as nat));
        }
        c = c + 1;
    }
    proof {
        assert(full_planes(rgba@, 0) =~= Seq::<u8>::empty());
        assert(full_planes(rgba@, 1) =~= plane_of(rgba@, 0));
        assert(full_planes(rgba@, 2) =~= plane_of(rgba@, 0) + plane_of(rgba@, 1));
        assert(full_planes(rgba@, 3) =~= planar_of(rgba@));
    }
    out
}

/// The first `c` color planes of `rgba`, concatenated.
spec fn full_planes(rgba: Seq<u8>, c: nat) -> Seq<u8>
    decreases c,
{
    if c == 0 {
        Seq::empty()
    } else {
        full_planes(rgba, (c - 1) as nat) + plane_of(rgba, (c - 1) as nat)
    }
}

/// Where a pixel's channel lands in the packed layout: for a square image of
/// side `n`, channel `c` of pixel `(x, y)` stands at `c * n * n + y * n + x`.
pub proof fn lemma_planar_index(rgba: Seq<u8>, n: nat, x: nat, y: nat, c: nat)
    requires
        rgba.len() == 4 * n * n,
        x < n,
        y < n,
        c < 3,
    ensures
        planar_of(rgba)[(c * n * n + y * n + x) as int] == rgba[(4 * (y * n + x) + c) as int],
{
    assert(y * n + x < n * n) by (nonlinear_arith)
        requires
            x < n,
            y < n,
    ;
    assert(rgba.len() / 4 == n * n) by (nonlinear_arith)
        requires
            rgba.len() == 4 * n * n,
    ;
    let nn = n * n;
    let p = y * n + x;
    assert(c * n * n == c * nn) by (nonlinear_arith)
        requires
            nn == n * n,
    ;
    let i = (c * nn + p) as int;
    assert(plane_of(rgba, 0).len() == nn && plane_of(rgba, 1).len() == nn && plane_of(
        rgba,
        2,
    ).len() == nn);
    if c == 0 {
        assert(planar_of(rgba)[i] == plane_of(rgba, 0)[p as int]);
    } else if c == 1 {
        assert(i == nn + p);
        assert(planar_of(rgba)[i] == plane_of(rgba, 1)[p as int]);
    } else {
        assert(i == 2 * nn + p);
        assert(planar_of(rgba)[i] == plane_of(rgba, 2)[p as int]);
    }
    assert(plane_of(rgba, c)[p as int] == rgba[(4 * p + c) as int]);
}

/// Builds the grayscale RGBA mask image from the quantized model output:
/// each intensity becomes one `(v, v, v, 255)` pixel, in order.
pub fn build_mask_rgba(intensities: &Vec<u8>) -> (r: Vec<u8>)
    ensures
        r@ == mask_of(intensities@),
        r@.len() == 4 * intensities@.len(),
{
    let mut out: Vec<u8> = Vec::new();
    let mut p: usize = 0;
    while p < intensities.len()
        invariant
            p <= intensities@.len(),
            out@ == mask_of(intensities@).take(4 * p),
        decreases intensities@.len() - p,
    {
        let v = intensities[p];
        out.push(v);
        out.push(v);
        out.push(v);
        out.push(255u8);
        proof {
            assert(mask_of(intensities@).take(4 * (p + 1)) =~= mask_of(intensities@).take(
                4 * p,
            ).push(v).push(v).push(v).push(255u8));
        }
        p = p + 1;
    }
    proof {
        assert(mask_of(intensities@).take(4 * intensities@.len() as int) =~= mask_of(intensities@));
    }
    out
}

/// Composites a mask over a source image: the result keeps the source's R,
/// G and B bytes and takes each pixel's alpha from the mask's red channel.
pub fn composite_rgba(src: &Vec<u8>, mask: &Vec<u8>) -> (r: Vec<u8>)
    requires
        src@.len() <= mask@.len(),
    ensures
        r@ == composite_of(src@, mask@),
        r@.len() == src@.len(),
{
    let mut out: Vec<u8> = Vec::new();
    let mut i: usize = 0;
    while i < src.len()
        invariant
            i <= src@.len(),
            src@.len() <= mask@.len(),
            out@ == composite_of(src@, mask@).take(i as int),
        decreases src@.len() - i,
    {
        let b: u8 = if i % 4 == 3 {
            mask[4 * (i / 4)]
        } else {
            src[i]
        };
        out.push(b);
        proof {
            assert(composite_of(src@, mask@).take(i + 1) =~= composite_of(src@, mask@).take(
                i as int,
            ).push(b));
        }
        i = i + 1;
    }
    proof {
        assert(composite_of(src@, mask@).take(src@.len() as int) =~= composite_of(src@, mask@));
    }
    out
}

/// The composite has exactly the source's size, whatever the mask holds: the
/// final image keeps the original dimensions regardless of the model
/// resolution the mask passed through.
pub proof fn lemma_composite_dimensions(src: Seq<u8>, mask: Seq<u8>)
    ensures
        composite_of(src, mask).len() == src.len(),
{
}

/// Alpha-copy law: at every pixel the composite's alpha equals the mask's
/// red channel, and its R, G and B equal the source's.
pub proof fn lemma_alpha_copy(src: Seq<u8>, mask: Seq<u8>, p: nat)
    requires
        4 * p + 3 < src.len(),
        src.len() <= mask.len(),
    ensures
        composite_of(src, mask)[(4 * p + 3) as int] == mask[(4 * p) as int],
        composite_of(src, mask)[(4 * p) as int] == src[(4 * p) as int],
        composite_of(src, mask)[(4 * p + 1) as int] == src[(4 * p + 1) as int],
        composite_of(src, mask)[(4 * p + 2) as int] == src[(4 * p + 2) as int],
{
}

/// Saturation law: a mask built from all-255 intensities hands every pixel
/// of the composite an alpha of 255.
pub proof fn lemma_white_mask_saturates(src: Seq<u8>, intensities: Seq<u8>, p: nat)
    requires
        4 * p + 3 < src.len(),
        src.len() <= 4 * intensities.len(),
        forall|j: int| 0 <= j < intensities.len() ==> intensities[j] == 255u8,
    ensures
        composite_of(src, mask_of(intensities))[(4 * p + 3) as int] == 255u8,
{
    lemma_alpha_copy(src, mask_of(intensities), p);
}

} // verus!
