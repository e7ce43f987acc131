//! The pixel layout of an exported PNG: the smallest 8-bit colour type that
//! keeps every RGBA pixel, and the pixels repacked into it.
use vstd::prelude::*;

verus! {

/// The 8-bit PNG colour types an export writes.
#[derive(Clone, Copy, Debug, PartialEq, Eq, Structural)]
pub enum PngColor {
    /// One grey channel.
    L8,
    /// Grey and alpha.
    La8,
    /// Red, green and blue.
    Rgb8,
    /// Red, green, blue and alpha.
    Rgba8,
}

/// Channel `k` of pixel `i` of RGBA bytes.
pub open spec fn channel(p: Seq<u8>, i: int, k: int) -> u8 {
    p[4 * i + k]
}

/// The number of whole RGBA pixels in the bytes.
pub open spec fn pixel_count(p: Seq<u8>) -> int {
    p.len() as int / 4
}

/// Pixel `i` is grey: its red, green and blue are equal.
pub open spec fn gray_at(p: Seq<u8>, i: int) -> bool {
    channel(p, i, 0) == channel(p, i, 1) && channel(p, i, 1) == channel(p, i, 2)
}

/// Every pixel is grey.
pub open spec fn all_gray(p: Seq<u8>) -> bool {
    forall|i: int| 0 <= i < pixel_count(p) ==> #[trigger] gray_at(p, i)
}

/// Every pixel is fully opaque.
pub open spec fn all_opaque(p: Seq<u8>) -> bool {
    forall|i: int| 0 <= i < pixel_count(p) ==> #[trigger] channel(p, i, 3) == 255
}

/// The colour type for the pixels: grey when every pixel is grey, without alpha
/// when every pixel is opaque.
pub open spec fn spec_png_color(p: Seq<u8>) -> PngColor {
    if all_gray(p) {
        if all_opaque(p) {
            PngColor::L8
        } else {
            PngColor::La8
        }
    } else if all_opaque(p) {
        PngColor::Rgb8
    } else {
        PngColor::Rgba8
    }
}

/// `q` holds the pixels of `p` in colour type `c`: grey takes the red channel,
/// alpha the fourth, RGB the first three, each pixel after the one before; RGBA
/// keeps the bytes as they are.
pub open spec fn packed_as(p: Seq<u8>, c: PngColor, q: Seq<u8>) -> bool {
    let n = pixel_count(p);
    match c {
        PngColor::L8 => q.len() == n && forall|i: int|
            0 <= i < n ==> q[i] == #[trigger] channel(p, i, 0),
        PngColor::La8 => q.len() == 2 * n && forall|i: int|
            0 <= i < n ==> q[2 * i] == #[trigger] channel(p, i, 0) && q[2 * i + 1] == channel(
                p,
                i,
                3,
            ),
        PngColor::Rgb8 => q.len() == 3 * n && forall|i: int, k: int|
            0 <= i < n && 0 <= k < 3 ==> q[3 * i + k] == #[trigger] channel(p, i, k),
        PngColor::Rgba8 => q == p,
    }
}

/// Channel `k` of pixel `i` as a reader of colour type `c` restores it from `q`:
/// grey fills red, green and blue, and a type without alpha reads as opaque.
pub open spec fn unpacked(q: Seq<u8>, c: PngColor, i: int, k: int) -> u8 {
    match c {
        PngColor::L8 => if k == 3 {
            255u8
        } else {
            q[i]
        },
        PngColor::La8 => if k == 3 {
            q[2 * i + 1]
        } else {
            q[2 * i]
        },
        PngColor::Rgb8 => if k == 3 {
            255u8
        } else {
            q[3 * i + k]
        },
        PngColor::Rgba8 => q[4 * i + k],
    }
}

/// Picks the colour type for RGBA bytes.
pub fn png_color(pixels: &Vec<u8>) -> (c: PngColor)
    ensures
        c == spec_png_color(pixels@),
{
    let ghost p = pixels@;
    let len = pixels.len();
    let n = len / 4;
    let mut opaque = true;
    let mut gray = true;
    let mut i: usize = 0;
    while i < n
        invariant
            p == pixels@,
            n == pixel_count(p),
            len == p.len(),
            i <= n,
            opaque == (forall|j: int| 0 <= j < i ==> #[trigger] channel(p, j, 3) == 255),
            gray == (forall|j: int| 0 <= j < i ==> #[trigger] gray_at(p, j)),
        decreases n - i,
    {
        proof {
            assert(4 * (i as int) + 4 <= p.len());
        }
        let b = 4 * i;
        let here_opaque = pixels[b + 3] == 255;
        let here_gray = pixels[b] == pixels[b + 1] && pixels[b + 1] == pixels[b + 2];
        proof {
            assert(here_opaque == (channel(p, i as int, 3) == 255));
            assert(here_gray == gray_at(p, i as int));
            if opaque && here_opaque {
                assert forall|j: int| 0 <= j < i + 1 implies #[trigger] channel(p, j, 3) == 255 by {
                    if j < i {
                    }
                }
            }
            if !here_opaque {
                assert(!(channel(p, i as int, 3) == 255));
            }
            if gray && here_gray {
                assert forall|j: int| 0 <= j < i + 1 implies #[trigger] gray_at(p, j) by {
                    if j < i {
                    }
                }
            }
            if !here_gray {
                assert(!gray_at(p, i as int));
            }
        }
        opaque = opaque && here_opaque;
        gray = gray && here_gray;
        i = i + 1;
    }
    if gray {
        if opaque {
            PngColor::L8
        } else {
            PngColor::La8
        }
    } else if opaque {
        PngColor::Rgb8
    } else {
        PngColor::Rgba8
    }
}

/// Repacks RGBA bytes into colour type `color`; bytes after the last whole pixel
/// are dropped unless the type is RGBA.
pub fn pack_pixels(pixels: &Vec<u8>, color: PngColor) -> (packed: Vec<u8>)
    ensures
        packed_as(pixels@, color, packed@),
{
    let ghost p = pixels@;
    if color == PngColor::Rgba8 {
        return pixels.clone();
    }
    let len = pixels.len();
    let n = len / 4;
    let mut out: Vec<u8> = Vec::new();
    let mut i: usize = 0;
    while i < n
        invariant
            p == pixels@,
            n == pixel_count(p),
            len == p.len(),
            color != PngColor::Rgba8,
            i <= n,
            packed_as(p.take(4 * i), color, out@),
        decreases n - i,
    {
        proof {
            assert(4 * (i as int) + 4 <= p.len());
        }
        let b = 4 * i;
        let ghost before = out@;
        let ghost q = p.take(4 * i + 4);
        proof {
            assert(pixel_count(q) == i + 1);
            assert(pixel_count(p.take(4 * i)) == i);
            assert forall|j: int, k: int| 0 <= j <= i && 0 <= k < 4 implies #[trigger] channel(q, j, k)
                == channel(p, j, k) by {
            }
            assert forall|j: int, k: int| 0 <= j < i && 0 <= k < 4 implies #[trigger] channel(
                p.take(4 * i),
                j,
                k,
            ) == channel(p, j, k) by {
            }
        }
        match color {
            PngColor::L8 => {
                out.push(pixels[b]);
            },
            PngColor::La8 => {
                out.push(pixels[b]);
                out.push(pixels[b + 3]);
            },
            _ => {
                out.push(pixels[b]);
                out.push(pixels[b + 1]);
                out.push(pixels[b + 2]);
            },
        }
        proof {
            let t = p.take(4 * i);
            match color {
                PngColor::L8 => {
                    assert forall|j: int| 0 <= j < i + 1 implies out@[j] == #[trigger] channel(q, j, 0) by {
                        if j < i {
                            assert(before[j] == channel(t, j, 0));
                        }
                    }
                },
                PngColor::La8 => {
                    assert forall|j: int| 0 <= j < i + 1 implies out@[2 * j] == #[trigger] channel(q, j, 0)
                        && out@[2 * j + 1] == channel(q, j, 3) by {
                        if j < i {
                            assert(before[2 * j] == channel(t, j, 0));
                        }
                    }
                },
                _ => {
                    assert forall|j: int, k: int| 0 <= j < i + 1 && 0 <= k < 3 implies out@[3 * j + k]
                        == #[trigger] channel(q, j, k) by {
                        if j < i {
                            assert(before[3 * j + k] == channel(t, j, k));
                        }
                    }
                },
            }
        }
        i = i + 1;
    }
    proof {
        assert forall|j: int, k: int| 0 <= j < n && 0 <= k < 4 implies #[trigger] channel(p.take(4 * n), j, k)
            == channel(p, j, k) by {
        }
        assert(pixel_count(p.take(4 * n)) == n);
        match color {
            PngColor::L8 => {
                assert forall|j: int| 0 <= j < n implies out@[j] == #[trigger] channel(p, j, 0) by {
                    assert(channel(p.take(4 * n), j, 0) == channel(p, j, 0));
                }
            },
            PngColor::La8 => {
                assert forall|j: int| 0 <= j < n implies out@[2 * j] == #[trigger] channel(p, j, 0)
                    && out@[2 * j + 1] == channel(p, j, 3) by {
                    assert(channel(p.take(4 * n), j, 0) == channel(p, j, 0));
                    assert(channel(p.take(4 * n), j, 3) == channel(p, j, 3));
                }
            },
            _ => {
                assert forall|j: int, k: int| 0 <= j < n && 0 <= k < 3 implies out@[3 * j + k]
                    == #[trigger] channel(p, j, k) by {
                    assert(channel(p.take(4 * n), j, k) == channel(p, j, k));
                }
            },
        }
    }
    out
}

/// The chosen colour type loses nothing: every channel of every pixel reads
/// back from the repacked bytes as it was.
pub proof fn lemma_png_packing_is_lossless(p: Seq<u8>, q: Seq<u8>)
    requires
        packed_as(p, spec_png_color(p), q),
    ensures
        forall|i: int, k: int|
            0 <= i < pixel_count(p) && 0 <= k < 4 ==> #[trigger] unpacked(q, spec_png_color(p), i, k)
                == channel(p, i, k),
{
    let c = spec_png_color(p);
    assert forall|i: int, k: int| 0 <= i < pixel_count(p) && 0 <= k < 4 implies #[trigger] unpacked(
        q,
        c,
        i,
        k,
    ) == channel(p, i, k) by {
        match c {
            PngColor::L8 => {
                assert(gray_at(p, i));
                assert(channel(p, i, 3) == 255);
                assert(q[i] == channel(p, i, 0));
            },
            PngColor::La8 => {
                assert(gray_at(p, i));
                assert(q[2 * i] == channel(p, i, 0));
            },
            PngColor::Rgb8 => {
                assert(channel(p, i, 3) == 255);
                if k < 3 {
                    assert(q[3 * i + k] == channel(p, i, k));
                }
            },
            PngColor::Rgba8 => {
            },
        }
    }
}

} // verus!
