use vstd::prelude::*;

use crate::error::DisplayError;

verus! {

/// First byte of a 5-6-5 pixel: red's top five bits, then green's top three.
pub open spec fn high_byte(r: u8, g: u8) -> u8 {
    (r & 0xF8u8) | ((g & 0xE0u8) >> 5u8)
}

/// Second byte of a 5-6-5 pixel: green's next three bits, then blue's top five.
pub open spec fn low_byte(g: u8, b: u8) -> u8 {
    ((g & 0x1Cu8) << 3u8) | (b >> 3u8)
}

/// Packs one 8-bit-per-channel pixel into its two 5-6-5 bytes, most
/// significant byte first. Low bits of each channel are dropped.
pub fn convert(r: u8, g: u8, b: u8) -> (out: (u8, u8))
    ensures
        out.0 == high_byte(r, g),
        out.1 == low_byte(g, b),
{
    ((r & 0xF8) | ((g & 0xE0) >> 5), ((g & 0x1C) << 3) | (b >> 3))
}

/// `out` holds, for each of the `count` pixels of `rgb`, its two 5-6-5 bytes.
pub open spec fn is_rgb565_of(out: Seq<u8>, rgb: Seq<u8>, count: int) -> bool {
    &&& rgb.len() == 3 * count
    &&& out.len() == 2 * count
    &&& forall|p: int|
        0 <= p < count ==> {
            &&& #[trigger] out[2 * p] == high_byte(rgb[3 * p], rgb[3 * p + 1])
            &&& out[2 * p + 1] == low_byte(rgb[3 * p + 1], rgb[3 * p + 2])
        }
}

/// The 5-6-5 bytes of the whole pixels of `rgb`, two for each three.
pub open spec fn rgb565_bytes(rgb: Seq<u8>) -> Seq<u8> {
    Seq::new(
        (2 * (rgb.len() / 3)) as nat,
        |i: int|
            if i % 2 == 0 {
                high_byte(rgb[3 * (i / 2)], rgb[3 * (i / 2) + 1])
            } else {
                low_byte(rgb[3 * (i / 2) + 1], rgb[3 * (i / 2) + 2])
            },
    )
}

proof fn lemma_rgb565_bytes(out: Seq<u8>, rgb: Seq<u8>, count: int)
    requires
        is_rgb565_of(out, rgb, count),
    ensures
        out == rgb565_bytes(rgb),
{
    let want = rgb565_bytes(rgb);
    assert(rgb.len() / 3 == count);
    assert forall|i: int| 0 <= i < out.len() implies out[i] == want[i] by {
        let p = i / 2;
        assert(0 <= p < count);
        if i % 2 == 0 {
            assert(i == 2 * p);
            assert(out[2 * p] == high_byte(rgb[3 * p], rgb[3 * p + 1]));
        } else {
            assert(i == 2 * p + 1);
            assert(out[2 * p] == high_byte(rgb[3 * p], rgb[3 * p + 1]));
        }
    }
    assert(out =~= want);
}

/// Converts an interleaved RGB buffer of `pixel_count` pixels into the packed
/// 5-6-5 buffer that the controller reads; any other input length is refused.
pub fn rgb_to_rgb565(rgb: &[u8], pixel_count: usize) -> (r: Result<Vec<u8>, DisplayError>)
    ensures
        rgb@.len() == 3 * pixel_count <==> r is Ok,
        r matches Ok(out) ==> is_rgb565_of(out@, rgb@, pixel_count as int) && out@ == rgb565_bytes(
            rgb@,
        ),
        r matches Err(e) ==> e == DisplayError::SizeMismatch,
{
    let len = rgb.len();
    if len % 3 != 0 || len / 3 != pixel_count {
        return Err(DisplayError::SizeMismatch);
    }
    let mut out: Vec<u8> = Vec::new();
    let mut i: usize = 0;
    while i < pixel_count
        invariant
            len == rgb@.len(),
            len == 3 * pixel_count,
            i <= pixel_count,
            out@.len() == 2 * i,
            forall|p: int|
                0 <= p < i ==> {
                    &&& #[trigger] out@[2 * p] == high_byte(rgb@[3 * p], rgb@[3 * p + 1])
                    &&& out@[2 * p + 1] == low_byte(rgb@[3 * p + 1], rgb@[3 * p + 2])
                },
        decreases pixel_count - i,
    {
        let o = 3 * i;
        let (b1, b2) = convert(rgb[o], rgb[o + 1], rgb[o + 2]);
        let ghost prev = out@;
        out.push(b1);
        out.push(b2);
        proof {
            assert forall|p: int| 0 <= p < i + 1 implies {
                &&& #[trigger] out@[2 * p] == high_byte(rgb@[3 * p], rgb@[3 * p + 1])
                &&& out@[2 * p + 1] == low_byte(rgb@[3 * p + 1], rgb@[3 * p + 2])
            } by {
                if p < i {
                    assert(out@[2 * p] == prev[2 * p]);
                    assert(out@[2 * p + 1] == prev[2 * p + 1]);
                } else {
                    assert(2 * p == 2 * i);
                }
            }
        }
        i = i + 1;
    }
    proof {
        lemma_rgb565_bytes(out@, rgb@, pixel_count as int);
    }
    Ok(out)
}

} // verus!
