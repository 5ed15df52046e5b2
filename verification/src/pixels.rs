//! RGB pixels and their byte layout.

use vstd::prelude::*;

verus! {

/// A pixel of the LED strip: red, green and blue components.
#[derive(Clone, Copy, PartialEq, Eq, Structural, Default, Debug)]
pub struct Rgb8 {
    pub r: u8,
    pub g: u8,
    pub b: u8,
}

/// The pixels that a byte sequence holds: three bytes per pixel, trailing bytes ignored.
pub open spec fn spec_pixels(bytes: Seq<u8>) -> Seq<Rgb8> {
    Seq::new(
        bytes.len() / 3,
        |i: int| Rgb8 { r: bytes[3 * i], g: bytes[3 * i + 1], b: bytes[3 * i + 2] },
    )
}

/// The bytes of a pixel sequence: red, green and blue of each pixel in turn.
pub open spec fn spec_pixel_bytes(pixels: Seq<Rgb8>) -> Seq<u8> {
    Seq::new(
        pixels.len() * 3,
        |i: int|
            {
                let p = pixels[i / 3];
                if i % 3 == 0 {
                    p.r
                } else if i % 3 == 1 {
                    p.g
                } else {
                    p.b
                }
            },
    )
}

/// Reinterprets bytes as pixels, three bytes per pixel; trailing bytes are ignored.
pub fn bytes_to_pixels(bytes: &[u8]) -> (pixels: Vec<Rgb8>)
    ensures
        pixels@ == spec_pixels(bytes@),
{
    let blen: usize = bytes.len();
    let count = blen / 3;
    let mut pixels: Vec<Rgb8> = Vec::new();
    let mut i: usize = 0;
    while i < count
        invariant
            i <= count,
            count == bytes@.len() / 3,
            blen == bytes@.len(),
            pixels@.len() == i,
            forall|k: int| 0 <= k < i ==> #[trigger] pixels@[k] == spec_pixels(bytes@)[k],
        decreases count - i,
    {
        assert(3 * i + 2 < bytes@.len());
        pixels.push(Rgb8 { r: bytes[3 * i], g: bytes[3 * i + 1], b: bytes[3 * i + 2] });
        i = i + 1;
    }
    assert(pixels@ =~= spec_pixels(bytes@));
    pixels
}

/// Converts pixels into bytes, three bytes per pixel.
pub fn rgb8_to_bytes(pixels: &[Rgb8]) -> (bytes: Vec<u8>)
    requires
        pixels@.len() * 3 <= usize::MAX,
    ensures
        bytes@ == spec_pixel_bytes(pixels@),
{
    let mut bytes: Vec<u8> = Vec::new();
    let mut i: usize = 0;
    while i < pixels.len()
        invariant
            i <= pixels@.len(),
            pixels@.len() * 3 <= usize::MAX,
            bytes@.len() == 3 * i,
            forall|k: int| 0 <= k < 3 * i ==> #[trigger] bytes@[k] == spec_pixel_bytes(pixels@)[k],
        decreases pixels@.len() - i,
    {
        let p = pixels[i];
        let ghost before = bytes@;
        bytes.push(p.r);
        bytes.push(p.g);
        bytes.push(p.b);
        assert forall|k: int| 0 <= k < 3 * (i + 1) implies #[trigger] bytes@[k]
            == spec_pixel_bytes(pixels@)[k] by {
            if k >= 3 * i {
                assert(k / 3 == i as int);
            } else {
                assert(bytes@[k] == before[k]);
            }
        }
        i = i + 1;
    }
    assert(bytes@ =~= spec_pixel_bytes(pixels@));
    bytes
}

/// Turning pixels into bytes and back gives the same pixels.
pub proof fn lemma_pixels_roundtrip(pixels: Seq<Rgb8>)
    ensures
        spec_pixels(spec_pixel_bytes(pixels)) == pixels,
{
    let bytes = spec_pixel_bytes(pixels);
    assert(bytes.len() / 3 == pixels.len());
    assert forall|i: int| 0 <= i < pixels.len() implies #[trigger] spec_pixels(bytes)[i]
        == pixels[i] by {
        assert((3 * i) / 3 == i);
        assert((3 * i + 1) / 3 == i);
        assert((3 * i + 2) / 3 == i);
        assert((3 * i) % 3 == 0);
        assert((3 * i + 1) % 3 == 1);
        assert((3 * i + 2) % 3 == 2);
    }
    assert(spec_pixels(bytes) =~= pixels);
}

/// The colour of the wheel at a position: a transition red - green - blue - back to red.
pub open spec fn spec_wheel(pos: u8) -> Rgb8 {
    let p = 255 - pos;
    if p < 85 {
        Rgb8 { r: (255 - p * 3) as u8, g: 0, b: (p * 3) as u8 }
    } else if p < 170 {
        Rgb8 { r: 0, g: ((p - 85) * 3) as u8, b: (255 - (p - 85) * 3) as u8 }
    } else {
        Rgb8 { r: ((p - 170) * 3) as u8, g: (255 - (p - 170) * 3) as u8, b: 0 }
    }
}

/// Input a value 0 to 255 to get a color value.
/// The colors are a transition r - g - b - back to r.
pub fn wheel(wheel_pos: u8) -> (c: Rgb8)
    ensures
        c == spec_wheel(wheel_pos),
{
    let mut wheel_pos = 255 - wheel_pos;
    if wheel_pos < 85 {
        return Rgb8 { r: 255 - wheel_pos * 3, g: 0, b: wheel_pos * 3 };
    }
    if wheel_pos < 170 {
        wheel_pos = wheel_pos - 85;
        return Rgb8 { r: 0, g: wheel_pos * 3, b: 255 - wheel_pos * 3 };
    }
    wheel_pos = wheel_pos - 170;
    Rgb8 { r: wheel_pos * 3, g: 255 - wheel_pos * 3, b: 0 }
}

/// Every wheel colour has its three components summing to 255: one of them is off and
/// the other two share the full intensity.
pub proof fn lemma_wheel_brightness(pos: u8)
    ensures
        spec_wheel(pos).r + spec_wheel(pos).g + spec_wheel(pos).b == 255,
        spec_wheel(pos).r == 0 || spec_wheel(pos).g == 0 || spec_wheel(pos).b == 0,
{
}

/// Iterator over the pixels of a byte sequence whose length is a multiple of three.
pub struct RgbIter {
    bytes: Vec<u8>,
    pos: usize,
}

impl RgbIter {
    /// The pixels not yet handed out.
    pub closed spec fn rest(&self) -> Seq<Rgb8> {
        spec_pixels(self.bytes@.subrange(self.pos as int, self.bytes@.len() as int))
    }

    /// The iterator is well formed.
    pub closed spec fn wf(&self) -> bool {
        &&& self.bytes@.len() % 3 == 0
        &&& self.pos % 3 == 0
        &&& self.pos <= self.bytes@.len()
    }

    /// Creates an iterator over the pixels of `bytes`.
    pub fn new(bytes: Vec<u8>) -> (it: Self)
        requires
            bytes@.len() % 3 == 0,
        ensures
            it.wf(),
            it.rest() == spec_pixels(bytes@),
    {
        let it = Self { bytes, pos: 0 };
        assert(it.bytes@.subrange(0, it.bytes@.len() as int) =~= it.bytes@);
        it
    }

    /// Number of pixels left.
    pub fn len(&self) -> (n: usize)
        requires
            self.wf(),
        ensures
            n == self.rest().len(),
    {
        (self.bytes.len() - self.pos) / 3
    }

    /// Hands out the next pixel.
    pub fn next(&mut self) -> (p: Option<Rgb8>)
        requires
            old(self).wf(),
        ensures
            final(self).wf(),
            old(self).rest().len() == 0 ==> p is None && final(self).rest() == old(self).rest(),
            old(self).rest().len() > 0 ==> p == Some(old(self).rest()[0]) && final(self).rest()
                == old(self).rest().drop_first(),
    {
        if self.bytes.len() - self.pos < 3 {
            return None;
        }
        let ghost before = self.rest();
        let p = Rgb8 { r: self.bytes[self.pos], g: self.bytes[self.pos + 1], b: self.bytes[self.pos + 2] };
        self.pos = self.pos + 3;
        proof {
            let old_pos = (self.pos - 3) as int;
            let len = self.bytes@.len() as int;
            let s_old = self.bytes@.subrange(old_pos, len);
            let s_new = self.bytes@.subrange(old_pos + 3, len);
            assert(s_new.len() / 3 == s_old.len() / 3 - 1);
            assert forall|i: int| 0 <= i < s_new.len() / 3 implies #[trigger] spec_pixels(s_new)[i]
                == spec_pixels(s_old).drop_first()[i] by {
                assert(s_new[3 * i] == s_old[3 * (i + 1)]);
                assert(s_new[3 * i + 1] == s_old[3 * (i + 1) + 1]);
                assert(s_new[3 * i + 2] == s_old[3 * (i + 1) + 2]);
            }
            assert(spec_pixels(s_new) =~= spec_pixels(s_old).drop_first());
        }
        Some(p)
    }
}

/// Every three bytes make a pixel, red, green and blue in that order; trailing bytes that
/// do not make a whole pixel are left out; and a pixel turns into its red, green and blue
/// bytes in that order.
pub proof fn lemma_pixel_layout(bytes: Seq<u8>, pixels: Seq<Rgb8>)
    ensures
        spec_pixels(bytes).len() * 3 <= bytes.len() < spec_pixels(bytes).len() * 3 + 3,
        forall|i: int|
            0 <= i < spec_pixels(bytes).len() ==> (#[trigger] spec_pixels(bytes)[i]).r == bytes[3
                * i] && spec_pixels(bytes)[i].g == bytes[3 * i + 1] && spec_pixels(bytes)[i].b
                == bytes[3 * i + 2],
        spec_pixel_bytes(pixels).len() == pixels.len() * 3,
        forall|i: int|
            0 <= i < pixels.len() ==> spec_pixel_bytes(pixels)[3 * i] == (#[trigger] pixels[i]).r
                && spec_pixel_bytes(pixels)[3 * i + 1] == pixels[i].g && spec_pixel_bytes(
                pixels,
            )[3 * i + 2] == pixels[i].b,
{
    vstd::arithmetic::div_mod::lemma_fundamental_div_mod(bytes.len() as int, 3);
    assert forall|i: int| 0 <= i < pixels.len() implies spec_pixel_bytes(pixels)[3 * i]
        == (#[trigger] pixels[i]).r && spec_pixel_bytes(pixels)[3 * i + 1] == pixels[i].g
        && spec_pixel_bytes(pixels)[3 * i + 2] == pixels[i].b by {
        assert(3 * i + 2 < pixels.len() * 3);
        vstd::arithmetic::div_mod::lemma_fundamental_div_mod_converse(3 * i, 3, i, 0);
        vstd::arithmetic::div_mod::lemma_fundamental_div_mod_converse(3 * i + 1, 3, i, 1);
        vstd::arithmetic::div_mod::lemma_fundamental_div_mod_converse(3 * i + 2, 3, i, 2);
    }
}

} // verus!
