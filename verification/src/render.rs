//! Tone-mapped pixels as a binary portable pixmap.
use crate::color::Rgb8;
use crate::image::{Image, Resolution};
use vstd::prelude::*;

verus! {

/// The decimal digits of `n`, most significant first, without leading
/// zeros.
pub open spec fn decimal(n: nat) -> Seq<u8>
    decreases n,
{
    if n < 10 {
        seq![(0x30 + n) as u8]
    } else {
        decimal(n / 10).push((0x30 + n % 10) as u8)
    }
}

/// The number that a run of decimal digits denotes.
pub open spec fn decimal_value(digits: Seq<u8>) -> nat
    decreases digits.len(),
{
    if digits.len() == 0 {
        0
    } else {
        (10 * decimal_value(digits.drop_last()) + (digits.last() - 0x30)) as nat
    }
}

/// The header of a pixmap of the given resolution: the magic number, the
/// width, the height and the largest channel value, each followed by one
/// separating byte.
pub open spec fn ppm_header(resolution: Resolution) -> Seq<u8> {
    seq![0x50u8, 0x36, 0x20] + decimal(resolution.width as nat) + seq![0x20u8] + decimal(
        resolution.height as nat,
    ) + seq![0x20u8, 0x32, 0x35, 0x35, 0x0a]
}

/// `bytes` holds, from `start` on, the three channels of the colour that
/// `curve` gave for each pixel, pixel after pixel.
pub open spec fn tonemapped<P, F: Fn(&P) -> Rgb8>(
    pixels: Seq<P>,
    curve: &F,
    bytes: Seq<u8>,
    start: int,
) -> bool {
    &&& bytes.len() == start + 3 * pixels.len()
    &&& forall|i: int|
        0 <= i < pixels.len() ==> call_ensures(
            curve,
            (&#[trigger] pixels[i],),
            Rgb8 { r: bytes[start + 3 * i], g: bytes[start + 3 * i + 1], b: bytes[start + 3 * i + 2] },
        )
}

fn push_decimal(out: &mut Vec<u8>, n: usize)
    ensures
        final(out)@ == old(out)@ + decimal(n as nat),
    decreases n,
{
    if n >= 10 {
        push_decimal(out, n / 10);
    }
    out.push(0x30 + (n % 10) as u8);
}

/// The header bytes of a pixmap of the given resolution.
pub fn header(resolution: Resolution) -> (bytes: Vec<u8>)
    ensures
        bytes@ == ppm_header(resolution),
{
    let mut bytes: Vec<u8> = Vec::new();
    bytes.push(0x50);
    bytes.push(0x36);
    bytes.push(0x20);
    push_decimal(&mut bytes, resolution.width);
    bytes.push(0x20);
    push_decimal(&mut bytes, resolution.height);
    bytes.push(0x20);
    bytes.push(0x32);
    bytes.push(0x35);
    bytes.push(0x35);
    bytes.push(0x0a);
    bytes
}

fn push_tonemapped<P, F: Fn(&P) -> Rgb8>(out: &mut Vec<u8>, pixels: &Vec<P>, curve: &F)
    requires
        forall|i: int| 0 <= i < pixels@.len() ==> call_requires(curve, (&#[trigger] pixels@[i],)),
    ensures
        tonemapped(pixels@, curve, final(out)@, old(out)@.len() as int),
        final(out)@.subrange(0, old(out)@.len() as int) == old(out)@,
{
    let ghost start = out@.len() as int;
    let mut i: usize = 0;
    while i < pixels.len()
        invariant
            i <= pixels@.len(),
            start == old(out)@.len(),
            forall|k: int|
                0 <= k < pixels@.len() ==> call_requires(curve, (&#[trigger] pixels@[k],)),
            out@.len() == start + 3 * i,
            out@.subrange(0, start) == old(out)@,
            forall|k: int|
                0 <= k < i ==> call_ensures(
                    curve,
                    (&#[trigger] pixels@[k],),
                    Rgb8 {
                        r: out@[start + 3 * k],
                        g: out@[start + 3 * k + 1],
                        b: out@[start + 3 * k + 2],
                    },
                ),
        decreases pixels@.len() - i,
    {
        let color = curve(&pixels[i]);
        out.push(color.r);
        out.push(color.g);
        out.push(color.b);
        i = i + 1;
    }
}

impl<P> Image<P> {
    /// The display bytes of the image: for each pixel in turn the red,
    /// green and blue channel of the colour that `curve` maps it to, three
    /// bytes for each position of the resolution.
    pub fn tonemap<F: Fn(&P) -> Rgb8>(&self, curve: &F) -> (bytes: Vec<u8>)
        requires
            self.well_formed(),
            forall|i: int| 0 <= i < self@.len() ==> call_requires(curve, (&#[trigger] self@[i],)),
        ensures
            bytes@.len() == 3 * self.resolution.pixels(),
            tonemapped(self@, curve, bytes@, 0),
    {
        let mut bytes: Vec<u8> = Vec::new();
        push_tonemapped(&mut bytes, &self.data, curve);
        bytes
    }

    /// The image as a binary pixmap file: the header for its resolution,
    /// then its display bytes.
    pub fn to_ppm<F: Fn(&P) -> Rgb8>(&self, curve: &F) -> (bytes: Vec<u8>)
        requires
            self.well_formed(),
            forall|i: int| 0 <= i < self@.len() ==> call_requires(curve, (&#[trigger] self@[i],)),
        ensures
            bytes@.len() == ppm_header(self.resolution).len() + 3 * self.resolution.pixels(),
            bytes@.subrange(0, ppm_header(self.resolution).len() as int) == ppm_header(
                self.resolution,
            ),
            tonemapped(self@, curve, bytes@, ppm_header(self.resolution).len() as int),
    {
        let mut bytes: Vec<u8> = header(self.resolution);
        push_tonemapped(&mut bytes, &self.data, curve);
        bytes
    }
}

} // verus!

verus! {

/// How many decimal digits `n` takes.
pub open spec fn decimal_digits(n: nat) -> int
    decreases n,
{
    if n < 10 {
        1
    } else {
        1 + decimal_digits(n / 10)
    }
}

/// The digits of a number are as many as `decimal_digits` says, and each
/// of them is a digit.
pub proof fn lemma_decimal_len(n: nat)
    ensures
        decimal(n).len() == decimal_digits(n),
        forall|i: int| 0 <= i < decimal(n).len() ==> 0x30 <= #[trigger] decimal(n)[i] <= 0x39,
    decreases n,
{
    if n >= 10 {
        lemma_decimal_len(n / 10);
    }
}

/// Reading the digits of a number gives the number back.
pub proof fn lemma_decimal_round_trip(n: nat)
    ensures
        decimal_value(decimal(n)) == n,
    decreases n,
{
    if n < 10 {
        assert(decimal(n).drop_last() =~= Seq::<u8>::empty());
        assert(decimal_value(decimal(n).drop_last()) == 0);
    } else {
        lemma_decimal_round_trip(n / 10);
        assert(decimal(n).drop_last() =~= decimal(n / 10));
    }
}

/// The header names the resolution exactly: after the three bytes of the
/// magic number stand the digits of the width, one separator, and the
/// digits of the height, and both read back as the numbers they were
/// written from.
pub proof fn lemma_header_dimensions(resolution: Resolution)
    ensures
        ppm_header(resolution).len() == 9 + decimal_digits(resolution.width as nat)
            + decimal_digits(resolution.height as nat),
        ppm_header(resolution).subrange(3, 3 + decimal_digits(resolution.width as nat))
            == decimal(resolution.width as nat),
        ppm_header(resolution).subrange(
            4 + decimal_digits(resolution.width as nat),
            4 + decimal_digits(resolution.width as nat) + decimal_digits(
                resolution.height as nat,
            ),
        ) == decimal(resolution.height as nat),
        decimal_value(decimal(resolution.width as nat)) == resolution.width,
        decimal_value(decimal(resolution.height as nat)) == resolution.height,
{
    let w = resolution.width as nat;
    let h = resolution.height as nat;
    lemma_decimal_len(w);
    lemma_decimal_len(h);
    lemma_decimal_round_trip(w);
    lemma_decimal_round_trip(h);
    let head = ppm_header(resolution);
    assert(head.subrange(3, 3 + decimal_digits(w)) =~= decimal(w));
    assert(head.subrange(4 + decimal_digits(w), 4 + decimal_digits(w) + decimal_digits(h))
        =~= decimal(h));
}

/// A pixmap file is as long as its header and three bytes for each pixel.
/// With three digits in each dimension that is fifteen bytes and the body.
pub proof fn lemma_ppm_length<P, F: Fn(&P) -> Rgb8>(image: Image<P>, curve: &F, bytes: Seq<u8>)
    requires
        image.well_formed(),
        tonemapped(image@, curve, bytes, ppm_header(image.resolution).len() as int),
    ensures
        bytes.len() == 9 + decimal_digits(image.resolution.width as nat) + decimal_digits(
            image.resolution.height as nat,
        ) + 3 * (image.resolution.width * image.resolution.height),
        100 <= image.resolution.width <= 999 && 100 <= image.resolution.height <= 999
            ==> bytes.len() == 15 + image.resolution.width * image.resolution.height * 3,
{
    lemma_header_dimensions(image.resolution);
    reveal_with_fuel(decimal_digits, 4);
}

} // verus!
