//! Image output: frames encoded as PPM files.
//!
//! The encoders return the bytes of the file. Writing them out is the
//! caller's business.

use vstd::prelude::*;
use crate::colorf::ColorF;
use crate::frame::{Frame, FrameView};
use crate::quantize::{clamp_to_byte, quantized};

verus! {

/// The decimal digit `d` in ASCII.
pub open spec fn digit(d: nat) -> u8 {
    (48 + d) as u8
}

/// The decimal numeral of `n` in ASCII, without leading zeros.
pub open spec fn decimal(n: nat) -> Seq<u8>
    decreases n,
{
    if n < 10 {
        seq![digit(n)]
    } else {
        decimal(n / 10).push(digit(n % 10))
    }
}

/// The header of a PPM file: the magic number `P3` or `P6`, the size, and
/// the largest channel value, 255.
pub open spec fn header(kind: u8, width: nat, height: nat) -> Seq<u8> {
    seq![0x50u8, kind, 0x0au8] + decimal(width) + seq![0x20u8] + decimal(height)
        + seq![0x0au8, 0x32u8, 0x35u8, 0x35u8, 0x0au8]
}

/// The three bytes of a pixel in a binary PPM file. Alpha is not written.
pub open spec fn binary_pixel(c: ColorF) -> Seq<u8> {
    seq![quantized(c.r), quantized(c.g), quantized(c.b)]
}

/// The line of a pixel in an ASCII PPM file: three numerals and a line feed.
pub open spec fn ascii_pixel(c: ColorF) -> Seq<u8> {
    decimal(quantized(c.r) as nat) + seq![0x20u8] + decimal(quantized(c.g) as nat) + seq![0x20u8]
        + decimal(quantized(c.b) as nat) + seq![0x0au8]
}

/// The pixels of a binary PPM file, in the order of the data.
pub open spec fn binary_body(pixels: Seq<ColorF>) -> Seq<u8>
    decreases pixels.len(),
{
    if pixels.len() == 0 {
        Seq::empty()
    } else {
        binary_body(pixels.drop_last()) + binary_pixel(pixels.last())
    }
}

/// The pixels of an ASCII PPM file, in the order of the data.
pub open spec fn ascii_body(pixels: Seq<ColorF>) -> Seq<u8>
    decreases pixels.len(),
{
    if pixels.len() == 0 {
        Seq::empty()
    } else {
        ascii_body(pixels.drop_last()) + ascii_pixel(pixels.last())
    }
}

/// A frame as a binary PPM file.
pub open spec fn ppm_binary(frame: FrameView) -> Seq<u8> {
    header(0x36, frame.width, frame.height) + binary_body(frame.pixels)
}

/// A frame as an ASCII PPM file.
pub open spec fn ppm_ascii(frame: FrameView) -> Seq<u8> {
    header(0x33, frame.width, frame.height) + ascii_body(frame.pixels)
}

/// A numeral has at least one digit, holds digits only, and starts with a
/// zero only if it is the numeral of zero.
pub proof fn lemma_decimal_digits(n: nat)
    ensures
        decimal(n).len() >= 1,
        forall|i: int| 0 <= i < decimal(n).len() ==> 0x30 <= #[trigger] decimal(n)[i] <= 0x39,
        decimal(n)[0] == 0x30 <==> n == 0,
    decreases n,
{
    if n >= 10 {
        lemma_decimal_digits(n / 10);
    }
}

/// The number that a numeral stands for, read digit by digit.
pub open spec fn numeral_value(digits: Seq<u8>) -> nat
    decreases digits.len(),
{
    if digits.len() == 0 {
        0
    } else {
        (10 * numeral_value(digits.drop_last()) + (digits.last() - 48)) as nat
    }
}

/// A numeral reads back as the number it was written for, so two numbers
/// with the same numeral are one number: a header fixes the size.
pub proof fn lemma_decimal_reads_back(n: nat)
    ensures
        numeral_value(decimal(n)) == n,
    decreases n,
{
    let digits = decimal(n);
    if n < 10 {
        assert(digits.drop_last() =~= Seq::<u8>::empty());
        assert(numeral_value(digits.drop_last()) == 0);
        assert(digits.last() == digit(n));
    } else {
        lemma_decimal_reads_back(n / 10);
        assert(digits.drop_last() =~= decimal(n / 10));
        assert(digits.last() == digit(n % 10));
    }
}

/// The body of a binary file holds three bytes for each pixel.
pub proof fn lemma_binary_body_len(pixels: Seq<ColorF>)
    ensures
        binary_body(pixels).len() == 3 * pixels.len(),
    decreases pixels.len(),
{
    if pixels.len() > 0 {
        lemma_binary_body_len(pixels.drop_last());
    }
}

/// The bytes of pixel `i` stand at `3 * i` of the body of a binary file.
pub proof fn lemma_binary_body_pixel(pixels: Seq<ColorF>, i: int)
    requires
        0 <= i < pixels.len(),
    ensures
        3 * i + 2 < binary_body(pixels).len(),
        binary_body(pixels)[3 * i] == quantized(pixels[i].r),
        binary_body(pixels)[3 * i + 1] == quantized(pixels[i].g),
        binary_body(pixels)[3 * i + 2] == quantized(pixels[i].b),
    decreases pixels.len(),
{
    let front = pixels.drop_last();
    let body = binary_body(pixels);
    lemma_binary_body_len(pixels);
    lemma_binary_body_len(front);
    assert(body == binary_body(front) + binary_pixel(pixels.last()));
    if i < pixels.len() - 1 {
        lemma_binary_body_pixel(front, i);
        assert(front[i] == pixels[i]);
        assert(body[3 * i] == binary_body(front)[3 * i]);
        assert(body[3 * i + 1] == binary_body(front)[3 * i + 1]);
        assert(body[3 * i + 2] == binary_body(front)[3 * i + 2]);
    } else {
        assert(pixels[i] == pixels.last());
        assert(body[3 * i] == binary_pixel(pixels.last())[0]);
        assert(body[3 * i + 1] == binary_pixel(pixels.last())[1]);
        assert(body[3 * i + 2] == binary_pixel(pixels.last())[2]);
    }
}

/// The length of a header: nine bytes besides the two numerals.
pub proof fn lemma_header_len(kind: u8, width: nat, height: nat)
    ensures
        header(kind, width, height).len() == 9 + decimal(width).len() + decimal(height).len(),
{
}

/// A binary file is its header and then three bytes for each pixel of the
/// data, in the order of the data: the bytes of pixel `i` stand `3 * i`
/// behind the header.
pub proof fn lemma_ppm_binary_pixel(frame: FrameView, i: int)
    requires
        0 <= i < frame.pixels.len(),
    ensures
        ppm_binary(frame).len() == header(0x36, frame.width, frame.height).len() + 3
            * frame.pixels.len(),
        ppm_binary(frame)[header(0x36, frame.width, frame.height).len() + 3 * i] == quantized(
            frame.pixels[i].r,
        ),
        ppm_binary(frame)[header(0x36, frame.width, frame.height).len() + 3 * i + 1] == quantized(
            frame.pixels[i].g,
        ),
        ppm_binary(frame)[header(0x36, frame.width, frame.height).len() + 3 * i + 2] == quantized(
            frame.pixels[i].b,
        ),
{
    let head = header(0x36, frame.width, frame.height);
    let body = binary_body(frame.pixels);
    lemma_binary_body_len(frame.pixels);
    lemma_binary_body_pixel(frame.pixels, i);
    assert(ppm_binary(frame) == head + body);
    assert((head + body)[head.len() + 3 * i] == body[3 * i]);
    assert((head + body)[head.len() + 3 * i + 1] == body[3 * i + 1]);
    assert((head + body)[head.len() + 3 * i + 2] == body[3 * i + 2]);
}

/// Appends the numeral of `n`.
fn push_decimal(out: &mut Vec<u8>, n: usize)
    ensures
        final(out)@ == old(out)@ + decimal(n as nat),
    decreases n,
{
    if n < 10 {
        out.push(48 + n as u8);
        assert(out@ =~= old(out)@ + decimal(n as nat));
    } else {
        push_decimal(out, n / 10);
        out.push(48 + (n % 10) as u8);
        assert(out@ =~= old(out)@ + decimal(n as nat));
    }
}

/// Appends the header of a file of the given kind and size.
fn push_header(out: &mut Vec<u8>, kind: u8, width: usize, height: usize)
    ensures
        final(out)@ == old(out)@ + header(kind, width as nat, height as nat),
{
    out.push(0x50);
    out.push(kind);
    out.push(0x0a);
    push_decimal(out, width);
    out.push(0x20);
    push_decimal(out, height);
    out.push(0x0a);
    out.push(0x32);
    out.push(0x35);
    out.push(0x35);
    out.push(0x0a);
    assert(out@ =~= old(out)@ + header(kind, width as nat, height as nat));
}

/// Encodes a frame as a binary PPM file (`P6`): the header, then three
/// bytes for each pixel, row by row from the top.
pub fn encode_ppm(frame: &Frame) -> (out: Vec<u8>)
    ensures
        out@ == ppm_binary(frame@),
{
    let mut out: Vec<u8> = Vec::new();
    push_header(&mut out, 0x36, frame.width(), frame.height());
    let data = frame.data();
    let ghost head = out@;
    let mut i: usize = 0;
    while i < data.len()
        invariant
            i <= data.len(),
            out@ == head + binary_body(data@.take(i as int)),
        decreases data.len() - i,
    {
        let c = data[i];
        out.push(clamp_to_byte(c.r));
        out.push(clamp_to_byte(c.g));
        out.push(clamp_to_byte(c.b));
        proof {
            assert(data@.take(i + 1).drop_last() =~= data@.take(i as int));
            assert(out@ =~= head + binary_body(data@.take(i + 1)));
        }
        i += 1;
    }
    proof {
        assert(data@.take(i as int) =~= data@);
    }
    out
}

/// Encodes a frame as an ASCII PPM file (`P3`): the header, then a line of
/// three numerals for each pixel, row by row from the top.
pub fn encode_ppm_ascii(frame: &Frame) -> (out: Vec<u8>)
    ensures
        out@ == ppm_ascii(frame@),
{
    let mut out: Vec<u8> = Vec::new();
    push_header(&mut out, 0x33, frame.width(), frame.height());
    let data = frame.data();
    let ghost head = out@;
    let mut i: usize = 0;
    while i < data.len()
        invariant
            i <= data.len(),
            out@ == head + ascii_body(data@.take(i as int)),
        decreases data.len() - i,
    {
        let c = data[i];
        let ghost before = out@;
        push_decimal(&mut out, clamp_to_byte(c.r) as usize);
        out.push(0x20);
        push_decimal(&mut out, clamp_to_byte(c.g) as usize);
        out.push(0x20);
        push_decimal(&mut out, clamp_to_byte(c.b) as usize);
        out.push(0x0a);
        proof {
            assert(out@ =~= before + ascii_pixel(c));
            assert(data@.take(i + 1).drop_last() =~= data@.take(i as int));
            assert(out@ =~= head + ascii_body(data@.take(i + 1)));
        }
        i += 1;
    }
    proof {
        assert(data@.take(i as int) =~= data@);
    }
    out
}

} // verus!
