//! Sample media published by the demo: a one-pixel PNG and a WAV header.
use vstd::prelude::*;

verus! {

/// The bytes of a one-pixel PNG image.
pub open spec fn demo_png() -> Seq<u8> {
    seq![
        0x89u8, 0x50, 0x4E, 0x47, 0x0D, 0x0A, 0x1A, 0x0A,
        0x00, 0x00, 0x00, 0x0D, 0x49, 0x48, 0x44, 0x52,
        0x00, 0x00, 0x00, 0x01, 0x00, 0x00, 0x00, 0x01,
        0x08, 0x02, 0x00, 0x00, 0x00, 0x90, 0x77, 0x53,
        0xDE, 0x00, 0x00, 0x00, 0x0C, 0x49, 0x44, 0x41,
        0x54, 0x08, 0xD7, 0x63, 0x60, 0xF8, 0xCF, 0x50,
        0x0F, 0x00, 0x06, 0x18, 0x06, 0x00, 0x5A, 0x34,
        0x7D, 0x6B, 0x00, 0x00, 0x00, 0x00, 0x49, 0x45,
        0x4E, 0x44, 0xAE, 0x42, 0x60, 0x82,
    ]
}

/// A one-pixel PNG image: signature, header, data and end chunks.
pub fn generate_demo_png() -> (r: Vec<u8>)
    ensures
        r@ == demo_png(),
{
    let r: Vec<u8> = vec![
        0x89, 0x50, 0x4E, 0x47, 0x0D, 0x0A, 0x1A, 0x0A,
        0x00, 0x00, 0x00, 0x0D, 0x49, 0x48, 0x44, 0x52,
        0x00, 0x00, 0x00, 0x01, 0x00, 0x00, 0x00, 0x01,
        0x08, 0x02, 0x00, 0x00, 0x00, 0x90, 0x77, 0x53,
        0xDE, 0x00, 0x00, 0x00, 0x0C, 0x49, 0x44, 0x41,
        0x54, 0x08, 0xD7, 0x63, 0x60, 0xF8, 0xCF, 0x50,
        0x0F, 0x00, 0x06, 0x18, 0x06, 0x00, 0x5A, 0x34,
        0x7D, 0x6B, 0x00, 0x00, 0x00, 0x00, 0x49, 0x45,
        0x4E, 0x44, 0xAE, 0x42, 0x60, 0x82,
    ];
    assert(r@ =~= demo_png());
    r
}

/// `n` as four little-endian bytes.
pub open spec fn le32(n: nat) -> Seq<u8> {
    seq![(n % 256) as u8, (n / 256 % 256) as u8, (n / 65536 % 256) as u8, (n / 16777216 % 256) as u8]
}

/// `n` as two little-endian bytes.
pub open spec fn le16(n: nat) -> Seq<u8> {
    seq![(n % 256) as u8, (n / 256 % 256) as u8]
}

/// The 44-byte header of a mono 16-bit PCM WAV file of `samples` samples at
/// `rate` samples per second.
pub open spec fn wav_header_spec(rate: nat, samples: nat) -> Seq<u8> {
    let data = samples * 2;
    seq![0x52u8, 0x49, 0x46, 0x46] + le32(36 + data) + seq![0x57u8, 0x41, 0x56, 0x45]
        + seq![0x66u8, 0x6d, 0x74, 0x20] + le32(16) + le16(1) + le16(1) + le32(rate) + le32(rate * 2)
        + le16(2) + le16(16) + seq![0x64u8, 0x61, 0x74, 0x61] + le32(data)
}

fn push_le32(v: &mut Vec<u8>, n: u32)
    ensures
        final(v)@ == old(v)@ + le32(n as nat),
{
    v.push((n % 256) as u8);
    v.push((n / 256 % 256) as u8);
    v.push((n / 65536 % 256) as u8);
    v.push((n / 16777216 % 256) as u8);
    assert(final(v)@ =~= old(v)@ + le32(n as nat));
}

fn push_le16(v: &mut Vec<u8>, n: u16)
    ensures
        final(v)@ == old(v)@ + le16(n as nat),
{
    v.push((n % 256) as u8);
    v.push((n / 256 % 256) as u8);
    assert(final(v)@ =~= old(v)@ + le16(n as nat));
}

fn push_tag(v: &mut Vec<u8>, a: u8, b: u8, c: u8, d: u8)
    ensures
        final(v)@ == old(v)@ + seq![a, b, c, d],
{
    v.push(a);
    v.push(b);
    v.push(c);
    v.push(d);
    assert(final(v)@ =~= old(v)@ + seq![a, b, c, d]);
}

/// The header of a mono 16-bit PCM WAV file; the samples follow it.
pub fn wav_header(rate: u32, samples: u32) -> (r: Vec<u8>)
    requires
        rate * 2 <= u32::MAX,
        samples * 2 + 44 <= u32::MAX,
    ensures
        r@ == wav_header_spec(rate as nat, samples as nat),
        r@.len() == 44,
{
    let data = samples * 2;
    let mut v: Vec<u8> = Vec::new();
    push_tag(&mut v, 0x52, 0x49, 0x46, 0x46);
    push_le32(&mut v, 36 + data);
    push_tag(&mut v, 0x57, 0x41, 0x56, 0x45);
    push_tag(&mut v, 0x66, 0x6d, 0x74, 0x20);
    push_le32(&mut v, 16);
    push_le16(&mut v, 1);
    push_le16(&mut v, 1);
    push_le32(&mut v, rate);
    push_le32(&mut v, rate * 2);
    push_le16(&mut v, 2);
    push_le16(&mut v, 16);
    push_tag(&mut v, 0x64, 0x61, 0x74, 0x61);
    push_le32(&mut v, data);
    v
}

/// The demo sound's sample rate and length: half a second at 8 kHz.
pub const DEMO_SAMPLE_RATE: u32 = 8000;

pub const DEMO_SAMPLES: u32 = 4000;

} // verus!
