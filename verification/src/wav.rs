//! The image of a sound file: 16-bit mono PCM in a RIFF container.

use vstd::prelude::*;
use crate::fixed::ONE;

verus! {

/// Whether a file can hold `count` samples at `sample_rate`: the sizes
/// and the byte rate that its header states fit in 32 bits.
pub open spec fn wav_fits(count: int, sample_rate: int) -> bool {
    36 + 2 * count <= u32::MAX && 2 * sample_rate <= u32::MAX
}

/// The 16-bit value of a sample: the sample clamped to full scale,
/// times 32767 where it is positive and 32768 where it is negative, in
/// units of full scale, rounded toward 0.
pub open spec fn quantized(sample: int) -> int {
    if sample >= ONE {
        32767
    } else if sample <= -ONE {
        -32768
    } else if sample >= 0 {
        (sample * 32767) / (ONE as int)
    } else {
        -((-sample * 32768) / (ONE as int))
    }
}

/// The two bytes of a 16-bit value in two's complement, low byte first.
pub open spec fn bytes_of_i16(value: int) -> Seq<u8> {
    let word = if value < 0 {
        value + 65536
    } else {
        value
    };
    seq![(word % 256) as u8, (word / 256) as u8]
}

/// The two bytes of a 16-bit number, low byte first.
pub open spec fn bytes_of_u16(value: int) -> Seq<u8> {
    seq![(value % 256) as u8, (value / 256) as u8]
}

/// The four bytes of a 32-bit number, low byte first.
pub open spec fn bytes_of_u32(value: int) -> Seq<u8> {
    seq![
        (value % 256) as u8,
        ((value / 256) % 256) as u8,
        ((value / 65536) % 256) as u8,
        (value / 16777216) as u8,
    ]
}

/// The header of a file of `count` samples at `sample_rate`: the chunk
/// `RIFF` of type `WAVE`, the chunk `fmt ` of one channel of 16-bit PCM,
/// and the head of the chunk `data`.
pub open spec fn wav_header(count: int, sample_rate: int) -> Seq<u8> {
    seq![82u8, 73u8, 70u8, 70u8] + bytes_of_u32(36 + 2 * count) + seq![87u8, 65u8, 86u8, 69u8]
        + seq![102u8, 109u8, 116u8, 32u8] + bytes_of_u32(16) + bytes_of_u16(1) + bytes_of_u16(1)
        + bytes_of_u32(sample_rate) + bytes_of_u32(2 * sample_rate) + bytes_of_u16(2)
        + bytes_of_u16(16) + seq![100u8, 97u8, 116u8, 97u8] + bytes_of_u32(2 * count)
}

/// The bytes of the first `count` samples.
pub open spec fn wav_data(samples: Seq<int>, count: int) -> Seq<u8>
    decreases count,
{
    if count <= 0 {
        Seq::empty()
    } else {
        wav_data(samples, count - 1) + bytes_of_i16(quantized(samples[count - 1]))
    }
}

/// The image of a file that holds `samples` at `sample_rate`.
pub open spec fn wav_image(samples: Seq<int>, sample_rate: int) -> Seq<u8> {
    wav_header(samples.len() as int, sample_rate) + wav_data(samples, samples.len() as int)
}

/// The values of some samples.
pub open spec fn sample_values(samples: Seq<i32>) -> Seq<int> {
    Seq::new(samples.len(), |i: int| samples[i] as int)
}

/// Computes [`quantized`].
pub fn quantize(sample: i32) -> (value: i16)
    ensures
        value == quantized(sample as int),
{
    if sample >= ONE {
        32767
    } else if sample <= -ONE {
        -32768
    } else if sample >= 0 {
        (((sample as i64) * 32767) / 65536) as i16
    } else {
        (-(((-sample as i64) * 32768) / 65536)) as i16
    }
}

/// Appends the four bytes of `value`, low byte first.
fn push_u32(out: &mut Vec<u8>, value: u32)
    ensures
        final(out)@ == old(out)@ + bytes_of_u32(value as int),
{
    out.push((value % 256) as u8);
    out.push(((value / 256) % 256) as u8);
    out.push(((value / 65536) % 256) as u8);
    out.push((value / 16777216) as u8);
    assert(out@ =~= old(out)@ + bytes_of_u32(value as int));
}

/// Appends the two bytes of `value`, low byte first.
fn push_u16(out: &mut Vec<u8>, value: u16)
    ensures
        final(out)@ == old(out)@ + bytes_of_u16(value as int),
{
    out.push((value % 256) as u8);
    out.push((value / 256) as u8);
    assert(out@ =~= old(out)@ + bytes_of_u16(value as int));
}

/// Appends four given bytes.
fn push_tag(out: &mut Vec<u8>, a: u8, b: u8, c: u8, d: u8)
    ensures
        final(out)@ == old(out)@ + seq![a, b, c, d],
{
    out.push(a);
    out.push(b);
    out.push(c);
    out.push(d);
    assert(out@ =~= old(out)@ + seq![a, b, c, d]);
}

/// The image of a sound file that holds `samples` at `sample_rate`: one
/// channel of 16-bit PCM. Samples beyond full scale are clamped. There
/// is no image where the sizes or the byte rate do not fit in the 32
/// bits that the header has for them.
pub fn write_wav_16bit(samples: &[i32], sample_rate: u32) -> (image: Option<Vec<u8>>)
    ensures
        match image {
            Some(bytes) => wav_fits(samples@.len() as int, sample_rate as int) && bytes@
                == wav_image(sample_values(samples@), sample_rate as int),
            None => !wav_fits(samples@.len() as int, sample_rate as int),
        },
{
    let count = samples.len();
    if count > 2147483629 || sample_rate > 2147483647 {
        return None;
    }
    let data_size: u32 = (count * 2) as u32;
    let ghost values = sample_values(samples@);
    let mut out: Vec<u8> = Vec::new();
    push_tag(&mut out, 82, 73, 70, 70);
    push_u32(&mut out, 36 + data_size);
    push_tag(&mut out, 87, 65, 86, 69);
    push_tag(&mut out, 102, 109, 116, 32);
    push_u32(&mut out, 16);
    push_u16(&mut out, 1);
    push_u16(&mut out, 1);
    push_u32(&mut out, sample_rate);
    push_u32(&mut out, sample_rate * 2);
    push_u16(&mut out, 2);
    push_u16(&mut out, 16);
    push_tag(&mut out, 100, 97, 116, 97);
    push_u32(&mut out, data_size);
    assert(out@ =~= wav_header(count as int, sample_rate as int));
    let ghost header = out@;
    assert(out@ =~= header + wav_data(values, 0));
    let mut i: usize = 0;
    while i < count
        invariant
            i <= count,
            count == samples@.len(),
            values == sample_values(samples@),
            out@ == header + wav_data(values, i as int),
        decreases count - i,
    {
        let value = quantize(samples[i]);
        let word: u16 = if value < 0 {
            (value as i32 + 65536) as u16
        } else {
            value as u16
        };
        let ghost before = out@;
        out.push((word % 256) as u8);
        out.push((word / 256) as u8);
        assert(out@ =~= before + bytes_of_i16(quantized(values[i as int])));
        assert(header + wav_data(values, i as int) + bytes_of_i16(quantized(values[i as int]))
            =~= header + wav_data(values, i + 1));
        i += 1;
    }
    Some(out)
}

} // verus!
