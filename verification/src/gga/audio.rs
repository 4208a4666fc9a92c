//! Direct sound of the GGA: two FIFOs of 8-bit samples that DMA 1 and 2
//! fill, each played one sample per overflow of its timer, and the integer
//! part of mixing them into the output.
use vstd::prelude::*;
use std::collections::VecDeque;

verus! {

/// Offset of the FIFO A register in I/O.
pub const FIFO_A_L: u32 = 0xA0;

/// A byte as a signed sample.
pub open spec fn as_i8(b: u8) -> i8 {
    (if b >= 128 { b - 256 } else { b as int }) as i8
}

fn to_i8(b: u8) -> (r: i8)
    ensures
        r == as_i8(b),
{
    if b >= 128 {
        (b as i16 - 256) as i8
    } else {
        b as i8
    }
}

/// The FIFO channels of the GGA's APU.
pub struct Apu {
    /// Samples waiting in each FIFO.
    pub buffers: [VecDeque<i8>; 2],
    /// Sample each channel plays now.
    pub current_samples: [i8; 2],
}

/// Address of the FIFO register of channel `ch`, as DMA targets it.
pub open spec fn fifo_addr(ch: int) -> u32 {
    (0x400_0000 + FIFO_A_L + ch * 4) as u32
}

/// A sample biased by SOUNDBIAS, clamped to the 10-bit output range and
/// unbiased again.
pub open spec fn biased(sample: i16, bias: i16) -> int {
    let s = sample + bias;
    (if s > 0x3FF { 0x3FF } else if s < 0 { 0 } else { s }) - bias
}

/// Right and left output of the two FIFO channels playing `a` and `b`,
/// by SOUNDCNT_H: each at half or full volume, each enabled per side.
pub open spec fn fifo_mix(cnt: u16, a: i8, b: i8) -> (int, int) {
    let av = a * (1 + (cnt / 4) % 2) * 2;
    let bv = b * (1 + (cnt / 8) % 2) * 2;
    let right = (if (cnt / 0x100) % 2 == 1 { av } else { 0 }) + (if (cnt / 0x1000) % 2 == 1 { bv } else { 0 });
    let left = (if (cnt / 0x200) % 2 == 1 { av } else { 0 }) + (if (cnt / 0x2000) % 2 == 1 { bv } else { 0 });
    (right, left)
}

impl Apu {
    /// Two empty FIFOs, playing silence.
    pub fn new() -> (a: Self)
        ensures
            a.buffers[0]@.len() == 0 && a.buffers[1]@.len() == 0,
            a.current_samples[0] == 0 && a.current_samples[1] == 0,
    {
        Apu { buffers: [VecDeque::new(), VecDeque::new()], current_samples: [0, 0] }
    }

    /// A halfword written to FIFO `CH`: its low byte, then its high byte,
    /// join the queue.
    pub fn push_samples<const CH: usize>(&mut self, samples: u16)
        requires
            CH < 2,
        ensures
            final(self).buffers[CH as int]@ == old(self).buffers[CH as int]@.push(as_i8((samples % 256) as u8)).push(
                as_i8((samples / 256) as u8),
            ),
            final(self).buffers[1 - CH as int] == old(self).buffers[1 - CH as int],
            final(self).current_samples == old(self).current_samples,
    {
        let lo = to_i8((samples % 256) as u8);
        let hi = to_i8((samples / 256) as u8);
        self.buffers[CH].push_back(lo);
        self.buffers[CH].push_back(hi);
    }

    /// A byte written to FIFO `CH` joins the queue.
    pub fn push_sample<const CH: usize>(&mut self, sample: u8)
        requires
            CH < 2,
        ensures
            final(self).buffers[CH as int]@ == old(self).buffers[CH as int]@.push(as_i8(sample)),
            final(self).buffers[1 - CH as int] == old(self).buffers[1 - CH as int],
            final(self).current_samples == old(self).current_samples,
    {
        let s = to_i8(sample);
        self.buffers[CH].push_back(s);
    }

    /// The timer of channel `CH` overflowed: play the next queued sample,
    /// if there is one. When 16 samples or fewer are left, each of DMA 1
    /// and 2 whose destination register (`dests`) is this FIFO is to
    /// transfer more; the result tells which.
    pub fn timer_overflow<const CH: usize>(&mut self, dests: [u32; 2]) -> (refill: [bool; 2])
        requires
            CH < 2,
        ensures
            ({
                let q = old(self).buffers[CH as int]@;
                let left = if q.len() > 0 { q.drop_first() } else { q };
                &&& final(self).buffers[CH as int]@ == left
                &&& final(self).current_samples[CH as int] == if q.len() > 0 {
                    q[0]
                } else {
                    old(self).current_samples[CH as int]
                }
                &&& final(self).current_samples[1 - CH as int] == old(self).current_samples[1 - CH as int]
                &&& final(self).buffers[1 - CH as int] == old(self).buffers[1 - CH as int]
                &&& forall|d: int|
                    0 <= d < 2 ==> #[trigger] refill[d] == (left.len() <= 16 && dests[d] == fifo_addr(CH as int))
            }),
    {
        if let Some(next) = self.buffers[CH].pop_front() {
            self.current_samples[CH] = next;
        }
        let mut refill = [false, false];
        if self.buffers[CH].len() <= 16 {
            let dest = 0x400_0000 + (FIFO_A_L + CH as u32 * 4);
            let mut dma: usize = 1;
            while dma <= 2
                invariant
                    1 <= dma <= 3,
                    dest == fifo_addr(CH as int),
                    forall|d: int| 0 <= d < dma - 1 ==> #[trigger] refill[d] == (dests[d] == dest),
                    forall|d: int| dma - 1 <= d < 2 ==> #[trigger] refill[d] == false,
                decreases 3 - dma,
            {
                if dests[dma - 1] == dest {
                    refill[dma - 1] = true;
                }
                dma += 1;
            }
        }
        refill
    }

    /// The FIFO channels' part of an output sample: right and left, from
    /// SOUNDCNT_H.
    pub fn fifo_output(&self, cnt: u16) -> (r: (i16, i16))
        ensures
            (r.0 as int, r.1 as int) == fifo_mix(cnt, self.current_samples[0], self.current_samples[1]),
    {
        let a_vol_mul: i16 = 1 + ((cnt / 4) % 2) as i16;
        let b_vol_mul: i16 = 1 + ((cnt / 8) % 2) as i16;
        let sa = self.current_samples[0] as i16;
        let sb = self.current_samples[1] as i16;
        proof {
            assert(-512 <= sa * a_vol_mul * 2 <= 512 && -512 <= sa * a_vol_mul <= 512) by (nonlinear_arith)
                requires
                    a_vol_mul == 1 || a_vol_mul == 2,
                    -128 <= sa <= 127,
            ;
            assert(-512 <= sb * b_vol_mul * 2 <= 512 && -512 <= sb * b_vol_mul <= 512) by (nonlinear_arith)
                requires
                    b_vol_mul == 1 || b_vol_mul == 2,
                    -128 <= sb <= 127,
            ;
        }
        let a = sa * a_vol_mul * 2;
        let b = sb * b_vol_mul * 2;
        let mut left: i16 = 0;
        let mut right: i16 = 0;
        if (cnt / 0x100) % 2 == 1 {
            right += a;
        }
        if (cnt / 0x200) % 2 == 1 {
            left += a;
        }
        if (cnt / 0x1000) % 2 == 1 {
            right += b;
        }
        if (cnt / 0x2000) % 2 == 1 {
            left += b;
        }
        (right, left)
    }

    /// Apply SOUNDBIAS to a mixed sample: clamp it to the range the bias
    /// leaves, 0 to 0x3FF once biased.
    pub fn bias(sample: i16, bias: i16) -> (r: i16)
        requires
            0 <= bias <= 0x3FF,
            i16::MIN <= sample + bias <= i16::MAX,
        ensures
            r == biased(sample, bias),
    {
        let mut s = sample;
        s += bias;
        if s > 0x3ff {
            s = 0x3ff;
        } else if s < 0 {
            s = 0;
        }
        s -= bias;
        s
    }
}

} // verus!
