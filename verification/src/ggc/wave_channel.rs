//! The GG's wave channel: plays 32 4-bit samples from wave RAM.
use vstd::prelude::*;

verus! {

/// Shift applied to samples for the volume code.
pub open spec fn volume_shift_for(vol: u8) -> u8 {
    let code = vol % 4;
    if code == 0 {
        4
    } else if code == 1 {
        0
    } else if code == 2 {
        1
    } else {
        2
    }
}

/// The wave channel.
pub struct WaveChannel {
    pub volume: u8,
    pub volume_shift: u8,
    pub frequency: u16,
    pub buffer: [u8; 16],
    pub buffer_position: u8,
    pub channel_enable: bool,
    pub dac_enable: bool,
    pub cgb: bool,
}

impl WaveChannel {
    /// The sample position is one of the 32 samples.
    pub open spec fn wf(&self) -> bool {
        self.buffer_position < 32
    }

    /// Index into wave RAM that an access at `offset` goes to: while the
    /// channel plays, the byte currently being played.
    pub open spec fn buffer_index(&self, offset: u8) -> int {
        (if self.dac_enable && self.channel_enable {
            self.buffer_position as int / 2
        } else {
            offset as int
        }) % 16
    }

    /// Wave RAM can be accessed: always on CGB; on DMG only while the
    /// channel does not play.
    pub open spec fn accessible(&self) -> bool {
        self.cgb || !(self.dac_enable && self.channel_enable)
    }

    /// A silent channel with empty wave RAM.
    pub fn new(cgb: bool) -> (w: Self)
        ensures
            w.wf(),
            w.cgb == cgb,
            w.volume == 0 && w.volume_shift == 0 && w.frequency == 0 && w.buffer_position == 0,
            !w.channel_enable && !w.dac_enable,
            forall|i: int| 0 <= i < 16 ==> w.buffer[i] == 0,
    {
        Self {
            volume: 0,
            volume_shift: 0,
            frequency: 0,
            buffer: [0; 16],
            buffer_position: 0,
            channel_enable: false,
            dac_enable: false,
            cgb,
        }
    }

    /// Write the volume code (NR32 bits 5-6).
    pub fn write_volume(&mut self, vol: u8)
        ensures
            final(self).volume == vol,
            final(self).volume_shift == volume_shift_for(vol),
            final(self).frequency == old(self).frequency,
            final(self).buffer == old(self).buffer,
            final(self).buffer_position == old(self).buffer_position,
            final(self).channel_enable == old(self).channel_enable,
            final(self).dac_enable == old(self).dac_enable,
    {
        self.volume = vol;
        self.volume_shift = match vol % 4 {
            0 => 4,
            1 => 0,
            2 => 1,
            _ => 2,
        };
    }

    /// The volume code.
    pub fn read_volume(&self) -> (r: u8)
        ensures
            r == self.volume,
    {
        self.volume
    }

    /// The frequency.
    pub fn frequency(&self) -> (r: u16)
        ensures
            r == self.frequency,
    {
        self.frequency
    }

    /// Set the frequency.
    pub fn write_frequency(&mut self, data: u16)
        ensures
            *final(self) == (WaveChannel { frequency: data, ..*old(self) }),
    {
        self.frequency = data;
    }

    /// Write a byte of wave RAM; dropped where wave RAM is not accessible.
    pub fn write_buffer(&mut self, offset: u8, data: u8)
        ensures
            *final(self) == (WaveChannel {
                buffer: final(self).buffer,
                ..*old(self)
            }),
            old(self).accessible() ==> final(self).buffer@ == old(self).buffer@.update(
                old(self).buffer_index(offset),
                data,
            ),
            !old(self).accessible() ==> final(self).buffer == old(self).buffer,
    {
        if let Some(index) = self.wave_buffer_index(offset) {
            self.buffer[index] = data;
        }
    }

    /// Read a byte of wave RAM; 0xFF where wave RAM is not accessible.
    pub fn read_buffer(&self, offset: u8) -> (r: u8)
        ensures
            self.accessible() ==> r == self.buffer[self.buffer_index(offset)],
            !self.accessible() ==> r == 0xFF,
    {
        if let Some(index) = self.wave_buffer_index(offset) {
            self.buffer[index]
        } else {
            0xFF
        }
    }

    /// Advance to the next sample; returns the ticks until the next one.
    pub fn clock(&mut self) -> (r: u32)
        requires
            old(self).wf(),
            old(self).frequency <= 0x7FF,
        ensures
            final(self).wf(),
            *final(self) == (WaveChannel {
                buffer_position: ((old(self).buffer_position + 1) % 32) as u8,
                ..*old(self)
            }),
            r == (0x7FF - old(self).frequency) * 4,
    {
        self.clock_position();
        ((0x7FF - self.frequency) as u32) * 4
    }

    /// Restart from the first sample.
    pub fn reset_buffer_index(&mut self)
        ensures
            *final(self) == (WaveChannel { buffer_position: 0, ..*old(self) }),
    {
        self.buffer_position = 0;
    }

    fn clock_position(&mut self)
        requires
            old(self).wf(),
        ensures
            *final(self) == (WaveChannel {
                buffer_position: ((old(self).buffer_position + 1) % 32) as u8,
                ..*old(self)
            }),
    {
        self.buffer_position = (self.buffer_position + 1) % 32;
    }

    /// Index into wave RAM for an access at `offset`; `None` where wave RAM
    /// is not accessible (on DMG while the channel plays).
    fn wave_buffer_index(&self, offset: u8) -> (r: Option<usize>)
        ensures
            r is None <==> !self.accessible(),
            r matches Some(i) ==> i == self.buffer_index(offset) && i < 16,
    {
        if !self.cgb && self.dac_enable && self.channel_enable {
            return None;
        }
        let index = if self.dac_enable && self.channel_enable {
            self.buffer_position / 2
        } else {
            offset
        };
        Some((index % 16) as usize)
    }

    /// The current sample, shifted for the volume.
    pub fn output(&self) -> (r: u8)
        requires
            self.wf(),
            self.volume_shift < 8,
        ensures
            ({
                let byte = self.buffer[self.buffer_position as int / 2];
                let sample = if self.buffer_position % 2 == 0 { byte / 16 } else { byte % 16 };
                r == sample >> self.volume_shift
            }),
    {
        let byte = self.buffer[(self.buffer_position / 2) as usize];
        // the high nibble plays first
        let sample = if self.buffer_position % 2 == 0 {
            byte / 16
        } else {
            byte % 16
        };
        sample >> self.volume_shift
    }

    /// The wave channel is never muted by its envelope.
    pub fn muted(&self) -> (r: bool)
        ensures
            !r,
    {
        false
    }

    /// Enable or disable the channel.
    pub fn set_enable(&mut self, enabled: bool)
        ensures
            *final(self) == (WaveChannel { channel_enable: enabled, ..*old(self) }),
    {
        self.channel_enable = enabled;
    }

    /// If the channel is enabled.
    pub fn enabled(&self) -> (r: bool)
        ensures
            r == self.channel_enable,
    {
        self.channel_enable
    }

    /// Restart the channel from the first sample; returns the ticks after
    /// which the wave gets reloaded.
    pub fn trigger(&mut self) -> (r: u32)
        requires
            old(self).frequency <= 0x7FF,
        ensures
            *final(self) == (WaveChannel { buffer_position: 0, ..*old(self) }),
            r == (0x7FF - old(self).frequency + 3) * 4,
    {
        self.buffer_position = 0;
        // no idea why `3` works here, but with this tests pass and found it
        // in other emulators
        ((0x7FF - self.frequency + 3) as u32) * 4
    }

    /// Enable or disable the channel's DAC.
    pub fn set_dac_enable(&mut self, enabled: bool)
        ensures
            *final(self) == (WaveChannel { dac_enable: enabled, ..*old(self) }),
    {
        self.dac_enable = enabled;
    }

    /// If the channel's DAC is enabled.
    pub fn dac_enabled(&self) -> (r: bool)
        ensures
            r == self.dac_enable,
    {
        self.dac_enable
    }
}

/// Writing wave RAM at an offset and reading the same offset gives back
/// what was written.
pub proof fn lemma_wave_ram_roundtrip(w: WaveChannel, after: WaveChannel, offset: u8, data: u8)
    requires
        after == (WaveChannel { buffer: after.buffer, ..w }),
        after.buffer@ == w.buffer@.update(w.buffer_index(offset), data),
    ensures
        after.buffer[after.buffer_index(offset)] == data,
{
}

} // verus!
