//! Volume envelope of the GG's pulse and noise channels.
use vstd::prelude::*;

verus! {

/// Volume envelope: the volume steps up or down every `period` ticks of
/// the frame sequencer until it reaches 0 or 15.
#[derive(Default)]
pub struct EnvelopGenerator {
    pub starting_volume: u8,
    pub current_volume: u8,
    pub sweep_increase: bool,
    pub period: u8,
    pub envelope_can_run: bool,
    pub counter: u8,
}

/// The value the envelope register reads as.
pub open spec fn register_value(e: EnvelopGenerator) -> int {
    (e.starting_volume % 16) * 16 + (if e.sweep_increase {
        8int
    } else {
        0int
    }) + e.period % 8
}

/// The envelope after a tick of the frame sequencer: the counter counts
/// down, and when it runs out it restarts from the period and the volume
/// steps towards 0 or 15, stopping there.
pub open spec fn clocked(e: EnvelopGenerator) -> EnvelopGenerator {
    let counter = if e.counter > 0 {
        e.counter - 1
    } else {
        0int
    };
    let steps = counter == 0 && e.envelope_can_run && e.period != 0;
    let vol = if !steps {
        e.current_volume as int
    } else if e.sweep_increase {
        if e.current_volume < 15 {
            e.current_volume + 1
        } else {
            15int
        }
    } else if e.current_volume > 0 {
        e.current_volume - 1
    } else {
        0int
    };
    EnvelopGenerator {
        counter: (if counter != 0 {
            counter
        } else if e.period == 0 {
            8
        } else {
            e.period as int
        }) as u8,
        current_volume: vol as u8,
        envelope_can_run: e.envelope_can_run && !(steps && (vol == 0 || vol == 15)),
        ..e
    }
}

/// The envelope after a trigger: restarted from the starting volume.
pub open spec fn retriggered(e: EnvelopGenerator) -> EnvelopGenerator {
    EnvelopGenerator { counter: e.period, current_volume: e.starting_volume, envelope_can_run: true, ..e }
}

/// What can happen to an envelope between register writes.
pub enum EnvelopeStep {
    Clock,
    Trigger,
}

/// The envelope after the given ticks and triggers, in order.
pub open spec fn after_steps(e: EnvelopGenerator, steps: Seq<EnvelopeStep>) -> EnvelopGenerator
    decreases steps.len(),
{
    if steps.len() == 0 {
        e
    } else {
        let prev = after_steps(e, steps.drop_last());
        match steps.last() {
            EnvelopeStep::Clock => clocked(prev),
            EnvelopeStep::Trigger => retriggered(prev),
        }
    }
}

/// Reading the envelope register gives back the value last written, however
/// many ticks and triggers came since; they keep the envelope valid.
pub proof fn lemma_envelope_read_after_steps(e: EnvelopGenerator, data: u8, steps: Seq<EnvelopeStep>)
    requires
        e.wf(),
        e.starting_volume == data / 16,
        e.sweep_increase == ((data / 8) % 2 == 1),
        e.period == data % 8,
    ensures
        after_steps(e, steps).wf(),
        register_value(after_steps(e, steps)) == data,
    decreases steps.len(),
{
    if steps.len() > 0 {
        lemma_envelope_read_after_steps(e, data, steps.drop_last());
    }
}

/// A tick keeps the volume within 0 to 15 and moves it at most one step,
/// up when the envelope increases and down otherwise; with period 0 it
/// stays.
pub proof fn lemma_clock_volume(e: EnvelopGenerator)
    requires
        e.wf(),
    ensures
        clocked(e).wf(),
        clocked(e).current_volume <= 15,
        e.period == 0 ==> clocked(e).current_volume == e.current_volume,
        e.sweep_increase ==> clocked(e).current_volume == e.current_volume || clocked(e).current_volume
            == e.current_volume + 1,
        !e.sweep_increase ==> clocked(e).current_volume == e.current_volume || clocked(e).current_volume
            == e.current_volume - 1,
        register_value(clocked(e)) == register_value(e),
{
}

impl EnvelopGenerator {
    /// Volumes are 4 bits, the period 3 bits, and the counter at most 8.
    pub open spec fn wf(&self) -> bool {
        &&& self.starting_volume <= 15
        &&& self.current_volume <= 15
        &&& self.period <= 7
        &&& self.counter <= 8
    }

    /// Write the envelope register (NRx2).
    pub fn write_envelope_register(&mut self, data: u8)
        ensures
            final(self).wf(),
            final(self).starting_volume == data / 16,
            final(self).current_volume == data / 16,
            final(self).sweep_increase == ((data / 8) % 2 == 1),
            final(self).period == data % 8,
            final(self).counter == data % 8,
            final(self).envelope_can_run == old(self).envelope_can_run,
    {
        self.starting_volume = data / 16;
        self.current_volume = self.starting_volume;
        self.sweep_increase = (data / 8) % 2 == 1;
        self.period = data % 8;
        self.counter = self.period;
    }

    /// Read the envelope register (NRx2).
    pub fn read_envelope_register(&self) -> (r: u8)
        ensures
            r == register_value(*self),
    {
        (self.starting_volume % 16) * 16 + (if self.sweep_increase {
            8
        } else {
            0
        }) + self.period % 8
    }

    /// Current output volume.
    pub fn current_volume(&self) -> (r: u8)
        ensures
            r == self.current_volume,
    {
        self.current_volume
    }

    /// Tick of the frame sequencer.
    pub fn clock(&mut self)
        requires
            old(self).wf(),
        ensures
            final(self).wf(),
            *final(self) == clocked(*old(self)),
    {
        self.counter = self.counter.saturating_sub(1);

        if self.counter == 0 {
            self.counter = self.period;
            if self.counter == 0 {
                self.counter = 8;
            }
            if self.envelope_can_run && self.period != 0 {
                if self.sweep_increase {
                    if self.current_volume < 15 {
                        self.current_volume += 1;
                    }
                } else {
                    self.current_volume = self.current_volume.saturating_sub(1);
                }

                if self.current_volume == 0 || self.current_volume == 15 {
                    self.envelope_can_run = false;
                }
            }
        }
    }

    /// Restart the envelope from the starting volume.
    pub fn trigger(&mut self)
        ensures
            *final(self) == retriggered(*old(self)),
    {
        self.counter = self.period;
        self.current_volume = self.starting_volume;
        self.envelope_can_run = true;
    }
}

/// Reading the envelope register gives back the value last written.
pub proof fn lemma_envelope_register_roundtrip(e: EnvelopGenerator, data: u8)
    requires
        e.wf(),
        e.starting_volume == data / 16,
        e.sweep_increase == ((data / 8) % 2 == 1),
        e.period == data % 8,
    ensures
        (e.starting_volume % 16) * 16 + (if e.sweep_increase { 8int } else { 0int }) + e.period % 8
            == data,
{
}

} // verus!
