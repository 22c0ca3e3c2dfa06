//! The device's measuring loop: periods between rising edges of the
//! oscillator become numbered measurements, and host commands switch the
//! discharge transistor and the input-capture prescaler.
use vstd::prelude::*;

use crate::protocol::{Command, Measurement, Prescaler};

verus! {

/// Seconds between two log lines about the measured period.
pub const LOG_INTERVAL_SECS: u64 = 2;

/// The state kept across edges and commands.
#[derive(Debug)]
pub struct MeasureLoop {
    /// Timer value at the previous rising edge.
    pub previous_tick: Option<u32>,
    /// Clock reading, in timer ticks, when the period was last logged.
    pub previous_log: Option<u64>,
    /// Serial number of the next measurement.
    pub serial: u32,
    /// The prescaler in use.
    pub prescaler: Prescaler,
    /// Whether the discharge transistor is switched on.
    pub discharge: bool,
    /// Clock ticks between two log lines.
    pub log_interval: u64,
}

/// What a rising edge produces.
#[derive(Debug)]
pub struct EdgeOutcome {
    /// The measurement to hand to the USB side, if a period was measured.
    pub measurement: Option<Measurement>,
    /// Whether to log the period.
    pub log: bool,
}

/// What a command asks of the hardware.
#[derive(Clone, Copy, Debug, PartialEq, Eq, Structural)]
pub enum CommandEffect {
    /// Set the discharge pin to this level.
    SetDischargePin(bool),
    /// Write this value into the timer's input-capture prescaler field.
    SetCapturePrescaler(u8),
    /// Nothing to change.
    Nothing,
}

/// Whether the period is logged at clock reading `now`.
pub open spec fn log_due(previous_log: Option<u64>, now: u64, log_interval: u64) -> bool {
    match previous_log {
        None => true,
        Some(previous) => now - previous > log_interval,
    }
}

/// An event of the measuring loop: a rising edge at a timer value, seen at
/// a clock reading, or a command from the host.
pub enum MeasureEvent {
    Edge { tick: u32, now: u64 },
    Command(Command),
}

/// The measurement that an event produces in state `m`: a rising edge
/// after an earlier one measures the period between them.
pub open spec fn measurement_of(m: MeasureLoop, event: MeasureEvent) -> Option<Measurement> {
    match event {
        MeasureEvent::Edge { tick, now } => match m.previous_tick {
            Some(previous) => Some(
                Measurement {
                    serial: m.serial,
                    prescaler: m.prescaler,
                    discharge: m.discharge,
                    period: vstd::wrapping::u32_specs::wrapping_sub(tick, previous),
                },
            ),
            None => None,
        },
        MeasureEvent::Command(_) => None,
    }
}

/// The state after an event in state `m`.
pub open spec fn after_event(m: MeasureLoop, event: MeasureEvent) -> MeasureLoop {
    match event {
        MeasureEvent::Edge { tick, now } => match m.previous_tick {
            None => MeasureLoop { previous_tick: Some(tick), ..m },
            Some(_) => MeasureLoop {
                previous_tick: Some(tick),
                previous_log: if log_due(m.previous_log, now, m.log_interval) {
                    Some(now)
                } else {
                    m.previous_log
                },
                serial: vstd::wrapping::u32_specs::wrapping_add(m.serial, 1),
                ..m
            },
        },
        MeasureEvent::Command(Command::SetDischarge(enable)) => MeasureLoop {
            discharge: enable,
            ..m
        },
        MeasureEvent::Command(Command::SetPrescaler(value)) => MeasureLoop {
            prescaler: value,
            ..m
        },
    }
}

/// The measurements that a run of events produces from state `m`, in order.
pub open spec fn measurements(m: MeasureLoop, events: Seq<MeasureEvent>) -> Seq<Measurement>
    decreases events.len(),
{
    if events.len() == 0 {
        Seq::empty()
    } else {
        let rest = measurements(after_event(m, events[0]), events.drop_first());
        match measurement_of(m, events[0]) {
            Some(first) => seq![first] + rest,
            None => rest,
        }
    }
}

/// Whether an event is a command that switches the discharge transistor.
pub open spec fn sets_discharge(event: MeasureEvent) -> bool {
    event matches MeasureEvent::Command(Command::SetDischarge(_))
}

/// Whether an event is a command that sets the prescaler.
pub open spec fn sets_prescaler(event: MeasureEvent) -> bool {
    event matches MeasureEvent::Command(Command::SetPrescaler(_))
}

/// The serial number `n` measurements after one numbered `start`.
pub open spec fn counted_serial(start: u32, n: nat) -> u32
    decreases n,
{
    if n == 0 {
        start
    } else {
        vstd::wrapping::u32_specs::wrapping_add(counted_serial(start, (n - 1) as nat), 1)
    }
}

impl MeasureLoop {
    /// No edge seen yet; the first measurement is number 0, with the
    /// prescaler dividing by 1 and the discharge transistor off.
    pub fn new(log_interval: u64) -> (m: Self)
        ensures
            m.previous_tick is None,
            m.previous_log is None,
            m.serial == 0,
            m.prescaler == Prescaler::Div1,
            !m.discharge,
            m.log_interval == log_interval,
    {
        MeasureLoop {
            previous_tick: None,
            previous_log: None,
            serial: 0,
            prescaler: Prescaler::Div1,
            discharge: false,
            log_interval,
        }
    }

    /// A rising edge at timer value `current_tick`, seen at clock reading
    /// `now`. From the second edge on, the time since the previous edge is
    /// a measurement; the timer wraps around, and so does the serial number.
    pub fn on_rising_edge(&mut self, current_tick: u32, now: u64) -> (out: EdgeOutcome)
        requires
            old(self).previous_tick is Some ==> (old(self).previous_log matches Some(previous)
                ==> previous <= now),
        ensures
            *final(self) == after_event(*old(self), MeasureEvent::Edge { tick: current_tick, now }),
            out.measurement == measurement_of(
                *old(self),
                MeasureEvent::Edge { tick: current_tick, now },
            ),
            final(self).previous_tick == Some(current_tick),
            final(self).prescaler == old(self).prescaler,
            final(self).discharge == old(self).discharge,
            final(self).log_interval == old(self).log_interval,
            old(self).previous_tick is None ==> {
                &&& out.measurement is None
                &&& !out.log
                &&& final(self).serial == old(self).serial
                &&& final(self).previous_log == old(self).previous_log
            },
            old(self).previous_tick matches Some(previous) ==> {
                let log = log_due(old(self).previous_log, now, old(self).log_interval);
                &&& out.measurement matches Some(m) && m == (Measurement {
                    serial: old(self).serial,
                    prescaler: old(self).prescaler,
                    discharge: old(self).discharge,
                    period: vstd::wrapping::u32_specs::wrapping_sub(current_tick, previous),
                })
                &&& out.log == log
                &&& final(self).serial == vstd::wrapping::u32_specs::wrapping_add(
                    old(self).serial,
                    1,
                )
                &&& final(self).previous_log == if log {
                    Some(now)
                } else {
                    old(self).previous_log
                }
            },
    {
        let mut out = EdgeOutcome { measurement: None, log: false };
        if let Some(previous_tick) = self.previous_tick {
            // the timer runs at 1 MHz, so one tick is one microsecond
            let period = current_tick.wrapping_sub(previous_tick);
            let log = match self.previous_log {
                None => true,
                Some(previous_log) => now - previous_log > self.log_interval,
            };
            if log {
                self.previous_log = Some(now);
            }
            out = EdgeOutcome {
                measurement: Some(
                    Measurement {
                        serial: self.serial,
                        prescaler: self.prescaler,
                        discharge: self.discharge,
                        period,
                    },
                ),
                log,
            };
            self.serial = self.serial.wrapping_add(1);
        }
        self.previous_tick = Some(current_tick);
        out
    }

    /// A command from the host. The prescaler is written to the timer only
    /// when it changes.
    pub fn on_command(&mut self, command: Command) -> (effect: CommandEffect)
        ensures
            *final(self) == after_event(*old(self), MeasureEvent::Command(command)),
            final(self).previous_tick == old(self).previous_tick,
            final(self).previous_log == old(self).previous_log,
            final(self).serial == old(self).serial,
            final(self).log_interval == old(self).log_interval,
            match command {
                Command::SetDischarge(enable) => {
                    &&& effect == CommandEffect::SetDischargePin(enable)
                    &&& final(self).discharge == enable
                    &&& final(self).prescaler == old(self).prescaler
                },
                Command::SetPrescaler(value) => {
                    &&& final(self).discharge == old(self).discharge
                    &&& final(self).prescaler == value
                    &&& effect == if value != old(self).prescaler {
                        CommandEffect::SetCapturePrescaler(value.field_value())
                    } else {
                        CommandEffect::Nothing
                    }
                },
            },
    {
        match command {
            Command::SetDischarge(enable) => {
                self.discharge = enable;
                CommandEffect::SetDischargePin(enable)
            },
            Command::SetPrescaler(value) => {
                if value != self.prescaler {
                    let field = value.ic1psc();
                    self.prescaler = value;
                    CommandEffect::SetCapturePrescaler(field)
                } else {
                    CommandEffect::Nothing
                }
            },
        }
    }
}

/// Two measurements taken one after the other carry different serial
/// numbers, so the host never mistakes a new measurement for a repeat.
pub proof fn lemma_successive_serials_differ(serial: u32)
    ensures
        vstd::wrapping::u32_specs::wrapping_add(serial, 1) != serial,
{
}

/// The measured period is the number of timer ticks from the previous edge
/// to the current one, counted around the timer's wrap.
pub proof fn lemma_period_counts_ticks(previous: u32, period: u32)
    ensures
        vstd::wrapping::u32_specs::wrapping_sub(
            vstd::wrapping::u32_specs::wrapping_add(previous, period),
            previous,
        ) == period,
{
}

/// A run that sets no discharge keeps the setting it starts with: every
/// measurement carries it.
pub proof fn lemma_discharge_kept(m: MeasureLoop, events: Seq<MeasureEvent>)
    requires
        forall|i: int| 0 <= i < events.len() ==> !sets_discharge(#[trigger] events[i]),
    ensures
        forall|j: int|
            0 <= j < measurements(m, events).len() ==> (#[trigger] measurements(m, events)[j]).discharge
                == m.discharge,
    decreases events.len(),
{
    if events.len() > 0 {
        let rest = events.drop_first();
        assert forall|i: int| 0 <= i < rest.len() implies !sets_discharge(#[trigger] rest[i]) by {
            assert(rest[i] == events[i + 1]);
        }
        assert(!sets_discharge(events[0]));
        lemma_discharge_kept(after_event(m, events[0]), rest);
    }
}

/// A run that sets no prescaler keeps the one it starts with: every
/// measurement carries it.
pub proof fn lemma_prescaler_kept(m: MeasureLoop, events: Seq<MeasureEvent>)
    requires
        forall|i: int| 0 <= i < events.len() ==> !sets_prescaler(#[trigger] events[i]),
    ensures
        forall|j: int|
            0 <= j < measurements(m, events).len() ==> (#[trigger] measurements(m, events)[j]).prescaler
                == m.prescaler,
    decreases events.len(),
{
    if events.len() > 0 {
        let rest = events.drop_first();
        assert forall|i: int| 0 <= i < rest.len() implies !sets_prescaler(#[trigger] rest[i]) by {
            assert(rest[i] == events[i + 1]);
        }
        assert(!sets_prescaler(events[0]));
        lemma_prescaler_kept(after_event(m, events[0]), rest);
    }
}

/// After the host switches the discharge transistor, every measurement up
/// to the next such command says that it is switched so.
pub proof fn lemma_discharge_command_holds(
    m: MeasureLoop,
    enable: bool,
    events: Seq<MeasureEvent>,
)
    requires
        forall|i: int| 0 <= i < events.len() ==> !sets_discharge(#[trigger] events[i]),
    ensures
        ({
            let run = seq![MeasureEvent::Command(Command::SetDischarge(enable))] + events;
            forall|j: int|
                0 <= j < measurements(m, run).len() ==> (#[trigger] measurements(m, run)[j]).discharge
                    == enable
        }),
{
    let command = MeasureEvent::Command(Command::SetDischarge(enable));
    let run = seq![command] + events;
    assert(run[0] == command);
    assert(run.drop_first() =~= events);
    lemma_discharge_kept(after_event(m, command), events);
}

/// After the host sets the prescaler, every measurement up to the next
/// such command carries that prescaler.
pub proof fn lemma_prescaler_command_holds(
    m: MeasureLoop,
    value: Prescaler,
    events: Seq<MeasureEvent>,
)
    requires
        forall|i: int| 0 <= i < events.len() ==> !sets_prescaler(#[trigger] events[i]),
    ensures
        ({
            let run = seq![MeasureEvent::Command(Command::SetPrescaler(value))] + events;
            forall|j: int|
                0 <= j < measurements(m, run).len() ==> (#[trigger] measurements(m, run)[j]).prescaler
                    == value
        }),
{
    let command = MeasureEvent::Command(Command::SetPrescaler(value));
    let run = seq![command] + events;
    assert(run[0] == command);
    assert(run.drop_first() =~= events);
    lemma_prescaler_kept(after_event(m, command), events);
}

proof fn lemma_counted_serial_shift(start: u32, n: nat)
    ensures
        counted_serial(vstd::wrapping::u32_specs::wrapping_add(start, 1), n) == counted_serial(
            start,
            n + 1,
        ),
    decreases n,
{
    let shifted = vstd::wrapping::u32_specs::wrapping_add(start, 1);
    if n > 0 {
        lemma_counted_serial_shift(start, (n - 1) as nat);
        assert(counted_serial(shifted, n) == vstd::wrapping::u32_specs::wrapping_add(
            counted_serial(shifted, (n - 1) as nat),
            1,
        ));
        assert(counted_serial(start, n + 1) == vstd::wrapping::u32_specs::wrapping_add(
            counted_serial(start, n),
            1,
        ));
    } else {
        assert(counted_serial(start, 1) == vstd::wrapping::u32_specs::wrapping_add(
            counted_serial(start, 0),
            1,
        ));
    }
}

/// Whatever edges and commands come, the measurements are numbered one
/// after the other from the state's serial number on, each one more than
/// the one before, wrapping around.
pub proof fn lemma_serials_count_up(m: MeasureLoop, events: Seq<MeasureEvent>)
    ensures
        forall|j: int|
            0 <= j < measurements(m, events).len() ==> (#[trigger] measurements(m, events)[j]).serial
                == counted_serial(m.serial, j as nat),
    decreases events.len(),
{
    if events.len() > 0 {
        let next = after_event(m, events[0]);
        let rest = measurements(next, events.drop_first());
        lemma_serials_count_up(next, events.drop_first());
        match measurement_of(m, events[0]) {
            Some(first) => {
                let all = measurements(m, events);
                assert(all == seq![first] + rest);
                assert forall|j: int| 0 <= j < all.len() implies (#[trigger] all[j]).serial
                    == counted_serial(m.serial, j as nat) by {
                    if j > 0 {
                        assert(all[j] == rest[j - 1]);
                        lemma_counted_serial_shift(m.serial, (j - 1) as nat);
                    }
                }
            },
            None => {},
        }
    }
}

} // verus!
