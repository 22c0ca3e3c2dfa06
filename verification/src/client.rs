//! Decisions of the host client: retrying a measurement read, dropping
//! repeated measurements, averaging periods, and the calibration procedure.
use vstd::prelude::*;

use crate::protocol::Measurement;

verus! {

/// Errors of the USB client.
#[derive(Debug)]
pub enum ClientError {
    Usb(nusb::Error),
    UsbTransfer(nusb::transfer::TransferError),
    DeviceNotFound,
    Postcard(postcard::Error),
    NoMeasurement,
}

/// Timing of the client's USB requests.
#[derive(Clone, Copy, Debug, PartialEq, Eq, Structural)]
pub struct ClientSettings {
    /// Timeout of one control transfer, in milliseconds.
    pub usb_timeout_ms: u64,
    /// Pause between two attempts to read a measurement, in milliseconds.
    pub retry_interval_ms: u64,
    /// How often a measurement is asked for before giving up.
    pub num_retries: usize,
}

impl ClientSettings {
    /// The settings a client is opened with.
    pub fn new() -> (s: Self)
        ensures
            s.usb_timeout_ms == 500,
            s.retry_interval_ms == 250,
            s.num_retries == 10,
    {
        ClientSettings { usb_timeout_ms: 500, retry_interval_ms: 250, num_retries: 10 }
    }
}

/// Attempts at reading a measurement. The device answers `None` until it
/// has taken one; the read is then tried again, up to a number of times.
#[derive(Debug)]
pub struct MeasureAttempts {
    made: usize,
    num_retries: usize,
}

impl MeasureAttempts {
    /// Attempts made so far.
    pub closed spec fn made(&self) -> usize {
        self.made
    }

    /// Attempts allowed.
    pub closed spec fn allowed(&self) -> usize {
        self.num_retries
    }

    pub fn new(num_retries: usize) -> (a: Self)
        ensures
            a.made() == 0,
            a.allowed() == num_retries,
    {
        MeasureAttempts { made: 0, num_retries }
    }

    /// Whether another request is to be made; when not, the read fails with
    /// `NoMeasurement`.
    pub fn should_attempt(&self) -> (more: bool)
        ensures
            more == (self.made() < self.allowed()),
    {
        self.made < self.num_retries
    }

    /// Takes the device's answer to one request: a measurement ends the
    /// read; no measurement leaves it to the next attempt, if any.
    pub fn on_reply(&mut self, reply: Option<Measurement>) -> (r: Option<
        Result<Measurement, ClientError>,
    >)
        requires
            old(self).made() < old(self).allowed(),
        ensures
            final(self).made() == old(self).made() + 1,
            final(self).allowed() == old(self).allowed(),
            reply matches Some(m) ==> r matches Some(Ok(x)) && x == m,
            reply is None ==> (r is None <==> final(self).made() < final(self).allowed()),
            reply is None && r is Some ==> r matches Some(Err(ClientError::NoMeasurement)),
    {
        self.made = self.made + 1;
        match reply {
            Some(measurement) => Some(Ok(measurement)),
            None => {
                if self.made < self.num_retries {
                    None
                } else {
                    Some(Err(ClientError::NoMeasurement))
                }
            },
        }
    }
}

/// Drops a measurement when it repeats the serial number of the one read
/// just before it.
#[derive(Debug)]
pub struct MeasurementFilter {
    previous_serial: Option<u32>,
}

impl MeasurementFilter {
    /// The serial number read last.
    pub closed spec fn previous(&self) -> Option<u32> {
        self.previous_serial
    }

    pub fn new() -> (f: Self)
        ensures
            f.previous() is None,
    {
        MeasurementFilter { previous_serial: None }
    }

    /// Whether the measurement with this serial number is passed on.
    pub fn observe(&mut self, serial: u32) -> (fresh: bool)
        ensures
            fresh == (old(self).previous() != Some(serial)),
            final(self).previous() == Some(serial),
    {
        let fresh = match self.previous_serial {
            None => true,
            Some(previous) => previous != serial,
        };
        self.previous_serial = Some(serial);
        fresh
    }
}

/// The serial numbers that the filter passes on, from a sequence read.
pub open spec fn passed_on(serials: Seq<u32>) -> Seq<u32>
    decreases serials.len(),
{
    if serials.len() == 0 {
        Seq::empty()
    } else if serials.len() == 1 || serials[serials.len() - 2] != serials.last() {
        passed_on(serials.drop_last()).push(serials.last())
    } else {
        passed_on(serials.drop_last())
    }
}

/// What is passed on never holds the same serial number twice in a row,
/// and ends with the last serial number read.
pub proof fn lemma_passed_on_has_no_repeats(serials: Seq<u32>)
    ensures
        forall|i: int|
            0 <= i < passed_on(serials).len() - 1 ==> #[trigger] passed_on(serials)[i]
                != passed_on(serials)[i + 1],
        serials.len() > 0 ==> passed_on(serials).len() > 0 && passed_on(serials).last()
            == serials.last(),
    decreases serials.len(),
{
    if serials.len() > 0 {
        let rest = serials.drop_last();
        lemma_passed_on_has_no_repeats(rest);
        if serials.len() >= 2 {
            assert(rest.last() == serials[serials.len() - 2]);
        }
        let p = passed_on(rest);
        if serials.len() == 1 || serials[serials.len() - 2] != serials.last() {
            assert forall|i: int| 0 <= i < p.push(serials.last()).len() - 1 implies #[trigger] p.push(
                serials.last(),
            )[i] != p.push(serials.last())[i + 1] by {
                if i + 1 < p.len() {
                    assert(p[i] != p[i + 1]);
                }
            }
        }
    }
}

/// Sum of the periods of a fixed number of measurements, for their
/// average.
#[derive(Debug)]
pub struct PeriodSum {
    sum: u32,
    n: usize,
    count: usize,
}

impl PeriodSum {
    pub closed spec fn sum(&self) -> u32 {
        self.sum
    }

    /// Measurements added so far.
    pub closed spec fn added(&self) -> usize {
        self.n
    }

    /// Measurements wanted.
    pub closed spec fn wanted(&self) -> usize {
        self.count
    }

    pub fn new(count: usize) -> (s: Self)
        ensures
            s.sum() == 0,
            s.added() == 0,
            s.wanted() == count,
    {
        PeriodSum { sum: 0, n: 0, count }
    }

    /// The sum so far.
    pub fn total(&self) -> (sum: u32)
        ensures
            sum == self.sum(),
    {
        self.sum
    }

    /// Whether more measurements are to be taken.
    pub fn wants_more(&self) -> (more: bool)
        ensures
            more == (self.added() < self.wanted()),
    {
        self.n < self.count
    }

    /// Adds one measured period, in microseconds.
    pub fn add(&mut self, period: u32)
        requires
            old(self).added() < old(self).wanted(),
            old(self).sum() + period <= u32::MAX,
        ensures
            final(self).sum() == old(self).sum() + period,
            final(self).added() == old(self).added() + 1,
            final(self).wanted() == old(self).wanted(),
    {
        self.sum = self.sum + period;
        self.n = self.n + 1;
    }

    /// The sum and the number of measurements, when as many were taken as
    /// wanted and at least one was; `NoMeasurement` otherwise, since no
    /// average period can be given of no measurement.
    pub fn finish(&self) -> (r: Result<(u32, usize), ClientError>)
        ensures
            r is Ok <==> self.added() == self.wanted() && self.wanted() > 0,
            r matches Ok((sum, n)) ==> n > 0,
            r matches Ok((sum, n)) ==> sum == self.sum() && n == self.added(),
            r matches Err(e) ==> e is NoMeasurement,
    {
        if self.n == self.count && self.n > 0 {
            Ok((self.sum, self.n))
        } else {
            Err(ClientError::NoMeasurement)
        }
    }
}

/// Seconds to wait after switching the discharge transistor.
pub const SETTLE_SECS: u64 = 1;

/// A step of the calibration procedure, to be carried out by the caller.
#[derive(Clone, Copy, Debug, PartialEq, Eq, Structural)]
pub enum CalibrationAction {
    /// Set the prescaler chosen for the calibration.
    SetPrescaler,
    /// Discharge the capacitor in the fixture before capacitor `index` goes in.
    EnableDischarge { index: usize },
    /// Wait for the circuit to settle.
    Wait { seconds: u64 },
    /// Ask the user to put capacitor `index` into the fixture.
    PromptSwap { index: usize },
    /// Stop discharging so that capacitor `index` can be measured.
    DisableDischarge { index: usize },
    /// Read the average period with capacitor `index` in place and record it.
    ReadAverage { index: usize },
    /// Fit the model to the recorded measurements; `partial` when the
    /// procedure stopped before the last capacitor.
    Finish { partial: bool },
    /// Give up with the error of the last step.
    Abort,
}

/// How a step went.
#[derive(Clone, Copy, Debug, PartialEq, Eq, Structural)]
pub enum CalibrationEvent {
    /// The step was carried out; for a prompt, the user confirmed.
    Succeeded,
    /// The user did not confirm the prompt.
    Declined,
    /// The step failed with an error.
    Failed,
}

/// Where the procedure stands.
#[derive(Clone, Copy, Debug, PartialEq, Eq, Structural)]
pub enum CalibrationPhase {
    SettingPrescaler,
    EnablingDischarge { index: usize },
    SettlingBeforePrompt { index: usize },
    Prompting { index: usize },
    DisablingDischarge { index: usize },
    SettlingBeforeReading { index: usize },
    Reading { index: usize },
    Finished { partial: bool },
    Aborted,
}

/// The step that a phase calls for.
pub open spec fn phase_action(phase: CalibrationPhase) -> CalibrationAction {
    match phase {
        CalibrationPhase::SettingPrescaler => CalibrationAction::SetPrescaler,
        CalibrationPhase::EnablingDischarge { index } => CalibrationAction::EnableDischarge { index },
        CalibrationPhase::SettlingBeforePrompt { .. } => CalibrationAction::Wait { seconds: SETTLE_SECS },
        CalibrationPhase::Prompting { index } => CalibrationAction::PromptSwap { index },
        CalibrationPhase::DisablingDischarge { index } => CalibrationAction::DisableDischarge {
            index,
        },
        CalibrationPhase::SettlingBeforeReading { .. } => CalibrationAction::Wait {
            seconds: SETTLE_SECS,
        },
        CalibrationPhase::Reading { index } => CalibrationAction::ReadAverage { index },
        CalibrationPhase::Finished { partial } => CalibrationAction::Finish { partial },
        CalibrationPhase::Aborted => CalibrationAction::Abort,
    }
}

/// The phase after a step of `phase` went as `event` says, with `count`
/// capacitors to go through. An error setting the prescaler or from the
/// prompt aborts; any other failure, or a declined prompt, ends the
/// procedure as partial.
pub open spec fn next_phase(phase: CalibrationPhase, event: CalibrationEvent, count: usize) -> CalibrationPhase {
    match phase {
        CalibrationPhase::SettingPrescaler => {
            if event is Succeeded {
                if count == 0 {
                    CalibrationPhase::Finished { partial: false }
                } else {
                    CalibrationPhase::EnablingDischarge { index: 0 }
                }
            } else {
                CalibrationPhase::Aborted
            }
        },
        CalibrationPhase::EnablingDischarge { index } => {
            if event is Succeeded {
                CalibrationPhase::SettlingBeforePrompt { index }
            } else {
                CalibrationPhase::Finished { partial: true }
            }
        },
        CalibrationPhase::SettlingBeforePrompt { index } => CalibrationPhase::Prompting { index },
        CalibrationPhase::Prompting { index } => {
            match event {
                CalibrationEvent::Succeeded => CalibrationPhase::DisablingDischarge { index },
                CalibrationEvent::Declined => CalibrationPhase::Finished { partial: true },
                CalibrationEvent::Failed => CalibrationPhase::Aborted,
            }
        },
        CalibrationPhase::DisablingDischarge { index } => {
            if event is Succeeded {
                CalibrationPhase::SettlingBeforeReading { index }
            } else {
                CalibrationPhase::Finished { partial: true }
            }
        },
        CalibrationPhase::SettlingBeforeReading { index } => CalibrationPhase::Reading { index },
        CalibrationPhase::Reading { index } => {
            if event is Succeeded {
                if index + 1 < count {
                    CalibrationPhase::EnablingDischarge { index: (index + 1) as usize }
                } else {
                    CalibrationPhase::Finished { partial: false }
                }
            } else {
                CalibrationPhase::Finished { partial: true }
            }
        },
        CalibrationPhase::Finished { partial } => phase,
        CalibrationPhase::Aborted => phase,
    }
}

/// The index of the capacitor that a phase works on, if any.
pub open spec fn phase_index(phase: CalibrationPhase) -> Option<usize> {
    match phase {
        CalibrationPhase::EnablingDischarge { index } => Some(index),
        CalibrationPhase::SettlingBeforePrompt { index } => Some(index),
        CalibrationPhase::Prompting { index } => Some(index),
        CalibrationPhase::DisablingDischarge { index } => Some(index),
        CalibrationPhase::SettlingBeforeReading { index } => Some(index),
        CalibrationPhase::Reading { index } => Some(index),
        _ => None,
    }
}

/// The calibration procedure: for each capacitor in turn, discharge, let
/// the user swap it in, stop discharging, and record the average period.
#[derive(Debug)]
pub struct CalibrationRun {
    phase: CalibrationPhase,
    count: usize,
    recorded: usize,
}

impl CalibrationRun {
    pub closed spec fn phase(&self) -> CalibrationPhase {
        self.phase
    }

    /// Number of capacitors to go through.
    pub closed spec fn count(&self) -> usize {
        self.count
    }

    /// Number of measurements recorded so far.
    pub closed spec fn recorded(&self) -> usize {
        self.recorded
    }

    /// The capacitor being worked on is the next one to record, and a
    /// finished run is partial exactly when it recorded fewer measurements
    /// than there are capacitors.
    pub open spec fn wf(&self) -> bool {
        &&& self.recorded() <= self.count()
        &&& self.phase() is SettingPrescaler ==> self.recorded() == 0
        &&& phase_index(self.phase()) matches Some(i) ==> i == self.recorded() && i
            < self.count()
        &&& self.phase() matches CalibrationPhase::Finished { partial } ==> partial == (
        self.recorded() < self.count())
    }

    /// Whether the run is over.
    pub open spec fn is_over(&self) -> bool {
        self.phase() is Finished || self.phase() is Aborted
    }

    /// A run over `count` capacitors, about to set the prescaler.
    pub fn new(count: usize) -> (run: Self)
        ensures
            run.wf(),
            run.phase() == CalibrationPhase::SettingPrescaler,
            run.count() == count,
            run.recorded() == 0,
    {
        CalibrationRun { phase: CalibrationPhase::SettingPrescaler, count, recorded: 0 }
    }

    /// The step to carry out now.
    pub fn action(&self) -> (a: CalibrationAction)
        ensures
            a == phase_action(self.phase()),
    {
        match self.phase {
            CalibrationPhase::SettingPrescaler => CalibrationAction::SetPrescaler,
            CalibrationPhase::EnablingDischarge { index } => CalibrationAction::EnableDischarge {
                index,
            },
            CalibrationPhase::SettlingBeforePrompt { .. } => CalibrationAction::Wait {
                seconds: SETTLE_SECS,
            },
            CalibrationPhase::Prompting { index } => CalibrationAction::PromptSwap { index },
            CalibrationPhase::DisablingDischarge { index } => CalibrationAction::DisableDischarge {
                index,
            },
            CalibrationPhase::SettlingBeforeReading { .. } => CalibrationAction::Wait {
                seconds: SETTLE_SECS,
            },
            CalibrationPhase::Reading { index } => CalibrationAction::ReadAverage { index },
            CalibrationPhase::Finished { partial } => CalibrationAction::Finish { partial },
            CalibrationPhase::Aborted => CalibrationAction::Abort,
        }
    }

    /// Moves on after the current step went as `event` says. A successful
    /// reading is recorded.
    pub fn advance(&mut self, event: CalibrationEvent)
        requires
            old(self).wf(),
            !old(self).is_over(),
        ensures
            final(self).wf(),
            final(self).phase() == next_phase(old(self).phase(), event, old(self).count()),
            final(self).count() == old(self).count(),
            final(self).recorded() == if old(self).phase() is Reading && event is Succeeded {
                old(self).recorded() + 1
            } else {
                old(self).recorded() as int
            },
    {
        let count = self.count;
        let succeeded = match event {
            CalibrationEvent::Succeeded => true,
            _ => false,
        };
        if succeeded && matches!(self.phase, CalibrationPhase::Reading { .. }) {
            self.recorded = self.recorded + 1;
        }
        self.phase = match self.phase {
            CalibrationPhase::SettingPrescaler => {
                if succeeded {
                    if count == 0 {
                        CalibrationPhase::Finished { partial: false }
                    } else {
                        CalibrationPhase::EnablingDischarge { index: 0 }
                    }
                } else {
                    CalibrationPhase::Aborted
                }
            },
            CalibrationPhase::EnablingDischarge { index } => {
                if succeeded {
                    CalibrationPhase::SettlingBeforePrompt { index }
                } else {
                    CalibrationPhase::Finished { partial: true }
                }
            },
            CalibrationPhase::SettlingBeforePrompt { index } => CalibrationPhase::Prompting {
                index,
            },
            CalibrationPhase::Prompting { index } => {
                match event {
                    CalibrationEvent::Succeeded => CalibrationPhase::DisablingDischarge { index },
                    CalibrationEvent::Declined => CalibrationPhase::Finished { partial: true },
                    CalibrationEvent::Failed => CalibrationPhase::Aborted,
                }
            },
            CalibrationPhase::DisablingDischarge { index } => {
                if succeeded {
                    CalibrationPhase::SettlingBeforeReading { index }
                } else {
                    CalibrationPhase::Finished { partial: true }
                }
            },
            CalibrationPhase::SettlingBeforeReading { index } => CalibrationPhase::Reading {
                index,
            },
            CalibrationPhase::Reading { index } => {
                if succeeded {
                    if index + 1 < count {
                        CalibrationPhase::EnablingDischarge { index: index + 1 }
                    } else {
                        CalibrationPhase::Finished { partial: false }
                    }
                } else {
                    CalibrationPhase::Finished { partial: true }
                }
            },
            CalibrationPhase::Finished { partial } => CalibrationPhase::Finished { partial },
            CalibrationPhase::Aborted => CalibrationPhase::Aborted,
        };
    }
}

/// A run in which every step succeeds goes through the capacitors in
/// order, one reading each, and finishes complete: from reading capacitor
/// `i`, the next reading is of capacitor `i + 1`, six steps later.
pub proof fn lemma_successful_round(i: usize, count: usize)
    requires
        i + 1 < count,
    ensures
        ({
            let s = CalibrationEvent::Succeeded;
            let p1 = next_phase(CalibrationPhase::Reading { index: i }, s, count);
            let p2 = next_phase(p1, s, count);
            let p3 = next_phase(p2, s, count);
            let p4 = next_phase(p3, s, count);
            let p5 = next_phase(p4, s, count);
            let p6 = next_phase(p5, s, count);
            &&& p1 == CalibrationPhase::EnablingDischarge { index: (i + 1) as usize }
            &&& phase_action(p3) == CalibrationAction::PromptSwap { index: (i + 1) as usize }
            &&& p6 == CalibrationPhase::Reading { index: (i + 1) as usize }
        }),
{
}

/// After the last reading succeeds the run finishes complete; a declined
/// prompt finishes it partial, and an error from the prompt aborts it.
pub proof fn lemma_run_endings(i: usize, count: usize)
    requires
        i < count,
    ensures
        (next_phase(CalibrationPhase::Reading { index: (count - 1) as usize }, CalibrationEvent::Succeeded, count)
            == CalibrationPhase::Finished { partial: false }),
        (next_phase(CalibrationPhase::Prompting { index: i }, CalibrationEvent::Declined, count)
            == CalibrationPhase::Finished { partial: true }),
        (next_phase(CalibrationPhase::Prompting { index: i }, CalibrationEvent::Failed, count)
            == CalibrationPhase::Aborted),
        (next_phase(CalibrationPhase::SettingPrescaler, CalibrationEvent::Failed, count)
            == CalibrationPhase::Aborted),
{
}

/// Only two failures abort a run: a failed prescaler setting and a failed
/// prompt. Every other step that does not succeed, whatever capacitor it
/// is on, ends the run as partial, so the measurements recorded so far are
/// still fitted and saved.
pub proof fn lemma_only_prescaler_and_prompt_errors_abort(
    phase: CalibrationPhase,
    event: CalibrationEvent,
    count: usize,
)
    requires
        !(phase is Finished || phase is Aborted),
    ensures
        ((next_phase(phase, event, count) == CalibrationPhase::Aborted) == ((phase is SettingPrescaler
            && event != CalibrationEvent::Succeeded) || (phase is Prompting && event
            == CalibrationEvent::Failed))),
        ((phase is EnablingDischarge || phase is DisablingDischarge || phase is Reading) && event
            != CalibrationEvent::Succeeded ==> next_phase(phase, event, count)
            == (CalibrationPhase::Finished { partial: true })),
{
}

/// A failed discharge switch or a failed reading, on any capacitor, ends
/// the run as partial and never aborts it.
pub proof fn lemma_failed_capacitor_step_is_partial(i: usize, count: usize)
    ensures
        (next_phase(CalibrationPhase::EnablingDischarge { index: i }, CalibrationEvent::Failed, count)
            == (CalibrationPhase::Finished { partial: true })),
        (next_phase(CalibrationPhase::DisablingDischarge { index: i }, CalibrationEvent::Failed, count)
            == (CalibrationPhase::Finished { partial: true })),
        (next_phase(CalibrationPhase::Reading { index: i }, CalibrationEvent::Failed, count)
            == (CalibrationPhase::Finished { partial: true })),
{
}

/// A run on the capacitors keeps what it recorded when a discharge switch
/// or a reading fails: the step after the failure is to fit and save a
/// partial calibration.
pub proof fn lemma_failure_keeps_recorded(run: CalibrationRun)
    requires
        run.wf(),
        (run.phase() is EnablingDischarge || run.phase() is DisablingDischarge || run.phase() is Reading),
    ensures
        (phase_action(next_phase(run.phase(), CalibrationEvent::Failed, run.count()))
            == (CalibrationAction::Finish { partial: true })),
{
}

} // verus!
