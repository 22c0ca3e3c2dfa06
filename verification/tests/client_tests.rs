use capmeter::client::{
    CalibrationAction, CalibrationEvent, CalibrationRun, ClientError, ClientSettings,
    MeasureAttempts, MeasurementFilter, PeriodSum,
};
use capmeter::protocol::{Measurement, Prescaler};

fn measurement(serial: u32) -> Measurement {
    Measurement { serial, prescaler: Prescaler::Div1, discharge: false, period: 100 }
}

#[test]
fn client_settings() {
    let s = ClientSettings::new();
    assert_eq!((s.usb_timeout_ms, s.retry_interval_ms, s.num_retries), (500, 250, 10));
}

#[test]
fn reading_retries_until_a_measurement_comes() {
    let mut a = MeasureAttempts::new(3);
    assert!(a.should_attempt());
    assert!(a.on_reply(None).is_none());
    match a.on_reply(Some(measurement(4))) {
        Some(Ok(m)) => assert_eq!(m.serial, 4),
        _ => panic!("expected the measurement"),
    }
}

#[test]
fn reading_gives_up_after_the_retries() {
    let mut a = MeasureAttempts::new(2);
    assert!(a.on_reply(None).is_none());
    assert!(matches!(a.on_reply(None), Some(Err(ClientError::NoMeasurement))));
    assert!(!a.should_attempt());
    assert!(!MeasureAttempts::new(0).should_attempt());
}

#[test]
fn repeated_measurements_are_dropped() {
    let mut f = MeasurementFilter::new();
    let passed: Vec<u32> = [1, 1, 2, 2, 2, 3, 1]
        .into_iter()
        .filter(|serial| f.observe(*serial))
        .collect();
    assert_eq!(passed, vec![1, 2, 3, 1]);
}

#[test]
fn average_needs_all_measurements() {
    let mut s = PeriodSum::new(3);
    for period in [10, 20, 30] {
        assert!(s.wants_more());
        s.add(period);
    }
    assert!(!s.wants_more());
    assert_eq!(s.finish().unwrap(), (60, 3));
    let mut short = PeriodSum::new(3);
    short.add(5);
    assert!(matches!(short.finish(), Err(ClientError::NoMeasurement)));
    assert!(matches!(PeriodSum::new(0).finish(), Err(ClientError::NoMeasurement)));
}

fn run_to_end(run: &mut CalibrationRun, events: &[CalibrationEvent]) -> Vec<CalibrationAction> {
    let mut actions = vec![run.action()];
    for event in events {
        run.advance(*event);
        actions.push(run.action());
    }
    actions
}

#[test]
fn calibration_goes_through_every_capacitor() {
    let s = CalibrationEvent::Succeeded;
    let mut run = CalibrationRun::new(2);
    let actions = run_to_end(&mut run, &[s; 13]);
    assert_eq!(
        actions,
        vec![
            CalibrationAction::SetPrescaler,
            CalibrationAction::EnableDischarge { index: 0 },
            CalibrationAction::Wait { seconds: 1 },
            CalibrationAction::PromptSwap { index: 0 },
            CalibrationAction::DisableDischarge { index: 0 },
            CalibrationAction::Wait { seconds: 1 },
            CalibrationAction::ReadAverage { index: 0 },
            CalibrationAction::EnableDischarge { index: 1 },
            CalibrationAction::Wait { seconds: 1 },
            CalibrationAction::PromptSwap { index: 1 },
            CalibrationAction::DisableDischarge { index: 1 },
            CalibrationAction::Wait { seconds: 1 },
            CalibrationAction::ReadAverage { index: 1 },
            CalibrationAction::Finish { partial: false },
        ]
    );
}

#[test]
fn declined_prompt_ends_calibration_partial() {
    let s = CalibrationEvent::Succeeded;
    let mut run = CalibrationRun::new(3);
    let actions = run_to_end(&mut run, &[s, s, s, CalibrationEvent::Declined]);
    assert_eq!(actions.last(), Some(&CalibrationAction::Finish { partial: true }));
}

#[test]
fn failing_step_ends_or_aborts_calibration() {
    let s = CalibrationEvent::Succeeded;
    let f = CalibrationEvent::Failed;
    let mut run = CalibrationRun::new(2);
    let actions = run_to_end(&mut run, &[s, s, s, s, s, s, f]);
    assert_eq!(actions.last(), Some(&CalibrationAction::Finish { partial: true }));
    let mut run = CalibrationRun::new(2);
    let actions = run_to_end(&mut run, &[s, s, s, f]);
    assert_eq!(actions.last(), Some(&CalibrationAction::Abort));
    let mut run = CalibrationRun::new(2);
    let actions = run_to_end(&mut run, &[f]);
    assert_eq!(actions.last(), Some(&CalibrationAction::Abort));
    let mut run = CalibrationRun::new(0);
    let actions = run_to_end(&mut run, &[s]);
    assert_eq!(actions.last(), Some(&CalibrationAction::Finish { partial: false }));
}
