use capmeter::control::{
    command_request, in_response, measurement_request, out_response, ControlHandler, ControlPlan,
    ControlRequest, ControlResponse, Recipient, RequestType,
};
use capmeter::global::Global;
use capmeter::measure::{CommandEffect, MeasureLoop};
use capmeter::protocol::{Command, Measurement, Prescaler};
use capmeter::serial::Serial;
use capmeter::time::{Duration, Instant, MillisCounter, MILLIS_INCREMENT};

#[test]
fn first_edge_only_starts_timing() {
    let mut m = MeasureLoop::new(2_000);
    let out = m.on_rising_edge(100, 0);
    assert!(out.measurement.is_none());
    assert!(!out.log);
    assert_eq!(m.serial, 0);
}

#[test]
fn edges_become_numbered_measurements() {
    let mut m = MeasureLoop::new(2_000);
    m.on_rising_edge(100, 0);
    let out = m.on_rising_edge(350, 10);
    assert_eq!(
        out.measurement,
        Some(Measurement { serial: 0, prescaler: Prescaler::Div1, discharge: false, period: 250 })
    );
    assert!(out.log);
    let out = m.on_rising_edge(600, 20);
    assert_eq!(out.measurement.unwrap().serial, 1);
    assert!(!out.log);
    let out = m.on_rising_edge(700, 2_011);
    assert!(out.log);
    assert_eq!(m.serial, 3);
}

#[test]
fn period_wraps_with_the_timer() {
    let mut m = MeasureLoop::new(2_000);
    m.on_rising_edge(u32::MAX - 9, 0);
    let out = m.on_rising_edge(20, 1);
    assert_eq!(out.measurement.unwrap().period, 30);
}

#[test]
fn serial_number_wraps() {
    let mut m = MeasureLoop::new(0);
    m.serial = u32::MAX;
    m.on_rising_edge(1, 0);
    let out = m.on_rising_edge(2, 0);
    assert_eq!(out.measurement.unwrap().serial, u32::MAX);
    assert_eq!(m.serial, 0);
}

#[test]
fn commands_switch_discharge_and_prescaler() {
    let mut m = MeasureLoop::new(0);
    assert_eq!(m.on_command(Command::SetDischarge(true)), CommandEffect::SetDischargePin(true));
    assert!(m.discharge);
    assert_eq!(m.on_command(Command::SetPrescaler(Prescaler::Div1)), CommandEffect::Nothing);
    assert_eq!(m.on_command(Command::SetPrescaler(Prescaler::Div8)), CommandEffect::SetCapturePrescaler(3));
    assert_eq!(m.prescaler, Prescaler::Div8);
    m.on_rising_edge(0, 0);
    let out = m.on_rising_edge(5, 0);
    assert_eq!(
        out.measurement,
        Some(Measurement { serial: 0, prescaler: Prescaler::Div8, discharge: true, period: 5 })
    );
}

#[test]
fn control_requests_from_the_host_are_handled() {
    let handler = ControlHandler { interface: 0 };
    assert!(handler.filter_request(&measurement_request()));
    assert_eq!(handler.plan(&measurement_request()), ControlPlan::Handle);
    assert_eq!(handler.plan(&command_request(2)), ControlPlan::Handle);
    assert_eq!(measurement_request().length, 256);
}

#[test]
fn other_control_requests_are_not_ours() {
    let handler = ControlHandler { interface: 1 };
    let mut r = ControlRequest {
        request_type: RequestType::Vendor,
        recipient: Recipient::Interface,
        request: 0,
        value: 0,
        index: 1,
        length: 0,
    };
    assert_eq!(handler.plan(&r), ControlPlan::Handle);
    r.index = 0;
    assert_eq!(handler.plan(&r), ControlPlan::NotForUs);
    r.index = 1;
    r.request = 1;
    assert_eq!(handler.plan(&r), ControlPlan::NotForUs);
    r.request = 0;
    r.request_type = RequestType::Class;
    assert_eq!(handler.plan(&r), ControlPlan::NotForUs);
    r.request_type = RequestType::Vendor;
    r.recipient = Recipient::Device;
    assert_eq!(handler.plan(&r), ControlPlan::NotForUs);
}

#[test]
fn control_responses() {
    assert_eq!(in_response(true), ControlResponse::Accepted);
    assert_eq!(in_response(false), ControlResponse::Rejected);
    assert_eq!(out_response(true, true), ControlResponse::Accepted);
    assert_eq!(out_response(true, false), ControlResponse::Rejected);
    assert_eq!(out_response(false, true), ControlResponse::Rejected);
}

#[test]
fn global_lends_the_installed_value() {
    let mut g: Global<u32> = Global::new();
    g.install(7);
    let v = g.acquire();
    assert_eq!(v, 7);
    g.release(v + 1);
    assert_eq!(g.acquire(), 8);
}

#[test]
fn serial_peek_and_read() {
    let mut s = Serial::new();
    assert!(s.needs_poll_to_peek());
    assert_eq!(s.peek_polled(Some(0x41)), Some(0x41));
    assert!(!s.needs_poll_to_peek());
    assert_eq!(s.peek_kept(), Some(0x41));
    let mut read = s.begin_read(4);
    // the peeked byte alone does not end the read
    read.on_poll(None);
    assert!(!read.done());
    read.on_poll(Some(0x42));
    read.on_poll(Some(0x43));
    read.on_poll(None);
    assert!(read.done());
    assert_eq!(read.finish(), vec![0x41, 0x42, 0x43]);
    assert!(s.needs_poll_to_peek());
}

#[test]
fn serial_read_into_empty_buffer() {
    let mut s = Serial::new();
    s.peek_polled(Some(1));
    let read = s.begin_read(0);
    assert!(read.done());
    assert_eq!(read.finish(), Vec::<u8>::new());
    assert_eq!(s.peek_kept(), Some(1));
}

#[test]
fn serial_skip_counts_kept_byte() {
    let mut s = Serial::new();
    s.peek_polled(Some(9));
    let mut skip = s.begin_skip(3);
    assert!(s.needs_poll_to_peek());
    skip.on_poll(Some(1));
    skip.on_poll(None);
    assert!(!skip.is_done());
    skip.on_poll(Some(2));
    assert!(skip.is_done());
    let mut s = Serial::new();
    s.peek_polled(Some(9));
    assert!(s.begin_skip(0).is_done());
    assert_eq!(s.peek_kept(), Some(9));
}

#[test]
fn durations() {
    assert_eq!(Duration::from_secs(3).as_millis(), 3000);
    assert_eq!(Duration::from_millis(2999).as_secs(), 2);
    assert_eq!(Duration::from_millis(42).as_millis(), 42);
    assert!(Duration::from_millis(1) < Duration::from_secs(1));
}

#[test]
fn instants_from_the_counter() {
    let mut counter = MillisCounter::install();
    assert_eq!(MILLIS_INCREMENT, 8);
    let start = Instant::now(&counter);
    assert_eq!(start, Instant::install());
    counter.on_compare_match();
    counter.on_compare_match();
    assert_eq!(counter.millis(), 16);
    assert_eq!(start.elapsed(&counter), Duration::from_millis(16));
    let later = start + Duration::from_millis(10);
    assert_eq!(later - start, Duration::from_millis(10));
    assert_eq!(later - Duration::from_millis(10), start);
    assert!(start < later);
}

#[test]
fn serial_read_stops_when_buffer_is_full() {
    let mut s = Serial::new();
    s.peek_polled(Some(1));
    let read = s.begin_read(1);
    assert!(read.done());
    assert_eq!(read.finish(), vec![1]);

    let mut s = Serial::new();
    let mut read = s.begin_read(2);
    read.on_poll(Some(5));
    assert_eq!(read.len(), 1);
    assert!(!read.done());
    read.on_poll(Some(6));
    assert!(read.done());
    assert_eq!(read.finish(), vec![5, 6]);
}

#[test]
fn durations_order_by_milliseconds() {
    assert!(Duration::from_millis(3) < Duration::from_millis(4));
    assert!(Duration::from_millis(4) <= Duration::from_millis(4));
    assert!(Duration::from_millis(5) > Duration::from_millis(4));
    assert_eq!(Duration::from_millis(2000), Duration::from_secs(2));
    assert_ne!(Duration::from_millis(1), Duration::from_millis(2));
}

#[test]
fn measurements_after_commands_carry_the_new_settings() {
    let mut m = MeasureLoop::new(1_000);
    m.serial = u32::MAX;
    assert!(m.on_rising_edge(10, 0).measurement.is_none());
    assert_eq!(m.on_command(Command::SetDischarge(true)), CommandEffect::SetDischargePin(true));
    assert_eq!(
        m.on_command(Command::SetPrescaler(Prescaler::Div4)),
        CommandEffect::SetCapturePrescaler(Prescaler::Div4.ic1psc())
    );
    assert_eq!(m.on_command(Command::SetPrescaler(Prescaler::Div4)), CommandEffect::Nothing);
    let first = m.on_rising_edge(30, 1).measurement.unwrap();
    let second = m.on_rising_edge(35, 2).measurement.unwrap();
    assert_eq!(
        first,
        Measurement { serial: u32::MAX, prescaler: Prescaler::Div4, discharge: true, period: 20 }
    );
    assert_eq!(
        second,
        Measurement { serial: 0, prescaler: Prescaler::Div4, discharge: true, period: 5 }
    );
    m.on_command(Command::SetDischarge(false));
    let third = m.on_rising_edge(36, 3).measurement.unwrap();
    assert_eq!(third.serial, 1);
    assert!(!third.discharge);
    assert_eq!(third.prescaler, Prescaler::Div4);
}
