use info_display::device::{
    Device, ImageFormat, Workers, BEGIN_FRAME, DEFAULT_BRIGHTNESS, KEEP_ALIVE, READ_SENSOR,
    RESET_DISPLAY, SET_BRIGHTNESS, SLEEP, WAKE, WAKE_SETTLE_MS,
};
use info_display::link::{Action, Event, Step};
use info_display::packet::frame;
use info_display::transport::{PortInfo, UsbId};

/// A link that answers from a script and records what it was asked to do.
struct FakeLink {
    ports: Vec<PortInfo>,
    openable: Vec<String>,
    opened: Vec<String>,
    closed: usize,
    written: Vec<Vec<u8>>,
    failing_write: Option<usize>,
    reply: Vec<u8>,
    reads: Vec<usize>,
    pauses: Vec<u64>,
}

impl FakeLink {
    fn new() -> FakeLink {
        FakeLink {
            ports: vec![PortInfo {
                name: String::from("/dev/ttyACM0"),
                usb: Some(UsbId { vid: 0x16c0, pid: 0x0483 }),
            }],
            openable: vec![String::from("/dev/ttyACM0")],
            opened: Vec::new(),
            closed: 0,
            written: Vec::new(),
            failing_write: None,
            reply: Vec::new(),
            reads: Vec::new(),
            pauses: Vec::new(),
        }
    }

    fn perform(&mut self, action: Action) -> Event {
        match action {
            Action::ListPorts => Event::Ports(self.ports.clone()),
            Action::OpenPort { name, baud: _, timeout_ms: _ } => {
                let opened = self.openable.contains(&name);
                self.opened.push(name);
                Event::Opened(opened)
            }
            Action::ClosePort => {
                self.closed += 1;
                Event::Closed
            }
            Action::Write { bytes } => {
                let ok = self.failing_write != Some(self.written.len());
                self.written.push(bytes);
                Event::Written(ok)
            }
            Action::ReadExact { len } => {
                self.reads.push(len);
                Event::Received(self.reply.clone())
            }
            Action::Pause { millis } => {
                self.pauses.push(millis);
                Event::Resumed
            }
        }
    }
}

fn drive(device: &mut Device, link: &mut FakeLink, first: Step) -> Step {
    let mut step = first;
    loop {
        match step {
            Step::Perform(action) => {
                let event = link.perform(action);
                step = device.resume(event);
            }
            over => return over,
        }
    }
}

fn primary() -> Device {
    Device::new(String::from("16c00483"), 4_608_000, false, ImageFormat::Raw, true)
}

fn companion() -> Device {
    Device::new(String::from("303a1001"), 921_600, true, ImageFormat::WebP, false)
}

fn connected(mut device: Device) -> Device {
    assert!(device.set_port(true));
    device
}

fn awake(device: Device) -> Device {
    let mut device = connected(device);
    let mut link = FakeLink::new();
    let first = device.wake_up();
    assert_eq!(drive(&mut device, &mut link, first), Step::Done(true));
    device
}

#[test]
fn command_codes() {
    assert_eq!(BEGIN_FRAME, 228);
    assert_eq!(KEEP_ALIVE, 229);
    assert_eq!(RESET_DISPLAY, 17);
    assert_eq!(SLEEP, 18);
    assert_eq!(WAKE, 19);
    assert_eq!(SET_BRIGHTNESS, 20);
    assert_eq!(READ_SENSOR, 205);
    assert_eq!(WAKE_SETTLE_MS, 200);
    assert_eq!(DEFAULT_BRIGHTNESS, 100);
}

#[test]
fn new_session_is_disconnected_and_idle() {
    let device = primary();
    assert!(!device.is_connected());
    assert!(!device.is_awake());
    assert!(!device.is_busy());
    assert_eq!(device.brightness(), 100);
    assert_eq!(device.image_format(), ImageFormat::Raw);
    assert_eq!(companion().image_format(), ImageFormat::WebP);
}

#[test]
fn connect_opens_the_matching_port() {
    let mut device = primary();
    let mut link = FakeLink::new();
    let first = device.connect();
    assert_eq!(first, Step::Perform(Action::ListPorts));
    assert!(device.is_busy());
    let second = device.resume(link.perform(Action::ListPorts));
    assert_eq!(
        second,
        Step::Perform(Action::OpenPort {
            name: String::from("/dev/ttyACM0"),
            baud: 4_608_000,
            timeout_ms: 1000,
        })
    );
    assert_eq!(device.resume(Event::Opened(true)), Step::Done(true));
    assert!(device.is_connected());
    assert!(!device.is_awake());
    assert!(!device.is_busy());
}

#[test]
fn connect_fails_without_a_matching_port() {
    let mut device = companion();
    let mut link = FakeLink::new();
    let first = device.connect();
    assert_eq!(drive(&mut device, &mut link, first), Step::Done(false));
    assert!(!device.is_connected());
    assert!(link.opened.is_empty());
}

#[test]
fn connect_fails_without_any_port() {
    let mut device = primary();
    let mut link = FakeLink::new();
    link.ports.clear();
    let first = device.connect();
    assert_eq!(drive(&mut device, &mut link, first), Step::Done(false));
    assert!(!device.is_connected());
}

#[test]
fn connect_fails_where_enumerating_was_not_answered() {
    let mut device = primary();
    assert_eq!(device.connect(), Step::Perform(Action::ListPorts));
    assert_eq!(device.resume(Event::Closed), Step::Done(false));
    assert!(!device.is_connected());
    assert!(!device.is_busy());
}

#[test]
fn connect_goes_on_to_the_next_candidate_when_opening_fails() {
    let mut device = primary();
    let mut link = FakeLink::new();
    link.ports = vec![
        PortInfo { name: String::from("busy"), usb: Some(UsbId { vid: 0x16c0, pid: 0x0483 }) },
        PortInfo { name: String::from("serial"), usb: None },
        PortInfo { name: String::from("other"), usb: Some(UsbId { vid: 1, pid: 2 }) },
        PortInfo { name: String::from("free"), usb: Some(UsbId { vid: 0x16c0, pid: 0x0483 }) },
    ];
    link.openable = vec![String::from("free"), String::from("other"), String::from("serial")];
    let first = device.connect();
    assert_eq!(drive(&mut device, &mut link, first), Step::Done(true));
    assert_eq!(link.opened, vec![String::from("busy"), String::from("free")]);
    assert!(device.is_connected());
}

#[test]
fn connect_fails_when_no_candidate_opens() {
    let mut device = primary();
    let mut link = FakeLink::new();
    link.openable.clear();
    let first = device.connect();
    assert_eq!(drive(&mut device, &mut link, first), Step::Done(false));
    assert_eq!(link.opened, vec![String::from("/dev/ttyACM0")]);
    assert!(!device.is_connected());
}

#[test]
fn failed_reconnect_leaves_the_session_disconnected() {
    let mut device = awake(primary());
    let mut link = FakeLink::new();
    link.ports.clear();
    let first = device.connect();
    assert!(device.is_connected());
    assert_eq!(drive(&mut device, &mut link, first), Step::Done(false));
    assert!(!device.is_connected());
}

#[test]
fn connecting_finds_the_device_asleep() {
    let mut device = awake(primary());
    assert!(device.is_awake());
    let mut link = FakeLink::new();
    let first = device.connect();
    assert_eq!(drive(&mut device, &mut link, first), Step::Done(true));
    assert!(device.is_connected());
    assert!(!device.is_awake());
}

#[test]
fn disconnect_drops_the_handle() {
    let mut device = awake(primary());
    let mut link = FakeLink::new();
    let first = device.disconnect();
    assert_eq!(first, Step::Perform(Action::ClosePort));
    assert!(!device.is_connected());
    assert_eq!(drive(&mut device, &mut link, first), Step::Done(true));
    assert_eq!(link.closed, 1);
    assert!(!device.is_connected());
    assert!(!device.is_awake());
    assert!(!device.is_busy());
}

#[test]
fn command_is_one_write_of_one_byte() {
    let mut device = connected(primary());
    let mut link = FakeLink::new();
    let first = device.send_command(42);
    assert_eq!(first, Step::Perform(Action::Write { bytes: vec![42] }));
    assert_eq!(drive(&mut device, &mut link, first), Step::Done(true));
    assert_eq!(link.written, vec![vec![42u8]]);
    assert!(!device.is_busy());
}

#[test]
fn command_fails_while_disconnected() {
    let mut device = primary();
    assert_eq!(device.send_command(42), Step::Done(false));
    assert!(!device.is_busy());
}

#[test]
fn failed_command_does_not_disconnect() {
    let mut device = connected(primary());
    let mut link = FakeLink::new();
    link.failing_write = Some(0);
    let first = device.send_command(42);
    assert_eq!(drive(&mut device, &mut link, first), Step::Done(false));
    assert!(device.is_connected());
    assert_eq!(link.closed, 0);
}

#[test]
fn reset_display_sends_its_code() {
    let mut device = connected(primary());
    let mut link = FakeLink::new();
    let first = device.reset_display();
    assert_eq!(drive(&mut device, &mut link, first), Step::Done(true));
    assert_eq!(link.written, vec![vec![17u8]]);
}

#[test]
fn frame_goes_out_raw_in_chunks_after_the_command() {
    let mut device = connected(primary());
    let mut link = FakeLink::new();
    let payload: Vec<u8> = (0..150u8).collect();
    let first = device.write(&payload);
    assert_eq!(first, Step::Perform(Action::Write { bytes: vec![228] }));
    assert_eq!(drive(&mut device, &mut link, first), Step::Done(true));
    assert_eq!(link.written.len(), 4);
    assert_eq!(link.written[0], vec![228u8]);
    assert_eq!(link.written[1], payload[0..64].to_vec());
    assert_eq!(link.written[2], payload[64..128].to_vec());
    assert_eq!(link.written[3], payload[128..150].to_vec());
    assert!(device.is_connected());
}

#[test]
fn frame_of_any_size_takes_its_share_of_writes() {
    for len in [0usize, 1, 63, 64, 65, 128, 129, 8192] {
        let mut device = connected(primary());
        let mut link = FakeLink::new();
        let payload: Vec<u8> = (0..len).map(|i| (i % 256) as u8).collect();
        let first = device.write(&payload);
        assert_eq!(drive(&mut device, &mut link, first), Step::Done(true));
        assert_eq!(link.written.len(), 1 + (len + 63) / 64);
        assert!(link.written[1..].iter().all(|chunk| chunk.len() <= 64));
        assert_eq!(link.written[1..].concat(), payload);
    }
}

#[test]
fn frame_goes_out_in_an_envelope_where_the_device_takes_packets() {
    let mut device = connected(companion());
    let mut link = FakeLink::new();
    let payload: Vec<u8> = (0..100u8).collect();
    let first = device.write(&payload);
    assert_eq!(drive(&mut device, &mut link, first), Step::Done(true));
    assert_eq!(link.written[0], vec![228u8]);
    assert_eq!(link.written.len(), 3);
    assert_eq!(link.written[1..].concat(), frame(&payload));
}

#[test]
fn frame_is_not_written_while_disconnected() {
    let mut device = primary();
    assert_eq!(device.write(&[1, 2, 3]), Step::Done(false));
}

#[test]
fn frame_stops_when_the_command_fails() {
    let mut device = connected(primary());
    let mut link = FakeLink::new();
    link.failing_write = Some(0);
    let first = device.write(&[1, 2, 3]);
    assert_eq!(drive(&mut device, &mut link, first), Step::Done(false));
    assert_eq!(link.written, vec![vec![228u8]]);
}

#[test]
fn frame_stops_at_the_first_chunk_that_fails() {
    let mut device = connected(primary());
    let mut link = FakeLink::new();
    link.failing_write = Some(2);
    let payload = vec![7u8; 64 * 5];
    let first = device.write(&payload);
    assert_eq!(drive(&mut device, &mut link, first), Step::Done(false));
    assert_eq!(link.written.len(), 3);
    assert!(device.is_connected());
    assert!(!device.is_busy());
}

#[test]
fn brightness_goes_out_in_an_envelope() {
    let mut device = connected(companion());
    let mut link = FakeLink::new();
    let first = device.set_brightness(80);
    assert_eq!(first, Step::Perform(Action::Write { bytes: vec![20] }));
    assert_eq!(drive(&mut device, &mut link, first), Step::Done(true));
    assert_eq!(link.written, vec![vec![20u8], frame(&[80])]);
    assert_eq!(device.brightness(), 80);
}

#[test]
fn brightness_is_unsupported_without_packets() {
    let mut device = connected(primary());
    assert_eq!(device.set_brightness(80), Step::Done(false));
    assert_eq!(device.brightness(), 100);
    assert!(device.is_connected());
}

#[test]
fn brightness_is_remembered_while_disconnected() {
    let mut device = companion();
    assert_eq!(device.set_brightness(33), Step::Done(false));
    assert_eq!(device.brightness(), 33);
}

#[test]
fn failed_brightness_does_not_disconnect() {
    let mut device = connected(companion());
    let mut link = FakeLink::new();
    link.failing_write = Some(1);
    let first = device.set_brightness(80);
    assert_eq!(drive(&mut device, &mut link, first), Step::Done(false));
    assert!(device.is_connected());
}

#[test]
fn wake_up_settles_then_sends_the_wake_command() {
    let mut device = connected(primary());
    let mut link = FakeLink::new();
    let first = device.wake_up();
    assert_eq!(first, Step::Perform(Action::Pause { millis: 200 }));
    assert_eq!(device.resume(Event::Resumed), Step::Perform(Action::Write { bytes: vec![19] }));
    assert_eq!(device.resume(link.perform(Action::Write { bytes: vec![19] })), Step::Done(true));
    assert!(device.is_awake());
}

#[test]
fn wake_up_does_nothing_to_an_awake_device() {
    let mut device = awake(primary());
    assert_eq!(device.wake_up(), Step::Done(true));
    assert!(device.is_awake());
}

#[test]
fn failed_wake_up_disconnects() {
    let mut device = connected(primary());
    let mut link = FakeLink::new();
    link.failing_write = Some(0);
    let first = device.wake_up();
    assert_eq!(drive(&mut device, &mut link, first), Step::Done(false));
    assert_eq!(link.pauses, vec![200]);
    assert_eq!(link.written, vec![vec![19u8]]);
    assert_eq!(link.closed, 1);
    assert!(!device.is_connected());
}

#[test]
fn wake_up_while_disconnected_settles_and_fails() {
    let mut device = primary();
    let mut link = FakeLink::new();
    let first = device.wake_up();
    assert_eq!(drive(&mut device, &mut link, first), Step::Done(false));
    assert_eq!(link.pauses, vec![200]);
    assert!(link.written.is_empty());
    assert!(!device.is_connected());
}

#[test]
fn stand_by_sends_the_sleep_command() {
    let mut device = awake(primary());
    let mut link = FakeLink::new();
    let first = device.stand_by();
    assert_eq!(first, Step::Perform(Action::Write { bytes: vec![18] }));
    assert_eq!(drive(&mut device, &mut link, first), Step::Done(true));
    assert!(device.is_connected());
    assert!(!device.is_awake());
}

#[test]
fn stand_by_does_nothing_to_a_sleeping_device() {
    let mut device = connected(primary());
    assert_eq!(device.stand_by(), Step::Done(true));
    assert!(device.is_connected());
    let mut device = primary();
    assert_eq!(device.stand_by(), Step::Done(true));
}

#[test]
fn failed_stand_by_disconnects() {
    let mut device = awake(primary());
    let mut link = FakeLink::new();
    link.failing_write = Some(0);
    let first = device.stand_by();
    assert_eq!(drive(&mut device, &mut link, first), Step::Done(false));
    assert_eq!(link.closed, 1);
    assert!(!device.is_connected());
    assert!(!device.is_awake());
}

#[test]
fn sensor_is_asked_then_read() {
    let mut device = connected(primary());
    let mut link = FakeLink::new();
    link.reply = b"23.45 45.67\0\0\0".to_vec();
    let first = device.get_bme_info();
    assert_eq!(first, Step::Perform(Action::Write { bytes: vec![205] }));
    assert_eq!(device.resume(Event::Written(true)), Step::Perform(Action::ReadExact { len: 14 }));
    assert_eq!(
        device.resume(link.perform(Action::ReadExact { len: 14 })),
        Step::Reading(String::from("23.45"), String::from("45.67"))
    );
    assert!(!device.is_busy());
}

#[test]
fn sensor_read_that_times_out_is_empty() {
    let mut device = connected(primary());
    let mut link = FakeLink::new();
    let first = device.get_bme_info();
    assert_eq!(
        drive(&mut device, &mut link, first),
        Step::Reading(String::new(), String::new())
    );
    assert_eq!(link.reads, vec![14]);
    assert!(device.is_connected());
}

#[test]
fn sensor_is_not_read_when_the_command_fails() {
    let mut device = connected(primary());
    let mut link = FakeLink::new();
    link.failing_write = Some(0);
    link.reply = b"23.45 45.67\0\0\0".to_vec();
    let first = device.get_bme_info();
    assert_eq!(
        drive(&mut device, &mut link, first),
        Step::Reading(String::new(), String::new())
    );
    assert!(link.reads.is_empty());
}

#[test]
fn device_without_sensor_has_no_reading() {
    let mut device = connected(companion());
    assert_eq!(device.get_bme_info(), Step::Reading(String::new(), String::new()));
}

#[test]
fn disconnected_device_has_no_reading() {
    let mut device = primary();
    assert_eq!(device.get_bme_info(), Step::Reading(String::new(), String::new()));
}

#[test]
fn outcome_without_an_operation_is_refused() {
    let mut device = connected(primary());
    assert_eq!(device.resume(Event::Written(true)), Step::Done(false));
    assert_eq!(device.resume(Event::Opened(true)), Step::Done(false));
    assert!(device.is_connected());
    assert!(!device.is_awake());
}

#[test]
fn unexpected_outcome_counts_as_failure() {
    let mut device = connected(primary());
    assert_eq!(device.write(&[1]), Step::Perform(Action::Write { bytes: vec![228] }));
    assert_eq!(device.resume(Event::Resumed), Step::Done(false));
    assert!(!device.is_busy());
}

#[test]
fn starting_an_operation_abandons_the_one_in_flight() {
    let mut device = connected(primary());
    let mut link = FakeLink::new();
    assert_eq!(device.write(&[1; 200]), Step::Perform(Action::Write { bytes: vec![228] }));
    let first = device.send_command(17);
    assert_eq!(drive(&mut device, &mut link, first), Step::Done(true));
    assert_eq!(link.written, vec![vec![17u8]]);
}

#[test]
fn set_port_records_the_connection() {
    let mut device = primary();
    assert!(device.set_port(true));
    assert!(device.is_connected());
    assert!(!device.set_port(false));
    assert!(!device.is_connected());
}

#[test]
fn set_connected_keeps_an_awake_device_awake() {
    let mut device = awake(primary());
    device.set_connected(true);
    assert!(device.is_awake());
    device.set_connected(false);
    assert!(!device.is_connected());
    device.set_connected(true);
    assert!(device.is_connected());
    assert!(!device.is_awake());
}

#[test]
fn workers_are_claimed_once() {
    let mut device = primary();
    assert_eq!(device.start_background_workers(), Workers { writer: true, sensor: true });
    assert_eq!(device.start_background_workers(), Workers { writer: false, sensor: false });
    assert_eq!(device.start_background_workers(), Workers { writer: false, sensor: false });
}

#[test]
fn device_without_sensor_gets_no_sensor_worker() {
    let mut device = companion();
    assert_eq!(device.start_background_workers(), Workers { writer: true, sensor: false });
}
