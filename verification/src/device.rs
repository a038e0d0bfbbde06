//! The device session: one display's connection state and the command
//! primitives that the frame pipeline builds on.
//!
//! A session never touches the port. Each primitive starts an operation
//! and says how it goes on: with an action on the link, whose outcome
//! `resume` takes, or no further. Starting a primitive abandons whatever
//! operation was in flight.

use crate::link::{Action, ActionView, Event, EventView, Step, StepView};
use crate::packet::{envelope, frame};
use crate::sensor::{parse_reading, reading, SENSOR_REPLY_LEN};
use crate::transport::{
    chunks, contents, first_match, next_candidate, split_chunks, PortInfo, PORT_TIMEOUT_MS,
};
use vstd::prelude::*;
use vstd::slice::slice_to_vec;

verus! {

/// Command code: a frame follows.
pub const BEGIN_FRAME: u8 = 228;

/// Command code: the content is unchanged, keep displaying it.
pub const KEEP_ALIVE: u8 = 229;

/// Command code: clear the display.
pub const RESET_DISPLAY: u8 = 17;

/// Command code: go to sleep.
pub const SLEEP: u8 = 18;

/// Command code: wake up.
pub const WAKE: u8 = 19;

/// Command code: a brightness level follows.
pub const SET_BRIGHTNESS: u8 = 20;

/// Command code: send a sensor reading.
pub const READ_SENSOR: u8 = 205;

/// How long the device is left to settle before a wake command, in milliseconds.
pub const WAKE_SETTLE_MS: u64 = 200;

/// Brightness of a new session.
pub const DEFAULT_BRIGHTNESS: u8 = 100;

/// The connection state of a session.
#[derive(Clone, Copy, Debug, PartialEq, Eq, Structural)]
pub enum Link {
    Disconnected,
    Asleep,
    Awake,
}

/// The encoding in which a device takes its frames.
#[derive(Clone, Copy, Debug, PartialEq, Eq, Structural)]
pub enum ImageFormat {
    /// The pixel bytes as they are.
    Raw,
    /// A WebP image.
    WebP,
}

/// What a run of link writes is for, which decides what follows it.
#[derive(Clone, Copy, Debug, PartialEq, Eq, Structural)]
pub enum Goal {
    Command,
    Frame,
    Brightness,
    SensorQuery,
    StandBy,
    WakeUp,
}

/// Where the operation in flight stands: which outcome `resume` waits for.
#[derive(Clone, Copy, Debug, PartialEq, Eq, Structural)]
pub enum Stage {
    /// Nothing is in flight.
    Idle,
    /// The ports are being enumerated.
    Listing,
    /// The candidate port at this position is being opened.
    Opening { index: usize },
    /// The handle is being dropped; the operation then ends with `result`.
    Closing { result: bool },
    /// The planned write at position `next` is on the link.
    Sending { next: usize, goal: Goal },
    /// The device is settling before the wake command.
    Settling,
    /// The sensor's reply is being read.
    Receiving,
}

/// Which background workers a caller is to start.
#[derive(Clone, Copy, Debug, PartialEq, Eq, Structural)]
pub struct Workers {
    pub writer: bool,
    pub sensor: bool,
}

/// The session of one physical device.
pub struct Device {
    identifier: String,
    baud: u32,
    use_dada_packet: bool,
    has_bme_sensor: bool,
    image_format: ImageFormat,
    background_workers_started: bool,
    brightness: u8,
    link: Link,
    stage: Stage,
    ports: Vec<PortInfo>,
    writes: Vec<Vec<u8>>,
}

/// A session as a value of the model.
pub struct DeviceView {
    pub identifier: Seq<char>,
    pub baud: u32,
    pub use_dada_packet: bool,
    pub has_bme_sensor: bool,
    pub image_format: ImageFormat,
    pub background_workers_started: bool,
    pub brightness: u8,
    pub link: Link,
    pub stage: Stage,
    /// The ports of the connection attempt in flight.
    pub ports: Seq<PortInfo>,
    /// The link writes of the operation in flight, in order.
    pub writes: Seq<Seq<u8>>,
}

impl View for Device {
    type V = DeviceView;

    closed spec fn view(&self) -> DeviceView {
        DeviceView {
            identifier: self.identifier@,
            baud: self.baud,
            use_dada_packet: self.use_dada_packet,
            has_bme_sensor: self.has_bme_sensor,
            image_format: self.image_format,
            background_workers_started: self.background_workers_started,
            brightness: self.brightness,
            link: self.link,
            stage: self.stage,
            ports: self.ports@,
            writes: contents(self.writes@),
        }
    }
}

/// A sensor read that came to nothing.
pub open spec fn no_reading() -> StepView {
    StepView::Reading(Seq::empty(), Seq::empty())
}

impl DeviceView {
    /// The session as it is created: disconnected, idle, at the default brightness.
    pub open spec fn fresh(
        identifier: Seq<char>,
        baud: u32,
        use_dada_packet: bool,
        image_format: ImageFormat,
        has_bme_sensor: bool,
    ) -> DeviceView {
        DeviceView {
            identifier,
            baud,
            use_dada_packet,
            has_bme_sensor,
            image_format,
            background_workers_started: false,
            brightness: DEFAULT_BRIGHTNESS,
            link: Link::Disconnected,
            stage: Stage::Idle,
            ports: Seq::empty(),
            writes: Seq::empty(),
        }
    }

    /// Whether the session holds an open port, asleep or awake.
    pub open spec fn connected(self) -> bool {
        self.link != Link::Disconnected
    }

    /// The same session with nothing in flight.
    pub open spec fn at_rest(self) -> DeviceView {
        DeviceView { stage: Stage::Idle, ..self }
    }

    /// The bytes that carry `payload` to this device: its envelope where
    /// the device takes packets, the payload itself where it does not.
    pub open spec fn on_wire(self, payload: Seq<u8>) -> Seq<u8> {
        if self.use_dada_packet {
            envelope(payload)
        } else {
            payload
        }
    }

    /// The link writes of a command code followed by a payload: the code on
    /// its own, then the payload's chunks.
    pub open spec fn command_with_payload(code: u8, wire: Seq<u8>) -> Seq<Seq<u8>> {
        seq![seq![code]] + chunks(wire)
    }

    /// Puts a non-empty run of writes on the link, the first one at once.
    pub open spec fn send(self, writes: Seq<Seq<u8>>, goal: Goal) -> (DeviceView, StepView) {
        (
            DeviceView { stage: Stage::Sending { next: 0, goal }, writes, ..self },
            StepView::Perform(ActionView::Write { bytes: writes[0] }),
        )
    }

    /// Drops the handle after a failure; the operation then ends unsuccessful.
    pub open spec fn drop_link(self) -> (DeviceView, StepView) {
        (
            DeviceView {
                link: Link::Disconnected,
                stage: Stage::Closing { result: false },
                ..self
            },
            StepView::Perform(ActionView::ClosePort),
        )
    }

    /// Ends a connection attempt without a port.
    pub open spec fn give_up(self) -> (DeviceView, StepView) {
        (DeviceView { link: Link::Disconnected, stage: Stage::Idle, ..self }, StepView::Done(false))
    }

    /// Tries the first port at or after position `from` that has this
    /// device's signature, or gives up where there is none.
    pub open spec fn open_from(self, from: int) -> (DeviceView, StepView) {
        match first_match(self.identifier, self.ports, from) {
            Some(index) => (
                DeviceView { stage: Stage::Opening { index: index as usize }, ..self },
                StepView::Perform(
                    ActionView::OpenPort {
                        name: self.ports[index].name@,
                        baud: self.baud,
                        timeout_ms: PORT_TIMEOUT_MS,
                    },
                ),
            ),
            None => self.give_up(),
        }
    }

    /// What follows a run of writes that ended, all written or not.
    pub open spec fn conclude(self, goal: Goal, written: bool) -> (DeviceView, StepView) {
        match goal {
            Goal::Command | Goal::Frame | Goal::Brightness => (
                self.at_rest(),
                StepView::Done(written),
            ),
            Goal::SensorQuery => if written {
                (
                    DeviceView { stage: Stage::Receiving, ..self },
                    StepView::Perform(ActionView::ReadExact { len: SENSOR_REPLY_LEN }),
                )
            } else {
                (self.at_rest(), no_reading())
            },
            Goal::StandBy => if written {
                (DeviceView { link: Link::Asleep, stage: Stage::Idle, ..self }, StepView::Done(true))
            } else {
                self.drop_link()
            },
            Goal::WakeUp => if written {
                (DeviceView { link: Link::Awake, stage: Stage::Idle, ..self }, StepView::Done(true))
            } else {
                self.drop_link()
            },
        }
    }

    /// Starts a connection attempt: the ports are enumerated first.
    pub open spec fn connect(self) -> (DeviceView, StepView) {
        (DeviceView { stage: Stage::Listing, ..self }, StepView::Perform(ActionView::ListPorts))
    }

    /// Leaves the connected state, whatever it was, and drops the handle.
    pub open spec fn disconnect(self) -> (DeviceView, StepView) {
        (
            DeviceView { link: Link::Disconnected, stage: Stage::Closing { result: true }, ..self },
            StepView::Perform(ActionView::ClosePort),
        )
    }

    /// Sends one command code; fails at once while disconnected.
    pub open spec fn send_command(self, code: u8) -> (DeviceView, StepView) {
        if self.connected() {
            self.send(seq![seq![code]], Goal::Command)
        } else {
            (self.at_rest(), StepView::Done(false))
        }
    }

    /// Sends a frame: the begin-frame command, then the payload as this
    /// device takes it, in chunks.
    pub open spec fn write(self, payload: Seq<u8>) -> (DeviceView, StepView) {
        if self.connected() {
            self.send(
                Self::command_with_payload(BEGIN_FRAME, self.on_wire(payload)),
                Goal::Frame,
            )
        } else {
            (self.at_rest(), StepView::Done(false))
        }
    }

    /// Sets the brightness on a device that takes packets; the other kind
    /// reports failure and keeps its state.
    pub open spec fn set_brightness(self, level: u8) -> (DeviceView, StepView) {
        if !self.use_dada_packet {
            (self.at_rest(), StepView::Done(false))
        } else if self.connected() {
            DeviceView { brightness: level, ..self }.send(
                Self::command_with_payload(SET_BRIGHTNESS, envelope(seq![level])),
                Goal::Brightness,
            )
        } else {
            (DeviceView { brightness: level, stage: Stage::Idle, ..self }, StepView::Done(false))
        }
    }

    /// Puts an awake device to sleep; does nothing to one that is not awake.
    pub open spec fn stand_by(self) -> (DeviceView, StepView) {
        if self.link == Link::Awake {
            self.send(seq![seq![SLEEP]], Goal::StandBy)
        } else {
            (self.at_rest(), StepView::Done(true))
        }
    }

    /// Wakes a device that is not awake, after letting it settle.
    pub open spec fn wake_up(self) -> (DeviceView, StepView) {
        if self.link == Link::Awake {
            (self.at_rest(), StepView::Done(true))
        } else {
            (
                DeviceView { stage: Stage::Settling, ..self },
                StepView::Perform(ActionView::Pause { millis: WAKE_SETTLE_MS }),
            )
        }
    }

    /// Asks the sensor for a reading; there is none without a sensor or a
    /// connection.
    pub open spec fn get_bme_info(self) -> (DeviceView, StepView) {
        if self.has_bme_sensor && self.connected() {
            self.send(seq![seq![READ_SENSOR]], Goal::SensorQuery)
        } else {
            (self.at_rest(), no_reading())
        }
    }

    /// Takes the outcome of the action that was last handed out.
    pub open spec fn resume(self, event: EventView) -> (DeviceView, StepView) {
        match self.stage {
            Stage::Idle => (self, StepView::Done(false)),
            Stage::Listing => match event {
                EventView::Ports(ports) => DeviceView { ports, ..self }.open_from(0),
                _ => self.give_up(),
            },
            Stage::Opening { index } => match event {
                EventView::Opened(true) => (self.set_port(true).at_rest(), StepView::Done(true)),
                _ => self.open_from(index + 1),
            },
            Stage::Closing { result } => (self.at_rest(), StepView::Done(result)),
            Stage::Sending { next, goal } => match event {
                EventView::Written(true) => if next + 1 < self.writes.len() {
                    (
                        DeviceView {
                            stage: Stage::Sending { next: (next + 1) as usize, goal },
                            ..self
                        },
                        StepView::Perform(ActionView::Write { bytes: self.writes[next + 1] }),
                    )
                } else {
                    self.conclude(goal, true)
                },
                _ => self.conclude(goal, false),
            },
            Stage::Settling => if self.connected() {
                self.send(seq![seq![WAKE]], Goal::WakeUp)
            } else {
                (self.at_rest(), StepView::Done(false))
            },
            Stage::Receiving => match event {
                EventView::Received(bytes) => (
                    self.at_rest(),
                    StepView::Reading(reading(bytes).0, reading(bytes).1),
                ),
                _ => (self.at_rest(), no_reading()),
            },
        }
    }

    /// Records whether the session has a port. A port that was just
    /// opened finds the device asleep.
    pub open spec fn set_port(self, present: bool) -> DeviceView {
        DeviceView {
            link: if present {
                Link::Asleep
            } else {
                Link::Disconnected
            },
            ..self
        }
    }

    /// Records the connected flag alone: a session that was connected
    /// stays asleep or awake as it was.
    pub open spec fn set_connected(self, status: bool) -> DeviceView {
        if status == self.connected() {
            self
        } else {
            self.set_port(status)
        }
    }

    /// The session after `times` writes in a row were acknowledged, and
    /// the step that the last acknowledgment was answered with; `start`
    /// where there was none yet.
    pub open spec fn acknowledged(start: (DeviceView, StepView), times: nat) -> (
        DeviceView,
        StepView,
    )
        decreases times,
    {
        if times == 0 {
            start
        } else {
            Self::acknowledged(start, (times - 1) as nat).0.resume(EventView::Written(true))
        }
    }

    /// Claims the background workers: the first claim gets them, later ones
    /// get none.
    pub open spec fn start_background_workers(self) -> (DeviceView, Workers) {
        if self.background_workers_started {
            (self, Workers { writer: false, sensor: false })
        } else {
            (
                DeviceView { background_workers_started: true, ..self },
                Workers { writer: true, sensor: self.has_bme_sensor },
            )
        }
    }
}

fn command_bytes(code: u8) -> (writes: Vec<Vec<u8>>)
    ensures
        writes@.len() == 1,
        contents(writes@) == seq![seq![code]],
{
    let mut command: Vec<u8> = Vec::new();
    command.push(code);
    let mut writes: Vec<Vec<u8>> = Vec::new();
    writes.push(command);
    writes
}

fn command_and_chunks(code: u8, wire: &[u8]) -> (writes: Vec<Vec<u8>>)
    ensures
        writes@.len() >= 1,
        contents(writes@) == DeviceView::command_with_payload(code, wire@),
{
    let mut writes = command_bytes(code);
    let mut rest = split_chunks(wire);
    writes.append(&mut rest);
    writes
}

fn no_reading_step() -> (step: Step)
    ensures
        step@ == no_reading(),
{
    Step::Reading(String::new(), String::new())
}

impl Device {
    /// A new session: disconnected, asleep once connected, at the default
    /// brightness, its workers not yet started.
    pub fn new(
        identifier: String,
        baud: u32,
        use_dada_packet: bool,
        image_format: ImageFormat,
        has_bme_sensor: bool,
    ) -> (device: Device)
        ensures
            device@ == DeviceView::fresh(
                identifier@,
                baud,
                use_dada_packet,
                image_format,
                has_bme_sensor,
            ),
    {
        let device = Device {
            identifier,
            baud,
            use_dada_packet,
            has_bme_sensor,
            image_format,
            background_workers_started: false,
            brightness: DEFAULT_BRIGHTNESS,
            link: Link::Disconnected,
            stage: Stage::Idle,
            ports: Vec::new(),
            writes: Vec::new(),
        };
        assert(contents(device.writes@) =~= Seq::<Seq<u8>>::empty());
        device
    }

    fn send(&mut self, writes: Vec<Vec<u8>>, goal: Goal) -> (step: Step)
        requires
            writes@.len() > 0,
        ensures
            (final(self)@, step@) == old(self)@.send(contents(writes@), goal),
    {
        let first = slice_to_vec(writes[0].as_slice());
        self.writes = writes;
        self.stage = Stage::Sending { next: 0, goal };
        Step::Perform(Action::Write { bytes: first })
    }

    fn drop_link(&mut self) -> (step: Step)
        ensures
            (final(self)@, step@) == old(self)@.drop_link(),
    {
        self.link = Link::Disconnected;
        self.stage = Stage::Closing { result: false };
        Step::Perform(Action::ClosePort)
    }

    fn give_up(&mut self) -> (step: Step)
        ensures
            (final(self)@, step@) == old(self)@.give_up(),
    {
        self.link = Link::Disconnected;
        self.stage = Stage::Idle;
        Step::Done(false)
    }

    fn open_from(&mut self, from: usize) -> (step: Step)
        ensures
            (final(self)@, step@) == old(self)@.open_from(from as int),
    {
        match next_candidate(self.identifier.as_str(), &self.ports, from) {
            Some(index) => {
                let name = self.ports[index].name.clone();
                self.stage = Stage::Opening { index };
                Step::Perform(
                    Action::OpenPort { name, baud: self.baud, timeout_ms: PORT_TIMEOUT_MS },
                )
            },
            None => self.give_up(),
        }
    }

    fn conclude(&mut self, goal: Goal, written: bool) -> (step: Step)
        ensures
            (final(self)@, step@) == old(self)@.conclude(goal, written),
    {
        match goal {
            Goal::Command | Goal::Frame | Goal::Brightness => {
                self.stage = Stage::Idle;
                Step::Done(written)
            },
            Goal::SensorQuery => {
                if written {
                    self.stage = Stage::Receiving;
                    Step::Perform(Action::ReadExact { len: SENSOR_REPLY_LEN })
                } else {
                    self.stage = Stage::Idle;
                    no_reading_step()
                }
            },
            Goal::StandBy => {
                if written {
                    self.link = Link::Asleep;
                    self.stage = Stage::Idle;
                    Step::Done(true)
                } else {
                    self.drop_link()
                }
            },
            Goal::WakeUp => {
                if written {
                    self.link = Link::Awake;
                    self.stage = Stage::Idle;
                    Step::Done(true)
                } else {
                    self.drop_link()
                }
            },
        }
    }

    /// Whether the session holds an open port.
    pub fn is_connected(&self) -> (connected: bool)
        ensures
            connected == self@.connected(),
    {
        !matches!(self.link, Link::Disconnected)
    }

    /// Whether the device is displaying.
    pub fn is_awake(&self) -> (awake: bool)
        ensures
            awake == (self@.link == Link::Awake),
    {
        matches!(self.link, Link::Awake)
    }

    /// The brightness that was last set.
    pub fn brightness(&self) -> (level: u8)
        ensures
            level == self@.brightness,
    {
        self.brightness
    }

    /// The encoding in which this device takes its frames.
    pub fn image_format(&self) -> (format: ImageFormat)
        ensures
            format == self@.image_format,
    {
        self.image_format
    }

    /// Records whether the session has a port, and says so.
    pub fn set_port(&mut self, present: bool) -> (connected: bool)
        ensures
            final(self)@ == old(self)@.set_port(present),
            connected == present,
    {
        self.link = if present {
            Link::Asleep
        } else {
            Link::Disconnected
        };
        present
    }

    /// Records the connected flag.
    pub fn set_connected(&mut self, status: bool)
        ensures
            final(self)@ == old(self)@.set_connected(status),
    {
        if status != self.is_connected() {
            self.set_port(status);
        }
    }

    /// Whether an operation is in flight.
    pub fn is_busy(&self) -> (busy: bool)
        ensures
            busy == (self@.stage != Stage::Idle),
    {
        !matches!(self.stage, Stage::Idle)
    }

    /// Starts a connection attempt.
    pub fn connect(&mut self) -> (step: Step)
        ensures
            (final(self)@, step@) == old(self)@.connect(),
    {
        self.stage = Stage::Listing;
        Step::Perform(Action::ListPorts)
    }

    /// Leaves the connected state and has the handle dropped.
    pub fn disconnect(&mut self) -> (step: Step)
        ensures
            (final(self)@, step@) == old(self)@.disconnect(),
    {
        self.link = Link::Disconnected;
        self.stage = Stage::Closing { result: true };
        Step::Perform(Action::ClosePort)
    }

    /// Sends one command code.
    pub fn send_command(&mut self, command: u8) -> (step: Step)
        ensures
            (final(self)@, step@) == old(self)@.send_command(command),
    {
        if self.is_connected() {
            self.send(command_bytes(command), Goal::Command)
        } else {
            self.stage = Stage::Idle;
            Step::Done(false)
        }
    }

    /// Clears the display.
    pub fn reset_display(&mut self) -> (step: Step)
        ensures
            (final(self)@, step@) == old(self)@.send_command(RESET_DISPLAY),
    {
        self.send_command(RESET_DISPLAY)
    }

    /// Sends a frame.
    pub fn write(&mut self, payload: &[u8]) -> (step: Step)
        ensures
            (final(self)@, step@) == old(self)@.write(payload@),
    {
        if self.is_connected() {
            let writes = if self.use_dada_packet {
                let packet = frame(payload);
                command_and_chunks(BEGIN_FRAME, packet.as_slice())
            } else {
                command_and_chunks(BEGIN_FRAME, payload)
            };
            self.send(writes, Goal::Frame)
        } else {
            self.stage = Stage::Idle;
            Step::Done(false)
        }
    }

    /// Sets the brightness.
    pub fn set_brightness(&mut self, brightness: u8) -> (step: Step)
        ensures
            (final(self)@, step@) == old(self)@.set_brightness(brightness),
    {
        if !self.use_dada_packet {
            self.stage = Stage::Idle;
            return Step::Done(false);
        }
        self.brightness = brightness;
        if self.is_connected() {
            let mut level: Vec<u8> = Vec::new();
            level.push(brightness);
            let packet = frame(level.as_slice());
            self.send(command_and_chunks(SET_BRIGHTNESS, packet.as_slice()), Goal::Brightness)
        } else {
            self.stage = Stage::Idle;
            Step::Done(false)
        }
    }

    /// Puts the device to sleep.
    pub fn stand_by(&mut self) -> (step: Step)
        ensures
            (final(self)@, step@) == old(self)@.stand_by(),
    {
        if self.is_awake() {
            self.send(command_bytes(SLEEP), Goal::StandBy)
        } else {
            self.stage = Stage::Idle;
            Step::Done(true)
        }
    }

    /// Wakes the device.
    pub fn wake_up(&mut self) -> (step: Step)
        ensures
            (final(self)@, step@) == old(self)@.wake_up(),
    {
        if self.is_awake() {
            self.stage = Stage::Idle;
            Step::Done(true)
        } else {
            self.stage = Stage::Settling;
            Step::Perform(Action::Pause { millis: WAKE_SETTLE_MS })
        }
    }

    /// Asks the sensor for a reading.
    pub fn get_bme_info(&mut self) -> (step: Step)
        ensures
            (final(self)@, step@) == old(self)@.get_bme_info(),
    {
        if self.has_bme_sensor && self.is_connected() {
            self.send(command_bytes(READ_SENSOR), Goal::SensorQuery)
        } else {
            self.stage = Stage::Idle;
            no_reading_step()
        }
    }

    /// Takes the outcome of the action that was last handed out and says
    /// how the operation goes on.
    pub fn resume(&mut self, event: Event) -> (step: Step)
        ensures
            (final(self)@, step@) == old(self)@.resume(event@),
    {
        match self.stage {
            Stage::Idle => Step::Done(false),
            Stage::Listing => match event {
                Event::Ports(ports) => {
                    self.ports = ports;
                    self.open_from(0)
                },
                _ => self.give_up(),
            },
            Stage::Opening { index } => match event {
                Event::Opened(true) => {
                    self.set_port(true);
                    self.stage = Stage::Idle;
                    Step::Done(true)
                },
                _ => {
                    if index < self.ports.len() {
                        self.open_from(index + 1)
                    } else {
                        self.give_up()
                    }
                },
            },
            Stage::Closing { result } => {
                self.stage = Stage::Idle;
                Step::Done(result)
            },
            Stage::Sending { next, goal } => match event {
                Event::Written(true) => {
                    let planned = self.writes.len();
                    if next < planned && next + 1 < planned {
                        let bytes = slice_to_vec(self.writes[next + 1].as_slice());
                        self.stage = Stage::Sending { next: next + 1, goal };
                        Step::Perform(Action::Write { bytes })
                    } else {
                        self.conclude(goal, true)
                    }
                },
                _ => self.conclude(goal, false),
            },
            Stage::Settling => {
                if self.is_connected() {
                    self.send(command_bytes(WAKE), Goal::WakeUp)
                } else {
                    self.stage = Stage::Idle;
                    Step::Done(false)
                }
            },
            Stage::Receiving => match event {
                Event::Received(bytes) => {
                    self.stage = Stage::Idle;
                    let fields = parse_reading(bytes.as_slice());
                    Step::Reading(fields.0, fields.1)
                },
                _ => {
                    self.stage = Stage::Idle;
                    no_reading_step()
                },
            },
        }
    }

    /// Claims the background workers of this session. Only the first claim
    /// gets any, so they are started once.
    pub fn start_background_workers(&mut self) -> (workers: Workers)
        ensures
            (final(self)@, workers) == old(self)@.start_background_workers(),
    {
        if self.background_workers_started {
            Workers { writer: false, sensor: false }
        } else {
            self.background_workers_started = true;
            Workers { writer: true, sensor: self.has_bme_sensor }
        }
    }
}

/// The background workers of a session are started once: whoever claims
/// them after the first claim gets none.
pub proof fn lemma_workers_start_once(device: DeviceView)
    ensures
        device.start_background_workers().0.start_background_workers() == (
            device.start_background_workers().0,
            Workers { writer: false, sensor: false },
        ),
{
}

proof fn lemma_sending_goes_on(device: DeviceView, payload: Seq<u8>, times: nat)
    requires
        device.connected(),
        times < device.write(payload).0.writes.len() <= usize::MAX,
    ensures
        ({
            let started = device.write(payload);
            let now = DeviceView::acknowledged(started, times);
            &&& now.0 == DeviceView {
                stage: Stage::Sending { next: times as usize, goal: Goal::Frame },
                ..started.0
            }
            &&& now.1 == StepView::Perform(ActionView::Write { bytes: started.0.writes[times as int] })
        }),
    decreases times,
{
    if times > 0 {
        lemma_sending_goes_on(device, payload, (times - 1) as nat);
    }
}

/// A frame goes out whole, in order, and only as far as the link takes it.
/// On a connected session the writes of a frame are the begin-frame
/// command and then the chunks of the payload as the device takes it. As
/// long as each write is acknowledged the session hands out the next one;
/// after the last it reports success. The first write that fails ends the
/// operation at once, unsuccessful, and the session stays connected.
pub proof fn lemma_frame_goes_out_in_chunks(device: DeviceView, payload: Seq<u8>, written: nat)
    requires
        device.connected(),
        written < device.write(payload).0.writes.len() <= usize::MAX,
    ensures
        ({
            let started = device.write(payload);
            let plan = started.0.writes;
            let so_far = DeviceView::acknowledged(started, written);
            let done = DeviceView::acknowledged(started, plan.len());
            let failed = so_far.0.resume(EventView::Written(false));
            &&& plan == seq![seq![BEGIN_FRAME]] + chunks(device.on_wire(payload))
            &&& plan.len() == 1 + chunks(device.on_wire(payload)).len()
            &&& so_far.1 == StepView::Perform(ActionView::Write { bytes: plan[written as int] })
            &&& done.1 == StepView::Done(true)
            &&& done.0 == started.0.at_rest()
            &&& failed.1 == StepView::Done(false)
            &&& failed.0 == started.0.at_rest()
        }),
{
    let started = device.write(payload);
    let plan = started.0.writes;
    lemma_sending_goes_on(device, payload, written);
    lemma_sending_goes_on(device, payload, (plan.len() - 1) as nat);
}

} // verus!
