//! The frame pipeline of one device: what the writer does with each frame
//! that it drains from the queue.
//!
//! One frame is one turn. A turn connects a disconnected session and
//! resets the display, puts a connected one to sleep while the host
//! hibernates, and otherwise delivers: the frame itself, or a keep-alive
//! command where the frame's checksum is the one last delivered. The
//! pipeline drives the session's primitives and decides, after each, what
//! comes next; the caller performs the link actions in between.
//!
//! A turn ends with `Done(true)` where the device took the frame or the
//! keep-alive command and is awake, and with `Done(false)` where the frame
//! was dropped: the turn went into connecting or into putting the device to
//! sleep, the frame could not be encoded, or the link failed, in which case
//! the session is disconnected and the next turn connects again.

use crate::checksum::{checksum, crc32};
use crate::codec::{encodable, encode_frame, encoded, COMPANION_HEIGHT, COMPANION_WIDTH};
use crate::device::{Device, DeviceView, Link, Stage, BEGIN_FRAME, KEEP_ALIVE, RESET_DISPLAY};
use crate::link::{ActionView, Event, EventView, Step, StepView};
use vstd::prelude::*;
use vstd::slice::slice_to_vec;

verus! {

/// Which primitive of the session a turn is waiting on.
#[derive(Clone, Copy, Debug, PartialEq, Eq, Structural)]
pub enum Phase {
    /// No turn is under way.
    Idle,
    /// The session is connecting.
    Connecting,
    /// The display is being reset after a connect, or before shutting down.
    Resetting,
    /// The device is being put to sleep.
    StandingBy,
    /// The brightness is being applied, before the first delivery.
    Dimming,
    /// The frame is being written.
    Delivering,
    /// A keep-alive command is being sent in place of the frame.
    KeepingAlive,
    /// The session is disconnecting after a failed delivery.
    Dropping,
    /// The device is being woken after a delivery.
    Waking,
}

/// What the writer remembers from frame to frame.
pub struct Pipeline {
    last_sum: Option<u32>,
    brightness_set: bool,
    phase: Phase,
    payload: Vec<u8>,
    sum: u32,
}

/// A pipeline as a value of the model.
pub struct PipelineView {
    /// Checksum of the payload that was last written, if any was since the
    /// session connected or the host resumed.
    pub last_sum: Option<u32>,
    /// Whether the brightness was applied since the session connected.
    pub brightness_set: bool,
    pub phase: Phase,
    /// The payload of the turn under way.
    pub payload: Seq<u8>,
    /// Its checksum.
    pub sum: u32,
}

impl View for Pipeline {
    type V = PipelineView;

    closed spec fn view(&self) -> PipelineView {
        PipelineView {
            last_sum: self.last_sum,
            brightness_set: self.brightness_set,
            phase: self.phase,
            payload: self.payload@,
            sum: self.sum,
        }
    }
}

/// How many primitives can still follow one that is under way in `phase`.
pub open spec fn remaining(phase: Phase) -> nat {
    match phase {
        Phase::Idle => 0,
        Phase::Resetting | Phase::StandingBy | Phase::Dropping | Phase::Waking => 1,
        Phase::Delivering | Phase::KeepingAlive | Phase::Connecting => 2,
        Phase::Dimming => 3,
    }
}

impl PipelineView {
    /// The pipeline of a writer that has not seen a frame yet.
    pub open spec fn fresh() -> PipelineView {
        PipelineView {
            last_sum: None,
            brightness_set: false,
            phase: Phase::Idle,
            payload: Seq::empty(),
            sum: 0,
        }
    }

    /// The same pipeline, waiting on the primitive that `phase` names.
    pub open spec fn enter(self, phase: Phase) -> PipelineView {
        PipelineView { phase, ..self }
    }

    /// Goes on after a primitive of the session answered `started.1`: with
    /// its link action where it has one, with the next decision where the
    /// primitive is already over.
    pub open spec fn follow(self, started: (DeviceView, StepView)) -> (
        PipelineView,
        DeviceView,
        StepView,
    )
        decreases remaining(self.phase), 1nat,
    {
        match started.1 {
            StepView::Perform(action) => (self, started.0, StepView::Perform(action)),
            StepView::Done(ok) => self.settle(started.0, ok),
            StepView::Reading(_, _) => self.settle(started.0, false),
        }
    }

    /// Decides what comes after the primitive that `phase` names, which
    /// ended with `ok`.
    pub open spec fn settle(self, device: DeviceView, ok: bool) -> (
        PipelineView,
        DeviceView,
        StepView,
    )
        decreases remaining(self.phase), 0nat,
    {
        match self.phase {
            Phase::Idle => (self, device, StepView::Done(false)),
            Phase::Connecting => if ok {
                PipelineView {
                    last_sum: None,
                    brightness_set: false,
                    phase: Phase::Resetting,
                    ..self
                }.follow(device.send_command(RESET_DISPLAY))
            } else {
                (self.enter(Phase::Idle), device, StepView::Done(false))
            },
            Phase::Resetting | Phase::StandingBy | Phase::Dropping => (
                self.enter(Phase::Idle),
                device,
                StepView::Done(false),
            ),
            Phase::Dimming => self.deliver(device),
            Phase::Delivering => if ok {
                PipelineView {
                    last_sum: Some(self.sum),
                    phase: Phase::Waking,
                    ..self
                }.follow(device.wake_up())
            } else {
                self.enter(Phase::Dropping).follow(device.disconnect())
            },
            Phase::KeepingAlive => if ok {
                self.enter(Phase::Waking).follow(device.wake_up())
            } else {
                self.enter(Phase::Dropping).follow(device.disconnect())
            },
            Phase::Waking => (self.enter(Phase::Idle), device, StepView::Done(ok)),
        }
    }

    /// Delivers the payload of the turn: as a keep-alive command where its
    /// checksum is the one last delivered, as a frame where it is not.
    pub open spec fn deliver(self, device: DeviceView) -> (PipelineView, DeviceView, StepView)
        decreases 2nat, 2nat,
    {
        if self.last_sum == Some(self.sum) {
            self.enter(Phase::KeepingAlive).follow(device.send_command(KEEP_ALIVE))
        } else {
            self.enter(Phase::Delivering).follow(device.write(self.payload))
        }
    }

    /// Starts a turn for a payload that is ready for the wire.
    pub open spec fn offer_payload(self, device: DeviceView, payload: Seq<u8>, hibernating: bool) -> (
        PipelineView,
        DeviceView,
        StepView,
    ) {
        if !device.connected() {
            self.enter(Phase::Connecting).follow(device.connect())
        } else if hibernating {
            PipelineView { last_sum: None, phase: Phase::StandingBy, ..self }.follow(
                device.stand_by(),
            )
        } else if !self.brightness_set {
            PipelineView {
                brightness_set: true,
                phase: Phase::Dimming,
                payload,
                sum: crc32(payload),
                ..self
            }.follow(device.set_brightness(device.brightness))
        } else {
            PipelineView { payload, sum: crc32(payload), ..self }.deliver(device)
        }
    }

    /// The payload that a turn for `frame` works with: the frame encoded
    /// for the device where the turn is going to deliver, the frame as it
    /// is where the turn connects or puts the device to sleep.
    pub open spec fn payload_for(device: DeviceView, frame: Seq<u8>, hibernating: bool) -> Option<
        Seq<u8>,
    > {
        if device.connected() && !hibernating {
            encoded(frame, device.image_format, COMPANION_WIDTH, COMPANION_HEIGHT)
        } else {
            Some(frame)
        }
    }

    /// Whether a turn takes `frame` up: always where it connects or puts
    /// the device to sleep; where it delivers, if the frame can be encoded
    /// for the device, which for a WebP device is a frame of the companion
    /// display's size.
    pub open spec fn takes(device: DeviceView, len: nat, hibernating: bool) -> bool {
        !device.connected() || hibernating || encodable(
            len,
            device.image_format,
            COMPANION_WIDTH,
            COMPANION_HEIGHT,
        )
    }

    /// Starts a turn for a frame as the screens render it. A frame that
    /// cannot be encoded for the device is discarded.
    pub open spec fn offer(self, device: DeviceView, frame: Seq<u8>, hibernating: bool) -> (
        PipelineView,
        DeviceView,
        StepView,
    ) {
        match Self::payload_for(device, frame, hibernating) {
            Some(payload) => self.offer_payload(device, payload, hibernating),
            None => (self.enter(Phase::Idle), device, StepView::Done(false)),
        }
    }

    /// Takes the outcome of the link action that was last handed out.
    pub open spec fn resume(self, device: DeviceView, event: EventView) -> (
        PipelineView,
        DeviceView,
        StepView,
    ) {
        if self.phase == Phase::Idle {
            (self, device, StepView::Done(false))
        } else {
            self.follow(device.resume(event))
        }
    }

    /// Starts the last turn of a writer that shuts down: one display reset.
    pub open spec fn shut_down(self, device: DeviceView) -> (PipelineView, DeviceView, StepView) {
        self.enter(Phase::Resetting).follow(device.send_command(RESET_DISPLAY))
    }

    /// Where pipeline and session stand once the outcomes `events` were
    /// taken in, one after the other.
    pub open spec fn run(self, device: DeviceView, events: Seq<EventView>) -> (
        PipelineView,
        DeviceView,
    )
        decreases events.len(),
    {
        if events.len() == 0 {
            (self, device)
        } else {
            let turn = self.resume(device, events[0]);
            turn.0.run(turn.1, events.drop_first())
        }
    }

    /// What holds from the start of a turn that connects until the next
    /// turn: the session is still connecting, or it has connected and the
    /// pipeline remembers neither a checksum nor a brightness, or it has not.
    spec fn connecting(self, device: DeviceView) -> bool {
        match self.phase {
            Phase::Connecting => device.stage == Stage::Listing || device.stage is Opening,
            Phase::Resetting => self.last_sum is None && !self.brightness_set,
            Phase::Idle => device.connected() ==> self.last_sum is None && !self.brightness_set,
            _ => false,
        }
    }

    /// What holds from the start of a turn under hibernation until the
    /// next turn: no checksum is remembered.
    spec fn resting(self) -> bool {
        (self.phase == Phase::StandingBy || self.phase == Phase::Idle) && self.last_sum is None
    }

    /// What holds from the start of a delivery without a remembered
    /// checksum until the next turn: the pipeline is not keeping alive.
    spec fn writing(self) -> bool {
        match self.phase {
            Phase::Dimming => self.last_sum is None,
            Phase::Delivering | Phase::Dropping | Phase::Waking | Phase::Idle => true,
            _ => false,
        }
    }

    /// What holds from the start of a delivery of a payload with checksum
    /// `sum` until the next turn: the session is not reconnecting, and the
    /// pipeline is either still about to deliver that payload, or has
    /// delivered it and remembers its checksum, or has lost the connection.
    spec fn delivering(self, device: DeviceView, sum: u32) -> bool {
        &&& device.stage != Stage::Listing
        &&& !(device.stage is Opening)
        &&& device.link == Link::Disconnected ==> !(device.stage is Sending)
        &&& match self.phase {
            Phase::Dimming | Phase::Delivering => self.sum == sum && self.brightness_set,
            Phase::KeepingAlive | Phase::Waking => self.last_sum == Some(sum)
                && self.brightness_set,
            Phase::Dropping => !device.connected(),
            Phase::Idle => device.connected() ==> self.last_sum == Some(sum)
                && self.brightness_set,
            _ => false,
        }
    }
}

proof fn lemma_delivery_begins(
    pipeline: PipelineView,
    device: DeviceView,
    payload: Seq<u8>,
)
    requires
        device.connected(),
    ensures
        ({
            let turn = pipeline.offer_payload(device, payload, false);
            turn.0.delivering(turn.1, crc32(payload))
        }),
{
    reveal_with_fuel(PipelineView::follow, 4);
    reveal_with_fuel(PipelineView::settle, 4);
    reveal_with_fuel(PipelineView::deliver, 2);
}

proof fn lemma_delivery_goes_on(
    pipeline: PipelineView,
    device: DeviceView,
    event: EventView,
    sum: u32,
)
    requires
        pipeline.delivering(device, sum),
    ensures
        ({
            let turn = pipeline.resume(device, event);
            turn.0.delivering(turn.1, sum)
        }),
{
    reveal_with_fuel(PipelineView::follow, 4);
    reveal_with_fuel(PipelineView::settle, 4);
    reveal_with_fuel(PipelineView::deliver, 2);
    let started = device.resume(event);
    if pipeline.phase == Phase::Dimming && !(started.1 is Perform) {
        // The brightness is through: the delivery itself begins, and ends
        // at once where the session lost its connection meanwhile.
        let turn = pipeline.resume(device, event);
        assert(turn == pipeline.deliver(started.0));
    }
}

proof fn lemma_delivery_runs(
    pipeline: PipelineView,
    device: DeviceView,
    events: Seq<EventView>,
    sum: u32,
)
    requires
        pipeline.delivering(device, sum),
    ensures
        ({
            let end = pipeline.run(device, events);
            end.0.delivering(end.1, sum)
        }),
    decreases events.len(),
{
    if events.len() > 0 {
        lemma_delivery_goes_on(pipeline, device, events[0], sum);
        let turn = pipeline.resume(device, events[0]);
        lemma_delivery_runs(turn.0, turn.1, events.drop_first(), sum);
    }
}

/// A frame that comes again is not written again. Take a connected
/// session and a host that is awake, deliver a payload, and take in any
/// outcomes that end the turn with the session still connected: the turn
/// for the same payload then sends the keep-alive command, and plans no
/// other write.
pub proof fn lemma_repeated_frame_keeps_alive(
    pipeline: PipelineView,
    device: DeviceView,
    payload: Seq<u8>,
    events: Seq<EventView>,
)
    requires
        device.connected(),
        ({
            let first = pipeline.offer_payload(device, payload, false);
            let end = first.0.run(first.1, events);
            end.0.phase == Phase::Idle && end.1.connected()
        }),
    ensures
        ({
            let first = pipeline.offer_payload(device, payload, false);
            let end = first.0.run(first.1, events);
            let second = end.0.offer_payload(end.1, payload, false);
            &&& second.0.phase == Phase::KeepingAlive
            &&& second.1.writes == seq![seq![KEEP_ALIVE]]
            &&& second.2 == StepView::Perform(ActionView::Write { bytes: seq![KEEP_ALIVE] })
        }),
{
    reveal_with_fuel(PipelineView::follow, 4);
    reveal_with_fuel(PipelineView::settle, 4);
    reveal_with_fuel(PipelineView::deliver, 2);
    let first = pipeline.offer_payload(device, payload, false);
    lemma_delivery_begins(pipeline, device, payload);
    lemma_delivery_runs(first.0, first.1, events, crc32(payload));
}

/// A frame with another checksum is written, and its checksum is the one
/// remembered from then on. After a delivery as above, the turn for a
/// payload whose checksum differs begins a frame write: the begin-frame
/// command, then the payload as the device takes it, in chunks. Once
/// outcomes that end this turn with the session still connected are taken
/// in, the pipeline holds the checksum of the second payload.
pub proof fn lemma_changed_frame_is_written(
    pipeline: PipelineView,
    device: DeviceView,
    payload: Seq<u8>,
    events: Seq<EventView>,
    changed: Seq<u8>,
    more_events: Seq<EventView>,
)
    requires
        device.connected(),
        crc32(payload) != crc32(changed),
        ({
            let first = pipeline.offer_payload(device, payload, false);
            let end = first.0.run(first.1, events);
            end.0.phase == Phase::Idle && end.1.connected()
        }),
    ensures
        ({
            let first = pipeline.offer_payload(device, payload, false);
            let end = first.0.run(first.1, events);
            let second = end.0.offer_payload(end.1, changed, false);
            let last = second.0.run(second.1, more_events);
            &&& second.0.phase == Phase::Delivering
            &&& second.1.writes == DeviceView::command_with_payload(
                BEGIN_FRAME,
                end.1.on_wire(changed),
            )
            &&& second.2 == StepView::Perform(ActionView::Write { bytes: seq![BEGIN_FRAME] })
            &&& last.0.phase == Phase::Idle && last.1.connected() ==> last.0.last_sum == Some(
                crc32(changed),
            )
        }),
{
    reveal_with_fuel(PipelineView::follow, 4);
    reveal_with_fuel(PipelineView::settle, 4);
    reveal_with_fuel(PipelineView::deliver, 2);
    let first = pipeline.offer_payload(device, payload, false);
    lemma_delivery_begins(pipeline, device, payload);
    lemma_delivery_runs(first.0, first.1, events, crc32(payload));
    let end = first.0.run(first.1, events);
    let second = end.0.offer_payload(end.1, changed, false);
    lemma_delivery_begins(end.0, end.1, changed);
    lemma_delivery_runs(second.0, second.1, more_events, crc32(changed));
}

impl Pipeline {
    /// The pipeline of a writer that has not seen a frame yet.
    pub fn new() -> (pipeline: Pipeline)
        ensures
            pipeline@ == PipelineView::fresh(),
    {
        Pipeline {
            last_sum: None,
            brightness_set: false,
            phase: Phase::Idle,
            payload: Vec::new(),
            sum: 0,
        }
    }

    /// Whether a turn is under way.
    pub fn is_busy(&self) -> (busy: bool)
        ensures
            busy == (self@.phase != Phase::Idle),
    {
        !matches!(self.phase, Phase::Idle)
    }

    /// Checksum of the payload that was last written, if any.
    pub fn last_sum(&self) -> (sum: Option<u32>)
        ensures
            sum == self@.last_sum,
    {
        self.last_sum
    }

    fn follow(&mut self, device: &mut Device, step: Step) -> (next: Step)
        ensures
            (final(self)@, final(device)@, next@) == old(self)@.follow((old(device)@, step@)),
        decreases remaining(old(self)@.phase), 1nat,
    {
        match step {
            Step::Perform(action) => Step::Perform(action),
            Step::Done(ok) => self.settle(device, ok),
            Step::Reading(_, _) => self.settle(device, false),
        }
    }

    fn settle(&mut self, device: &mut Device, ok: bool) -> (next: Step)
        ensures
            (final(self)@, final(device)@, next@) == old(self)@.settle(old(device)@, ok),
        decreases remaining(old(self)@.phase), 0nat,
    {
        match self.phase {
            Phase::Idle => Step::Done(false),
            Phase::Connecting => {
                if ok {
                    self.last_sum = None;
                    self.brightness_set = false;
                    self.phase = Phase::Resetting;
                    let step = device.send_command(RESET_DISPLAY);
                    self.follow(device, step)
                } else {
                    self.phase = Phase::Idle;
                    Step::Done(false)
                }
            },
            Phase::Resetting | Phase::StandingBy | Phase::Dropping => {
                self.phase = Phase::Idle;
                Step::Done(false)
            },
            Phase::Dimming => self.deliver(device),
            Phase::Delivering => {
                if ok {
                    self.last_sum = Some(self.sum);
                    self.phase = Phase::Waking;
                    let step = device.wake_up();
                    self.follow(device, step)
                } else {
                    self.phase = Phase::Dropping;
                    let step = device.disconnect();
                    self.follow(device, step)
                }
            },
            Phase::KeepingAlive => {
                if ok {
                    self.phase = Phase::Waking;
                    let step = device.wake_up();
                    self.follow(device, step)
                } else {
                    self.phase = Phase::Dropping;
                    let step = device.disconnect();
                    self.follow(device, step)
                }
            },
            Phase::Waking => {
                self.phase = Phase::Idle;
                Step::Done(ok)
            },
        }
    }

    fn deliver(&mut self, device: &mut Device) -> (next: Step)
        ensures
            (final(self)@, final(device)@, next@) == old(self)@.deliver(old(device)@),
        decreases 2nat, 2nat,
    {
        let repeated = match self.last_sum {
            Some(last) => last == self.sum,
            None => false,
        };
        if repeated {
            self.phase = Phase::KeepingAlive;
            let step = device.send_command(KEEP_ALIVE);
            self.follow(device, step)
        } else {
            self.phase = Phase::Delivering;
            let step = device.write(self.payload.as_slice());
            self.follow(device, step)
        }
    }

    /// Starts a turn for a payload that is ready for the wire, and says
    /// how it goes on. A turn that was under way is abandoned.
    pub fn offer_payload(&mut self, device: &mut Device, payload: Vec<u8>, hibernating: bool) -> (next:
        Step)
        ensures
            (final(self)@, final(device)@, next@) == old(self)@.offer_payload(
                old(device)@,
                payload@,
                hibernating,
            ),
    {
        if !device.is_connected() {
            self.phase = Phase::Connecting;
            let step = device.connect();
            self.follow(device, step)
        } else if hibernating {
            self.last_sum = None;
            self.phase = Phase::StandingBy;
            let step = device.stand_by();
            self.follow(device, step)
        } else {
            self.sum = checksum(payload.as_slice());
            self.payload = payload;
            if !self.brightness_set {
                self.brightness_set = true;
                self.phase = Phase::Dimming;
                let step = device.set_brightness(device.brightness());
                self.follow(device, step)
            } else {
                self.deliver(device)
            }
        }
    }

    /// Starts a turn for a frame as the screens render it, and says how it
    /// goes on. A turn that was under way is abandoned. The frame is
    /// discarded only where the turn would deliver it and it cannot be
    /// encoded for the device.
    pub fn offer(&mut self, device: &mut Device, frame: &Vec<u8>, hibernating: bool) -> (next: Step)
        ensures
            (final(self)@, final(device)@, next@) == old(self)@.offer(
                old(device)@,
                frame@,
                hibernating,
            ),
            PipelineView::payload_for(old(device)@, frame@, hibernating) is Some
                <==> PipelineView::takes(old(device)@, frame@.len(), hibernating),
    {
        let payload = if device.is_connected() && !hibernating {
            encode_frame(frame, device.image_format(), COMPANION_WIDTH, COMPANION_HEIGHT)
        } else {
            Some(slice_to_vec(frame.as_slice()))
        };
        match payload {
            Some(payload) => self.offer_payload(device, payload, hibernating),
            None => {
                self.phase = Phase::Idle;
                Step::Done(false)
            },
        }
    }

    /// Takes the outcome of the link action that was last handed out and
    /// says how the turn goes on.
    pub fn resume(&mut self, device: &mut Device, event: Event) -> (next: Step)
        ensures
            (final(self)@, final(device)@, next@) == old(self)@.resume(old(device)@, event@),
    {
        if self.is_busy() {
            let step = device.resume(event);
            self.follow(device, step)
        } else {
            Step::Done(false)
        }
    }

    /// Starts the last turn of a writer that shuts down.
    pub fn shut_down(&mut self, device: &mut Device) -> (next: Step)
        ensures
            (final(self)@, final(device)@, next@) == old(self)@.shut_down(old(device)@),
    {
        self.phase = Phase::Resetting;
        let step = device.send_command(RESET_DISPLAY);
        self.follow(device, step)
    }
}

proof fn lemma_connecting_runs(pipeline: PipelineView, device: DeviceView, events: Seq<EventView>)
    requires
        pipeline.connecting(device),
    ensures
        ({
            let end = pipeline.run(device, events);
            end.0.connecting(end.1)
        }),
    decreases events.len(),
{
    reveal_with_fuel(PipelineView::follow, 3);
    reveal_with_fuel(PipelineView::settle, 3);
    if events.len() > 0 {
        let turn = pipeline.resume(device, events[0]);
        lemma_connecting_runs(turn.0, turn.1, events.drop_first());
    }
}

proof fn lemma_resting_runs(pipeline: PipelineView, device: DeviceView, events: Seq<EventView>)
    requires
        pipeline.resting(),
    ensures
        pipeline.run(device, events).0.resting(),
    decreases events.len(),
{
    reveal_with_fuel(PipelineView::follow, 3);
    reveal_with_fuel(PipelineView::settle, 3);
    if events.len() > 0 {
        let turn = pipeline.resume(device, events[0]);
        lemma_resting_runs(turn.0, turn.1, events.drop_first());
    }
}

proof fn lemma_writing_runs(pipeline: PipelineView, device: DeviceView, events: Seq<EventView>)
    requires
        pipeline.writing(),
    ensures
        pipeline.run(device, events).0.writing(),
    decreases events.len(),
{
    reveal_with_fuel(PipelineView::follow, 4);
    reveal_with_fuel(PipelineView::settle, 4);
    reveal_with_fuel(PipelineView::deliver, 2);
    if events.len() > 0 {
        let turn = pipeline.resume(device, events[0]);
        let started = device.resume(events[0]);
        if pipeline.phase == Phase::Dimming && !(started.1 is Perform) {
            assert(turn == pipeline.deliver(started.0));
        }
        lemma_writing_runs(turn.0, turn.1, events.drop_first());
    }
}

/// Connecting starts afresh. A turn that finds the session disconnected
/// delivers nothing: it connects, and if outcomes that end it leave the
/// session connected, the pipeline remembers no checksum and the
/// brightness is yet to be applied.
pub proof fn lemma_connecting_forgets(
    pipeline: PipelineView,
    device: DeviceView,
    payload: Seq<u8>,
    hibernating: bool,
    events: Seq<EventView>,
)
    requires
        !device.connected(),
    ensures
        ({
            let first = pipeline.offer_payload(device, payload, hibernating);
            let end = first.0.run(first.1, events);
            &&& first.2 == StepView::Perform(ActionView::ListPorts)
            &&& end.0.phase == Phase::Idle && end.1.connected() ==> end.0.last_sum is None
                && !end.0.brightness_set
        }),
{
    reveal_with_fuel(PipelineView::follow, 3);
    reveal_with_fuel(PipelineView::settle, 3);
    let first = pipeline.offer_payload(device, payload, hibernating);
    lemma_connecting_runs(first.0, first.1, events);
}

/// Hibernation forgets the last frame. A turn on a connected session
/// while the host hibernates delivers nothing, and whatever outcomes
/// follow, the pipeline remembers no checksum afterwards.
pub proof fn lemma_hibernating_forgets(
    pipeline: PipelineView,
    device: DeviceView,
    payload: Seq<u8>,
    events: Seq<EventView>,
)
    requires
        device.connected(),
    ensures
        ({
            let first = pipeline.offer_payload(device, payload, true);
            let end = first.0.run(first.1, events);
            &&& first.0.phase == Phase::StandingBy || first.0.phase == Phase::Idle
            &&& end.0.last_sum is None
        }),
{
    reveal_with_fuel(PipelineView::follow, 3);
    reveal_with_fuel(PipelineView::settle, 3);
    let first = pipeline.offer_payload(device, payload, true);
    lemma_resting_runs(first.0, first.1, events);
}

/// The first frame after connecting or after hibernation is always
/// written. A delivery by a pipeline that remembers no checksum never
/// turns to the keep-alive command, whatever the payload and whatever
/// outcomes follow.
pub proof fn lemma_forgotten_frame_is_written(
    pipeline: PipelineView,
    device: DeviceView,
    payload: Seq<u8>,
    events: Seq<EventView>,
)
    requires
        device.connected(),
        pipeline.last_sum is None,
    ensures
        ({
            let first = pipeline.offer_payload(device, payload, false);
            let end = first.0.run(first.1, events);
            &&& first.0.phase != Phase::KeepingAlive
            &&& end.0.phase != Phase::KeepingAlive
            &&& pipeline.brightness_set ==> first.0.phase == Phase::Delivering && first.2
                == StepView::Perform(ActionView::Write { bytes: seq![BEGIN_FRAME] })
        }),
{
    reveal_with_fuel(PipelineView::follow, 4);
    reveal_with_fuel(PipelineView::settle, 4);
    reveal_with_fuel(PipelineView::deliver, 2);
    let first = pipeline.offer_payload(device, payload, false);
    lemma_writing_runs(first.0, first.1, events);
}

} // verus!
