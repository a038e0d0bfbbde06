//! The vocabulary between the session and whoever owns the serial port:
//! the session hands out one `Action` at a time and takes back one `Event`
//! that says what came of it.

use crate::transport::PortInfo;
use vstd::prelude::*;

verus! {

/// One thing to do on the link.
#[derive(Clone, Debug, PartialEq, Eq)]
pub enum Action {
    /// Enumerate the serial ports. Answered by `Event::Ports`.
    ListPorts,
    /// Open the named port, with this baud rate and this read and write
    /// timeout. Answered by `Event::Opened`.
    OpenPort { name: String, baud: u32, timeout_ms: u64 },
    /// Drop the port handle. Answered by `Event::Closed`.
    ClosePort,
    /// Write these bytes in one write. Answered by `Event::Written`.
    Write { bytes: Vec<u8> },
    /// Read exactly `len` bytes. Answered by `Event::Received`.
    ReadExact { len: usize },
    /// Wait this long. Answered by `Event::Resumed`.
    Pause { millis: u64 },
}

/// An `Action` as a value of the model.
pub enum ActionView {
    ListPorts,
    OpenPort { name: Seq<char>, baud: u32, timeout_ms: u64 },
    ClosePort,
    Write { bytes: Seq<u8> },
    ReadExact { len: usize },
    Pause { millis: u64 },
}

impl View for Action {
    type V = ActionView;

    open spec fn view(&self) -> ActionView {
        match *self {
            Action::ListPorts => ActionView::ListPorts,
            Action::OpenPort { name, baud, timeout_ms } => ActionView::OpenPort {
                name: name@,
                baud,
                timeout_ms,
            },
            Action::ClosePort => ActionView::ClosePort,
            Action::Write { bytes } => ActionView::Write { bytes: bytes@ },
            Action::ReadExact { len } => ActionView::ReadExact { len },
            Action::Pause { millis } => ActionView::Pause { millis },
        }
    }
}

/// What came of the last `Action`.
#[derive(Clone, Debug, PartialEq, Eq)]
pub enum Event {
    /// The enumerated ports; none where enumerating failed.
    Ports(Vec<PortInfo>),
    /// Whether the port could be opened.
    Opened(bool),
    /// The handle is gone.
    Closed,
    /// Whether the write went through. A timeout counts as not.
    Written(bool),
    /// The bytes read; empty on a timeout or an error.
    Received(Vec<u8>),
    /// The pause is over.
    Resumed,
}

/// An `Event` as a value of the model.
pub enum EventView {
    Ports(Seq<PortInfo>),
    Opened(bool),
    Closed,
    Written(bool),
    Received(Seq<u8>),
    Resumed,
}

impl View for Event {
    type V = EventView;

    open spec fn view(&self) -> EventView {
        match *self {
            Event::Ports(ports) => EventView::Ports(ports@),
            Event::Opened(opened) => EventView::Opened(opened),
            Event::Closed => EventView::Closed,
            Event::Written(written) => EventView::Written(written),
            Event::Received(bytes) => EventView::Received(bytes@),
            Event::Resumed => EventView::Resumed,
        }
    }
}

/// How an operation of the session goes on: with one more action on the
/// link, or no further, with its result.
#[derive(Clone, Debug, PartialEq, Eq)]
pub enum Step {
    /// Do this, then hand the event to `resume`.
    Perform(Action),
    /// The operation is over; `true` where it succeeded.
    Done(bool),
    /// A sensor read is over, with its two fields (empty where it failed).
    Reading(String, String),
}

/// A `Step` as a value of the model.
pub enum StepView {
    Perform(ActionView),
    Done(bool),
    Reading(Seq<char>, Seq<char>),
}

impl View for Step {
    type V = StepView;

    open spec fn view(&self) -> StepView {
        match *self {
            Step::Perform(action) => StepView::Perform(action@),
            Step::Done(ok) => StepView::Done(ok),
            Step::Reading(first, second) => StepView::Reading(first@, second@),
        }
    }
}

} // verus!
