//! Link to the other half of the keyboard: framing of events on the serial
//! line, and which half is the one that the USB host has configured.

use vstd::prelude::*;
use crate::event::Event;

verus! {

/// Serialized size of a key event.
pub const SERIALIZED_SIZE: usize = 4;

/// Buffer size for serialized key events.
pub const SERIAL_BUF_SIZE: usize = 8 * SERIALIZED_SIZE;

/// USART baudrate.
pub const USART_BAUDRATE: u32 = 38_400;

/// First byte of a press frame, ASCII `P`.
pub const FRAME_PRESS: u8 = 0x50;

/// First byte of a release frame, ASCII `R`.
pub const FRAME_RELEASE: u8 = 0x52;

/// Last byte of every frame, ASCII line feed.
pub const FRAME_END: u8 = 0x0a;

/// Why a frame was rejected.
#[derive(Clone, Copy, Debug, PartialEq, Eq, Structural)]
pub enum FrameError {
    /// The bytes are not a press or release frame.
    Invalid,
}

/// The frame that carries `e`: kind, row, column, terminator.
pub open spec fn frame_of(e: Event) -> Seq<u8> {
    match e {
        Event::Press(i, j) => seq![FRAME_PRESS, i, j, FRAME_END],
        Event::Release(i, j) => seq![FRAME_RELEASE, i, j, FRAME_END],
    }
}

/// The event that `bytes` carries, if they are a well-formed frame.
pub open spec fn parse_frame(bytes: Seq<u8>) -> Option<Event> {
    if bytes.len() == SERIALIZED_SIZE && bytes[3] == FRAME_END {
        if bytes[0] == FRAME_PRESS {
            Some(Event::Press(bytes[1], bytes[2]))
        } else if bytes[0] == FRAME_RELEASE {
            Some(Event::Release(bytes[1], bytes[2]))
        } else {
            None
        }
    } else {
        None
    }
}

/// Serialize a key event.
pub fn serialize(e: Event) -> (frame: [u8; 4])
    ensures
        frame@ == frame_of(e),
{
    match e {
        Event::Press(i, j) => [FRAME_PRESS, i, j, FRAME_END],
        Event::Release(i, j) => [FRAME_RELEASE, i, j, FRAME_END],
    }
}

/// Deserialize a key event from the serial line.
pub fn deserialize(bytes: &[u8; 4]) -> (r: Result<Event, FrameError>)
    ensures
        r == match parse_frame(bytes@) {
            Some(e) => Ok::<Event, FrameError>(e),
            None => Err::<Event, FrameError>(FrameError::Invalid),
        },
{
    if bytes[3] != FRAME_END {
        Err(FrameError::Invalid)
    } else if bytes[0] == FRAME_PRESS {
        Ok(Event::Press(bytes[1], bytes[2]))
    } else if bytes[0] == FRAME_RELEASE {
        Ok(Event::Release(bytes[1], bytes[2]))
    } else {
        Err(FrameError::Invalid)
    }
}

/// Framing round trip: every event is read back from its own frame.
pub proof fn lemma_frame_round_trip(e: Event)
    ensures
        frame_of(e).len() == SERIALIZED_SIZE,
        parse_frame(frame_of(e)) == Some(e),
{
}

/// A frame is rejected when its first byte is neither `P` nor `R`, or when it
/// does not end in a line feed, and only then.
pub proof fn lemma_frame_rejected(bytes: Seq<u8>)
    requires
        bytes.len() == SERIALIZED_SIZE,
    ensures
        parse_frame(bytes) is None <==> (bytes[0] != FRAME_PRESS && bytes[0] != FRAME_RELEASE)
            || bytes[3] != FRAME_END,
{
}

/// A frame is accepted only if it is the frame of the event read from it.
pub proof fn lemma_frame_unique(bytes: Seq<u8>, e: Event)
    requires
        parse_frame(bytes) == Some(e),
    ensures
        bytes == frame_of(e),
{
    assert(bytes =~= frame_of(e));
}

/// What to do with four bytes read from the other half: the event to hand to
/// the layout engine, in the coordinates that the sender gave it, or nothing
/// where the bytes are no frame and are dropped.
pub fn usart_rx(frame: &[u8; 4]) -> (forward: Option<Event>)
    ensures
        forward == parse_frame(frame@),
{
    match deserialize(frame) {
        Ok(event) => Some(event),
        Err(_) => None,
    }
}

/// Device handler, used to know when this half is configured by the host.
pub struct DeviceHandler {
    configured: bool,
}

impl DeviceHandler {
    /// Whether this half is the one that the host has configured.
    pub closed spec fn host(&self) -> bool {
        self.configured
    }

    /// Create a new device handler: at boot no half is the host side.
    pub fn new() -> (handler: DeviceHandler)
        ensures
            !handler.host(),
    {
        DeviceHandler { configured: false }
    }

    /// The device was enabled or disabled.
    pub fn enabled(&mut self, enabled: bool)
        ensures
            !final(self).host(),
    {
        self.configured = false;
    }

    /// The bus was reset.
    pub fn reset(&mut self)
        ensures
            !final(self).host(),
    {
        self.configured = false;
    }

    /// The host gave the device an address.
    pub fn addressed(&mut self, addr: u8)
        ensures
            !final(self).host(),
    {
        self.configured = false;
    }

    /// The host configured the device, or took the configuration back.
    pub fn configured(&mut self, configured: bool)
        ensures
            final(self).host() == configured,
    {
        self.configured = configured;
    }
}

/// Whether the device is the host side or not.
pub fn is_host(handler: &DeviceHandler) -> (host: bool)
    ensures
        host == handler.host(),
{
    handler.configured
}

} // verus!
