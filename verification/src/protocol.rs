use vstd::prelude::*;

use crate::codec::Event;
use crate::codec::Key;
use crate::codec::spec_event_command;
use crate::codec::spec_key_wire;
use crate::color::Color;
use crate::color::spec_grb;

verus! {

/// One step of the driver's bus protocol, as the contracts see it: a write
/// of a byte string to a device address, a read of a byte string from one,
/// or a blocking settling pause.  Pauses stand in the same log as the
/// transfers, so a contract states not only which bytes moved but where
/// the protocol's mandatory settling delays fall between them.
pub enum Step {
    Write { addr: u8, bytes: Seq<u8> },
    Read { addr: u8, bytes: Seq<u8> },
    PauseMs { ms: u32 },
    PauseUs { us: u32 },
}

impl Step {
    /// The bytes a read step returned (empty for any other step).
    pub open spec fn read_bytes(self) -> Seq<u8> {
        match self {
            Step::Read { bytes, .. } => bytes,
            _ => Seq::empty(),
        }
    }
}

/// The milliseconds the device firmware needs to reboot after a soft reset.
pub const RESET_SETTLE_MS: u32 = 500;

/// The milliseconds the firmware needs between a register selection and the
/// read of its response.
pub const READ_SETTLE_MS: u32 = 6;

/// The microseconds of bus settling after a pixel-buffer or latch write.
pub const PIXEL_SETTLE_US: u32 = 100;

/// Register selector of the status module's soft-reset register.
pub const STATUS_SWRST: u8 = 0x7f;

/// Register selector of the status module's hardware-ID register.
pub const STATUS_HW_ID: u8 = 0x01;

/// Register selector of the pixel module's output-pin register.
pub const NEOPIXEL_PIN: u8 = 0x01;

/// Register selector of the pixel module's buffer-length register.
pub const NEOPIXEL_BUF_LENGTH: u8 = 0x03;

/// Register selector of the pixel module's buffer-write register.
pub const NEOPIXEL_BUF: u8 = 0x04;

/// Register selector of the pixel module's latch/show register.
pub const NEOPIXEL_SHOW: u8 = 0x05;

/// Register selector of the keypad module's event-configuration register.
pub const KEYPAD_EVENT: u8 = 0x01;

/// Register selector of the keypad module's pending-event counter.
pub const KEYPAD_COUNT: u8 = 0x04;

/// Register selector of the keypad module's event FIFO.
pub const KEYPAD_FIFO: u8 = 0x10;

/// The byte written to the soft-reset register to reboot the device.
pub const RESET_COMMAND: u8 = 0xff;

/// The identity code the hardware-ID register must answer with.
pub const HW_ID_CODE: u8 = 0x55;

/// The pixel output pin the driver selects at initialization.
pub const PIXEL_PIN: u8 = 3;

/// The pixel buffer length programmed at initialization: 16 pixels of 3
/// color channels each.
pub const PIXEL_BUF_BYTES: u16 = 48;

/// Every command frame holds strictly fewer payload bytes than this.
pub const MAX_PAYLOAD: usize = 32;

/// The most FIFO bytes one read may ask for.
pub const MAX_FIFO_READ: usize = 32;

/// A logical sub-peripheral of the device, selected by the first byte of
/// every command frame.
#[derive(Clone, Copy, PartialEq, Eq, Structural, Debug)]
pub enum Module {
    Status,
    Neopixel,
    Keypad,
}

/// The module-selector byte of each module.
pub open spec fn spec_module_byte(m: Module) -> u8 {
    match m {
        Module::Status => 0x00,
        Module::Neopixel => 0x0e,
        Module::Keypad => 0x10,
    }
}

impl Module {
    /// The module-selector byte sent as the first byte of a command frame.
    pub fn byte(&self) -> (b: u8)
        ensures
            b == spec_module_byte(*self),
    {
        match self {
            Module::Status => 0x00,
            Module::Neopixel => 0x0e,
            Module::Keypad => 0x10,
        }
    }
}

/// The bytes of one command frame: module selector, register selector, then
/// the payload.
pub open spec fn spec_frame(m: Module, register: u8, payload: Seq<u8>) -> Seq<u8> {
    seq![spec_module_byte(m), register] + payload
}

/// The bus write that carries one command frame.
pub open spec fn spec_write_step(addr: u8, m: Module, register: u8, payload: Seq<u8>) -> Step {
    Step::Write { addr, bytes: spec_frame(m, register, payload) }
}

/// The payload-free write that selects a register before a read.
pub open spec fn spec_select_step(addr: u8, m: Module, register: u8) -> Step {
    Step::Write { addr, bytes: seq![spec_module_byte(m), register] }
}

/// The three steps of one register read: the register selection, the
/// mandatory settling pause the firmware needs before the response is
/// ready, then the read that returned `data` — in that order.
pub open spec fn spec_read_exchange(addr: u8, m: Module, register: u8, data: Seq<u8>) -> Seq<
    Step,
> {
    seq![
        spec_select_step(addr, m, register),
        Step::PauseMs { ms: READ_SETTLE_MS },
        Step::Read { addr, bytes: data },
    ]
}

/// The soft-reset command write.
pub open spec fn spec_reset_step(addr: u8) -> Step {
    spec_write_step(addr, Module::Status, STATUS_SWRST, seq![RESET_COMMAND])
}

/// The reset write, the firmware-reboot pause, then the hardware-ID probe
/// that answered `id` — in that order.
pub open spec fn spec_reset_probe(addr: u8, id: Seq<u8>) -> Seq<Step> {
    seq![spec_reset_step(addr), Step::PauseMs { ms: RESET_SETTLE_MS }] + spec_read_exchange(
        addr,
        Module::Status,
        STATUS_HW_ID,
        id,
    )
}

/// The write that selects the pixel output pin.
pub open spec fn spec_pin_step(addr: u8) -> Step {
    spec_write_step(addr, Module::Neopixel, NEOPIXEL_PIN, seq![PIXEL_PIN])
}

/// The write that programs the pixel buffer length, big-endian.
pub open spec fn spec_buf_length_step(addr: u8) -> Step {
    spec_write_step(
        addr,
        Module::Neopixel,
        NEOPIXEL_BUF_LENGTH,
        seq![(PIXEL_BUF_BYTES >> 8) as u8, (PIXEL_BUF_BYTES & 0xff) as u8],
    )
}

/// The write that enables or disables detection of one event kind for one
/// key: the key's wire byte, then the command byte.
pub open spec fn spec_event_config_step(addr: u8, k: Key, e: Event, enable: bool) -> Step {
    spec_write_step(
        addr,
        Module::Keypad,
        KEYPAD_EVENT,
        seq![spec_key_wire(k.spec_index()), spec_event_command(e, enable)],
    )
}

/// The pixel buffer byte offset of an LED: three channel bytes per pixel.
pub open spec fn spec_pixel_offset(led: u8) -> u16 {
    ((led as u16) * 3) as u16
}

/// The pixel buffer write for one LED: the big-endian byte offset followed
/// by the color's channels in the device's green, red, blue order.
pub open spec fn spec_pixel_step(addr: u8, led: u8, c: Color) -> Step {
    spec_write_step(
        addr,
        Module::Neopixel,
        NEOPIXEL_BUF,
        seq![(spec_pixel_offset(led) >> 8) as u8, (spec_pixel_offset(led) & 0xff) as u8]
            + spec_grb(c),
    )
}

/// The pixel write for one LED followed by its bus-settling pause.
pub open spec fn spec_pixel_steps(addr: u8, led: u8, c: Color) -> Seq<Step> {
    seq![spec_pixel_step(addr, led, c), Step::PauseUs { us: PIXEL_SETTLE_US }]
}

/// The payload-free latch/show write that makes buffered pixel writes
/// visible.
pub open spec fn spec_show_step(addr: u8) -> Step {
    spec_write_step(addr, Module::Neopixel, NEOPIXEL_SHOW, Seq::empty())
}

/// The latch/show write followed by its bus-settling pause.
pub open spec fn spec_show_steps(addr: u8) -> Seq<Step> {
    seq![spec_show_step(addr), Step::PauseUs { us: PIXEL_SETTLE_US }]
}

/// The four event-configuration writes issued for one key at
/// initialization: both steady-level detections off, both edge detections
/// on.
pub open spec fn spec_key_setup_steps(addr: u8, k: Key) -> Seq<Step> {
    seq![
        spec_event_config_step(addr, k, Event::Low, false),
        spec_event_config_step(addr, k, Event::High, false),
        spec_event_config_step(addr, k, Event::Falling, true),
        spec_event_config_step(addr, k, Event::Rising, true),
    ]
}

/// The event-configuration writes for the first `n` keys, in key order.
pub open spec fn spec_keypad_setup_steps(addr: u8, n: int) -> Seq<Step>
    decreases n,
{
    if n <= 0 {
        Seq::empty()
    } else {
        spec_keypad_setup_steps(addr, n - 1) + spec_key_setup_steps(
            addr,
            crate::codec::spec_key_from_index((n - 1) as u8),
        )
    }
}

/// The full step sequence of a successful initialization: reset, reboot
/// pause, identity probe answered with the expected code, pixel subsystem
/// setup, then the event configuration of all 16 keys.
pub open spec fn spec_init_steps(addr: u8) -> Seq<Step> {
    spec_reset_probe(addr, seq![HW_ID_CODE]) + seq![
        spec_pin_step(addr),
        spec_buf_length_step(addr),
    ] + spec_keypad_setup_steps(addr, 16)
}

/// The shapes a log can take when initialization is cut short by a
/// transport failure: the steps already performed stand, in order, and no
/// later stage's transaction was issued.  The possible cut points are:
/// before the reset write; after the reboot pause, when the probe's select
/// write failed; after the probe's settling pause, when the probe's read
/// failed; after a completed probe (answered with the expected code, else
/// initialization stops with the identity error instead), within the two
/// pixel-setup writes; or after the pixel setup, within the per-key event
/// configuration.
pub open spec fn spec_init_interrupted(pre: Seq<Step>, post: Seq<Step>, addr: u8) -> bool {
    ||| post == pre
    ||| post == pre + seq![spec_reset_step(addr), Step::PauseMs { ms: RESET_SETTLE_MS }]
    ||| post == pre + seq![
        spec_reset_step(addr),
        Step::PauseMs { ms: RESET_SETTLE_MS },
        spec_select_step(addr, Module::Status, STATUS_HW_ID),
        Step::PauseMs { ms: READ_SETTLE_MS },
    ]
    ||| exists|n: int|
        0 <= n <= 2 && post == pre + spec_reset_probe(addr, seq![HW_ID_CODE]) + (seq![
            spec_pin_step(addr),
            spec_buf_length_step(addr),
        ]).take(n)
    ||| exists|k: u8, j: int|
        #![trigger spec_keypad_setup_steps(addr, k as int), spec_key_setup_steps(addr, crate::codec::spec_key_from_index(k)).take(j)]
        k < 16 && 0 <= j <= 4 && post == pre + spec_reset_probe(addr, seq![HW_ID_CODE]) + seq![
            spec_pin_step(addr),
            spec_buf_length_step(addr),
        ] + spec_keypad_setup_steps(addr, k as int) + spec_key_setup_steps(
            addr,
            crate::codec::spec_key_from_index(k),
        ).take(j)
}

} // verus!
