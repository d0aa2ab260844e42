use vstd::prelude::*;

use crate::bus::Delay;
use crate::bus::Transport;
use crate::codec::Event;
use crate::codec::Key;
use crate::codec::KeypadEvent;
use crate::codec::decode_fifo_byte;
use crate::codec::spec_decode_fifo;
use crate::color::Color;
use crate::error::Error;
use crate::protocol::HW_ID_CODE;
use crate::protocol::KEYPAD_COUNT;
use crate::protocol::KEYPAD_EVENT;
use crate::protocol::KEYPAD_FIFO;
use crate::protocol::MAX_FIFO_READ;
use crate::protocol::MAX_PAYLOAD;
use crate::protocol::Module;
use crate::protocol::NEOPIXEL_BUF;
use crate::protocol::NEOPIXEL_BUF_LENGTH;
use crate::protocol::NEOPIXEL_PIN;
use crate::protocol::NEOPIXEL_SHOW;
use crate::protocol::PIXEL_BUF_BYTES;
use crate::protocol::PIXEL_PIN;
use crate::protocol::PIXEL_SETTLE_US;
use crate::protocol::READ_SETTLE_MS;
use crate::protocol::RESET_COMMAND;
use crate::protocol::RESET_SETTLE_MS;
use crate::protocol::STATUS_HW_ID;
use crate::protocol::STATUS_SWRST;
use crate::protocol::Step;
use crate::protocol::spec_buf_length_step;
use crate::protocol::spec_event_config_step;
use crate::protocol::spec_init_interrupted;
use crate::protocol::spec_init_steps;
use crate::protocol::spec_key_setup_steps;
use crate::protocol::spec_keypad_setup_steps;
use crate::protocol::spec_pin_step;
use crate::protocol::spec_pixel_offset;
use crate::protocol::spec_pixel_steps;
use crate::protocol::spec_read_exchange;
use crate::protocol::spec_reset_probe;
use crate::protocol::spec_reset_step;
use crate::protocol::spec_select_step;
use crate::protocol::spec_show_steps;
use crate::protocol::spec_write_step;

verus! {

/// A driver for one device: a 4x4 capacitive keypad combined with a
/// 16-pixel RGB LED array behind a register-oriented firmware interface.
///
/// The driver owns its bus handle exclusively and keeps no cached device
/// state: every operation is a direct, blocking bus transaction.  Each
/// method's contract pins down, byte for byte and pause for pause, the
/// protocol steps it appends to the driver's ghost log — including where
/// the firmware's mandatory settling delays fall between the transfers.
pub struct NeoTrellis<B: Transport> {
    bus: B,
    address: u8,
    log: Ghost<Seq<Step>>,
}

impl<B: Transport> NeoTrellis<B> {
    /// The protocol steps this driver has performed, oldest first: every
    /// completed bus write and read, and every settling pause it requested,
    /// in the order they happened.  Every entry is recorded beside the bus
    /// or delay call it stands for, from the very byte strings handed to or
    /// received from the bus.
    pub closed spec fn spec_log(&self) -> Seq<Step> {
        self.log@
    }

    /// The device's bus address.
    pub closed spec fn spec_addr(&self) -> u8 {
        self.address
    }

    /// Sends one command frame: module selector, register selector, then
    /// the payload, as a single bus write.
    fn write_register(&mut self, module: Module, register: u8, payload: &[u8]) -> (r: Result<
        (),
        Error<B::BusError>,
    >)
        requires
            payload@.len() < MAX_PAYLOAD,
        ensures
            final(self).spec_addr() == old(self).spec_addr(),
            (match r {
                Ok(()) => final(self).spec_log() == old(self).spec_log().push(
                    spec_write_step(old(self).spec_addr(), module, register, payload@),
                ),
                Err(e) => e is WriteError && final(self).spec_log() == old(self).spec_log(),
            }),
    {
        let mut frame: Vec<u8> = Vec::new();
        frame.push(module.byte());
        frame.push(register);
        let mut i: usize = 0;
        while i < payload.len()
            invariant
                i <= payload@.len(),
                frame@ == seq![crate::protocol::spec_module_byte(module), register]
                    + payload@.subrange(0, i as int),
            decreases payload@.len() - i,
        {
            frame.push(payload[i]);
            proof {
                assert(payload@.subrange(0, i + 1) =~= payload@.subrange(0, i as int).push(
                    payload@[i as int],
                ));
            }
            i = i + 1;
        }
        proof {
            assert(payload@.subrange(0, payload@.len() as int) =~= payload@);
            assert(Seq::<u8>::empty().push(crate::protocol::spec_module_byte(module)).push(register)
                =~= seq![crate::protocol::spec_module_byte(module), register]);
        }
        match self.bus.bus_write(self.address, frame.as_slice()) {
            Ok(()) => {
                self.log = Ghost(self.log@.push(Step::Write { addr: self.address, bytes: frame@ }));
                Ok(())
            },
            Err(e) => Err(Error::WriteError(e)),
        }
    }

    /// Reads `len` bytes from one register: selects the register with a
    /// payload-free write, waits the mandatory settling delay, then — and
    /// only then — issues the bus read.
    fn read_register<D: Delay>(
        &mut self,
        module: Module,
        register: u8,
        len: usize,
        delay: &mut D,
    ) -> (r: Result<Vec<u8>, Error<B::BusError>>)
        ensures
            final(self).spec_addr() == old(self).spec_addr(),
            (match r {
                Ok(data) => data@.len() == len && final(self).spec_log() == old(self).spec_log()
                    + spec_read_exchange(old(self).spec_addr(), module, register, data@),
                Err(e) => {
                    &&& !(e is WrongChipId)
                    &&& e is WriteError ==> final(self).spec_log() == old(self).spec_log()
                    &&& e is ReadError ==> final(self).spec_log() == old(self).spec_log() + seq![
                        spec_select_step(old(self).spec_addr(), module, register),
                        Step::PauseMs { ms: READ_SETTLE_MS },
                    ]
                },
            }),
    {
        let mut select: Vec<u8> = Vec::new();
        select.push(module.byte());
        select.push(register);
        proof {
            assert(select@ =~= seq![crate::protocol::spec_module_byte(module), register]);
        }
        match self.bus.bus_write(self.address, select.as_slice()) {
            Ok(()) => {
                self.log = Ghost(
                    self.log@.push(Step::Write { addr: self.address, bytes: select@ }),
                );
            },
            Err(e) => {
                return Err(Error::WriteError(e));
            },
        }
        delay.delay_ms(READ_SETTLE_MS);
        self.log = Ghost(self.log@.push(Step::PauseMs { ms: READ_SETTLE_MS }));
        match self.bus.bus_read(self.address, len) {
            Ok(data) => {
                self.log = Ghost(self.log@.push(Step::Read { addr: self.address, bytes: data@ }));
                proof {
                    assert(self.spec_log() =~= old(self).spec_log() + spec_read_exchange(
                        old(self).spec_addr(),
                        module,
                        register,
                        data@,
                    ));
                }
                Ok(data)
            },
            Err(e) => {
                proof {
                    assert(self.spec_log() =~= old(self).spec_log() + seq![
                        spec_select_step(old(self).spec_addr(), module, register),
                        Step::PauseMs { ms: READ_SETTLE_MS },
                    ]);
                }
                Err(Error::ReadError(e))
            },
        }
    }

    /// Enables or disables detection of one event kind for one key.
    pub fn set_key_event(&mut self, key: Key, event: Event, enable: bool) -> (r: Result<
        (),
        Error<B::BusError>,
    >)
        ensures
            final(self).spec_addr() == old(self).spec_addr(),
            (match r {
                Ok(()) => final(self).spec_log() == old(self).spec_log().push(
                    spec_event_config_step(old(self).spec_addr(), key, event, enable),
                ),
                Err(e) => e is WriteError && final(self).spec_log() == old(self).spec_log(),
            }),
    {
        let ordinal = event.to_ordinal();
        let command: u8 = (1u8 << (ordinal + 1)) | (if enable {
            1u8
        } else {
            0u8
        });
        let payload: [u8; 2] = [key.serialize(), command];
        proof {
            assert(payload@ =~= seq![
                crate::codec::spec_key_wire(key.spec_index()),
                crate::codec::spec_event_command(event, enable),
            ]);
        }
        self.write_register(Module::Keypad, KEYPAD_EVENT, payload.as_slice())
    }

    /// Soft-resets the device, waits out the firmware reboot, then checks
    /// the hardware-ID register against the expected identity code.
    fn soft_reset<D: Delay>(&mut self, delay: &mut D) -> (r: Result<(), Error<B::BusError>>)
        ensures
            final(self).spec_addr() == old(self).spec_addr(),
            (match r {
                Ok(()) => final(self).spec_log() == old(self).spec_log() + spec_reset_probe(
                    old(self).spec_addr(),
                    seq![HW_ID_CODE],
                ),
                Err(e) => {
                    &&& e is WrongChipId ==> exists|id: u8|
                        id != HW_ID_CODE && final(self).spec_log() == old(self).spec_log()
                            + #[trigger] spec_reset_probe(old(self).spec_addr(), seq![id])
                    &&& e is WriteError ==> final(self).spec_log() == old(self).spec_log()
                        || final(self).spec_log() == old(self).spec_log() + seq![
                        spec_reset_step(old(self).spec_addr()),
                        Step::PauseMs { ms: RESET_SETTLE_MS },
                    ]
                    &&& e is ReadError ==> final(self).spec_log() == old(self).spec_log() + seq![
                        spec_reset_step(old(self).spec_addr()),
                        Step::PauseMs { ms: RESET_SETTLE_MS },
                        spec_select_step(old(self).spec_addr(), Module::Status, STATUS_HW_ID),
                        Step::PauseMs { ms: READ_SETTLE_MS },
                    ]
                },
            }),
    {
        let reset_payload: [u8; 1] = [RESET_COMMAND];
        proof {
            assert(reset_payload@ =~= seq![RESET_COMMAND]);
        }
        match self.write_register(Module::Status, STATUS_SWRST, reset_payload.as_slice()) {
            Ok(()) => {},
            Err(e) => {
                return Err(e);
            },
        }
        delay.delay_ms(RESET_SETTLE_MS);
        self.log = Ghost(self.log@.push(Step::PauseMs { ms: RESET_SETTLE_MS }));
        let ghost after_reset = self.spec_log();
        proof {
            assert(after_reset =~= old(self).spec_log() + seq![
                spec_reset_step(old(self).spec_addr()),
                Step::PauseMs { ms: RESET_SETTLE_MS },
            ]);
        }
        let id = match self.read_register(Module::Status, STATUS_HW_ID, 1, delay) {
            Ok(data) => data,
            Err(e) => {
                proof {
                    if e is ReadError {
                        assert(self.spec_log() =~= old(self).spec_log() + seq![
                            spec_reset_step(old(self).spec_addr()),
                            Step::PauseMs { ms: RESET_SETTLE_MS },
                            spec_select_step(old(self).spec_addr(), Module::Status, STATUS_HW_ID),
                            Step::PauseMs { ms: READ_SETTLE_MS },
                        ]);
                    }
                }
                return Err(e);
            },
        };
        proof {
            assert(id@ =~= seq![id@[0]]);
            assert(self.spec_log() =~= old(self).spec_log() + spec_reset_probe(
                old(self).spec_addr(),
                id@,
            ));
        }
        if id[0] != HW_ID_CODE {
            Err(Error::WrongChipId)
        } else {
            Ok(())
        }
    }

    /// Configures the pixel subsystem: selects the output pin, then
    /// programs the buffer length, big-endian.
    fn setup_neopixel(&mut self) -> (r: Result<(), Error<B::BusError>>)
        ensures
            final(self).spec_addr() == old(self).spec_addr(),
            (match r {
                Ok(()) => final(self).spec_log() == old(self).spec_log() + seq![
                    spec_pin_step(old(self).spec_addr()),
                    spec_buf_length_step(old(self).spec_addr()),
                ],
                Err(e) => e is WriteError && (final(self).spec_log() == old(self).spec_log()
                    || final(self).spec_log() == old(self).spec_log().push(
                    spec_pin_step(old(self).spec_addr()),
                )),
            }),
    {
        let pin_payload: [u8; 1] = [PIXEL_PIN];
        proof {
            assert(pin_payload@ =~= seq![PIXEL_PIN]);
        }
        match self.write_register(Module::Neopixel, NEOPIXEL_PIN, pin_payload.as_slice()) {
            Ok(()) => {},
            Err(e) => {
                return Err(e);
            },
        }
        // 16 pixels of 3 channels each, sent as a big-endian 16-bit count.
        let len_payload: [u8; 2] = [(PIXEL_BUF_BYTES >> 8) as u8, (PIXEL_BUF_BYTES & 0xff) as u8];
        proof {
            assert(len_payload@ =~= seq![
                (PIXEL_BUF_BYTES >> 8) as u8,
                (PIXEL_BUF_BYTES & 0xff) as u8,
            ]);
        }
        match self.write_register(Module::Neopixel, NEOPIXEL_BUF_LENGTH, len_payload.as_slice()) {
            Ok(()) => {
                proof {
                    assert(self.spec_log() =~= old(self).spec_log() + seq![
                        spec_pin_step(old(self).spec_addr()),
                        spec_buf_length_step(old(self).spec_addr()),
                    ]);
                }
                Ok(())
            },
            Err(e) => Err(e),
        }
    }

    /// Configures the keypad subsystem: for each of the 16 keys, disables
    /// both steady-level detections and enables both edge detections, so
    /// that only edge transitions are reported.  A failed write stops the
    /// sweep: the log then holds the configuration of the first keys and a
    /// prefix of one key's four writes, nothing more.
    fn setup_keypad(&mut self) -> (r: Result<(), Error<B::BusError>>)
        ensures
            final(self).spec_addr() == old(self).spec_addr(),
            (match r {
                Ok(()) => final(self).spec_log() == old(self).spec_log()
                    + spec_keypad_setup_steps(old(self).spec_addr(), 16),
                Err(e) => e is WriteError && exists|k: u8, j: int|
                    #![trigger spec_keypad_setup_steps(old(self).spec_addr(), k as int), spec_key_setup_steps(old(self).spec_addr(), crate::codec::spec_key_from_index(k)).take(j)]
                    k < 16 && 0 <= j <= 4 && final(self).spec_log() == old(self).spec_log()
                        + spec_keypad_setup_steps(old(self).spec_addr(), k as int)
                        + spec_key_setup_steps(
                        old(self).spec_addr(),
                        crate::codec::spec_key_from_index(k),
                    ).take(j),
            }),
    {
        let mut i: u8 = 0;
        while i < 16
            invariant
                i <= 16,
                self.spec_addr() == old(self).spec_addr(),
                self.spec_log() == old(self).spec_log() + spec_keypad_setup_steps(
                    old(self).spec_addr(),
                    i as int,
                ),
            decreases 16 - i,
        {
            let key = Key::from_index(i);
            let ghost base = self.spec_log();
            let ghost ksteps = spec_key_setup_steps(
                old(self).spec_addr(),
                crate::codec::spec_key_from_index(i),
            );
            match self.set_key_event(key, Event::Low, false) {
                Ok(()) => {},
                Err(e) => {
                    proof {
                        assert(self.spec_log() =~= base + ksteps.take(0));
                    }
                    return Err(e);
                },
            }
            match self.set_key_event(key, Event::High, false) {
                Ok(()) => {},
                Err(e) => {
                    proof {
                        assert(self.spec_log() =~= base + ksteps.take(1));
                    }
                    return Err(e);
                },
            }
            match self.set_key_event(key, Event::Falling, true) {
                Ok(()) => {},
                Err(e) => {
                    proof {
                        assert(self.spec_log() =~= base + ksteps.take(2));
                    }
                    return Err(e);
                },
            }
            match self.set_key_event(key, Event::Rising, true) {
                Ok(()) => {},
                Err(e) => {
                    proof {
                        assert(self.spec_log() =~= base + ksteps.take(3));
                    }
                    return Err(e);
                },
            }
            proof {
                assert(self.spec_log() =~= old(self).spec_log() + spec_keypad_setup_steps(
                    old(self).spec_addr(),
                    i + 1,
                ));
            }
            i = i + 1;
        }
        Ok(())
    }

    /// Binds a bus handle and a device address into a driver without
    /// touching the device: no bus traffic, an empty step log.  The device
    /// is unusable until [`NeoTrellis::initialize`] has succeeded.
    pub fn attach(bus: B, address: u8) -> (t: NeoTrellis<B>)
        ensures
            t.spec_addr() == address,
            t.spec_log() == Seq::<Step>::empty(),
    {
        NeoTrellis { bus, address, log: Ghost(Seq::empty()) }
    }

    /// Runs the full initialization: soft reset, reboot pause, identity
    /// check, pixel subsystem setup, then keypad event configuration.
    ///
    /// On success the log grows by exactly [`spec_init_steps`].  Any step's
    /// failure aborts at once and propagates that step's error: a rejected
    /// identity probe leaves exactly the reset and the probe in the log —
    /// no configuration write follows it — and a transport failure leaves
    /// the completed steps and nothing of any later stage
    /// ([`spec_init_interrupted`]).
    pub fn initialize<D: Delay>(&mut self, delay: &mut D) -> (r: Result<(), Error<B::BusError>>)
        ensures
            final(self).spec_addr() == old(self).spec_addr(),
            (match r {
                Ok(()) => final(self).spec_log() == old(self).spec_log() + spec_init_steps(
                    old(self).spec_addr(),
                ),
                Err(e) => {
                    &&& e is WrongChipId ==> exists|id: u8|
                        id != HW_ID_CODE && final(self).spec_log() == old(self).spec_log()
                            + #[trigger] spec_reset_probe(old(self).spec_addr(), seq![id])
                    &&& !(e is WrongChipId) ==> spec_init_interrupted(
                        old(self).spec_log(),
                        final(self).spec_log(),
                        old(self).spec_addr(),
                    )
                },
            }),
    {
        let ghost addr = self.spec_addr();
        let ghost pre = self.spec_log();
        match self.soft_reset(delay) {
            Ok(()) => {},
            Err(e) => {
                return Err(e);
            },
        }
        let ghost probed = self.spec_log();
        match self.setup_neopixel() {
            Ok(()) => {},
            Err(e) => {
                proof {
                    let pix = seq![spec_pin_step(addr), spec_buf_length_step(addr)];
                    if self.spec_log() == probed {
                        assert(self.spec_log() =~= pre + spec_reset_probe(addr, seq![HW_ID_CODE])
                            + pix.take(0));
                    } else {
                        assert(self.spec_log() =~= pre + spec_reset_probe(addr, seq![HW_ID_CODE])
                            + pix.take(1));
                    }
                }
                return Err(e);
            },
        }
        let ghost configured = self.spec_log();
        match self.setup_keypad() {
            Ok(()) => {},
            Err(e) => {
                proof {
                    let (k, j) = choose|k: u8, j: int|
                        #![trigger spec_keypad_setup_steps(addr, k as int), spec_key_setup_steps(addr, crate::codec::spec_key_from_index(k)).take(j)]
                        k < 16 && 0 <= j <= 4 && self.spec_log() == configured
                            + spec_keypad_setup_steps(addr, k as int) + spec_key_setup_steps(
                            addr,
                            crate::codec::spec_key_from_index(k),
                        ).take(j);
                    assert(self.spec_log() =~= pre + spec_reset_probe(addr, seq![HW_ID_CODE])
                        + seq![spec_pin_step(addr), spec_buf_length_step(addr)]
                        + spec_keypad_setup_steps(addr, k as int) + spec_key_setup_steps(
                        addr,
                        crate::codec::spec_key_from_index(k),
                    ).take(j));
                }
                return Err(e);
            },
        }
        proof {
            assert(self.spec_log() =~= pre + spec_init_steps(addr));
        }
        Ok(())
    }

    /// Initializes the device on `bus` at `address` in one call:
    /// [`NeoTrellis::attach`] followed by [`NeoTrellis::initialize`].
    ///
    /// On failure the driver — and with it the ghost evidence of what was
    /// sent — is dropped along with the bus; callers that need the failure
    /// evidence use the two-step form.
    pub fn new<D: Delay>(bus: B, address: u8, delay: &mut D) -> (r: Result<
        NeoTrellis<B>,
        Error<B::BusError>,
    >)
        ensures
            (match r {
                Ok(t) => t.spec_addr() == address && t.spec_log() == spec_init_steps(address),
                Err(_) => true,
            }),
    {
        let mut neotrellis = NeoTrellis::attach(bus, address);
        match neotrellis.initialize(delay) {
            Ok(()) => {
                proof {
                    assert(Seq::<Step>::empty() + spec_init_steps(address) =~= spec_init_steps(
                        address,
                    ));
                }
                Ok(neotrellis)
            },
            Err(e) => Err(e),
        }
    }

    /// Writes one pixel's color into the device-side buffer: the pixel's
    /// big-endian byte offset followed by the channels in green, red, blue
    /// order, then the bus-settling pause.  The write stays invisible until
    /// [`NeoTrellis::show_led`].
    pub fn set_led_color<D: Delay>(&mut self, led: u8, color: Color, delay: &mut D) -> (r: Result<
        (),
        Error<B::BusError>,
    >)
        ensures
            final(self).spec_addr() == old(self).spec_addr(),
            (match r {
                Ok(()) => final(self).spec_log() == old(self).spec_log() + spec_pixel_steps(
                    old(self).spec_addr(),
                    led,
                    color,
                ),
                Err(e) => e is WriteError && final(self).spec_log() == old(self).spec_log(),
            }),
    {
        let led_address: u16 = (led as u16) * 3;
        let grb = color.as_grb_slice();
        let payload: [u8; 5] = [
            (led_address >> 8) as u8,
            (led_address & 0xff) as u8,
            grb[0],
            grb[1],
            grb[2],
        ];
        proof {
            assert(led_address == spec_pixel_offset(led));
            assert(payload@ =~= seq![
                (spec_pixel_offset(led) >> 8) as u8,
                (spec_pixel_offset(led) & 0xff) as u8,
            ] + crate::color::spec_grb(color));
        }
        match self.write_register(Module::Neopixel, NEOPIXEL_BUF, payload.as_slice()) {
            Ok(()) => {},
            Err(e) => {
                return Err(e);
            },
        }
        delay.delay_us(PIXEL_SETTLE_US);
        self.log = Ghost(self.log@.push(Step::PauseUs { us: PIXEL_SETTLE_US }));
        proof {
            assert(self.spec_log() =~= old(self).spec_log() + spec_pixel_steps(
                old(self).spec_addr(),
                led,
                color,
            ));
        }
        Ok(())
    }

    /// Latches the pixel buffer: previously buffered pixel writes become
    /// visible on the physical LEDs.
    pub fn show_led<D: Delay>(&mut self, delay: &mut D) -> (r: Result<(), Error<B::BusError>>)
        ensures
            final(self).spec_addr() == old(self).spec_addr(),
            (match r {
                Ok(()) => final(self).spec_log() == old(self).spec_log() + spec_show_steps(
                    old(self).spec_addr(),
                ),
                Err(e) => e is WriteError && final(self).spec_log() == old(self).spec_log(),
            }),
    {
        let empty: Vec<u8> = Vec::new();
        match self.write_register(Module::Neopixel, NEOPIXEL_SHOW, empty.as_slice()) {
            Ok(()) => {},
            Err(e) => {
                return Err(e);
            },
        }
        delay.delay_us(PIXEL_SETTLE_US);
        self.log = Ghost(self.log@.push(Step::PauseUs { us: PIXEL_SETTLE_US }));
        proof {
            assert(self.spec_log() =~= old(self).spec_log() + spec_show_steps(
                old(self).spec_addr(),
            ));
        }
        Ok(())
    }

    /// Reads up to `events.len()` bytes from the event FIFO in one bus
    /// read — after the register selection and its settling pause — and
    /// decodes each byte in order: `None` for the "no pending event"
    /// sentinel, a key/event pair otherwise.
    pub fn read_key_events<D: Delay>(
        &mut self,
        events: &mut Vec<Option<KeypadEvent>>,
        delay: &mut D,
    ) -> (r: Result<(), Error<B::BusError>>)
        requires
            old(events)@.len() <= MAX_FIFO_READ,
        ensures
            final(self).spec_addr() == old(self).spec_addr(),
            final(events)@.len() == old(events)@.len(),
            (match r {
                Ok(()) => {
                    let data = final(self).spec_log().last().read_bytes();
                    &&& final(self).spec_log() == old(self).spec_log() + spec_read_exchange(
                        old(self).spec_addr(),
                        Module::Keypad,
                        KEYPAD_FIFO,
                        data,
                    )
                    &&& data.len() == old(events)@.len()
                    &&& forall|i: int|
                        0 <= i < data.len() ==> final(events)@[i] == spec_decode_fifo(data[i])
                },
                Err(e) => {
                    &&& !(e is WrongChipId)
                    &&& *final(events) == *old(events)
                    &&& e is WriteError ==> final(self).spec_log() == old(self).spec_log()
                    &&& e is ReadError ==> final(self).spec_log() == old(self).spec_log() + seq![
                        spec_select_step(old(self).spec_addr(), Module::Keypad, KEYPAD_FIFO),
                        Step::PauseMs { ms: READ_SETTLE_MS },
                    ]
                },
            }),
    {
        let count = events.len();
        let data = match self.read_register(Module::Keypad, KEYPAD_FIFO, count, delay) {
            Ok(data) => data,
            Err(e) => {
                return Err(e);
            },
        };
        let mut out: Vec<Option<KeypadEvent>> = Vec::new();
        let mut i: usize = 0;
        while i < count
            invariant
                i <= count,
                data@.len() == count,
                out@.len() == i,
                forall|j: int| 0 <= j < i ==> out@[j] == spec_decode_fifo(data@[j]),
            decreases count - i,
        {
            out.push(decode_fifo_byte(data[i]));
            i = i + 1;
        }
        *events = out;
        Ok(())
    }

    /// Reads the keypad's pending-event counter: one 1-byte read, after
    /// the register selection and its settling pause.
    pub fn keypad_count<D: Delay>(&mut self, delay: &mut D) -> (r: Result<u8, Error<B::BusError>>)
        ensures
            final(self).spec_addr() == old(self).spec_addr(),
            (match r {
                Ok(count) => final(self).spec_log() == old(self).spec_log() + spec_read_exchange(
                    old(self).spec_addr(),
                    Module::Keypad,
                    KEYPAD_COUNT,
                    seq![count],
                ),
                Err(e) => {
                    &&& !(e is WrongChipId)
                    &&& e is WriteError ==> final(self).spec_log() == old(self).spec_log()
                    &&& e is ReadError ==> final(self).spec_log() == old(self).spec_log() + seq![
                        spec_select_step(old(self).spec_addr(), Module::Keypad, KEYPAD_COUNT),
                        Step::PauseMs { ms: READ_SETTLE_MS },
                    ]
                },
            }),
    {
        let data = match self.read_register(Module::Keypad, KEYPAD_COUNT, 1, delay) {
            Ok(data) => data,
            Err(e) => {
                return Err(e);
            },
        };
        let count = data[0];
        proof {
            assert(data@ =~= seq![count]);
        }
        Ok(count)
    }
}

} // verus!
