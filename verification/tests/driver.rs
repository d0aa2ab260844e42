use std::cell::RefCell;
use std::rc::Rc;

use neotrellis::Color;
use neotrellis::Delay;
use neotrellis::Error;
use neotrellis::Event;
use neotrellis::Key;
use neotrellis::MultiTrellis;
use neotrellis::NeoTrellis;
use neotrellis::Transport;

/// What a stub bus records and how it is scripted.
#[derive(Default)]
struct Shared {
    /// Every completed write: address and frame bytes.
    writes: Vec<(u8, Vec<u8>)>,
    /// Responses handed out by reads, oldest first; an exhausted queue
    /// answers with all-sentinel bytes.
    read_queue: Vec<Vec<u8>>,
    /// Fail every write once this many writes have completed.
    fail_writes_from: Option<usize>,
    /// Fail every read.
    fail_reads: bool,
}

/// A scripted in-memory bus.
struct StubBus(Rc<RefCell<Shared>>);

impl Transport for StubBus {
    type BusError = u8;

    fn bus_write(&mut self, addr: u8, bytes: &[u8]) -> Result<(), u8> {
        let mut shared = self.0.borrow_mut();
        if let Some(n) = shared.fail_writes_from {
            if shared.writes.len() >= n {
                return Err(0xe1);
            }
        }
        shared.writes.push((addr, bytes.to_vec()));
        Ok(())
    }

    fn bus_read(&mut self, _addr: u8, len: usize) -> Result<Vec<u8>, u8> {
        let mut shared = self.0.borrow_mut();
        if shared.fail_reads {
            return Err(0xe2);
        }
        let mut data = if shared.read_queue.is_empty() {
            Vec::new()
        } else {
            shared.read_queue.remove(0)
        };
        data.resize(len, 0xff);
        Ok(data)
    }
}

/// A delay provider that only records the sleeps it was asked for.
#[derive(Default)]
struct StubDelay {
    ms: Vec<u32>,
    us: Vec<u32>,
}

impl Delay for StubDelay {
    fn delay_ms(&mut self, ms: u32) {
        self.ms.push(ms);
    }

    fn delay_us(&mut self, us: u32) {
        self.us.push(us);
    }
}

const ADDR: u8 = 0x2e;

fn fresh_bus() -> (StubBus, Rc<RefCell<Shared>>) {
    let shared = Rc::new(RefCell::new(Shared::default()));
    (StubBus(shared.clone()), shared)
}

/// A device whose identity probe answers the expected code.
fn init_device() -> (NeoTrellis<StubBus>, Rc<RefCell<Shared>>, StubDelay) {
    let (bus, shared) = fresh_bus();
    shared.borrow_mut().read_queue.push(vec![0x55]);
    let mut delay = StubDelay::default();
    let device = NeoTrellis::new(bus, ADDR, &mut delay).expect("init succeeds");
    shared.borrow_mut().writes.clear();
    (device, shared, delay)
}

fn key_wire(i: u8) -> u8 {
    ((i & 0x0c) << 1) | (i & 0x03)
}

#[test]
fn new_performs_full_initialization() {
    let (bus, shared) = fresh_bus();
    shared.borrow_mut().read_queue.push(vec![0x55]);
    let mut delay = StubDelay::default();
    NeoTrellis::new(bus, ADDR, &mut delay).expect("hardware id matches");

    let shared = shared.borrow();
    // Reset, identity select, pixel pin, buffer length, then 64 key
    // configuration writes.
    assert_eq!(shared.writes.len(), 4 + 64);
    assert_eq!(shared.writes[0], (ADDR, vec![0x00, 0x7f, 0xff]));
    assert_eq!(shared.writes[1], (ADDR, vec![0x00, 0x01]));
    assert_eq!(shared.writes[2], (ADDR, vec![0x0e, 0x01, 0x03]));
    // Buffer length register set to 48 bytes, big-endian.
    assert_eq!(shared.writes[3], (ADDR, vec![0x0e, 0x03, 0x00, 0x30]));
    // Each key: level events disabled, edge events enabled.
    for i in 0..16usize {
        let wire = key_wire(i as u8);
        assert_eq!(shared.writes[4 + 4 * i], (ADDR, vec![0x10, 0x01, wire, 0x04]));
        assert_eq!(shared.writes[5 + 4 * i], (ADDR, vec![0x10, 0x01, wire, 0x02]));
        assert_eq!(shared.writes[6 + 4 * i], (ADDR, vec![0x10, 0x01, wire, 0x09]));
        assert_eq!(shared.writes[7 + 4 * i], (ADDR, vec![0x10, 0x01, wire, 0x11]));
    }
    // Reboot settle, then the identity read's settle.
    assert_eq!(delay.ms, vec![500, 6]);
}

#[test]
fn new_rejects_wrong_hardware_id() {
    let (bus, shared) = fresh_bus();
    shared.borrow_mut().read_queue.push(vec![0x00]);
    let mut delay = StubDelay::default();
    let result = NeoTrellis::new(bus, ADDR, &mut delay);
    match result {
        Err(Error::WrongChipId) => {}
        _ => panic!("expected the chip-identity error"),
    }
    // Only the reset and the identity select were written: no pixel or
    // keypad configuration followed the failed probe.
    assert_eq!(shared.borrow().writes.len(), 2);
}

#[test]
fn initialize_runs_the_same_sequence_as_new() {
    let (bus, shared) = fresh_bus();
    shared.borrow_mut().read_queue.push(vec![0x55]);
    let mut delay = StubDelay::default();
    let mut device = NeoTrellis::attach(bus, ADDR);
    device.initialize(&mut delay).expect("hardware id matches");
    let shared = shared.borrow();
    assert_eq!(shared.writes.len(), 4 + 64);
    assert_eq!(shared.writes[0], (ADDR, vec![0x00, 0x7f, 0xff]));
    assert_eq!(delay.ms, vec![500, 6]);
}

#[test]
fn initialize_rejects_wrong_hardware_id_without_config_writes() {
    let (bus, shared) = fresh_bus();
    shared.borrow_mut().read_queue.push(vec![0x00]);
    let mut delay = StubDelay::default();
    let mut device = NeoTrellis::attach(bus, ADDR);
    let result = device.initialize(&mut delay);
    match result {
        Err(Error::WrongChipId) => {}
        _ => panic!("expected the chip-identity error"),
    }
    // Only the reset and the identity select went out, and both mandated
    // settling delays were taken before the probe's read.
    let shared = shared.borrow();
    assert_eq!(shared.writes.len(), 2);
    assert_eq!(delay.ms, vec![500, 6]);
}

#[test]
fn initialize_stops_at_first_failing_write() {
    let (bus, shared) = fresh_bus();
    shared.borrow_mut().read_queue.push(vec![0x55]);
    // Fail the write after the pixel setup and the first key's first two
    // event-configuration writes.
    shared.borrow_mut().fail_writes_from = Some(6);
    let mut delay = StubDelay::default();
    let mut device = NeoTrellis::attach(bus, ADDR);
    let result = device.initialize(&mut delay);
    match result {
        Err(Error::WriteError(code)) => assert_eq!(code, 0xe1),
        _ => panic!("expected a write error"),
    }
    // Reset, select, pin, buffer length, then two key-config writes: the
    // sweep stopped there, nothing later was issued.
    let shared = shared.borrow();
    assert_eq!(shared.writes.len(), 6);
    assert_eq!(shared.writes[4], (ADDR, vec![0x10, 0x01, 0x00, 0x04]));
    assert_eq!(shared.writes[5], (ADDR, vec![0x10, 0x01, 0x00, 0x02]));
}

#[test]
fn new_propagates_write_failure() {
    let (bus, shared) = fresh_bus();
    shared.borrow_mut().fail_writes_from = Some(0);
    let mut delay = StubDelay::default();
    let result = NeoTrellis::new(bus, ADDR, &mut delay);
    match result {
        Err(Error::WriteError(code)) => assert_eq!(code, 0xe1),
        _ => panic!("expected a write error"),
    }
}

#[test]
fn set_key_event_encodes_command_byte() {
    let (mut device, shared, _delay) = init_device();
    // Enabling edge-rising: (1 << 4) | 1 = 0x11.
    device
        .set_key_event(Key::from_index(2), Event::Rising, true)
        .expect("write succeeds");
    // Disabling level-high: (1 << 1) | 0 = 0x02.
    device
        .set_key_event(Key::from_index(2), Event::High, false)
        .expect("write succeeds");
    let shared = shared.borrow();
    assert_eq!(shared.writes[0], (ADDR, vec![0x10, 0x01, 0x02, 0x11]));
    assert_eq!(shared.writes[1], (ADDR, vec![0x10, 0x01, 0x02, 0x02]));
}

#[test]
fn set_led_color_writes_offset_and_grb() {
    let (mut device, shared, mut delay) = init_device();
    delay.us.clear();
    device
        .set_led_color(7, Color::rgb(10, 20, 30), &mut delay)
        .expect("write succeeds");
    // Offset 21 = 7 * 3 big-endian, then green, red, blue.
    assert_eq!(
        shared.borrow().writes[0],
        (ADDR, vec![0x0e, 0x04, 0x00, 0x15, 20, 10, 30])
    );
    assert_eq!(delay.us, vec![100]);
}

#[test]
fn show_led_latches_with_empty_payload() {
    let (mut device, shared, mut delay) = init_device();
    delay.us.clear();
    device.show_led(&mut delay).expect("write succeeds");
    assert_eq!(shared.borrow().writes[0], (ADDR, vec![0x0e, 0x05]));
    assert_eq!(delay.us, vec![100]);
}

#[test]
fn read_key_events_decodes_and_filters() {
    let (mut device, shared, mut delay) = init_device();
    // Key 5 (wire 0x09) rising: (0x09 << 2) | 3 = 0x27; the sentinel in
    // between must come out as None, at its own position.
    shared
        .borrow_mut()
        .read_queue
        .push(vec![0x27, 0xff, 0x03]);
    let mut events = vec![None; 3];
    device
        .read_key_events(&mut events, &mut delay)
        .expect("read succeeds");
    let first = events[0].expect("a decoded event");
    assert_eq!(first.key.index(), 5);
    assert_eq!(first.event, Event::Rising);
    assert!(events[1].is_none());
    let third = events[2].expect("a decoded event");
    assert_eq!(third.key.index(), 0);
    assert_eq!(third.event, Event::Rising);
    // The FIFO register was selected before the read.
    assert_eq!(shared.borrow().writes[0], (ADDR, vec![0x10, 0x10]));
}

#[test]
fn keypad_count_reads_one_byte() {
    let (mut device, shared, mut delay) = init_device();
    shared.borrow_mut().read_queue.push(vec![5]);
    let count = device.keypad_count(&mut delay).expect("read succeeds");
    assert_eq!(count, 5);
    assert_eq!(shared.borrow().writes[0], (ADDR, vec![0x10, 0x04]));
}

#[test]
fn keypad_count_propagates_read_failure() {
    let (mut device, shared, mut delay) = init_device();
    shared.borrow_mut().fail_reads = true;
    let result = device.keypad_count(&mut delay);
    match result {
        Err(Error::ReadError(code)) => assert_eq!(code, 0xe2),
        _ => panic!("expected a read error"),
    }
}

/// A grid of `cols x rows` initialized devices, with one shared log per
/// tile, indexed `[column][row]`.
fn init_grid(
    cols: usize,
    rows: usize,
) -> (MultiTrellis<StubBus>, Vec<Vec<Rc<RefCell<Shared>>>>) {
    let mut grid = Vec::new();
    let mut logs = Vec::new();
    for _ in 0..cols {
        let mut column = Vec::new();
        let mut column_logs = Vec::new();
        for _ in 0..rows {
            let (device, shared, _) = init_device();
            column.push(device);
            column_logs.push(shared);
        }
        grid.push(column);
        logs.push(column_logs);
    }
    (MultiTrellis { trellis: grid }, logs)
}

#[test]
fn multi_set_led_color_maps_global_coordinates() {
    let (mut multi, logs) = init_grid(2, 3);
    let mut delay = StubDelay::default();
    // Global (5, 9): tile column 1, tile row 2, local index 1 + 1 * 4 = 5.
    multi
        .set_led_color((5, 9), Color::rgb(1, 2, 3), &mut delay)
        .expect("in bounds");
    // Only tile [1][2] saw a transaction: offset 15 = 5 * 3.
    for x in 0..2 {
        for y in 0..3 {
            let writes = &logs[x][y].borrow().writes;
            if (x, y) == (1, 2) {
                assert_eq!(writes[0], (ADDR, vec![0x0e, 0x04, 0x00, 0x0f, 2, 1, 3]));
            } else {
                assert!(writes.is_empty());
            }
        }
    }
}

#[test]
fn multi_set_led_color_drops_out_of_bounds() {
    let (mut multi, logs) = init_grid(1, 1);
    let mut delay = StubDelay::default();
    // Tile column 10 / 4 = 2 is outside the 1 x 1 grid: success, and no
    // bus transaction at all.
    multi
        .set_led_color((10, 2), Color::rgb(1, 2, 3), &mut delay)
        .expect("silently dropped");
    assert!(logs[0][0].borrow().writes.is_empty());
    assert!(delay.us.is_empty());
}

#[test]
fn multi_show_latches_every_tile() {
    let (mut multi, logs) = init_grid(2, 2);
    let mut delay = StubDelay::default();
    multi.show(&mut delay).expect("all tiles latch");
    for column in &logs {
        for log in column {
            assert_eq!(log.borrow().writes, vec![(ADDR, vec![0x0e, 0x05])]);
        }
    }
}

#[test]
fn multi_show_stops_at_first_failing_tile() {
    let (mut multi, logs) = init_grid(1, 2);
    logs[0][1].borrow_mut().fail_writes_from = Some(0);
    let mut delay = StubDelay::default();
    let result = multi.show(&mut delay);
    match result {
        Err(Error::WriteError(code)) => assert_eq!(code, 0xe1),
        _ => panic!("expected a write error"),
    }
    // The first tile was latched before the second one failed.
    assert_eq!(logs[0][0].borrow().writes, vec![(ADDR, vec![0x0e, 0x05])]);
    assert!(logs[0][1].borrow().writes.is_empty());
}

#[test]
fn multi_read_events_keeps_slot_when_fifo_is_idle() {
    let (mut multi, _logs) = init_grid(1, 1);
    let mut delay = StubDelay::default();
    // The scripted queue is empty, so the tile's FIFO read answers with
    // sentinel bytes only: the caller's slot keeps its prior value.
    let marker = neotrellis::MultiEvent {
        coordinate: (1, 2),
        event: Event::Falling,
    };
    let mut events = vec![Some(marker); 4];
    multi.read_events(&mut events, &mut delay).expect("read succeeds");
    assert_eq!(events[0], Some(marker));
}

#[test]
fn multi_read_events_propagates_read_failure() {
    let (mut multi, logs) = init_grid(1, 1);
    logs[0][0].borrow_mut().fail_reads = true;
    let mut delay = StubDelay::default();
    let mut events = vec![None; 4];
    let result = multi.read_events(&mut events, &mut delay);
    match result {
        Err(Error::ReadError(code)) => assert_eq!(code, 0xe2),
        _ => panic!("expected a read error"),
    }
}

#[test]
fn multi_read_events_translates_to_global() {
    let (mut multi, logs) = init_grid(2, 3);
    let mut delay = StubDelay::default();
    // Tile (1, 2) reports local key row 1, column 1: index 5, wire 0x09,
    // rising edge: (0x09 << 2) | 3 = 0x27.
    logs[1][2].borrow_mut().read_queue.push(vec![0x27]);
    let mut events = vec![None; 16];
    multi
        .read_events(&mut events, &mut delay)
        .expect("all tiles read");
    // The tile's slot is 1 + 4 * 2 = 9; the global coordinate is
    // (4 * 1 + 1, 4 * 2 + 1) = (5, 9).
    for (i, slot) in events.iter().enumerate() {
        if i == 9 {
            let event = slot.expect("the translated event");
            assert_eq!(event.coordinate, (5, 9));
            assert_eq!(event.event, Event::Rising);
        } else {
            assert!(slot.is_none());
        }
    }
    // Every tile's FIFO was selected and read once.
    for column in &logs {
        for log in column {
            assert_eq!(log.borrow().writes, vec![(ADDR, vec![0x10, 0x10])]);
        }
    }
}
