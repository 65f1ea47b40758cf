//! The hardware backend: a Scroll pHAT HD LED-matrix controller driven over
//! I2C through a byte-oriented register-write capability.

use vstd::prelude::*;

use crate::display::Display;
use crate::shared::{cols, window_pixel, Column, DISPLAY_HEIGHT, DISPLAY_WIDTH};
use crate::Error;
use i2cdev::linux::{LinuxI2CDevice, LinuxI2CError};
use vstd::arithmetic::div_mod::{lemma_div_is_ordered, lemma_fundamental_div_mod_converse};
use vstd::array::array_as_slice;
use vstd::slice::{slice_index_get, slice_subrange};

verus! {

// Registers in the configuration bank.
pub const MODE_REGISTER: u8 = 0x00;
pub const FRAME_REGISTER: u8 = 0x01;
pub const AUDIOSYNC_REGISTER: u8 = 0x06;
pub const SHUTDOWN_REGISTER: u8 = 0x0A;
pub const GAIN_REGISTER: u8 = 0x0B;

// Bank selection: writing `CONFIG_BANK` or a frame number (0 or 1) to the
// bank-address register directs all following register writes to that bank.
pub const CONFIG_BANK: u8 = 0x0B;
pub const BANK_ADDRESS: u8 = 0xFD;

// The controller mode used: plain bitmap-intensity pictures.
pub const PICTURE_MODE: u8 = 0x00;

// Blocks of per-LED registers inside a frame bank.
pub const ENABLE_OFFSET: u8 = 0x00;
pub const BLINK_OFFSET: u8 = 0x12;
pub const COLOR_OFFSET: u8 = 0x24;

/// The device's fixed 7-bit bus address.
pub const ADDRESS: u16 = 0x74;

/// One completed register write: the destination register and the data
/// bytes that went to it.
pub ghost struct BusWrite {
    pub register: u8,
    pub data: Seq<u8>,
}

/// A completed single-byte register write.
pub open spec fn byte_write(register: u8, value: u8) -> BusWrite {
    BusWrite { register, data: seq![value] }
}

/// A completed block register write.
pub open spec fn block_write(register: u8, data: Seq<u8>) -> BusWrite {
    BusWrite { register, data }
}

/// `cur` extends `base` by a strict prefix of the `expected` writes: some
/// of them completed, in order, but not all.
pub open spec fn partial(base: Seq<BusWrite>, cur: Seq<BusWrite>, expected: Seq<BusWrite>) -> bool {
    exists|k: int| 0 <= k < expected.len() && cur == base + expected.take(k)
}

/// The error of a failed bus operation.
#[derive(Clone, Copy, Debug, PartialEq, Eq, Structural)]
pub struct BusError {}

/// A byte-oriented register-write capability over an already-open bus
/// handle. The core issues register operations against it and never opens
/// or configures the transport itself.
pub trait Bus: Sized {
    /// The register writes completed so far, oldest first.
    spec fn log(&self) -> Seq<BusWrite>;

    /// Writes `data` to `register` in one bus transaction of at most 31
    /// data bytes. A failed transaction did not complete, so it records
    /// nothing.
    fn write_block(&mut self, register: u8, data: &[u8]) -> (r: Result<(), BusError>)
        requires
            data@.len() <= 31,
        ensures
            r is Ok ==> final(self).log() == old(self).log().push(block_write(register, data@)),
            r is Err ==> final(self).log() == old(self).log(),
    ;
}

#[verifier::external_type_specification]
#[verifier::external_body]
pub struct ExLinuxI2CDevice(LinuxI2CDevice);

#[verifier::external_type_specification]
#[verifier::external_body]
pub struct ExLinuxI2CError(LinuxI2CError);

/// Relies on i2cdev's `LinuxI2CDevice::new`: opens the numbered I2C bus
/// device file and selects the given slave address. Success depends on the
/// machine, so nothing is promised of the outcome.
#[verifier::external_body]
fn open_device(device_id: u8, address: u16) -> Result<LinuxI2CDevice, LinuxI2CError> {
    LinuxI2CDevice::new(format!("/dev/i2c-{}", device_id), address)
}

/// Relies on i2cdev's `LinuxI2CDevice::smbus_process_block`: issues one
/// SMBus block process-call transaction writing `values` to `register`
/// (the transaction carries at most 31 data bytes); the response bytes are
/// discarded. Success depends on the bus, so nothing is promised of the
/// outcome.
#[verifier::external_body]
fn process_block(
    device: &mut LinuxI2CDevice,
    register: u8,
    values: &[u8],
) -> Result<(), LinuxI2CError>
    requires
        values@.len() <= 31,
{
    match i2cdev::core::I2CDevice::smbus_process_block(device, register, values) {
        Ok(_) => Ok(()),
        Err(e) => Err(e),
    }
}

/// The hardware bus: an exclusively owned Linux I2C device handle.
pub struct I2CBus {
    device: LinuxI2CDevice,
    history: Ghost<Seq<BusWrite>>,
}

impl I2CBus {
    /// Opens the I2C bus device identified by `device_id` (normally 1 or
    /// 2), with the matrix controller's fixed address selected.
    pub fn new(device_id: u8) -> (r: Result<I2CBus, BusError>)
        ensures
            r matches Ok(b) ==> b.log() == Seq::<BusWrite>::empty(),
    {
        match open_device(device_id, ADDRESS) {
            Ok(d) => Ok(I2CBus { device: d, history: Ghost(Seq::empty()) }),
            Err(_) => Err(BusError {  }),
        }
    }
}

impl Bus for I2CBus {
    closed spec fn log(&self) -> Seq<BusWrite> {
        self.history@
    }

    fn write_block(&mut self, register: u8, data: &[u8]) -> (r: Result<(), BusError>) {
        match process_block(&mut self.device, register, data) {
            Ok(()) => {
                proof {
                    self.history@ = self.history@.push(block_write(register, data@));
                }
                Ok(())
            },
            Err(_) => Err(BusError {  }),
        }
    }
}

/// One register write kept by a `RecordingBus`.
pub struct BusRecord {
    pub register: u8,
    pub data: Vec<u8>,
}

impl View for BusRecord {
    type V = BusWrite;

    open spec fn view(&self) -> BusWrite {
        block_write(self.register, self.data@)
    }
}

/// A bus for development and tests: it performs no I/O, keeps every write
/// it accepts, and can be told to start failing once a given number of
/// writes has been recorded.
pub struct RecordingBus {
    pub writes: Vec<BusRecord>,
    pub fail_at: Option<usize>,
}

impl RecordingBus {
    /// A recording bus on which every write succeeds.
    pub fn new() -> (b: RecordingBus)
        ensures
            b.log() == Seq::<BusWrite>::empty(),
            b.fail_at is None,
    {
        RecordingBus { writes: Vec::new(), fail_at: None }
    }

    /// A recording bus that accepts `n` writes and fails from then on.
    pub fn failing_after(n: usize) -> (b: RecordingBus)
        ensures
            b.log() == Seq::<BusWrite>::empty(),
            b.fail_at == Some(n),
    {
        RecordingBus { writes: Vec::new(), fail_at: Some(n) }
    }

    /// How many writes have been recorded.
    pub fn count(&self) -> (n: usize)
        ensures
            n == self.log().len(),
    {
        self.writes.len()
    }
}

impl Bus for RecordingBus {
    open spec fn log(&self) -> Seq<BusWrite> {
        self.writes@.map_values(|r: BusRecord| r@)
    }

    fn write_block(&mut self, register: u8, data: &[u8]) -> (r: Result<(), BusError>)
        ensures
            final(self).fail_at == old(self).fail_at,
            r is Ok <==> (match old(self).fail_at {
                Some(n) => old(self).log().len() < n,
                None => true,
            }),
    {
        let full = match self.fail_at {
            Some(n) => self.writes.len() >= n,
            None => false,
        };
        if full {
            return Err(BusError {  });
        }
        let ghost prev = self.writes@;
        let record = BusRecord { register, data: slice_to_vec_bytes(data) };
        self.writes.push(record);
        proof {
            assert forall|k: int| 0 <= k < self.writes@.len() implies self.log()[k] == prev
                .map_values(|r: BusRecord| r@).push(block_write(register, data@))[k] by {
                if k < prev.len() {
                    assert(self.writes@[k] == prev[k]);
                }
            }
            assert(self.log() =~= old(self).log().push(block_write(register, data@)));
        }
        Ok(())
    }
}

/// Copies the bytes of a slice into a fresh vector.
fn slice_to_vec_bytes(data: &[u8]) -> (v: Vec<u8>)
    ensures
        v@ == data@,
{
    let mut v: Vec<u8> = Vec::new();
    let mut i: usize = 0;
    while i < data.len()
        invariant
            i <= data@.len(),
            v@ == data@.take(i as int),
        decreases data@.len() - i,
    {
        let b: u8 = *slice_index_get(data, i);
        v.push(b);
        proof {
            assert(v@ =~= data@.take(i + 1));
        }
        i = i + 1;
    }
    proof {
        assert(data@.take(data@.len() as int) =~= data@);
    }
    v
}

/// How many bus transactions a block of `len` bytes needs, at 31 data
/// bytes per transaction.
pub open spec fn chunk_count(len: int) -> int {
    (len + 30) / 31
}

/// The bus writes that transmit `data` to consecutive registers starting
/// at `base`: chunks of at most 31 bytes, each at the register its first
/// byte belongs to.
pub open spec fn chunk_writes(base: int, data: Seq<u8>) -> Seq<BusWrite> {
    Seq::new(chunk_count(data.len() as int) as nat, |k: int| block_write(
        (base + 31 * k) as u8,
        data.subrange(31 * k, if 31 * k + 31 <= data.len() { 31 * k + 31 } else { data.len() as int }),
    ))
}

/// The controller's memory offset of the intensity register for logical
/// pixel `(x, y)`: the matrix is wired as two interleaved zig-zag strips
/// that meet at column 8.
pub open spec fn led_offset_spec(x: int, y: int) -> int {
    if x >= 8 {
        (x - 8) * 16 + y
    } else {
        (8 - x) * 16 - (y + 2)
    }
}

/// Computes the intensity-register offset of logical pixel `(x, y)`.
pub fn led_offset(x: usize, y: usize) -> (r: u8)
    requires
        x < 17,
        y < 7,
    ensures
        r == led_offset_spec(x as int, y as int),
        r <= 134,
{
    if x >= 8 {
        ((x - 8) * 16 + y) as u8
    } else {
        ((8 - x) * 16 - (y + 2)) as u8
    }
}

/// Address-mapping law: on the 17x7 pixel domain the offset formula stays
/// within the controller's intensity block and is injective, so the 119
/// logical pixels land on 119 distinct intensity registers.
pub proof fn lemma_led_offset_bijective(x1: int, y1: int, x2: int, y2: int)
    requires
        0 <= x1 < 17,
        0 <= y1 < 7,
        0 <= x2 < 17,
        0 <= y2 < 7,
    ensures
        0 <= led_offset_spec(x1, y1) <= 134,
        led_offset_spec(x1, y1) == led_offset_spec(x2, y2) ==> x1 == x2 && y1 == y2,
{
    // On the left half the offset decomposes with a remainder of at least
    // 8, on the right half with a remainder of at most 6: the two halves
    // cannot collide, and within one half the decomposition is unique.
    assert(x1 < 8 ==> led_offset_spec(x1, y1) == (7 - x1) * 16 + (14 - y1));
    assert(x2 < 8 ==> led_offset_spec(x2, y2) == (7 - x2) * 16 + (14 - y2));
}

/// A Scroll pHAT HD device: a 17x7 LED matrix behind an I2C controller,
/// reached through an exclusively owned bus.
///
/// The controller holds two frame banks; `frame` mirrors the bank that is
/// currently displayed. Every `show` redraws the other bank and then flips
/// the frame-select register, so the viewer never sees a partial frame and
/// a failed transmission leaves the displayed frame untouched.
pub struct I2CDisplay<B: Bus> {
    bus: B,
    frame: u8,
}

/// The other frame bank: the one to redraw while `f` is displayed.
pub open spec fn spec_flip(f: u8) -> u8 {
    if f == 0 {
        1
    } else {
        0
    }
}

impl<B: Bus> I2CDisplay<B> {
    /// The frame bank currently displayed.
    pub closed spec fn current_frame(&self) -> u8 {
        self.frame
    }

    /// The register writes the underlying bus has completed.
    pub closed spec fn bus_log(&self) -> Seq<BusWrite> {
        self.bus.log()
    }

    /// A borrow of the underlying bus.
    pub fn bus(&self) -> (b: &B)
        ensures
            b.log() == self.bus_log(),
    {
        &self.bus
    }

    /// Sends one chunked block write: `data` goes to consecutive registers
    /// starting at `base_address`, at most 31 bytes per transaction.
    pub fn write_data(&mut self, base_address: u8, data: &[u8]) -> (r: Result<(), BusError>)
        requires
            base_address + data@.len() <= 256,
        ensures
            final(self).current_frame() == old(self).current_frame(),
            data@.len() == 0 ==> r is Ok,
            r is Ok ==> final(self).bus_log() == old(self).bus_log() + chunk_writes(
                base_address as int,
                data@,
            ),
            r is Err ==> partial(
                old(self).bus_log(),
                final(self).bus_log(),
                chunk_writes(base_address as int, data@),
            ),
    {
        let ghost cw = chunk_writes(base_address as int, data@);
        let len = data.len();
        let mut i: usize = 0;
        let ghost k: int = 0;
        while i < len
            invariant
                len == data@.len(),
                base_address + len <= 256,
                0 <= k,
                i == 31 * k || (i == len && len <= 31 * k < len + 31),
                i <= len,
                i < len ==> i == 31 * k,
                cw == chunk_writes(base_address as int, data@),
                self.bus.log() == old(self).bus.log() + cw.take(k),
                k <= cw.len(),
                self.frame == old(self).frame,
            decreases len - i,
        {
            proof {
                // One more chunk fits: k < chunk_count(len).
                lemma_fundamental_div_mod_converse(31 * (k + 1), 31, k + 1, 0);
                lemma_div_is_ordered(31 * (k + 1), len + 30, 31);
            }
            let end = if i + 31 <= len {
                i + 31
            } else {
                len
            };
            let chunk = slice_subrange(data, i, end);
            let reg = base_address + (i as u8);
            match self.bus.write_block(reg, chunk) {
                Ok(()) => {},
                Err(_) => {
                    proof {
                        assert(0 <= k < cw.len() && self.bus.log() == old(self).bus.log()
                            + cw.take(k));
                    }
                    return Err(BusError {  });
                },
            }
            proof {
                assert(cw[k] == block_write(reg, chunk@));
                assert(cw.take(k + 1) =~= cw.take(k).push(cw[k]));
                k = k + 1;
            }
            i = end;
        }
        proof {
            // All chunks were sent: k == chunk_count(len).
            if len == 0 {
                assert(chunk_count(0) == 0);
            } else {
                lemma_fundamental_div_mod_converse(len + 30, 31, k, len + 30 - 31 * k);
            }
            assert(cw.take(k) =~= cw);
        }
        Ok(())
    }

    /// Writes a single byte to one register.
    pub fn write_byte(&mut self, register: u8, value: u8) -> (r: Result<(), BusError>)
        ensures
            final(self).current_frame() == old(self).current_frame(),
            r is Ok ==> final(self).bus_log() == old(self).bus_log().push(
                byte_write(register, value),
            ),
            r is Err ==> final(self).bus_log() == old(self).bus_log(),
    {
        let data = [value];
        let ghost cw = chunk_writes(register as int, data@);
        proof {
            assert(chunk_count(1) == 1);
            assert(data@.subrange(0, 1) =~= seq![value]);
            assert(cw =~= seq![byte_write(register, value)]);
            assert(cw.take(0int) =~= Seq::<BusWrite>::empty());
        }
        let r = self.write_data(register, array_as_slice(&data));
        proof {
            if r is Err {
                assert(self.bus_log() == old(self).bus_log());
            }
        }
        r
    }

    /// Selects the bank that the following register writes go to.
    pub fn bank(&mut self, bank: u8) -> (r: Result<(), BusError>)
        ensures
            final(self).current_frame() == old(self).current_frame(),
            r is Ok ==> final(self).bus_log() == old(self).bus_log().push(
                byte_write(BANK_ADDRESS, bank),
            ),
            r is Err ==> final(self).bus_log() == old(self).bus_log(),
    {
        self.write_byte(BANK_ADDRESS, bank)
    }

    /// Writes `value` to `register` inside `bank`: first the bank
    /// selection, then the register write itself.
    pub fn register(&mut self, bank: u8, register: u8, value: u8) -> (r: Result<(), BusError>)
        ensures
            final(self).current_frame() == old(self).current_frame(),
            r is Ok ==> final(self).bus_log() == old(self).bus_log() + seq![
                byte_write(BANK_ADDRESS, bank),
                byte_write(register, value),
            ],
            r is Err ==> final(self).bus_log() == old(self).bus_log() || final(self).bus_log()
                == old(self).bus_log().push(byte_write(BANK_ADDRESS, bank)),
    {
        match self.bank(bank) {
            Ok(()) => {},
            Err(e) => {
                return Err(e);
            },
        }
        match self.write_byte(register, value) {
            Ok(()) => {
                proof {
                    assert(self.bus_log() =~= old(self).bus_log() + seq![
                        byte_write(BANK_ADDRESS, bank),
                        byte_write(register, value),
                    ]);
                }
                Ok(())
            },
            Err(e) => Err(e),
        }
    }

    /// Flips the displayed frame: writes `frame` to the frame-select
    /// register in the configuration bank.
    pub fn frame(&mut self, frame: u8) -> (r: Result<(), BusError>)
        ensures
            final(self).current_frame() == old(self).current_frame(),
            r is Ok ==> final(self).bus_log() == old(self).bus_log() + seq![
                byte_write(BANK_ADDRESS, CONFIG_BANK),
                byte_write(FRAME_REGISTER, frame),
            ],
            r is Err ==> final(self).bus_log() == old(self).bus_log() || final(self).bus_log()
                == old(self).bus_log().push(byte_write(BANK_ADDRESS, CONFIG_BANK)),
    {
        self.register(CONFIG_BANK, FRAME_REGISTER, frame)
    }

    /// Puts the controller to sleep or wakes it, through the shutdown
    /// register in the configuration bank.
    pub fn sleep(&mut self, value: bool) -> (r: Result<(), BusError>)
        ensures
            final(self).current_frame() == old(self).current_frame(),
            r is Ok ==> final(self).bus_log() == old(self).bus_log() + seq![
                byte_write(BANK_ADDRESS, CONFIG_BANK),
                byte_write(SHUTDOWN_REGISTER, if value { 0u8 } else { 1u8 }),
            ],
            r is Err ==> final(self).bus_log() == old(self).bus_log() || final(self).bus_log()
                == old(self).bus_log().push(byte_write(BANK_ADDRESS, CONFIG_BANK)),
    {
        self.register(CONFIG_BANK, SHUTDOWN_REGISTER, if value { 0 } else { 1 })
    }
}

/// All 119 per-LED register bytes of one bank set to one value.
pub open spec fn fill_bytes(v: u8) -> Seq<u8> {
    Seq::new(119, |i: int| v)
}

/// The writes that initialize one frame bank: select the bank, turn every
/// per-LED blink flag off, zero every per-LED intensity, and mark every
/// LED enabled.
pub open spec fn frame_init_writes(f: u8) -> Seq<BusWrite> {
    seq![byte_write(BANK_ADDRESS, f)] + chunk_writes(BLINK_OFFSET as int, fill_bytes(0))
        + chunk_writes(COLOR_OFFSET as int, fill_bytes(0)) + chunk_writes(
        ENABLE_OFFSET as int,
        fill_bytes(127),
    )
}

/// The whole initialization sequence: put the controller into picture
/// mode, disable audio sync, and initialize both frame banks.
pub open spec fn init_writes() -> Seq<BusWrite> {
    seq![
        byte_write(BANK_ADDRESS, CONFIG_BANK),
        byte_write(MODE_REGISTER, PICTURE_MODE),
        byte_write(BANK_ADDRESS, CONFIG_BANK),
        byte_write(AUDIOSYNC_REGISTER, 0u8),
    ] + frame_init_writes(0) + frame_init_writes(1)
}

/// The intensity write for pixel index `i` of a frame transmission, in
/// row-major order: row `i / 17`, column `i % 17`.
pub open spec fn pixel_write(buf: Seq<Seq<u8>>, i: int) -> BusWrite {
    byte_write(
        (COLOR_OFFSET + led_offset_spec(i % 17, i / 17)) as u8,
        window_pixel(buf, i % 17, i / 17),
    )
}

/// Everything one successful `show` transmits: select the bank being
/// redrawn, write all 119 pixel intensities, then select the configuration
/// bank and flip the frame-select register to the redrawn bank.
pub open spec fn show_writes(buf: Seq<Seq<u8>>, f: u8) -> Seq<BusWrite> {
    seq![byte_write(BANK_ADDRESS, f)] + Seq::new(119, |i: int| pixel_write(buf, i)) + seq![
        byte_write(BANK_ADDRESS, CONFIG_BANK),
        byte_write(FRAME_REGISTER, f),
    ]
}

/// A step that completed `sub`, sitting at position `done` of `expected`,
/// advances a log that covered `expected` up to `done`.
proof fn lemma_exact_compose(
    base: Seq<BusWrite>,
    done: int,
    expected: Seq<BusWrite>,
    sub: Seq<BusWrite>,
    cur: Seq<BusWrite>,
)
    requires
        0 <= done,
        done + sub.len() <= expected.len(),
        expected.subrange(done, done + sub.len()) == sub,
        cur == (base + expected.take(done)) + sub,
    ensures
        cur == base + expected.take(done + sub.len()),
{
    assert(expected.take(done + sub.len()) =~= expected.take(done) + sub);
    assert((base + expected.take(done)) + sub =~= base + (expected.take(done) + sub));
}

/// A step that completed only part of `sub`, sitting at position `done` of
/// `expected`, leaves a log that covers a strict prefix of `expected`.
proof fn lemma_partial_compose(
    base: Seq<BusWrite>,
    done: int,
    expected: Seq<BusWrite>,
    sub: Seq<BusWrite>,
    cur: Seq<BusWrite>,
)
    requires
        0 <= done,
        done + sub.len() <= expected.len(),
        expected.subrange(done, done + sub.len()) == sub,
        partial(base + expected.take(done), cur, sub),
    ensures
        partial(base, cur, expected),
{
    let k = choose|k: int|
        0 <= k < sub.len() && cur == (base + expected.take(done)) + sub.take(k);
    assert(expected.take(done + k) =~= expected.take(done) + sub.take(k));
    assert((base + expected.take(done)) + sub.take(k) =~= base + (expected.take(done) + sub.take(
        k,
    )));
    assert(0 <= done + k < expected.len() && cur == base + expected.take(done + k));
}

/// Failure law: when a `show` transmission stops early, the frame-select
/// register was never written, so the previously displayed frame stayed
/// selected — the flip is the very last write of the sequence.
pub proof fn lemma_failed_show_keeps_frame(
    base: Seq<BusWrite>,
    cur: Seq<BusWrite>,
    buf: Seq<Seq<u8>>,
    f: u8,
)
    requires
        partial(base, cur, show_writes(buf, f)),
    ensures
        forall|j: int| base.len() <= j < cur.len() ==> cur[j].register != FRAME_REGISTER,
{
    let expected = show_writes(buf, f);
    let k = choose|k: int| 0 <= k < expected.len() && cur == base + expected.take(k);
    assert forall|j: int| base.len() <= j < cur.len() implies cur[j].register
        != FRAME_REGISTER by {
        let i = j - base.len();
        assert(cur[j] == expected[i]);
        assert(0 <= i < k < 122);
        if 1 <= i && i <= 119 {
            let p = i - 1;
            assert(0 <= p % 17 < 17);
            lemma_div_is_ordered(0, p, 17);
            lemma_div_is_ordered(p, 118, 17);
            assert(0 <= p / 17 < 7);
            lemma_led_offset_bijective(p % 17, p / 17, p % 17, p / 17);
            assert(expected[i] == pixel_write(buf, p));
        }
    }
}

impl<B: Bus> I2CDisplay<B> {
    /// Initializes one frame bank.
    fn init_frame(&mut self, f: u8) -> (r: Result<(), BusError>)
        ensures
            final(self).current_frame() == old(self).current_frame(),
            r is Ok ==> final(self).bus_log() == old(self).bus_log() + frame_init_writes(f),
            r is Err ==> partial(
                old(self).bus_log(),
                final(self).bus_log(),
                frame_init_writes(f),
            ),
    {
        let ghost expected = frame_init_writes(f);
        let ghost base = self.bus_log();
        let ghost blink = chunk_writes(BLINK_OFFSET as int, fill_bytes(0));
        let ghost color = chunk_writes(COLOR_OFFSET as int, fill_bytes(0));
        let ghost enable = chunk_writes(ENABLE_OFFSET as int, fill_bytes(127));
        proof {
            assert(chunk_count(119) == 4);
            assert(expected.len() == 13);
            assert(expected.take(0int) =~= Seq::<BusWrite>::empty());
            assert(expected.subrange(0int, 1int) =~= seq![byte_write(BANK_ADDRESS, f)]);
            assert(expected.subrange(1int, 5int) =~= blink);
            assert(expected.subrange(5int, 9int) =~= color);
            assert(expected.subrange(9int, 13int) =~= enable);
        }
        let zeros = [0u8; 119];
        let enables = [127u8; 119];
        proof {
            assert(zeros@ =~= fill_bytes(0));
            assert(enables@ =~= fill_bytes(127));
        }
        match self.bank(f) {
            Ok(()) => {
                proof {
                    lemma_exact_compose(
                        base,
                        0,
                        expected,
                        seq![byte_write(BANK_ADDRESS, f)],
                        self.bus_log(),
                    );
                }
            },
            Err(e) => {
                proof {
                    assert(self.bus_log() == base + expected.take(0int));
                }
                return Err(e);
            },
        }
        match self.write_data(BLINK_OFFSET, array_as_slice(&zeros)) {
            Ok(()) => {
                proof {
                    lemma_exact_compose(base, 1, expected, blink, self.bus_log());
                }
            },
            Err(e) => {
                proof {
                    lemma_partial_compose(base, 1, expected, blink, self.bus_log());
                }
                return Err(e);
            },
        }
        match self.write_data(COLOR_OFFSET, array_as_slice(&zeros)) {
            Ok(()) => {
                proof {
                    lemma_exact_compose(base, 5, expected, color, self.bus_log());
                }
            },
            Err(e) => {
                proof {
                    lemma_partial_compose(base, 5, expected, color, self.bus_log());
                }
                return Err(e);
            },
        }
        match self.write_data(ENABLE_OFFSET, array_as_slice(&enables)) {
            Ok(()) => {
                proof {
                    lemma_exact_compose(base, 9, expected, enable, self.bus_log());
                    assert(expected.take(13int) =~= expected);
                }
            },
            Err(e) => {
                proof {
                    lemma_partial_compose(base, 9, expected, enable, self.bus_log());
                }
                return Err(e);
            },
        }
        Ok(())
    }

    /// Runs the controller's initialization sequence: picture mode, audio
    /// sync off, and for both frame banks no blinking, all intensities
    /// zero, all LEDs enabled.
    pub fn init_display(&mut self) -> (r: Result<(), BusError>)
        ensures
            final(self).current_frame() == old(self).current_frame(),
            r is Ok ==> final(self).bus_log() == old(self).bus_log() + init_writes(),
            r is Err ==> partial(old(self).bus_log(), final(self).bus_log(), init_writes()),
    {
        let ghost expected = init_writes();
        let ghost base = self.bus_log();
        proof {
            assert(chunk_count(119) == 4);
            assert(frame_init_writes(0).len() == 13);
            assert(frame_init_writes(1).len() == 13);
            assert(expected.len() == 30);
            assert(expected.take(0int) =~= Seq::<BusWrite>::empty());
            assert(expected.subrange(0int, 2int) =~= seq![
                byte_write(BANK_ADDRESS, CONFIG_BANK),
                byte_write(MODE_REGISTER, PICTURE_MODE),
            ]);
            assert(expected.subrange(2int, 4int) =~= seq![
                byte_write(BANK_ADDRESS, CONFIG_BANK),
                byte_write(AUDIOSYNC_REGISTER, 0u8),
            ]);
            assert(expected.subrange(4int, 17int) =~= frame_init_writes(0));
            assert(expected.subrange(17int, 30int) =~= frame_init_writes(1));
        }
        match self.register(CONFIG_BANK, MODE_REGISTER, PICTURE_MODE) {
            Ok(()) => {
                proof {
                    lemma_exact_compose(
                        base,
                        0,
                        expected,
                        seq![
                            byte_write(BANK_ADDRESS, CONFIG_BANK),
                            byte_write(MODE_REGISTER, PICTURE_MODE),
                        ],
                        self.bus_log(),
                    );
                }
            },
            Err(e) => {
                proof {
                    if self.bus_log() == base {
                        assert(self.bus_log() == base + expected.take(0int));
                    } else {
                        assert(expected.take(1int) =~= seq![byte_write(BANK_ADDRESS, CONFIG_BANK)]);
                        assert(self.bus_log() =~= base + expected.take(1int));
                    }
                }
                return Err(e);
            },
        }
        match self.register(CONFIG_BANK, AUDIOSYNC_REGISTER, 0) {
            Ok(()) => {
                proof {
                    lemma_exact_compose(
                        base,
                        2,
                        expected,
                        seq![
                            byte_write(BANK_ADDRESS, CONFIG_BANK),
                            byte_write(AUDIOSYNC_REGISTER, 0u8),
                        ],
                        self.bus_log(),
                    );
                }
            },
            Err(e) => {
                proof {
                    if self.bus_log() == base + expected.take(2int) {
                        assert(self.bus_log() == base + expected.take(2int));
                    } else {
                        assert(expected.take(3int) =~= expected.take(2int).push(
                            byte_write(BANK_ADDRESS, CONFIG_BANK),
                        ));
                        assert(self.bus_log() =~= base + expected.take(3int));
                    }
                }
                return Err(e);
            },
        }
        match self.init_frame(0) {
            Ok(()) => {
                proof {
                    lemma_exact_compose(base, 4, expected, frame_init_writes(0), self.bus_log());
                }
            },
            Err(e) => {
                proof {
                    lemma_partial_compose(base, 4, expected, frame_init_writes(0), self.bus_log());
                }
                return Err(e);
            },
        }
        match self.init_frame(1) {
            Ok(()) => {
                proof {
                    lemma_exact_compose(base, 17, expected, frame_init_writes(1), self.bus_log());
                    assert(expected.take(30int) =~= expected);
                }
            },
            Err(e) => {
                proof {
                    lemma_partial_compose(base, 17, expected, frame_init_writes(1), self.bus_log());
                }
                return Err(e);
            },
        }
        Ok(())
    }

    /// Builds a display over an already-open bus and runs the controller's
    /// initialization sequence; a failure during initialization makes the
    /// whole construction fail.
    pub fn with_bus(bus: B) -> (r: Result<I2CDisplay<B>, Error>)
        ensures
            r matches Ok(d) ==> d.wf() && d.current_frame() == 0 && d.bus_log() == bus.log()
                + init_writes(),
            r is Err ==> r == Err::<I2CDisplay<B>, Error>(Error::InitializationFailure),
    {
        let mut d = I2CDisplay { bus, frame: 0 };
        match d.init_display() {
            Ok(()) => Ok(d),
            Err(_) => Err(Error::InitializationFailure),
        }
    }
}

impl I2CDisplay<I2CBus> {
    /// Creates a new `I2CDisplay` using the I2C device identified by the
    /// provided `device_id` (normally 1 or 2), and initializes the
    /// controller.
    pub fn new(device_id: u8) -> (r: Result<I2CDisplay<I2CBus>, Error>)
        ensures
            r matches Ok(d) ==> d.wf() && d.current_frame() == 0 && d.bus_log() == init_writes(),
            r is Err ==> r == Err::<I2CDisplay<I2CBus>, Error>(Error::InitializationFailure),
    {
        match I2CBus::new(device_id) {
            Ok(bus) => {
                proof {
                    assert(Seq::<BusWrite>::empty() + init_writes() =~= init_writes());
                }
                Self::with_bus(bus)
            },
            Err(_) => Err(Error::InitializationFailure),
        }
    }
}

impl<B: Bus> Display for I2CDisplay<B> {
    /// Well-formed: the displayed bank is one of the two frame banks.
    closed spec fn wf(&self) -> bool {
        self.frame == 0 || self.frame == 1
    }

    /// Showing a buffer transmits `show_writes` of it to the other frame
    /// bank and flips to that bank; on a transmission failure only a
    /// strict prefix was written and the displayed frame is unchanged.
    open spec fn shown(pre: Self, post: Self, buf: Seq<Seq<u8>>, r: Result<(), Error>) -> bool {
        &&& r is Ok ==> post.current_frame() == spec_flip(pre.current_frame())
            && post.bus_log() == pre.bus_log() + show_writes(buf, spec_flip(pre.current_frame()))
        &&& r is Err ==> r == Err::<(), Error>(Error::TransmissionFailure)
            && post.current_frame() == pre.current_frame()
            && partial(
            pre.bus_log(),
            post.bus_log(),
            show_writes(buf, spec_flip(pre.current_frame())),
        )
    }

    fn show(&mut self, buffer: &[Column]) -> (r: Result<(), Error>) {
        let ghost buf = cols(buffer@);
        let new_frame: u8 = if self.frame == 0 {
            1
        } else {
            0
        };
        let ghost expected = show_writes(buf, new_frame);
        let ghost base = self.bus_log();
        proof {
            assert(expected.len() == 122);
            assert(expected.take(0int) =~= Seq::<BusWrite>::empty());
        }
        match self.bank(new_frame) {
            Ok(()) => {
                proof {
                    assert(expected.take(1int) =~= seq![byte_write(BANK_ADDRESS, new_frame)]);
                    assert(self.bus_log() =~= base + expected.take(1int));
                }
            },
            Err(_) => {
                proof {
                    assert(self.bus_log() == base + expected.take(0int));
                }
                return Err(Error::TransmissionFailure);
            },
        }
        let mut y: usize = 0;
        while y < DISPLAY_HEIGHT
            invariant
                y <= 7,
                buf == cols(buffer@),
                expected == show_writes(buf, new_frame),
                expected.len() == 122,
                base == old(self).bus_log(),
                self.frame == old(self).frame,
                old(self).wf(),
                new_frame == spec_flip(old(self).current_frame()),
                self.bus_log() == base + expected.take(1 + 17 * y),
            decreases 7 - y,
        {
            let mut x: usize = 0;
            while x < DISPLAY_WIDTH
                invariant
                    x <= 17,
                    y < 7,
                    buf == cols(buffer@),
                    expected == show_writes(buf, new_frame),
                    expected.len() == 122,
                    base == old(self).bus_log(),
                    self.frame == old(self).frame,
                    old(self).wf(),
                    new_frame == spec_flip(old(self).current_frame()),
                    self.bus_log() == base + expected.take(1 + 17 * y + x),
                decreases 17 - x,
            {
                let off = led_offset(x, y);
                let value: u8 = if x < buffer.len() {
                    let c: Column = buffer[x];
                    c[y]
                } else {
                    0
                };
                let reg = COLOR_OFFSET + off;
                let ghost idx: int = 1 + 17 * (y as int) + (x as int);
                proof {
                    lemma_fundamental_div_mod_converse(
                        17 * (y as int) + (x as int),
                        17,
                        y as int,
                        x as int,
                    );
                    assert(expected[idx] == pixel_write(buf, idx - 1));
                    assert(value == window_pixel(buf, x as int, y as int));
                    assert(expected[idx] == byte_write(reg, value));
                }
                match self.write_byte(reg, value) {
                    Ok(()) => {
                        proof {
                            assert(expected.take(idx + 1) =~= expected.take(idx).push(
                                expected[idx],
                            ));
                        }
                    },
                    Err(_) => {
                        proof {
                            assert(0 <= idx < expected.len());
                        }
                        return Err(Error::TransmissionFailure);
                    },
                }
                x = x + 1;
            }
            proof {
                assert(1 + 17 * (y + 1) == 1 + 17 * (y as int) + 17);
            }
            y = y + 1;
        }
        match self.frame(new_frame) {
            Ok(()) => {
                proof {
                    assert(expected.subrange(120int, 122int) =~= seq![
                        byte_write(BANK_ADDRESS, CONFIG_BANK),
                        byte_write(FRAME_REGISTER, new_frame),
                    ]);
                    lemma_exact_compose(
                        base,
                        120,
                        expected,
                        seq![
                            byte_write(BANK_ADDRESS, CONFIG_BANK),
                            byte_write(FRAME_REGISTER, new_frame),
                        ],
                        self.bus_log(),
                    );
                    assert(expected.take(122int) =~= expected);
                }
            },
            Err(_) => {
                proof {
                    if self.bus_log() == base + expected.take(120int) {
                        assert(self.bus_log() == base + expected.take(120int));
                    } else {
                        assert(expected.take(121int) =~= expected.take(120int).push(
                            byte_write(BANK_ADDRESS, CONFIG_BANK),
                        ));
                        assert(self.bus_log() =~= base + expected.take(121int));
                    }
                }
                return Err(Error::TransmissionFailure);
            },
        }
        self.frame = new_frame;
        Ok(())
    }
}

} // verus!
