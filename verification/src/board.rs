//! Register writes that bring up the chips on the CoreS3's internal I2C bus.
//!
//! The values are those that M5Unified and M5GFX use for this board.

use crate::bytes;
use vstd::prelude::*;

verus! {

/// Power management.
pub const AXP2101_ADDR: u8 = 0x34;

/// IO expander.
pub const AW9523_ADDR: u8 = 0x58;

/// Touch controller.
pub const FT6336_ADDR: u8 = 0x38;

/// Microphone converter.
pub const ES7210_ADDR: u8 = 0x40;

/// Loudspeaker amplifier.
pub const AW88298_ADDR: u8 = 0x36;

/// The touch controller's register that holds the number of fingers.
pub const FT6336_TOUCH_REGISTER: u8 = 0x02;

/// Milliseconds to wait after the display has been released from reset.
pub const RESET_SETTLE_MS: u32 = 100;

/// Power management: registers and values. A supply voltage is 0.5 V plus 0.1 V for each unit.
pub const AXP2101_INIT: [(u8, u8); 9] = [
    (0x90, 0xBF),  // supplies on: ALDO1-4, BLDO1-2, DLDO1 (bit 7, the backlight)
    (0x92, 0x0D),  // ALDO1 = 1.8 V (amplifier)
    (0x93, 0x1C),  // ALDO2 = 3.3 V (microphone converter)
    (0x94, 0x1C),  // ALDO3 = 3.3 V (camera)
    (0x95, 0x1C),  // ALDO4 = 3.3 V (card slot)
    (0x99, 0x1C),  // DLDO1 = 3.3 V (backlight: this voltage is its brightness)
    (0x27, 0x00),  // power button: on after 1 s, off after 4 s
    (0x69, 0x11),  // charging LED
    (0x10, 0x30),  // common settings
];

/// IO expander: registers and values. The display's reset line is its pin P1_1.
pub const AW9523_INIT: [(u8, u8); 7] = [
    (0x02, 0b0000_0111),  // P0 output: TOUCH_RST, BUS_EN and P0_2 high
    (0x03, 0b1000_0011),  // P1 output: BOOST_EN, LCD_RST and CAM_RST high
    (0x04, 0b0001_1000),  // P0 direction: bits 3 and 4 are inputs
    (0x05, 0b0000_1100),  // P1 direction: bits 2 and 3 are inputs
    (0x11, 0b0001_0000),  // P0 is push-pull
    (0x12, 0b1111_1111),  // P0 is GPIO, not LED
    (0x13, 0b1111_1111),  // P1 is GPIO, not LED
];

/// Microphone converter: registers and values, for 16-bit I2S as a slave with microphones 1 and
/// 2. The order matters: reset first, the final clock setting last.
pub const ES7210_INIT: [(u8, u8); 26] = [
    (0x00, 0xFF),  // reset
    (0x00, 0x41),  // end of reset
    (0x01, 0x1F),  // all clocks on, for now
    (0x06, 0x00),  // digital power on
    (0x07, 0x20),  // oversampling
    (0x08, 0x10),  // mode
    (0x09, 0x30),  // charge pump 0
    (0x0A, 0x30),  // charge pump 1
    (0x20, 0x0A),  // high-pass filter 2 of ADC 3 and 4
    (0x21, 0x2A),  // high-pass filter 1 of ADC 3 and 4
    (0x22, 0x0A),  // high-pass filter 2 of ADC 1 and 2
    (0x23, 0x2A),  // high-pass filter 1 of ADC 1 and 2
    (0x02, 0xC1),  // divider of the master clock
    (0x04, 0x01),  // ADC control
    (0x05, 0x00),  // ADC control
    (0x11, 0x60),  // serial port: 16-bit I2S
    (0x40, 0x42),  // analog power on
    (0x41, 0x70),  // bias of microphones 1 and 2
    (0x42, 0x70),  // bias of microphones 3 and 4
    (0x43, 0x1B),  // gain of microphone 1
    (0x44, 0x1B),  // gain of microphone 2
    (0x45, 0x00),  // gain of microphone 3 (unused)
    (0x46, 0x00),  // gain of microphone 4 (unused)
    (0x4B, 0x00),  // microphones 1 and 2 on
    (0x4C, 0xFF),  // microphones 3 and 4 off
    (0x01, 0x14),  // only the clocks that are needed
];

/// Loudspeaker amplifier: registers and 16-bit values.
pub const AW88298_INIT: [(u8, u16); 5] = [
    (0x61, 0x0673),  // no boost
    (0x04, 0x4040),  // I2S and amplifier on
    (0x05, 0x0008),  // not muted
    (0x06, 0x14C3),  // I2S format and sample rate
    (0x0C, 0x0064),  // volume
];

/// One write on the I2C bus.
pub struct I2cWrite {
    pub addr: u8,
    pub payload: Vec<u8>,
}

impl View for I2cWrite {
    type V = (u8, Seq<u8>);

    open spec fn view(&self) -> (u8, Seq<u8>) {
        (self.addr, self.payload@)
    }
}

/// The writes that a sequence holds.
pub open spec fn writes_of(s: Seq<I2cWrite>) -> Seq<(u8, Seq<u8>)> {
    Seq::new(s.len(), |i: int| s[i]@)
}

/// One write for each entry of a table of 8-bit registers: the register, then its value.
pub open spec fn byte_writes(addr: u8, table: Seq<(u8, u8)>) -> Seq<(u8, Seq<u8>)> {
    Seq::new(table.len(), |i: int| (addr, seq![table[i].0, table[i].1]))
}

/// One write for each entry of a table of 16-bit registers: the register, then its value with the
/// high byte first.
pub open spec fn word_writes(addr: u8, table: Seq<(u8, u16)>) -> Seq<(u8, Seq<u8>)> {
    Seq::new(table.len(), |i: int| (addr, seq![table[i].0] + bytes::be16(table[i].1 as int)))
}

fn push_byte_writes(out: &mut Vec<I2cWrite>, addr: u8, table: &[(u8, u8)])
    ensures
        writes_of(final(out)@) == writes_of(old(out)@) + byte_writes(addr, table@),
{
    let mut i: usize = 0;
    while i < table.len()
        invariant
            i <= table@.len(),
            writes_of(out@) == writes_of(old(out)@) + byte_writes(addr, table@.take(i as int)),
        decreases table@.len() - i,
    {
        let ghost before = out@;
        let (reg, value) = table[i];
        let mut payload: Vec<u8> = Vec::new();
        payload.push(reg);
        payload.push(value);
        assert(payload@ =~= seq![reg, value]);
        out.push(I2cWrite { addr, payload });
        assert(writes_of(out@) =~= writes_of(before).push((addr, seq![reg, value])));
        assert(writes_of(out@) =~= writes_of(old(out)@) + byte_writes(addr, table@.take(i + 1)));
        i = i + 1;
    }
    assert(table@.take(i as int) =~= table@);
}

/// The writes that power the board's parts and release the display from reset.
pub fn power_writes() -> (w: Vec<I2cWrite>)
    ensures
        w@.len() == 16,
        writes_of(w@) == byte_writes(AXP2101_ADDR, AXP2101_INIT@) + byte_writes(
            AW9523_ADDR,
            AW9523_INIT@,
        ),
{
    let mut w: Vec<I2cWrite> = Vec::new();
    push_byte_writes(&mut w, AXP2101_ADDR, AXP2101_INIT.as_slice());
    push_byte_writes(&mut w, AW9523_ADDR, AW9523_INIT.as_slice());
    assert(writes_of(w@).len() == 16);
    assert(writes_of(w@) =~= byte_writes(AXP2101_ADDR, AXP2101_INIT@) + byte_writes(
        AW9523_ADDR,
        AW9523_INIT@,
    ));
    w
}

/// The writes that set up the microphone converter.
pub fn microphone_writes() -> (w: Vec<I2cWrite>)
    ensures
        w@.len() == 26,
        writes_of(w@) == byte_writes(ES7210_ADDR, ES7210_INIT@),
{
    let mut w: Vec<I2cWrite> = Vec::new();
    push_byte_writes(&mut w, ES7210_ADDR, ES7210_INIT.as_slice());
    assert(writes_of(w@).len() == 26);
    assert(writes_of(w@) =~= byte_writes(ES7210_ADDR, ES7210_INIT@));
    w
}

/// The writes that set up the loudspeaker amplifier.
pub fn amplifier_writes() -> (w: Vec<I2cWrite>)
    ensures
        w@.len() == 5,
        writes_of(w@) == word_writes(AW88298_ADDR, AW88298_INIT@),
{
    let mut w: Vec<I2cWrite> = Vec::new();
    let mut i: usize = 0;
    while i < 5
        invariant
            i <= 5,
            writes_of(w@) == word_writes(AW88298_ADDR, AW88298_INIT@.take(i as int)),
        decreases 5 - i,
    {
        let ghost before = w@;
        let (reg, value) = AW88298_INIT[i];
        let b = bytes::be16_bytes(value);
        let mut payload: Vec<u8> = Vec::new();
        payload.push(reg);
        payload.push(b[0]);
        payload.push(b[1]);
        let ghost bytes = seq![reg] + bytes::be16(value as int);
        assert(payload@ =~= bytes);
        w.push(I2cWrite { addr: AW88298_ADDR, payload });
        assert(writes_of(w@) =~= writes_of(before).push((AW88298_ADDR, bytes)));
        assert(writes_of(w@) =~= word_writes(AW88298_ADDR, AW88298_INIT@.take(i + 1)));
        i = i + 1;
    }
    assert(writes_of(w@).len() == 5);
    assert(AW88298_INIT@.take(5) =~= AW88298_INIT@);
    w
}

/// The value that an 8-bit register of the chip at `addr` holds after some writes, where one of
/// them set it: the last write decides.
pub open spec fn register_after(writes: Seq<(u8, Seq<u8>)>, addr: u8, reg: u8) -> Option<u8>
    decreases writes.len(),
{
    if writes.len() == 0 {
        None
    } else if writes.last().0 == addr && writes.last().1[0] == reg {
        Some(writes.last().1[1])
    } else {
        register_after(writes.drop_last(), addr, reg)
    }
}

/// Of all writes to a register the last one decides what it holds.
pub proof fn last_write_decides(writes: Seq<(u8, Seq<u8>)>, addr: u8, reg: u8, i: int)
    requires
        0 <= i < writes.len(),
        writes[i].0 == addr,
        writes[i].1[0] == reg,
        forall|j: int|
            i < j < writes.len() ==> (#[trigger] writes[j]).0 != addr || writes[j].1[0] != reg,
    ensures
        register_after(writes, addr, reg) == Some(writes[i].1[1]),
    decreases writes.len(),
{
    if i < writes.len() - 1 {
        assert(writes.last() == writes[writes.len() - 1]);
        assert(writes.drop_last()[i] == writes[i]);
        last_write_decides(writes.drop_last(), addr, reg, i);
    }
}

/// A supply's voltage in millivolts for a value of its register.
pub open spec fn supply_millivolts(value: u8) -> int {
    500 + 100 * value
}

/// Bit `1 << k` of a register, where `weight` is `1 << k`.
pub open spec fn has_bit(value: u8, weight: u8) -> bool {
    value / weight % 2 == 1
}

/// After the power writes the backlight is supplied with 3.3 V, and the reset lines of the
/// display, the touch controller and the amplifier are outputs that are driven high.
pub proof fn power_writes_light_display()
    ensures
        ({
            let w = byte_writes(AXP2101_ADDR, AXP2101_INIT@) + byte_writes(
                AW9523_ADDR,
                AW9523_INIT@,
            );
            &&& register_after(w, AXP2101_ADDR, 0x90) matches Some(v) && has_bit(v, 128)
            &&& register_after(w, AXP2101_ADDR, 0x99) matches Some(v) && supply_millivolts(v)
                == 3300
            &&& register_after(w, AW9523_ADDR, 0x02) matches Some(v) && has_bit(v, 1) && has_bit(
                v,
                4,
            )
            &&& register_after(w, AW9523_ADDR, 0x03) matches Some(v) && has_bit(v, 2)
            &&& register_after(w, AW9523_ADDR, 0x04) matches Some(v) && !has_bit(v, 1) && !has_bit(
                v,
                4,
            )
            &&& register_after(w, AW9523_ADDR, 0x05) matches Some(v) && !has_bit(v, 2)
        }),
{
    let w = byte_writes(AXP2101_ADDR, AXP2101_INIT@) + byte_writes(AW9523_ADDR, AW9523_INIT@);
    last_write_decides(w, AXP2101_ADDR, 0x90, 0);
    last_write_decides(w, AXP2101_ADDR, 0x99, 5);
    last_write_decides(w, AW9523_ADDR, 0x02, 9);
    last_write_decides(w, AW9523_ADDR, 0x03, 10);
    last_write_decides(w, AW9523_ADDR, 0x04, 11);
    last_write_decides(w, AW9523_ADDR, 0x05, 12);
}

/// The microphone converter is reset before anything else is written to it and is not reset
/// again, and its clocks are settled by the very last write.
pub proof fn microphone_is_reset_first_and_clocked_last()
    ensures
        ({
            let w = byte_writes(ES7210_ADDR, ES7210_INIT@);
            &&& w[0].1 == seq![0x00u8, 0xFF]
            &&& w[1].1 == seq![0x00u8, 0x41]
            &&& forall|i: int| 2 <= i < w.len() ==> (#[trigger] w[i]).1[0] != 0x00
            &&& w.last().1 == seq![0x01u8, 0x14]
        }),
{
    let w = byte_writes(ES7210_ADDR, ES7210_INIT@);
    assert(w[0].1 =~= seq![0x00u8, 0xFF]);
    assert(w[1].1 =~= seq![0x00u8, 0x41]);
    assert(w.last().1 =~= seq![0x01u8, 0x14]);
}

/// A table of 8-bit registers makes one write of two bytes for each entry, in order; one of
/// 16-bit registers makes one of three bytes, the value's high byte before its low byte.
pub proof fn each_entry_is_written_once(
    addr: u8,
    narrow: Seq<(u8, u8)>,
    wide: Seq<(u8, u16)>,
    i: int,
)
    ensures
        byte_writes(addr, narrow).len() == narrow.len(),
        0 <= i < narrow.len() ==> {
            let (to, payload) = byte_writes(addr, narrow)[i];
            &&& to == addr
            &&& payload.len() == 2
            &&& payload[0] == narrow[i].0
            &&& payload[1] == narrow[i].1
        },
        word_writes(addr, wide).len() == wide.len(),
        0 <= i < wide.len() ==> {
            let (to, payload) = word_writes(addr, wide)[i];
            &&& to == addr
            &&& payload.len() == 3
            &&& payload[0] == wide[i].0
            &&& 256 * payload[1] + payload[2] == wide[i].1
        },
{
    if 0 <= i < wide.len() {
        bytes::word_bytes_have_place_values(wide[i].1 as int);
    }
}

/// What the chips' registers hold once the power writes are done: the supplies that are on and
/// their voltages, the button, the charging LED and the common settings; the expander's outputs,
/// directions and modes.
pub proof fn power_registers()
    ensures
        ({
            let w = byte_writes(AXP2101_ADDR, AXP2101_INIT@) + byte_writes(
                AW9523_ADDR,
                AW9523_INIT@,
            );
            &&& w.len() == 16
            &&& register_after(w, 0x34, 0x90) == Some(0xBFu8)
            &&& register_after(w, 0x34, 0x92) == Some(0x0Du8)
            &&& register_after(w, 0x34, 0x93) == Some(0x1Cu8)
            &&& register_after(w, 0x34, 0x94) == Some(0x1Cu8)
            &&& register_after(w, 0x34, 0x95) == Some(0x1Cu8)
            &&& register_after(w, 0x34, 0x99) == Some(0x1Cu8)
            &&& register_after(w, 0x34, 0x27) == Some(0x00u8)
            &&& register_after(w, 0x34, 0x69) == Some(0x11u8)
            &&& register_after(w, 0x34, 0x10) == Some(0x30u8)
            &&& register_after(w, 0x58, 0x02) == Some(0x07u8)
            &&& register_after(w, 0x58, 0x03) == Some(0x83u8)
            &&& register_after(w, 0x58, 0x04) == Some(0x18u8)
            &&& register_after(w, 0x58, 0x05) == Some(0x0Cu8)
            &&& register_after(w, 0x58, 0x11) == Some(0x10u8)
            &&& register_after(w, 0x58, 0x12) == Some(0xFFu8)
            &&& register_after(w, 0x58, 0x13) == Some(0xFFu8)
        }),
        supply_millivolts(0x0D) == 1800,
        supply_millivolts(0x1C) == 3300,
{
    let w = byte_writes(AXP2101_ADDR, AXP2101_INIT@) + byte_writes(AW9523_ADDR, AW9523_INIT@);
    last_write_decides(w, 0x34, 0x90, 0);
    last_write_decides(w, 0x34, 0x92, 1);
    last_write_decides(w, 0x34, 0x93, 2);
    last_write_decides(w, 0x34, 0x94, 3);
    last_write_decides(w, 0x34, 0x95, 4);
    last_write_decides(w, 0x34, 0x99, 5);
    last_write_decides(w, 0x34, 0x27, 6);
    last_write_decides(w, 0x34, 0x69, 7);
    last_write_decides(w, 0x34, 0x10, 8);
    last_write_decides(w, 0x58, 0x02, 9);
    last_write_decides(w, 0x58, 0x03, 10);
    last_write_decides(w, 0x58, 0x04, 11);
    last_write_decides(w, 0x58, 0x05, 12);
    last_write_decides(w, 0x58, 0x11, 13);
    last_write_decides(w, 0x58, 0x12, 14);
    last_write_decides(w, 0x58, 0x13, 15);
}

/// What the microphone converter's registers hold once its writes are done, in the order in which
/// they were last written.
pub proof fn microphone_registers()
    ensures
        ({
            let w = byte_writes(ES7210_ADDR, ES7210_INIT@);
            &&& w.len() == 26
            &&& w[2].1 == seq![0x01u8, 0x1F]
            &&& register_after(w, 0x40, 0x00) == Some(0x41u8)
            &&& register_after(w, 0x40, 0x06) == Some(0x00u8)
            &&& register_after(w, 0x40, 0x07) == Some(0x20u8)
            &&& register_after(w, 0x40, 0x08) == Some(0x10u8)
            &&& register_after(w, 0x40, 0x09) == Some(0x30u8)
            &&& register_after(w, 0x40, 0x0A) == Some(0x30u8)
            &&& register_after(w, 0x40, 0x20) == Some(0x0Au8)
            &&& register_after(w, 0x40, 0x21) == Some(0x2Au8)
            &&& register_after(w, 0x40, 0x22) == Some(0x0Au8)
            &&& register_after(w, 0x40, 0x23) == Some(0x2Au8)
            &&& register_after(w, 0x40, 0x02) == Some(0xC1u8)
            &&& register_after(w, 0x40, 0x04) == Some(0x01u8)
            &&& register_after(w, 0x40, 0x05) == Some(0x00u8)
            &&& register_after(w, 0x40, 0x11) == Some(0x60u8)
            &&& register_after(w, 0x40, 0x40) == Some(0x42u8)
            &&& register_after(w, 0x40, 0x41) == Some(0x70u8)
            &&& register_after(w, 0x40, 0x42) == Some(0x70u8)
            &&& register_after(w, 0x40, 0x43) == Some(0x1Bu8)
            &&& register_after(w, 0x40, 0x44) == Some(0x1Bu8)
            &&& register_after(w, 0x40, 0x45) == Some(0x00u8)
            &&& register_after(w, 0x40, 0x46) == Some(0x00u8)
            &&& register_after(w, 0x40, 0x4B) == Some(0x00u8)
            &&& register_after(w, 0x40, 0x4C) == Some(0xFFu8)
            &&& register_after(w, 0x40, 0x01) == Some(0x14u8)
        }),
{
    let w = byte_writes(ES7210_ADDR, ES7210_INIT@);
    assert(w[2].1 =~= seq![0x01u8, 0x1F]);
    last_write_decides(w, 0x40, 0x00, 1);
    last_write_decides(w, 0x40, 0x06, 3);
    last_write_decides(w, 0x40, 0x07, 4);
    last_write_decides(w, 0x40, 0x08, 5);
    last_write_decides(w, 0x40, 0x09, 6);
    last_write_decides(w, 0x40, 0x0A, 7);
    last_write_decides(w, 0x40, 0x20, 8);
    last_write_decides(w, 0x40, 0x21, 9);
    last_write_decides(w, 0x40, 0x22, 10);
    last_write_decides(w, 0x40, 0x23, 11);
    last_write_decides(w, 0x40, 0x02, 12);
    last_write_decides(w, 0x40, 0x04, 13);
    last_write_decides(w, 0x40, 0x05, 14);
    last_write_decides(w, 0x40, 0x11, 15);
    last_write_decides(w, 0x40, 0x40, 16);
    last_write_decides(w, 0x40, 0x41, 17);
    last_write_decides(w, 0x40, 0x42, 18);
    last_write_decides(w, 0x40, 0x43, 19);
    last_write_decides(w, 0x40, 0x44, 20);
    last_write_decides(w, 0x40, 0x45, 21);
    last_write_decides(w, 0x40, 0x46, 22);
    last_write_decides(w, 0x40, 0x4B, 23);
    last_write_decides(w, 0x40, 0x4C, 24);
    last_write_decides(w, 0x40, 0x01, 25);
}

} // verus!
