//! What the poller produces: per-device snapshots of the emulator, and the
//! sample bus transactions that show, for the emulator, the same three
//! requests a real bus carries (input registers, coils, holding registers).

use crate::crc::{append, crc_ok, lemma_append_then_verify, to_hex, hex_join, with_crc};
use crate::emulator::{read_or_default, spec_unit, DataType, DeviceView, Emulator, SensorView};
use crate::frames::{build_request, read_pdu, FC_READ_COILS, FC_READ_HOLDING, FC_READ_INPUT};
use crate::app_state::opt_view;
use crate::frames::{error_text, float_bits_from_regs, ModbusError};
use crate::text::{dec, push_char, push_dec, push_str, string_of};
use crate::trace::{fc_name, spec_fc_name, TraceEntry};
use crate::wire::{be_bytes, push_be16, regs_be};
use std::collections::BTreeMap;
use vstd::prelude::*;

verus! {

/// A sensor channel: a float32 in a pair of input registers. `value` holds
/// the float's bits.
pub struct Channel {
    pub label: String,
    pub reg: u16,
    pub value: u32,
    pub unit: String,
}

/// Abstract content of a channel.
pub struct ChannelView {
    pub label: Seq<char>,
    pub reg: u16,
    pub value: u32,
    pub unit: Seq<char>,
}

impl View for Channel {
    type V = ChannelView;

    open spec fn view(&self) -> ChannelView {
        ChannelView { label: self.label@, reg: self.reg, value: self.value, unit: self.unit@ }
    }
}

/// What one device looked like at the last poll.
pub struct DeviceSnapshot {
    pub slave_id: u8,
    pub name: String,
    pub source: String,
    pub channels: Vec<Channel>,
    pub coils: Vec<bool>,
    pub holding: Vec<u16>,
}

/// Abstract content of a snapshot.
pub struct SnapshotView {
    pub slave_id: u8,
    pub name: Seq<char>,
    pub source: Seq<char>,
    pub channels: Seq<ChannelView>,
    pub coils: Seq<bool>,
    pub holding: Seq<u16>,
}

impl View for DeviceSnapshot {
    type V = SnapshotView;

    open spec fn view(&self) -> SnapshotView {
        SnapshotView {
            slave_id: self.slave_id,
            name: self.name@,
            source: self.source@,
            channels: self.channels@.map_values(|c: Channel| c@),
            coils: self.coils@,
            holding: self.holding@,
        }
    }
}

/// The views of a list of snapshots.
pub open spec fn snapshot_views(s: Seq<DeviceSnapshot>) -> Seq<SnapshotView> {
    s.map_values(|d: DeviceSnapshot| d@)
}

/// Coils shown per emulated device.
pub const SNAPSHOT_COILS: u16 = 8;

/// Holding registers shown per emulated device.
pub const SNAPSHOT_HOLDING: u16 = 32;

/// The channel shown for a sensor.
pub open spec fn sensor_channel(s: SensorView) -> ChannelView {
    ChannelView { label: s.name, reg: s.input_reg, value: s.last_value, unit: spec_unit(s.data_type) }
}

/// The snapshot of an emulated device: one channel per sensor, the first
/// eight coils and the first 32 holding registers (absent ones as false and
/// 0), source "EMU".
pub open spec fn device_snapshot(d: DeviceView) -> SnapshotView {
    SnapshotView {
        slave_id: d.slave_id,
        name: d.name,
        source: "EMU"@,
        channels: d.sensors.map_values(|s: SensorView| sensor_channel(s)),
        coils: read_or_default(d.coils, 0, SNAPSHOT_COILS, false),
        holding: read_or_default(d.holding, 0, SNAPSHOT_HOLDING, 0u16),
    }
}

fn unit_of(t: DataType) -> (r: String)
    ensures
        r@ == spec_unit(t),
{
    string_of(t.unit())
}

fn read_prefix<V: Copy>(m: &BTreeMap<u16, V>, count: u16, dflt: V) -> (r: Vec<V>)
    ensures
        r@ == read_or_default(m@, 0, count, dflt),
{
    let mut out: Vec<V> = Vec::new();
    let mut i: u16 = 0;
    while i < count
        invariant
            i <= count,
            out@ =~= read_or_default(m@, 0, i, dflt),
        decreases count - i,
    {
        let v = match m.get(&i) {
            Some(x) => *x,
            None => dflt,
        };
        out.push(v);
        i = i + 1;
    }
    out
}

/// Snapshots of every emulated device, in order.
pub fn emu_snapshot(emu: &Emulator) -> (r: Vec<DeviceSnapshot>)
    ensures
        snapshot_views(r@) == emu@.map_values(|d: DeviceView| device_snapshot(d)),
{
    let devices = emu.devices();
    let mut out: Vec<DeviceSnapshot> = Vec::new();
    let mut i: usize = 0;
    while i < devices.len()
        invariant
            i <= devices@.len(),
            devices@.map_values(|d: crate::emulator::EmuDevice| d@) == emu@,
            snapshot_views(out@) =~= emu@.take(i as int).map_values(|d: DeviceView| device_snapshot(d)),
        decreases devices@.len() - i,
    {
        let dev = &devices[i];
        proof {
            assert(dev@ == emu@[i as int]);
        }
        let mut channels: Vec<Channel> = Vec::new();
        let mut k: usize = 0;
        while k < dev.sensors.len()
            invariant
                k <= dev@.sensors.len(),
                channels@.map_values(|c: Channel| c@) =~= dev@.sensors.take(k as int).map_values(
                    |s: SensorView| sensor_channel(s),
                ),
            decreases dev@.sensors.len() - k,
        {
            let s = &dev.sensors[k];
            proof {
                assert(dev@.sensors[k as int] == s@);
            }
            let ch = Channel {
                label: string_of(s.name.as_str()),
                reg: s.input_reg,
                value: s.last_value,
                unit: unit_of(s.data_type),
            };
            let ghost before = channels@;
            proof {
                assert(ch@ == sensor_channel(dev@.sensors[k as int]));
            }
            channels.push(ch);
            proof {
                assert(channels@.map_values(|c: Channel| c@) =~= before.map_values(|c: Channel| c@).push(ch@));
                assert(dev@.sensors.take(k + 1) =~= dev@.sensors.take(k as int).push(dev@.sensors[k as int]));
            }
            k = k + 1;
        }
        proof {
            assert(dev@.sensors.take(k as int) =~= dev@.sensors);
        }
        let snap = DeviceSnapshot {
            slave_id: dev.slave_id,
            name: string_of(dev.name.as_str()),
            source: string_of("EMU"),
            channels,
            coils: read_prefix(&dev.coils, SNAPSHOT_COILS, false),
            holding: read_prefix(&dev.holding_regs, SNAPSHOT_HOLDING, 0),
        };
        proof {
            assert(snap@ =~= device_snapshot(emu@[i as int]));
            assert(emu@.take(i + 1) =~= emu@.take(i as int).push(emu@[i as int]));
        }
        let ghost before = out@;
        out.push(snap);
        proof {
            assert(snapshot_views(out@) =~= snapshot_views(before).push(snap@));
        }
        i = i + 1;
    }
    proof {
        assert(emu@.take(i as int) =~= emu@);
    }
    out
}

/// Input register pairs sampled for the bus view.
pub const TRACE_INPUT_REGS: u16 = 60;

/// The float bits of the first channel on register `reg`, from channel `k`
/// on; 0 when none.
pub open spec fn channel_bits_from(chs: Seq<ChannelView>, reg: int, k: int) -> u32
    decreases chs.len() - k,
{
    if k < 0 || k >= chs.len() {
        0
    } else if chs[k].reg == reg {
        chs[k].value
    } else {
        channel_bits_from(chs, reg, k + 1)
    }
}

/// Bytes sampled for register `i`: the high and the low half of the bits of
/// the channel on `i`, each high byte first.
pub open spec fn input_sample(chs: Seq<ChannelView>, i: int) -> Seq<u8> {
    let b = channel_bits_from(chs, i, 0);
    be_bytes((b / 0x10000) as u16) + be_bytes((b % 0x10000) as u16)
}

/// The samples of registers `0 .. n`.
pub open spec fn input_samples(chs: Seq<ChannelView>, n: nat) -> Seq<u8>
    decreases n,
{
    if n == 0 {
        Seq::empty()
    } else {
        input_samples(chs, (n - 1) as nat) + input_sample(chs, n - 1)
    }
}

/// The coil byte of the sampled coils reply: bit `k` for coil `k`, first two
/// coils.
pub open spec fn coil_byte(coils: Seq<bool>) -> u8 {
    let c0 = coils.len() > 0 && coils[0];
    let c1 = coils.len() > 1 && coils[1];
    if c0 && c1 {
        3
    } else if c1 {
        2
    } else if c0 {
        1
    } else {
        0
    }
}

/// At most the first 16 values.
pub open spec fn first16(s: Seq<u16>) -> Seq<u16> {
    if s.len() < 16 {
        s
    } else {
        s.take(16)
    }
}

/// The request of a sampled read of `count` items of function `fc`.
pub open spec fn sample_request(slave: u8, fc: u8, count: u16) -> Seq<u8> {
    with_crc(seq![slave, fc] + be_bytes(0) + be_bytes(count))
}

/// The sampled input-registers reply: byte count 120, then four bytes per
/// register 0 to 59.
pub open spec fn input_reply(d: SnapshotView) -> Seq<u8> {
    with_crc(seq![d.slave_id, FC_READ_INPUT, 120u8] + input_samples(d.channels, TRACE_INPUT_REGS as nat))
}

/// The sampled coils reply: one byte holding the first two coils.
pub open spec fn coils_reply(d: SnapshotView) -> Seq<u8> {
    with_crc(seq![d.slave_id, FC_READ_COILS, 1u8, coil_byte(d.coils)])
}

/// The sampled holding-registers reply: byte count 32, then the first 16
/// holding registers, each high byte first.
pub open spec fn holding_reply(d: SnapshotView) -> Seq<u8> {
    with_crc(seq![d.slave_id, FC_READ_HOLDING, 32u8] + regs_be(first16(d.holding)))
}

/// Whether a trace entry is the successful transaction `req`/`resp` of
/// function `fc` over RTU, taking `ms` milliseconds.
pub open spec fn sample_entry(e: TraceEntry, fc: u8, req: Seq<u8>, resp: Seq<u8>, ms: u64) -> bool {
    &&& e.transport@ == "RTU"@
    &&& e.fc@ == spec_fc_name(fc)
    &&& e.req@ == hex_join(req)
    &&& e.resp@ == hex_join(resp)
    &&& e.ok
    &&& e.err is None
    &&& e.ms == ms
}

/// The three sampled transactions of device `d`, at positions `3i`, `3i + 1`
/// and `3i + 2` of `t`.
pub open spec fn device_samples(t: Seq<TraceEntry>, i: int, d: SnapshotView) -> bool {
    &&& sample_entry(t[3 * i], FC_READ_INPUT, sample_request(d.slave_id, FC_READ_INPUT, 60), input_reply(d), 5)
    &&& sample_entry(t[3 * i + 1], FC_READ_COILS, sample_request(d.slave_id, FC_READ_COILS, 2), coils_reply(d), 4)
    &&& sample_entry(t[3 * i + 2], FC_READ_HOLDING, sample_request(d.slave_id, FC_READ_HOLDING, 16), holding_reply(d), 4)
}

fn channel_bits(chs: &[Channel], reg: u16) -> (r: u32)
    ensures
        r == channel_bits_from(chs@.map_values(|c: Channel| c@), reg as int, 0),
{
    let ghost v = chs@.map_values(|c: Channel| c@);
    let mut k: usize = 0;
    while k < chs.len()
        invariant
            k <= chs@.len(),
            v == chs@.map_values(|c: Channel| c@),
            channel_bits_from(v, reg as int, 0) == channel_bits_from(v, reg as int, k as int),
        decreases chs@.len() - k,
    {
        proof {
            assert(v[k as int] == chs@[k as int]@);
        }
        if chs[k].reg == reg {
            return chs[k].value;
        }
        k = k + 1;
    }
    0
}

fn trace_rtu(fc: u8, req: &[u8], resp: &[u8], ms: u64) -> (e: TraceEntry)
    ensures
        sample_entry(e, fc, req@, resp@, ms),
{
    TraceEntry { transport: "RTU", fc: fc_name(fc), req: to_hex(req), resp: to_hex(resp), ok: true, err: None, ms }
}

/// The sampled bus transactions for the given snapshots: for each device,
/// a read of 60 input registers, of 2 coils and of 16 holding registers,
/// with the replies built from the snapshot.
pub fn emu_traces(devices: &[DeviceSnapshot]) -> (r: Vec<TraceEntry>)
    requires
        devices@.len() * 3 <= usize::MAX,
    ensures
        r@.len() == 3 * devices@.len(),
        forall|i: int| 0 <= i < devices@.len() ==> #[trigger] device_samples(r@, i, devices@[i]@),
{
    let mut out: Vec<TraceEntry> = Vec::new();
    let mut i: usize = 0;
    while i < devices.len()
        invariant
            i <= devices@.len(),
            out@.len() == 3 * i,
            forall|j: int| 0 <= j < i ==> #[trigger] device_samples(out@, j, devices@[j]@),
        decreases devices@.len() - i,
    {
        let dev = &devices[i];
        let slave = dev.slave_id;
        let ghost d = dev@;

        let req = build_request(slave, FC_READ_INPUT, read_pdu(0, TRACE_INPUT_REGS).as_slice());
        proof {
            assert(seq![slave, FC_READ_INPUT] + (be_bytes(0) + be_bytes(60)) =~= seq![slave, FC_READ_INPUT]
                + be_bytes(0) + be_bytes(60));
        }
        let mut resp: Vec<u8> = Vec::new();
        resp.push(slave);
        resp.push(FC_READ_INPUT);
        resp.push(120);
        let mut reg: u16 = 0;
        while reg < TRACE_INPUT_REGS
            invariant
                reg <= TRACE_INPUT_REGS,
                d == dev@,
                resp@ == seq![slave, FC_READ_INPUT, 120u8] + input_samples(d.channels, reg as nat),
            decreases TRACE_INPUT_REGS - reg,
        {
            let bits = channel_bits(dev.channels.as_slice(), reg);
            push_be16(&mut resp, (bits / 0x10000) as u16);
            push_be16(&mut resp, (bits % 0x10000) as u16);
            proof {
                assert(resp@ =~= seq![slave, FC_READ_INPUT, 120u8] + input_samples(d.channels, (reg + 1) as nat));
            }
            reg = reg + 1;
        }
        append(&mut resp);
        let e0 = trace_rtu(FC_READ_INPUT, req.as_slice(), resp.as_slice(), 5);

        let req = build_request(slave, FC_READ_COILS, read_pdu(0, 2).as_slice());
        proof {
            assert(seq![slave, FC_READ_COILS] + (be_bytes(0) + be_bytes(2)) =~= seq![slave, FC_READ_COILS]
                + be_bytes(0) + be_bytes(2));
        }
        let mut bits: u8 = 0;
        if dev.coils.len() > 0 && dev.coils[0] {
            bits = bits + 1;
        }
        if dev.coils.len() > 1 && dev.coils[1] {
            bits = bits + 2;
        }
        let mut resp: Vec<u8> = Vec::new();
        resp.push(slave);
        resp.push(FC_READ_COILS);
        resp.push(1);
        resp.push(bits);
        proof {
            assert(bits == coil_byte(d.coils));
            assert(resp@ =~= seq![d.slave_id, FC_READ_COILS, 1u8, coil_byte(d.coils)]);
        }
        append(&mut resp);
        let e1 = trace_rtu(FC_READ_COILS, req.as_slice(), resp.as_slice(), 4);

        let req = build_request(slave, FC_READ_HOLDING, read_pdu(0, 16).as_slice());
        proof {
            assert(seq![slave, FC_READ_HOLDING] + (be_bytes(0) + be_bytes(16)) =~= seq![slave, FC_READ_HOLDING]
                + be_bytes(0) + be_bytes(16));
        }
        let mut resp: Vec<u8> = Vec::new();
        resp.push(slave);
        resp.push(FC_READ_HOLDING);
        resp.push(32);
        let n: usize = if dev.holding.len() < 16 { dev.holding.len() } else { 16 };
        let mut k: usize = 0;
        while k < n
            invariant
                k <= n,
                n <= 16,
                n == (if d.holding.len() < 16 { d.holding.len() } else { 16 }),
                d == dev@,
                resp@ == seq![slave, FC_READ_HOLDING, 32u8] + regs_be(d.holding.take(k as int)),
            decreases n - k,
        {
            push_be16(&mut resp, dev.holding[k]);
            proof {
                assert(d.holding.take(k + 1).drop_last() =~= d.holding.take(k as int));
                assert(resp@ =~= seq![slave, FC_READ_HOLDING, 32u8] + regs_be(d.holding.take(k + 1)));
            }
            k = k + 1;
        }
        proof {
            assert(d.holding.take(n as int) =~= first16(d.holding));
        }
        append(&mut resp);
        let e2 = trace_rtu(FC_READ_HOLDING, req.as_slice(), resp.as_slice(), 4);

        let ghost before = out@;
        out.push(e0);
        out.push(e1);
        out.push(e2);
        proof {
            assert(out@[3 * i as int] == e0);
            assert(out@[3 * i + 1] == e1);
            assert(out@[3 * i + 2] == e2);
            assert forall|j: int| 0 <= j < i + 1 implies #[trigger] device_samples(out@, j, devices@[j]@) by {
                if j < i {
                    assert(device_samples(before, j, devices@[j]@));
                    assert(out@[3 * j] == before[3 * j]);
                    assert(out@[3 * j + 1] == before[3 * j + 1]);
                    assert(out@[3 * j + 2] == before[3 * j + 2]);
                }
            }
        }
        i = i + 1;
    }
    out
}

/// Every sampled frame is a well-formed RTU frame: requests and replies
/// alike pass the CRC check of a reader (`crc::verify`).
pub proof fn lemma_sample_frames_pass_crc(d: SnapshotView, fc: u8, count: u16)
    ensures
        crc_ok(sample_request(d.slave_id, fc, count), 4),
        crc_ok(input_reply(d), 4),
        crc_ok(coils_reply(d), 4),
        crc_ok(holding_reply(d), 4),
{
    lemma_append_then_verify(seq![d.slave_id, fc] + be_bytes(0) + be_bytes(count));
    lemma_append_then_verify(seq![d.slave_id, FC_READ_INPUT, 120u8] + input_samples(d.channels, TRACE_INPUT_REGS as nat));
    lemma_append_then_verify(seq![d.slave_id, FC_READ_COILS, 1u8, coil_byte(d.coils)]);
    lemma_append_then_verify(seq![d.slave_id, FC_READ_HOLDING, 32u8] + regs_be(first16(d.holding)));
}

/// `n` in decimal with at least two digits, as `{:02}` prints it.
pub open spec fn dec2(n: nat) -> Seq<char> {
    if n < 10 {
        seq!['0'] + dec(n)
    } else {
        dec(n)
    }
}

fn push_dec2(s: &mut String, n: u64)
    ensures
        final(s)@ == old(s)@ + dec2(n as nat),
{
    if n < 10 {
        push_char(s, '0');
    }
    push_dec(s, n);
    proof {
        assert(final(s)@ =~= old(s)@ + dec2(n as nat));
    }
}

fn labelled(prefix: &str, n: usize) -> (r: String)
    ensures
        r@ == prefix@ + dec2(n as nat),
{
    let mut s = string_of(prefix);
    push_dec2(&mut s, n as u64);
    s
}

/// The float bits of the register pair that holds channel `i`.
pub open spec fn pair_bits(regs: Seq<u16>, i: int) -> u32 {
    (regs[2 * i] as int * 0x10000 + regs[2 * i + 1] as int) as u32
}

/// Temperature channels on the board; the pressure channels follow them.
pub const BOARD_TEMPERATURES: usize = 15;

/// Channel `i` of the board's input registers: `T-00` to `T-14` in °C, then
/// `P-00` on in kPa, at register `2i`.
pub open spec fn board_channel(regs: Seq<u16>, i: int) -> ChannelView {
    ChannelView {
        label: if i < BOARD_TEMPERATURES {
            "T-"@ + dec2(i as nat)
        } else {
            "P-"@ + dec2((i - BOARD_TEMPERATURES) as nat)
        },
        reg: (2 * i) as u16,
        value: pair_bits(regs, i),
        unit: if i < BOARD_TEMPERATURES {
            "°C"@
        } else {
            "kPa"@
        },
    }
}

/// Channel `i` of a Modbus TCP device: `CH-00` on, no unit.
pub open spec fn tcp_channel(regs: Seq<u16>, i: int) -> ChannelView {
    ChannelView { label: "CH-"@ + dec2(i as nat), reg: (2 * i) as u16, value: pair_bits(regs, i), unit: ""@ }
}

/// The snapshot of the board on a serial port, from what the poll read:
/// one channel per register pair, named after the port.
pub open spec fn serial_snapshot_view(
    slave: u8,
    port: Seq<char>,
    input: Seq<u16>,
    coils: Seq<bool>,
    holding: Seq<u16>,
) -> SnapshotView {
    SnapshotView {
        slave_id: slave,
        name: "ESP32 @ "@ + port,
        source: port,
        channels: Seq::new(input.len() / 2, |i: int| board_channel(input, i)),
        coils,
        holding,
    }
}

/// The snapshot of a Modbus TCP device, from what the poll read.
pub open spec fn tcp_snapshot_view(
    slave: u8,
    host: Seq<char>,
    port: u16,
    input: Seq<u16>,
    coils: Seq<bool>,
    holding: Seq<u16>,
) -> SnapshotView {
    SnapshotView {
        slave_id: slave,
        name: "Modbus TCP "@ + host + ":"@ + dec(port as nat),
        source: "TCP"@,
        channels: Seq::new(input.len() / 2, |i: int| tcp_channel(input, i)),
        coils,
        holding,
    }
}

fn pair_channel(input: &[u16], i: usize, tcp: bool) -> (c: Channel)
    requires
        2 * i + 1 < input@.len(),
    ensures
        c@ == (if tcp { tcp_channel(input@, i as int) } else { board_channel(input@, i as int) }),
{
    let len = input.len();
    assert(2 * i + 1 < len);
    let value = float_bits_from_regs(input[2 * i], input[2 * i + 1]);
    let reg: u16 = (2 * i) as u16;
    if tcp {
        Channel { label: labelled("CH-", i), reg, value, unit: string_of("") }
    } else if i < BOARD_TEMPERATURES {
        Channel { label: labelled("T-", i), reg, value, unit: string_of("°C") }
    } else {
        Channel { label: labelled("P-", i - BOARD_TEMPERATURES), reg, value, unit: string_of("kPa") }
    }
}

fn pair_channels(input: &[u16], tcp: bool) -> (r: Vec<Channel>)
    ensures
        r@.map_values(|c: Channel| c@) == Seq::new(
            input@.len() / 2,
            |i: int| if tcp { tcp_channel(input@, i) } else { board_channel(input@, i) },
        ),
{
    let ghost want = Seq::new(
        input@.len() / 2,
        |i: int| if tcp { tcp_channel(input@, i) } else { board_channel(input@, i) },
    );
    let n = input.len() / 2;
    let mut out: Vec<Channel> = Vec::new();
    let mut i: usize = 0;
    while i < n
        invariant
            n == input@.len() / 2,
            i <= n,
            want.len() == n,
            want == Seq::new(
                input@.len() / 2,
                |i: int| if tcp { tcp_channel(input@, i) } else { board_channel(input@, i) },
            ),
            out@.map_values(|c: Channel| c@) =~= want.take(i as int),
        decreases n - i,
    {
        let c = pair_channel(input, i, tcp);
        let ghost before = out@;
        out.push(c);
        proof {
            assert(out@.map_values(|c: Channel| c@) =~= before.map_values(|c: Channel| c@).push(c@));
            assert(want.take(i + 1) =~= want.take(i as int).push(want[i as int]));
        }
        i = i + 1;
    }
    proof {
        assert(want.take(n as int) =~= want);
    }
    out
}

/// The snapshot of the board on serial port `port` (slave `slave`) from the
/// input registers, coils and holding registers that the poll read.
pub fn serial_snapshot(slave: u8, port: &str, input: &[u16], coils: Vec<bool>, holding: Vec<u16>) -> (r:
    DeviceSnapshot)
    ensures
        r@ == serial_snapshot_view(slave, port@, input@, coils@, holding@),
{
    let channels = pair_channels(input, false);
    proof {
        assert(channels@.map_values(|c: Channel| c@) =~= Seq::new(input@.len() / 2, |i: int| board_channel(input@, i)));
    }
    let mut name = string_of("ESP32 @ ");
    push_str(&mut name, port);
    let r = DeviceSnapshot { slave_id: slave, name, source: string_of(port), channels, coils, holding };
    proof {
        assert(r@ =~= serial_snapshot_view(slave, port@, input@, coils@, holding@));
    }
    r
}

/// The snapshot of the Modbus TCP device at `host:port` (unit `slave`)
/// from what the poll read.
pub fn tcp_snapshot(slave: u8, host: &str, port: u16, input: &[u16], coils: Vec<bool>, holding: Vec<u16>) -> (r:
    DeviceSnapshot)
    ensures
        r@ == tcp_snapshot_view(slave, host@, port, input@, coils@, holding@),
{
    let channels = pair_channels(input, true);
    proof {
        assert(channels@.map_values(|c: Channel| c@) =~= Seq::new(input@.len() / 2, |i: int| tcp_channel(input@, i)));
    }
    let mut name = string_of("Modbus TCP ");
    push_str(&mut name, host);
    push_str(&mut name, ":");
    push_dec(&mut name, port as u64);
    let r = DeviceSnapshot { slave_id: slave, name, source: string_of("TCP"), channels, coils, holding };
    proof {
        assert(r@ =~= tcp_snapshot_view(slave, host@, port, input@, coils@, holding@));
    }
    r
}

/// What the poller reads from, by the values that tell sources apart.
pub enum PollSource {
    /// The built-in emulator.
    Emu,
    /// A board on a serial port.
    Serial { port: String, baud: u32 },
    /// A Modbus TCP device.
    Tcp { host: String, port: u16 },
}

/// The key under which a source is shown: `EMU`, the port's name, or
/// `tcp://host:port`.
pub open spec fn source_key(s: PollSource) -> Seq<char> {
    match s {
        PollSource::Emu => "EMU"@,
        PollSource::Serial { port, .. } => port@,
        PollSource::Tcp { host, port } => "tcp://"@ + host@ + ":"@ + dec(port as nat),
    }
}

/// The serial port that polling a source keeps busy (the scanner must not
/// open it).
pub open spec fn spec_busy_port(s: PollSource) -> Option<Seq<char>> {
    match s {
        PollSource::Serial { port, .. } => Some(port@),
        _ => None,
    }
}

impl PollSource {
    /// The key under which the source is shown.
    pub fn key(&self) -> (r: String)
        ensures
            r@ == source_key(*self),
    {
        match self {
            PollSource::Emu => string_of("EMU"),
            PollSource::Serial { port, .. } => string_of(port.as_str()),
            PollSource::Tcp { host, port } => {
                let mut s = string_of("tcp://");
                push_str(&mut s, host.as_str());
                push_str(&mut s, ":");
                push_dec(&mut s, *port as u64);
                s
            },
        }
    }

    /// The serial port that polling this source keeps busy.
    pub fn busy_port(&self) -> (r: Option<String>)
        ensures
            opt_view(r) == spec_busy_port(*self),
    {
        match self {
            PollSource::Serial { port, .. } => Some(string_of(port.as_str())),
            _ => None,
        }
    }
}

/// Input registers that a TCP poll reads first (32 float channels).
pub const TCP_INPUT_FULL: u16 = 64;

/// Input registers that a TCP poll reads again when the device refuses the
/// first range (30 channels).
pub const TCP_INPUT_FALLBACK: u16 = 60;

/// Input registers that a serial poll reads (15 temperatures and 15
/// pressures).
pub const SERIAL_INPUT: u16 = 60;

/// The message of a failed input read from `who`.
pub open spec fn input_failed_text(who: Seq<char>, e: ModbusError) -> Seq<char> {
    who + ": input read failed: "@ + error_text(e)
}

/// How a TCP device is named in messages: `host:port`.
pub open spec fn tcp_who(host: Seq<char>, port: u16) -> Seq<char> {
    host + ":"@ + dec(port as nat)
}

/// The message of a failed input read from `who`.
pub fn input_failed(who: &str, e: &ModbusError) -> (r: String)
    ensures
        r@ == input_failed_text(who@, *e),
{
    let mut s = string_of(who);
    push_str(&mut s, ": input read failed: ");
    let m = e.message();
    push_str(&mut s, m.as_str());
    s
}

/// The message of a failed input read from the TCP device at `host:port`.
pub fn tcp_input_failed(host: &str, port: u16, e: &ModbusError) -> (r: String)
    ensures
        r@ == input_failed_text(tcp_who(host@, port), *e),
{
    let mut who = string_of(host);
    push_str(&mut who, ":");
    push_dec(&mut who, port as u64);
    input_failed(who.as_str(), e)
}

/// What a TCP poll does after its first input read.
pub enum InputStep {
    /// Use these registers.
    Use(Vec<u16>),
    /// Read again, this many registers.
    Retry(u16),
    /// Give up with this message.
    Fail(String),
}

/// The step after the first input read of a TCP poll: the registers when
/// it succeeded, a read of 60 when the device answered "illegal data
/// address", else the failure.
pub fn tcp_input_step(host: &str, port: u16, first: Result<Vec<u16>, ModbusError>) -> (r: InputStep)
    ensures
        match first {
            Ok(v) => r matches InputStep::Use(u) && u@ == v@,
            Err(ModbusError::IllegalAddress) => r matches InputStep::Retry(n) && n == TCP_INPUT_FALLBACK,
            Err(e) => r matches InputStep::Fail(m) && m@ == input_failed_text(tcp_who(host@, port), e),
        },
{
    match first {
        Ok(v) => InputStep::Use(v),
        Err(ModbusError::IllegalAddress) => InputStep::Retry(TCP_INPUT_FALLBACK),
        Err(e) => InputStep::Fail(tcp_input_failed(host, port, &e)),
    }
}

} // verus!
