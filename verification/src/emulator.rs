//! In-memory field devices: several Modbus slaves, each with its own register
//! map and virtual sensors, served without hardware.
//!
//! A virtual sensor's numbers (base level, amplitude, period, last value) are
//! IEEE-754 single-precision values; this module keeps their bit patterns and
//! the register bookkeeping, while the waveform itself is computed by the
//! caller, which hands each new value back through `apply_sensor_value`.

use crate::text::{dec, push_dec, push_str, string_of};
use std::collections::BTreeMap;
use vstd::prelude::*;

verus! {

broadcast use {vstd::std_specs::btree::group_btree_axioms, vstd::laws_cmp::group_laws_cmp};

/// What a virtual sensor measures.
#[derive(Debug, Clone, Copy, PartialEq, Eq)]
pub enum DataType {
    TemperatureC,
    PressureKPa,
    Flow,
    Test,
    LevelM,
    HumidityPct,
}

/// Display label of a data type.
pub open spec fn spec_label(t: DataType) -> Seq<char> {
    match t {
        DataType::TemperatureC => "Temperature (°C)"@,
        DataType::PressureKPa => "Pressure (kPa)"@,
        DataType::Flow => "Flow"@,
        DataType::Test => "Test value"@,
        DataType::LevelM => "Level (m)"@,
        DataType::HumidityPct => "Humidity (%)"@,
    }
}

/// Unit shown next to a value of a data type.
pub open spec fn spec_unit(t: DataType) -> Seq<char> {
    match t {
        DataType::TemperatureC => "°C"@,
        DataType::PressureKPa => "kPa"@,
        DataType::Flow => "%"@,
        DataType::Test => ""@,
        DataType::LevelM => "m"@,
        DataType::HumidityPct => "%"@,
    }
}

impl DataType {
    /// Display label.
    pub fn label(&self) -> (r: &'static str)
        ensures
            r@ == spec_label(*self),
    {
        match self {
            DataType::TemperatureC => "Temperature (°C)",
            DataType::PressureKPa => "Pressure (kPa)",
            DataType::Flow => "Flow",
            DataType::Test => "Test value",
            DataType::LevelM => "Level (m)",
            DataType::HumidityPct => "Humidity (%)",
        }
    }

    /// Unit of measurement.
    pub fn unit(&self) -> (r: &'static str)
        ensures
            r@ == spec_unit(*self),
    {
        match self {
            DataType::TemperatureC => "°C",
            DataType::PressureKPa => "kPa",
            DataType::Flow => "%",
            DataType::Test => "",
            DataType::LevelM => "m",
            DataType::HumidityPct => "%",
        }
    }
}

/// A virtual sensor. `base`, `amplitude`, `period_s` and `last_value` are the
/// bit patterns of single-precision floats.
pub struct VirtualSensor {
    pub name: String,
    pub data_type: DataType,
    pub base: u32,
    pub amplitude: u32,
    pub period_s: u32,
    /// Input register of the high half; the low half sits at the next one.
    pub input_reg: u16,
    pub enabled: bool,
    pub last_value: u32,
}

/// Abstract content of a sensor.
pub struct SensorView {
    pub name: Seq<char>,
    pub data_type: DataType,
    pub base: u32,
    pub amplitude: u32,
    pub period_s: u32,
    pub input_reg: u16,
    pub enabled: bool,
    pub last_value: u32,
}

impl View for VirtualSensor {
    type V = SensorView;

    open spec fn view(&self) -> SensorView {
        SensorView {
            name: self.name@,
            data_type: self.data_type,
            base: self.base,
            amplitude: self.amplitude,
            period_s: self.period_s,
            input_reg: self.input_reg,
            enabled: self.enabled,
            last_value: self.last_value,
        }
    }
}

/// An emulated slave with its own register map.
pub struct EmuDevice {
    pub slave_id: u8,
    pub name: String,
    pub description: String,
    pub input_regs: BTreeMap<u16, u16>,
    pub holding_regs: BTreeMap<u16, u16>,
    pub coils: BTreeMap<u16, bool>,
    pub discrete: BTreeMap<u16, bool>,
    pub sensors: Vec<VirtualSensor>,
}

/// Abstract content of a device.
pub struct DeviceView {
    pub slave_id: u8,
    pub name: Seq<char>,
    pub description: Seq<char>,
    pub input: Map<u16, u16>,
    pub holding: Map<u16, u16>,
    pub coils: Map<u16, bool>,
    pub discrete: Map<u16, bool>,
    pub sensors: Seq<SensorView>,
}

impl View for EmuDevice {
    type V = DeviceView;

    open spec fn view(&self) -> DeviceView {
        DeviceView {
            slave_id: self.slave_id,
            name: self.name@,
            description: self.description@,
            input: self.input_regs@,
            holding: self.holding_regs@,
            coils: self.coils@,
            discrete: self.discrete@,
            sensors: self.sensors@.map_values(|s: VirtualSensor| s@),
        }
    }
}

/// Every sensor's register pair lies inside the 16-bit address space.
pub open spec fn sensors_wf(sensors: Seq<SensorView>) -> bool {
    forall|k: int| 0 <= k < sensors.len() ==> #[trigger] sensors[k].input_reg < 0xFFFF
}

/// True when `reg` is taken on the device: it is the high or low half of a
/// sensor's pair, or it already holds an input value.
pub open spec fn reg_in_use(d: DeviceView, reg: int) -> bool {
    (exists|k: int|
        0 <= k < d.sensors.len() && (#[trigger] d.sensors[k].input_reg == reg || d.sensors[k].input_reg
            + 1 == reg)) || d.input.contains_key(reg as u16)
}

/// An even register `r` whose pair `r`, `r + 1` is free on the device.
pub open spec fn pair_free(d: DeviceView, r: int) -> bool {
    0 <= r <= 0xFFFE && r % 2 == 0 && !reg_in_use(d, r) && !reg_in_use(d, r + 1)
}

/// The register pair a new sensor gets: the lowest free even pair.
pub open spec fn first_free_pair(d: DeviceView, r: int) -> bool {
    pair_free(d, r) && forall|q: int| 0 <= q < r && q % 2 == 0 ==> !#[trigger] pair_free(d, q)
}

/// `count` values from `start`, absent ones read as `dflt`.
pub open spec fn read_or_default<V>(m: Map<u16, V>, start: u16, count: u16, dflt: V) -> Seq<V> {
    Seq::new(
        count as nat,
        |i: int|
            if m.contains_key((start + i) as u16) {
                m[(start + i) as u16]
            } else {
                dflt
            },
    )
}

/// The map after writing the first `n` of `vals` from `start`, value `i` at
/// `start + (i mod 65536)`.
pub open spec fn map_after_values<V>(m: Map<u16, V>, start: u16, vals: Seq<V>, n: int) -> Map<u16, V>
    decreases n,
{
    if n <= 0 {
        m
    } else {
        map_after_values(m, start, vals, n - 1).insert(
            (start + ((n - 1) as u16)) as u16,
            vals[n - 1],
        )
    }
}

/// A write of `len` values from `start` stays inside the address space
/// (value `i` goes to `start + (i mod 65536)`).
pub open spec fn values_fit(start: u16, len: int) -> bool {
    len == 0 || start as int + (if len < 0x10000 { len } else { 0x10000 }) <= 0x10000
}

/// Index of the first device answering as `slave`, from `i` on; -1 if none.
pub open spec fn find_slave_from(devs: Seq<DeviceView>, slave: u8, i: int) -> int
    decreases devs.len() - i,
{
    if i < 0 || i >= devs.len() {
        -1
    } else if devs[i].slave_id == slave {
        i
    } else {
        find_slave_from(devs, slave, i + 1)
    }
}

/// Index of the first device answering as `slave`; -1 if none.
pub open spec fn find_slave(devs: Seq<DeviceView>, slave: u8) -> int {
    find_slave_from(devs, slave, 0)
}

pub(crate) proof fn lemma_find_slave_from(devs: Seq<DeviceView>, slave: u8, i: int)
    requires
        0 <= i <= devs.len(),
    ensures
        find_slave_from(devs, slave, i) == -1 || (i <= find_slave_from(devs, slave, i) < devs.len()
            && devs[find_slave_from(devs, slave, i)].slave_id == slave),
    decreases devs.len() - i,
{
    if i < devs.len() && devs[i].slave_id != slave {
        lemma_find_slave_from(devs, slave, i + 1);
    }
}

fn read_values<V: Copy>(m: &BTreeMap<u16, V>, start: u16, count: u16, dflt: V) -> (r: Vec<V>)
    requires
        start as int + count as int <= 0x10000,
    ensures
        r@ == read_or_default(m@, start, count, dflt),
{
    let mut out: Vec<V> = Vec::with_capacity(count as usize);
    let mut i: u16 = 0;
    while i < count
        invariant
            i <= count,
            start as int + count as int <= 0x10000,
            out@ =~= read_or_default(m@, start, i, dflt),
        decreases count - i,
    {
        let addr: u16 = start + i;
        let v = match m.get(&addr) {
            Some(x) => *x,
            None => dflt,
        };
        out.push(v);
        i = i + 1;
    }
    out
}

fn write_values<V: Copy>(m: &mut BTreeMap<u16, V>, start: u16, vals: &[V])
    requires
        values_fit(start, vals@.len() as int),
    ensures
        final(m)@ == map_after_values(old(m)@, start, vals@, vals@.len() as int),
{
    let mut i: usize = 0;
    while i < vals.len()
        invariant
            i <= vals@.len(),
            values_fit(start, vals@.len() as int),
            m@ == map_after_values(old(m)@, start, vals@, i as int),
        decreases vals@.len() - i,
    {
        let off: u16 = i as u16;
        proof {
            assert(start as int + off as int <= 0xFFFF);
        }
        m.insert(start + off, vals[i]);
        i = i + 1;
    }
}

impl EmuDevice {
    /// A device with no registers and no sensors.
    pub fn new(slave_id: u8, name: &str, description: &str) -> (r: Self)
        ensures
            r@.slave_id == slave_id,
            r@.name == name@,
            r@.description == description@,
            r@.input == Map::<u16, u16>::empty(),
            r@.holding == Map::<u16, u16>::empty(),
            r@.coils == Map::<u16, bool>::empty(),
            r@.discrete == Map::<u16, bool>::empty(),
            r@.sensors == Seq::<SensorView>::empty(),
    {
        let r = EmuDevice {
            slave_id,
            name: string_of(name),
            description: string_of(description),
            input_regs: BTreeMap::new(),
            holding_regs: BTreeMap::new(),
            coils: BTreeMap::new(),
            discrete: BTreeMap::new(),
            sensors: Vec::new(),
        };
        proof {
            assert(r@.sensors =~= Seq::<SensorView>::empty());
        }
        r
    }

    /// Records a new value (float bits) for sensor `k` and publishes it in
    /// the sensor's register pair: high half at `input_reg`, low half at
    /// `input_reg + 1`.
    pub fn apply_sensor_value(&mut self, k: usize, bits: u32)
        requires
            k < old(self)@.sensors.len(),
            old(self)@.sensors[k as int].input_reg < 0xFFFF,
        ensures
            ({
                let reg = old(self)@.sensors[k as int].input_reg;
                &&& final(self)@.input == old(self)@.input.insert(reg, (bits / 0x10000) as u16).insert(
                    (reg + 1) as u16,
                    (bits % 0x10000) as u16,
                )
                &&& final(self)@.sensors == old(self)@.sensors.update(
                    k as int,
                    SensorView { last_value: bits, ..old(self)@.sensors[k as int] },
                )
                &&& final(self)@.slave_id == old(self)@.slave_id
                &&& final(self)@.name == old(self)@.name
                &&& final(self)@.description == old(self)@.description
                &&& final(self)@.holding == old(self)@.holding
                &&& final(self)@.coils == old(self)@.coils
                &&& final(self)@.discrete == old(self)@.discrete
            }),
    {
        let reg = self.sensors[k].input_reg;
        self.sensors[k].last_value = bits;
        self.input_regs.insert(reg, (bits / 0x10000) as u16);
        self.input_regs.insert(reg + 1, (bits % 0x10000) as u16);
        proof {
            assert(self.sensors@.map_values(|s: VirtualSensor| s@) =~= old(self)@.sensors.update(
                k as int,
                SensorView { last_value: bits, ..old(self)@.sensors[k as int] },
            ));
        }
    }

    fn in_use(&self, reg: u16) -> (r: bool)
        requires
            sensors_wf(self@.sensors),
        ensures
            r == reg_in_use(self@, reg as int),
    {
        let mut k: usize = 0;
        while k < self.sensors.len()
            invariant
                k <= self@.sensors.len(),
                sensors_wf(self@.sensors),
                forall|j: int|
                    0 <= j < k ==> !(#[trigger] self@.sensors[j].input_reg == reg
                        || self@.sensors[j].input_reg + 1 == reg),
            decreases self@.sensors.len() - k,
        {
            let s = &self.sensors[k];
            proof {
                assert(self@.sensors[k as int] == s@);
                assert(self@.sensors[k as int].input_reg < 0xFFFF);
            }
            if s.input_reg == reg || s.input_reg + 1 == reg {
                proof {
                    assert(self@.sensors[k as int].input_reg == reg || self@.sensors[k as int].input_reg + 1 == reg);
                }
                return true;
            }
            k = k + 1;
        }
        self.input_regs.contains_key(&reg)
    }
}

/// The device emulator: an ordered list of devices.
pub struct Emulator {
    devices: Vec<EmuDevice>,
}

impl View for Emulator {
    type V = Seq<DeviceView>;

    closed spec fn view(&self) -> Seq<DeviceView> {
        self.devices@.map_values(|d: EmuDevice| d@)
    }
}

/// Every device's sensors are well formed.
pub open spec fn emu_wf(devs: Seq<DeviceView>) -> bool {
    forall|i: int| 0 <= i < devs.len() ==> sensors_wf(#[trigger] devs[i].sensors)
}

impl Emulator {
    /// An emulator with no devices.
    pub fn new() -> (r: Self)
        ensures
            r@ == Seq::<DeviceView>::empty(),
    {
        let r = Emulator { devices: Vec::new() };
        proof {
            assert(r@ =~= Seq::<DeviceView>::empty());
        }
        r
    }

    /// Appends an empty device and returns its index.
    pub fn add_device(&mut self, slave_id: u8, name: &str, desc: &str) -> (r: usize)
        requires
            old(self)@.len() < usize::MAX,
        ensures
            r == old(self)@.len(),
            final(self)@.len() == old(self)@.len() + 1,
            final(self)@.take(r as int) == old(self)@,
            final(self)@[r as int] == (DeviceView {
                slave_id,
                name: name@,
                description: desc@,
                input: Map::empty(),
                holding: Map::empty(),
                coils: Map::empty(),
                discrete: Map::empty(),
                sensors: Seq::empty(),
            }),
    {
        let d = EmuDevice::new(slave_id, name, desc);
        self.devices.push(d);
        proof {
            assert(final(self)@.take(old(self)@.len() as int) =~= old(self)@);
        }
        self.devices.len() - 1
    }

    /// Removes the device at `idx`; does nothing when there is none.
    pub fn remove_device(&mut self, idx: usize)
        ensures
            final(self)@ == (if idx < old(self)@.len() {
                old(self)@.remove(idx as int)
            } else {
                old(self)@
            }),
    {
        if idx < self.devices.len() {
            self.devices.remove(idx);
            proof {
                assert(final(self)@ =~= old(self)@.remove(idx as int));
            }
        }
    }

    /// All devices, in order.
    pub fn devices(&self) -> (r: &[EmuDevice])
        ensures
            r@.map_values(|d: EmuDevice| d@) == self@,
    {
        self.devices.as_slice()
    }

    /// The device at `idx`, if any.
    pub fn device(&self, idx: usize) -> (r: Option<&EmuDevice>)
        ensures
            match r {
                Some(d) => idx < self@.len() && d@ == self@[idx as int],
                None => idx >= self@.len(),
            },
    {
        if idx < self.devices.len() {
            Some(&self.devices[idx])
        } else {
            None
        }
    }

    pub(crate) fn find(&self, slave: u8) -> (r: Option<usize>)
        ensures
            match r {
                Some(i) => i as int == find_slave(self@, slave) && i < self@.len(),
                None => find_slave(self@, slave) == -1,
            },
    {
        let mut i: usize = 0;
        while i < self.devices.len()
            invariant
                i <= self@.len(),
                find_slave(self@, slave) == find_slave_from(self@, slave, i as int),
            decreases self@.len() - i,
        {
            proof {
                assert(self@[i as int] == self.devices@[i as int]@);
            }
            if self.devices[i].slave_id == slave {
                return Some(i);
            }
            i = i + 1;
        }
        None
    }

    /// True when `reg` is taken on device `dev_idx`; false when there is no
    /// such device.
    pub fn any_input_reg_in_use(&self, dev_idx: usize, reg: u16) -> (r: bool)
        requires
            emu_wf(self@),
        ensures
            r == (dev_idx < self@.len() && reg_in_use(self@[dev_idx as int], reg as int)),
    {
        if dev_idx >= self.devices.len() {
            return false;
        }
        proof {
            assert(self@[dev_idx as int] == self.devices@[dev_idx as int]@);
        }
        self.devices[dev_idx].in_use(reg)
    }

    /// Adds a sensor to device `dev_idx` on the lowest even register pair
    /// that is free on that device (neither half in a sensor's pair nor
    /// holding an input value). `base`, `amplitude` and `period_s` are float
    /// bits; the sensor starts enabled with `base` as its last value. Error
    /// "device not found" when there is no such device.
    pub fn add_sensor(
        &mut self,
        dev_idx: usize,
        name: &str,
        data_type: DataType,
        base: u32,
        amplitude: u32,
        period_s: u32,
    ) -> (r: Result<(), String>)
        requires
            emu_wf(old(self)@),
            dev_idx < old(self)@.len() ==> exists|q: int| pair_free(old(self)@[dev_idx as int], q),
        ensures
            emu_wf(final(self)@),
            dev_idx >= old(self)@.len() ==> (r matches Err(m) && m@ == "device not found"@)
                && final(self)@ == old(self)@,
            dev_idx < old(self)@.len() ==> r is Ok && exists|q: int|
                {
                    &&& first_free_pair(old(self)@[dev_idx as int], q)
                    &&& final(self)@ == old(self)@.update(
                        dev_idx as int,
                        DeviceView {
                            sensors: old(self)@[dev_idx as int].sensors.push(
                                SensorView {
                                    name: name@,
                                    data_type,
                                    base,
                                    amplitude,
                                    period_s,
                                    input_reg: q as u16,
                                    enabled: true,
                                    last_value: base,
                                },
                            ),
                            ..old(self)@[dev_idx as int]
                        },
                    )
                },
    {
        if dev_idx >= self.devices.len() {
            return Err(string_of("device not found"));
        }
        let ghost d = self@[dev_idx as int];
        let mut reg: u16 = 0;
        loop
            invariant
                dev_idx < self@.len(),
                d == self@[dev_idx as int],
                emu_wf(self@),
                exists|q: int| pair_free(d, q),
                reg % 2 == 0,
                forall|q: int| 0 <= q < reg && q % 2 == 0 ==> !#[trigger] pair_free(d, q),
            ensures
                dev_idx < self@.len(),
                d == self@[dev_idx as int],
                emu_wf(self@),
                pair_free(d, reg as int),
                forall|q: int| 0 <= q < reg && q % 2 == 0 ==> !#[trigger] pair_free(d, q),
            decreases 0x10000 - reg,
        {
            let a = self.any_input_reg_in_use(dev_idx, reg);
            if reg == 0xFFFE {
                let b = self.any_input_reg_in_use(dev_idx, 0xFFFF);
                if !a && !b {
                    break;
                }
                proof {
                    let q = choose|q: int| pair_free(d, q);
                    assert(q % 2 == 0 && q <= 0xFFFE);
                    assert(!pair_free(d, 0xFFFE));
                    assert(q < reg);
                    assert(!pair_free(d, q));
                    assert(false);
                }
            }
            let b = self.any_input_reg_in_use(dev_idx, reg + 1);
            if !a && !b {
                break;
            }
            reg = reg + 2;
        }
        proof {
            assert(pair_free(d, reg as int));
            assert(first_free_pair(d, reg as int));
        }
        let sensor = VirtualSensor {
            name: string_of(name),
            data_type,
            base,
            amplitude,
            period_s,
            input_reg: reg,
            enabled: true,
            last_value: base,
        };
        let ghost sv = sensor@;
        self.devices[dev_idx].sensors.push(sensor);
        proof {
            let nd = DeviceView { sensors: d.sensors.push(sv), ..d };
            assert(self.devices@[dev_idx as int]@.sensors =~= d.sensors.push(sv));
            assert(self@ =~= old(self)@.update(dev_idx as int, nd));
            assert(first_free_pair(old(self)@[dev_idx as int], reg as int));
        }
        Ok(())
    }

    /// Removes sensor `sensor_idx` of device `dev_idx`. Errors: "device not
    /// found"; "sensor index I out of range (N sensors)".
    pub fn remove_sensor(&mut self, dev_idx: usize, sensor_idx: usize) -> (r: Result<(), String>)
        ensures
            dev_idx >= old(self)@.len() ==> (r matches Err(m) && m@ == "device not found"@)
                && final(self)@ == old(self)@,
            dev_idx < old(self)@.len() && sensor_idx >= old(self)@[dev_idx as int].sensors.len() ==> (
            r matches Err(m) && m@ == "sensor index "@ + dec(sensor_idx as nat) + " out of range ("@
                + dec(old(self)@[dev_idx as int].sensors.len()) + " sensors)"@) && final(self)@ == old(
            self)@,
            dev_idx < old(self)@.len() && sensor_idx < old(self)@[dev_idx as int].sensors.len() ==> r
                is Ok && final(self)@ == old(self)@.update(
                dev_idx as int,
                DeviceView {
                    sensors: old(self)@[dev_idx as int].sensors.remove(sensor_idx as int),
                    ..old(self)@[dev_idx as int]
                },
            ),
    {
        if dev_idx >= self.devices.len() {
            return Err(string_of("device not found"));
        }
        let n = self.devices[dev_idx].sensors.len();
        if sensor_idx >= n {
            let mut m = string_of("sensor index ");
            push_dec(&mut m, sensor_idx as u64);
            push_str(&mut m, " out of range (");
            push_dec(&mut m, n as u64);
            push_str(&mut m, " sensors)");
            return Err(m);
        }
        let ghost d = self@[dev_idx as int];
        self.devices[dev_idx].sensors.remove(sensor_idx);
        proof {
            assert(self.devices@[dev_idx as int]@.sensors =~= d.sensors.remove(sensor_idx as int));
            assert(self@ =~= old(self)@.update(
                dev_idx as int,
                DeviceView { sensors: d.sensors.remove(sensor_idx as int), ..d },
            ));
        }
        Ok(())
    }

    /// Publishes a new value (float bits) of sensor `k` of device `dev_idx`.
    pub fn apply_sensor_value(&mut self, dev_idx: usize, k: usize, bits: u32)
        requires
            emu_wf(old(self)@),
            dev_idx < old(self)@.len(),
            k < old(self)@[dev_idx as int].sensors.len(),
        ensures
            emu_wf(final(self)@),
            final(self)@.len() == old(self)@.len(),
            forall|i: int| 0 <= i < old(self)@.len() && i != dev_idx ==> final(self)@[i] == old(self)@[i],
            ({
                let d = old(self)@[dev_idx as int];
                let reg = d.sensors[k as int].input_reg;
                final(self)@[dev_idx as int] == DeviceView {
                    input: d.input.insert(reg, (bits / 0x10000) as u16).insert(
                        (reg + 1) as u16,
                        (bits % 0x10000) as u16,
                    ),
                    sensors: d.sensors.update(k as int, SensorView { last_value: bits, ..d.sensors[k as int] }),
                    ..d
                }
            }),
    {
        proof {
            assert(self.devices@[dev_idx as int]@ == self@[dev_idx as int]);
            assert(sensors_wf(self@[dev_idx as int].sensors));
        }
        self.devices[dev_idx].apply_sensor_value(k, bits);
        proof {
            assert forall|i: int| 0 <= i < final(self)@.len() implies sensors_wf(#[trigger] final(self)@[i].sensors) by {
                if i == dev_idx {
                    let s2 = final(self)@[i].sensors;
                    assert forall|j: int| 0 <= j < s2.len() implies #[trigger] s2[j].input_reg < 0xFFFF by {
                        assert(s2[j].input_reg == old(self)@[i].sensors[j].input_reg);
                    }
                }
            }
        }
    }

    // --- serving Modbus requests as a slave ---

    /// Reads `count` input registers of slave `slave` (absent ones read as
    /// 0); exception 0x02 when no device answers as `slave`.
    pub fn read_input_regs(&mut self, slave: u8, start: u16, count: u16) -> (r: Result<Vec<u16>, u8>)
        requires
            find_slave(old(self)@, slave) >= 0 ==> start as int + count as int <= 0x10000,
        ensures
            final(self)@ == old(self)@,
            find_slave(old(self)@, slave) < 0 ==> r == Err::<Vec<u16>, u8>(0x02),
            find_slave(old(self)@, slave) >= 0 ==> (r matches Ok(v) && v@ == read_or_default(
                old(self)@[find_slave(old(self)@, slave)].input,
                start,
                count,
                0u16,
            )),
    {
        match self.find(slave) {
            None => Err(0x02),
            Some(i) => {
                proof { assert(self@[i as int] == self.devices@[i as int]@); }
                Ok(read_values(&self.devices[i].input_regs, start, count, 0))
            },
        }
    }

    /// Reads `count` holding registers of slave `slave` (absent ones read as
    /// 0); exception 0x02 when no device answers as `slave`.
    pub fn read_holding_regs(&mut self, slave: u8, start: u16, count: u16) -> (r: Result<Vec<u16>, u8>)
        requires
            find_slave(old(self)@, slave) >= 0 ==> start as int + count as int <= 0x10000,
        ensures
            final(self)@ == old(self)@,
            find_slave(old(self)@, slave) < 0 ==> r == Err::<Vec<u16>, u8>(0x02),
            find_slave(old(self)@, slave) >= 0 ==> (r matches Ok(v) && v@ == read_or_default(
                old(self)@[find_slave(old(self)@, slave)].holding,
                start,
                count,
                0u16,
            )),
    {
        match self.find(slave) {
            None => Err(0x02),
            Some(i) => {
                proof { assert(self@[i as int] == self.devices@[i as int]@); }
                Ok(read_values(&self.devices[i].holding_regs, start, count, 0))
            },
        }
    }

    /// Reads `count` coils of slave `slave` (absent ones read as off);
    /// exception 0x02 when no device answers as `slave`.
    pub fn read_coils(&mut self, slave: u8, start: u16, count: u16) -> (r: Result<Vec<bool>, u8>)
        requires
            find_slave(old(self)@, slave) >= 0 ==> start as int + count as int <= 0x10000,
        ensures
            final(self)@ == old(self)@,
            find_slave(old(self)@, slave) < 0 ==> r == Err::<Vec<bool>, u8>(0x02),
            find_slave(old(self)@, slave) >= 0 ==> (r matches Ok(v) && v@ == read_or_default(
                old(self)@[find_slave(old(self)@, slave)].coils,
                start,
                count,
                false,
            )),
    {
        match self.find(slave) {
            None => Err(0x02),
            Some(i) => {
                proof { assert(self@[i as int] == self.devices@[i as int]@); }
                Ok(read_values(&self.devices[i].coils, start, count, false))
            },
        }
    }

    /// Reads `count` discrete inputs of slave `slave` (absent ones read as
    /// off); exception 0x02 when no device answers as `slave`.
    pub fn read_discrete_inputs(&mut self, slave: u8, start: u16, count: u16) -> (r: Result<
        Vec<bool>,
        u8,
    >)
        requires
            find_slave(old(self)@, slave) >= 0 ==> start as int + count as int <= 0x10000,
        ensures
            final(self)@ == old(self)@,
            find_slave(old(self)@, slave) < 0 ==> r == Err::<Vec<bool>, u8>(0x02),
            find_slave(old(self)@, slave) >= 0 ==> (r matches Ok(v) && v@ == read_or_default(
                old(self)@[find_slave(old(self)@, slave)].discrete,
                start,
                count,
                false,
            )),
    {
        match self.find(slave) {
            None => Err(0x02),
            Some(i) => {
                proof { assert(self@[i as int] == self.devices@[i as int]@); }
                Ok(read_values(&self.devices[i].discrete, start, count, false))
            },
        }
    }

    /// Writes one holding register of slave `slave`; exception 0x02 when no
    /// device answers as `slave`.
    pub fn write_holding_reg(&mut self, slave: u8, addr: u16, value: u16) -> (r: Result<(), u8>)
        ensures
            find_slave(old(self)@, slave) < 0 ==> r == Err::<(), u8>(0x02) && final(self)@ == old(self)@,
            find_slave(old(self)@, slave) >= 0 ==> r == Ok::<(), u8>(()) && final(self)@ == old(self)@.update(
                find_slave(old(self)@, slave),
                DeviceView {
                    holding: old(self)@[find_slave(old(self)@, slave)].holding.insert(addr, value),
                    ..old(self)@[find_slave(old(self)@, slave)]
                },
            ),
    {
        match self.find(slave) {
            None => Err(0x02),
            Some(i) => {
                let ghost d = self@[i as int];
                self.devices[i].holding_regs.insert(addr, value);
                proof {
                    assert(self@ =~= old(self)@.update(i as int, DeviceView { holding: d.holding.insert(addr, value), ..d }));
                }
                Ok(())
            },
        }
    }

    /// Writes holding registers of slave `slave` from `start`, value `i` at
    /// `start + (i mod 65536)`; exception 0x02 when no device answers as
    /// `slave`.
    pub fn write_holding_regs(&mut self, slave: u8, start: u16, values: &[u16]) -> (r: Result<(), u8>)
        requires
            find_slave(old(self)@, slave) >= 0 ==> values_fit(start, values@.len() as int),
        ensures
            find_slave(old(self)@, slave) < 0 ==> r == Err::<(), u8>(0x02) && final(self)@ == old(self)@,
            find_slave(old(self)@, slave) >= 0 ==> r == Ok::<(), u8>(()) && final(self)@ == old(self)@.update(
                find_slave(old(self)@, slave),
                DeviceView {
                    holding: map_after_values(
                        old(self)@[find_slave(old(self)@, slave)].holding,
                        start,
                        values@,
                        values@.len() as int,
                    ),
                    ..old(self)@[find_slave(old(self)@, slave)]
                },
            ),
    {
        match self.find(slave) {
            None => Err(0x02),
            Some(i) => {
                let ghost d = self@[i as int];
                write_values(&mut self.devices[i].holding_regs, start, values);
                proof {
                    assert(self@ =~= old(self)@.update(
                        i as int,
                        DeviceView { holding: map_after_values(d.holding, start, values@, values@.len() as int), ..d },
                    ));
                }
                Ok(())
            },
        }
    }

    /// Writes one coil of slave `slave`; exception 0x02 when no device
    /// answers as `slave`.
    pub fn write_coil(&mut self, slave: u8, addr: u16, value: bool) -> (r: Result<(), u8>)
        ensures
            find_slave(old(self)@, slave) < 0 ==> r == Err::<(), u8>(0x02) && final(self)@ == old(self)@,
            find_slave(old(self)@, slave) >= 0 ==> r == Ok::<(), u8>(()) && final(self)@ == old(self)@.update(
                find_slave(old(self)@, slave),
                DeviceView {
                    coils: old(self)@[find_slave(old(self)@, slave)].coils.insert(addr, value),
                    ..old(self)@[find_slave(old(self)@, slave)]
                },
            ),
    {
        match self.find(slave) {
            None => Err(0x02),
            Some(i) => {
                let ghost d = self@[i as int];
                self.devices[i].coils.insert(addr, value);
                proof {
                    assert(self@ =~= old(self)@.update(i as int, DeviceView { coils: d.coils.insert(addr, value), ..d }));
                }
                Ok(())
            },
        }
    }

    /// Writes coils of slave `slave` from `start`, value `i` at
    /// `start + (i mod 65536)`; exception 0x02 when no device answers as
    /// `slave`.
    pub fn write_coils(&mut self, slave: u8, start: u16, values: &[bool]) -> (r: Result<(), u8>)
        requires
            find_slave(old(self)@, slave) >= 0 ==> values_fit(start, values@.len() as int),
        ensures
            find_slave(old(self)@, slave) < 0 ==> r == Err::<(), u8>(0x02) && final(self)@ == old(self)@,
            find_slave(old(self)@, slave) >= 0 ==> r == Ok::<(), u8>(()) && final(self)@ == old(self)@.update(
                find_slave(old(self)@, slave),
                DeviceView {
                    coils: map_after_values(
                        old(self)@[find_slave(old(self)@, slave)].coils,
                        start,
                        values@,
                        values@.len() as int,
                    ),
                    ..old(self)@[find_slave(old(self)@, slave)]
                },
            ),
    {
        match self.find(slave) {
            None => Err(0x02),
            Some(i) => {
                let ghost d = self@[i as int];
                write_values(&mut self.devices[i].coils, start, values);
                proof {
                    assert(self@ =~= old(self)@.update(
                        i as int,
                        DeviceView { coils: map_after_values(d.coils, start, values@, values@.len() as int), ..d },
                    ));
                }
                Ok(())
            },
        }
    }
}

impl Emulator {
    /// The register pair a new sensor of device `dev_idx` would get: the
    /// lowest even pair free on that device; `None` when the device is
    /// missing or every pair is taken.
    pub fn free_pair(&self, dev_idx: usize) -> (r: Option<u16>)
        requires
            emu_wf(self@),
        ensures
            match r {
                Some(q) => dev_idx < self@.len() && first_free_pair(self@[dev_idx as int], q as int),
                None => dev_idx >= self@.len() || forall|q: int| !#[trigger] pair_free(self@[dev_idx as int], q),
            },
    {
        if dev_idx >= self.devices.len() {
            return None;
        }
        let ghost d = self@[dev_idx as int];
        let mut reg: u16 = 0;
        loop
            invariant
                dev_idx < self@.len(),
                d == self@[dev_idx as int],
                emu_wf(self@),
                reg % 2 == 0,
                forall|q: int| 0 <= q < reg && q % 2 == 0 ==> !#[trigger] pair_free(d, q),
            decreases 0x10000 - reg,
        {
            let a = self.any_input_reg_in_use(dev_idx, reg);
            let b = self.any_input_reg_in_use(dev_idx, reg + 1);
            if !a && !b {
                return Some(reg);
            }
            if reg == 0xFFFE {
                proof {
                    assert forall|q: int| !#[trigger] pair_free(d, q) by {
                        if pair_free(d, q) {
                            assert(q <= 0xFFFE && q % 2 == 0);
                            if q == 0xFFFE {
                                assert(!pair_free(d, 0xFFFE));
                            }
                        }
                    }
                }
                return None;
            }
            reg = reg + 2;
        }
    }

    fn insert_input(&mut self, dev_idx: usize, reg: u16, value: u16)
        requires
            dev_idx < old(self)@.len(),
            emu_wf(old(self)@),
        ensures
            emu_wf(final(self)@),
            final(self)@ == old(self)@.update(
                dev_idx as int,
                DeviceView { input: old(self)@[dev_idx as int].input.insert(reg, value), ..old(self)@[dev_idx as int] },
            ),
    {
        let ghost d = self@[dev_idx as int];
        self.devices[dev_idx].input_regs.insert(reg, value);
        proof {
            assert(self@ =~= old(self)@.update(dev_idx as int, DeviceView { input: d.input.insert(reg, value), ..d }));
        }
    }

    fn insert_holding(&mut self, dev_idx: usize, reg: u16, value: u16)
        requires
            dev_idx < old(self)@.len(),
            emu_wf(old(self)@),
        ensures
            emu_wf(final(self)@),
            final(self)@ == old(self)@.update(
                dev_idx as int,
                DeviceView { holding: old(self)@[dev_idx as int].holding.insert(reg, value), ..old(self)@[dev_idx as int] },
            ),
    {
        let ghost d = self@[dev_idx as int];
        self.devices[dev_idx].holding_regs.insert(reg, value);
        proof {
            assert(self@ =~= old(self)@.update(dev_idx as int, DeviceView { holding: d.holding.insert(reg, value), ..d }));
        }
    }

    fn insert_coil(&mut self, dev_idx: usize, addr: u16, value: bool)
        requires
            dev_idx < old(self)@.len(),
            emu_wf(old(self)@),
        ensures
            emu_wf(final(self)@),
            final(self)@ == old(self)@.update(
                dev_idx as int,
                DeviceView { coils: old(self)@[dev_idx as int].coils.insert(addr, value), ..old(self)@[dev_idx as int] },
            ),
    {
        let ghost d = self@[dev_idx as int];
        self.devices[dev_idx].coils.insert(addr, value);
        proof {
            assert(self@ =~= old(self)@.update(dev_idx as int, DeviceView { coils: d.coils.insert(addr, value), ..d }));
        }
    }

    fn append_description(&mut self, dev_idx: usize, text: &str)
        requires
            dev_idx < old(self)@.len(),
            emu_wf(old(self)@),
        ensures
            emu_wf(final(self)@),
            final(self)@ == old(self)@.update(
                dev_idx as int,
                DeviceView {
                    description: old(self)@[dev_idx as int].description + text@,
                    ..old(self)@[dev_idx as int]
                },
            ),
    {
        let ghost d = self@[dev_idx as int];
        push_str(&mut self.devices[dev_idx].description, text);
        proof {
            assert(self@ =~= old(self)@.update(dev_idx as int, DeviceView { description: d.description + text@, ..d }));
        }
    }

    /// Adds a sensor to a device whose sensors sit on pairs 0, 2, 4, ...
    /// in order and whose input map is still empty: it lands on the next
    /// pair.
    fn add_next_sensor(
        &mut self,
        dev_idx: usize,
        name: &str,
        data_type: DataType,
        base: u32,
        amplitude: u32,
        period_s: u32,
    )
        requires
            emu_wf(old(self)@),
            dev_idx < old(self)@.len(),
            stacked_sensors(old(self)@[dev_idx as int]),
            old(self)@[dev_idx as int].sensors.len() < 100,
        ensures
            emu_wf(final(self)@),
            final(self)@ == old(self)@.update(
                dev_idx as int,
                DeviceView {
                    sensors: old(self)@[dev_idx as int].sensors.push(
                        sensor_view(
                            name@,
                            data_type,
                            base,
                            amplitude,
                            period_s,
                            (2 * old(self)@[dev_idx as int].sensors.len()) as u16,
                        ),
                    ),
                    ..old(self)@[dev_idx as int]
                },
            ),
    {
        let ghost d = self@[dev_idx as int];
        let ghost n = d.sensors.len();
        proof {
            lemma_stacked_next_pair(d);
        }
        let _ = self.add_sensor(dev_idx, name, data_type, base, amplitude, period_s);
        proof {
            let q = choose|q: int| {
                &&& first_free_pair(old(self)@[dev_idx as int], q)
                &&& final(self)@ == old(self)@.update(
                    dev_idx as int,
                    DeviceView {
                        sensors: old(self)@[dev_idx as int].sensors.push(
                            SensorView {
                                name: name@,
                                data_type,
                                base,
                                amplitude,
                                period_s,
                                input_reg: q as u16,
                                enabled: true,
                                last_value: base,
                            },
                        ),
                        ..old(self)@[dev_idx as int]
                    },
                )
            };
            assert(q == 2 * n);
        }
    }
}

/// A sensor as a fresh `add_sensor` creates it.
pub open spec fn sensor_view(
    name: Seq<char>,
    data_type: DataType,
    base: u32,
    amplitude: u32,
    period_s: u32,
    input_reg: u16,
) -> SensorView {
    SensorView { name, data_type, base, amplitude, period_s, input_reg, enabled: true, last_value: base }
}

/// Sensor `k` sits on pair `2k` and no input register holds a value.
pub open spec fn stacked_sensors(d: DeviceView) -> bool {
    &&& forall|k: int| 0 <= k < d.sensors.len() ==> #[trigger] d.sensors[k].input_reg == 2 * k
    &&& d.input == Map::<u16, u16>::empty()
}

proof fn lemma_stacked_next_pair(d: DeviceView)
    requires
        stacked_sensors(d),
        d.sensors.len() < 100,
    ensures
        pair_free(d, 2 * d.sensors.len() as int),
        forall|q: int| first_free_pair(d, q) ==> q == 2 * d.sensors.len(),
{
    let n = d.sensors.len() as int;
    assert forall|q: int| 0 <= q < 2 * n && q % 2 == 0 implies !#[trigger] pair_free(d, q) by {
        assert(d.sensors[q / 2].input_reg == q);
    }
    assert(!reg_in_use(d, 2 * n)) by {
        if exists|k: int| 0 <= k < d.sensors.len() && (#[trigger] d.sensors[k].input_reg == 2 * n
            || d.sensors[k].input_reg + 1 == 2 * n) {
            let k = choose|k: int| 0 <= k < d.sensors.len() && (#[trigger] d.sensors[k].input_reg == 2 * n
                || d.sensors[k].input_reg + 1 == 2 * n);
            assert(d.sensors[k].input_reg == 2 * k);
        }
    }
    assert(!reg_in_use(d, 2 * n + 1)) by {
        if exists|k: int| 0 <= k < d.sensors.len() && (#[trigger] d.sensors[k].input_reg == 2 * n + 1
            || d.sensors[k].input_reg + 1 == 2 * n + 1) {
            let k = choose|k: int| 0 <= k < d.sensors.len() && (#[trigger] d.sensors[k].input_reg == 2 * n
                + 1 || d.sensors[k].input_reg + 1 == 2 * n + 1);
            assert(d.sensors[k].input_reg == 2 * k);
        }
    }
    assert forall|q: int| first_free_pair(d, q) implies q == 2 * n by {
        if q < 2 * n {
            assert(!pair_free(d, q));
        }
        if q > 2 * n {
            assert(pair_free(d, 2 * n));
        }
    }
}

/// A device as it stands in the ready-made scenario.
pub open spec fn scenario_device(
    slave_id: u8,
    name: Seq<char>,
    description: Seq<char>,
    sensors: Seq<SensorView>,
    input: Map<u16, u16>,
    holding: Map<u16, u16>,
    coils: Map<u16, bool>,
) -> DeviceView {
    DeviceView { slave_id, name, description, input, holding, coils, discrete: Map::empty(), sensors }
}

/// The ready-made scenario: a pump station, a test device, an electric
/// boiler and a weather station, slaves 1 to 4, three sensors each (float
/// bits of their base, amplitude and period in seconds).
pub open spec fn scenario_devices() -> Seq<DeviceView> {
    seq![
        scenario_device(
            1,
            "Pump Station"@,
            "15 thermocouples + 15 pressures + 2 pumps (like ESP32 firmware)"@ + " | sim"@,
            seq![
                sensor_view("T-101 Inlet"@, DataType::TemperatureC, 0x41b00000, 0x40800000, 0x41000000, 0),
                sensor_view("T-202 Outlet"@, DataType::TemperatureC, 0x42340000, 0x40000000, 0x40a00000, 2),
                sensor_view("P-101 Discharge"@, DataType::PressureKPa, 0x42caa666, 0x40400000, 0x40c00000, 4),
            ],
            Map::<u16, u16>::empty().insert(3, 0),
            Map::<u16, u16>::empty().insert(0, 30).insert(1, 10),
            Map::<u16, bool>::empty().insert(0, true).insert(1, false),
        ),
        scenario_device(
            2,
            "Test Device"@,
            "pure test values"@,
            seq![
                sensor_view("Sine A"@, DataType::Test, 0x42480000, 0x41c80000, 0x40800000, 0),
                sensor_view("Sine B"@, DataType::Test, 0x41f00000, 0x41200000, 0x40000000, 2),
                sensor_view("Flow C"@, DataType::Flow, 0x42c80000, 0x41f00000, 0x40e00000, 4),
            ],
            Map::<u16, u16>::empty().insert(60, 0),
            Map::<u16, u16>::empty(),
            Map::<u16, bool>::empty(),
        ),
        scenario_device(
            3,
            "Electric Boiler"@,
            "heater + temp/level sensors"@,
            seq![
                sensor_view("B-1 Water temp"@, DataType::TemperatureC, 0x42700000, 0x40400000, 0x41400000, 0),
                sensor_view("B-2 Exhaust temp"@, DataType::TemperatureC, 0x43340000, 0x40a00000, 0x41a00000, 2),
                sensor_view("L-1 Water level"@, DataType::LevelM, 0x3f99999a, 0x3d4ccccd, 0x41f00000, 4),
            ],
            Map::<u16, u16>::empty(),
            Map::<u16, u16>::empty().insert(0, 70).insert(1, 0),
            Map::<u16, bool>::empty().insert(0, false).insert(1, false),
        ),
        scenario_device(
            4,
            "Weather Station"@,
            "wind / humidity / outside temp"@,
            seq![
                sensor_view("W wind speed"@, DataType::Test, 0x40400000, 0x40000000, 0x40a00000, 0),
                sensor_view("H humidity"@, DataType::HumidityPct, 0x42700000, 0x41a00000, 0x41000000, 2),
                sensor_view("T outside"@, DataType::TemperatureC, 0x41400000, 0x41000000, 0x41700000, 4),
            ],
            Map::<u16, u16>::empty().insert(80, 0),
            Map::<u16, u16>::empty().insert(0, 15),
            Map::<u16, bool>::empty(),
        ),
    ]
}

impl Emulator {
    fn add_empty_device(&mut self, slave_id: u8, name: &str, desc: &str)
        requires
            emu_wf(old(self)@),
            old(self)@.len() < 10,
        ensures
            emu_wf(final(self)@),
            final(self)@ == old(self)@.push(
                scenario_device(
                    slave_id,
                    name@,
                    desc@,
                    Seq::empty(),
                    Map::empty(),
                    Map::empty(),
                    Map::empty(),
                ),
            ),
    {
        let i = self.add_device(slave_id, name, desc);
        proof {
            assert(final(self)@ =~= old(self)@.push(
                scenario_device(slave_id, name@, desc@, Seq::empty(), Map::empty(), Map::empty(), Map::empty()),
            ));
            assert forall|j: int| 0 <= j < final(self)@.len() implies sensors_wf(#[trigger] final(self)@[j].sensors) by {
                if j < old(self)@.len() {
                    assert(final(self)@[j] == old(self)@[j]);
                }
            }
        }
    }
}

/// The emulator preloaded with the four devices of `scenario_devices`.
pub fn default_scenario() -> (r: Emulator)
    ensures
        r@ == scenario_devices(),
        emu_wf(r@),
{
    let mut emu = Emulator::new();
    emu.add_empty_device(1, "Pump Station", "15 thermocouples + 15 pressures + 2 pumps (like ESP32 firmware)");
    emu.add_next_sensor(0, "T-101 Inlet", DataType::TemperatureC, 0x41b00000, 0x40800000, 0x41000000);
    emu.add_next_sensor(0, "T-202 Outlet", DataType::TemperatureC, 0x42340000, 0x40000000, 0x40a00000);
    emu.add_next_sensor(0, "P-101 Discharge", DataType::PressureKPa, 0x42caa666, 0x40400000, 0x40c00000);
    emu.insert_input(0, 3, 0);
    emu.insert_holding(0, 0, 30);
    emu.insert_holding(0, 1, 10);
    emu.insert_coil(0, 0, true);
    emu.insert_coil(0, 1, false);
    emu.append_description(0, " | sim");
    proof {
        assert(emu@[0].sensors =~= scenario_devices()[0].sensors);
        assert(emu@[0] == scenario_devices()[0]);
    }

    emu.add_empty_device(2, "Test Device", "pure test values");
    emu.add_next_sensor(1, "Sine A", DataType::Test, 0x42480000, 0x41c80000, 0x40800000);
    emu.add_next_sensor(1, "Sine B", DataType::Test, 0x41f00000, 0x41200000, 0x40000000);
    emu.add_next_sensor(1, "Flow C", DataType::Flow, 0x42c80000, 0x41f00000, 0x40e00000);
    emu.insert_input(1, 60, 0);
    proof {
        assert(emu@[1].sensors =~= scenario_devices()[1].sensors);
        assert(emu@[1] == scenario_devices()[1]);
    }

    emu.add_empty_device(3, "Electric Boiler", "heater + temp/level sensors");
    emu.add_next_sensor(2, "B-1 Water temp", DataType::TemperatureC, 0x42700000, 0x40400000, 0x41400000);
    emu.add_next_sensor(2, "B-2 Exhaust temp", DataType::TemperatureC, 0x43340000, 0x40a00000, 0x41a00000);
    emu.add_next_sensor(2, "L-1 Water level", DataType::LevelM, 0x3f99999a, 0x3d4ccccd, 0x41f00000);
    emu.insert_holding(2, 0, 70);
    emu.insert_holding(2, 1, 0);
    emu.insert_coil(2, 0, false);
    emu.insert_coil(2, 1, false);
    proof {
        assert(emu@[2].sensors =~= scenario_devices()[2].sensors);
        assert(emu@[2] == scenario_devices()[2]);
    }

    emu.add_empty_device(4, "Weather Station", "wind / humidity / outside temp");
    emu.add_next_sensor(3, "W wind speed", DataType::Test, 0x40400000, 0x40000000, 0x40a00000);
    emu.add_next_sensor(3, "H humidity", DataType::HumidityPct, 0x42700000, 0x41a00000, 0x41000000);
    emu.add_next_sensor(3, "T outside", DataType::TemperatureC, 0x41400000, 0x41000000, 0x41700000);
    emu.insert_input(3, 80, 0);
    emu.insert_holding(3, 0, 15);
    proof {
        assert(emu@[3].sensors =~= scenario_devices()[3].sensors);
        assert(emu@[3] == scenario_devices()[3]);
        assert(emu@ =~= scenario_devices());
    }
    emu
}

} // verus!
