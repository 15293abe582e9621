//! The register map of a Modbus slave: input registers (read only over the
//! bus), holding registers (read/write) and coils (bits), each addressed by a
//! 16-bit address. Reading a range fails with exception code 0x02 (illegal
//! data address) as soon as one address in it holds nothing.

use std::collections::HashMap;
use vstd::prelude::*;
use vstd::std_specs::hash::*;

verus! {

broadcast use vstd::std_specs::hash::group_hash_axioms;

/// Exception code for an address that holds no value.
pub const ILLEGAL_DATA_ADDRESS: u8 = 0x02;

/// True when every address of `start .. start + count` holds a value and the
/// range stays within the 16-bit address space.
pub open spec fn range_present<V>(m: Map<u16, V>, start: u16, count: u16) -> bool {
    &&& start as int + count as int <= 0x10000
    &&& forall|i: int| 0 <= i < count ==> #[trigger] m.contains_key((start + i) as u16)
}

/// A read of `count` values from `start`: the values in address order, or
/// exception code 0x02 when some address holds nothing.
pub open spec fn spec_read_range<V>(m: Map<u16, V>, start: u16, count: u16) -> Result<Seq<V>, u8> {
    if range_present(m, start, count) {
        Ok(Seq::new(count as nat, |i: int| m[(start + i) as u16]))
    } else {
        Err(ILLEGAL_DATA_ADDRESS)
    }
}

/// The reads on which the address arithmetic `start + i` would leave the
/// 16-bit range: every address from `start` to 0xFFFF holds a value and the
/// range runs past it. Those reads are outside what the map serves.
pub open spec fn read_runs_off_end<V>(m: Map<u16, V>, start: u16, count: u16) -> bool {
    &&& start as int + count as int > 0x10000
    &&& forall|a: int| start <= a <= 0xFFFF ==> #[trigger] m.contains_key(a as u16)
}

/// The abstract content of a register map.
pub struct RegisterMapView {
    pub input: Map<u16, u16>,
    pub holding: Map<u16, u16>,
    pub coils: Map<u16, bool>,
}

/// Register map of a Modbus RTU slave.
pub struct RegisterMap {
    input_registers: HashMap<u16, u16>,
    holding_registers: HashMap<u16, u16>,
    coils: HashMap<u16, bool>,
}

impl View for RegisterMap {
    type V = RegisterMapView;

    closed spec fn view(&self) -> RegisterMapView {
        RegisterMapView {
            input: self.input_registers@,
            holding: self.holding_registers@,
            coils: self.coils@,
        }
    }
}

fn read_range<V: Copy>(m: &HashMap<u16, V>, start: u16, count: u16) -> (r: Result<Vec<V>, u8>)
    requires
        !read_runs_off_end(m@, start, count),
    ensures
        match r {
            Ok(v) => spec_read_range(m@, start, count) == Ok::<Seq<V>, u8>(v@),
            Err(e) => spec_read_range(m@, start, count) == Err::<Seq<V>, u8>(e),
        },
{
    let mut result: Vec<V> = Vec::with_capacity(count as usize);
    let mut i: u16 = 0;
    while i < count
        invariant
            i <= count,
            !read_runs_off_end(m@, start, count),
            start as int + i as int <= 0x10000,
            forall|j: int| 0 <= j < i ==> #[trigger] m@.contains_key((start + j) as u16),
            result@.len() == i,
            forall|j: int| 0 <= j < i ==> result@[j] == m@[(start + j) as u16],
        decreases count - i,
    {
        if start as u32 + i as u32 > 0xFFFF {
            proof {
                assert forall|a: int| start <= a <= 0xFFFF implies #[trigger] m@.contains_key(
                    a as u16,
                ) by {
                    assert(m@.contains_key((start + (a - start)) as u16));
                }
                assert(false);
            }
        }
        let addr: u16 = start + i;
        match m.get(&addr) {
            Some(val) => {
                result.push(*val);
            },
            None => {
                proof {
                    assert(!m@.contains_key((start + i) as u16));
                    assert(!range_present(m@, start, count));
                }
                return Err(ILLEGAL_DATA_ADDRESS);
            },
        }
        i = i + 1;
    }
    proof {
        assert(range_present(m@, start, count));
        assert(result@ =~= Seq::new(count as nat, |j: int| m@[(start + j) as u16]));
    }
    Ok(result)
}

fn runs_off_end<V>(m: &HashMap<u16, V>, start: u16, count: u16) -> (r: bool)
    ensures
        r == read_runs_off_end(m@, start, count),
{
    if (start as u32) + (count as u32) <= 0x10000 {
        return false;
    }
    let mut a: u32 = start as u32;
    while a <= 0xFFFF
        invariant
            start <= a <= 0x10000,
            forall|b: int| start <= b < a ==> #[trigger] m@.contains_key(b as u16),
        decreases 0x10000 - a,
    {
        let addr: u16 = a as u16;
        if !m.contains_key(&addr) {
            return false;
        }
        a = a + 1;
    }
    true
}

/// The three tables of a register map.
pub enum RegisterKind {
    Input,
    Holding,
    Coil,
}

impl RegisterMap {
    /// True when a read of `count` values from `start` in the given table
    /// would run past address 0xFFFF with every address up to it holding a
    /// value: the reads that `read_*` do not serve.
    pub fn read_runs_off_end(&self, kind: RegisterKind, start: u16, count: u16) -> (r: bool)
        ensures
            r == match kind {
                RegisterKind::Input => read_runs_off_end(self@.input, start, count),
                RegisterKind::Holding => read_runs_off_end(self@.holding, start, count),
                RegisterKind::Coil => read_runs_off_end(self@.coils, start, count),
            },
    {
        match kind {
            RegisterKind::Input => runs_off_end(&self.input_registers, start, count),
            RegisterKind::Holding => runs_off_end(&self.holding_registers, start, count),
            RegisterKind::Coil => runs_off_end(&self.coils, start, count),
        }
    }

    /// An empty register map.
    pub fn new() -> (r: Self)
        ensures
            r@.input == Map::<u16, u16>::empty(),
            r@.holding == Map::<u16, u16>::empty(),
            r@.coils == Map::<u16, bool>::empty(),
    {
        RegisterMap {
            input_registers: HashMap::new(),
            holding_registers: HashMap::new(),
            coils: HashMap::new(),
        }
    }

    // --- Input registers ---

    /// The input register at `addr`, if it holds a value.
    pub fn get_input_register(&self, addr: u16) -> (r: Option<u16>)
        ensures
            r == (if self@.input.contains_key(addr) {
                Some(self@.input[addr])
            } else {
                None
            }),
    {
        match self.input_registers.get(&addr) {
            Some(v) => Some(*v),
            None => None,
        }
    }

    /// Stores `value` in input register `addr`.
    pub fn set_input_register(&mut self, addr: u16, value: u16)
        ensures
            final(self)@.input == old(self)@.input.insert(addr, value),
            final(self)@.holding == old(self)@.holding,
            final(self)@.coils == old(self)@.coils,
    {
        self.input_registers.insert(addr, value);
    }

    /// Publishes the value of sensor `index` (a 32-bit float, by its bit
    /// pattern) in the input register pair at `base_addr + 2 * index`: the
    /// high half first, the low half in the next register.
    pub fn update_sensor_data(&mut self, base_addr: u16, index: u16, bits: u32)
        requires
            base_addr + 2 * index + 1 <= u16::MAX,
        ensures
            final(self)@.input == old(self)@.input.insert(
                (base_addr + 2 * index) as u16,
                (bits / 0x10000) as u16,
            ).insert((base_addr + 2 * index + 1) as u16, (bits % 0x10000) as u16),
            final(self)@.holding == old(self)@.holding,
            final(self)@.coils == old(self)@.coils,
    {
        let addr = base_addr + index * 2;
        self.set_input_register(addr, (bits / 0x10000) as u16);
        self.set_input_register(addr + 1, (bits % 0x10000) as u16);
    }

    /// Reads `count` input registers from `start`; exception code 0x02 when
    /// one of them holds nothing.
    pub fn read_input_registers(&self, start: u16, count: u16) -> (r: Result<Vec<u16>, u8>)
        requires
            !read_runs_off_end(self@.input, start, count),
        ensures
            match r {
                Ok(v) => spec_read_range(self@.input, start, count) == Ok::<Seq<u16>, u8>(v@),
                Err(e) => spec_read_range(self@.input, start, count) == Err::<Seq<u16>, u8>(e),
            },
    {
        read_range(&self.input_registers, start, count)
    }

    // --- Holding registers ---

    /// The holding register at `addr`, if it holds a value.
    pub fn get_holding_register(&self, addr: u16) -> (r: Option<u16>)
        ensures
            r == (if self@.holding.contains_key(addr) {
                Some(self@.holding[addr])
            } else {
                None
            }),
    {
        match self.holding_registers.get(&addr) {
            Some(v) => Some(*v),
            None => None,
        }
    }

    /// Stores `value` in holding register `addr`.
    pub fn set_holding_register(&mut self, addr: u16, value: u16)
        ensures
            final(self)@.holding == old(self)@.holding.insert(addr, value),
            final(self)@.input == old(self)@.input,
            final(self)@.coils == old(self)@.coils,
    {
        self.holding_registers.insert(addr, value);
    }

    /// Reads `count` holding registers from `start`; exception code 0x02 when
    /// one of them holds nothing.
    pub fn read_holding_registers(&self, start: u16, count: u16) -> (r: Result<Vec<u16>, u8>)
        requires
            !read_runs_off_end(self@.holding, start, count),
        ensures
            match r {
                Ok(v) => spec_read_range(self@.holding, start, count) == Ok::<Seq<u16>, u8>(v@),
                Err(e) => spec_read_range(self@.holding, start, count) == Err::<Seq<u16>, u8>(e),
            },
    {
        read_range(&self.holding_registers, start, count)
    }

    /// Writes a holding register on behalf of a Modbus request; it always
    /// succeeds.
    pub fn write_holding_register(&mut self, addr: u16, value: u16) -> (r: Result<(), u8>)
        ensures
            r == Ok::<(), u8>(()),
            final(self)@.holding == old(self)@.holding.insert(addr, value),
            final(self)@.input == old(self)@.input,
            final(self)@.coils == old(self)@.coils,
    {
        self.holding_registers.insert(addr, value);
        Ok(())
    }

    // --- Coils ---

    /// The coil at `addr`, if it holds a value.
    pub fn get_coil(&self, addr: u16) -> (r: Option<bool>)
        ensures
            r == (if self@.coils.contains_key(addr) {
                Some(self@.coils[addr])
            } else {
                None
            }),
    {
        match self.coils.get(&addr) {
            Some(v) => Some(*v),
            None => None,
        }
    }

    /// Stores `value` in coil `addr`.
    pub fn set_coil(&mut self, addr: u16, value: bool)
        ensures
            final(self)@.coils == old(self)@.coils.insert(addr, value),
            final(self)@.input == old(self)@.input,
            final(self)@.holding == old(self)@.holding,
    {
        self.coils.insert(addr, value);
    }

    /// Reads `count` coils from `start`; exception code 0x02 when one of them
    /// holds nothing.
    pub fn read_coils(&self, start: u16, count: u16) -> (r: Result<Vec<bool>, u8>)
        requires
            !read_runs_off_end(self@.coils, start, count),
        ensures
            match r {
                Ok(v) => spec_read_range(self@.coils, start, count) == Ok::<Seq<bool>, u8>(v@),
                Err(e) => spec_read_range(self@.coils, start, count) == Err::<Seq<bool>, u8>(e),
            },
    {
        read_range(&self.coils, start, count)
    }

    /// Writes a coil on behalf of a Modbus request; it always succeeds.
    pub fn write_coil(&mut self, addr: u16, value: bool) -> (r: Result<(), u8>)
        ensures
            r == Ok::<(), u8>(()),
            final(self)@.coils == old(self)@.coils.insert(addr, value),
            final(self)@.input == old(self)@.input,
            final(self)@.holding == old(self)@.holding,
    {
        self.coils.insert(addr, value);
        Ok(())
    }
}

/// What a read gives back of a write: after `addr` is set to `value`, a read
/// of that one address returns exactly `value`, and a read of any range that
/// does not contain `addr` returns what it returned before.
pub proof fn lemma_read_after_write<V>(m: Map<u16, V>, addr: u16, value: V, start: u16, count: u16)
    ensures
        spec_read_range(m.insert(addr, value), addr, 1) == Ok::<Seq<V>, u8>(seq![value]),
        (start as int + count as int <= 0x10000 && !(start <= addr < start as int + count as int))
            ==> spec_read_range(m.insert(addr, value), start, count) == spec_read_range(
            m,
            start,
            count,
        ),
{
    let m2 = m.insert(addr, value);
    assert(m2.contains_key((addr + 0) as u16));
    assert(Seq::new(1nat, |i: int| m2[(addr + i) as u16]) =~= seq![value]);
    if start as int + count as int <= 0x10000 && !(start <= addr < start as int + count as int) {
        if range_present(m, start, count) {
            assert forall|i: int| 0 <= i < count implies #[trigger] m2.contains_key(
                (start + i) as u16,
            ) by {
                assert(m.contains_key((start + i) as u16));
            }
            let s1 = Seq::new(count as nat, |i: int| m2[(start + i) as u16]);
            let s0 = Seq::new(count as nat, |i: int| m[(start + i) as u16]);
            assert forall|i: int| 0 <= i < count implies s1[i] == s0[i] by {
                assert((start + i) as u16 as int == start + i);
            }
            assert(s1 =~= s0);
        }
        if range_present(m2, start, count) {
            assert forall|i: int| 0 <= i < count implies #[trigger] m.contains_key(
                (start + i) as u16,
            ) by {
                assert(m2.contains_key((start + i) as u16));
                assert((start + i) as u16 as int == start + i);
            }
        }
    }
}

/// Float bits of test sensor `i` of the firmware's map: temperatures
/// 20.0 + 0.5·i °C for sensors 0 to 14, pressures 100.0 + 1.5·(i − 15) kPa
/// for sensors 15 to 29 (exact in single precision: these are their
/// IEEE-754 encodings).
pub open spec fn test_sensor_bits(i: int) -> u32 {
    if i < 15 {
        (0x41A0_0000 + i * 0x4_0000) as u32
    } else {
        (0x42C8_0000 + (i - 15) * 0x3_0000) as u32
    }
}

/// Input registers after storing the first `n` test sensors, each as two
/// registers (high half first) at `2i`, `2i + 1`.
pub open spec fn test_inputs(m: Map<u16, u16>, n: nat) -> Map<u16, u16>
    decreases n,
{
    if n == 0 {
        m
    } else {
        let i = n - 1;
        test_inputs(m, (n - 1) as nat).insert((2 * i) as u16, (test_sensor_bits(i) / 0x10000) as u16).insert(
            (2 * i + 1) as u16,
            (test_sensor_bits(i) % 0x10000) as u16,
        )
    }
}

/// Holding registers after setting register `i` to `100·i` for `i < n`.
pub open spec fn test_holding(m: Map<u16, u16>, n: nat) -> Map<u16, u16>
    decreases n,
{
    if n == 0 {
        m
    } else {
        test_holding(m, (n - 1) as nat).insert((n - 1) as u16, (100 * (n - 1)) as u16)
    }
}

/// Fills the map with the test data the firmware serves: 15 temperatures
/// and 15 pressures as float pairs in input registers 0 to 59, holding
/// register `i` set to `100·i` for `i < holding_count`, pump coils 0 (on)
/// and 1 (off).
pub fn fill_test_data(map: &mut RegisterMap, holding_count: u16)
    requires
        holding_count <= 655,
    ensures
        final(map)@.input == test_inputs(old(map)@.input, 30),
        final(map)@.holding == test_holding(old(map)@.holding, holding_count as nat),
        final(map)@.coils == old(map)@.coils.insert(0, true).insert(1, false),
{
    let mut i: u16 = 0;
    while i < 30
        invariant
            i <= 30,
            map@.input == test_inputs(old(map)@.input, i as nat),
            map@.holding == old(map)@.holding,
            map@.coils == old(map)@.coils,
        decreases 30 - i,
    {
        let bits: u32 = if i < 15 {
            0x41A0_0000 + (i as u32) * 0x4_0000
        } else {
            0x42C8_0000 + ((i - 15) as u32) * 0x3_0000
        };
        map.set_input_register(i * 2, (bits / 0x10000) as u16);
        map.set_input_register(i * 2 + 1, (bits % 0x10000) as u16);
        i = i + 1;
    }
    let mut h: u16 = 0;
    while h < holding_count
        invariant
            h <= holding_count <= 655,
            map@.input == test_inputs(old(map)@.input, 30),
            map@.holding == test_holding(old(map)@.holding, h as nat),
            map@.coils == old(map)@.coils,
        decreases holding_count - h,
    {
        map.set_holding_register(h, h * 100);
        h = h + 1;
    }
    map.set_coil(0, true);
    map.set_coil(1, false);
}

/// The firmware's test data (`fill_test_data` with 32 holding registers).
pub fn init_test_data(map: &mut RegisterMap)
    ensures
        final(map)@.input == test_inputs(old(map)@.input, 30),
        final(map)@.holding == test_holding(old(map)@.holding, 32),
        final(map)@.coils == old(map)@.coils.insert(0, true).insert(1, false),
{
    fill_test_data(map, 32);
}

} // verus!
