//! The four address spaces of a Modbus device, held in memory.

use vstd::prelude::*;

verus! {

/// Number of addressable units in each of the four spaces.
pub const DATABANK_SIZE: usize = 65536;

/// The databank: coils and discrete inputs are flags, holding and input
/// registers are words. Each space has 65536 units, all zero at first.
pub struct ModbusDatabank {
    coils: Vec<bool>,
    inputs: Vec<bool>,
    holding_registers: Vec<u16>,
    input_registers: Vec<u16>,
}

/// What a databank holds.
pub struct DatabankView {
    pub coils: Seq<bool>,
    pub inputs: Seq<bool>,
    pub holding_registers: Seq<u16>,
    pub input_registers: Seq<u16>,
}

impl View for ModbusDatabank {
    type V = DatabankView;

    closed spec fn view(&self) -> DatabankView {
        DatabankView {
            coils: self.coils@,
            inputs: self.inputs@,
            holding_registers: self.holding_registers@,
            input_registers: self.input_registers@,
        }
    }
}

/// Every space of a well-formed databank has 65536 units.
pub open spec fn databank_is_wf(bank: DatabankView) -> bool {
    &&& bank.coils.len() == 65536
    &&& bank.inputs.len() == 65536
    &&& bank.holding_registers.len() == 65536
    &&& bank.input_registers.len() == 65536
}

/// The databank in which every unit is zero.
pub open spec fn zeroed_databank() -> DatabankView {
    DatabankView {
        coils: Seq::new(65536, |i: int| false),
        inputs: Seq::new(65536, |i: int| false),
        holding_registers: Seq::new(65536, |i: int| 0u16),
        input_registers: Seq::new(65536, |i: int| 0u16),
    }
}

/// A range of `length` units from `start` is accepted when it is not empty
/// and ends inside the space.
pub open spec fn range_ok(start: u16, length: int) -> bool {
    length > 0 && start + length <= 65536
}

/// What a read of `length` units from `start` returns: the units of the
/// range, or nothing when the range is not accepted.
pub open spec fn read_range<T>(cells: Seq<T>, start: u16, length: int) -> Seq<T> {
    if range_ok(start, length) {
        cells.subrange(start as int, start + length)
    } else {
        Seq::empty()
    }
}

/// What a space holds after a write of `data` from `start`: the data in
/// place of the range, or what it held before when the range is not
/// accepted.
pub open spec fn write_range<T>(cells: Seq<T>, start: u16, data: Seq<T>) -> Seq<T> {
    if range_ok(start, data.len() as int) {
        cells.subrange(0, start as int) + data + cells.subrange(
            start + data.len(),
            cells.len() as int,
        )
    } else {
        cells
    }
}

/// Reads a range out of one space.
fn read_cells<T: Copy>(cells: &Vec<T>, start: u16, length: u16) -> (out: Vec<T>)
    requires
        cells@.len() == 65536,
    ensures
        out@ == read_range(cells@, start, length as int),
{
    let mut out: Vec<T> = Vec::new();
    if length > 0 && start as usize + length as usize <= DATABANK_SIZE {
        let first: usize = start as usize;
        let end: usize = first + length as usize;
        let mut pos: usize = first;
        while pos < end
            invariant
                first <= pos <= end <= cells@.len(),
                out@ == cells@.subrange(first as int, pos as int),
            decreases end - pos,
        {
            out.push(cells[pos]);
            pos = pos + 1;
            assert(out@ =~= cells@.subrange(first as int, pos as int));
        }
    }
    out
}

/// Writes a range into one space, or leaves the space as it is.
fn write_cells<T: Copy>(cells: &mut Vec<T>, start: u16, data: &Vec<T>) -> (ok: bool)
    requires
        old(cells)@.len() == 65536,
    ensures
        ok == range_ok(start, data@.len() as int),
        final(cells)@ == write_range(old(cells)@, start, data@),
        final(cells)@.len() == 65536,
{
    let count: usize = data.len();
    let first: usize = start as usize;
    if count == 0 || count > DATABANK_SIZE - first {
        return false;
    }
    let mut index: usize = 0;
    while index < count
        invariant
            index <= count,
            count == data@.len(),
            first + count <= 65536,
            cells@.len() == 65536,
            old(cells)@.len() == 65536,
            cells@ == old(cells)@.subrange(0, first as int) + data@.subrange(0, index as int)
                + old(cells)@.subrange(first + index, 65536),
        decreases count - index,
    {
        cells.set(first + index, data[index]);
        index = index + 1;
        assert(cells@ =~= old(cells)@.subrange(0, first as int) + data@.subrange(0, index as int)
            + old(cells)@.subrange(first + index, 65536));
    }
    assert(data@.subrange(0, count as int) =~= data@);
    true
}

impl Default for ModbusDatabank {
    fn default() -> (bank: Self)
        ensures
            bank@ == zeroed_databank(),
            bank.wf(),
    {
        let bank = ModbusDatabank {
            coils: vec![false; 65536],
            inputs: vec![false; 65536],
            holding_registers: vec![0u16; 65536],
            input_registers: vec![0u16; 65536],
        };
        assert(bank.coils@ =~= zeroed_databank().coils);
        assert(bank.inputs@ =~= zeroed_databank().inputs);
        assert(bank.holding_registers@ =~= zeroed_databank().holding_registers);
        assert(bank.input_registers@ =~= zeroed_databank().input_registers);
        bank
    }
}

impl ModbusDatabank {
    /// Whether every space has its 65536 units. Every databank that this
    /// module hands out is well formed.
    pub open spec fn wf(&self) -> bool {
        databank_is_wf(self@)
    }

    /// A zeroed databank.
    pub fn new() -> (bank: Self)
        ensures
            bank@ == zeroed_databank(),
            bank.wf(),
    {
        ModbusDatabank::default()
    }

    /// The coils of the range, or nothing when the range is not accepted.
    pub fn read_coils(&self, start_address: u16, length: u16) -> (out: Vec<bool>)
        requires
            self.wf(),
        ensures
            out@ == read_range(self@.coils, start_address, length as int),
    {
        read_cells(&self.coils, start_address, length)
    }

    /// The discrete inputs of the range, or nothing when the range is not
    /// accepted.
    pub fn read_discrete_inputs(&self, start_address: u16, length: u16) -> (out: Vec<bool>)
        requires
            self.wf(),
        ensures
            out@ == read_range(self@.inputs, start_address, length as int),
    {
        read_cells(&self.inputs, start_address, length)
    }

    /// The holding registers of the range, or nothing when the range is not
    /// accepted.
    pub fn read_holding_registers(&self, start_address: u16, length: u16) -> (out: Vec<u16>)
        requires
            self.wf(),
        ensures
            out@ == read_range(self@.holding_registers, start_address, length as int),
    {
        read_cells(&self.holding_registers, start_address, length)
    }

    /// The input registers of the range, or nothing when the range is not
    /// accepted.
    pub fn read_input_registers(&self, start_address: u16, length: u16) -> (out: Vec<u16>)
        requires
            self.wf(),
        ensures
            out@ == read_range(self@.input_registers, start_address, length as int),
    {
        read_cells(&self.input_registers, start_address, length)
    }

    /// Writes coils from `start_address`. Returns whether the range was
    /// accepted; if it was not, nothing changes.
    pub fn write_coils(&mut self, start_address: u16, data: Vec<bool>) -> (ok: bool)
        requires
            old(self).wf(),
        ensures
            final(self).wf(),
            ok == range_ok(start_address, data@.len() as int),
            final(self)@ == (DatabankView {
                coils: write_range(old(self)@.coils, start_address, data@),
                ..old(self)@
            }),
    {
        write_cells(&mut self.coils, start_address, &data)
    }

    /// Writes holding registers from `start_address`. Returns whether the
    /// range was accepted; if it was not, nothing changes.
    pub fn write_holding_registers(&mut self, start_address: u16, data: Vec<u16>) -> (ok: bool)
        requires
            old(self).wf(),
        ensures
            final(self).wf(),
            ok == range_ok(start_address, data@.len() as int),
            final(self)@ == (DatabankView {
                holding_registers: write_range(
                    old(self)@.holding_registers,
                    start_address,
                    data@,
                ),
                ..old(self)@
            }),
    {
        write_cells(&mut self.holding_registers, start_address, &data)
    }

    /// Writes discrete inputs from `start_address`. Returns whether the
    /// range was accepted; if it was not, nothing changes.
    pub fn write_inputs(&mut self, start_address: u16, data: Vec<bool>) -> (ok: bool)
        requires
            old(self).wf(),
        ensures
            final(self).wf(),
            ok == range_ok(start_address, data@.len() as int),
            final(self)@ == (DatabankView {
                inputs: write_range(old(self)@.inputs, start_address, data@),
                ..old(self)@
            }),
    {
        write_cells(&mut self.inputs, start_address, &data)
    }

    /// Writes input registers from `start_address`. Returns whether the
    /// range was accepted; if it was not, nothing changes.
    pub fn write_input_registers(&mut self, start_address: u16, data: Vec<u16>) -> (ok: bool)
        requires
            old(self).wf(),
        ensures
            final(self).wf(),
            ok == range_ok(start_address, data@.len() as int),
            final(self)@ == (DatabankView {
                input_registers: write_range(old(self)@.input_registers, start_address, data@),
                ..old(self)@
            }),
    {
        write_cells(&mut self.input_registers, start_address, &data)
    }
}

/// What was written is what is read: after a write of `data` from `start`
/// that ends inside the space, a read of as many units from `start`
/// returns `data`.
pub proof fn lemma_read_after_write<T>(cells: Seq<T>, start: u16, data: Seq<T>)
    requires
        cells.len() == 65536,
        start + data.len() <= 65536,
    ensures
        read_range(write_range(cells, start, data), start, data.len() as int) == data,
{
    assert(read_range(write_range(cells, start, data), start, data.len() as int) =~= data);
}

/// A write that is not accepted changes nothing, and an accepted write
/// changes nothing outside its range.
pub proof fn lemma_write_keeps_rest<T>(cells: Seq<T>, start: u16, data: Seq<T>, address: int)
    requires
        cells.len() == 65536,
        0 <= address < 65536,
        !range_ok(start, data.len() as int) || address < start || address >= start + data.len(),
    ensures
        write_range(cells, start, data)[address] == cells[address],
{
}

} // verus!
