//! The protocol data unit of a Modbus frame: a function code followed by
//! the function's data.

use vstd::prelude::*;

verus! {

/// The function code of the exception response to `function_code`: the same
/// code with its top bit set.
pub open spec fn exception_function_code(function_code: u8) -> u8 {
    if function_code >= 128 {
        function_code
    } else {
        (function_code + 128) as u8
    }
}

/// Sets the top bit of a function code.
pub fn mark_exception(function_code: u8) -> (marked: u8)
    ensures
        marked == exception_function_code(function_code),
{
    let marked: u8 = function_code | 0x80;
    assert(marked == if function_code >= 128 {
        function_code
    } else {
        (function_code + 128) as u8
    }) by (bit_vector)
        requires
            marked == function_code | 0x80,
    ;
    marked
}

/// A protocol data unit, held as its bytes on the wire.
pub struct Pdu {
    data: Vec<u8>,
}

impl View for Pdu {
    type V = Seq<u8>;

    closed spec fn view(&self) -> Seq<u8> {
        self.data@
    }
}

impl Default for Pdu {
    /// A unit of two zero bytes.
    fn default() -> (pdu: Self)
        ensures
            pdu@ == seq![0u8, 0u8],
    {
        let mut data: Vec<u8> = Vec::new();
        data.push(0);
        data.push(0);
        assert(data@ =~= seq![0u8, 0u8]);
        Pdu { data }
    }
}

impl Pdu {
    /// Whether the bytes are those of an exception response.
    pub open spec fn spec_is_exception(self) -> bool {
        self@.len() > 0 && self@[0] >= 128
    }

    /// The unit made of exactly these bytes.
    pub fn from_bytes(data: Vec<u8>) -> (pdu: Self)
        ensures
            pdu@ == data@,
    {
        Pdu { data }
    }

    /// The bytes of the unit.
    pub fn to_bytes(&self) -> (bytes: &Vec<u8>)
        ensures
            bytes@ == self@,
    {
        &self.data
    }

    /// Appends bytes to the unit.
    pub fn extend(&mut self, data: Vec<u8>)
        ensures
            final(self)@ == old(self)@ + data@,
    {
        let mut data = data;
        self.data.append(&mut data);
    }

    /// The function code: the first byte.
    pub fn get_function_code(&self) -> (code: u8)
        requires
            self@.len() > 0,
        ensures
            code == self@[0],
    {
        self.data[0]
    }

    /// Everything after the function code.
    pub fn get_function_data(&self) -> (data: Vec<u8>)
        requires
            self@.len() > 0,
        ensures
            data@ == self@.subrange(1, self@.len() as int),
    {
        let mut out: Vec<u8> = Vec::new();
        let mut pos: usize = 1;
        while pos < self.data.len()
            invariant
                1 <= pos <= self.data.len(),
                out@ == self.data@.subrange(1, pos as int),
            decreases self.data.len() - pos,
        {
            out.push(self.data[pos]);
            pos = pos + 1;
            assert(out@ =~= self.data@.subrange(1, pos as int));
        }
        out
    }

    /// The exception code of an exception response: the second byte.
    pub fn get_exception(&self) -> (code: u8)
        requires
            self@.len() > 1,
        ensures
            code == self@[1],
    {
        self.data[1]
    }

    /// Whether the top bit of the function code is set.
    pub fn is_exception(&self) -> (yes: bool)
        requires
            self@.len() > 0,
        ensures
            yes == self.spec_is_exception(),
    {
        let code: u8 = self.get_function_code();
        let masked: u8 = code & 0x80;
        assert((masked == 0x80) == (code >= 128)) by (bit_vector)
            requires
                masked == code & 0x80,
        ;
        masked == 0x80
    }

    /// Turns the unit into the exception response to `function_code` that
    /// carries the code `exception`.
    pub fn build_exception(&mut self, function_code: u8, exception: u8)
        ensures
            final(self)@ == seq![exception_function_code(function_code), exception],
    {
        self.resize(2);
        self.data.set(0, mark_exception(function_code));
        self.data.set(1, exception);
        assert(self.data@ =~= seq![exception_function_code(function_code), exception]);
    }

    /// Cuts or zero-fills the unit to `size` bytes.
    fn resize(&mut self, size: u8)
        ensures
            final(self)@.len() == size,
            forall|i: int|
                0 <= i < size ==> final(self)@[i] == if i < old(self)@.len() {
                    old(self)@[i]
                } else {
                    0u8
                },
    {
        self.data.resize(size as usize, 0);
    }
}

} // verus!
