//! The state the engine keeps of one loaded guest module: its linear-memory
//! image, the result registers of the module ABI, and a ledger of guest
//! allocations. Memory lowering and lifting run against this state with
//! every access bounds-checked.
use vstd::prelude::*;

use crate::errors::EngineError;
use crate::trusted::string_from_utf8;

verus! {

broadcast use vstd::utf8::encode_utf8_valid_utf8;

/// The highest address the module ABI can express: pointers and sizes travel
/// as non-negative 32-bit core integers.
pub const MAX_MEMORY_BYTES: usize = 0x7fff_ffff;

/// The mathematical model of a module's state.
#[verifier::ext_equal]
pub struct ModuleModel {
    /// The linear-memory image.
    pub mem: Seq<u8>,
    /// The `set_result_ptr`/`get_result_ptr` register.
    pub result_ptr: i32,
    /// The `set_result_size`/`get_result_size` register.
    pub result_size: i32,
    /// How many `allocate` calls the module has served.
    pub alloc_count: u64,
    /// How many `deallocate` calls the module has served.
    pub dealloc_count: u64,
    /// The `(pointer, size)` pairs allocated and not yet deallocated.
    pub live: Seq<(i32, i32)>,
}

/// `mem` with `data` written at `off`, everything else unchanged.
pub open spec fn mem_written(mem: Seq<u8>, off: int, data: Seq<u8>) -> Seq<u8> {
    mem.subrange(0, off) + data + mem.subrange(off + data.len(), mem.len() as int)
}

/// The index of the first occurrence of `p` in the ledger.
pub open spec fn first_live_index(live: Seq<(i32, i32)>, p: (i32, i32)) -> int
    decreases live.len(),
{
    if live.len() == 0 {
        0
    } else if live[0] == p {
        0
    } else {
        1 + first_live_index(live.drop_first(), p)
    }
}

/// `first_live_index` finds exactly the first match.
pub proof fn lemma_first_live_index(live: Seq<(i32, i32)>, p: (i32, i32), k: int)
    requires
        0 <= k < live.len(),
        live[k] == p,
        forall|j: int| 0 <= j < k ==> live[j] != p,
    ensures
        first_live_index(live, p) == k,
    decreases k,
{
    if k > 0 {
        lemma_first_live_index(live.drop_first(), p, k - 1);
    }
}

/// The little-endian 32-bit value stored at `addr`.
pub open spec fn le_u32_at(mem: Seq<u8>, addr: int) -> int {
    mem[addr] + 0x100 * mem[addr + 1] + 0x1_0000 * mem[addr + 2] + 0x100_0000 * mem[addr + 3]
}

/// The run-time state of one guest module instance.
#[derive(Debug)]
pub struct ModuleState {
    memory: Vec<u8>,
    result_ptr: i32,
    result_size: i32,
    alloc_count: u64,
    dealloc_count: u64,
    live: Vec<(i32, i32)>,
}

impl View for ModuleState {
    type V = ModuleModel;

    closed spec fn view(&self) -> ModuleModel {
        ModuleModel {
            mem: self.memory@,
            result_ptr: self.result_ptr,
            result_size: self.result_size,
            alloc_count: self.alloc_count,
            dealloc_count: self.dealloc_count,
            live: self.live@,
        }
    }
}

impl ModuleState {
    /// Memory stays addressable by 32-bit core integers.
    pub open spec fn wf(&self) -> bool {
        self@.mem.len() <= MAX_MEMORY_BYTES
    }

    /// Whether `[off, off + len)` lies inside the memory.
    pub open spec fn in_bounds(&self, off: int, len: int) -> bool {
        0 <= off && 0 <= len && off + len <= self@.mem.len()
    }

    /// A fresh module instance with `initial_size` zeroed memory bytes and
    /// clear registers and ledger.
    pub fn new(initial_size: usize) -> (r: ModuleState)
        requires
            initial_size <= MAX_MEMORY_BYTES,
        ensures
            r.wf(),
            r@.mem.len() == initial_size,
            forall|i: int| 0 <= i < initial_size ==> r@.mem[i] == 0u8,
            r@.result_ptr == 0 && r@.result_size == 0,
            r@.alloc_count == 0 && r@.dealloc_count == 0,
            r@.live =~= Seq::<(i32, i32)>::empty(),
    {
        let memory: Vec<u8> = vec![0u8; initial_size];
        ModuleState {
            memory,
            result_ptr: 0,
            result_size: 0,
            alloc_count: 0,
            dealloc_count: 0,
            live: Vec::new(),
        }
    }

    /// The current memory size in bytes.
    pub fn memory_size(&self) -> (r: usize)
        ensures
            r == self@.mem.len(),
    {
        self.memory.len()
    }

    /// The allocation counters, `(allocate calls, deallocate calls)`.
    pub fn allocation_counts(&self) -> (r: (u64, u64))
        ensures
            r.0 == self@.alloc_count,
            r.1 == self@.dealloc_count,
    {
        (self.alloc_count, self.dealloc_count)
    }

    /// How many allocations are live (allocated and not yet deallocated).
    pub fn live_allocation_count(&self) -> (r: usize)
        ensures
            r == self@.live.len(),
    {
        self.live.len()
    }

    /// Reads `len` bytes starting at `off`; fails with
    /// `MemoryAccessOutOfBounds` exactly when the range leaves the memory.
    pub fn read_bytes(&self, off: i32, len: i32) -> (r: Result<Vec<u8>, EngineError>)
        ensures
            self.in_bounds(off as int, len as int) ==> (r matches Ok(b) && b@ == self@.mem.subrange(
                off as int,
                off as int + len as int,
            )),
            !self.in_bounds(off as int, len as int) ==> (r matches Err(e)
                && e is MemoryAccessOutOfBounds),
    {
        if off < 0 || len < 0 || (len as usize) > self.memory.len() || (off as usize)
            > self.memory.len() - (len as usize) {
            return Err(EngineError::MemoryAccessOutOfBounds {
                start: if off < 0 {
                    0
                } else {
                    off as u64
                },
                end: if off < 0 || len < 0 {
                    0
                } else {
                    off as u64 + len as u64
                },
                memory_size: self.memory.len() as u64,
            });
        }
        let off_u = off as usize;
        let len_u = len as usize;
        let end_u: usize = off_u + len_u;
        let mut out: Vec<u8> = Vec::new();
        let mut i: usize = 0;
        while i < len_u
            invariant
                i <= len_u,
                off_u + len_u == end_u,
                end_u <= self.memory@.len(),
                out@ =~= self.memory@.subrange(off_u as int, off_u as int + i as int),
            decreases len_u - i,
        {
            out.push(self.memory[off_u + i]);
            proof {
                assert(out@ =~= self.memory@.subrange(off_u as int, off_u as int + i as int + 1));
            }
            i = i + 1;
        }
        Ok(out)
    }

    /// Writes `data` at `off`; fails with `MemoryAccessOutOfBounds` exactly
    /// when the range leaves the memory, leaving the state unchanged.
    pub fn write_bytes(&mut self, off: i32, data: &Vec<u8>) -> (r: Result<(), EngineError>)
        ensures
            final(self).wf() == old(self).wf(),
            old(self).in_bounds(off as int, data@.len() as int) ==> (r is Ok && final(self)@
                =~= ModuleModel { mem: mem_written(old(self)@.mem, off as int, data@), ..old(self)@ }),
            !old(self).in_bounds(off as int, data@.len() as int) ==> (r matches Err(e)
                && e is MemoryAccessOutOfBounds && final(self)@ == old(self)@),
    {
        if off < 0 || data.len() > self.memory.len() || (off as usize) > self.memory.len()
            - data.len() {
            return Err(EngineError::MemoryAccessOutOfBounds {
                start: if off < 0 {
                    0
                } else {
                    off as u64
                },
                end: if off < 0 {
                    0
                } else {
                    (off as u64).saturating_add(data.len() as u64)
                },
                memory_size: self.memory.len() as u64,
            });
        }
        let off_u = off as usize;
        let end_u: usize = off_u + data.len();
        let mut i: usize = 0;
        while i < data.len()
            invariant
                i <= data@.len(),
                off_u + data@.len() == end_u,
                end_u <= self.memory@.len(),
                self.memory@.len() == old(self).memory@.len(),
                self.result_ptr == old(self).result_ptr,
                self.result_size == old(self).result_size,
                self.alloc_count == old(self).alloc_count,
                self.dealloc_count == old(self).dealloc_count,
                self.live == old(self).live,
                forall|j: int| 0 <= j < i ==> self.memory@[off_u + j] == data@[j],
                forall|j: int|
                    0 <= j < self.memory@.len() && !(off_u <= j < off_u + i)
                        ==> self.memory@[j] == old(self).memory@[j],
            decreases data@.len() - i,
        {
            let b = data[i];
            self.memory.set(off_u + i, b);
            i = i + 1;
        }
        proof {
            assert(final(self)@.mem =~= mem_written(old(self)@.mem, off as int, data@));
            assert(final(self)@ =~= ModuleModel {
                mem: mem_written(old(self)@.mem, off as int, data@),
                ..old(self)@
            });
        }
        Ok(())
    }

    /// The `allocate` ABI helper of the module model: returns a pointer to
    /// `size` fresh zeroed bytes, extends the ledger, and counts the call.
    /// Fails with `MemoryAccessOutOfBounds` when the memory cannot grow
    /// that far, or `NumericRangeExceeded` for a negative size.
    pub fn abi_allocate(&mut self, size: i32) -> (r: Result<i32, EngineError>)
        requires
            old(self).wf(),
        ensures
            final(self).wf(),
            r matches Ok(ptr) ==> {
                &&& size >= 0
                &&& ptr == old(self)@.mem.len()
                &&& final(self)@.mem =~= old(self)@.mem + Seq::new(size as nat, |i: int| 0u8)
                &&& final(self)@.live =~= old(self)@.live.push((ptr, size))
                &&& final(self)@.alloc_count == old(self)@.alloc_count + 1
                &&& final(self)@.dealloc_count == old(self)@.dealloc_count
                &&& final(self)@.result_ptr == old(self)@.result_ptr
                &&& final(self)@.result_size == old(self)@.result_size
            },
            r is Err ==> final(self)@ == old(self)@,
            r matches Err(e) ==> (e is NumericRangeExceeded || e is MemoryAccessOutOfBounds),
            r is Ok <==> (size >= 0 && old(self)@.mem.len() + size <= MAX_MEMORY_BYTES
                && old(self)@.alloc_count < u64::MAX),
    {
        if size < 0 {
            return Err(EngineError::NumericRangeExceeded);
        }
        if (size as usize) > MAX_MEMORY_BYTES - self.memory.len() {
            return Err(EngineError::MemoryAccessOutOfBounds {
                start: self.memory.len() as u64,
                end: self.memory.len() as u64 + size as u64,
                memory_size: self.memory.len() as u64,
            });
        }
        if self.alloc_count == u64::MAX {
            return Err(EngineError::NumericRangeExceeded);
        }
        let ptr = self.memory.len() as i32;
        let mut i: usize = 0;
        let size_u = size as usize;
        while i < size_u
            invariant
                i <= size_u,
                old(self)@.mem.len() + size_u <= MAX_MEMORY_BYTES,
                self.memory@ =~= old(self).memory@ + Seq::new(i as nat, |k: int| 0u8),
                self.result_ptr == old(self).result_ptr,
                self.result_size == old(self).result_size,
                self.alloc_count == old(self).alloc_count,
                self.dealloc_count == old(self).dealloc_count,
                self.live == old(self).live,
            decreases size_u - i,
        {
            self.memory.push(0u8);
            proof {
                assert(self.memory@ =~= old(self).memory@ + Seq::new(
                    i as nat + 1,
                    |k: int| 0u8,
                ));
            }
            i = i + 1;
        }
        self.alloc_count = self.alloc_count + 1;
        self.live.push((ptr, size));
        Ok(ptr)
    }

    /// The `deallocate` ABI helper of the module model: counts the call and
    /// removes the first matching `(ptr, size)` pair from the ledger. The
    /// memory image itself is kept: the model does not reuse addresses.
    pub fn abi_deallocate(&mut self, ptr: i32, size: i32)
        ensures
            final(self).wf() == old(self).wf(),
            final(self)@.mem == old(self)@.mem,
            final(self)@.result_ptr == old(self)@.result_ptr,
            final(self)@.result_size == old(self)@.result_size,
            final(self)@.alloc_count == old(self)@.alloc_count,
            old(self)@.dealloc_count < u64::MAX ==> final(self)@.dealloc_count == old(
                self,
            )@.dealloc_count + 1,
            old(self)@.dealloc_count == u64::MAX ==> final(self)@.dealloc_count == old(
                self,
            )@.dealloc_count,
            old(self)@.live.contains((ptr, size)) ==> final(self)@.live == old(
                self,
            )@.live.remove(first_live_index(old(self)@.live, (ptr, size))),
            !old(self)@.live.contains((ptr, size)) ==> final(self)@.live == old(self)@.live,
            forall|p: (i32, i32)|
                final(self)@.live.contains(p) ==> old(self)@.live.contains(p),
    {
        if self.dealloc_count < u64::MAX {
            self.dealloc_count = self.dealloc_count + 1;
        }
        let mut k: usize = 0;
        while k < self.live.len()
            invariant
                k <= self.live@.len(),
                self.live == old(self).live,
                self.memory == old(self).memory,
                self.result_ptr == old(self).result_ptr,
                self.result_size == old(self).result_size,
                self.alloc_count == old(self).alloc_count,
                old(self)@.dealloc_count < u64::MAX ==> self.dealloc_count == old(
                    self,
                ).dealloc_count + 1,
                old(self)@.dealloc_count == u64::MAX ==> self.dealloc_count == old(
                    self,
                ).dealloc_count,
                forall|j: int| 0 <= j < k ==> self.live@[j] != (ptr, size),
            decreases self.live@.len() - k,
        {
            let pair = self.live[k];
            if pair.0 == ptr && pair.1 == size {
                self.live.remove(k);
                proof {
                    assert(old(self)@.live[k as int] == (ptr, size));
                    assert(old(self)@.live.contains((ptr, size)));
                    lemma_first_live_index(old(self)@.live, (ptr, size), k as int);
                    assert forall|p: (i32, i32)| self.live@.contains(p) implies old(
                        self,
                    )@.live.contains(p) by {
                        let j = choose|j: int| 0 <= j < self.live@.len() && self.live@[j] == p;
                        if j < k {
                            assert(old(self)@.live[j] == p);
                        } else {
                            assert(old(self)@.live[j + 1] == p);
                        }
                    }
                }
                return ;
            }
            k = k + 1;
        }
        proof {
            if old(self)@.live.contains((ptr, size)) {
                let j = choose|j: int|
                    0 <= j < old(self)@.live.len() && old(self)@.live[j] == (ptr, size);
                assert(self.live@[j] == (ptr, size));
                assert(false);
            }
        }
    }

    /// The `get_result_ptr` ABI helper.
    pub fn get_result_ptr(&self) -> (r: i32)
        ensures
            r == self@.result_ptr,
    {
        self.result_ptr
    }

    /// The `get_result_size` ABI helper.
    pub fn get_result_size(&self) -> (r: i32)
        ensures
            r == self@.result_size,
    {
        self.result_size
    }

    /// The `set_result_ptr` ABI helper.
    pub fn set_result_ptr(&mut self, ptr: i32)
        ensures
            final(self)@ == (ModuleModel { result_ptr: ptr, ..old(self)@ }),
            final(self).wf() == old(self).wf(),
    {
        self.result_ptr = ptr;
    }

    /// The `set_result_size` ABI helper.
    pub fn set_result_size(&mut self, size: i32)
        ensures
            final(self)@ == (ModuleModel { result_size: size, ..old(self)@ }),
            final(self).wf() == old(self).wf(),
    {
        self.result_size = size;
    }

    /// Reads the length-prefixed result a guest left at `address`: a
    /// little-endian 32-bit byte count followed by that many bytes. Succeeds
    /// whenever the header and the body it announces lie within memory.
    pub fn read_result(&self, address: i32) -> (r: Result<Vec<u8>, EngineError>)
        requires
            self.wf(),
        ensures
            (self.in_bounds(address as int, 4) && self.in_bounds(
                address as int + 4,
                le_u32_at(self@.mem, address as int),
            )) ==> r is Ok,
            r matches Ok(b) ==> {
                &&& self.in_bounds(address as int, 4)
                &&& b@.len() == le_u32_at(self@.mem, address as int)
                &&& self.in_bounds(address as int + 4, b@.len() as int)
                &&& b@ == self@.mem.subrange(
                    address as int + 4,
                    address as int + 4 + b@.len(),
                )
            },
            r matches Err(e) ==> e is MemoryAccessOutOfBounds,
    {
        let header = self.read_bytes(address, 4)?;
        let b0 = header[0] as usize;
        let b1 = header[1] as usize;
        let b2 = header[2] as usize;
        let b3 = header[3] as usize;
        let result_size = b0 + 0x100 * b1 + 0x1_0000 * b2 + 0x100_0000 * b3;
        if result_size > MAX_MEMORY_BYTES {
            return Err(EngineError::MemoryAccessOutOfBounds {
                start: address as u64 + 4,
                end: address as u64 + 4 + result_size as u64,
                memory_size: self.memory.len() as u64,
            });
        }
        let body = self.read_bytes(address + 4, result_size as i32)?;
        Ok(body)
    }

    /// Lifts `len` bytes at `ptr` as a UTF-8 string. Fails with
    /// `InvalidUtf8` exactly when the bytes in range are not valid UTF-8,
    /// and with `MemoryAccessOutOfBounds` when the range leaves the memory.
    pub fn lift_string(&self, ptr: i32, len: i32) -> (r: Result<String, EngineError>)
        ensures
            r matches Ok(s) ==> {
                &&& self.in_bounds(ptr as int, len as int)
                &&& vstd::utf8::valid_utf8(self@.mem.subrange(ptr as int, ptr as int + len as int))
                &&& vstd::utf8::encode_utf8(s@) == self@.mem.subrange(
                    ptr as int,
                    ptr as int + len as int,
                )
                &&& s@ == vstd::utf8::decode_utf8(
                    self@.mem.subrange(ptr as int, ptr as int + len as int),
                )
            },
            r matches Err(e) ==> {
                ||| (e is MemoryAccessOutOfBounds && !self.in_bounds(ptr as int, len as int))
                ||| (e is InvalidUtf8 && self.in_bounds(ptr as int, len as int)
                    && !vstd::utf8::valid_utf8(
                    self@.mem.subrange(ptr as int, ptr as int + len as int),
                ))
            },
    {
        let bytes = self.read_bytes(ptr, len)?;
        match string_from_utf8(bytes) {
            Some(s) => Ok(s),
            None => Err(EngineError::InvalidUtf8),
        }
    }

    /// Lifts `len` bytes at `ptr` as an owned byte array.
    pub fn lift_byte_array(&self, ptr: i32, len: i32) -> (r: Result<Vec<u8>, EngineError>)
        ensures
            self.in_bounds(ptr as int, len as int) ==> (r matches Ok(b) && b@ == self@.mem.subrange(
                ptr as int,
                ptr as int + len as int,
            )),
            !self.in_bounds(ptr as int, len as int) ==> (r matches Err(e)
                && e is MemoryAccessOutOfBounds),
    {
        self.read_bytes(ptr, len)
    }
}

} // verus!
