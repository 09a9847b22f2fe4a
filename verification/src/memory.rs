//! Guest RAM: a region of guest physical addresses backed by host bytes.

use vstd::prelude::*;

verus! {

/// Why guest memory was refused or an access to it was refused.
#[derive(Debug, Clone, Copy, PartialEq, Eq, Structural)]
pub enum MemoryError {
    /// The guest address lies outside the region `start..end`.
    AddressOutOfRange { guest_addr: u64, start: u64, end: u64 },
    /// The last byte of a write would lie at or beyond `limit`, the end of the
    /// region.
    WriteOutOfRange { end: u64, limit: u64 },
    /// A region of zero bytes was asked for.
    EmptyRegion,
    /// The region cannot be addressed on this host, or its end would pass
    /// the last guest address.
    TooLarge { start: u64, size: u64 },
}

/// Memory after `bytes` were written at offset `offset`.
pub open spec fn written(mem: Seq<u8>, offset: int, bytes: Seq<u8>) -> Seq<u8> {
    Seq::new(
        mem.len(),
        |i: int|
            if offset <= i < offset + bytes.len() {
                bytes[i - offset]
            } else {
                mem[i]
            },
    )
}

/// What a write of `len` bytes at `guest_addr` into the region of `size`
/// bytes from guest address `start` answers.
pub open spec fn write_outcome(start: int, size: nat, guest_addr: int, len: nat) -> Result<(), MemoryError> {
    if guest_addr + len > start + size {
        Err(MemoryError::WriteOutOfRange { end: (guest_addr + len) as u64, limit: (start + size) as u64 })
    } else if guest_addr < start || guest_addr >= start + size {
        Err(
            MemoryError::AddressOutOfRange {
                guest_addr: guest_addr as u64,
                start: start as u64,
                end: (start + size) as u64,
            },
        )
    } else {
        Ok(())
    }
}

/// The bytes of the region from guest address `start`, and what the last
/// write answered, after `writes` (pairs of guest address and bytes) were
/// made in order, stopping at the first that was refused.
pub open spec fn apply_writes(start: int, mem: Seq<u8>, writes: Seq<(int, Seq<u8>)>) -> (Seq<u8>, Result<(), MemoryError>) {
    apply_writes_from(start, mem, writes, 0)
}

/// [`apply_writes`] of the writes from index `k` on.
pub open spec fn apply_writes_from(start: int, mem: Seq<u8>, writes: Seq<(int, Seq<u8>)>, k: nat) -> (
    Seq<u8>,
    Result<(), MemoryError>,
)
    decreases writes.len() - k,
{
    if k >= writes.len() {
        (mem, Ok(()))
    } else {
        let addr = writes[k as int].0;
        let bytes = writes[k as int].1;
        match write_outcome(start, mem.len(), addr, bytes.len()) {
            Err(e) => (mem, Err(e)),
            Ok(_) => apply_writes_from(start, written(mem, addr - start, bytes), writes, k + 1),
        }
    }
}

/// `n` zero bytes.
pub(crate) fn zeroed_bytes(n: usize) -> (r: Vec<u8>)
    ensures
        r@ == Seq::new(n as nat, |i: int| 0u8),
{
    let mut v: Vec<u8> = Vec::with_capacity(n);
    let mut i: usize = 0;
    while i < n
        invariant
            i <= n,
            v@ == Seq::new(i as nat, |j: int| 0u8),
        decreases n - i,
    {
        v.push(0u8);
        i = i + 1;
    }
    v
}

/// Guest RAM: `size` zero-initialised bytes for the guest physical addresses
/// `start..start + size`.
pub struct GuestMemory {
    start: u64,
    mem: Vec<u8>,
}

impl View for GuestMemory {
    type V = Seq<u8>;

    /// The bytes of the region, the first at guest address `start()`.
    closed spec fn view(&self) -> Seq<u8> {
        self.mem@
    }
}

impl GuestMemory {
    #[verifier::type_invariant]
    spec fn region_fits(self) -> bool {
        &&& self.mem@.len() > 0
        &&& self.start + self.mem@.len() <= u64::MAX
    }

    /// The guest address of the first byte of the region.
    pub closed spec fn start(&self) -> u64 {
        self.start
    }

    /// Allocates `size` bytes of zeroed guest memory from guest address 0.
    pub fn new(size: u64) -> (r: Result<GuestMemory, MemoryError>)
        ensures
            match GuestMemory::new_at_outcome(0, size) {
                Ok(_) => r matches Ok(m) && m.start() == 0 && m@ == Seq::new(size as nat, |i: int| 0u8),
                Err(e) => r == Err::<GuestMemory, MemoryError>(e),
            },
    {
        GuestMemory::new_at(0, size)
    }

    /// What allocating `size` bytes from guest address `start` answers,
    /// the memory itself left aside.
    pub open spec fn new_at_outcome(start: u64, size: u64) -> Result<(), MemoryError> {
        if size == 0 {
            Err(MemoryError::EmptyRegion)
        } else if size > usize::MAX || start + size > u64::MAX {
            Err(MemoryError::TooLarge { start, size })
        } else {
            Ok(())
        }
    }

    /// Allocates `size` bytes of zeroed guest memory for the guest addresses
    /// from `start` on.
    pub fn new_at(start: u64, size: u64) -> (r: Result<GuestMemory, MemoryError>)
        ensures
            match GuestMemory::new_at_outcome(start, size) {
                Ok(_) => r matches Ok(m) && m.start() == start && m@ == Seq::new(size as nat, |i: int| 0u8),
                Err(e) => r == Err::<GuestMemory, MemoryError>(e),
            },
    {
        if size == 0 {
            return Err(MemoryError::EmptyRegion);
        }
        if size > usize::MAX as u64 || size > u64::MAX - start {
            return Err(MemoryError::TooLarge { start, size });
        }
        Ok(GuestMemory { start, mem: zeroed_bytes(size as usize) })
    }

    /// The guest address of the first byte of the region.
    pub fn start_addr(&self) -> (r: u64)
        ensures
            r == self.start(),
            r + self@.len() <= u64::MAX,
    {
        proof {
            use_type_invariant(self);
        }
        self.start
    }

    /// Number of bytes of guest memory.
    pub fn size(&self) -> (r: u64)
        ensures
            r == self@.len(),
            0 < r <= usize::MAX,
            self.start() + r <= u64::MAX,
    {
        proof {
            use_type_invariant(self);
        }
        self.mem.len() as u64
    }

    /// Loads `bytes` at `guest_addr`; the same as [`GuestMemory::write`].
    pub fn load(&mut self, guest_addr: u64, bytes: &[u8]) -> (r: Result<(), MemoryError>)
        requires
            guest_addr + bytes@.len() <= usize::MAX,
        ensures
            final(self).start() == old(self).start(),
            r == write_outcome(old(self).start() as int, old(self)@.len(), guest_addr as int, bytes@.len()),
            r is Ok ==> final(self)@ == written(old(self)@, guest_addr - old(self).start(), bytes@),
            r is Err ==> final(self)@ == old(self)@,
    {
        self.write(guest_addr, bytes)
    }

    /// Translates a guest address into the offset of its byte in the host
    /// bytes of the region.
    pub fn guest_to_host(&self, guest_addr: u64) -> (r: Result<usize, MemoryError>)
        ensures
            self@.len() <= usize::MAX,
            self.start() <= guest_addr < self.start() + self@.len() ==> r == Ok::<usize, MemoryError>(
                (guest_addr - self.start()) as usize,
            ),
            !(self.start() <= guest_addr < self.start() + self@.len()) ==> r == Err::<usize, MemoryError>(
                MemoryError::AddressOutOfRange {
                    guest_addr,
                    start: self.start(),
                    end: (self.start() + self@.len()) as u64,
                },
            ),
    {
        proof {
            use_type_invariant(self);
        }
        let end = self.start + self.mem.len() as u64;
        if guest_addr < self.start || guest_addr >= end {
            return Err(MemoryError::AddressOutOfRange { guest_addr, start: self.start, end });
        }
        Ok((guest_addr - self.start) as usize)
    }

    /// Copies `bytes` into guest memory at `guest_addr`.
    pub fn write(&mut self, guest_addr: u64, bytes: &[u8]) -> (r: Result<(), MemoryError>)
        requires
            guest_addr + bytes@.len() <= usize::MAX,
        ensures
            final(self).start() == old(self).start(),
            r == write_outcome(old(self).start() as int, old(self)@.len(), guest_addr as int, bytes@.len()),
            r is Ok ==> final(self)@ == written(old(self)@, guest_addr - old(self).start(), bytes@),
            r is Err ==> final(self)@ == old(self)@,
    {
        proof {
            use_type_invariant(&*self);
        }
        let end = guest_addr + bytes.len() as u64;
        let limit = self.start + self.mem.len() as u64;
        if end > limit {
            return Err(MemoryError::WriteOutOfRange { end, limit });
        }
        let host = self.guest_to_host(guest_addr)?;
        let ghost old_mem = self.mem@;
        let mut i: usize = 0;
        while i < bytes.len()
            invariant
                host == guest_addr - self.start,
                host + bytes@.len() <= self.mem@.len(),
                self.mem@.len() <= usize::MAX,
                old_mem.len() == self.mem@.len(),
                self.start + self.mem@.len() <= u64::MAX,
                i <= bytes@.len(),
                forall|j: int|
                    0 <= j < self.mem@.len() ==> #[trigger] self.mem@[j] == (if host <= j < host + i {
                        bytes@[j - host]
                    } else {
                        old_mem[j]
                    }),
            decreases bytes@.len() - i,
        {
            self.mem[host + i] = bytes[i];
            i = i + 1;
        }
        assert(self.mem@ =~= written(old_mem, guest_addr - self.start, bytes@));
        Ok(())
    }

    /// The host bytes of the region, in guest address order, to be copied
    /// into the memory that the hypervisor maps for the guest.
    pub fn host_bytes(&self) -> (r: &[u8])
        ensures
            r@ == self@,
    {
        self.mem.as_slice()
    }
}

/// After a write, the written range holds exactly the bytes written and
/// every other byte is what it was.
pub proof fn lemma_written_reads_back(mem: Seq<u8>, guest_addr: int, bytes: Seq<u8>)
    requires
        0 <= guest_addr,
        guest_addr + bytes.len() <= mem.len(),
    ensures
        written(mem, guest_addr, bytes).len() == mem.len(),
        written(mem, guest_addr, bytes).subrange(guest_addr, guest_addr + bytes.len()) == bytes,
        forall|i: int|
            0 <= i < mem.len() && !(guest_addr <= i < guest_addr + bytes.len())
                ==> #[trigger] written(mem, guest_addr, bytes)[i] == mem[i],
{
    assert(written(mem, guest_addr, bytes).subrange(guest_addr, guest_addr + bytes.len()) =~= bytes);
}

/// Guest memory can be had exactly when the region is not empty, fits the
/// host's address space and ends within the guest's addresses; then it is
/// never refused for its size alone.
pub proof fn lemma_new_at_succeeds_iff(start: u64, size: u64)
    ensures
        GuestMemory::new_at_outcome(start, size) is Ok <==> (0 < size && size <= usize::MAX && start
            + size <= u64::MAX),
        size == 0 ==> GuestMemory::new_at_outcome(start, size) == Err::<(), MemoryError>(MemoryError::EmptyRegion),
        size > 0 && !(size <= usize::MAX && start + size <= u64::MAX) ==> GuestMemory::new_at_outcome(start, size)
            == Err::<(), MemoryError>(MemoryError::TooLarge { start, size }),
{
}

/// A write is accepted exactly when its first address and every byte it
/// writes lie in the region `start..start + size`; a write that runs past
/// the end is refused for that, whatever its start.
pub proof fn lemma_write_accepted_iff(start: int, size: nat, guest_addr: int, len: nat)
    ensures
        write_outcome(start, size, guest_addr, len) is Ok <==> (start <= guest_addr && guest_addr
            + len <= start + size && guest_addr < start + size),
        guest_addr + len > start + size ==> write_outcome(start, size, guest_addr, len) matches Err(
            MemoryError::WriteOutOfRange { .. },
        ),
        guest_addr + len <= start + size && !(start <= guest_addr < start + size) ==> write_outcome(
            start,
            size,
            guest_addr,
            len,
        ) matches Err(MemoryError::AddressOutOfRange { .. }),
{
}

/// Writes after a prefix of others start where the prefix left off.
proof fn lemma_apply_writes_from_shift(start: int, mem: Seq<u8>, a: Seq<(int, Seq<u8>)>, b: Seq<(int, Seq<u8>)>, k: nat)
    ensures
        apply_writes_from(start, mem, a + b, a.len() + k) == apply_writes_from(start, mem, b, k),
    decreases b.len() - k,
{
    if k < b.len() {
        assert((a + b)[(a.len() + k) as int] == b[k as int]);
        let addr = b[k as int].0;
        let bytes = b[k as int].1;
        if write_outcome(start, mem.len(), addr, bytes.len()) is Ok {
            lemma_apply_writes_from_shift(start, written(mem, addr - start, bytes), a, b, k + 1);
        }
    }
}

/// A sequence of writes is its first write followed by the rest: a refused
/// first write answers its error and leaves memory as it was, whatever
/// follows; an accepted one is made before the rest.
pub proof fn lemma_apply_writes_first(start: int, mem: Seq<u8>, guest_addr: int, bytes: Seq<u8>, rest: Seq<(int, Seq<u8>)>)
    ensures
        write_outcome(start, mem.len(), guest_addr, bytes.len()) matches Err(e) ==> apply_writes(
            start,
            mem,
            seq![(guest_addr, bytes)] + rest,
        ) == (mem, Err::<(), MemoryError>(e)),
        write_outcome(start, mem.len(), guest_addr, bytes.len()) is Ok ==> apply_writes(
            start,
            mem,
            seq![(guest_addr, bytes)] + rest,
        ) == apply_writes(start, written(mem, guest_addr - start, bytes), rest),
        apply_writes(start, mem, Seq::empty()) == (mem, Ok::<(), MemoryError>(())),
{
    let a = seq![(guest_addr, bytes)];
    assert((a + rest)[0] == (guest_addr, bytes));
    lemma_apply_writes_from_shift(start, written(mem, guest_addr - start, bytes), a, rest, 0);
}

} // verus!
