//! Reading the Linux x86 boot protocol header of a bzImage and laying the
//! kernel out in guest memory.

use vstd::prelude::*;
use vstd::slice::slice_subrange;

use crate::memory::{apply_writes, apply_writes_from, written, write_outcome, zeroed_bytes, GuestMemory, MemoryError};

verus! {

/// Guest physical address of the zero page (`boot_params`).
pub const BOOT_PARAMS_ADDR: u64 = 0x9000;
/// Guest physical address of the kernel command line.
pub const CMDLINE_ADDR: u64 = 0x20000;
/// Guest physical address of the protected-mode kernel.
pub const KERNEL_LOAD_ADDR: u64 = 0x100000;

pub const SECTOR_SIZE: usize = 512;
pub const BOOT_PARAMS_SIZE: usize = 4096;
pub const DEFAULT_SETUP_SECTS: u8 = 4;

pub const SETUP_SECTS_OFFSET: usize = 0x1f1;
pub const BOOT_FLAG_OFFSET: usize = 0x1fe;
pub const BOOT_FLAG_MAGIC: u16 = 0xaa55;
pub const HEADER_OFFSET: usize = 0x202;
pub const PROTOCOL_VERSION_OFFSET: usize = 0x206;
pub const LOADFLAGS_OFFSET: usize = 0x211;
pub const CODE32_START_OFFSET: usize = 0x214;
pub const CMDLINE_PTR_OFFSET: u64 = 0x228;
pub const INITRD_ADDR_MAX_OFFSET: usize = 0x22c;
pub const KERNEL_ALIGNMENT_OFFSET: usize = 0x230;
pub const CMDLINE_SIZE_OFFSET: usize = 0x238;

/// Why a bzImage was refused.
#[derive(Debug, Clone, Copy, PartialEq, Eq, Structural)]
pub enum LoaderError {
    /// The image is shorter than the setup header fields that are read.
    ImageTooSmall { len: usize, required: usize },
    /// The boot sector does not end in 0xaa55.
    InvalidBootFlag(u16),
    /// The setup header does not carry the "HdrS" signature.
    MissingHeader,
    /// Nothing of the image is left after the real-mode setup code.
    SetupExceedsImage { image_len: usize, setup_size: usize },
}

/// The little-endian `u16` at `off`.
pub open spec fn le16(b: Seq<u8>, off: int) -> u16 {
    (b[off] + 256 * b[off + 1]) as u16
}

/// The little-endian `u32` at `off`.
pub open spec fn le32(b: Seq<u8>, off: int) -> u32 {
    (b[off] + 256 * b[off + 1] + 65536 * b[off + 2] + 16777216 * b[off + 3]) as u32
}

/// The four little-endian bytes of `x`.
pub open spec fn le32_bytes(x: u32) -> Seq<u8> {
    seq![
        (x % 256) as u8,
        ((x / 256) % 256) as u8,
        ((x / 65536) % 256) as u8,
        (x / 16777216) as u8,
    ]
}

/// "HdrS", the setup header signature.
pub open spec fn header_magic() -> Seq<u8> {
    seq![0x48u8, 0x64u8, 0x72u8, 0x53u8]
}

/// Number of setup sectors after the boot sector: the header's value, or 4
/// where the header holds 0.
pub open spec fn setup_sects_of(image: Seq<u8>) -> u8 {
    if image[SETUP_SECTS_OFFSET as int] == 0 {
        DEFAULT_SETUP_SECTS
    } else {
        image[SETUP_SECTS_OFFSET as int]
    }
}

/// Size of the real-mode part of the image, boot sector included.
pub open spec fn setup_size_of(image: Seq<u8>) -> nat {
    ((setup_sects_of(image) + 1) * 512) as nat
}

/// What parsing `image` answers.
pub open spec fn parse_outcome(image: Seq<u8>) -> Result<(), LoaderError> {
    if image.len() < CMDLINE_SIZE_OFFSET + 4 {
        Err(LoaderError::ImageTooSmall { len: image.len() as usize, required: (CMDLINE_SIZE_OFFSET + 4) as usize })
    } else if le16(image, BOOT_FLAG_OFFSET as int) != BOOT_FLAG_MAGIC {
        Err(LoaderError::InvalidBootFlag(le16(image, BOOT_FLAG_OFFSET as int)))
    } else if image.subrange(HEADER_OFFSET as int, HEADER_OFFSET + 4) != header_magic() {
        Err(LoaderError::MissingHeader)
    } else if image.len() <= setup_size_of(image) {
        Err(LoaderError::SetupExceedsImage { image_len: image.len() as usize, setup_size: setup_size_of(image) as usize })
    } else {
        Ok(())
    }
}

/// The kernel command line handed to the guest, NUL-terminated.
pub open spec fn boot_cmdline() -> Seq<u8> {
    seq![
        99u8, 111, 110, 115, 111, 108, 101, 61, 116, 116, 121, 83, 48, 32, 101, 97, 114, 108, 121, 112,
        114, 105, 110, 116, 107, 61, 115, 101, 114, 105, 97, 108, 44, 116, 116, 121, 83, 48, 44, 49,
        49, 53, 50, 48, 48, 32, 112, 97, 110, 105, 99, 61, 45, 49, 0,
    ]
}

/// The writes into guest memory that load a parsed image, in order.
pub open spec fn load_writes(image: Seq<u8>) -> Seq<(int, Seq<u8>)> {
    seq![
        (BOOT_PARAMS_ADDR as int, Seq::new(BOOT_PARAMS_SIZE as nat, |i: int| 0u8)),
        (BOOT_PARAMS_ADDR as int, image.subrange(0, setup_size_of(image) as int)),
        ((BOOT_PARAMS_ADDR + CMDLINE_PTR_OFFSET) as int, le32_bytes(CMDLINE_ADDR as u32)),
        (CMDLINE_ADDR as int, boot_cmdline()),
        (KERNEL_LOAD_ADDR as int, image.subrange(setup_size_of(image) as int, image.len() as int)),
    ]
}

/// The bytes of the command line, [`boot_cmdline`].
fn boot_cmdline_bytes() -> (r: Vec<u8>)
    ensures
        r@ == boot_cmdline(),
{
    let v: Vec<u8> = vec![
        99u8, 111, 110, 115, 111, 108, 101, 61, 116, 116, 121, 83, 48, 32, 101, 97, 114, 108, 121, 112,
        114, 105, 110, 116, 107, 61, 115, 101, 114, 105, 97, 108, 44, 116, 116, 121, 83, 48, 44, 49,
        49, 53, 50, 48, 48, 32, 112, 97, 110, 105, 99, 61, 45, 49, 0,
    ];
    assert(v@ =~= boot_cmdline());
    v
}

/// The four little-endian bytes of `x`.
fn u32_le_bytes(x: u32) -> (r: Vec<u8>)
    ensures
        r@ == le32_bytes(x),
{
    let mut v: Vec<u8> = Vec::new();
    v.push((x % 256) as u8);
    v.push(((x / 256) % 256) as u8);
    v.push(((x / 65536) % 256) as u8);
    v.push((x / 16777216) as u8);
    assert(v@ =~= le32_bytes(x));
    v
}

/// A parsed bzImage.
pub struct LinuxKernel {
    /// Complete bzImage file contents.
    image: Vec<u8>,
    /// Number of 512-byte setup sectors after the boot sector.
    setup_sects: u8,
    /// Total size of the real-mode setup area, including the first boot sector.
    setup_size: usize,
    /// Linux x86 boot protocol version from the setup header.
    protocol_version: u16,
    /// Boot-protocol flags that describe loader/kernel requirements.
    loadflags: u8,
    /// Default protected-mode entry address for the 32-bit kernel code.
    code32_start: u32,
    /// Maximum supported kernel command-line length.
    cmdline_size: u32,
    /// Highest allowed physical address for an initrd image.
    initrd_addr_max: u32,
    /// Required alignment for loading the protected-mode kernel payload.
    kernel_alignment: u32,
}

impl LinuxKernel {
    /// The fields hold what the header of an accepted image says.
    pub closed spec fn wf(&self) -> bool {
        let b = self.image@;
        &&& parse_outcome(b) is Ok
        &&& self.setup_sects == setup_sects_of(b)
        &&& self.setup_size == setup_size_of(b)
        &&& self.protocol_version == le16(b, PROTOCOL_VERSION_OFFSET as int)
        &&& self.loadflags == b[LOADFLAGS_OFFSET as int]
        &&& self.code32_start == le32(b, CODE32_START_OFFSET as int)
        &&& self.initrd_addr_max == le32(b, INITRD_ADDR_MAX_OFFSET as int)
        &&& self.kernel_alignment == le32(b, KERNEL_ALIGNMENT_OFFSET as int)
        &&& self.cmdline_size == le32(b, CMDLINE_SIZE_OFFSET as int)
    }

    /// The bytes of the image; every field is read from them.
    pub closed spec fn image_bytes(&self) -> Seq<u8> {
        self.image@
    }

    /// A well-formed kernel holds an image that parsing accepts.
    pub proof fn lemma_accepted(&self)
        requires
            self.wf(),
        ensures
            parse_outcome(self.image_bytes()) is Ok,
    {
    }

    /// Parses the boot protocol header of a bzImage.
    pub fn parse(image: Vec<u8>) -> (r: Result<LinuxKernel, LoaderError>)
        ensures
            r is Ok <==> parse_outcome(image@) is Ok,
            r matches Err(e) ==> parse_outcome(image@) == Err::<(), LoaderError>(e),
            r matches Ok(k) ==> k.wf() && k.image_bytes() == image@,
    {
        Self::require_len(image.as_slice(), CMDLINE_SIZE_OFFSET + 4)?;

        let boot_flag = Self::read_u16(image.as_slice(), BOOT_FLAG_OFFSET)?;
        if boot_flag != BOOT_FLAG_MAGIC {
            return Err(LoaderError::InvalidBootFlag(boot_flag));
        }

        if !(image[HEADER_OFFSET] == 0x48 && image[HEADER_OFFSET + 1] == 0x64
            && image[HEADER_OFFSET + 2] == 0x72 && image[HEADER_OFFSET + 3] == 0x53) {
            assert(image@.subrange(HEADER_OFFSET as int, HEADER_OFFSET + 4) != header_magic()) by {
                let s = image@.subrange(HEADER_OFFSET as int, HEADER_OFFSET + 4);
                assert(s[0] == image@[HEADER_OFFSET as int]);
                assert(s[1] == image@[HEADER_OFFSET + 1]);
                assert(s[2] == image@[HEADER_OFFSET + 2]);
                assert(s[3] == image@[HEADER_OFFSET + 3]);
            }
            return Err(LoaderError::MissingHeader);
        }
        assert(image@.subrange(HEADER_OFFSET as int, HEADER_OFFSET + 4) =~= header_magic());

        let raw_setup_sects = image[SETUP_SECTS_OFFSET];
        let setup_sects = if raw_setup_sects == 0 {
            DEFAULT_SETUP_SECTS
        } else {
            raw_setup_sects
        };
        let setup_size = (setup_sects as usize + 1) * SECTOR_SIZE;

        if image.len() <= setup_size {
            return Err(LoaderError::SetupExceedsImage { image_len: image.len(), setup_size });
        }

        let protocol_version = Self::read_u16(image.as_slice(), PROTOCOL_VERSION_OFFSET)?;
        let loadflags = image[LOADFLAGS_OFFSET];
        let code32_start = Self::read_u32(image.as_slice(), CODE32_START_OFFSET)?;
        let initrd_addr_max = Self::read_u32(image.as_slice(), INITRD_ADDR_MAX_OFFSET)?;
        let kernel_alignment = Self::read_u32(image.as_slice(), KERNEL_ALIGNMENT_OFFSET)?;
        let cmdline_size = Self::read_u32(image.as_slice(), CMDLINE_SIZE_OFFSET)?;
        Ok(LinuxKernel {
            image,
            setup_sects,
            setup_size,
            protocol_version,
            loadflags,
            code32_start,
            cmdline_size,
            initrd_addr_max,
            kernel_alignment,
        })
    }

    /// Refuses an image shorter than `len` bytes.
    fn require_len(image: &[u8], len: usize) -> (r: Result<(), LoaderError>)
        ensures
            image@.len() < len ==> r == Err::<(), LoaderError>(
                LoaderError::ImageTooSmall { len: image@.len() as usize, required: len },
            ),
            image@.len() >= len ==> r is Ok,
    {
        if image.len() < len {
            return Err(LoaderError::ImageTooSmall { len: image.len(), required: len });
        }
        Ok(())
    }

    /// The little-endian `u16` at `offset`.
    fn read_u16(image: &[u8], offset: usize) -> (r: Result<u16, LoaderError>)
        requires
            offset + 2 <= usize::MAX,
        ensures
            image@.len() < offset + 2 ==> r == Err::<u16, LoaderError>(
                LoaderError::ImageTooSmall { len: image@.len() as usize, required: (offset + 2) as usize },
            ),
            image@.len() >= offset + 2 ==> r == Ok::<u16, LoaderError>(le16(image@, offset as int)),
    {
        Self::require_len(image, offset + 2)?;
        Ok(image[offset] as u16 + (image[offset + 1] as u16) * 256)
    }

    /// The little-endian `u32` at `offset`.
    fn read_u32(image: &[u8], offset: usize) -> (r: Result<u32, LoaderError>)
        requires
            offset + 4 <= usize::MAX,
        ensures
            image@.len() < offset + 4 ==> r == Err::<u32, LoaderError>(
                LoaderError::ImageTooSmall { len: image@.len() as usize, required: (offset + 4) as usize },
            ),
            image@.len() >= offset + 4 ==> r == Ok::<u32, LoaderError>(le32(image@, offset as int)),
    {
        Self::require_len(image, offset + 4)?;
        Ok(image[offset] as u32 + (image[offset + 1] as u32) * 256 + (image[offset + 2] as u32) * 65536
            + (image[offset + 3] as u32) * 16777216)
    }
}

impl LinuxKernel {
    /// Loads the kernel into guest memory: a zeroed zero page with the setup
    /// code and header over it, the command line and its address, and the
    /// protected-mode kernel at 1 MiB.
    pub fn load(guest_memory: &mut GuestMemory, kernel: &LinuxKernel) -> (r: Result<(), MemoryError>)
        requires
            kernel.wf(),
            KERNEL_LOAD_ADDR + kernel.image_bytes().len() - setup_size_of(kernel.image_bytes()) <= usize::MAX,
        ensures
            final(guest_memory).start() == old(guest_memory).start(),
            (final(guest_memory)@, r) == apply_writes(
                old(guest_memory).start() as int,
                old(guest_memory)@,
                load_writes(kernel.image_bytes()),
            ),
    {
        let ghost img = kernel.image_bytes();
        let ghost w = load_writes(img);
        let ghost st = guest_memory.start() as int;
        let ghost m0 = guest_memory@;

        let zeros = zeroed_bytes(BOOT_PARAMS_SIZE);
        let r1 = guest_memory.write(BOOT_PARAMS_ADDR, zeros.as_slice());
        assert(w[0].1 == zeros@);
        if r1.is_err() {
            return r1;
        }
        let ghost m1 = guest_memory@;
        assert(apply_writes_from(st, m0, w, 0) == apply_writes_from(st, m1, w, 1));

        let setup = kernel.setup();
        let r2 = guest_memory.write(BOOT_PARAMS_ADDR, setup);
        if r2.is_err() {
            return r2;
        }
        let ghost m2 = guest_memory@;
        assert(apply_writes_from(st, m1, w, 1) == apply_writes_from(st, m2, w, 2));

        let ptr = u32_le_bytes(CMDLINE_ADDR as u32);
        let r3 = guest_memory.write(BOOT_PARAMS_ADDR + CMDLINE_PTR_OFFSET, ptr.as_slice());
        if r3.is_err() {
            return r3;
        }
        let ghost m3 = guest_memory@;
        assert(apply_writes_from(st, m2, w, 2) == apply_writes_from(st, m3, w, 3));

        let cmdline = boot_cmdline_bytes();
        let r4 = guest_memory.write(CMDLINE_ADDR, cmdline.as_slice());
        if r4.is_err() {
            return r4;
        }
        let ghost m4 = guest_memory@;
        assert(apply_writes_from(st, m3, w, 3) == apply_writes_from(st, m4, w, 4));

        let body = kernel.protected_mode_kernel();
        let r5 = guest_memory.write(KERNEL_LOAD_ADDR, body);
        if r5.is_err() {
            return r5;
        }
        let ghost m5 = guest_memory@;
        assert(apply_writes_from(st, m4, w, 4) == apply_writes_from(st, m5, w, 5));
        Ok(())
    }

    /// The real-mode part of the image: the boot sector and the setup code.
    pub fn setup(&self) -> (r: &[u8])
        requires
            self.wf(),
        ensures
            r@ == self.image_bytes().subrange(0, setup_size_of(self.image_bytes()) as int),
    {
        slice_subrange(self.image.as_slice(), 0, self.setup_size)
    }

    /// The protected-mode kernel: everything after the setup code.
    pub fn protected_mode_kernel(&self) -> (r: &[u8])
        requires
            self.wf(),
        ensures
            r@ == self.image_bytes().subrange(
                setup_size_of(self.image_bytes()) as int,
                self.image_bytes().len() as int,
            ),
            r@.len() > 0,
    {
        slice_subrange(self.image.as_slice(), self.setup_size, self.image.len())
    }

    /// Number of setup sectors after the boot sector.
    pub fn setup_sects(&self) -> (r: u8)
        requires
            self.wf(),
        ensures
            r == setup_sects_of(self.image_bytes()),
    {
        self.setup_sects
    }

    /// Size of the real-mode part, boot sector included.
    pub fn setup_size(&self) -> (r: usize)
        requires
            self.wf(),
        ensures
            r == setup_size_of(self.image_bytes()),
    {
        self.setup_size
    }

    /// Boot protocol version from the setup header.
    pub fn protocol_version(&self) -> (r: u16)
        requires
            self.wf(),
        ensures
            r == le16(self.image_bytes(), PROTOCOL_VERSION_OFFSET as int),
    {
        self.protocol_version
    }

    /// Boot protocol load flags.
    pub fn loadflags(&self) -> (r: u8)
        requires
            self.wf(),
        ensures
            r == self.image_bytes()[LOADFLAGS_OFFSET as int],
    {
        self.loadflags
    }

    /// Default 32-bit entry address.
    pub fn code32_start(&self) -> (r: u32)
        requires
            self.wf(),
        ensures
            r == le32(self.image_bytes(), CODE32_START_OFFSET as int),
    {
        self.code32_start
    }

    /// Maximum kernel command-line length.
    pub fn cmdline_size(&self) -> (r: u32)
        requires
            self.wf(),
        ensures
            r == le32(self.image_bytes(), CMDLINE_SIZE_OFFSET as int),
    {
        self.cmdline_size
    }

    /// Highest address for an initrd.
    pub fn initrd_addr_max(&self) -> (r: u32)
        requires
            self.wf(),
        ensures
            r == le32(self.image_bytes(), INITRD_ADDR_MAX_OFFSET as int),
    {
        self.initrd_addr_max
    }

    /// Alignment the protected-mode kernel needs.
    pub fn kernel_alignment(&self) -> (r: u32)
        requires
            self.wf(),
        ensures
            r == le32(self.image_bytes(), KERNEL_ALIGNMENT_OFFSET as int),
    {
        self.kernel_alignment
    }
}

/// The setup code followed by the protected-mode kernel is the whole image.
pub proof fn lemma_image_split(image: Seq<u8>)
    requires
        parse_outcome(image) is Ok,
    ensures
        image.subrange(0, setup_size_of(image) as int) + image.subrange(
            setup_size_of(image) as int,
            image.len() as int,
        ) == image,
{
    assert(image.subrange(0, setup_size_of(image) as int) + image.subrange(
        setup_size_of(image) as int,
        image.len() as int,
    ) =~= image);
}

/// Loading an accepted image into guest memory that starts at guest address
/// `start` succeeds exactly when the region begins at or below the zero page
/// and reaches the end of the protected-mode kernel at 1 MiB: every other
/// write lies between those two.
pub proof fn lemma_load_succeeds_iff(start: int, mem: Seq<u8>, image: Seq<u8>)
    requires
        parse_outcome(image) is Ok,
        0 <= start,
    ensures
        apply_writes(start, mem, load_writes(image)).1 is Ok <==> (start <= BOOT_PARAMS_ADDR
            && KERNEL_LOAD_ADDR + image.len() - setup_size_of(image) <= start + mem.len()),
{
    let w = load_writes(image);
    let m1 = written(mem, w[0].0 - start, w[0].1);
    let m2 = written(m1, w[1].0 - start, w[1].1);
    let m3 = written(m2, w[2].0 - start, w[2].1);
    let m4 = written(m3, w[3].0 - start, w[3].1);
    let m5 = written(m4, w[4].0 - start, w[4].1);
    assert(apply_writes_from(start, m5, w, 5) == (m5, Ok::<(), MemoryError>(())));
    // Unfold the writes one by one.
    assert(apply_writes_from(start, m4, w, 4).1 is Ok <==> write_outcome(start, m4.len(), w[4].0, w[4].1.len()) is Ok);
    assert(apply_writes_from(start, m3, w, 3).1 is Ok ==> apply_writes_from(start, m4, w, 4).1 is Ok);
    assert(apply_writes_from(start, m2, w, 2).1 is Ok ==> apply_writes_from(start, m3, w, 3).1 is Ok);
    assert(apply_writes_from(start, m1, w, 1).1 is Ok ==> apply_writes_from(start, m2, w, 2).1 is Ok);
    assert(apply_writes_from(start, mem, w, 0).1 is Ok ==> apply_writes_from(start, m1, w, 1).1 is Ok);
}

/// After a load that succeeded into guest memory that starts at guest
/// address `start`, guest memory holds the protected-mode kernel at 1 MiB,
/// the command line at `CMDLINE_ADDR`, the command line's address in the
/// zero page's `cmd_line_ptr`, the setup code over the zero page except
/// where those two lie, zeros in the rest of the zero page, and what it held
/// before everywhere else. Positions in `mem` are guest addresses less
/// `start`.
pub proof fn lemma_load_layout(start: int, mem: Seq<u8>, image: Seq<u8>)
    requires
        parse_outcome(image) is Ok,
        0 <= start,
        apply_writes(start, mem, load_writes(image)).1 is Ok,
    ensures
        ({
            let m = apply_writes(start, mem, load_writes(image)).0;
            let s = setup_size_of(image) as int;
            let bp = BOOT_PARAMS_ADDR - start;
            let ptr = BOOT_PARAMS_ADDR + CMDLINE_PTR_OFFSET - start;
            let cl = CMDLINE_ADDR - start;
            let ka = KERNEL_LOAD_ADDR - start;
            &&& m.len() == mem.len()
            &&& m.subrange(ka, ka + image.len() - s) == image.subrange(s, image.len() as int)
            &&& m.subrange(cl, cl + boot_cmdline().len()) == boot_cmdline()
            &&& m.subrange(ptr, ptr + 4) == le32_bytes(CMDLINE_ADDR as u32)
            &&& forall|i: int|
                bp <= i < bp + s && !(ptr <= i < ptr + 4) && i < cl ==> #[trigger] m[i] == image[i
                    - bp]
            &&& forall|i: int| bp + s <= i < bp + BOOT_PARAMS_SIZE ==> #[trigger] m[i] == 0u8
            &&& forall|i: int|
                0 <= i < m.len() && !(bp <= i < bp + BOOT_PARAMS_SIZE) && !(bp <= i < bp + s) && !(
                cl <= i < cl + boot_cmdline().len()) && !(ka <= i < ka + image.len() - s)
                    ==> #[trigger] m[i] == mem[i]
        }),
{
    let w = load_writes(image);
    let s = setup_size_of(image) as int;
    let m1 = written(mem, w[0].0 - start, w[0].1);
    let m2 = written(m1, w[1].0 - start, w[1].1);
    let m3 = written(m2, w[2].0 - start, w[2].1);
    let m4 = written(m3, w[3].0 - start, w[3].1);
    let m5 = written(m4, w[4].0 - start, w[4].1);
    lemma_load_succeeds_iff(start, mem, image);
    assert(start <= BOOT_PARAMS_ADDR && KERNEL_LOAD_ADDR + image.len() - s <= start + mem.len());
    assert(m1.len() == mem.len() && m2.len() == mem.len() && m3.len() == mem.len() && m4.len()
        == mem.len());
    assert(apply_writes_from(start, m5, w, 5) == (m5, Ok::<(), MemoryError>(())));
    assert(apply_writes_from(start, m4, w, 4) == apply_writes_from(start, m5, w, 5));
    assert(apply_writes_from(start, m3, w, 3) == apply_writes_from(start, m4, w, 4));
    assert(apply_writes_from(start, m2, w, 2) == apply_writes_from(start, m3, w, 3));
    assert(apply_writes_from(start, m1, w, 1) == apply_writes_from(start, m2, w, 2));
    assert(apply_writes_from(start, mem, w, 0) == apply_writes_from(start, m1, w, 1));
    assert(apply_writes(start, mem, w).0 == m5);
    let bp = BOOT_PARAMS_ADDR - start;
    let ptr = BOOT_PARAMS_ADDR + CMDLINE_PTR_OFFSET - start;
    let cl = CMDLINE_ADDR - start;
    let ka = KERNEL_LOAD_ADDR - start;
    assert(m5.subrange(ka, ka + image.len() - s) =~= image.subrange(s, image.len() as int));
    assert(m5.subrange(cl, cl + boot_cmdline().len()) =~= boot_cmdline());
    assert(m5.subrange(ptr, ptr + 4) =~= le32_bytes(CMDLINE_ADDR as u32));
}

/// The setup header's sector count is taken as it stands unless it is 0,
/// which means 4; the real-mode part is the boot sector and that many
/// 512-byte sectors.
pub proof fn lemma_setup_sects_from_header(image: Seq<u8>)
    requires
        image.len() > 0x1f1,
    ensures
        image[0x1f1] != 0 ==> setup_sects_of(image) == image[0x1f1],
        image[0x1f1] == 0 ==> setup_sects_of(image) == 4,
        setup_size_of(image) == 512 + 512 * setup_sects_of(image),
        image[0x1f1] != 0 ==> setup_size_of(image) == 512 * (image[0x1f1] + 1),
{
}

/// Parsing accepts exactly the images that hold the setup header up to
/// `cmdline_size`, end the boot sector in 0x55 0xaa, carry "HdrS" at 0x202,
/// and hold at least one byte after the real-mode part.
pub proof fn lemma_parse_accepts_iff(image: Seq<u8>)
    ensures
        parse_outcome(image) is Ok <==> {
            &&& image.len() >= 0x23c
            &&& image[0x1fe] == 0x55 && image[0x1ff] == 0xaa
            &&& image[0x202] == 0x48 && image[0x203] == 0x64 && image[0x204] == 0x72 && image[0x205] == 0x53
            &&& image.len() > 512 * (1 + (if image[0x1f1] == 0 { 4 } else { image[0x1f1] as int }))
        },
{
    if image.len() >= 0x23c {
        let h = image.subrange(0x202, 0x206);
        assert(h[0] == image[0x202] && h[1] == image[0x203] && h[2] == image[0x204] && h[3] == image[0x205]);
        if image[0x202] == 0x48 && image[0x203] == 0x64 && image[0x204] == 0x72 && image[0x205] == 0x53 {
            assert(h =~= header_magic());
        }
    }
}

/// Which error parsing gives: a short image first, then a wrong boot flag
/// (reported as the little-endian word found), then a missing "HdrS", then
/// an image with nothing after the real-mode part.
pub proof fn lemma_parse_errors(image: Seq<u8>)
    ensures
        image.len() < 0x23c ==> parse_outcome(image) == Err::<(), LoaderError>(
            LoaderError::ImageTooSmall { len: image.len() as usize, required: 0x23c },
        ),
        image.len() >= 0x23c && !(image[0x1fe] == 0x55 && image[0x1ff] == 0xaa) ==> parse_outcome(image)
            == Err::<(), LoaderError>(LoaderError::InvalidBootFlag((image[0x1fe] + 256 * image[0x1ff]) as u16)),
        image.len() >= 0x23c && image[0x1fe] == 0x55 && image[0x1ff] == 0xaa && !(image[0x202] == 0x48
            && image[0x203] == 0x64 && image[0x204] == 0x72 && image[0x205] == 0x53) ==> parse_outcome(image)
            == Err::<(), LoaderError>(LoaderError::MissingHeader),
        image.len() >= 0x23c && image[0x1fe] == 0x55 && image[0x1ff] == 0xaa && image[0x202] == 0x48
            && image[0x203] == 0x64 && image[0x204] == 0x72 && image[0x205] == 0x53 && image.len() <= 512
            * (1 + setup_sects_of(image)) ==> parse_outcome(image) == Err::<(), LoaderError>(
            LoaderError::SetupExceedsImage {
                image_len: image.len() as usize,
                setup_size: (512 * (1 + setup_sects_of(image))) as usize,
            },
        ),
{
    lemma_parse_accepts_iff(image);
    if image.len() >= 0x23c {
        let h = image.subrange(0x202, 0x206);
        assert(h[0] == image[0x202] && h[1] == image[0x203] && h[2] == image[0x204] && h[3] == image[0x205]);
        if image[0x202] == 0x48 && image[0x203] == 0x64 && image[0x204] == 0x72 && image[0x205] == 0x53 {
            assert(h =~= header_magic());
        }
    }
}

/// The header fields are little-endian: the protocol version is the word at
/// 0x206, and `code32_start`, `initrd_addr_max`, `kernel_alignment` and
/// `cmdline_size` are the double words at 0x214, 0x22c, 0x230 and 0x238.
pub proof fn lemma_header_fields(image: Seq<u8>)
    requires
        image.len() >= 0x23c,
    ensures
        le16(image, PROTOCOL_VERSION_OFFSET as int) as int == image[0x206] + 256 * image[0x207],
        le32(image, CODE32_START_OFFSET as int) as int == image[0x214] + 256 * image[0x215] + 65536
            * image[0x216] + 16777216 * image[0x217],
        le32(image, INITRD_ADDR_MAX_OFFSET as int) as int == image[0x22c] + 256 * image[0x22d] + 65536
            * image[0x22e] + 16777216 * image[0x22f],
        le32(image, KERNEL_ALIGNMENT_OFFSET as int) as int == image[0x230] + 256 * image[0x231] + 65536
            * image[0x232] + 16777216 * image[0x233],
        le32(image, CMDLINE_SIZE_OFFSET as int) as int == image[0x238] + 256 * image[0x239] + 65536
            * image[0x23a] + 16777216 * image[0x23b],
        LOADFLAGS_OFFSET == 0x211,
{
}

/// The zero page is at 0x9000, the command line at 0x20000 and the
/// protected-mode kernel at 1 MiB; the command line's address is written to
/// the zero page's `cmd_line_ptr` (offset 0x228) as the little-endian bytes
/// 00 00 02 00, and the command line is a NUL-terminated string of 54
/// characters.
pub proof fn lemma_load_constants()
    ensures
        BOOT_PARAMS_ADDR == 0x9000,
        CMDLINE_ADDR == 0x20000,
        KERNEL_LOAD_ADDR == 0x100000,
        BOOT_PARAMS_SIZE == 4096,
        le32_bytes(CMDLINE_ADDR as u32) == seq![0x00u8, 0x00u8, 0x02u8, 0x00u8],
        boot_cmdline().len() == 55,
        boot_cmdline()[54] == 0,
        forall|i: int| 0 <= i < 54 ==> boot_cmdline()[i] != 0,
{
    assert(le32_bytes(CMDLINE_ADDR as u32) =~= seq![0x00u8, 0x00u8, 0x02u8, 0x00u8]);
}

/// Loading makes five writes, in this order: 4096 zeros at 0x9000, the
/// real-mode part of the image at 0x9000, the bytes 00 00 02 00 at 0x9228,
/// the command line at 0x20000, and the rest of the image at 0x100000.
pub proof fn lemma_load_write_order(image: Seq<u8>)
    requires
        parse_outcome(image) is Ok,
    ensures
        ({
            let w = load_writes(image);
            let s = 512 * (1 + setup_sects_of(image));
            &&& w.len() == 5
            &&& w[0] == (0x9000int, Seq::new(4096, |i: int| 0u8))
            &&& w[1] == (0x9000int, image.subrange(0, s))
            &&& w[2] == (0x9228int, seq![0x00u8, 0x00u8, 0x02u8, 0x00u8])
            &&& w[3] == (0x20000int, boot_cmdline())
            &&& w[4] == (0x100000int, image.subrange(s, image.len() as int))
        }),
{
    assert(le32_bytes(CMDLINE_ADDR as u32) =~= seq![0x00u8, 0x00u8, 0x02u8, 0x00u8]);
}

} // verus!
