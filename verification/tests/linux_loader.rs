use mini_vmm::linux_loader::{LinuxKernel, LoaderError, BOOT_PARAMS_ADDR, CMDLINE_ADDR, KERNEL_LOAD_ADDR};
use mini_vmm::memory::{GuestMemory, MemoryError};

/// A bzImage of `total` bytes with a valid header, `sects` setup sectors and
/// recognisable header fields; byte i of the image is `i % 251` elsewhere.
fn image(total: usize, sects: u8) -> Vec<u8> {
    let mut img: Vec<u8> = (0..total).map(|i| (i % 251) as u8).collect();
    img[0x1f1] = sects;
    img[0x1fe] = 0x55;
    img[0x1ff] = 0xaa;
    img[0x202..0x206].copy_from_slice(b"HdrS");
    img[0x206..0x208].copy_from_slice(&0x020fu16.to_le_bytes());
    img[0x211] = 0x81;
    img[0x214..0x218].copy_from_slice(&0x0010_0000u32.to_le_bytes());
    img[0x22c..0x230].copy_from_slice(&0x7fff_ffffu32.to_le_bytes());
    img[0x230..0x234].copy_from_slice(&0x0020_0000u32.to_le_bytes());
    img[0x238..0x23c].copy_from_slice(&2048u32.to_le_bytes());
    img
}

#[test]
fn parse_reads_the_setup_header() {
    let k = LinuxKernel::parse(image(4096, 2)).unwrap();
    assert_eq!(k.setup_sects(), 2);
    assert_eq!(k.setup_size(), 1536);
    assert_eq!(k.protocol_version(), 0x020f);
    assert_eq!(k.loadflags(), 0x81);
    assert_eq!(k.code32_start(), 0x0010_0000);
    assert_eq!(k.initrd_addr_max(), 0x7fff_ffff);
    assert_eq!(k.kernel_alignment(), 0x0020_0000);
    assert_eq!(k.cmdline_size(), 2048);
}

#[test]
fn zero_setup_sects_means_four() {
    let k = LinuxKernel::parse(image(4096, 0)).unwrap();
    assert_eq!(k.setup_sects(), 4);
    assert_eq!(k.setup_size(), 2560);
}

#[test]
fn setup_and_kernel_split_the_image() {
    let img = image(4000, 1);
    let k = LinuxKernel::parse(img.clone()).unwrap();
    assert_eq!(k.setup(), &img[..1024]);
    assert_eq!(k.protected_mode_kernel(), &img[1024..]);
    let mut joined = k.setup().to_vec();
    joined.extend_from_slice(k.protected_mode_kernel());
    assert_eq!(joined, img);
}

#[test]
fn short_image_is_refused() {
    assert_eq!(
        LinuxKernel::parse(vec![0u8; 0x23b]).err(),
        Some(LoaderError::ImageTooSmall { len: 0x23b, required: 0x23c })
    );
}

#[test]
fn bad_boot_flag_is_refused() {
    let mut img = image(4096, 1);
    img[0x1fe] = 0x00;
    assert_eq!(LinuxKernel::parse(img).err(), Some(LoaderError::InvalidBootFlag(0xaa00)));
}

#[test]
fn missing_hdrs_is_refused() {
    let mut img = image(4096, 1);
    img[0x205] = b's';
    assert_eq!(LinuxKernel::parse(img).err(), Some(LoaderError::MissingHeader));
}

#[test]
fn image_without_kernel_is_refused() {
    assert_eq!(
        LinuxKernel::parse(image(1024, 1)).err(),
        Some(LoaderError::SetupExceedsImage { image_len: 1024, setup_size: 1024 })
    );
}

#[test]
fn load_lays_the_kernel_out() {
    let img = image(3000, 1);
    let k = LinuxKernel::parse(img.clone()).unwrap();
    let kernel_len = 3000 - 1024;
    let mut mem = GuestMemory::new(KERNEL_LOAD_ADDR + kernel_len as u64).unwrap();
    assert_eq!(LinuxKernel::load(&mut mem, &k), Ok(()));
    let m = mem.host_bytes().to_vec();
    let bp = BOOT_PARAMS_ADDR as usize;
    let ka = KERNEL_LOAD_ADDR as usize;
    let cl = CMDLINE_ADDR as usize;
    assert_eq!(&m[ka..ka + kernel_len], &img[1024..]);
    let cmdline = b"console=ttyS0 earlyprintk=serial,ttyS0,115200 panic=-1\0";
    assert_eq!(&m[cl..cl + cmdline.len()], &cmdline[..]);
    assert_eq!(&m[bp + 0x228..bp + 0x22c], &[0x00, 0x00, 0x02, 0x00]);
    assert_eq!(&m[bp..bp + 0x228], &img[..0x228]);
    assert_eq!(&m[bp + 0x22c..bp + 1024], &img[0x22c..1024]);
    assert!(m[bp + 1024..bp + 4096].iter().all(|b| *b == 0));
    assert!(m[..bp].iter().all(|b| *b == 0));
}

#[test]
fn load_into_too_small_memory_fails_on_the_kernel() {
    let k = LinuxKernel::parse(image(3000, 1)).unwrap();
    let mut mem = GuestMemory::new(KERNEL_LOAD_ADDR).unwrap();
    assert_eq!(
        LinuxKernel::load(&mut mem, &k),
        Err(MemoryError::WriteOutOfRange { end: 0x100000 + 1976, limit: 0x100000 })
    );
    // The writes before the failing one were made.
    assert_eq!(mem.host_bytes()[CMDLINE_ADDR as usize], b'c');
}

#[test]
fn load_into_tiny_memory_fails_on_the_zero_page() {
    let k = LinuxKernel::parse(image(3000, 1)).unwrap();
    let mut mem = GuestMemory::new(0x9000).unwrap();
    assert_eq!(
        LinuxKernel::load(&mut mem, &k),
        Err(MemoryError::WriteOutOfRange { end: 0xa000, limit: 0x9000 })
    );
}

#[test]
fn linux_does_not_fit_the_raw_guest_memory() {
    let k = LinuxKernel::parse(image(3000, 1)).unwrap();
    let mut mem = GuestMemory::new_at(0x1000, 8192).unwrap();
    assert_eq!(
        LinuxKernel::load(&mut mem, &k),
        Err(MemoryError::WriteOutOfRange { end: 0xa000, limit: 0x3000 })
    );
    assert!(mem.host_bytes().iter().all(|b| *b == 0));
}

#[test]
fn load_into_memory_from_the_zero_page() {
    let img = image(3000, 1);
    let k = LinuxKernel::parse(img.clone()).unwrap();
    let mut mem = GuestMemory::new_at(BOOT_PARAMS_ADDR, KERNEL_LOAD_ADDR - BOOT_PARAMS_ADDR + 1976).unwrap();
    assert_eq!(LinuxKernel::load(&mut mem, &k), Ok(()));
    let m = mem.host_bytes();
    let ka = (KERNEL_LOAD_ADDR - BOOT_PARAMS_ADDR) as usize;
    assert_eq!(&m[ka..], &img[1024..]);
    assert_eq!(&m[..0x228], &img[..0x228]);
}
