use machine_info::{BlobError, HeaderIssue, MachineInfo, Placed, HEADER_LEN};

const MAGIC: u32 = 0xd00d_feed;

/// Writes a flattened device tree by hand: a structure block and a strings block.
struct Fdt {
    structs: Vec<u8>,
    strings: Vec<u8>,
}

impl Fdt {
    fn new() -> Fdt {
        let mut fdt = Fdt { structs: Vec::new(), strings: Vec::new() };
        fdt.begin("");
        fdt.cells("#address-cells", &[2]).cells("#size-cells", &[2]);
        fdt
    }

    /// A node whose children use two address cells and two size cells.
    fn container(&mut self, name: &str) -> &mut Fdt {
        self.begin(name);
        self.cells("#address-cells", &[2]).cells("#size-cells", &[2])
    }

    fn word(&mut self, v: u32) {
        self.structs.extend_from_slice(&v.to_be_bytes());
    }

    fn pad(&mut self) {
        while self.structs.len() % 4 != 0 {
            self.structs.push(0);
        }
    }

    fn begin(&mut self, name: &str) -> &mut Fdt {
        self.word(1);
        self.structs.extend_from_slice(name.as_bytes());
        self.structs.push(0);
        self.pad();
        self
    }

    fn end(&mut self) -> &mut Fdt {
        self.word(2);
        self
    }

    fn name_offset(&mut self, name: &str) -> u32 {
        let off = self.strings.len() as u32;
        self.strings.extend_from_slice(name.as_bytes());
        self.strings.push(0);
        off
    }

    fn prop(&mut self, name: &str, value: &[u8]) -> &mut Fdt {
        let off = self.name_offset(name);
        self.word(3);
        self.word(value.len() as u32);
        self.word(off);
        self.structs.extend_from_slice(value);
        self.pad();
        self
    }

    fn cells(&mut self, name: &str, cells: &[u32]) -> &mut Fdt {
        let mut value = Vec::new();
        for c in cells {
            value.extend_from_slice(&c.to_be_bytes());
        }
        self.prop(name, &value)
    }

    fn text(&mut self, name: &str, s: &str) -> &mut Fdt {
        let mut value = s.as_bytes().to_vec();
        value.push(0);
        self.prop(name, &value)
    }

    /// A node with one `reg` interval, in two address cells and two size cells.
    fn device(&mut self, name: &str, start: u64, size: u64) -> &mut Fdt {
        self.begin(name);
        self.cells(
            "reg",
            &[(start >> 32) as u32, start as u32, (size >> 32) as u32, size as u32],
        );
        self.end()
    }

    fn finish_with(&mut self, magic: u32, version: u32, last_comp: u32) -> Vec<u8> {
        self.end();
        self.word(9);
        let off_rsv = HEADER_LEN as u32;
        let off_struct = off_rsv + 16;
        let off_strings = off_struct + self.structs.len() as u32;
        let total = off_strings + self.strings.len() as u32;
        let mut out = Vec::new();
        for w in [
            magic,
            total,
            off_struct,
            off_strings,
            off_rsv,
            version,
            last_comp,
            0,
            self.strings.len() as u32,
            self.structs.len() as u32,
        ] {
            out.extend_from_slice(&w.to_be_bytes());
        }
        out.extend_from_slice(&[0u8; 16]);
        out.extend_from_slice(&self.structs);
        out.extend_from_slice(&self.strings);
        out
    }

    fn finish(&mut self) -> Vec<u8> {
        self.finish_with(MAGIC, 17, 16)
    }
}

fn qemu_virt() -> Vec<u8> {
    let mut f = Fdt::new();
    f.text("model", "qemu,virt");
    f.begin("cpus").cells("#address-cells", &[1]).cells("#size-cells", &[0]);
    f.begin("cpu@0").cells("reg", &[0]).end();
    f.begin("cpu@1").cells("reg", &[1]).end();
    f.end();
    f.device("memory@80000000", 0x8000_0000, 0x0800_0000);
    f.container("soc");
    f.device("uart@10000000", 0x1000_0000, 0x100);
    f.device("test@100000", 0x10_0000, 0x1000);
    f.end();
    f.finish()
}

/// A copy of `blob` whose first byte sits `rem` bytes past an 8-byte boundary,
/// with the offset of that byte in the buffer.
fn placed_copy(blob: &[u8], rem: usize) -> (Vec<u8>, usize) {
    let mut buf = vec![0u8; blob.len() + 16];
    let addr = buf.as_ptr() as usize;
    let off = (16 + rem - addr % 8) % 8;
    buf[off..off + blob.len()].copy_from_slice(blob);
    (buf, off)
}

fn from(blob: &[u8]) -> Result<MachineInfo, BlobError> {
    let (buf, off) = placed_copy(blob, 0);
    MachineInfo::from_dtb(0x8220_0000, &buf[off..off + blob.len()])
}

fn parse(blob: &[u8]) -> MachineInfo {
    match from(blob) {
        Ok(info) => info,
        Err(e) => panic!("blob refused: {:?}", e),
    }
}

#[test]
fn qemu_virt_scenario() {
    let blob = qemu_virt();
    let info = parse(&blob);
    assert_eq!(info.model.as_bytes(), "qemu,virt".as_bytes());
    assert_eq!(info.mem, 0x8000_0000..0x8800_0000);
    assert_eq!(info.uart, 0x1000_0000..0x1000_0100);
    assert_eq!(info.test, 0x10_0000..0x10_1000);
    assert_eq!(info.smp, 2);
    assert_eq!(info.clint, 0..0);
    assert_eq!(info.dtb, 0x8220_0000..0x8220_0000 + blob.len());
}

#[test]
fn tolerated_last_compatible_version() {
    let mut f = Fdt::new();
    f.text("model", "board");
    let blob = f.finish_with(MAGIC, 17, 2);
    let info = parse(&blob);
    assert_eq!(info.model.as_bytes(), "board".as_bytes());
}

#[test]
fn bad_magic_is_fatal() {
    let mut f = Fdt::new();
    let blob = f.finish_with(0x1234_5678, 17, 16);
    assert_eq!(
        from(&blob).err(),
        Some(BlobError::Header(HeaderIssue::Magic(0x1234_5678)))
    );
}

#[test]
fn old_version_is_fatal() {
    let mut f = Fdt::new();
    let blob = f.finish_with(MAGIC, 16, 16);
    assert_eq!(
        from(&blob).err(),
        Some(BlobError::Header(HeaderIssue::Version(16)))
    );
}

#[test]
fn bad_total_size_is_fatal() {
    let mut blob = Fdt::new().finish();
    blob[4..8].copy_from_slice(&8u32.to_be_bytes());
    assert_eq!(
        from(&blob).err(),
        Some(BlobError::Header(HeaderIssue::TotalSize(8)))
    );
}

#[test]
fn bad_struct_offset_is_fatal() {
    let mut blob = Fdt::new().finish();
    blob[8..12].copy_from_slice(&0x10_0000u32.to_be_bytes());
    assert_eq!(
        from(&blob).err(),
        Some(BlobError::Header(HeaderIssue::Layout))
    );
}

#[test]
fn short_slice_is_truncated() {
    let blob = qemu_virt();
    assert_eq!(from(&blob[..HEADER_LEN - 1]).err(), Some(BlobError::Truncated));
    assert_eq!(from(&blob[..blob.len() - 1]).err(), Some(BlobError::Truncated));
}

#[test]
fn four_byte_aligned_blob_is_accepted() {
    let blob = qemu_virt();
    let (buf, off) = placed_copy(&blob, 4);
    let info = match MachineInfo::from_dtb(0x8220_0004, &buf[off..off + blob.len()]) {
        Ok(info) => info,
        Err(e) => panic!("blob refused: {:?}", e),
    };
    assert_eq!(info.smp, 2);
    assert_eq!(info.uart, 0x1000_0000..0x1000_0100);
}

#[test]
fn trailing_bytes_are_outside_the_blob() {
    let mut blob = qemu_virt();
    let size = blob.len();
    blob.extend_from_slice(&[0xff; 12]);
    let info = parse(&blob);
    assert_eq!(info.dtb, 0x8220_0000..0x8220_0000 + size);
}

#[test]
fn model_within_capacity_kept() {
    let text = "x".repeat(64);
    let mut f = Fdt::new();
    f.text("model", &text);
    let info = parse(&f.finish());
    assert_eq!(info.model.as_bytes(), text.as_bytes());
    assert_eq!(info.model.len(), 64);
}

#[test]
fn long_model_truncated() {
    let text: String = (0..70).map(|i| (b'a' + (i % 26) as u8) as char).collect();
    let mut f = Fdt::new();
    f.text("model", &text);
    let info = parse(&f.finish());
    assert_eq!(info.model.as_bytes(), &text.as_bytes()[..64]);
}

#[test]
fn model_below_root_ignored() {
    let mut f = Fdt::new();
    f.begin("soc").text("model", "inner").end();
    let info = parse(&f.finish());
    assert_eq!(info.model.len(), 0);
}

#[test]
fn no_cpu_entries() {
    let mut f = Fdt::new();
    f.begin("cpus").begin("cpu-map").end().end();
    let info = parse(&f.finish());
    assert_eq!(info.smp, 0);
}

#[test]
fn cpu_entries_counted() {
    let mut f = Fdt::new();
    f.begin("cpus");
    for name in ["cpu@0", "cpu@1", "cpu@2", "cpu-map"] {
        f.begin(name).end();
    }
    f.end();
    f.begin("cpu@9").end();
    let info = parse(&f.finish());
    assert_eq!(info.smp, 3);
}

#[test]
fn absent_devices_are_empty() {
    let mut f = Fdt::new();
    f.text("model", "bare");
    let info = parse(&f.finish());
    assert_eq!(info.mem, 0..0);
    assert_eq!(info.uart, 0..0);
    assert_eq!(info.test, 0..0);
    assert_eq!(info.clint, 0..0);
    assert_eq!(info.smp, 0);
}

#[test]
fn decoy_outside_soc_ignored() {
    let mut f = Fdt::new();
    f.device("fake-uart", 0x2000_0000, 0x100);
    f.device("uart@30000000", 0x3000_0000, 0x100);
    f.container("bus").device("uart@40000000", 0x4000_0000, 0x100).end();
    f.container("soc").device("fake-uart", 0x5000_0000, 0x100).end();
    let info = parse(&f.finish());
    assert_eq!(info.uart, 0..0);
}

#[test]
fn serial_and_clint_found() {
    let mut f = Fdt::new();
    f.container("soc");
    f.device("clint@2000000", 0x200_0000, 0x1_0000);
    f.device("serial@10000000", 0x1000_0000, 0x100);
    f.end();
    let info = parse(&f.finish());
    assert_eq!(info.clint, 0x200_0000..0x201_0000);
    assert_eq!(info.uart, 0x1000_0000..0x1000_0100);
}

#[test]
fn first_device_of_a_class_wins() {
    let mut f = Fdt::new();
    f.container("soc");
    f.device("uart@10000000", 0x1000_0000, 0x100);
    f.device("uart@10001000", 0x1000_1000, 0x100);
    f.end();
    f.device("memory@80000000", 0x8000_0000, 0x100_0000);
    f.device("memory@90000000", 0x9000_0000, 0x100_0000);
    let info = parse(&f.finish());
    assert_eq!(info.uart, 0x1000_0000..0x1000_0100);
    assert_eq!(info.mem, 0x8000_0000..0x8100_0000);
}

#[test]
fn only_first_interval_of_a_node_read() {
    let mut f = Fdt::new();
    f.begin("memory@80000000");
    f.cells("reg", &[0, 0x8000_0000, 0, 0x1000, 0, 0xa000_0000, 0, 0x2000]);
    f.end();
    let info = parse(&f.finish());
    assert_eq!(info.mem, 0x8000_0000..0x8000_1000);
}

#[test]
fn two_byte_aligned_blob_is_refused() {
    let blob = qemu_virt();
    let (buf, off) = placed_copy(&blob, 2);
    assert_eq!(
        MachineInfo::from_dtb(0x8220_0002, &buf[off..off + blob.len()]).err(),
        Some(BlobError::Unaligned)
    );
}

#[test]
fn structure_block_past_total_size_is_layout() {
    let mut blob = Fdt::new().finish();
    let total = blob.len() as u32;
    blob[36..40].copy_from_slice(&(total).to_be_bytes());
    assert_eq!(from(&blob).err(), Some(BlobError::Header(HeaderIssue::Layout)));
}

#[test]
fn unknown_token_is_structure_error() {
    let mut f = Fdt::new();
    f.begin("soc");
    f.word(7);
    f.end();
    assert_eq!(from(&f.finish()).err(), Some(BlobError::Structure));
}

#[test]
fn zero_cells_reg_is_structure_error() {
    let mut f = Fdt::new();
    f.begin("soc").cells("#address-cells", &[0]).cells("#size-cells", &[0]);
    f.begin("uart@0").cells("reg", &[1]).end();
    f.end();
    assert_eq!(from(&f.finish()).err(), Some(BlobError::Structure));
}

#[test]
fn property_name_outside_strings_is_structure_error() {
    let mut f = Fdt::new();
    f.word(3);
    f.word(0);
    f.word(0x1000);
    assert_eq!(from(&f.finish()).err(), Some(BlobError::Structure));
}

#[test]
fn first_device_wins_even_when_empty() {
    let mut f = Fdt::new();
    f.container("soc");
    f.device("uart@10000000", 0x1000_0000, 0);
    f.device("uart@10001000", 0x1000_1000, 0x100);
    f.end();
    let info = parse(&f.finish());
    assert_eq!(info.uart, 0x1000_0000..0x1000_0000);
}

#[test]
fn odd_addresses_are_refused() {
    let blob = qemu_virt();
    for rem in [1usize, 3, 5, 6, 7] {
        let (buf, off) = placed_copy(&blob, rem);
        assert_eq!(
            MachineInfo::from_dtb(0x8220_0000 + rem, &buf[off..off + blob.len()]).err(),
            Some(BlobError::Unaligned)
        );
    }
}

#[test]
fn truncation_comes_before_alignment() {
    let blob = qemu_virt();
    let (buf, off) = placed_copy(&blob, 1);
    assert_eq!(
        MachineInfo::from_dtb(0, &buf[off..off + HEADER_LEN - 1]).err(),
        Some(BlobError::Truncated)
    );
}

#[test]
fn placed_blob_is_described() {
    let blob = qemu_virt();
    let (buf, off) = placed_copy(&blob, 0);
    let p = Placed::of(&buf[off..off + blob.len()]);
    assert_eq!(p.addr_of() % 8, 0);
    assert_eq!(p.as_slice(), &blob[..]);
    let info = match MachineInfo::from_placed(0x8220_0000, &p) {
        Ok(info) => info,
        Err(e) => panic!("blob refused: {:?}", e),
    };
    assert_eq!(info.smp, 2);
    assert_eq!(info.model.as_bytes(), "qemu,virt".as_bytes());
    assert_eq!(info.dtb, 0x8220_0000..0x8220_0000 + blob.len());
}

#[test]
fn placed_blob_on_four_byte_boundary_is_described() {
    let blob = qemu_virt();
    let (buf, off) = placed_copy(&blob, 4);
    let p = Placed::of(&buf[off..off + blob.len()]);
    assert_eq!(p.addr_of() % 8, 4);
    let info = match MachineInfo::from_placed(0, &p) {
        Ok(info) => info,
        Err(e) => panic!("blob refused: {:?}", e),
    };
    assert_eq!(info.test, 0x10_0000..0x10_1000);
}
