use wasabi::acpi::AcpiHpetDescriptor;
use wasabi::acpi::AcpiMcfgDescriptor;
use wasabi::acpi::AcpiRsdpStruct;
use wasabi::acpi::GenericAddress;
use wasabi::acpi::SystemDescriptionTableHeader;
use wasabi::acpi::Xsdt;
use wasabi::error::Error;

const XSDT_ADDR: usize = 0x40;
const FACP_ADDR: usize = 0x100;
const MCFG_ADDR: usize = 0x180;
const HPET_ADDR: usize = 0x200;

fn put(mem: &mut [u8], at: usize, bytes: &[u8]) {
    mem[at..at + bytes.len()].copy_from_slice(bytes);
}

fn put_header(mem: &mut [u8], at: usize, sig: &[u8; 4], length: u32) {
    put(mem, at, sig);
    put(mem, at + 4, &length.to_le_bytes());
}

fn put_xsdt(mem: &mut [u8], at: usize, entries: &[u64]) {
    put_header(mem, at, b"XSDT", 36 + 8 * entries.len() as u32);
    for (i, e) in entries.iter().enumerate() {
        put(mem, at + 36 + 8 * i, &e.to_le_bytes());
    }
}

fn put_hpet(mem: &mut [u8], at: usize, space: u8, address: u64) {
    put_header(mem, at, b"HPET", 56);
    mem[at + 40] = space;
    put(mem, at + 44, &address.to_le_bytes());
}

fn put_mcfg(mem: &mut [u8], at: usize, entries: &[(u64, u16, u8, u8)]) {
    put_header(mem, at, b"MCFG", 44 + 16 * entries.len() as u32);
    for (i, (base, seg, start, end)) in entries.iter().enumerate() {
        let off = at + 44 + 16 * i;
        put(mem, off, &base.to_le_bytes());
        put(mem, off + 8, &seg.to_le_bytes());
        mem[off + 10] = *start;
        mem[off + 11] = *end;
    }
}

fn rsdp_bytes(xsdt: u64) -> Vec<u8> {
    let mut b = vec![0u8; 36];
    put(&mut b, 0, b"RSD PTR ");
    b[8] = 0x5a;
    put(&mut b, 9, b"WASABI");
    b[15] = 2;
    put(&mut b, 16, &0x1234u32.to_le_bytes());
    put(&mut b, 20, &36u32.to_le_bytes());
    put(&mut b, 24, &xsdt.to_le_bytes());
    b
}

fn firmware_image() -> Vec<u8> {
    let mut mem = vec![0u8; 0x300];
    put_xsdt(&mut mem, XSDT_ADDR, &[FACP_ADDR as u64, 0xffff_0000, MCFG_ADDR as u64, HPET_ADDR as u64]);
    put_header(&mut mem, FACP_ADDR, b"FACP", 36);
    put_mcfg(&mut mem, MCFG_ADDR, &[(0xe000_0000, 0, 0, 0xff), (0xf000_0000, 1, 0, 0x3f)]);
    put_hpet(&mut mem, HPET_ADDR, 0, 0xfed0_0000);
    mem
}

#[test]
fn header_is_read_from_memory() {
    let mem = firmware_image();
    let h = SystemDescriptionTableHeader::read(&mem, FACP_ADDR).unwrap();
    assert_eq!(h.signature(), *b"FACP");
    assert_eq!(h.length, 36);
    assert!(SystemDescriptionTableHeader::read(&mem, mem.len() - 35).is_none());
}

#[test]
fn xsdt_iteration_yields_declared_entry_count() {
    let mem = firmware_image();
    let xsdt = Xsdt::read(&mem, XSDT_ADDR).unwrap();
    assert_eq!(xsdt.header_size(), 36);
    assert_eq!(xsdt.num_of_entries(), (68 - 36) / 8);
    let mut it = xsdt.iter();
    let mut seen = Vec::new();
    while let Some(e) = it.next() {
        seen.push(e);
    }
    assert_eq!(seen, vec![0x100, 0xffff_0000, 0x180, 0x200]);
    assert_eq!(it.next(), None);
    // a fresh walk starts over
    assert_eq!(xsdt.iter().next(), Some(0x100));
}

#[test]
fn xsdt_entry_count_rounds_down() {
    let mut mem = firmware_image();
    put_header(&mut mem, XSDT_ADDR, b"XSDT", 36 + 8 * 2 + 7);
    let xsdt = Xsdt::read(&mem, XSDT_ADDR).unwrap();
    assert_eq!(xsdt.num_of_entries(), 2);
}

#[test]
fn xsdt_with_corrupt_length_is_refused() {
    let mut mem = firmware_image();
    put_header(&mut mem, XSDT_ADDR, b"XSDT", 20);
    assert!(Xsdt::read(&mem, XSDT_ADDR).is_none());
    put_header(&mut mem, XSDT_ADDR, b"XSDT", 0x1000);
    assert!(Xsdt::read(&mem, XSDT_ADDR).is_none());
}

#[test]
fn find_table_returns_first_match() {
    let mut mem = firmware_image();
    let xsdt = Xsdt::read(&mem, XSDT_ADDR).unwrap();
    assert_eq!(xsdt.find_table(&mem, b"HPET"), Some(HPET_ADDR as u64));
    assert_eq!(xsdt.find_table(&mem, b"MCFG"), Some(MCFG_ADDR as u64));
    assert_eq!(xsdt.find_table(&mem, b"APIC"), None);
    // a second HPET earlier in slot order wins
    put_hpet(&mut mem, FACP_ADDR, 0, 0x1000);
    let xsdt = Xsdt::read(&mem, XSDT_ADDR).unwrap();
    assert_eq!(xsdt.find_table(&mem, b"HPET"), Some(FACP_ADDR as u64));
}

#[test]
fn rsdp_is_decoded() {
    let b = rsdp_bytes(XSDT_ADDR as u64);
    let rsdp = AcpiRsdpStruct::from_bytes(&b).unwrap();
    assert_eq!(&rsdp.signature, b"RSD PTR ");
    assert_eq!(rsdp.checksum, 0x5a);
    assert_eq!(&rsdp.oem_id, b"WASABI");
    assert_eq!(rsdp.revision, 2);
    assert_eq!(rsdp.rsdt_address, 0x1234);
    assert_eq!(rsdp.length, 36);
    assert_eq!(rsdp.xsdt, XSDT_ADDR as u64);
    assert!(AcpiRsdpStruct::from_bytes(&b[..31]).is_none());
}

#[test]
fn rsdp_finds_hpet_register_base() {
    let mem = firmware_image();
    let rsdp = AcpiRsdpStruct::from_bytes(&rsdp_bytes(XSDT_ADDR as u64)).unwrap();
    let hpet = rsdp.hpet(&mem).unwrap();
    assert_eq!(hpet.header.length, 56);
    assert_eq!(hpet.base_address(), Ok(0xfed0_0000));
}

#[test]
fn hpet_outside_system_memory_is_an_error() {
    let mut mem = firmware_image();
    put_hpet(&mut mem, HPET_ADDR, 1, 0xfed0_0000);
    let hpet = AcpiHpetDescriptor::from_table(&mem, HPET_ADDR).unwrap();
    assert_eq!(hpet.base_address(), Err(Error::UnsupportedAddressSpace));
}

#[test]
fn missing_table_is_none() {
    let mut mem = firmware_image();
    put_xsdt(&mut mem, XSDT_ADDR, &[FACP_ADDR as u64]);
    let rsdp = AcpiRsdpStruct::from_bytes(&rsdp_bytes(XSDT_ADDR as u64)).unwrap();
    assert!(rsdp.hpet(&mem).is_none());
    assert!(rsdp.mcfg(&mem).is_none());
    let far = AcpiRsdpStruct::from_bytes(&rsdp_bytes(0x10_0000)).unwrap();
    assert!(far.xsdt(&mem).is_none());
    assert!(far.hpet(&mem).is_none());
}

#[test]
fn mcfg_entries_follow_declared_length() {
    let mem = firmware_image();
    let rsdp = AcpiRsdpStruct::from_bytes(&rsdp_bytes(XSDT_ADDR as u64)).unwrap();
    let mcfg = rsdp.mcfg(&mem).unwrap();
    assert_eq!(mcfg.header_size(), 44);
    assert_eq!(mcfg.num_of_entries(), (76 - 44) / 16);
    let e0 = mcfg.entry(0).unwrap();
    assert_eq!(e0.base_address(), 0xe000_0000);
    assert_eq!((e0.pci_segment_group, e0.start_pci_bus, e0.end_pci_bus), (0, 0, 0xff));
    let e1 = mcfg.entry(1).unwrap();
    assert_eq!(e1.base_address(), 0xf000_0000);
    assert_eq!((e1.pci_segment_group, e1.start_pci_bus, e1.end_pci_bus), (1, 0, 0x3f));
    assert!(mcfg.entry(2).is_none());
    assert!(mcfg.entry(usize::MAX).is_none());
}

#[test]
fn mcfg_shorter_than_its_header_is_refused() {
    let mut mem = firmware_image();
    put_header(&mut mem, MCFG_ADDR, b"MCFG", 40);
    assert!(AcpiMcfgDescriptor::from_table(&mem, MCFG_ADDR).is_none());
    put_header(&mut mem, MCFG_ADDR, b"MCFG", 44 + 15);
    let mcfg = AcpiMcfgDescriptor::from_table(&mem, MCFG_ADDR).unwrap();
    assert_eq!(mcfg.num_of_entries(), 0);
    assert!(mcfg.entry(0).is_none());
}

#[test]
fn generic_address_in_system_memory() {
    let a = GenericAddress { address_space_id: 0, address: 0x1000 };
    assert_eq!(a.address_in_memory_space(), Ok(0x1000));
    let b = GenericAddress { address_space_id: 1, address: 0x1000 };
    assert_eq!(b.address_in_memory_space(), Err(Error::UnsupportedAddressSpace));
}

#[test]
fn generic_address_is_read_from_its_layout() {
    let mut mem = vec![0u8; 12];
    mem[0] = 0;
    put(&mut mem, 4, &0x1000u64.to_le_bytes());
    let a = GenericAddress::read(&mem, 0);
    assert_eq!(a, GenericAddress { address_space_id: 0, address: 0x1000 });
}
