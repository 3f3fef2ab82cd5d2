//! Firmware description tables: the root table (XSDT) and the typed views of
//! the HPET and MCFG tables.
//!
//! Tables are read from `mem`, a byte image of physical memory in which an
//! address is an index. Nothing is read outside `mem`, and no table is
//! viewed as a typed table before its signature has been checked.
use vstd::prelude::*;

verus! {

use crate::bytes::{le_u16_at, le_u32_at, le_u64_at, read_u16, read_u32, read_u64};
use crate::error::Error;

/// Size of the header that every description table starts with.
pub const HEADER_SIZE: usize = 36;

/// Size of the MCFG table before its first ECAM entry.
pub const MCFG_HEADER_SIZE: usize = 44;

/// Size of one ECAM entry of the MCFG table.
pub const ECAM_ENTRY_SIZE: usize = 16;

/// Size of the HPET table.
pub const HPET_TABLE_SIZE: usize = 56;

pub open spec fn hpet_signature() -> Seq<u8> {
    seq![0x48u8, 0x50u8, 0x45u8, 0x54u8]
}

pub open spec fn mcfg_signature() -> Seq<u8> {
    seq![0x4du8, 0x43u8, 0x46u8, 0x47u8]
}

/// `n` bytes from `addr` on lie inside `mem`.
pub open spec fn fits(mem: Seq<u8>, addr: int, n: int) -> bool {
    0 <= addr && addr + n <= mem.len()
}

/// A table header lies at `addr` and its signature is `sig`.
pub open spec fn has_signature_at(mem: Seq<u8>, addr: int, sig: Seq<u8>) -> bool {
    fits(mem, addr, HEADER_SIZE as int) && mem.subrange(addr, addr + 4) == sig
}

/// The common header of a description table.
#[derive(Clone, Copy, Debug, PartialEq, Eq)]
pub struct SystemDescriptionTableHeader {
    pub signature: [u8; 4],
    pub length: u32,
}

/// `h` holds the header stored at `addr`.
pub open spec fn header_read_from(h: SystemDescriptionTableHeader, mem: Seq<u8>, addr: int) -> bool {
    h.signature@ == mem.subrange(addr, addr + 4) && h.length == le_u32_at(mem, addr + 4)
}

impl SystemDescriptionTableHeader {
    /// Reads the header stored at `addr`.
    pub fn read(mem: &[u8], addr: usize) -> (r: Option<SystemDescriptionTableHeader>)
        ensures
            r is Some <==> fits(mem@, addr as int, HEADER_SIZE as int),
            r matches Some(h) ==> header_read_from(h, mem@, addr as int),
    {
        if addr > mem.len() || mem.len() - addr < HEADER_SIZE {
            return None;
        }
        let signature = [mem[addr], mem[addr + 1], mem[addr + 2], mem[addr + 3]];
        let h = SystemDescriptionTableHeader { signature, length: read_u32(mem, addr + 4) };
        assert(h.signature@ =~= mem@.subrange(addr as int, addr + 4));
        Some(h)
    }

    pub fn signature(&self) -> (r: [u8; 4])
        ensures
            r == self.signature,
    {
        self.signature
    }
}

/// The number of `width`-byte slots that follow a header of `header_size`
/// bytes in a table of declared length `length`.
pub open spec fn slot_count(length: int, header_size: int, width: int) -> int {
    (length - header_size) / width
}

/// The pointers of the root table stored at `addr`.
pub open spec fn root_entries(mem: Seq<u8>, addr: int, count: int) -> Seq<u64> {
    Seq::new(count as nat, |i: int| le_u64_at(mem, addr + HEADER_SIZE + 8 * i))
}

/// A root table can be read at `addr`: its header fits, its declared length
/// covers the header, and the whole declared length lies inside `mem`.
pub open spec fn root_table_valid(mem: Seq<u8>, addr: int) -> bool {
    fits(mem, addr, HEADER_SIZE as int) && le_u32_at(mem, addr + 4) >= HEADER_SIZE && fits(
        mem,
        addr,
        le_u32_at(mem, addr + 4) as int,
    )
}

/// The index of the first pointer from `k` on that leads to a header with
/// signature `sig`, or the number of pointers if none does.
pub open spec fn first_table_from(mem: Seq<u8>, entries: Seq<u64>, sig: Seq<u8>, k: int) -> int
    decreases entries.len() - k,
{
    if k < 0 || k >= entries.len() {
        entries.len() as int
    } else if has_signature_at(mem, entries[k] as int, sig) {
        k
    } else {
        first_table_from(mem, entries, sig, k + 1)
    }
}

/// The table that a signature lookup over `entries` finds is the first, in
/// slot order, whose header carries the signature; none is found when no
/// header carries it.
pub proof fn lemma_first_table_is_first(mem: Seq<u8>, entries: Seq<u64>, sig: Seq<u8>, k: int)
    requires
        0 <= k <= entries.len(),
    ensures
        k <= first_table_from(mem, entries, sig, k) <= entries.len(),
        first_table_from(mem, entries, sig, k) < entries.len() ==> has_signature_at(
            mem,
            entries[first_table_from(mem, entries, sig, k)] as int,
            sig,
        ),
        forall|m: int|
            k <= m < first_table_from(mem, entries, sig, k) ==> !has_signature_at(
                mem,
                #[trigger] entries[m] as int,
                sig,
            ),
    decreases entries.len() - k,
{
    if k < entries.len() && !has_signature_at(mem, entries[k] as int, sig) {
        lemma_first_table_is_first(mem, entries, sig, k + 1);
    }
}

/// The root system description table: a header followed by 64-bit pointers
/// to the other tables.
pub struct Xsdt {
    header: SystemDescriptionTableHeader,
    entries: Vec<u64>,
}

impl Xsdt {
    pub closed spec fn spec_header(&self) -> SystemDescriptionTableHeader {
        self.header
    }

    /// The table's pointers, in order.
    pub closed spec fn spec_entries(&self) -> Seq<u64> {
        self.entries@
    }

    pub open spec fn wf(&self) -> bool {
        &&& self.spec_header().length >= HEADER_SIZE
        &&& self.spec_entries().len() == slot_count(self.spec_header().length as int, HEADER_SIZE as int, 8)
    }

    /// Reads the root table stored at `addr`.
    pub fn read(mem: &[u8], addr: usize) -> (r: Option<Xsdt>)
        ensures
            r is Some <==> root_table_valid(mem@, addr as int),
            r matches Some(t) ==> t.wf() && header_read_from(t.spec_header(), mem@, addr as int)
                && t.spec_entries() == root_entries(
                mem@,
                addr as int,
                slot_count(t.spec_header().length as int, HEADER_SIZE as int, 8),
            ),
    {
        let header = match SystemDescriptionTableHeader::read(mem, addr) {
            Some(h) => h,
            None => return None,
        };
        let length = header.length as usize;
        if length < HEADER_SIZE || length > mem.len() - addr {
            return None;
        }
        let count = (length - HEADER_SIZE) / 8;
        let mut entries: Vec<u64> = Vec::new();
        let mut i: usize = 0;
        while i < count
            invariant
                count == slot_count(length as int, HEADER_SIZE as int, 8),
                HEADER_SIZE <= length,
                addr + length <= mem@.len(),
                mem@.len() <= usize::MAX,
                i <= count,
                entries@ == root_entries(mem@, addr as int, i as int),
            decreases count - i,
        {
            let e = read_u64(mem, addr + HEADER_SIZE + 8 * i);
            entries.push(e);
            i = i + 1;
            assert(entries@ =~= root_entries(mem@, addr as int, i as int));
        }
        Some(Xsdt { header, entries })
    }

    pub fn header_size(&self) -> (r: usize)
        ensures
            r == HEADER_SIZE,
    {
        HEADER_SIZE
    }

    /// The number of pointers, from the declared length alone.
    pub fn num_of_entries(&self) -> (r: usize)
        requires
            self.wf(),
        ensures
            r == slot_count(self.spec_header().length as int, HEADER_SIZE as int, 8),
            r == self.spec_entries().len(),
    {
        (self.header.length as usize - self.header_size()) / 8
    }

    /// The pointer in slot `index`.
    pub fn entry(&self, index: usize) -> (r: u64)
        requires
            self.wf(),
            index < self.spec_entries().len(),
        ensures
            r == self.spec_entries()[index as int],
    {
        self.entries[index]
    }

    /// A fresh walk over the pointers: a walk yields every pointer of the
    /// table, in slot order, so its length is the slot count.
    pub fn iter(&self) -> (r: XsdtIterator<'_>)
        ensures
            r.table() == *self,
            r.index() == 0,
            r.remaining() == self.spec_entries(),
    {
        XsdtIterator::new(self)
    }

    /// The address of the first table, in slot order, whose header lies in
    /// `mem` and carries the signature `sig`.
    pub fn find_table(&self, mem: &[u8], sig: &[u8; 4]) -> (r: Option<u64>)
        requires
            self.wf(),
        ensures
            ({
                let j = first_table_from(mem@, self.spec_entries(), sig@, 0);
                &&& j < self.spec_entries().len() ==> r == Some(self.spec_entries()[j])
                &&& j >= self.spec_entries().len() ==> r is None
            }),
    {
        let ghost es = self.spec_entries();
        let _ = mem.len();
        let mut it = self.iter();
        loop
            invariant
                it.table() == *self,
                es == self.spec_entries(),
                mem@.len() <= usize::MAX,
                self.wf(),
                it.index() <= es.len(),
                first_table_from(mem@, es, sig@, 0) == first_table_from(mem@, es, sig@, it.index() as int),
            decreases es.len() - it.index(),
        {
            let ghost k = it.index();
            match it.next() {
                None => return None,
                Some(a) => {
                    if a <= usize::MAX as u64 {
                        if let Some(h) = SystemDescriptionTableHeader::read(mem, a as usize) {
                            if h.signature[0] == sig[0] && h.signature[1] == sig[1]
                                && h.signature[2] == sig[2] && h.signature[3] == sig[3] {
                                assert(mem@.subrange(a as int, a + 4) =~= sig@);
                                return Some(a);
                            }
                            assert(!has_signature_at(mem@, a as int, sig@)) by {
                                if has_signature_at(mem@, a as int, sig@) {
                                    assert(h.signature@[0] == sig@[0]);
                                    assert(h.signature@[1] == sig@[1]);
                                    assert(h.signature@[2] == sig@[2]);
                                    assert(h.signature@[3] == sig@[3]);
                                }
                            }
                        }
                    }
                },
            }
        }
    }
}

/// Walks the pointers of a root table in slot order.
pub struct XsdtIterator<'a> {
    table: &'a Xsdt,
    index: usize,
}

impl<'a> XsdtIterator<'a> {
    pub closed spec fn table(&self) -> Xsdt {
        *self.table
    }

    pub closed spec fn index(&self) -> nat {
        self.index as nat
    }

    /// The pointers still to be yielded, in slot order.
    pub open spec fn remaining(&self) -> Seq<u64> {
        let es = self.table().spec_entries();
        if self.index() < es.len() {
            es.subrange(self.index() as int, es.len() as int)
        } else {
            Seq::empty()
        }
    }

    pub fn new(table: &'a Xsdt) -> (r: XsdtIterator<'a>)
        ensures
            r.table() == *table,
            r.index() == 0,
    {
        XsdtIterator { table, index: 0 }
    }

    /// The next pointer, or `None` once every slot has been visited.
    pub fn next(&mut self) -> (r: Option<u64>)
        requires
            old(self).table().wf(),
            old(self).index() <= old(self).table().spec_entries().len(),
        ensures
            final(self).table() == old(self).table(),
            r is Some <==> old(self).index() < slot_count(
                old(self).table().spec_header().length as int,
                HEADER_SIZE as int,
                8,
            ),
            ({
                let es = old(self).table().spec_entries();
                let i = old(self).index() as int;
                &&& i >= es.len() ==> r is None && final(self).index() == i
                &&& i < es.len() ==> r == Some(es[i]) && final(self).index() == i + 1
            }),
            r matches Some(a) ==> old(self).remaining() == seq![a] + final(self).remaining(),
            r is None ==> old(self).remaining().len() == 0,
    {
        if self.index >= self.table.num_of_entries() {
            None
        } else {
            self.index = self.index + 1;
            Some(self.table.entry(self.index - 1))
        }
    }
}

/// A generic address: an address-space id and an address in that space.
/// Space 0 is system memory.
#[derive(Clone, Copy, Debug, PartialEq, Eq, Structural)]
pub struct GenericAddress {
    pub address_space_id: u8,
    pub address: u64,
}

/// The generic address stored at `off`: id byte, three padding bytes,
/// 64-bit address.
pub open spec fn generic_address_at(mem: Seq<u8>, off: int) -> GenericAddress {
    GenericAddress { address_space_id: mem[off], address: le_u64_at(mem, off + 4) }
}

impl GenericAddress {
    /// Reads the 12-byte generic address stored at `off`.
    pub fn read(mem: &[u8], off: usize) -> (r: GenericAddress)
        requires
            off + 12 <= mem@.len(),
        ensures
            r == generic_address_at(mem@, off as int),
    {
        let _ = mem.len();
        GenericAddress { address_space_id: mem[off], address: read_u64(mem, off + 4) }
    }

    /// The address, if it lies in system memory.
    pub fn address_in_memory_space(&self) -> (r: Result<usize, Error>)
        ensures
            self.address_space_id == 0 ==> r == Ok::<usize, Error>(self.address as usize),
            self.address_space_id != 0 ==> r == Err::<usize, Error>(Error::UnsupportedAddressSpace),
    {
        if self.address_space_id == 0 {
            Ok(self.address as usize)
        } else {
            Err(Error::UnsupportedAddressSpace)
        }
    }
}

/// The HPET description table: where the timer's registers are.
#[derive(Clone, Copy, Debug, PartialEq, Eq)]
pub struct AcpiHpetDescriptor {
    pub header: SystemDescriptionTableHeader,
    pub address: GenericAddress,
}

/// `d` holds the HPET table stored at `addr`.
pub open spec fn hpet_read_from(d: AcpiHpetDescriptor, mem: Seq<u8>, addr: int) -> bool {
    header_read_from(d.header, mem, addr) && d.address == generic_address_at(mem, addr + 40)
}

impl AcpiHpetDescriptor {
    /// Views the table at `addr`, whose signature has been checked, as the
    /// HPET table; `None` if the table does not fit in `mem`.
    pub fn from_table(mem: &[u8], addr: usize) -> (r: Option<AcpiHpetDescriptor>)
        requires
            has_signature_at(mem@, addr as int, hpet_signature()),
        ensures
            r is Some <==> fits(mem@, addr as int, HPET_TABLE_SIZE as int),
            r matches Some(d) ==> hpet_read_from(d, mem@, addr as int),
    {
        if mem.len() - addr < HPET_TABLE_SIZE {
            return None;
        }
        let header = match SystemDescriptionTableHeader::read(mem, addr) {
            Some(h) => h,
            None => return None,
        };
        Some(AcpiHpetDescriptor { header, address: GenericAddress::read(mem, addr + 40) })
    }

    /// The base address of the timer's register block, if it lies in
    /// system memory.
    pub fn base_address(&self) -> (r: Result<usize, Error>)
        ensures
            self.address.address_space_id == 0 ==> r == Ok::<usize, Error>(
                self.address.address as usize,
            ),
            self.address.address_space_id != 0 ==> r == Err::<usize, Error>(
                Error::UnsupportedAddressSpace,
            ),
    {
        self.address.address_in_memory_space()
    }
}

/// One ECAM entry: a bus range of a PCI segment group and the base address
/// of its memory-mapped configuration space.
#[derive(Clone, Copy, Debug, PartialEq, Eq, Structural)]
pub struct EcamEntry {
    pub ecm_base_addr: u64,
    pub pci_segment_group: u16,
    pub start_pci_bus: u8,
    pub end_pci_bus: u8,
}

/// The ECAM entry stored at `off`.
pub open spec fn ecam_entry_at(mem: Seq<u8>, off: int) -> EcamEntry {
    EcamEntry {
        ecm_base_addr: le_u64_at(mem, off),
        pci_segment_group: le_u16_at(mem, off + 8),
        start_pci_bus: mem[off + 10],
        end_pci_bus: mem[off + 11],
    }
}

impl EcamEntry {
    /// Reads the 16-byte ECAM entry stored at `off`.
    pub fn read(mem: &[u8], off: usize) -> (r: EcamEntry)
        requires
            off + 16 <= mem@.len(),
        ensures
            r == ecam_entry_at(mem@, off as int),
    {
        let _ = mem.len();
        EcamEntry {
            ecm_base_addr: read_u64(mem, off),
            pci_segment_group: read_u16(mem, off + 8),
            start_pci_bus: mem[off + 10],
            end_pci_bus: mem[off + 11],
        }
    }

    pub fn base_address(&self) -> (r: u64)
        ensures
            r == self.ecm_base_addr,
    {
        self.ecm_base_addr
    }
}

/// The entries of the MCFG table stored at `addr`.
pub open spec fn mcfg_entries(mem: Seq<u8>, addr: int, count: int) -> Seq<EcamEntry> {
    Seq::new(count as nat, |i: int| ecam_entry_at(mem, addr + MCFG_HEADER_SIZE + 16 * i))
}

/// The MCFG table stored at `addr` can be read: its declared length covers
/// its own header and lies inside `mem`.
pub open spec fn mcfg_table_valid(mem: Seq<u8>, addr: int) -> bool {
    fits(mem, addr, HEADER_SIZE as int) && le_u32_at(mem, addr + 4) >= MCFG_HEADER_SIZE && fits(
        mem,
        addr,
        le_u32_at(mem, addr + 4) as int,
    )
}

/// The PCI Express MCFG table: ECAM entries after a 44-byte header.
pub struct AcpiMcfgDescriptor {
    header: SystemDescriptionTableHeader,
    entries: Vec<EcamEntry>,
}

impl AcpiMcfgDescriptor {
    pub closed spec fn spec_header(&self) -> SystemDescriptionTableHeader {
        self.header
    }

    pub closed spec fn spec_entries(&self) -> Seq<EcamEntry> {
        self.entries@
    }

    pub open spec fn wf(&self) -> bool {
        &&& self.spec_header().length >= MCFG_HEADER_SIZE
        &&& self.spec_entries().len() == slot_count(
            self.spec_header().length as int,
            MCFG_HEADER_SIZE as int,
            ECAM_ENTRY_SIZE as int,
        )
    }

    /// Views the table at `addr`, whose signature has been checked, as the
    /// MCFG table; `None` if its declared length is shorter than its header
    /// or reaches past `mem`.
    pub fn from_table(mem: &[u8], addr: usize) -> (r: Option<AcpiMcfgDescriptor>)
        requires
            has_signature_at(mem@, addr as int, mcfg_signature()),
        ensures
            r is Some <==> mcfg_table_valid(mem@, addr as int),
            r matches Some(d) ==> d.wf() && header_read_from(d.spec_header(), mem@, addr as int)
                && d.spec_entries() == mcfg_entries(
                mem@,
                addr as int,
                slot_count(d.spec_header().length as int, MCFG_HEADER_SIZE as int, ECAM_ENTRY_SIZE as int),
            ),
    {
        let header = match SystemDescriptionTableHeader::read(mem, addr) {
            Some(h) => h,
            None => return None,
        };
        let length = header.length as usize;
        if length < MCFG_HEADER_SIZE || length > mem.len() - addr {
            return None;
        }
        let count = (length - MCFG_HEADER_SIZE) / ECAM_ENTRY_SIZE;
        let mut entries: Vec<EcamEntry> = Vec::new();
        let mut i: usize = 0;
        while i < count
            invariant
                count == slot_count(length as int, MCFG_HEADER_SIZE as int, ECAM_ENTRY_SIZE as int),
                MCFG_HEADER_SIZE <= length,
                addr + length <= mem@.len(),
                mem@.len() <= usize::MAX,
                i <= count,
                entries@ == mcfg_entries(mem@, addr as int, i as int),
            decreases count - i,
        {
            let e = EcamEntry::read(mem, addr + MCFG_HEADER_SIZE + ECAM_ENTRY_SIZE * i);
            entries.push(e);
            i = i + 1;
            assert(entries@ =~= mcfg_entries(mem@, addr as int, i as int));
        }
        Some(AcpiMcfgDescriptor { header, entries })
    }

    pub fn header_size(&self) -> (r: usize)
        ensures
            r == MCFG_HEADER_SIZE,
    {
        MCFG_HEADER_SIZE
    }

    /// The number of ECAM entries, from the declared length alone.
    pub fn num_of_entries(&self) -> (r: usize)
        requires
            self.wf(),
        ensures
            r == slot_count(self.spec_header().length as int, MCFG_HEADER_SIZE as int, ECAM_ENTRY_SIZE as int),
            r == self.spec_entries().len(),
    {
        (self.header.length as usize - self.header_size()) / ECAM_ENTRY_SIZE
    }

    /// The ECAM entry at `index`, or `None` past the last one.
    pub fn entry(&self, index: usize) -> (r: Option<&EcamEntry>)
        requires
            self.wf(),
        ensures
            index < self.spec_entries().len() ==> r == Some(&self.spec_entries()[index as int]),
            index >= self.spec_entries().len() ==> r is None,
            r is Some <==> index < slot_count(
                self.spec_header().length as int,
                MCFG_HEADER_SIZE as int,
                ECAM_ENTRY_SIZE as int,
            ),
    {
        if index >= self.num_of_entries() {
            None
        } else {
            Some(&self.entries[index])
        }
    }
}

/// The root system description pointer handed over by the firmware.
#[derive(Clone, Copy, Debug, PartialEq, Eq)]
pub struct AcpiRsdpStruct {
    pub signature: [u8; 8],
    pub checksum: u8,
    pub oem_id: [u8; 6],
    pub revision: u8,
    pub rsdt_address: u32,
    pub length: u32,
    pub xsdt: u64,
}

impl AcpiRsdpStruct {
    /// Decodes the pointer structure from the first 32 bytes of `b`.
    pub fn from_bytes(b: &[u8]) -> (r: Option<AcpiRsdpStruct>)
        ensures
            r is Some <==> b@.len() >= 32,
            r matches Some(p) ==> p.signature@ == b@.subrange(0, 8) && p.checksum == b@[8]
                && p.oem_id@ == b@.subrange(9, 15) && p.revision == b@[15] && p.rsdt_address
                == le_u32_at(b@, 16) && p.length == le_u32_at(b@, 20) && p.xsdt == le_u64_at(b@, 24),
    {
        if b.len() < 32 {
            return None;
        }
        let signature = [b[0], b[1], b[2], b[3], b[4], b[5], b[6], b[7]];
        let oem_id = [b[9], b[10], b[11], b[12], b[13], b[14]];
        let p = AcpiRsdpStruct {
            signature,
            checksum: b[8],
            oem_id,
            revision: b[15],
            rsdt_address: read_u32(b, 16),
            length: read_u32(b, 20),
            xsdt: read_u64(b, 24),
        };
        assert(p.signature@ =~= b@.subrange(0, 8));
        assert(p.oem_id@ =~= b@.subrange(9, 15));
        Some(p)
    }

    /// The root table that this structure points to.
    pub fn xsdt(&self, mem: &[u8]) -> (r: Option<Xsdt>)
        ensures
            r is Some <==> self.xsdt <= usize::MAX && root_table_valid(mem@, self.xsdt as int),
            r matches Some(t) ==> t.wf() && header_read_from(t.spec_header(), mem@, self.xsdt as int)
                && t.spec_entries() == root_entries(
                mem@,
                self.xsdt as int,
                slot_count(t.spec_header().length as int, HEADER_SIZE as int, 8),
            ),
    {
        if self.xsdt > usize::MAX as u64 {
            return None;
        }
        Xsdt::read(mem, self.xsdt as usize)
    }

    /// The HPET table: the first table of the root table with the signature
    /// "HPET", if the root table and that table can be read.
    pub fn hpet(&self, mem: &[u8]) -> (r: Option<AcpiHpetDescriptor>)
        ensures
            r is Some <==> self.xsdt <= usize::MAX && root_table_valid(mem@, self.xsdt as int) && ({
                let es = root_entries(
                    mem@,
                    self.xsdt as int,
                    slot_count(le_u32_at(mem@, self.xsdt + 4) as int, HEADER_SIZE as int, 8),
                );
                let j = first_table_from(mem@, es, hpet_signature(), 0);
                j < es.len() && fits(mem@, es[j] as int, HPET_TABLE_SIZE as int)
            }),
            r matches Some(d) ==> ({
                let es = root_entries(
                    mem@,
                    self.xsdt as int,
                    slot_count(le_u32_at(mem@, self.xsdt + 4) as int, HEADER_SIZE as int, 8),
                );
                hpet_read_from(d, mem@, es[first_table_from(mem@, es, hpet_signature(), 0)] as int)
            }),
    {
        let xsdt = match self.xsdt(mem) {
            Some(t) => t,
            None => return None,
        };
        let sig: [u8; 4] = [0x48, 0x50, 0x45, 0x54];
        assert(sig@ =~= hpet_signature());
        match xsdt.find_table(mem, &sig) {
            Some(a) => {
                let _ = mem.len();
                proof {
                    lemma_first_table_is_first(mem@, xsdt.spec_entries(), hpet_signature(), 0);
                }
                AcpiHpetDescriptor::from_table(mem, a as usize)
            },
            None => None,
        }
    }

    /// The MCFG table: the first table of the root table with the signature
    /// "MCFG", if the root table and that table can be read.
    pub fn mcfg(&self, mem: &[u8]) -> (r: Option<AcpiMcfgDescriptor>)
        ensures
            r is Some <==> self.xsdt <= usize::MAX && root_table_valid(mem@, self.xsdt as int) && ({
                let es = root_entries(
                    mem@,
                    self.xsdt as int,
                    slot_count(le_u32_at(mem@, self.xsdt + 4) as int, HEADER_SIZE as int, 8),
                );
                let j = first_table_from(mem@, es, mcfg_signature(), 0);
                j < es.len() && mcfg_table_valid(mem@, es[j] as int)
            }),
            r matches Some(d) ==> d.wf() && ({
                let es = root_entries(
                    mem@,
                    self.xsdt as int,
                    slot_count(le_u32_at(mem@, self.xsdt + 4) as int, HEADER_SIZE as int, 8),
                );
                let a = es[first_table_from(mem@, es, mcfg_signature(), 0)] as int;
                header_read_from(d.spec_header(), mem@, a) && d.spec_entries() == mcfg_entries(
                    mem@,
                    a,
                    slot_count(d.spec_header().length as int, MCFG_HEADER_SIZE as int, ECAM_ENTRY_SIZE as int),
                )
            }),
    {
        let xsdt = match self.xsdt(mem) {
            Some(t) => t,
            None => return None,
        };
        let sig: [u8; 4] = [0x4d, 0x43, 0x46, 0x47];
        assert(sig@ =~= mcfg_signature());
        match xsdt.find_table(mem, &sig) {
            Some(a) => {
                let _ = mem.len();
                proof {
                    lemma_first_table_is_first(mem@, xsdt.spec_entries(), mcfg_signature(), 0);
                }
                AcpiMcfgDescriptor::from_table(mem, a as usize)
            },
            None => None,
        }
    }
}

} // verus!
