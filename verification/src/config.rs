//! What is known of a flash memory and of the algorithm that programs it.

use vstd::prelude::*;

verus! {

/// The addresses from `start` on and before `end`.
#[derive(Clone, Copy, Debug, PartialEq, Eq, Structural)]
pub struct AddressRange {
    pub start: u32,
    pub end: u32,
}

impl AddressRange {
    pub open spec fn has(self, address: u32) -> bool {
        self.start <= address < self.end
    }

    pub open spec fn has_range(self, range: AddressRange) -> bool {
        self.has(range.start) && range.end <= self.end
    }

    /// Whether `address` lies in the range.
    pub fn contains(&self, address: u32) -> (result: bool)
        ensures
            result == self.has(address),
    {
        self.start <= address && address < self.end
    }

    /// Whether `range` begins at an address of this range and ends within it.
    pub fn contains_range(&self, range: &AddressRange) -> (result: bool)
        ensures
            result == self.has_range(*range),
    {
        self.contains(range.start) && range.end <= self.end
    }
}

/// Where a flash memory begins.
#[derive(Clone, Copy, Debug, PartialEq, Eq, Structural)]
pub struct FlashInfo {
    pub rom_start: u32,
}

/// A region of the target's memory that is flash.
#[derive(Clone, Copy, Debug, PartialEq, Eq, Structural)]
pub struct FlashRegion {
    pub range: AddressRange,
    pub is_boot_memory: bool,
}

impl FlashRegion {
    pub fn flash_info(&self) -> (info: FlashInfo)
        ensures
            info.rom_start == self.range.start,
    {
        FlashInfo { rom_start: self.range.start }
    }
}

/// Sectors of one size, which follow one another from `address` on. The address counts from the
/// start of the flash.
#[derive(Clone, Copy, Debug, PartialEq, Eq, Structural)]
pub struct SectorDescription {
    pub size: u32,
    pub address: u32,
}

/// One sector of the flash.
#[derive(Clone, Copy, Debug, PartialEq, Eq, Structural)]
pub struct SectorInfo {
    pub base_address: u32,
    pub page_size: u32,
    pub size: u32,
}

/// The layout of a flash memory.
#[derive(Debug)]
pub struct FlashProperties {
    pub address_range: AddressRange,
    pub page_size: u32,
    pub sectors: Vec<SectorDescription>,
}

impl FlashProperties {
    /// The sectors with the index `index` are those that `address` lies in: they are the last
    /// to begin at it or before it.
    pub open spec fn sectors_at(&self, index: int, address: u32) -> bool {
        let offset = address - self.address_range.start;
        &&& 0 <= index < self.sectors@.len()
        &&& self.sectors@[index].address <= offset
        &&& forall|i: int|
            index < i < self.sectors@.len() ==> (#[trigger] self.sectors@[i]).address > offset
    }

    /// Whether the sectors that `address` lies in, if it is inside the flash, are not empty.
    pub open spec fn sized_at(&self, address: u32) -> bool {
        self.address_range.has(address) ==> forall|index: int| #[trigger]
            self.sectors_at(index, address) ==> self.sectors@[index].size > 0
    }

    /// The sector of the size of `sectors` that `address` lies in.
    pub open spec fn sector_in(&self, sectors: SectorDescription, address: u32) -> SectorInfo {
        let first = self.address_range.start + sectors.address;
        SectorInfo {
            base_address: (address - (address - first) % (sectors.size as int)) as u32,
            page_size: self.page_size,
            size: sectors.size,
        }
    }
}

/// A flash algorithm: the instructions of its routines, and where everything lies in RAM.
#[derive(Debug)]
pub struct FlashAlgorithm {
    /// Where the instructions are loaded.
    pub load_address: u32,
    pub instructions: Vec<u32>,
    /// The entry points of the routines.
    pub pc_init: Option<u32>,
    pub pc_uninit: Option<u32>,
    pub pc_program_page: u32,
    pub pc_erase_sector: u32,
    pub pc_erase_all: Option<u32>,
    pub static_base: u32,
    pub begin_stack: u32,
    /// Where the data of a page goes.
    pub begin_data: u32,
    /// Where the data of a page goes if there is more than one place for it.
    pub page_buffers: Vec<u32>,
    pub flash_properties: FlashProperties,
}

impl FlashAlgorithm {
    /// What [`FlashAlgorithm::sector_info`] gives for `address`.
    pub open spec fn is_sector_info(&self, address: u32, info: Option<SectorInfo>) -> bool {
        let properties = self.flash_properties;
        match info {
            Some(info) => {
                &&& properties.address_range.has(address)
                &&& exists|index: int|
                    #[trigger] properties.sectors_at(index, address) && info
                        == properties.sector_in(properties.sectors@[index], address)
            },
            None => properties.address_range.has(address) ==> forall|index: int|
                !(#[trigger] properties.sectors_at(index, address)),
        }
    }

    /// The sector that `address` resides in, if the address is inside the flash and sectors are
    /// described for it.
    pub fn sector_info(&self, address: u32) -> (info: Option<SectorInfo>)
        requires
            self.flash_properties.sized_at(address),
        ensures
            self.is_sector_info(address, info),
            info matches Some(info) ==> info.base_address <= address < info.base_address
                + info.size,
    {
        let properties = &self.flash_properties;
        if !properties.address_range.contains(address) {
            return None;
        }
        let start: u32 = properties.address_range.start;
        let offset: u32 = address - start;
        let mut i: usize = properties.sectors.len();
        while i > 0
            invariant
                properties == self.flash_properties,
                properties.sized_at(address),
                properties.address_range.has(address),
                start == properties.address_range.start,
                offset == address - start,
                i <= properties.sectors@.len(),
                forall|j: int|
                    i <= j < properties.sectors@.len() ==> (
                    #[trigger] properties.sectors@[j]).address > offset,
            decreases i,
        {
            i = i - 1;
            let sectors: SectorDescription = properties.sectors[i];
            if sectors.address <= offset {
                assert(properties.sectors_at(i as int, address));
                let inner: u32 = offset - sectors.address;
                proof {
                    vstd::arithmetic::div_mod::lemma_mod_decreases(
                        inner as nat,
                        sectors.size as nat,
                    );
                }
                let base_address: u32 = address - inner % sectors.size;
                return Some(
                    SectorInfo {
                        base_address,
                        page_size: properties.page_size,
                        size: sectors.size,
                    },
                );
            }
        }
        None
    }
}

} // verus!
