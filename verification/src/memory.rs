//! Memory: a fixed array of `RAM_SIZE` bytes holding the font sprites and
//! the loaded program. Every access masks its address into the valid
//! range, so reads and writes are total.

use vstd::prelude::*;
use crate::constants::{FONT_RAM_END, MAX_ROM_SIZE, PROGRAM_RAM_START, RAM_SIZE};
use crate::error::{Error, ErrorType};
use crate::model::{font_data, loaded, mask_addr};

verus! {

/// Read the byte at the masked address.
pub fn read_byte(ram: &[u8; RAM_SIZE], addr: u16) -> (r: u8)
    ensures
        r == ram@[mask_addr(addr as int)],
{
    ram[(addr as usize) % RAM_SIZE]
}

/// Write a byte at the masked address.
pub fn write_byte(ram: &mut [u8; RAM_SIZE], addr: usize, byte: u8)
    ensures
        final(ram)@ == old(ram)@.update(mask_addr(addr as int), byte),
{
    ram[addr % RAM_SIZE] = byte;
}

/// Write the sixteen built-in font glyphs to the bottom of memory.
pub fn load_fonts(ram: &mut [u8; RAM_SIZE])
    ensures
        forall|j: int| 0 <= j < FONT_RAM_END ==> final(ram)@[j] == font_data()[j],
        forall|j: int| FONT_RAM_END <= j < RAM_SIZE ==> final(ram)@[j] == old(ram)@[j],
{
    let fonts: [u8; 80] = [
        0xf0, 0x90, 0x90, 0x90, 0xf0, // 0
        0x20, 0x60, 0x20, 0x20, 0x70, // 1
        0xf0, 0x10, 0xf0, 0x80, 0xf0, // 2
        0xf0, 0x10, 0xf0, 0x10, 0xf0, // 3
        0x90, 0x90, 0xf0, 0x10, 0x10, // 4
        0xf0, 0x80, 0xf0, 0x10, 0xf0, // 5
        0xf0, 0x80, 0xf0, 0x90, 0xf0, // 6
        0xf0, 0x10, 0x20, 0x40, 0x40, // 7
        0xf0, 0x90, 0xf0, 0x90, 0xf0, // 8
        0xf0, 0x90, 0xf0, 0x10, 0xf0, // 9
        0xf0, 0x90, 0xf0, 0x90, 0x90, // a
        0xe0, 0x90, 0xe0, 0x90, 0xe0, // b
        0xf0, 0x80, 0x80, 0x80, 0xf0, // c
        0xe0, 0x90, 0x90, 0x90, 0xe0, // d
        0xf0, 0x80, 0xf0, 0x80, 0xf0, // e
        0xf0, 0x80, 0xf0, 0x80, 0x80, // f
    ];
    assert(fonts@ =~= font_data());
    let mut idx: usize = 0;
    while idx < FONT_RAM_END
        invariant
            fonts@ == font_data(),
            idx <= FONT_RAM_END,
            forall|j: int| 0 <= j < idx ==> ram@[j] == font_data()[j],
            forall|j: int| idx <= j < RAM_SIZE ==> ram@[j] == old(ram)@[j],
        decreases FONT_RAM_END - idx,
    {
        ram[idx] = fonts[idx];
        idx = idx + 1;
    }
}

/// Place a program image into the program region, rejecting one that does
/// not fit there.
pub fn load_rom(ram: &mut [u8; RAM_SIZE], rom: &Vec<u8>) -> (r: Result<(), Error>)
    ensures
        rom@.len() <= MAX_ROM_SIZE ==> r is Ok && final(ram)@ == loaded(old(ram)@, rom@),
        rom@.len() > MAX_ROM_SIZE ==> {
            &&& r matches Err(e) && e.error == ErrorType::OversizedRom
            &&& final(ram)@ == old(ram)@
        },
{
    if rom.len() > MAX_ROM_SIZE {
        return Err(Error::new(ErrorType::OversizedRom));
    }
    let mut idx: usize = 0;
    while idx < rom.len()
        invariant
            idx <= rom@.len() <= MAX_ROM_SIZE,
            forall|j: int| PROGRAM_RAM_START <= j < PROGRAM_RAM_START + idx
                ==> ram@[j] == rom@[j - PROGRAM_RAM_START],
            forall|j: int| 0 <= j < PROGRAM_RAM_START ==> ram@[j] == old(ram)@[j],
            forall|j: int| PROGRAM_RAM_START + idx <= j < RAM_SIZE ==> ram@[j] == old(ram)@[j],
        decreases rom@.len() - idx,
    {
        ram[PROGRAM_RAM_START + idx] = rom[idx];
        idx = idx + 1;
    }
    assert(ram@ =~= loaded(old(ram)@, rom@));
    Ok(())
}

} // verus!
