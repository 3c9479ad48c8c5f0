# c64research

A Commodore 64 and its 1541 disk drive, chip by chip, in verified Rust: every
function of the library carries a contract that [Verus](https://github.com/verus-lang/verus)
proves.

| Module | What it is |
|--------|------------|
| `mos6502` | the 6502/6510 CPU and its opcode map, undocumented opcodes included |
| `cia6526`, `via6522` | the two I/O chips: ports, timers, interrupts |
| `vic2` | the VIC-II: raster, text and bitmap modes, sprites and collisions |
| `sid` | the SID: oscillators, envelopes, mix |
| `iec` | the serial bus, wired-OR, and a device that speaks its protocol |
| `c64` | the board: banking, keyboard, joysticks, cartridges, and the machine |
| `gcr`, `d64` | disk encoding; disk images and a drive that serves them |
| `c1541` | the drive as a machine: its RAM test, its mechanism, its board |
| `kernal` | the boot and interrupt routines of the KERNAL, as functions on memory |
| `disasm` | a linear and a tracing disassembler |
| `harness` | a headless machine: boot it, type at it, read its screen |
| `emu` | what a windowed emulator decides: keys, frames, monitor, debugger |

A contract speaks of a mathematical model of the type at hand; what holds of
several functions together stands next to them as `law_*` proof functions.

`app/` holds the programs around the library: the emulator window with sound and
clipboard, the disassembler's command line, and small tools for disks. They read
the ROM images from `roms/` (KERNAL, BASIC and character generator are
Commodore's and not part of this project).
