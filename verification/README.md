# rustboy-core

A Game Boy Color emulator core whose behaviour is stated in contracts and proved by Verus.

## Layout

| Path | What is there |
|---|---|
| `src/cpu/` | The SM83: registers, the arithmetic unit, and every instruction, stated over a `Machine` (CPU, bus view, and whether the console has stopped) |
| `src/bus.rs` | The memory map, and the tick that moves every chip on |
| `src/ppu/` | The screen's timing: 456 dots a line, 154 lines a frame |
| `src/timer.rs`, `src/joypad.rs`, `src/serial.rs`, `src/apu.rs` | The other chips |
| `src/cartridge/` | The header, the bank-switching chips, and save RAM |
| `src/emulator.rs` | The whole console, and `run_frame` |
| `src/frontend.rs` | Which picture a host shows: the title screen, then the console |
| `src/keys.rs` | Which key works which button |
| `src/server.rs` | How the local web server decodes a path and types a file |
| `src/splash.rs` | Which pixels of the title screen hold its words |
| `app/` | The desktop window, the browser host, the title screen's fading and the web server |
| `tests/` | Tests on concrete values |

The laws the library keeps are public proof functions beside the code they are about, named
`lemma_...`: for example `lemma_frame_without_cartridge` (a frame is 154 lines of 456 ticks),
`lemma_push_then_pop`, `lemma_interrupt_answered`, `lemma_sample_rate`,
`lemma_daa_fixes_addition` and `lemma_mbc1_ram_round_trip`.
