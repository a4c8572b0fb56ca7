# Echo Mini OS

Bare-metal operating system for the FiiO Snowsky Echo Mini DAP (Rockchip
RKNanoD, Cortex-M3), with a desktop simulator of its cassette-style UI.

The logic lives in a library verified with Verus (`src/`):

- `hal/` — drivers that build *register programs* (`HwOp` sequences) for the
  SoC peripherals (CRU, GPIO, I2C, I2S, SPI, DMA), and the `Executor` that
  runs a program one bus access at a time, deciding from each value read
  what to access next (read-modify-write, waits, polls with timeouts, I2C
  abort checks).  The NVIC priority plan and the interrupt handler table.
- `mem/` — the buddy heap allocator (free lists per order, splitting and
  coalescing) and the audio ping-pong DMA buffer.
- `audio/` — the CS43131 dual-DAC command sequences and the DMA-driven
  audio engine.
- `clock/`, `boot/` — the audio PLL presets and the firmware image header
  with its CRC-32.
- `display/`, `ui/`, `input/` — the RGB565 framebuffer, the ST7789V LCD
  programs, the cassette UI (state machine and the shapes of each frame)
  and the debounced buttons.
- `sim/` — the simulator's keyboard mapping, upscaling and bezel.

Each public function states its result exactly in its contract; the
properties that span several calls (a freed block coalesces back, the CPU
never writes the half the DMA reads, a press needs three scans, a
completed I2C read yields exactly the bytes asked for, ...) are proof
functions named `lemma_*` beside the code they are about.

`app/` is the unverified shell: volatile register access, the global
allocator and interrupt plumbing of the firmware, embedded-graphics
rendering, the embedded-hal I2C interface, and the minifb simulator window.

`tests/` exercises the library on concrete values.
