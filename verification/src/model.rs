//! The mathematical model of the machine: its state as plain sequences and
//! integers, how an opcode is decoded, and what each instruction does to the state.
use vstd::prelude::*;
use crate::machine::{FONTSET, ROM_START_ADDR};

verus! {

/// The whole observable state of the machine (the random generator aside).
#[verifier::ext_equal]
pub struct MachineView {
    /// 4096 bytes of addressable memory.
    pub memory: Seq<u8>,
    /// Registers `V0`..`VF`; `VF` doubles as a flag.
    pub v: Seq<u8>,
    /// The index register `I`.
    pub i: u16,
    /// The program counter.
    pub pc: u16,
    /// The return-address stack, sixteen slots.
    pub stack: Seq<u16>,
    /// Number of occupied stack slots.
    pub sp: u8,
    pub delay_timer: u8,
    pub sound_timer: u8,
    /// 64 x 32 monochrome pixels, row by row.
    pub display: Seq<bool>,
    /// Which of the sixteen keys are held down.
    pub keypad: Seq<bool>,
}

impl MachineView {
    /// The sizes of the state and the bound on the stack pointer.
    pub open spec fn wf(self) -> bool {
        &&& self.memory.len() == 4096
        &&& self.v.len() == 16
        &&& self.stack.len() == 16
        &&& self.display.len() == 2048
        &&& self.keypad.len() == 16
        &&& self.sp <= 16
    }

    pub open spec fn with_pc(self, pc: int) -> MachineView {
        MachineView { pc: pc as u16, ..self }
    }

    pub open spec fn with_v(self, x: int, value: u8) -> MachineView {
        MachineView { v: self.v.update(x, value), ..self }
    }

    pub open spec fn with_memory(self, memory: Seq<u8>) -> MachineView {
        MachineView { memory, ..self }
    }

    pub open spec fn with_registers(self, v: Seq<u8>) -> MachineView {
        MachineView { v, ..self }
    }

    pub open spec fn with_stack(self, stack: Seq<u16>) -> MachineView {
        MachineView { stack, ..self }
    }

    pub open spec fn with_sp(self, sp: u8) -> MachineView {
        MachineView { sp, ..self }
    }

    pub open spec fn with_display(self, display: Seq<bool>) -> MachineView {
        MachineView { display, ..self }
    }

    pub open spec fn with_keypad(self, keypad: Seq<bool>) -> MachineView {
        MachineView { keypad, ..self }
    }

    pub open spec fn with_timers(self, delay_timer: u8, sound_timer: u8) -> MachineView {
        MachineView { delay_timer, sound_timer, ..self }
    }

    /// Advances the program counter past the next instruction when `cond` holds.
    pub open spec fn skip_if(self, cond: bool) -> MachineView {
        if cond { self.with_pc(self.pc + 2) } else { self }
    }
}

/// The state right after construction: the font at address 0, everything else zero,
/// and the program counter at the start of the program area.
pub open spec fn initial_view() -> MachineView {
    MachineView {
        memory: Seq::new(4096, |k: int| if k < 80 { FONTSET@[k] } else { 0u8 }),
        v: Seq::new(16, |k: int| 0u8),
        i: 0,
        pc: ROM_START_ADDR as u16,
        stack: Seq::new(16, |k: int| 0u16),
        sp: 0,
        delay_timer: 0,
        sound_timer: 0,
        display: Seq::new(2048, |k: int| false),
        keypad: Seq::new(16, |k: int| false),
    }
}

/// Room for a program image: memory from the load address to the end.
pub open spec fn rom_capacity() -> int {
    4096 - ROM_START_ADDR
}

/// Memory with `rom` copied to the load address and every other byte kept.
pub open spec fn memory_with_rom(memory: Seq<u8>, rom: Seq<u8>) -> Seq<u8> {
    Seq::new(
        memory.len(),
        |k: int|
            if ROM_START_ADDR <= k < ROM_START_ADDR + rom.len() {
                rom[k - ROM_START_ADDR]
            } else {
                memory[k]
            },
    )
}

// ---------------------------------------------------------------- decoding

/// The highest nibble: the instruction's class.
pub open spec fn op_class(op: u16) -> int {
    op as int / 4096
}

/// The second nibble: the first register operand.
pub open spec fn op_x(op: u16) -> int {
    (op as int / 256) % 16
}

/// The third nibble: the second register operand.
pub open spec fn op_y(op: u16) -> int {
    (op as int / 16) % 16
}

/// The lowest nibble.
pub open spec fn op_n(op: u16) -> int {
    op as int % 16
}

/// The low byte: an 8-bit constant.
pub open spec fn op_kk(op: u16) -> int {
    op as int % 256
}

/// The low twelve bits: an address.
pub open spec fn op_nnn(op: u16) -> int {
    op as int % 4096
}

/// The big-endian 16-bit word at the program counter.
pub open spec fn fetch_spec(s: MachineView) -> u16 {
    (s.memory[s.pc as int] as int * 256 + s.memory[s.pc + 1] as int) as u16
}

// ------------------------------------------------------ single instructions

/// `00E0`: every pixel off.
pub open spec fn spec_00e0(s: MachineView) -> MachineView {
    MachineView { display: Seq::new(2048, |p: int| false), ..s }
}

/// `00EE`: pop the return address.
pub open spec fn spec_00ee(s: MachineView) -> MachineView {
    MachineView { sp: (s.sp - 1) as u8, pc: s.stack[s.sp - 1], ..s }
}

/// `1nnn`: jump.
pub open spec fn spec_1nnn(s: MachineView, nnn: int) -> MachineView {
    s.with_pc(nnn)
}

/// `2nnn`: push the program counter and jump.
pub open spec fn spec_2nnn(s: MachineView, nnn: int) -> MachineView {
    MachineView {
        stack: s.stack.update(s.sp as int, s.pc),
        sp: (s.sp + 1) as u8,
        pc: nnn as u16,
        ..s
    }
}

/// `3xkk`: skip if `Vx == kk`.
pub open spec fn spec_3xkk(s: MachineView, x: int, kk: int) -> MachineView {
    s.skip_if(s.v[x] == kk)
}

/// `4xkk`: skip if `Vx != kk`.
pub open spec fn spec_4xkk(s: MachineView, x: int, kk: int) -> MachineView {
    s.skip_if(s.v[x] != kk)
}

/// `5xy0`: skip if `Vx == Vy`.
pub open spec fn spec_5xy0(s: MachineView, x: int, y: int) -> MachineView {
    s.skip_if(s.v[x] == s.v[y])
}

/// `6xkk`: `Vx = kk`.
pub open spec fn spec_6xkk(s: MachineView, x: int, kk: int) -> MachineView {
    s.with_v(x, kk as u8)
}

/// `7xkk`: `Vx = Vx + kk` modulo 256, `VF` untouched.
pub open spec fn spec_7xkk(s: MachineView, x: int, kk: int) -> MachineView {
    s.with_v(x, ((s.v[x] + kk) % 256) as u8)
}

/// `8xy0`: `Vx = Vy`.
pub open spec fn spec_8xy0(s: MachineView, x: int, y: int) -> MachineView {
    s.with_v(x, s.v[y])
}

/// `8xy1`: `Vx = Vx | Vy`.
pub open spec fn spec_8xy1(s: MachineView, x: int, y: int) -> MachineView {
    s.with_v(x, s.v[x] | s.v[y])
}

/// `8xy2`: `Vx = Vx & Vy`.
pub open spec fn spec_8xy2(s: MachineView, x: int, y: int) -> MachineView {
    s.with_v(x, s.v[x] & s.v[y])
}

/// `8xy3`: `Vx = Vx ^ Vy`.
pub open spec fn spec_8xy3(s: MachineView, x: int, y: int) -> MachineView {
    s.with_v(x, s.v[x] ^ s.v[y])
}

/// `8xy4`: `VF` = carry out of `Vx + Vy`, then `Vx` = the sum modulo 256.
pub open spec fn spec_8xy4(s: MachineView, x: int, y: int) -> MachineView {
    let sum = s.v[x] + s.v[y];
    s.with_v(15, if sum > 255 { 1u8 } else { 0u8 }).with_v(x, (sum % 256) as u8)
}

/// `8xy5`: `VF` = no borrow in `Vx - Vy`, then `Vx` = the difference modulo 256.
pub open spec fn spec_8xy5(s: MachineView, x: int, y: int) -> MachineView {
    let a = s.v[x];
    let b = s.v[y];
    s.with_v(15, if a >= b { 1u8 } else { 0u8 }).with_v(x, ((a - b + 256) % 256) as u8)
}

/// `8xy6`: `Vx` halved, and `VF` = the bit shifted out (which wins when `x` is `F`).
pub open spec fn spec_8xy6(s: MachineView, x: int) -> MachineView {
    s.with_v(x, s.v[x] / 2).with_v(15, s.v[x] % 2)
}

/// `8xy7`: `VF` = no borrow in `Vy - Vx`, then `Vx` = the difference modulo 256.
pub open spec fn spec_8xy7(s: MachineView, x: int, y: int) -> MachineView {
    let a = s.v[y];
    let b = s.v[x];
    s.with_v(15, if a >= b { 1u8 } else { 0u8 }).with_v(x, ((a - b + 256) % 256) as u8)
}

/// `8xyE`: `Vx` doubled modulo 256, and `VF` = the bit shifted out (which wins when `x` is `F`).
pub open spec fn spec_8xye(s: MachineView, x: int) -> MachineView {
    s.with_v(x, ((s.v[x] * 2) % 256) as u8).with_v(15, s.v[x] / 128)
}

/// `9xy0`: skip if `Vx != Vy`.
pub open spec fn spec_9xy0(s: MachineView, x: int, y: int) -> MachineView {
    s.skip_if(s.v[x] != s.v[y])
}

/// `Annn`: `I = nnn`.
pub open spec fn spec_annn(s: MachineView, nnn: int) -> MachineView {
    MachineView { i: nnn as u16, ..s }
}

/// `Bnnn`: jump to `nnn + V0`.
pub open spec fn spec_bnnn(s: MachineView, nnn: int) -> MachineView {
    s.with_pc(nnn + s.v[0])
}

/// `Cxkk`: `Vx` = the low byte of the random draw `r`, masked by `kk`.
pub open spec fn spec_cxkk(s: MachineView, x: int, kk: int, r: u64) -> MachineView {
    s.with_v(x, ((r % 256) as u8) & (kk as u8))
}

/// Bit `col` of a sprite row, counted from the most significant bit.
pub open spec fn sprite_bit(b: u8, col: int) -> bool {
    b & (0x80u8 >> (col as u8)) != 0
}

/// Whether drawing the `n`-row sprite at `I` at position `(Vx, Vy)` flips pixel `p`.
/// The position wraps onto the screen; the sprite itself is clipped at the edges.
pub open spec fn sprite_hit(s: MachineView, x: int, y: int, n: int, p: int) -> bool {
    let sx = s.v[x] % 64;
    let sy = s.v[y] % 32;
    let row = p / 64 - sy;
    let col = p % 64 - sx;
    &&& 0 <= p < 2048
    &&& 0 <= row < n
    &&& 0 <= col < 8
    &&& sprite_bit(s.memory[s.i + row], col)
}

/// Whether the sprite flips a pixel that was on.
pub open spec fn sprite_collides(s: MachineView, x: int, y: int, n: int) -> bool {
    exists|p: int| #[trigger] sprite_hit(s, x, y, n, p) && s.display[p]
}

/// The display after XOR-ing the sprite onto it.
pub open spec fn display_after_draw(s: MachineView, x: int, y: int, n: int) -> Seq<bool> {
    Seq::new(2048, |p: int| s.display[p] != sprite_hit(s, x, y, n, p))
}

/// `Dxyn`: draw, `VF` = whether a lit pixel was turned off.
pub open spec fn spec_dxyn(s: MachineView, x: int, y: int, n: int) -> MachineView {
    MachineView {
        display: display_after_draw(s, x, y, n),
        v: s.v.update(15, if sprite_collides(s, x, y, n) { 1u8 } else { 0u8 }),
        ..s
    }
}

/// `Ex9E`: skip if the key named by `Vx` is down.
pub open spec fn spec_ex9e(s: MachineView, x: int) -> MachineView {
    s.skip_if(s.v[x] < 16 && s.keypad[s.v[x] as int])
}

/// `ExA1`: skip if the key named by `Vx` is up.
pub open spec fn spec_exa1(s: MachineView, x: int) -> MachineView {
    s.skip_if(s.v[x] < 16 && !s.keypad[s.v[x] as int])
}

/// `Fx07`: `Vx` = the delay timer.
pub open spec fn spec_fx07(s: MachineView, x: int) -> MachineView {
    s.with_v(x, s.delay_timer)
}

/// The lowest pressed key at or above `k`, or 16 when there is none.
pub open spec fn first_pressed_from(keypad: Seq<bool>, k: int) -> int
    decreases 16 - k,
{
    if k >= 16 {
        16
    } else if keypad[k] {
        k
    } else {
        first_pressed_from(keypad, k + 1)
    }
}

/// `Fx0A`: `Vx` = the lowest pressed key; with no key down, the instruction repeats.
pub open spec fn spec_fx0a(s: MachineView, x: int) -> MachineView {
    let k = first_pressed_from(s.keypad, 0);
    if k < 16 {
        s.with_v(x, k as u8)
    } else {
        s.with_pc(s.pc - 2)
    }
}

/// `Fx15`: delay timer = `Vx`.
pub open spec fn spec_fx15(s: MachineView, x: int) -> MachineView {
    MachineView { delay_timer: s.v[x], ..s }
}

/// `Fx18`: sound timer = `Vx`.
pub open spec fn spec_fx18(s: MachineView, x: int) -> MachineView {
    MachineView { sound_timer: s.v[x], ..s }
}

/// `Fx1E`: `I = I + Vx` modulo 2^16.
pub open spec fn spec_fx1e(s: MachineView, x: int) -> MachineView {
    MachineView { i: ((s.i + s.v[x]) % 65536) as u16, ..s }
}

/// `Fx29`: `I` = the address of the font sprite for digit `Vx`.
pub open spec fn spec_fx29(s: MachineView, x: int) -> MachineView {
    MachineView { i: (s.v[x] * 5) as u16, ..s }
}

/// `Fx33`: the decimal digits of `Vx` at `I`, `I+1`, `I+2`.
pub open spec fn spec_fx33(s: MachineView, x: int) -> MachineView {
    let value = s.v[x];
    MachineView {
        memory: s.memory
            .update(s.i as int, value / 100)
            .update(s.i + 1, (value / 10) % 10)
            .update(s.i + 2, value % 10),
        ..s
    }
}

/// `Fx55`: store `V0`..=`Vx` at `I`..=`I+x`.
pub open spec fn spec_fx55(s: MachineView, x: int) -> MachineView {
    MachineView {
        memory: Seq::new(
            s.memory.len(),
            |k: int| if s.i <= k <= s.i + x { s.v[k - s.i] } else { s.memory[k] },
        ),
        ..s
    }
}

/// `Fx65`: load `V0`..=`Vx` from `I`..=`I+x`.
pub open spec fn spec_fx65(s: MachineView, x: int) -> MachineView {
    MachineView {
        v: Seq::new(s.v.len(), |k: int| if k <= x { s.memory[s.i + k] } else { s.v[k] }),
        ..s
    }
}

// --------------------------------------------------------- whole instruction

/// What executing `op` does: the program counter first moves past the instruction,
/// then the decoded instruction runs. `r` is the random draw, read only by `Cxkk`.
/// Opcodes that name no instruction only move the program counter.
pub open spec fn execute_spec(s: MachineView, op: u16, r: u64) -> MachineView {
    let t = s.with_pc(s.pc + 2);
    let c = op_class(op);
    let x = op_x(op);
    let y = op_y(op);
    let n = op_n(op);
    let kk = op_kk(op);
    let nnn = op_nnn(op);
    if c == 0x0 {
        if op == 0x00E0 {
            spec_00e0(t)
        } else if op == 0x00EE {
            spec_00ee(t)
        } else {
            t
        }
    } else if c == 0x1 {
        spec_1nnn(t, nnn)
    } else if c == 0x2 {
        spec_2nnn(t, nnn)
    } else if c == 0x3 {
        spec_3xkk(t, x, kk)
    } else if c == 0x4 {
        spec_4xkk(t, x, kk)
    } else if c == 0x5 {
        if n == 0 { spec_5xy0(t, x, y) } else { t }
    } else if c == 0x6 {
        spec_6xkk(t, x, kk)
    } else if c == 0x7 {
        spec_7xkk(t, x, kk)
    } else if c == 0x8 {
        if n == 0x0 {
            spec_8xy0(t, x, y)
        } else if n == 0x1 {
            spec_8xy1(t, x, y)
        } else if n == 0x2 {
            spec_8xy2(t, x, y)
        } else if n == 0x3 {
            spec_8xy3(t, x, y)
        } else if n == 0x4 {
            spec_8xy4(t, x, y)
        } else if n == 0x5 {
            spec_8xy5(t, x, y)
        } else if n == 0x6 {
            spec_8xy6(t, x)
        } else if n == 0x7 {
            spec_8xy7(t, x, y)
        } else if n == 0xE {
            spec_8xye(t, x)
        } else {
            t
        }
    } else if c == 0x9 {
        if n == 0 { spec_9xy0(t, x, y) } else { t }
    } else if c == 0xA {
        spec_annn(t, nnn)
    } else if c == 0xB {
        spec_bnnn(t, nnn)
    } else if c == 0xC {
        spec_cxkk(t, x, kk, r)
    } else if c == 0xD {
        spec_dxyn(t, x, y, n)
    } else if c == 0xE {
        if kk == 0x9E {
            spec_ex9e(t, x)
        } else if kk == 0xA1 {
            spec_exa1(t, x)
        } else {
            t
        }
    } else {
        if kk == 0x07 {
            spec_fx07(t, x)
        } else if kk == 0x0A {
            spec_fx0a(t, x)
        } else if kk == 0x15 {
            spec_fx15(t, x)
        } else if kk == 0x18 {
            spec_fx18(t, x)
        } else if kk == 0x1E {
            spec_fx1e(t, x)
        } else if kk == 0x29 {
            spec_fx29(t, x)
        } else if kk == 0x33 {
            spec_fx33(t, x)
        } else if kk == 0x55 {
            spec_fx55(t, x)
        } else if kk == 0x65 {
            spec_fx65(t, x)
        } else {
            t
        }
    }
}

/// Whether drawing reads only memory that exists. Each sprite row is read before
/// its screen row is checked, so the first row below the screen is read too.
pub open spec fn draw_in_bounds(s: MachineView, y: int, n: int) -> bool {
    let last_row = if n - 1 < 32 - s.v[y] % 32 { n - 1 } else { 32 - s.v[y] % 32 };
    n == 0 || s.i + last_row < 4096
}

/// The states on which executing `op` runs to completion: no counter overflows,
/// the stack neither underflows nor overflows, and every memory access is in bounds.
pub open spec fn execute_ok(s: MachineView, op: u16) -> bool {
    let t = s.with_pc(s.pc + 2);
    let c = op_class(op);
    let x = op_x(op);
    let y = op_y(op);
    let n = op_n(op);
    let kk = op_kk(op);
    &&& s.pc + 2 <= 0xFFFF
    &&& (op == 0x00EE ==> 0 < s.sp)
    &&& (c == 0x2 ==> s.sp < 16)
    &&& (c == 0x3 && t.v[x] == kk ==> t.pc + 2 <= 0xFFFF)
    &&& (c == 0x4 && t.v[x] != kk ==> t.pc + 2 <= 0xFFFF)
    &&& (c == 0x5 && n == 0 && t.v[x] == t.v[y] ==> t.pc + 2 <= 0xFFFF)
    &&& (c == 0x9 && n == 0 && t.v[x] != t.v[y] ==> t.pc + 2 <= 0xFFFF)
    &&& (c == 0xD ==> draw_in_bounds(t, y, n))
    &&& (c == 0xE && kk == 0x9E && t.v[x] < 16 && t.keypad[t.v[x] as int]
        ==> t.pc + 2 <= 0xFFFF)
    &&& (c == 0xE && kk == 0xA1 && t.v[x] < 16 && !t.keypad[t.v[x] as int]
        ==> t.pc + 2 <= 0xFFFF)
    &&& (c == 0xF && kk == 0x33 ==> t.i + 2 < 4096)
    &&& (c == 0xF && (kk == 0x55 || kk == 0x65) ==> t.i + x < 4096)
}

/// Whether `op` reads the random generator.
pub open spec fn uses_random(op: u16) -> bool {
    op_class(op) == 0xC
}

/// The states on which one fetch-execute cycle runs to completion.
pub open spec fn cycle_ok(s: MachineView) -> bool {
    &&& s.pc + 1 < 4096
    &&& execute_ok(s, fetch_spec(s))
}

/// One fetch-execute cycle, `r` being the random draw.
pub open spec fn cycle_spec(s: MachineView, r: u64) -> MachineView {
    execute_spec(s, fetch_spec(s), r)
}

/// A timer after one tick: down by one, stopping at zero.
pub open spec fn timer_tick(t: u8) -> u8 {
    if t > 0 { (t - 1) as u8 } else { 0 }
}

/// The keypad after key `key` goes down; keys outside `0..16` are ignored.
pub open spec fn keypad_press(keypad: Seq<bool>, key: int) -> Seq<bool> {
    if 0 <= key < 16 { keypad.update(key, true) } else { keypad }
}

/// The keypad after key `key` goes up; keys outside `0..16` are ignored.
pub open spec fn keypad_release(keypad: Seq<bool>, key: int) -> Seq<bool> {
    if 0 <= key < 16 { keypad.update(key, false) } else { keypad }
}

} // verus!
