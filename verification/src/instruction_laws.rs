//! What each instruction does, stated directly over its operands and the state before
//! and after, one law per instruction: the pixels a draw flips, the value a register
//! operation computes, when a skip skips, which register a timer or index operation reads.
use vstd::prelude::*;
use vstd::arithmetic::div_mod::lemma_fundamental_div_mod_converse;
use crate::model::{
    MachineView, execute_spec, execute_ok, op_class, op_x, op_y, op_n, op_kk, op_nnn, sprite_hit,
    sprite_collides, fetch_spec, memory_with_rom, keypad_press, keypad_release, first_pressed_from,
    initial_view,
};
use crate::machine::{FONTSET, ROM_START_ADDR};

verus! {

/// The opcode with the four nibbles `c`, `x`, `y`, `n`, most significant first.
pub open spec fn opcode(c: int, x: int, y: int, n: int) -> u16 {
    (c * 4096 + x * 256 + y * 16 + n) as u16
}

/// Bit `k` of `b`, counted from the least significant bit.
pub open spec fn bit(b: u8, k: int) -> bool {
    (b >> (k as u8)) & 1u8 == 1u8
}

/// Decoding an opcode assembled from four nibbles gives the nibbles back.
pub proof fn lemma_opcode_fields(c: int, x: int, y: int, n: int)
    requires
        0 <= c < 16,
        0 <= x < 16,
        0 <= y < 16,
        0 <= n < 16,
    ensures
        op_class(opcode(c, x, y, n)) == c,
        op_x(opcode(c, x, y, n)) == x,
        op_y(opcode(c, x, y, n)) == y,
        op_n(opcode(c, x, y, n)) == n,
        op_kk(opcode(c, x, y, n)) == y * 16 + n,
        op_nnn(opcode(c, x, y, n)) == x * 256 + y * 16 + n,
{
    let v = c * 4096 + x * 256 + y * 16 + n;
    assert(opcode(c, x, y, n) as int == v);
    lemma_fundamental_div_mod_converse(v, 4096, c, x * 256 + y * 16 + n);
    lemma_fundamental_div_mod_converse(v, 256, c * 16 + x, y * 16 + n);
    lemma_fundamental_div_mod_converse(c * 16 + x, 16, c, x);
    lemma_fundamental_div_mod_converse(v, 16, c * 256 + x * 16 + y, n);
    lemma_fundamental_div_mod_converse(c * 256 + x * 16 + y, 16, c * 16 + x, y);
}

/// The screen index of the pixel at column `cx`, row `cy`.
proof fn lemma_pixel_index(cy: int, cx: int)
    requires
        0 <= cy < 32,
        0 <= cx < 64,
    ensures
        0 <= cy * 64 + cx < 2048,
        (cy * 64 + cx) / 64 == cy,
        (cy * 64 + cx) % 64 == cx,
{
    lemma_fundamental_div_mod_converse(cy * 64 + cx, 64, cy, cx);
}

/// `Dxyn` flips the pixel at column `Vx % 64 + col`, row `Vy % 32 + row` exactly when bit
/// `7 - col` of sprite byte `row` (the byte at `I + row`) is set, for every one of the
/// eight columns and every row of the sprite that lies on the screen.
pub proof fn law_draw_flips_sprite_bits(
    s: MachineView,
    x: int,
    y: int,
    n: int,
    r: u64,
    row: int,
    col: int,
)
    requires
        s.wf(),
        0 <= x < 16,
        0 <= y < 16,
        0 <= n < 16,
        0 <= row < n,
        0 <= col < 8,
        s.v[y] % 32 + row < 32,
        s.v[x] % 64 + col < 64,
    ensures
        ({
            let p = (s.v[y] % 32 + row) * 64 + s.v[x] % 64 + col;
            execute_spec(s, opcode(0xD, x, y, n), r).display[p] == (s.display[p] != bit(
                s.memory[s.i + row],
                7 - col,
            ))
        }),
{
    lemma_opcode_fields(0xD, x, y, n);
    let t = s.with_pc(s.pc + 2);
    let cy = s.v[y] % 32 + row;
    let cx = s.v[x] % 64 + col;
    lemma_pixel_index(cy, cx);
    let p = cy * 64 + cx;
    let b = s.memory[s.i + row];
    let c = col as u8;
    assert((b & (0x80u8 >> c) != 0) == ((b >> ((7 - c) as u8)) & 1u8 == 1u8)) by (bit_vector)
        requires
            c < 8,
    ;
    assert(sprite_hit(t, x, y, n, p) == bit(b, 7 - col));
}

/// `Dxyn` leaves every pixel outside the sprite's `8 x n` box at `(Vx % 64, Vy % 32)` as
/// it was.
pub proof fn law_draw_leaves_other_pixels(s: MachineView, x: int, y: int, n: int, r: u64, p: int)
    requires
        s.wf(),
        0 <= x < 16,
        0 <= y < 16,
        0 <= n < 16,
        0 <= p < 2048,
        !(s.v[y] % 32 <= p / 64 < s.v[y] % 32 + n && s.v[x] % 64 <= p % 64 < s.v[x] % 64 + 8),
    ensures
        execute_spec(s, opcode(0xD, x, y, n), r).display[p] == s.display[p],
{
    lemma_opcode_fields(0xD, x, y, n);
    let t = s.with_pc(s.pc + 2);
    assert(!sprite_hit(t, x, y, n, p));
}

/// `Dxyn` sets `VF` to 1 when it turns some lit pixel off, and to 0 otherwise.
pub proof fn law_draw_flag_reports_erasure(s: MachineView, x: int, y: int, n: int, r: u64)
    requires
        s.wf(),
        0 <= x < 16,
        0 <= y < 16,
        0 <= n < 16,
    ensures
        ({
            let t = execute_spec(s, opcode(0xD, x, y, n), r);
            &&& t.v[15] <= 1
            &&& (t.v[15] == 1) == exists|p: int|
                0 <= p < 2048 && s.display[p] && !#[trigger] t.display[p]
        }),
{
    lemma_opcode_fields(0xD, x, y, n);
    let t0 = s.with_pc(s.pc + 2);
    let t = execute_spec(s, opcode(0xD, x, y, n), r);
    if sprite_collides(t0, x, y, n) {
        let p = choose|p: int| #[trigger] sprite_hit(t0, x, y, n, p) && t0.display[p];
        assert(0 <= p < 2048 && s.display[p] && !t.display[p]);
    }
    if exists|p: int| 0 <= p < 2048 && s.display[p] && !#[trigger] t.display[p] {
        let p = choose|p: int| 0 <= p < 2048 && s.display[p] && !#[trigger] t.display[p];
        assert(sprite_hit(t0, x, y, n, p) && t0.display[p]);
    }
}

/// The registers other than `Vx` and `VF` are untouched.
pub open spec fn others_kept(before: MachineView, after: MachineView, x: int) -> bool {
    forall|k: int| 0 <= k < 16 && k != x && k != 15 ==> #[trigger] after.v[k] == before.v[k]
}

/// Whether only registers changed, besides the program counter moving past the instruction.
pub open spec fn only_registers_changed(before: MachineView, after: MachineView) -> bool {
    after == before.with_pc(before.pc + 2).with_registers(after.v)
}

/// `6xkk` puts `kk` in `Vx`; `7xkk` adds `kk` to `Vx` modulo 256. Nothing else changes.
pub proof fn law_load_and_add_constant(s: MachineView, x: int, kk: int, r: u64)
    requires
        s.wf(),
        0 <= x < 16,
        0 <= kk < 256,
    ensures
        ({
            let load = execute_spec(s, opcode(0x6, x, kk / 16, kk % 16), r);
            let add = execute_spec(s, opcode(0x7, x, kk / 16, kk % 16), r);
            &&& load.v[x] == kk
            &&& add.v[x] == (s.v[x] + kk) % 256
            &&& x != 15 ==> load.v[15] == s.v[15]
            &&& x != 15 ==> add.v[15] == s.v[15]
            &&& others_kept(s, load, x)
            &&& others_kept(s, add, x)
            &&& only_registers_changed(s, load)
            &&& only_registers_changed(s, add)
        }),
{
    lemma_opcode_fields(0x6, x, kk / 16, kk % 16);
    lemma_opcode_fields(0x7, x, kk / 16, kk % 16);
}

/// `8xy0` copies `Vy` into `Vx`; `8xy1`, `8xy2`, `8xy3` set each bit of `Vx` to the OR,
/// the AND, the XOR of that bit in the old `Vx` and in `Vy`. Nothing else changes.
pub proof fn law_copy_and_bitwise(s: MachineView, x: int, y: int, r: u64)
    requires
        s.wf(),
        0 <= x < 16,
        0 <= y < 16,
    ensures
        ({
            let copy = execute_spec(s, opcode(0x8, x, y, 0x0), r);
            let or = execute_spec(s, opcode(0x8, x, y, 0x1), r);
            let and = execute_spec(s, opcode(0x8, x, y, 0x2), r);
            let xor = execute_spec(s, opcode(0x8, x, y, 0x3), r);
            &&& copy.v[x] == s.v[y]
            &&& forall|k: int|
                0 <= k < 8 ==> #[trigger] bit(or.v[x], k) == (bit(s.v[x], k) || bit(s.v[y], k))
            &&& forall|k: int|
                0 <= k < 8 ==> #[trigger] bit(and.v[x], k) == (bit(s.v[x], k) && bit(s.v[y], k))
            &&& forall|k: int|
                0 <= k < 8 ==> #[trigger] bit(xor.v[x], k) == (bit(s.v[x], k) != bit(s.v[y], k))
            &&& others_kept(s, copy, x)
            &&& x != 15 ==> copy.v[15] == s.v[15]
            &&& others_kept(s, or, x)
            &&& x != 15 ==> or.v[15] == s.v[15]
            &&& others_kept(s, and, x)
            &&& x != 15 ==> and.v[15] == s.v[15]
            &&& others_kept(s, xor, x)
            &&& x != 15 ==> xor.v[15] == s.v[15]
            &&& only_registers_changed(s, copy)
            &&& only_registers_changed(s, or)
            &&& only_registers_changed(s, and)
            &&& only_registers_changed(s, xor)
        }),
{
    lemma_opcode_fields(0x8, x, y, 0x0);
    lemma_opcode_fields(0x8, x, y, 0x1);
    lemma_opcode_fields(0x8, x, y, 0x2);
    lemma_opcode_fields(0x8, x, y, 0x3);
    let a = s.v[x];
    let b = s.v[y];
    assert forall|k: int| 0 <= k < 8 implies #[trigger] bit(a | b, k) == (bit(a, k) || bit(b, k)) by {
        let kb = k as u8;
        assert(((a | b) >> kb) & 1u8 == 1u8 <==> ((a >> kb) & 1u8 == 1u8 || (b >> kb) & 1u8 == 1u8))
            by (bit_vector);
    }
    assert forall|k: int| 0 <= k < 8 implies #[trigger] bit(a & b, k) == (bit(a, k) && bit(b, k)) by {
        let kb = k as u8;
        assert(((a & b) >> kb) & 1u8 == 1u8 <==> ((a >> kb) & 1u8 == 1u8 && (b >> kb) & 1u8 == 1u8))
            by (bit_vector);
    }
    assert forall|k: int| 0 <= k < 8 implies #[trigger] bit(a ^ b, k) == (bit(a, k) != bit(b, k)) by {
        let kb = k as u8;
        assert(((a ^ b) >> kb) & 1u8 == 1u8 <==> ((a >> kb) & 1u8 == 1u8) != ((b >> kb) & 1u8 == 1u8))
            by (bit_vector);
    }
}

/// `8xy6` halves `Vx` and `8xyE` doubles it modulo 256, `VF` receiving the bit shifted
/// out: for `x` other than `F`, `2 * Vx' + VF' == Vx` and `Vx' + 256 * VF' == 2 * Vx`;
/// for `x = F`, `VF` ends as the bit shifted out of it.
pub proof fn law_shifts(s: MachineView, x: int, y: int, r: u64)
    requires
        s.wf(),
        0 <= x < 16,
        0 <= y < 16,
    ensures
        ({
            let right = execute_spec(s, opcode(0x8, x, y, 0x6), r);
            let left = execute_spec(s, opcode(0x8, x, y, 0xE), r);
            &&& right.v[15] <= 1
            &&& left.v[15] <= 1
            &&& x != 15 ==> 2 * right.v[x] + right.v[15] == s.v[x]
            &&& x != 15 ==> left.v[x] + 256 * left.v[15] == 2 * s.v[x]
            &&& x == 15 ==> right.v[15] == s.v[15] % 2
            &&& x == 15 ==> left.v[15] == s.v[15] / 128
            &&& others_kept(s, right, x)
            &&& others_kept(s, left, x)
            &&& only_registers_changed(s, right)
            &&& only_registers_changed(s, left)
        }),
{
    lemma_opcode_fields(0x8, x, y, 0x6);
    lemma_opcode_fields(0x8, x, y, 0xE);
}

/// `8xy7` sets `Vx` to `Vy - Vx` with `VF` as NOT borrow: for `x` other than `F`,
/// `Vx' - 256 * (1 - VF') == Vy - Vx`.
pub proof fn law_reverse_subtract(s: MachineView, x: int, y: int, r: u64)
    requires
        s.wf(),
        0 <= x < 15,
        0 <= y < 16,
    ensures
        ({
            let t = execute_spec(s, opcode(0x8, x, y, 0x7), r);
            &&& t.v[15] <= 1
            &&& t.v[x] - 256 * (1 - t.v[15]) == s.v[y] - s.v[x]
            &&& others_kept(s, t, x)
            &&& only_registers_changed(s, t)
        }),
{
    lemma_opcode_fields(0x8, x, y, 0x7);
}

/// The conditional skips move the program counter past the next instruction (4 in all)
/// exactly when their condition holds, and past themselves only (2) otherwise; nothing
/// else changes. `3xkk`: `Vx == kk`; `4xkk`: `Vx != kk`; `5xy0`: `Vx == Vy`;
/// `9xy0`: `Vx != Vy`.
pub proof fn law_register_skips(s: MachineView, x: int, y: int, kk: int, r: u64)
    requires
        s.wf(),
        0 <= x < 16,
        0 <= y < 16,
        0 <= kk < 256,
        s.pc + 4 <= 0xFFFF,
    ensures
        execute_spec(s, opcode(0x3, x, kk / 16, kk % 16), r) == s.with_pc(
            s.pc + if s.v[x] == kk { 4int } else { 2int },
        ),
        execute_spec(s, opcode(0x4, x, kk / 16, kk % 16), r) == s.with_pc(
            s.pc + if s.v[x] != kk { 4int } else { 2int },
        ),
        execute_spec(s, opcode(0x5, x, y, 0), r) == s.with_pc(
            s.pc + if s.v[x] == s.v[y] { 4int } else { 2int },
        ),
        execute_spec(s, opcode(0x9, x, y, 0), r) == s.with_pc(
            s.pc + if s.v[x] != s.v[y] { 4int } else { 2int },
        ),
{
    lemma_opcode_fields(0x3, x, kk / 16, kk % 16);
    lemma_opcode_fields(0x4, x, kk / 16, kk % 16);
    lemma_opcode_fields(0x5, x, y, 0);
    lemma_opcode_fields(0x9, x, y, 0);
}

/// `Ex9E` skips exactly when `Vx` names a key that is down, `ExA1` exactly when it names
/// a key that is up; a value of 16 or more names no key and never skips.
pub proof fn law_key_skips(s: MachineView, x: int, r: u64)
    requires
        s.wf(),
        0 <= x < 16,
        s.pc + 4 <= 0xFFFF,
    ensures
        execute_spec(s, opcode(0xE, x, 0x9, 0xE), r) == s.with_pc(
            s.pc + if s.v[x] < 16 && s.keypad[s.v[x] as int] { 4int } else { 2int },
        ),
        execute_spec(s, opcode(0xE, x, 0xA, 0x1), r) == s.with_pc(
            s.pc + if s.v[x] < 16 && !s.keypad[s.v[x] as int] { 4int } else { 2int },
        ),
{
    lemma_opcode_fields(0xE, x, 0x9, 0xE);
    lemma_opcode_fields(0xE, x, 0xA, 0x1);
}

/// `Fx15` sets the delay timer, `Fx18` the sound timer, to `Vx`; `Fx07` copies the delay
/// timer into `Vx`. Each changes nothing else.
pub proof fn law_timer_transfers(s: MachineView, x: int, r: u64)
    requires
        s.wf(),
        0 <= x < 16,
    ensures
        execute_spec(s, opcode(0xF, x, 0x1, 0x5), r) == s.with_pc(s.pc + 2).with_timers(
            s.v[x],
            s.sound_timer,
        ),
        execute_spec(s, opcode(0xF, x, 0x1, 0x8), r) == s.with_pc(s.pc + 2).with_timers(
            s.delay_timer,
            s.v[x],
        ),
        execute_spec(s, opcode(0xF, x, 0x0, 0x7), r) == s.with_pc(s.pc + 2).with_registers(
            s.v.update(x, s.delay_timer),
        ),
{
    lemma_opcode_fields(0xF, x, 0x1, 0x5);
    lemma_opcode_fields(0xF, x, 0x1, 0x8);
    lemma_opcode_fields(0xF, x, 0x0, 0x7);
}

/// `Annn` sets `I` to `nnn`; `Fx1E` adds `Vx` to `I` modulo 2^16; `Fx29` sets `I` to
/// `5 * Vx`, the address of the font glyph for the digit in `Vx`. Nothing else changes.
pub proof fn law_index_register(s: MachineView, x: int, nnn: int, r: u64)
    requires
        s.wf(),
        0 <= x < 16,
        0 <= nnn < 4096,
    ensures
        ({
            let set = execute_spec(s, opcode(0xA, nnn / 256, (nnn / 16) % 16, nnn % 16), r);
            let add = execute_spec(s, opcode(0xF, x, 0x1, 0xE), r);
            let font = execute_spec(s, opcode(0xF, x, 0x2, 0x9), r);
            &&& set.i == nnn
            &&& add.i == (s.i + s.v[x]) % 65536
            &&& font.i == 5 * s.v[x]
            &&& set == MachineView { i: set.i, ..s.with_pc(s.pc + 2) }
            &&& add == MachineView { i: add.i, ..s.with_pc(s.pc + 2) }
            &&& font == MachineView { i: font.i, ..s.with_pc(s.pc + 2) }
        }),
{
    lemma_opcode_fields(0xA, nnn / 256, (nnn / 16) % 16, nnn % 16);
    lemma_opcode_fields(0xF, x, 0x1, 0xE);
    lemma_opcode_fields(0xF, x, 0x2, 0x9);
}

/// `1nnn` jumps to `nnn` and `Bnnn` to `nnn + V0`; `00E0` turns every pixel off. Nothing
/// else changes.
pub proof fn law_jumps_and_clear(s: MachineView, nnn: int, r: u64)
    requires
        s.wf(),
        0 <= nnn < 4096,
    ensures
        execute_spec(s, opcode(0x1, nnn / 256, (nnn / 16) % 16, nnn % 16), r) == s.with_pc(nnn),
        execute_spec(s, opcode(0xB, nnn / 256, (nnn / 16) % 16, nnn % 16), r) == s.with_pc(
            nnn + s.v[0],
        ),
        ({
            let t = execute_spec(s, 0x00E0, r);
            &&& forall|p: int| 0 <= p < 2048 ==> !#[trigger] t.display[p]
            &&& t == s.with_pc(s.pc + 2).with_display(t.display)
        }),
{
    lemma_opcode_fields(0x1, nnn / 256, (nnn / 16) % 16, nnn % 16);
    lemma_opcode_fields(0xB, nnn / 256, (nnn / 16) % 16, nnn % 16);
    assert(op_class(0x00E0) == 0);
}

/// `2nnn` saves the address of the next instruction in the first free stack slot, takes
/// that slot, and jumps to `nnn`; `00EE` gives up the last taken slot and jumps to the
/// address it holds. Nothing else changes.
pub proof fn law_call_and_return_each(s: MachineView, nnn: int, r: u64)
    requires
        s.wf(),
        0 <= nnn < 4096,
        s.pc + 2 <= 0xFFFF,
    ensures
        ({
            let call = execute_spec(s, opcode(0x2, nnn / 256, (nnn / 16) % 16, nnn % 16), r);
            s.sp < 16 ==> {
                &&& call.pc == nnn
                &&& call.sp == s.sp + 1
                &&& call.stack[s.sp as int] == s.pc + 2
                &&& forall|k: int| 0 <= k < 16 && k != s.sp ==> #[trigger] call.stack[k] == s.stack[k]
                &&& call == s.with_pc(nnn).with_stack(call.stack).with_sp(call.sp)
            }
        }),
        ({
            let ret = execute_spec(s, 0x00EE, r);
            s.sp > 0 ==> {
                &&& ret.pc == s.stack[s.sp - 1]
                &&& ret.sp == s.sp - 1
                &&& ret == s.with_pc(ret.pc as int).with_sp(ret.sp)
            }
        }),
{
    lemma_opcode_fields(0x2, nnn / 256, (nnn / 16) % 16, nnn % 16);
    assert(op_class(0x00EE) == 0);
}

/// `Cxkk` sets each bit of `Vx` to that bit of the random draw's low byte ANDed with the
/// same bit of `kk`; nothing else changes.
pub proof fn law_random_masked(s: MachineView, x: int, kk: int, r: u64)
    requires
        s.wf(),
        0 <= x < 16,
        0 <= kk < 256,
    ensures
        ({
            let t = execute_spec(s, opcode(0xC, x, kk / 16, kk % 16), r);
            &&& forall|k: int|
                0 <= k < 8 ==> #[trigger] bit(t.v[x], k) == (bit((r % 256) as u8, k) && bit(
                    kk as u8,
                    k,
                ))
            &&& t == s.with_pc(s.pc + 2).with_registers(s.v.update(x, t.v[x]))
        }),
{
    lemma_opcode_fields(0xC, x, kk / 16, kk % 16);
    let b = (r % 256) as u8;
    let m = kk as u8;
    assert forall|k: int| 0 <= k < 8 implies #[trigger] bit(b & m, k) == (bit(b, k) && bit(m, k)) by {
        let kb = k as u8;
        assert(((b & m) >> kb) & 1u8 == 1u8 <==> ((b >> kb) & 1u8 == 1u8 && (m >> kb) & 1u8 == 1u8))
            by (bit_vector);
    }
}

/// `Fx65` loads `Vk` from the byte at `I + k` for every `k <= x`, leaving the higher
/// registers and everything else as they were.
pub proof fn law_load_registers(s: MachineView, x: int, r: u64)
    requires
        s.wf(),
        0 <= x < 16,
        s.i + x < 4096,
    ensures
        ({
            let t = execute_spec(s, opcode(0xF, x, 0x6, 0x5), r);
            &&& forall|k: int| 0 <= k <= x ==> #[trigger] t.v[k] == s.memory[s.i + k]
            &&& forall|k: int| x < k < 16 ==> #[trigger] t.v[k] == s.v[k]
            &&& t == s.with_pc(s.pc + 2).with_registers(t.v)
        }),
{
    lemma_opcode_fields(0xF, x, 0x6, 0x5);
}

/// `Fx0A` with some key down puts the lowest key that is down in `Vx` and moves on.
pub proof fn law_wait_for_key_takes_lowest(s: MachineView, x: int, key: int, r: u64)
    requires
        s.wf(),
        0 <= x < 16,
        0 <= key < 16,
        s.keypad[key],
        forall|j: int| 0 <= j < key ==> !s.keypad[j],
    ensures
        execute_spec(s, opcode(0xF, x, 0x0, 0xA), r) == s.with_pc(s.pc + 2).with_registers(
            s.v.update(x, key as u8),
        ),
{
    lemma_opcode_fields(0xF, x, 0x0, 0xA);
    lemma_first_pressed(s.keypad, key, 0);
}

/// Searching from `k <= key` finds `key` when it is the lowest key down.
proof fn lemma_first_pressed(keypad: Seq<bool>, key: int, k: int)
    requires
        0 <= k <= key < 16,
        keypad[key],
        forall|j: int| 0 <= j < key ==> !keypad[j],
    ensures
        first_pressed_from(keypad, k) == key,
    decreases key - k,
{
    if k < key {
        lemma_first_pressed(keypad, key, k + 1);
    }
}

/// An instruction word is the byte at the program counter followed by the next byte:
/// its high byte is the first, its low byte the second.
pub proof fn law_fetch_is_big_endian(s: MachineView)
    requires
        s.wf(),
        s.pc + 1 < 4096,
    ensures
        fetch_spec(s) / 256 == s.memory[s.pc as int],
        fetch_spec(s) % 256 == s.memory[s.pc + 1],
{
    let v = s.memory[s.pc as int] as int * 256 + s.memory[s.pc + 1] as int;
    lemma_fundamental_div_mod_converse(v, 256, s.memory[s.pc as int] as int, s.memory[s.pc + 1] as int);
}

/// Loading a program image puts its byte `k` at the load address plus `k` and keeps every
/// other byte of memory.
pub proof fn law_rom_placement(memory: Seq<u8>, rom: Seq<u8>)
    requires
        memory.len() == 4096,
        rom.len() <= 4096 - ROM_START_ADDR,
    ensures
        memory_with_rom(memory, rom).len() == 4096,
        forall|k: int|
            0 <= k < rom.len() ==> #[trigger] memory_with_rom(memory, rom)[ROM_START_ADDR + k]
                == rom[k],
        forall|a: int|
            0 <= a < 4096 && !(ROM_START_ADDR <= a < ROM_START_ADDR + rom.len())
                ==> #[trigger] memory_with_rom(memory, rom)[a] == memory[a],
{
}

/// A fresh machine holds the font at addresses `0..80`, zero everywhere else, and starts
/// at the load address with an empty stack, zero registers and timers, a dark screen and
/// no key down.
pub proof fn law_initial_state()
    ensures
        forall|k: int| 0 <= k < 80 ==> #[trigger] initial_view().memory[k] == FONTSET@[k],
        forall|k: int| 80 <= k < 4096 ==> #[trigger] initial_view().memory[k] == 0,
        forall|k: int| 0 <= k < 16 ==> #[trigger] initial_view().v[k] == 0,
        forall|p: int| 0 <= p < 2048 ==> !#[trigger] initial_view().display[p],
        forall|k: int| 0 <= k < 16 ==> !#[trigger] initial_view().keypad[k],
        initial_view().pc == 0x200,
        initial_view().sp == 0,
        initial_view().i == 0,
        initial_view().delay_timer == 0,
        initial_view().sound_timer == 0,
        initial_view().wf(),
{
}

/// Pressing key `key` puts it down and releasing it puts it up, leaving the other keys;
/// a `key` outside `0..16` changes nothing.
pub proof fn law_key_press_and_release(keypad: Seq<bool>, key: int)
    requires
        keypad.len() == 16,
    ensures
        keypad_press(keypad, key).len() == 16,
        keypad_release(keypad, key).len() == 16,
        0 <= key < 16 ==> keypad_press(keypad, key)[key],
        0 <= key < 16 ==> !keypad_release(keypad, key)[key],
        forall|j: int|
            0 <= j < 16 && j != key ==> #[trigger] keypad_press(keypad, key)[j] == keypad[j],
        forall|j: int|
            0 <= j < 16 && j != key ==> #[trigger] keypad_release(keypad, key)[j] == keypad[j],
{
}

} // verus!
