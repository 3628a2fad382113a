//! Properties of the instruction set that span several instructions or hold of
//! every state, proved over the model that the machine's contracts refer to.
use vstd::prelude::*;
use crate::model::{
    MachineView, execute_spec, execute_ok, op_class, op_x, op_y, op_n, op_kk, sprite_hit,
    sprite_collides, keypad_press, keypad_release, first_pressed_from, timer_tick,
};

verus! {

/// A call (`2nnn`) followed by a return (`00EE`) resumes right after the call: the
/// machine ends as it began but for the program counter, which has moved past the call,
/// and the stack slot that held the return address. Both instructions can run.
pub proof fn law_call_then_return(s: MachineView, nnn: u16, r1: u64, r2: u64)
    requires
        s.wf(),
        nnn < 4096,
        s.sp < 16,
        s.pc + 2 <= 0xFFFF,
    ensures
        execute_ok(s, (0x2000 + nnn) as u16),
        execute_ok(execute_spec(s, (0x2000 + nnn) as u16, r1), 0x00EE),
        execute_spec(execute_spec(s, (0x2000 + nnn) as u16, r1), 0x00EE, r2) == s.with_pc(
            s.pc + 2,
        ).with_stack(s.stack.update(s.sp as int, (s.pc + 2) as u16)),
{
    let call = (0x2000 + nnn) as u16;
    assert(op_class(call) == 2);
    assert(op_class(0x00EE) == 0);
}

/// Every instruction that runs keeps the machine's invariant.
#[verifier::rlimit(40)]
pub proof fn law_execute_keeps_wf(s: MachineView, op: u16, r: u64)
    requires
        s.wf(),
        execute_ok(s, op),
    ensures
        execute_spec(s, op, r).wf(),
{
}

/// Drawing the same sprite twice in a row leaves the screen as it was before the first
/// draw, provided neither coordinate register is `VF` (which the first draw overwrites).
/// The second draw can always run when the first could.
pub proof fn law_draw_twice_restores_display(s: MachineView, op: u16, r1: u64, r2: u64)
    requires
        s.wf(),
        op_class(op) == 0xD,
        op_x(op) != 15,
        op_y(op) != 15,
        execute_ok(s, op),
        s.pc + 4 <= 0xFFFF,
    ensures
        execute_ok(execute_spec(s, op, r1), op),
        execute_spec(execute_spec(s, op, r1), op, r2).display == s.display,
{
    let (x, y, n) = (op_x(op), op_y(op), op_n(op));
    let t = s.with_pc(s.pc + 2);
    let s1 = execute_spec(s, op, r1);
    let t1 = s1.with_pc(s1.pc + 2);
    let s2 = execute_spec(s1, op, r2);
    assert(t1.v[x] == t.v[x] && t1.v[y] == t.v[y]);
    assert forall|p: int| sprite_hit(t1, x, y, n, p) == sprite_hit(t, x, y, n, p) by {}
    assert(s2.display =~= s.display);
}

/// Drawing the same sprite a second time (neither coordinate register being `VF`)
/// reports a collision exactly when the first draw lit some pixel.
pub proof fn law_redraw_collides_iff_first_draw_lit(s: MachineView, op: u16, r1: u64, r2: u64)
    requires
        s.wf(),
        op_class(op) == 0xD,
        op_x(op) != 15,
        op_y(op) != 15,
        s.pc + 4 <= 0xFFFF,
    ensures
        ({
            let s1 = execute_spec(s, op, r1);
            let s2 = execute_spec(s1, op, r2);
            s2.v[15] == if exists|p: int| 0 <= p < 2048 && !s.display[p] && #[trigger] s1.display[p] {
                1u8
            } else {
                0u8
            }
        }),
{
    let (x, y, n) = (op_x(op), op_y(op), op_n(op));
    let t = s.with_pc(s.pc + 2);
    let s1 = execute_spec(s, op, r1);
    let t1 = s1.with_pc(s1.pc + 2);
    assert(t1.v[x] == t.v[x] && t1.v[y] == t.v[y]);
    assert forall|p: int| sprite_hit(t1, x, y, n, p) == sprite_hit(t, x, y, n, p) by {}
    if sprite_collides(t1, x, y, n) {
        let p = choose|p: int| #[trigger] sprite_hit(t1, x, y, n, p) && t1.display[p];
        assert(0 <= p < 2048 && !s.display[p] && s1.display[p]);
    }
    if exists|p: int| 0 <= p < 2048 && !s.display[p] && #[trigger] s1.display[p] {
        let p = choose|p: int| 0 <= p < 2048 && !s.display[p] && #[trigger] s1.display[p];
        assert(sprite_hit(t, x, y, n, p));
        assert(sprite_hit(t1, x, y, n, p) && t1.display[p]);
    }
}

/// Drawing onto a blank screen lights exactly the sprite's pixels and reports no
/// collision.
pub proof fn law_draw_on_blank_screen(s: MachineView, op: u16, r: u64)
    requires
        s.wf(),
        op_class(op) == 0xD,
        forall|p: int| 0 <= p < 2048 ==> !s.display[p],
    ensures
        execute_spec(s, op, r).v[15] == 0,
        forall|p: int|
            0 <= p < 2048 ==> execute_spec(s, op, r).display[p] == sprite_hit(
                s.with_pc(s.pc + 2),
                op_x(op),
                op_y(op),
                op_n(op),
                p,
            ),
{
    let t = s.with_pc(s.pc + 2);
    assert(!sprite_collides(t, op_x(op), op_y(op), op_n(op)));
}

/// `Fx55` followed by `Fx65` with the same `I` and `x` gives the registers back
/// unchanged, and the memory holds `V0`..=`Vx` at `I`..=`I+x`.
pub proof fn law_store_then_load_registers(s: MachineView, x: u16, r1: u64, r2: u64)
    requires
        s.wf(),
        x < 16,
        s.i + x < 4096,
        s.pc + 4 <= 0xFFFF,
    ensures
        ({
            let store = (0xF055 + x * 256) as u16;
            let load = (0xF065 + x * 256) as u16;
            let s1 = execute_spec(s, store, r1);
            let s2 = execute_spec(s1, load, r2);
            &&& execute_ok(s, store)
            &&& execute_ok(s1, load)
            &&& s2.v == s.v
            &&& s2.memory == s1.memory
            &&& forall|k: int| 0 <= k <= x ==> s1.memory[s.i + k] == s.v[k]
        }),
{
    let store = (0xF055 + x * 256) as u16;
    let load = (0xF065 + x * 256) as u16;
    assert(op_class(store) == 0xF && op_kk(store) == 0x55 && op_x(store) == x);
    assert(op_class(load) == 0xF && op_kk(load) == 0x65 && op_x(load) == x);
    let s1 = execute_spec(s, store, r1);
    let s2 = execute_spec(s1, load, r2);
    assert(s2.v =~= s.v);
}

/// `Fx33` writes three decimal digits that spell `Vx`, most significant first.
pub proof fn law_bcd_spells_register(s: MachineView, x: u16, r: u64)
    requires
        s.wf(),
        x < 16,
        s.i + 2 < 4096,
        s.pc + 2 <= 0xFFFF,
    ensures
        ({
            let m = execute_spec(s, (0xF033 + x * 256) as u16, r).memory;
            &&& m[s.i as int] < 10
            &&& m[s.i + 1] < 10
            &&& m[s.i + 2] < 10
            &&& 100 * m[s.i as int] + 10 * m[s.i + 1] + m[s.i + 2] == s.v[x as int]
        }),
{
    let op = (0xF033 + x * 256) as u16;
    assert(op_class(op) == 0xF && op_kk(op) == 0x33 && op_x(op) == x);
}

/// `8xy4` adds with carry: `VF * 256 + Vx` is the full sum, for `x` other than `F`.
pub proof fn law_add_with_carry(s: MachineView, x: u16, y: u16, r: u64)
    requires
        s.wf(),
        x < 15,
        y < 16,
    ensures
        ({
            let t = execute_spec(s, (0x8004 + x * 256 + y * 16) as u16, r);
            t.v[15] * 256 + t.v[x as int] == s.v[x as int] + s.v[y as int]
        }),
{
    let op = (0x8004 + x * 256 + y * 16) as u16;
    assert(op_class(op) == 0x8 && op_n(op) == 4 && op_x(op) == x && op_y(op) == y);
}

/// `8xy5` subtracts with borrow: `Vx - 256 * (1 - VF)` is the exact difference, for
/// `x` other than `F`.
pub proof fn law_subtract_with_borrow(s: MachineView, x: u16, y: u16, r: u64)
    requires
        s.wf(),
        x < 15,
        y < 16,
    ensures
        ({
            let t = execute_spec(s, (0x8005 + x * 256 + y * 16) as u16, r);
            &&& t.v[15] <= 1
            &&& t.v[x as int] - 256 * (1 - t.v[15]) == s.v[x as int] - s.v[y as int]
        }),
{
    let op = (0x8005 + x * 256 + y * 16) as u16;
    assert(op_class(op) == 0x8 && op_n(op) == 5 && op_x(op) == x && op_y(op) == y);
}

/// `Cxkk` sets `Vx` to a value whose bits all lie within the mask `kk`, whatever the
/// random draw.
pub proof fn law_random_within_mask(s: MachineView, op: u16, r: u64)
    requires
        s.wf(),
        op_class(op) == 0xC,
    ensures
        execute_spec(s, op, r).v[op_x(op)] & !(op_kk(op) as u8) == 0,
{
    let b = (r % 256) as u8;
    let k = op_kk(op) as u8;
    assert((b & k) & !k == 0) by (bit_vector);
}

/// Setting the delay timer from `Vx` (`Fx15`) and reading it into `Vy` (`Fy07`) copies
/// `Vx` into both, leaving everything else but the program counter as it was.
pub proof fn law_set_then_read_delay_timer(s: MachineView, x: u16, y: u16, r1: u64, r2: u64)
    requires
        s.wf(),
        x < 16,
        y < 16,
        s.pc + 4 <= 0xFFFF,
    ensures
        ({
            let s1 = execute_spec(s, (0xF015 + x * 256) as u16, r1);
            let s2 = execute_spec(s1, (0xF007 + y * 256) as u16, r2);
            &&& execute_ok(s, (0xF015 + x * 256) as u16)
            &&& execute_ok(s1, (0xF007 + y * 256) as u16)
            &&& s2 == MachineView {
                delay_timer: s.v[x as int],
                ..s.with_pc(s.pc + 4).with_v(y as int, s.v[x as int])
            }
        }),
{
    let set = (0xF015 + x * 256) as u16;
    let read = (0xF007 + y * 256) as u16;
    assert(op_class(set) == 0xF && op_kk(set) == 0x15 && op_x(set) == x);
    assert(op_class(read) == 0xF && op_kk(read) == 0x07 && op_x(read) == y);
}

/// With no key down there is no lowest pressed key.
proof fn lemma_no_key_pressed(keypad: Seq<bool>, k: int)
    requires
        0 <= k <= 16,
        forall|j: int| 0 <= j < 16 ==> !keypad[j],
    ensures
        first_pressed_from(keypad, k) == 16,
    decreases 16 - k,
{
    if k < 16 {
        lemma_no_key_pressed(keypad, k + 1);
    }
}

/// `Fx0A` with no key down changes nothing, so it runs again on the next cycle: the
/// machine waits.
pub proof fn law_wait_for_key_blocks(s: MachineView, x: u16, r: u64)
    requires
        s.wf(),
        x < 16,
        s.pc + 2 <= 0xFFFF,
        forall|k: int| 0 <= k < 16 ==> !s.keypad[k],
    ensures
        execute_ok(s, (0xF00A + x * 256) as u16),
        execute_spec(s, (0xF00A + x * 256) as u16, r) == s,
{
    let op = (0xF00A + x * 256) as u16;
    assert(op_class(op) == 0xF && op_kk(op) == 0x0A && op_x(op) == x);
    lemma_no_key_pressed(s.keypad, 0);
}

/// A timer's value after `k` ticks.
pub open spec fn timer_after(t: u8, k: nat) -> u8
    decreases k,
{
    if k == 0 {
        t
    } else {
        timer_tick(timer_after(t, (k - 1) as nat))
    }
}

/// A timer counts down one per tick: after `k` ticks a timer set to `t` reads
/// `t - k`, and from the `t`-th tick on it reads zero and stays there.
pub proof fn law_timer_counts_down(t: u8, k: nat)
    ensures
        k <= t ==> timer_after(t, k) == t - k,
        k >= t ==> timer_after(t, k) == 0,
    decreases k,
{
    if k > 0 {
        law_timer_counts_down(t, (k - 1) as nat);
    }
}

/// Releasing a key that was up before it was pressed restores the keypad.
pub proof fn law_keyup_undoes_keydown(keypad: Seq<bool>, key: int)
    requires
        keypad.len() == 16,
        0 <= key < 16 ==> !keypad[key],
    ensures
        keypad_release(keypad_press(keypad, key), key) == keypad,
{
    if 0 <= key < 16 {
        assert(keypad_release(keypad_press(keypad, key), key) =~= keypad);
    }
}

/// Pressing a key that is already down changes nothing.
pub proof fn law_keydown_is_idempotent(keypad: Seq<bool>, key: int)
    requires
        keypad.len() == 16,
    ensures
        keypad_press(keypad_press(keypad, key), key) == keypad_press(keypad, key),
{
    if 0 <= key < 16 {
        assert(keypad_press(keypad_press(keypad, key), key) =~= keypad_press(keypad, key));
    }
}

} // verus!
