use vstd::prelude::*;
use crate::model::{
    MachineView, initial_view, rom_capacity, memory_with_rom, timer_tick, keypad_press,
    keypad_release, spec_00e0, spec_00ee, spec_1nnn, spec_2nnn, spec_3xkk, spec_4xkk, spec_5xy0,
    spec_6xkk, spec_7xkk, spec_8xy0, spec_8xy1, spec_8xy2, spec_8xy3, spec_8xy4, spec_8xy5, spec_8xy6,
    spec_8xy7, spec_8xye, spec_9xy0, spec_annn, spec_bnnn, spec_cxkk, spec_ex9e, spec_exa1,
    spec_fx07, spec_fx0a, spec_fx15, spec_fx18, spec_fx1e, spec_fx29, spec_fx33, spec_fx55,
    spec_fx65, first_pressed_from, spec_dxyn, sprite_hit, sprite_collides, display_after_draw,
    draw_in_bounds, execute_spec, execute_ok, fetch_spec, cycle_spec, cycle_ok, uses_random, op_class,
    op_x, op_y, op_n, op_kk, op_nnn,
};
use vstd::arithmetic::div_mod::{lemma_fundamental_div_mod, lemma_fundamental_div_mod_converse};
use crate::rng::{new_generator, next_random_u64};

verus! {

/// Address at which a program image is loaded.
pub const ROM_START_ADDR: usize = 0x200;

/// The built-in hexadecimal digit sprites, five bytes per digit `0`..`F`.
pub const FONTSET: [u8; 80] = [
    0xF0, 0x90, 0x90, 0x90, 0xF0, // 0
    0x20, 0x60, 0x20, 0x20, 0x70, // 1
    0xF0, 0x10, 0xF0, 0x80, 0xF0, // 2
    0xF0, 0x10, 0xF0, 0x10, 0xF0, // 3
    0x90, 0x90, 0xF0, 0x10, 0x10, // 4
    0xF0, 0x80, 0xF0, 0x10, 0xF0, // 5
    0xF0, 0x80, 0xF0, 0x90, 0xF0, // 6
    0xF0, 0x10, 0x20, 0x40, 0x40, // 7
    0xF0, 0x90, 0xF0, 0x90, 0xF0, // 8
    0xF0, 0x90, 0xF0, 0x10, 0xF0, // 9
    0xF0, 0x90, 0xF0, 0x90, 0x90, // A
    0xE0, 0x90, 0xE0, 0x90, 0xE0, // B
    0xF0, 0x80, 0x80, 0x80, 0xF0, // C
    0xE0, 0x90, 0x90, 0x90, 0xE0, // D
    0xF0, 0x80, 0xF0, 0x80, 0xF0, // E
    0xF0, 0x80, 0xF0, 0x80, 0x80, // F
];

/// Bytes of addressable memory.
pub const MEMORY_SIZE: usize = 4096;

/// Pixels on the 64 x 32 screen.
pub const DISPLAY_SIZE: usize = 2048;

/// Why a program image was refused.
#[derive(Debug, Clone, Copy, PartialEq, Eq, Structural)]
pub enum RomError {
    /// The image holds no byte.
    Empty,
    /// The image is longer than the memory from the load address to the end.
    TooLarge { size: usize, max: usize },
}

/// A CHIP-8 machine: memory, registers, stack, timers, screen, keypad and the
/// random generator that `Cxkk` draws from.
pub struct Machine {
    memory: [u8; MEMORY_SIZE],
    v: [u8; 16],
    i: u16,
    pc: u16,
    stack: [u16; 16],
    sp: u8,
    delay_timer: u8,
    sound_timer: u8,
    /// 64 x 32 pixels, row by row: pixel `(x, y)` is at `y * 64 + x`.
    pub display: [bool; DISPLAY_SIZE],
    keypad: [bool; 16],
    rand: tinyrand::Wyrand,
}

/// The pixels among those the sprite flips that come before sprite cell `(row, col)`,
/// rows first: what drawing has covered once it reaches that cell.
spec fn drawn_before(s: MachineView, x: int, y: int, n: int, row: int, col: int, p: int) -> bool {
    let r = p / 64 - s.v[y] % 32;
    let c = p % 64 - s.v[x] % 64;
    &&& sprite_hit(s, x, y, n, p)
    &&& (r < row || (r == row && c < col))
}

/// The display once drawing has covered the cells before `(row, col)`.
spec fn display_drawn_before(s: MachineView, x: int, y: int, n: int, row: int, col: int) -> Seq<bool> {
    Seq::new(2048, |p: int| s.display[p] != drawn_before(s, x, y, n, row, col, p))
}

/// Whether a lit pixel has been turned off among the cells before `(row, col)`.
spec fn collided_before(s: MachineView, x: int, y: int, n: int, row: int, col: int) -> bool {
    exists|p: int| #[trigger] drawn_before(s, x, y, n, row, col, p) && s.display[p]
}

/// Covering the same pixels means having met the same collisions.
proof fn lemma_collided_same(
    s: MachineView,
    x: int,
    y: int,
    n: int,
    r1: int,
    c1: int,
    r2: int,
    c2: int,
)
    requires
        forall|p: int| drawn_before(s, x, y, n, r1, c1, p) == drawn_before(s, x, y, n, r2, c2, p),
    ensures
        collided_before(s, x, y, n, r1, c1) == collided_before(s, x, y, n, r2, c2),
{
    if collided_before(s, x, y, n, r1, c1) {
        let p = choose|p: int| #[trigger] drawn_before(s, x, y, n, r1, c1, p) && s.display[p];
        assert(drawn_before(s, x, y, n, r2, c2, p));
    }
    if collided_before(s, x, y, n, r2, c2) {
        let p = choose|p: int| #[trigger] drawn_before(s, x, y, n, r2, c2, p) && s.display[p];
        assert(drawn_before(s, x, y, n, r1, c1, p));
    }
}

/// Covering one more pixel that was dark meets no new collision.
proof fn lemma_collided_step(
    s: MachineView,
    x: int,
    y: int,
    n: int,
    row: int,
    col: int,
    pixel: int,
    hit: bool,
)
    requires
        forall|p: int|
            drawn_before(s, x, y, n, row, col + 1, p) == (drawn_before(s, x, y, n, row, col, p) || (
            p == pixel && hit)),
        !(hit && s.display[pixel]),
    ensures
        collided_before(s, x, y, n, row, col + 1) == collided_before(s, x, y, n, row, col),
{
    if collided_before(s, x, y, n, row, col + 1) {
        let p = choose|p: int| #[trigger] drawn_before(s, x, y, n, row, col + 1, p) && s.display[p];
        assert(drawn_before(s, x, y, n, row, col, p));
    }
    if collided_before(s, x, y, n, row, col) {
        let p = choose|p: int| #[trigger] drawn_before(s, x, y, n, row, col, p) && s.display[p];
        assert(drawn_before(s, x, y, n, row, col + 1, p));
    }
}

/// The screen index of the pixel at column `cx`, row `cy`, and back.
proof fn lemma_pixel_index(cy: int, cx: int)
    requires
        0 <= cy < 32,
        0 <= cx < 64,
    ensures
        0 <= cy * 64 + cx < 2048,
        (cy * 64 + cx) / 64 == cy,
        (cy * 64 + cx) % 64 == cx,
{
    lemma_fundamental_div_mod_converse(cy * 64 + cx, 64, cy, cx);
}

/// The bit-level decoding of an opcode agrees with its arithmetic description.
proof fn lemma_decode(op: u16)
    ensures
        (op & 0xF000) >> 12 == op_class(op),
        (op & 0x0F00) >> 8 == op_x(op),
        (op & 0x00F0) >> 4 == op_y(op),
        op & 0x000F == op_n(op),
        op & 0x00FF == op_kk(op),
        op & 0x0FFF == op_nnn(op),
{
    assert((op & 0xF000) >> 12 == op / 4096) by (bit_vector);
    assert((op & 0x0F00) >> 8 == (op / 256) % 16) by (bit_vector);
    assert((op & 0x00F0) >> 4 == (op / 16) % 16) by (bit_vector);
    assert(op & 0x000F == op % 16) by (bit_vector);
    assert(op & 0x00FF == op % 256) by (bit_vector);
    assert(op & 0x0FFF == op % 4096) by (bit_vector);
}

impl View for Machine {
    type V = MachineView;

    closed spec fn view(&self) -> MachineView {
        MachineView {
            memory: self.memory@,
            v: self.v@,
            i: self.i,
            pc: self.pc,
            stack: self.stack@,
            sp: self.sp,
            delay_timer: self.delay_timer,
            sound_timer: self.sound_timer,
            display: self.display@,
            keypad: self.keypad@,
        }
    }
}

impl Default for Machine {
    fn default() -> (m: Self)
        ensures
            m.wf(),
            m@ == initial_view(),
    {
        Machine::new()
    }
}

impl Machine {
    /// The machine's invariant: the stack pointer never passes the sixteen slots.
    pub open spec fn wf(&self) -> bool {
        self@.wf()
    }

    /// The random generator's state, which only `Cxkk` advances.
    pub closed spec fn generator(&self) -> tinyrand::Wyrand {
        self.rand
    }

    /// A machine with the font loaded, all else zero, and the program counter at the
    /// load address.
    pub fn new() -> (m: Machine)
        ensures
            m.wf(),
            m@ == initial_view(),
    {
        let mut machine = Machine {
            memory: [0u8; MEMORY_SIZE],
            v: [0u8; 16],
            i: 0,
            pc: ROM_START_ADDR as u16,
            stack: [0u16; 16],
            sp: 0,
            delay_timer: 0,
            sound_timer: 0,
            display: [false; DISPLAY_SIZE],
            keypad: [false; 16],
            rand: new_generator(),
        };
        machine.load_fontset();
        machine
    }

    /// Copies the font to addresses `0..80`.
    fn load_fontset(&mut self)
        requires
            forall|k: int| 0 <= k < 4096 ==> old(self).memory@[k] == 0,
        ensures
            final(self)@ == old(self)@.with_memory(initial_view().memory),
            final(self).generator() == old(self).generator(),
    {
        let mut k: usize = 0;
        while k < FONTSET.len()
            invariant
                self.generator() == old(self).generator(),
                k <= 80,
                self@ == old(self)@.with_memory(self.memory@),
                forall|j: int| 0 <= j < k ==> self.memory@[j] == FONTSET@[j],
                forall|j: int| k <= j < 4096 ==> self.memory@[j] == 0,
            decreases 80 - k,
        {
            self.memory[k] = FONTSET[k];
            k = k + 1;
        }
        assert(self.memory@ =~= initial_view().memory);
    }

    /// Copies a program image to the load address. An empty image, or one longer than
    /// the memory above the load address, is refused and the machine left as it was.
    pub fn load_rom_bytes(&mut self, bytes: &[u8]) -> (r: Result<(), RomError>)
        requires
            old(self).wf(),
        ensures
            final(self).wf(),
            final(self).generator() == old(self).generator(),
            bytes@.len() == 0 ==> r == Err::<(), RomError>(RomError::Empty),
            bytes@.len() > rom_capacity() ==> r == Err::<(), RomError>(
                (RomError::TooLarge { size: bytes@.len() as usize, max: rom_capacity() as usize }),
            ),
            0 < bytes@.len() <= rom_capacity() ==> r is Ok,
            r is Err ==> final(self)@ == old(self)@,
            r is Ok ==> final(self)@ == old(self)@.with_memory(
                memory_with_rom(old(self)@.memory, bytes@),
            ),
    {
        if bytes.len() == 0 {
            return Err(RomError::Empty);
        }
        let max_allowed_space: usize = MEMORY_SIZE - ROM_START_ADDR;
        if bytes.len() > max_allowed_space {
            return Err(RomError::TooLarge { size: bytes.len(), max: max_allowed_space });
        }
        let mut k: usize = 0;
        while k < bytes.len()
            invariant
                self.generator() == old(self).generator(),
                k <= bytes@.len() <= rom_capacity(),
                self@ == old(self)@.with_memory(self.memory@),
                forall|j: int|
                    0 <= j < 4096 ==> self.memory@[j] == if ROM_START_ADDR <= j < ROM_START_ADDR + k {
                        bytes@[j - ROM_START_ADDR]
                    } else {
                        old(self)@.memory[j]
                    },
            decreases bytes@.len() - k,
        {
            self.memory[ROM_START_ADDR + k] = bytes[k];
            k = k + 1;
        }
        assert(self.memory@ =~= memory_with_rom(old(self)@.memory, bytes@));
        Ok(())
    }

    /// Counts each running timer down by one.
    pub fn update_timers(&mut self)
        requires
            old(self).wf(),
        ensures
            final(self).wf(),
            final(self).generator() == old(self).generator(),
            final(self)@ == old(self)@.with_timers(
                timer_tick(old(self)@.delay_timer),
                timer_tick(old(self)@.sound_timer),
            ),
    {
        if self.delay_timer > 0 {
            self.delay_timer = self.delay_timer - 1;
        }
        if self.sound_timer > 0 {
            self.sound_timer = self.sound_timer - 1;
        }
    }

    /// Marks key `key` as held down; keys outside `0..16` are ignored.
    pub fn keydown(&mut self, key: usize)
        requires
            old(self).wf(),
        ensures
            final(self).wf(),
            final(self).generator() == old(self).generator(),
            final(self)@ == old(self)@.with_keypad(keypad_press(old(self)@.keypad, key as int)),
    {
        if key < 16 {
            self.keypad[key] = true;
        }
    }

    /// Marks key `key` as released; keys outside `0..16` are ignored.
    pub fn keyup(&mut self, key: usize)
        requires
            old(self).wf(),
        ensures
            final(self).wf(),
            final(self).generator() == old(self).generator(),
            final(self)@ == old(self)@.with_keypad(keypad_release(old(self)@.keypad, key as int)),
    {
        if key < 16 {
            self.keypad[key] = false;
        }
    }

    /// Runs one fetch-execute cycle.
    pub fn cycle(&mut self)
        requires
            old(self).wf(),
            cycle_ok(old(self)@),
        ensures
            final(self).wf(),
            !uses_random(fetch_spec(old(self)@)) ==> final(self).generator() == old(self).generator(),
            uses_random(fetch_spec(old(self)@)) ==> final(self).generator() != old(
                self,
            ).generator(),
            exists|r: u64| final(self)@ == #[trigger] cycle_spec(old(self)@, r),
            !uses_random(fetch_spec(old(self)@)) ==> final(self)@ == cycle_spec(old(self)@, 0),
    {
        let ghost s = old(self)@;
        let opcode = self.fetch_opcode();
        self.execute(opcode);
        proof {
            let r = choose|r: u64| self@ == #[trigger] execute_spec(s, opcode, r);
            assert(self@ == cycle_spec(s, r));
        }
    }

    /// Whether `cycle` runs to completion on this machine: the instruction at the program
    /// counter can be fetched and executed without a fault.
    pub fn can_cycle(&self) -> (r: bool)
        ensures
            r == cycle_ok(self@),
    {
        self.pc < 4095 && self.can_execute(self.fetch_opcode())
    }

    /// The big-endian instruction word at the program counter.
    pub fn fetch_opcode(&self) -> (opcode: u16)
        requires
            self@.pc + 1 < 4096,
        ensures
            opcode == fetch_spec(self@),
    {
        let hi = self.memory[self.pc as usize] as u16;
        let lo = self.memory[self.pc as usize + 1] as u16;
        assert((hi << 8) | lo == hi * 256 + lo) by (bit_vector)
            requires
                hi < 256,
                lo < 256,
        ;
        (hi << 8) | lo
    }

    /// Executes one instruction; `Cxkk` draws its random byte from the machine's generator.
    pub fn execute(&mut self, opcode: u16)
        requires
            old(self).wf(),
            execute_ok(old(self)@, opcode),
        ensures
            final(self).wf(),
            !uses_random(opcode) ==> final(self).generator() == old(self).generator(),
            uses_random(opcode) ==> final(self).generator() != old(self).generator(),
            exists|r: u64| final(self)@ == #[trigger] execute_spec(old(self)@, opcode, r),
            !uses_random(opcode) ==> final(self)@ == execute_spec(old(self)@, opcode, 0),
    {
        proof {
            lemma_decode(opcode);
        }
        let random = if (opcode & 0xF000) >> 12 == 0xC {
            next_random_u64(&mut self.rand)
        } else {
            0
        };
        self.execute_with(opcode, random);
    }

    /// Executes one instruction, `random` standing for the generator's draw, which only
    /// `Cxkk` reads.
    #[verifier::rlimit(40)]
    pub fn execute_with(&mut self, opcode: u16, random: u64)
        requires
            old(self).wf(),
            execute_ok(old(self)@, opcode),
        ensures
            final(self).wf(),
            final(self).generator() == old(self).generator(),
            final(self)@ == execute_spec(old(self)@, opcode, random),
    {
        proof {
            lemma_decode(opcode);
        }
        self.pc = self.pc + 2;

        let c = ((opcode & 0xF000) >> 12) as usize;  // instruction class
        let x = ((opcode & 0x0F00) >> 8) as usize;  // first register
        let y = ((opcode & 0x00F0) >> 4) as usize;  // second register
        let d = (opcode & 0x000F) as usize;  // lowest nibble
        let kk = (opcode & 0x00FF) as u8;  // 8-bit constant
        let nnn = opcode & 0x0FFF;  // 12-bit address

        match c {
            0x0 => match opcode {
                0xE0 => self.op_00e0(),
                0xEE => self.op_00ee(),
                _ => {},
            },
            0x1 => self.op_1nnn(nnn),
            0x2 => self.op_2nnn(nnn),
            0x3 => self.op_3xkk(x, kk),
            0x4 => self.op_4xkk(x, kk),
            0x5 if d == 0 => self.op_5xy0(x, y),
            0x6 => self.op_6xkk(x, kk),
            0x7 => self.op_7xkk(x, kk),
            0x8 => match d {
                0x0 => self.op_8xy0(x, y),
                0x1 => self.op_8xy1(x, y),
                0x2 => self.op_8xy2(x, y),
                0x3 => self.op_8xy3(x, y),
                0x4 => self.op_8xy4(x, y),
                0x5 => self.op_8xy5(x, y),
                0x6 => self.op_8xy6(x, y),
                0x7 => self.op_8xy7(x, y),
                0xE => self.op_8xye(x, y),
                _ => {},
            },
            0x9 if d == 0 => self.op_9xy0(x, y),
            0xA => self.op_annn(nnn),
            0xB => self.op_bnnn(nnn),
            0xC => self.op_cxkk(x, kk, random),
            0xD => self.op_dxyn(x, y, d),
            0xE => match kk {
                0x9E => self.op_ex9e(x),
                0xA1 => self.op_exa1(x),
                _ => {},
            },
            0xF => match kk {
                0x07 => self.op_fx07(x),
                0x0A => self.op_fx0a(x),
                0x15 => self.op_fx15(x),
                0x18 => self.op_fx18(x),
                0x1E => self.op_fx1e(x),
                0x29 => self.op_fx29(x),
                0x33 => self.op_fx33(x),
                0x55 => self.op_fx55(x),
                0x65 => self.op_fx65(x),
                _ => {},
            },
            _ => {},
        }
    }

    /// Whether `execute` runs `opcode` to completion on this machine.
    pub fn can_execute(&self, opcode: u16) -> (r: bool)
        ensures
            r == execute_ok(self@, opcode),
    {
        proof {
            lemma_decode(opcode);
        }
        if self.pc > 0xFFFD {
            return false;
        }
        let pc = self.pc + 2;
        let c = ((opcode & 0xF000) >> 12) as usize;
        let x = ((opcode & 0x0F00) >> 8) as usize;
        let y = ((opcode & 0x00F0) >> 4) as usize;
        let d = (opcode & 0x000F) as usize;
        let kk = (opcode & 0x00FF) as u8;
        let skip_fits = pc <= 0xFFFD;
        match c {
            0x0 => opcode != 0xEE || self.sp > 0,
            0x2 => self.sp < 16,
            0x3 => self.v[x] != kk || skip_fits,
            0x4 => self.v[x] == kk || skip_fits,
            0x5 => !(d == 0 && self.v[x] == self.v[y]) || skip_fits,
            0x9 => !(d == 0 && self.v[x] != self.v[y]) || skip_fits,
            0xD => {
                let start_y = self.v[y] as usize % 32;
                if d == 0 {
                    true
                } else {
                    let last_row = if d - 1 < 32 - start_y { d - 1 } else { 32 - start_y };
                    (self.i as usize) + last_row < 4096
                }
            },
            0xE => {
                let key = self.v[x] as usize;
                if kk == 0x9E && key < 16 && self.keypad[key] {
                    skip_fits
                } else if kk == 0xA1 && key < 16 && !self.keypad[key] {
                    skip_fits
                } else {
                    true
                }
            },
            0xF => {
                if kk == 0x33 {
                    (self.i as usize) + 2 < 4096
                } else if kk == 0x55 || kk == 0x65 {
                    (self.i as usize) + x < 4096
                } else {
                    true
                }
            },
            _ => true,
        }
    }

    // ------------------------------------------------------------ instructions

    /// `00E0`: clears the screen.
    fn op_00e0(&mut self)
        requires
            old(self).wf(),
        ensures
            final(self).wf(),
            final(self).generator() == old(self).generator(),
            final(self)@ == spec_00e0(old(self)@),
    {
        self.display = [false; DISPLAY_SIZE];
        assert(self.display@ =~= spec_00e0(old(self)@).display);
    }

    /// `00EE`: returns from a subroutine.
    fn op_00ee(&mut self)
        requires
            old(self).wf(),
            old(self)@.sp > 0,
        ensures
            final(self).wf(),
            final(self).generator() == old(self).generator(),
            final(self)@ == spec_00ee(old(self)@),
    {
        self.sp = self.sp - 1;
        self.pc = self.stack[self.sp as usize];
    }

    /// `1nnn`: jumps to `nnn`.
    fn op_1nnn(&mut self, nnn: u16)
        requires
            old(self).wf(),
        ensures
            final(self).wf(),
            final(self).generator() == old(self).generator(),
            final(self)@ == spec_1nnn(old(self)@, nnn as int),
    {
        self.pc = nnn;
    }

    /// `2nnn`: calls the subroutine at `nnn`.
    fn op_2nnn(&mut self, nnn: u16)
        requires
            old(self).wf(),
            old(self)@.sp < 16,
        ensures
            final(self).wf(),
            final(self).generator() == old(self).generator(),
            final(self)@ == spec_2nnn(old(self)@, nnn as int),
    {
        self.stack[self.sp as usize] = self.pc;
        self.sp = self.sp + 1;
        self.pc = nnn;
    }

    /// `3xkk`: skips the next instruction if `Vx == kk`.
    fn op_3xkk(&mut self, x: usize, kk: u8)
        requires
            old(self).wf(),
            x < 16,
            old(self)@.v[x as int] == kk ==> old(self)@.pc + 2 <= 0xFFFF,
        ensures
            final(self).wf(),
            final(self).generator() == old(self).generator(),
            final(self)@ == spec_3xkk(old(self)@, x as int, kk as int),
    {
        if self.v[x] == kk {
            self.pc = self.pc + 2;
        }
    }

    /// `4xkk`: skips the next instruction if `Vx != kk`.
    fn op_4xkk(&mut self, x: usize, kk: u8)
        requires
            old(self).wf(),
            x < 16,
            old(self)@.v[x as int] != kk ==> old(self)@.pc + 2 <= 0xFFFF,
        ensures
            final(self).wf(),
            final(self).generator() == old(self).generator(),
            final(self)@ == spec_4xkk(old(self)@, x as int, kk as int),
    {
        if self.v[x] != kk {
            self.pc = self.pc + 2;
        }
    }

    /// `5xy0`: skips the next instruction if `Vx == Vy`.
    fn op_5xy0(&mut self, x: usize, y: usize)
        requires
            old(self).wf(),
            x < 16,
            y < 16,
            old(self)@.v[x as int] == old(self)@.v[y as int] ==> old(self)@.pc + 2 <= 0xFFFF,
        ensures
            final(self).wf(),
            final(self).generator() == old(self).generator(),
            final(self)@ == spec_5xy0(old(self)@, x as int, y as int),
    {
        if self.v[x] == self.v[y] {
            self.pc = self.pc + 2;
        }
    }

    /// `6xkk`: `Vx = kk`.
    fn op_6xkk(&mut self, x: usize, kk: u8)
        requires
            old(self).wf(),
            x < 16,
        ensures
            final(self).wf(),
            final(self).generator() == old(self).generator(),
            final(self)@ == spec_6xkk(old(self)@, x as int, kk as int),
    {
        self.v[x] = kk;
    }

    /// `7xkk`: `Vx = Vx + kk`, wrapping, carry flag untouched.
    fn op_7xkk(&mut self, x: usize, kk: u8)
        requires
            old(self).wf(),
            x < 16,
        ensures
            final(self).wf(),
            final(self).generator() == old(self).generator(),
            final(self)@ == spec_7xkk(old(self)@, x as int, kk as int),
    {
        self.v[x] = self.v[x].wrapping_add(kk);
    }

    /// `8xy0`: `Vx = Vy`.
    fn op_8xy0(&mut self, x: usize, y: usize)
        requires
            old(self).wf(),
            x < 16,
            y < 16,
        ensures
            final(self).wf(),
            final(self).generator() == old(self).generator(),
            final(self)@ == spec_8xy0(old(self)@, x as int, y as int),
    {
        self.v[x] = self.v[y];
    }

    /// `8xy1`: `Vx = Vx OR Vy`.
    fn op_8xy1(&mut self, x: usize, y: usize)
        requires
            old(self).wf(),
            x < 16,
            y < 16,
        ensures
            final(self).wf(),
            final(self).generator() == old(self).generator(),
            final(self)@ == spec_8xy1(old(self)@, x as int, y as int),
    {
        self.v[x] = self.v[x] | self.v[y];
    }

    /// `8xy2`: `Vx = Vx AND Vy`.
    fn op_8xy2(&mut self, x: usize, y: usize)
        requires
            old(self).wf(),
            x < 16,
            y < 16,
        ensures
            final(self).wf(),
            final(self).generator() == old(self).generator(),
            final(self)@ == spec_8xy2(old(self)@, x as int, y as int),
    {
        self.v[x] = self.v[x] & self.v[y];
    }

    /// `8xy3`: `Vx = Vx XOR Vy`.
    fn op_8xy3(&mut self, x: usize, y: usize)
        requires
            old(self).wf(),
            x < 16,
            y < 16,
        ensures
            final(self).wf(),
            final(self).generator() == old(self).generator(),
            final(self)@ == spec_8xy3(old(self)@, x as int, y as int),
    {
        self.v[x] = self.v[x] ^ self.v[y];
    }

    /// `8xy4`: `Vx = Vx + Vy` with `VF` as the carry.
    fn op_8xy4(&mut self, x: usize, y: usize)
        requires
            old(self).wf(),
            x < 16,
            y < 16,
        ensures
            final(self).wf(),
            final(self).generator() == old(self).generator(),
            final(self)@ == spec_8xy4(old(self)@, x as int, y as int),
    {
        let wide: u16 = self.v[x] as u16 + self.v[y] as u16;
        let carry = wide > 0xFF;
        let sum = (wide % 256) as u8;
        self.v[0xF] = if carry { 1 } else { 0 };
        self.v[x] = sum;
    }

    /// `8xy5`: `Vx = Vx - Vy` with `VF` as NOT borrow.
    fn op_8xy5(&mut self, x: usize, y: usize)
        requires
            old(self).wf(),
            x < 16,
            y < 16,
        ensures
            final(self).wf(),
            final(self).generator() == old(self).generator(),
            final(self)@ == spec_8xy5(old(self)@, x as int, y as int),
    {
        let borrow = self.v[x] < self.v[y];
        let diff = self.v[x].wrapping_sub(self.v[y]);
        self.v[0xF] = if borrow { 0 } else { 1 };
        self.v[x] = diff;
    }

    /// `8xy6`: `Vx = Vx SHR 1` with `VF` as the bit shifted out (for `x = F`, `VF` ends
    /// as that bit).
    fn op_8xy6(&mut self, x: usize, _y: usize)
        requires
            old(self).wf(),
            x < 16,
        ensures
            final(self).wf(),
            final(self).generator() == old(self).generator(),
            final(self)@ == spec_8xy6(old(self)@, x as int),
    {
        let value = self.v[x];
        let low = value & 0x01;
        let shifted = value >> 1;
        assert(low == value % 2 && shifted == value / 2) by (bit_vector)
            requires
                low == value & 0x01,
                shifted == value >> 1,
        ;
        self.v[x] = shifted;
        self.v[0xF] = low;
    }

    /// `8xy7`: `Vx = Vy - Vx` with `VF` as NOT borrow.
    fn op_8xy7(&mut self, x: usize, y: usize)
        requires
            old(self).wf(),
            x < 16,
            y < 16,
        ensures
            final(self).wf(),
            final(self).generator() == old(self).generator(),
            final(self)@ == spec_8xy7(old(self)@, x as int, y as int),
    {
        let borrow = self.v[y] < self.v[x];
        let result = self.v[y].wrapping_sub(self.v[x]);
        self.v[0xF] = if borrow { 0 } else { 1 };
        self.v[x] = result;
    }

    /// `8xyE`: `Vx = Vx SHL 1` with `VF` as the bit shifted out (for `x = F`, `VF` ends
    /// as that bit).
    fn op_8xye(&mut self, x: usize, _y: usize)
        requires
            old(self).wf(),
            x < 16,
        ensures
            final(self).wf(),
            final(self).generator() == old(self).generator(),
            final(self)@ == spec_8xye(old(self)@, x as int),
    {
        let value = self.v[x];
        let high = (value & 0x80) >> 7;
        let shifted = value << 1;
        assert(high == value / 128 && shifted == (value * 2) % 256) by (bit_vector)
            requires
                high == (value & 0x80) >> 7,
                shifted == value << 1,
        ;
        self.v[x] = shifted;
        self.v[0xF] = high;
    }

    /// `9xy0`: skips the next instruction if `Vx != Vy`.
    fn op_9xy0(&mut self, x: usize, y: usize)
        requires
            old(self).wf(),
            x < 16,
            y < 16,
            old(self)@.v[x as int] != old(self)@.v[y as int] ==> old(self)@.pc + 2 <= 0xFFFF,
        ensures
            final(self).wf(),
            final(self).generator() == old(self).generator(),
            final(self)@ == spec_9xy0(old(self)@, x as int, y as int),
    {
        if self.v[x] != self.v[y] {
            self.pc = self.pc + 2;
        }
    }

    /// `Annn`: `I = nnn`.
    fn op_annn(&mut self, nnn: u16)
        requires
            old(self).wf(),
        ensures
            final(self).wf(),
            final(self).generator() == old(self).generator(),
            final(self)@ == spec_annn(old(self)@, nnn as int),
    {
        self.i = nnn;
    }

    /// `Bnnn`: jumps to `nnn + V0`.
    fn op_bnnn(&mut self, nnn: u16)
        requires
            old(self).wf(),
            nnn < 4096,
        ensures
            final(self).wf(),
            final(self).generator() == old(self).generator(),
            final(self)@ == spec_bnnn(old(self)@, nnn as int),
    {
        self.pc = nnn + (self.v[0] as u16);
    }

    /// `Cxkk`: `Vx` = the low byte of the random draw `random`, masked by `kk`.
    fn op_cxkk(&mut self, x: usize, kk: u8, random: u64)
        requires
            old(self).wf(),
            x < 16,
        ensures
            final(self).wf(),
            final(self).generator() == old(self).generator(),
            final(self)@ == spec_cxkk(old(self)@, x as int, kk as int, random),
    {
        let rand_byte = (random & 0xFF) as u8;
        assert(rand_byte == (random % 256) as u8) by (bit_vector)
            requires
                rand_byte == (random & 0xFF) as u8,
        ;
        self.v[x] = rand_byte & kk;
    }

    /// `Dxyn`: draws the `n`-row sprite at `I` at position `(Vx, Vy)` by XOR, clipped at
    /// the screen's edges; `VF` = whether a lit pixel was turned off.
    #[verifier::rlimit(40)]
    fn op_dxyn(&mut self, x: usize, y: usize, n: usize)
        requires
            old(self).wf(),
            x < 16,
            y < 16,
            n < 16,
            draw_in_bounds(old(self)@, y as int, n as int),
        ensures
            final(self).wf(),
            final(self).generator() == old(self).generator(),
            final(self)@ == spec_dxyn(old(self)@, x as int, y as int, n as int),
    {
        let ghost s = old(self)@;
        let ghost (xi, yi, ni) = (x as int, y as int, n as int);
        let start_x = self.v[x] as usize % 64;
        let start_y = self.v[y] as usize % 32;

        self.v[0xF] = 0;
        assert(!collided_before(s, xi, yi, ni, 0, 0));
        assert(self.display@ =~= display_drawn_before(s, xi, yi, ni, 0, 0));

        let mut row: usize = 0;
        while row < n
            invariant
                self.generator() == old(self).generator(),
                s == old(self)@,
                s.wf(),
                x < 16,
                y < 16,
                n < 16,
                xi == x,
                yi == y,
                ni == n,
                draw_in_bounds(s, yi, ni),
                start_x == s.v[xi] % 64,
                start_y == s.v[yi] % 32,
                row <= n,
                start_y + row <= 32,
                self@ == s.with_registers(self.v@).with_display(self.display@),
                self.display@ == display_drawn_before(s, xi, yi, ni, row as int, 0),
                self.v@ == s.v.update(
                    15,
                    if collided_before(s, xi, yi, ni, row as int, 0) { 1u8 } else { 0u8 },
                ),
            ensures
                self@ == s.with_registers(self.v@).with_display(self.display@),
                self.display@ == display_drawn_before(s, xi, yi, ni, row as int, 0),
                self.v@ == s.v.update(
                    15,
                    if collided_before(s, xi, yi, ni, row as int, 0) { 1u8 } else { 0u8 },
                ),
                forall|p: int|
                    sprite_hit(s, xi, yi, ni, p) ==> #[trigger] drawn_before(
                        s,
                        xi,
                        yi,
                        ni,
                        row as int,
                        0,
                        p,
                    ),
            decreases n - row,
        {
            let sprite_byte = self.memory[(self.i as usize) + row];
            let current_y = start_y + row;
            if current_y >= 32 {
                assert forall|p: int| sprite_hit(s, xi, yi, ni, p) implies #[trigger] drawn_before(
                    s,
                    xi,
                    yi,
                    ni,
                    row as int,
                    0,
                    p,
                ) by {
                    assert(p / 64 < 32);
                }
                break;
            }
            let mut col: usize = 0;
            while col < 8
                invariant
                    self.generator() == old(self).generator(),
                    s == old(self)@,
                    s.wf(),
                    x < 16,
                    y < 16,
                    n < 16,
                    xi == x,
                    yi == y,
                    ni == n,
                    start_x == s.v[xi] % 64,
                    start_y == s.v[yi] % 32,
                    row < n,
                    current_y == start_y + row,
                    current_y < 32,
                    sprite_byte == s.memory[s.i + row],
                    col <= 8,
                    self@ == s.with_registers(self.v@).with_display(self.display@),
                    self.display@ == display_drawn_before(s, xi, yi, ni, row as int, col as int),
                    self.v@ == s.v.update(
                        15,
                        if collided_before(s, xi, yi, ni, row as int, col as int) {
                            1u8
                        } else {
                            0u8
                        },
                    ),
                ensures
                    col <= 8,
                    col == 8 || start_x + col >= 64,
                    self@ == s.with_registers(self.v@).with_display(self.display@),
                    self.display@ == display_drawn_before(s, xi, yi, ni, row as int, col as int),
                    self.v@ == s.v.update(
                        15,
                        if collided_before(s, xi, yi, ni, row as int, col as int) {
                            1u8
                        } else {
                            0u8
                        },
                    ),
                decreases 8 - col,
            {
                let current_x = start_x + col;
                if current_x >= 64 {
                    break;
                }
                let ghost prev_display = self.display@;
                let ghost prev_v = self.v@;
                proof {
                    lemma_pixel_index(current_y as int, current_x as int);
                }
                let pixel = current_y * 64 + current_x;
                let hit = (sprite_byte & (0x80u8 >> (col as u8))) != 0;
                assert(hit == sprite_hit(s, xi, yi, ni, pixel as int));
                assert forall|p: int|
                    drawn_before(s, xi, yi, ni, row as int, col + 1, p)
                        == (drawn_before(s, xi, yi, ni, row as int, col as int, p)
                        || (p == pixel && hit)) by {
                    if 0 <= p < 2048 && p / 64 == current_y && p % 64 == current_x {
                        lemma_fundamental_div_mod(p, 64);
                        assert(p == pixel);
                    }
                }
                if hit {
                    if self.display[pixel] {
                        self.v[0xF] = 1;
                    }
                    self.display[pixel] = !self.display[pixel];
                }
                assert(self.display@ =~= display_drawn_before(s, xi, yi, ni, row as int, col + 1));
                proof {
                    if hit && s.display[pixel as int] {
                        assert(drawn_before(s, xi, yi, ni, row as int, col + 1, pixel as int));
                        assert(collided_before(s, xi, yi, ni, row as int, col + 1));
                    } else {
                        lemma_collided_step(s, xi, yi, ni, row as int, col as int, pixel as int, hit);
                    }
                }
                assert(self.v@ =~= s.v.update(
                    15,
                    if collided_before(s, xi, yi, ni, row as int, col + 1) { 1u8 } else { 0u8 },
                ));
                col = col + 1;
            }
            // The cells left in this row lie past the sprite or past the screen's edge.
            assert forall|p: int|
                drawn_before(s, xi, yi, ni, row as int, col as int, p)
                    == drawn_before(s, xi, yi, ni, row + 1, 0, p) by {}
            assert(display_drawn_before(s, xi, yi, ni, row as int, col as int)
                =~= display_drawn_before(s, xi, yi, ni, row + 1, 0));
            proof {
                lemma_collided_same(s, xi, yi, ni, row as int, col as int, row + 1, 0);
            }
            row = row + 1;
        }
        assert forall|p: int|
            drawn_before(s, xi, yi, ni, row as int, 0, p) == sprite_hit(s, xi, yi, ni, p) by {}
        assert(self.display@ =~= display_after_draw(s, xi, yi, ni));
        proof {
            if collided_before(s, xi, yi, ni, row as int, 0) {
                let p = choose|p: int| #[trigger] drawn_before(s, xi, yi, ni, row as int, 0, p)
                    && s.display[p];
                assert(sprite_hit(s, xi, yi, ni, p) && s.display[p]);
            }
            if sprite_collides(s, xi, yi, ni) {
                let p = choose|p: int| #[trigger] sprite_hit(s, xi, yi, ni, p) && s.display[p];
                assert(drawn_before(s, xi, yi, ni, row as int, 0, p));
            }
        }
        assert(self.v@ =~= spec_dxyn(s, xi, yi, ni).v);
    }

    /// `Ex9E`: skips the next instruction if the key named by `Vx` is down.
    fn op_ex9e(&mut self, x: usize)
        requires
            old(self).wf(),
            x < 16,
            old(self)@.v[x as int] < 16 && old(self)@.keypad[old(self)@.v[x as int] as int]
                ==> old(self)@.pc + 2 <= 0xFFFF,
        ensures
            final(self).wf(),
            final(self).generator() == old(self).generator(),
            final(self)@ == spec_ex9e(old(self)@, x as int),
    {
        let key = self.v[x] as usize;
        if key < 16 && self.keypad[key] {
            self.pc = self.pc + 2;
        }
    }

    /// `ExA1`: skips the next instruction if the key named by `Vx` is up.
    fn op_exa1(&mut self, x: usize)
        requires
            old(self).wf(),
            x < 16,
            old(self)@.v[x as int] < 16 && !old(self)@.keypad[old(self)@.v[x as int] as int]
                ==> old(self)@.pc + 2 <= 0xFFFF,
        ensures
            final(self).wf(),
            final(self).generator() == old(self).generator(),
            final(self)@ == spec_exa1(old(self)@, x as int),
    {
        let key = self.v[x] as usize;
        if key < 16 && !self.keypad[key] {
            self.pc = self.pc + 2;
        }
    }

    /// `Fx07`: `Vx` = the delay timer.
    fn op_fx07(&mut self, x: usize)
        requires
            old(self).wf(),
            x < 16,
        ensures
            final(self).wf(),
            final(self).generator() == old(self).generator(),
            final(self)@ == spec_fx07(old(self)@, x as int),
    {
        self.v[x] = self.delay_timer;
    }

    /// `Fx0A`: waits for a key: `Vx` = the lowest key held down, or, with none down,
    /// the program counter steps back so that this instruction runs again.
    fn op_fx0a(&mut self, x: usize)
        requires
            old(self).wf(),
            x < 16,
            first_pressed_from(old(self)@.keypad, 0) == 16 ==> old(self)@.pc >= 2,
        ensures
            final(self).wf(),
            final(self).generator() == old(self).generator(),
            final(self)@ == spec_fx0a(old(self)@, x as int),
    {
        let ghost s = old(self)@;
        let mut key_pressed = false;
        let mut k: usize = 0;
        while k < 16
            invariant_except_break
                !key_pressed,
                self@ == s,
            invariant
                self.generator() == old(self).generator(),
                k <= 16,
                x < 16,
                s == old(self)@,
                first_pressed_from(s.keypad, 0) == first_pressed_from(s.keypad, k as int),
            ensures
                key_pressed ==> first_pressed_from(s.keypad, 0) < 16 && self@ == s.with_v(
                    x as int,
                    first_pressed_from(s.keypad, 0) as u8,
                ),
                !key_pressed ==> first_pressed_from(s.keypad, 0) == 16 && self@ == s,
            decreases 16 - k,
        {
            if self.keypad[k] {
                self.v[x] = k as u8;
                key_pressed = true;
                break;
            }
            k = k + 1;
        }
        if !key_pressed {
            self.pc = self.pc - 2;
        }
    }

    /// `Fx15`: delay timer = `Vx`.
    fn op_fx15(&mut self, x: usize)
        requires
            old(self).wf(),
            x < 16,
        ensures
            final(self).wf(),
            final(self).generator() == old(self).generator(),
            final(self)@ == spec_fx15(old(self)@, x as int),
    {
        self.delay_timer = self.v[x];
    }

    /// `Fx18`: sound timer = `Vx`.
    fn op_fx18(&mut self, x: usize)
        requires
            old(self).wf(),
            x < 16,
        ensures
            final(self).wf(),
            final(self).generator() == old(self).generator(),
            final(self)@ == spec_fx18(old(self)@, x as int),
    {
        self.sound_timer = self.v[x];
    }

    /// `Fx1E`: `I = I + Vx`, wrapping.
    fn op_fx1e(&mut self, x: usize)
        requires
            old(self).wf(),
            x < 16,
        ensures
            final(self).wf(),
            final(self).generator() == old(self).generator(),
            final(self)@ == spec_fx1e(old(self)@, x as int),
    {
        self.i = self.i.wrapping_add(self.v[x] as u16);
    }

    /// `Fx29`: `I` = the address of the font sprite for the digit in `Vx`.
    fn op_fx29(&mut self, x: usize)
        requires
            old(self).wf(),
            x < 16,
        ensures
            final(self).wf(),
            final(self).generator() == old(self).generator(),
            final(self)@ == spec_fx29(old(self)@, x as int),
    {
        self.i = (self.v[x] as u16) * 5;
    }

    /// `Fx33`: stores the decimal digits of `Vx` at `I`, `I+1` and `I+2`.
    fn op_fx33(&mut self, x: usize)
        requires
            old(self).wf(),
            x < 16,
            old(self)@.i + 2 < 4096,
        ensures
            final(self).wf(),
            final(self).generator() == old(self).generator(),
            final(self)@ == spec_fx33(old(self)@, x as int),
    {
        let value = self.v[x];
        self.memory[self.i as usize] = value / 100;
        self.memory[(self.i + 1) as usize] = (value / 10) % 10;
        self.memory[(self.i + 2) as usize] = value % 10;
    }

    /// `Fx55`: stores `V0` through `Vx` in memory starting at `I`.
    fn op_fx55(&mut self, x: usize)
        requires
            old(self).wf(),
            x < 16,
            old(self)@.i + x < 4096,
        ensures
            final(self).wf(),
            final(self).generator() == old(self).generator(),
            final(self)@ == spec_fx55(old(self)@, x as int),
    {
        let ghost s = old(self)@;
        let mut index: usize = 0;
        while index <= x
            invariant
                self.generator() == old(self).generator(),
                index <= x + 1,
                x < 16,
                s == old(self)@,
                s.wf(),
                s.i + x < 4096,
                self@ == s.with_memory(self.memory@),
                forall|k: int|
                    0 <= k < 4096 ==> self.memory@[k] == if s.i <= k < s.i + index {
                        s.v[k - s.i]
                    } else {
                        s.memory[k]
                    },
            decreases x + 1 - index,
        {
            self.memory[(self.i as usize) + index] = self.v[index];
            index = index + 1;
        }
        assert(self.memory@ =~= spec_fx55(s, x as int).memory);
    }

    /// `Fx65`: fills `V0` through `Vx` from memory starting at `I`.
    fn op_fx65(&mut self, x: usize)
        requires
            old(self).wf(),
            x < 16,
            old(self)@.i + x < 4096,
        ensures
            final(self).wf(),
            final(self).generator() == old(self).generator(),
            final(self)@ == spec_fx65(old(self)@, x as int),
    {
        let ghost s = old(self)@;
        let mut index: usize = 0;
        while index <= x
            invariant
                self.generator() == old(self).generator(),
                index <= x + 1,
                x < 16,
                s == old(self)@,
                s.wf(),
                s.i + x < 4096,
                self@ == s.with_registers(self.v@),
                forall|k: int|
                    0 <= k < 16 ==> self.v@[k] == if k < index {
                        s.memory[s.i + k]
                    } else {
                        s.v[k]
                    },
            decreases x + 1 - index,
        {
            self.v[index] = self.memory[(self.i as usize) + index];
            index = index + 1;
        }
        assert(self.v@ =~= spec_fx65(s, x as int).v);
    }

    /// The whole memory.
    pub fn memory(&self) -> (r: &[u8; MEMORY_SIZE])
        ensures
            r@ == self@.memory,
    {
        &self.memory
    }

    /// Register `Vx`.
    pub fn register(&self, x: usize) -> (r: u8)
        requires
            x < 16,
        ensures
            r == self@.v[x as int],
    {
        self.v[x]
    }

    /// The program counter.
    pub fn pc(&self) -> (r: u16)
        ensures
            r == self@.pc,
    {
        self.pc
    }

    /// The index register `I`.
    pub fn index_register(&self) -> (r: u16)
        ensures
            r == self@.i,
    {
        self.i
    }

    /// The number of occupied stack slots.
    pub fn stack_pointer(&self) -> (r: u8)
        ensures
            r == self@.sp,
    {
        self.sp
    }

    /// The delay timer.
    pub fn delay_timer(&self) -> (r: u8)
        ensures
            r == self@.delay_timer,
    {
        self.delay_timer
    }

    /// The sound timer.
    pub fn sound_timer(&self) -> (r: u8)
        ensures
            r == self@.sound_timer,
    {
        self.sound_timer
    }
}

} // verus!
