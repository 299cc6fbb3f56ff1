use vstd::prelude::*;

use crate::instruction::{decode, decode_spec, operands_in_range, Instruction};
use crate::random::random_byte;

verus! {

pub const SCREEN_WIDTH: usize = 64;
pub const SCREEN_HEIGHT: usize = 32;
pub const SCREEN_SIZE: usize = 2048;
pub const RAM_SIZE: usize = 4096;
pub const NUM_REGISTERS: usize = 16;
pub const STACK_SIZE: usize = 16;
pub const NUM_KEYS: usize = 16;
pub const START_ADDR: u16 = 0x200;
pub const FONTSET_SIZE: usize = 80;

/// The built-in font: sixteen glyphs 0..=F of five rows each.
pub open spec fn font() -> Seq<u8> {
    seq![
        0xF0u8, 0x90, 0x90, 0x90, 0xF0, 0x20, 0x60, 0x20, 0x20, 0x70,
        0xF0, 0x10, 0xF0, 0x80, 0xF0, 0xF0, 0x10, 0xF0, 0x10, 0xF0,
        0x90, 0x90, 0xF0, 0x10, 0x10, 0xF0, 0x80, 0xF0, 0x10, 0xF0,
        0xF0, 0x80, 0xF0, 0x90, 0xF0, 0xF0, 0x10, 0x20, 0x40, 0x40,
        0xF0, 0x90, 0xF0, 0x90, 0xF0, 0xF0, 0x90, 0xF0, 0x10, 0xF0,
        0xF0, 0x90, 0xF0, 0x90, 0x90, 0xE0, 0x90, 0xE0, 0x90, 0xE0,
        0xF0, 0x80, 0x80, 0x80, 0xF0, 0xE0, 0x90, 0x90, 0x90, 0xE0,
        0xF0, 0x80, 0xF0, 0x80, 0xF0, 0xF0, 0x80, 0xF0, 0x80, 0x80,
    ]
}

fn fontset() -> (r: [u8; FONTSET_SIZE])
    ensures
        r@ == font(),
{
    let r: [u8; FONTSET_SIZE] = [
        0xF0, 0x90, 0x90, 0x90, 0xF0, 0x20, 0x60, 0x20, 0x20, 0x70,
        0xF0, 0x10, 0xF0, 0x80, 0xF0, 0xF0, 0x10, 0xF0, 0x10, 0xF0,
        0x90, 0x90, 0xF0, 0x10, 0x10, 0xF0, 0x80, 0xF0, 0x10, 0xF0,
        0xF0, 0x80, 0xF0, 0x90, 0xF0, 0xF0, 0x10, 0x20, 0x40, 0x40,
        0xF0, 0x90, 0xF0, 0x90, 0xF0, 0xF0, 0x90, 0xF0, 0x10, 0xF0,
        0xF0, 0x90, 0xF0, 0x90, 0x90, 0xE0, 0x90, 0xE0, 0x90, 0xE0,
        0xF0, 0x80, 0x80, 0x80, 0xF0, 0xE0, 0x90, 0x90, 0x90, 0xE0,
        0xF0, 0x80, 0xF0, 0x80, 0xF0, 0xF0, 0x80, 0xF0, 0x80, 0x80,
    ];
    assert(r@ =~= font());
    r
}

/// Memory right after construction: the font at address 0, zero elsewhere.
pub open spec fn initial_ram() -> Seq<u8> {
    Seq::new(RAM_SIZE as nat, |a: int| if a < FONTSET_SIZE { font()[a] } else { 0u8 })
}

/// A machine fault: execution cannot go on from the current state.
#[derive(Clone, Copy, Debug, PartialEq, Eq, Structural)]
pub enum Fault {
    /// The word names no instruction.
    UnknownOpcode { op: u16 },
    /// A return with an empty call stack.
    StackUnderflow,
    /// A call with all sixteen stack entries in use.
    StackOverflow,
    /// A fetch, or an access through I, past the end of memory.
    MemoryOutOfBounds,
    /// A key instruction whose register holds no key number (0..=15).
    InvalidKey { key: u8 },
}

/// The abstract machine: what an instruction reads and writes.
/// `stack` holds the return addresses that are pushed, oldest first.
pub ghost struct EmuState {
    pub pc: u16,
    pub ram: Seq<u8>,
    pub screen: Seq<bool>,
    pub v: Seq<u8>,
    pub i: u16,
    pub stack: Seq<u16>,
    pub keys: Seq<bool>,
    pub dt: u8,
    pub st: u8,
}

/// The CHIP-8 machine.
pub struct Emulator {
    /// Program counter.
    pub pc: u16,
    /// Main memory.
    pub ram: [u8; RAM_SIZE],
    /// Monochrome display, row-major: pixel (x, y) is at `x + 64 * y`.
    pub screen: [bool; SCREEN_SIZE],
    /// V-registers V0..VF.
    pub v_reg: [u8; NUM_REGISTERS],
    /// Index register.
    pub i_reg: u16,
    /// Number of return addresses on the stack.
    pub sp: u16,
    /// Return addresses of the subroutine calls.
    pub stack: [u16; STACK_SIZE],
    /// Which keys are held down.
    pub keys: [bool; NUM_KEYS],
    /// Delay timer.
    pub dt: u8,
    /// Sound timer.
    pub st: u8,
}

impl View for Emulator {
    type V = EmuState;

    open spec fn view(&self) -> EmuState {
        EmuState {
            pc: self.pc,
            ram: self.ram@,
            screen: self.screen@,
            v: self.v_reg@,
            i: self.i_reg,
            stack: self.stack@.subrange(0, self.sp as int),
            keys: self.keys@,
            dt: self.dt,
            st: self.st,
        }
    }
}

/// Copies the font into the start of memory.
fn seed_font(ram: &mut [u8; RAM_SIZE])
    ensures
        forall|a: int| 0 <= a < FONTSET_SIZE ==> final(ram)@[a] == font()[a],
        forall|a: int| FONTSET_SIZE <= a < RAM_SIZE ==> final(ram)@[a] == old(ram)@[a],
{
    let glyphs = fontset();
    let mut k: usize = 0;
    while k < FONTSET_SIZE
        invariant
            k <= FONTSET_SIZE,
            glyphs@ == font(),
            forall|a: int| 0 <= a < k ==> ram@[a] == font()[a],
            forall|a: int| k <= a < RAM_SIZE ==> ram@[a] == old(ram)@[a],
        decreases FONTSET_SIZE - k,
    {
        ram[k] = glyphs[k];
        k += 1;
    }
}

impl Emulator {
    /// The stack pointer stays within the stack.
    pub open spec fn wf(&self) -> bool {
        self.sp <= STACK_SIZE
    }

    /// The state right after construction: font seeded, counter at 0x200,
    /// everything else zero.
    pub open spec fn is_initial(&self) -> bool {
        &&& self.pc == START_ADDR
        &&& self.ram@ == initial_ram()
        &&& self.screen@ == Seq::new(SCREEN_SIZE as nat, |k: int| false)
        &&& self.v_reg@ == Seq::new(NUM_REGISTERS as nat, |k: int| 0u8)
        &&& self.i_reg == 0
        &&& self.sp == 0
        &&& self.stack@ == Seq::new(STACK_SIZE as nat, |k: int| 0u16)
        &&& self.keys@ == Seq::new(NUM_KEYS as nat, |k: int| false)
        &&& self.dt == 0
        &&& self.st == 0
    }

    pub fn new() -> (r: Self)
        ensures
            r.is_initial(),
            r.wf(),
    {
        let mut emu = Emulator {
            pc: START_ADDR,
            ram: [0u8; RAM_SIZE],
            screen: [false; SCREEN_SIZE],
            v_reg: [0u8; NUM_REGISTERS],
            i_reg: 0,
            sp: 0,
            stack: [0u16; STACK_SIZE],
            keys: [false; NUM_KEYS],
            dt: 0,
            st: 0,
        };
        seed_font(&mut emu.ram);
        proof {
            assert(emu.ram@ =~= initial_ram());
            assert(emu.screen@ =~= Seq::new(SCREEN_SIZE as nat, |k: int| false));
            assert(emu.v_reg@ =~= Seq::new(NUM_REGISTERS as nat, |k: int| 0u8));
            assert(emu.stack@ =~= Seq::new(STACK_SIZE as nat, |k: int| 0u16));
            assert(emu.keys@ =~= Seq::new(NUM_KEYS as nat, |k: int| false));
        }
        emu
    }

    /// The framebuffer, 64 x 32 pixels, row-major.
    pub fn get_display(&self) -> (r: &[bool])
        ensures
            r@ == self.screen@,
    {
        self.screen.as_slice()
    }

    /// Records whether key `idx` is held down.
    pub fn keypress(&mut self, idx: usize, pressed: bool)
        requires
            idx < NUM_KEYS,
        ensures
            final(self)@ == (EmuState { keys: old(self)@.keys.update(idx as int, pressed), ..old(self)@ }),
            final(self).sp == old(self).sp,
    {
        self.keys[idx] = pressed;
        proof {
            assert(self@.keys =~= old(self)@.keys.update(idx as int, pressed));
        }
    }

    /// Copies a program into memory from address 0x200 on.
    pub fn load(&mut self, data: &[u8])
        requires
            data@.len() <= RAM_SIZE - START_ADDR,
        ensures
            final(self)@ == (EmuState { ram: load_spec(old(self)@.ram, data@), ..old(self)@ }),
            final(self).sp == old(self).sp,
    {
        let start = START_ADDR as usize;
        let mut k: usize = 0;
        while k < data.len()
            invariant
                start == START_ADDR,
                k <= data@.len() <= RAM_SIZE - START_ADDR,
                self.ram@ == load_spec(old(self)@.ram, data@.subrange(0, k as int)),
                self@ == (EmuState { ram: self.ram@, ..old(self)@ }),
                self.sp == old(self).sp,
            decreases data@.len() - k,
        {
            self.ram[start + k] = data[k];
            k += 1;
            proof {
                assert(self.ram@ =~= load_spec(old(self)@.ram, data@.subrange(0, k as int)));
            }
        }
        proof {
            assert(data@.subrange(0, data@.len() as int) =~= data@);
        }
    }

    /// Puts the machine back into the state that `new` builds.
    pub fn reset(&mut self)
        ensures
            final(self).is_initial(),
            final(self).wf(),
    {
        self.pc = START_ADDR;
        self.ram = [0u8; RAM_SIZE];
        self.screen = [false; SCREEN_SIZE];
        self.v_reg = [0u8; NUM_REGISTERS];
        self.i_reg = 0;
        self.sp = 0;
        self.stack = [0u16; STACK_SIZE];
        self.keys = [false; NUM_KEYS];
        self.dt = 0;
        self.st = 0;
        seed_font(&mut self.ram);
        proof {
            assert(self.ram@ =~= initial_ram());
            assert(self.screen@ =~= Seq::new(SCREEN_SIZE as nat, |k: int| false));
            assert(self.v_reg@ =~= Seq::new(NUM_REGISTERS as nat, |k: int| 0u8));
            assert(self.stack@ =~= Seq::new(STACK_SIZE as nat, |k: int| 0u16));
            assert(self.keys@ =~= Seq::new(NUM_KEYS as nat, |k: int| false));
        }
    }
}

/// Memory with a program copied in from address 0x200 on.
pub open spec fn load_spec(ram: Seq<u8>, data: Seq<u8>) -> Seq<u8> {
    Seq::new(
        ram.len(),
        |a: int|
            if START_ADDR <= a < START_ADDR + data.len() {
                data[a - START_ADDR]
            } else {
                ram[a]
            },
    )
}


/// The counter moved past one instruction, in 16-bit arithmetic.
pub open spec fn skip_if(s: EmuState, cond: bool) -> EmuState {
    if cond {
        EmuState { pc: s.pc.wrapping_add(2), ..s }
    } else {
        s
    }
}

pub open spec fn set_v(s: EmuState, x: int, val: u8) -> EmuState {
    EmuState { v: s.v.update(x, val), ..s }
}

/// VX written first, then VF: where X is F the flag wins.
pub open spec fn set_v_flag(s: EmuState, x: int, val: u8, flag: u8) -> EmuState {
    EmuState { v: s.v.update(x, val).update(15, flag), ..s }
}

/// The instruction word stored at address `a`, big-endian.
pub open spec fn word_at(ram: Seq<u8>, a: int) -> u16 {
    (ram[a] as int * 256 + ram[a + 1] as int) as u16
}

/// Index of the first key held down, or 16 where none is.
pub open spec fn first_pressed_from(keys: Seq<bool>, k: int) -> int
    decreases NUM_KEYS - k,
{
    if k >= NUM_KEYS {
        NUM_KEYS as int
    } else if keys[k] {
        k
    } else {
        first_pressed_from(keys, k + 1)
    }
}

pub open spec fn first_pressed(keys: Seq<bool>) -> int {
    first_pressed_from(keys, 0)
}

/// Whether column `c` (0 = leftmost) of a sprite row is set.
pub open spec fn sprite_pixel(row: u8, c: u8) -> bool {
    row & (0x80u8 >> c) != 0
}

/// Framebuffer index of (px, py), wrapped onto the 64 x 32 screen.
pub open spec fn pixel_index(px: int, py: int) -> int {
    px % 64 + 64 * (py % 32)
}

/// Whether a set sprite bit lands on pixel `k`, counting only rows before `rows`
/// and, in row `rows`, columns before `cols`.
spec fn covers_upto(s: EmuState, vx: u8, vy: u8, n: u8, rows: int, cols: int, k: int) -> bool {
    exists|r: int, c: int|
        0 <= r < n && 0 <= c < 8 && (r < rows || (r == rows && c < cols))
            && sprite_pixel(s.ram[s.i + r], c as u8) && #[trigger] pixel_index(vx + c, vy + r) == k
}

/// Whether a set sprite bit of rows before `rows` (and of columns before `cols`
/// in row `rows`) lands on a pixel that is lit in `s`.
spec fn collides_upto(s: EmuState, vx: u8, vy: u8, n: u8, rows: int, cols: int) -> bool {
    exists|r: int, c: int|
        0 <= r < n && 0 <= c < 8 && (r < rows || (r == rows && c < cols))
            && sprite_pixel(s.ram[s.i + r], c as u8) && s.screen[#[trigger] pixel_index(vx + c, vy + r)]
}

/// Whether some set bit of the N-row sprite at I, drawn at (vx, vy), lands on pixel `k`.
pub open spec fn sprite_covers(s: EmuState, vx: u8, vy: u8, n: u8, k: int) -> bool {
    exists|r: int, c: int|
        0 <= r < n && 0 <= c < 8 && sprite_pixel(s.ram[s.i + r], c as u8)
            && #[trigger] pixel_index(vx + c, vy + r) == k
}

/// Whether drawing the sprite turns a lit pixel off.
pub open spec fn sprite_collides(s: EmuState, vx: u8, vy: u8, n: u8) -> bool {
    exists|r: int, c: int|
        0 <= r < n && 0 <= c < 8 && sprite_pixel(s.ram[s.i + r], c as u8)
            && s.screen[#[trigger] pixel_index(vx + c, vy + r)]
}

/// The screen with the sprite XORed onto it.
pub open spec fn drawn_screen(s: EmuState, vx: u8, vy: u8, n: u8) -> Seq<bool> {
    Seq::new(SCREEN_SIZE as nat, |k: int| s.screen[k] != sprite_covers(s, vx, vy, n, k))
}

/// Decimal digits of `b`: hundreds, tens, ones.
pub open spec fn bcd_digit(b: u8, place: int) -> u8 {
    if place == 0 {
        b / 100
    } else if place == 1 {
        (b / 10) % 10
    } else {
        b % 10
    }
}

/// What one instruction does to the machine, or the fault it raises.
/// `rnd` is the random byte that `CXNN` masks.
pub open spec fn step(s: EmuState, ins: Instruction, rnd: u8) -> Result<EmuState, Fault> {
    match ins {
        Instruction::Nop => Ok(s),
        Instruction::ClearScreen => Ok(EmuState { screen: Seq::new(SCREEN_SIZE as nat, |k: int| false), ..s }),
        Instruction::Return => if s.stack.len() == 0 {
            Err(Fault::StackUnderflow)
        } else {
            Ok(EmuState { pc: s.stack.last(), stack: s.stack.drop_last(), ..s })
        },
        Instruction::Jump { addr } => Ok(EmuState { pc: addr, ..s }),
        Instruction::Call { addr } => if s.stack.len() >= STACK_SIZE {
            Err(Fault::StackOverflow)
        } else {
            Ok(EmuState { pc: addr, stack: s.stack.push(s.pc), ..s })
        },
        Instruction::SkipEqByte { x, nn } => Ok(skip_if(s, s.v[x as int] == nn)),
        Instruction::SkipNeByte { x, nn } => Ok(skip_if(s, s.v[x as int] != nn)),
        Instruction::SkipEqReg { x, y } => Ok(skip_if(s, s.v[x as int] == s.v[y as int])),
        Instruction::LoadByte { x, nn } => Ok(set_v(s, x as int, nn)),
        Instruction::AddByte { x, nn } => Ok(set_v(s, x as int, s.v[x as int].wrapping_add(nn))),
        Instruction::Move { x, y } => Ok(set_v(s, x as int, s.v[y as int])),
        Instruction::Or { x, y } => Ok(set_v(s, x as int, s.v[x as int] | s.v[y as int])),
        Instruction::And { x, y } => Ok(set_v(s, x as int, s.v[x as int] & s.v[y as int])),
        Instruction::Xor { x, y } => Ok(set_v(s, x as int, s.v[x as int] ^ s.v[y as int])),
        Instruction::AddReg { x, y } => Ok(set_v_flag(s, x as int, s.v[x as int].wrapping_add(s.v[y as int]),
            if s.v[x as int] + s.v[y as int] > 255 { 1 } else { 0 })),
        Instruction::SubReg { x, y } => Ok(set_v_flag(s, x as int, s.v[x as int].wrapping_sub(s.v[y as int]),
            if s.v[x as int] >= s.v[y as int] { 1 } else { 0 })),
        Instruction::ShiftRight { x } => Ok(set_v_flag(s, x as int, s.v[x as int] / 2, s.v[x as int] % 2)),
        Instruction::SubRev { x, y } => Ok(set_v_flag(s, x as int, s.v[y as int].wrapping_sub(s.v[x as int]),
            if s.v[y as int] < s.v[x as int] { 1 } else { 0 })),
        Instruction::ShiftLeft { x } => Ok(set_v_flag(s, x as int, ((s.v[x as int] * 2) % 256) as u8, s.v[x as int] / 128)),
        Instruction::SkipNeReg { x, y } => Ok(skip_if(s, s.v[x as int] != s.v[y as int])),
        Instruction::LoadIndex { addr } => Ok(EmuState { i: addr, ..s }),
        Instruction::JumpOffset { addr } => Ok(EmuState { pc: (s.v[0] + addr) as u16, ..s }),
        Instruction::Random { x, nn } => Ok(set_v(s, x as int, rnd & nn)),
        Instruction::Draw { x, y, n } => if s.i + n > RAM_SIZE {
            Err(Fault::MemoryOutOfBounds)
        } else {
            let vx = s.v[x as int];
            let vy = s.v[y as int];
            Ok(EmuState {
                screen: drawn_screen(s, vx, vy, n),
                v: s.v.update(15, if sprite_collides(s, vx, vy, n) { 1u8 } else { 0u8 }),
                ..s
            })
        },
        Instruction::SkipKeyDown { x } => if s.v[x as int] >= NUM_KEYS {
            Err(Fault::InvalidKey { key: s.v[x as int] })
        } else {
            Ok(skip_if(s, s.keys[s.v[x as int] as int]))
        },
        Instruction::SkipKeyUp { x } => if s.v[x as int] >= NUM_KEYS {
            Err(Fault::InvalidKey { key: s.v[x as int] })
        } else {
            Ok(skip_if(s, !s.keys[s.v[x as int] as int]))
        },
        Instruction::ReadDelay { x } => Ok(set_v(s, x as int, s.dt)),
        Instruction::WaitKey { x } => if first_pressed(s.keys) < NUM_KEYS {
            Ok(set_v(s, x as int, first_pressed(s.keys) as u8))
        } else {
            Ok(EmuState { pc: s.pc.wrapping_sub(2), ..s })
        },
        Instruction::SetDelay { x } => Ok(EmuState { dt: s.v[x as int], ..s }),
        Instruction::SetSound { x } => Ok(EmuState { st: s.v[x as int], ..s }),
        Instruction::AddIndex { x } => Ok(EmuState { i: s.i.wrapping_add(s.v[x as int] as u16), ..s }),
        Instruction::FontGlyph { x } => Ok(EmuState { i: (s.v[x as int] * 5) as u16, ..s }),
        Instruction::StoreBcd { x } => if s.i + 3 > RAM_SIZE {
            Err(Fault::MemoryOutOfBounds)
        } else {
            Ok(EmuState {
                ram: Seq::new(s.ram.len(), |a: int|
                    if s.i <= a < s.i + 3 { bcd_digit(s.v[x as int], a - s.i) } else { s.ram[a] }),
                ..s
            })
        },
        Instruction::StoreRegs { x } => if s.i + x + 1 > RAM_SIZE {
            Err(Fault::MemoryOutOfBounds)
        } else {
            Ok(EmuState {
                ram: Seq::new(s.ram.len(), |a: int| if s.i <= a <= s.i + x { s.v[a - s.i] } else { s.ram[a] }),
                ..s
            })
        },
        Instruction::LoadRegs { x } => if s.i + x + 1 > RAM_SIZE {
            Err(Fault::MemoryOutOfBounds)
        } else {
            Ok(EmuState { v: Seq::new(s.v.len(), |r: int| if r <= x { s.ram[s.i + r] } else { s.v[r] }), ..s })
        },
        Instruction::Unknown { op } => Err(Fault::UnknownOpcode { op }),
    }
}

/// The machine state is the abstract one of its kind: full-size memory,
/// screen, register file and key pad.
pub open spec fn sized(s: EmuState) -> bool {
    &&& s.ram.len() == RAM_SIZE
    &&& s.screen.len() == SCREEN_SIZE
    &&& s.v.len() == NUM_REGISTERS
    &&& s.keys.len() == NUM_KEYS
    &&& s.stack.len() <= STACK_SIZE
}

impl Emulator {
    /// Pushes a return address.
    pub fn push(&mut self, val: u16) -> (r: Result<(), Fault>)
        requires
            old(self).wf(),
        ensures
            final(self).wf(),
            old(self).sp == STACK_SIZE ==> r == Err::<(), Fault>(Fault::StackOverflow) && final(self)@ == old(self)@,
            old(self).sp < STACK_SIZE ==> r == Ok::<(), Fault>(())
                && final(self)@ == (EmuState { stack: old(self)@.stack.push(val), ..old(self)@ }),
    {
        if self.sp as usize >= STACK_SIZE {
            return Err(Fault::StackOverflow);
        }
        self.stack[self.sp as usize] = val;
        self.sp += 1;
        proof {
            assert(self@.stack =~= old(self)@.stack.push(val));
        }
        Ok(())
    }

    /// Pops the latest return address.
    pub fn pop(&mut self) -> (r: Result<u16, Fault>)
        requires
            old(self).wf(),
        ensures
            final(self).wf(),
            old(self).sp == 0 ==> r == Err::<u16, Fault>(Fault::StackUnderflow) && final(self)@ == old(self)@,
            old(self).sp > 0 ==> r == Ok::<u16, Fault>(old(self)@.stack.last())
                && final(self)@ == (EmuState { stack: old(self)@.stack.drop_last(), ..old(self)@ }),
    {
        if self.sp == 0 {
            return Err(Fault::StackUnderflow);
        }
        self.sp -= 1;
        proof {
            assert(self@.stack =~= old(self)@.stack.drop_last());
        }
        Ok(self.stack[self.sp as usize])
    }

    /// Counts both timers down by one, stopping at zero. Returns whether a tone
    /// sounds during this tick: the sound timer stood at 1.
    pub fn tick_timers(&mut self) -> (r: bool)
        ensures
            r == (old(self).st == 1),
            final(self)@ == (EmuState {
                dt: if old(self).dt > 0 { (old(self).dt - 1) as u8 } else { 0 },
                st: if old(self).st > 0 { (old(self).st - 1) as u8 } else { 0 },
                ..old(self)@
            }),
            final(self).sp == old(self).sp,
    {
        if self.dt > 0 {
            self.dt -= 1;
        }
        let beep = self.st == 1;
        if self.st > 0 {
            self.st -= 1;
        }
        beep
    }

    /// Reads the instruction word at the counter and moves the counter past it.
    fn fetch(&mut self) -> (r: Result<u16, Fault>)
        ensures
            final(self).sp == old(self).sp,
            old(self).pc + 1 >= RAM_SIZE ==> r == Err::<u16, Fault>(Fault::MemoryOutOfBounds)
                && final(self)@ == old(self)@,
            old(self).pc + 1 < RAM_SIZE ==> r == Ok::<u16, Fault>(word_at(old(self)@.ram, old(self).pc as int))
                && final(self)@ == (EmuState { pc: (old(self).pc + 2) as u16, ..old(self)@ }),
    {
        if self.pc as usize + 1 >= RAM_SIZE {
            return Err(Fault::MemoryOutOfBounds);
        }
        let hi = self.ram[self.pc as usize];
        let lo = self.ram[self.pc as usize + 1];
        self.pc += 2;
        let word = ((hi as u16) << 8u16) | (lo as u16);
        assert(word == (hi as int * 256 + lo as int) as u16) by (bit_vector)
            requires
                word == ((hi as u16) << 8u16) | (lo as u16),
        ;
        Ok(word)
    }
}


/// Distinct sprite cells land on distinct pixels: a sprite is at most 8 wide
/// and 15 tall, smaller than the screen in both directions.
pub(crate) proof fn lemma_pixel_index_injective(a: u32, b: u32, c1: u32, r1: u32, c2: u32, r2: u32)
    by (bit_vector)
    requires
        a < 256,
        b < 256,
        c1 < 8,
        c2 < 8,
        r1 < 16,
        r2 < 16,
        (a + c1) % 64 + 64 * ((b + r1) % 32) == (a + c2) % 64 + 64 * ((b + r2) % 32),
    ensures
        c1 == c2,
        r1 == r2,
{
}

impl Emulator {
    /// XORs the N-row sprite at I onto the screen at (VX, VY); VF tells whether
    /// a lit pixel went dark.
    fn draw(&mut self, x: usize, y: usize, n: u8) -> (r: Result<(), Fault>)
        requires
            old(self).wf(),
            x < 16,
            y < 16,
            n < 16,
        ensures
            final(self).wf(),
            match step(old(self)@, Instruction::Draw { x, y, n }, 0) {
                Ok(t) => r == Ok::<(), Fault>(()) && final(self)@ == t,
                Err(e) => r == Err::<(), Fault>(e) && final(self)@ == old(self)@,
            },
    {
        if self.i_reg as usize + n as usize > RAM_SIZE {
            return Err(Fault::MemoryOutOfBounds);
        }
        let ghost s0 = self@;
        let vx = self.v_reg[x];
        let vy = self.v_reg[y];
        let mut flipped = false;
        let mut row: u8 = 0;
        while row < n
            invariant
                self.wf(),
                s0 == old(self)@,
                vx == s0.v[x as int],
                vy == s0.v[y as int],
                n < 16,
                self.i_reg + n <= RAM_SIZE,
                row <= n,
                self@ == (EmuState { screen: self@.screen, ..s0 }),
                self.sp == old(self).sp,
                forall|k: int| 0 <= k < SCREEN_SIZE ==>
                    self.screen@[k] == (s0.screen[k] != covers_upto(s0, vx, vy, n, row as int, 0, k)),
                flipped == collides_upto(s0, vx, vy, n, row as int, 0),
            decreases n - row,
        {
            let pixels = self.ram[(self.i_reg + row as u16) as usize];
            let mut col: u8 = 0;
            while col < 8
                invariant
                    self.wf(),
                    s0 == old(self)@,
                    vx == s0.v[x as int],
                    vy == s0.v[y as int],
                    n < 16,
                    self.i_reg + n <= RAM_SIZE,
                    row < n,
                    col <= 8,
                    pixels == s0.ram[s0.i + row],
                    self@ == (EmuState { screen: self@.screen, ..s0 }),
                    self.sp == old(self).sp,
                    forall|k: int| 0 <= k < SCREEN_SIZE ==>
                        self.screen@[k] == (s0.screen[k] != covers_upto(s0, vx, vy, n, row as int, col as int, k)),
                    flipped == collides_upto(s0, vx, vy, n, row as int, col as int),
                decreases 8 - col,
            {
                let ghost before = self.screen@;
                let ghost was_flipped = flipped;
                let px = (vx as usize + col as usize) % SCREEN_WIDTH;
                let py = (vy as usize + row as usize) % SCREEN_HEIGHT;
                let idx = px + SCREEN_WIDTH * py;
                let ghost k0 = pixel_index(vx + col, vy + row);
                assert(idx == k0);
                if pixels & (0x80u8 >> col) != 0 {
                    flipped = flipped || self.screen[idx];
                    self.screen[idx] = !self.screen[idx];
                }
                proof {
                    assert forall|r: int, c: int|
                        0 <= r < n && 0 <= c < 8 && #[trigger] pixel_index(vx + c, vy + r) == k0
                        implies r == row && c == col by {
                        lemma_pixel_index_injective(vx as u32, vy as u32, c as u32, r as u32, col as u32, row as u32);
                    }
                    assert(!covers_upto(s0, vx, vy, n, row as int, col as int, k0));
                    assert forall|k: int| 0 <= k < SCREEN_SIZE implies
                        self.screen@[k] == (s0.screen[k] != covers_upto(s0, vx, vy, n, row as int, col + 1, k)) by {
                        if k == k0 && sprite_pixel(pixels, col) {
                            assert(pixel_index(vx + col, vy + row) == k);
                        } else if covers_upto(s0, vx, vy, n, row as int, col + 1, k) {
                            let (r, c) = choose|r: int, c: int|
                                0 <= r < n && 0 <= c < 8 && (r < row || (r == row && c < col + 1))
                                    && sprite_pixel(s0.ram[s0.i + r], c as u8)
                                    && #[trigger] pixel_index(vx + c, vy + r) == k;
                            assert(covers_upto(s0, vx, vy, n, row as int, col as int, k));
                        }
                    }
                    if sprite_pixel(pixels, col) {
                        assert(pixel_index(vx + col, vy + row) == k0);
                    }
                    if collides_upto(s0, vx, vy, n, row as int, col + 1) {
                        let (r, c) = choose|r: int, c: int|
                            0 <= r < n && 0 <= c < 8 && (r < row || (r == row && c < col + 1))
                                && sprite_pixel(s0.ram[s0.i + r], c as u8)
                                && s0.screen[#[trigger] pixel_index(vx + c, vy + r)];
                        if !(r == row && c == col) {
                            assert(collides_upto(s0, vx, vy, n, row as int, col as int));
                        }
                    }
                    if collides_upto(s0, vx, vy, n, row as int, col as int) {
                        let (r, c) = choose|r: int, c: int|
                            0 <= r < n && 0 <= c < 8 && (r < row || (r == row && c < col))
                                && sprite_pixel(s0.ram[s0.i + r], c as u8)
                                && s0.screen[#[trigger] pixel_index(vx + c, vy + r)];
                        assert(collides_upto(s0, vx, vy, n, row as int, col + 1));
                    }
                    assert(self@.screen =~= self.screen@);
                }
                col += 1;
            }
            proof {
                assert forall|k: int| 0 <= k < SCREEN_SIZE implies
                    covers_upto(s0, vx, vy, n, row as int, 8, k) == covers_upto(s0, vx, vy, n, row + 1, 0, k) by {
                    if covers_upto(s0, vx, vy, n, row as int, 8, k) {
                        let (r, c) = choose|r: int, c: int|
                            0 <= r < n && 0 <= c < 8 && (r < row || (r == row && c < 8))
                                && sprite_pixel(s0.ram[s0.i + r], c as u8)
                                && #[trigger] pixel_index(vx + c, vy + r) == k;
                        assert(covers_upto(s0, vx, vy, n, row + 1, 0, k));
                    }
                    if covers_upto(s0, vx, vy, n, row + 1, 0, k) {
                        let (r, c) = choose|r: int, c: int|
                            0 <= r < n && 0 <= c < 8 && (r < row + 1 || (r == row + 1 && c < 0))
                                && sprite_pixel(s0.ram[s0.i + r], c as u8)
                                && #[trigger] pixel_index(vx + c, vy + r) == k;
                        assert(covers_upto(s0, vx, vy, n, row as int, 8, k));
                    }
                }
                if collides_upto(s0, vx, vy, n, row as int, 8) {
                    let (r, c) = choose|r: int, c: int|
                        0 <= r < n && 0 <= c < 8 && (r < row || (r == row && c < 8))
                            && sprite_pixel(s0.ram[s0.i + r], c as u8)
                            && s0.screen[#[trigger] pixel_index(vx + c, vy + r)];
                    assert(collides_upto(s0, vx, vy, n, row + 1, 0));
                }
                if collides_upto(s0, vx, vy, n, row + 1, 0) {
                    let (r, c) = choose|r: int, c: int|
                        0 <= r < n && 0 <= c < 8 && (r < row + 1 || (r == row + 1 && c < 0))
                            && sprite_pixel(s0.ram[s0.i + r], c as u8)
                            && s0.screen[#[trigger] pixel_index(vx + c, vy + r)];
                    assert(collides_upto(s0, vx, vy, n, row as int, 8));
                }
            }
            row += 1;
        }
        self.v_reg[15] = if flipped { 1 } else { 0 };
        proof {
            assert forall|k: int| 0 <= k < SCREEN_SIZE implies
                covers_upto(s0, vx, vy, n, n as int, 0, k) == sprite_covers(s0, vx, vy, n, k) by {
                if sprite_covers(s0, vx, vy, n, k) {
                    let (r, c) = choose|r: int, c: int|
                        0 <= r < n && 0 <= c < 8 && sprite_pixel(s0.ram[s0.i + r], c as u8)
                            && #[trigger] pixel_index(vx + c, vy + r) == k;
                    assert(covers_upto(s0, vx, vy, n, n as int, 0, k));
                }
            }
            if sprite_collides(s0, vx, vy, n) {
                let (r, c) = choose|r: int, c: int|
                    0 <= r < n && 0 <= c < 8 && sprite_pixel(s0.ram[s0.i + r], c as u8)
                        && s0.screen[#[trigger] pixel_index(vx + c, vy + r)];
                assert(collides_upto(s0, vx, vy, n, n as int, 0));
            }
            assert(self.screen@ =~= drawn_screen(s0, vx, vy, n));
            assert(self.v_reg@ =~= s0.v.update(15, if sprite_collides(s0, vx, vy, n) { 1u8 } else { 0u8 }));
        }
        Ok(())
    }
}


/// The outcome of one fetch-and-execute cycle: the result, and the state after.
/// A fault in execution leaves the counter past the faulting word.
pub open spec fn cycle(s: EmuState, rnd: u8) -> (Result<(), Fault>, EmuState) {
    if s.pc + 1 >= RAM_SIZE {
        (Err(Fault::MemoryOutOfBounds), s)
    } else {
        let fetched = EmuState { pc: (s.pc + 2) as u16, ..s };
        match step(fetched, decode_spec(word_at(s.ram, s.pc as int)), rnd) {
            Ok(t) => (Ok(()), t),
            Err(e) => (Err(e), fetched),
        }
    }
}

impl Emulator {
    /// Stores the first key held down in VX, or moves the counter back onto
    /// this instruction where no key is held.
    fn wait_key(&mut self, x: usize)
        requires
            x < 16,
        ensures
            final(self).sp == old(self).sp,
            step(old(self)@, Instruction::WaitKey { x }, 0) == Ok::<EmuState, Fault>(final(self)@),
    {
        let mut k: usize = 0;
        while k < NUM_KEYS
            invariant
                x < 16,
                k <= NUM_KEYS,
                *self == *old(self),
                first_pressed(self.keys@) == first_pressed_from(self.keys@, k as int),
            decreases NUM_KEYS - k,
        {
            if self.keys[k] {
                self.v_reg[x] = k as u8;
                proof {
                    assert(self@ == set_v(old(self)@, x as int, k as u8));
                }
                return;
            }
            k += 1;
        }
        self.pc = self.pc.wrapping_sub(2);
    }

    /// Writes the decimal digits of VX to memory at I, I+1 and I+2.
    fn store_bcd(&mut self, x: usize) -> (r: Result<(), Fault>)
        requires
            x < 16,
        ensures
            final(self).sp == old(self).sp,
            match step(old(self)@, Instruction::StoreBcd { x }, 0) {
                Ok(t) => r == Ok::<(), Fault>(()) && final(self)@ == t,
                Err(e) => r == Err::<(), Fault>(e) && final(self)@ == old(self)@,
            },
    {
        let i = self.i_reg as usize;
        if i + 3 > RAM_SIZE {
            return Err(Fault::MemoryOutOfBounds);
        }
        let vx = self.v_reg[x];
        self.ram[i] = vx / 100;
        self.ram[i + 1] = (vx / 10) % 10;
        self.ram[i + 2] = vx % 10;
        proof {
            let s = old(self)@;
            assert(self.ram@ =~= Seq::new(s.ram.len(), |a: int|
                if s.i <= a < s.i + 3 { bcd_digit(s.v[x as int], a - s.i) } else { s.ram[a] }));
        }
        Ok(())
    }

    /// Writes V0..=VX to memory from I on.
    fn store_regs(&mut self, x: usize) -> (r: Result<(), Fault>)
        requires
            x < 16,
        ensures
            final(self).sp == old(self).sp,
            match step(old(self)@, Instruction::StoreRegs { x }, 0) {
                Ok(t) => r == Ok::<(), Fault>(()) && final(self)@ == t,
                Err(e) => r == Err::<(), Fault>(e) && final(self)@ == old(self)@,
            },
    {
        let i = self.i_reg as usize;
        if i + x + 1 > RAM_SIZE {
            return Err(Fault::MemoryOutOfBounds);
        }
        let ghost s = old(self)@;
        let mut k: usize = 0;
        while k <= x
            invariant
                x < 16,
                i == s.i,
                i + x + 1 <= RAM_SIZE,
                k <= x + 1,
                self@ == (EmuState { ram: self.ram@, ..s }),
                self.sp == old(self).sp,
                self.ram@ == Seq::new(s.ram.len(), |a: int| if s.i <= a < s.i + k { s.v[a - s.i] } else { s.ram[a] }),
            decreases x + 1 - k,
        {
            self.ram[i + k] = self.v_reg[k];
            k += 1;
            proof {
                assert(self.ram@ =~= Seq::new(s.ram.len(), |a: int| if s.i <= a < s.i + k { s.v[a - s.i] } else { s.ram[a] }));
            }
        }
        proof {
            assert(self.ram@ =~= Seq::new(s.ram.len(), |a: int| if s.i <= a <= s.i + x { s.v[a - s.i] } else { s.ram[a] }));
        }
        Ok(())
    }

    /// Reads V0..=VX from memory from I on.
    fn load_regs(&mut self, x: usize) -> (r: Result<(), Fault>)
        requires
            x < 16,
        ensures
            final(self).sp == old(self).sp,
            match step(old(self)@, Instruction::LoadRegs { x }, 0) {
                Ok(t) => r == Ok::<(), Fault>(()) && final(self)@ == t,
                Err(e) => r == Err::<(), Fault>(e) && final(self)@ == old(self)@,
            },
    {
        let i = self.i_reg as usize;
        if i + x + 1 > RAM_SIZE {
            return Err(Fault::MemoryOutOfBounds);
        }
        let ghost s = old(self)@;
        let mut k: usize = 0;
        while k <= x
            invariant
                x < 16,
                i == s.i,
                i + x + 1 <= RAM_SIZE,
                k <= x + 1,
                self@ == (EmuState { v: self.v_reg@, ..s }),
                self.sp == old(self).sp,
                self.v_reg@ == Seq::new(s.v.len(), |r: int| if r < k { s.ram[s.i + r] } else { s.v[r] }),
            decreases x + 1 - k,
        {
            self.v_reg[k] = self.ram[i + k];
            k += 1;
            proof {
                assert(self.v_reg@ =~= Seq::new(s.v.len(), |r: int| if r < k { s.ram[s.i + r] } else { s.v[r] }));
            }
        }
        proof {
            assert(self.v_reg@ =~= Seq::new(s.v.len(), |r: int| if r <= x { s.ram[s.i + r] } else { s.v[r] }));
        }
        Ok(())
    }
}


impl Emulator {
    /// Carries out one decoded instruction.
    #[verifier::rlimit(50)]
    fn apply(&mut self, ins: Instruction, rnd: u8) -> (r: Result<(), Fault>)
        requires
            old(self).wf(),
            operands_in_range(ins),
        ensures
            final(self).wf(),
            match step(old(self)@, ins, rnd) {
                Ok(t) => r == Ok::<(), Fault>(()) && final(self)@ == t,
                Err(e) => r == Err::<(), Fault>(e) && final(self)@ == old(self)@,
            },
    {
        match ins {
            Instruction::Nop => {},
            Instruction::ClearScreen => {
                self.screen = [false; SCREEN_SIZE];
                assert(self.screen@ =~= Seq::new(SCREEN_SIZE as nat, |k: int| false));
            },
            Instruction::Return => {
                match self.pop() {
                    Ok(addr) => self.pc = addr,
                    Err(e) => return Err(e),
                }
            },
            Instruction::Jump { addr } => self.pc = addr,
            Instruction::Call { addr } => {
                match self.push(self.pc) {
                    Ok(()) => self.pc = addr,
                    Err(e) => return Err(e),
                }
            },
            Instruction::SkipEqByte { x, nn } => {
                if self.v_reg[x] == nn {
                    self.pc = self.pc.wrapping_add(2);
                }
            },
            Instruction::SkipNeByte { x, nn } => {
                if self.v_reg[x] != nn {
                    self.pc = self.pc.wrapping_add(2);
                }
            },
            Instruction::SkipEqReg { x, y } => {
                if self.v_reg[x] == self.v_reg[y] {
                    self.pc = self.pc.wrapping_add(2);
                }
            },
            Instruction::LoadByte { x, nn } => self.v_reg[x] = nn,
            Instruction::AddByte { x, nn } => self.v_reg[x] = self.v_reg[x].wrapping_add(nn),
            Instruction::Move { x, y } => self.v_reg[x] = self.v_reg[y],
            Instruction::Or { x, y } => self.v_reg[x] = self.v_reg[x] | self.v_reg[y],
            Instruction::And { x, y } => self.v_reg[x] = self.v_reg[x] & self.v_reg[y],
            Instruction::Xor { x, y } => self.v_reg[x] = self.v_reg[x] ^ self.v_reg[y],
            Instruction::AddReg { x, y } => {
                let vx = self.v_reg[x];
                let vy = self.v_reg[y];
                let carry = vx as u16 + vy as u16 > 255;
                self.v_reg[x] = vx.wrapping_add(vy);
                self.v_reg[15] = if carry { 1 } else { 0 };
            },
            Instruction::SubReg { x, y } => {
                let vx = self.v_reg[x];
                let vy = self.v_reg[y];
                self.v_reg[x] = vx.wrapping_sub(vy);
                self.v_reg[15] = if vx >= vy { 1 } else { 0 };
            },
            Instruction::ShiftRight { x } => {
                let vx = self.v_reg[x];
                let dropped = vx & 1;
                let shifted = vx >> 1u8;
                assert(dropped == vx % 2 && shifted == vx / 2) by (bit_vector)
                    requires
                        dropped == vx & 1,
                        shifted == vx >> 1u8,
                ;
                self.v_reg[x] = shifted;
                self.v_reg[15] = dropped;
            },
            Instruction::SubRev { x, y } => {
                let vx = self.v_reg[x];
                let vy = self.v_reg[y];
                self.v_reg[x] = vy.wrapping_sub(vx);
                self.v_reg[15] = if vy < vx { 1 } else { 0 };
            },
            Instruction::ShiftLeft { x } => {
                let vx = self.v_reg[x];
                let dropped = (vx >> 7u8) & 1;
                let shifted = vx << 1u8;
                assert(dropped == vx / 128 && shifted == ((vx * 2) % 256) as u8) by (bit_vector)
                    requires
                        dropped == (vx >> 7u8) & 1,
                        shifted == vx << 1u8,
                ;
                self.v_reg[x] = shifted;
                self.v_reg[15] = dropped;
            },
            Instruction::SkipNeReg { x, y } => {
                if self.v_reg[x] != self.v_reg[y] {
                    self.pc = self.pc.wrapping_add(2);
                }
            },
            Instruction::LoadIndex { addr } => self.i_reg = addr,
            Instruction::JumpOffset { addr } => self.pc = self.v_reg[0] as u16 + addr,
            Instruction::Random { x, nn } => self.v_reg[x] = rnd & nn,
            Instruction::Draw { x, y, n } => return self.draw(x, y, n),
            Instruction::SkipKeyDown { x } => {
                let key = self.v_reg[x];
                if key as usize >= NUM_KEYS {
                    return Err(Fault::InvalidKey { key });
                }
                if self.keys[key as usize] {
                    self.pc = self.pc.wrapping_add(2);
                }
            },
            Instruction::SkipKeyUp { x } => {
                let key = self.v_reg[x];
                if key as usize >= NUM_KEYS {
                    return Err(Fault::InvalidKey { key });
                }
                if !self.keys[key as usize] {
                    self.pc = self.pc.wrapping_add(2);
                }
            },
            Instruction::ReadDelay { x } => self.v_reg[x] = self.dt,
            Instruction::WaitKey { x } => self.wait_key(x),
            Instruction::SetDelay { x } => self.dt = self.v_reg[x],
            Instruction::SetSound { x } => self.st = self.v_reg[x],
            Instruction::AddIndex { x } => self.i_reg = self.i_reg.wrapping_add(self.v_reg[x] as u16),
            Instruction::FontGlyph { x } => self.i_reg = self.v_reg[x] as u16 * 5,
            Instruction::StoreBcd { x } => return self.store_bcd(x),
            Instruction::StoreRegs { x } => return self.store_regs(x),
            Instruction::LoadRegs { x } => return self.load_regs(x),
            Instruction::Unknown { op } => return Err(Fault::UnknownOpcode { op }),
        }
        proof {
            assert(self.v_reg@ =~= step(old(self)@, ins, rnd).unwrap().v);
        }
        Ok(())
    }

    /// Decodes and carries out one instruction word. `rnd` is the random byte
    /// that `CXNN` masks; no other instruction reads it. On a fault the machine
    /// is left as it was.
    pub fn execute(&mut self, op: u16, rnd: u8) -> (r: Result<(), Fault>)
        requires
            old(self).wf(),
        ensures
            final(self).wf(),
            match step(old(self)@, decode_spec(op), rnd) {
                Ok(t) => r == Ok::<(), Fault>(()) && final(self)@ == t,
                Err(e) => r == Err::<(), Fault>(e) && final(self)@ == old(self)@,
            },
    {
        let ins = decode(op);
        self.apply(ins, rnd)
    }

    /// One fetch-decode-execute cycle. The random byte of `CXNN` is drawn
    /// from the thread-local generator.
    pub fn tick(&mut self) -> (r: Result<(), Fault>)
        requires
            old(self).wf(),
        ensures
            final(self).wf(),
            exists|rnd: u8| cycle(old(self)@, rnd) == (r, final(self)@),
    {
        let op = match self.fetch() {
            Ok(op) => op,
            Err(e) => {
                assert(cycle(old(self)@, 0) == (Err::<(), Fault>(e), self@));
                return Err(e);
            },
        };
        let ins = decode(op);
        let rnd = match ins {
            Instruction::Random { .. } => random_byte(),
            _ => 0,
        };
        let r = self.apply(ins, rnd);
        assert(cycle(old(self)@, rnd) == (r, self@));
        r
    }
}

} // verus!
