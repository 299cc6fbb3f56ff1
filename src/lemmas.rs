//! Laws of the machine, stated over the abstract transition `step`.
use vstd::prelude::*;

use crate::emulator::{
    lemma_pixel_index_injective, cycle, drawn_screen, first_pressed, first_pressed_from, pixel_index, set_v, sized,
    sprite_collides, sprite_covers, sprite_pixel, step, word_at, EmuState, Emulator, NUM_KEYS,
    RAM_SIZE, SCREEN_SIZE,
};
use crate::emulator::Fault;
use crate::instruction::{decode_spec, nibble, Instruction};

verus! {

/// The abstract state of a well-formed machine is full-size: the laws below
/// apply to every such machine.
pub proof fn lemma_view_sized(e: Emulator)
    requires
        e.wf(),
    ensures
        sized(e@),
{
}

proof fn lemma_nibbles(op: u16)
    ensures
        nibble(op, 0) < 16,
        nibble(op, 1) < 16,
        nibble(op, 2) < 16,
        nibble(op, 3) < 16,
        nibble(op, 0) != 0 ==> op >= 0x1000,
        op & 0xFFu16 < 256,
{
    assert(nibble(op, 0) < 16 && nibble(op, 1) < 16 && nibble(op, 2) < 16 && nibble(op, 3) < 16)
        by (bit_vector);
    assert(nibble(op, 0) != 0 ==> op >= 0x1000) by (bit_vector);
    assert(op & 0xFFu16 < 256) by (bit_vector);
}

/// The arithmetic instructions compute modulo 256. `8XY4` sets VF on a carry,
/// `8XY5` sets VF when VX - VY does not borrow, and `8XY7` sets VF when
/// VY - VX does borrow. VF is written after VX, so the flag is what VF holds
/// when X is F.
pub proof fn lemma_arithmetic_wraps(s: EmuState, op: u16, rnd: u8)
    requires
        sized(s),
    ensures
        ({
            let x = nibble(op, 1) as int;
            let y = nibble(op, 2) as int;
            let nn = (op & 0xFFu16) as int;
            let t = step(s, decode_spec(op), rnd);
            &&& nibble(op, 0) == 7 ==> t is Ok && t.unwrap().v[x] == (s.v[x] + nn) % 256
                && t.unwrap().v.len() == 16
                && (forall|r: int| 0 <= r < 16 && r != x ==> t.unwrap().v[r] == s.v[r])
            &&& nibble(op, 0) == 8 && nibble(op, 3) == 4 ==> t is Ok
                && t.unwrap().v[15] == (if s.v[x] + s.v[y] >= 256 { 1int } else { 0int })
                && (x != 15 ==> t.unwrap().v[x] == (s.v[x] + s.v[y]) % 256)
            &&& nibble(op, 0) == 8 && nibble(op, 3) == 5 ==> t is Ok
                && t.unwrap().v[15] == (if s.v[x] >= s.v[y] { 1int } else { 0int })
                && (x != 15 ==> t.unwrap().v[x] == (s.v[x] - s.v[y]) % 256)
            &&& nibble(op, 0) == 8 && nibble(op, 3) == 7 ==> t is Ok
                && t.unwrap().v[15] == (if s.v[y] < s.v[x] { 1int } else { 0int })
                && (x != 15 ==> t.unwrap().v[x] == (s.v[y] - s.v[x]) % 256)
        }),
{
    lemma_nibbles(op);
}

/// There is one state that construction builds: any two machines that are
/// both in it are equal. `reset` ends in that state whatever came before,
/// a loaded program included, so a reset machine equals a new one.
pub proof fn lemma_initial_state_unique(a: Emulator, b: Emulator)
    requires
        a.is_initial(),
        b.is_initial(),
    ensures
        a == b,
{
    assert(a.ram =~= b.ram);
    assert(a.screen =~= b.screen);
    assert(a.v_reg =~= b.v_reg);
    assert(a.stack =~= b.stack);
    assert(a.keys =~= b.keys);
}

/// Drawing a sprite twice at the same place leaves the screen as it was.
/// On a blank screen the first draw reports no collision, and the second
/// reports one exactly when the sprite has a set bit.
pub proof fn lemma_draw_twice_erases(s: EmuState, x: usize, y: usize, n: u8, rnd: u8)
    requires
        sized(s),
        x < 15,
        y < 15,
        n < 16,
        s.i + n <= RAM_SIZE,
    ensures
        ({
            let ins = Instruction::Draw { x, y, n };
            let t1 = step(s, ins, rnd);
            let t2 = step(t1.unwrap(), ins, rnd);
            &&& t1 is Ok
            &&& t2 is Ok
            &&& t2.unwrap().screen == s.screen
            &&& (forall|k: int| 0 <= k < SCREEN_SIZE ==> !s.screen[k]) ==> {
                &&& t1.unwrap().v[15] == 0
                &&& t2.unwrap().v[15] == (if exists|r: int, c: int|
                    0 <= r < n && 0 <= c < 8 && #[trigger] sprite_pixel(s.ram[s.i + r], c as u8) { 1int } else { 0int })
            }
        }),
{
    let ins = Instruction::Draw { x, y, n };
    let vx = s.v[x as int];
    let vy = s.v[y as int];
    let t1 = step(s, ins, rnd).unwrap();
    assert(t1.v[x as int] == vx && t1.v[y as int] == vy);
    assert forall|k: int| 0 <= k < SCREEN_SIZE implies
        sprite_covers(t1, vx, vy, n, k) == sprite_covers(s, vx, vy, n, k) by {
    }
    let t2 = step(t1, ins, rnd).unwrap();
    assert(t2.screen =~= s.screen);
    if forall|k: int| 0 <= k < SCREEN_SIZE ==> !s.screen[k] {
        if sprite_collides(s, vx, vy, n) {
            let (r, c) = choose|r: int, c: int|
                0 <= r < n && 0 <= c < 8 && sprite_pixel(s.ram[s.i + r], c as u8)
                    && s.screen[#[trigger] pixel_index(vx + c, vy + r)];
            assert(0 <= pixel_index(vx + c, vy + r) < SCREEN_SIZE);
        }
        if exists|r: int, c: int| 0 <= r < n && 0 <= c < 8 && #[trigger] sprite_pixel(s.ram[s.i + r], c as u8) {
            let (r, c) = choose|r: int, c: int|
                0 <= r < n && 0 <= c < 8 && #[trigger] sprite_pixel(s.ram[s.i + r], c as u8);
            let k = pixel_index(vx + c, vy + r);
            assert(0 <= k < SCREEN_SIZE);
            assert(sprite_covers(s, vx, vy, n, k));
            assert(t1.screen[k]);
            assert(sprite_collides(t1, vx, vy, n));
        }
        if sprite_collides(t1, vx, vy, n) {
            let (r, c) = choose|r: int, c: int|
                0 <= r < n && 0 <= c < 8 && sprite_pixel(t1.ram[t1.i + r], c as u8)
                    && t1.screen[#[trigger] pixel_index(vx + c, vy + r)];
            assert(sprite_pixel(s.ram[s.i + r], c as u8));
        }
    }
}

/// `00E0` leaves every pixel dark, whatever the screen held.
pub proof fn lemma_clear_screen(s: EmuState, rnd: u8)
    requires
        sized(s),
    ensures
        step(s, decode_spec(0x00E0), rnd) is Ok,
        step(s, decode_spec(0x00E0), rnd).unwrap().screen.len() == SCREEN_SIZE,
        forall|k: int| 0 <= k < SCREEN_SIZE ==> !(#[trigger] step(s, decode_spec(0x00E0), rnd).unwrap().screen[k]),
{
    assert(decode_spec(0x00E0) == Instruction::ClearScreen);
}


/// A one-row sprite drawn at (63, 31) wraps to the left edge: its bit `c`
/// lands on column (63 + c) mod 64 of the bottom row, so column 0 takes bit 1.
pub proof fn lemma_draw_wraps(s: EmuState, x: usize, y: usize, rnd: u8)
    requires
        sized(s),
        x < 16,
        y < 16,
        s.v[x as int] == 63,
        s.v[y as int] == 31,
        s.i + 1 <= RAM_SIZE,
    ensures
        step(s, Instruction::Draw { x, y, n: 1 }, rnd) is Ok,
        forall|c: int| 0 <= c < 8 ==>
            #[trigger] step(s, Instruction::Draw { x, y, n: 1 }, rnd).unwrap().screen[(63 + c) % 64 + 64 * 31]
                == (s.screen[(63 + c) % 64 + 64 * 31] != sprite_pixel(s.ram[s.i as int], c as u8)),
{
    let t = step(s, Instruction::Draw { x, y, n: 1 }, rnd).unwrap();
    assert forall|c: int| 0 <= c < 8 implies
        #[trigger] t.screen[(63 + c) % 64 + 64 * 31]
            == (s.screen[(63 + c) % 64 + 64 * 31] != sprite_pixel(s.ram[s.i as int], c as u8)) by {
        let k = (63 + c) % 64 + 64 * 31;
        assert(k == pixel_index(63 + c, 31int + 0));
        if sprite_pixel(s.ram[s.i as int], c as u8) {
            assert(sprite_covers(s, 63, 31, 1, k));
        }
        if sprite_covers(s, 63, 31, 1, k) {
            let (r, c2) = choose|r: int, c2: int|
                0 <= r < 1 && 0 <= c2 < 8 && sprite_pixel(s.ram[s.i + r], c2 as u8)
                    && #[trigger] pixel_index(63 + c2, 31 + r) == k;
            lemma_pixel_index_injective(63, 31, c2 as u32, r as u32, c as u32, 0);
        }
    }
}

proof fn lemma_first_pressed_from(keys: Seq<bool>, k: int)
    requires
        keys.len() == NUM_KEYS,
        0 <= k <= NUM_KEYS,
    ensures
        k <= first_pressed_from(keys, k) <= NUM_KEYS,
        first_pressed_from(keys, k) < NUM_KEYS ==> keys[first_pressed_from(keys, k)],
        forall|j: int| k <= j < first_pressed_from(keys, k) ==> !keys[j],
    decreases NUM_KEYS - k,
{
    if k < NUM_KEYS && !keys[k] {
        lemma_first_pressed_from(keys, k + 1);
    }
}

/// `FX0A` with no key held runs to the same state it started from, so it is
/// fetched again on the next cycle. With keys held it stores the lowest held
/// key in VX and moves on past itself.
pub proof fn lemma_wait_key(s: EmuState, rnd: u8)
    requires
        sized(s),
        s.pc + 1 < RAM_SIZE,
        nibble(word_at(s.ram, s.pc as int), 0) == 0xF,
        nibble(word_at(s.ram, s.pc as int), 2) == 0,
        nibble(word_at(s.ram, s.pc as int), 3) == 0xA,
    ensures
        (forall|k: int| 0 <= k < NUM_KEYS ==> !s.keys[k]) ==> cycle(s, rnd) == (Ok::<(), Fault>(()), s),
        (exists|k: int| 0 <= k < NUM_KEYS && s.keys[k]) ==> exists|m: int|
            0 <= m < NUM_KEYS && s.keys[m] && (forall|j: int| 0 <= j < m ==> !s.keys[j])
                && cycle(s, rnd) == (Ok::<(), Fault>(()), EmuState {
                    pc: (s.pc + 2) as u16,
                    v: s.v.update(nibble(word_at(s.ram, s.pc as int), 1) as int, m as u8),
                    ..s
                }),
{
    let op = word_at(s.ram, s.pc as int);
    lemma_nibbles(op);
    lemma_first_pressed_from(s.keys, 0);
    assert(decode_spec(op) == Instruction::WaitKey { x: nibble(op, 1) as usize });
    let m = first_pressed(s.keys);
    if exists|k: int| 0 <= k < NUM_KEYS && s.keys[k] {
        let k = choose|k: int| 0 <= k < NUM_KEYS && s.keys[k];
        assert(m <= k);
        assert(cycle(s, rnd).1 == set_v(EmuState { pc: (s.pc + 2) as u16, ..s }, nibble(op, 1) as int, m as u8));
    }
}

} // verus!
