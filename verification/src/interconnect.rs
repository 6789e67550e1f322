//! The memory-mapped interconnect: 4KB of addressable memory with the font
//! table at its base, the monochrome framebuffer, and the 16-key input latch.

use vstd::arithmetic::div_mod::{
    lemma_fundamental_div_mod_converse_mod, lemma_mod_bound, lemma_mod_equivalence,
    lemma_small_mod,
};
use vstd::pervasive::VecAdditionalExecFns;
use vstd::prelude::*;

use crate::errors::Chip8Error;

verus! {

/// Width of the screen in pixels.
pub const SCREEN_WIDTH: usize = 64;

/// Height of the screen in pixels.
pub const SCREEN_HEIGHT: usize = 32;

/// Number of cells in the framebuffer.
pub const GRAPHICS_SIZE: usize = 2048;

/// Extent of addressable memory in bytes.
pub const MEM_SIZE: usize = 4096;

/// Where the font table starts in memory.
pub const FONTS_START: usize = 0;

/// Bytes per font glyph: five rows of eight pixels.
pub const FONT_SIZE: usize = 5;

/// Where program bytes are loaded.
pub const PROGRAM_START: usize = 0x200;

/// The sixteen currently-held flags of the hex keypad.
pub struct Keys(pub [bool; 16]);

/// The interconnect: memory, framebuffer and keypad, exclusively owned and
/// mutated by the single execution thread.
pub struct Interconnect {
    /// The keypad's currently-held flags.
    pub keys: Keys,
    ram: Vec<u8>,
    /// The framebuffer, row-major: cell `y * 64 + x` is the pixel at `(x, y)`.
    pub graphics: [bool; GRAPHICS_SIZE],
    block_key: Option<u8>,
}

/// The five rows of each of the sixteen font glyphs for hex digits 0 to F,
/// one byte per row, most significant bit leftmost.
pub open spec fn font_seq() -> Seq<u8> {
    seq![
        0xF0u8, 0x90, 0x90, 0x90, 0xF0,
        0x20, 0x60, 0x20, 0x20, 0x70,
        0xF0, 0x10, 0xF0, 0x80, 0xF0,
        0xF0, 0x10, 0xF0, 0x10, 0xF0,
        0x90, 0x90, 0xF0, 0x10, 0x10,
        0xF0, 0x80, 0xF0, 0x10, 0xF0,
        0xF0, 0x80, 0xF0, 0x90, 0xF0,
        0xF0, 0x10, 0x20, 0x40, 0x40,
        0xF0, 0x90, 0xF0, 0x90, 0xF0,
        0xF0, 0x90, 0xF0, 0x10, 0xF0,
        0xF0, 0x90, 0xF0, 0x90, 0x90,
        0xE0, 0x90, 0xE0, 0x90, 0xE0,
        0xF0, 0x80, 0x80, 0x80, 0xF0,
        0xE0, 0x90, 0x90, 0x90, 0xE0,
        0xF0, 0x80, 0xF0, 0x80, 0xF0,
        0xF0, 0x80, 0xF0, 0x80, 0x80,
    ]
}

/// Memory as it stands after initialization: the font table, then zeroes.
pub open spec fn init_mem() -> Seq<u8> {
    Seq::new(MEM_SIZE as nat, |i: int| if i < 80 { font_seq()[i] } else { 0u8 })
}

/// The font table as a vector, glyph 0 first.
fn font_data() -> (v: Vec<u8>)
    ensures
        v@ == font_seq(),
{
    let v: Vec<u8> = vec![
        0xF0u8, 0x90, 0x90, 0x90, 0xF0,
        0x20, 0x60, 0x20, 0x20, 0x70,
        0xF0, 0x10, 0xF0, 0x80, 0xF0,
        0xF0, 0x10, 0xF0, 0x10, 0xF0,
        0x90, 0x90, 0xF0, 0x10, 0x10,
        0xF0, 0x80, 0xF0, 0x10, 0xF0,
        0xF0, 0x80, 0xF0, 0x90, 0xF0,
        0xF0, 0x10, 0x20, 0x40, 0x40,
        0xF0, 0x90, 0xF0, 0x90, 0xF0,
        0xF0, 0x90, 0xF0, 0x10, 0xF0,
        0xF0, 0x90, 0xF0, 0x90, 0x90,
        0xE0, 0x90, 0xE0, 0x90, 0xE0,
        0xF0, 0x80, 0x80, 0x80, 0xF0,
        0xE0, 0x90, 0x90, 0x90, 0xE0,
        0xF0, 0x80, 0xF0, 0x80, 0xF0,
        0xF0, 0x80, 0xF0, 0x80, 0x80,
    ];
    assert(v@ =~= font_seq());
    v
}

/// Whether pixel `index` of a sprite row byte is set; pixel 0 is the most
/// significant bit.
pub open spec fn spec_bit_index(byte: u8, index: int) -> bool {
    (byte >> ((7 - index) as u8)) & 1 == 1
}

/// Whether pixel `index` of a sprite row byte is set; pixel 0 is leftmost.
pub fn bit_index(byte: u8, index: usize) -> (b: bool)
    requires
        index < 8,
    ensures
        b == spec_bit_index(byte, index as int),
{
    (byte >> (7 - index) as u8 & 1) == 1
}

/// The framebuffer cell a coordinate pair lands on, wrapping both axes.
pub open spec fn screen_index(x: int, y: int) -> int {
    (y % (SCREEN_HEIGHT as int)) * (SCREEN_WIDTH as int) + (x % (SCREEN_WIDTH as int))
}

/// A mathematical snapshot of the interconnect: what memory, the screen, the
/// keypad and the latch hold.
pub struct InterconnectView {
    /// The contents of addressable memory.
    pub mem: Seq<u8>,
    /// The framebuffer's cells, row-major.
    pub screen: Seq<bool>,
    /// The keypad's currently-held flags.
    pub keys: Seq<bool>,
    /// The key recorded by the blocking-read latch, if one is pending.
    pub pending: Option<u8>,
}

impl View for Interconnect {
    type V = InterconnectView;

    open spec fn view(&self) -> InterconnectView {
        InterconnectView {
            mem: self.mem(),
            screen: self.screen(),
            keys: self.held_keys(),
            pending: self.pending_key(),
        }
    }
}

/// Whether drawing `sprite` at `(x, y)` touches framebuffer cell `i`: some
/// set sprite pixel lands there after wrapping.
pub open spec fn sprite_covers(sprite: Seq<u8>, x: int, y: int, i: int) -> bool {
    exists|r: int, c: int|
        0 <= r < sprite.len() && 0 <= c < 8 && #[trigger] spec_bit_index(sprite[r], c) && i
            == screen_index(x + c, y + r)
}

/// The framebuffer after XOR-drawing `sprite` at `(x, y)` onto `g`: every
/// covered cell is toggled, every other cell keeps its value.
pub open spec fn spec_draw_grid(g: Seq<bool>, sprite: Seq<u8>, x: int, y: int) -> Seq<bool> {
    Seq::new(g.len(), |i: int| g[i] != sprite_covers(sprite, x, y, i))
}

/// Whether XOR-drawing `sprite` at `(x, y)` onto `g` turns some set pixel
/// off: a set sprite pixel lands on a set cell.
pub open spec fn spec_draw_collision(g: Seq<bool>, sprite: Seq<u8>, x: int, y: int) -> bool {
    exists|r: int, c: int|
        0 <= r < sprite.len() && 0 <= c < 8 && #[trigger] spec_bit_index(sprite[r], c) && g[
            screen_index(x + c, y + r)]
}

/// Like `sprite_covers`, but counting only the sprite pixels already
/// processed: full rows before `row`, and columns before `col` of `row`.
spec fn covers_before(sprite: Seq<u8>, x: int, y: int, i: int, row: int, col: int) -> bool {
    exists|r: int, c: int|
        0 <= r < sprite.len() && 0 <= c < 8 && (r < row || (r == row && c < col))
            && #[trigger] spec_bit_index(sprite[r], c) && i == screen_index(x + c, y + r)
}

/// Like `spec_draw_collision`, but counting only the sprite pixels already
/// processed.
spec fn collision_before(
    g: Seq<bool>,
    sprite: Seq<u8>,
    x: int,
    y: int,
    row: int,
    col: int,
) -> bool {
    exists|r: int, c: int|
        0 <= r < sprite.len() && 0 <= c < 8 && (r < row || (r == row && c < col))
            && #[trigger] spec_bit_index(sprite[r], c) && g[screen_index(x + c, y + r)]
}


/// The lowercase hex digit character for a nibble value.
pub open spec fn hex_char(n: int) -> char {
    if n == 0 {
        '0'
    } else if n == 1 {
        '1'
    } else if n == 2 {
        '2'
    } else if n == 3 {
        '3'
    } else if n == 4 {
        '4'
    } else if n == 5 {
        '5'
    } else if n == 6 {
        '6'
    } else if n == 7 {
        '7'
    } else if n == 8 {
        '8'
    } else if n == 9 {
        '9'
    } else if n == 10 {
        'a'
    } else if n == 11 {
        'b'
    } else if n == 12 {
        'c'
    } else if n == 13 {
        'd'
    } else if n == 14 {
        'e'
    } else {
        'f'
    }
}

/// The text listed for the first `i` keys: the hex digit of each held key,
/// followed by a comma and a space.
pub open spec fn keys_text_upto(keys: Seq<bool>, i: int) -> Seq<char>
    decreases i,
{
    if i <= 0 {
        Seq::empty()
    } else {
        keys_text_upto(keys, i - 1) + (if keys[i - 1] {
            seq![hex_char(i - 1), ',', ' ']
        } else {
            Seq::<char>::empty()
        })
    }
}

/// The lowercase hex digit for a nibble value, as a one-character string.
fn hex_digit_str(n: usize) -> (s: &'static str)
    requires
        n < 16,
    ensures
        s@ =~= seq![hex_char(n as int)],
{
    let s: &'static str = match n {
        0 => "0",
        1 => "1",
        2 => "2",
        3 => "3",
        4 => "4",
        5 => "5",
        6 => "6",
        7 => "7",
        8 => "8",
        9 => "9",
        10 => "a",
        11 => "b",
        12 => "c",
        13 => "d",
        14 => "e",
        _ => "f",
    };
    proof {
        reveal_strlit("0");
        reveal_strlit("1");
        reveal_strlit("2");
        reveal_strlit("3");
        reveal_strlit("4");
        reveal_strlit("5");
        reveal_strlit("6");
        reveal_strlit("7");
        reveal_strlit("8");
        reveal_strlit("9");
        reveal_strlit("a");
        reveal_strlit("b");
        reveal_strlit("c");
        reveal_strlit("d");
        reveal_strlit("e");
        reveal_strlit("f");
    }
    s
}

/// Two offsets below the modulus that wrap to the same residue are equal.
proof fn lemma_wrap_inj(base: int, a: int, b: int, m: int)
    requires
        m > 0,
        0 <= a < m,
        0 <= b < m,
        (base + a) % m == (base + b) % m,
    ensures
        a == b,
{
    lemma_mod_equivalence(base + a, base + b, m);
    assert((a - b) % m == 0);
    if a > b {
        lemma_small_mod((a - b) as nat, m as nat);
        assert(false);
    }
    if a < b {
        lemma_fundamental_div_mod_converse_mod(a - b, m, -1, a - b + m);
        assert(false);
    }
}

/// Distinct pixels of one sprite land on distinct framebuffer cells: rows
/// stay below the screen height and columns below the width, so wrapping
/// cannot fold two of them together.
proof fn lemma_screen_index_injective(x: int, y: int, r1: int, c1: int, r2: int, c2: int)
    requires
        0 <= x,
        0 <= y,
        0 <= r1 < 32,
        0 <= r2 < 32,
        0 <= c1 < 8,
        0 <= c2 < 8,
        screen_index(x + c1, y + r1) == screen_index(x + c2, y + r2),
    ensures
        r1 == r2,
        c1 == c2,
{
    lemma_mod_bound(y + r1, 32);
    lemma_mod_bound(y + r2, 32);
    lemma_mod_bound(x + c1, 64);
    lemma_mod_bound(x + c2, 64);
    assert((y + r1) % 32 == (y + r2) % 32);
    assert((x + c1) % 64 == (x + c2) % 64);
    lemma_wrap_inj(y, r1, r2, 32);
    lemma_wrap_inj(x, c1, c2, 64);
}

/// Every framebuffer cell index is in range.
proof fn lemma_screen_index_bound(x: int, y: int)
    ensures
        0 <= screen_index(x, y) < 2048,
{
    lemma_mod_bound(y, 32);
    lemma_mod_bound(x, 64);
}

impl Interconnect {
    /// The interconnect is well formed: memory spans the full extent.
    pub open spec fn wf(&self) -> bool {
        self.mem().len() == MEM_SIZE
    }

    /// The contents of addressable memory.
    pub closed spec fn mem(&self) -> Seq<u8> {
        self.ram@
    }

    /// The key recorded by the blocking-read latch, if one is pending.
    pub closed spec fn pending_key(&self) -> Option<u8> {
        self.block_key
    }

    /// The framebuffer's cells, row-major.
    pub closed spec fn screen(&self) -> Seq<bool> {
        self.graphics@
    }

    /// The keypad's currently-held flags.
    pub closed spec fn held_keys(&self) -> Seq<bool> {
        self.keys.0@
    }

    /// A fresh interconnect: the font table at the base of memory, zeroes
    /// above it, a blank screen, no key held and none pending.
    pub fn init() -> (ic: Self)
        ensures
            ic.wf(),
            ic.mem() == init_mem(),
            ic.screen() =~= Seq::new(GRAPHICS_SIZE as nat, |i: int| false),
            ic.held_keys() =~= Seq::new(16, |i: int| false),
            ic.pending_key() is None,
    {
        let mut ic = Interconnect {
            keys: Keys([false; 16]),
            ram: vec![0u8; MEM_SIZE],
            graphics: [false; GRAPHICS_SIZE],
            block_key: None,
        };
        let font = font_data();
        let mut idx: usize = 0;
        while idx < 80
            invariant
                ic.ram@.len() == MEM_SIZE,
                font@ == font_seq(),
                idx <= 80,
                forall|j: int| 0 <= j < idx ==> ic.ram@[j] == font_seq()[j],
                forall|j: int| idx <= j < MEM_SIZE ==> ic.ram@[j] == 0u8,
                forall|j: int| 0 <= j < GRAPHICS_SIZE ==> ic.graphics@[j] == false,
                forall|j: int| 0 <= j < 16 ==> ic.keys.0@[j] == false,
                ic.block_key is None,
            decreases 80 - idx,
        {
            ic.ram.set(idx + FONTS_START, font[idx]);
            idx += 1;
        }
        assert(ic.ram@ =~= init_mem());
        ic
    }

    /// The memory offset of the five-byte font sprite for a digit.
    pub fn get_font(&self, char: u8) -> (addr: usize)
        ensures
            addr == FONTS_START + FONT_SIZE * (char as int),
    {
        FONTS_START + char as usize * FONT_SIZE
    }

    /// The framebuffer cell a coordinate pair lands on; both axes wrap, so
    /// every pair lands somewhere.
    fn map_screen(&self, idx: usize, idy: usize) -> (r: Option<usize>)
        ensures
            r is Some,
            r->0 == screen_index(idx as int, idy as int),
            r->0 < GRAPHICS_SIZE,
    {
        proof {
            lemma_screen_index_bound(idx as int, idy as int);
        }
        Some((idy % SCREEN_HEIGHT) * SCREEN_WIDTH + (idx % SCREEN_WIDTH))
    }

    /// XOR-draws the sprite whose rows are the `sprite_size` memory bytes at
    /// `loc` onto the framebuffer with its top-left pixel at `(idx, idy)`.
    /// Coordinates wrap modulo the screen dimensions rather than clipping.
    /// Reports whether any pixel went from set to unset, judged across the
    /// whole sprite.
    pub fn draw_sprite(&mut self, loc: usize, idx: usize, idy: usize, sprite_size: usize) -> (collision:
        bool)
        requires
            old(self).wf(),
            loc + sprite_size <= MEM_SIZE,
            sprite_size <= SCREEN_HEIGHT,
            idx <= usize::MAX - 8,
            idy <= usize::MAX - SCREEN_HEIGHT,
        ensures
            final(self).wf(),
            final(self).screen() == spec_draw_grid(
                old(self).screen(),
                old(self).mem().subrange(loc as int, loc + sprite_size),
                idx as int,
                idy as int,
            ),
            collision == spec_draw_collision(
                old(self).screen(),
                old(self).mem().subrange(loc as int, loc + sprite_size),
                idx as int,
                idy as int,
            ),
            final(self).mem() == old(self).mem(),
            final(self).held_keys() == old(self).held_keys(),
            final(self).pending_key() == old(self).pending_key(),
    {
        let ghost g0 = old(self).screen();
        let ghost sprite = old(self).mem().subrange(loc as int, loc + sprite_size);
        let ghost x = idx as int;
        let ghost y = idy as int;
        let mut sprite_ptr = loc;
        let mut pixel_collision = false;
        let mut row: usize = 0;
        while row < sprite_size
            invariant
                self.wf(),
                self.mem() == old(self).mem(),
                self.held_keys() == old(self).held_keys(),
                self.pending_key() == old(self).pending_key(),
                g0 == old(self).screen(),
                g0.len() == GRAPHICS_SIZE,
                sprite == old(self).mem().subrange(loc as int, loc + sprite_size),
                sprite.len() == sprite_size,
                x == idx as int,
                y == idy as int,
                loc + sprite_size <= MEM_SIZE,
                sprite_size <= SCREEN_HEIGHT,
                idx <= usize::MAX - 8,
                idy <= usize::MAX - SCREEN_HEIGHT,
                row <= sprite_size,
                sprite_ptr == loc + row,
                forall|i: int|
                    0 <= i < GRAPHICS_SIZE ==> self.screen()[i] == (g0[i] != covers_before(
                        sprite,
                        x,
                        y,
                        i,
                        row as int,
                        0,
                    )),
                pixel_collision == collision_before(g0, sprite, x, y, row as int, 0),
            decreases sprite_size - row,
        {
            let sprite_byte = self.read_byte(sprite_ptr as u16);
            assert(sprite_byte == sprite[row as int]);
            sprite_ptr += 1;
            let mut col: usize = 0;
            while col < 8
                invariant
                    self.wf(),
                    self.mem() == old(self).mem(),
                    self.held_keys() == old(self).held_keys(),
                    self.pending_key() == old(self).pending_key(),
                    g0 == old(self).screen(),
                    g0.len() == GRAPHICS_SIZE,
                    sprite == old(self).mem().subrange(loc as int, loc + sprite_size),
                    sprite.len() == sprite_size,
                    x == idx as int,
                    y == idy as int,
                    loc + sprite_size <= MEM_SIZE,
                    sprite_size <= SCREEN_HEIGHT,
                    idx <= usize::MAX - 8,
                    idy <= usize::MAX - SCREEN_HEIGHT,
                    row < sprite_size,
                    col <= 8,
                    sprite_byte == sprite[row as int],
                    forall|i: int|
                        0 <= i < GRAPHICS_SIZE ==> self.screen()[i] == (g0[i] != covers_before(
                            sprite,
                            x,
                            y,
                            i,
                            row as int,
                            col as int,
                        )),
                    pixel_collision == collision_before(g0, sprite, x, y, row as int, col as int),
                decreases 8 - col,
            {
                let sprite_pixel = bit_index(sprite_byte, col);
                if let Some(coord) = self.map_screen(idx + col, idy + row) {
                    let ghost t = coord as int;
                    proof {
                        assert(t == screen_index(x + col, y + row));
                        // No earlier sprite pixel landed on this cell, so it
                        // still holds its original value.
                        if covers_before(sprite, x, y, t, row as int, col as int) {
                            let (r, c) = choose|r: int, c: int|
                                0 <= r < sprite.len() && 0 <= c < 8 && (r < row as int || (r
                                    == row as int && c < col as int)) && #[trigger] spec_bit_index(
                                    sprite[r],
                                    c,
                                ) && t == screen_index(x + c, y + r);
                            lemma_screen_index_injective(x, y, r, c, row as int, col as int);
                            assert(false);
                        }
                    }
                    let current_pixel = self.graphics[coord];
                    assert(current_pixel == g0[t]);
                    let new_pixel = match (current_pixel, sprite_pixel) {
                        (true, true) => {
                            pixel_collision = true;
                            false
                        },
                        (false, true) => true,
                        (true, false) => true,
                        (false, false) => false,
                    };
                    self.graphics[coord] = new_pixel;
                    proof {
                        let prow = row as int;
                        let pcol = col as int;
                        // Cells other than the target are exactly as covered
                        // as before this pixel.
                        assert forall|i: int| 0 <= i < GRAPHICS_SIZE && i != t implies covers_before(
                            sprite,
                            x,
                            y,
                            i,
                            prow,
                            pcol + 1,
                        ) == covers_before(sprite, x, y, i, prow, pcol) by {
                            if covers_before(sprite, x, y, i, prow, pcol + 1) {
                                let (r, c) = choose|r: int, c: int|
                                    0 <= r < sprite.len() && 0 <= c < 8 && (r < prow || (r == prow
                                        && c < pcol + 1)) && #[trigger] spec_bit_index(sprite[r], c)
                                        && i == screen_index(x + c, y + r);
                                if r == prow && c == pcol {
                                    assert(i == t);
                                } else {
                                    assert(covers_before(sprite, x, y, i, prow, pcol));
                                }
                            }
                            if covers_before(sprite, x, y, i, prow, pcol) {
                                assert(covers_before(sprite, x, y, i, prow, pcol + 1));
                            }
                        }
                        // The target cell is covered afterwards exactly when
                        // this pixel is set (no earlier pixel covered it).
                        if spec_bit_index(sprite[prow], pcol) {
                            assert(covers_before(sprite, x, y, t, prow, pcol + 1));
                        } else {
                            if covers_before(sprite, x, y, t, prow, pcol + 1) {
                                let (r, c) = choose|r: int, c: int|
                                    0 <= r < sprite.len() && 0 <= c < 8 && (r < prow || (r == prow
                                        && c < pcol + 1)) && #[trigger] spec_bit_index(sprite[r], c)
                                        && t == screen_index(x + c, y + r);
                                if !(r == prow && c == pcol) {
                                    lemma_screen_index_injective(x, y, r, c, prow, pcol);
                                }
                                assert(false);
                            }
                        }
                        // The collision flag accounts for this pixel.
                        if pixel_collision && !collision_before(g0, sprite, x, y, prow, pcol) {
                            assert(spec_bit_index(sprite[prow], pcol) && g0[t]);
                            assert(collision_before(g0, sprite, x, y, prow, pcol + 1));
                        }
                        assert(collision_before(g0, sprite, x, y, prow, pcol + 1) == (
                        collision_before(g0, sprite, x, y, prow, pcol) || (spec_bit_index(
                            sprite[prow],
                            pcol,
                        ) && g0[t]))) by {
                            if collision_before(g0, sprite, x, y, prow, pcol + 1) {
                                let (r, c) = choose|r: int, c: int|
                                    0 <= r < sprite.len() && 0 <= c < 8 && (r < prow || (r == prow
                                        && c < pcol + 1)) && #[trigger] spec_bit_index(sprite[r], c)
                                        && g0[screen_index(x + c, y + r)];
                                if !(r == prow && c == pcol) {
                                    assert(collision_before(g0, sprite, x, y, prow, pcol));
                                }
                            }
                            if collision_before(g0, sprite, x, y, prow, pcol) {
                                assert(collision_before(g0, sprite, x, y, prow, pcol + 1));
                            }
                            if spec_bit_index(sprite[prow], pcol) && g0[t] {
                                assert(collision_before(g0, sprite, x, y, prow, pcol + 1));
                            }
                        }
                    }
                }
                col += 1;
            }
            proof {
                // A finished row counts the same pixels as the start of the
                // next row.
                assert forall|i: int| 0 <= i < GRAPHICS_SIZE implies covers_before(
                    sprite,
                    x,
                    y,
                    i,
                    row as int,
                    8,
                ) == covers_before(sprite, x, y, i, row as int + 1, 0) by {
                    if covers_before(sprite, x, y, i, row as int, 8) {
                        assert(covers_before(sprite, x, y, i, row as int + 1, 0));
                    }
                    if covers_before(sprite, x, y, i, row as int + 1, 0) {
                        let (r, c) = choose|r: int, c: int|
                            0 <= r < sprite.len() && 0 <= c < 8 && (r < row as int + 1 || (r
                                == row as int + 1 && c < 0)) && #[trigger] spec_bit_index(
                                sprite[r],
                                c,
                            ) && i == screen_index(x + c, y + r);
                        assert(covers_before(sprite, x, y, i, row as int, 8));
                    }
                }
                if collision_before(g0, sprite, x, y, row as int, 8) {
                    assert(collision_before(g0, sprite, x, y, row as int + 1, 0));
                }
                if collision_before(g0, sprite, x, y, row as int + 1, 0) {
                    let (r, c) = choose|r: int, c: int|
                        0 <= r < sprite.len() && 0 <= c < 8 && (r < row as int + 1 || (r == row
                            as int + 1 && c < 0)) && #[trigger] spec_bit_index(sprite[r], c) && g0[
                            screen_index(x + c, y + r)];
                    assert(collision_before(g0, sprite, x, y, row as int, 8));
                }
            }
            row += 1;
        }
        proof {
            // Every sprite pixel has been processed.
            assert forall|i: int| 0 <= i < GRAPHICS_SIZE implies covers_before(
                sprite,
                x,
                y,
                i,
                sprite_size as int,
                0,
            ) == sprite_covers(sprite, x, y, i) by {
                if covers_before(sprite, x, y, i, sprite_size as int, 0) {
                    assert(sprite_covers(sprite, x, y, i));
                }
                if sprite_covers(sprite, x, y, i) {
                    let (r, c) = choose|r: int, c: int|
                        0 <= r < sprite.len() && 0 <= c < 8 && #[trigger] spec_bit_index(
                            sprite[r],
                            c,
                        ) && i == screen_index(x + c, y + r);
                    assert(covers_before(sprite, x, y, i, sprite_size as int, 0));
                }
            }
            if collision_before(g0, sprite, x, y, sprite_size as int, 0) {
                assert(spec_draw_collision(g0, sprite, x, y));
            }
            if spec_draw_collision(g0, sprite, x, y) {
                let (r, c) = choose|r: int, c: int|
                    0 <= r < sprite.len() && 0 <= c < 8 && #[trigger] spec_bit_index(sprite[r], c)
                        && g0[screen_index(x + c, y + r)];
                assert(collision_before(g0, sprite, x, y, sprite_size as int, 0));
            }
            assert(self.screen() =~= spec_draw_grid(g0, sprite, x, y));
        }
        pixel_collision
    }

    /// XOR-drawing is an involution: drawing the same sprite twice at the
    /// same coordinates restores every framebuffer cell, so the second draw
    /// clears every pixel the first one set.
    pub proof fn lemma_draw_involution(g: Seq<bool>, sprite: Seq<u8>, x: int, y: int)
        ensures
            spec_draw_grid(spec_draw_grid(g, sprite, x, y), sprite, x, y) == g,
    {
        let g1 = spec_draw_grid(g, sprite, x, y);
        assert forall|i: int| 0 <= i < g.len() implies spec_draw_grid(g1, sprite, x, y)[i]
            == g[i] by {
            assert(g1[i] == (g[i] != sprite_covers(sprite, x, y, i)));
        }
        assert(spec_draw_grid(g1, sprite, x, y) =~= g);
    }

    /// Drawing the same sprite a second time at the same coordinates
    /// reports a collision exactly when the first draw set some pixel: a set
    /// sprite pixel landed on an unset cell.
    pub proof fn lemma_draw_twice_collision(g: Seq<bool>, sprite: Seq<u8>, x: int, y: int)
        requires
            g.len() == GRAPHICS_SIZE,
            0 <= x,
            0 <= y,
        ensures
            spec_draw_collision(spec_draw_grid(g, sprite, x, y), sprite, x, y) == (exists|
                r: int,
                c: int,
            |
                0 <= r < sprite.len() && 0 <= c < 8 && #[trigger] spec_bit_index(sprite[r], c)
                    && !g[screen_index(x + c, y + r)]),
    {
        let g1 = spec_draw_grid(g, sprite, x, y);
        if spec_draw_collision(g1, sprite, x, y) {
            let (r, c) = choose|r: int, c: int|
                0 <= r < sprite.len() && 0 <= c < 8 && #[trigger] spec_bit_index(sprite[r], c)
                    && g1[screen_index(x + c, y + r)];
            let t = screen_index(x + c, y + r);
            lemma_screen_index_bound(x + c, y + r);
            assert(sprite_covers(sprite, x, y, t));
            assert(!g[t]);
        }
        if exists|r: int, c: int|
            0 <= r < sprite.len() && 0 <= c < 8 && #[trigger] spec_bit_index(sprite[r], c) && !g[
                screen_index(x + c, y + r)] {
            let (r, c) = choose|r: int, c: int|
                0 <= r < sprite.len() && 0 <= c < 8 && #[trigger] spec_bit_index(sprite[r], c)
                    && !g[screen_index(x + c, y + r)];
            let t = screen_index(x + c, y + r);
            lemma_screen_index_bound(x + c, y + r);
            assert(sprite_covers(sprite, x, y, t));
            assert(g1[t]);
            assert(spec_draw_collision(g1, sprite, x, y));
        }
    }

    /// A draw whose set pixels all land on unset cells reports no
    /// collision.
    pub proof fn lemma_draw_disjoint_no_collision(g: Seq<bool>, sprite: Seq<u8>, x: int, y: int)
        requires
            forall|r: int, c: int|
                0 <= r < sprite.len() && 0 <= c < 8 && #[trigger] spec_bit_index(sprite[r], c)
                    ==> !g[screen_index(x + c, y + r)],
        ensures
            !spec_draw_collision(g, sprite, x, y),
    {
    }

    /// Two draws whose footprints do not overlap never report a collision
    /// on a blank screen: the first finds every cell unset, and the second
    /// finds every cell of its own footprint still unset.
    pub proof fn lemma_two_disjoint_draws_no_collision(
        g: Seq<bool>,
        s1: Seq<u8>,
        x1: int,
        y1: int,
        s2: Seq<u8>,
        x2: int,
        y2: int,
    )
        requires
            g.len() == GRAPHICS_SIZE,
            forall|i: int| 0 <= i < g.len() ==> !g[i],
            0 <= x1,
            0 <= y1,
            0 <= x2,
            0 <= y2,
            forall|r: int, c: int|
                0 <= r < s2.len() && 0 <= c < 8 && #[trigger] spec_bit_index(s2[r], c)
                    ==> !sprite_covers(s1, x1, y1, screen_index(x2 + c, y2 + r)),
        ensures
            !spec_draw_collision(g, s1, x1, y1),
            !spec_draw_collision(spec_draw_grid(g, s1, x1, y1), s2, x2, y2),
    {
        let g1 = spec_draw_grid(g, s1, x1, y1);
        assert forall|r: int, c: int|
            0 <= r < s1.len() && 0 <= c < 8 && #[trigger] spec_bit_index(s1[r], c) implies !g[
            screen_index(x1 + c, y1 + r)] by {
            lemma_screen_index_bound(x1 + c, y1 + r);
        }
        Self::lemma_draw_disjoint_no_collision(g, s1, x1, y1);
        assert forall|r: int, c: int|
            0 <= r < s2.len() && 0 <= c < 8 && #[trigger] spec_bit_index(s2[r], c) implies !g1[
            screen_index(x2 + c, y2 + r)] by {
            let t = screen_index(x2 + c, y2 + r);
            lemma_screen_index_bound(x2 + c, y2 + r);
            assert(g1[t] == (g[t] != sprite_covers(s1, x1, y1, t)));
        }
        Self::lemma_draw_disjoint_no_collision(g1, s2, x2, y2);
    }


    /// The held keys listed as text: the hex digit of each key that is
    /// down, in rising order, comma-separated, inside `Keys [` and `]`.
    pub fn display_keys(&self) -> (r: String)
        ensures
            r@ == "Keys ["@ + keys_text_upto(self.held_keys(), 16) + "]"@,
    {
        let mut result = String::from_str("Keys [");
        let mut i: usize = 0;
        while i < 16
            invariant
                i <= 16,
                result@ == "Keys ["@ + keys_text_upto(self.held_keys(), i as int),
            decreases 16 - i,
        {
            if self.keys.0[i] {
                result.append(hex_digit_str(i));
                result.append(", ");
                proof {
                    reveal_strlit(", ");
                    assert(result@ =~= "Keys ["@ + keys_text_upto(
                        self.held_keys(),
                        i as int + 1,
                    ));
                }
            }
            i += 1;
        }
        result.append("]");
        proof {
            assert(result@ =~= "Keys ["@ + keys_text_upto(self.held_keys(), 16) + "]"@);
        }
        result
    }

    /// Releases every key and clears the blocking-read latch.
    pub fn reset_keys(&mut self)
        ensures
            final(self).held_keys() =~= Seq::new(16, |i: int| false),
            final(self).pending_key() is None,
            final(self).mem() == old(self).mem(),
            final(self).screen() == old(self).screen(),
            final(self).wf() == old(self).wf(),
    {
        self.keys = Keys([false; 16]);
        self.block_key = None;
    }

    /// Presses a key: marks it held, leaving the other keys as they were,
    /// and records it in the blocking-read latch, replacing any earlier
    /// recording.
    pub fn set_key(&mut self, key: usize)
        requires
            key < 16,
        ensures
            final(self).held_keys() == old(self).held_keys().update(key as int, true),
            final(self).pending_key() == Some(key as u8),
            final(self).mem() == old(self).mem(),
            final(self).screen() == old(self).screen(),
            final(self).wf() == old(self).wf(),
    {
        self.block_key = Some(key as u8);
        self.keys.0[key] = true;
    }

    /// Whether a key is currently held. Does not consume the latch.
    pub fn check_key(&self, key: usize) -> (held: bool)
        requires
            key < 16,
        ensures
            held == self.held_keys()[key as int],
    {
        self.keys.0[key]
    }

    /// Consumes and clears the blocking-read latch: the key pressed since the
    /// latch was last consumed or reset, if any.
    pub fn get_key(&mut self) -> (k: Option<u8>)
        ensures
            k == old(self).pending_key(),
            final(self).pending_key() is None,
            final(self).held_keys() == old(self).held_keys(),
            final(self).mem() == old(self).mem(),
            final(self).screen() == old(self).screen(),
            final(self).wf() == old(self).wf(),
    {
        self.block_key.take()
    }

    /// Copies ROM bytes into memory starting at the program start. A ROM
    /// larger than the memory above that point is rejected whole with a
    /// capacity error; otherwise every byte is written and the count
    /// returned.
    pub fn load_rom(&mut self, rom: &[u8]) -> (r: Result<usize, Chip8Error>)
        requires
            old(self).wf(),
        ensures
            final(self).wf(),
            rom@.len() <= MEM_SIZE - PROGRAM_START ==> {
                &&& r == Ok::<usize, Chip8Error>(rom@.len() as usize)
                &&& final(self).mem() == old(self).mem().take(PROGRAM_START as int) + rom@ + old(
                    self,
                ).mem().skip(PROGRAM_START + rom@.len())
            },
            rom@.len() > MEM_SIZE - PROGRAM_START ==> {
                &&& r == Err::<usize, Chip8Error>(Chip8Error::CapacityExceeded(rom@.len() as usize))
                &&& final(self).mem() == old(self).mem()
            },
            final(self).screen() == old(self).screen(),
            final(self).held_keys() == old(self).held_keys(),
            final(self).pending_key() == old(self).pending_key(),
    {
        if rom.len() > MEM_SIZE - PROGRAM_START {
            return Err(Chip8Error::CapacityExceeded(rom.len()));
        }
        let mut i: usize = 0;
        while i < rom.len()
            invariant
                rom@.len() <= MEM_SIZE - PROGRAM_START,
                i <= rom@.len(),
                self.ram@.len() == MEM_SIZE,
                self.keys == old(self).keys,
                self.graphics == old(self).graphics,
                self.block_key == old(self).block_key,
                forall|j: int| 0 <= j < PROGRAM_START ==> self.ram@[j] == old(self).mem()[j],
                forall|j: int| 0 <= j < i ==> self.ram@[PROGRAM_START + j] == rom@[j],
                forall|j: int|
                    PROGRAM_START + i <= j < MEM_SIZE ==> self.ram@[j] == old(self).mem()[j],
            decreases rom@.len() - i,
        {
            self.ram.set(PROGRAM_START + i, rom[i]);
            i += 1;
        }
        assert(self.ram@ =~= old(self).mem().take(PROGRAM_START as int) + rom@ + old(
            self,
        ).mem().skip(PROGRAM_START + rom@.len()));
        Ok(rom.len())
    }

    /// Writes one byte of memory; the address must lie in the extent.
    pub fn write_byte(&mut self, addr: u16, byte: u8)
        requires
            old(self).wf(),
            addr < MEM_SIZE,
        ensures
            final(self).wf(),
            final(self).mem() == old(self).mem().update(addr as int, byte),
            final(self).screen() == old(self).screen(),
            final(self).held_keys() == old(self).held_keys(),
            final(self).pending_key() == old(self).pending_key(),
    {
        self.ram.set(addr as usize, byte);
    }

    /// Reads one byte of memory; the address must lie in the extent.
    pub fn read_byte(&self, addr: u16) -> (b: u8)
        requires
            self.wf(),
            addr < MEM_SIZE,
        ensures
            b == self.mem()[addr as int],
    {
        self.ram[addr as usize]
    }

    /// Unsets every framebuffer cell.
    pub fn clear_sceen(&mut self)
        ensures
            final(self).screen() =~= Seq::new(GRAPHICS_SIZE as nat, |i: int| false),
            final(self).mem() == old(self).mem(),
            final(self).held_keys() == old(self).held_keys(),
            final(self).pending_key() == old(self).pending_key(),
            final(self).wf() == old(self).wf(),
    {
        self.graphics = [false; GRAPHICS_SIZE];
    }

    /// Reads the big-endian halfword at an address, used for instruction
    /// fetch; both bytes must lie in the extent.
    pub fn read_halfword(&self, addr: u16) -> (hw: u16)
        requires
            self.wf(),
            addr as int + 1 < MEM_SIZE,
        ensures
            hw == 256 * (self.mem()[addr as int] as int) + (self.mem()[addr as int + 1] as int),
    {
        let x = self.ram[addr as usize];
        let y = self.ram[(addr + 1) as usize];
        let hw = (x as u16) << 8 | y as u16;
        assert(hw == 256 * (x as int) + (y as int)) by (bit_vector)
            requires
                hw == (x as u16) << 8 | y as u16,
        ;
        hw
    }
}

} // verus!
