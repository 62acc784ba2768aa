//! Drawing a sprite pixel by pixel: what the display shows after a part of
//! the sprite is drawn, and that the whole of it gives the draw instruction.

use vstd::prelude::*;
use crate::machine::{
    sprite_bit, MachineState, DISPLAY_HEIGHT, DISPLAY_SIZE, DISPLAY_WIDTH, MEMORY_SIZE,
};

verus! {

/// Whether the sprite has a set bit on pixel `p` that belongs to one of its
/// rows before `row`, or to row `row` and a column before `col`.
pub open spec fn covers_before(
    s: MachineState,
    vx: u8,
    vy: u8,
    n: u8,
    row: int,
    col: int,
    p: int,
) -> bool {
    let r = p / (DISPLAY_WIDTH as int) - vy % (DISPLAY_HEIGHT as u8);
    let c = (p % (DISPLAY_WIDTH as int) - vx % (DISPLAY_WIDTH as u8)) % (DISPLAY_WIDTH as int);
    s.sprite_covers(vx, vy, n, p) && (r < row || (r == row && c < col))
}

/// The pixel under column `col` of the sprite's row `row`.
pub open spec fn pixel_under(vx: u8, vy: u8, row: int, col: int) -> int {
    (vy % (DISPLAY_HEIGHT as u8) + row) * DISPLAY_WIDTH + (vx % (DISPLAY_WIDTH as u8) + col) % (
    DISPLAY_WIDTH as int)
}

/// The display once the rows of the sprite before `row`, and the columns of
/// row `row` before `col`, are drawn.
pub open spec fn drawn(s: MachineState, vx: u8, vy: u8, n: u8, row: int, col: int) -> Seq<bool> {
    Seq::new(
        DISPLAY_SIZE as nat,
        |p: int| s.display[p] != covers_before(s, vx, vy, n, row, col, p),
    )
}

/// Whether that part of the sprite turned a pixel off.
pub open spec fn erased(s: MachineState, vx: u8, vy: u8, n: u8, row: int, col: int) -> bool {
    exists|p: int|
        0 <= p < DISPLAY_SIZE && s.display[p] && #[trigger] covers_before(
            s,
            vx,
            vy,
            n,
            row,
            col,
            p,
        )
}

/// Whether that part of the sprite changed a pixel.
pub open spec fn touched(s: MachineState, vx: u8, vy: u8, n: u8, row: int, col: int) -> bool {
    exists|p: int| 0 <= p < DISPLAY_SIZE && #[trigger] covers_before(s, vx, vy, n, row, col, p)
}

/// The pixel under a column of a sprite row lies on the display, in the
/// display row and at the wrapped distance from the sprite's left edge that
/// the column asks for, and no other pixel does.
proof fn lemma_pixel_position(left: int, top: int, row: int, col: int, p: int)
    requires
        0 <= left < 64,
        0 <= top,
        0 <= row,
        top + row < 32,
        0 <= col < 8,
        0 <= p < 2048,
    ensures
        0 <= (top + row) * 64 + (left + col) % 64 < 2048,
        ((top + row) * 64 + (left + col) % 64) / 64 == top + row,
        (((top + row) * 64 + (left + col) % 64) % 64 - left) % 64 == col,
        (p / 64 == top + row && (p % 64 - left) % 64 == col) ==> p == (top + row) * 64 + (left
            + col) % 64,
{
    let x = (left + col) % 64;
    let q = (top + row) * 64 + x;
    assert(0 <= x < 64);
    assert(x == left + col || x == left + col - 64);
    assert(q / 64 == top + row);
    assert(q % 64 == x);
    assert((x - left) % 64 == col);
    if p / 64 == top + row && (p % 64 - left) % 64 == col {
        let d = p % 64 - left;
        assert(-64 < d < 64);
        assert(d == col || d == col - 64);
        assert(p % 64 == x);
        assert(p == 64 * (p / 64) + p % 64);
    }
}

/// Going one column further in a row of the sprite adds the pixel under that
/// column, where the sprite's bit is set, and no other.
proof fn lemma_covers_next_column(
    s: MachineState,
    vx: u8,
    vy: u8,
    n: u8,
    row: int,
    col: int,
    p: int,
)
    requires
        0 <= row < n,
        vy % (DISPLAY_HEIGHT as u8) + row < DISPLAY_HEIGHT,
        0 <= col < 8,
        0 <= p < DISPLAY_SIZE,
    ensures
        0 <= pixel_under(vx, vy, row, col) < DISPLAY_SIZE,
        covers_before(s, vx, vy, n, row, col + 1, p) == (covers_before(s, vx, vy, n, row, col, p)
            || (p == pixel_under(vx, vy, row, col) && sprite_bit(s.memory[s.i + row], col))),
        !covers_before(s, vx, vy, n, row, col, pixel_under(vx, vy, row, col)),
{
    lemma_pixel_position((vx % 64) as int, (vy % 32) as int, row, col, p);
}

/// Before anything is drawn the display is as it was.
pub proof fn lemma_draw_start(s: MachineState, vx: u8, vy: u8, n: u8)
    requires
        s.wf(),
    ensures
        drawn(s, vx, vy, n, 0, 0) == s.display,
        !erased(s, vx, vy, n, 0, 0),
        !touched(s, vx, vy, n, 0, 0),
{
    assert(drawn(s, vx, vy, n, 0, 0) =~= s.display);
}

/// Drawing one more column of a row flips the pixel under it where the
/// sprite's bit is set, and changes nothing else. That pixel was not drawn
/// on before.
pub proof fn lemma_draw_column(s: MachineState, vx: u8, vy: u8, n: u8, row: int, col: int)
    requires
        s.wf(),
        0 <= row < n,
        vy % (DISPLAY_HEIGHT as u8) + row < DISPLAY_HEIGHT,
        0 <= col < 8,
    ensures
        0 <= pixel_under(vx, vy, row, col) < DISPLAY_SIZE,
        drawn(s, vx, vy, n, row, col)[pixel_under(vx, vy, row, col)] == s.display[pixel_under(
            vx,
            vy,
            row,
            col,
        )],
        drawn(s, vx, vy, n, row, col + 1) == if sprite_bit(s.memory[s.i + row], col) {
            drawn(s, vx, vy, n, row, col).update(
                pixel_under(vx, vy, row, col),
                !s.display[pixel_under(vx, vy, row, col)],
            )
        } else {
            drawn(s, vx, vy, n, row, col)
        },
        erased(s, vx, vy, n, row, col + 1) == (erased(s, vx, vy, n, row, col) || (sprite_bit(
            s.memory[s.i + row],
            col,
        ) && s.display[pixel_under(vx, vy, row, col)])),
        touched(s, vx, vy, n, row, col + 1) == (touched(s, vx, vy, n, row, col) || sprite_bit(
            s.memory[s.i + row],
            col,
        )),
{
    let at = pixel_under(vx, vy, row, col);
    let lit = sprite_bit(s.memory[s.i + row], col);
    lemma_covers_next_column(s, vx, vy, n, row, col, at);
    assert forall|p: int| 0 <= p < DISPLAY_SIZE implies #[trigger] covers_before(
        s,
        vx,
        vy,
        n,
        row,
        col + 1,
        p,
    ) == (covers_before(s, vx, vy, n, row, col, p) || (p == at && lit)) by {
        lemma_covers_next_column(s, vx, vy, n, row, col, p);
    }
    assert(drawn(s, vx, vy, n, row, col + 1) =~= if lit {
        drawn(s, vx, vy, n, row, col).update(at, !s.display[at])
    } else {
        drawn(s, vx, vy, n, row, col)
    });
    if erased(s, vx, vy, n, row, col) {
        let w = choose|p: int|
            0 <= p < DISPLAY_SIZE && s.display[p] && #[trigger] covers_before(
                s,
                vx,
                vy,
                n,
                row,
                col,
                p,
            );
        assert(covers_before(s, vx, vy, n, row, col + 1, w));
    }
    if touched(s, vx, vy, n, row, col) {
        let w = choose|p: int|
            0 <= p < DISPLAY_SIZE && #[trigger] covers_before(s, vx, vy, n, row, col, p);
        assert(covers_before(s, vx, vy, n, row, col + 1, w));
    }
    if lit {
        assert(covers_before(s, vx, vy, n, row, col + 1, at));
    }
}

/// A row that is drawn to its last column is drawn.
pub proof fn lemma_draw_row(s: MachineState, vx: u8, vy: u8, n: u8, row: int)
    requires
        s.wf(),
    ensures
        drawn(s, vx, vy, n, row + 1, 0) == drawn(s, vx, vy, n, row, 8),
        erased(s, vx, vy, n, row + 1, 0) == erased(s, vx, vy, n, row, 8),
        touched(s, vx, vy, n, row + 1, 0) == touched(s, vx, vy, n, row, 8),
{
    assert forall|p: int|
        #![trigger covers_before(s, vx, vy, n, row, 8, p)]
        #![trigger covers_before(s, vx, vy, n, row + 1, 0, p)]
        covers_before(s, vx, vy, n, row, 8, p) == covers_before(s, vx, vy, n, row + 1, 0, p) by {}
    assert(drawn(s, vx, vy, n, row + 1, 0) =~= drawn(s, vx, vy, n, row, 8));
}

/// Once every row of the sprite that lies on the display is drawn, the
/// display is the one that the draw instruction leads to, a pixel was turned
/// off exactly if the sprite collides, and a pixel was changed exactly if the
/// display differs from what it was.
pub proof fn lemma_draw_done(s: MachineState, vx: u8, vy: u8, n: u8, row: int)
    requires
        s.wf(),
        s.i + n <= MEMORY_SIZE,
        row == n || vy % (DISPLAY_HEIGHT as u8) + row == DISPLAY_HEIGHT,
    ensures
        s.draw(vx, vy, n) matches Ok(t) && {
            &&& t.display == drawn(s, vx, vy, n, row, 0)
            &&& s.sprite_collides(vx, vy, n) == erased(s, vx, vy, n, row, 0)
            &&& (t.display != s.display) == touched(s, vx, vy, n, row, 0)
        },
{
    let t = s.draw(vx, vy, n)->Ok_0;
    assert forall|p: int| 0 <= p < DISPLAY_SIZE implies #[trigger] covers_before(
        s,
        vx,
        vy,
        n,
        row,
        0,
        p,
    ) == s.sprite_covers(vx, vy, n, p) by {}
    assert(t.display =~= drawn(s, vx, vy, n, row, 0));
    if erased(s, vx, vy, n, row, 0) {
        let w = choose|p: int|
            0 <= p < DISPLAY_SIZE && s.display[p] && #[trigger] covers_before(
                s,
                vx,
                vy,
                n,
                row,
                0,
                p,
            );
        assert(s.sprite_erases(vx, vy, n, w));
    }
    if s.sprite_collides(vx, vy, n) {
        let w = choose|p: int| #[trigger] s.sprite_erases(vx, vy, n, p);
        assert(covers_before(s, vx, vy, n, row, 0, w));
    }
    if touched(s, vx, vy, n, row, 0) {
        let w = choose|p: int|
            0 <= p < DISPLAY_SIZE && #[trigger] covers_before(s, vx, vy, n, row, 0, p);
        assert(t.display[w] != s.display[w]);
    } else {
        assert forall|p: int| 0 <= p < DISPLAY_SIZE implies t.display[p] == s.display[p] by {
            assert(!covers_before(s, vx, vy, n, row, 0, p));
        }
        assert(t.display =~= s.display);
    }
}

} // verus!
