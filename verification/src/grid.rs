use vstd::prelude::*;

use crate::bus::Delay;
use crate::bus::Transport;
use crate::codec::Event;
use crate::codec::KeypadEvent;
use crate::codec::lemma_decode_fifo_index_bound;
use crate::codec::spec_decode_fifo;
use crate::color::Color;
use crate::device::NeoTrellis;
use crate::error::Error;
use crate::protocol::KEYPAD_FIFO;
use crate::protocol::Module;
use crate::protocol::PIXEL_SETTLE_US;
use crate::protocol::spec_read_exchange;

verus! {

/// One aggregated keypad event of the composed grid: a global 2-D
/// coordinate paired with the event kind.
#[derive(Clone, Copy, PartialEq, Eq, Debug)]
pub struct MultiEvent {
    pub coordinate: (u8, u8),
    pub event: Event,
}

/// A rectangular composition of devices into one logical keypad/display.
///
/// Each tile covers a 4x4 block of the global coordinate space; the grid is
/// indexed by tile column first, tile row second, so the tile of global
/// coordinate `(x, y)` is `trellis[x / 4][y / 4]`.
pub struct MultiTrellis<B: Transport> {
    pub trellis: Vec<Vec<NeoTrellis<B>>>,
}

/// The grid as a sequence of columns of tiles.
pub open spec fn spec_grid<B: Transport>(m: &MultiTrellis<B>) -> Seq<Seq<NeoTrellis<B>>> {
    m.trellis@.map_values(|col: Vec<NeoTrellis<B>>| col@)
}

/// Two grids have the same shape: equally many columns, each equally long.
pub open spec fn spec_same_shape<B: Transport>(a: Seq<Seq<NeoTrellis<B>>>, b: Seq<
    Seq<NeoTrellis<B>>,
>) -> bool {
    a.len() == b.len() && forall|x: int| 0 <= x < a.len() ==> a[x].len() == b[x].len()
}

/// Translates one decoded keypad event of the tile at column `x`, row `y`
/// to the global coordinate it stands for: the key's column and row inside
/// the tile, offset by the tile's 4x4 block.
pub open spec fn spec_translate(ke: KeypadEvent, x: u8, y: u8) -> MultiEvent {
    MultiEvent {
        coordinate: (
            (4 * x + ke.key.spec_index() % 4) as u8,
            (4 * y + ke.key.spec_index() / 4) as u8,
        ),
        event: ke.event,
    }
}

/// One FIFO byte folded into a tile's aggregation slot: a decoded event
/// replaces the slot's value, the sentinel leaves it alone.
pub open spec fn spec_slot_step(acc: Option<MultiEvent>, b: u8, x: u8, y: u8) -> Option<
    MultiEvent,
> {
    match crate::codec::spec_decode_fifo(b) {
        Some(ke) => Some(spec_translate(ke, x, y)),
        None => acc,
    }
}

/// A whole FIFO read folded into a tile's aggregation slot, first byte
/// first: the slot ends up holding the last decoded event, or its prior
/// value when every byte was the sentinel.
pub open spec fn spec_slot_fold(data: Seq<u8>, acc: Option<MultiEvent>, x: u8, y: u8) -> Option<
    MultiEvent,
>
    decreases data.len(),
{
    if data.len() == 0 {
        acc
    } else {
        spec_slot_fold(data.drop_first(), spec_slot_step(acc, data[0], x, y), x, y)
    }
}

/// Folding one more byte at the end applies one more step.
proof fn lemma_slot_fold_snoc(data: Seq<u8>, b: u8, acc: Option<MultiEvent>, x: u8, y: u8)
    ensures
        spec_slot_fold(data.push(b), acc, x, y) == spec_slot_step(
            spec_slot_fold(data, acc, x, y),
            b,
            x,
            y,
        ),
    decreases data.len(),
{
    assert(data.push(b).len() == data.len() + 1);
    if data.len() == 0 {
        assert(data.push(b)[0] == b);
        assert(data.push(b).drop_first() =~= Seq::<u8>::empty());
        assert(spec_slot_fold(data.push(b), acc, x, y) == spec_slot_fold(
            Seq::<u8>::empty(),
            spec_slot_step(acc, b, x, y),
            x,
            y,
        ));
        assert(spec_slot_fold(Seq::<u8>::empty(), spec_slot_step(acc, b, x, y), x, y)
            == spec_slot_step(acc, b, x, y));
        assert(spec_slot_fold(data, acc, x, y) == acc);
    } else {
        assert(data.push(b)[0] == data[0]);
        assert(data.push(b).drop_first() =~= data.drop_first().push(b));
        assert(spec_slot_fold(data.push(b), acc, x, y) == spec_slot_fold(
            data.drop_first().push(b),
            spec_slot_step(acc, data[0], x, y),
            x,
            y,
        ));
        lemma_slot_fold_snoc(data.drop_first(), b, spec_slot_step(acc, data[0], x, y), x, y);
        assert(spec_slot_fold(data, acc, x, y) == spec_slot_fold(
            data.drop_first(),
            spec_slot_step(acc, data[0], x, y),
            x,
            y,
        ));
    }
}

/// The output slot that the tile at column `a`, row `b` feeds.
pub open spec fn spec_slot_index(a: int, b: int) -> int {
    a + 4 * b
}

/// The bytes a tile's most recent transaction read; during an aggregation
/// pass, the tile's FIFO bytes.
pub open spec fn spec_tile_data<B: Transport>(t: NeoTrellis<B>) -> Seq<u8> {
    t.spec_log().last().read_bytes()
}

/// The output slice after the tiles of column `x` up to row `y` have been
/// folded in, given the slice `e` left by the columns before `x`.  The
/// tile at `(x, b)` is folded into slot `x + 4 * b`.
pub open spec fn spec_agg_col<B: Transport>(
    g: Seq<Seq<NeoTrellis<B>>>,
    e: Seq<Option<MultiEvent>>,
    x: int,
    y: int,
) -> Seq<Option<MultiEvent>>
    decreases y,
{
    if y <= 0 {
        e
    } else {
        let prev = spec_agg_col(g, e, x, y - 1);
        let s = spec_slot_index(x, y - 1);
        prev.update(
            s,
            spec_slot_fold(spec_tile_data(g[x][y - 1]), prev[s], x as u8, (y - 1) as u8),
        )
    }
}

/// The output slice after the first `x` whole columns have been folded in,
/// column by column, row by row.
pub open spec fn spec_agg_upto<B: Transport>(
    g: Seq<Seq<NeoTrellis<B>>>,
    e0: Seq<Option<MultiEvent>>,
    x: int,
) -> Seq<Option<MultiEvent>>
    decreases x,
{
    if x <= 0 {
        e0
    } else {
        spec_agg_col(g, spec_agg_upto(g, e0, x - 1), x - 1, g[x - 1].len() as int)
    }
}

/// [`spec_agg_col`] reads only the tiles of column `x` below row `y`.
proof fn lemma_agg_col_frame<B: Transport>(
    g1: Seq<Seq<NeoTrellis<B>>>,
    g2: Seq<Seq<NeoTrellis<B>>>,
    e: Seq<Option<MultiEvent>>,
    x: int,
    y: int,
)
    requires
        0 <= x < g1.len(),
        g1.len() == g2.len(),
        forall|b: int| 0 <= b < y ==> g1[x][b] == g2[x][b],
    ensures
        spec_agg_col(g1, e, x, y) == spec_agg_col(g2, e, x, y),
    decreases y,
{
    if y > 0 {
        lemma_agg_col_frame(g1, g2, e, x, y - 1);
    }
}

/// [`spec_agg_upto`] reads only the first `x` columns.
proof fn lemma_agg_upto_frame<B: Transport>(
    g1: Seq<Seq<NeoTrellis<B>>>,
    g2: Seq<Seq<NeoTrellis<B>>>,
    e0: Seq<Option<MultiEvent>>,
    x: int,
)
    requires
        x <= g1.len(),
        g1.len() == g2.len(),
        forall|a: int| 0 <= a < x ==> g1[a] == g2[a],
    ensures
        spec_agg_upto(g1, e0, x) == spec_agg_upto(g2, e0, x),
    decreases x,
{
    if x > 0 {
        lemma_agg_upto_frame(g1, g2, e0, x - 1);
        lemma_agg_col_frame(g1, g2, spec_agg_upto(g1, e0, x - 1), x - 1, g1[x - 1].len() as int);
    }
}

impl<B: Transport> MultiTrellis<B> {
    /// Writes one pixel's color through the tile that covers the global
    /// coordinate `(x, y)`: tile column `x / 4`, tile row `y / 4`, local
    /// pixel index `x % 4 + (y % 4) * 4`.
    ///
    /// A coordinate outside the populated grid is silently dropped: the
    /// call succeeds and no bus transaction is issued.
    pub fn set_led_color<D: Delay>(&mut self, index: (u8, u8), color: Color, delay: &mut D) -> (r:
        Result<(), Error<B::BusError>>)
        ensures
            spec_same_shape(spec_grid(final(self)), spec_grid(old(self))),
            ({
                let tx = index.0 / 4;
                let ty = index.1 / 4;
                let li = (index.0 % 4 + (index.1 % 4) * 4) as u8;
                if tx >= spec_grid(old(self)).len() || ty >= spec_grid(old(self))[tx as int].len() {
                    &&& r is Ok
                    &&& *final(self) == *old(self)
                    &&& *final(delay) == *old(delay)
                } else {
                    &&& forall|a: int, b: int|
                        0 <= a < spec_grid(old(self)).len() && 0 <= b < spec_grid(old(self))[a].len()
                            && !(a == tx && b == ty) ==> spec_grid(final(self))[a][b] == spec_grid(
                            old(self),
                        )[a][b]
                    &&& spec_grid(final(self))[tx as int][ty as int].spec_addr() == spec_grid(
                        old(self),
                    )[tx as int][ty as int].spec_addr()
                    &&& (match r {
                        Ok(()) => {
                            &&& spec_grid(final(self))[tx as int][ty as int].spec_log()
                                == spec_grid(old(self))[tx as int][ty as int].spec_log()
                                + crate::protocol::spec_pixel_steps(
                                spec_grid(old(self))[tx as int][ty as int].spec_addr(),
                                li,
                                color,
                            )
                        },
                        Err(e) => {
                            &&& e is WriteError
                            &&& spec_grid(final(self))[tx as int][ty as int].spec_log()
                                == spec_grid(old(self))[tx as int][ty as int].spec_log()
                        },
                    })
                }
            }),
    {
        let (x, y) = index;
        let tx = (x / 4) as usize;
        let ty = (y / 4) as usize;
        let li: u8 = x % 4 + (y % 4) * 4;
        if tx < self.trellis.len() && ty < self.trellis[tx].len() {
            let col = &mut self.trellis[tx];
            let tile = &mut col[ty];
            match tile.set_led_color(li, color, delay) {
                Ok(()) => Ok(()),
                Err(e) => Err(e),
            }
        } else {
            Ok(())
        }
    }

    /// Latches every tile of the grid, column by column, row by row.  A
    /// tile's failure stops the sweep at once: earlier tiles stay latched,
    /// later ones are untouched.
    pub fn show<D: Delay>(&mut self, delay: &mut D) -> (r: Result<(), Error<B::BusError>>)
        ensures
            spec_same_shape(spec_grid(final(self)), spec_grid(old(self))),
            forall|a: int, b: int|
                0 <= a < spec_grid(old(self)).len() && 0 <= b < spec_grid(old(self))[a].len()
                    ==> #[trigger] spec_grid(final(self))[a][b].spec_addr() == spec_grid(
                    old(self),
                )[a][b].spec_addr(),
            (match r {
                Ok(()) => forall|a: int, b: int|
                    0 <= a < spec_grid(old(self)).len() && 0 <= b < spec_grid(old(self))[a].len()
                        ==> #[trigger] spec_grid(final(self))[a][b].spec_log() == spec_grid(
                        old(self),
                    )[a][b].spec_log() + crate::protocol::spec_show_steps(
                        spec_grid(old(self))[a][b].spec_addr(),
                    ),
                Err(e) => {
                    &&& e is WriteError
                    &&& exists|fx: int, fy: int|
                        #![trigger spec_grid(old(self))[fx][fy]]
                        {
                            &&& 0 <= fx < spec_grid(old(self)).len()
                            &&& 0 <= fy < spec_grid(old(self))[fx].len()
                            &&& spec_grid(final(self))[fx][fy].spec_log() == spec_grid(
                                old(self),
                            )[fx][fy].spec_log()
                            &&& forall|a: int, b: int|
                                #![trigger spec_grid(final(self))[a][b]]
                                0 <= a < spec_grid(old(self)).len() && 0 <= b < spec_grid(
                                    old(self),
                                )[a].len() && (a < fx || (a == fx && b < fy)) ==> spec_grid(
                                    final(self),
                                )[a][b].spec_log() == spec_grid(old(self))[a][b].spec_log()
                                    + crate::protocol::spec_show_steps(
                                    spec_grid(old(self))[a][b].spec_addr(),
                                )
                            &&& forall|a: int, b: int|
                                #![trigger spec_grid(final(self))[a][b]]
                                0 <= a < spec_grid(old(self)).len() && 0 <= b < spec_grid(
                                    old(self),
                                )[a].len() && (a > fx || (a == fx && b >= fy)) ==> spec_grid(
                                    final(self),
                                )[a][b].spec_log() == spec_grid(old(self))[a][b].spec_log()
                        }
                },
            }),
    {
        let cols = self.trellis.len();
        let mut x: usize = 0;
        while x < cols
            invariant
                cols == spec_grid(old(self)).len(),
                x <= cols,
                spec_same_shape(spec_grid(self), spec_grid(old(self))),
                forall|a: int, b: int|
                    0 <= a < cols && 0 <= b < spec_grid(old(self))[a].len() ==> #[trigger] spec_grid(
                        self,
                    )[a][b].spec_addr() == spec_grid(old(self))[a][b].spec_addr(),
                forall|a: int, b: int|
                    0 <= a < x && 0 <= b < spec_grid(old(self))[a].len() ==> #[trigger] spec_grid(
                        self,
                    )[a][b].spec_log() == spec_grid(old(self))[a][b].spec_log() + crate::protocol::spec_show_steps(
                        spec_grid(old(self))[a][b].spec_addr(),
                    ),
                forall|a: int, b: int|
                    x <= a < cols && 0 <= b < spec_grid(old(self))[a].len() ==> spec_grid(self)[a][b]
                        == spec_grid(old(self))[a][b],
            decreases cols - x,
        {
            let rows = self.trellis[x].len();
            let mut y: usize = 0;
            while y < rows
                invariant
                    cols == spec_grid(old(self)).len(),
                    x < cols,
                    rows == spec_grid(old(self))[x as int].len(),
                    y <= rows,
                    spec_same_shape(spec_grid(self), spec_grid(old(self))),
                    forall|a: int, b: int|
                        0 <= a < cols && 0 <= b < spec_grid(old(self))[a].len()
                            ==> #[trigger] spec_grid(self)[a][b].spec_addr() == spec_grid(
                            old(self),
                        )[a][b].spec_addr(),
                    forall|a: int, b: int|
                        0 <= a < cols && 0 <= b < spec_grid(old(self))[a].len() && (a < x || (a == x
                            && b < y)) ==> #[trigger] spec_grid(self)[a][b].spec_log() == spec_grid(
                            old(self),
                        )[a][b].spec_log() + crate::protocol::spec_show_steps(
                            spec_grid(old(self))[a][b].spec_addr(),
                        ),
                    forall|a: int, b: int|
                        0 <= a < cols && 0 <= b < spec_grid(old(self))[a].len() && (a > x || (a == x
                            && b >= y)) ==> spec_grid(self)[a][b] == spec_grid(old(self))[a][b],
                decreases rows - y,
            {
                let ghost grid_prev = spec_grid(self);
                let col = &mut self.trellis[x];
                let tile = &mut col[y];
                let res = tile.show_led(delay);
                proof {
                    assert(spec_grid(self).len() == grid_prev.len());
                    assert(spec_grid(self)[x as int] == self.trellis@[x as int]@);
                    assert(spec_grid(self)[x as int].len() == grid_prev[x as int].len());
                    assert forall|a: int, b: int|
                        0 <= a < cols && 0 <= b < grid_prev[a].len() && !(a == x as int && b == y
                            as int) implies #[trigger] spec_grid(self)[a][b] == grid_prev[a][b] by {
                        if a == x as int {
                            assert(spec_grid(self)[x as int][b] == grid_prev[x as int][b]);
                        } else {
                            assert(spec_grid(self)[a] == grid_prev[a]);
                        }
                    }
                }
                match res {
                    Ok(()) => {},
                    Err(e) => {
                        proof {
                            assert(spec_grid(self)[x as int][y as int].spec_log() == grid_prev[x
                                as int][y as int].spec_log());
                            assert(spec_grid(old(self))[x as int][y as int] == grid_prev[x as int][y
                                as int]);
                            assert(forall|a: int, b: int|
                                #![trigger spec_grid(self)[a][b]]
                                0 <= a < spec_grid(old(self)).len() && 0 <= b < spec_grid(
                                    old(self),
                                )[a].len() && (a < x as int || (a == x as int && b < y as int))
                                    ==> spec_grid(self)[a][b].spec_log() == spec_grid(
                                    old(self),
                                )[a][b].spec_log() + crate::protocol::spec_show_steps(
                                    spec_grid(old(self))[a][b].spec_addr(),
                                ));
                            assert(forall|a: int, b: int|
                                #![trigger spec_grid(self)[a][b]]
                                0 <= a < spec_grid(old(self)).len() && 0 <= b < spec_grid(
                                    old(self),
                                )[a].len() && (a > x as int || (a == x as int && b >= y as int))
                                    ==> spec_grid(self)[a][b].spec_log() == spec_grid(
                                    old(self),
                                )[a][b].spec_log());
                        }
                        return Err(e);
                    },
                }
                y = y + 1;
            }
            x = x + 1;
        }
        Ok(())
    }

    /// Reads every tile's event FIFO, column by column, row by row, and
    /// folds each tile's decoded events into the output slot `x + 4 * y`
    /// of the caller's slice, translated to global coordinates.
    ///
    /// The grid must fit the 8-bit global coordinate space (at most 64
    /// tile columns and 63 tile rows), and the caller's slice must reach
    /// every tile's slot.
    ///
    /// Each tile gets exactly one output slot per call: of several
    /// simultaneous events on one tile, the slot keeps the last decoded
    /// one; a tile whose FIFO held only sentinel bytes leaves its slot
    /// untouched.  A tile's failure stops the sweep at once, leaving the
    /// slots of the tiles already processed updated.
    pub fn read_events<D: Delay>(
        &mut self,
        events: &mut Vec<Option<MultiEvent>>,
        delay: &mut D,
    ) -> (r: Result<(), Error<B::BusError>>)
        requires
            spec_grid(old(self)).len() <= 64,
            forall|a: int|
                0 <= a < spec_grid(old(self)).len() ==> #[trigger] spec_grid(old(self))[a].len()
                    <= 63,
            forall|a: int, b: int|
                0 <= a < spec_grid(old(self)).len() && 0 <= b < spec_grid(old(self))[a].len()
                    ==> #[trigger] spec_slot_index(a, b) < old(events)@.len(),
        ensures
            spec_same_shape(spec_grid(final(self)), spec_grid(old(self))),
            final(events)@.len() == old(events)@.len(),
            (match r {
                Ok(()) => {
                    &&& forall|a: int, b: int|
                        #![trigger spec_grid(final(self))[a][b]]
                        0 <= a < spec_grid(old(self)).len() && 0 <= b < spec_grid(
                            old(self),
                        )[a].len() ==> spec_grid(final(self))[a][b].spec_addr() == spec_grid(
                            old(self),
                        )[a][b].spec_addr() && spec_grid(final(self))[a][b].spec_log()
                            == spec_grid(old(self))[a][b].spec_log() + spec_read_exchange(
                            spec_grid(old(self))[a][b].spec_addr(),
                            Module::Keypad,
                            KEYPAD_FIFO,
                            spec_tile_data(spec_grid(final(self))[a][b]),
                        ) && spec_tile_data(spec_grid(final(self))[a][b]).len() == 16
                    &&& final(events)@ == spec_agg_upto(
                        spec_grid(final(self)),
                        old(events)@,
                        spec_grid(old(self)).len() as int,
                    )
                },
                Err(e) => {
                    &&& !(e is WrongChipId)
                    &&& exists|fx: int, fy: int|
                        #![trigger spec_grid(old(self))[fx][fy]]
                        {
                            &&& 0 <= fx < spec_grid(old(self)).len()
                            &&& 0 <= fy < spec_grid(old(self))[fx].len()
                            &&& forall|a: int, b: int|
                                #![trigger spec_grid(final(self))[a][b]]
                                0 <= a < spec_grid(old(self)).len() && 0 <= b < spec_grid(
                                    old(self),
                                )[a].len() && (a < fx || (a == fx && b < fy)) ==> spec_grid(
                                    final(self),
                                )[a][b].spec_log() == spec_grid(old(self))[a][b].spec_log()
                                    + spec_read_exchange(
                                    spec_grid(old(self))[a][b].spec_addr(),
                                    Module::Keypad,
                                    KEYPAD_FIFO,
                                    spec_tile_data(spec_grid(final(self))[a][b]),
                                )
                            &&& forall|a: int, b: int|
                                #![trigger spec_grid(final(self))[a][b]]
                                0 <= a < spec_grid(old(self)).len() && 0 <= b < spec_grid(
                                    old(self),
                                )[a].len() && (a > fx || (a == fx && b > fy)) ==> spec_grid(
                                    final(self),
                                )[a][b] == spec_grid(old(self))[a][b]
                            &&& final(events)@ == spec_agg_col(
                                spec_grid(final(self)),
                                spec_agg_upto(spec_grid(final(self)), old(events)@, fx),
                                fx,
                                fy,
                            )
                        }
                },
            }),
    {
        let cols = self.trellis.len();
        let mut x: usize = 0;
        while x < cols
            invariant
                cols == spec_grid(old(self)).len(),
                cols <= 64,
                x <= cols,
                forall|a: int|
                    0 <= a < cols ==> #[trigger] spec_grid(old(self))[a].len() <= 63,
                forall|a: int, b: int|
                    0 <= a < cols && 0 <= b < spec_grid(old(self))[a].len()
                        ==> #[trigger] spec_slot_index(a, b) < old(events)@.len(),
                spec_same_shape(spec_grid(self), spec_grid(old(self))),
                events@.len() == old(events)@.len(),
                forall|a: int, b: int|
                    #![trigger spec_grid(self)[a][b]]
                    0 <= a < cols && 0 <= b < spec_grid(old(self))[a].len() && a >= x
                        ==> spec_grid(self)[a][b] == spec_grid(old(self))[a][b],
                forall|a: int, b: int|
                    #![trigger spec_grid(self)[a][b]]
                    0 <= a < cols && 0 <= b < spec_grid(old(self))[a].len() && a < x
                        ==> spec_grid(self)[a][b].spec_addr() == spec_grid(
                        old(self),
                    )[a][b].spec_addr() && spec_grid(self)[a][b].spec_log() == spec_grid(
                        old(self),
                    )[a][b].spec_log() + spec_read_exchange(
                        spec_grid(old(self))[a][b].spec_addr(),
                        Module::Keypad,
                        KEYPAD_FIFO,
                        spec_tile_data(spec_grid(self)[a][b]),
                    ) && spec_tile_data(spec_grid(self)[a][b]).len() == 16,
                events@ == spec_agg_upto(spec_grid(self), old(events)@, x as int),
            decreases cols - x,
        {
            let rows = self.trellis[x].len();
            proof {
                assert(spec_grid(self)[x as int] == self.trellis@[x as int]@);
                assert(spec_grid(self)[x as int].len() == spec_grid(old(self))[x as int].len());
                assert(spec_grid(old(self))[x as int].len() <= 63);
            }
            let mut y: usize = 0;
            while y < rows
                invariant
                    cols == spec_grid(old(self)).len(),
                    cols <= 64,
                    x < cols,
                    rows == spec_grid(old(self))[x as int].len(),
                    rows <= 63,
                    y <= rows,
                    forall|a: int|
                        0 <= a < cols ==> #[trigger] spec_grid(old(self))[a].len() <= 63,
                    forall|a: int, b: int|
                        0 <= a < cols && 0 <= b < spec_grid(old(self))[a].len()
                            ==> #[trigger] spec_slot_index(a, b) < old(events)@.len(),
                    spec_same_shape(spec_grid(self), spec_grid(old(self))),
                    events@.len() == old(events)@.len(),
                    forall|a: int, b: int|
                        #![trigger spec_grid(self)[a][b]]
                        0 <= a < cols && 0 <= b < spec_grid(old(self))[a].len() && (a > x || (a == x
                            && b >= y)) ==> spec_grid(self)[a][b] == spec_grid(old(self))[a][b],
                    forall|a: int, b: int|
                        #![trigger spec_grid(self)[a][b]]
                        0 <= a < cols && 0 <= b < spec_grid(old(self))[a].len() && (a < x || (a == x
                            && b < y)) ==> spec_grid(self)[a][b].spec_addr() == spec_grid(
                            old(self),
                        )[a][b].spec_addr() && spec_grid(self)[a][b].spec_log() == spec_grid(
                            old(self),
                        )[a][b].spec_log() + spec_read_exchange(
                            spec_grid(old(self))[a][b].spec_addr(),
                            Module::Keypad,
                            KEYPAD_FIFO,
                            spec_tile_data(spec_grid(self)[a][b]),
                        ) && spec_tile_data(spec_grid(self)[a][b]).len() == 16,
                    events@ == spec_agg_col(
                        spec_grid(self),
                        spec_agg_upto(spec_grid(self), old(events)@, x as int),
                        x as int,
                        y as int,
                    ),
                decreases rows - y,
            {
                let ghost grid_prev = spec_grid(self);
                let ghost events_prev = events@;
                let mut single: Vec<Option<KeypadEvent>> = Vec::new();
                let mut f: usize = 0;
                while f < 16
                    invariant
                        f <= 16,
                        single@.len() == f,
                    decreases 16 - f,
                {
                    single.push(None);
                    f = f + 1;
                }
                let col = &mut self.trellis[x];
                let tile = &mut col[y];
                let res = tile.read_key_events(&mut single, delay);
                proof {
                    assert(spec_grid(self).len() == grid_prev.len());
                    assert(forall|a: int|
                        0 <= a < cols && a != x as int ==> #[trigger] spec_grid(self)[a]
                            == grid_prev[a]);
                    assert(spec_grid(self)[x as int] == self.trellis@[x as int]@);
                    assert(spec_grid(self)[x as int].len() == grid_prev[x as int].len());
                    assert forall|a: int, b: int|
                        0 <= a < cols && 0 <= b < grid_prev[a].len() && !(a == x as int && b == y
                            as int) implies #[trigger] spec_grid(self)[a][b] == grid_prev[a][b] by {
                        if a == x as int {
                            assert(spec_grid(self)[x as int][b] == grid_prev[x as int][b]);
                        } else {
                            assert(spec_grid(self)[a] == grid_prev[a]);
                        }
                    }
                    assert(grid_prev[x as int][y as int] == spec_grid(old(self))[x as int][y
                        as int]);
                }
                match res {
                    Ok(()) => {},
                    Err(e) => {
                        proof {
                            let g_now = spec_grid(self);
                            let e0 = old(events)@;
                            lemma_agg_upto_frame(g_now, grid_prev, e0, x as int);
                            lemma_agg_col_frame(
                                g_now,
                                grid_prev,
                                spec_agg_upto(grid_prev, e0, x as int),
                                x as int,
                                y as int,
                            );
                            assert(spec_grid(old(self))[x as int][y as int] == grid_prev[x as int][y
                                as int]);
                            assert(forall|a: int, b: int|
                                #![trigger spec_grid(self)[a][b]]
                                0 <= a < cols && 0 <= b < spec_grid(old(self))[a].len() && (a < x
                                    as int || (a == x as int && b < y as int)) ==> spec_grid(
                                    self,
                                )[a][b].spec_log() == spec_grid(old(self))[a][b].spec_log()
                                    + spec_read_exchange(
                                    spec_grid(old(self))[a][b].spec_addr(),
                                    Module::Keypad,
                                    KEYPAD_FIFO,
                                    spec_tile_data(spec_grid(self)[a][b]),
                                ));
                            assert(forall|a: int, b: int|
                                #![trigger spec_grid(self)[a][b]]
                                0 <= a < cols && 0 <= b < spec_grid(old(self))[a].len() && (a > x
                                    as int || (a == x as int && b > y as int)) ==> spec_grid(
                                    self,
                                )[a][b] == spec_grid(old(self))[a][b]);
                            assert(events@ == spec_agg_col(
                                spec_grid(self),
                                spec_agg_upto(spec_grid(self), e0, x as int),
                                x as int,
                                y as int,
                            ));
                        }
                        return Err(e);
                    },
                }
                let ghost data = spec_tile_data(spec_grid(self)[x as int][y as int]);
                proof {
                    assert(spec_grid(self)[x as int][y as int].spec_log() == grid_prev[x as int][y
                        as int].spec_log() + spec_read_exchange(
                        grid_prev[x as int][y as int].spec_addr(),
                        Module::Keypad,
                        KEYPAD_FIFO,
                        data,
                    ));
                    assert(data.len() == 16);
                }
                let s: usize = x + 4 * y;
                proof {
                    assert(spec_slot_index(x as int, y as int) < old(events)@.len());
                }
                let mut slot: Option<MultiEvent> = events[s];
                let mut k: usize = 0;
                while k < 16
                    invariant
                        k <= 16,
                        x < cols <= 64,
                        y < rows <= 63,
                        single@.len() == 16,
                        data.len() == 16,
                        forall|j: int| 0 <= j < 16 ==> single@[j] == spec_decode_fifo(data[j]),
                        slot == spec_slot_fold(
                            data.take(k as int),
                            events_prev[s as int],
                            x as u8,
                            y as u8,
                        ),
                        events@ == events_prev,
                    decreases 16 - k,
                {
                    match single[k] {
                        Some(ke) => {
                            proof {
                                lemma_decode_fifo_index_bound(data[k as int]);
                            }
                            let idx = ke.key.index();
                            slot = Some(
                                MultiEvent {
                                    coordinate: (
                                        4 * (x as u8) + idx % 4,
                                        4 * (y as u8) + idx / 4,
                                    ),
                                    event: ke.event,
                                },
                            );
                        },
                        None => {},
                    }
                    proof {
                        assert(data.take(k + 1) =~= data.take(k as int).push(data[k as int]));
                        lemma_slot_fold_snoc(
                            data.take(k as int),
                            data[k as int],
                            events_prev[s as int],
                            x as u8,
                            y as u8,
                        );
                    }
                    k = k + 1;
                }
                let slot_ref = &mut events[s];
                *slot_ref = slot;
                proof {
                    let g_now = spec_grid(self);
                    let e0 = old(events)@;
                    assert(data.take(16) =~= data);
                    lemma_agg_upto_frame(g_now, grid_prev, e0, x as int);
                    lemma_agg_col_frame(
                        g_now,
                        grid_prev,
                        spec_agg_upto(grid_prev, e0, x as int),
                        x as int,
                        y as int,
                    );
                    assert(events@ =~= spec_agg_col(
                        g_now,
                        spec_agg_upto(g_now, e0, x as int),
                        x as int,
                        y as int + 1,
                    ));
                }
                y = y + 1;
            }
            proof {
                assert(events@ == spec_agg_upto(spec_grid(self), old(events)@, x as int + 1));
                assert forall|a: int, b: int|
                    #![trigger spec_grid(self)[a][b]]
                    0 <= a < cols && 0 <= b < spec_grid(old(self))[a].len() && a < x as int
                        + 1 implies (spec_grid(self)[a][b].spec_addr() == spec_grid(
                    old(self),
                )[a][b].spec_addr() && spec_grid(self)[a][b].spec_log() == spec_grid(
                    old(self),
                )[a][b].spec_log() + spec_read_exchange(
                    spec_grid(old(self))[a][b].spec_addr(),
                    Module::Keypad,
                    KEYPAD_FIFO,
                    spec_tile_data(spec_grid(self)[a][b]),
                ) && spec_tile_data(spec_grid(self)[a][b]).len() == 16) by {
                    if a == x as int {
                        assert(b < rows);
                        assert(spec_grid(self)[x as int][b].spec_addr() == spec_grid(
                            old(self),
                        )[x as int][b].spec_addr());
                        assert(spec_grid(self)[x as int][b].spec_log() == spec_grid(
                            old(self),
                        )[x as int][b].spec_log() + spec_read_exchange(
                            spec_grid(old(self))[x as int][b].spec_addr(),
                            Module::Keypad,
                            KEYPAD_FIFO,
                            spec_tile_data(spec_grid(self)[x as int][b]),
                        ));
                        assert(spec_tile_data(spec_grid(self)[x as int][b]).len() == 16);
                    }
                }
            }
            x = x + 1;
        }
        Ok(())
    }
}

} // verus!
