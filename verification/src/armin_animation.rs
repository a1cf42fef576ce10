//! How the Armin picture appears, frame by frame.

use crate::armin::{
    blank, cell_char, drawn, empty, final_grid, grid_view, is_grid, picture, places, positions,
    rand, shuffle, shuffled_all, shuffling_permutes, ArminEffect, ArminState, CELLS,
    DISPLAY_HEIGHT, WIDTH,
};
use crate::style::{
    colored, fg, plain, push_line, push_span, raw, span_lines, spans, Span, SpanView, ThemeColor,
};
use crate::text::{push_repeat, repeat, string_of};
use vstd::prelude::*;
use vstd::slice::slice_subrange;

verus! {

broadcast use vstd::string::group_string_axioms;

/// How far the picture has appeared.
#[verifier::ext_equal]
pub enum StateView {
    Typewriter(nat),
    Scanline(nat),
    Rain(Seq<(int, nat)>),
    Fade(Seq<(usize, usize)>, nat),
    Crt(nat),
    Glitch(nat),
    Dissolve(Seq<(usize, usize)>, nat),
}

/// The drops of the rain.
pub open spec fn drop_views(drops: Seq<(isize, usize)>) -> Seq<(int, nat)> {
    drops.map_values(|d: (isize, usize)| (d.0 as int, d.1 as nat))
}

impl View for ArminState {
    type V = StateView;

    open spec fn view(&self) -> StateView {
        match self {
            ArminState::Typewriter(pos) => StateView::Typewriter(*pos as nat),
            ArminState::Scanline(row) => StateView::Scanline(*row as nat),
            ArminState::Rain(drops) => StateView::Rain(drop_views(drops@)),
            ArminState::Fade(order, shown) => StateView::Fade(order@, *shown as nat),
            ArminState::Crt(open) => StateView::Crt(*open as nat),
            ArminState::Glitch(phase) => StateView::Glitch(*phase as nat),
            ArminState::Dissolve(order, shown) => StateView::Dissolve(order@, *shown as nat),
        }
    }
}

/// The picture as it appears.
#[derive(Debug)]
pub struct Armin {
    pub effect: ArminEffect,
    pub final_grid: Vec<Vec<char>>,
    pub grid: Vec<Vec<char>>,
    pub state: ArminState,
    pub seed: u64,
}

/// The content of the animation.
#[verifier::ext_equal]
pub struct ArminView {
    pub effect: ArminEffect,
    pub grid: Seq<Seq<char>>,
    pub state: StateView,
    pub seed: u64,
}

impl View for Armin {
    type V = ArminView;

    open spec fn view(&self) -> ArminView {
        ArminView {
            effect: self.effect,
            grid: grid_view(self.grid@),
            state: self.state@,
            seed: self.seed,
        }
    }
}

/// The grid with the characters `from..to`, counted row by row, as in the picture.
pub open spec fn typed(grid: Seq<Seq<char>>, from: int, to: int) -> Seq<Seq<char>> {
    Seq::new(
        DISPLAY_HEIGHT as nat,
        |r: int|
            Seq::new(
                WIDTH as nat,
                |x: int|
                    if from <= r * 31 + x < to {
                        cell_char(x, r)
                    } else {
                        grid[r][x]
                    },
            ),
    )
}

/// The grid with the characters at the places `from..to` of an order as in the picture.
pub open spec fn uncovered(
    grid: Seq<Seq<char>>,
    order: Seq<(usize, usize)>,
    from: int,
    to: int,
) -> Seq<Seq<char>>
    decreases to - from,
{
    if from >= to {
        grid
    } else {
        let before = uncovered(grid, order, from, to - 1);
        let (r, x) = order[to - 1];
        before.update(r as int, before[r as int].update(x as int, cell_char(x as int, r as int)))
    }
}

/// The lowest row above `end` in which the column of the picture is not empty.
pub open spec fn column_target(x: int, end: nat) -> Option<nat>
    decreases end,
{
    if end == 0 {
        None
    } else if cell_char(x, end - 1) != ' ' {
        Some((end - 1) as nat)
    } else {
        column_target(x, (end - 1) as nat)
    }
}

/// A column of the rain after one step: its drop, how many rows have settled, the seed, and the row
/// in which the drop is seen.
pub open spec fn drop_step(x: int, y: int, settled: nat, seed: u64) -> (
    int,
    nat,
    u64,
    Option<usize>,
) {
    if settled >= DISPLAY_HEIGHT {
        (y, settled, seed, None)
    } else {
        let target = column_target(x, (DISPLAY_HEIGHT - settled) as nat);
        let fallen = if y < isize::MAX {
            y + 1
        } else {
            y
        };
        if !(0 <= fallen < DISPLAY_HEIGHT) {
            (fallen, settled, seed, None)
        } else if target is Some && fallen >= target->0 {
            let (s, wait) = drawn(seed, 5);
            (-(wait as int) - 1, (DISPLAY_HEIGHT - target->0) as nat, s, None)
        } else {
            (fallen, settled, seed, Some(fallen as usize))
        }
    }
}

/// The first `n` columns of the rain after one step, the seed, and the rows in which the drops are
/// seen.
pub open spec fn rain_step(drops: Seq<(int, nat)>, seed: u64, n: nat) -> (
    Seq<(int, nat)>,
    u64,
    Seq<Option<usize>>,
)
    decreases n,
{
    if n == 0 {
        (Seq::empty(), seed, Seq::empty())
    } else {
        let (before, s, seen) = rain_step(drops, seed, (n - 1) as nat);
        let d = drops[n - 1];
        let (y, settled, s2, falling) = drop_step(n - 1, d.0, d.1, s);
        (before.push((y, settled)), s2, seen.push(falling))
    }
}

/// The grid of the rain: what has settled, and the drops.
pub open spec fn rain_grid(drops: Seq<(int, nat)>, seen: Seq<Option<usize>>) -> Seq<Seq<char>> {
    Seq::new(
        DISPLAY_HEIGHT as nat,
        |r: int|
            Seq::new(
                WIDTH as nat,
                |x: int|
                    if seen[x] == Some(r as usize) {
                        '▓'
                    } else if r >= DISPLAY_HEIGHT - drops[x].1 {
                        cell_char(x, r)
                    } else {
                        ' '
                    },
            ),
    )
}

/// The grid with the rows up to `open` away from the middle as in the picture, and the others empty.
pub open spec fn opened(open: nat) -> Seq<Seq<char>> {
    Seq::new(
        DISPLAY_HEIGHT as nat,
        |r: int|
            if 9 - open <= r <= 9 + open {
                picture()[r]
            } else {
                blank()[r]
            },
    )
}

/// A row moved to the left, around its ends.
pub open spec fn rotated(row: Seq<char>, by: int) -> Seq<char> {
    Seq::new(row.len(), |x: int| row[(x + by) % (row.len() as int)])
}

/// A row of a distorted frame and the seed after it: moved sideways, replaced by another row, or as
/// in the picture.
pub open spec fn glitched_row(r: int, seed: u64) -> (Seq<char>, u64) {
    let (s1, off) = drawn(seed, 7);
    let (s2, moves) = drawn(s1, 10);
    if moves < 3 {
        (rotated(picture()[r], off - 3), s2)
    } else {
        let (s3, replaces) = drawn(s2, 10);
        if replaces < 2 {
            let (s4, other) = drawn(s3, DISPLAY_HEIGHT as nat);
            (picture()[other as int], s4)
        } else {
            (picture()[r], s3)
        }
    }
}

/// The first `n` rows of a distorted frame and the seed after them.
pub open spec fn glitched(n: nat, seed: u64) -> (Seq<Seq<char>>, u64)
    decreases n,
{
    if n == 0 {
        (Seq::empty(), seed)
    } else {
        let (before, s) = glitched((n - 1) as nat, seed);
        let (row, s2) = glitched_row(n - 1, s);
        (before.push(row), s2)
    }
}

/// The smaller of two numbers.
pub open spec fn least(a: nat, b: nat) -> nat {
    if a < b {
        a
    } else {
        b
    }
}

/// The animation after one frame, and whether that was the last.
pub open spec fn ticked(v: ArminView) -> (ArminView, bool) {
    match v.state {
        StateView::Typewriter(pos) => {
            let to = least(pos + 3, CELLS as nat);
            (
                ArminView {
                    grid: typed(v.grid, pos as int, to as int),
                    state: StateView::Typewriter(to),
                    ..v
                },
                to >= CELLS,
            )
        },
        StateView::Scanline(row) => if row >= DISPLAY_HEIGHT {
            (v, true)
        } else {
            (
                ArminView {
                    grid: v.grid.update(row as int, picture()[row as int]),
                    state: StateView::Scanline(row + 1),
                    ..v
                },
                false,
            )
        },
        StateView::Rain(drops) => {
            let (next, seed, seen) = rain_step(drops, v.seed, WIDTH as nat);
            (
                ArminView {
                    grid: rain_grid(drops, seen),
                    state: StateView::Rain(next),
                    seed,
                    ..v
                },
                forall|x: int| 0 <= x < WIDTH ==> (#[trigger] drops[x]).1 >= DISPLAY_HEIGHT,
            )
        },
        StateView::Fade(order, shown) => {
            let to = least(shown + 15, order.len());
            (
                ArminView {
                    grid: uncovered(v.grid, order, shown as int, to as int),
                    state: StateView::Fade(order, to),
                    ..v
                },
                to >= order.len(),
            )
        },
        StateView::Crt(open) => {
            let next = if open <= DISPLAY_HEIGHT {
                open + 1
            } else {
                open
            };
            (
                ArminView { grid: opened(open), state: StateView::Crt(next), ..v },
                next > DISPLAY_HEIGHT,
            )
        },
        StateView::Glitch(phase) => if phase < 8 {
            let (grid, seed) = glitched(DISPLAY_HEIGHT as nat, v.seed);
            (ArminView { grid, state: StateView::Glitch(phase + 1), seed, ..v }, false)
        } else {
            (ArminView { grid: picture(), ..v }, true)
        },
        StateView::Dissolve(order, shown) => {
            let to = least(shown + 20, order.len());
            (
                ArminView {
                    grid: uncovered(v.grid, order, shown as int, to as int),
                    state: StateView::Dissolve(order, to),
                    ..v
                },
                to >= order.len(),
            )
        },
    }
}

/// Whether the order holds every place of the grid and no other.
pub open spec fn covers_grid(order: Seq<(usize, usize)>) -> bool {
    &&& order.len() == CELLS
    &&& forall|k: int|
        0 <= k < order.len() ==> (#[trigger] order[k]).0 < DISPLAY_HEIGHT && order[k].1 < WIDTH
    &&& forall|r: int, x: int|
        0 <= r < DISPLAY_HEIGHT && 0 <= x < WIDTH ==> #[trigger] order.contains(
            (r as usize, x as usize),
        )
}

/// Whether the character at a place of an order is as in the picture.
pub open spec fn shows_place(grid: Seq<Seq<char>>, place: (usize, usize)) -> bool {
    grid[place.0 as int][place.1 as int] == cell_char(place.1 as int, place.0 as int)
}

/// Whether the order covers the grid and its first places are as in the picture.
pub open spec fn partly_uncovered(
    grid: Seq<Seq<char>>,
    order: Seq<(usize, usize)>,
    shown: nat,
) -> bool {
    &&& covers_grid(order)
    &&& shown <= order.len()
    &&& forall|k: int| 0 <= k < shown ==> shows_place(grid, #[trigger] order[k])
}

/// How many frames it takes to show some characters, a few in each frame; at least one.
pub open spec fn frames_of(count: int, step: int) -> int {
    if count <= step {
        1
    } else {
        (count + step - 1) / step
    }
}

/// How many frames an effect takes; nothing is claimed of the rain.
pub open spec fn effect_frames(effect: ArminEffect) -> int {
    match effect {
        ArminEffect::Typewriter => 186,
        ArminEffect::Scanline => 19,
        ArminEffect::Rain => 0,
        ArminEffect::Fade => 38,
        ArminEffect::Crt => 19,
        ArminEffect::Glitch => 9,
        ArminEffect::Dissolve => 28,
    }
}

impl ArminView {
    /// Whether the grid has its size and what has appeared so far is as in the picture.
    pub open spec fn wf(self) -> bool {
        is_grid(self.grid) && match self.state {
            StateView::Typewriter(pos) => pos <= CELLS && forall|r: int, x: int|
                0 <= r < DISPLAY_HEIGHT && 0 <= x < WIDTH && r * 31 + x < pos
                    ==> #[trigger] self.grid[r][x] == cell_char(x, r),
            StateView::Scanline(row) => row <= DISPLAY_HEIGHT && forall|r: int|
                0 <= r < row ==> #[trigger] self.grid[r] == picture()[r],
            StateView::Rain(drops) => drops.len() == WIDTH && forall|x: int|
                0 <= x < WIDTH ==> (#[trigger] drops[x]).1 <= DISPLAY_HEIGHT,
            StateView::Fade(order, shown) => partly_uncovered(self.grid, order, shown),
            StateView::Dissolve(order, shown) => partly_uncovered(self.grid, order, shown),
            StateView::Crt(open) => open <= DISPLAY_HEIGHT + 1,
            StateView::Glitch(phase) => phase <= 8,
        }
    }

    /// How many frames are left with the last one; nothing is claimed of the rain.
    pub open spec fn remaining(self) -> int {
        match self.state {
            StateView::Typewriter(pos) => frames_of(CELLS - pos, 3),
            StateView::Scanline(row) => DISPLAY_HEIGHT + 1 - row,
            StateView::Rain(_) => 0,
            StateView::Fade(order, shown) => frames_of(order.len() - shown, 15),
            StateView::Dissolve(order, shown) => frames_of(order.len() - shown, 20),
            StateView::Crt(open) => if open <= DISPLAY_HEIGHT {
                DISPLAY_HEIGHT + 1 - open
            } else {
                1
            },
            StateView::Glitch(phase) => 9 - phase,
        }
    }
}

proof fn lemma_uncovered(
    grid: Seq<Seq<char>>,
    order: Seq<(usize, usize)>,
    from: int,
    to: int,
)
    requires
        is_grid(grid),
        0 <= from <= to <= order.len(),
        forall|k: int|
            0 <= k < order.len() ==> (#[trigger] order[k]).0 < DISPLAY_HEIGHT && order[k].1 < WIDTH,
        forall|k: int| 0 <= k < from ==> shows_place(grid, #[trigger] order[k]),
    ensures
        is_grid(uncovered(grid, order, from, to)),
        forall|k: int|
            0 <= k < to ==> shows_place(uncovered(grid, order, from, to), #[trigger] order[k]),
    decreases to - from,
{
    if from < to {
        lemma_uncovered(grid, order, from, to - 1);
    }
}

proof fn lemma_rain_step(drops: Seq<(int, nat)>, seed: u64, n: nat)
    requires
        n <= drops.len(),
        forall|x: int| 0 <= x < drops.len() ==> (#[trigger] drops[x]).1 <= DISPLAY_HEIGHT,
    ensures
        rain_step(drops, seed, n).0.len() == n,
        rain_step(drops, seed, n).2.len() == n,
        forall|x: int|
            0 <= x < n ==> (#[trigger] rain_step(drops, seed, n).0[x]).1 <= DISPLAY_HEIGHT,
        forall|x: int|
            0 <= x < n && drops[x].1 >= DISPLAY_HEIGHT ==> #[trigger] rain_step(
                drops,
                seed,
                n,
            ).2[x] is None,
    decreases n,
{
    if n > 0 {
        lemma_rain_step(drops, seed, (n - 1) as nat);
        lemma_target(n - 1, (DISPLAY_HEIGHT - drops[n - 1].1) as nat);
    }
}

proof fn lemma_target(x: int, end: nat)
    ensures
        column_target(x, end) matches Some(r) ==> r < end,
    decreases end,
{
    if end > 0 {
        lemma_target(x, (end - 1) as nat);
    }
}

proof fn lemma_glitched(n: nat, seed: u64)
    requires
        n <= DISPLAY_HEIGHT,
    ensures
        glitched(n, seed).0.len() == n,
        forall|r: int| 0 <= r < n ==> (#[trigger] glitched(n, seed).0[r]).len() == WIDTH,
    decreases n,
{
    if n > 0 {
        lemma_glitched((n - 1) as nat, seed);
    }
}

proof fn lemma_all_uncovered(grid: Seq<Seq<char>>, order: Seq<(usize, usize)>)
    requires
        is_grid(grid),
        partly_uncovered(grid, order, order.len()),
    ensures
        grid == picture(),
{
    assert forall|r: int, x: int|
        0 <= r < DISPLAY_HEIGHT && 0 <= x < WIDTH implies #[trigger] grid[r][x]
        == picture()[r][x] by {
        assert(order.contains((r as usize, x as usize)));
        let k = choose|k: int| 0 <= k < order.len() && order[k] == (r as usize, x as usize);
        assert(shows_place(grid, order[k]));
    }
    assert(grid =~~= picture());
}

/// A frame keeps what has appeared.
pub proof fn frames_keep_what_appeared(v: ArminView)
    requires
        v.wf(),
    ensures
        ticked(v).0.wf(),
{
    let next = ticked(v).0;
    match v.state {
        StateView::Typewriter(pos) => {
            assert forall|r: int, x: int|
                0 <= r < DISPLAY_HEIGHT && 0 <= x < WIDTH && r * 31 + x < least(
                    pos + 3,
                    CELLS as nat,
                ) implies #[trigger] next.grid[r][x] == cell_char(x, r) by {
                if r * 31 + x < pos {
                    assert(v.grid[r][x] == cell_char(x, r));
                }
            }
        },
        StateView::Scanline(row) => {
            if row < DISPLAY_HEIGHT {
                assert forall|r: int| 0 <= r < row + 1 implies #[trigger] next.grid[r]
                    == picture()[r] by {
                    if r < row {
                        assert(v.grid[r] == picture()[r]);
                    }
                }
            }
        },
        StateView::Rain(drops) => {
            lemma_rain_step(drops, v.seed, WIDTH as nat);
        },
        StateView::Fade(order, shown) => {
            lemma_uncovered(v.grid, order, shown as int, least(shown + 15, order.len()) as int);
        },
        StateView::Crt(open) => {},
        StateView::Glitch(phase) => {
            lemma_glitched(DISPLAY_HEIGHT as nat, v.seed);
        },
        StateView::Dissolve(order, shown) => {
            lemma_uncovered(v.grid, order, shown as int, least(shown + 20, order.len()) as int);
        },
    }
}

/// After the last frame the grid is the picture, whatever the effect.
pub proof fn last_frame_is_the_picture(v: ArminView)
    requires
        v.wf(),
        ticked(v).1,
    ensures
        ticked(v).0.grid == picture(),
{
    frames_keep_what_appeared(v);
    let next = ticked(v).0;
    match v.state {
        StateView::Typewriter(pos) => {
            assert forall|r: int, x: int|
                0 <= r < DISPLAY_HEIGHT && 0 <= x < WIDTH implies #[trigger] next.grid[r][x]
                == picture()[r][x] by {
                assert(r * 31 + x < CELLS);
            }
            assert(next.grid =~~= picture());
        },
        StateView::Scanline(row) => {
            assert(next.grid =~= picture());
        },
        StateView::Rain(drops) => {
            lemma_rain_step(drops, v.seed, WIDTH as nat);
            let seen = rain_step(drops, v.seed, WIDTH as nat).2;
            assert forall|r: int, x: int|
                0 <= r < DISPLAY_HEIGHT && 0 <= x < WIDTH implies #[trigger] next.grid[r][x]
                == picture()[r][x] by {
                assert(drops[x].1 >= DISPLAY_HEIGHT);
                assert(seen[x] is None);
            }
            assert(next.grid =~~= picture());
        },
        StateView::Fade(order, _) => {
            lemma_all_uncovered(next.grid, order);
        },
        StateView::Dissolve(order, _) => {
            lemma_all_uncovered(next.grid, order);
        },
        StateView::Crt(open) => {
            assert(next.grid =~= picture());
        },
        StateView::Glitch(phase) => {},
    }
}

/// Every frame but the last leaves one frame less, so each effect other than the rain ends after
/// its number of frames.
pub proof fn frames_run_out(v: ArminView)
    requires
        v.wf(),
        !(v.state is Rain),
    ensures
        v.remaining() >= 1,
        ticked(v).1 <==> v.remaining() == 1,
        !ticked(v).1 ==> ticked(v).0.remaining() == v.remaining() - 1,
{
    match v.state {
        StateView::Typewriter(pos) => {
            lemma_frames_of(CELLS - pos, 3);
        },
        StateView::Fade(order, shown) => {
            lemma_frames_of(order.len() - shown, 15);
        },
        StateView::Dissolve(order, shown) => {
            lemma_frames_of(order.len() - shown, 20);
        },
        _ => {},
    }
}

proof fn lemma_frames_of(count: int, step: int)
    requires
        step == 3 || step == 15 || step == 20,
    ensures
        frames_of(count, step) >= 1,
        frames_of(count, step) == 1 <==> count <= step,
        count > step ==> frames_of(count - step, step) == frames_of(count, step) - 1,
{
}

/// Each effect other than the rain takes the same number of frames whatever the seed.
pub proof fn effects_take_their_frames(effect: ArminEffect, seed: u64)
    requires
        effect != ArminEffect::Rain,
    ensures
        started(effect, seed).remaining() == effect_frames(effect),
{
    let s: u64 = if seed == 0 {
        1
    } else {
        seed
    };
    shuffling_permutes(places(), s, (CELLS - 1) as nat);
    shuffling_permutes(places(), noise(CELLS as nat, s).1, (CELLS - 1) as nat);
}

/// The place of a character, counted row by row.
proof fn lemma_place(r: int, x: int)
    requires
        0 <= r < DISPLAY_HEIGHT,
        0 <= x < WIDTH,
    ensures
        (r * 31 + x) / 31 == r,
        (r * 31 + x) % 31 == x,
        0 <= r * 31 + x < CELLS,
{
}

proof fn lemma_places_cover()
    ensures
        covers_grid(places()),
{
    assert forall|r: int, x: int|
        0 <= r < DISPLAY_HEIGHT && 0 <= x < WIDTH implies #[trigger] places().contains(
        (r as usize, x as usize),
    ) by {
        lemma_place(r, x);
        assert(places()[r * 31 + x] == (r as usize, x as usize));
    }
}

proof fn lemma_shuffled_cover(seed: u64)
    ensures
        covers_grid(shuffled_all(places(), seed).0),
{
    lemma_places_cover();
    let order = shuffled_all(places(), seed).0;
    shuffling_permutes(places(), seed, (CELLS - 1) as nat);
    assert forall|k: int| 0 <= k < order.len() implies (#[trigger] order[k]).0 < DISPLAY_HEIGHT
        && order[k].1 < WIDTH by {
        assert(order.contains(order[k]));
        let j = choose|j: int| 0 <= j < places().len() && places()[j] == order[k];
        assert(places()[j].0 < DISPLAY_HEIGHT && places()[j].1 < WIDTH);
    }
    assert forall|r: int, x: int|
        0 <= r < DISPLAY_HEIGHT && 0 <= x < WIDTH implies #[trigger] order.contains(
        (r as usize, x as usize),
    ) by {
        assert(places().contains((r as usize, x as usize)));
    }
}

/// The drops of `n` columns at first, each some way above the picture, and the seed after them.
pub open spec fn first_drops(n: nat, seed: u64) -> (Seq<(int, nat)>, u64)
    decreases n,
{
    if n == 0 {
        (Seq::empty(), seed)
    } else {
        let (before, s) = first_drops((n - 1) as nat, seed);
        let (s2, height) = drawn(s, 36);
        (before.push((-(height as int), 0nat)), s2)
    }
}

/// A character of noise.
pub open spec fn noise_char(k: nat) -> char {
    if k == 0 {
        ' '
    } else if k == 1 {
        '░'
    } else if k == 2 {
        '▒'
    } else if k == 3 {
        '▓'
    } else if k == 4 {
        '█'
    } else if k == 5 {
        '▀'
    } else {
        '▄'
    }
}

/// Some characters of noise, and the seed after them.
pub open spec fn noise(n: nat, seed: u64) -> (Seq<char>, u64)
    decreases n,
{
    if n == 0 {
        (Seq::empty(), seed)
    } else {
        let (before, s) = noise((n - 1) as nat, seed);
        let (s2, k) = drawn(s, 7);
        (before.push(noise_char(k)), s2)
    }
}

/// The characters in rows.
pub open spec fn in_rows(cells: Seq<char>) -> Seq<Seq<char>> {
    Seq::new(
        DISPLAY_HEIGHT as nat,
        |r: int| Seq::new(WIDTH as nat, |x: int| cells[r * 31 + x]),
    )
}

/// The animation before its first frame.
pub open spec fn started(effect: ArminEffect, seed: u64) -> ArminView {
    let s = if seed == 0 {
        1
    } else {
        seed
    };
    match effect {
        ArminEffect::Typewriter => ArminView {
            effect,
            grid: blank(),
            state: StateView::Typewriter(0),
            seed: s,
        },
        ArminEffect::Scanline => ArminView {
            effect,
            grid: blank(),
            state: StateView::Scanline(0),
            seed: s,
        },
        ArminEffect::Rain => {
            let (drops, s2) = first_drops(WIDTH as nat, s);
            ArminView { effect, grid: blank(), state: StateView::Rain(drops), seed: s2 }
        },
        ArminEffect::Fade => {
            let (order, s2) = shuffled_all(places(), s);
            ArminView { effect, grid: blank(), state: StateView::Fade(order, 0), seed: s2 }
        },
        ArminEffect::Crt => ArminView { effect, grid: blank(), state: StateView::Crt(0), seed: s },
        ArminEffect::Glitch => ArminView {
            effect,
            grid: blank(),
            state: StateView::Glitch(0),
            seed: s,
        },
        ArminEffect::Dissolve => {
            let (cells, s2) = noise(CELLS as nat, s);
            let (order, s3) = shuffled_all(places(), s2);
            ArminView {
                effect,
                grid: in_rows(cells),
                state: StateView::Dissolve(order, 0),
                seed: s3,
            }
        },
    }
}

/// The effect with the number.
pub open spec fn effect_number(k: nat) -> ArminEffect {
    if k == 0 {
        ArminEffect::Typewriter
    } else if k == 1 {
        ArminEffect::Scanline
    } else if k == 2 {
        ArminEffect::Rain
    } else if k == 3 {
        ArminEffect::Fade
    } else if k == 4 {
        ArminEffect::Crt
    } else if k == 5 {
        ArminEffect::Glitch
    } else {
        ArminEffect::Dissolve
    }
}

fn pick_effect(k: usize) -> (r: ArminEffect)
    ensures
        r == effect_number(k as nat),
{
    if k == 0 {
        ArminEffect::Typewriter
    } else if k == 1 {
        ArminEffect::Scanline
    } else if k == 2 {
        ArminEffect::Rain
    } else if k == 3 {
        ArminEffect::Fade
    } else if k == 4 {
        ArminEffect::Crt
    } else if k == 5 {
        ArminEffect::Glitch
    } else {
        ArminEffect::Dissolve
    }
}

fn pick_noise(k: usize) -> (r: char)
    ensures
        r == noise_char(k as nat),
{
    if k == 0 {
        ' '
    } else if k == 1 {
        '░'
    } else if k == 2 {
        '▒'
    } else if k == 3 {
        '▓'
    } else if k == 4 {
        '█'
    } else if k == 5 {
        '▀'
    } else {
        '▄'
    }
}

fn draw_drops(seed: &mut u64) -> (r: Vec<(isize, usize)>)
    ensures
        (drop_views(r@), *final(seed)) == first_drops(WIDTH as nat, *old(seed)),
        r.len() == WIDTH,
        forall|x: int| 0 <= x < WIDTH ==> (#[trigger] r[x]).1 == 0,
{
    let mut r: Vec<(isize, usize)> = Vec::new();
    assert(drop_views(r@) =~= Seq::empty());
    while r.len() < WIDTH
        invariant
            r.len() <= WIDTH,
            (drop_views(r@), *seed) == first_drops(r.len() as nat, *old(seed)),
            forall|x: int| 0 <= x < r.len() ==> (#[trigger] r[x]).1 == 0,
        decreases WIDTH - r.len(),
    {
        let height = rand(seed, 36);
        let ghost before = r@;
        let y: isize = -(height as isize);
        r.push((y, 0));
        assert(drop_views(r@) =~= drop_views(before).push((y as int, 0nat)));
    }
    r
}

fn draw_noise(seed: &mut u64) -> (r: Vec<Vec<char>>)
    ensures
        grid_view(r@) == in_rows(noise(CELLS as nat, *old(seed)).0),
        *final(seed) == noise(CELLS as nat, *old(seed)).1,
{
    let mut cells: Vec<char> = Vec::new();
    while cells.len() < CELLS
        invariant
            cells.len() <= CELLS,
            (cells@, *seed) == noise(cells.len() as nat, *old(seed)),
        decreases CELLS - cells.len(),
    {
        let k = rand(seed, 7);
        cells.push(pick_noise(k));
    }
    let mut grid: Vec<Vec<char>> = Vec::new();
    let mut r: usize = 0;
    while r < DISPLAY_HEIGHT
        invariant
            r <= DISPLAY_HEIGHT,
            cells.len() == CELLS,
            grid_view(grid@) =~= in_rows(cells@).take(r as int),
        decreases DISPLAY_HEIGHT - r,
    {
        let mut row: Vec<char> = Vec::new();
        let mut x: usize = 0;
        while x < WIDTH
            invariant
                x <= WIDTH,
                r < DISPLAY_HEIGHT,
                cells.len() == CELLS,
                row@ =~= in_rows(cells@)[r as int].take(x as int),
            decreases WIDTH - x,
        {
            row.push(cells[r * 31 + x]);
            x = x + 1;
        }
        assert(row@ =~= in_rows(cells@)[r as int]);
        let ghost before = grid@;
        grid.push(row);
        assert(grid_view(grid@) =~= grid_view(before).push(row@));
        r = r + 1;
    }
    assert(grid_view(grid@) =~= in_rows(cells@));
    grid
}

impl Armin {
    /// Whether the animation is well-formed and knows the picture.
    pub open spec fn wf(&self) -> bool {
        self@.wf() && grid_view(self.final_grid@) == picture()
    }

    /// The animation with an effect drawn from the seed.
    #[must_use]
    pub fn new(seed: u64) -> (r: Self)
        ensures
            r.wf(),
            ({
                let (s, k) = drawn(
                    if seed == 0 {
                        1
                    } else {
                        seed
                    },
                    7,
                );
                r@ == started(effect_number(k), s)
            }),
    {
        let mut s: u64 = if seed == 0 {
            1
        } else {
            seed
        };
        let k = rand(&mut s, 7);
        Self::with_effect(pick_effect(k), s)
    }

    /// The animation with the effect, before its first frame.
    #[must_use]
    pub fn with_effect(effect: ArminEffect, seed: u64) -> (r: Self)
        ensures
            r.wf(),
            r@ == started(effect, seed),
    {
        let mut s: u64 = if seed == 0 {
            1
        } else {
            seed
        };
        let mut grid = empty();
        let ghost start = s;
        let state = match effect {
            ArminEffect::Typewriter => ArminState::Typewriter(0),
            ArminEffect::Scanline => ArminState::Scanline(0),
            ArminEffect::Rain => ArminState::Rain(draw_drops(&mut s)),
            ArminEffect::Fade => {
                let mut order = positions();
                shuffle(&mut order, &mut s);
                ArminState::Fade(order, 0)
            },
            ArminEffect::Crt => ArminState::Crt(0),
            ArminEffect::Glitch => ArminState::Glitch(0),
            ArminEffect::Dissolve => {
                grid = draw_noise(&mut s);
                let ghost drawn_seed = s;
                let mut order = positions();
                shuffle(&mut order, &mut s);
                proof {
                    lemma_shuffled_cover(drawn_seed);
                }
                ArminState::Dissolve(order, 0)
            },
        };
        proof {
            lemma_shuffled_cover(start);
        }
        let r = Armin { effect, final_grid: final_grid(), grid, state, seed: s };
        assert(r@ =~= started(effect, seed));
        r
    }

    /// How the picture appears.
    #[must_use]
    pub fn effect(&self) -> (r: ArminEffect)
        ensures
            r == self.effect,
    {
        self.effect
    }
}

fn set_cell(grid: &mut Vec<Vec<char>>, r: usize, x: usize, c: char)
    requires
        is_grid(grid_view(old(grid)@)),
        r < DISPLAY_HEIGHT,
        x < WIDTH,
    ensures
        grid_view(final(grid)@) == grid_view(old(grid)@).update(
            r as int,
            grid_view(old(grid)@)[r as int].update(x as int, c),
        ),
        is_grid(grid_view(final(grid)@)),
{
    let ghost before = grid_view(grid@);
    assert(before.len() == grid@.len());
    assert(before[r as int].len() == WIDTH);
    let mut row: Vec<char> = Vec::new();
    std::mem::swap(&mut row, &mut grid[r]);
    row.set(x, c);
    grid.set(r, row);
    assert(grid_view(grid@) =~= before.update(r as int, before[r as int].update(x as int, c)));
}

fn copy_row(row: &Vec<char>) -> (r: Vec<char>)
    ensures
        r@ == row@,
{
    let mut r: Vec<char> = Vec::new();
    let mut i: usize = 0;
    while i < row.len()
        invariant
            i <= row.len(),
            r@ =~= row@.take(i as int),
        decreases row.len() - i,
    {
        r.push(row[i]);
        i = i + 1;
    }
    r
}

fn uncover(
    grid: &mut Vec<Vec<char>>,
    picture_rows: &Vec<Vec<char>>,
    order: &Vec<(usize, usize)>,
    from: usize,
    to: usize,
)
    requires
        is_grid(grid_view(old(grid)@)),
        grid_view(picture_rows@) == picture(),
        covers_grid(order@),
        from <= to <= order.len(),
    ensures
        grid_view(final(grid)@) == uncovered(
            grid_view(old(grid)@),
            order@,
            from as int,
            to as int,
        ),
{
    let mut i: usize = from;
    while i < to
        invariant
            from <= i <= to <= order.len(),
            covers_grid(order@),
            grid_view(picture_rows@) == picture(),
            is_grid(grid_view(grid@)),
            grid_view(grid@) == uncovered(
                grid_view(old(grid)@),
                order@,
                from as int,
                i as int,
            ),
        decreases to - i,
    {
        let place = order[i];
        assert(order@[i as int].0 < DISPLAY_HEIGHT && order@[i as int].1 < WIDTH);
        assert(grid_view(picture_rows@).len() == picture_rows@.len());
        assert(grid_view(picture_rows@)[place.0 as int] == picture_rows@[place.0 as int]@);
        assert(picture()[place.0 as int].len() == WIDTH);
        let c = picture_rows[place.0][place.1];
        set_cell(grid, place.0, place.1, c);
        i = i + 1;
    }
}

fn type_cells(
    grid: &mut Vec<Vec<char>>,
    picture_rows: &Vec<Vec<char>>,
    from: usize,
    to: usize,
)
    requires
        is_grid(grid_view(old(grid)@)),
        grid_view(picture_rows@) == picture(),
        from <= to <= CELLS,
    ensures
        grid_view(final(grid)@) == typed(grid_view(old(grid)@), from as int, to as int),
{
    let ghost before = grid_view(grid@);
    let mut i: usize = from;
    assert(before =~~= typed(before, from as int, from as int));
    while i < to
        invariant
            from <= i <= to <= CELLS,
            is_grid(before),
            grid_view(picture_rows@) == picture(),
            is_grid(grid_view(grid@)),
            grid_view(grid@) == typed(before, from as int, i as int),
        decreases to - i,
    {
        let r: usize = i / WIDTH;
        let x: usize = i % WIDTH;
        assert(grid_view(picture_rows@).len() == picture_rows@.len());
        assert(grid_view(picture_rows@)[r as int] == picture_rows@[r as int]@);
        assert(picture()[r as int].len() == WIDTH);
        let c = picture_rows[r][x];
        let ghost shown = grid_view(grid@);
        set_cell(grid, r, x, c);
        proof {
            let wanted = typed(before, from as int, i + 1);
            assert forall|p: int, q: int|
                0 <= p < DISPLAY_HEIGHT && 0 <= q < WIDTH implies #[trigger] grid_view(grid@)[p][q]
                == wanted[p][q] by {
                lemma_place(p, q);
                if p * 31 + q == i {
                    assert(p == r && q == x);
                } else {
                    assert(p != r || q != x);
                    assert(shown[p][q] == typed(before, from as int, i as int)[p][q]);
                }
            }
            assert(grid_view(grid@) =~~= wanted);
        }
        i = i + 1;
    }
}

fn find_target(picture_rows: &Vec<Vec<char>>, x: usize, end: usize) -> (r: Option<usize>)
    requires
        grid_view(picture_rows@) == picture(),
        x < WIDTH,
        end <= DISPLAY_HEIGHT,
    ensures
        match r {
            Some(row) => column_target(x as int, end as nat) == Some(row as nat) && row < end,
            None => column_target(x as int, end as nat) is None,
        },
{
    let mut n: usize = end;
    while n > 0
        invariant
            n <= end <= DISPLAY_HEIGHT,
            x < WIDTH,
            grid_view(picture_rows@) == picture(),
            column_target(x as int, end as nat) == column_target(x as int, n as nat),
        decreases n,
    {
        assert(grid_view(picture_rows@).len() == picture_rows@.len());
        assert(grid_view(picture_rows@)[n - 1] == picture_rows@[n - 1]@);
        assert(picture()[n - 1].len() == WIDTH);
        assert(picture()[n - 1][x as int] == cell_char(x as int, n - 1));
        if picture_rows[n - 1][x] != ' ' {
            return Some(n - 1);
        }
        n = n - 1;
    }
    None
}

fn step_drop(
    picture_rows: &Vec<Vec<char>>,
    x: usize,
    drop: (isize, usize),
    seed: &mut u64,
) -> (r: ((isize, usize), Option<usize>))
    requires
        grid_view(picture_rows@) == picture(),
        x < WIDTH,
        drop.1 <= DISPLAY_HEIGHT,
    ensures
        (r.0.0 as int, r.0.1 as nat, *final(seed), r.1) == drop_step(
            x as int,
            drop.0 as int,
            drop.1 as nat,
            *old(seed),
        ),
{
    let (y, settled) = drop;
    if settled >= DISPLAY_HEIGHT {
        return ((y, settled), None);
    }
    let target = find_target(picture_rows, x, DISPLAY_HEIGHT - settled);
    let fallen: isize = if y < isize::MAX {
        y + 1
    } else {
        y
    };
    if fallen < 0 || fallen >= 18 {
        return ((fallen, settled), None);
    }
    if let Some(row) = target {
        if fallen as usize >= row {
            let wait = rand(seed, 5);
            let above: isize = -(wait as isize) - 1;
            return ((above, DISPLAY_HEIGHT - row), None);
        }
    }
    ((fallen, settled), Some(fallen as usize))
}

fn build_rain(
    picture_rows: &Vec<Vec<char>>,
    drops: &Vec<(isize, usize)>,
    seen: &Vec<Option<usize>>,
) -> (r: Vec<Vec<char>>)
    requires
        grid_view(picture_rows@) == picture(),
        drops.len() == WIDTH,
        seen.len() == WIDTH,
        forall|x: int| 0 <= x < WIDTH ==> (#[trigger] drops[x]).1 <= DISPLAY_HEIGHT,
    ensures
        grid_view(r@) == rain_grid(drop_views(drops@), seen@),
{
    let ghost wanted = rain_grid(drop_views(drops@), seen@);
    let mut grid: Vec<Vec<char>> = Vec::new();
    let mut r: usize = 0;
    while r < DISPLAY_HEIGHT
        invariant
            r <= DISPLAY_HEIGHT,
            grid_view(picture_rows@) == picture(),
            drops.len() == WIDTH,
            seen.len() == WIDTH,
            forall|x: int| 0 <= x < WIDTH ==> (#[trigger] drops[x]).1 <= DISPLAY_HEIGHT,
            wanted == rain_grid(drop_views(drops@), seen@),
            grid_view(grid@) =~= wanted.take(r as int),
        decreases DISPLAY_HEIGHT - r,
    {
        let mut row: Vec<char> = Vec::new();
        let mut x: usize = 0;
        while x < WIDTH
            invariant
                x <= WIDTH,
                r < DISPLAY_HEIGHT,
                grid_view(picture_rows@) == picture(),
                drops.len() == WIDTH,
                seen.len() == WIDTH,
                forall|x: int| 0 <= x < WIDTH ==> (#[trigger] drops[x]).1 <= DISPLAY_HEIGHT,
                wanted == rain_grid(drop_views(drops@), seen@),
                row@ =~= wanted[r as int].take(x as int),
            decreases WIDTH - x,
        {
            assert(grid_view(picture_rows@).len() == picture_rows@.len());
            assert(grid_view(picture_rows@)[r as int] == picture_rows@[r as int]@);
            assert(picture()[r as int].len() == WIDTH);
            assert(drop_views(drops@)[x as int].1 == drops[x as int].1);
            let falling = match seen[x] {
                Some(at) => at == r,
                None => false,
            };
            let c = if falling {
                '▓'
            } else if r >= DISPLAY_HEIGHT - drops[x].1 {
                picture_rows[r][x]
            } else {
                ' '
            };
            row.push(c);
            x = x + 1;
        }
        assert(row@ =~= wanted[r as int]);
        let ghost before = grid@;
        grid.push(row);
        assert(grid_view(grid@) =~= grid_view(before).push(row@));
        r = r + 1;
    }
    assert(grid_view(grid@) =~= wanted);
    grid
}

fn build_opened(picture_rows: &Vec<Vec<char>>, open: usize) -> (r: Vec<Vec<char>>)
    requires
        grid_view(picture_rows@) == picture(),
        open <= DISPLAY_HEIGHT + 1,
    ensures
        grid_view(r@) == opened(open as nat),
{
    let blank_rows = empty();
    let mut grid: Vec<Vec<char>> = Vec::new();
    let mut r: usize = 0;
    while r < DISPLAY_HEIGHT
        invariant
            r <= DISPLAY_HEIGHT,
            open <= DISPLAY_HEIGHT + 1,
            grid_view(picture_rows@) == picture(),
            grid_view(blank_rows@) == blank(),
            grid_view(grid@) =~= opened(open as nat).take(r as int),
        decreases DISPLAY_HEIGHT - r,
    {
        assert(grid_view(picture_rows@).len() == picture_rows@.len());
        assert(grid_view(picture_rows@)[r as int] == picture_rows@[r as int]@);
        assert(grid_view(blank_rows@).len() == blank_rows@.len());
        assert(grid_view(blank_rows@)[r as int] == blank_rows@[r as int]@);
        let row = if 9 <= r + open && r <= 9 + open {
            copy_row(&picture_rows[r])
        } else {
            copy_row(&blank_rows[r])
        };
        let ghost before = grid@;
        grid.push(row);
        assert(grid_view(grid@) =~= grid_view(before).push(row@));
        r = r + 1;
    }
    assert(grid_view(grid@) =~= opened(open as nat));
    grid
}

/// A row moved to the left by `by` places, around its ends.
fn rotate(row: &Vec<char>, by: usize) -> (r: Vec<char>)
    requires
        row.len() == WIDTH,
        by <= WIDTH,
    ensures
        r@ == rotated(row@, by as int),
        r@ == rotated(row@, by - WIDTH),
{
    let mut r: Vec<char> = Vec::new();
    let mut x: usize = 0;
    while x < row.len()
        invariant
            x <= row.len(),
            row.len() == WIDTH,
            by <= WIDTH,
            r@ =~= rotated(row@, by as int).take(x as int),
        decreases row.len() - x,
    {
        r.push(row[(x + by) % WIDTH]);
        x = x + 1;
    }
    assert(r@ =~= rotated(row@, by as int));
    assert forall|k: int| 0 <= k < WIDTH implies rotated(row@, by as int)[k] == rotated(
        row@,
        by - WIDTH,
    )[k] by {
        assert((k + by) % 31 == (k + by - 31) % 31);
    }
    assert(r@ =~= rotated(row@, by - WIDTH));
    r
}

fn glitch_row(picture_rows: &Vec<Vec<char>>, r: usize, seed: &mut u64) -> (row: Vec<char>)
    requires
        grid_view(picture_rows@) == picture(),
        r < DISPLAY_HEIGHT,
    ensures
        (row@, *final(seed)) == glitched_row(r as int, *old(seed)),
{
    assert(grid_view(picture_rows@).len() == picture_rows@.len());
    assert(grid_view(picture_rows@)[r as int] == picture_rows@[r as int]@);
    assert(picture()[r as int].len() == WIDTH);
    let off = rand(seed, 7);
    if rand(seed, 10) < 3 {
        if off >= 3 {
            rotate(&picture_rows[r], off - 3)
        } else {
            rotate(&picture_rows[r], WIDTH - (3 - off))
        }
    } else if rand(seed, 10) < 2 {
        let other = rand(seed, DISPLAY_HEIGHT);
        assert(grid_view(picture_rows@).len() == picture_rows@.len());
        assert(grid_view(picture_rows@)[other as int] == picture_rows@[other as int]@);
        copy_row(&picture_rows[other])
    } else {
        copy_row(&picture_rows[r])
    }
}

fn build_glitch(picture_rows: &Vec<Vec<char>>, seed: &mut u64) -> (r: Vec<Vec<char>>)
    requires
        grid_view(picture_rows@) == picture(),
    ensures
        (grid_view(r@), *final(seed)) == glitched(DISPLAY_HEIGHT as nat, *old(seed)),
{
    let mut grid: Vec<Vec<char>> = Vec::new();
    let mut r: usize = 0;
    assert(grid_view(grid@) =~= Seq::empty());
    while r < DISPLAY_HEIGHT
        invariant
            r <= DISPLAY_HEIGHT,
            grid_view(picture_rows@) == picture(),
            (grid_view(grid@), *seed) == glitched(r as nat, *old(seed)),
        decreases DISPLAY_HEIGHT - r,
    {
        let row = glitch_row(picture_rows, r, seed);
        let ghost before = grid@;
        grid.push(row);
        assert(grid_view(grid@) =~= grid_view(before).push(row@));
        r = r + 1;
    }
    grid
}

impl Armin {
    fn tick_rain(&mut self, drops: Vec<(isize, usize)>) -> (done: bool)
        requires
            grid_view(old(self).final_grid@) == picture(),
            drops.len() == WIDTH,
            forall|x: int| 0 <= x < WIDTH ==> (#[trigger] drops[x]).1 <= DISPLAY_HEIGHT,
        ensures
            (final(self)@, done) == ticked(
                ArminView { state: StateView::Rain(drop_views(drops@)), ..old(self)@ },
            ),
            final(self).final_grid == old(self).final_grid,
    {
        let ghost views = drop_views(drops@);
        let ghost start = self.seed;
        let mut seed: u64 = self.seed;
        let mut next: Vec<(isize, usize)> = Vec::new();
        let mut seen: Vec<Option<usize>> = Vec::new();
        let mut done = true;
        let mut x: usize = 0;
        assert(drop_views(next@) =~= Seq::empty());
        assert(seen@ =~= Seq::empty());
        while x < WIDTH
            invariant
                x <= WIDTH,
                grid_view(self.final_grid@) == picture(),
                drops.len() == WIDTH,
                views == drop_views(drops@),
                forall|x: int| 0 <= x < WIDTH ==> (#[trigger] drops[x]).1 <= DISPLAY_HEIGHT,
                (drop_views(next@), seed, seen@) == rain_step(views, start, x as nat),
                done == (forall|k: int| 0 <= k < x ==> (#[trigger] views[k]).1 >= DISPLAY_HEIGHT),
            decreases WIDTH - x,
        {
            let drop = drops[x];
            assert(views[x as int] == (drop.0 as int, drop.1 as nat));
            assert(drops@[x as int].1 <= DISPLAY_HEIGHT);
            let (moved, falling) = step_drop(&self.final_grid, x, drop, &mut seed);
            let ghost before = next@;
            next.push(moved);
            assert(drop_views(next@) =~= drop_views(before).push((moved.0 as int, moved.1 as nat)));
            seen.push(falling);
            if drop.1 < DISPLAY_HEIGHT {
                done = false;
            }
            x = x + 1;
        }
        assert(seen@.len() == WIDTH) by {
            lemma_rain_step(views, start, WIDTH as nat);
        }
        self.grid = build_rain(&self.final_grid, &drops, &seen);
        self.state = ArminState::Rain(next);
        self.seed = seed;
        assert(self@ =~= ticked(
            ArminView { state: StateView::Rain(views), ..old(self)@ },
        ).0);
        done
    }

    /// Shows the next frame and says whether it was the last.
    pub fn tick(&mut self) -> (done: bool)
        requires
            old(self).wf(),
        ensures
            final(self).wf(),
            (final(self)@, done) == ticked(old(self)@),
            done ==> final(self)@.grid == picture(),
    {
        proof {
            frames_keep_what_appeared(self@);
            if ticked(self@).1 {
                last_frame_is_the_picture(self@);
            }
        }
        let mut state = ArminState::Crt(0);
        std::mem::swap(&mut state, &mut self.state);
        assert(state == old(self).state);
        match state {
            ArminState::Typewriter(pos) => {
                let to: usize = if pos + 3 < CELLS {
                    pos + 3
                } else {
                    CELLS
                };
                type_cells(&mut self.grid, &self.final_grid, pos, to);
                self.state = ArminState::Typewriter(to);
                assert(self@ =~= ticked(old(self)@).0);
                to >= CELLS
            },
            ArminState::Scanline(row) => {
                if row >= DISPLAY_HEIGHT {
                    self.state = ArminState::Scanline(row);
                    assert(self@ =~= ticked(old(self)@).0);
                    true
                } else {
                    let ghost before = grid_view(self.grid@);
                    assert(before.len() == self.grid.len());
                    assert(grid_view(self.final_grid@).len() == self.final_grid@.len());
                    assert(grid_view(self.final_grid@)[row as int] == self.final_grid@[row as int]@);
                    let copied = copy_row(&self.final_grid[row]);
                    self.grid.set(row, copied);
                    assert(grid_view(self.grid@) =~= before.update(
                        row as int,
                        picture()[row as int],
                    ));
                    self.state = ArminState::Scanline(row + 1);
                    assert(self@ =~= ticked(old(self)@).0);
                    false
                }
            },
            ArminState::Rain(drops) => {
                assert(drop_views(drops@).len() == WIDTH);
                assert forall|x: int| 0 <= x < WIDTH implies (#[trigger] drops[x]).1
                    <= DISPLAY_HEIGHT by {
                    assert(drop_views(drops@)[x].1 <= DISPLAY_HEIGHT);
                }
                let done = self.tick_rain(drops);
                done
            },
            ArminState::Fade(order, shown) => {
                let to: usize = if shown + 15 < order.len() {
                    shown + 15
                } else {
                    order.len()
                };
                uncover(&mut self.grid, &self.final_grid, &order, shown, to);
                let done = to >= order.len();
                self.state = ArminState::Fade(order, to);
                assert(self@ =~= ticked(old(self)@).0);
                done
            },
            ArminState::Crt(open) => {
                self.grid = build_opened(&self.final_grid, open);
                let next: usize = if open <= DISPLAY_HEIGHT {
                    open + 1
                } else {
                    open
                };
                self.state = ArminState::Crt(next);
                assert(self@ =~= ticked(old(self)@).0);
                next > DISPLAY_HEIGHT
            },
            ArminState::Glitch(phase) => {
                if phase < 8 {
                    let mut seed: u64 = self.seed;
                    self.grid = build_glitch(&self.final_grid, &mut seed);
                    self.seed = seed;
                    self.state = ArminState::Glitch(phase + 1);
                    assert(self@ =~= ticked(old(self)@).0);
                    false
                } else {
                    self.grid = final_grid();
                    self.state = ArminState::Glitch(phase);
                    assert(self@ =~= ticked(old(self)@).0);
                    true
                }
            },
            ArminState::Dissolve(order, shown) => {
                let to: usize = if shown + 20 < order.len() {
                    shown + 20
                } else {
                    order.len()
                };
                uncover(&mut self.grid, &self.final_grid, &order, shown, to);
                let done = to >= order.len();
                self.state = ArminState::Dissolve(order, to);
                assert(self@ =~= ticked(old(self)@).0);
                done
            },
        }
    }

    /// The lines: the rows of the grid cut to the width, and a greeting, each filled up with spaces.
    pub fn render(&self, width: u16) -> (r: Vec<Vec<Span>>)
        ensures
            span_lines(r@) == armin_lines(self@.grid, width as nat),
    {
        let ghost wanted = armin_lines(self@.grid, width as nat);
        let available: usize = if width > 0 {
            (width - 1) as usize
        } else {
            0
        };
        let mut lines: Vec<Vec<Span>> = Vec::new();
        let mut i: usize = 0;
        while i < self.grid.len()
            invariant
                i <= self.grid.len(),
                wanted == armin_lines(self@.grid, width as nat),
                available == (if width > 0 {
                    width - 1
                } else {
                    0
                }),
                span_lines(lines@) =~= wanted.take(i as int),
            decreases self.grid.len() - i,
        {
            assert(self@.grid[i as int] == self.grid[i as int]@);
            let shown: usize = if self.grid[i].len() < available {
                self.grid[i].len()
            } else {
                available
            };
            let text = string_of(slice_subrange(self.grid[i].as_slice(), 0, shown));
            let line = framed_line(text, shown, width);
            push_line(&mut lines, line);
            assert(spans(line@) =~= wanted[i as int]);
            i = i + 1;
        }
        let greeting = framed_line("ARMIN SAYS HI".to_owned(), 13, width);
        push_line(&mut lines, greeting);
        assert(span_lines(lines@) =~= wanted);
        lines
    }
}

/// A line of a text of some columns: a space, the text, and spaces up to the width.
pub open spec fn framed(text: Seq<char>, columns: nat, width: nat) -> Seq<SpanView> {
    seq![
        plain(" "@),
        colored(ThemeColor::Accent, text),
        plain(
            repeat(
                ' ',
                if width > columns + 1 {
                    (width - columns - 1) as nat
                } else {
                    0
                },
            ),
        ),
    ]
}

/// The lines of the animation.
pub open spec fn armin_lines(grid: Seq<Seq<char>>, width: nat) -> Seq<Seq<SpanView>> {
    let available = if width > 0 {
        (width - 1) as nat
    } else {
        0
    };
    grid.map_values(
        |row: Seq<char>|
            framed(
                row.take(least(row.len(), available) as int),
                least(row.len(), available),
                width,
            ),
    ).push(framed("ARMIN SAYS HI"@, 13, width))
}

fn framed_line(text: String, columns: usize, width: u16) -> (r: Vec<Span>)
    requires
        columns < usize::MAX,
    ensures
        spans(r@) == framed(text@, columns as nat, width as nat),
{
    let mut line: Vec<Span> = Vec::new();
    push_span(&mut line, raw(" "));
    push_span(&mut line, fg(ThemeColor::Accent, text.as_str()));
    let mut fill = String::new();
    let count: usize = if width as usize > columns + 1 {
        width as usize - columns - 1
    } else {
        0
    };
    push_repeat(&mut fill, ' ', count);
    push_span(&mut line, raw(fill.as_str()));
    assert(fill@ =~= repeat(' ', count as nat));
    assert(spans(line@) =~= framed(text@, columns as nat, width as nat));
    line
}

} // verus!
