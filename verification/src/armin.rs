//! Animated Armin XBM easter egg.

use vstd::prelude::*;

verus! {

broadcast use vstd::string::group_string_axioms;

/// The columns of the picture.
pub const WIDTH: usize = 31;

/// The rows of pixels.
pub const HEIGHT: usize = 36;

/// The rows of characters: each holds two rows of pixels.
pub const DISPLAY_HEIGHT: usize = 18;

/// The number of characters.
pub const CELLS: usize = 558;

/// How the picture appears.
#[derive(Clone, Copy, Debug, PartialEq, Eq, Structural)]
pub enum ArminEffect {
    Typewriter,
    Scanline,
    Rain,
    Fade,
    Crt,
    Glitch,
    Dissolve,
}

/// How far the picture has appeared.
#[derive(Debug)]
pub enum ArminState {
    /// The characters that are typed.
    Typewriter(usize),
    /// The rows that are scanned.
    Scanline(usize),
    /// For each column the row of its drop and how many rows from the bottom have settled.
    Rain(Vec<(isize, usize)>),
    /// The order in which characters appear, and how many have.
    Fade(Vec<(usize, usize)>, usize),
    /// How far the picture has opened from the middle.
    Crt(usize),
    /// The frames of distortion that have been shown.
    Glitch(usize),
    /// The order in which characters appear, and how many have.
    Dissolve(Vec<(usize, usize)>, usize),
}

/// The pixels of a row, the lowest bit leftmost; a pixel is set where its bit is not.
pub open spec fn row_bits(y: int) -> u32 {
    if y == 0 {
        0x7fffffff
    } else if y == 1 {
        0x7ffff0ff
    } else if y == 2 {
        0x7fffedff
    } else if y == 3 {
        0x7fffdbff
    } else if y == 4 {
        0x7fffb7ff
    } else if y == 5 {
        0x7ffe77ff
    } else if y == 6 {
        0x7ffef83f
    } else if y == 7 {
        0x7ffeffdf
    } else if y == 8 {
        0x7ffc3fdf
    } else if y == 9 {
        0x7ffbc39f
    } else if y == 10 {
        0x7ff4fc6f
    } else if y == 11 {
        0x7ff70ff7
    } else if y == 12 {
        0x7ff7fff7
    } else if y == 13 {
        0x7fe3fff7
    } else if y == 14 {
        0x7fe807f7
    } else if y == 15 {
        0x7067f8ef
    } else if y == 16 {
        0x6fbbff0f
    } else if y == 17 {
        0x5bd000f1
    } else if y == 18 {
        0x53ec3ffd
    } else if y == 19 {
        0x57efffc1
    } else if y == 20 {
        0x5feefd9f
    } else if y == 21 {
        0x5faefc9f
    } else if y == 22 {
        0x5fac781f
    } else if y == 23 {
        0x6c50003f
    } else if y == 24 {
        0x77dc007f
    } else if y == 25 {
        0x783fc0ff
    } else if y == 26 {
        0x7ff801ff
    } else if y == 27 {
        0x789c03ff
    } else if y == 28 {
        0x7c8c07ff
    } else if y == 29 {
        0x78ce0fff
    } else if y == 30 {
        0x7fcfffff
    } else if y == 31 {
        0x78cfffff
    } else if y == 32 {
        0x78dfffff
    } else if y == 33 {
        0x7ddfffff
    } else if y == 34 {
        0x7e3fffff
    } else if y == 35 {
        0x7fffffff
    } else {
        0xffff_ffff
    }
}

fn bits_of_row(y: usize) -> (r: u32)
    ensures
        r == row_bits(y as int),
{
    if y == 0 {
        0x7fffffff
    } else if y == 1 {
        0x7ffff0ff
    } else if y == 2 {
        0x7fffedff
    } else if y == 3 {
        0x7fffdbff
    } else if y == 4 {
        0x7fffb7ff
    } else if y == 5 {
        0x7ffe77ff
    } else if y == 6 {
        0x7ffef83f
    } else if y == 7 {
        0x7ffeffdf
    } else if y == 8 {
        0x7ffc3fdf
    } else if y == 9 {
        0x7ffbc39f
    } else if y == 10 {
        0x7ff4fc6f
    } else if y == 11 {
        0x7ff70ff7
    } else if y == 12 {
        0x7ff7fff7
    } else if y == 13 {
        0x7fe3fff7
    } else if y == 14 {
        0x7fe807f7
    } else if y == 15 {
        0x7067f8ef
    } else if y == 16 {
        0x6fbbff0f
    } else if y == 17 {
        0x5bd000f1
    } else if y == 18 {
        0x53ec3ffd
    } else if y == 19 {
        0x57efffc1
    } else if y == 20 {
        0x5feefd9f
    } else if y == 21 {
        0x5faefc9f
    } else if y == 22 {
        0x5fac781f
    } else if y == 23 {
        0x6c50003f
    } else if y == 24 {
        0x77dc007f
    } else if y == 25 {
        0x783fc0ff
    } else if y == 26 {
        0x7ff801ff
    } else if y == 27 {
        0x789c03ff
    } else if y == 28 {
        0x7c8c07ff
    } else if y == 29 {
        0x78ce0fff
    } else if y == 30 {
        0x7fcfffff
    } else if y == 31 {
        0x78cfffff
    } else if y == 32 {
        0x78dfffff
    } else if y == 33 {
        0x7ddfffff
    } else if y == 34 {
        0x7e3fffff
    } else if y == 35 {
        0x7fffffff
    } else {
        0xffff_ffff
    }
}

/// Whether the pixel is set.
pub open spec fn pixel_set(x: int, y: int) -> bool {
    y < HEIGHT && (row_bits(y) >> (x as u32)) & 1 == 0
}

/// The character for two pixels, one above the other.
pub open spec fn cell_char(x: int, r: int) -> char {
    match (pixel_set(x, r * 2), pixel_set(x, r * 2 + 1)) {
        (true, true) => '█',
        (true, false) => '▀',
        (false, true) => '▄',
        (false, false) => ' ',
    }
}

/// The whole picture.
pub open spec fn picture() -> Seq<Seq<char>> {
    Seq::new(
        DISPLAY_HEIGHT as nat,
        |r: int| Seq::new(WIDTH as nat, |x: int| cell_char(x, r)),
    )
}

/// An empty picture.
pub open spec fn blank() -> Seq<Seq<char>> {
    Seq::new(DISPLAY_HEIGHT as nat, |r: int| Seq::new(WIDTH as nat, |x: int| ' '))
}

/// Whether the grid has the size of the picture.
pub open spec fn is_grid(grid: Seq<Seq<char>>) -> bool {
    grid.len() == DISPLAY_HEIGHT && forall|r: int|
        0 <= r < DISPLAY_HEIGHT ==> (#[trigger] grid[r]).len() == WIDTH
}

/// The rows of a grid.
pub open spec fn grid_view(grid: Seq<Vec<char>>) -> Seq<Seq<char>> {
    grid.map_values(|row: Vec<char>| row@)
}

/// The seed after one step of the generator.
pub open spec fn next_seed(seed: u64) -> u64 {
    let a = seed ^ (seed << 13u64);
    let b = a ^ (a >> 7u64);
    b ^ (b << 17u64)
}

/// The generator never reaches zero, from which it would not leave.
pub proof fn seed_stays_nonzero(seed: u64)
    requires
        seed != 0,
    ensures
        next_seed(seed) != 0,
{
    assert(seed != 0 ==> ({
        let a = seed ^ (seed << 13u64);
        let b = a ^ (a >> 7u64);
        b ^ (b << 17u64)
    }) != 0) by (bit_vector);
}

/// A number below `n` and the seed after it was drawn.
pub open spec fn drawn(seed: u64, n: nat) -> (u64, nat) {
    if n == 0 {
        (seed, 0)
    } else {
        (next_seed(seed), next_seed(seed) as nat % n)
    }
}

/// A number below `n`.
pub fn rand(seed: &mut u64, n: usize) -> (r: usize)
    ensures
        (*final(seed), r as nat) == drawn(*old(seed), n as nat),
        n > 0 ==> r < n,
{
    if n == 0 {
        return 0;
    }
    let s: u64 = *seed;
    let a: u64 = s ^ (s << 13u64);
    let b: u64 = a ^ (a >> 7u64);
    let c: u64 = b ^ (b << 17u64);
    *seed = c;
    (c % (n as u64)) as usize
}

/// The items with two of them swapped.
pub open spec fn swapped<T>(v: Seq<T>, i: int, j: int) -> Seq<T> {
    v.update(i, v[j]).update(j, v[i])
}

/// The items shuffled: from index `i` down, each is swapped with one drawn from those up to it.
pub open spec fn shuffled<T>(v: Seq<T>, seed: u64, i: nat) -> (Seq<T>, u64)
    decreases i,
{
    if i == 0 {
        (v, seed)
    } else {
        let (s, j) = drawn(seed, i + 1);
        shuffled(swapped(v, i as int, j as int), s, (i - 1) as nat)
    }
}

/// All items shuffled.
pub open spec fn shuffled_all<T>(v: Seq<T>, seed: u64) -> (Seq<T>, u64) {
    shuffled(
        v,
        seed,
        if v.len() > 0 {
            (v.len() - 1) as nat
        } else {
            0
        },
    )
}

proof fn lemma_swapped_holds<T>(v: Seq<T>, i: int, j: int, item: T)
    requires
        0 <= i < v.len(),
        0 <= j < v.len(),
    ensures
        v.contains(item) == swapped(v, i, j).contains(item),
{
    let w = swapped(v, i, j);
    if v.contains(item) {
        let k = choose|k: int| 0 <= k < v.len() && v[k] == item;
        let at = if k == i {
            j
        } else if k == j {
            i
        } else {
            k
        };
        assert(w[at] == item);
    }
    if w.contains(item) {
        let k = choose|k: int| 0 <= k < w.len() && w[k] == item;
        let at = if k == i {
            j
        } else if k == j {
            i
        } else {
            k
        };
        assert(v[at] == item);
    }
}

/// Shuffling keeps the items: none is lost and none is added.
pub proof fn shuffling_permutes<T>(v: Seq<T>, seed: u64, i: nat)
    requires
        i < v.len() || i == 0,
    ensures
        shuffled(v, seed, i).0.len() == v.len(),
        shuffled(v, seed, i).0.to_multiset() =~= v.to_multiset(),
        forall|item: T| #[trigger] shuffled(v, seed, i).0.contains(item) == v.contains(item),
    decreases i,
{
    if i > 0 {
        let (s, j) = drawn(seed, i + 1);
        let w = swapped(v, i as int, j as int);
        shuffling_permutes(w, s, (i - 1) as nat);
        vstd::seq_lib::to_multiset_update(v, i as int, v[j as int]);
        vstd::seq_lib::to_multiset_update(v.update(i as int, v[j as int]), j as int, v[i as int]);
        v.to_multiset_ensures();
        assert(v.to_multiset().contains(v[i as int]));
        assert(v.update(i as int, v[j as int])[j as int] == v[j as int]);
        assert(w.to_multiset() =~= v.to_multiset());
        assert forall|item: T| #[trigger] shuffled(v, seed, i).0.contains(item) == v.contains(
            item,
        ) by {
            lemma_swapped_holds(v, i as int, j as int, item);
            assert(shuffled(w, s, (i - 1) as nat).0.contains(item) == w.contains(item));
        }
    }
}

/// Shuffles the items.
pub fn shuffle(v: &mut Vec<(usize, usize)>, seed: &mut u64)
    ensures
        (final(v)@, *final(seed)) == shuffled_all(old(v)@, *old(seed)),
        final(v).len() == old(v).len(),
{
    if v.len() == 0 {
        return;
    }
    let mut i: usize = v.len() - 1;
    while i > 0
        invariant
            i < v.len(),
            v.len() == old(v).len(),
            shuffled_all(old(v)@, *old(seed)) == shuffled(v@, *seed, i as nat),
        decreases i,
    {
        let j = rand(seed, i + 1);
        let a = v[i];
        let b = v[j];
        let ghost before = v@;
        v.set(i, b);
        v.set(j, a);
        assert(v@ =~= swapped(before, i as int, j as int));
        i = i - 1;
    }
}

/// The places of all characters, row by row.
pub open spec fn places() -> Seq<(usize, usize)> {
    Seq::new(CELLS as nat, |k: int| ((k / 31) as usize, (k % 31) as usize))
}

/// The places of all characters, row by row.
pub fn positions() -> (r: Vec<(usize, usize)>)
    ensures
        r@ == places(),
{
    let mut r: Vec<(usize, usize)> = Vec::new();
    let mut k: usize = 0;
    while k < CELLS
        invariant
            k <= CELLS,
            r@ =~= places().take(k as int),
        decreases CELLS - k,
    {
        r.push((k / WIDTH, k % WIDTH));
        k = k + 1;
    }
    r
}

/// Whether the pixel is set.
pub fn pixel(x: usize, y: usize) -> (r: bool)
    requires
        x < WIDTH,
    ensures
        r == pixel_set(x as int, y as int),
{
    y < HEIGHT && (bits_of_row(y) >> (x as u32)) & 1 == 0
}

/// The character for two pixels, one above the other.
pub fn cell(x: usize, r: usize) -> (c: char)
    requires
        x < WIDTH,
        r < DISPLAY_HEIGHT,
    ensures
        c == cell_char(x as int, r as int),
{
    match (pixel(x, r * 2), pixel(x, r * 2 + 1)) {
        (true, true) => '█',
        (true, false) => '▀',
        (false, true) => '▄',
        (false, false) => ' ',
    }
}

/// The whole picture.
pub fn final_grid() -> (r: Vec<Vec<char>>)
    ensures
        grid_view(r@) == picture(),
{
    let mut grid: Vec<Vec<char>> = Vec::new();
    let mut r: usize = 0;
    while r < DISPLAY_HEIGHT
        invariant
            r <= DISPLAY_HEIGHT,
            grid_view(grid@) =~= picture().take(r as int),
        decreases DISPLAY_HEIGHT - r,
    {
        let mut row: Vec<char> = Vec::new();
        let mut x: usize = 0;
        while x < WIDTH
            invariant
                x <= WIDTH,
                r < DISPLAY_HEIGHT,
                row@ =~= picture()[r as int].take(x as int),
            decreases WIDTH - x,
        {
            row.push(cell(x, r));
            x = x + 1;
        }
        assert(row@ =~= picture()[r as int]);
        let ghost before = grid@;
        grid.push(row);
        assert(grid_view(grid@) =~= grid_view(before).push(row@));
        r = r + 1;
    }
    grid
}

/// An empty picture.
pub fn empty() -> (r: Vec<Vec<char>>)
    ensures
        grid_view(r@) == blank(),
{
    let mut grid: Vec<Vec<char>> = Vec::new();
    let mut r: usize = 0;
    while r < DISPLAY_HEIGHT
        invariant
            r <= DISPLAY_HEIGHT,
            grid_view(grid@) =~= blank().take(r as int),
        decreases DISPLAY_HEIGHT - r,
    {
        let mut row: Vec<char> = Vec::new();
        let mut x: usize = 0;
        while x < WIDTH
            invariant
                x <= WIDTH,
                r < DISPLAY_HEIGHT,
                row@ =~= blank()[r as int].take(x as int),
            decreases WIDTH - x,
        {
            row.push(' ');
            x = x + 1;
        }
        assert(row@ =~= blank()[r as int]);
        let ghost before = grid@;
        grid.push(row);
        assert(grid_view(grid@) =~= grid_view(before).push(row@));
        r = r + 1;
    }
    grid
}

} // verus!
