//! What the frames of the animation show: what each adds to the one before, and where it comes from.

use crate::armin::{blank, cell_char, picture, ArminEffect, CELLS, DISPLAY_HEIGHT, WIDTH};
use crate::armin_animation::{
    armin_lines, column_target, drop_step, effect_number, glitched_row, opened, rotated, started,
    ticked, ArminView, StateView,
};
use crate::text::{index_of_char, lemma_index_of_char_bounds};
use crate::theme_submenu::{automatic_pair, preferred};
use crate::tree_layout::{child_visual, VisualView};
use vstd::prelude::*;
use vstd::string::*;

verus! {

/// The typewriter types three cells a frame, row by row, and leaves all others.
pub proof fn the_typewriter_types_three_cells(v: ArminView, pos: nat, r: int, x: int)
    requires
        v.state == StateView::Typewriter(pos),
        0 <= r < DISPLAY_HEIGHT,
        0 <= x < WIDTH,
    ensures
        pos <= r * 31 + x < pos + 3 ==> ticked(v).0.grid[r][x] == picture()[r][x],
        !(pos <= r * 31 + x < pos + 3) ==> ticked(v).0.grid[r][x] == v.grid[r][x],
        pos + 3 <= CELLS ==> ticked(v).0.state == StateView::Typewriter(pos + 3),
{
}

/// The scan line draws one row a frame, from the top down, and leaves all others.
pub proof fn the_scan_line_draws_one_row(v: ArminView, row: nat, r: int)
    requires
        v.state == StateView::Scanline(row),
        v.grid.len() == DISPLAY_HEIGHT,
        row < DISPLAY_HEIGHT,
        0 <= r < DISPLAY_HEIGHT,
    ensures
        ticked(v).0.grid[r] == if r == row {
            picture()[r]
        } else {
            v.grid[r]
        },
        ticked(v).0.state == StateView::Scanline(row + 1),
{
}

/// The screen opens from its middle row, one row up and down a frame.
pub proof fn the_screen_opens_from_the_middle(open: nat, r: int)
    requires
        0 <= r < DISPLAY_HEIGHT,
    ensures
        opened(open).len() == DISPLAY_HEIGHT,
        r - 9 <= open && 9 - r <= open ==> opened(open)[r] == picture()[r],
        r - 9 > open || 9 - r > open ==> opened(open)[r] == blank()[r],
{
}

proof fn lemma_column_target(x: int, end: nat)
    ensures
        match column_target(x, end) {
            Some(t) => t < end && cell_char(x, t as int) != ' ' && forall|r: int|
                t < r < end ==> #[trigger] cell_char(x, r) == ' ',
            None => forall|r: int| 0 <= r < end ==> #[trigger] cell_char(x, r) == ' ',
        },
    decreases end,
{
    if end > 0 && cell_char(x, end - 1) == ' ' {
        lemma_column_target(x, (end - 1) as nat);
    }
}

/// A drop falls a row a frame and settles on the lowest cell of its column that is not drawn yet and not
/// blank; what has settled stays.
pub proof fn drops_fall_and_settle(x: int, y: int, settled: nat, seed: u64)
    requires
        settled < DISPLAY_HEIGHT,
        y < isize::MAX,
    ensures
        ({
            let (y2, settled2, seed2, falling) = drop_step(x, y, settled, seed);
            &&& settled2 >= settled
            &&& settled2 <= DISPLAY_HEIGHT
            &&& settled2 == settled ==> y2 == y + 1 && seed2 == seed
            &&& falling is Some ==> settled2 == settled && falling->0 == y + 1
            &&& settled2 > settled ==> {
                let landed = DISPLAY_HEIGHT - settled2;
                &&& y + 1 >= landed
                &&& cell_char(x, landed) != ' '
                &&& y2 < 0
                &&& forall|r: int|
                    landed < r < DISPLAY_HEIGHT - settled ==> #[trigger] cell_char(x, r) == ' '
            }
        }),
{
    lemma_column_target(x, (DISPLAY_HEIGHT - settled) as nat);
}

/// A glitched row is a row of the picture, in its place or another, or its own shifted by three columns
/// at most.
pub proof fn glitches_show_rows_of_the_picture(r: int, seed: u64)
    requires
        0 <= r < DISPLAY_HEIGHT,
    ensures
        ({
            let row = glitched_row(r, seed).0;
            ||| exists|k: int| 0 <= k < DISPLAY_HEIGHT && row == #[trigger] picture()[k]
            ||| exists|by: int| -3 <= by <= 3 && row == #[trigger] rotated(picture()[r], by)
        }),
{
    let (s1, off) = crate::armin::drawn(seed, 7);
    let (s2, moves) = crate::armin::drawn(s1, 10);
    if moves < 3 {
        assert(glitched_row(r, seed).0 == rotated(picture()[r], off - 3));
    } else {
        let (s3, replaces) = crate::armin::drawn(s2, 10);
        let (s4, other) = crate::armin::drawn(s3, DISPLAY_HEIGHT as nat);
        if replaces < 2 {
            assert(glitched_row(r, seed).0 == picture()[other as int]);
        } else {
            assert(glitched_row(r, seed).0 == picture()[r]);
        }
    }
}

/// A shifted row holds the same cells, moved around the ends.
pub proof fn shifted_rows_go_around(row: Seq<char>, by: int, x: int)
    requires
        0 <= x < row.len(),
        0 <= by < row.len(),
    ensures
        rotated(row, by).len() == row.len(),
        x + by < row.len() ==> rotated(row, by)[x] == row[x + by],
        x + by >= row.len() ==> rotated(row, by)[x] == row[x + by - row.len()],
{
    let n = row.len() as int;
    if x + by < n {
        vstd::arithmetic::div_mod::lemma_small_mod((x + by) as nat, n as nat);
    } else {
        vstd::arithmetic::div_mod::lemma_mod_sub_multiples_vanish(x + by, n);
        vstd::arithmetic::div_mod::lemma_small_mod((x + by - n) as nat, n as nat);
    }
}

/// All effects but the dissolving one start with nothing drawn, and none starts without a seed.
pub proof fn effects_start_with_nothing_drawn(effect: ArminEffect, seed: u64)
    ensures
        started(effect, seed).effect == effect,
        effect != ArminEffect::Dissolve ==> started(effect, seed).grid == blank(),
        effect == ArminEffect::Typewriter ==> started(effect, seed).state
            == StateView::Typewriter(0),
        effect == ArminEffect::Scanline ==> started(effect, seed).state == StateView::Scanline(0),
{
}

/// Each effect can be drawn.
pub proof fn every_effect_can_be_drawn(effect: ArminEffect)
    ensures
        exists|k: nat| k < 7 && #[trigger] effect_number(k) == effect,
{
    assert(effect_number(0) == ArminEffect::Typewriter);
    assert(effect_number(1) == ArminEffect::Scanline);
    assert(effect_number(2) == ArminEffect::Rain);
    assert(effect_number(3) == ArminEffect::Fade);
    assert(effect_number(4) == ArminEffect::Crt);
    assert(effect_number(5) == ArminEffect::Glitch);
    assert(effect_number(6) == ArminEffect::Dissolve);
}

/// The picture is shown one column in, with its caption below, and each line fills the width.
pub proof fn frames_fill_the_width(grid: Seq<Seq<char>>, width: nat, r: int)
    requires
        0 <= r < grid.len(),
        grid[r].len() < width,
    ensures
        armin_lines(grid, width).len() == grid.len() + 1,
        armin_lines(grid, width)[r][1].text == grid[r],
        armin_lines(grid, width).last()[1].text == "ARMIN SAYS HI"@,
        armin_lines(grid, width)[r][0].text.len() + grid[r].len() + armin_lines(
            grid,
            width,
        )[r][2].text.len() == width,
{
    reveal_strlit(" ");
    let row = grid[r];
    assert(row.take(row.len() as int) =~= row);
}

/// A child of an entry with several is drawn one level deeper, behind a connector; the line beside it goes
/// on past its parent unless that is the last of its siblings.
pub proof fn branches_are_drawn_one_level_deeper(
    visual: VisualView,
    just_branched: bool,
    multiple_roots: bool,
    i: int,
    count: int,
)
    requires
        0 <= i < count,
    ensures
        ({
            let child = child_visual(visual, just_branched, multiple_roots, i, count);
            &&& count > 1 ==> child.indent == visual.indent + 1 && child.show_connector
            &&& count == 1 ==> !child.show_connector
            &&& count == 1 && !just_branched ==> child.indent == visual.indent
            &&& child.is_last == (i + 1 == count)
            &&& visual.show_connector && !visual.is_virtual_root_child ==> child.gutters.len()
                == visual.gutters.len() + 1 && child.gutters.last().show == !visual.is_last
            &&& !visual.show_connector ==> child.gutters == visual.gutters
        }),
{
}

/// A pair of themes names the one for light terminals first and the one for dark terminals behind the
/// slash.
pub proof fn pairs_name_the_light_theme_first(
    light: Seq<char>,
    dark: Seq<char>,
    terminal: crate::settings_selector::TerminalTheme,
    themes: Seq<Seq<char>>,
)
    requires
        light.len() > 0,
        dark.len() > 0,
        !light.contains('/'),
        !dark.contains('/'),
        themes.contains(light),
        themes.contains(dark),
    ensures
        ({
            let menu = crate::theme_submenu::opened(light + seq!['/'] + dark, terminal, themes);
            &&& menu.light_theme == light
            &&& menu.dark_theme == dark
            &&& terminal == crate::settings_selector::TerminalTheme::Light ==> menu.single_theme
                == light
            &&& terminal == crate::settings_selector::TerminalTheme::Dark ==> menu.single_theme
                == dark
        }),
{
    let setting = light + seq!['/'] + dark;
    lemma_index_of_char_bounds(setting, '/');
    let k = index_of_char(setting, '/') as int;
    assert(setting[light.len() as int] == '/');
    if k < light.len() {
        assert(setting[k] == light[k]);
        assert(light.contains('/'));
    }
    assert(k == light.len());
    assert(setting.take(k) =~= light);
    assert(setting.skip(k + 1) =~= dark);
    assert(automatic_pair(setting) == Some((light, dark)));
}

/// A theme that is wanted is taken where it is there, then the one to fall back on, then the first.
pub proof fn wanted_themes_are_taken_if_there(
    themes: Seq<Seq<char>>,
    wanted: Seq<char>,
    fallback: Seq<char>,
)
    ensures
        themes.contains(wanted) ==> preferred(themes, Some(wanted), fallback) == wanted,
        !themes.contains(wanted) && themes.contains(fallback) ==> preferred(
            themes,
            Some(wanted),
            fallback,
        ) == fallback,
        themes.len() > 0 ==> themes.contains(preferred(themes, Some(wanted), fallback)),
        themes.contains(fallback) ==> preferred(themes, None, fallback) == fallback,
{
    if themes.len() > 0 {
        assert(themes.contains(themes[0]));
    }
}

} // verus!
