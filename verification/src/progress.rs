//! Progress renderer: a textual bar of worked minutes against the goal.
//!
//! Pure computation, no I/O.  The filled share of the bar is
//! `worked * width / goal` rounded to the nearest cell (half up) and
//! clamped into the bar, so neither an empty day nor overshooting the
//! goal can fault the rendering.

use vstd::prelude::*;
use vstd::arithmetic::div_mod::{lemma_div_is_ordered, lemma_div_multiples_vanish_fancy};
use crate::errors::ConfigError;

verus! {

/// The bar: a bracket, `completed - 1` fill characters (none when
/// nothing is completed), one cursor character, `total - completed`
/// track characters, and a closing bracket.
pub open spec fn bar_chars(completed: int, total: int) -> Seq<char>
    recommends
        0 <= completed <= total,
{
    seq!['['] + Seq::new(
        (if completed == 0 {
            0
        } else {
            completed - 1
        }) as nat,
        |i: int| '=',
    ) + seq!['>'] + Seq::new((total - completed) as nat, |i: int| '-') + seq![']']
}

/// Filled cells of a bar of `width` cells after `worked` of `goal`
/// minutes: scaled, rounded to the nearest cell (half up), and clamped
/// into the bar.
pub open spec fn completed_cells(worked: int, goal: int, width: int) -> int
    recommends
        goal > 0,
        width >= 0,
{
    let rounded = (2 * worked * width + goal) / (2 * goal);
    if rounded < 0 {
        0
    } else if rounded > width {
        width
    } else {
        rounded
    }
}

/// Draws the bar for `completed` filled cells out of `total`.
pub fn create_progress_bar(completed: usize, total: usize) -> (bar: String)
    requires
        completed <= total,
    ensures
        bar@ == bar_chars(completed as int, total as int),
{
    let fill: usize = if completed == 0 {
        0
    } else {
        completed - 1
    };
    let track: usize = total - completed;
    let mut bar = String::new();
    bar.append("[");
    let mut i: usize = 0;
    while i < fill
        invariant
            i <= fill,
            bar@ == "["@ + Seq::new(i as nat, |k: int| '='),
        decreases fill - i,
    {
        bar.append("=");
        proof {
            reveal_strlit("=");
            assert(bar@ =~= "["@ + Seq::new((i + 1) as nat, |k: int| '='));
        }
        i = i + 1;
    }
    bar.append(">");
    let mut j: usize = 0;
    while j < track
        invariant
            j <= track,
            bar@ == "["@ + Seq::new(fill as nat, |k: int| '=') + ">"@ + Seq::new(
                j as nat,
                |k: int| '-',
            ),
        decreases track - j,
    {
        bar.append("-");
        proof {
            reveal_strlit("-");
            assert(bar@ =~= "["@ + Seq::new(fill as nat, |k: int| '=') + ">"@ + Seq::new(
                (j + 1) as nat,
                |k: int| '-',
            ));
        }
        j = j + 1;
    }
    bar.append("]");
    proof {
        reveal_strlit("[");
        reveal_strlit(">");
        reveal_strlit("]");
        assert(bar@ =~= bar_chars(completed as int, total as int));
    }
    bar
}

/// Renders the bar for `worked_minutes` of `goal_minutes` on a bar of
/// `bar_width` cells.  A goal of zero or fewer minutes is a
/// configuration error, rejected before any rendering.
pub fn render(worked_minutes: i64, goal_minutes: i64, bar_width: usize) -> (r: Result<
    String,
    ConfigError,
>)
    ensures
        goal_minutes <= 0 ==> r == Result::<String, ConfigError>::Err(ConfigError::NonPositiveGoal),
        goal_minutes > 0 ==> (r matches Ok(bar) && bar@ == bar_chars(
            completed_cells(worked_minutes as int, goal_minutes as int, bar_width as int),
            bar_width as int,
        )),
{
    if goal_minutes <= 0 {
        return Err(ConfigError::NonPositiveGoal);
    }
    let ghost w = worked_minutes as int;
    let ghost g = goal_minutes as int;
    let ghost width = bar_width as int;
    let completed: usize;
    if worked_minutes <= 0 {
        completed = 0;
        proof {
            lemma_completed_cells_empty(w, g, width);
        }
    } else if worked_minutes >= goal_minutes {
        completed = bar_width;
        proof {
            lemma_completed_cells_full(w, g, width);
        }
    } else {
        proof {
            assert((worked_minutes as u128) * (bar_width as u128) <= (i64::MAX as u128) * (
            u64::MAX as u128)) by (nonlinear_arith)
                requires
                    0 <= worked_minutes as u128 <= i64::MAX as u128,
                    bar_width as u128 <= u64::MAX as u128,
            ;
        }
        let prod: u128 = (worked_minutes as u128) * (bar_width as u128);
        let num: u128 = 2 * prod + (goal_minutes as u128);
        let den: u128 = 2 * (goal_minutes as u128);
        let q = num / den;
        proof {
            assert(2 * w * width == 2 * (w * width)) by (nonlinear_arith);
            lemma_completed_cells_partial(w, g, width);
            assert(q == (2 * w * width + g) / (2 * g));
        }
        completed = q as usize;
    }
    Ok(create_progress_bar(completed, bar_width))
}

/// With no work done, the rounded share clamps to zero cells.
proof fn lemma_completed_cells_empty(w: int, g: int, width: int)
    requires
        w <= 0,
        g > 0,
        width >= 0,
    ensures
        completed_cells(w, g, width) == 0,
{
    assert(2 * w * width <= 0) by (nonlinear_arith)
        requires
            w <= 0,
            width >= 0,
    ;
    lemma_div_is_ordered(2 * w * width + g, g, 2 * g);
    assert(g / (2 * g) == 0) by {
        lemma_div_multiples_vanish_fancy(0, g, 2 * g);
    }
}

/// At or past the goal, the rounded share clamps to the whole bar.
proof fn lemma_completed_cells_full(w: int, g: int, width: int)
    requires
        w >= g,
        g > 0,
        width >= 0,
    ensures
        completed_cells(w, g, width) == width,
{
    assert(2 * g * width + g <= 2 * w * width + g) by (nonlinear_arith)
        requires
            w >= g,
            width >= 0,
    ;
    assert((2 * g * width + g) / (2 * g) == width) by {
        assert(2 * g * width + g == (2 * g) * width + g) by (nonlinear_arith);
        lemma_div_multiples_vanish_fancy(width, g, 2 * g);
    }
    lemma_div_is_ordered(2 * g * width + g, 2 * w * width + g, 2 * g);
}

/// Strictly between zero and the goal, the rounded share needs no
/// clamping.
proof fn lemma_completed_cells_partial(w: int, g: int, width: int)
    requires
        0 < w < g,
        width >= 0,
    ensures
        0 <= completed_cells(w, g, width) <= width,
        completed_cells(w, g, width) == (2 * w * width + g) / (2 * g),
{
    assert(0 <= 2 * w * width) by (nonlinear_arith)
        requires
            w > 0,
            width >= 0,
    ;
    vstd::arithmetic::div_mod::lemma_div_pos_is_pos(2 * w * width + g, 2 * g);
    assert(2 * w * width + g <= 2 * g * width + g) by (nonlinear_arith)
        requires
            w <= g,
            width >= 0,
    ;
    assert((2 * g * width + g) / (2 * g) == width) by {
        assert(2 * g * width + g == (2 * g) * width + g) by (nonlinear_arith);
        lemma_div_multiples_vanish_fancy(width, g, 2 * g);
    }
    lemma_div_is_ordered(2 * w * width + g, 2 * g * width + g, 2 * g);
}

} // verus!
