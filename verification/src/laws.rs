//! Laws of the game: what making and retracting moves does to a grid, and
//! that the score does not depend on the order of play.

use vstd::prelude::*;
use crate::board::Cell;
use crate::grid::{
    can_apply, can_undo, distinct_cells, in_grid, mark_of, played, score_of, valid_grid,
    with_cell, Grid,
};
use crate::player::Player;

verus! {

/// Round trip: a move made on an empty cell can be retracted by the same
/// player, and retracting it restores the grid, cell for cell. The move
/// itself changes no other cell. On the empty cell, before the move, there
/// is nothing to retract for either player.
pub proof fn lemma_apply_then_undo(g: Grid, i: int, j: int, player: Player)
    requires
        valid_grid(g),
        can_apply(g, i, j),
    ensures
        valid_grid(with_cell(g, i, j, mark_of(player))),
        can_undo(with_cell(g, i, j, mark_of(player)), i, j, player),
        with_cell(with_cell(g, i, j, mark_of(player)), i, j, Cell::Empty) == g,
        forall|r: int, c: int|
            in_grid(g, r, c) && (r != i || c != j) ==> #[trigger] with_cell(
                g,
                i,
                j,
                mark_of(player),
            )[r][c] == g[r][c],
        !can_undo(g, i, j, Player::X),
        !can_undo(g, i, j, Player::O),
{
    let made = with_cell(g, i, j, mark_of(player));
    let back = with_cell(made, i, j, Cell::Empty);
    assert(back[i] == g[i]);
    assert(back == g);
}

/// The grid after a series of moves onto different cells: it stays valid,
/// each cell that was played on holds the mark of the player who moved
/// there, and every other cell is as it was.
pub proof fn lemma_played_cells(g: Grid, ms: Seq<((usize, usize), Player)>)
    requires
        valid_grid(g),
        distinct_cells(g, ms),
    ensures
        valid_grid(played(g, ms)),
        played(g, ms).len() == g.len(),
        forall|k: int|
            0 <= k < ms.len() ==> played(g, ms)[(#[trigger] ms[k]).0.0 as int][ms[k].0.1 as int]
                == mark_of(ms[k].1),
        forall|r: int, c: int|
            in_grid(g, r, c) && (forall|k: int|
                0 <= k < ms.len() ==> (#[trigger] ms[k]).0 != (r as usize, c as usize))
                ==> #[trigger] played(g, ms)[r][c] == g[r][c],
    decreases ms.len(),
{
    if ms.len() > 0 {
        let head = ms.drop_last();
        let (m, player) = ms.last();
        assert(distinct_cells(g, head)) by {
            assert forall|k: int| 0 <= k < head.len() implies in_grid(
                g,
                (#[trigger] head[k]).0.0 as int,
                head[k].0.1 as int,
            ) by {
                assert(head[k] == ms[k]);
            }
            assert forall|k: int, l: int|
                0 <= k < head.len() && 0 <= l < head.len() && k != l implies (#[trigger] head[k]).0
                != (#[trigger] head[l]).0 by {
                assert(head[k] == ms[k] && head[l] == ms[l]);
            }
        }
        lemma_played_cells(g, head);
        let before = played(g, head);
        let after = played(g, ms);
        assert(ms[ms.len() - 1] == (m, player));
        assert(in_grid(g, m.0 as int, m.1 as int));
        assert(after == with_cell(before, m.0 as int, m.1 as int, mark_of(player)));
        assert forall|k: int| 0 <= k < ms.len() implies after[(#[trigger] ms[k]).0.0 as int][ms[k].0.1 as int]
            == mark_of(ms[k].1) by {
            if k < ms.len() - 1 {
                assert(head[k] == ms[k]);
                assert(ms[k].0 != ms[ms.len() - 1].0);
            }
        }
        assert forall|r: int, c: int|
            in_grid(g, r, c) && (forall|k: int|
                0 <= k < ms.len() ==> (#[trigger] ms[k]).0 != (
                    r as usize,
                    c as usize,
                )) implies #[trigger] after[r][c] == g[r][c] by {
            assert(ms[ms.len() - 1].0 != (r as usize, c as usize));
            assert forall|k: int| 0 <= k < head.len() implies (#[trigger] head[k]).0 != (
                r as usize,
                c as usize,
            ) by {
                assert(head[k] == ms[k]);
            }
            assert(before[r][c] == g[r][c]);
        }
    }
}

/// A rearrangement of moves that name different cells of the grid names
/// different cells of the grid too.
pub proof fn lemma_rearranged_distinct(
    g: Grid,
    a: Seq<((usize, usize), Player)>,
    b: Seq<((usize, usize), Player)>,
)
    requires
        distinct_cells(g, a),
        a.to_multiset() == b.to_multiset(),
    ensures
        distinct_cells(g, b),
        forall|l: int| 0 <= l < b.len() ==> a.contains(#[trigger] b[l]),
        forall|k: int| 0 <= k < a.len() ==> b.contains(#[trigger] a[k]),
{
    a.to_multiset_ensures();
    b.to_multiset_ensures();
    assert forall|l: int| 0 <= l < b.len() implies a.contains(#[trigger] b[l]) by {
        assert(b.contains(b[l]));
        assert(b.to_multiset().count(b[l]) > 0);
        assert(a.to_multiset().count(b[l]) > 0);
    }
    assert forall|k: int| 0 <= k < a.len() implies b.contains(#[trigger] a[k]) by {
        assert(a.contains(a[k]));
        assert(a.to_multiset().count(a[k]) > 0);
        assert(b.to_multiset().count(a[k]) > 0);
    }
    assert(a.no_duplicates());
    a.lemma_multiset_has_no_duplicates();
    b.lemma_multiset_has_no_duplicates_conv();
    assert forall|k: int| 0 <= k < b.len() implies in_grid(
        g,
        (#[trigger] b[k]).0.0 as int,
        b[k].0.1 as int,
    ) by {
        assert(a.contains(b[k]));
    }
    assert forall|k: int, l: int| 0 <= k < b.len() && 0 <= l < b.len() && k != l implies (
    #[trigger] b[k]).0 != (#[trigger] b[l]).0 by {
        assert(a.contains(b[k]) && a.contains(b[l]));
        let ka = choose|ka: int| 0 <= ka < a.len() && a[ka] == b[k];
        let la = choose|la: int| 0 <= la < a.len() && a[la] == b[l];
        if b[k].0 == b[l].0 {
            assert(ka == la);
            assert(b[k] == b[l]);
        }
    }
}

/// The order of play does not matter: moves onto different cells lead to the
/// same grid, and so to the same score, in whatever order they are made.
pub proof fn lemma_order_of_play(
    g: Grid,
    a: Seq<((usize, usize), Player)>,
    b: Seq<((usize, usize), Player)>,
)
    requires
        valid_grid(g),
        distinct_cells(g, a),
        a.to_multiset() == b.to_multiset(),
    ensures
        played(g, a) == played(g, b),
        score_of(played(g, a)) == score_of(played(g, b)),
{
    lemma_rearranged_distinct(g, a, b);
    lemma_played_cells(g, a);
    lemma_played_cells(g, b);
    let ga = played(g, a);
    let gb = played(g, b);
    assert forall|r: int, c: int| in_grid(g, r, c) implies ga[r][c] == gb[r][c] by {
        let cell = (r as usize, c as usize);
        if exists|k: int| 0 <= k < a.len() && (#[trigger] a[k]).0 == cell {
            let k = choose|k: int| 0 <= k < a.len() && (#[trigger] a[k]).0 == cell;
            assert(b.contains(a[k]));
            let l = choose|l: int| 0 <= l < b.len() && b[l] == a[k];
            assert(ga[a[k].0.0 as int][a[k].0.1 as int] == mark_of(a[k].1));
            assert(gb[b[l].0.0 as int][b[l].0.1 as int] == mark_of(b[l].1));
        } else {
            assert forall|l: int| 0 <= l < b.len() implies (#[trigger] b[l]).0 != cell by {
                assert(a.contains(b[l]));
                let k = choose|k: int| 0 <= k < a.len() && a[k] == b[l];
                assert(a[k].0 != cell);
            }
            assert(ga[r][c] == g[r][c]);
            assert(gb[r][c] == g[r][c]);
        }
    }
    assert forall|r: int| 0 <= r < ga.len() implies ga[r] == gb[r] by {
        assert forall|c: int| 0 <= c < ga[r].len() implies ga[r][c] == gb[r][c] by {
            assert(in_grid(g, r, c));
        }
        assert(ga[r].len() == gb[r].len());
        assert(ga[r] =~= gb[r]);
    }
    assert(ga =~= gb);
}

/// The score is a function of the cells alone: two games that end in the
/// same grid end with the same score, whatever the order of their moves.
pub proof fn lemma_score_of_final_grid(
    g: Grid,
    a: Seq<((usize, usize), Player)>,
    b: Seq<((usize, usize), Player)>,
)
    requires
        played(g, a) == played(g, b),
    ensures
        score_of(played(g, a)) == score_of(played(g, b)),
{
}

} // verus!
