//! The occupancy grid of one frame and the collisions read off it.
//!
//! Every missile stamps its cell with its tag, a later missile over an
//! earlier one. Every invader then stamps its cell: with its tag where the
//! cell is still empty, and with an explosion where it is not. A missile or
//! an invader survives the frame exactly when its cell still holds its own
//! tag. What this comes to is stated here by who stands on a cell.

use vstd::prelude::*;
use crate::entities::{Invader, Missile};
use crate::grid::Grid;
use crate::utils::{Coord, Tile};

verus! {

/// Whether some missile is on cell `c`.
pub open spec fn missile_on(missiles: Seq<Missile>, c: Coord) -> bool {
    exists|i: int| 0 <= i < missiles.len() && (#[trigger] missiles[i]).position == c
}

/// Whether some invader is on cell `c`.
pub open spec fn invader_on(invaders: Seq<Invader>, c: Coord) -> bool {
    exists|i: int| 0 <= i < invaders.len() && (#[trigger] invaders[i]).position == c
}

/// Whether two different invaders are on cell `c`.
pub open spec fn two_invaders_on(invaders: Seq<Invader>, c: Coord) -> bool {
    exists|i: int, j: int|
        0 <= i < j < invaders.len() && (#[trigger] invaders[i]).position == c && (
        #[trigger] invaders[j]).position == c
}

/// Whether missile `i` is on cell `c` and no later missile is.
pub open spec fn last_missile_on(missiles: Seq<Missile>, i: int, c: Coord) -> bool {
    &&& 0 <= i < missiles.len()
    &&& missiles[i].position == c
    &&& forall|j: int| i < j < missiles.len() ==> (#[trigger] missiles[j]).position != c
}

/// Whether invader `i` is on cell `c` and no other invader is.
pub open spec fn only_invader_on(invaders: Seq<Invader>, i: int, c: Coord) -> bool {
    &&& 0 <= i < invaders.len()
    &&& invaders[i].position == c
    &&& forall|j: int| 0 <= j < invaders.len() && j != i ==> (#[trigger] invaders[j]).position != c
}

/// What the missiles and the invaders leave on cell `c`.
///
/// An invader that shares the cell with a missile or with another invader
/// leaves an explosion. An invader alone leaves its tag. Without an invader,
/// the last of the missiles on the cell leaves its tag. A cell with nobody on
/// it is empty.
pub open spec fn stamp(missiles: Seq<Missile>, invaders: Seq<Invader>, c: Coord) -> Tile {
    if invader_on(invaders, c) {
        if missile_on(missiles, c) || two_invaders_on(invaders, c) {
            Tile::Explosion
        } else {
            Tile::Invader((choose|i: int| only_invader_on(invaders, i, c)) as usize)
        }
    } else if missile_on(missiles, c) {
        Tile::Missile((choose|i: int| last_missile_on(missiles, i, c)) as usize)
    } else {
        Tile::Empty
    }
}

/// What the frame's grid shows on cell `c`: the player on the player's
/// cell, whoever else is there, and the stamp everywhere else.
pub open spec fn occupancy(
    missiles: Seq<Missile>,
    invaders: Seq<Invader>,
    player: Coord,
    c: Coord,
) -> Tile {
    if c == player {
        Tile::Player
    } else {
        stamp(missiles, invaders, c)
    }
}

/// Whether missile `i` survives the frame: no invader and no later missile
/// is on its cell.
pub open spec fn missile_survives(missiles: Seq<Missile>, invaders: Seq<Invader>, i: int) -> bool {
    last_missile_on(missiles, i, missiles[i].position) && !invader_on(
        invaders,
        missiles[i].position,
    )
}

/// Whether invader `i` survives the frame: no missile and no other invader
/// is on its cell.
pub open spec fn invader_survives(missiles: Seq<Missile>, invaders: Seq<Invader>, i: int) -> bool {
    only_invader_on(invaders, i, invaders[i].position) && !missile_on(
        missiles,
        invaders[i].position,
    )
}

/// The survivors among the first `n` missiles, in their order.
pub open spec fn surviving_missiles(
    missiles: Seq<Missile>,
    invaders: Seq<Invader>,
    n: int,
) -> Seq<Missile>
    decreases n,
{
    if n <= 0 {
        Seq::empty()
    } else {
        let before = surviving_missiles(missiles, invaders, n - 1);
        if missile_survives(missiles, invaders, n - 1) {
            before.push(missiles[n - 1])
        } else {
            before
        }
    }
}

/// The survivors among the first `n` invaders, in their order.
pub open spec fn surviving_invaders(
    missiles: Seq<Missile>,
    invaders: Seq<Invader>,
    n: int,
) -> Seq<Invader>
    decreases n,
{
    if n <= 0 {
        Seq::empty()
    } else {
        let before = surviving_invaders(missiles, invaders, n - 1);
        if invader_survives(missiles, invaders, n - 1) {
            before.push(invaders[n - 1])
        } else {
            before
        }
    }
}

/// Whether no two of the missiles and invaders are on one cell.
pub open spec fn apart(missiles: Seq<Missile>, invaders: Seq<Invader>) -> bool {
    &&& forall|a: int, b: int|
        0 <= a < b < missiles.len() ==> (#[trigger] missiles[a]).position != (
        #[trigger] missiles[b]).position
    &&& forall|a: int, b: int|
        0 <= a < b < invaders.len() ==> (#[trigger] invaders[a]).position != (
        #[trigger] invaders[b]).position
    &&& forall|a: int, b: int|
        0 <= a < missiles.len() && 0 <= b < invaders.len() ==> (#[trigger] missiles[a]).position
            != (#[trigger] invaders[b]).position
}

/// The cell `c` after the missiles have stamped it one by one.
spec fn missiles_stamped(missiles: Seq<Missile>, c: Coord) -> Tile
    decreases missiles.len(),
{
    if missiles.len() == 0 {
        Tile::Empty
    } else if missiles.last().position == c {
        Tile::Missile((missiles.len() - 1) as usize)
    } else {
        missiles_stamped(missiles.drop_last(), c)
    }
}

/// The cell `c` after the missiles and then the invaders have stamped it one
/// by one.
spec fn all_stamped(missiles: Seq<Missile>, invaders: Seq<Invader>, c: Coord) -> Tile
    decreases invaders.len(),
{
    if invaders.len() == 0 {
        missiles_stamped(missiles, c)
    } else {
        let below = all_stamped(missiles, invaders.drop_last(), c);
        if invaders.last().position != c {
            below
        } else if below == Tile::Empty {
            Tile::Invader((invaders.len() - 1) as usize)
        } else {
            Tile::Explosion
        }
    }
}

/// Stamped by the missiles one by one, a cell is empty when no missile is
/// on it and otherwise holds the tag of the last one that is.
proof fn lemma_missiles_stamped(missiles: Seq<Missile>, c: Coord)
    requires
        missiles.len() <= usize::MAX,
    ensures
        match missiles_stamped(missiles, c) {
            Tile::Empty => !missile_on(missiles, c),
            Tile::Missile(i) => last_missile_on(missiles, i as int, c),
            _ => false,
        },
    decreases missiles.len(),
{
    if missiles.len() > 0 {
        let front = missiles.drop_last();
        let last = missiles.len() - 1;
        lemma_missiles_stamped(front, c);
        if missiles.last().position != c {
            match missiles_stamped(front, c) {
                Tile::Empty => {
                    if missile_on(missiles, c) {
                        let i = choose|i: int|
                            0 <= i < missiles.len() && (#[trigger] missiles[i]).position == c;
                        assert(front[i].position == c);
                    }
                },
                Tile::Missile(i) => {
                    assert(missiles[i as int] == front[i as int]);
                    assert forall|j: int| i < j < missiles.len() implies (
                    #[trigger] missiles[j]).position != c by {
                        if j < last {
                            assert(front[j].position != c);
                        }
                    }
                },
                _ => {},
            }
        }
    }
}

/// Stamped by the missiles and then the invaders one by one, a cell says of
/// the entities on it what `lemma_stamp` says of `stamp`.
proof fn lemma_all_stamped(missiles: Seq<Missile>, invaders: Seq<Invader>, c: Coord)
    requires
        missiles.len() <= usize::MAX,
        invaders.len() <= usize::MAX,
    ensures
        match all_stamped(missiles, invaders, c) {
            Tile::Empty => !missile_on(missiles, c) && !invader_on(invaders, c),
            Tile::Missile(i) => last_missile_on(missiles, i as int, c) && !invader_on(invaders, c),
            Tile::Invader(i) => only_invader_on(invaders, i as int, c) && !missile_on(missiles, c),
            Tile::Explosion => invader_on(invaders, c) && (missile_on(missiles, c)
                || two_invaders_on(invaders, c)),
            Tile::Player => false,
        },
    decreases invaders.len(),
{
    lemma_missiles_stamped(missiles, c);
    if invaders.len() > 0 {
        let front = invaders.drop_last();
        let last = invaders.len() - 1;
        let below = all_stamped(missiles, front, c);
        lemma_all_stamped(missiles, front, c);
        assert(invaders[last] == invaders.last());
        if invader_on(front, c) {
            let i = choose|i: int| 0 <= i < front.len() && (#[trigger] front[i]).position == c;
            assert(invaders[i].position == c);
        }
        if two_invaders_on(front, c) {
            let (i, j) = choose|i: int, j: int|
                0 <= i < j < front.len() && (#[trigger] front[i]).position == c && (
                #[trigger] front[j]).position == c;
            assert(invaders[i].position == c && invaders[j].position == c);
        }
        if invaders.last().position != c {
            if invader_on(invaders, c) {
                let i = choose|i: int|
                    0 <= i < invaders.len() && (#[trigger] invaders[i]).position == c;
                assert(front[i].position == c);
            }
            if let Tile::Invader(i) = below {
                assert(invaders[i as int] == front[i as int]);
                assert forall|j: int| 0 <= j < invaders.len() && j != i implies (
                #[trigger] invaders[j]).position != c by {
                    if j < last {
                        assert(front[j].position != c);
                    }
                }
            }
        } else {
            match below {
                Tile::Empty => {
                    assert forall|j: int| 0 <= j < invaders.len() && j != last implies (
                    #[trigger] invaders[j]).position != c by {
                        assert(front[j].position == invaders[j].position);
                    }
                },
                Tile::Invader(i) => {
                    assert(invaders[i as int] == front[i as int]);
                    assert(invaders[i as int].position == c && invaders[last].position == c);
                },
                _ => {},
            }
        }
    }
}

/// The last missile on a cell is one missile, and so is the only invader.
proof fn lemma_one_owner(missiles: Seq<Missile>, invaders: Seq<Invader>, c: Coord, i: int, k: int)
    ensures
        last_missile_on(missiles, i, c) && last_missile_on(missiles, k, c) ==> i == k,
        only_invader_on(invaders, i, c) && only_invader_on(invaders, k, c) ==> i == k,
        only_invader_on(invaders, i, c) ==> invader_on(invaders, c) && !two_invaders_on(
            invaders,
            c,
        ),
        last_missile_on(missiles, i, c) ==> missile_on(missiles, c),
{
    if last_missile_on(missiles, i, c) && last_missile_on(missiles, k, c) && i != k {
        assert(missiles[i].position == c && missiles[k].position == c);
    }
    if only_invader_on(invaders, i, c) {
        assert(invaders[i].position == c);
        if only_invader_on(invaders, k, c) && i != k {
            assert(invaders[k].position == c);
        }
        if two_invaders_on(invaders, c) {
            let (a, b) = choose|a: int, b: int|
                0 <= a < b < invaders.len() && (#[trigger] invaders[a]).position == c && (
                #[trigger] invaders[b]).position == c;
            assert(a != i || b != i);
        }
    }
    if last_missile_on(missiles, i, c) {
        assert(missiles[i].position == c);
    }
}

/// Stamping one by one leaves on each cell what `stamp` says.
proof fn lemma_stamped_is_stamp(missiles: Seq<Missile>, invaders: Seq<Invader>, c: Coord)
    requires
        missiles.len() <= usize::MAX,
        invaders.len() <= usize::MAX,
    ensures
        all_stamped(missiles, invaders, c) == stamp(missiles, invaders, c),
{
    lemma_all_stamped(missiles, invaders, c);
    match all_stamped(missiles, invaders, c) {
        Tile::Missile(i) => {
            let k = choose|k: int| last_missile_on(missiles, k, c);
            lemma_one_owner(missiles, invaders, c, i as int, k);
        },
        Tile::Invader(i) => {
            let k = choose|k: int| only_invader_on(invaders, k, c);
            lemma_one_owner(missiles, invaders, c, i as int, k);
        },
        _ => {},
    }
}

/// What a stamped cell says of the entities on it.
///
/// An empty cell has no missile and no invader on it. A cell with a missile's
/// tag has that missile on it, no later missile and no invader. A cell with
/// an invader's tag has that invader on it, no other invader and no missile.
/// An explosion has an invader on it, together with a missile or a second
/// invader. No stamp is the player's.
pub proof fn lemma_stamp(missiles: Seq<Missile>, invaders: Seq<Invader>, c: Coord)
    requires
        missiles.len() <= usize::MAX,
        invaders.len() <= usize::MAX,
    ensures
        match stamp(missiles, invaders, c) {
            Tile::Empty => !missile_on(missiles, c) && !invader_on(invaders, c),
            Tile::Missile(i) => last_missile_on(missiles, i as int, c) && !invader_on(invaders, c),
            Tile::Invader(i) => only_invader_on(invaders, i as int, c) && !missile_on(missiles, c),
            Tile::Explosion => invader_on(invaders, c) && (missile_on(missiles, c)
                || two_invaders_on(invaders, c)),
            Tile::Player => false,
        },
{
    lemma_all_stamped(missiles, invaders, c);
    lemma_stamped_is_stamp(missiles, invaders, c);
}

/// A missile survives exactly when its cell holds its own tag, and so does
/// an invader.
pub proof fn lemma_survivor_holds_own_tag(missiles: Seq<Missile>, invaders: Seq<Invader>, i: int)
    requires
        missiles.len() <= usize::MAX,
        invaders.len() <= usize::MAX,
    ensures
        0 <= i < missiles.len() ==> (missile_survives(missiles, invaders, i) <==> stamp(
            missiles,
            invaders,
            missiles[i].position,
        ) == Tile::Missile(i as usize)),
        0 <= i < invaders.len() ==> (invader_survives(missiles, invaders, i) <==> stamp(
            missiles,
            invaders,
            invaders[i].position,
        ) == Tile::Invader(i as usize)),
{
    if 0 <= i < missiles.len() {
        let c = missiles[i].position;
        lemma_stamp(missiles, invaders, c);
        if missile_survives(missiles, invaders, i) {
            let k = choose|k: int| last_missile_on(missiles, k, c);
            lemma_one_owner(missiles, invaders, c, i, k);
        }
    }
    if 0 <= i < invaders.len() {
        let c = invaders[i].position;
        lemma_stamp(missiles, invaders, c);
        if invader_survives(missiles, invaders, i) {
            let k = choose|k: int| only_invader_on(invaders, k, c);
            lemma_one_owner(missiles, invaders, c, i, k);
        }
    }
}

/// Each of the survivors among the first `n` missiles is one of those
/// missiles. Handed the place `k` of a survivor, this gives back the place
/// `i` it had before the pass: missile `i` survives, and exactly `k`
/// missiles before it survive too.
proof fn lemma_surviving_missile(
    missiles: Seq<Missile>,
    invaders: Seq<Invader>,
    n: int,
    k: int,
) -> (i: int)
    requires
        0 <= n <= missiles.len(),
        0 <= k < surviving_missiles(missiles, invaders, n).len(),
    ensures
        0 <= i < n,
        missile_survives(missiles, invaders, i),
        surviving_missiles(missiles, invaders, n)[k] == missiles[i],
        surviving_missiles(missiles, invaders, i).len() == k,
    decreases n,
{
    let before = surviving_missiles(missiles, invaders, n - 1);
    if missile_survives(missiles, invaders, n - 1) && k == before.len() {
        n - 1
    } else {
        lemma_surviving_missile(missiles, invaders, n - 1, k)
    }
}

/// Each of the survivors among the first `n` invaders is one of those
/// invaders. Handed the place `k` of a survivor, this gives back the place
/// `i` it had before the pass: invader `i` survives, and exactly `k`
/// invaders before it survive too.
proof fn lemma_surviving_invader(
    missiles: Seq<Missile>,
    invaders: Seq<Invader>,
    n: int,
    k: int,
) -> (i: int)
    requires
        0 <= n <= invaders.len(),
        0 <= k < surviving_invaders(missiles, invaders, n).len(),
    ensures
        0 <= i < n,
        invader_survives(missiles, invaders, i),
        surviving_invaders(missiles, invaders, n)[k] == invaders[i],
        surviving_invaders(missiles, invaders, i).len() == k,
    decreases n,
{
    let before = surviving_invaders(missiles, invaders, n - 1);
    if invader_survives(missiles, invaders, n - 1) && k == before.len() {
        n - 1
    } else {
        lemma_surviving_invader(missiles, invaders, n - 1, k)
    }
}

/// The pass adds nothing: there are no more survivors than there were
/// entities, and every survivor is one of them.
pub proof fn lemma_survivors_stay(missiles: Seq<Missile>, invaders: Seq<Invader>)
    ensures
        surviving_missiles(missiles, invaders, missiles.len() as int).len() <= missiles.len(),
        surviving_invaders(missiles, invaders, invaders.len() as int).len() <= invaders.len(),
        forall|k: int|
            0 <= k < surviving_missiles(missiles, invaders, missiles.len() as int).len()
                ==> missiles.contains(
                #[trigger] surviving_missiles(missiles, invaders, missiles.len() as int)[k],
            ),
        forall|k: int|
            0 <= k < surviving_invaders(missiles, invaders, invaders.len() as int).len()
                ==> invaders.contains(
                #[trigger] surviving_invaders(missiles, invaders, invaders.len() as int)[k],
            ),
{
    let kept_missiles = surviving_missiles(missiles, invaders, missiles.len() as int);
    let kept_invaders = surviving_invaders(missiles, invaders, invaders.len() as int);
    lemma_survivor_count(missiles, invaders, missiles.len() as int, invaders.len() as int);
    assert forall|k: int| 0 <= k < kept_missiles.len() implies missiles.contains(
        #[trigger] kept_missiles[k],
    ) by {
        let i = lemma_surviving_missile(missiles, invaders, missiles.len() as int, k);
        assert(missiles[i] == kept_missiles[k]);
    }
    assert forall|k: int| 0 <= k < kept_invaders.len() implies invaders.contains(
        #[trigger] kept_invaders[k],
    ) by {
        let i = lemma_surviving_invader(missiles, invaders, invaders.len() as int, k);
        assert(invaders[i] == kept_invaders[k]);
    }
}

/// Among the first `m` missiles and the first `n` invaders, no more survive
/// than there are.
proof fn lemma_survivor_count(missiles: Seq<Missile>, invaders: Seq<Invader>, m: int, n: int)
    requires
        0 <= m,
        0 <= n,
    ensures
        surviving_missiles(missiles, invaders, m).len() <= m,
        surviving_invaders(missiles, invaders, n).len() <= n,
    decreases m + n,
{
    if m > 0 {
        lemma_survivor_count(missiles, invaders, m - 1, n);
    } else if n > 0 {
        lemma_survivor_count(missiles, invaders, m, n - 1);
    }
}

/// After the collision pass every cell has at most one owner: no two of the
/// surviving missiles and invaders are on one cell.
pub proof fn lemma_survivors_apart(missiles: Seq<Missile>, invaders: Seq<Invader>)
    ensures
        apart(
            surviving_missiles(missiles, invaders, missiles.len() as int),
            surviving_invaders(missiles, invaders, invaders.len() as int),
        ),
{
    let m = missiles.len() as int;
    let n = invaders.len() as int;
    let kept_missiles = surviving_missiles(missiles, invaders, m);
    let kept_invaders = surviving_invaders(missiles, invaders, n);
    assert forall|a: int, b: int| 0 <= a < b < kept_missiles.len() implies (
    #[trigger] kept_missiles[a]).position != (#[trigger] kept_missiles[b]).position by {
        let i = lemma_surviving_missile(missiles, invaders, m, a);
        let j = lemma_surviving_missile(missiles, invaders, m, b);
        assert(i != j);
        if i < j {
            assert(missiles[j].position != missiles[i].position);
        } else {
            assert(missiles[i].position != missiles[j].position);
        }
    }
    assert forall|a: int, b: int| 0 <= a < b < kept_invaders.len() implies (
    #[trigger] kept_invaders[a]).position != (#[trigger] kept_invaders[b]).position by {
        let i = lemma_surviving_invader(missiles, invaders, n, a);
        let j = lemma_surviving_invader(missiles, invaders, n, b);
        assert(i != j);
        assert(invaders[j].position != invaders[i].position);
    }
    assert forall|a: int, b: int|
        0 <= a < kept_missiles.len() && 0 <= b < kept_invaders.len() implies (
    #[trigger] kept_missiles[a]).position != (#[trigger] kept_invaders[b]).position by {
        let i = lemma_surviving_missile(missiles, invaders, m, a);
        let j = lemma_surviving_invader(missiles, invaders, n, b);
        assert(invaders[j].position != missiles[i].position);
    }
}

/// Entities that are apart all survive a collision pass, which leaves no
/// explosion: a pass over what an earlier pass left changes nothing.
pub proof fn lemma_apart_all_survive(missiles: Seq<Missile>, invaders: Seq<Invader>)
    requires
        apart(missiles, invaders),
    ensures
        forall|c: Coord| #[trigger] stamp(missiles, invaders, c) != Tile::Explosion,
        surviving_missiles(missiles, invaders, missiles.len() as int) == missiles,
        surviving_invaders(missiles, invaders, invaders.len() as int) == invaders,
{
    assert forall|c: Coord| #[trigger] stamp(missiles, invaders, c) != Tile::Explosion by {
        if invader_on(invaders, c) {
            let j = choose|j: int|
                0 <= j < invaders.len() && (#[trigger] invaders[j]).position == c;
            if missile_on(missiles, c) {
                let i = choose|i: int|
                    0 <= i < missiles.len() && (#[trigger] missiles[i]).position == c;
                assert(missiles[i].position != invaders[j].position);
            }
            if two_invaders_on(invaders, c) {
                let (a, b) = choose|a: int, b: int|
                    0 <= a < b < invaders.len() && (#[trigger] invaders[a]).position == c && (
                    #[trigger] invaders[b]).position == c;
                assert(invaders[a].position != invaders[b].position);
            }
        }
    }
    assert forall|i: int| 0 <= i < missiles.len() implies missile_survives(
        missiles,
        invaders,
        i,
    ) by {
        let c = missiles[i].position;
        if invader_on(invaders, c) {
            let j = choose|j: int|
                0 <= j < invaders.len() && (#[trigger] invaders[j]).position == c;
            assert(missiles[i].position != invaders[j].position);
        }
        assert forall|j: int| i < j < missiles.len() implies (#[trigger] missiles[j]).position
            != c by {
            assert(missiles[i].position != missiles[j].position);
        }
    }
    assert forall|i: int| 0 <= i < invaders.len() implies invader_survives(
        missiles,
        invaders,
        i,
    ) by {
        let c = invaders[i].position;
        if missile_on(missiles, c) {
            let j = choose|j: int|
                0 <= j < missiles.len() && (#[trigger] missiles[j]).position == c;
            assert(missiles[j].position != invaders[i].position);
        }
        assert forall|j: int| 0 <= j < invaders.len() && j != i implies (
        #[trigger] invaders[j]).position != c by {
            if j < i {
                assert(invaders[j].position != invaders[i].position);
            } else {
                assert(invaders[i].position != invaders[j].position);
            }
        }
    }
    lemma_all_survive(missiles, invaders, missiles.len() as int, invaders.len() as int);
    assert(missiles.take(missiles.len() as int) =~= missiles);
    assert(invaders.take(invaders.len() as int) =~= invaders);
}

/// Where each of the first `m` missiles and the first `n` invaders
/// survives, the survivors among them are all of them.
proof fn lemma_all_survive(missiles: Seq<Missile>, invaders: Seq<Invader>, m: int, n: int)
    requires
        0 <= m <= missiles.len(),
        0 <= n <= invaders.len(),
        forall|i: int| 0 <= i < m ==> missile_survives(missiles, invaders, i),
        forall|i: int| 0 <= i < n ==> invader_survives(missiles, invaders, i),
    ensures
        surviving_missiles(missiles, invaders, m) == missiles.take(m),
        surviving_invaders(missiles, invaders, n) == invaders.take(n),
    decreases m + n,
{
    if m > 0 {
        lemma_all_survive(missiles, invaders, m - 1, n);
        assert(missiles.take(m - 1).push(missiles[m - 1]) =~= missiles.take(m));
    } else if n > 0 {
        lemma_all_survive(missiles, invaders, m, n - 1);
        assert(invaders.take(n - 1).push(invaders[n - 1]) =~= invaders.take(n));
    } else {
        assert(missiles.take(0) =~= Seq::<Missile>::empty());
        assert(invaders.take(0) =~= Seq::<Invader>::empty());
    }
}

/// Builds the grid of the given size that the missiles and then the invaders
/// stamp.
pub fn stamp_grid(
    size: Coord,
    missiles: &Vec<Missile>,
    invaders: &Vec<Invader>,
) -> (map: Grid<Tile>)
    requires
        size.0 * size.1 <= usize::MAX,
        forall|i: int| 0 <= i < missiles@.len() ==> (#[trigger] missiles@[i]).within(size),
        forall|i: int| 0 <= i < invaders@.len() ==> (#[trigger] invaders@[i]).within(size),
    ensures
        map.wf(),
        map.dimensions == size,
        forall|x: int, y: int|
            map.in_bounds(x, y) ==> #[trigger] map.cell(x, y) == stamp(
                missiles@,
                invaders@,
                Coord(x as usize, y as usize),
            ),
{
    let mut map = Grid::<Tile>::new(size, Tile::Empty);
    let mut i: usize = 0;
    while i < missiles.len()
        invariant
            i <= missiles@.len(),
            map.wf(),
            map.dimensions == size,
            forall|k: int| 0 <= k < missiles@.len() ==> (#[trigger] missiles@[k]).within(size),
            forall|x: int, y: int|
                map.in_bounds(x, y) ==> #[trigger] map.cell(x, y) == missiles_stamped(
                    missiles@.take(i as int),
                    Coord(x as usize, y as usize),
                ),
        decreases missiles@.len() - i,
    {
        let pos = missiles[i].position;
        let ghost before = map;
        map.set_at(&pos, Tile::Missile(i));
        proof {
            let done = missiles@.take(i + 1);
            assert(done.drop_last() =~= missiles@.take(i as int));
            assert(done.last() == missiles@[i as int]);
            assert forall|x: int, y: int| map.in_bounds(x, y) implies #[trigger] map.cell(x, y)
                == missiles_stamped(done, Coord(x as usize, y as usize)) by {
                assert(before.in_bounds(x, y));
                if x == pos.0 && y == pos.1 {
                } else {
                    assert(map.cell(x, y) == before.cell(x, y));
                }
            }
        }
        i = i + 1;
    }
    assert(missiles@.take(missiles@.len() as int) =~= missiles@);
    let mut j: usize = 0;
    while j < invaders.len()
        invariant
            j <= invaders@.len(),
            map.wf(),
            map.dimensions == size,
            forall|k: int| 0 <= k < invaders@.len() ==> (#[trigger] invaders@[k]).within(size),
            forall|x: int, y: int|
                map.in_bounds(x, y) ==> #[trigger] map.cell(x, y) == all_stamped(
                    missiles@,
                    invaders@.take(j as int),
                    Coord(x as usize, y as usize),
                ),
        decreases invaders@.len() - j,
    {
        let pos = invaders[j].position;
        let ghost before = map;
        let tile = match map.get_at(&pos) {
            Tile::Empty => Tile::Invader(j),
            _ => Tile::Explosion,
        };
        map.set_at(&pos, tile);
        proof {
            let done = invaders@.take(j + 1);
            assert(done.drop_last() =~= invaders@.take(j as int));
            assert(done.last() == invaders@[j as int]);
            assert forall|x: int, y: int| map.in_bounds(x, y) implies #[trigger] map.cell(x, y)
                == all_stamped(missiles@, done, Coord(x as usize, y as usize)) by {
                assert(before.in_bounds(x, y));
                if x == pos.0 && y == pos.1 {
                    assert(before.cell(x, y) == all_stamped(
                        missiles@,
                        invaders@.take(j as int),
                        Coord(x as usize, y as usize),
                    ));
                } else {
                    assert(map.cell(x, y) == before.cell(x, y));
                }
            }
        }
        j = j + 1;
    }
    proof {
        assert(invaders@.take(invaders@.len() as int) =~= invaders@);
        assert forall|x: int, y: int| map.in_bounds(x, y) implies #[trigger] map.cell(x, y)
            == stamp(missiles@, invaders@, Coord(x as usize, y as usize)) by {
            lemma_stamped_is_stamp(missiles@, invaders@, Coord(x as usize, y as usize));
        }
    }
    map
}

} // verus!
