//! The movement engine: each tick a pop with a destination walks one cell
//! towards it, along the axis on which it has farther to go.

use vstd::prelude::*;
use crate::agents::Pop;
use crate::directory::{Directory, DirectoryView};
use crate::grid::{axis_gap, gap, manhattan, Grid, Position};

verus! {

/// The cells that a pop walks in one tick.
pub const MOVE_STEP: u64 = 1;

/// A coordinate one closer to `target`.
pub open spec fn step_axis(from: u32, target: u32) -> u32 {
    if from < target {
        (from + 1) as u32
    } else if from > target {
        (from - 1) as u32
    } else {
        from
    }
}

/// The cell one step from `from` towards `to`: along the columns where the
/// way is at least as long as along the rows.
pub open spec fn step_toward(from: Position, to: Position) -> Position {
    if axis_gap(from.x, to.x) >= axis_gap(from.y, to.y) {
        Position { x: step_axis(from.x, to.x), y: from.y }
    } else {
        Position { x: from.x, y: step_axis(from.y, to.y) }
    }
}

/// A pop after one tick of walking. One that is within a step of its
/// destination arrives and has none any more; one that has no destination
/// stays as it is. Where the walk would leave the map the pop stops at the
/// edge.
pub open spec fn moved(pop: Pop, grid: Grid) -> Pop {
    match pop.destination {
        None => pop,
        Some(to) => if manhattan(pop.position, to) <= MOVE_STEP {
            Pop {
                position: grid.nearest(to.x as int, to.y as int),
                destination: None,
                ..pop
            }
        } else {
            let next = step_toward(pop.position, to);
            Pop { position: grid.nearest(next.x as int, next.y as int), ..pop }
        },
    }
}

/// A pop after `ticks` ticks of walking.
pub open spec fn moved_for(pop: Pop, grid: Grid, ticks: nat) -> Pop
    decreases ticks,
{
    if ticks == 0 {
        pop
    } else {
        moved(moved_for(pop, grid, (ticks - 1) as nat), grid)
    }
}

/// The directory after one tick of walking by every pop.
pub open spec fn after_movement(directory: DirectoryView) -> DirectoryView {
    DirectoryView {
        pops: Seq::new(directory.pops.len(), |i: int| moved(directory.pops[i], directory.grid)),
        ..directory
    }
}

/// Whether `p` lies in the rectangle spanned by `a` and `b`.
pub open spec fn between(a: Position, p: Position, b: Position) -> bool {
    &&& (a.x <= p.x <= b.x || b.x <= p.x <= a.x)
    &&& (a.y <= p.y <= b.y || b.y <= p.y <= a.y)
}

/// A coordinate one closer to `target`.
pub fn step_coordinate(from: u32, target: u32) -> (next: u32)
    ensures
        next == step_axis(from, target),
{
    if from < target {
        from + 1
    } else if from > target {
        from - 1
    } else {
        from
    }
}

/// Walks a pop for one tick.
pub fn move_pop(pop: Pop, grid: &Grid) -> (next: Pop)
    requires
        grid.wf(),
    ensures
        next == moved(pop, *grid),
        pop.destination.is_none() ==> next == pop,
        grid.holds(pop.position) ==> grid.holds(next.position) && manhattan(
            pop.position,
            next.position,
        ) <= MOVE_STEP,
{
    match pop.destination {
        None => pop,
        Some(to) => {
            let mut next: Pop = pop;
            let dx: u64 = gap(pop.position.x, to.x);
            let dy: u64 = gap(pop.position.y, to.y);
            if dx + dy <= MOVE_STEP {
                next.position = grid.clamp(to);
                next.destination = None;
            } else if dx >= dy {
                let x: u32 = step_coordinate(pop.position.x, to.x);
                next.position = grid.clamp(Position { x, y: pop.position.y });
            } else {
                let y: u32 = step_coordinate(pop.position.y, to.y);
                next.position = grid.clamp(Position { x: pop.position.x, y });
            }
            next
        },
    }
}

/// Walks every pop of the directory for one tick.
pub fn move_pops(directory: &mut Directory)
    requires
        old(directory).wf(),
    ensures
        final(directory)@ == after_movement(old(directory)@),
        final(directory).wf(),
{
    let n: usize = directory.pops.len();
    let mut i: usize = 0;
    while i < n
        invariant
            i <= n,
            n == old(directory).pops.len(),
            directory.pops.len() == n,
            old(directory).wf(),
            directory.grid == old(directory).grid,
            directory.houses == old(directory).houses,
            directory.workplaces == old(directory).workplaces,
            directory.restaurants == old(directory).restaurants,
            directory.next_id == old(directory).next_id,
            forall|j: int|
                0 <= j < i ==> directory.pops[j] == moved(
                    old(directory).pops[j],
                    old(directory).grid,
                ),
            forall|j: int| i <= j < n ==> directory.pops[j] == old(directory).pops[j],
        decreases n - i,
    {
        let pop: Pop = directory.pops[i];
        let next: Pop = move_pop(pop, &directory.grid);
        directory.pops[i] = next;
        i += 1;
    }
    proof {
        assert(directory@.pops =~= after_movement(old(directory)@).pops);
        lemma_movement_keeps_sound(old(directory)@);
    }
}

/// A pop with no destination is left as it is, however long the engine runs.
pub proof fn lemma_rest_is_kept(pop: Pop, grid: Grid, ticks: nat)
    requires
        pop.destination.is_none(),
    ensures
        moved(pop, grid) == pop,
        moved_for(pop, grid, ticks) == pop,
    decreases ticks,
{
    if ticks > 0 {
        lemma_rest_is_kept(pop, grid, (ticks - 1) as nat);
    }
}

/// In one tick a pop on the map moves by at most one step, stays on the map,
/// and changes in nothing but where it is and where it is going.
pub proof fn lemma_step_stays_close(pop: Pop, grid: Grid)
    requires
        grid.wf(),
        grid.holds(pop.position),
    ensures
        manhattan(pop.position, moved(pop, grid).position) <= MOVE_STEP,
        grid.holds(moved(pop, grid).position),
        moved(pop, grid) == (Pop {
            position: moved(pop, grid).position,
            destination: moved(pop, grid).destination,
            ..pop
        }),
{
}

/// After any number of ticks a pop on the map is on the map, and no farther
/// from where it started than one step for each tick.
pub proof fn lemma_walk_is_bounded(pop: Pop, grid: Grid, ticks: nat)
    requires
        grid.wf(),
        grid.holds(pop.position),
    ensures
        grid.holds(moved_for(pop, grid, ticks).position),
        manhattan(pop.position, moved_for(pop, grid, ticks).position) <= MOVE_STEP * ticks,
    decreases ticks,
{
    if ticks > 0 {
        lemma_walk_is_bounded(pop, grid, (ticks - 1) as nat);
        lemma_step_stays_close(moved_for(pop, grid, (ticks - 1) as nat), grid);
    }
}

/// The walk to a destination on the map. While fewer ticks have passed than
/// the destination is steps away, the pop has covered one step for each tick,
/// all of them towards the destination, which it still holds. From then on it
/// stands on the destination and holds none.
pub proof fn lemma_walk_reaches(pop: Pop, grid: Grid, to: Position, ticks: nat)
    requires
        grid.wf(),
        grid.holds(pop.position),
        grid.holds(to),
        pop.destination == Some(to),
    ensures
        ({
            let distance = manhattan(pop.position, to);
            let now = moved_for(pop, grid, ticks);
            &&& ticks < distance ==> {
                &&& now.destination == Some(to)
                &&& manhattan(pop.position, now.position) == ticks
                &&& manhattan(now.position, to) == distance - ticks
                &&& between(pop.position, now.position, to)
            }
            &&& ticks >= distance && ticks >= 1 ==> {
                &&& now.destination.is_none()
                &&& now.position == to
            }
            &&& manhattan(pop.position, now.position) <= distance
            &&& manhattan(pop.position, now.position) <= MOVE_STEP * ticks
        }),
    decreases ticks,
{
    if ticks > 0 {
        let earlier = (ticks - 1) as nat;
        lemma_walk_reaches(pop, grid, to, earlier);
        let before = moved_for(pop, grid, earlier);
        if before.destination.is_none() {
            lemma_rest_is_kept(before, grid, 1);
        }
    }
}

/// The engine leaves a sound directory sound.
pub proof fn lemma_movement_keeps_sound(directory: DirectoryView)
    requires
        directory.wf(),
    ensures
        after_movement(directory).wf(),
{
    let after = after_movement(directory);
    assert(after.pop_ids() =~= directory.pop_ids());
    assert(after.house_ids() =~= directory.house_ids());
    assert(after.workplace_ids() =~= directory.workplace_ids());
    assert(after.restaurant_ids() =~= directory.restaurant_ids());
    assert forall|j: int| 0 <= j < after.pops.len() implies (#[trigger] after.pops[j])
        .needs_bounded() && after.grid.holds(after.pops[j].position) by {
        assert(directory.pops[j].needs_bounded() && directory.grid.holds(
            directory.pops[j].position,
        ));
        lemma_step_stays_close(directory.pops[j], directory.grid);
    }
}

} // verus!
