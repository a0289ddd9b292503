//! The making of a map: every cell is left empty or given a pop, a house or
//! a workplace, as a draw out of a hundred decides.

use vstd::prelude::*;
use crate::agents::{HouseView, Pop, WorkplaceView, HOUSE_CAPACITY, WORKPLACE_CAPACITY};
use crate::chance::draw_below;
use crate::directory::{Directory, DirectoryView};
use crate::grid::{Grid, Position};

verus! {

/// The number of outcomes of the draw that decides a cell.
pub const KIND_SPAN: u32 = 100;

/// Draws below this leave the cell empty: seventy in a hundred.
pub const EMPTY_BELOW: u32 = 70;

/// Draws below this, and not below the last, put a pop there: fifteen in a
/// hundred.
pub const POP_BELOW: u32 = 85;

/// Draws below this, and not below the last, put a house there: ten in a
/// hundred. All others put a workplace there.
pub const HOUSE_BELOW: u32 = 95;

/// What a cell of a new map holds.
#[derive(Clone, Copy, Debug, PartialEq, Eq, Structural)]
pub enum TileKind {
    Empty,
    Pop,
    House,
    Workplace,
}

/// What a draw makes of a cell.
pub open spec fn kind_of(roll: u32) -> TileKind {
    if roll < EMPTY_BELOW {
        TileKind::Empty
    } else if roll < POP_BELOW {
        TileKind::Pop
    } else if roll < HOUSE_BELOW {
        TileKind::House
    } else {
        TileKind::Workplace
    }
}

/// The draw for the cell numbered `cell`: the least, which leaves the cell
/// empty, where the list is too short.
pub open spec fn roll_for(rolls: Seq<u32>, cell: int) -> u32 {
    if 0 <= cell < rolls.len() {
        rolls[cell]
    } else {
        0
    }
}

/// The cell numbered `cell` on a map of the given height: cells are counted
/// column by column, each from its first row.
pub open spec fn cell_position(cell: int, height: u32) -> Position
    recommends
        height >= 1,
        0 <= cell,
{
    Position { x: (cell / height as int) as u32, y: (cell % height as int) as u32 }
}

/// The directory with a record of the given kind added at `position`, under
/// the next identity; unchanged where the cell is to stay empty, lies off the
/// map, or no identity is left.
pub open spec fn placed(directory: DirectoryView, kind: TileKind, position: Position)
    -> DirectoryView {
    if !directory.can_spawn(position) {
        directory
    } else {
        let id = directory.next_id;
        let next_id = (id + 1) as u32;
        match kind {
            TileKind::Empty => directory,
            TileKind::Pop => DirectoryView {
                pops: directory.pops.push(Pop::fresh(id, position)),
                next_id,
                ..directory
            },
            TileKind::House => DirectoryView {
                houses: directory.houses.push(
                    HouseView { id, capacity: HOUSE_CAPACITY, residents: Seq::empty(), position },
                ),
                next_id,
                ..directory
            },
            TileKind::Workplace => DirectoryView {
                workplaces: directory.workplaces.push(
                    WorkplaceView {
                        id,
                        capacity: WORKPLACE_CAPACITY,
                        employees: Seq::empty(),
                        position,
                    },
                ),
                next_id,
                ..directory
            },
        }
    }
}

/// The directory once the first `cells` cells of its map are decided, each by
/// its draw.
pub open spec fn populated_upto(directory: DirectoryView, rolls: Seq<u32>, cells: int)
    -> DirectoryView
    decreases cells,
{
    if cells <= 0 {
        directory
    } else {
        placed(
            populated_upto(directory, rolls, cells - 1),
            kind_of(roll_for(rolls, cells - 1)),
            cell_position(cells - 1, directory.grid.height),
        )
    }
}

/// The directory once every cell of its map is decided.
pub open spec fn populated(directory: DirectoryView, rolls: Seq<u32>) -> DirectoryView {
    populated_upto(directory, rolls, directory.grid.width * directory.grid.height)
}

/// What a draw makes of a cell.
pub fn tile_kind(roll: u32) -> (kind: TileKind)
    ensures
        kind == kind_of(roll),
{
    if roll < EMPTY_BELOW {
        TileKind::Empty
    } else if roll < POP_BELOW {
        TileKind::Pop
    } else if roll < HOUSE_BELOW {
        TileKind::House
    } else {
        TileKind::Workplace
    }
}

/// Adds a record of the given kind at `position`, and says under which
/// identity; adds nothing, and says so, where the cell is to stay empty, lies
/// off the map, or no identity is left.
pub fn place_tile(directory: &mut Directory, kind: TileKind, position: Position) -> (id: Option<
    u32,
>)
    requires
        old(directory).wf(),
    ensures
        final(directory).wf(),
        final(directory)@ == placed(old(directory)@, kind, position),
        id.is_some() <==> kind != TileKind::Empty && old(directory)@.can_spawn(position),
        id.is_some() ==> id == Some(old(directory).next_id),
{
    match kind {
        TileKind::Empty => None,
        TileKind::Pop => directory.spawn_pop(position),
        TileKind::House => directory.spawn_house(position),
        TileKind::Workplace => directory.spawn_workplace(position),
    }
}

/// The first `cells` cells are decided by the first `cells` draws alone.
pub proof fn lemma_populated_reads_prefix(
    directory: DirectoryView,
    rolls: Seq<u32>,
    longer: Seq<u32>,
    cells: int,
)
    requires
        0 <= cells <= rolls.len() <= longer.len(),
        forall|c: int| 0 <= c < cells ==> rolls[c] == longer[c],
    ensures
        populated_upto(directory, rolls, cells) == populated_upto(directory, longer, cells),
    decreases cells,
{
    if cells > 0 {
        lemma_populated_reads_prefix(directory, rolls, longer, cells - 1);
    }
}

/// Decides every cell of the directory's map by the draws given, the cell
/// numbered `c` by `rolls[c]`: cells are counted column by column.
pub fn populate(directory: &mut Directory, rolls: &Vec<u32>)
    requires
        old(directory).wf(),
    ensures
        final(directory).wf(),
        final(directory)@ == populated(old(directory)@, rolls@),
{
    let width: u32 = directory.grid.width;
    let height: u32 = directory.grid.height;
    let ghost start = directory@;
    let mut x: u32 = 0;
    while x < width
        invariant
            x <= width,
            height >= 1,
            directory.wf(),
            directory.grid == start.grid,
            width == start.grid.width,
            height == start.grid.height,
            directory@ == populated_upto(start, rolls@, x * height),
        decreases width - x,
    {
        let mut y: u32 = 0;
        while y < height
            invariant
                x < width,
                y <= height,
                height >= 1,
                directory.wf(),
                directory.grid == start.grid,
                width == start.grid.width,
                height == start.grid.height,
                directory@ == populated_upto(start, rolls@, x * height + y),
            decreases height - y,
        {
            let cell: u64 = cell_number(x, y, height);
            let roll: u32 = if cell < rolls.len() as u64 {
                rolls[cell as usize]
            } else {
                0
            };
            place_tile(directory, tile_kind(roll), Position { x, y });
            y += 1;
        }
        assert(x * height + height == (x + 1) * height) by (nonlinear_arith);
        x += 1;
    }
}

/// The number of the cell in column `x` and row `y`.
pub fn cell_number(x: u32, y: u32, height: u32) -> (cell: u64)
    requires
        y < height,
    ensures
        cell == x * height + y,
        cell_position(cell as int, height) == (Position { x, y }),
{
    assert(x * height + y <= 0xffff_ffff * 0xffff_ffff + 0xffff_ffff) by (nonlinear_arith)
        requires
            x <= 0xffff_ffff,
            y < height <= 0xffff_ffff,
    ;
    proof {
        lemma_cell_position(x, y, height);
    }
    x as u64 * height as u64 + y as u64
}

/// Makes a map of the given extent at random: each cell is left empty seven
/// times in ten, and else given a pop, a house or a workplace. Whatever was
/// drawn, the directory is what `populate` makes of an empty one on some
/// list of draws, one for each cell.
pub fn spawn_tilemap(grid: Grid) -> (directory: Directory)
    requires
        grid.wf(),
    ensures
        directory.wf(),
        directory.grid == grid,
        exists|rolls: Seq<u32>|
            {
                &&& rolls.len() == grid.width * grid.height
                &&& forall|c: int| 0 <= c < rolls.len() ==> #[trigger] rolls[c] < KIND_SPAN
                &&& directory@ == populated(
                    DirectoryView {
                        grid,
                        pops: Seq::empty(),
                        houses: Seq::empty(),
                        workplaces: Seq::empty(),
                        restaurants: Seq::empty(),
                        next_id: 0,
                    },
                    rolls,
                )
            },
{
    let mut directory = Directory::new(grid);
    let width: u32 = grid.width;
    let height: u32 = grid.height;
    let ghost start = directory@;
    let ghost mut drawn: Seq<u32> = Seq::empty();
    let mut x: u32 = 0;
    while x < width
        invariant
            x <= width,
            height >= 1,
            directory.wf(),
            directory.grid == grid,
            start.grid == grid,
            width == grid.width,
            height == grid.height,
            drawn.len() == x * height,
            forall|c: int| 0 <= c < drawn.len() ==> #[trigger] drawn[c] < KIND_SPAN,
            directory@ == populated_upto(start, drawn, x * height),
        decreases width - x,
    {
        let mut y: u32 = 0;
        while y < height
            invariant
                x < width,
                y <= height,
                height >= 1,
                directory.wf(),
                directory.grid == grid,
                start.grid == grid,
                width == grid.width,
                height == grid.height,
                drawn.len() == x * height + y,
                forall|c: int| 0 <= c < drawn.len() ==> #[trigger] drawn[c] < KIND_SPAN,
                directory@ == populated_upto(start, drawn, x * height + y),
            decreases height - y,
        {
            let ghost cell = cell_number_of(x, y, height);
            let roll: u32 = draw_below(KIND_SPAN);
            proof {
                lemma_cell_position(x, y, height);
                lemma_populated_reads_prefix(start, drawn, drawn.push(roll), cell);
                drawn = drawn.push(roll);
            }
            place_tile(&mut directory, tile_kind(roll), Position { x, y });
            y += 1;
        }
        assert(x * height + height == (x + 1) * height) by (nonlinear_arith);
        x += 1;
    }
    directory
}

/// The number of the cell in column `x` and row `y`.
pub open spec fn cell_number_of(x: u32, y: u32, height: u32) -> int {
    x * height + y
}

/// Numbering the cells and reading a number back as a cell undo each other.
pub proof fn lemma_cell_position(x: u32, y: u32, height: u32)
    requires
        y < height,
    ensures
        cell_position(cell_number_of(x, y, height), height) == (Position { x, y }),
        cell_number_of(x, y, height) >= 0,
{
    assert(x * height >= 0 && x * height == height * x) by (nonlinear_arith)
        requires
            0 <= x,
            0 <= height,
    ;
    vstd::arithmetic::div_mod::lemma_fundamental_div_mod_converse(
        x * height + y,
        height as int,
        x as int,
        y as int,
    );
}

} // verus!
