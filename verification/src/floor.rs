use crate::unit::Unit;
use vstd::prelude::*;

verus! {

/// Identifies an entity of the scene: the bits of the host's entity reference.
pub type EntityId = u64;

/// What a cell of the board is made of.
#[derive(Clone, Copy, Debug, PartialEq, Eq, Structural)]
pub enum TileKind {
    Floor,
    Wall,
    Lava,
}

impl TileKind {
    /// The kind that a layout code stands for, if any.
    pub open spec fn spec_from_code(code: u8) -> Option<TileKind> {
        if code == 0 {
            Some(TileKind::Floor)
        } else if code == 1 {
            Some(TileKind::Wall)
        } else if code == 2 {
            Some(TileKind::Lava)
        } else {
            None
        }
    }

    /// Decodes a layout code: 0 is floor, 1 is wall, 2 is lava, anything else is unknown.
    pub fn from_code(code: u8) -> (kind: Option<TileKind>)
        ensures
            kind == Self::spec_from_code(code),
    {
        match code {
            0 => Some(TileKind::Floor),
            1 => Some(TileKind::Wall),
            2 => Some(TileKind::Lava),
            _ => None,
        }
    }
}

/// The colours a tile is ever drawn in.
#[derive(Clone, Copy, Debug, PartialEq, Eq, Structural)]
pub enum TileColor {
    /// Base colour of a floor tile.
    NearWhite,
    /// Base colour of a wall tile.
    NearBlack,
    /// Base colour of a lava tile.
    Red,
    /// The tile under the pointer.
    LightBlue,
    /// The targeted tile.
    Blue,
}

impl TileColor {
    /// Red, green and blue intensity, each in tenths of full intensity.
    pub open spec fn spec_rgb_tenths(self) -> (u8, u8, u8) {
        match self {
            TileColor::NearWhite => (10u8, 9u8, 9u8),
            TileColor::NearBlack => (0u8, 1u8, 1u8),
            TileColor::Red => (10u8, 0u8, 0u8),
            TileColor::LightBlue => (5u8, 5u8, 10u8),
            TileColor::Blue => (0u8, 0u8, 10u8),
        }
    }

    /// Red, green and blue intensity, each in tenths of full intensity (10 is full).
    pub fn rgb_tenths(self) -> (rgb: (u8, u8, u8))
        ensures
            rgb == self.spec_rgb_tenths(),
            rgb.0 <= 10 && rgb.1 <= 10 && rgb.2 <= 10,
    {
        match self {
            TileColor::NearWhite => (10, 9, 9),
            TileColor::NearBlack => (0, 1, 1),
            TileColor::Red => (10, 0, 0),
            TileColor::LightBlue => (5, 5, 10),
            TileColor::Blue => (0, 0, 10),
        }
    }
}

/// One cell of the board. Never changes once made.
#[derive(Clone, Copy, Debug, PartialEq, Eq, Structural)]
pub struct Tile {
    pub x: u8,
    pub y: u8,
    pub tile_kind: TileKind,
}

impl Tile {
    pub fn new(x: u8, y: u8, tile_kind: TileKind) -> (tile: Tile)
        ensures
            tile == (Tile { x, y, tile_kind }),
    {
        Tile { x, y, tile_kind }
    }

    /// The base colour of a kind of tile.
    pub open spec fn base_color(tile_kind: TileKind) -> TileColor {
        match tile_kind {
            TileKind::Floor => TileColor::NearWhite,
            TileKind::Wall => TileColor::NearBlack,
            TileKind::Lava => TileColor::Red,
        }
    }

    /// The colour this tile has when it is neither hovered nor targeted:
    /// it depends on the kind alone.
    pub fn get_color(&self) -> (color: TileColor)
        ensures
            color == Self::base_color(self.tile_kind),
    {
        match self.tile_kind {
            TileKind::Floor => TileColor::NearWhite,
            TileKind::Wall => TileColor::NearBlack,
            TileKind::Lava => TileColor::Red,
        }
    }
}

/// A request to put one tile into the scene: the tile, the colour of its
/// material, and where it stands in the world (its height is always 0).
#[derive(Clone, Copy, Debug, PartialEq, Eq, Structural)]
pub struct TileSpawn {
    pub tile: Tile,
    pub color: TileColor,
    pub world_x: usize,
    pub world_z: usize,
}

/// The rows of a layout as sequences of codes.
pub open spec fn layout_rows(floor_design: &Vec<Vec<u8>>) -> Seq<Seq<u8>> {
    Seq::new(floor_design@.len(), |i: int| floor_design@[i]@)
}

/// Every code of the layout stands for a kind of tile.
pub open spec fn valid_layout(rows: Seq<Seq<u8>>) -> bool {
    forall|r: int, c: int|
        0 <= r < rows.len() && 0 <= c < rows[r].len() ==> TileKind::spec_from_code(
            #[trigger] rows[r][c],
        ) is Some
}

/// The tile made for the cell at index `j` of the `i`-th row, rows counted
/// from the last one of the layout. The row index becomes the tile's `x` and
/// the world's x axis, the column index the tile's `y` and the world's z
/// axis. Tile coordinates keep the low eight bits of the indices.
pub open spec fn spawn_at(i: int, j: int, code: u8) -> TileSpawn {
    let tile_kind = TileKind::spec_from_code(code).unwrap();
    TileSpawn {
        tile: Tile { x: (i % 256) as u8, y: (j % 256) as u8, tile_kind },
        color: Tile::base_color(tile_kind),
        world_x: i as usize,
        world_z: j as usize,
    }
}

/// The tiles of one row, in column order.
pub open spec fn row_spawns(i: int, row: Seq<u8>) -> Seq<TileSpawn> {
    Seq::new(row.len(), |j: int| spawn_at(i, j, row[j]))
}

/// The tiles of the last `n` rows of a layout: the last row first, each row
/// in column order.
pub open spec fn spawns_upto(rows: Seq<Seq<u8>>, n: int) -> Seq<TileSpawn>
    decreases n,
{
    if n <= 0 {
        Seq::empty()
    } else {
        spawns_upto(rows, n - 1) + row_spawns(n - 1, rows[rows.len() - n])
    }
}

/// All tiles of a layout, in the order in which they are made.
pub open spec fn floor_spawns(rows: Seq<Seq<u8>>) -> Seq<TileSpawn> {
    spawns_upto(rows, rows.len() as int)
}

/// Makes one tile per cell of `floor_design`. Rows are read from the last to
/// the first; see [`spawn_at`] for how indices become coordinates.
pub fn build_floor(floor_design: &Vec<Vec<u8>>) -> (spawns: Vec<TileSpawn>)
    requires
        valid_layout(layout_rows(floor_design)),
    ensures
        spawns@ == floor_spawns(layout_rows(floor_design)),
{
    let ghost rows = layout_rows(floor_design);
    let n = floor_design.len();
    let mut spawns: Vec<TileSpawn> = Vec::new();
    let mut i: usize = 0;
    while i < n
        invariant
            i <= n,
            n == floor_design@.len(),
            rows == layout_rows(floor_design),
            valid_layout(rows),
            spawns@ == spawns_upto(rows, i as int),
        decreases n - i,
    {
        let row = &floor_design[n - 1 - i];
        let width = row.len();
        let ghost done = spawns@;
        let mut j: usize = 0;
        while j < width
            invariant
                i < n,
                n == floor_design@.len(),
                j <= width,
                width == row@.len(),
                row@ == rows[n - 1 - i],
                rows == layout_rows(floor_design),
                valid_layout(rows),
                spawns@ == done + row_spawns(i as int, row@).take(j as int),
            decreases width - j,
        {
            let code = row[j];
            assert(TileKind::spec_from_code(rows[n - 1 - i][j as int]) is Some);
            let tile_kind = match TileKind::from_code(code) {
                Some(tile_kind) => tile_kind,
                None => vstd::pervasive::unreached(),
            };
            let tile = Tile::new((i % 256) as u8, (j % 256) as u8, tile_kind);
            let color = tile.get_color();
            spawns.push(TileSpawn { tile, color, world_x: i, world_z: j });
            assert(row_spawns(i as int, row@).take(j + 1) == row_spawns(i as int, row@).take(
                j as int,
            ).push(spawn_at(i as int, j as int, code)));
            j += 1;
        }
        assert(row_spawns(i as int, row@).take(width as int) == row_spawns(i as int, row@));
        i += 1;
    }
    spawns
}

/// The layout of the board, as it is written down: the first row is the one
/// farthest from the origin.
pub open spec fn spec_floor_design() -> Seq<Seq<u8>> {
    seq![
        seq![0u8, 0u8, 0u8, 0u8, 0u8, 0u8, 2u8, 0u8],
        seq![0u8, 0u8, 0u8, 0u8, 0u8, 0u8, 0u8, 0u8],
        seq![0u8, 0u8, 0u8, 0u8, 0u8, 0u8, 0u8, 0u8],
        seq![0u8, 0u8, 0u8, 0u8, 0u8, 0u8, 0u8, 0u8],
        seq![0u8, 1u8, 1u8, 1u8, 0u8, 0u8, 0u8, 0u8],
        seq![0u8, 0u8, 0u8, 1u8, 0u8, 0u8, 0u8, 0u8],
        seq![0u8, 0u8, 0u8, 1u8, 0u8, 0u8, 0u8, 0u8],
        seq![0u8, 0u8, 0u8, 1u8, 0u8, 0u8, 0u8, 0u8],
    ]
}

/// The layout of the board.
pub fn floor_design() -> (floor_design: Vec<Vec<u8>>)
    ensures
        layout_rows(&floor_design) == spec_floor_design(),
{
    let floor_design = vec![
        vec![0, 0, 0, 0, 0, 0, 2, 0],
        vec![0, 0, 0, 0, 0, 0, 0, 0],
        vec![0, 0, 0, 0, 0, 0, 0, 0],
        vec![0, 0, 0, 0, 0, 0, 0, 0],
        vec![0, 1, 1, 1, 0, 0, 0, 0],
        vec![0, 0, 0, 1, 0, 0, 0, 0],
        vec![0, 0, 0, 1, 0, 0, 0, 0],
        vec![0, 0, 0, 1, 0, 0, 0, 0],
    ];
    assert(layout_rows(&floor_design) =~~= spec_floor_design());
    floor_design
}

/// Makes the tiles of the board from its layout: 64 tiles, exactly one for
/// each coordinate pair from `(0, 0)` to `(7, 7)`, each in the base colour of
/// its kind.
pub fn create_floor() -> (spawns: Vec<TileSpawn>)
    ensures
        spawns@ == floor_spawns(spec_floor_design()),
        spawns@.len() == 64,
        forall|x: u8, y: u8| x < 8 && y < 8 ==> #[trigger] one_tile_at(spawns@, x, y),
        forall|k: int|
            0 <= k < 64 ==> (#[trigger] spawns@[k]).tile.x < 8 && spawns@[k].tile.y < 8
                && spawns@[k].color == Tile::base_color(spawns@[k].tile.tile_kind),
{
    let floor_design = floor_design();
    proof {
        lemma_board_tiles();
    }
    build_floor(&floor_design)
}

/// All rows of the layout have `width` cells.
pub open spec fn rectangular(rows: Seq<Seq<u8>>, width: int) -> bool {
    forall|r: int| 0 <= r < rows.len() ==> (#[trigger] rows[r]).len() == width
}

/// The tile made for row `i`, counted from the last row, and column `j`.
pub open spec fn cell_spawn(rows: Seq<Seq<u8>>, i: int, j: int) -> TileSpawn {
    spawn_at(i, j, rows[rows.len() - 1 - i][j])
}

/// `spawns[k]` is a tile with the coordinates `(x, y)`.
pub open spec fn tile_at(spawns: Seq<TileSpawn>, k: int, x: u8, y: u8) -> bool {
    0 <= k < spawns.len() && spawns[k].tile.x == x && spawns[k].tile.y == y
}

/// Exactly one of `spawns` is a tile with the coordinates `(x, y)`.
pub open spec fn one_tile_at(spawns: Seq<TileSpawn>, x: u8, y: u8) -> bool {
    exists|k: int|
        #[trigger] tile_at(spawns, k, x, y) && forall|m: int|
            #[trigger] tile_at(spawns, m, x, y) ==> m == k
}

/// In a layout whose rows all have `width` cells, the tile of row `i`
/// (counted from the last row) and column `j` is made at place
/// `i * width + j`.
pub proof fn lemma_spawns_rectangular(rows: Seq<Seq<u8>>, width: int, n: int)
    requires
        rectangular(rows, width),
        0 <= n <= rows.len(),
        0 <= width,
    ensures
        spawns_upto(rows, n).len() == n * width,
        forall|i: int, j: int|
            0 <= i < n && 0 <= j < width ==> 0 <= i * width + j < n * width && spawns_upto(
                rows,
                n,
            )[i * width + j] == #[trigger] cell_spawn(rows, i, j),
    decreases n,
{
    if n > 0 {
        lemma_spawns_rectangular(rows, width, n - 1);
        let prev = spawns_upto(rows, n - 1);
        let row = rows[rows.len() - n];
        assert((n - 1) * width + width == n * width) by (nonlinear_arith);
        assert forall|i: int, j: int| 0 <= i < n && 0 <= j < width implies 0 <= i * width + j < n
            * width && spawns_upto(rows, n)[i * width + j] == #[trigger] cell_spawn(rows, i, j) by {
            assert(0 <= i * width + j < n * width) by (nonlinear_arith)
                requires
                    0 <= i < n,
                    0 <= j < width,
            ;
            if i < n - 1 {
                assert(prev[i * width + j] == cell_spawn(rows, i, j));
            } else {
                assert(i * width + j == prev.len() + j);
                assert(spawns_upto(rows, n)[prev.len() + j] == row_spawns(n - 1, row)[j]);
            }
        }
    }
}

/// The tiles of the last `n` rows each have the base colour of their kind.
proof fn lemma_spawn_colors_upto(rows: Seq<Seq<u8>>, n: int)
    requires
        0 <= n <= rows.len(),
    ensures
        forall|k: int|
            0 <= k < spawns_upto(rows, n).len() ==> (#[trigger] spawns_upto(rows, n)[k]).color
                == Tile::base_color(spawns_upto(rows, n)[k].tile.tile_kind),
    decreases n,
{
    if n > 0 {
        lemma_spawn_colors_upto(rows, n - 1);
        let prev = spawns_upto(rows, n - 1);
        let row = row_spawns(n - 1, rows[rows.len() - n]);
        assert forall|k: int| 0 <= k < spawns_upto(rows, n).len() implies (#[trigger] spawns_upto(
            rows,
            n,
        )[k]).color == Tile::base_color(spawns_upto(rows, n)[k].tile.tile_kind) by {
            if k >= prev.len() {
                assert(spawns_upto(rows, n)[k] == row[k - prev.len()]);
            }
        }
    }
}

/// Every tile of a layout is made with the base colour of its kind.
pub proof fn lemma_spawn_colors(rows: Seq<Seq<u8>>)
    ensures
        forall|k: int|
            0 <= k < floor_spawns(rows).len() ==> (#[trigger] floor_spawns(rows)[k]).color
                == Tile::base_color(floor_spawns(rows)[k].tile.tile_kind),
{
    lemma_spawn_colors_upto(rows, rows.len() as int);
}

/// In a layout whose rows all have `width` cells, the tile made at place `k`
/// is that of row `k / width` (counted from the last row) and column
/// `k % width`.
pub proof fn lemma_spawn_place(rows: Seq<Seq<u8>>, width: int, k: int)
    requires
        rectangular(rows, width),
        0 <= width,
        0 <= k < floor_spawns(rows).len(),
    ensures
        0 <= k / width < rows.len(),
        0 <= k % width < width,
        k == (k / width) * width + k % width,
        floor_spawns(rows)[k] == cell_spawn(rows, k / width, k % width),
{
    let n = rows.len() as int;
    lemma_spawns_rectangular(rows, width, n);
    assert(0 < width) by (nonlinear_arith)
        requires
            0 <= k < n * width,
            0 <= width,
    ;
    vstd::arithmetic::div_mod::lemma_fundamental_div_mod(k, width);
    vstd::arithmetic::div_mod::lemma_mod_bound(k, width);
    let i = k / width;
    let j = k % width;
    assert(0 <= i < n && i * width + j == k) by (nonlinear_arith)
        requires
            0 <= k < n * width,
            k == width * i + j,
            0 <= j < width,
    ;
    assert(cell_spawn(rows, i, j) == spawns_upto(rows, n)[i * width + j]);
}

/// A layout of at most 256 rows of one width, at most 256, gives exactly one
/// tile for each pair of a row and a column, and no tile besides these.
pub proof fn lemma_one_tile_per_cell(rows: Seq<Seq<u8>>, width: int)
    requires
        rectangular(rows, width),
        rows.len() <= 256,
        0 <= width <= 256,
    ensures
        floor_spawns(rows).len() == rows.len() * width,
        forall|x: u8, y: u8|
            x < rows.len() && y < width ==> #[trigger] one_tile_at(floor_spawns(rows), x, y),
        forall|k: int|
            0 <= k < floor_spawns(rows).len() ==> (#[trigger] floor_spawns(rows)[k]).tile.x
                < rows.len() && floor_spawns(rows)[k].tile.y < width,
{
    let n = rows.len() as int;
    let spawns = floor_spawns(rows);
    lemma_spawns_rectangular(rows, width, n);
    assert forall|x: u8, y: u8| x < rows.len() && y < width implies #[trigger] one_tile_at(
        spawns,
        x,
        y,
    ) by {
        let k = x * width + y;
        assert(spawns[k] == cell_spawn(rows, x as int, y as int));
        assert(tile_at(spawns, k, x, y));
        assert forall|m: int| #[trigger] tile_at(spawns, m, x, y) implies m == k by {
            lemma_spawn_place(rows, width, m);
        }
    }
    assert forall|k: int| 0 <= k < spawns.len() implies (#[trigger] spawns[k]).tile.x < rows.len()
        && spawns[k].tile.y < width by {
        lemma_spawn_place(rows, width, k);
    }
}

/// The board's layout has 8 rows of 8 cells, and every code in it stands for
/// a kind of tile.
pub proof fn lemma_floor_design_shape()
    ensures
        spec_floor_design().len() == 8,
        rectangular(spec_floor_design(), 8),
        valid_layout(spec_floor_design()),
{
}

/// The board has exactly one tile for each coordinate pair from `(0, 0)` to
/// `(7, 7)` and no other tile, and each tile has the base colour of its kind.
pub proof fn lemma_board_tiles()
    ensures
        floor_spawns(spec_floor_design()).len() == 64,
        forall|x: u8, y: u8|
            x < 8 && y < 8 ==> #[trigger] one_tile_at(floor_spawns(spec_floor_design()), x, y),
        forall|k: int|
            0 <= k < 64 ==> (#[trigger] floor_spawns(spec_floor_design())[k]).tile.x < 8
                && floor_spawns(spec_floor_design())[k].tile.y < 8 && floor_spawns(
                spec_floor_design(),
            )[k].color == Tile::base_color(floor_spawns(spec_floor_design())[k].tile.tile_kind),
{
    lemma_floor_design_shape();
    lemma_one_tile_per_cell(spec_floor_design(), 8);
    lemma_spawn_colors(spec_floor_design());
}

/// A tile as it lives in the scene: the entity that carries it and the
/// colour its material has at the moment.
#[derive(Clone, Copy, Debug, PartialEq, Eq, Structural)]
pub struct TileEntity {
    pub entity: EntityId,
    pub tile: Tile,
    pub albedo: TileColor,
}

/// The entity that was picked as a target, while a click is being handled.
#[derive(Clone, Copy, Debug, PartialEq, Eq, Structural)]
pub struct TargetTile {
    pub entity: Option<EntityId>,
}

impl Default for TargetTile {
    fn default() -> (targeted_tile: TargetTile)
        ensures
            targeted_tile.entity is None,
    {
        TargetTile { entity: None }
    }
}

/// The colour a tile is drawn in: that of the hovered tile if the pointer is
/// on it, else that of the targeted tile if it is the target, else the base
/// colour of its kind.
pub open spec fn spec_highlight(
    entity: EntityId,
    tile: Tile,
    top_entity: Option<EntityId>,
    targeted: Option<EntityId>,
) -> TileColor {
    if top_entity == Some(entity) {
        TileColor::LightBlue
    } else if targeted == Some(entity) {
        TileColor::Blue
    } else {
        Tile::base_color(tile.tile_kind)
    }
}

/// The tiles after one pass of highlighting: each keeps its entity and its
/// tile and gets the colour that [`spec_highlight`] gives it.
pub open spec fn spec_floor_highlights(
    top_entity: Option<EntityId>,
    targeted: Option<EntityId>,
    tiles: Seq<TileEntity>,
) -> Seq<TileEntity> {
    Seq::new(
        tiles.len(),
        |k: int|
            TileEntity {
                entity: tiles[k].entity,
                tile: tiles[k].tile,
                albedo: spec_highlight(tiles[k].entity, tiles[k].tile, top_entity, targeted),
            },
    )
}

/// Whether `candidate` is the entity `entity`.
fn is_entity(candidate: Option<EntityId>, entity: EntityId) -> (same: bool)
    ensures
        same == (candidate == Some(entity)),
{
    match candidate {
        Some(id) => id == entity,
        None => false,
    }
}

/// Colours every tile anew from what is hovered and what is targeted. The
/// colours the tiles had before play no part.
pub fn floor_highlights(
    top_entity: Option<EntityId>,
    targeted_tile: &TargetTile,
    tiles: &mut Vec<TileEntity>,
)
    ensures
        final(tiles)@ == spec_floor_highlights(top_entity, targeted_tile.entity, old(tiles)@),
{
    let n = tiles.len();
    let mut k: usize = 0;
    while k < n
        invariant
            k <= n,
            n == old(tiles)@.len(),
            tiles@.len() == n,
            forall|m: int|
                0 <= m < k ==> tiles@[m] == spec_floor_highlights(
                    top_entity,
                    targeted_tile.entity,
                    old(tiles)@,
                )[m],
            forall|m: int| k <= m < n ==> tiles@[m] == old(tiles)@[m],
        decreases n - k,
    {
        let entity = tiles[k].entity;
        let tile = tiles[k].tile;
        let albedo = if is_entity(top_entity, entity) {
            TileColor::LightBlue
        } else if is_entity(targeted_tile.entity, entity) {
            TileColor::Blue
        } else {
            tile.get_color()
        };
        tiles.set(k, TileEntity { entity, tile, albedo });
        k += 1;
    }
    assert(tiles@ =~= spec_floor_highlights(top_entity, targeted_tile.entity, old(tiles)@));
}

/// Highlighting is idempotent: a second pass with the same hovered and
/// targeted entity leaves every tile as the first pass made it.
pub proof fn lemma_floor_highlights_idempotent(
    top_entity: Option<EntityId>,
    targeted: Option<EntityId>,
    tiles: Seq<TileEntity>,
)
    ensures
        spec_floor_highlights(top_entity, targeted, spec_floor_highlights(top_entity, targeted, tiles))
            == spec_floor_highlights(top_entity, targeted, tiles),
{
    assert(spec_floor_highlights(top_entity, targeted, spec_floor_highlights(top_entity, targeted, tiles))
        =~= spec_floor_highlights(top_entity, targeted, tiles));
}

/// While no entity is targeted, no tile is drawn in the colour of the
/// targeted tile.
pub proof fn lemma_untargeted_never_blue(
    top_entity: Option<EntityId>,
    tiles: Seq<TileEntity>,
    k: int,
)
    requires
        0 <= k < tiles.len(),
    ensures
        spec_floor_highlights(top_entity, None, tiles)[k].albedo != TileColor::Blue,
{
}

/// `tiles[k]` is the first of the tiles that `entity` carries.
pub open spec fn first_tile_of(tiles: Seq<TileEntity>, entity: EntityId, k: int) -> bool {
    &&& 0 <= k < tiles.len()
    &&& tiles[k].entity == entity
    &&& forall|m: int| 0 <= m < k ==> (#[trigger] tiles[m]).entity != entity
}

/// `entity` carries a tile.
pub open spec fn is_tile(tiles: Seq<TileEntity>, entity: EntityId) -> bool {
    exists|k: int| 0 <= k < tiles.len() && (#[trigger] tiles[k]).entity == entity
}

/// The tile that `entity` carries, if it carries one.
pub open spec fn spec_find_tile(tiles: Seq<TileEntity>, entity: EntityId) -> Option<Tile> {
    if exists|k: int| first_tile_of(tiles, entity, k) {
        Some(tiles[choose|k: int| first_tile_of(tiles, entity, k)].tile)
    } else {
        None
    }
}

/// Looks up the tile that `entity` carries. `None` means that the entity is
/// no tile.
pub fn find_tile(tiles: &Vec<TileEntity>, entity: EntityId) -> (found: Option<Tile>)
    ensures
        found == spec_find_tile(tiles@, entity),
        found is Some <==> is_tile(tiles@, entity),
{
    let n = tiles.len();
    let mut k: usize = 0;
    while k < n
        invariant
            k <= n,
            n == tiles@.len(),
            forall|m: int| 0 <= m < k ==> (#[trigger] tiles@[m]).entity != entity,
        decreases n - k,
    {
        if tiles[k].entity == entity {
            assert(first_tile_of(tiles@, entity, k as int));
            let ghost chosen = choose|c: int| first_tile_of(tiles@, entity, c);
            assert(first_tile_of(tiles@, entity, chosen));
            assert(chosen == k);
            return Some(tiles[k].tile);
        }
        k += 1;
    }
    assert(forall|c: int| !first_tile_of(tiles@, entity, c));
    None
}

/// The units after a frame's click handling. A press of the select button
/// while the pointer is on a tile sends every unit to that tile's
/// coordinates; otherwise the units stay as they are.
pub open spec fn spec_target_tile(
    top_entity: Option<EntityId>,
    just_pressed: bool,
    tiles: Seq<TileEntity>,
    units: Seq<Unit>,
) -> Seq<Unit> {
    if just_pressed && top_entity is Some {
        let tile = spec_find_tile(tiles, top_entity.unwrap()).unwrap();
        Seq::new(units.len(), |k: int| Unit { target_x: tile.x, target_y: tile.y })
    } else {
        units
    }
}

/// Handles the select button for one frame. `just_pressed` says whether the
/// button went down in this frame, `top_entity` what the pointer is on.
///
/// Without a press nothing changes. With a press on a tile every unit gets
/// the tile's coordinates as its destination; with a press on nothing the
/// units stay. Either way a press leaves no entity targeted.
///
/// A press on an entity that is no tile is not handled: callers rule it out.
pub fn target_tile(
    top_entity: Option<EntityId>,
    just_pressed: bool,
    targeted_tile: &mut TargetTile,
    tiles: &Vec<TileEntity>,
    units: &mut Vec<Unit>,
)
    requires
        just_pressed && top_entity is Some ==> is_tile(tiles@, top_entity.unwrap()),
    ensures
        final(units)@ == spec_target_tile(top_entity, just_pressed, tiles@, old(units)@),
        final(units)@.len() == old(units)@.len(),
        just_pressed ==> final(targeted_tile).entity is None,
        !just_pressed ==> *final(targeted_tile) == *old(targeted_tile),
        old(targeted_tile).entity is None ==> final(targeted_tile).entity is None,
{
    if !just_pressed {
        return ;
    }
    match top_entity {
        Some(entity) => {
            targeted_tile.entity = Some(entity);
            let tile = match find_tile(tiles, entity) {
                Some(tile) => tile,
                None => vstd::pervasive::unreached(),
            };
            let n = units.len();
            let mut k: usize = 0;
            while k < n
                invariant
                    k <= n,
                    n == old(units)@.len(),
                    units@.len() == n,
                    forall|m: int|
                        0 <= m < k ==> units@[m] == (Unit { target_x: tile.x, target_y: tile.y }),
                decreases n - k,
            {
                units.set(k, Unit { target_x: tile.x, target_y: tile.y });
                k += 1;
            }
            assert(units@ =~= spec_target_tile(top_entity, just_pressed, tiles@, old(units)@));
            targeted_tile.entity = None;
        },
        None => {
            targeted_tile.entity = None;
        },
    }
}

} // verus!
