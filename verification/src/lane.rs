//! Tiled lane layouts.
//!
//! A level's lane is a list of tiles on an integer grid: grass floors
//! (ordinary or with the hole) and walls sitting on a floor tile's edge.
//! Layouts are built by placing blocks of floor and then closing the lane
//! off with walls along every floor edge that has no floor beyond it.

use vstd::prelude::*;

verus! {

/// The edge of a tile that a wall stands on, or the way a wall model is
/// turned.
#[derive(Clone, Copy, Debug, PartialEq, Eq, Hash, Structural)]
pub enum Direction {
    Up,
    Left,
    Down,
    Right,
}

impl Direction {
    /// How many counterclockwise quarter turns about the vertical axis
    /// the wall model is given for a wall on this edge.
    pub fn quarter_turns(&self) -> (r: i32)
        ensures
            self is Up ==> r == 0,
            self is Left ==> r == -1,
            self is Down ==> r == 2,
            self is Right ==> r == 1,
    {
        match self {
            Direction::Up => 0,
            Direction::Left => -1,
            Direction::Down => 2,
            Direction::Right => 1,
        }
    }
}

/// One kind of tile of a lane.
#[derive(Clone, Copy, Debug, PartialEq, Eq, Structural)]
pub enum LanePart {
    BasicFloor,
    HoleFloor,
    Wall(Direction),
}

/// Which of the three lane models a tile is drawn and collided with.
#[derive(Clone, Copy, Debug, PartialEq, Eq, Structural)]
pub enum LaneModel {
    BasicFloor,
    HoleFloor,
    Wall,
}

impl LanePart {
    /// Grass is any floor tile, with or without the hole; balls roll on
    /// grass, and walls stand along its open edges.
    pub open spec fn is_grass(self) -> bool {
        self is BasicFloor || self is HoleFloor
    }

    /// The lane model that this tile is built from.
    pub fn model(&self) -> (r: LaneModel)
        ensures
            self is BasicFloor <==> r is BasicFloor,
            self is HoleFloor <==> r is HoleFloor,
            self is Wall <==> r is Wall,
    {
        match self {
            LanePart::BasicFloor => LaneModel::BasicFloor,
            LanePart::HoleFloor => LaneModel::HoleFloor,
            LanePart::Wall(_) => LaneModel::Wall,
        }
    }
}

/// A tile with the grid square it sits on.
pub type Tile = ((i32, i32), LanePart);

/// Whether the tile `t` is a grass tile on the square `(x, y)`.
pub open spec fn grass_tile_at(t: Tile, x: int, y: int) -> bool {
    t.0.0 == x && t.0.1 == y && t.1.is_grass()
}

/// Whether some tile of `tiles` puts grass on the square `(x, y)`.
pub open spec fn has_grass_at(tiles: Seq<Tile>, x: int, y: int) -> bool {
    exists|i: int| 0 <= i < tiles.len() && grass_tile_at(#[trigger] tiles[i], x, y)
}

/// The square one step from `(x, y)` in direction `dir`.
pub open spec fn neighbor(x: int, y: int, dir: Direction) -> (int, int) {
    match dir {
        Direction::Right => (x + 1, y),
        Direction::Left => (x - 1, y),
        Direction::Up => (x, y + 1),
        Direction::Down => (x, y - 1),
    }
}

/// A wall belongs on the `dir` edge of square `(x, y)` exactly when the
/// square holds grass and the square beyond that edge holds none.
pub open spec fn wall_needed(tiles: Seq<Tile>, x: int, y: int, dir: Direction) -> bool {
    has_grass_at(tiles, x, y) && !has_grass_at(
        tiles,
        neighbor(x, y, dir).0,
        neighbor(x, y, dir).1,
    )
}

/// Whether `e` is a wall entry that [`wall_needed`] asks for over the
/// floor plan `tiles`.
pub open spec fn needed_wall_entry(tiles: Seq<Tile>, e: Tile) -> bool {
    e.1 matches LanePart::Wall(dir) && wall_needed(tiles, e.0.0 as int, e.0.1 as int, dir)
}

/// Whether the walls listed with it close the floor plan `floor` off:
/// `s` keeps `floor` as its prefix and then lists, once each and nothing
/// else, exactly the walls that [`wall_needed`] asks for.
pub open spec fn walled(floor: Seq<Tile>, s: Seq<Tile>) -> bool {
    &&& s.len() >= floor.len()
    &&& s.subrange(0, floor.len() as int) == floor
    &&& forall|j: int|
        floor.len() <= j < s.len() ==> needed_wall_entry(floor, #[trigger] s[j])
    &&& forall|x: int, y: int, dir: Direction|
        #[trigger] wall_needed(floor, x, y, dir) ==> wall_listed(floor, s, x, y, dir)
    &&& forall|j1: int, j2: int| floor.len() <= j1 < j2 < s.len() ==> s[j1] != s[j2]
}

/// Whether `s` lists, after the floor plan, a wall on the `dir` edge of
/// square `(x, y)`.
pub open spec fn wall_listed(
    floor: Seq<Tile>,
    s: Seq<Tile>,
    x: int,
    y: int,
    dir: Direction,
) -> bool {
    exists|j: int|
        floor.len() <= j < s.len() && s[j] == ((x as i32, y as i32), LanePart::Wall(dir))
}

/// Every square of `tiles` lies strictly inside the grid's coordinate
/// range, so each of its four neighbors can be named.
pub open spec fn coords_strictly_inside(tiles: Seq<Tile>) -> bool {
    forall|i: int|
        0 <= i < tiles.len() ==> {
            &&& i32::MIN < (#[trigger] tiles[i]).0.0 < i32::MAX
            &&& i32::MIN < tiles[i].0.1 < i32::MAX
        }
}

/// The nine tiles of a 3-by-3 block centered on `(cx, cy)`: the center
/// square gets `center`, the eight around it get `around`, listed column
/// by column.
pub open spec fn block_3x3(cx: i32, cy: i32, around: LanePart, center: LanePart) -> Seq<Tile> {
    seq![
        ((sub1(cx), sub1(cy)), around),
        ((sub1(cx), cy), around),
        ((sub1(cx), add1(cy)), around),
        ((cx, sub1(cy)), around),
        ((cx, cy), center),
        ((cx, add1(cy)), around),
        ((add1(cx), sub1(cy)), around),
        ((add1(cx), cy), around),
        ((add1(cx), add1(cy)), around),
    ]
}

/// The coordinate one square below or left of `v` (exact when `v` is not
/// the least coordinate).
pub open spec fn sub1(v: i32) -> i32 {
    (v - 1) as i32
}

/// The coordinate one square above or right of `v` (exact when `v` is
/// not the greatest coordinate).
pub open spec fn add1(v: i32) -> i32 {
    (v + 1) as i32
}

/// A lane layout: the tiles of one level's lane, in placement order.
pub struct LaneConfig(pub Vec<Tile>);

impl Default for LaneConfig {
    /// A layout with no tiles yet.
    fn default() -> (r: LaneConfig)
        ensures
            r.0@ == Seq::<Tile>::empty(),
    {
        LaneConfig(Vec::new())
    }
}

impl LaneConfig {
    /// Place the given tiles, in order, after the ones already placed.
    pub fn with(self, tiles: &[Tile]) -> (r: LaneConfig)
        ensures
            r.0@ == self.0@ + tiles@,
    {
        let mut this = self;
        let ghost orig = this.0@;
        let n = tiles.len();
        for i in 0..n
            invariant
                n == tiles@.len(),
                this.0@ == orig + tiles@.take(i as int),
        {
            this.0.push(tiles[i]);
            proof {
                assert(tiles@.take(i + 1) =~= tiles@.take(i as int).push(tiles@[i as int]));
                assert(orig + tiles@.take(i + 1) =~= (orig + tiles@.take(i as int)).push(
                    tiles@[i as int],
                ));
            }
        }
        proof {
            assert(tiles@.take(n as int) =~= tiles@);
        }
        this
    }

    /// Place a 3-by-3 block of tiles centered on `(cx, cy)`: `center` in
    /// the middle, `around` on the eight squares about it.
    pub fn with_3x3(self, cx: i32, cy: i32, around: LanePart, center: LanePart) -> (r:
        LaneConfig)
        requires
            i32::MIN < cx < i32::MAX,
            i32::MIN < cy < i32::MAX,
        ensures
            r.0@ == self.0@ + block_3x3(cx, cy, around, center),
    {
        let mut this = self;
        let ghost orig = this.0@;
        let ghost blk = block_3x3(cx, cy, around, center);
        #[verifier::loop_isolation(false)]
        for dx in -1i32..2i32
            invariant
                this.0@ == orig + blk.take(3 * (dx + 1)),
        {
            #[verifier::loop_isolation(false)]
            for dy in -1i32..2i32
                invariant
                    -1 <= dx < 2,
                    this.0@ == orig + blk.take(3 * (dx + 1) + (dy + 1)),
            {
                let x = cx + dx;
                let y = cy + dy;
                let part = if dx == 0 && dy == 0 {
                    center
                } else {
                    around
                };
                this.0.push(((x, y), part));
                proof {
                    let k = 3 * (dx + 1) + (dy + 1);
                    assert(blk[k] == ((x, y), part));
                    assert(blk.take(k + 1) =~= blk.take(k).push(blk[k]));
                    assert(orig + blk.take(k + 1) =~= (orig + blk.take(k)).push(blk[k]));
                }
            }
        }
        proof {
            assert(blk.take(9) =~= blk);
        }
        this
    }

    /// Close the lane off: after the tiles already placed, add one wall
    /// for every grass edge that has no grass square beyond it, each such
    /// wall exactly once and nothing else, as [`walled`] states.
    #[verifier::rlimit(60)]
    pub fn with_walls_around(self) -> (r: LaneConfig)
        requires
            coords_strictly_inside(self.0@),
        ensures
            walled(self.0@, r.0@),
    {
        let mut this = self;
        let ghost tiles = this.0@;

        let mut grass: Vec<(i32, i32)> = Vec::new();
        let n = this.0.len();
        for i in 0..n
            invariant
                n == tiles.len(),
                this.0@ == tiles,
                coords_strictly_inside(tiles),
                grass_sound(tiles, grass@),
                grass_covered_upto(tiles, grass@, i as int),
                squares_distinct(grass@),
        {
            let ghost grass0 = grass@;
            let t = this.0[i];
            let pos = t.0;
            let grassy = match t.1 {
                LanePart::BasicFloor | LanePart::HoleFloor => true,
                LanePart::Wall(_) => false,
            };
            if grassy {
                if !contains_pos(&grass, pos) {
                    grass.push(pos);
                    proof {
                        // the new square really holds grass
                        assert(grass_tile_at(tiles[i as int], pos.0 as int, pos.1 as int));
                        assert(has_grass_at(tiles, pos.0 as int, pos.1 as int));
                        assert(grass@[grass@.len() - 1] == pos);
                        assert(pos_in(grass@, grass@.len() as int, pos.0 as int, pos.1 as int));
                        // it was not listed before, so the list stays distinct
                        assert forall|j: int, k: int|
                            0 <= j < k < grass@.len() implies grass@[j] != grass@[k] by {
                            if k < grass@.len() - 1 {
                                assert(grass0[j] != grass0[k]);
                            } else if grass0[j] == pos {
                                assert((grass0[j]).0 == pos.0 as int && grass0[j].1
                                    == pos.1 as int);
                                assert(pos_in(grass0, grass0.len() as int, pos.0 as int,
                                    pos.1 as int));
                            }
                        }
                        // squares listed before keep their places
                        assert forall|x: int, y: int|
                            #[trigger] pos_in(grass0, grass0.len() as int, x, y) implies pos_in(
                            grass@,
                            grass@.len() as int,
                            x,
                            y,
                        ) by {
                            let k = choose|k: int|
                                0 <= k < grass0.len() && (#[trigger] grass0[k]).0 == x
                                    && grass0[k].1 == y;
                            assert((grass@[k]).0 == x && grass@[k].1 == y);
                        }
                    }
                } else {
                    proof {
                        assert(pos_in(grass@, grass@.len() as int, pos.0 as int, pos.1 as int));
                    }
                }
            }
            proof {
                assert forall|w: int|
                    0 <= w < i + 1 && (#[trigger] tiles[w]).1.is_grass() implies pos_in(
                    grass@,
                    grass@.len() as int,
                    tiles[w].0.0 as int,
                    tiles[w].0.1 as int,
                ) by {
                    if w < i {
                        assert(pos_in(grass0, grass0.len() as int, tiles[w].0.0 as int,
                            tiles[w].0.1 as int));
                    } else {
                        assert(tiles[w] == t);
                    }
                }
                assert(grass_covered_upto(tiles, grass@, i + 1));
            }
        }

        proof {
            // the grass list now holds exactly the grass squares
            assert forall|x: int, y: int| #[trigger] has_grass_at(tiles, x, y) implies pos_in(
                grass@,
                grass@.len() as int,
                x,
                y,
            ) by {
                let w = choose|w: int|
                    0 <= w < tiles.len() && grass_tile_at(#[trigger] tiles[w], x, y);
                assert(tiles[w].1.is_grass());
            }
            assert(grass_exact(tiles, grass@));
            // every listed square lies strictly inside the grid
            assert forall|k: int| 0 <= k < grass@.len() implies i32::MIN
                < (#[trigger] grass@[k]).0 < i32::MAX && i32::MIN < grass@[k].1 < i32::MAX by {
                assert(has_grass_at(tiles, grass@[k].0 as int, grass@[k].1 as int));
                let w = choose|w: int|
                    0 <= w < tiles.len() && grass_tile_at(
                        #[trigger] tiles[w],
                        grass@[k].0 as int,
                        grass@[k].1 as int,
                    );
                assert(i32::MIN < tiles[w].0.0 < i32::MAX && i32::MIN < tiles[w].0.1 < i32::MAX);
            }
        }

        let g = grass.len();
        for k in 0..g
            invariant
                g == grass@.len(),
                coords_strictly_inside(tiles),
                grass_sound(tiles, grass@),
                grass_exact(tiles, grass@),
                squares_distinct(grass@),
                squares_inside(grass@),
                this.0@.len() >= tiles.len(),
                this.0@.subrange(0, tiles.len() as int) == tiles,
                forall|j: int|
                    tiles.len() <= j < this.0@.len() ==> needed_wall_entry(
                        tiles,
                        #[trigger] this.0@[j],
                    ),
                walls_done_upto(tiles, grass@, this.0@, k as int),
                forall|j: int|
                    tiles.len() <= j < this.0@.len() ==> appended_from(
                        grass@,
                        k as int,
                        #[trigger] this.0@[j],
                    ),
                forall|j1: int, j2: int|
                    tiles.len() <= j1 < j2 < this.0@.len() ==> this.0@[j1] != this.0@[j2],
        {
            let p = grass[k];
            let x = p.0;
            let y = p.1;
            let ghost s0 = this.0@;
            let ghost gx = x as int;
            let ghost gy = y as int;
            let ghost e_right: Tile = ((x, y), LanePart::Wall(Direction::Right));
            let ghost e_left: Tile = ((x, y), LanePart::Wall(Direction::Left));
            let ghost e_up: Tile = ((x, y), LanePart::Wall(Direction::Up));
            let ghost e_down: Tile = ((x, y), LanePart::Wall(Direction::Down));

            let need_r = !contains_pos(&grass, (x + 1, y));
            if need_r {
                this.0.push(((x, y), LanePart::Wall(Direction::Right)));
            }
            let ghost s1 = this.0@;
            let need_l = !contains_pos(&grass, (x - 1, y));
            if need_l {
                this.0.push(((x, y), LanePart::Wall(Direction::Left)));
            }
            let ghost s2 = this.0@;
            let need_u = !contains_pos(&grass, (x, y + 1));
            if need_u {
                this.0.push(((x, y), LanePart::Wall(Direction::Up)));
            }
            let ghost s3 = this.0@;
            let need_d = !contains_pos(&grass, (x, y - 1));
            if need_d {
                this.0.push(((x, y), LanePart::Wall(Direction::Down)));
            }

            proof {
                let len0 = s0.len() as int;
                assert(grass@[k as int] == p);
                assert(has_grass_at(tiles, gx, gy));

                // places below each stage's end are kept by the later pushes
                assert forall|j: int| 0 <= j < s1.len() implies s1[j] == #[trigger] this.0@[j] by {}
                assert forall|j: int| 0 <= j < s2.len() implies s2[j] == #[trigger] this.0@[j] by {}
                assert forall|j: int| 0 <= j < s3.len() implies s3[j] == #[trigger] this.0@[j] by {}
                assert(this.0@.subrange(0, tiles.len() as int) =~= tiles);

                // a square is in the grass list exactly when it holds grass
                assert forall|x3: int, y3: int|
                    #[trigger] pos_in(grass@, g as int, x3, y3) implies has_grass_at(
                    tiles,
                    x3,
                    y3,
                ) by {
                    let k2 = choose|k2: int|
                        0 <= k2 < g && (#[trigger] grass@[k2]).0 == x3 && grass@[k2].1 == y3;
                    assert(has_grass_at(tiles, grass@[k2].0 as int, grass@[k2].1 as int));
                }
                assert(need_r <==> wall_needed(tiles, gx, gy, Direction::Right));
                assert(need_l <==> wall_needed(tiles, gx, gy, Direction::Left));
                assert(need_u <==> wall_needed(tiles, gx, gy, Direction::Up));
                assert(need_d <==> wall_needed(tiles, gx, gy, Direction::Down));

                // where each pushed wall now stands
                assert(need_r ==> this.0@[len0] == e_right);
                assert(need_l ==> this.0@[s1.len() as int] == e_left);
                assert(need_u ==> this.0@[s2.len() as int] == e_up);
                assert(need_d ==> this.0@[s3.len() as int] == e_down);

                // every appended entry is a needed wall on a listed square
                assert forall|j: int| tiles.len() <= j < this.0@.len() implies needed_wall_entry(
                    tiles,
                    #[trigger] this.0@[j],
                ) && appended_from(grass@, k + 1, this.0@[j]) by {
                    if j < len0 {
                        assert(this.0@[j] == s0[j]);
                        assert(appended_from(grass@, k as int, s0[j]));
                        let k2 = choose|k2: int|
                            0 <= k2 < k && #[trigger] grass@[k2] == s0[j].0;
                        assert(0 <= k2 < k + 1 && grass@[k2] == this.0@[j].0);
                    } else {
                        assert(this.0@[j].0 == p);
                        assert(grass@[k as int] == this.0@[j].0);
                    }
                }

                // every wall on a square listed so far stands in the lane
                assert forall|x2: int, y2: int, dir: Direction|
                    #[trigger] wall_needed(tiles, x2, y2, dir) && pos_in(
                        grass@,
                        k + 1,
                        x2,
                        y2,
                    ) implies wall_listed(tiles, this.0@, x2, y2, dir) by {
                    if pos_in(grass@, k as int, x2, y2) {
                        let j = choose|j: int|
                            tiles.len() <= j < s0.len() && s0[j] == ((x2 as i32, y2 as i32),
                            LanePart::Wall(dir));
                        assert(this.0@[j] == ((x2 as i32, y2 as i32), LanePart::Wall(dir)));
                    } else {
                        let k2 = choose|k2: int|
                            0 <= k2 < k + 1 && (#[trigger] grass@[k2]).0 == x2 && grass@[k2].1
                                == y2;
                        assert(k2 == k);
                        assert(x2 == gx && y2 == gy);
                        match dir {
                            Direction::Right => {
                                assert(this.0@[len0] == e_right);
                            },
                            Direction::Left => {
                                assert(this.0@[s1.len() as int] == e_left);
                            },
                            Direction::Up => {
                                assert(this.0@[s2.len() as int] == e_up);
                            },
                            Direction::Down => {
                                assert(this.0@[s3.len() as int] == e_down);
                            },
                        }
                    }
                }
                assert(walls_done_upto(tiles, grass@, this.0@, k + 1));

                // no wall is listed twice
                assert forall|j1: int, j2: int|
                    tiles.len() <= j1 < j2 < this.0@.len() implies this.0@[j1]
                    != this.0@[j2] by {
                    if j2 < len0 {
                        assert(this.0@[j1] == s0[j1] && this.0@[j2] == s0[j2]);
                    } else if j1 >= len0 {
                        // both are new: same square, four distinct directions
                    } else {
                        // an earlier wall sits on an earlier square of the
                        // grass list, and the listed squares are distinct
                        assert(this.0@[j1] == s0[j1]);
                        assert(appended_from(grass@, k as int, s0[j1]));
                        let k2 = choose|k2: int|
                            0 <= k2 < k && #[trigger] grass@[k2] == s0[j1].0;
                        assert(grass@[k2] != grass@[k as int]);
                        assert(this.0@[j2].0 == p);
                    }
                }
            }
        }

        proof {
            assert forall|x: int, y: int, dir: Direction| #[trigger]
                wall_needed(tiles, x, y, dir) implies wall_listed(tiles, this.0@, x, y, dir) by {
                assert(has_grass_at(tiles, x, y));
                assert(pos_in(grass@, grass@.len() as int, x, y));
            }
        }
        this
    }
}

/// The floor plan of the first level: a straight run of 3-by-3 grass
/// blocks with two corners, ending on a block whose center is the hole.
pub open spec fn level1_floor() -> Seq<Tile> {
    block_3x3(0, 0, LanePart::BasicFloor, LanePart::BasicFloor) + block_3x3(
        0,
        3,
        LanePart::BasicFloor,
        LanePart::BasicFloor,
    ) + block_3x3(0, 6, LanePart::BasicFloor, LanePart::BasicFloor) + block_3x3(
        0,
        9,
        LanePart::BasicFloor,
        LanePart::BasicFloor,
    ) + block_3x3(3, 9, LanePart::BasicFloor, LanePart::BasicFloor) + block_3x3(
        6,
        9,
        LanePart::BasicFloor,
        LanePart::BasicFloor,
    ) + block_3x3(6, 12, LanePart::BasicFloor, LanePart::HoleFloor)
}

/// The lane layouts of the game's levels.
pub struct Lanes {
    pub level1: LaneConfig,
}

impl Default for Lanes {
    /// The first level: its floor is [`level1_floor`], closed off with
    /// walls along every open grass edge.
    fn default() -> (r: Lanes)
        ensures
            walled(level1_floor(), r.level1.0@),
    {
        let cfg = LaneConfig::default()
            .with_3x3(0, 0, LanePart::BasicFloor, LanePart::BasicFloor)
            .with_3x3(0, 3, LanePart::BasicFloor, LanePart::BasicFloor)
            .with_3x3(0, 6, LanePart::BasicFloor, LanePart::BasicFloor)
            .with_3x3(0, 9, LanePart::BasicFloor, LanePart::BasicFloor)
            .with_3x3(3, 9, LanePart::BasicFloor, LanePart::BasicFloor)
            .with_3x3(6, 9, LanePart::BasicFloor, LanePart::BasicFloor)
            .with_3x3(6, 12, LanePart::BasicFloor, LanePart::HoleFloor);
        proof {
            assert(cfg.0@ =~= level1_floor());
            lemma_block_inside(0, 0, LanePart::BasicFloor, LanePart::BasicFloor);
            lemma_block_inside(0, 3, LanePart::BasicFloor, LanePart::BasicFloor);
            lemma_block_inside(0, 6, LanePart::BasicFloor, LanePart::BasicFloor);
            lemma_block_inside(0, 9, LanePart::BasicFloor, LanePart::BasicFloor);
            lemma_block_inside(3, 9, LanePart::BasicFloor, LanePart::BasicFloor);
            lemma_block_inside(6, 9, LanePart::BasicFloor, LanePart::BasicFloor);
            lemma_block_inside(6, 12, LanePart::BasicFloor, LanePart::HoleFloor);
            lemma_inside_concat(
                block_3x3(0, 0, LanePart::BasicFloor, LanePart::BasicFloor),
                block_3x3(0, 3, LanePart::BasicFloor, LanePart::BasicFloor),
            );
            lemma_inside_concat(
                block_3x3(0, 0, LanePart::BasicFloor, LanePart::BasicFloor) + block_3x3(
                    0,
                    3,
                    LanePart::BasicFloor,
                    LanePart::BasicFloor,
                ),
                block_3x3(0, 6, LanePart::BasicFloor, LanePart::BasicFloor),
            );
            lemma_inside_concat(
                block_3x3(0, 0, LanePart::BasicFloor, LanePart::BasicFloor) + block_3x3(
                    0,
                    3,
                    LanePart::BasicFloor,
                    LanePart::BasicFloor,
                ) + block_3x3(0, 6, LanePart::BasicFloor, LanePart::BasicFloor),
                block_3x3(0, 9, LanePart::BasicFloor, LanePart::BasicFloor),
            );
            lemma_inside_concat(
                block_3x3(0, 0, LanePart::BasicFloor, LanePart::BasicFloor) + block_3x3(
                    0,
                    3,
                    LanePart::BasicFloor,
                    LanePart::BasicFloor,
                ) + block_3x3(0, 6, LanePart::BasicFloor, LanePart::BasicFloor) + block_3x3(
                    0,
                    9,
                    LanePart::BasicFloor,
                    LanePart::BasicFloor,
                ),
                block_3x3(3, 9, LanePart::BasicFloor, LanePart::BasicFloor),
            );
            lemma_inside_concat(
                block_3x3(0, 0, LanePart::BasicFloor, LanePart::BasicFloor) + block_3x3(
                    0,
                    3,
                    LanePart::BasicFloor,
                    LanePart::BasicFloor,
                ) + block_3x3(0, 6, LanePart::BasicFloor, LanePart::BasicFloor) + block_3x3(
                    0,
                    9,
                    LanePart::BasicFloor,
                    LanePart::BasicFloor,
                ) + block_3x3(3, 9, LanePart::BasicFloor, LanePart::BasicFloor),
                block_3x3(6, 9, LanePart::BasicFloor, LanePart::BasicFloor),
            );
            lemma_inside_concat(
                block_3x3(0, 0, LanePart::BasicFloor, LanePart::BasicFloor) + block_3x3(
                    0,
                    3,
                    LanePart::BasicFloor,
                    LanePart::BasicFloor,
                ) + block_3x3(0, 6, LanePart::BasicFloor, LanePart::BasicFloor) + block_3x3(
                    0,
                    9,
                    LanePart::BasicFloor,
                    LanePart::BasicFloor,
                ) + block_3x3(3, 9, LanePart::BasicFloor, LanePart::BasicFloor) + block_3x3(
                    6,
                    9,
                    LanePart::BasicFloor,
                    LanePart::BasicFloor,
                ),
                block_3x3(6, 12, LanePart::BasicFloor, LanePart::HoleFloor),
            );
            assert(coords_strictly_inside(cfg.0@));
        }
        Lanes { level1: cfg.with_walls_around() }
    }
}

/// Every square of a 3-by-3 block lies strictly inside the grid when its
/// center does so with one square to spare.
proof fn lemma_block_inside(cx: i32, cy: i32, around: LanePart, center: LanePart)
    requires
        i32::MIN + 1 < cx < i32::MAX - 1,
        i32::MIN + 1 < cy < i32::MAX - 1,
    ensures
        coords_strictly_inside(block_3x3(cx, cy, around, center)),
{
    let blk = block_3x3(cx, cy, around, center);
    assert forall|i: int| 0 <= i < blk.len() implies i32::MIN < (#[trigger] blk[i]).0.0
        < i32::MAX && i32::MIN < blk[i].0.1 < i32::MAX by {
        assert(blk[i].0.0 == sub1(cx) || blk[i].0.0 == cx || blk[i].0.0 == add1(cx));
        assert(blk[i].0.1 == sub1(cy) || blk[i].0.1 == cy || blk[i].0.1 == add1(cy));
    }
}

/// Strict insideness carries over a concatenation.
proof fn lemma_inside_concat(a: Seq<Tile>, b: Seq<Tile>)
    requires
        coords_strictly_inside(a),
        coords_strictly_inside(b),
    ensures
        coords_strictly_inside(a + b),
{
    assert forall|i: int| 0 <= i < (a + b).len() implies i32::MIN < (#[trigger] (a + b)[i]).0.0
        < i32::MAX && i32::MIN < (a + b)[i].0.1 < i32::MAX by {
        if i < a.len() {
            assert((a + b)[i] == a[i]);
            assert(i32::MIN < a[i].0.0 < i32::MAX && i32::MIN < a[i].0.1 < i32::MAX);
        } else {
            assert((a + b)[i] == b[i - a.len()]);
            assert(i32::MIN < b[i - a.len()].0.0 < i32::MAX && i32::MIN < b[i - a.len()].0.1
                < i32::MAX);
        }
    }
}

/// Whether the first `m` squares of `g` include the square `(x, y)`.
pub open spec fn pos_in(g: Seq<(i32, i32)>, m: int, x: int, y: int) -> bool {
    exists|k: int| 0 <= k < m && (#[trigger] g[k]).0 == x && g[k].1 == y
}

/// Every square of `g` holds grass in `tiles`.
spec fn grass_sound(tiles: Seq<Tile>, g: Seq<(i32, i32)>) -> bool {
    forall|k: int|
        0 <= k < g.len() ==> has_grass_at(tiles, (#[trigger] g[k]).0 as int, g[k].1 as int)
}

/// Every grass square among the first `m` tiles is listed in `g`.
spec fn grass_covered_upto(tiles: Seq<Tile>, g: Seq<(i32, i32)>, m: int) -> bool {
    forall|w: int|
        0 <= w < m && (#[trigger] tiles[w]).1.is_grass() ==> pos_in(
            g,
            g.len() as int,
            tiles[w].0.0 as int,
            tiles[w].0.1 as int,
        )
}

/// Every square that holds grass in `tiles` is listed in `g`.
spec fn grass_exact(tiles: Seq<Tile>, g: Seq<(i32, i32)>) -> bool {
    forall|x: int, y: int|
        #[trigger] has_grass_at(tiles, x, y) ==> pos_in(g, g.len() as int, x, y)
}

/// No square appears twice in `g`.
spec fn squares_distinct(g: Seq<(i32, i32)>) -> bool {
    forall|j: int, k: int| 0 <= j < k < g.len() ==> g[j] != g[k]
}

/// Every square of `g` lies strictly inside the grid's coordinate range.
spec fn squares_inside(g: Seq<(i32, i32)>) -> bool {
    forall|k: int|
        0 <= k < g.len() ==> i32::MIN < (#[trigger] g[k]).0 < i32::MAX && i32::MIN < g[k].1
            < i32::MAX
}

/// Every wall needed on one of the first `m` squares of `g` is listed in
/// `s` after the floor plan.
spec fn walls_done_upto(tiles: Seq<Tile>, g: Seq<(i32, i32)>, s: Seq<Tile>, m: int) -> bool {
    forall|x: int, y: int, dir: Direction|
        #[trigger] wall_needed(tiles, x, y, dir) && pos_in(g, m, x, y) ==> wall_listed(
            tiles,
            s,
            x,
            y,
            dir,
        )
}

/// Whether `e` sits on one of the first `m` squares of the grass list
/// `g`; ties each appended wall to the square it was added for.
spec fn appended_from(g: Seq<(i32, i32)>, m: int, e: Tile) -> bool {
    exists|k: int| 0 <= k < m && #[trigger] g[k] == e.0
}

/// Whether the square list `v` holds the square `p`.
fn contains_pos(v: &Vec<(i32, i32)>, p: (i32, i32)) -> (b: bool)
    ensures
        b <==> pos_in(v@, v@.len() as int, p.0 as int, p.1 as int),
{
    let n = v.len();
    for i in 0..n
        invariant
            n == v@.len(),
            forall|k: int| 0 <= k < i ==> !((#[trigger] v@[k]).0 == p.0 && v@[k].1 == p.1),
    {
        let q = v[i];
        if q.0 == p.0 && q.1 == p.1 {
            proof {
                assert((v@[i as int]).0 == p.0 as int && v@[i as int].1 == p.1 as int);
            }
            return true;
        }
    }
    false
}

} // verus!
