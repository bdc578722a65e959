//! Tile definitions: tilesets as read from resource files, and tiles built from them.
use vstd::prelude::*;

use crate::error::{unable_to_create_error, ResourceError, ResourceErrorView};
use crate::id_map::IdMap;
use crate::point::Point;
use vstd::std_specs::cmp::PartialEqSpecImpl;
use vstd::seq_lib::{lemma_seq_concat_contains_all_elements, lemma_seq_contains_after_push};

verus! {

/// A set of tiles that share one size, layer, and passability and visibility.
#[derive(Debug)]
pub struct UniformSet {
    pub size: [usize; 2],
    pub layer: String,
    pub sprite_prefix: String,
    pub impass: Vec<Vec<usize>>,
    pub invis: Vec<Vec<usize>>,
    pub tiles: Vec<String>,
}

/// A set of tiles that share one size and layer, each with its own
/// passability and visibility.
#[derive(Debug)]
pub struct NonUniformSet {
    pub size: [usize; 2],
    pub layer: String,
    pub sprite_prefix: String,
    pub tiles: IdMap<ImpassInvis>,
}

/// The impassable and invisible points of one tile of a non-uniform set.
#[derive(Debug)]
pub struct ImpassInvis {
    pub impass: Option<Vec<Vec<usize>>>,
    pub invis: Option<Vec<Vec<usize>>>,
}

/// The definition of a single tile.
#[derive(Debug)]
pub struct TileBuilder {
    pub size: [usize; 2],
    pub layer: String,
    pub sprite: String,
    pub impass: Option<Vec<Vec<usize>>>,
    pub invis: Option<Vec<Vec<usize>>>,
    pub pass: Option<Vec<Vec<usize>>>,
    pub vis: Option<Vec<Vec<usize>>>,
    pub override_impass: Option<bool>,
}

/// How walls are laid out.
#[derive(Debug, Clone)]
pub struct WallRules {
    pub grid_width: u32,
    pub grid_height: u32,
    pub layers: Vec<String>,
    pub prefix: String,
    pub edges: EdgeRules,
}

/// The postfixes that name the edge tiles of walls and terrain.
#[derive(Debug, Clone)]
pub struct EdgeRules {
    pub inner_edge_postfix: String,
    pub outer_edge_postfix: String,
    pub n_postfix: String,
    pub s_postfix: String,
    pub e_postfix: String,
    pub w_postfix: String,
    pub ne_postfix: String,
    pub se_postfix: String,
    pub nw_postfix: String,
    pub sw_postfix: String,
}

/// A kind of wall.
#[derive(Debug, Clone)]
pub struct WallKind {
    pub id: String,
    pub base_tile: String,
    pub fill_tile: Option<String>,
    pub extended: Vec<String>,
}

/// How terrain is laid out.
#[derive(Debug, Clone)]
pub struct TerrainRules {
    pub grid_width: u32,
    pub grid_height: u32,
    pub base_layer: String,
    pub border_layer: String,
    pub prefix: String,
    pub base_postfix: String,
    pub variant_postfix: String,
    pub base_weight: u32,
    pub edges: EdgeRules,
}

/// A kind of terrain.
#[derive(Debug)]
pub struct TerrainKind {
    pub id: String,
    pub variants: Vec<i32>,
    pub borders: IdMap<String>,
    pub base_weight: Option<u32>,
}

/// A tileset as read from a resource file.
#[derive(Debug)]
pub struct Tileset {
    pub id: String,
    pub tiles: IdMap<TileBuilder>,
    pub uniform_sets: IdMap<UniformSet>,
    pub non_uniform_sets: IdMap<NonUniformSet>,
    pub terrain_rules: TerrainRules,
    pub terrain_kinds: Vec<TerrainKind>,
    pub wall_rules: WallRules,
    pub wall_kinds: Vec<WallKind>,
}

/// A list of points, each a list of coordinates.
pub type PointList = Seq<Seq<usize>>;

/// A [`UniformSet`] with its strings and lists taken by their views.
pub struct UniformSetView {
    pub size: [usize; 2],
    pub layer: Seq<char>,
    pub sprite_prefix: Seq<char>,
    pub impass: PointList,
    pub invis: PointList,
    pub tiles: Seq<Seq<char>>,
}

/// An [`ImpassInvis`] with its lists taken by their views.
pub struct ImpassInvisView {
    pub impass: Option<PointList>,
    pub invis: Option<PointList>,
}

/// A [`NonUniformSet`] with its strings taken by their views and its tiles in order.
pub struct NonUniformSetView {
    pub size: [usize; 2],
    pub layer: Seq<char>,
    pub sprite_prefix: Seq<char>,
    pub tiles: Seq<(Seq<char>, ImpassInvisView)>,
}

/// A [`TileBuilder`] with its strings and lists taken by their views.
pub struct TileBuilderView {
    pub size: [usize; 2],
    pub layer: Seq<char>,
    pub sprite: Seq<char>,
    pub impass: Option<PointList>,
    pub invis: Option<PointList>,
    pub pass: Option<PointList>,
    pub vis: Option<PointList>,
    pub override_impass: Option<bool>,
}

impl View for UniformSet {
    type V = UniformSetView;

    open spec fn view(&self) -> UniformSetView {
        UniformSetView {
            size: self.size,
            layer: self.layer@,
            sprite_prefix: self.sprite_prefix@,
            impass: self.impass.deep_view(),
            invis: self.invis.deep_view(),
            tiles: self.tiles.deep_view(),
        }
    }
}

impl View for ImpassInvis {
    type V = ImpassInvisView;

    open spec fn view(&self) -> ImpassInvisView {
        ImpassInvisView { impass: self.impass.deep_view(), invis: self.invis.deep_view() }
    }
}

impl View for NonUniformSet {
    type V = NonUniformSetView;

    open spec fn view(&self) -> NonUniformSetView {
        NonUniformSetView {
            size: self.size,
            layer: self.layer@,
            sprite_prefix: self.sprite_prefix@,
            tiles: self.tiles.pairs(),
        }
    }
}

impl View for TileBuilder {
    type V = TileBuilderView;

    open spec fn view(&self) -> TileBuilderView {
        TileBuilderView {
            size: self.size,
            layer: self.layer@,
            sprite: self.sprite@,
            impass: self.impass.deep_view(),
            invis: self.invis.deep_view(),
            pass: self.pass.deep_view(),
            vis: self.vis.deep_view(),
            override_impass: self.override_impass,
        }
    }
}

/// `None` for an empty list, else the list.
pub open spec fn nonempty(list: PointList) -> Option<PointList> {
    if list.len() == 0 {
        None
    } else {
        Some(list)
    }
}

/// The definition of the tile `tile_id` of a uniform set: it is named by the
/// set's sprite prefix followed by the tile id, and has the set's size, layer,
/// and impassable and invisible points (none where the set lists none).
pub open spec fn uniform_tile(u: UniformSetView, tile_id: Seq<char>) -> TileBuilderView {
    TileBuilderView {
        size: u.size,
        layer: u.layer,
        sprite: u.sprite_prefix + tile_id,
        impass: nonempty(u.impass),
        invis: nonempty(u.invis),
        pass: None,
        vis: None,
        override_impass: None,
    }
}

/// `tiles` after the tiles `ids` of the uniform set `u` have been added in order.
pub open spec fn add_uniform_tiles(
    tiles: Map<Seq<char>, TileBuilderView>,
    u: UniformSetView,
    ids: Seq<Seq<char>>,
) -> Map<Seq<char>, TileBuilderView>
    decreases ids.len(),
{
    if ids.len() == 0 {
        tiles
    } else {
        add_uniform_tiles(tiles, u, ids.drop_last()).insert(
            u.sprite_prefix + ids.last(),
            uniform_tile(u, ids.last()),
        )
    }
}

/// `tiles` after all tiles of the uniform sets `sets` have been added in order.
pub open spec fn add_uniform_sets(
    tiles: Map<Seq<char>, TileBuilderView>,
    sets: Seq<(Seq<char>, UniformSetView)>,
) -> Map<Seq<char>, TileBuilderView>
    decreases sets.len(),
{
    if sets.len() == 0 {
        tiles
    } else {
        let u = sets.last().1;
        add_uniform_tiles(add_uniform_sets(tiles, sets.drop_last()), u, u.tiles)
    }
}

/// The definition of the tile `tile_id` of a non-uniform set: it is named by
/// the set's sprite prefix followed by the tile id, and has the set's size and
/// layer and its own impassable and invisible points.
pub open spec fn non_uniform_tile(
    n: NonUniformSetView,
    tile_id: Seq<char>,
    points: ImpassInvisView,
) -> TileBuilderView {
    TileBuilderView {
        size: n.size,
        layer: n.layer,
        sprite: n.sprite_prefix + tile_id,
        impass: points.impass,
        invis: points.invis,
        pass: None,
        vis: None,
        override_impass: None,
    }
}

/// `tiles` after the tiles `entries` of the non-uniform set `n` have been added in order.
pub open spec fn add_non_uniform_tiles(
    tiles: Map<Seq<char>, TileBuilderView>,
    n: NonUniformSetView,
    entries: Seq<(Seq<char>, ImpassInvisView)>,
) -> Map<Seq<char>, TileBuilderView>
    decreases entries.len(),
{
    if entries.len() == 0 {
        tiles
    } else {
        let e = entries.last();
        add_non_uniform_tiles(tiles, n, entries.drop_last()).insert(
            n.sprite_prefix + e.0,
            non_uniform_tile(n, e.0, e.1),
        )
    }
}

/// `tiles` after all tiles of the non-uniform sets `sets` have been added in order.
pub open spec fn add_non_uniform_sets(
    tiles: Map<Seq<char>, TileBuilderView>,
    sets: Seq<(Seq<char>, NonUniformSetView)>,
) -> Map<Seq<char>, TileBuilderView>
    decreases sets.len(),
{
    if sets.len() == 0 {
        tiles
    } else {
        let n = sets.last().1;
        add_non_uniform_tiles(add_non_uniform_sets(tiles, sets.drop_last()), n, n.tiles)
    }
}

/// A copy of a list of coordinates.
fn copy_coords(v: &Vec<usize>) -> (r: Vec<usize>)
    ensures
        r@ == v@,
{
    let mut r: Vec<usize> = Vec::new();
    let n = v.len();
    let mut i: usize = 0;
    while i < n
        invariant
            n == v@.len(),
            i <= n,
            r@ == v@.take(i as int),
        decreases n - i,
    {
        r.push(v[i]);
        i = i + 1;
        assert(r@ =~= v@.take(i as int));
    }
    assert(v@.take(n as int) =~= v@);
    r
}

/// A copy of a list of points.
fn copy_points(v: &Vec<Vec<usize>>) -> (r: Vec<Vec<usize>>)
    ensures
        r.deep_view() == v.deep_view(),
{
    let mut r: Vec<Vec<usize>> = Vec::new();
    let n = v.len();
    let mut i: usize = 0;
    while i < n
        invariant
            n == v@.len(),
            i <= n,
            r@.len() == i,
            forall|k: int| 0 <= k < i ==> (#[trigger] r@[k])@ == v@[k]@,
        decreases n - i,
    {
        let c = copy_coords(&v[i]);
        r.push(c);
        i = i + 1;
    }
    assert forall|k: int| 0 <= k < n implies (#[trigger] r@[k]).deep_view() == v@[k].deep_view() by {
        assert(r@[k].deep_view() =~= v@[k].deep_view());
    }
    assert(r.deep_view() =~= v.deep_view());
    r
}

/// A copy of an optional list of points.
fn copy_opt_points(v: &Option<Vec<Vec<usize>>>) -> (r: Option<Vec<Vec<usize>>>)
    ensures
        r.deep_view() == v.deep_view(),
{
    match v {
        Some(p) => Some(copy_points(p)),
        None => None,
    }
}

/// The points of a uniform set's list, or none where the list is empty.
fn nonempty_points(v: &Vec<Vec<usize>>) -> (r: Option<Vec<Vec<usize>>>)
    ensures
        r.deep_view() == nonempty(v.deep_view()),
{
    if v.len() == 0 {
        None
    } else {
        Some(copy_points(v))
    }
}

impl Tileset {
    /// The two tilesets agree on every field but `tiles`.
    pub open spec fn same_but_tiles(&self, other: Tileset) -> bool {
        &&& self.id == other.id
        &&& self.uniform_sets == other.uniform_sets
        &&& self.non_uniform_sets == other.non_uniform_sets
        &&& self.terrain_rules == other.terrain_rules
        &&& self.terrain_kinds == other.terrain_kinds
        &&& self.wall_rules == other.wall_rules
        &&& self.wall_kinds == other.wall_kinds
    }

    /// Adds the tiles of all uniform and non-uniform sets to `tiles`.
    pub fn move_tiles(&mut self)
        ensures
            final(self).tiles.map() == add_non_uniform_sets(
                add_uniform_sets(old(self).tiles.map(), old(self).uniform_sets.pairs()),
                old(self).non_uniform_sets.pairs(),
            ),
            final(self).same_but_tiles(*old(self)),
    {
        self.move_uniform();
        self.move_non_uniform();
    }

    /// Adds a definition to `tiles` for each tile of each uniform set, in order.
    /// A tile is named by its set's sprite prefix followed by its id; a name
    /// already present in `tiles` is given the new definition.
    pub fn move_uniform(&mut self)
        ensures
            final(self).tiles.map() == add_uniform_sets(old(self).tiles.map(), old(self).uniform_sets.pairs()),
            final(self).same_but_tiles(*old(self)),
    {
        let ghost tiles0 = self.tiles.map();
        let ghost sets = self.uniform_sets.pairs();
        let n = self.uniform_sets.len();
        let mut i: usize = 0;
        while i < n
            invariant
                n == sets.len(),
                i <= n,
                sets == self.uniform_sets.pairs(),
                self.tiles.map() == add_uniform_sets(tiles0, sets.take(i as int)),
                self.same_but_tiles(*old(self)),
            decreases n - i,
        {
            let uniform = self.uniform_sets.value_at(i);
            let ghost u = uniform@;
            let ghost before = self.tiles.map();
            let impass = nonempty_points(&uniform.impass);
            let invis = nonempty_points(&uniform.invis);
            let nt = uniform.tiles.len();
            let mut j: usize = 0;
            while j < nt
                invariant
                    nt == u.tiles.len(),
                    j <= nt,
                    u == uniform@,
                    impass.deep_view() == nonempty(u.impass),
                    invis.deep_view() == nonempty(u.invis),
                    self.tiles.map() == add_uniform_tiles(before, u, u.tiles.take(j as int)),
                    self.same_but_tiles(*old(self)),
                decreases nt - j,
            {
                let id = uniform.sprite_prefix.clone().concat(uniform.tiles[j].as_str());
                let tile = TileBuilder {
                    size: uniform.size,
                    layer: uniform.layer.clone(),
                    sprite: id.clone(),
                    impass: copy_opt_points(&impass),
                    invis: copy_opt_points(&invis),
                    pass: None,
                    vis: None,
                    override_impass: None,
                };
                assert(u.tiles[j as int] == uniform.tiles@[j as int]@);
                assert(tile@ == uniform_tile(u, u.tiles[j as int]));
                self.tiles.insert(id, tile);
                assert(u.tiles.take(j + 1).drop_last() =~= u.tiles.take(j as int));
                j = j + 1;
            }
            assert(u.tiles.take(nt as int) =~= u.tiles);
            assert(sets.take(i + 1).drop_last() =~= sets.take(i as int));
            i = i + 1;
        }
        assert(sets.take(n as int) =~= sets);
    }

    /// Adds a definition to `tiles` for each tile of each non-uniform set, in
    /// order. A tile is named by its set's sprite prefix followed by its id; a
    /// name already present in `tiles` is given the new definition.
    pub fn move_non_uniform(&mut self)
        ensures
            final(self).tiles.map() == add_non_uniform_sets(old(self).tiles.map(), old(self).non_uniform_sets.pairs()),
            final(self).same_but_tiles(*old(self)),
    {
        let ghost tiles0 = self.tiles.map();
        let ghost sets = self.non_uniform_sets.pairs();
        let n = self.non_uniform_sets.len();
        let mut i: usize = 0;
        while i < n
            invariant
                n == sets.len(),
                i <= n,
                sets == self.non_uniform_sets.pairs(),
                self.tiles.map() == add_non_uniform_sets(tiles0, sets.take(i as int)),
                self.same_but_tiles(*old(self)),
            decreases n - i,
        {
            let non_uniform = self.non_uniform_sets.value_at(i);
            let ghost s = non_uniform@;
            let ghost before = self.tiles.map();
            let nt = non_uniform.tiles.len();
            let mut j: usize = 0;
            while j < nt
                invariant
                    nt == s.tiles.len(),
                    j <= nt,
                    s == non_uniform@,
                    self.tiles.map() == add_non_uniform_tiles(before, s, s.tiles.take(j as int)),
                    self.same_but_tiles(*old(self)),
                decreases nt - j,
            {
                let tile_id = non_uniform.tiles.id_at(j);
                let points = non_uniform.tiles.value_at(j);
                let id = non_uniform.sprite_prefix.clone().concat(tile_id.as_str());
                let tile = TileBuilder {
                    size: non_uniform.size,
                    layer: non_uniform.layer.clone(),
                    sprite: id.clone(),
                    impass: copy_opt_points(&points.impass),
                    invis: copy_opt_points(&points.invis),
                    pass: None,
                    vis: None,
                    override_impass: None,
                };
                assert(tile@ == non_uniform_tile(s, s.tiles[j as int].0, s.tiles[j as int].1));
                self.tiles.insert(id, tile);
                assert(s.tiles.take(j + 1).drop_last() =~= s.tiles.take(j as int));
                j = j + 1;
            }
            assert(s.tiles.take(nt as int) =~= s.tiles);
            assert(sets.take(i + 1).drop_last() =~= sets.take(i as int));
            i = i + 1;
        }
        assert(sets.take(n as int) =~= sets);
    }

    /// The id under which the tileset is registered.
    pub fn owned_id(&self) -> (s: String)
        ensures
            s@ == self.id@,
    {
        self.id.clone()
    }
}


/// A tile, with its impassable and invisible points listed, drawn with a
/// sprite of type `S`.
#[derive(Debug)]
pub struct Tile<S> {
    pub id: String,
    pub width: i32,
    pub height: i32,
    pub layer: String,
    /// The sprite the tile is drawn with.
    pub image_display: S,
    pub impass: Vec<Point>,
    pub invis: Vec<Point>,
    pub override_impass: bool,
}

/// Two tiles are equal when they have the same id.
impl<S> PartialEq for Tile<S> {
    fn eq(&self, other: &Tile<S>) -> (r: bool) {
        self.id == other.id
    }
}

impl<S> PartialEqSpecImpl for Tile<S> {
    open spec fn obeys_eq_spec() -> bool {
        true
    }

    open spec fn eq_spec(&self, other: &Tile<S>) -> bool {
        self.id@ == other.id@
    }
}

/// A [`Tile`] with its strings and lists taken by their views.
pub struct TileView<S> {
    pub id: Seq<char>,
    pub width: i32,
    pub height: i32,
    pub layer: Seq<char>,
    pub image_display: S,
    pub impass: Seq<Point>,
    pub invis: Seq<Point>,
    pub override_impass: bool,
}

impl<S> View for Tile<S> {
    type V = TileView<S>;

    open spec fn view(&self) -> TileView<S> {
        TileView {
            id: self.id@,
            width: self.width,
            height: self.height,
            layer: self.layer@,
            image_display: self.image_display,
            impass: self.impass@,
            invis: self.invis@,
            override_impass: self.override_impass,
        }
    }
}

/// The point that the coordinate list `p` names on a tile of the given size,
/// or the error for it: it must hold exactly two coordinates, the first at most
/// `width` and the second below `height`.
pub open spec fn checked_point(kind: Seq<char>, width: usize, height: usize, p: Seq<usize>) -> Result<
    Point,
    ResourceErrorView,
> {
    if p.len() != 2 {
        Err(ResourceErrorView::PointLength { kind })
    } else if p[0] > width || p[1] >= height {
        Err(ResourceErrorView::PointOutOfBounds { kind, width, height })
    } else {
        Ok(Point { x: p[0] as i32, y: p[1] as i32 })
    }
}

/// The points that the lists `ps` name, in order, or the error for the first
/// list that names none.
pub open spec fn checked_points(kind: Seq<char>, width: usize, height: usize, ps: PointList) -> Result<
    Seq<Point>,
    ResourceErrorView,
>
    decreases ps.len(),
{
    if ps.len() == 0 {
        Ok(Seq::empty())
    } else {
        match checked_points(kind, width, height, ps.drop_last()) {
            Err(e) => Err(e),
            Ok(done) => match checked_point(kind, width, height, ps.last()) {
                Err(e) => Err(e),
                Ok(p) => Ok(done.push(p)),
            },
        }
    }
}

/// Once a prefix of the lists has failed, the whole fails with the same error.
proof fn lemma_checked_points_prefix_error(
    kind: Seq<char>,
    width: usize,
    height: usize,
    ps: PointList,
    k: int,
)
    requires
        0 <= k <= ps.len(),
        checked_points(kind, width, height, ps.take(k)) is Err,
    ensures
        checked_points(kind, width, height, ps) == checked_points(kind, width, height, ps.take(k)),
    decreases ps.len(),
{
    if k == ps.len() {
        assert(ps.take(k) =~= ps);
    } else {
        assert(ps.drop_last().take(k) =~= ps.take(k));
        lemma_checked_points_prefix_error(kind, width, height, ps.drop_last(), k);
    }
}

/// The grid cell `(x, y)` as a point.
pub open spec fn cell(x: int, y: int) -> Point {
    Point { x: x as i32, y: y as i32 }
}

/// The cells `(x, 0)` to `(x, height - 1)` that are not in `open`, in order.
pub open spec fn column_without(x: int, height: nat, open: Seq<Point>) -> Seq<Point>
    decreases height,
{
    if height == 0 {
        Seq::empty()
    } else {
        let rest = column_without(x, (height - 1) as nat, open);
        if open.contains(cell(x, height - 1)) {
            rest
        } else {
            rest.push(cell(x, height - 1))
        }
    }
}

/// The cells of a `width` by `height` grid that are not in `open`, column by column.
pub open spec fn grid_without(width: nat, height: nat, open: Seq<Point>) -> Seq<Point>
    decreases width,
{
    if width == 0 {
        Seq::empty()
    } else {
        grid_without((width - 1) as nat, height, open) + column_without(width - 1, height, open)
    }
}

/// The points a tile blocks (for movement or sight), or the error: the points
/// `listed` when given, else every cell of the tile but those of `complement`
/// when that is given, else none.
pub open spec fn blocked_points(
    listed_kind: Seq<char>,
    listed: Option<PointList>,
    complement_kind: Seq<char>,
    complement: Option<PointList>,
    width: usize,
    height: usize,
) -> Result<Seq<Point>, ResourceErrorView> {
    match listed {
        Some(ps) => checked_points(listed_kind, width, height, ps),
        None => match complement {
            Some(ps) => match checked_points(complement_kind, width, height, ps) {
                Err(e) => Err(e),
                Ok(open) => Ok(grid_without(width as nat, height as nat, open)),
            },
            None => Ok(Seq::empty()),
        },
    }
}

/// Every point of the list, where there is one, has two coordinates, the
/// first at most `width` and the second below `height`.
pub open spec fn points_on_tile(ps: Option<PointList>, width: usize, height: usize) -> bool {
    match ps {
        Some(l) => all_on_tile(l, width, height),
        None => true,
    }
}

/// Every point of the list has two coordinates, the first at most `width`
/// and the second below `height`.
pub open spec fn all_on_tile(l: PointList, width: usize, height: usize) -> bool {
    forall|i: int| 0 <= i < l.len() ==> (#[trigger] l[i]).len() == 2 && l[i][0] <= width && l[i][1] < height
}

/// The tile that `Tile::new` builds from `id` and `b`, or the error it returns,
/// where `sprite` is the sprite that `b.sprite` names, if there is one.
pub open spec fn built_tile<S>(id: Seq<char>, b: TileBuilderView, sprite: Option<S>) -> Result<
    TileView<S>,
    ResourceErrorView,
> {
    if b.impass is Some && b.pass is Some {
        Err(ResourceErrorView::UnableToCreate { kind: "tile"@, id })
    } else if b.invis is Some && b.vis is Some {
        Err(ResourceErrorView::UnableToCreate { kind: "tile"@, id })
    } else {
        let (width, height) = (b.size[0], b.size[1]);
        match blocked_points("impass"@, b.impass, "pass"@, b.pass, width, height) {
            Err(e) => Err(e),
            Ok(impass) => match blocked_points("invis"@, b.invis, "vis"@, b.vis, width, height) {
                Err(e) => Err(e),
                Ok(invis) => match sprite {
                    None => Err(ResourceErrorView::UnableToCreate { kind: "sprite"@, id: b.sprite }),
                    Some(image) => Ok(
                        TileView {
                            id,
                            width: width as i32,
                            height: height as i32,
                            layer: b.layer,
                            image_display: image,
                            impass,
                            invis,
                            override_impass: match b.override_impass {
                                Some(o) => o,
                                None => false,
                            },
                        },
                    ),
                },
            },
        }
    }
}

/// Checks the coordinate list `p` of the given kind against a tile of the
/// given size and returns its coordinates.
pub fn verify_point(kind: &str, width: usize, height: usize, p: Vec<usize>) -> (r: Result<
    (i32, i32),
    ResourceError,
>)
    ensures
        match r {
            Ok((x, y)) => checked_point(kind@, width, height, p@) == Ok::<Point, ResourceErrorView>(
                Point { x, y },
            ),
            Err(e) => checked_point(kind@, width, height, p@) == Err::<Point, ResourceErrorView>(e@),
        },
        r is Ok <==> (p@.len() == 2 && p@[0] <= width && p@[1] < height),
        r matches Ok((x, y)) ==> x == p@[0] as i32 && y == p@[1] as i32,
        p@.len() != 2 ==> (r matches Err(ResourceError::PointLength { kind: k }) && k@ == kind@),
        p@.len() == 2 && (p@[0] > width || p@[1] >= height) ==> (r matches Err(
            ResourceError::PointOutOfBounds { kind: k, width: w, height: h },
        ) && k@ == kind@ && w == width && h == height),
{
    if p.len() != 2 {
        return Err(ResourceError::PointLength { kind: kind.to_owned() });
    }
    let x = p[0];
    let y = p[1];
    if x > width || y >= height {
        return Err(ResourceError::PointOutOfBounds { kind: kind.to_owned(), width, height });
    }
    Ok((x as i32, y as i32))
}

/// The points that the lists `ps` of the given kind name, in order.
fn verify_points(kind: &str, width: usize, height: usize, ps: &Vec<Vec<usize>>) -> (r: Result<
    Vec<Point>,
    ResourceError,
>)
    ensures
        match r {
            Ok(v) => checked_points(kind@, width, height, ps.deep_view()) == Ok::<
                Seq<Point>,
                ResourceErrorView,
            >(v@),
            Err(e) => checked_points(kind@, width, height, ps.deep_view()) == Err::<
                Seq<Point>,
                ResourceErrorView,
            >(e@),
        },
{
    let ghost all = ps.deep_view();
    let mut out: Vec<Point> = Vec::new();
    let n = ps.len();
    let mut i: usize = 0;
    while i < n
        invariant
            n == all.len(),
            all == ps.deep_view(),
            i <= n,
            checked_points(kind@, width, height, all.take(i as int)) == Ok::<
                Seq<Point>,
                ResourceErrorView,
            >(out@),
        decreases n - i,
    {
        assert(all.take(i + 1).drop_last() =~= all.take(i as int));
        assert(ps@[i as int]@ =~= all[i as int]);
        let coords = copy_coords(&ps[i]);
        match verify_point(kind, width, height, coords) {
            Ok((x, y)) => {
                out.push(Point::new(x, y));
            },
            Err(e) => {
                proof {
                    lemma_checked_points_prefix_error(kind@, width, height, all, i + 1);
                }
                return Err(e);
            },
        }
        i = i + 1;
    }
    assert(all.take(n as int) =~= all);
    Ok(out)
}

/// Whether `p` is one of `points`.
fn contains_point(points: &Vec<Point>, p: &Point) -> (r: bool)
    ensures
        r == points@.contains(*p),
{
    let n = points.len();
    let mut i: usize = 0;
    while i < n
        invariant
            n == points@.len(),
            i <= n,
            forall|k: int| 0 <= k < i ==> points@[k] != *p,
        decreases n - i,
    {
        if points[i] == *p {
            assert(points@[i as int] == *p);
            return true;
        }
        i = i + 1;
    }
    false
}

/// Every cell of a `width` by `height` tile that is not in `open`, column by column.
fn cells_without(width: usize, height: usize, open: &Vec<Point>) -> (r: Vec<Point>)
    ensures
        r@ == grid_without(width as nat, height as nat, open@),
{
    let mut out: Vec<Point> = Vec::new();
    let mut x: usize = 0;
    while x < width
        invariant
            x <= width,
            out@ == grid_without(x as nat, height as nat, open@),
        decreases width - x,
    {
        let ghost done = out@;
        let mut y: usize = 0;
        while y < height
            invariant
                x < width,
                y <= height,
                out@ == done + column_without(x as int, y as nat, open@),
            decreases height - y,
        {
            let p = Point::new(x as i32, y as i32);
            assert(p == cell(x as int, y as int));
            if !contains_point(open, &p) {
                out.push(p);
                assert(out@ =~= done + column_without(x as int, (y + 1) as nat, open@));
            }
            y = y + 1;
        }
        x = x + 1;
    }
    out
}

/// The points a tile blocks: the points of `listed` when given, else every
/// cell but those of `complement` when that is given, else none.
fn blocked(
    listed_kind: &str,
    listed: &Option<Vec<Vec<usize>>>,
    complement_kind: &str,
    complement: &Option<Vec<Vec<usize>>>,
    width: usize,
    height: usize,
) -> (r: Result<Vec<Point>, ResourceError>)
    ensures
        match r {
            Ok(v) => blocked_points(
                listed_kind@,
                listed.deep_view(),
                complement_kind@,
                complement.deep_view(),
                width,
                height,
            ) == Ok::<Seq<Point>, ResourceErrorView>(v@),
            Err(e) => blocked_points(
                listed_kind@,
                listed.deep_view(),
                complement_kind@,
                complement.deep_view(),
                width,
                height,
            ) == Err::<Seq<Point>, ResourceErrorView>(e@),
        },
{
    match listed {
        Some(ps) => verify_points(listed_kind, width, height, ps),
        None => match complement {
            Some(ps) => {
                let open = verify_points(complement_kind, width, height, ps)?;
                Ok(cells_without(width, height, &open))
            },
            None => Ok(Vec::new()),
        },
    }
}

impl<S> Tile<S> {
    /// Builds the tile `id` from its definition. A definition may give
    /// impassable points or passable ones, not both, and invisible points or
    /// visible ones, not both; where it gives passable (visible) points, every
    /// other cell of the tile is impassable (invisible). Each point must lie
    /// on the tile. `sprite` is the outcome of looking up the sprite that
    /// `builder.sprite` names in the loaded resources: where it was not found,
    /// the tile cannot be created and the error names the sprite.
    pub fn new(id: String, builder: TileBuilder, sprite: Option<S>) -> (r: Result<Tile<S>, ResourceError>)
        ensures
            match r {
                Ok(t) => built_tile(id@, builder@, sprite) == Ok::<TileView<S>, ResourceErrorView>(t@),
                Err(e) => built_tile(id@, builder@, sprite) == Err::<TileView<S>, ResourceErrorView>(e@),
            },
            r is Ok <==> {
                &&& !(builder.impass is Some && builder.pass is Some)
                &&& !(builder.invis is Some && builder.vis is Some)
                &&& sprite is Some
                &&& points_on_tile(builder.impass.deep_view(), builder.size[0], builder.size[1])
                &&& points_on_tile(builder.pass.deep_view(), builder.size[0], builder.size[1])
                &&& points_on_tile(builder.invis.deep_view(), builder.size[0], builder.size[1])
                &&& points_on_tile(builder.vis.deep_view(), builder.size[0], builder.size[1])
            },
            r matches Ok(t) ==> {
                &&& t.id@ == id@
                &&& t.width == builder.size[0] as i32
                &&& t.height == builder.size[1] as i32
                &&& t.layer@ == builder.layer@
                &&& sprite == Some(t.image_display)
                &&& (builder.override_impass matches Some(o) ==> t.override_impass == o)
                &&& (builder.override_impass is None ==> !t.override_impass)
            },
    {
        let ghost id_v = id@;
        let ghost b_v = builder@;
        proof {
            law_built_tile_outcome(id_v, b_v, sprite);
        }
        if builder.impass.is_some() && builder.pass.is_some() {
            return Err(unable_to_create_error("tile", &id));
        }
        if builder.invis.is_some() && builder.vis.is_some() {
            return Err(unable_to_create_error("tile", &id));
        }
        let width = builder.size[0];
        let height = builder.size[1];
        let impass = blocked("impass", &builder.impass, "pass", &builder.pass, width, height)?;
        let invis = blocked("invis", &builder.invis, "vis", &builder.vis, width, height)?;
        let image_display = match sprite {
            Some(image) => image,
            None => {
                return Err(unable_to_create_error("sprite", &builder.sprite));
            },
        };
        let override_impass = match builder.override_impass {
            Some(o) => o,
            None => false,
        };
        let t = Tile {
            id,
            layer: builder.layer,
            width: width as i32,
            height: height as i32,
            image_display,
            impass,
            invis,
            override_impass,
        };
        proof {
            law_built_tile_fields(id_v, b_v, sprite, t@);
        }
        Ok(t)
    }
}


/// The names that the tiles of the uniform sets `sets` are given.
pub open spec fn uniform_names(sets: Seq<(Seq<char>, UniformSetView)>) -> Set<Seq<char>>
    decreases sets.len(),
{
    if sets.len() == 0 {
        Set::empty()
    } else {
        let u = sets.last().1;
        uniform_names(sets.drop_last()).union(u.tiles.map_values(|t: Seq<char>| u.sprite_prefix + t).to_set())
    }
}

/// The names that the tiles of the non-uniform sets `sets` are given.
pub open spec fn non_uniform_names(sets: Seq<(Seq<char>, NonUniformSetView)>) -> Set<Seq<char>>
    decreases sets.len(),
{
    if sets.len() == 0 {
        Set::empty()
    } else {
        let n = sets.last().1;
        non_uniform_names(sets.drop_last()).union(
            n.tiles.map_values(|e: (Seq<char>, ImpassInvisView)| n.sprite_prefix + e.0).to_set(),
        )
    }
}

proof fn lemma_add_uniform_tiles(
    tiles: Map<Seq<char>, TileBuilderView>,
    u: UniformSetView,
    ids: Seq<Seq<char>>,
    k: Seq<char>,
)
    ensures
        add_uniform_tiles(tiles, u, ids).dom().contains(k) <==> tiles.dom().contains(k)
            || ids.map_values(|t: Seq<char>| u.sprite_prefix + t).to_set().contains(k),
        !ids.map_values(|t: Seq<char>| u.sprite_prefix + t).to_set().contains(k)
            ==> add_uniform_tiles(tiles, u, ids)[k] == tiles[k],
    decreases ids.len(),
{
    let f = |t: Seq<char>| u.sprite_prefix + t;
    if ids.len() > 0 {
        lemma_add_uniform_tiles(tiles, u, ids.drop_last(), k);
        assert(ids.map_values(f) =~= ids.drop_last().map_values(f).push(f(ids.last())));
        lemma_seq_contains_after_push(ids.drop_last().map_values(f), f(ids.last()), k);
    } else {
        assert(ids.map_values(f) =~= Seq::<Seq<char>>::empty());
    }
}

proof fn lemma_add_non_uniform_tiles(
    tiles: Map<Seq<char>, TileBuilderView>,
    n: NonUniformSetView,
    entries: Seq<(Seq<char>, ImpassInvisView)>,
    k: Seq<char>,
)
    ensures
        add_non_uniform_tiles(tiles, n, entries).dom().contains(k) <==> tiles.dom().contains(k)
            || entries.map_values(|e: (Seq<char>, ImpassInvisView)| n.sprite_prefix + e.0).to_set().contains(k),
        !entries.map_values(|e: (Seq<char>, ImpassInvisView)| n.sprite_prefix + e.0).to_set().contains(k)
            ==> add_non_uniform_tiles(tiles, n, entries)[k] == tiles[k],
    decreases entries.len(),
{
    let f = |e: (Seq<char>, ImpassInvisView)| n.sprite_prefix + e.0;
    if entries.len() > 0 {
        lemma_add_non_uniform_tiles(tiles, n, entries.drop_last(), k);
        assert(entries.map_values(f) =~= entries.drop_last().map_values(f).push(f(entries.last())));
        lemma_seq_contains_after_push(entries.drop_last().map_values(f), f(entries.last()), k);
    } else {
        assert(entries.map_values(f) =~= Seq::<Seq<char>>::empty());
    }
}

/// Moving the uniform sets defines a tile under the name of each of their
/// tiles and leaves every other name as it was: a name is defined afterwards
/// exactly when it was defined before or names a tile of a set, and a name of
/// no tile keeps its definition.
pub proof fn law_uniform_sets_define_their_tiles(
    tiles: Map<Seq<char>, TileBuilderView>,
    sets: Seq<(Seq<char>, UniformSetView)>,
    k: Seq<char>,
)
    ensures
        add_uniform_sets(tiles, sets).dom().contains(k) <==> tiles.dom().contains(k)
            || uniform_names(sets).contains(k),
        !uniform_names(sets).contains(k) ==> add_uniform_sets(tiles, sets)[k] == tiles[k],
    decreases sets.len(),
{
    if sets.len() > 0 {
        let u = sets.last().1;
        law_uniform_sets_define_their_tiles(tiles, sets.drop_last(), k);
        lemma_add_uniform_tiles(add_uniform_sets(tiles, sets.drop_last()), u, u.tiles, k);
    }
}

/// Moving the non-uniform sets defines a tile under the name of each of their
/// tiles and leaves every other name as it was.
pub proof fn law_non_uniform_sets_define_their_tiles(
    tiles: Map<Seq<char>, TileBuilderView>,
    sets: Seq<(Seq<char>, NonUniformSetView)>,
    k: Seq<char>,
)
    ensures
        add_non_uniform_sets(tiles, sets).dom().contains(k) <==> tiles.dom().contains(k)
            || non_uniform_names(sets).contains(k),
        !non_uniform_names(sets).contains(k) ==> add_non_uniform_sets(tiles, sets)[k] == tiles[k],
    decreases sets.len(),
{
    if sets.len() > 0 {
        let n = sets.last().1;
        law_non_uniform_sets_define_their_tiles(tiles, sets.drop_last(), k);
        lemma_add_non_uniform_tiles(add_non_uniform_sets(tiles, sets.drop_last()), n, n.tiles, k);
    }
}

/// A column holds a cell exactly when the cell lies in it and is not open.
proof fn lemma_column_without_contains(x: int, height: nat, open: Seq<Point>, p: Point)
    requires
        0 <= x <= i32::MAX,
        height <= i32::MAX + 1,
    ensures
        column_without(x, height, open).contains(p) <==> (p.x == x && 0 <= p.y < height
            && !open.contains(p)),
    decreases height,
{
    if height > 0 {
        let rest = column_without(x, (height - 1) as nat, open);
        lemma_column_without_contains(x, (height - 1) as nat, open, p);
        let c = cell(x, height - 1);
        assert(c.x == x && c.y == height - 1);
        lemma_seq_contains_after_push(rest, c, p);
    }
}

/// The grid holds a cell exactly when the cell lies on it and is not open.
proof fn lemma_grid_without_contains(width: nat, height: nat, open: Seq<Point>, p: Point)
    requires
        width <= i32::MAX + 1,
        height <= i32::MAX + 1,
    ensures
        grid_without(width, height, open).contains(p) <==> (0 <= p.x < width && 0 <= p.y < height
            && !open.contains(p)),
    decreases width,
{
    if width > 0 {
        let w = (width - 1) as nat;
        lemma_grid_without_contains(w, height, open, p);
        lemma_column_without_contains(w as int, height, open, p);
        lemma_seq_concat_contains_all_elements(
            grid_without(w, height, open),
            column_without(w as int, height, open),
            p,
        );
    }
}

/// Every point that checked lists name lies on the tile: its first coordinate
/// at most the width, its second below the height.
proof fn lemma_checked_points_on_tile(kind: Seq<char>, width: usize, height: usize, ps: PointList)
    requires
        width <= i32::MAX,
        height <= i32::MAX,
        checked_points(kind, width, height, ps) is Ok,
    ensures
        forall|i: int|
            0 <= i < checked_points(kind, width, height, ps)->Ok_0.len() ==> {
                let p = #[trigger] checked_points(kind, width, height, ps)->Ok_0[i];
                0 <= p.x <= width && 0 <= p.y < height
            },
    decreases ps.len(),
{
    if ps.len() > 0 {
        lemma_checked_points_on_tile(kind, width, height, ps.drop_last());
    }
}

/// A definition that gives both impassable and passable points, or both
/// invisible and visible points, builds no tile: it is refused with the tile's id.
pub proof fn law_conflicting_definitions_refused<S>(id: Seq<char>, b: TileBuilderView, sprite: Option<S>)
    requires
        (b.impass is Some && b.pass is Some) || (b.invis is Some && b.vis is Some),
    ensures
        built_tile(id, b, sprite) == Err::<TileView<S>, ResourceErrorView>(
            ResourceErrorView::UnableToCreate { kind: "tile"@, id },
        ),
{
}

/// Where a definition lists the passable cells of a tile, the tile blocks
/// movement through exactly its other cells.
pub proof fn law_passable_cells_complement<S>(
    id: Seq<char>,
    b: TileBuilderView,
    sprite: Option<S>,
    t: TileView<S>,
    p: Point,
)
    requires
        built_tile(id, b, sprite) == Ok::<TileView<S>, ResourceErrorView>(t),
        b.pass is Some,
        b.size[0] <= i32::MAX + 1,
        b.size[1] <= i32::MAX + 1,
    ensures
        checked_points("pass"@, b.size[0], b.size[1], b.pass->0) is Ok,
        t.impass.contains(p) <==> (0 <= p.x < b.size[0] && 0 <= p.y < b.size[1]
            && !(checked_points("pass"@, b.size[0], b.size[1], b.pass->0)->Ok_0).contains(p)),
{
    let open = checked_points("pass"@, b.size[0], b.size[1], b.pass->0)->Ok_0;
    lemma_grid_without_contains(b.size[0] as nat, b.size[1] as nat, open, p);
}

/// Where a definition lists the visible cells of a tile, the tile blocks
/// sight through exactly its other cells.
pub proof fn law_visible_cells_complement<S>(
    id: Seq<char>,
    b: TileBuilderView,
    sprite: Option<S>,
    t: TileView<S>,
    p: Point,
)
    requires
        built_tile(id, b, sprite) == Ok::<TileView<S>, ResourceErrorView>(t),
        b.vis is Some,
        b.size[0] <= i32::MAX + 1,
        b.size[1] <= i32::MAX + 1,
    ensures
        checked_points("vis"@, b.size[0], b.size[1], b.vis->0) is Ok,
        t.invis.contains(p) <==> (0 <= p.x < b.size[0] && 0 <= p.y < b.size[1]
            && !(checked_points("vis"@, b.size[0], b.size[1], b.vis->0)->Ok_0).contains(p)),
{
    let open = checked_points("vis"@, b.size[0], b.size[1], b.vis->0)->Ok_0;
    lemma_grid_without_contains(b.size[0] as nat, b.size[1] as nat, open, p);
}

/// Every impassable or invisible point of a built tile lies on the tile: its
/// first coordinate at most the width, its second below the height.
pub proof fn law_blocked_points_on_tile<S>(
    id: Seq<char>,
    b: TileBuilderView,
    sprite: Option<S>,
    t: TileView<S>,
    p: Point,
)
    requires
        built_tile(id, b, sprite) == Ok::<TileView<S>, ResourceErrorView>(t),
        b.size[0] <= i32::MAX,
        b.size[1] <= i32::MAX,
        t.impass.contains(p) || t.invis.contains(p),
    ensures
        0 <= p.x <= b.size[0],
        0 <= p.y < b.size[1],
{
    let (w, h) = (b.size[0], b.size[1]);
    if t.impass.contains(p) {
        lemma_blocked_on_tile("impass"@, b.impass, "pass"@, b.pass, w, h, p);
    } else {
        lemma_blocked_on_tile("invis"@, b.invis, "vis"@, b.vis, w, h, p);
    }
}

proof fn lemma_blocked_on_tile(
    listed_kind: Seq<char>,
    listed: Option<PointList>,
    complement_kind: Seq<char>,
    complement: Option<PointList>,
    width: usize,
    height: usize,
    p: Point,
)
    requires
        width <= i32::MAX,
        height <= i32::MAX,
        blocked_points(listed_kind, listed, complement_kind, complement, width, height) is Ok,
        (blocked_points(listed_kind, listed, complement_kind, complement, width, height)->Ok_0).contains(p),
    ensures
        0 <= p.x <= width,
        0 <= p.y < height,
{
    let s = blocked_points(listed_kind, listed, complement_kind, complement, width, height)->Ok_0;
    let i = choose|i: int| 0 <= i < s.len() && s[i] == p;
    match listed {
        Some(ps) => {
            lemma_checked_points_on_tile(listed_kind, width, height, ps);
            assert(s[i] == checked_points(listed_kind, width, height, ps)->Ok_0[i]);
        },
        None => match complement {
            Some(ps) => {
                let open = checked_points(complement_kind, width, height, ps)->Ok_0;
                lemma_grid_without_contains(width as nat, height as nat, open, p);
            },
            None => {},
        },
    }
}
/// A definition whose points all lie on the tile still builds no tile where
/// its sprite is missing: it is refused, naming the sprite.
pub proof fn law_missing_sprite_refused<S>(id: Seq<char>, b: TileBuilderView, image: S)
    requires
        built_tile(id, b, Some(image)) is Ok,
    ensures
        built_tile(id, b, None::<S>) == Err::<TileView<S>, ResourceErrorView>(
            ResourceErrorView::UnableToCreate { kind: "sprite"@, id: b.sprite },
        ),
{
}

/// Adding the tiles of a uniform set overrides `tiles` with what the same
/// additions make of an empty map.
proof fn lemma_add_uniform_tiles_union(
    tiles: Map<Seq<char>, TileBuilderView>,
    u: UniformSetView,
    ids: Seq<Seq<char>>,
)
    ensures
        add_uniform_tiles(tiles, u, ids) =~= tiles.union_prefer_right(add_uniform_tiles(Map::empty(), u, ids)),
    decreases ids.len(),
{
    if ids.len() > 0 {
        lemma_add_uniform_tiles_union(tiles, u, ids.drop_last());
    }
}

/// Adding the tiles of uniform sets overrides `tiles` with what the same
/// additions make of an empty map.
proof fn lemma_add_uniform_sets_union(tiles: Map<Seq<char>, TileBuilderView>, sets: Seq<(Seq<char>, UniformSetView)>)
    ensures
        add_uniform_sets(tiles, sets) =~= tiles.union_prefer_right(add_uniform_sets(Map::empty(), sets)),
    decreases sets.len(),
{
    if sets.len() > 0 {
        let u = sets.last().1;
        let before = add_uniform_sets(tiles, sets.drop_last());
        let before0 = add_uniform_sets(Map::empty(), sets.drop_last());
        lemma_add_uniform_sets_union(tiles, sets.drop_last());
        lemma_add_uniform_tiles_union(before, u, u.tiles);
        lemma_add_uniform_tiles_union(before0, u, u.tiles);
    }
}

/// Adding the tiles of a non-uniform set overrides `tiles` with what the same
/// additions make of an empty map.
proof fn lemma_add_non_uniform_tiles_union(
    tiles: Map<Seq<char>, TileBuilderView>,
    n: NonUniformSetView,
    entries: Seq<(Seq<char>, ImpassInvisView)>,
)
    ensures
        add_non_uniform_tiles(tiles, n, entries) =~= tiles.union_prefer_right(
            add_non_uniform_tiles(Map::empty(), n, entries),
        ),
    decreases entries.len(),
{
    if entries.len() > 0 {
        lemma_add_non_uniform_tiles_union(tiles, n, entries.drop_last());
    }
}

/// Adding the tiles of non-uniform sets overrides `tiles` with what the same
/// additions make of an empty map.
proof fn lemma_add_non_uniform_sets_union(
    tiles: Map<Seq<char>, TileBuilderView>,
    sets: Seq<(Seq<char>, NonUniformSetView)>,
)
    ensures
        add_non_uniform_sets(tiles, sets) =~= tiles.union_prefer_right(add_non_uniform_sets(Map::empty(), sets)),
    decreases sets.len(),
{
    if sets.len() > 0 {
        let n = sets.last().1;
        let before = add_non_uniform_sets(tiles, sets.drop_last());
        let before0 = add_non_uniform_sets(Map::empty(), sets.drop_last());
        lemma_add_non_uniform_sets_union(tiles, sets.drop_last());
        lemma_add_non_uniform_tiles_union(before, n, n.tiles);
        lemma_add_non_uniform_tiles_union(before0, n, n.tiles);
    }
}

/// Moving the uniform sets a second time changes no tile: since
/// `move_uniform` keeps the sets, the second call leaves the tiles that the
/// first call made.
pub proof fn law_move_uniform_idempotent(
    tiles: Map<Seq<char>, TileBuilderView>,
    sets: Seq<(Seq<char>, UniformSetView)>,
)
    ensures
        add_uniform_sets(add_uniform_sets(tiles, sets), sets) == add_uniform_sets(tiles, sets),
{
    lemma_add_uniform_sets_union(tiles, sets);
    lemma_add_uniform_sets_union(add_uniform_sets(tiles, sets), sets);
    assert(add_uniform_sets(add_uniform_sets(tiles, sets), sets) =~= add_uniform_sets(tiles, sets));
}

/// Moving the non-uniform sets a second time changes no tile.
pub proof fn law_move_non_uniform_idempotent(
    tiles: Map<Seq<char>, TileBuilderView>,
    sets: Seq<(Seq<char>, NonUniformSetView)>,
)
    ensures
        add_non_uniform_sets(add_non_uniform_sets(tiles, sets), sets) == add_non_uniform_sets(tiles, sets),
{
    lemma_add_non_uniform_sets_union(tiles, sets);
    lemma_add_non_uniform_sets_union(add_non_uniform_sets(tiles, sets), sets);
    assert(add_non_uniform_sets(add_non_uniform_sets(tiles, sets), sets) =~= add_non_uniform_sets(tiles, sets));
}

/// Moving all tiles a second time changes no tile: `move_tiles` applied to
/// its own result leaves the tiles it made.
pub proof fn law_move_tiles_idempotent(
    tiles: Map<Seq<char>, TileBuilderView>,
    uniform: Seq<(Seq<char>, UniformSetView)>,
    non_uniform: Seq<(Seq<char>, NonUniformSetView)>,
)
    ensures
        add_non_uniform_sets(
            add_uniform_sets(add_non_uniform_sets(add_uniform_sets(tiles, uniform), non_uniform), uniform),
            non_uniform,
        ) == add_non_uniform_sets(add_uniform_sets(tiles, uniform), non_uniform),
{
    let u0 = add_uniform_sets(Map::empty(), uniform);
    let n0 = add_non_uniform_sets(Map::empty(), non_uniform);
    let once = add_non_uniform_sets(add_uniform_sets(tiles, uniform), non_uniform);
    lemma_add_uniform_sets_union(tiles, uniform);
    lemma_add_non_uniform_sets_union(add_uniform_sets(tiles, uniform), non_uniform);
    lemma_add_uniform_sets_union(once, uniform);
    lemma_add_non_uniform_sets_union(add_uniform_sets(once, uniform), non_uniform);
    assert(add_non_uniform_sets(add_uniform_sets(once, uniform), non_uniform) =~= once);
}


/// The tile `ids[j]` of a uniform set is stored with its definition when no
/// later tile of the set takes its name.
proof fn lemma_uniform_tile_stored(
    tiles: Map<Seq<char>, TileBuilderView>,
    u: UniformSetView,
    ids: Seq<Seq<char>>,
    j: int,
)
    requires
        0 <= j < ids.len(),
        forall|j2: int| j < j2 < ids.len() ==> u.sprite_prefix + #[trigger] ids[j2] != u.sprite_prefix + ids[j],
    ensures
        add_uniform_tiles(tiles, u, ids).dom().contains(u.sprite_prefix + ids[j]),
        add_uniform_tiles(tiles, u, ids)[u.sprite_prefix + ids[j]] == uniform_tile(u, ids[j]),
    decreases ids.len(),
{
    if j < ids.len() - 1 {
        assert(ids.drop_last()[j] == ids[j]);
        assert forall|j2: int| j < j2 < ids.drop_last().len() implies u.sprite_prefix + #[trigger] ids.drop_last()[j2]
            != u.sprite_prefix + ids.drop_last()[j] by {
            assert(ids.drop_last()[j2] == ids[j2]);
        }
        lemma_uniform_tile_stored(tiles, u, ids.drop_last(), j);
        assert(u.sprite_prefix + ids[ids.len() - 1] != u.sprite_prefix + ids[j]);
    }
}

/// Tiles of a uniform set that all take other names leave the name `k` as it was.
proof fn lemma_uniform_tiles_elsewhere(
    tiles: Map<Seq<char>, TileBuilderView>,
    u: UniformSetView,
    ids: Seq<Seq<char>>,
    k: Seq<char>,
)
    requires
        forall|j: int| 0 <= j < ids.len() ==> u.sprite_prefix + #[trigger] ids[j] != k,
    ensures
        add_uniform_tiles(tiles, u, ids).dom().contains(k) == tiles.dom().contains(k),
        add_uniform_tiles(tiles, u, ids)[k] == tiles[k],
    decreases ids.len(),
{
    if ids.len() > 0 {
        assert forall|j: int| 0 <= j < ids.drop_last().len() implies u.sprite_prefix + #[trigger] ids.drop_last()[j]
            != k by {
            assert(ids.drop_last()[j] == ids[j]);
        }
        lemma_uniform_tiles_elsewhere(tiles, u, ids.drop_last(), k);
        assert(u.sprite_prefix + ids[ids.len() - 1] != k);
    }
}

/// Moving the uniform sets stores, under the name of tile `j` of set `i`, a
/// definition made from that set: the set's size and layer, the name as its
/// sprite, the set's impassable and invisible points (none where the set
/// lists none), and no passable or visible points or override; unless a
/// later tile takes the same name.
pub proof fn law_uniform_tile_definition(
    tiles: Map<Seq<char>, TileBuilderView>,
    sets: Seq<(Seq<char>, UniformSetView)>,
    i: int,
    j: int,
)
    requires
        0 <= i < sets.len(),
        0 <= j < sets[i].1.tiles.len(),
        forall|j2: int|
            j < j2 < sets[i].1.tiles.len() ==> sets[i].1.sprite_prefix + #[trigger] sets[i].1.tiles[j2]
                != sets[i].1.sprite_prefix + sets[i].1.tiles[j],
        forall|i2: int, j2: int|
            i < i2 < sets.len() && 0 <= j2 < sets[i2].1.tiles.len() ==> #[trigger] sets[i2].1.sprite_prefix
                + #[trigger] sets[i2].1.tiles[j2] != sets[i].1.sprite_prefix + sets[i].1.tiles[j],
    ensures
        ({
            let u = sets[i].1;
            let k = u.sprite_prefix + u.tiles[j];
            let d = add_uniform_sets(tiles, sets)[k];
            &&& add_uniform_sets(tiles, sets).dom().contains(k)
            &&& d.size == u.size
            &&& d.layer == u.layer
            &&& d.sprite == k
            &&& (u.impass.len() == 0 ==> d.impass is None)
            &&& (u.impass.len() > 0 ==> d.impass == Some(u.impass))
            &&& (u.invis.len() == 0 ==> d.invis is None)
            &&& (u.invis.len() > 0 ==> d.invis == Some(u.invis))
            &&& d.pass is None
            &&& d.vis is None
            &&& d.override_impass is None
        }),
    decreases sets.len(),
{
    let u = sets[i].1;
    let k = u.sprite_prefix + u.tiles[j];
    let last = sets.last().1;
    let before = add_uniform_sets(tiles, sets.drop_last());
    if i == sets.len() - 1 {
        lemma_uniform_tile_stored(before, u, u.tiles, j);
    } else {
        assert(sets.drop_last()[i] == sets[i]);
        assert forall|i2: int, j2: int|
            i < i2 < sets.drop_last().len() && 0 <= j2 < sets.drop_last()[i2].1.tiles.len() implies
            #[trigger] sets.drop_last()[i2].1.sprite_prefix + #[trigger] sets.drop_last()[i2].1.tiles[j2]
                != sets.drop_last()[i].1.sprite_prefix + sets.drop_last()[i].1.tiles[j] by {
            assert(sets.drop_last()[i2] == sets[i2]);
        }
        law_uniform_tile_definition(tiles, sets.drop_last(), i, j);
        assert forall|j2: int| 0 <= j2 < last.tiles.len() implies last.sprite_prefix + #[trigger] last.tiles[j2] != k by {
            assert(sets[sets.len() - 1].1.tiles[j2] == last.tiles[j2]);
        }
        lemma_uniform_tiles_elsewhere(before, last, last.tiles, k);
    }
}

/// The tile `entries[j]` of a non-uniform set is stored with its definition
/// when no later tile of the set takes its name.
proof fn lemma_non_uniform_tile_stored(
    tiles: Map<Seq<char>, TileBuilderView>,
    n: NonUniformSetView,
    entries: Seq<(Seq<char>, ImpassInvisView)>,
    j: int,
)
    requires
        0 <= j < entries.len(),
        forall|j2: int|
            j < j2 < entries.len() ==> n.sprite_prefix + (#[trigger] entries[j2]).0 != n.sprite_prefix + entries[j].0,
    ensures
        add_non_uniform_tiles(tiles, n, entries).dom().contains(n.sprite_prefix + entries[j].0),
        add_non_uniform_tiles(tiles, n, entries)[n.sprite_prefix + entries[j].0] == non_uniform_tile(
            n,
            entries[j].0,
            entries[j].1,
        ),
    decreases entries.len(),
{
    if j < entries.len() - 1 {
        assert(entries.drop_last()[j] == entries[j]);
        assert forall|j2: int| j < j2 < entries.drop_last().len() implies n.sprite_prefix + (
        #[trigger] entries.drop_last()[j2]).0 != n.sprite_prefix + entries.drop_last()[j].0 by {
            assert(entries.drop_last()[j2] == entries[j2]);
        }
        lemma_non_uniform_tile_stored(tiles, n, entries.drop_last(), j);
        assert(n.sprite_prefix + entries[entries.len() - 1].0 != n.sprite_prefix + entries[j].0);
    }
}

/// Tiles of a non-uniform set that all take other names leave the name `k` as it was.
proof fn lemma_non_uniform_tiles_elsewhere(
    tiles: Map<Seq<char>, TileBuilderView>,
    n: NonUniformSetView,
    entries: Seq<(Seq<char>, ImpassInvisView)>,
    k: Seq<char>,
)
    requires
        forall|j: int| 0 <= j < entries.len() ==> n.sprite_prefix + (#[trigger] entries[j]).0 != k,
    ensures
        add_non_uniform_tiles(tiles, n, entries).dom().contains(k) == tiles.dom().contains(k),
        add_non_uniform_tiles(tiles, n, entries)[k] == tiles[k],
    decreases entries.len(),
{
    if entries.len() > 0 {
        assert forall|j: int| 0 <= j < entries.drop_last().len() implies n.sprite_prefix + (
        #[trigger] entries.drop_last()[j]).0 != k by {
            assert(entries.drop_last()[j] == entries[j]);
        }
        lemma_non_uniform_tiles_elsewhere(tiles, n, entries.drop_last(), k);
        assert(n.sprite_prefix + entries[entries.len() - 1].0 != k);
    }
}

/// Moving the non-uniform sets stores, under the name of tile `j` of set `i`,
/// a definition made from that set and that tile: the set's size and layer,
/// the name as its sprite, the tile's own impassable and invisible points, and
/// no passable or visible points or override; unless a later tile takes the
/// same name.
pub proof fn law_non_uniform_tile_definition(
    tiles: Map<Seq<char>, TileBuilderView>,
    sets: Seq<(Seq<char>, NonUniformSetView)>,
    i: int,
    j: int,
)
    requires
        0 <= i < sets.len(),
        0 <= j < sets[i].1.tiles.len(),
        forall|j2: int|
            j < j2 < sets[i].1.tiles.len() ==> sets[i].1.sprite_prefix + (#[trigger] sets[i].1.tiles[j2]).0
                != sets[i].1.sprite_prefix + sets[i].1.tiles[j].0,
        forall|i2: int, j2: int|
            i < i2 < sets.len() && 0 <= j2 < sets[i2].1.tiles.len() ==> #[trigger] sets[i2].1.sprite_prefix + (
            #[trigger] sets[i2].1.tiles[j2]).0 != sets[i].1.sprite_prefix + sets[i].1.tiles[j].0,
    ensures
        ({
            let n = sets[i].1;
            let e = n.tiles[j];
            let k = n.sprite_prefix + e.0;
            let d = add_non_uniform_sets(tiles, sets)[k];
            &&& add_non_uniform_sets(tiles, sets).dom().contains(k)
            &&& d.size == n.size
            &&& d.layer == n.layer
            &&& d.sprite == k
            &&& d.impass == e.1.impass
            &&& d.invis == e.1.invis
            &&& d.pass is None
            &&& d.vis is None
            &&& d.override_impass is None
        }),
    decreases sets.len(),
{
    let n = sets[i].1;
    let k = n.sprite_prefix + n.tiles[j].0;
    let last = sets.last().1;
    let before = add_non_uniform_sets(tiles, sets.drop_last());
    if i == sets.len() - 1 {
        lemma_non_uniform_tile_stored(before, n, n.tiles, j);
    } else {
        assert(sets.drop_last()[i] == sets[i]);
        assert forall|i2: int, j2: int|
            i < i2 < sets.drop_last().len() && 0 <= j2 < sets.drop_last()[i2].1.tiles.len() implies
            #[trigger] sets.drop_last()[i2].1.sprite_prefix + (#[trigger] sets.drop_last()[i2].1.tiles[j2]).0
                != sets.drop_last()[i].1.sprite_prefix + sets.drop_last()[i].1.tiles[j].0 by {
            assert(sets.drop_last()[i2] == sets[i2]);
        }
        law_non_uniform_tile_definition(tiles, sets.drop_last(), i, j);
        assert forall|j2: int| 0 <= j2 < last.tiles.len() implies last.sprite_prefix + (#[trigger] last.tiles[j2]).0
            != k by {
            assert(sets[sets.len() - 1].1.tiles[j2] == last.tiles[j2]);
        }
        lemma_non_uniform_tiles_elsewhere(before, last, last.tiles, k);
    }
}


/// Checking lists of coordinates succeeds exactly when every list names a
/// point on the tile, and then gives those points, in order.
proof fn lemma_checked_points_meaning(kind: Seq<char>, width: usize, height: usize, ps: PointList)
    ensures
        checked_points(kind, width, height, ps) is Ok <==> all_on_tile(ps, width, height),
        checked_points(kind, width, height, ps) is Ok ==> {
            let s = checked_points(kind, width, height, ps)->Ok_0;
            &&& s.len() == ps.len()
            &&& forall|i: int| 0 <= i < ps.len() ==> #[trigger] s[i] == (Point { x: ps[i][0] as i32, y: ps[i][1] as i32 })
        },
    decreases ps.len(),
{
    if ps.len() > 0 {
        let init = ps.drop_last();
        let last = ps.last();
        lemma_checked_points_meaning(kind, width, height, init);
        if all_on_tile(ps, width, height) {
            assert forall|i: int| 0 <= i < init.len() implies (#[trigger] init[i]).len() == 2 && init[i][0]
                <= width && init[i][1] < height by {
                assert(init[i] == ps[i]);
                assert(ps[i].len() == 2 && ps[i][0] <= width && ps[i][1] < height);
            }
            assert(all_on_tile(init, width, height));
            assert(ps[ps.len() - 1].len() == 2);
            assert(last.len() == 2 && last[0] <= width && last[1] < height);
        }
        if checked_points(kind, width, height, ps) is Ok {
            assert(last.len() == 2 && last[0] <= width && last[1] < height);
            assert forall|i: int| 0 <= i < ps.len() implies (#[trigger] ps[i]).len() == 2 && ps[i][0] <= width
                && ps[i][1] < height by {
                if i < ps.len() - 1 {
                    assert(init[i] == ps[i]);
                    assert(init[i].len() == 2 && init[i][0] <= width && init[i][1] < height);
                }
            }
            let s = checked_points(kind, width, height, ps)->Ok_0;
            assert forall|i: int| 0 <= i < ps.len() implies #[trigger] s[i] == (Point {
                x: ps[i][0] as i32,
                y: ps[i][1] as i32,
            }) by {
                if i < ps.len() - 1 {
                    assert(init[i] == ps[i]);
                }
            }
        }
    }
}

/// A tile is built exactly when the definition gives no conflicting lists,
/// every point it lists lies on the tile, and its sprite was found.
pub proof fn law_built_tile_outcome<S>(id: Seq<char>, b: TileBuilderView, sprite: Option<S>)
    ensures
        built_tile(id, b, sprite) is Ok <==> {
            &&& !(b.impass is Some && b.pass is Some)
            &&& !(b.invis is Some && b.vis is Some)
            &&& sprite is Some
            &&& points_on_tile(b.impass, b.size[0], b.size[1])
            &&& points_on_tile(b.pass, b.size[0], b.size[1])
            &&& points_on_tile(b.invis, b.size[0], b.size[1])
            &&& points_on_tile(b.vis, b.size[0], b.size[1])
        },
{
    let (w, h) = (b.size[0], b.size[1]);
    if let Some(ps) = b.impass {
        lemma_checked_points_meaning("impass"@, w, h, ps);
    }
    if let Some(ps) = b.pass {
        lemma_checked_points_meaning("pass"@, w, h, ps);
    }
    if let Some(ps) = b.invis {
        lemma_checked_points_meaning("invis"@, w, h, ps);
    }
    if let Some(ps) = b.vis {
        lemma_checked_points_meaning("vis"@, w, h, ps);
    }
}

/// A built tile carries the definition's id, size (as `i32`), layer and
/// found sprite; it overrides passability exactly when the definition says
/// so, and not by default; its impassable (invisible) points are the listed
/// ones, in order, where the definition lists them, and none where it gives
/// no list of either kind.
pub proof fn law_built_tile_fields<S>(id: Seq<char>, b: TileBuilderView, sprite: Option<S>, t: TileView<S>)
    requires
        built_tile(id, b, sprite) == Ok::<TileView<S>, ResourceErrorView>(t),
    ensures
        t.id == id,
        t.width == b.size[0] as i32,
        t.height == b.size[1] as i32,
        t.layer == b.layer,
        sprite == Some(t.image_display),
        b.override_impass matches Some(o) ==> t.override_impass == o,
        b.override_impass is None ==> !t.override_impass,
        b.impass matches Some(ps) ==> t.impass.len() == ps.len() && forall|i: int|
            0 <= i < ps.len() ==> #[trigger] t.impass[i] == (Point { x: ps[i][0] as i32, y: ps[i][1] as i32 }),
        b.invis matches Some(ps) ==> t.invis.len() == ps.len() && forall|i: int|
            0 <= i < ps.len() ==> #[trigger] t.invis[i] == (Point { x: ps[i][0] as i32, y: ps[i][1] as i32 }),
        b.impass is None && b.pass is None ==> t.impass.len() == 0,
        b.invis is None && b.vis is None ==> t.invis.len() == 0,
{
    let (w, h) = (b.size[0], b.size[1]);
    if let Some(ps) = b.impass {
        lemma_checked_points_meaning("impass"@, w, h, ps);
    }
    if let Some(ps) = b.invis {
        lemma_checked_points_meaning("invis"@, w, h, ps);
    }
}

} // verus!
