use sulis::error::ResourceError;
use sulis::id_map::IdMap;
use sulis::point::Point;
use sulis::tile::{
    verify_point, EdgeRules, ImpassInvis, NonUniformSet, TerrainRules, Tile, TileBuilder,
    Tileset, UniformSet, WallRules,
};

fn s(text: &str) -> String {
    text.to_string()
}

fn builder(size: [usize; 2]) -> TileBuilder {
    TileBuilder {
        size,
        layer: s("terrain"),
        sprite: s("grass"),
        impass: None,
        invis: None,
        pass: None,
        vis: None,
        override_impass: None,
    }
}

fn edges() -> EdgeRules {
    EdgeRules {
        inner_edge_postfix: s("_inner"),
        outer_edge_postfix: s("_outer"),
        n_postfix: s("_n"),
        s_postfix: s("_s"),
        e_postfix: s("_e"),
        w_postfix: s("_w"),
        ne_postfix: s("_ne"),
        se_postfix: s("_se"),
        nw_postfix: s("_nw"),
        sw_postfix: s("_sw"),
    }
}

fn empty_tileset() -> Tileset {
    Tileset {
        id: s("forest"),
        tiles: IdMap::new(),
        uniform_sets: IdMap::new(),
        non_uniform_sets: IdMap::new(),
        terrain_rules: TerrainRules {
            grid_width: 4,
            grid_height: 4,
            base_layer: s("terrain"),
            border_layer: s("terrain_border"),
            prefix: s("terrain_"),
            base_postfix: s("_base"),
            variant_postfix: s("_var"),
            base_weight: 10,
            edges: edges(),
        },
        terrain_kinds: Vec::new(),
        wall_rules: WallRules {
            grid_width: 2,
            grid_height: 2,
            layers: vec![s("walls")],
            prefix: s("wall_"),
            edges: edges(),
        },
        wall_kinds: Vec::new(),
    }
}

fn pt(x: i32, y: i32) -> Point {
    Point::new(x, y)
}

#[test]
fn verify_point_accepts_point_on_tile() {
    assert_eq!(verify_point("impass", 2, 3, vec![1, 2]), Ok((1, 2)));
}

#[test]
fn verify_point_accepts_x_equal_to_width() {
    assert_eq!(verify_point("impass", 2, 3, vec![2, 0]), Ok((2, 0)));
}

#[test]
fn verify_point_rejects_y_equal_to_height() {
    assert_eq!(
        verify_point("invis", 2, 3, vec![0, 3]),
        Err(ResourceError::PointOutOfBounds { kind: s("invis"), width: 2, height: 3 })
    );
}

#[test]
fn verify_point_rejects_x_beyond_width() {
    assert_eq!(
        verify_point("pass", 2, 3, vec![3, 0]),
        Err(ResourceError::PointOutOfBounds { kind: s("pass"), width: 2, height: 3 })
    );
}

#[test]
fn verify_point_rejects_wrong_length() {
    assert_eq!(
        verify_point("vis", 2, 3, vec![1]),
        Err(ResourceError::PointLength { kind: s("vis") })
    );
    assert_eq!(
        verify_point("vis", 2, 3, vec![1, 1, 1]),
        Err(ResourceError::PointLength { kind: s("vis") })
    );
}

#[test]
fn tile_new_keeps_listed_points_in_order() {
    let mut b = builder([3, 2]);
    b.impass = Some(vec![vec![2, 1], vec![0, 0]]);
    b.invis = Some(vec![vec![1, 0]]);
    b.override_impass = Some(true);
    let t = Tile::new(s("rock"), b, Some(s("grass_sprite"))).unwrap();
    assert_eq!(t.id, "rock");
    assert_eq!(t.width, 3);
    assert_eq!(t.height, 2);
    assert_eq!(t.layer, "terrain");
    assert_eq!(t.image_display, "grass_sprite");
    assert_eq!(t.impass, vec![pt(2, 1), pt(0, 0)]);
    assert_eq!(t.invis, vec![pt(1, 0)]);
    assert!(t.override_impass);
}

#[test]
fn tile_new_without_points_blocks_nothing() {
    let t = Tile::new(s("grass"), builder([2, 2]), Some(s("grass_sprite"))).unwrap();
    assert!(t.impass.is_empty());
    assert!(t.invis.is_empty());
    assert!(!t.override_impass);
}

#[test]
fn tile_new_pass_blocks_every_other_cell() {
    let mut b = builder([2, 3]);
    b.pass = Some(vec![vec![0, 1], vec![1, 2]]);
    let t = Tile::new(s("door"), b, Some(s("grass_sprite"))).unwrap();
    assert_eq!(t.impass, vec![pt(0, 0), pt(0, 2), pt(1, 0), pt(1, 1)]);
    assert!(t.invis.is_empty());
}

#[test]
fn tile_new_vis_hides_every_other_cell() {
    let mut b = builder([2, 2]);
    b.vis = Some(vec![vec![1, 1]]);
    let t = Tile::new(s("window"), b, Some(s("grass_sprite"))).unwrap();
    assert_eq!(t.invis, vec![pt(0, 0), pt(0, 1), pt(1, 0)]);
    assert!(t.impass.is_empty());
}

#[test]
fn tile_new_pass_on_far_edge_blocks_whole_tile() {
    let mut b = builder([1, 2]);
    b.pass = Some(vec![vec![1, 0]]);
    let t = Tile::new(s("edge"), b, Some(s("grass_sprite"))).unwrap();
    assert_eq!(t.impass, vec![pt(0, 0), pt(0, 1)]);
}

#[test]
fn tile_new_refuses_pass_and_impass() {
    let mut b = builder([2, 2]);
    b.impass = Some(vec![vec![0, 0]]);
    b.pass = Some(vec![vec![1, 1]]);
    assert_eq!(
        Tile::new(s("bad"), b, Some(s("grass_sprite"))).unwrap_err(),
        ResourceError::UnableToCreate { kind: s("tile"), id: s("bad") }
    );
}

#[test]
fn tile_new_refuses_vis_and_invis() {
    let mut b = builder([2, 2]);
    b.invis = Some(Vec::new());
    b.vis = Some(Vec::new());
    assert_eq!(
        Tile::new(s("worse"), b, Some(s("grass_sprite"))).unwrap_err(),
        ResourceError::UnableToCreate { kind: s("tile"), id: s("worse") }
    );
}

#[test]
fn tile_new_reports_first_bad_point() {
    let mut b = builder([2, 2]);
    b.pass = Some(vec![vec![0, 0], vec![5], vec![9, 9]]);
    assert_eq!(
        Tile::new(s("t"), b, Some(s("grass_sprite"))).unwrap_err(),
        ResourceError::PointLength { kind: s("pass") }
    );
}

#[test]
fn tile_new_checks_impass_before_invis() {
    let mut b = builder([2, 2]);
    b.impass = Some(vec![vec![0, 2]]);
    b.invis = Some(vec![vec![7]]);
    assert_eq!(
        Tile::new(s("t"), b, Some(s("grass_sprite"))).unwrap_err(),
        ResourceError::PointOutOfBounds { kind: s("impass"), width: 2, height: 2 }
    );
}

#[test]
fn tile_new_reports_bad_vis_point() {
    let mut b = builder([2, 2]);
    b.vis = Some(vec![vec![0, 2]]);
    assert_eq!(
        Tile::new(s("t"), b, Some(s("grass_sprite"))).unwrap_err(),
        ResourceError::PointOutOfBounds { kind: s("vis"), width: 2, height: 2 }
    );
}

fn uniform(prefix: &str, tiles: &[&str], impass: Vec<Vec<usize>>) -> UniformSet {
    UniformSet {
        size: [2, 2],
        layer: s("walls"),
        sprite_prefix: s(prefix),
        impass,
        invis: Vec::new(),
        tiles: tiles.iter().map(|t| s(t)).collect(),
    }
}

#[test]
fn move_uniform_defines_each_tile() {
    let mut ts = empty_tileset();
    ts.uniform_sets.insert(s("stone"), uniform("wall_", &["a", "b"], vec![vec![0, 0]]));
    ts.move_uniform();
    assert_eq!(ts.tiles.len(), 2);
    let a = ts.tiles.get(&s("wall_a")).unwrap();
    assert_eq!(a.sprite, "wall_a");
    assert_eq!(a.layer, "walls");
    assert_eq!(a.size, [2, 2]);
    assert_eq!(a.impass, Some(vec![vec![0, 0]]));
    assert_eq!(a.invis, None);
    assert_eq!(a.pass, None);
    assert_eq!(a.vis, None);
    assert_eq!(a.override_impass, None);
    assert!(ts.tiles.get(&s("wall_b")).is_some());
    assert!(ts.tiles.get(&s("a")).is_none());
}

#[test]
fn move_uniform_later_set_replaces_tile_of_same_name() {
    let mut ts = empty_tileset();
    ts.tiles.insert(s("keep"), builder([1, 1]));
    ts.uniform_sets.insert(s("first"), uniform("x_", &["a"], vec![vec![1, 1]]));
    ts.uniform_sets.insert(s("second"), uniform("x_", &["a"], Vec::new()));
    ts.move_uniform();
    assert_eq!(ts.tiles.len(), 2);
    assert_eq!(ts.tiles.get(&s("x_a")).unwrap().impass, None);
    assert_eq!(ts.tiles.get(&s("keep")).unwrap().sprite, "grass");
}

#[test]
fn move_non_uniform_defines_each_tile() {
    let mut set_tiles = IdMap::new();
    set_tiles.insert(s("gate"), ImpassInvis { impass: Some(vec![vec![0, 1]]), invis: None });
    set_tiles.insert(s("arch"), ImpassInvis { impass: None, invis: Some(vec![vec![1, 0]]) });
    let mut ts = empty_tileset();
    ts.non_uniform_sets.insert(
        s("castle"),
        NonUniformSet { size: [3, 2], layer: s("objects"), sprite_prefix: s("castle_"), tiles: set_tiles },
    );
    ts.move_non_uniform();
    let gate = ts.tiles.get(&s("castle_gate")).unwrap();
    assert_eq!(gate.sprite, "castle_gate");
    assert_eq!(gate.size, [3, 2]);
    assert_eq!(gate.layer, "objects");
    assert_eq!(gate.impass, Some(vec![vec![0, 1]]));
    assert_eq!(gate.invis, None);
    let arch = ts.tiles.get(&s("castle_arch")).unwrap();
    assert_eq!(arch.impass, None);
    assert_eq!(arch.invis, Some(vec![vec![1, 0]]));
}

#[test]
fn move_tiles_non_uniform_sets_come_last() {
    let mut set_tiles = IdMap::new();
    set_tiles.insert(s("a"), ImpassInvis { impass: None, invis: None });
    let mut ts = empty_tileset();
    ts.uniform_sets.insert(s("u"), uniform("p_", &["a", "b"], vec![vec![0, 0]]));
    ts.non_uniform_sets.insert(
        s("n"),
        NonUniformSet { size: [1, 1], layer: s("top"), sprite_prefix: s("p_"), tiles: set_tiles },
    );
    ts.move_tiles();
    assert_eq!(ts.tiles.len(), 2);
    assert_eq!(ts.tiles.get(&s("p_a")).unwrap().layer, "top");
    assert_eq!(ts.tiles.get(&s("p_b")).unwrap().layer, "walls");
    assert_eq!(ts.uniform_sets.len(), 1);
    assert_eq!(ts.non_uniform_sets.len(), 1);
}

#[test]
fn tileset_owned_id() {
    assert_eq!(empty_tileset().owned_id(), "forest");
}

#[test]
fn tile_new_refuses_missing_sprite() {
    let mut b = builder([2, 2]);
    b.impass = Some(vec![vec![1, 1]]);
    assert_eq!(
        Tile::<String>::new(s("t"), b, None).unwrap_err(),
        ResourceError::UnableToCreate { kind: s("sprite"), id: s("grass") }
    );
}

#[test]
fn tile_new_reports_bad_point_before_missing_sprite() {
    let mut b = builder([2, 2]);
    b.invis = Some(vec![vec![3, 0]]);
    assert_eq!(
        Tile::<String>::new(s("t"), b, None).unwrap_err(),
        ResourceError::PointOutOfBounds { kind: s("invis"), width: 2, height: 2 }
    );
}

#[test]
fn tiles_are_equal_by_id() {
    let mut b1 = builder([2, 2]);
    b1.impass = Some(vec![vec![0, 0]]);
    let t1 = Tile::new(s("same"), b1, Some(1u8)).unwrap();
    let t2 = Tile::new(s("same"), builder([3, 1]), Some(2u8)).unwrap();
    let t3 = Tile::new(s("other"), builder([2, 2]), Some(1u8)).unwrap();
    assert!(t1 == t2);
    assert!(t1 != t3);
}

#[test]
fn move_uniform_twice_changes_no_tile() {
    let mut ts = empty_tileset();
    ts.uniform_sets.insert(s("first"), uniform("x_", &["a", "b"], vec![vec![1, 1]]));
    ts.uniform_sets.insert(s("second"), uniform("x_", &["a"], Vec::new()));
    ts.move_tiles();
    let before: Vec<(String, Option<Vec<Vec<usize>>>)> = (0..ts.tiles.len())
        .map(|i| (ts.tiles.id_at(i).clone(), ts.tiles.value_at(i).impass.clone()))
        .collect();
    ts.move_uniform();
    ts.move_tiles();
    let after: Vec<(String, Option<Vec<Vec<usize>>>)> = (0..ts.tiles.len())
        .map(|i| (ts.tiles.id_at(i).clone(), ts.tiles.value_at(i).impass.clone()))
        .collect();
    assert_eq!(before, after);
    assert_eq!(ts.tiles.get(&s("x_a")).unwrap().impass, None);
}
