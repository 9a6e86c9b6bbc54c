use raycast_engine::compositor::{ray_angle, FrameBuffer, RenderError};
use raycast_engine::config::Config;
use raycast_engine::direction::Direction;
use raycast_engine::fixed::{Ratio, ONE};
use raycast_engine::player::Player;
use raycast_engine::shader::{
    floor_band_of, wall_band_of, FloorBand, FloorCuts, Palette, ShadeProfile, WallBand, WallCuts,
};
use raycast_engine::tile_map::{NegativeRule, TileMap};

fn wall_cuts() -> WallCuts {
    WallCuts {
        full: Ratio { num: 1, den: 4 },
        dark: Ratio { num: 1, den: 3 },
        medium: Ratio { num: 1, den: 2 },
    }
}

fn floor_cuts() -> FloorCuts {
    FloorCuts {
        nearest: Ratio { num: 1, den: 4 },
        near: Ratio { num: 1, den: 2 },
        far: Ratio { num: 3, den: 4 },
        farthest: Ratio { num: 9, den: 10 },
    }
}

fn palette() -> Palette {
    Palette {
        background: ' ',
        wall_full: 'F',
        wall_dark: 'D',
        wall_medium: 'M',
        wall_light: 'L',
        floor_nearest: '#',
        floor_near: 'x',
        floor_far: '.',
        floor_farthest: '-',
        map_wall: 'W',
        map_empty: 'o',
        player: 'P',
    }
}

fn profile() -> ShadeProfile {
    ShadeProfile::new(wall_cuts(), floor_cuts(), palette()).unwrap()
}

fn room(side: usize) -> TileMap {
    let mut glyphs: Vec<char> = Vec::new();
    for row in 0..side {
        for col in 0..side {
            let edge = row == 0 || col == 0 || row == side - 1 || col == side - 1;
            glyphs.push(if edge { '#' } else { '.' });
        }
    }
    TileMap::from_glyphs(side, side, &glyphs, '#').unwrap()
}

fn column(frame: &FrameBuffer, x: u16) -> String {
    (0..frame.height()).map(|y| frame.get(x, y).unwrap()).collect()
}

fn row(frame: &FrameBuffer, y: u16) -> String {
    (0..frame.width()).map(|x| frame.get(x, y).unwrap()).collect()
}

#[test]
fn wall_bands_end_at_their_fractions() {
    let cuts = wall_cuts();
    let depth = 12 * ONE;
    assert_eq!(wall_band_of(0, depth, &cuts), WallBand::Full);
    assert_eq!(wall_band_of(3 * ONE, depth, &cuts), WallBand::Full);
    assert_eq!(wall_band_of(3 * ONE + 1, depth, &cuts), WallBand::Dark);
    assert_eq!(wall_band_of(4 * ONE - 1, depth, &cuts), WallBand::Dark);
    assert_eq!(wall_band_of(4 * ONE, depth, &cuts), WallBand::Medium);
    assert_eq!(wall_band_of(6 * ONE - 1, depth, &cuts), WallBand::Medium);
    assert_eq!(wall_band_of(6 * ONE, depth, &cuts), WallBand::Light);
    assert_eq!(wall_band_of(12 * ONE - 1, depth, &cuts), WallBand::Light);
    assert_eq!(wall_band_of(12 * ONE, depth, &cuts), WallBand::Background);
    assert_eq!(wall_band_of(i64::MAX, depth, &cuts), WallBand::Background);
}

#[test]
fn a_third_is_compared_exactly() {
    let cuts = wall_cuts();
    assert_eq!(wall_band_of(33, 100, &cuts), WallBand::Dark);
    assert_eq!(wall_band_of(34, 100, &cuts), WallBand::Medium);
    assert_eq!(wall_band_of(25, 100, &cuts), WallBand::Full);
    assert_eq!(wall_band_of(26, 100, &cuts), WallBand::Dark);
    assert_eq!(wall_band_of(i64::MAX / 3, i64::MAX, &cuts), WallBand::Dark);
    assert_eq!(wall_band_of(i64::MAX / 3 + 1, i64::MAX, &cuts), WallBand::Medium);
}

#[test]
fn walls_never_get_denser_with_distance() {
    let cuts = wall_cuts();
    let level = |band: WallBand| match band {
        WallBand::Full => 0,
        WallBand::Dark => 1,
        WallBand::Medium => 2,
        WallBand::Light => 3,
        WallBand::Background => 4,
    };
    for depth in [1i64, 7, 100, 16 * ONE] {
        let mut last = 0;
        let mut d = -3;
        while d < depth {
            let now = level(wall_band_of(d, depth, &cuts));
            assert!(last <= now && now < 4);
            last = now;
            d += if depth > 1000 { 4099 } else { 1 };
        }
        assert_eq!(level(wall_band_of(depth, depth, &cuts)), 4);
        assert_eq!(level(wall_band_of(depth + 1, depth, &cuts)), 4);
    }
}

#[test]
fn wall_shade_picks_the_glyph_of_the_band() {
    let shades = profile();
    assert_eq!(shades.wall_shade(ONE, 16 * ONE), 'F');
    assert_eq!(shades.wall_shade(5 * ONE, 16 * ONE), 'D');
    assert_eq!(shades.wall_shade(6 * ONE, 16 * ONE), 'M');
    assert_eq!(shades.wall_shade(8 * ONE, 16 * ONE), 'L');
    assert_eq!(shades.wall_shade(16 * ONE, 16 * ONE), ' ');
    assert_eq!(shades.wall_shade(17 * ONE, 16 * ONE), ' ');
}

#[test]
fn floor_bands_follow_the_gradient() {
    let cuts = floor_cuts();
    assert_eq!(floor_band_of(39, 40, &cuts), FloorBand::Nearest);
    assert_eq!(floor_band_of(36, 40, &cuts), FloorBand::Nearest);
    assert_eq!(floor_band_of(35, 40, &cuts), FloorBand::Near);
    assert_eq!(floor_band_of(31, 40, &cuts), FloorBand::Near);
    assert_eq!(floor_band_of(30, 40, &cuts), FloorBand::Far);
    assert_eq!(floor_band_of(26, 40, &cuts), FloorBand::Far);
    assert_eq!(floor_band_of(25, 40, &cuts), FloorBand::Farthest);
    assert_eq!(floor_band_of(23, 40, &cuts), FloorBand::Farthest);
    assert_eq!(floor_band_of(22, 40, &cuts), FloorBand::Background);
    assert_eq!(floor_band_of(20, 40, &cuts), FloorBand::Background);
    assert_eq!(floor_band_of(0, 40, &cuts), FloorBand::Background);
}

#[test]
fn the_middle_of_the_screen_is_background_and_the_bottom_nearest() {
    let shades = profile();
    for height in [9u16, 10, 40, 41, 200, u16::MAX] {
        assert_eq!(shades.floor_shade(height / 2, height), ' ');
        assert_eq!(shades.floor_shade(height - 1, height), '#');
    }
    assert_eq!(shades.floor_shade(7, 8), 'x');
    assert_eq!(shades.floor_shade(0, 1), ' ');
    assert_eq!(shades.floor_shade(0, 0), ' ');
}

#[test]
fn the_floor_never_looks_farther_towards_the_bottom() {
    let cuts = floor_cuts();
    let level = |band: FloorBand| match band {
        FloorBand::Nearest => 0,
        FloorBand::Near => 1,
        FloorBand::Far => 2,
        FloorBand::Farthest => 3,
        FloorBand::Background => 4,
    };
    for height in [1u16, 2, 3, 17, 40, 255] {
        let mut last = 4;
        for y in 0..height {
            let now = level(floor_band_of(y, height, &cuts));
            assert!(now <= last);
            last = now;
        }
    }
}

#[test]
fn a_profile_needs_proper_fractions() {
    let mut wall = wall_cuts();
    wall.dark = Ratio { num: 4, den: 3 };
    assert!(ShadeProfile::new(wall, floor_cuts(), palette()).is_none());
    let mut floor = floor_cuts();
    floor.farthest = Ratio { num: 1, den: 0 };
    assert!(ShadeProfile::new(wall_cuts(), floor, palette()).is_none());
    let mut wall = wall_cuts();
    wall.full = Ratio { num: 2, den: 5 };
    assert!(ShadeProfile::new(wall, floor_cuts(), palette()).is_none());
    wall.full = Ratio { num: 2, den: 6 };
    assert!(ShadeProfile::new(wall, floor_cuts(), palette()).is_some());
    let mut floor = floor_cuts();
    floor.far = Ratio { num: 91, den: 100 };
    assert!(ShadeProfile::new(wall_cuts(), floor, palette()).is_none());
    assert!(!wall_cuts().full.is_at_most(&Ratio { num: 24, den: 100 }));
    assert!(wall_cuts().full.is_at_most(&Ratio { num: 25, den: 100 }));
    assert!(wall_cuts().is_proper() && floor_cuts().is_proper());
    let made = ShadeProfile::new(wall_cuts(), floor_cuts(), palette()).unwrap();
    assert_eq!(made.wall_cuts(), wall_cuts());
    assert_eq!(made.floor_cuts(), floor_cuts());
    assert_eq!(made.palette(), palette());
}

#[test]
fn ray_angles_sample_the_field_of_view_evenly() {
    assert_eq!(ray_angle(0, 51472, 0, 120), Some(-25736));
    assert_eq!(ray_angle(0, 51472, 60, 120), Some(0));
    assert_eq!(ray_angle(0, 51472, 119, 120), Some(-25736 + 51043));
    assert_eq!(ray_angle(1000, 51472, 30, 120), Some(1000 - 25736 + 12868));
    assert_eq!(ray_angle(0, 5, 1, 2), Some(0));
    assert_eq!(ray_angle(0, -5, 1, 2), Some(0));
    assert_eq!(ray_angle(7, -4, 1, 3), Some(7 + 2 - 2));
}

#[test]
fn ray_angles_exist_for_the_columns_of_the_screen_only() {
    assert_eq!(ray_angle(0, 51472, 120, 120), None);
    assert_eq!(ray_angle(0, 51472, 0, 0), None);
    assert_eq!(ray_angle(i64::MAX, -2, 0, 10), None);
    assert_eq!(ray_angle(i64::MAX, 2, 0, 10), Some(i64::MAX - 1));
    assert_eq!(ray_angle(i64::MIN, i64::MIN, 0, 10), Some(i64::MIN / 2));
    assert_eq!(ray_angle(i64::MIN, i64::MAX, 0, 10), None);
}

#[test]
fn a_new_frame_is_filled() {
    let frame = FrameBuffer::new(3, 2, '*');
    assert_eq!(frame.width(), 3);
    assert_eq!(frame.height(), 2);
    assert_eq!(frame.glyphs(), &vec!['*'; 6]);
    assert_eq!(frame.get(2, 1), Some('*'));
    assert_eq!(frame.get(3, 0), None);
    assert_eq!(frame.get(0, 2), None);
    let none = FrameBuffer::new(0, 7, '*');
    assert!(none.glyphs().is_empty());
    assert_eq!(none.get(0, 0), None);
}

#[test]
fn render_draws_ceiling_wall_and_floor() {
    let map = room(16);
    let player = Player::new(5 * ONE / 2, 5 * ONE / 2, 0);
    let config = Config::new(51472, 16 * ONE, 6554, ONE, ONE, None, NegativeRule::Outside).unwrap();
    let ahead = Direction::new(0, ONE).unwrap();
    let eyes = vec![ahead; 20];
    let mut frame = FrameBuffer::new(20, 40, '?');
    assert_eq!(frame.render(&map, &player, &eyes, &config, &profile()), Ok(()));
    let expected = "                 LLLLLLL--.....xxxxx####";
    for x in 16..20 {
        assert_eq!(column(&frame, x), expected);
    }
    assert_eq!(column(&frame, 15), "WWWWWWWWWWWWWWWW LLLLLLL--.....xxxxx####");
    assert_eq!(column(&frame, 3), "WooooooooooooooW LLLLLLL--.....xxxxx####");
    assert_eq!(column(&frame, 2), "WoPooooooooooooW LLLLLLL--.....xxxxx####");
    assert_eq!(row(&frame, 0), "WWWWWWWWWWWWWWWW    ");
    assert_eq!(row(&frame, 2), "WoPooooooooooooW    ");
    assert_eq!(row(&frame, 15), "WWWWWWWWWWWWWWWW    ");
    assert_eq!(row(&frame, 16), "                    ");
    assert_eq!(row(&frame, 17), "LLLLLLLLLLLLLLLLLLLL");
    assert_eq!(row(&frame, 39), "####################");
}

#[test]
fn render_shades_each_column_by_its_own_ray() {
    let map = room(16);
    let player = Player::new(2 * ONE + ONE / 2, 2 * ONE + ONE / 2, 0);
    let edges = Some(Ratio { num: 1, den: 100 });
    let config = Config::new(51472, 16 * ONE, 6554, ONE, ONE, edges, NegativeRule::Outside).unwrap();
    let mut eyes = vec![Direction::new(0, ONE).unwrap(); 20];
    eyes[16] = Direction::new(0, -ONE).unwrap();
    eyes[17] = Direction::new(-ONE, 0).unwrap();
    eyes[18] = Direction::new(ONE, 0).unwrap();
    eyes[19] = Direction::new(2521, 65488).unwrap();
    let mut frame = FrameBuffer::new(20, 24, '?');
    assert_eq!(frame.render(&map, &player, &eyes, &config, &profile()), Ok(()));
    assert_eq!(column(&frame, 16), "FFFFFFFFFFFFFFFFFFFFFFFF");
    assert_eq!(column(&frame, 17), "FFFFFFFFFFFFFFFFFFFFFFFF");
    assert_eq!(column(&frame, 18), "           LLL--...xxx##");
    assert_eq!(column(&frame, 19), "              --...xxx##");
}

#[test]
fn render_marks_the_player_outside_the_map_too() {
    let map = room(4);
    let player = Player::new(5 * ONE, 6 * ONE, 0);
    let config = Config::new(0, 2 * ONE, ONE, ONE, ONE, None, NegativeRule::Outside).unwrap();
    let eyes = vec![Direction::new(0, ONE).unwrap(); 8];
    let mut frame = FrameBuffer::new(8, 8, '?');
    assert_eq!(frame.render(&map, &player, &eyes, &config, &profile()), Ok(()));
    assert_eq!(frame.get(6, 5), Some('P'));
    assert_eq!(row(&frame, 0), "WWWW    ");
    assert_eq!(row(&frame, 1), "WooW    ");
    assert_eq!(row(&frame, 4), "        ");
    assert_eq!(row(&frame, 5), "      P ");
    assert_eq!(row(&frame, 7), "        ");
}

#[test]
fn render_clips_the_map_to_the_frame() {
    let map = room(6);
    let player = Player::new(4 * ONE + 1, ONE, 0);
    let config = Config::new(0, 8 * ONE, ONE / 2, ONE, ONE, None, NegativeRule::Outside).unwrap();
    let eyes = vec![Direction::new(0, ONE).unwrap(); 3];
    let mut frame = FrameBuffer::new(3, 4, '?');
    assert_eq!(frame.render(&map, &player, &eyes, &config, &profile()), Ok(()));
    assert_eq!(row(&frame, 0), "WWW");
    assert_eq!(row(&frame, 1), "Woo");
    assert_eq!(row(&frame, 3), "Woo");
}

#[test]
fn render_wants_one_bearing_for_each_column() {
    let map = room(4);
    let player = Player::new(ONE, ONE, 0);
    let config = Config::new(0, 2 * ONE, ONE, ONE, ONE, None, NegativeRule::Outside).unwrap();
    let eyes = vec![Direction::new(0, ONE).unwrap(); 7];
    let mut frame = FrameBuffer::new(8, 8, '?');
    assert_eq!(
        frame.render(&map, &player, &eyes, &config, &profile()),
        Err(RenderError::ColumnCount)
    );
    assert_eq!(frame.glyphs(), &vec!['?'; 64]);
    let mut empty = FrameBuffer::new(0, 0, '?');
    assert_eq!(empty.render(&map, &player, &Vec::new(), &config, &profile()), Ok(()));
}
