use raycast_engine::config::Config;
use raycast_engine::direction::Direction;
use raycast_engine::fixed::{Ratio, ONE};
use raycast_engine::raycaster::{cast, RayResult};
use raycast_engine::tile_map::{NegativeRule, TileMap};

const ROWS: [&str; 16] = [
    "################",
    "#..............#",
    "#.......########",
    "#..............#",
    "#......##......#",
    "#......##......#",
    "#..............#",
    "###............#",
    "##.............#",
    "#......####..###",
    "#......#.......#",
    "#......#.......#",
    "#..............#",
    "#......#########",
    "#..............#",
    "################",
];

const CASES: [(i64, i64, i64, i64, i64, i64, bool, i64, bool); 60] = [
    (702897, 924270, 0, -65536, 1048576, 32768, true, 425984, false),
    (776469, 384581, 0, -65536, 1048576, 32768, true, 327680, false),
    (98060, 278367, -65242, -6203, 458765, 65536, true, 65536, false),
    (550281, 717545, 56108, 33865, 1048576, 100, false, 352400, false),
    (664715, 336556, -45732, 46942, 1048576, 1000, false, 671000, false),
    (785388, 123068, 56579, 33073, 458765, 32768, true, 229376, false),
    (817389, 528303, 46341, 46341, 1048576, 100, false, 49000, false),
    (768071, 370283, 64819, 9666, 1048576, 1000, true, 218000, false),
    (633859, 83771, -65532, -692, 458765, 1000, false, 45000, false),
    (218633, 144276, 47537, -45114, 1048576, 32768, false, 131072, false),
    (541406, 343700, 0, -65536, 458765, 32768, true, 229376, false),
    (65536, 147339, -2842, 65474, 1048576, 65536, true, 65536, false),
    (718365, 126132, 58605, -29332, 458765, 6554, false, 137634, false),
    (417492, 772000, -28384, -59071, 1048576, 65536, false, 262144, false),
    (367226, 68326, 65536, 0, 1048576, 65536, true, 131072, false),
    (399345, 511723, -64680, 10557, 458765, 6554, false, 6554, false),
    (631638, 735100, 46341, 46341, 1048576, 100, false, 311600, false),
    (976955, 383989, -58054, -30409, 1048576, 32768, false, 524288, false),
    (509752, 896922, 0, 65536, 262144, 6554, false, 91756, false),
    (206068, 396846, -65536, 0, 1048576, 65536, false, 196608, false),
    (920456, 711993, 51583, -40425, 1048576, 1000, true, 80000, false),
    (622592, 358331, 0, 65536, 262144, 65536, true, 131072, false),
    (901957, 333374, -44745, 47884, 1048576, 100, true, 171600, true),
    (917504, 416588, 23851, 61042, 262144, 65536, false, 196608, false),
    (883119, 331092, -50154, -42185, 262144, 1000, false, 262144, false),
    (709784, 346838, -7162, 65143, 1048576, 65536, false, 131072, false),
    (321155, 745237, 65063, 7858, 262144, 32768, true, 262144, false),
    (572470, 550138, 63728, -15286, 262144, 1000, true, 18000, false),
    (720896, 659737, 46341, 46341, 1048576, 65536, false, 196608, false),
    (949590, 381888, 43498, 49019, 262144, 32768, true, 65536, false),
    (98304, 794602, -19614, -62532, 1048576, 100, false, 109500, false),
    (562938, 400921, 37273, 53904, 262144, 65536, false, 131072, false),
    (532763, 889037, 63327, -16873, 458765, 1000, false, 60000, false),
    (586892, 964157, 46341, 46341, 1048576, 65536, true, 65536, false),
    (821461, 550823, 55261, 35231, 262144, 1000, true, 37000, false),
    (726186, 239789, 21913, 61764, 458765, 100, true, 376200, true),
    (229376, 814416, -49129, -43374, 1048576, 6554, true, 45878, false),
    (613837, 108612, 61182, -23490, 458765, 1000, true, 121000, false),
    (835676, 839428, 65536, 0, 1048576, 32768, true, 32768, false),
    (479547, 570967, -62479, 19783, 458765, 1000, true, 297000, false),
    (262145, 251315, 53736, -37515, 1048576, 1000, true, 240000, false),
    (442558, 378806, 46341, 46341, 1048576, 1000, true, 209000, true),
    (327681, 161115, 0, -65536, 458765, 65536, true, 131072, true),
    (818709, 306479, 2606, 65484, 1048576, 32768, true, 688128, true),
    (294912, 762684, 61738, -21985, 1048576, 65536, true, 327680, true),
    (656638, 133054, 0, -65536, 262144, 32768, true, 98304, true),
    (751769, 794336, 8377, -64998, 1048576, 100, true, 734900, true),
    (825209, 437561, -22120, 61690, 1048576, 32768, false, 524288, true),
    (439221, 224465, -17907, -63042, 458765, 100, false, 165300, true),
    (950272, 540123, -21257, -61993, 1048576, 100, false, 501800, true),
    (65536, 359878, 0, -65536, 1048576, 6554, false, 294930, true),
    (147549, 220471, 24124, -60934, 262144, 6554, false, 170404, false),
    (658500, 388232, 60238, 25814, 458765, 100, true, 210500, false),
    (432472, 423806, 65536, 0, 1048576, 6554, true, 557090, false),
    (830641, 170178, -22179, -61669, 1048576, 1000, true, 112000, false),
    (670549, 95190, -1124, 65526, 262144, 1000, false, 262144, false),
    (769334, 952855, 14435, 63926, 458765, 65536, true, 65536, false),
    (945083, 302149, -65536, 0, 262144, 1000, false, 262144, false),
    (112450, 524047, 50186, -42146, 262144, 32768, false, 262144, false),
    (622592, 808853, 63088, -17746, 262144, 1000, true, 239000, false),
];

/// Rays through a map with inner walls, each with the distance and the
/// boundary mark that exact arithmetic gives: origin, sine, cosine, maximum
/// depth, step size, whether negative coordinates are clamped, and the
/// result.
#[test]
fn rays_through_a_furnished_map() {
    let glyphs: Vec<char> = ROWS.iter().flat_map(|row| row.chars()).collect();
    let map = TileMap::from_glyphs(16, 16, &glyphs, '#').unwrap();
    let mut marked = 0;
    for (x, y, sin, cos, depth, step, clamp, distance, boundary) in CASES {
        let rule = if clamp { NegativeRule::Clamp } else { NegativeRule::Outside };
        let edges = Some(Ratio { num: 1, den: 100 });
        let config = Config::new(0, depth, step, ONE, ONE, edges, rule).unwrap();
        let eye = Direction::new(sin, cos).unwrap();
        assert_eq!(cast(&map, x, y, eye, &config), RayResult { distance, boundary });
        if boundary {
            marked += 1;
        }
    }
    assert_eq!(marked, 12);
}
