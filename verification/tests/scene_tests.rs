use sph2d::config::{validate_config, SimConfig};
use sph2d::fixed::Fx;
use sph2d::scene::{spawn_grid_scene, spawn_scene_from_samples};

fn fx(raw: i64) -> Fx {
    Fx { raw }
}

// The stock particle spacing, 0.22 units.
const SPACING: i64 = 14418;

#[test]
fn default_config_matches_the_stock_parameters() {
    let c = SimConfig::default();
    assert_eq!(c.collision_damping.raw, 45875);
    assert_eq!(c.smoothing_radius.raw, 85197);
    assert_eq!(c.bounds_size.raw_pair(), (1006633, 566231));
    assert_eq!(c.gravity.raw, 655360);
    assert_eq!(c.particles_num, 402);
    assert_eq!(c.particles_spacing.raw, 14418);
    assert_eq!(c.target_density.raw, 180224);
    assert_eq!(c.pressure_multiplier.raw, 32768);
}

#[test]
fn empty_grid_scene_has_no_particles() {
    assert_eq!(spawn_grid_scene(0, fx(SPACING)).len(), 0);
}

#[test]
fn square_grid_scene_is_centred() {
    let scene = spawn_grid_scene(4, fx(SPACING));
    assert_eq!(scene.len(), 4);
    let positions: Vec<(i64, i64)> = scene.iter().map(|p| p.position.raw_pair()).collect();
    assert_eq!(positions, vec![(-7209, -7209), (7209, -7209), (-7209, 7209), (7209, 7209)]);
    for p in &scene {
        assert_eq!(p.velocity.raw_pair(), (0, 0));
        assert_eq!(p.density.raw, 0);
    }
}

#[test]
fn ragged_grid_scene_fills_rows_first() {
    let scene = spawn_grid_scene(3, fx(SPACING));
    let positions: Vec<(i64, i64)> = scene.iter().map(|p| p.position.raw_pair()).collect();
    assert_eq!(positions, vec![(-7209, -7209), (7209, -7209), (-7209, 7209)]);

    let wide = spawn_grid_scene(5, fx(SPACING));
    let positions5: Vec<(i64, i64)> = wide.iter().map(|p| p.position.raw_pair()).collect();
    assert_eq!(
        positions5,
        vec![(-14418, -7209), (0, -7209), (14418, -7209), (-14418, 7209), (0, 7209)]
    );
}

#[test]
fn sampled_scene_takes_the_coordinates_as_given() {
    let xs = vec![fx(100), fx(-200), fx(0)];
    let ys = vec![fx(-50), fx(75), fx(12345)];
    let scene = spawn_scene_from_samples(&xs, &ys);
    assert_eq!(scene.len(), 3);
    for i in 0..3 {
        assert_eq!(scene[i].position.raw_pair(), (xs[i].raw, ys[i].raw));
        assert_eq!(scene[i].velocity.raw_pair(), (0, 0));
        // the random layout seeds density to one unit
        assert_eq!(scene[i].density.raw, 65536);
    }
}

#[test]
fn validator_accepts_the_stock_config_and_rejects_bad_ones() {
    let good = SimConfig::default();
    assert!(validate_config(&good));

    let mut no_radius = SimConfig::default();
    no_radius.smoothing_radius = fx(0);
    assert!(!validate_config(&no_radius));

    let mut negative_radius = SimConfig::default();
    negative_radius.smoothing_radius = fx(-85197);
    assert!(!validate_config(&negative_radius));

    // a radius so small that its normalising volume truncates to nothing
    let mut tiny_radius = SimConfig::default();
    tiny_radius.smoothing_radius = fx(100);
    assert!(!validate_config(&tiny_radius));

    let mut damping_above_one = SimConfig::default();
    damping_above_one.collision_damping = fx(65537);
    assert!(!validate_config(&damping_above_one));

    let mut damping_below_zero = SimConfig::default();
    damping_below_zero.collision_damping = fx(-1);
    assert!(!validate_config(&damping_below_zero));
}

#[test]
fn large_grid_scene_has_the_requested_population() {
    let scene = spawn_grid_scene(402, fx(SPACING));
    assert_eq!(scene.len(), 402);
    // 402 needs ceil(sqrt(402)) = 21 columns
    let xs: Vec<i64> = scene.iter().map(|p| p.position.x.raw).collect();
    let first_row: Vec<i64> = xs[0..21].to_vec();
    let second_row_start = xs[21];
    assert_eq!(second_row_start, first_row[0]);
    // centred: the leftmost and rightmost columns are symmetric
    assert_eq!(first_row[0], -first_row[20]);
}
