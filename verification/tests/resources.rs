use parallaxation2d::float::F32;
use parallaxation2d::resources::{ParallaxConfig, ParallaxContext};

fn f(x: f32) -> F32 {
    F32::from_bits(x.to_bits())
}

#[test]
fn resources_new_default_context() {
    let context = ParallaxContext::new(ParallaxConfig::default());
    assert_eq!(context.0.scale, f(1.0));
    assert_eq!(context.0.near_depth, f(10.0));
    assert_eq!(context.0.neutral_depth, f(0.0));
    assert_eq!(context.0.far_depth, f(-100.0));
}

#[test]
fn resources_new_context() {
    let context = ParallaxContext::new(ParallaxConfig {
        scale: f(-5.0),
        near_depth: f(0.0),
        neutral_depth: f(-1.0),
        far_depth: f(1.0),
    });

    assert_eq!(context.0.scale, f(-5.0));
    assert_eq!(context.0.near_depth, f(-1.0));
    assert_eq!(context.0.neutral_depth, f(-1.0));
    assert_eq!(context.0.far_depth, f(-2.0));
}

#[test]
fn resources_calculate_depth_factor() {
    let context = ParallaxContext::new(ParallaxConfig {
        neutral_depth: f(5.0),
        ..Default::default()
    });
    let near = context.calculate_depth_factor(f(15.0));
    let far = context.calculate_depth_factor(f(-95.0));
    let neutral = context.calculate_depth_factor(f(0.0));
    let twice = context.calculate_depth_factor(f(-15.0));
    let half = context.calculate_depth_factor(f(7.5));

    assert_eq!(near, ParallaxContext::depth_factor_max());
    assert_eq!(far, ParallaxContext::depth_factor_min());
    assert_eq!(neutral, f(1.0));
    assert_eq!(twice, f(0.5));
    assert_eq!(half, f(2.0));
}

#[test]
fn default_config_values() {
    let config = ParallaxConfig::default();
    assert_eq!(config.scale.to_bits(), 1.0f32.to_bits());
    assert_eq!(config.near_depth.to_bits(), (-10.0f32).to_bits());
    assert_eq!(config.neutral_depth.to_bits(), 0.0f32.to_bits());
    assert_eq!(config.far_depth.to_bits(), 100.0f32.to_bits());
}

#[test]
fn factor_bounds_are_zero_and_a_hundred() {
    assert_eq!(ParallaxContext::depth_factor_min().to_bits(), 0.0f32.to_bits());
    assert_eq!(ParallaxContext::depth_factor_max().to_bits(), 100.0f32.to_bits());
}

#[test]
fn convert_depth_subtracts_from_the_neutral_depth() {
    let config = ParallaxConfig { neutral_depth: f(5.0), ..Default::default() };
    assert_eq!(ParallaxConfig::convert_depth(config, f(20.0)).to_bits(), (-15.0f32).to_bits());
    let context = ParallaxContext::new(config);
    assert_eq!(context.convert_depth(f(-10.0)).to_bits(), 15.0f32.to_bits());
    assert_eq!(context.convert_depth(f(0.1)).to_bits(), (5.0f32 - 0.1f32).to_bits());
    assert_eq!(context.scale().to_bits(), 1.0f32.to_bits());
}

#[test]
fn bounds_already_in_world_depth_are_kept() {
    let context = ParallaxContext::new(ParallaxConfig {
        scale: f(1.0),
        near_depth: f(10.0),
        neutral_depth: f(3.0),
        far_depth: f(-100.0),
    });
    assert_eq!(context.0.near_depth.to_bits(), 10.0f32.to_bits());
    assert_eq!(context.0.far_depth.to_bits(), (-100.0f32).to_bits());
    let equal = ParallaxContext::new(ParallaxConfig {
        scale: f(1.0),
        near_depth: f(4.0),
        neutral_depth: f(3.0),
        far_depth: f(4.0),
    });
    assert_eq!(equal.0.near_depth.to_bits(), 4.0f32.to_bits());
    assert_eq!(equal.0.far_depth.to_bits(), 4.0f32.to_bits());
}

#[test]
fn factor_is_clamped_at_and_beyond_the_bounds() {
    let context = ParallaxContext::new(ParallaxConfig {
        scale: f(3.0),
        neutral_depth: f(5.0),
        ..Default::default()
    });
    // near = 15, far = -95 in world depth
    for w in [-95.0f32, -95.5, -1.0e6, f32::NEG_INFINITY] {
        assert_eq!(context.calculate_depth_factor(f(w)).to_bits(), (0.0f32 * 3.0).to_bits());
    }
    for w in [15.0f32, 15.5, 1.0e6, f32::INFINITY] {
        assert_eq!(context.calculate_depth_factor(f(w)).to_bits(), (100.0f32 * 3.0).to_bits());
    }
    assert_eq!(context.calculate_depth_factor(f(0.0)).to_bits(), 3.0f32.to_bits());
}

#[test]
fn factor_grows_towards_the_near_depth() {
    let context = ParallaxContext::new(ParallaxConfig::default());
    let worlds = [-99.0f32, -50.0, -15.0, -1.0, 0.0, 0.5, 3.0, 7.5, 9.0];
    let mut last = context.calculate_depth_factor(f(-99.5));
    for w in worlds {
        let next = context.calculate_depth_factor(f(w));
        assert!(last <= next);
        assert_eq!(next.to_bits(), (10.0f32 / (10.0f32 - w)).to_bits());
        last = next;
    }
}

#[test]
fn factor_of_a_nan_depth_is_nan() {
    let context = ParallaxContext::new(ParallaxConfig::default());
    let got = context.calculate_depth_factor(f(f32::NAN));
    assert!(f32::from_bits(got.to_bits()).is_nan());
}

#[test]
fn factor_falls_towards_the_near_depth_under_a_negative_scale() {
    let context = ParallaxContext::new(ParallaxConfig { scale: f(-2.0), ..Default::default() });
    let worlds = [-99.0f32, -50.0, -15.0, -1.0, 0.0, 0.5, 3.0, 7.5, 9.0];
    let mut last = context.calculate_depth_factor(f(-99.5));
    for w in worlds {
        let next = context.calculate_depth_factor(f(w));
        assert!(next <= last);
        assert_eq!(next.to_bits(), (10.0f32 / (10.0f32 - w) * -2.0).to_bits());
        last = next;
    }
}

#[test]
fn factor_falls_towards_a_negative_near_depth() {
    // near depth -10 and far depth -100 in world depth
    let context = ParallaxContext::new(ParallaxConfig {
        scale: f(1.0),
        near_depth: f(-10.0),
        neutral_depth: f(-20.0),
        far_depth: f(80.0),
    });
    assert_eq!(context.0.near_depth.to_bits(), (-10.0f32).to_bits());
    assert_eq!(context.0.far_depth.to_bits(), (-100.0f32).to_bits());
    let worlds = [-90.0f32, -50.0, -30.0, -15.0, -11.0, -10.5];
    let mut last = context.calculate_depth_factor(f(-99.0));
    for w in worlds {
        let next = context.calculate_depth_factor(f(w));
        assert!(next <= last);
        assert_eq!(next.to_bits(), (-10.0f32 / (-10.0f32 - w)).to_bits());
        last = next;
    }
}

#[test]
fn factor_at_the_neutral_plane_is_the_scale() {
    for scale in [1.0f32, 2.0, 0.3, -5.0, 1.0e-40, 3.0e38] {
        for (near, far) in [(-10.0f32, 100.0f32), (-0.1, 0.1), (-1.0e30, 1.0e-30)] {
            let context = ParallaxContext::new(ParallaxConfig {
                scale: f(scale),
                near_depth: f(near),
                neutral_depth: f(0.0),
                far_depth: f(far),
            });
            assert_eq!(context.calculate_depth_factor(f(0.0)).to_bits(), scale.to_bits());
        }
    }
}
