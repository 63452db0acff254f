use parallaxation2d::depth::{Depth, DepthType};
use parallaxation2d::float::F32;
use parallaxation2d::resources::{ParallaxConfig, ParallaxContext};

fn f(x: f32) -> F32 {
    F32::from_bits(x.to_bits())
}

#[test]
fn depth_to_world_with_factor() {
    let context = ParallaxContext::new(ParallaxConfig {
        scale: f(2.0),
        neutral_depth: f(5.0),
        ..Default::default()
    });

    let near = Depth::from_parallax(f(-10.0)).to_world_with_factor(&context);
    let far = Depth::from_parallax(f(100.0)).to_world_with_factor(&context);
    let neutral = Depth::from_parallax(f(5.0)).to_world_with_factor(&context);
    let double = Depth::from_parallax(f(20.0)).to_world_with_factor(&context);
    let third = Depth::default().to_world_with_factor(&context);
    let custom = Depth::from_world(f(-10.0), f(1.0));

    assert_eq!(near.depth(), f(15.0));
    assert_eq!(far.depth(), f(-95.0));
    assert_eq!(neutral.depth(), f(0.0));
    assert_eq!(double.depth(), f(-15.0));
    assert_eq!(third.depth(), f(5.0));
    assert_eq!(custom.depth(), f(-10.0));

    // Double factors from scale = 2.0
    assert_eq!(
        near.depth_factor(),
        Some(ParallaxContext::depth_factor_max() * f(2.0))
    );
    assert_eq!(
        far.depth_factor(),
        Some(ParallaxContext::depth_factor_min() * f(2.0))
    );
    assert_eq!(neutral.depth_factor(), Some(f(2.0)));
    assert_eq!(double.depth_factor(), Some(f(1.0)));
    assert_eq!(third.depth_factor(), Some(f(3.0)));
    // But not custom world depth
    assert_eq!(custom.depth_factor(), Some(f(1.0)));
}

#[test]
fn depth_ordering() {
    let context = ParallaxContext::new(ParallaxConfig {
        scale: f(2.0),
        neutral_depth: f(5.0),
        ..Default::default()
    });

    let near_parallax: Depth = f(-10.0).into();
    let far_parallax: Depth = f(100.0).into();
    let neutral_parallax: Depth = f(5.0).into();

    let near = near_parallax.to_world_with_factor(&context);
    let far = far_parallax.to_world_with_factor(&context);
    let neutral = neutral_parallax.to_world_with_factor(&context);

    // Not compatible
    assert_ne!(near, near_parallax);
    assert_ne!(neutral, far_parallax);
    assert!(!(near < near_parallax));
    assert!(!(far_parallax >= neutral));

    // Assert ordering for WorldWithFactor
    assert!(near == near);
    assert!(near != neutral);
    assert!(far <= far);
    assert!(neutral >= far);
    assert!(neutral < near);
    assert!(near > far);

    // Assert ordering for Parallax
    assert!(near_parallax == near_parallax);
    assert!(near_parallax != neutral_parallax);
    assert!(far_parallax >= far_parallax);
    assert!(neutral_parallax <= far_parallax);
    assert!(neutral_parallax > near_parallax);
    assert!(near_parallax < far_parallax);
}

#[test]
fn depth_getters() {
    let context = ParallaxContext::new(ParallaxConfig {
        neutral_depth: f(5.0),
        ..Default::default()
    });

    let depth: Depth = f(-5.0).into();
    assert_eq!(depth.depth(), f(-5.0));
    assert_eq!(depth.depth_factor(), None);

    let depth = depth.to_world_with_factor(&context);
    assert_eq!(depth.depth(), f(10.0));
    assert_eq!(depth.depth_factor(), Some(f(3.0)));

    let depth = depth.to_world_with_factor(&context);
    assert_eq!(depth.depth(), f(10.0));
    assert_eq!(depth.depth_factor(), Some(f(3.0)));

    let depth = Depth::from_world(f(50.0), f(-10.0)).to_world_with_factor(&context);
    assert_eq!(depth.depth(), f(50.0));
    assert_eq!(depth.depth_factor(), Some(f(-10.0)));
}

#[test]
fn default_depth_is_parallax_zero() {
    let depth = Depth::default();
    assert!(matches!(depth.0, DepthType::Parallax(_)));
    assert_eq!(depth.depth().to_bits(), 0.0f32.to_bits());
    assert_eq!(depth.depth_factor(), None);
}

#[test]
fn from_world_keeps_the_factor_as_given() {
    let context = ParallaxContext::new(ParallaxConfig { scale: f(7.0), ..Default::default() });
    let depth = Depth::from_world(f(3.0), f(0.25)).to_world_with_factor(&context);
    assert_eq!(depth.depth().to_bits(), 3.0f32.to_bits());
    assert_eq!(depth.depth_factor().map(|x| x.to_bits()), Some(0.25f32.to_bits()));
}

#[test]
fn resolving_twice_changes_nothing() {
    let context = ParallaxContext::new(ParallaxConfig {
        scale: f(2.0),
        neutral_depth: f(5.0),
        ..Default::default()
    });
    for v in [-1.0e30f32, -250.0, -10.0, -0.5, 0.0, 0.1, 5.0, 20.0, 99.0, 100.0, 1.0e30, f32::INFINITY, f32::NAN] {
        let once = Depth::from_parallax(f(v)).to_world_with_factor(&context);
        let twice = once.to_world_with_factor(&context);
        assert_eq!(once.depth().to_bits(), twice.depth().to_bits());
        assert_eq!(
            once.depth_factor().map(|x| x.to_bits()),
            twice.depth_factor().map(|x| x.to_bits())
        );
        if !v.is_nan() && v.is_finite() {
            assert_eq!(once, twice);
        }
    }
}

#[test]
fn a_nan_depth_equals_nothing() {
    let nan = Depth::from_world(f(f32::NAN), f(1.0));
    assert!(nan != nan);
    assert_eq!(nan.partial_cmp(&nan), None);
}

#[test]
fn forms_of_equal_number_do_not_compare() {
    let resolved = Depth::from_world(f(4.0), f(1.0));
    let unresolved = Depth::from_parallax(f(4.0));
    assert!(resolved != unresolved);
    assert!(unresolved != resolved);
    assert_eq!(resolved.partial_cmp(&unresolved), None);
    assert_eq!(unresolved.partial_cmp(&resolved), None);
    assert!(!(resolved < unresolved) && !(resolved > unresolved));
    assert!(!(resolved <= unresolved) && !(resolved >= unresolved));
    assert!(!(unresolved < resolved) && !(unresolved > resolved));
    assert!(!(unresolved <= resolved) && !(unresolved >= resolved));
}

#[test]
fn equality_of_resolved_depths_ignores_the_factor() {
    assert_eq!(Depth::from_world(f(4.0), f(1.0)), Depth::from_world(f(4.0), f(9.0)));
    assert_eq!(Depth::from_world(f(0.0), f(1.0)), Depth::from_world(f(-0.0), f(1.0)));
}

#[test]
fn resolve_matches_the_formula() {
    let cases = [
        (1.0f32, 0.0f32, -10.0f32, 100.0f32),
        (2.0, 5.0, -10.0, 100.0),
        (0.5, -3.0, -7.5, 42.0),
        (-5.0, -1.0, 0.0, 1.0),
        (1.5, 2.0, -5.0, 5.0),
        (3.0, 1.0, 10.0, -10.0),
    ];
    let depths = [-20.0f32, -10.0, -7.5, -5.0, -1.0, 0.0, 0.3, 1.0, 2.0, 5.0, 17.25, 42.0, 100.0, 250.0];
    for (scale, neutral, near, far) in cases {
        let context = ParallaxContext::new(ParallaxConfig {
            scale: f(scale),
            near_depth: f(near),
            neutral_depth: f(neutral),
            far_depth: f(far),
        });
        let (near_w, far_w) = if near < far { (neutral - near, neutral - far) } else { (near, far) };
        for v in depths {
            let world = neutral - v;
            let unscaled = if world <= far_w {
                0.0
            } else if world >= near_w {
                100.0
            } else {
                near_w / (near_w - world)
            };
            let factor = unscaled * scale;
            let got = Depth::from_parallax(f(v)).to_world_with_factor(&context);
            assert_eq!(got.depth().to_bits(), world.to_bits());
            assert_eq!(got.depth_factor().map(|x| x.to_bits()), Some(factor.to_bits()));
        }
    }
}

#[test]
fn a_layer_at_the_neutral_depth_has_the_scale_as_its_factor() {
    for (scale, neutral) in [(2.0f32, 5.0f32), (1.0, 0.0), (0.5, -3.0), (-4.0, 40.0)] {
        let context = ParallaxContext::new(ParallaxConfig {
            scale: f(scale),
            near_depth: f(neutral - 10.0),
            neutral_depth: f(neutral),
            far_depth: f(neutral + 100.0),
        });
        let depth = Depth::from_parallax(f(neutral)).to_world_with_factor(&context);
        assert_eq!(depth.depth().to_bits(), 0.0f32.to_bits());
        assert_eq!(depth.depth_factor().map(|x| x.to_bits()), Some(scale.to_bits()));
    }
}
