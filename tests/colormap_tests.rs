use immersions_control_engine::colormap::{Palette, Rgb8};
use immersions_control_engine::error::ConfigError;
use immersions_control_engine::surface::{
    ColorAxis, MeshPlan, SurfaceKind,
};
use immersions_control_engine::mesh::Shading;

#[test]
fn palettes_are_found_by_name() {
    assert_eq!(Palette::from_name("jet"), Ok(Palette::Jet));
    assert_eq!(Palette::from_name("cool"), Ok(Palette::Cool));
    assert_eq!(Palette::from_name("hot"), Ok(Palette::Hot));
    assert_eq!(Palette::from_name("gray"), Ok(Palette::Gray));
}

#[test]
fn unknown_palette_is_a_config_error() {
    assert_eq!(Palette::from_name("jett"), Err(ConfigError::UnknownColormap));
    assert_eq!(Palette::from_name(""), Err(ConfigError::UnknownColormap));
    assert_eq!(Palette::from_name("Jet"), Err(ConfigError::UnknownColormap));
}

#[test]
fn palette_names_round_trip() {
    for p in [
        Palette::Jet,
        Palette::Cool,
        Palette::Hot,
        Palette::Spring,
        Palette::Summer,
        Palette::Autumn,
        Palette::Winter,
        Palette::Gray,
    ] {
        assert_eq!(Palette::from_name(p.name()), Ok(p));
        assert!(p.control_points().len() >= 2);
    }
}

#[test]
fn jet_endpoints() {
    let pts = Palette::Jet.control_points();
    assert_eq!(pts.len(), 9);
    assert_eq!(pts[0], Rgb8 { r: 0, g: 0, b: 128 });
    assert_eq!(pts[8], Rgb8 { r: 128, g: 0, b: 0 });
}

#[test]
fn cool_endpoints() {
    let pts = Palette::Cool.control_points();
    assert_eq!(pts, vec![Rgb8 { r: 0, g: 255, b: 255 }, Rgb8 { r: 255, g: 0, b: 255 }]);
}

#[test]
fn axes_by_name() {
    assert_eq!(ColorAxis::from_name("x").map(|a| a.index()), Ok(0));
    assert_eq!(ColorAxis::from_name("y").map(|a| a.index()), Ok(1));
    assert_eq!(ColorAxis::from_name("z").map(|a| a.index()), Ok(2));
    assert_eq!(ColorAxis::from_name("w"), Err(ConfigError::UnknownAxis));
    assert_eq!(ColorAxis::from_name("xy"), Err(ConfigError::UnknownAxis));
}

#[test]
fn plan_checks_segments_before_colormap() {
    assert_eq!(MeshPlan::new(0, 4, true, "nope", "y"), Err(ConfigError::ZeroSegments));
    assert_eq!(MeshPlan::new(4, 4, true, "nope", "y"), Err(ConfigError::UnknownColormap));
    assert_eq!(MeshPlan::new(4, 4, true, "jet", "q"), Err(ConfigError::UnknownAxis));
    assert_eq!(MeshPlan::new(4, 4, false, "nope", "q"), Err(ConfigError::UnknownColormap));
    assert_eq!(MeshPlan::new(4, 4, false, "jet", "q"), Err(ConfigError::UnknownAxis));
    let p = MeshPlan::new(4, 4, false, "jet", "y").unwrap();
    assert!(p.coloring.is_none());
    let p = MeshPlan::new(32, 24, true, "jet", "y").unwrap();
    let c = p.coloring.unwrap();
    assert_eq!(c.palette, Palette::Jet);
    assert_eq!(c.axis, ColorAxis::Y);
    assert_eq!(p.grid.node_count(), 33 * 25);
}

#[test]
fn axis_names_round_trip() {
    for a in [ColorAxis::X, ColorAxis::Y, ColorAxis::Z] {
        assert_eq!(ColorAxis::from_name(a.name()), Ok(a));
    }
    assert_eq!(ColorAxis::Z.name(), "z");
}

#[test]
fn catalog_selection() {
    assert_eq!(SurfaceKind::from_selection(0), SurfaceKind::Torus);
    assert_eq!(SurfaceKind::from_selection(1), SurfaceKind::KleinBottle);
    assert_eq!(SurfaceKind::from_selection(2), SurfaceKind::Wellenkugel);
    assert_eq!(SurfaceKind::from_selection(5), SurfaceKind::Sphere);
    assert_eq!(SurfaceKind::from_selection(99), SurfaceKind::Torus);
}

#[test]
fn catalog_defaults() {
    let t = SurfaceKind::Torus.catalog_entry();
    assert_eq!((t.u_segments, t.v_segments), (32, 24));
    assert_eq!(t.palette, Palette::Jet);
    assert_eq!(t.axis, ColorAxis::Y);
    assert_eq!(t.shading, Shading::Smooth);
    let k = SurfaceKind::KleinBottle.catalog_entry();
    assert_eq!((k.u_segments, k.v_segments), (120, 40));
    let w = SurfaceKind::Wellenkugel.catalog_entry();
    assert_eq!((w.u_segments, w.v_segments), (100, 50));
    assert_eq!(w.palette, Palette::Cool);
    assert_eq!(SurfaceKind::Sinc.catalog_entry().shading, Shading::Flat);
}
