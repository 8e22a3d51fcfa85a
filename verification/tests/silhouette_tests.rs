use navaltoolbox::silhouette::{format_for_extension, format_for_lowercase_extension, Silhouette, SilhouetteFormat};

fn p(x: f64, z: f64) -> [u64; 3] {
    [x.to_bits(), 0.0f64.to_bits(), z.to_bits()]
}

#[test]
fn silhouette_keeps_points_and_name() {
    let pts = vec![p(0.0, 0.0), p(100.0, 0.0), p(100.0, 20.0), p(0.0, 20.0), p(0.0, 0.0)];
    let s = Silhouette::new(pts.clone(), "rectangle".to_string());
    assert_eq!(s.name(), "rectangle");
    assert_eq!(s.num_points(), 5);
    assert_eq!(s.points(), pts.as_slice());
}

#[test]
fn silhouette_set_name() {
    let mut s = Silhouette::new(vec![p(0.0, 0.0)], "a".to_string());
    s.set_name("hull profile");
    assert_eq!(s.name(), "hull profile");
    assert_eq!(s.num_points(), 1);
}

#[test]
fn format_by_extension() {
    assert_eq!(format_for_extension("dxf"), Some(SilhouetteFormat::Dxf));
    assert_eq!(format_for_extension("vtk"), Some(SilhouetteFormat::Vtk));
    assert_eq!(format_for_extension("vtp"), Some(SilhouetteFormat::Vtk));
    assert_eq!(format_for_extension("vtu"), Some(SilhouetteFormat::Vtk));
    assert_eq!(format_for_extension("csv"), Some(SilhouetteFormat::Csv));
    assert_eq!(format_for_extension("txt"), Some(SilhouetteFormat::Csv));
}

#[test]
fn format_ignores_case() {
    assert_eq!(format_for_extension("DXF"), Some(SilhouetteFormat::Dxf));
    assert_eq!(format_for_extension("Vtp"), Some(SilhouetteFormat::Vtk));
    assert_eq!(format_for_extension("TXT"), Some(SilhouetteFormat::Csv));
}

#[test]
fn unsupported_extension() {
    assert_eq!(format_for_extension("stl"), None);
    assert_eq!(format_for_extension(""), None);
    assert_eq!(format_for_extension("dxf "), None);
}

#[test]
fn format_of_lowercase_extension() {
    assert_eq!(format_for_lowercase_extension("dxf"), Some(SilhouetteFormat::Dxf));
    assert_eq!(format_for_lowercase_extension("vtp"), Some(SilhouetteFormat::Vtk));
    assert_eq!(format_for_lowercase_extension("txt"), Some(SilhouetteFormat::Csv));
    assert_eq!(format_for_lowercase_extension("DXF"), None);
    assert_eq!(format_for_lowercase_extension("stl"), None);
}
