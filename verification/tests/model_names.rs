use interact::model_name::{model, model_kind, model_len, model_str, sdf_shape, ModelKind, SdfShape};

#[test]
fn model_packs_short_name_with_nul_padding() {
    let buf = model("sphere.glb");
    assert_eq!(&buf[..10], b"sphere.glb");
    assert!(buf[10..].iter().all(|&b| b == 0));
}

#[test]
fn model_truncates_long_names_to_31_bytes() {
    let name = "a_very_long_model_file_name_that_overflows.glb";
    let buf = model(name);
    assert_eq!(&buf[..31], &name.as_bytes()[..31]);
    assert_eq!(buf[31], 0);
    assert_eq!(model_len(&buf), 31);
    assert_eq!(model_str(&buf), &name[..31]);
}

#[test]
fn model_empty_name_is_all_zero() {
    assert_eq!(model(""), [0u8; 32]);
    assert_eq!(model_len(&[0u8; 32]), 0);
    assert_eq!(model_str(&[0u8; 32]), "");
}

#[test]
fn model_str_round_trips_names() {
    for name in ["plane.glb", "room.glb", "particle.glb", "sun_sphere.glb", "ö.glb"] {
        assert_eq!(model_str(&model(name)), name);
    }
}

#[test]
fn model_str_without_nul_reads_all_32_bytes() {
    let buf = [b'x'; 32];
    assert_eq!(model_len(&buf), 32);
    assert_eq!(model_str(&buf), "x".repeat(32));
}

#[test]
fn model_str_falls_back_to_sphere_on_invalid_utf8() {
    let mut buf = [0u8; 32];
    buf[0] = 0xff;
    buf[1] = b'a';
    assert_eq!(model_str(&buf), "sphere.glb");
}

#[test]
fn model_truncation_inside_a_character_falls_back() {
    // 30 ASCII bytes followed by a two-byte character: the 31-byte cut splits it.
    let name = format!("{}é", "a".repeat(30));
    let buf = model(&name);
    assert_eq!(buf[30], 0xc3);
    assert_eq!(model_str(&buf), "sphere.glb");
}

#[test]
fn model_kind_classifies_known_models() {
    assert_eq!(model_kind("plane.glb"), ModelKind::Plane);
    assert_eq!(model_kind("sphere.glb"), ModelKind::Sphere);
    assert_eq!(model_kind("particle.glb"), ModelKind::Particle);
    assert_eq!(model_kind("sun_sphere.glb"), ModelKind::SunSphere);
    assert_eq!(model_kind("cube.glb"), ModelKind::Cube);
    assert_eq!(model_kind("room.glb"), ModelKind::Room);
    assert_eq!(model_kind("torus.glb"), ModelKind::Torus);
    assert_eq!(model_kind("star.glb"), ModelKind::Star);
    assert_eq!(model_kind("sphere.gl"), ModelKind::Other);
    assert_eq!(model_kind("Sphere.glb"), ModelKind::Other);
    assert_eq!(model_kind(""), ModelKind::Other);
}

#[test]
fn sdf_shapes_of_models() {
    assert_eq!(sdf_shape(ModelKind::Sphere), Some(SdfShape::Sphere));
    assert_eq!(sdf_shape(ModelKind::Particle), Some(SdfShape::Sphere));
    assert_eq!(sdf_shape(ModelKind::Cube), Some(SdfShape::Box));
    assert_eq!(sdf_shape(ModelKind::Star), Some(SdfShape::Box));
    assert_eq!(sdf_shape(ModelKind::Torus), Some(SdfShape::Torus));
    assert_eq!(sdf_shape(ModelKind::Room), None);
    assert_eq!(sdf_shape(ModelKind::Plane), None);
    assert_eq!(sdf_shape(ModelKind::SunSphere), None);
    assert_eq!(sdf_shape(ModelKind::Other), None);
}

#[test]
fn invalid_model_buffer_is_treated_as_sphere() {
    let mut buf = [0u8; 32];
    buf[0] = 0x80;
    assert_eq!(sdf_shape(model_kind(model_str(&buf))), Some(SdfShape::Sphere));
}
