use base64::engine::general_purpose::STANDARD;
use base64::engine::Engine;
use livesplit_core::image::{Image, ImageFormat, ImageIdSource};
use livesplit_core::run_metadata::RunMetadata;
use livesplit_core::typescript::header;

fn png_bytes() -> Vec<u8> {
    vec![0x89, 0x50, 0x4E, 0x47, 0x0D, 0x0A, 0x1A, 0x0A, 0x00, 0x01, 0x02, 0x03]
}

#[test]
fn image_builds_data_url() {
    let data = png_bytes();
    let mut ids = ImageIdSource::new();
    let image = Image::new(&data, &mut ids);
    let expected = format!("data:image/png;base64,{}", STANDARD.encode(&data));
    assert_eq!(image.url(), expected.as_str());
    assert_eq!(image.id(), 1);
    assert!(matches!(image.format(), Some(ImageFormat::PNG)));
    assert_eq!(image.mime_type(), Some("image/png"));
    assert_eq!(image.file_extension(), Some("png"));
    assert!(!image.is_empty());
}

#[test]
fn image_decode_round_trip() {
    let data = png_bytes();
    let mut ids = ImageIdSource::new();
    let image = Image::new(&data, &mut ids);
    let mut buf = Vec::new();
    image.decode_data(&mut buf).unwrap();
    assert_eq!(buf, data);
}

#[test]
fn image_unknown_format() {
    let data: Vec<u8> = vec![1, 2, 3, 4];
    let mut ids = ImageIdSource::new();
    let image = Image::new(&data, &mut ids);
    assert!(image.format().is_none());
    assert!(image.mime_type().is_none());
    let expected = format!("data:;base64,{}", STANDARD.encode(&data));
    assert_eq!(image.url(), expected.as_str());
    let mut buf = Vec::new();
    image.decode_data(&mut buf).unwrap();
    assert_eq!(buf, data);
}

#[test]
fn image_empty_and_change_tracking() {
    let mut ids = ImageIdSource::new();
    let mut image = Image::new(&[], &mut ids);
    assert!(image.is_empty());
    assert_eq!(image.url(), "");
    let mut seen: usize = 0;
    assert!(image.check_for_change(&mut seen).is_some());
    assert_eq!(seen, 1);
    assert!(image.check_for_change(&mut seen).is_none());
    image.modify(&png_bytes(), &mut ids);
    assert!(image.check_for_change(&mut seen).is_some());
    assert_eq!(seen, 2);
}

#[test]
fn image_equality_is_by_url() {
    let mut ids = ImageIdSource::new();
    let a = Image::new(&png_bytes(), &mut ids);
    let b = Image::new(&png_bytes(), &mut ids);
    assert!(a == b);
    let c = Image::new(&[1, 2, 3], &mut ids);
    assert!(a != c);
}

#[test]
fn image_ids_are_fresh() {
    let mut ids = ImageIdSource::new();
    assert_eq!(ids.last_issued(), 0);
    let a = Image::new(&png_bytes(), &mut ids);
    let b = Image::new(&png_bytes(), &mut ids);
    let c = Image::new(&[], &mut ids);
    assert_eq!(a.id(), 1);
    assert_eq!(b.id(), 2);
    assert_eq!(c.id(), 3);
    assert!(a.id() != 0 && b.id() != 0 && c.id() != 0);
    assert_eq!(ids.last_issued(), 3);
}

#[test]
fn metadata_fields() {
    let mut m = RunMetadata::new();
    assert_eq!(m.run_id(), "");
    assert_eq!(m.platform_name(), "");
    assert_eq!(m.region_name(), "");
    assert!(!m.uses_emulator());
    m.set_run_id("ld2o8zvp");
    m.set_platform_name("PC");
    m.set_region_name("PAL");
    m.set_emulator_usage(true);
    assert_eq!(m.run_id(), "ld2o8zvp");
    assert_eq!(m.platform_name(), "PC");
    assert_eq!(m.region_name(), "PAL");
    assert!(m.uses_emulator());
}

#[test]
fn metadata_variables_keep_order_and_update_in_place() {
    let mut m = RunMetadata::new();
    m.add_variable("Amiibo", "No");
    m.add_variable("Route", "Fast");
    m.add_variable("Amiibo", "Yes");
    let vars = m.variables();
    assert_eq!(vars.len(), 2);
    assert_eq!(vars[0].0.as_str(), "Amiibo");
    assert_eq!(vars[0].1.as_str(), "Yes");
    assert_eq!(vars[1].0.as_str(), "Route");
    assert_eq!(vars[1].1.as_str(), "Fast");
}

#[test]
fn typescript_catalog() {
    let text = header();
    assert!(text.starts_with("export type ComponentStateJson ="));
    assert!(text.contains("export enum TimerPhase {"));
    assert!(text.contains("export type Color = \"Default\" |"));
    assert!(text.contains("SettingsDescriptionValueJson"));
    assert!(text.trim_end().ends_with("\"PersonalBest\";"));
}
