use onionbell::Volume;
use onionbell::VOLUME_FULL;

/// The conversion the configuration boundary applies to a volume read from
/// the configuration file.
fn volume_of_float(x: f64) -> Option<Volume> {
    Volume::from_millionths((x * 1_000_000.0).round() as i64)
}

#[test]
fn boundary_volumes_are_valid() {
    assert_eq!(volume_of_float(0.0).unwrap().millionths(), 0);
    assert_eq!(volume_of_float(1.0).unwrap().millionths(), VOLUME_FULL);
}

#[test]
fn out_of_domain_volumes_are_rejected() {
    assert!(volume_of_float(1.01).is_none());
    assert!(volume_of_float(-0.1).is_none());
    assert!(volume_of_float(100.0).is_none());
    assert!(Volume::from_millionths(1_000_001).is_none());
    assert!(Volume::from_millionths(-1).is_none());
}

#[test]
fn default_volume_is_full_scale() {
    assert_eq!(Volume::default().millionths(), VOLUME_FULL);
    assert_eq!(volume_of_float(0.95).unwrap().millionths(), 950_000);
}
