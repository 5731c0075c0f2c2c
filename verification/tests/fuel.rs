use gz_viewer::fuel::{create_fuel_asset_path, fuel_path_to_url, is_fuel_uri, FUEL_HOST, IGN_FUEL_HOST};

#[test]
fn test_is_fuel_uri() {
    assert!(is_fuel_uri(
        "https://fuel.gazebosim.org/1.0/openrobotics/models/robot/1/files/body.stl"
    ));
    assert!(is_fuel_uri(
        "/home/user/.gazebo/fuel/fuel.gazebosim.org/openrobotics/models/robot/1/meshes/body.stl"
    ));
    assert!(is_fuel_uri(
        "/tmp/fuel.ignitionrobotics.org/owner/models/robot/1/meshes/body.glb"
    ));
    assert!(!is_fuel_uri("/home/user/my_model/meshes/body.stl"));
    assert!(!is_fuel_uri("file:///absolute/path.stl"));
}

#[test]
fn test_local_path_to_fuel_asset_path() {
    let input = "/home/user/.gazebo/fuel/fuel.gazebosim.org/openrobotics/models/robot/1/meshes/body.stl";
    assert_eq!(
        create_fuel_asset_path(input),
        "fuel://openrobotics/models/robot/1/files/meshes/body.stl"
    );
}

#[test]
fn test_https_url_to_fuel_asset_path() {
    let input = "https://fuel.gazebosim.org/1.0/openrobotics/models/robot/1/files/meshes/body.stl";
    assert_eq!(
        create_fuel_asset_path(input),
        "fuel://openrobotics/models/robot/1/files/meshes/body.stl"
    );
}

#[test]
fn test_non_fuel_passthrough() {
    let input = "file:///home/user/model/meshes/body.stl";
    assert_eq!(create_fuel_asset_path(input), input);
}

#[test]
fn fuel_constants() {
    assert_eq!(FUEL_HOST, "fuel.gazebosim.org");
    assert_eq!(IGN_FUEL_HOST, "fuel.ignitionrobotics.org");
}

#[test]
fn fuel_url_of_asset_path() {
    assert_eq!(
        fuel_path_to_url("openrobotics/models/robot/1/files/meshes/body.stl"),
        "https://fuel.gazebosim.org/1.0/openrobotics/models/robot/1/files/meshes/body.stl"
    );
}

#[test]
fn https_url_round_trips_through_asset_path() {
    let url = "https://fuel.gazebosim.org/1.0/owner/models/name/2/files/a.dae";
    let path = create_fuel_asset_path(url);
    let rest = path.strip_prefix("fuel://").unwrap();
    assert_eq!(fuel_path_to_url(rest), url);
}

#[test]
fn unversioned_https_url() {
    assert_eq!(
        create_fuel_asset_path("https://fuel.gazebosim.org/owner/models/x/1/files/m.stl"),
        "fuel://owner/models/x/1/files/m.stl"
    );
}

#[test]
fn legacy_host_https_url() {
    assert_eq!(
        create_fuel_asset_path("https://fuel.ignitionrobotics.org/1.0/o/models/m/3/files/a.obj"),
        "fuel://o/models/m/3/files/a.obj"
    );
}

#[test]
fn legacy_host_local_path() {
    assert_eq!(
        create_fuel_asset_path("/tmp/fuel.ignitionrobotics.org/owner/models/robot/1/meshes/body.glb"),
        "fuel://owner/models/robot/1/files/meshes/body.glb"
    );
}

#[test]
fn local_path_with_repeated_slashes() {
    assert_eq!(
        create_fuel_asset_path("/c/fuel.gazebosim.org//owner//models/robot/1///meshes/x.stl"),
        "fuel://owner/models/robot/1/files/meshes/x.stl"
    );
}

#[test]
fn local_path_with_few_components() {
    assert_eq!(
        create_fuel_asset_path("/c/fuel.gazebosim.org/owner/models"),
        "fuel://owner/models"
    );
}

#[test]
fn host_with_nothing_after_is_kept() {
    let input = "/cache/fuel.gazebosim.org/";
    assert_eq!(create_fuel_asset_path(input), input);
}

#[test]
fn host_with_nothing_after_tries_legacy_host() {
    assert_eq!(
        create_fuel_asset_path("/a/fuel.ignitionrobotics.org/o/m/fuel.gazebosim.org"),
        "fuel://o/m/fuel.gazebosim.org"
    );
}
