use gz_viewer::adapter::{backend_tier, BackendTier, GpuBackend};
use gz_viewer::asset_proxy::{asset_request_message, poll_missed, ws_asset_key, PendingWsAssetRequests};
use gz_viewer::gz_msgs::fog::FogType;
use gz_viewer::gz_msgs::geometry;
use gz_viewer::gz_msgs::joint;
use gz_viewer::gz_msgs::light::LightType;
use gz_viewer::gz_msgs::material::pbr::WorkflowType;
use gz_viewer::gz_msgs::material::ShaderType;
use gz_viewer::gz_msgs::visual;

#[test]
fn asset_requests() {
    assert_eq!(asset_request_message("file:///m/a.stl"), "asset,,,file:///m/a.stl");
    assert_eq!(ws_asset_key("/m/a.stl"), "/m/a.stl");
}

#[test]
fn reader_key_is_the_uri_without_file_scheme() {
    let uri = "file:///home/user/model/meshes/body.stl";
    let asset_path = gz_viewer::scene::resolve_mesh_uri(uri, gz_viewer::scene::Platform::Web);
    let path = asset_path.strip_prefix("wsasset://").unwrap();
    assert_eq!(ws_asset_key(path), uri.strip_prefix("file://").unwrap());
}

#[test]
fn a_second_request_round_sends_nothing() {
    let mut p = PendingWsAssetRequests::new();
    p.queue("file:///a");
    p.queue("file:///b");
    for uri in p.unsent_uris() {
        p.mark_sent(&uri);
    }
    assert!(p.unsent_uris().is_empty());
    assert!(p.contains_key("file:///a") && p.contains_key("file:///b"));
}

#[test]
fn pending_requests() {
    let mut p = PendingWsAssetRequests::new();
    assert!(p.queue("file:///a"));
    assert!(p.queue("file:///b"));
    assert!(!p.queue("file:///a"));
    assert!(p.contains_key("file:///b"));
    assert!(!p.contains_key("file:///c"));
    assert_eq!(p.unsent_uris(), vec!["file:///a".to_string(), "file:///b".to_string()]);
    p.mark_sent("file:///a");
    p.mark_sent("file:///zzz");
    assert_eq!(p.unsent_uris(), vec!["file:///b".to_string()]);
    assert!(!p.queue("file:///a"));
    assert_eq!(p.unsent_uris(), vec!["file:///b".to_string()]);
}

#[test]
fn polling() {
    let r = poll_missed(0);
    assert_eq!((r.polls, r.report, r.timed_out), (1, false, false));
    let r = poll_missed(99);
    assert_eq!((r.polls, r.report, r.timed_out), (100, true, false));
    let r = poll_missed(5999);
    assert_eq!((r.polls, r.report, r.timed_out), (6000, true, false));
    let r = poll_missed(6000);
    assert_eq!((r.polls, r.report, r.timed_out), (6001, false, true));
    let r = poll_missed(6099);
    assert_eq!((r.polls, r.report, r.timed_out), (6100, true, true));
}

#[test]
fn enum_wire_numbers() {
    assert_eq!(geometry::Type::from_i32(0), Some(geometry::Type::Box));
    assert_eq!(geometry::Type::from_i32(15), Some(geometry::Type::Ellipsoid));
    assert_eq!(geometry::Type::from_i32(16), None);
    assert_eq!(geometry::Type::from_i32(-1), None);
    assert_eq!(geometry::Type::Capsule.to_i32(), 14);
    assert!(geometry::Type::is_valid(11));
    assert!(!geometry::Type::is_valid(16));
    assert_eq!(LightType::from_i32(2), Some(LightType::Directional));
    assert_eq!(LightType::Spot.to_i32(), 1);
    assert_eq!(joint::Type::from_i32(8), Some(joint::Type::Continuous));
    assert_eq!(FogType::from_i32(3), Some(FogType::Exponential2));
    assert_eq!(WorkflowType::from_i32(1), Some(WorkflowType::Metal));
    assert_eq!(ShaderType::from_i32(3), Some(ShaderType::NormalMapTangentSpace));
    assert_eq!(visual::Type::from_i32(6), Some(visual::Type::Gui));
    assert_eq!(visual::Type::default(), visual::Type::Entity);
    assert_eq!(FogType::default(), FogType::NoFog);
    for v in -3..20 {
        if let Some(t) = geometry::Type::from_i32(v) {
            assert_eq!(t.to_i32(), v);
        }
        assert_eq!(geometry::Type::is_valid(v), geometry::Type::from_i32(v).is_some());
    }
}

#[test]
fn backend_tiers() {
    assert_eq!(backend_tier(GpuBackend::Vulkan), BackendTier::Modern);
    assert_eq!(backend_tier(GpuBackend::BrowserWebGpu), BackendTier::Modern);
    assert_eq!(backend_tier(GpuBackend::Gl), BackendTier::OpenGl);
    assert_eq!(backend_tier(GpuBackend::Noop), BackendTier::Other);
}
