use gz_viewer::asset_proxy::PendingWsAssetRequests;
use gz_viewer::gz_msgs::light::LightType;
use gz_viewer::scene::{
    find_entity, path_extension_exec, plan_mesh_load, plan_scene, prepare_mesh_load,
    process_scene, resolve_mesh_uri, scene_decoded, scene_request_sent, take_scene_data,
    worlds_request_sent, GeometryOutline, LightOutline, LinkOutline, MeshFormat, ModelOutline,
    Platform, Primitive, SceneOutline, SceneState, SceneStep, Shape, Spawn, VisualOutline,
};
use gz_viewer::websocket::GzWebSocket;

fn geometry(type_code: i32) -> GeometryOutline {
    GeometryOutline {
        type_code,
        has_box: false,
        has_cylinder: false,
        has_sphere: false,
        has_plane: false,
        has_capsule: false,
        has_cone: false,
        has_mesh: false,
    }
}

fn visual(g: Option<GeometryOutline>) -> VisualOutline {
    VisualOutline { delete_me: false, geometry: g }
}

#[test]
fn request_protocol() {
    let mut state = SceneState::default();
    let mut ws = GzWebSocket::connecting("ws://localhost:9002");
    assert!(matches!(process_scene(&state, &ws), SceneStep::ProcessSceneData));
    ws.protos = Some("protos".to_string());
    match process_scene(&state, &ws) {
        SceneStep::RequestWorlds(r) => assert_eq!(r, "worlds,,,"),
        other => panic!("unexpected {:?}", other),
    }
    worlds_request_sent(&mut state, &mut ws, false);
    assert!(!state.worlds_requested);
    worlds_request_sent(&mut state, &mut ws, true);
    assert!(state.worlds_requested);
    assert_eq!(ws.status, "Requesting Worlds...");
    assert!(matches!(process_scene(&state, &ws), SceneStep::ProcessSceneData));
    state.world_name = Some("shapes".to_string());
    match process_scene(&state, &ws) {
        SceneStep::RequestScene { world, request } => {
            assert_eq!(world, "shapes");
            assert_eq!(request, "scene,shapes,,");
        }
        other => panic!("unexpected {:?}", other),
    }
    let subs = scene_request_sent(&mut state, &mut ws, "shapes", true);
    assert_eq!(
        subs,
        vec![
            "sub,/world/shapes/scene/info,,".to_string(),
            "sub,/world/shapes/dynamic_pose/info,,".to_string()
        ]
    );
    assert!(state.scene_requested);
    assert_eq!(ws.status, "Requesting Scene...");
    assert!(matches!(process_scene(&state, &ws), SceneStep::ProcessSceneData));
    ws.scene_data = Some(vec![1, 2, 3]);
    assert_eq!(take_scene_data(&mut ws), Some(vec![1, 2, 3]));
    assert_eq!(take_scene_data(&mut ws), None);
    scene_decoded(&mut state, &mut ws, Some("buffer underflow"));
    assert!(!state.loaded);
    assert_eq!(ws.status, "Scene Decode Error: buffer underflow");
    scene_decoded(&mut state, &mut ws, None);
    assert!(state.loaded);
    assert_eq!(ws.status, "Scene Loaded");
    assert!(matches!(process_scene(&state, &ws), SceneStep::Finished));
}

#[test]
fn failed_scene_request_changes_nothing() {
    let mut state = SceneState::default();
    let mut ws = GzWebSocket::connecting("u");
    let subs = scene_request_sent(&mut state, &mut ws, "w", false);
    assert!(subs.is_empty());
    assert!(!state.scene_requested);
    assert_eq!(ws.status, "Connecting to u...");
}

#[test]
fn mesh_uris_native() {
    let n = Platform::Native;
    assert_eq!(
        resolve_mesh_uri("/home/u/.gazebo/fuel/fuel.gazebosim.org/o/models/r/1/meshes/b.stl", n),
        "/home/u/.gazebo/fuel/fuel.gazebosim.org/o/models/r/1/meshes/b.stl"
    );
    assert_eq!(
        resolve_mesh_uri("file://home/fuel.gazebosim.org/o/m.stl", n),
        "/home/fuel.gazebosim.org/o/m.stl"
    );
    assert_eq!(
        resolve_mesh_uri("https://fuel.gazebosim.org/1.0/o/models/r/1/files/meshes/b.stl", n),
        "fuel://o/models/r/1/files/meshes/b.stl"
    );
    assert_eq!(resolve_mesh_uri("file:///abs/m.dae", n), "/abs/m.dae");
    assert_eq!(resolve_mesh_uri("file://rel/m.dae", n), "/rel/m.dae");
    assert_eq!(resolve_mesh_uri("model://x/m.dae", n), "model://x/m.dae");
}

#[test]
fn mesh_uris_web() {
    let w = Platform::Web;
    assert_eq!(
        resolve_mesh_uri("/home/u/.gazebo/fuel/fuel.gazebosim.org/o/models/r/1/meshes/b.stl", w),
        "fuel://o/models/r/1/files/meshes/b.stl"
    );
    assert_eq!(resolve_mesh_uri("file:///abs/m.dae", w), "wsasset:///abs/m.dae");
    assert_eq!(resolve_mesh_uri("meshes/m.obj", w), "meshes/m.obj");
}

#[test]
fn extensions() {
    assert_eq!(path_extension_exec("fuel://o/m/b.STL"), "STL");
    assert_eq!(path_extension_exec("/a/b.tar.gz"), "gz");
    assert_eq!(path_extension_exec("/a/.hidden"), "");
    assert_eq!(path_extension_exec("/a/b."), "");
    assert_eq!(path_extension_exec("/a.d/b"), "");
    assert_eq!(path_extension_exec("/a/b.glb/"), "glb");
    assert_eq!(path_extension_exec("/a/b.glb/."), "glb");
    assert_eq!(path_extension_exec("/a/b.glb/.."), "");
    assert_eq!(path_extension_exec(""), "");
}

#[test]
fn mesh_loads() {
    let m = plan_mesh_load("file:///models/robot.GLB", Platform::Native).unwrap();
    assert_eq!(m.asset_path, "/models/robot.GLB");
    assert_eq!(m.format, MeshFormat::Gltf);
    assert_eq!(m.load_path, "/models/robot.GLB#Scene0");
    assert!(!m.request_over_websocket);
    let m = plan_mesh_load("file:///models/robot.stl", Platform::Web).unwrap();
    assert_eq!(m.asset_path, "wsasset:///models/robot.stl");
    assert_eq!(m.format, MeshFormat::Stl);
    assert_eq!(m.load_path, "wsasset:///models/robot.stl");
    assert!(m.request_over_websocket);
    assert_eq!(plan_mesh_load("x.obj", Platform::Web).unwrap().format, MeshFormat::Obj);
    assert_eq!(plan_mesh_load("x.Dae", Platform::Web).unwrap().format, MeshFormat::Collada);
    assert_eq!(plan_mesh_load("x.fbx", Platform::Web).unwrap().format, MeshFormat::Unknown);
    assert_eq!(plan_mesh_load("x.gltf", Platform::Web).unwrap().format, MeshFormat::Gltf);
    assert!(plan_mesh_load("", Platform::Native).is_none());
}

#[test]
fn web_meshes_are_queued_once() {
    let mut pending = PendingWsAssetRequests::new();
    prepare_mesh_load("file:///m/a.stl", Platform::Web, &mut pending).unwrap();
    prepare_mesh_load("file:///m/a.stl", Platform::Web, &mut pending).unwrap();
    prepare_mesh_load("file:///m/b.stl", Platform::Native, &mut pending).unwrap();
    assert_eq!(pending.unsent_uris(), vec!["file:///m/a.stl".to_string()]);
}

#[test]
fn scene_traversal() {
    let mut boxed = geometry(0);
    boxed.has_box = true;
    let mut mesh = geometry(6);
    mesh.has_mesh = true;
    let nested = ModelOutline {
        deleted: false,
        visuals: vec![visual(Some(geometry(2)))],
        links: vec![],
        models: vec![],
    };
    let deleted = ModelOutline { deleted: true, visuals: vec![visual(Some(boxed))], links: vec![], models: vec![] };
    let model = ModelOutline {
        deleted: false,
        visuals: vec![
            visual(Some(boxed)),
            VisualOutline { delete_me: true, geometry: Some(boxed) },
            visual(None),
            visual(Some(geometry(11))),
            visual(Some(geometry(6))),
            visual(Some(mesh)),
        ],
        links: vec![LinkOutline {
            visuals: vec![visual(Some(geometry(14)))],
            lights: vec![
                LightOutline { type_code: 2, is_light_off: false },
                LightOutline { type_code: 1, is_light_off: true },
            ],
        }],
        models: vec![deleted, nested],
    };
    let scene = SceneOutline {
        models: vec![model],
        lights: vec![
            LightOutline { type_code: 1, is_light_off: false },
            LightOutline { type_code: 42, is_light_off: false },
        ],
    };
    let items = plan_scene(&scene);
    let got: Vec<(Vec<usize>, Option<usize>, Spawn)> =
        items.into_iter().map(|i| (i.model, i.link, i.what)).collect();
    let expected = vec![
        (vec![], None, Spawn::Light { index: 0, kind: LightType::Spot }),
        (vec![], None, Spawn::Light { index: 1, kind: LightType::Point }),
        (vec![0], None, Spawn::Visual { index: 0, shape: Shape::Primitive { kind: Primitive::Box, sized: true } }),
        (vec![0], None, Spawn::Visual { index: 5, shape: Shape::Mesh }),
        (vec![0], Some(0), Spawn::Visual { index: 0, shape: Shape::Primitive { kind: Primitive::Capsule, sized: false } }),
        (vec![0], Some(0), Spawn::Light { index: 0, kind: LightType::Directional }),
        (vec![0, 1], None, Spawn::Visual { index: 0, shape: Shape::Primitive { kind: Primitive::Sphere, sized: false } }),
    ];
    assert_eq!(got, expected);
}

#[test]
fn entity_lookup() {
    let names = vec!["a".to_string(), "b".to_string(), "b".to_string()];
    assert_eq!(find_entity(&names, "b"), Some(1));
    assert_eq!(find_entity(&names, "c"), None);
}

#[test]
fn scene_flags_only_move_forward() {
    let mut state = SceneState::default();
    state.world_name = Some("w".to_string());
    let mut ws = GzWebSocket::connecting("u");
    worlds_request_sent(&mut state, &mut ws, true);
    scene_request_sent(&mut state, &mut ws, "w", true);
    scene_decoded(&mut state, &mut ws, None);
    assert!(state.worlds_requested && state.scene_requested && state.loaded);
    worlds_request_sent(&mut state, &mut ws, false);
    scene_request_sent(&mut state, &mut ws, "w", false);
    scene_decoded(&mut state, &mut ws, Some("late error"));
    assert!(state.worlds_requested && state.scene_requested && state.loaded);
    assert_eq!(state.world_name.as_deref(), Some("w"));
    assert!(matches!(process_scene(&state, &ws), SceneStep::Finished));
}
