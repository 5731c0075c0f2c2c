//! The scene request protocol, the traversal of a decoded scene into the
//! entities to spawn, and the resolution of mesh URIs into asset paths.
use vstd::prelude::*;
use crate::fuel::{
    create_fuel_asset_path, fuel_asset_path, https_versioned_prefix, is_fuel_uri, lemma_https_asset_path_roundtrip,
    lemma_local_cache_asset_path, FUEL_HOST, IGN_FUEL_HOST,
};
use crate::gz_msgs::geometry;
use crate::gz_msgs::light::LightType;
use crate::asset_proxy::{queued, PendingWsAssetRequests};
use crate::websocket::GzWebSocket;
use crate::text::{
    ascii_lower, ascii_lowercase_exec, chars_of, contains, is_clean_path, is_component, is_prefix, lemma_last_dot, lemma_segments_component, lemma_segments_split,
    occurs_at, last_index_of,
    last_index_of_exec, lemma_last_index_of, push_str, segments, segments_exec, str_eq, str_starts_with,
    string_of, string_of_range,
};

verus! {

/// Tracks whether the scene has been loaded.
#[derive(Debug)]
pub struct SceneState {
    pub loaded: bool,
    pub scene_requested: bool,
    pub worlds_requested: bool,
    pub world_name: Option<String>,
}

/// The fields of a [`SceneState`], strings taken by their characters.
pub struct SceneStateView {
    pub loaded: bool,
    pub scene_requested: bool,
    pub worlds_requested: bool,
    pub world_name: Option<Seq<char>>,
}

impl View for SceneState {
    type V = SceneStateView;

    open spec fn view(&self) -> SceneStateView {
        SceneStateView {
            loaded: self.loaded,
            scene_requested: self.scene_requested,
            worlds_requested: self.worlds_requested,
            world_name: match self.world_name {
                Some(w) => Some(w@),
                None => None,
            },
        }
    }
}

impl Default for SceneState {
    /// Nothing requested, nothing loaded, no world known.
    fn default() -> (s: Self)
        ensures
            !s.loaded,
            !s.scene_requested,
            !s.worlds_requested,
            s.world_name is None,
    {
        SceneState { loaded: false, scene_requested: false, worlds_requested: false, world_name: None }
    }
}

// ───────────────────────── mesh assets ─────────────────────────

/// The platform the viewer runs on: a native desktop build, or a browser
/// build with no file system.
#[derive(Clone, Copy, Debug, PartialEq, Eq, Structural)]
pub enum Platform {
    Native,
    Web,
}

/// `path` as an absolute path: a `/` is put in front unless there is one.
pub open spec fn absolute(path: Seq<char>) -> Seq<char> {
    if is_prefix("/"@, path) {
        path
    } else {
        "/"@ + path
    }
}

/// `uri` without a leading `file://`.
pub open spec fn without_file_scheme(uri: Seq<char>) -> Seq<char> {
    if is_prefix("file://"@, uri) {
        uri.skip("file://"@.len() as int)
    } else {
        uri
    }
}

/// The asset path of a mesh URI.
///
/// 1. Fuel URIs: on native builds a local cache path (neither `https://` nor
///    `http://`) is read from disk as an absolute path (without `file://`);
///    HTTPS URLs, and every Fuel URI on the web, become `fuel://` paths.
/// 2. `file://` URIs: the absolute path on native builds; `wsasset://<path>`
///    on the web, to be fetched over the websocket.
/// 3. Everything else is kept.
pub open spec fn mesh_asset_path(uri: Seq<char>, platform: Platform) -> Seq<char> {
    if contains(uri, FUEL_HOST@) || contains(uri, IGN_FUEL_HOST@) {
        if platform == Platform::Native && !is_prefix("https://"@, uri) && !is_prefix(
            "http://"@,
            uri,
        ) {
            absolute(without_file_scheme(uri))
        } else {
            fuel_asset_path(uri)
        }
    } else if is_prefix("file://"@, uri) {
        match platform {
            Platform::Native => absolute(without_file_scheme(uri)),
            Platform::Web => "wsasset://"@ + without_file_scheme(uri),
        }
    } else {
        uri
    }
}

/// `"/" + path` unless `path` starts with `/`.
fn absolute_exec(path: &str) -> (r: String)
    ensures
        r@ == absolute(path@),
{
    if str_starts_with(path, "/") {
        string_of(path)
    } else {
        let mut r = string_of("/");
        push_str(&mut r, path);
        r
    }
}

/// `uri` without a leading `file://`.
fn without_file_scheme_exec(uri: &str) -> (r: String)
    ensures
        r@ == without_file_scheme(uri@),
{
    let v = chars_of(uri);
    let scheme = chars_of("file://");
    if str_starts_with(uri, "file://") {
        assert(v@.subrange(scheme@.len() as int, v@.len() as int) =~= v@.skip(scheme@.len() as int));
        string_of_range(&v, scheme.len(), v.len())
    } else {
        string_of_range(&v, 0, v.len())
    }
}

/// Converts a Gazebo mesh URI to a path the asset server can load.
pub fn resolve_mesh_uri(filename: &str, platform: Platform) -> (r: String)
    ensures
        r@ == mesh_asset_path(filename@, platform),
{
    if is_fuel_uri(filename) {
        if platform == Platform::Native && !str_starts_with(filename, "https://")
            && !str_starts_with(filename, "http://") {
            let path = without_file_scheme_exec(filename);
            return absolute_exec(path.as_str());
        }
        return create_fuel_asset_path(filename);
    }
    if str_starts_with(filename, "file://") {
        let path = without_file_scheme_exec(filename);
        return match platform {
            Platform::Native => absolute_exec(path.as_str()),
            Platform::Web => {
                let mut r = string_of("wsasset://");
                push_str(&mut r, path.as_str());
                r
            },
        };
    }
    string_of(filename)
}

/// The last file name among the path components `segs`: `.` components
/// are passed over, and a final `..` has no file name.
pub open spec fn file_name_of(segs: Seq<Seq<char>>) -> Option<Seq<char>>
    decreases segs.len(),
{
    if segs.len() == 0 {
        None
    } else if segs.last() == "."@ {
        file_name_of(segs.drop_last())
    } else if segs.last() == ".."@ {
        None
    } else {
        Some(segs.last())
    }
}

/// The extension of a file name: the text after its last `.`, unless there
/// is no `.` or the only one starts the name.
pub open spec fn extension_of(name: Seq<char>) -> Option<Seq<char>> {
    match last_index_of(name, '.') {
        Some(i) => if i == 0 {
            None
        } else {
            Some(name.skip(i + 1))
        },
        None => None,
    }
}

/// The extension of the path's file name (as `Path::extension` gives it),
/// or the empty text when it has none.
pub open spec fn path_extension(path: Seq<char>) -> Seq<char> {
    match file_name_of(segments(path, '/')) {
        Some(name) => match extension_of(name) {
            Some(e) => e,
            None => ""@,
        },
        None => ""@,
    }
}

/// The extension of `path`'s file name, or the empty string.
pub fn path_extension_exec(path: &str) -> (r: String)
    ensures
        r@ == path_extension(path@),
{
    let v = chars_of(path);
    let segs = segments_exec(&v, '/');
    let ghost views = segs@.map_values(|x: String| x@);
    let mut n = segs.len();
    assert(views.take(n as int) =~= views);
    let mut name: Option<usize> = None;
    let mut done = false;
    while n > 0 && !done
        invariant
            n <= segs.len(),
            views == segs@.map_values(|x: String| x@),
            !done ==> name is None,
            !done ==> file_name_of(views) == file_name_of(views.take(n as int)),
            done ==> (name matches Some(k) ==> k < segs.len() && file_name_of(views) == Some(
                views[k as int],
            )),
            done ==> (name is None ==> file_name_of(views) is None),
        decreases n + (if done { 0int } else { 1int }),
    {
        let ghost cur = views.take(n as int);
        assert(cur.last() == segs@[n - 1]@);
        if str_eq(segs[n - 1].as_str(), ".") {
            assert(cur.drop_last() =~= views.take(n - 1));
            n = n - 1;
        } else {
            if !str_eq(segs[n - 1].as_str(), "..") {
                name = Some(n - 1);
            }
            done = true;
        }
    }
    proof {
        if !done {
            assert(views.take(0) =~= Seq::<Seq<char>>::empty());
        }
    }
    match name {
        Some(k) => {
            let nv = chars_of(segs[k].as_str());
            proof {
                lemma_last_index_of(nv@, '.');
            }
            match last_index_of_exec(&nv, '.') {
                Some(d) => {
                    if d == 0 {
                        string_of("")
                    } else {
                        assert(nv@.subrange(d + 1, nv@.len() as int) =~= nv@.skip(d + 1));
                        string_of_range(&nv, d + 1, nv.len())
                    }
                },
                None => string_of(""),
            }
        },
        None => string_of(""),
    }
}

/// How a mesh file is loaded, by its extension.
#[derive(Clone, Copy, Debug, PartialEq, Eq, Structural)]
pub enum MeshFormat {
    /// `.glb` / `.gltf`: the first scene of the file.
    Gltf,
    /// `.stl`: a mesh with the visual's material.
    Stl,
    /// `.obj`: a scene (with its `.mtl` materials).
    Obj,
    /// `.dae`: not supported; shown as a placeholder box.
    Collada,
    /// Any other extension: nothing is shown.
    Unknown,
}

/// The format for a (lower-cased) extension. Only ASCII letters occur in the
/// extensions looked for, so lower-casing the ASCII letters decides the
/// same as full Unicode lower-casing.
pub open spec fn mesh_format_of(ext: Seq<char>) -> MeshFormat {
    let lower = ext.map_values(|c: char| ascii_lower(c));
    if lower == "glb"@ || lower == "gltf"@ {
        MeshFormat::Gltf
    } else if lower == "stl"@ {
        MeshFormat::Stl
    } else if lower == "obj"@ {
        MeshFormat::Obj
    } else if lower == "dae"@ {
        MeshFormat::Collada
    } else {
        MeshFormat::Unknown
    }
}

/// The format of a mesh file with extension `ext`, in any letter case.
pub fn mesh_format(ext: &str) -> (f: MeshFormat)
    ensures
        f == mesh_format_of(ext@),
{
    let v = chars_of(ext);
    let lower = ascii_lowercase_exec(&v);
    let s = string_of_range(&lower, 0, lower.len());
    assert(lower@.subrange(0, lower@.len() as int) =~= lower@);
    let s = s.as_str();
    if str_eq(s, "glb") || str_eq(s, "gltf") {
        MeshFormat::Gltf
    } else if str_eq(s, "stl") {
        MeshFormat::Stl
    } else if str_eq(s, "obj") {
        MeshFormat::Obj
    } else if str_eq(s, "dae") {
        MeshFormat::Collada
    } else {
        MeshFormat::Unknown
    }
}

/// How to load the mesh of a visual.
#[derive(Debug)]
pub struct MeshLoad {
    /// The resolved asset path.
    pub asset_path: String,
    /// The format, by the asset path's extension.
    pub format: MeshFormat,
    /// What to hand the asset server: for glTF the first scene of the file
    /// (`<asset path>#Scene0`), otherwise the asset path.
    pub load_path: String,
    /// Whether the mesh URI has to be requested over the websocket
    /// (the asset path is a `wsasset://` path).
    pub request_over_websocket: bool,
}

/// Plans the loading of the mesh `filename`; `None` when the resolved
/// asset path is empty (nothing to load).
pub fn plan_mesh_load(filename: &str, platform: Platform) -> (r: Option<MeshLoad>)
    ensures
        mesh_asset_path(filename@, platform).len() == 0 <==> r is None,
        r matches Some(m) ==> {
            &&& m.asset_path@ == mesh_asset_path(filename@, platform)
            &&& m.format == mesh_format_of(path_extension(m.asset_path@))
            &&& m.format == MeshFormat::Gltf ==> m.load_path@ == m.asset_path@ + "#Scene0"@
            &&& m.format != MeshFormat::Gltf ==> m.load_path@ == m.asset_path@
            &&& m.request_over_websocket == is_prefix("wsasset://"@, m.asset_path@)
        },
{
    let asset_path = resolve_mesh_uri(filename, platform);
    let av = chars_of(asset_path.as_str());
    if av.len() == 0 {
        return None;
    }
    let request_over_websocket = str_starts_with(asset_path.as_str(), "wsasset://");
    let ext = path_extension_exec(asset_path.as_str());
    let format = mesh_format(ext.as_str());
    let mut load_path = string_of(asset_path.as_str());
    if format == MeshFormat::Gltf {
        push_str(&mut load_path, "#Scene0");
    }
    Some(MeshLoad { asset_path, format, load_path, request_over_websocket })
}

// ───────────────────────── scene requests ─────────────────────────

/// What [`process_scene`]'s step asks for next.
#[derive(Debug)]
pub enum SceneStep {
    /// The scene is loaded: nothing more to do.
    Finished,
    /// Send this request for the list of worlds, then stop for this round.
    RequestWorlds(String),
    /// Send this request for the scene of `world`, then process any scene
    /// data.
    RequestScene { world: String, request: String },
    /// Process any scene data that has arrived.
    ProcessSceneData,
}

/// The request for the list of worlds.
pub open spec fn worlds_request_text() -> Seq<char> {
    "worlds,,,"@
}

/// The request for the scene of `world`.
pub open spec fn scene_request_text(world: Seq<char>) -> Seq<char> {
    "scene,"@ + world + ",,"@
}

/// The subscription to `topic`.
pub open spec fn subscribe_text(topic: Seq<char>) -> Seq<char> {
    "sub,"@ + topic + ",,"@
}

/// The scene information topic of `world`.
pub open spec fn scene_topic(world: Seq<char>) -> Seq<char> {
    "/world/"@ + world + "/scene/info"@
}

/// The dynamic pose topic of `world`.
pub open spec fn pose_topic(world: Seq<char>) -> Seq<char> {
    "/world/"@ + world + "/dynamic_pose/info"@
}

/// The kinds of step, with the world whose scene is requested.
pub enum StepKind {
    Finished,
    RequestWorlds,
    RequestScene(Seq<char>),
    ProcessSceneData,
}

/// The next step for a scene state, given whether the protobuf definitions
/// have been received.
pub open spec fn next_step(s: SceneStateView, have_protos: bool) -> StepKind {
    if s.loaded {
        StepKind::Finished
    } else if have_protos && !s.worlds_requested {
        StepKind::RequestWorlds
    } else {
        match s.world_name {
            Some(w) => if !s.scene_requested {
                StepKind::RequestScene(w)
            } else {
                StepKind::ProcessSceneData
            },
            None => StepKind::ProcessSceneData,
        }
    }
}

/// A step is the step kind, with its request text.
pub open spec fn step_is(step: SceneStep, kind: StepKind) -> bool {
    match kind {
        StepKind::Finished => step is Finished,
        StepKind::RequestWorlds => step matches SceneStep::RequestWorlds(r) && r@ == worlds_request_text(),
        StepKind::RequestScene(w) => step matches SceneStep::RequestScene { world, request } && world@ == w
            && request@ == scene_request_text(w),
        StepKind::ProcessSceneData => step is ProcessSceneData,
    }
}

/// The next step of the scene request protocol: once the protobuf
/// definitions are in, the worlds are requested (once); once a world name
/// is known, its scene is requested (once); then scene data is processed.
pub fn process_scene(scene_state: &SceneState, ws: &GzWebSocket) -> (step: SceneStep)
    ensures
        step_is(step, next_step(scene_state@, ws.protos is Some)),
{
    if scene_state.loaded {
        return SceneStep::Finished;
    }
    if ws.protos.is_some() && !scene_state.worlds_requested {
        return SceneStep::RequestWorlds(string_of("worlds,,,"));
    }
    match &scene_state.world_name {
        Some(w) => if !scene_state.scene_requested {
            let world = w.clone();
            let mut request = string_of("scene,");
            push_str(&mut request, w.as_str());
            push_str(&mut request, ",,");
            SceneStep::RequestScene { world, request }
        } else {
            SceneStep::ProcessSceneData
        },
        None => SceneStep::ProcessSceneData,
    }
}

/// The scene state after the worlds request was sent (`sent`) or failed.
pub open spec fn worlds_sent_state(s: SceneStateView, sent: bool) -> SceneStateView {
    if sent {
        SceneStateView { worlds_requested: true, ..s }
    } else {
        s
    }
}

/// The scene state after the scene request was sent (`sent`) or failed.
pub open spec fn scene_sent_state(s: SceneStateView, sent: bool) -> SceneStateView {
    if sent {
        SceneStateView { scene_requested: true, ..s }
    } else {
        s
    }
}

/// The scene state after scene data was decoded (`ok`) or failed to decode.
pub open spec fn decoded_state(s: SceneStateView, ok: bool) -> SceneStateView {
    if ok {
        SceneStateView { loaded: true, ..s }
    } else {
        s
    }
}

/// The scene state after the scene data step: `None` when no data was
/// waiting, else whether the data decoded.
pub open spec fn scene_data_state(s: SceneStateView, decoded: Option<bool>) -> SceneStateView {
    match decoded {
        None => s,
        Some(ok) => decoded_state(s, ok),
    }
}

/// The scene state after one frame of the scene system, which takes the
/// step that `next_step` names: `sent` is whether the request of that step
/// went out, `decoded` what became of waiting scene data (looked at unless
/// the step was `Finished` or `RequestWorlds`).
pub open spec fn frame_state(s: SceneStateView, have_protos: bool, sent: bool, decoded: Option<bool>) -> SceneStateView {
    match next_step(s, have_protos) {
        StepKind::Finished => s,
        StepKind::RequestWorlds => worlds_sent_state(s, sent),
        StepKind::RequestScene(_) => scene_data_state(scene_sent_state(s, sent), decoded),
        StepKind::ProcessSceneData => scene_data_state(s, decoded),
    }
}

/// From `a` to `b` the scene protocol only moves forward: a flag that is set
/// stays set, and the world name is unchanged.
pub open spec fn scene_progress(a: SceneStateView, b: SceneStateView) -> bool {
    &&& a.loaded ==> b.loaded
    &&& a.worlds_requested ==> b.worlds_requested
    &&& a.scene_requested ==> b.scene_requested
    &&& b.world_name == a.world_name
}

/// One frame of the scene system only moves the protocol forward: `loaded`,
/// `worlds_requested` and `scene_requested` only go from false to true, and
/// the world name is never changed; once the scene is loaded, a frame
/// sends nothing and changes nothing.
pub proof fn lemma_scene_frame_progress(s: SceneStateView, have_protos: bool, sent: bool, decoded: Option<bool>)
    ensures
        scene_progress(s, frame_state(s, have_protos, sent, decoded)),
        s.loaded ==> next_step(s, have_protos) is Finished && frame_state(s, have_protos, sent, decoded) == s,
{
}

/// Moving forward twice is moving forward: over any number of frames the
/// flags only go from false to true and the world name stays.
pub proof fn lemma_scene_progress_transitive(a: SceneStateView, b: SceneStateView, c: SceneStateView)
    requires
        scene_progress(a, b),
        scene_progress(b, c),
    ensures
        scene_progress(a, c),
{
}

/// Records the outcome of sending the worlds request: once sent, it is not
/// sent again.
pub fn worlds_request_sent(scene_state: &mut SceneState, ws: &mut GzWebSocket, sent: bool)
    ensures
        final(scene_state)@ == worlds_sent_state(old(scene_state)@, sent),
        sent ==> final(ws)@.status == "Requesting Worlds..."@,
        !sent ==> final(ws)@ == old(ws)@,
        final(ws)@.protos == old(ws)@.protos,
        final(ws)@.scene_data == old(ws)@.scene_data,
{
    if sent {
        scene_state.worlds_requested = true;
        ws.status = string_of("Requesting Worlds...");
    }
}

/// Records the outcome of sending the scene request for `world`. Once sent,
/// it is not sent again, and the subscriptions to the world's scene
/// information and dynamic poses are returned, to be sent in this order.
pub fn scene_request_sent(scene_state: &mut SceneState, ws: &mut GzWebSocket, world: &str, sent: bool) -> (subs: Vec<String>)
    ensures
        final(scene_state)@ == scene_sent_state(old(scene_state)@, sent),
        sent ==> final(ws)@.status == "Requesting Scene..."@,
        sent ==> subs@.len() == 2 && subs@[0]@ == subscribe_text(scene_topic(world@)) && subs@[1]@
            == subscribe_text(pose_topic(world@)),
        !sent ==> final(ws)@ == old(ws)@ && subs@.len() == 0,
        final(ws)@.protos == old(ws)@.protos,
        final(ws)@.scene_data == old(ws)@.scene_data,
{
    let mut subs: Vec<String> = Vec::new();
    if sent {
        scene_state.scene_requested = true;
        ws.status = string_of("Requesting Scene...");
        let mut sub_scene = string_of("sub,/world/");
        push_str(&mut sub_scene, world);
        push_str(&mut sub_scene, "/scene/info,,");
        let mut sub_pose = string_of("sub,/world/");
        push_str(&mut sub_pose, world);
        push_str(&mut sub_pose, "/dynamic_pose/info,,");
        proof {
            reveal_strlit("sub,/world/");
            reveal_strlit("sub,");
            reveal_strlit("/world/");
            reveal_strlit("/scene/info,,");
            reveal_strlit("/scene/info");
            reveal_strlit("/dynamic_pose/info,,");
            reveal_strlit("/dynamic_pose/info");
            reveal_strlit(",,");
            assert(sub_scene@ =~= subscribe_text(scene_topic(world@)));
            assert(sub_pose@ =~= subscribe_text(pose_topic(world@)));
        }
        subs.push(sub_scene);
        subs.push(sub_pose);
    }
    subs
}

/// Takes the scene data waiting to be processed, if any.
pub fn take_scene_data(ws: &mut GzWebSocket) -> (data: Option<Vec<u8>>)
    ensures
        match old(ws)@.scene_data {
            Some(d) => data matches Some(x) && x@ == d,
            None => data is None,
        },
        final(ws)@.scene_data is None,
        final(ws)@.status == old(ws)@.status,
        final(ws)@.protos == old(ws)@.protos,
{
    ws.scene_data.take()
}

/// Records the outcome of decoding the scene: `None` when it decoded (and
/// its entities were spawned), or the decoder's error text.
pub fn scene_decoded(scene_state: &mut SceneState, ws: &mut GzWebSocket, error: Option<&str>)
    ensures
        final(scene_state)@ == decoded_state(old(scene_state)@, error is None),
        error is None ==> final(ws)@.status == "Scene Loaded"@,
        error matches Some(e) ==> final(ws)@.status == "Scene Decode Error: "@ + e@,
        final(ws)@.protos == old(ws)@.protos,
        final(ws)@.scene_data == old(ws)@.scene_data,
{
    match error {
        None => {
            scene_state.loaded = true;
            ws.status = string_of("Scene Loaded");
        },
        Some(e) => {
            let mut status = string_of("Scene Decode Error: ");
            push_str(&mut status, e);
            ws.status = status;
        },
    }
}

// ───────────────────────── scene traversal ─────────────────────────

/// What the spawning of a geometry reads of a `gz.msgs.Geometry`: its
/// shape kind (wire number) and which shape messages it holds.
#[derive(Clone, Copy, Debug, PartialEq, Eq)]
pub struct GeometryOutline {
    pub type_code: i32,
    pub has_box: bool,
    pub has_cylinder: bool,
    pub has_sphere: bool,
    pub has_plane: bool,
    pub has_capsule: bool,
    pub has_cone: bool,
    pub has_mesh: bool,
}

/// What the spawning of a visual reads of a `gz.msgs.Visual`.
#[derive(Clone, Copy, Debug, PartialEq, Eq)]
pub struct VisualOutline {
    pub delete_me: bool,
    pub geometry: Option<GeometryOutline>,
}

/// What the spawning of a light reads of a `gz.msgs.Light`.
#[derive(Clone, Copy, Debug, PartialEq, Eq)]
pub struct LightOutline {
    pub type_code: i32,
    pub is_light_off: bool,
}

/// The visuals and lights of a link.
#[derive(Debug)]
pub struct LinkOutline {
    pub visuals: Vec<VisualOutline>,
    pub lights: Vec<LightOutline>,
}

/// A model: whether it is deleted, its own visuals, its links and its
/// nested models.
#[derive(Debug)]
pub struct ModelOutline {
    pub deleted: bool,
    pub visuals: Vec<VisualOutline>,
    pub links: Vec<LinkOutline>,
    pub models: Vec<ModelOutline>,
}

/// The models and lights of a scene.
#[derive(Debug)]
pub struct SceneOutline {
    pub models: Vec<ModelOutline>,
    pub lights: Vec<LightOutline>,
}

/// The primitive meshes the viewer builds.
#[derive(Clone, Copy, Debug, PartialEq, Eq, Structural)]
pub enum Primitive {
    Box,
    Cylinder,
    Sphere,
    Plane,
    Capsule,
    Cone,
}

/// The shape to spawn for a visual.
#[derive(Clone, Copy, Debug, PartialEq, Eq, Structural)]
pub enum Shape {
    /// A primitive; `sized` tells whether the geometry holds the shape's
    /// message (its dimensions), or the default dimensions are used.
    Primitive { kind: Primitive, sized: bool },
    /// A mesh file (see [`plan_mesh_load`]).
    Mesh,
}

/// What to spawn.
#[derive(Clone, Copy, Debug, PartialEq, Eq, Structural)]
pub enum Spawn {
    /// The light with this index, of this kind.
    Light { index: usize, kind: LightType },
    /// The visual with this index, as this shape.
    Visual { index: usize, shape: Shape },
}

/// One entity to spawn. `model` is the path of the model that holds it
/// (indices into the scene's models, then into nested models; empty for
/// the scene itself), `link` the index of its link in that model, if any.
#[derive(Debug)]
pub struct SpawnItem {
    pub model: Vec<usize>,
    pub link: Option<usize>,
    pub what: Spawn,
}

/// A [`SpawnItem`] with its path as a sequence.
pub struct SpawnItemView {
    pub model: Seq<usize>,
    pub link: Option<usize>,
    pub what: Spawn,
}

impl View for SpawnItem {
    type V = SpawnItemView;

    open spec fn view(&self) -> SpawnItemView {
        SpawnItemView { model: self.model@, link: self.link, what: self.what }
    }
}

/// The views of a list of items.
pub open spec fn item_views(items: Seq<SpawnItem>) -> Seq<SpawnItemView> {
    items.map_values(|x: SpawnItem| x@)
}

/// The kind of a light: its wire number read as a light type, or a point
/// light when it is not one.
pub open spec fn light_kind(code: i32) -> LightType {
    match LightType::of_code(code) {
        Some(k) => k,
        None => LightType::Point,
    }
}

/// The shape of a geometry: its wire number read as a geometry type (an
/// unknown number reads as `Empty`); primitives as such, meshes when the
/// geometry holds a mesh message; no shape for any other type.
pub open spec fn shape_of(g: GeometryOutline) -> Option<Shape> {
    let kind = match geometry::Type::of_code(g.type_code) {
        Some(k) => k,
        None => geometry::Type::Empty,
    };
    match kind {
        geometry::Type::Box => Some(Shape::Primitive { kind: Primitive::Box, sized: g.has_box }),
        geometry::Type::Cylinder => Some(
            Shape::Primitive { kind: Primitive::Cylinder, sized: g.has_cylinder },
        ),
        geometry::Type::Sphere => Some(
            Shape::Primitive { kind: Primitive::Sphere, sized: g.has_sphere },
        ),
        geometry::Type::Plane => Some(Shape::Primitive { kind: Primitive::Plane, sized: g.has_plane }),
        geometry::Type::Capsule => Some(
            Shape::Primitive { kind: Primitive::Capsule, sized: g.has_capsule },
        ),
        geometry::Type::Cone => Some(Shape::Primitive { kind: Primitive::Cone, sized: g.has_cone }),
        geometry::Type::Mesh => if g.has_mesh {
            Some(Shape::Mesh)
        } else {
            None
        },
        _ => None,
    }
}

/// The item for light `i`, unless it is switched off.
pub open spec fn light_items_at(l: LightOutline, model: Seq<usize>, link: Option<usize>, i: int) -> Seq<SpawnItemView> {
    if l.is_light_off {
        seq![]
    } else {
        seq![SpawnItemView { model, link, what: Spawn::Light { index: i as usize, kind: light_kind(l.type_code) } }]
    }
}

/// The items for the lights `ls[..n]`, in order.
pub open spec fn lights_items(ls: Seq<LightOutline>, model: Seq<usize>, link: Option<usize>, n: int) -> Seq<SpawnItemView>
    decreases n,
{
    if n <= 0 {
        seq![]
    } else {
        lights_items(ls, model, link, n - 1) + light_items_at(ls[n - 1], model, link, n - 1)
    }
}

/// The item for visual `i`, unless it is marked for deletion, has no
/// geometry, or its geometry has no shape.
pub open spec fn visual_items_at(v: VisualOutline, model: Seq<usize>, link: Option<usize>, i: int) -> Seq<SpawnItemView> {
    if v.delete_me {
        seq![]
    } else {
        match v.geometry {
            None => seq![],
            Some(g) => match shape_of(g) {
                Some(shape) => seq![SpawnItemView { model, link, what: Spawn::Visual { index: i as usize, shape } }],
                None => seq![],
            },
        }
    }
}

/// The items for the visuals `vs[..n]`, in order.
pub open spec fn visuals_items(vs: Seq<VisualOutline>, model: Seq<usize>, link: Option<usize>, n: int) -> Seq<SpawnItemView>
    decreases n,
{
    if n <= 0 {
        seq![]
    } else {
        visuals_items(vs, model, link, n - 1) + visual_items_at(vs[n - 1], model, link, n - 1)
    }
}

/// The items of link `j`: its visuals, then its lights.
pub open spec fn link_items(l: LinkOutline, model: Seq<usize>, j: int) -> Seq<SpawnItemView> {
    visuals_items(l.visuals@, model, Some(j as usize), l.visuals@.len() as int) + lights_items(
        l.lights@,
        model,
        Some(j as usize),
        l.lights@.len() as int,
    )
}

/// The items of the links `ls[..n]`, in order.
pub open spec fn links_items(ls: Seq<LinkOutline>, model: Seq<usize>, n: int) -> Seq<SpawnItemView>
    decreases n,
{
    if n <= 0 {
        seq![]
    } else {
        links_items(ls, model, n - 1) + link_items(ls[n - 1], model, n - 1)
    }
}

/// The items of model `m` at path `path`: nothing when it is deleted; else
/// its own visuals, then its links, then its nested models (depth first).
pub open spec fn model_items(m: ModelOutline, path: Seq<usize>) -> Seq<SpawnItemView>
    decreases m, 0int,
{
    if m.deleted {
        seq![]
    } else {
        visuals_items(m.visuals@, path, None, m.visuals@.len() as int) + links_items(
            m.links@,
            path,
            m.links@.len() as int,
        ) + models_items(m.models@, path, m.models@.len() as int)
    }
}

/// The items of the models `ms[..n]` nested at `path`, in order.
pub open spec fn models_items(ms: Seq<ModelOutline>, path: Seq<usize>, n: int) -> Seq<SpawnItemView>
    decreases ms, n,
{
    if n <= 0 || n > ms.len() {
        seq![]
    } else {
        models_items(ms, path, n - 1) + model_items(ms[n - 1], path.push((n - 1) as usize))
    }
}

/// Everything to spawn for a scene: its lights, then its models.
pub open spec fn scene_items(s: SceneOutline) -> Seq<SpawnItemView> {
    lights_items(s.lights@, seq![], None, s.lights@.len() as int) + models_items(
        s.models@,
        seq![],
        s.models@.len() as int,
    )
}

/// The kind of a light.
fn light_kind_exec(code: i32) -> (k: LightType)
    ensures
        k == light_kind(code),
{
    match LightType::from_i32(code) {
        Some(k) => k,
        None => LightType::Point,
    }
}

/// The shape of a geometry.
fn shape_of_exec(g: &GeometryOutline) -> (r: Option<Shape>)
    ensures
        r == shape_of(*g),
{
    let kind = match geometry::Type::from_i32(g.type_code) {
        Some(k) => k,
        None => geometry::Type::Empty,
    };
    match kind {
        geometry::Type::Box => Some(Shape::Primitive { kind: Primitive::Box, sized: g.has_box }),
        geometry::Type::Cylinder => Some(
            Shape::Primitive { kind: Primitive::Cylinder, sized: g.has_cylinder },
        ),
        geometry::Type::Sphere => Some(
            Shape::Primitive { kind: Primitive::Sphere, sized: g.has_sphere },
        ),
        geometry::Type::Plane => Some(Shape::Primitive { kind: Primitive::Plane, sized: g.has_plane }),
        geometry::Type::Capsule => Some(
            Shape::Primitive { kind: Primitive::Capsule, sized: g.has_capsule },
        ),
        geometry::Type::Cone => Some(Shape::Primitive { kind: Primitive::Cone, sized: g.has_cone }),
        geometry::Type::Mesh => if g.has_mesh {
            Some(Shape::Mesh)
        } else {
            None
        },
        _ => None,
    }
}

/// A copy of `path`.
fn copy_path(path: &Vec<usize>) -> (r: Vec<usize>)
    ensures
        r@ == path@,
{
    let mut r: Vec<usize> = Vec::new();
    let mut i: usize = 0;
    while i < path.len()
        invariant
            i <= path.len(),
            r@ == path@.take(i as int),
        decreases path.len() - i,
    {
        r.push(path[i]);
        assert(path@.take(i + 1) =~= path@.take(i as int).push(path@[i as int]));
        i = i + 1;
    }
    assert(path@.take(i as int) =~= path@);
    r
}

/// Appends the items for the lights `ls`.
fn plan_lights(ls: &Vec<LightOutline>, model: &Vec<usize>, link: Option<usize>, out: &mut Vec<SpawnItem>)
    ensures
        item_views(final(out)@) == item_views(old(out)@) + lights_items(ls@, model@, link, ls@.len() as int),
{
    let mut i: usize = 0;
    while i < ls.len()
        invariant
            i <= ls.len(),
            item_views(out@) == item_views(old(out)@) + lights_items(ls@, model@, link, i as int),
        decreases ls.len() - i,
    {
        let ghost before = item_views(out@);
        let l = ls[i];
        if !l.is_light_off {
            let kind = light_kind_exec(l.type_code);
            out.push(SpawnItem { model: copy_path(model), link, what: Spawn::Light { index: i, kind } });
            assert(item_views(out@) =~= before.push(SpawnItemView { model: model@, link, what: Spawn::Light { index: i, kind } }));
        }
        assert(lights_items(ls@, model@, link, i + 1) == lights_items(ls@, model@, link, i as int) + light_items_at(ls@[i as int], model@, link, i as int));
        assert(item_views(out@) =~= item_views(old(out)@) + lights_items(ls@, model@, link, i + 1));
        i = i + 1;
    }
}

/// Appends the items for the visuals `vs`.
fn plan_visuals(vs: &Vec<VisualOutline>, model: &Vec<usize>, link: Option<usize>, out: &mut Vec<SpawnItem>)
    ensures
        item_views(final(out)@) == item_views(old(out)@) + visuals_items(vs@, model@, link, vs@.len() as int),
{
    let mut i: usize = 0;
    while i < vs.len()
        invariant
            i <= vs.len(),
            item_views(out@) == item_views(old(out)@) + visuals_items(vs@, model@, link, i as int),
        decreases vs.len() - i,
    {
        let ghost before = item_views(out@);
        let v = vs[i];
        if !v.delete_me {
            if let Some(g) = v.geometry {
                if let Some(shape) = shape_of_exec(&g) {
                    out.push(SpawnItem { model: copy_path(model), link, what: Spawn::Visual { index: i, shape } });
                    assert(item_views(out@) =~= before.push(SpawnItemView { model: model@, link, what: Spawn::Visual { index: i, shape } }));
                }
            }
        }
        assert(visuals_items(vs@, model@, link, i + 1) == visuals_items(vs@, model@, link, i as int) + visual_items_at(vs@[i as int], model@, link, i as int));
        assert(item_views(out@) =~= item_views(old(out)@) + visuals_items(vs@, model@, link, i + 1));
        i = i + 1;
    }
}

/// Appends the items for the links `ls` of the model at `model`.
fn plan_links(ls: &Vec<LinkOutline>, model: &Vec<usize>, out: &mut Vec<SpawnItem>)
    ensures
        item_views(final(out)@) == item_views(old(out)@) + links_items(ls@, model@, ls@.len() as int),
{
    let mut j: usize = 0;
    while j < ls.len()
        invariant
            j <= ls.len(),
            item_views(out@) == item_views(old(out)@) + links_items(ls@, model@, j as int),
        decreases ls.len() - j,
    {
        let ghost before = item_views(out@);
        let l = &ls[j];
        plan_visuals(&l.visuals, model, Some(j), out);
        let ghost mid = item_views(out@);
        plan_lights(&l.lights, model, Some(j), out);
        assert(item_views(out@) =~= before + link_items(ls@[j as int], model@, j as int));
        assert(links_items(ls@, model@, j + 1) == links_items(ls@, model@, j as int) + link_items(ls@[j as int], model@, j as int));
        assert(item_views(out@) =~= item_views(old(out)@) + links_items(ls@, model@, j + 1));
        j = j + 1;
    }
}

/// Appends the items of model `m` at path `path`.
fn plan_model(m: &ModelOutline, path: &Vec<usize>, out: &mut Vec<SpawnItem>)
    ensures
        item_views(final(out)@) == item_views(old(out)@) + model_items(*m, path@),
    decreases *m, 0int,
{
    if m.deleted {
        assert(item_views(out@) =~= item_views(old(out)@) + model_items(*m, path@));
        return;
    }
    let ghost start = item_views(out@);
    plan_visuals(&m.visuals, path, None, out);
    let ghost a = item_views(out@);
    plan_links(&m.links, path, out);
    let ghost b = item_views(out@);
    plan_models(&m.models, path, out);
    assert(item_views(out@) =~= start + model_items(*m, path@));
}

/// Appends the items of the models `ms` nested at `path`.
fn plan_models(ms: &Vec<ModelOutline>, path: &Vec<usize>, out: &mut Vec<SpawnItem>)
    ensures
        item_views(final(out)@) == item_views(old(out)@) + models_items(ms@, path@, ms@.len() as int),
    decreases ms@, 1int,
{
    let mut i: usize = 0;
    while i < ms.len()
        invariant
            i <= ms.len(),
            item_views(out@) == item_views(old(out)@) + models_items(ms@, path@, i as int),
        decreases ms.len() - i,
    {
        let ghost before = item_views(out@);
        let mut sub = copy_path(path);
        sub.push(i);
        assert(decreases_to!(ms@ => ms@[i as int]));
        plan_model(&ms[i], &sub, out);
        assert(models_items(ms@, path@, i + 1) == models_items(ms@, path@, i as int) + model_items(ms@[i as int], path@.push(i)));
        assert(item_views(out@) =~= item_views(old(out)@) + models_items(ms@, path@, i + 1));
        i = i + 1;
    }
}

/// Everything to spawn for a decoded scene, in spawn order: the scene's
/// lights (unless switched off), then each model that is not deleted with
/// its visuals, its links (their visuals, then their lights) and its nested
/// models, depth first. Visuals marked for deletion, without geometry, or
/// with a geometry of no supported shape are left out.
pub fn plan_scene(scene: &SceneOutline) -> (items: Vec<SpawnItem>)
    ensures
        item_views(items@) == scene_items(*scene),
{
    let mut out: Vec<SpawnItem> = Vec::new();
    let root: Vec<usize> = Vec::new();
    plan_lights(&scene.lights, &root, None, &mut out);
    plan_models(&scene.models, &root, &mut out);
    assert(root@ =~= Seq::<usize>::empty());
    assert(item_views(out@) =~= scene_items(*scene));
    out
}

/// Plans the loading of the mesh `filename` (see [`plan_mesh_load`]) and,
/// when its asset comes over the websocket, queues `filename` to be
/// requested (once).
pub fn prepare_mesh_load(filename: &str, platform: Platform, pending: &mut PendingWsAssetRequests) -> (r: Option<MeshLoad>)
    requires
        old(pending).wf(),
    ensures
        final(pending).wf(),
        mesh_asset_path(filename@, platform).len() == 0 <==> r is None,
        r matches Some(m) ==> {
            &&& m.asset_path@ == mesh_asset_path(filename@, platform)
            &&& m.format == mesh_format_of(path_extension(m.asset_path@))
            &&& m.format == MeshFormat::Gltf ==> m.load_path@ == m.asset_path@ + "#Scene0"@
            &&& m.format != MeshFormat::Gltf ==> m.load_path@ == m.asset_path@
            &&& m.request_over_websocket == is_prefix("wsasset://"@, m.asset_path@)
        },
        (r matches Some(m) && m.request_over_websocket) ==> final(pending)@ == queued(
            old(pending)@,
            filename@,
        ),
        !(r matches Some(m) && m.request_over_websocket) ==> final(pending)@ == old(pending)@,
{
    let r = plan_mesh_load(filename, platform);
    if let Some(m) = &r {
        if m.request_over_websocket {
            pending.queue(filename);
        }
    }
    r
}

// ───────────────────────── dynamic poses ─────────────────────────

/// The index of the first entity named `name`, if any.
pub fn find_entity(names: &Vec<String>, name: &str) -> (r: Option<usize>)
    ensures
        r matches Some(i) ==> i < names@.len() && names@[i as int]@ == name@ && forall|k: int|
            0 <= k < i ==> names@[k]@ != name@,
        r is None ==> forall|k: int| 0 <= k < names@.len() ==> names@[k]@ != name@,
{
    let mut i: usize = 0;
    while i < names.len()
        invariant
            i <= names.len(),
            forall|k: int| 0 <= k < i ==> names@[k]@ != name@,
        decreases names.len() - i,
    {
        if str_eq(names[i].as_str(), name) {
            return Some(i);
        }
        i = i + 1;
    }
    None
}

// ───────────────────────── laws of the traversal ─────────────────────────

/// `shape` is what a visual that is not marked for deletion and holds
/// geometry with that shape spawns as.
pub open spec fn visual_spawns_as(v: VisualOutline, shape: Shape) -> bool {
    !v.delete_me && (v.geometry matches Some(g) && shape_of(g) == Some(shape))
}

/// `kind` is the kind of a light that is switched on.
pub open spec fn light_spawns_as(l: LightOutline, kind: LightType) -> bool {
    !l.is_light_off && kind == light_kind(l.type_code)
}

/// What an item spawns within model `m`: one of its own visuals (no link),
/// or a visual or light of one of its links.
pub open spec fn spawns_in_model(m: ModelOutline, link: Option<usize>, what: Spawn) -> bool {
    match link {
        None => match what {
            Spawn::Visual { index, shape } => index < m.visuals@.len() && visual_spawns_as(
                m.visuals@[index as int],
                shape,
            ),
            Spawn::Light { .. } => false,
        },
        Some(l) => l < m.links@.len() && match what {
            Spawn::Visual { index, shape } => index < m.links@[l as int].visuals@.len()
                && visual_spawns_as(m.links@[l as int].visuals@[index as int], shape),
            Spawn::Light { index, kind } => index < m.links@[l as int].lights@.len()
                && light_spawns_as(m.links@[l as int].lights@[index as int], kind),
        },
    }
}

/// Following the nested-model path `rel` from model `m` passes only models
/// that are not deleted, and the model reached holds what the item spawns.
pub open spec fn resolves_in(m: ModelOutline, rel: Seq<usize>, link: Option<usize>, what: Spawn) -> bool
    decreases rel.len(),
{
    if rel.len() == 0 {
        !m.deleted && spawns_in_model(m, link, what)
    } else {
        !m.deleted && rel[0] < m.models@.len() && resolves_in(
            m.models@[rel[0] as int],
            rel.drop_first(),
            link,
            what,
        )
    }
}

/// An item of the scene spawns something that is there and is shown: a
/// scene light that is switched on, or an element of a model reached
/// through models that are not deleted.
pub open spec fn item_in_scene(s: SceneOutline, it: SpawnItemView) -> bool {
    if it.model.len() == 0 {
        it.link is None && match it.what {
            Spawn::Light { index, kind } => index < s.lights@.len() && light_spawns_as(
                s.lights@[index as int],
                kind,
            ),
            Spawn::Visual { .. } => false,
        }
    } else {
        it.model[0] < s.models@.len() && resolves_in(
            s.models@[it.model[0] as int],
            it.model.drop_first(),
            it.link,
            it.what,
        )
    }
}

proof fn lemma_lights_items(ls: Seq<LightOutline>, model: Seq<usize>, link: Option<usize>, n: int)
    requires
        0 <= n <= ls.len(),
        n <= usize::MAX,
    ensures
        forall|i: int|
            0 <= i < lights_items(ls, model, link, n).len() ==> {
                let it = #[trigger] lights_items(ls, model, link, n)[i];
                &&& it.model == model
                &&& it.link == link
                &&& it.what matches Spawn::Light { index, kind } && index < n && light_spawns_as(
                    ls[index as int],
                    kind,
                )
            },
    decreases n,
{
    if n > 0 {
        lemma_lights_items(ls, model, link, n - 1);
        let a = lights_items(ls, model, link, n - 1);
        let b = light_items_at(ls[n - 1], model, link, n - 1);
        assert forall|i: int| 0 <= i < (a + b).len() implies {
            let it = #[trigger] (a + b)[i];
            &&& it.model == model
            &&& it.link == link
            &&& it.what matches Spawn::Light { index, kind } && index < n && light_spawns_as(
                ls[index as int],
                kind,
            )
        } by {
            if i < a.len() {
                assert((a + b)[i] == a[i]);
            } else {
                assert((a + b)[i] == b[i - a.len()]);
            }
        }
    }
}

proof fn lemma_visuals_items(vs: Seq<VisualOutline>, model: Seq<usize>, link: Option<usize>, n: int)
    requires
        0 <= n <= vs.len(),
        n <= usize::MAX,
    ensures
        forall|i: int|
            0 <= i < visuals_items(vs, model, link, n).len() ==> {
                let it = #[trigger] visuals_items(vs, model, link, n)[i];
                &&& it.model == model
                &&& it.link == link
                &&& it.what matches Spawn::Visual { index, shape } && index < n && visual_spawns_as(
                    vs[index as int],
                    shape,
                )
            },
    decreases n,
{
    if n > 0 {
        lemma_visuals_items(vs, model, link, n - 1);
        let a = visuals_items(vs, model, link, n - 1);
        let b = visual_items_at(vs[n - 1], model, link, n - 1);
        assert forall|i: int| 0 <= i < (a + b).len() implies {
            let it = #[trigger] (a + b)[i];
            &&& it.model == model
            &&& it.link == link
            &&& it.what matches Spawn::Visual { index, shape } && index < n && visual_spawns_as(
                vs[index as int],
                shape,
            )
        } by {
            if i < a.len() {
                assert((a + b)[i] == a[i]);
            } else {
                assert((a + b)[i] == b[i - a.len()]);
            }
        }
    }
}

proof fn lemma_links_items(m: ModelOutline, model: Seq<usize>, n: int)
    requires
        0 <= n <= m.links@.len(),
        n <= usize::MAX,
    ensures
        forall|i: int|
            0 <= i < links_items(m.links@, model, n).len() ==> {
                let it = #[trigger] links_items(m.links@, model, n)[i];
                &&& it.model == model
                &&& it.link matches Some(l) && l < n
                &&& spawns_in_model(m, it.link, it.what)
            },
    decreases n,
{
    if n > 0 {
        lemma_links_items(m, model, n - 1);
        let l = m.links@[n - 1];
        assert(l.visuals@.len() == l.visuals.len());
        assert(l.lights@.len() == l.lights.len());
        let a = links_items(m.links@, model, n - 1);
        let v = visuals_items(l.visuals@, model, Some((n - 1) as usize), l.visuals@.len() as int);
        let w = lights_items(l.lights@, model, Some((n - 1) as usize), l.lights@.len() as int);
        lemma_visuals_items(l.visuals@, model, Some((n - 1) as usize), l.visuals@.len() as int);
        lemma_lights_items(l.lights@, model, Some((n - 1) as usize), l.lights@.len() as int);
        assert(links_items(m.links@, model, n) == a + (v + w));
        assert forall|i: int| 0 <= i < (a + (v + w)).len() implies {
            let it = #[trigger] (a + (v + w))[i];
            &&& it.model == model
            &&& it.link matches Some(l) && l < n
            &&& spawns_in_model(m, it.link, it.what)
        } by {
            if i < a.len() {
                assert((a + (v + w))[i] == a[i]);
            } else if i < a.len() + v.len() {
                assert((a + (v + w))[i] == v[i - a.len()]);
            } else {
                assert((a + (v + w))[i] == w[i - a.len() - v.len()]);
            }
        }
    }
}

/// Every item of a model lies under the model's path and resolves in it.
proof fn lemma_model_items(m: ModelOutline, path: Seq<usize>)
    ensures
        forall|i: int|
            0 <= i < model_items(m, path).len() ==> {
                let it = #[trigger] model_items(m, path)[i];
                &&& it.model.len() >= path.len()
                &&& it.model.take(path.len() as int) == path
                &&& resolves_in(m, it.model.skip(path.len() as int), it.link, it.what)
            },
    decreases m, 0int,
{
    if !m.deleted {
        assert(m.visuals@.len() == m.visuals.len());
        assert(m.links@.len() == m.links.len());
        assert(m.models@.len() == m.models.len());
        let v = visuals_items(m.visuals@, path, None, m.visuals@.len() as int);
        let l = links_items(m.links@, path, m.links@.len() as int);
        let n = models_items(m.models@, path, m.models@.len() as int);
        lemma_visuals_items(m.visuals@, path, None, m.visuals@.len() as int);
        lemma_links_items(m, path, m.links@.len() as int);
        lemma_models_items(m.models@, path, m.models@.len() as int);
        assert forall|i: int| 0 <= i < (v + l + n).len() implies {
            let it = #[trigger] (v + l + n)[i];
            &&& it.model.len() >= path.len()
            &&& it.model.take(path.len() as int) == path
            &&& resolves_in(m, it.model.skip(path.len() as int), it.link, it.what)
        } by {
            let it = (v + l + n)[i];
            if i < v.len() {
                assert(it == v[i]);
                assert(it.model.take(path.len() as int) =~= path);
                assert(it.model.skip(path.len() as int) =~= Seq::<usize>::empty());
            } else if i < v.len() + l.len() {
                assert(it == l[i - v.len()]);
                assert(it.model.take(path.len() as int) =~= path);
                assert(it.model.skip(path.len() as int) =~= Seq::<usize>::empty());
            } else {
                assert(it == n[i - v.len() - l.len()]);
                let rel = it.model.skip(path.len() as int);
                let k = it.model[path.len() as int];
                assert(rel[0] == k);
                assert(rel.drop_first() =~= it.model.skip(path.len() as int + 1));
            }
        }
    }
}

/// Every item of the nested models `ms[..n]` at `path` lies under `path`,
/// continues with the index `k < n` of its model, and resolves in `ms[k]`.
proof fn lemma_models_items(ms: Seq<ModelOutline>, path: Seq<usize>, n: int)
    requires
        n <= usize::MAX,
    ensures
        forall|i: int|
            0 <= i < models_items(ms, path, n).len() ==> {
                let it = #[trigger] models_items(ms, path, n)[i];
                &&& it.model.len() > path.len()
                &&& it.model.take(path.len() as int) == path
                &&& it.model[path.len() as int] < n
                &&& it.model[path.len() as int] < ms.len()
                &&& resolves_in(
                    ms[it.model[path.len() as int] as int],
                    it.model.skip(path.len() as int + 1),
                    it.link,
                    it.what,
                )
            },
    decreases ms, n,
{
    if 0 < n <= ms.len() {
        lemma_models_items(ms, path, n - 1);
        let sub = path.push((n - 1) as usize);
        assert(decreases_to!(ms => ms[n - 1]));
        lemma_model_items(ms[n - 1], sub);
        let a = models_items(ms, path, n - 1);
        let b = model_items(ms[n - 1], sub);
        assert forall|i: int| 0 <= i < (a + b).len() implies {
            let it = #[trigger] (a + b)[i];
            &&& it.model.len() > path.len()
            &&& it.model.take(path.len() as int) == path
            &&& it.model[path.len() as int] < n
            &&& it.model[path.len() as int] < ms.len()
            &&& resolves_in(
                ms[it.model[path.len() as int] as int],
                it.model.skip(path.len() as int + 1),
                it.link,
                it.what,
            )
        } by {
            if i < a.len() {
                assert((a + b)[i] == a[i]);
            } else {
                let it = (a + b)[i];
                assert(it == b[i - a.len()]);
                assert(it.model.take(sub.len() as int) == sub);
                assert(it.model.take(path.len() as int) =~= sub.take(path.len() as int));
                assert(sub.take(path.len() as int) =~= path);
                assert(it.model[path.len() as int] == it.model.take(sub.len() as int)[path.len() as int]);
            }
        }
    }
}

/// Everything the traversal of a scene spawns is there and shown: each item
/// is a scene light that is switched on, or a visual or light of a model
/// reached through models that are not deleted, where a visual is not
/// marked for deletion and its geometry has the item's shape, and a light
/// is switched on and has the item's kind.
pub proof fn lemma_scene_items_are_shown(s: SceneOutline)
    ensures
        forall|i: int| 0 <= i < scene_items(s).len() ==> item_in_scene(s, #[trigger] scene_items(s)[i]),
{
    assert(s.lights@.len() == s.lights.len());
    assert(s.models@.len() == s.models.len());
    let a = lights_items(s.lights@, seq![], None, s.lights@.len() as int);
    let b = models_items(s.models@, seq![], s.models@.len() as int);
    lemma_lights_items(s.lights@, seq![], None, s.lights@.len() as int);
    lemma_models_items(s.models@, seq![], s.models@.len() as int);
    assert forall|i: int| 0 <= i < (a + b).len() implies item_in_scene(s, #[trigger] (a + b)[i]) by {
        if i < a.len() {
            assert((a + b)[i] == a[i]);
        } else {
            let it = (a + b)[i];
            assert(it == b[i - a.len()]);
            assert(it.model.skip(1) =~= it.model.drop_first());
        }
    }
}

/// The protocol's order: nothing is requested once the scene is loaded;
/// the worlds are requested only after the protobuf definitions, and only
/// while not yet requested; a scene is requested only for a known world, and
/// only while not yet requested.
pub proof fn lemma_request_order(s: SceneStateView, have_protos: bool)
    ensures
        s.loaded ==> next_step(s, have_protos) is Finished,
        next_step(s, have_protos) is RequestWorlds ==> have_protos && !s.worlds_requested,
        next_step(s, have_protos) matches StepKind::RequestScene(w) ==> s.world_name == Some(w)
            && !s.scene_requested,
        s.worlds_requested && s.scene_requested && !s.loaded ==> next_step(s, have_protos) is ProcessSceneData,
{
}

/// In the browser, a `file://` URI that names no Fuel host becomes the asset
/// path `wsasset://K`, where `K` is the URI without its `file://` prefix:
/// the key under which the websocket side stores the asset's bytes and under
/// which the reader looks for them (`asset_proxy::ws_asset_key(K)` is `K`).
pub proof fn lemma_web_file_asset_key(uri: Seq<char>)
    requires
        is_prefix("file://"@, uri),
        !contains(uri, FUEL_HOST@),
        !contains(uri, IGN_FUEL_HOST@),
    ensures
        mesh_asset_path(uri, Platform::Web) == "wsasset://"@ + uri.skip("file://"@.len() as int),
        without_file_scheme(uri) == uri.skip("file://"@.len() as int),
{
}


// ───────────────────────── traversal laws ─────────────────────────

/// The geometry types map to the shapes gz.msgs gives them: BOX (0),
/// CYLINDER (1), SPHERE (2), PLANE (3), CONE (10) and CAPSULE (14) each to
/// their own primitive, sized when the geometry holds that primitive's
/// message; MESH (6) to a mesh when it holds a mesh message; every other
/// type, known or not, to no shape.
pub proof fn lemma_geometry_shapes(g: GeometryOutline)
    ensures
        g.type_code == 0 ==> shape_of(g) == Some(Shape::Primitive { kind: Primitive::Box, sized: g.has_box }),
        g.type_code == 1 ==> shape_of(g) == Some(
            Shape::Primitive { kind: Primitive::Cylinder, sized: g.has_cylinder },
        ),
        g.type_code == 2 ==> shape_of(g) == Some(Shape::Primitive { kind: Primitive::Sphere, sized: g.has_sphere }),
        g.type_code == 3 ==> shape_of(g) == Some(Shape::Primitive { kind: Primitive::Plane, sized: g.has_plane }),
        g.type_code == 10 ==> shape_of(g) == Some(Shape::Primitive { kind: Primitive::Cone, sized: g.has_cone }),
        g.type_code == 14 ==> shape_of(g) == Some(
            Shape::Primitive { kind: Primitive::Capsule, sized: g.has_capsule },
        ),
        g.type_code == 6 && g.has_mesh ==> shape_of(g) == Some(Shape::Mesh),
        g.type_code == 6 && !g.has_mesh ==> shape_of(g) is None,
        !(0 <= g.type_code <= 3 || g.type_code == 6 || g.type_code == 10 || g.type_code == 14) ==> shape_of(g) is None,
{
}

/// The light kinds: POINT (0), SPOT (1), DIRECTIONAL (2); any other number
/// is taken as a point light.
pub proof fn lemma_light_kinds(code: i32)
    ensures
        code == 0 ==> light_kind(code) == LightType::Point,
        code == 1 ==> light_kind(code) == LightType::Spot,
        code == 2 ==> light_kind(code) == LightType::Directional,
        !(0 <= code <= 2) ==> light_kind(code) == LightType::Point,
{
}

/// A visual spawns exactly when it is not marked for deletion and its
/// geometry has a shape, and then as one item with its index and that shape.
pub proof fn lemma_visual_items(v: VisualOutline, model: Seq<usize>, link: Option<usize>, i: int)
    ensures
        v.delete_me ==> visual_items_at(v, model, link, i) == Seq::<SpawnItemView>::empty(),
        v.geometry is None ==> visual_items_at(v, model, link, i) == Seq::<SpawnItemView>::empty(),
        !v.delete_me && v.geometry is Some && shape_of(v.geometry->0) is None ==> visual_items_at(v, model, link, i)
            == Seq::<SpawnItemView>::empty(),
        !v.delete_me && v.geometry is Some && shape_of(v.geometry->0) is Some ==> visual_items_at(v, model, link, i)
            == seq![SpawnItemView { model, link, what: Spawn::Visual { index: i as usize, shape: shape_of(v.geometry->0)->0 } }],
{
}

/// What `a` holds, `a + b` and `b + a` hold.
proof fn lemma_contains_concat(a: Seq<SpawnItemView>, b: Seq<SpawnItemView>, x: SpawnItemView)
    requires
        a.contains(x),
    ensures
        (a + b).contains(x),
        (b + a).contains(x),
{
    let k = choose|k: int| 0 <= k < a.len() && a[k] == x;
    assert((a + b)[k] == x);
    assert((b + a)[b.len() + k] == x);
}

/// The item of a spawnable visual among `vs[..n]` is among their items.
pub proof fn lemma_visuals_items_complete(vs: Seq<VisualOutline>, model: Seq<usize>, link: Option<usize>, n: int, i: int)
    requires
        0 <= i < n <= vs.len(),
        !vs[i].delete_me,
        vs[i].geometry is Some,
        shape_of(vs[i].geometry->0) is Some,
    ensures
        visuals_items(vs, model, link, n).contains(
            SpawnItemView { model, link, what: Spawn::Visual { index: i as usize, shape: shape_of(vs[i].geometry->0)->0 } },
        ),
    decreases n,
{
    let x = SpawnItemView { model, link, what: Spawn::Visual { index: i as usize, shape: shape_of(vs[i].geometry->0)->0 } };
    if i == n - 1 {
        let last = visual_items_at(vs[n - 1], model, link, n - 1);
        assert(last[0] == x);
        lemma_contains_concat(last, visuals_items(vs, model, link, n - 1), x);
    } else {
        lemma_visuals_items_complete(vs, model, link, n - 1, i);
        lemma_contains_concat(visuals_items(vs, model, link, n - 1), visual_items_at(vs[n - 1], model, link, n - 1), x);
    }
}

/// The item of a light that is not switched off, among `ls[..n]`, is among
/// their items.
pub proof fn lemma_lights_items_complete(ls: Seq<LightOutline>, model: Seq<usize>, link: Option<usize>, n: int, i: int)
    requires
        0 <= i < n <= ls.len(),
        !ls[i].is_light_off,
    ensures
        lights_items(ls, model, link, n).contains(
            SpawnItemView { model, link, what: Spawn::Light { index: i as usize, kind: light_kind(ls[i].type_code) } },
        ),
    decreases n,
{
    let x = SpawnItemView { model, link, what: Spawn::Light { index: i as usize, kind: light_kind(ls[i].type_code) } };
    if i == n - 1 {
        let last = light_items_at(ls[n - 1], model, link, n - 1);
        assert(last[0] == x);
        lemma_contains_concat(last, lights_items(ls, model, link, n - 1), x);
    } else {
        lemma_lights_items_complete(ls, model, link, n - 1, i);
        lemma_contains_concat(lights_items(ls, model, link, n - 1), light_items_at(ls[n - 1], model, link, n - 1), x);
    }
}

/// What model `ms[j]` spawns at `path + [j]` is among what `ms[..n]` spawn.
proof fn lemma_models_items_include(ms: Seq<ModelOutline>, path: Seq<usize>, n: int, j: int, x: SpawnItemView)
    requires
        0 <= j < n <= ms.len(),
        model_items(ms[j], path.push(j as usize)).contains(x),
    ensures
        models_items(ms, path, n).contains(x),
    decreases n,
{
    if j == n - 1 {
        lemma_contains_concat(model_items(ms[n - 1], path.push((n - 1) as usize)), models_items(ms, path, n - 1), x);
    } else {
        lemma_models_items_include(ms, path, n - 1, j, x);
        lemma_contains_concat(models_items(ms, path, n - 1), model_items(ms[n - 1], path.push((n - 1) as usize)), x);
    }
}

/// The item of a link visual `i` of link `j` among `ls[..n]`.
proof fn lemma_links_items_include(ls: Seq<LinkOutline>, model: Seq<usize>, n: int, j: int, x: SpawnItemView)
    requires
        0 <= j < n <= ls.len(),
        link_items(ls[j], model, j).contains(x),
    ensures
        links_items(ls, model, n).contains(x),
    decreases n,
{
    if j == n - 1 {
        lemma_contains_concat(link_items(ls[n - 1], model, n - 1), links_items(ls, model, n - 1), x);
    } else {
        lemma_links_items_include(ls, model, n - 1, j, x);
        lemma_contains_concat(links_items(ls, model, n - 1), link_items(ls[n - 1], model, n - 1), x);
    }
}

/// Nothing is dropped from a scene: each of its lights that is not switched
/// off, each spawnable visual of a top-level model that is not deleted, and
/// each spawnable visual of a link of such a model is planned, with its
/// place in the scene, its index and its kind or shape.
pub proof fn lemma_scene_items_complete(s: SceneOutline, j: int, k: int, i: int)
    ensures
        0 <= i < s.lights@.len() && !s.lights@[i].is_light_off ==> scene_items(s).contains(
            SpawnItemView {
                model: Seq::<usize>::empty(),
                link: None,
                what: Spawn::Light { index: i as usize, kind: light_kind(s.lights@[i].type_code) },
            },
        ),
        ({
            let m = s.models@[j];
            &&& 0 <= j < s.models@.len()
            &&& !m.deleted
            &&& 0 <= i < m.visuals@.len()
            &&& !m.visuals@[i].delete_me
            &&& m.visuals@[i].geometry is Some
            &&& shape_of(m.visuals@[i].geometry->0) is Some
        }) ==> scene_items(s).contains(
            SpawnItemView {
                model: seq![j as usize],
                link: None,
                what: Spawn::Visual { index: i as usize, shape: shape_of(s.models@[j].visuals@[i].geometry->0)->0 },
            },
        ),
        ({
            let m = s.models@[j];
            let l = m.links@[k];
            &&& 0 <= j < s.models@.len()
            &&& !m.deleted
            &&& 0 <= k < m.links@.len()
            &&& 0 <= i < l.visuals@.len()
            &&& !l.visuals@[i].delete_me
            &&& l.visuals@[i].geometry is Some
            &&& shape_of(l.visuals@[i].geometry->0) is Some
        }) ==> scene_items(s).contains(
            SpawnItemView {
                model: seq![j as usize],
                link: Some(k as usize),
                what: Spawn::Visual {
                    index: i as usize,
                    shape: shape_of(s.models@[j].links@[k].visuals@[i].geometry->0)->0,
                },
            },
        ),
{
    let root = Seq::<usize>::empty();
    let ls = lights_items(s.lights@, root, None, s.lights@.len() as int);
    let ms = models_items(s.models@, root, s.models@.len() as int);
    if 0 <= i < s.lights@.len() && !s.lights@[i].is_light_off {
        lemma_lights_items_complete(s.lights@, root, None, s.lights@.len() as int, i);
        lemma_contains_concat(ls, ms, SpawnItemView {
            model: root,
            link: None,
            what: Spawn::Light { index: i as usize, kind: light_kind(s.lights@[i].type_code) },
        });
    }
    if 0 <= j < s.models@.len() && !s.models@[j].deleted {
        let m = s.models@[j];
        let path = root.push(j as usize);
        assert(path =~= seq![j as usize]);
        let vis = visuals_items(m.visuals@, path, None, m.visuals@.len() as int);
        let lks = links_items(m.links@, path, m.links@.len() as int);
        let sub = models_items(m.models@, path, m.models@.len() as int);
        assert(model_items(m, path) == vis + lks + sub);
        if 0 <= i < m.visuals@.len() && !m.visuals@[i].delete_me && m.visuals@[i].geometry is Some
            && shape_of(m.visuals@[i].geometry->0) is Some {
            let x = SpawnItemView {
                model: path,
                link: None,
                what: Spawn::Visual { index: i as usize, shape: shape_of(m.visuals@[i].geometry->0)->0 },
            };
            lemma_visuals_items_complete(m.visuals@, path, None, m.visuals@.len() as int, i);
            lemma_contains_concat(vis, lks, x);
            lemma_contains_concat(vis + lks, sub, x);
            lemma_models_items_include(s.models@, root, s.models@.len() as int, j, x);
            lemma_contains_concat(ms, ls, x);
        }
        if 0 <= k < m.links@.len() {
            let l = m.links@[k];
            if 0 <= i < l.visuals@.len() && !l.visuals@[i].delete_me && l.visuals@[i].geometry is Some
                && shape_of(l.visuals@[i].geometry->0) is Some {
                let x = SpawnItemView {
                    model: path,
                    link: Some(k as usize),
                    what: Spawn::Visual { index: i as usize, shape: shape_of(l.visuals@[i].geometry->0)->0 },
                };
                let lv = visuals_items(l.visuals@, path, Some(k as usize), l.visuals@.len() as int);
                let ll = lights_items(l.lights@, path, Some(k as usize), l.lights@.len() as int);
                lemma_visuals_items_complete(l.visuals@, path, Some(k as usize), l.visuals@.len() as int, i);
                lemma_contains_concat(lv, ll, x);
                lemma_links_items_include(m.links@, path, m.links@.len() as int, k, x);
                lemma_contains_concat(lks, vis, x);
                lemma_contains_concat(vis + lks, sub, x);
                lemma_models_items_include(s.models@, root, s.models@.len() as int, j, x);
                lemma_contains_concat(ms, ls, x);
            }
        }
    }
}


// ───────────────────────── mesh format laws ─────────────────────────

/// `ext` spells the lower-case ASCII `word` in any mix of letter cases:
/// each character is the letter of `word` or its capital.
pub open spec fn spells_in_any_case(ext: Seq<char>, word: Seq<char>) -> bool {
    &&& ext.len() == word.len()
    &&& forall|i: int| 0 <= i < ext.len() ==> (ext[i] == word[i] || ext[i] as u32 + 32 == word[i] as u32)
}

/// Lower-casing `ext` gives the lower-case `word` exactly when `ext` spells
/// `word` in any case.
proof fn lemma_lower_spells(ext: Seq<char>, word: Seq<char>)
    requires
        forall|i: int| 0 <= i < word.len() ==> 'a' <= #[trigger] word[i] <= 'z',
    ensures
        (ext.map_values(|c: char| ascii_lower(c)) == word) <==> spells_in_any_case(ext, word),
{
    let lower = ext.map_values(|c: char| ascii_lower(c));
    if spells_in_any_case(ext, word) {
        assert forall|i: int| 0 <= i < ext.len() implies lower[i] == word[i] by {
            assert('a' <= word[i] <= 'z');
        }
        assert(lower =~= word);
    }
    if lower == word {
        assert forall|i: int| 0 <= i < ext.len() implies (ext[i] == word[i] || ext[i] as u32 + 32
            == word[i] as u32) by {
            assert(lower[i] == ascii_lower(ext[i]));
        }
    }
}

/// The mesh format goes by the extension in any letter case: `glb` and
/// `gltf` are glTF, `stl` is STL, `obj` is OBJ, `dae` is COLLADA, and
/// every other extension is unknown.
pub proof fn lemma_mesh_format_by_extension(ext: Seq<char>)
    ensures
        mesh_format_of(ext) == MeshFormat::Gltf <==> (spells_in_any_case(ext, "glb"@) || spells_in_any_case(ext, "gltf"@)),
        mesh_format_of(ext) == MeshFormat::Stl <==> spells_in_any_case(ext, "stl"@),
        mesh_format_of(ext) == MeshFormat::Obj <==> spells_in_any_case(ext, "obj"@),
        mesh_format_of(ext) == MeshFormat::Collada <==> spells_in_any_case(ext, "dae"@),
        mesh_format_of(ext) == MeshFormat::Unknown <==> !(spells_in_any_case(ext, "glb"@) || spells_in_any_case(ext, "gltf"@)
            || spells_in_any_case(ext, "stl"@) || spells_in_any_case(ext, "obj"@) || spells_in_any_case(ext, "dae"@)),
{
    reveal_strlit("glb");
    reveal_strlit("gltf");
    reveal_strlit("stl");
    reveal_strlit("obj");
    reveal_strlit("dae");
    lemma_lower_spells(ext, "glb"@);
    lemma_lower_spells(ext, "gltf"@);
    lemma_lower_spells(ext, "stl"@);
    lemma_lower_spells(ext, "obj"@);
    lemma_lower_spells(ext, "dae"@);
    assert("glb"@[0] != "stl"@[0] && "glb"@[0] != "obj"@[0] && "glb"@[0] != "dae"@[0]);
    assert("stl"@[0] != "obj"@[0] && "stl"@[0] != "dae"@[0] && "obj"@[0] != "dae"@[0]);
}

/// Two characters that are the same letter up to case both spell the
/// lower-case letter `w`, or neither does.
proof fn lemma_same_letter(a: char, b: char, w: char)
    requires
        'a' <= w <= 'z',
        a == b || ('A' <= a <= 'Z' && a as u32 + 32 == b as u32) || ('A' <= b <= 'Z' && b as u32 + 32 == a as u32),
    ensures
        (a == w || a as u32 + 32 == w as u32) <==> (b == w || b as u32 + 32 == w as u32),
{
    let (x, y, z) = (a as u32, b as u32, w as u32);
    assert(97 <= z <= 122);
    assert('A' <= a <= 'Z' ==> 65 <= x <= 90);
    assert('A' <= b <= 'Z' ==> 65 <= y <= 90);
    assert(a == w <==> x == z);
    assert(b == w <==> y == z);
    assert(a == b <==> x == y);
}

/// Changing the letter case of an extension does not change the format.
pub proof fn lemma_mesh_format_ignores_case(a: Seq<char>, b: Seq<char>)
    requires
        a.len() == b.len(),
        forall|i: int|
            0 <= i < a.len() ==> (a[i] == b[i] || ('A' <= a[i] <= 'Z' && a[i] as u32 + 32 == b[i] as u32) || (
            'A' <= b[i] <= 'Z' && b[i] as u32 + 32 == a[i] as u32)),
    ensures
        mesh_format_of(a) == mesh_format_of(b),
{
    lemma_mesh_format_by_extension(a);
    lemma_mesh_format_by_extension(b);
    assert forall|w: Seq<char>| (forall|i: int| 0 <= i < w.len() ==> 'a' <= #[trigger] w[i] <= 'z') implies (
    spells_in_any_case(a, w) <==> spells_in_any_case(b, w)) by {
        if w.len() == a.len() {
            assert forall|i: int| 0 <= i < a.len() implies ((a[i] == w[i] || a[i] as u32 + 32 == w[i] as u32) <==> (
            b[i] == w[i] || b[i] as u32 + 32 == w[i] as u32)) by {
                lemma_same_letter(a[i], b[i], w[i]);
            }
        }
    }
    reveal_strlit("glb");
    reveal_strlit("gltf");
    reveal_strlit("stl");
    reveal_strlit("obj");
    reveal_strlit("dae");
    assert(forall|i: int| 0 <= i < "glb"@.len() ==> 'a' <= #[trigger] "glb"@[i] <= 'z');
    assert(forall|i: int| 0 <= i < "gltf"@.len() ==> 'a' <= #[trigger] "gltf"@[i] <= 'z');
    assert(forall|i: int| 0 <= i < "stl"@.len() ==> 'a' <= #[trigger] "stl"@[i] <= 'z');
    assert(forall|i: int| 0 <= i < "obj"@.len() ==> 'a' <= #[trigger] "obj"@[i] <= 'z');
    assert(forall|i: int| 0 <= i < "dae"@.len() ==> 'a' <= #[trigger] "dae"@[i] <= 'z');
}

// ───────────────────────── mesh URI laws ─────────────────────────

/// In the browser every URI that names a Fuel host, an HTTPS URL or a local
/// cache path alike, is loaded from the Fuel asset source: it resolves to its
/// Fuel asset path.
pub proof fn lemma_web_fuel_uri(uri: Seq<char>)
    requires
        contains(uri, FUEL_HOST@) || contains(uri, IGN_FUEL_HOST@),
    ensures
        mesh_asset_path(uri, Platform::Web) == fuel_asset_path(uri),
{
}

/// `https://fuel.gazebosim.org/1.0/P` resolves to `fuel://P` on every
/// platform.
pub proof fn lemma_https_fuel_mesh(p: Seq<char>, platform: Platform)
    ensures
        mesh_asset_path("https://fuel.gazebosim.org/1.0/"@ + p, platform) == "fuel://"@ + p,
{
    reveal_strlit("https://fuel.gazebosim.org/1.0/");
    reveal_strlit("https://");
    reveal_strlit("fuel.gazebosim.org");
    let uri = "https://fuel.gazebosim.org/1.0/"@ + p;
    assert(uri.subrange(8, 8 + FUEL_HOST@.len() as int) =~= FUEL_HOST@);
    assert(occurs_at(uri, FUEL_HOST@, 8));
    assert(uri.take(8) =~= "https://"@);
    assert(https_versioned_prefix(FUEL_HOST@) =~= "https://fuel.gazebosim.org/1.0/"@) by {
        reveal_strlit("/");
        reveal_strlit("1.0");
    }
    lemma_https_asset_path_roundtrip(p);
}

/// In the browser, a local Fuel cache path
/// `<anything>fuel.gazebosim.org/<owner>/<kind>/<name>/<version>/<rest>`
/// resolves to `fuel://<owner>/<kind>/<name>/<version>/files/<rest>` (under
/// the conditions of `fuel::lemma_local_cache_asset_path`).
pub proof fn lemma_web_cache_mesh(
    uri: Seq<char>,
    pre: Seq<char>,
    owner: Seq<char>,
    kind: Seq<char>,
    name: Seq<char>,
    version: Seq<char>,
    rest: Seq<char>,
)
    requires
        uri == pre + FUEL_HOST@ + "/"@ + owner + "/"@ + kind + "/"@ + name + "/"@ + version + "/"@ + rest,
        !is_prefix("https://"@, uri),
        forall|i: int| 0 <= i < pre.len() ==> !occurs_at(uri, FUEL_HOST@, i),
        is_component(owner),
        is_component(kind),
        is_component(name),
        is_component(version),
        is_clean_path(rest),
    ensures
        mesh_asset_path(uri, Platform::Web) == "fuel://"@ + owner + "/"@ + kind + "/"@ + name + "/"@ + version
            + "/files/"@ + rest,
{
    assert(uri.subrange(pre.len() as int, (pre.len() + FUEL_HOST@.len()) as int) =~= FUEL_HOST@);
    assert(occurs_at(uri, FUEL_HOST@, pre.len() as int));
    lemma_local_cache_asset_path(uri, pre, owner, kind, name, version, rest);
}

/// On a native build a local Fuel cache path is read from disk: an absolute
/// path is kept, and `file://` in front of an absolute path is dropped.
pub proof fn lemma_native_cache_mesh(uri: Seq<char>, q: Seq<char>)
    requires
        contains(uri, FUEL_HOST@) || contains(uri, IGN_FUEL_HOST@),
        is_prefix("/"@, q),
    ensures
        uri == q ==> mesh_asset_path(uri, Platform::Native) == q,
        uri == "file://"@ + q ==> mesh_asset_path(uri, Platform::Native) == q,
{
    reveal_strlit("/");
    reveal_strlit("file://");
    reveal_strlit("https://");
    reveal_strlit("http://");
    assert(q.take(1)[0] == q[0]);
    assert(q[0] == '/');
    if uri == q {
        assert(uri[0] != "https://"@[0] && uri[0] != "http://"@[0]);
        assert(!is_prefix("file://"@, uri)) by {
            if is_prefix("file://"@, uri) {
                assert(uri.take(7)[0] == uri[0]);
            }
        }
    }
    if uri == "file://"@ + q {
        assert(uri.take(7) =~= "file://"@);
        assert(uri.skip(7) =~= q);
        assert(!is_prefix("https://"@, uri)) by {
            if is_prefix("https://"@, uri) {
                assert(uri.take(8)[0] == uri[0]);
                assert(uri[0] == 'f');
            }
        }
        assert(!is_prefix("http://"@, uri)) by {
            if is_prefix("http://"@, uri) {
                assert(uri.take(7)[0] == uri[0]);
            }
        }
    }
}

/// A `file://` URI that names no Fuel host: on a native build the absolute
/// path `/` + the rest (one `/` kept when the rest already starts with one),
/// in the browser `wsasset://` + the rest; any other URI that names no Fuel
/// host is kept on both platforms.
pub proof fn lemma_file_and_other_mesh(uri: Seq<char>, q: Seq<char>, platform: Platform)
    requires
        !contains(uri, FUEL_HOST@),
        !contains(uri, IGN_FUEL_HOST@),
    ensures
        uri == "file://"@ + q && is_prefix("/"@, q) ==> mesh_asset_path(uri, Platform::Native) == q,
        uri == "file://"@ + q && !is_prefix("/"@, q) ==> mesh_asset_path(uri, Platform::Native) == "/"@ + q,
        uri == "file://"@ + q ==> mesh_asset_path(uri, Platform::Web) == "wsasset://"@ + q,
        !is_prefix("file://"@, uri) ==> mesh_asset_path(uri, platform) == uri,
{
    if uri == "file://"@ + q {
        reveal_strlit("file://");
        assert(uri.take(7) =~= "file://"@);
        assert(uri.skip(7) =~= q);
    }
}


/// The extension of a path whose last component is `stem.ext` (a non-empty
/// `stem`, a non-empty `ext` with no `.`, neither holding a `/`), after an
/// empty directory part or one that ends in `/`, is `ext`, in the letter
/// case it is written in.
pub proof fn lemma_path_extension(dir: Seq<char>, stem: Seq<char>, ext: Seq<char>)
    requires
        dir.len() == 0 || dir.last() == '/',
        is_component(stem),
        is_component(ext),
        forall|i: int| 0 <= i < ext.len() ==> ext[i] != '.',
    ensures
        path_extension(dir + stem + "."@ + ext) == ext,
{
    reveal_strlit(".");
    reveal_strlit("..");
    let name = stem + seq!['.'] + ext;
    assert(stem + "."@ + ext =~= name);
    assert(is_component(name)) by {
        assert forall|i: int| 0 <= i < name.len() implies name[i] != '/' by {
            if i < stem.len() {
                assert(name[i] == stem[i]);
            } else if i > stem.len() {
                assert(name[i] == ext[i - stem.len() - 1]);
            }
        }
    }
    lemma_segments_component(name, seq![]);
    assert(name + seq![] =~= name);
    assert(segments(seq![], '/') =~= Seq::<Seq<char>>::empty());
    assert(segments(name, '/') =~= seq![name]);
    if dir.len() == 0 {
        assert(dir + stem + "."@ + ext =~= name);
    } else {
        let d = dir.drop_last();
        assert(dir + stem + "."@ + ext =~= d + seq!['/'] + name);
        lemma_segments_split(d, name);
    }
    let segs = segments(dir + stem + "."@ + ext, '/');
    assert(segs.last() == name);
    assert(segs.len() > 0);
    assert(name.len() >= 3);
    assert(name != "."@ && name != ".."@);
    lemma_last_dot(stem, ext);
    assert(name.skip(stem.len() as int + 1) =~= ext);
}


/// Nothing is dropped at any depth: a deleted model spawns nothing; a model
/// that is not deleted spawns each of its spawnable visuals, everything its
/// links spawn and everything its nested models spawn (at their own paths);
/// a link spawns each of its spawnable visuals and each of its lights that
/// is not switched off.
pub proof fn lemma_model_items_complete(m: ModelOutline, path: Seq<usize>, l: LinkOutline, k: int, j: int, i: int, x: SpawnItemView)
    ensures
        m.deleted ==> model_items(m, path) == Seq::<SpawnItemView>::empty(),
        !m.deleted && 0 <= i < m.visuals@.len() && !m.visuals@[i].delete_me && m.visuals@[i].geometry is Some
            && shape_of(m.visuals@[i].geometry->0) is Some ==> model_items(m, path).contains(
            SpawnItemView {
                model: path,
                link: None,
                what: Spawn::Visual { index: i as usize, shape: shape_of(m.visuals@[i].geometry->0)->0 },
            },
        ),
        !m.deleted && 0 <= k < m.links@.len() && link_items(m.links@[k], path, k).contains(x) ==> model_items(
            m,
            path,
        ).contains(x),
        !m.deleted && 0 <= j < m.models@.len() && model_items(m.models@[j], path.push(j as usize)).contains(x)
            ==> model_items(m, path).contains(x),
        0 <= i < l.visuals@.len() && !l.visuals@[i].delete_me && l.visuals@[i].geometry is Some && shape_of(
            l.visuals@[i].geometry->0,
        ) is Some ==> link_items(l, path, k).contains(
            SpawnItemView {
                model: path,
                link: Some(k as usize),
                what: Spawn::Visual { index: i as usize, shape: shape_of(l.visuals@[i].geometry->0)->0 },
            },
        ),
        0 <= i < l.lights@.len() && !l.lights@[i].is_light_off ==> link_items(l, path, k).contains(
            SpawnItemView {
                model: path,
                link: Some(k as usize),
                what: Spawn::Light { index: i as usize, kind: light_kind(l.lights@[i].type_code) },
            },
        ),
{
    if !m.deleted {
        let vis = visuals_items(m.visuals@, path, None, m.visuals@.len() as int);
        let lks = links_items(m.links@, path, m.links@.len() as int);
        let sub = models_items(m.models@, path, m.models@.len() as int);
        assert(model_items(m, path) == vis + lks + sub);
        if 0 <= i < m.visuals@.len() && !m.visuals@[i].delete_me && m.visuals@[i].geometry is Some && shape_of(
            m.visuals@[i].geometry->0,
        ) is Some {
            let y = SpawnItemView {
                model: path,
                link: None,
                what: Spawn::Visual { index: i as usize, shape: shape_of(m.visuals@[i].geometry->0)->0 },
            };
            lemma_visuals_items_complete(m.visuals@, path, None, m.visuals@.len() as int, i);
            lemma_contains_concat(vis, lks, y);
            lemma_contains_concat(vis + lks, sub, y);
        }
        if 0 <= k < m.links@.len() && link_items(m.links@[k], path, k).contains(x) {
            lemma_links_items_include(m.links@, path, m.links@.len() as int, k, x);
            lemma_contains_concat(lks, vis, x);
            lemma_contains_concat(vis + lks, sub, x);
        }
        if 0 <= j < m.models@.len() && model_items(m.models@[j], path.push(j as usize)).contains(x) {
            lemma_models_items_include(m.models@, path, m.models@.len() as int, j, x);
            lemma_contains_concat(sub, vis + lks, x);
        }
    }
    let lv = visuals_items(l.visuals@, path, Some(k as usize), l.visuals@.len() as int);
    let ll = lights_items(l.lights@, path, Some(k as usize), l.lights@.len() as int);
    if 0 <= i < l.visuals@.len() && !l.visuals@[i].delete_me && l.visuals@[i].geometry is Some && shape_of(
        l.visuals@[i].geometry->0,
    ) is Some {
        let y = SpawnItemView {
            model: path,
            link: Some(k as usize),
            what: Spawn::Visual { index: i as usize, shape: shape_of(l.visuals@[i].geometry->0)->0 },
        };
        lemma_visuals_items_complete(l.visuals@, path, Some(k as usize), l.visuals@.len() as int, i);
        lemma_contains_concat(lv, ll, y);
    }
    if 0 <= i < l.lights@.len() && !l.lights@[i].is_light_off {
        let y = SpawnItemView {
            model: path,
            link: Some(k as usize),
            what: Spawn::Light { index: i as usize, kind: light_kind(l.lights@[i].type_code) },
        };
        lemma_lights_items_complete(l.lights@, path, Some(k as usize), l.lights@.len() as int, i);
        lemma_contains_concat(ll, lv, y);
    }
}


/// Everything a top-level model spawns at its path `[j]` is planned for the
/// scene.
pub proof fn lemma_scene_models_included(s: SceneOutline, j: int, x: SpawnItemView)
    requires
        0 <= j < s.models@.len(),
        model_items(s.models@[j], seq![j as usize]).contains(x),
    ensures
        scene_items(s).contains(x),
{
    let root = Seq::<usize>::empty();
    assert(root.push(j as usize) =~= seq![j as usize]);
    lemma_models_items_include(s.models@, root, s.models@.len() as int, j, x);
    lemma_contains_concat(
        models_items(s.models@, root, s.models@.len() as int),
        lights_items(s.lights@, root, None, s.lights@.len() as int),
        x,
    );
}

} // verus!
