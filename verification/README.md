# gz_viewer

The protocol and scene logic of a Bevy viewer for Gazebo simulations,
verified with Verus.

- `src/` — the verified library:
  - `websocket`: the websocket session (status line, text messages,
    `operation,topic,msgType,<payload>` binary frames), the port and
    address to connect to, and the native connection thread's decisions;
  - `scene`: the scene request protocol (worlds, then scene), the traversal
    of a decoded scene into the entities to spawn, and the resolution of
    mesh URIs into asset paths and load plans;
  - `fuel`: Gazebo Fuel URIs and `fuel://` asset paths;
  - `asset_proxy`: the queue of assets requested over the websocket;
  - `gz_msgs`: the float-free `gz.msgs` messages and enumeration wire numbers;
  - `adapter`: how the graphics back end is shown;
  - `text`: string operations with exact specifications.
- `app/` — the Bevy application: plugins, systems, sockets, HTTP fetches,
  prost decoding, and the floating-point poses, colours and materials.
- `tests/` — tests of the library.
