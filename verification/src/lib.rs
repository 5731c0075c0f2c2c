//! A Gazebo scene viewer's protocol and scene logic: the websocket session
//! with a Gazebo simulation, the scene request protocol, the traversal of a
//! decoded scene into the entities to spawn, and the resolution of mesh and
//! Fuel asset locations.
pub mod adapter;
pub mod asset_proxy;
pub mod fuel;
pub mod gz_msgs;
pub mod scene;
pub mod text;
pub mod websocket;
