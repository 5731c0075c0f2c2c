//! The `gz.msgs` messages whose fields are all integers, booleans, strings
//! and nested messages of the same kind, with the wire numbers of the
//! `gz.msgs` enumerations. Only the fields that this viewer reads are kept;
//! the wire format itself is handled where the bytes are decoded.
pub mod fog;
pub mod geometry;
pub mod header;
pub mod joint;
pub mod light;
pub mod material;
pub mod visual;

use vstd::prelude::*;

verus! {

/// A point in time: seconds and nanoseconds.
#[derive(Clone, Copy, Debug, PartialEq, Default)]
pub struct Time {
    pub sec: i64,
    pub nsec: i32,
}

/// A message header: a time stamp and key/values entries.
#[derive(Clone, Debug, PartialEq, Default)]
pub struct Header {
    pub stamp: Option<Time>,
    pub data: Vec<header::MapEntry>,
}

/// A height map geometry (its data is not used for rendering).
#[derive(Clone, Debug, PartialEq, Default)]
pub struct HeightmapGeom {
    pub header: Option<Header>,
}

/// A plugin attached to a visual.
#[derive(Clone, Debug, PartialEq, Default)]
pub struct Plugin {
    pub header: Option<Header>,
    pub name: String,
    pub filename: String,
    pub innerxml: String,
}

/// A single string (`gz.msgs.StringMsg`).
#[derive(Clone, Debug, PartialEq, Default)]
pub struct StringMsg {
    pub header: Option<Header>,
    pub data: String,
}

/// A list of strings (`gz.msgs.StringMsg_V`), e.g. the names of the worlds.
#[derive(Clone, Debug, PartialEq, Default)]
pub struct StringMsgV {
    pub header: Option<Header>,
    pub data: Vec<String>,
}

} // verus!
