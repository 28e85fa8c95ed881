use vstd::prelude::*;

verus! {

#[derive(Clone, Copy, Debug, PartialEq, Eq, Structural)]
pub struct TimeSignature {
    pub numerator: u32,
    pub denominator: u32,
}

/// What an arrangement clip holds.
#[derive(Clone, Debug)]
pub enum ClipContent {
    Midi,
    Audio { path: String },
}

/// A lane of the arrangement and the mixer track it feeds.
#[derive(Clone, Debug)]
pub struct ArrangementTrack {
    pub id: usize,
    pub name: String,
    pub color: String,
    pub muted: bool,
    pub soloed: bool,
    pub target_mixer_track_id: usize,
}

/// Descriptive metadata of a project.
#[derive(Clone, Debug)]
pub struct ProjectMetadata {
    pub name: String,
    pub author: String,
    pub version: String,
    pub created_at: u64,
    pub updated_at: u64,
    pub description: String,
}

#[derive(Clone, Copy, Debug, PartialEq, Eq, Structural)]
pub enum TrackType {
    Audio,
    Midi,
    Group,
    Return,
}

/// What a stored clip holds.
#[derive(Clone, Debug)]
pub enum ClipContentType {
    Midi,
    Audio { file_path: String },
}

/// A stored plugin instance of a project.
#[derive(Clone, Debug)]
pub struct PluginSchema {
    pub id: String,
    pub name: String,
    pub label: String,
    pub routing_track_index: usize,
    pub format: String,
    pub state_blob_id: Option<i64>,
}

/// A plugin instance as the control side lists it.
#[derive(Clone, Debug)]
pub struct PluginInstanceData {
    pub id: String,
    pub name: String,
    pub label: String,
    pub routing_track_index: usize,
}

} // verus!
