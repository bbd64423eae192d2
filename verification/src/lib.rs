use vstd::prelude::*;

pub mod text;
pub mod encode_settings;
pub mod edit;
pub mod ffmpeg;
pub mod mpv_player;
pub mod number;
pub mod playback;
pub mod player;
pub mod preview_quality;
pub mod probe;
pub mod timeline;
pub mod time_edit;
pub mod timecode;
pub mod video_viz;

verus! {

} // verus!
