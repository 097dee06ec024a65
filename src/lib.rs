pub mod pipeline;
pub mod section;
pub mod text;
pub mod video;
pub mod video_option;
pub mod voice;
