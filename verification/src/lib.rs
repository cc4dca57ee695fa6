pub mod download;
pub mod errors;
pub mod keys;
pub mod plan;
pub mod playlist;
pub mod text;
pub mod urls;

pub use download::{require_content_length, segment_dest_path};
pub use errors::PipelineError;
pub use keys::{get_key_info, KeyInfo};
pub use plan::{key_fetch_plan, make_plan, PlaylistPlan};
pub use playlist::{get_ts_list, validate_m3u8_content};
pub use urls::resolve_segment_url;
