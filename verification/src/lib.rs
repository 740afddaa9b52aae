//! Library for resolving videos on a bilibili-style site: the numeric-id /
//! short-code codec, part-range parsing, part-list construction, the
//! interactive-video graph traversal, and URL resolution, together with the
//! option, setting and cookie stores that support them.
pub mod aria2c;
pub mod codec;
pub mod convert;
pub mod cookies_json;
pub mod ffmetafile;
pub mod getopt;
pub mod interaction;
pub mod json_model;
pub mod memory_file;
pub mod metadata;
pub mod normal_video;
pub mod number;
pub mod opt_list;
pub mod part;
pub mod part_info;
pub mod pathutil;
pub mod provider_base;
pub mod providers;
pub mod settings;
pub mod size;
pub mod strutil;
pub mod webdriver;
