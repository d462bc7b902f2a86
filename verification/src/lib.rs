//! FLV demuxing and fragmented-MP4 remuxing, with verified parsers and box writers.
#![allow(non_snake_case)]

pub mod amf_parser;
pub mod bytes;
pub mod exp_golomb;
pub mod flv_codec;
pub mod flv_demuxer;
pub mod flv_parse;
pub mod flv_tags;
pub mod media_info;
pub mod media_segment_info;
pub mod mp4_generator;
pub mod mp4_remuxer;
pub mod sps_parser;
