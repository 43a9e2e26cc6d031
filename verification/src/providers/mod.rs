//! One module per provider.

pub mod qwencloud;
pub mod qwencloud_adapter;
pub mod qwencloud_keys;
pub mod qwencloud_session;
pub mod qwencloud_usage;
pub mod sakana;
pub mod stepfun;
pub mod stepfun_usage;
pub mod sub2api;
pub mod synthetic;
pub mod synthetic_keys;
pub mod t3chat;
pub mod venice;
pub mod vertexai;
pub mod vertexai_quota;
pub mod vertexai_settings;
pub mod warp;
pub mod wayfinder;
pub mod windsurf;
pub mod xai;
pub mod zai;
pub mod zai_models;
pub mod zai_sample;
pub mod zai_usage;
pub mod zed;
pub mod zenmux;
pub mod zoommate;
pub mod zoommate_responses;
pub mod zoommate_session;
pub mod zoommate_usage;
