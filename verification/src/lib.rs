//! A verified core for a three-stage market-tick pipeline: ingestion of raw
//! feed frames, normalization of raw ticks, and persistence of normalized
//! ticks as line-protocol records, together with the envelope/lineage rules,
//! the sink retry policy, and the lag-gauge throttle that tie the stages
//! together. All transport (feed, log broker, sink socket) lives outside this
//! crate; the functions here are pure decisions and codecs over plain bytes.

pub mod dec;
pub mod ilp;
pub mod json;
pub mod num;
pub mod stage;
pub mod tick;
