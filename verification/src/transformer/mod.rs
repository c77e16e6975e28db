pub mod attention_hooks;
pub mod kv_delta;

pub use attention_hooks::{AttentionHook, AttentionOverlay};
pub use kv_delta::{KvDeltaEngine, KvDeltaUpdate};
