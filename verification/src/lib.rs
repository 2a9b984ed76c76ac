pub mod text;
pub mod jobs;
pub mod domain;
pub mod lines;
pub mod import;
pub mod extraction;
pub mod version;
pub mod config;
pub mod prompt_registry;
pub mod cloud_extraction;
pub mod ai;
pub mod redact;
pub mod llm_json;
pub mod errors;
pub mod crypto;
pub mod byok;
pub mod local_runtime;
pub mod keys;
pub mod surfaces;
pub mod characters;
pub mod analysis;
pub mod occurrences;
pub mod mentions;
pub mod records;
pub mod relationships;
pub mod resolution;
pub mod documents;
pub mod relationship_pass;
pub mod alias_context;
pub mod field_context;
pub mod cloud_records;
pub mod novels;
pub mod analysis_step;
pub mod cloud_relationships;
pub mod alias_merges;
pub mod cloud_characters;
pub mod cloud_pass;
pub mod chunk_prompts;
pub mod chapter_pipeline;
pub mod relationship_candidates;
