//! The platform's records: projects, novels, chapters, jobs, provider settings
//! and the inputs and results of the import and BYOK flows.
use vstd::prelude::*;

verus! {

#[derive(Debug, Clone, PartialEq, Eq)]
pub struct Project {
    pub id: String,
    pub workspace_id: String,
    pub name: String,
    pub visibility: String,
    pub created_at: String,
    pub updated_at: String,
}

#[derive(Debug, Clone, PartialEq, Eq)]
pub struct Novel {
    pub id: String,
    pub project_id: String,
    pub title: String,
    pub author: Option<String>,
    pub source_language: Option<String>,
    pub genre: Option<String>,
    pub description: Option<String>,
    pub created_at: String,
    pub updated_at: String,
}

#[derive(Debug, Clone, PartialEq, Eq)]
pub struct Chapter {
    pub id: String,
    pub novel_id: String,
    pub chapter_num: i64,
    pub title: String,
    pub content: String,
    pub created_at: String,
    pub updated_at: String,
}

#[derive(Debug, Clone, PartialEq, Eq)]
pub struct SourceSegment {
    pub id: String,
    pub novel_id: String,
    pub chapter_id: String,
    pub segment_index: i64,
    pub start_char: i64,
    pub end_char: i64,
    pub segment_kind: String,
    pub text: String,
    pub created_at: String,
    pub updated_at: String,
}

#[derive(Debug, Clone, PartialEq, Eq)]
pub struct AnalysisJob {
    pub id: String,
    pub project_id: String,
    pub novel_id: Option<String>,
    pub job_type: String,
    pub status: String,
    pub payload_json: String,
    pub started_at: Option<String>,
    pub finished_at: Option<String>,
    pub error_code: Option<String>,
    pub error_message: Option<String>,
    pub created_at: String,
    pub updated_at: String,
}

#[derive(Debug, Clone, PartialEq, Eq)]
pub struct AnalysisChapterRun {
    pub id: String,
    pub project_id: String,
    pub job_id: String,
    pub novel_id: String,
    pub chapter_id: String,
    pub chapter_num: i64,
    pub status: String,
    pub attempt: i64,
    pub prompt_schema_version: Option<String>,
    pub output_json: Option<String>,
    pub error_code: Option<String>,
    pub error_message: Option<String>,
    pub started_at: Option<String>,
    pub finished_at: Option<String>,
    pub created_at: String,
    pub updated_at: String,
}

#[derive(Debug, Clone, Copy, PartialEq, Eq, Structural)]
pub enum AnalysisExecutionProfile {
    LocalSmallStaged,
    CloudGeminiOneShot,
}

#[derive(Debug, Clone)]
pub struct AnalysisRunStepInput {
    pub force: bool,
    pub from_chapter_num: Option<i64>,
    pub to_chapter_num: Option<i64>,
    pub execution_profile: Option<AnalysisExecutionProfile>,
}

#[derive(Debug, Clone, PartialEq, Eq)]
pub struct StoryCharacterMention {
    pub text: String,
    pub start_char: i64,
    pub end_char: i64,
    pub mention_type: Option<String>,
}

#[derive(Debug, Clone, PartialEq)]
pub struct StoryEvidenceSpan {
    pub chapter_num: i64,
    pub start_char: Option<i64>,
    pub end_char: Option<i64>,
    pub quote: Option<String>,
    pub reason: Option<String>,
}

#[derive(Debug, Clone, PartialEq, Eq)]
pub struct TranslationJob {
    pub id: String,
    pub project_id: String,
    pub novel_id: String,
    pub source_language: Option<String>,
    pub target_language: String,
    pub provider: Option<String>,
    pub model: Option<String>,
    pub status: String,
    pub payload_json: String,
    pub started_at: Option<String>,
    pub finished_at: Option<String>,
    pub error_code: Option<String>,
    pub error_message: Option<String>,
    pub created_at: String,
    pub updated_at: String,
}

#[derive(Debug, Clone, PartialEq, Eq)]
pub struct ByokProviderPreset {
    pub id: String,
    pub name: String,
    pub base_url: String,
    pub default_model: String,
    pub models: Vec<String>,
    pub api_format: String,
}

#[derive(Debug, Clone, PartialEq, Eq)]
pub struct ByokProviderConfigRecord {
    pub id: String,
    pub user_id: String,
    pub provider: String,
    pub display_name: String,
    pub base_url: Option<String>,
    pub model: Option<String>,
    pub api_format: String,
    pub encrypted_secret_ref: Option<String>,
    pub key_fingerprint: Option<String>,
    pub session_only: bool,
    pub last_checked_at: Option<String>,
    pub last_health_status: Option<String>,
    pub created_at: String,
    pub updated_at: String,
}

#[derive(Debug, Clone, PartialEq, Eq)]
pub struct ByokProviderConfigView {
    pub provider: String,
    pub display_name: String,
    pub base_url: String,
    pub model: String,
    pub api_format: String,
    pub has_api_key: bool,
    pub api_key_masked: String,
    pub key_fingerprint: Option<String>,
    pub session_only: bool,
    pub last_checked_at: Option<String>,
    pub last_health_status: Option<String>,
    pub updated_at: Option<String>,
}

#[derive(Debug, Clone)]
pub struct SaveByokProviderConfigInput {
    pub provider: String,
    pub base_url: String,
    pub model: String,
    pub api_key: Option<String>,
    pub session_only: bool,
}

#[derive(Debug, Clone, PartialEq, Eq)]
pub struct SaveByokProviderConfigResult {
    pub config: ByokProviderConfigView,
    pub saved_api_key: bool,
}

#[derive(Debug, Clone)]
pub struct CheckByokProviderKeyInput {
    pub provider: String,
    pub base_url: String,
    pub model: String,
    pub api_key: Option<String>,
}

#[derive(Debug, Clone, PartialEq, Eq)]
pub struct ByokProviderKeyHealth {
    pub provider: String,
    pub base_url: String,
    pub model: String,
    pub valid: bool,
    pub status_code: Option<u16>,
    pub message: String,
    pub checked_at: String,
}

#[derive(Debug, Clone, PartialEq, Eq)]
pub struct JobEvent {
    pub id: String,
    pub project_id: String,
    pub job_id: String,
    pub job_kind: String,
    pub sequence: i64,
    pub event_type: String,
    pub payload_json: String,
    pub created_at: String,
}

#[derive(Debug, Clone)]
pub struct CreateProjectInput {
    pub name: String,
}

#[derive(Debug, Clone)]
pub struct DeleteProjectInput {
    pub purge_data: bool,
}

#[derive(Debug, Clone, PartialEq, Eq)]
pub struct DeleteProjectResult {
    pub project_id: String,
    pub action: String,
    pub data_retained: bool,
}

#[derive(Debug, Clone)]
pub struct CreateTranslationJobInput {
    pub novel_id: String,
    pub source_language: Option<String>,
    pub target_language: String,
    pub provider: Option<String>,
    pub model: Option<String>,
}

#[derive(Debug, Clone)]
pub struct NovelImportInput {
    pub title: String,
    pub author: Option<String>,
    pub source_language: Option<String>,
    pub genre: Option<String>,
    pub description: Option<String>,
    pub text: String,
}

#[derive(Debug, Clone, PartialEq, Eq)]
pub struct NovelMetadataUpdateInput {
    pub title: Option<String>,
    pub author: Option<String>,
    pub source_language: Option<String>,
    pub genre: Option<String>,
    pub description: Option<String>,
}

#[derive(Debug, Clone, PartialEq)]
pub struct NovelMetadataSuggestionInput {
    pub title: Option<String>,
    pub author: Option<String>,
    pub source_language: Option<String>,
    pub genre: Option<String>,
    pub description: Option<String>,
    pub text: String,
}

#[derive(Debug, Clone, PartialEq, Eq)]
pub struct ChapterPreview {
    pub chapter_num: i64,
    pub title: String,
    pub start_char: usize,
    pub end_char: usize,
    pub char_count: usize,
    pub preview: String,
}

#[derive(Debug, Clone, PartialEq, Eq)]
pub struct ImportPreview {
    pub title: String,
    pub total_chars: usize,
    pub chapter_count: usize,
    pub chapters: Vec<ChapterPreview>,
}

#[derive(Debug, Clone)]
pub struct NovelImportResult {
    pub novel: Novel,
    pub chapters: Vec<Chapter>,
    pub source_segment_count: usize,
    pub analysis_job: AnalysisJob,
}

#[derive(Debug, Clone, PartialEq, Eq)]
pub struct LocalLlmModelSelection {
    pub source_kind: String,
    pub display_name: String,
    pub path: String,
    pub preset_id: Option<String>,
    pub size_bytes: Option<u64>,
    pub exists: bool,
}

#[derive(Debug, Clone, PartialEq, Eq)]
pub struct LocalLlmPreset {
    pub id: String,
    pub name: String,
    pub description: String,
    pub filename: String,
    pub size_label: String,
    pub source_url: String,
    pub installed: bool,
    pub active: bool,
}

#[derive(Debug, Clone, PartialEq, Eq)]
pub struct LocalLlmDownloadState {
    pub preset_id: String,
    pub preset_name: String,
    pub filename: String,
    pub target_path: String,
    pub status: String,
    pub bytes_downloaded: u64,
    pub total_bytes: Option<u64>,
    pub auto_activate: bool,
    pub error_message: Option<String>,
}

#[derive(Debug, Clone, PartialEq, Eq)]
pub struct LocalLlmRuntimeSnapshot {
    pub base_url: String,
    pub default_model_alias: String,
    pub server_binary: String,
    pub models_dir: String,
    pub server_running: bool,
    pub server_pid: Option<u32>,
    pub selected_model: Option<LocalLlmModelSelection>,
    pub downloaded_models: Vec<LocalLlmModelSelection>,
    pub presets: Vec<LocalLlmPreset>,
    pub active_download: Option<LocalLlmDownloadState>,
    pub last_error: Option<String>,
}

#[derive(Debug, Clone)]
pub struct ActivateManagedLocalModelInput {
    pub path: String,
}

pub open spec fn execution_profile_name(p: AnalysisExecutionProfile) -> Seq<char> {
    match p {
        AnalysisExecutionProfile::LocalSmallStaged => "local_small_staged"@,
        AnalysisExecutionProfile::CloudGeminiOneShot => "cloud_gemini_one_shot"@,
    }
}

impl AnalysisExecutionProfile {
    pub fn as_str(&self) -> (r: &'static str)
        ensures
            r@ == execution_profile_name(*self),
    {
        match self {
            AnalysisExecutionProfile::LocalSmallStaged => "local_small_staged",
            AnalysisExecutionProfile::CloudGeminiOneShot => "cloud_gemini_one_shot",
        }
    }
}

impl Default for AnalysisExecutionProfile {
    fn default() -> (r: Self)
        ensures
            r == AnalysisExecutionProfile::LocalSmallStaged,
    {
        AnalysisExecutionProfile::LocalSmallStaged
    }
}

fn clone_text(value: &Option<String>) -> (r: Option<String>)
    ensures
        r == *value,
{
    match value {
        Some(v) => Some(v.clone()),
        None => None,
    }
}

/// A copy of an evidence span.
pub fn clone_evidence_span(span: &StoryEvidenceSpan) -> (r: StoryEvidenceSpan)
    ensures
        r == *span,
{
    StoryEvidenceSpan {
        chapter_num: span.chapter_num,
        start_char: span.start_char,
        end_char: span.end_char,
        quote: clone_text(&span.quote),
        reason: clone_text(&span.reason),
    }
}

/// A copy of a list of evidence spans.
pub fn clone_evidence(spans: &Vec<StoryEvidenceSpan>) -> (r: Vec<StoryEvidenceSpan>)
    ensures
        r@ == spans@,
{
    let mut out: Vec<StoryEvidenceSpan> = Vec::new();
    let mut i: usize = 0;
    while i < spans.len()
        invariant
            0 <= i <= spans@.len(),
            out@ == spans@.take(i as int),
        decreases spans@.len() - i,
    {
        out.push(clone_evidence_span(&spans[i]));
        proof {
            assert(out@ =~= spans@.take(i + 1));
        }
        i += 1;
    }
    proof {
        assert(spans@.take(i as int) =~= spans@);
    }
    out
}

} // verus!
