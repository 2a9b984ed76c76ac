//! The decisions of the local llama.cpp runtime: its errors and how the API
//! answers them, the catalog of downloadable model presets, the download
//! bookkeeping, the server-process status, and the ordering of found models.
use vstd::prelude::*;
use crate::domain::{LocalLlmDownloadState, LocalLlmModelSelection, LocalLlmPreset};
use crate::errors::ApiError;
use crate::config::to_ascii_lowercase;
use crate::text::{
    ascii_lower_seq, chars_eq, chars_of, lemma_less_asym, lemma_not_less_trans, opt_view, owned,
    push_str, seq_less, str_eq, str_less,
};

verus! {

// ------------------------------------------------------------------------
// Errors.
// ------------------------------------------------------------------------
/// What can go wrong in the local runtime. The last three carry the text of
/// an I/O, HTTP or JSON error.
#[derive(Debug, Clone, PartialEq, Eq)]
pub enum LocalRuntimeError {
    SelectionCancelled,
    UnknownPreset(String),
    DownloadAlreadyRunning,
    MissingModel(String),
    ManagedModelOutsideRepo,
    InvalidBaseUrl(String),
    StartFailed(String),
    Io(String),
    Request(String),
    Serde(String),
}

/// The message of a runtime error.
pub open spec fn runtime_error_message(e: LocalRuntimeError) -> Seq<char> {
    match e {
        LocalRuntimeError::SelectionCancelled => "no model file was selected"@,
        LocalRuntimeError::UnknownPreset(id) => "unknown model preset: "@ + id@,
        LocalRuntimeError::DownloadAlreadyRunning => "another model download is already running"@,
        LocalRuntimeError::MissingModel(path) => "selected model file does not exist: "@ + path@,
        LocalRuntimeError::ManagedModelOutsideRepo => "managed model path must stay inside the repo models directory"@,
        LocalRuntimeError::InvalidBaseUrl(m) => "invalid LLAMA_CPP_BASE_URL: "@ + m@,
        LocalRuntimeError::StartFailed(m) => "failed to start llama-server: "@ + m@,
        LocalRuntimeError::Io(m) => m@,
        LocalRuntimeError::Request(m) => m@,
        LocalRuntimeError::Serde(m) => m@,
    }
}

fn prefixed(prefix: &str, detail: &String) -> (r: String)
    ensures
        r@ == prefix@ + detail@,
{
    let mut out = owned(prefix);
    push_str(&mut out, detail.as_str());
    out
}

impl LocalRuntimeError {
    /// The human-readable message of the error.
    pub fn message(&self) -> (r: String)
        ensures
            r@ == runtime_error_message(*self),
    {
        match self {
            LocalRuntimeError::SelectionCancelled => owned("no model file was selected"),
            LocalRuntimeError::UnknownPreset(id) => prefixed("unknown model preset: ", id),
            LocalRuntimeError::DownloadAlreadyRunning => owned(
                "another model download is already running",
            ),
            LocalRuntimeError::MissingModel(path) => prefixed(
                "selected model file does not exist: ",
                path,
            ),
            LocalRuntimeError::ManagedModelOutsideRepo => owned(
                "managed model path must stay inside the repo models directory",
            ),
            LocalRuntimeError::InvalidBaseUrl(m) => prefixed("invalid LLAMA_CPP_BASE_URL: ", m),
            LocalRuntimeError::StartFailed(m) => prefixed("failed to start llama-server: ", m),
            LocalRuntimeError::Io(m) => m.clone(),
            LocalRuntimeError::Request(m) => m.clone(),
            LocalRuntimeError::Serde(m) => m.clone(),
        }
    }
}

/// The status and code the API answers a runtime error with.
pub open spec fn runtime_error_answer(e: LocalRuntimeError) -> (u16, Seq<char>) {
    match e {
        LocalRuntimeError::SelectionCancelled | LocalRuntimeError::UnknownPreset(_)
        | LocalRuntimeError::MissingModel(_)
        | LocalRuntimeError::ManagedModelOutsideRepo => (400, "invalid_request"@),
        LocalRuntimeError::DownloadAlreadyRunning => (409, "local_llm_download_busy"@),
        LocalRuntimeError::InvalidBaseUrl(_) | LocalRuntimeError::StartFailed(_) => (
            424,
            "local_llm_runtime_unavailable"@,
        ),
        LocalRuntimeError::Io(_) | LocalRuntimeError::Request(_) | LocalRuntimeError::Serde(_) => (
            500,
            "local_llm_runtime_error"@,
        ),
    }
}

/// The API error for a runtime error: user mistakes are `400`, a running
/// download `409`, an unusable server `424`, the rest `500`; the message is
/// the error's own.
pub fn api_error_from_runtime(error: &LocalRuntimeError) -> (r: ApiError)
    ensures
        (r.status, r.code@) == runtime_error_answer(*error),
        r.message@ == runtime_error_message(*error),
{
    let message = error.message();
    match error {
        LocalRuntimeError::SelectionCancelled | LocalRuntimeError::UnknownPreset(_)
        | LocalRuntimeError::MissingModel(_)
        | LocalRuntimeError::ManagedModelOutsideRepo => ApiError::bad_request(message),
        LocalRuntimeError::DownloadAlreadyRunning => ApiError {
            status: 409,
            code: "local_llm_download_busy",
            message,
        },
        LocalRuntimeError::InvalidBaseUrl(_) | LocalRuntimeError::StartFailed(_) => ApiError {
            status: 424,
            code: "local_llm_runtime_unavailable",
            message,
        },
        LocalRuntimeError::Io(_) | LocalRuntimeError::Request(_) | LocalRuntimeError::Serde(_) => {
            ApiError { status: 500, code: "local_llm_runtime_error", message }
        },
    }
}

// ------------------------------------------------------------------------
// The preset catalog.
// ------------------------------------------------------------------------
/// A model that can be downloaded by name.
#[derive(Debug, Clone, Copy)]
pub struct LocalPresetSpec {
    pub id: &'static str,
    pub name: &'static str,
    pub description: &'static str,
    pub filename: &'static str,
    pub size_label: &'static str,
    pub source_url: &'static str,
}

/// The catalog of presets, smallest first.
pub open spec fn preset_catalog() -> Seq<LocalPresetSpec> {
    seq![
        LocalPresetSpec {
            id: "tinyllama-1.1b-q4-k-m",
            name: "TinyLlama 1.1B Chat Q4_K_M",
            description: "Nhỏ nhất và dễ khởi động nhất. Hợp để test pipeline local trên CPU.",
            filename: "tinyllama-1.1b-chat-v1.0.Q4_K_M.gguf",
            size_label: "~0.67 GB",
            source_url: "https://huggingface.co/TheBloke/TinyLlama-1.1B-Chat-v1.0-GGUF/resolve/main/tinyllama-1.1b-chat-v1.0.Q4_K_M.gguf?download=true",
        },
        LocalPresetSpec {
            id: "qwen2.5-1.5b-q4-k-m",
            name: "Qwen2.5 1.5B Instruct Q4_K_M",
            description: "Cân bằng hơn TinyLlama cho tác vụ đọc, tóm tắt và prompt có cấu trúc.",
            filename: "Qwen2.5-1.5B-Instruct-Q4_K_M.gguf",
            size_label: "~1.09 GB",
            source_url: "https://huggingface.co/bartowski/Qwen2.5-1.5B-Instruct-GGUF/resolve/main/Qwen2.5-1.5B-Instruct-Q4_K_M.gguf?download=true",
        },
        LocalPresetSpec {
            id: "smollm2-1.7b-q4-k-m",
            name: "SmolLM2 1.7B Instruct Q4_K_M",
            description: "Lựa chọn local-first nhỏ gọn hơn cho instruction và phân tích có cấu trúc.",
            filename: "smollm2-1.7b-instruct-q4_k_m.gguf",
            size_label: "~1.06 GB",
            source_url: "https://huggingface.co/HuggingFaceTB/SmolLM2-1.7B-Instruct-GGUF/resolve/main/smollm2-1.7b-instruct-q4_k_m.gguf?download=true",
        },
    ]
}

/// The preset catalog.
pub fn local_presets() -> (r: Vec<LocalPresetSpec>)
    ensures
        r@ == preset_catalog(),
{
    vec![
        LocalPresetSpec {
            id: "tinyllama-1.1b-q4-k-m",
            name: "TinyLlama 1.1B Chat Q4_K_M",
            description: "Nhỏ nhất và dễ khởi động nhất. Hợp để test pipeline local trên CPU.",
            filename: "tinyllama-1.1b-chat-v1.0.Q4_K_M.gguf",
            size_label: "~0.67 GB",
            source_url: "https://huggingface.co/TheBloke/TinyLlama-1.1B-Chat-v1.0-GGUF/resolve/main/tinyllama-1.1b-chat-v1.0.Q4_K_M.gguf?download=true",
        },
        LocalPresetSpec {
            id: "qwen2.5-1.5b-q4-k-m",
            name: "Qwen2.5 1.5B Instruct Q4_K_M",
            description: "Cân bằng hơn TinyLlama cho tác vụ đọc, tóm tắt và prompt có cấu trúc.",
            filename: "Qwen2.5-1.5B-Instruct-Q4_K_M.gguf",
            size_label: "~1.09 GB",
            source_url: "https://huggingface.co/bartowski/Qwen2.5-1.5B-Instruct-GGUF/resolve/main/Qwen2.5-1.5B-Instruct-Q4_K_M.gguf?download=true",
        },
        LocalPresetSpec {
            id: "smollm2-1.7b-q4-k-m",
            name: "SmolLM2 1.7B Instruct Q4_K_M",
            description: "Lựa chọn local-first nhỏ gọn hơn cho instruction và phân tích có cấu trúc.",
            filename: "smollm2-1.7b-instruct-q4_k_m.gguf",
            size_label: "~1.06 GB",
            source_url: "https://huggingface.co/HuggingFaceTB/SmolLM2-1.7B-Instruct-GGUF/resolve/main/smollm2-1.7b-instruct-q4_k_m.gguf?download=true",
        },
    ]
}

/// No two presets share an id or a file name, even ignoring ASCII case, so a
/// preset is found again by either.
pub proof fn lemma_preset_catalog_distinct()
    ensures
        forall|i: int, j: int|
            0 <= i < j < preset_catalog().len() ==> {
                &&& preset_catalog()[i].id@ != preset_catalog()[j].id@
                &&& ascii_lower_seq(preset_catalog()[i].filename@) != ascii_lower_seq(
                    preset_catalog()[j].filename@,
                )
            },
{
    reveal_strlit("tinyllama-1.1b-q4-k-m");
    reveal_strlit("qwen2.5-1.5b-q4-k-m");
    reveal_strlit("smollm2-1.7b-q4-k-m");
    reveal_strlit("tinyllama-1.1b-chat-v1.0.Q4_K_M.gguf");
    reveal_strlit("Qwen2.5-1.5B-Instruct-Q4_K_M.gguf");
    reveal_strlit("smollm2-1.7b-instruct-q4_k_m.gguf");
    let c = preset_catalog();
    assert(c[0].id@[0] != c[1].id@[0]);
    assert(c[0].id@[0] != c[2].id@[0]);
    assert(c[1].id@[0] != c[2].id@[0]);
    assert(ascii_lower_seq(c[0].filename@)[0] != ascii_lower_seq(c[1].filename@)[0]);
    assert(ascii_lower_seq(c[0].filename@)[0] != ascii_lower_seq(c[2].filename@)[0]);
    assert(ascii_lower_seq(c[1].filename@)[0] != ascii_lower_seq(c[2].filename@)[0]);
}

/// The preset with the given id.
pub fn preset_by_id(preset_id: &str) -> (r: Option<LocalPresetSpec>)
    ensures
        r matches Some(p) ==> preset_catalog().contains(p) && p.id@ == preset_id@,
        r is None <==> forall|i: int|
            0 <= i < preset_catalog().len() ==> #[trigger] preset_catalog()[i].id@ != preset_id@,
{
    let presets = local_presets();
    let mut i: usize = 0;
    while i < presets.len()
        invariant
            presets@ == preset_catalog(),
            0 <= i <= presets@.len(),
            forall|k: int| 0 <= k < i ==> #[trigger] preset_catalog()[k].id@ != preset_id@,
        decreases presets@.len() - i,
    {
        if str_eq(presets[i].id, preset_id) {
            assert(preset_catalog()[i as int] == presets@[i as int]);
            return Some(presets[i]);
        }
        i += 1;
    }
    None
}

/// Whether two texts are equal once ASCII letters are lowercased, as
/// `str::eq_ignore_ascii_case` says.
pub fn eq_ignore_ascii_case(a: &str, b: &str) -> (r: bool)
    ensures
        r == (ascii_lower_seq(a@) == ascii_lower_seq(b@)),
{
    let la = to_ascii_lowercase(&chars_of(a));
    let lb = to_ascii_lowercase(&chars_of(b));
    chars_eq(&la, &lb)
}

/// The id of the preset whose file name is `file_name`, ignoring ASCII case.
pub fn preset_id_for_file(file_name: &str) -> (r: Option<String>)
    ensures
        r matches Some(id) ==> exists|i: int|
            0 <= i < preset_catalog().len() && preset_catalog()[i].id@ == id@ && ascii_lower_seq(
                #[trigger] preset_catalog()[i].filename@,
            ) == ascii_lower_seq(file_name@),
        r is None <==> forall|i: int|
            0 <= i < preset_catalog().len() ==> ascii_lower_seq(
                #[trigger] preset_catalog()[i].filename@,
            ) != ascii_lower_seq(file_name@),
{
    let presets = local_presets();
    let mut i: usize = 0;
    while i < presets.len()
        invariant
            presets@ == preset_catalog(),
            0 <= i <= presets@.len(),
            forall|k: int|
                0 <= k < i ==> ascii_lower_seq(#[trigger] preset_catalog()[k].filename@)
                    != ascii_lower_seq(file_name@),
        decreases presets@.len() - i,
    {
        if eq_ignore_ascii_case(presets[i].filename, file_name) {
            assert(preset_catalog()[i as int] == presets@[i as int]);
            return Some(owned(presets[i].id));
        }
        i += 1;
    }
    None
}

// ------------------------------------------------------------------------
// Downloads.
// ------------------------------------------------------------------------
/// Whether a download is queued or under way, so that no second one may start.
pub fn is_download_busy(active: &Option<LocalLlmDownloadState>) -> (r: bool)
    ensures
        r == (active matches Some(d) && (d.status@ == "queued"@ || d.status@ == "downloading"@)),
{
    match active {
        Some(d) => str_eq(d.status.as_str(), "queued") || str_eq(d.status.as_str(), "downloading"),
        None => false,
    }
}

/// The record of a preset's download at some stage.
pub fn download_state(
    preset: &LocalPresetSpec,
    target_path: &str,
    status: &str,
    bytes_downloaded: u64,
    total_bytes: Option<u64>,
    error_message: Option<String>,
) -> (r: LocalLlmDownloadState)
    ensures
        r.preset_id@ == preset.id@,
        r.preset_name@ == preset.name@,
        r.filename@ == preset.filename@,
        r.target_path@ == target_path@,
        r.status@ == status@,
        r.bytes_downloaded == bytes_downloaded,
        r.total_bytes == total_bytes,
        r.auto_activate,
        r.error_message == error_message,
{
    LocalLlmDownloadState {
        preset_id: owned(preset.id),
        preset_name: owned(preset.name),
        filename: owned(preset.filename),
        target_path: owned(target_path),
        status: owned(status),
        bytes_downloaded,
        total_bytes,
        auto_activate: true,
        error_message,
    }
}

/// A download just accepted: queued, nothing received yet.
pub fn queued_download_state(preset: &LocalPresetSpec, target_path: &str) -> (r: LocalLlmDownloadState)
    ensures
        r.preset_id@ == preset.id@,
        r.preset_name@ == preset.name@,
        r.filename@ == preset.filename@,
        r.target_path@ == target_path@,
        r.status@ == "queued"@,
        r.bytes_downloaded == 0,
        r.total_bytes is None,
        r.auto_activate,
        r.error_message is None,
{
    download_state(preset, target_path, "queued", 0, None, None)
}

/// The bytes and total a previous record counted, or none.
pub open spec fn previous_counts(previous: Option<LocalLlmDownloadState>) -> (u64, Option<u64>) {
    match previous {
        Some(d) => (d.bytes_downloaded, d.total_bytes),
        None => (0, None),
    }
}

/// The record after a finished download and the activation that follows it:
/// `completed`, or `completed_with_error` with the activation's error; the
/// counts stay those of the previous record.
pub fn finished_download_state(
    preset: &LocalPresetSpec,
    target_path: &str,
    previous: &Option<LocalLlmDownloadState>,
    activation_error: Option<String>,
) -> (r: LocalLlmDownloadState)
    ensures
        r.preset_id@ == preset.id@,
        r.preset_name@ == preset.name@,
        r.filename@ == preset.filename@,
        r.target_path@ == target_path@,
        r.status@ == if activation_error is Some {
            "completed_with_error"@
        } else {
            "completed"@
        },
        (r.bytes_downloaded, r.total_bytes) == previous_counts(*previous),
        r.auto_activate,
        r.error_message == activation_error,
{
    let (bytes, total) = match previous {
        Some(d) => (d.bytes_downloaded, d.total_bytes),
        None => (0, None),
    };
    let status = if activation_error.is_some() {
        "completed_with_error"
    } else {
        "completed"
    };
    download_state(preset, target_path, status, bytes, total, activation_error)
}

/// The record after a failed download: `failed`, with the error, and the
/// counts of the previous record.
pub fn failed_download_state(
    preset: &LocalPresetSpec,
    target_path: &str,
    previous: &Option<LocalLlmDownloadState>,
    error_message: String,
) -> (r: LocalLlmDownloadState)
    ensures
        r.preset_id@ == preset.id@,
        r.preset_name@ == preset.name@,
        r.filename@ == preset.filename@,
        r.target_path@ == target_path@,
        r.status@ == "failed"@,
        (r.bytes_downloaded, r.total_bytes) == previous_counts(*previous),
        r.auto_activate,
        r.error_message == Some(error_message),
{
    let (bytes, total) = match previous {
        Some(d) => (d.bytes_downloaded, d.total_bytes),
        None => (0, None),
    };
    download_state(preset, target_path, "failed", bytes, total, Some(error_message))
}

// ------------------------------------------------------------------------
// The presets as the snapshot shows them.
// ------------------------------------------------------------------------
/// A preset is installed when a found model file belongs to it and exists.
pub open spec fn preset_installed(models: Seq<LocalLlmModelSelection>, id: Seq<char>) -> bool {
    exists|k: int|
        0 <= k < models.len() && opt_view(#[trigger] models[k].preset_id) == Some(id)
            && models[k].exists
}

/// A preset is active when the selected model belongs to it.
pub open spec fn preset_active(selected: Option<LocalLlmModelSelection>, id: Seq<char>) -> bool {
    selected matches Some(m) && opt_view(m.preset_id) == Some(id)
}

fn opt_str_is(value: &Option<String>, expected: &str) -> (r: bool)
    ensures
        r == (opt_view(*value) == Some(expected@)),
{
    match value {
        Some(v) => str_eq(v.as_str(), expected),
        None => false,
    }
}

/// The catalog entries of the snapshot, with whether each is installed and active.
pub fn preset_entries(
    downloaded: &Vec<LocalLlmModelSelection>,
    selected: &Option<LocalLlmModelSelection>,
) -> (r: Vec<LocalLlmPreset>)
    ensures
        r@.len() == preset_catalog().len(),
        forall|i: int|
            0 <= i < r@.len() ==> {
                let p = preset_catalog()[i];
                let e = #[trigger] r@[i];
                &&& e.id@ == p.id@
                &&& e.name@ == p.name@
                &&& e.description@ == p.description@
                &&& e.filename@ == p.filename@
                &&& e.size_label@ == p.size_label@
                &&& e.source_url@ == p.source_url@
                &&& e.installed == preset_installed(downloaded@, p.id@)
                &&& e.active == preset_active(*selected, p.id@)
            },
{
    let presets = local_presets();
    let mut out: Vec<LocalLlmPreset> = Vec::new();
    let mut i: usize = 0;
    while i < presets.len()
        invariant
            presets@ == preset_catalog(),
            0 <= i <= presets@.len(),
            out@.len() == i,
            forall|j: int|
                0 <= j < i ==> {
                    let p = preset_catalog()[j];
                    let e = #[trigger] out@[j];
                    &&& e.id@ == p.id@
                    &&& e.name@ == p.name@
                    &&& e.description@ == p.description@
                    &&& e.filename@ == p.filename@
                    &&& e.size_label@ == p.size_label@
                    &&& e.source_url@ == p.source_url@
                    &&& e.installed == preset_installed(downloaded@, p.id@)
                    &&& e.active == preset_active(*selected, p.id@)
                },
        decreases presets@.len() - i,
    {
        let preset = presets[i];
        let mut installed = false;
        let mut k: usize = 0;
        while k < downloaded.len()
            invariant
                0 <= k <= downloaded@.len(),
                installed == exists|m: int|
                    0 <= m < k && opt_view(#[trigger] downloaded@[m].preset_id) == Some(
                        preset.id@,
                    ) && downloaded@[m].exists,
            decreases downloaded@.len() - k,
        {
            let model = &downloaded[k];
            if model.exists && opt_str_is(&model.preset_id, preset.id) {
                installed = true;
            }
            k += 1;
        }
        let active = match selected {
            Some(m) => opt_str_is(&m.preset_id, preset.id),
            None => false,
        };
        out.push(
            LocalLlmPreset {
                id: owned(preset.id),
                name: owned(preset.name),
                description: owned(preset.description),
                filename: owned(preset.filename),
                size_label: owned(preset.size_label),
                source_url: owned(preset.source_url),
                installed,
                active,
            },
        );
        i += 1;
    }
    out
}

// ------------------------------------------------------------------------
// Found models, ordered by display name.
// ------------------------------------------------------------------------
/// Ordered by display name: no entry comes after a later one.
pub open spec fn sorted_by_display_name(models: Seq<LocalLlmModelSelection>) -> bool {
    forall|i: int, j: int|
        0 <= i < j < models.len() ==> !seq_less(
            #[trigger] models[j].display_name@,
            #[trigger] models[i].display_name@,
        )
}

proof fn lemma_insert_multiset<A>(s: Seq<A>, p: int, a: A)
    requires
        0 <= p <= s.len(),
    ensures
        s.insert(p, a).to_multiset() == s.to_multiset().insert(a),
{
    broadcast use vstd::seq_lib::group_to_multiset_ensures;

    let t = s.insert(p, a);
    t.to_multiset_ensures();
    assert(t.remove(p) =~= s);
    assert(t[p] == a);
    assert(t.contains(a));
    assert(t.to_multiset() =~= s.to_multiset().insert(a));
}

/// The found models, ordered by display name.
pub fn sort_models_by_display_name(models: Vec<LocalLlmModelSelection>) -> (r: Vec<LocalLlmModelSelection>)
    ensures
        sorted_by_display_name(r@),
        r@.to_multiset() == models@.to_multiset(),
{
    broadcast use vstd::seq_lib::group_to_multiset_ensures;

    let ghost original = models@;
    let mut out: Vec<LocalLlmModelSelection> = Vec::new();
    let mut rest = models;
    proof {
        assert(out@.to_multiset() =~= vstd::multiset::Multiset::empty());
        assert(out@.to_multiset().add(rest@.to_multiset()) =~= original.to_multiset());
    }
    while rest.len() > 0
        invariant
            sorted_by_display_name(out@),
            out@.to_multiset().add(rest@.to_multiset()) == original.to_multiset(),
        decreases rest@.len(),
    {
        let ghost old_rest = rest@;
        let m = rest.remove(0);
        proof {
            assert(old_rest.remove(0) == rest@);
            assert(old_rest[0] == m);
            old_rest.to_multiset_ensures();
            assert(old_rest.remove(0).to_multiset() =~= old_rest.to_multiset().remove(old_rest[0]));
            assert(rest@.to_multiset() == old_rest.to_multiset().remove(m));
            assert(old_rest.contains(m));
        }
        let mut p = out.len();
        while p > 0 && str_less(m.display_name.as_str(), out[p - 1].display_name.as_str())
            invariant
                0 <= p <= out@.len(),
                forall|j: int|
                    p <= j < out@.len() ==> seq_less(m.display_name@, #[trigger] out@[j].display_name@),
            decreases p,
        {
            p -= 1;
        }
        let ghost old_out = out@;
        out.insert(p, m);
        proof {
            lemma_insert_multiset(old_out, p as int, m);
            assert(out@ == old_out.insert(p as int, m));
            assert(out@.to_multiset().add(rest@.to_multiset()) =~= original.to_multiset());
            assert forall|i: int, j: int| 0 <= i < j < out@.len() implies !seq_less(
                #[trigger] out@[j].display_name@,
                #[trigger] out@[i].display_name@,
            ) by {
                if j < p {
                    assert(out@[i] == old_out[i] && out@[j] == old_out[j]);
                } else if j == p {
                    assert(out@[i] == old_out[i]);
                    assert(!seq_less(m.display_name@, old_out[p - 1].display_name@));
                    if i < p - 1 {
                        assert(!seq_less(old_out[p - 1].display_name@, old_out[i].display_name@));
                        lemma_not_less_trans(
                            old_out[i].display_name@,
                            old_out[p - 1].display_name@,
                            m.display_name@,
                        );
                    }
                } else if i == p {
                    assert(out@[j] == old_out[j - 1]);
                    assert(seq_less(m.display_name@, old_out[j - 1].display_name@));
                    lemma_less_asym(m.display_name@, old_out[j - 1].display_name@);
                } else if i < p {
                    assert(out@[i] == old_out[i] && out@[j] == old_out[j - 1]);
                } else {
                    assert(out@[i] == old_out[i - 1] && out@[j] == old_out[j - 1]);
                }
            }
        }
    }
    proof {
        assert(rest@.to_multiset() =~= vstd::multiset::Multiset::empty());
        assert(out@.to_multiset().add(rest@.to_multiset()) =~= out@.to_multiset());
    }
    out
}

// ------------------------------------------------------------------------
// The server process.
// ------------------------------------------------------------------------
/// What polling the server process found.
#[derive(Debug)]
pub enum ProcessPoll {
    /// No process was started.
    NoProcess,
    /// The process has exited; the text of its exit status.
    Exited(String),
    /// The process runs; its id, where the system gives one.
    Running(Option<u32>),
    /// Polling failed; the text of the error.
    Failed(String),
}

/// The server process as the runtime reports it.
#[derive(Debug)]
pub struct ProcessStatus {
    pub server_running: bool,
    pub server_pid: Option<u32>,
    pub last_error: Option<String>,
}

/// Brings the reported status up to date with a poll of the process, and
/// says whether the process handle is still to be kept.
pub fn refresh_process_state(status: &mut ProcessStatus, poll: ProcessPoll) -> (keep: bool)
    ensures
        match poll {
            ProcessPoll::NoProcess => {
                &&& !keep
                &&& !final(status).server_running
                &&& final(status).server_pid is None
                &&& final(status).last_error == old(status).last_error
            },
            ProcessPoll::Exited(text) => {
                &&& !keep
                &&& !final(status).server_running
                &&& final(status).server_pid is None
                &&& opt_view(final(status).last_error) == Some(
                    "llama-server exited with status "@ + text@,
                )
            },
            ProcessPoll::Running(pid) => {
                &&& keep
                &&& final(status).server_running
                &&& final(status).server_pid == pid
                &&& final(status).last_error == old(status).last_error
            },
            ProcessPoll::Failed(text) => {
                &&& !keep
                &&& !final(status).server_running
                &&& final(status).server_pid is None
                &&& opt_view(final(status).last_error) == Some(
                    "failed to read llama-server state: "@ + text@,
                )
            },
        },
{
    match poll {
        ProcessPoll::NoProcess => {
            status.server_running = false;
            status.server_pid = None;
            false
        },
        ProcessPoll::Exited(text) => {
            status.server_running = false;
            status.server_pid = None;
            status.last_error = Some(prefixed("llama-server exited with status ", &text));
            false
        },
        ProcessPoll::Running(pid) => {
            status.server_running = true;
            status.server_pid = pid;
            true
        },
        ProcessPoll::Failed(text) => {
            status.server_running = false;
            status.server_pid = None;
            status.last_error = Some(prefixed("failed to read llama-server state: ", &text));
            false
        },
    }
}

} // verus!
