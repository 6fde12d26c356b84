//! The configuration of the service.

use crate::error::{internal_error, EncodeError};
use crate::headers::string_view;
use crate::options::EncodeQuality;
use crate::picture::MODEL_NAME;
use crate::text::{
    contains_text, debug_text, decimal, ends_with, lemma_contains_middle, lemma_contains_within,
    lemma_trimmed_unchanged, lowered, quoted, same_text, trimmed,
};
use vstd::prelude::*;

verus! {

/// What a process of the service is there for.
#[derive(Clone, Copy, Debug, PartialEq, Eq, Structural)]
pub enum AppRole {
    /// It takes requests and caches them.
    Ingress,
    /// It encodes what an ingress has cached.
    Worker,
}

impl AppRole {
    /// Whether requests for encodings are taken.
    pub fn serves_encode(self) -> (yes: bool)
        ensures
            yes == (self is Ingress),
    {
        matches!(self, AppRole::Ingress)
    }

    /// Whether the cache of uploads is open to workers.
    pub fn exposes_upload_cache(self) -> (yes: bool)
        ensures
            yes == (self is Ingress),
    {
        matches!(self, AppRole::Ingress)
    }

    /// Whether work is fetched from ingresses.
    pub fn runs_remote_worker(self) -> (yes: bool)
        ensures
            yes == (self is Worker),
    {
        matches!(self, AppRole::Worker)
    }

    /// The name of the role.
    pub open spec fn word(self) -> Seq<char> {
        match self {
            AppRole::Ingress => "Ingress"@,
            AppRole::Worker => "Worker"@,
        }
    }

    /// The name of the role.
    pub fn name(self) -> (name: &'static str)
        ensures
            name@ == self.word(),
    {
        match self {
            AppRole::Ingress => "Ingress",
            AppRole::Worker => "Worker",
        }
    }
}

/// The configuration of the service.
#[derive(Clone, Debug, PartialEq, Eq)]
pub struct AppConfig {
    pub role: AppRole,
    pub rust_log: String,
    pub port: u16,
    pub enable_h3: bool,
    pub tls_cert_path: Option<String>,
    pub tls_key_path: Option<String>,
    pub encodec_bin: String,
    pub encodec_python: Option<String>,
    pub encodec_backend: String,
    pub encodec_execution_target: Option<String>,
    /// The directory that holds a bundle for each quality.
    pub encodec_onnx_bundle_root: String,
    /// The device on which a GPU target runs.
    pub encodec_device_id: i32,
    /// How many frames are encoded at once.
    pub encodec_frame_batch_size: usize,
    pub upload_response_num_streams: usize,
    pub upload_response_slot_size_kb: usize,
    pub upload_response_slots_per_stream: usize,
    pub upload_response_timeout_ms: u64,
    pub upload_response_watch_poll_ms: u64,
    pub upload_response_worker_poll_ms: u64,
    pub upload_response_max_inflight: usize,
    pub upload_response_worker_id: String,
    pub upload_response_ingress_urls: Vec<String>,
    pub upload_response_discovery_dns: Option<String>,
    pub upload_response_discovery_interval_ms: u64,
    pub upload_response_insecure_tls: bool,
}

/// The settings of the cache of uploads.
#[derive(Clone, Copy, Debug, PartialEq, Eq, Structural)]
pub struct UploadResponseConfig {
    pub num_streams: usize,
    pub slot_size_kb: usize,
    pub slots_per_stream: usize,
    pub response_timeout_ms: u64,
}

/// Where the certificate of the service comes from.
#[derive(Clone, Debug, PartialEq, Eq)]
pub enum TlsSource {
    /// From files.
    Paths { cert_path: String, key_path: String },
    /// The certificate that comes with the service.
    Default,
}

impl TlsSource {
    /// What could not be done when the certificate cannot be loaded.
    pub open spec fn failure(self) -> Seq<char> {
        match self {
            TlsSource::Paths { cert_path, key_path } => "failed to load TLS PEMs from "@
                + cert_path@ + " and "@ + key_path@,
            TlsSource::Default => "failed to load default local Wavey TLS certificate"@,
        }
    }

    /// What could not be done when the certificate cannot be loaded.
    pub fn load_failure(&self) -> (message: String)
        ensures
            message@ == self.failure(),
    {
        match self {
            TlsSource::Paths { cert_path, key_path } => "failed to load TLS PEMs from ".to_owned()
                .concat(cert_path.as_str())
                .concat(" and ")
                .concat(key_path.as_str()),
            TlsSource::Default => "failed to load default local Wavey TLS certificate".to_owned(),
        }
    }
}

/// Whether a text holds nothing but white space.
pub open spec fn is_blank(text: Seq<char>) -> bool {
    trimmed(text).len() == 0
}

fn blank(text: &str) -> (yes: bool)
    ensures
        yes == is_blank(text@),
{
    proof {
        reveal_strlit("");
    }
    let rest = text.trim();
    let yes = same_text(rest, "");
    assert(rest@.len() == 0 ==> rest@ =~= ""@);
    yes
}

/// What is wrong with a configuration: the first of these things that is.
pub open spec fn config_fault(config: AppConfig) -> Option<Seq<char>> {
    if config.port == 0 {
        Some("PORT must be > 0"@)
    } else if is_blank(config.encodec_bin@) {
        Some("ENCODEC_BIN must not be empty"@)
    } else if is_blank(config.encodec_backend@) {
        Some("ENCODEC_BACKEND must not be empty"@)
    } else if config.upload_response_num_streams == 0 {
        Some("UPLOAD_RESPONSE_NUM_STREAMS must be > 0"@)
    } else if config.upload_response_slot_size_kb == 0 {
        Some("UPLOAD_RESPONSE_SLOT_SIZE_KB must be > 0"@)
    } else if config.upload_response_slots_per_stream == 0 {
        Some("UPLOAD_RESPONSE_SLOTS_PER_STREAM must be > 0"@)
    } else if config.upload_response_timeout_ms == 0 {
        Some("UPLOAD_RESPONSE_TIMEOUT_MS must be > 0"@)
    } else if config.upload_response_watch_poll_ms == 0 {
        Some("UPLOAD_RESPONSE_WATCH_POLL_MS must be > 0"@)
    } else if config.upload_response_worker_poll_ms == 0 {
        Some("UPLOAD_RESPONSE_WORKER_POLL_MS must be > 0"@)
    } else if config.upload_response_max_inflight == 0 {
        Some("UPLOAD_RESPONSE_MAX_INFLIGHT must be > 0"@)
    } else if is_blank(config.upload_response_worker_id@) {
        Some("UPLOAD_RESPONSE_WORKER_ID must not be empty"@)
    } else if config.upload_response_discovery_interval_ms == 0 {
        Some("UPLOAD_RESPONSE_DISCOVERY_INTERVAL_MS must be > 0"@)
    } else if config.role is Worker && !finds_ingresses(config) {
        Some(
            "worker role requires UPLOAD_RESPONSE_INGRESS_URLS or UPLOAD_RESPONSE_DISCOVERY_DNS"@,
        )
    } else {
        None
    }
}

/// Whether a worker can find ingresses: they are listed, or there is a name to look up.
pub open spec fn finds_ingresses(config: AppConfig) -> bool {
    config.upload_response_ingress_urls@.len() > 0 || (config.upload_response_discovery_dns matches
        Some(name) && !is_blank(name@))
}

/// The label of the place where a configuration has encodings made.
pub open spec fn target_label(config: AppConfig) -> Seq<char> {
    match config.encodec_execution_target {
        Some(label) => label@,
        None => match config.role {
            AppRole::Ingress => "cpu"@,
            AppRole::Worker => "gpu"@,
        },
    }
}

impl AppConfig {
    /// Refuses a configuration that cannot work.
    pub fn validate(&self) -> (checked: Result<(), EncodeError>)
        ensures
            match config_fault(*self) {
                Some(message) => checked matches Err(error) && error.is_internal(message),
                None => checked is Ok,
            },
    {
        if self.port == 0 {
            return Err(internal_error("PORT must be > 0"));
        }
        if blank(self.encodec_bin.as_str()) {
            return Err(internal_error("ENCODEC_BIN must not be empty"));
        }
        if blank(self.encodec_backend.as_str()) {
            return Err(internal_error("ENCODEC_BACKEND must not be empty"));
        }
        if self.upload_response_num_streams == 0 {
            return Err(internal_error("UPLOAD_RESPONSE_NUM_STREAMS must be > 0"));
        }
        if self.upload_response_slot_size_kb == 0 {
            return Err(internal_error("UPLOAD_RESPONSE_SLOT_SIZE_KB must be > 0"));
        }
        if self.upload_response_slots_per_stream == 0 {
            return Err(internal_error("UPLOAD_RESPONSE_SLOTS_PER_STREAM must be > 0"));
        }
        if self.upload_response_timeout_ms == 0 {
            return Err(internal_error("UPLOAD_RESPONSE_TIMEOUT_MS must be > 0"));
        }
        if self.upload_response_watch_poll_ms == 0 {
            return Err(internal_error("UPLOAD_RESPONSE_WATCH_POLL_MS must be > 0"));
        }
        if self.upload_response_worker_poll_ms == 0 {
            return Err(internal_error("UPLOAD_RESPONSE_WORKER_POLL_MS must be > 0"));
        }
        if self.upload_response_max_inflight == 0 {
            return Err(internal_error("UPLOAD_RESPONSE_MAX_INFLIGHT must be > 0"));
        }
        if blank(self.upload_response_worker_id.as_str()) {
            return Err(internal_error("UPLOAD_RESPONSE_WORKER_ID must not be empty"));
        }
        if self.upload_response_discovery_interval_ms == 0 {
            return Err(internal_error("UPLOAD_RESPONSE_DISCOVERY_INTERVAL_MS must be > 0"));
        }
        if self.role.runs_remote_worker() && self.upload_response_ingress_urls.len() == 0 {
            let named: bool = match &self.upload_response_discovery_dns {
                Some(name) => !blank(name.as_str()),
                None => false,
            };
            if !named {
                return Err(
                    internal_error(
                        "worker role requires UPLOAD_RESPONSE_INGRESS_URLS or UPLOAD_RESPONSE_DISCOVERY_DNS",
                    ),
                );
            }
        }
        Ok(())
    }

    /// Where the certificate of the service comes from: from two files, or neither of them.
    pub fn tls_source(&self) -> (source: Result<TlsSource, EncodeError>)
        ensures
            match (self.tls_cert_path, self.tls_key_path) {
                (Some(cert), Some(key)) => {
                    &&& source matches Ok(TlsSource::Paths { cert_path, key_path })
                    &&& cert_path@ == cert@
                    &&& key_path@ == key@
                },
                (None, None) => source matches Ok(TlsSource::Default),
                _ => source matches Err(error) && error.is_internal(
                    "set both TLS_CERT_PATH and TLS_KEY_PATH, or neither"@,
                ),
            },
    {
        match (&self.tls_cert_path, &self.tls_key_path) {
            (Some(cert), Some(key)) => Ok(
                TlsSource::Paths { cert_path: cert.clone(), key_path: key.clone() },
            ),
            (None, None) => Ok(TlsSource::Default),
            _ => Err(internal_error("set both TLS_CERT_PATH and TLS_KEY_PATH, or neither")),
        }
    }

    /// The settings of the cache of uploads.
    pub fn upload_response_config(&self) -> (settings: UploadResponseConfig)
        ensures
            settings == (UploadResponseConfig {
                num_streams: self.upload_response_num_streams,
                slot_size_kb: self.upload_response_slot_size_kb,
                slots_per_stream: self.upload_response_slots_per_stream,
                response_timeout_ms: self.upload_response_timeout_ms,
            }),
    {
        UploadResponseConfig {
            num_streams: self.upload_response_num_streams,
            slot_size_kb: self.upload_response_slot_size_kb,
            slots_per_stream: self.upload_response_slots_per_stream,
            response_timeout_ms: self.upload_response_timeout_ms,
        }
    }

    /// The label of what makes encodings.
    pub fn encodec_backend_label(&self) -> (label: &str)
        ensures
            label@ == self.encodec_backend@,
    {
        self.encodec_backend.as_str()
    }

    /// The label of the place where encodings are made: what is configured, or what the
    /// role suggests.
    pub fn execution_target_label(&self) -> (label: &str)
        ensures
            label@ == target_label(*self),
    {
        match &self.encodec_execution_target {
            Some(label) => label.as_str(),
            None => match self.role {
                AppRole::Ingress => "cpu",
                AppRole::Worker => "gpu",
            },
        }
    }

    /// The label of where and by what encodings are made.
    pub fn device_label(&self) -> (label: String)
        ensures
            label@ == target_label(*self) + "-"@ + self.encodec_backend@,
    {
        self.execution_target_label().to_owned().concat("-").concat(self.encodec_backend_label())
    }
}

// ---------------------------------------------------------------------------------------
// Starting up
// ---------------------------------------------------------------------------------------

/// Which parts of the service a process runs.
#[derive(Clone, Copy, Debug, PartialEq, Eq, Structural)]
pub struct StartupPlan {
    /// The cache of uploads, with the routes to it and the watch over it.
    pub upload_service: bool,
    /// The intake of requests for encodings.
    pub encode_ingress: bool,
    /// The intake of such requests over websockets.
    pub websocket: bool,
    /// The worker that fetches cached requests from ingresses.
    pub remote_worker: bool,
}

/// Which parts of the service a process with a role runs.
pub open spec fn plan_for(role: AppRole) -> StartupPlan {
    StartupPlan {
        upload_service: role is Ingress,
        encode_ingress: role is Ingress,
        websocket: role is Ingress,
        remote_worker: role is Worker,
    }
}

/// Requests are taken in by one kind of process and encoded by the other. There is no intake
/// without a cache, over websockets or not, and what takes requests in takes them in both ways.
pub proof fn intake_and_encoding_are_apart(role: AppRole, other: AppRole)
    ensures
        plan_for(role).encode_ingress ==> plan_for(role).upload_service,
        plan_for(role).websocket == plan_for(role).encode_ingress,
        plan_for(role).encode_ingress != plan_for(role).remote_worker,
        role != other ==> plan_for(role).encode_ingress == plan_for(other).remote_worker,
        plan_for(AppRole::Ingress).encode_ingress,
        plan_for(AppRole::Worker).remote_worker,
        !plan_for(AppRole::Worker).upload_service,
{
}

/// Which parts of the service a process runs. There is no intake without a cache.
pub fn startup_plan(config: &AppConfig) -> (plan: StartupPlan)
    ensures
        plan == (match config.role {
            AppRole::Ingress => StartupPlan {
                upload_service: true,
                encode_ingress: true,
                websocket: true,
                remote_worker: false,
            },
            AppRole::Worker => StartupPlan {
                upload_service: false,
                encode_ingress: false,
                websocket: false,
                remote_worker: true,
            },
        }),
        plan == plan_for(config.role),
{
    let upload_service = config.role.exposes_upload_cache();
    let encode_ingress = upload_service && config.role.serves_encode();
    StartupPlan {
        upload_service,
        encode_ingress,
        websocket: encode_ingress,
        remote_worker: config.role.runs_remote_worker(),
    }
}

// ---------------------------------------------------------------------------------------
// Bundles
// ---------------------------------------------------------------------------------------

/// The name of the bundle that makes encodings of a quality.
pub open spec fn bundle_name(quality: EncodeQuality) -> Seq<char> {
    match quality {
        EncodeQuality::Standard => "encodec_48khz_6kbps"@,
        EncodeQuality::Hq => "encodec_48khz_12kbps"@,
    }
}

/// The name of the bundle that makes encodings of a quality.
pub fn bundle_name_for_quality(quality: EncodeQuality) -> (name: &'static str)
    ensures
        name@ == bundle_name(quality),
{
    match quality {
        EncodeQuality::Standard => "encodec_48khz_6kbps",
        EncodeQuality::Hq => "encodec_48khz_12kbps",
    }
}

/// The path of something below a directory.
pub open spec fn path_below(directory: Seq<char>, below: Seq<char>) -> Seq<char> {
    if directory.len() == 0 {
        below
    } else if directory.last() == '/' {
        directory + below
    } else {
        directory + "/"@ + below
    }
}

fn join_path(directory: &str, below: &str) -> (path: String)
    ensures
        path@ == path_below(directory@, below@),
{
    proof {
        reveal_strlit("");
        reveal_strlit("/");
    }
    if same_text(directory, "") {
        return below.to_owned();
    }
    assert(directory@.len() > 0) by {
        if directory@.len() == 0 {
            assert(directory@ =~= ""@);
        }
    }
    if ends_with(directory, "/") {
        assert(directory@.last() == directory@.skip(directory@.len() - 1)[0]);
        directory.to_owned().concat(below)
    } else {
        assert(directory@.last() != '/') by {
            if directory@.last() == '/' {
                assert(directory@.subrange(directory@.len() - 1, directory@.len() as int) =~= "/"@);
            }
        }
        directory.to_owned().concat("/").concat(below)
    }
}

/// The directory of the bundle that makes encodings of a quality.
pub fn bundle_dir_for_quality(config: &AppConfig, quality: EncodeQuality) -> (directory: String)
    ensures
        directory@ == path_below(config.encodec_onnx_bundle_root@, bundle_name(quality)),
{
    join_path(config.encodec_onnx_bundle_root.as_str(), bundle_name_for_quality(quality))
}

/// Where encodings are made.
#[derive(Clone, Debug, PartialEq, Eq)]
pub enum ExecutionTarget {
    Cpu,
    Cuda { device_id: i32 },
    TensorRt {
        device_id: i32,
        fp16: bool,
        engine_cache_path: Option<String>,
        timing_cache_path: Option<String>,
    },
}

/// Where encodings are made.
pub enum TargetView {
    Cpu,
    Cuda { device_id: i32 },
    TensorRt {
        device_id: i32,
        fp16: bool,
        engine_cache_path: Option<Seq<char>>,
        timing_cache_path: Option<Seq<char>>,
    },
}

impl View for ExecutionTarget {
    type V = TargetView;

    open spec fn view(&self) -> TargetView {
        match *self {
            ExecutionTarget::Cpu => TargetView::Cpu,
            ExecutionTarget::Cuda { device_id } => TargetView::Cuda { device_id },
            ExecutionTarget::TensorRt {
                device_id,
                fp16,
                engine_cache_path,
                timing_cache_path,
            } => TargetView::TensorRt {
                device_id,
                fp16,
                engine_cache_path: string_view(engine_cache_path),
                timing_cache_path: string_view(timing_cache_path),
            },
        }
    }
}

/// The place that a label names. White space around the label and the case of its ASCII
/// letters do not matter.
pub open spec fn target_named(label: Seq<char>, device_id: i32, directory: Seq<char>) -> Option<
    TargetView,
> {
    let plain = lowered(trimmed(label));
    if plain == "cpu"@ {
        Some(TargetView::Cpu)
    } else if plain == "gpu"@ || plain == "cuda"@ {
        Some(TargetView::Cuda { device_id })
    } else if plain == "tensorrt"@ || plain == "trt"@ {
        Some(
            TargetView::TensorRt {
                device_id,
                fp16: false,
                engine_cache_path: Some(path_below(directory, ".trt-cache/engines"@)),
                timing_cache_path: Some(path_below(directory, ".trt-cache/timing.cache"@)),
            },
        )
    } else {
        None
    }
}

/// There is no place with this label.
pub open spec fn target_refusal(label: Seq<char>) -> Seq<char> {
    "unsupported ENCODEC_EXECUTION_TARGET "@ + debug_text(lowered(trimmed(label)))
        + "; use cpu, cuda, gpu, or tensorrt"@
}

/// Where the bundle in a directory makes encodings.
pub fn execution_target_for_bundle(config: &AppConfig, bundle_dir: &str) -> (target: Result<
    ExecutionTarget,
    EncodeError,
>)
    ensures
        match target_named(target_label(*config), config.encodec_device_id, bundle_dir@) {
            Some(expected) => target matches Ok(t) && t@ == expected,
            None => target matches Err(error) && error.is_internal(
                target_refusal(target_label(*config)),
            ),
        },
{
    let label = config.execution_target_label().trim().to_ascii_lowercase();
    let label = label.as_str();
    if same_text(label, "cpu") {
        Ok(ExecutionTarget::Cpu)
    } else if same_text(label, "gpu") || same_text(label, "cuda") {
        Ok(ExecutionTarget::Cuda { device_id: config.encodec_device_id })
    } else if same_text(label, "tensorrt") || same_text(label, "trt") {
        Ok(
            ExecutionTarget::TensorRt {
                device_id: config.encodec_device_id,
                fp16: false,
                engine_cache_path: Some(join_path(bundle_dir, ".trt-cache/engines")),
                timing_cache_path: Some(join_path(bundle_dir, ".trt-cache/timing.cache")),
            },
        )
    } else {
        let message = "unsupported ENCODEC_EXECUTION_TARGET ".to_owned().concat(
            quoted(label).as_str(),
        ).concat("; use cpu, cuda, gpu, or tensorrt");
        Err(internal_error(message.as_str()))
    }
}

/// A configuration that does not name a place where encodings are made always has one: the
/// role suggests one that exists.
pub proof fn suggested_targets_exist(config: AppConfig, directory: Seq<char>)
    requires
        config.encodec_execution_target is None,
    ensures
        target_named(target_label(config), config.encodec_device_id, directory) == Some(
            match config.role {
                AppRole::Ingress => TargetView::Cpu,
                AppRole::Worker => TargetView::Cuda { device_id: config.encodec_device_id },
            },
        ),
{
    reveal_strlit("cpu");
    reveal_strlit("gpu");
    lemma_trimmed_unchanged("cpu"@);
    lemma_trimmed_unchanged("gpu"@);
    assert(lowered("cpu"@) =~= "cpu"@);
    assert(lowered("gpu"@) =~= "gpu"@);
    assert("cpu"@[0] != "gpu"@[0]);
}

/// Encodings of different qualities are made by bundles in different directories.
pub proof fn bundles_are_apart(root: Seq<char>, a: EncodeQuality, b: EncodeQuality)
    requires
        a != b,
    ensures
        path_below(root, bundle_name(a)) != path_below(root, bundle_name(b)),
{
    reveal_strlit("encodec_48khz_6kbps");
    reveal_strlit("encodec_48khz_12kbps");
    assert(path_below(root, bundle_name(a)).len() != path_below(root, bundle_name(b)).len());
}

/// What is told of a configuration that is refused is a fault that it has.
pub proof fn faults_are_those_that_are_told(config: AppConfig)
    ensures
        config_fault(config) == Some(
            "PORT must be > 0"@,
        ) ==> config.port == 0,
        config_fault(config) == Some(
            "ENCODEC_BIN must not be empty"@,
        ) ==> is_blank(config.encodec_bin@),
        config_fault(config) == Some(
            "ENCODEC_BACKEND must not be empty"@,
        ) ==> is_blank(config.encodec_backend@),
        config_fault(config) == Some(
            "UPLOAD_RESPONSE_NUM_STREAMS must be > 0"@,
        ) ==> config.upload_response_num_streams == 0,
        config_fault(config) == Some(
            "UPLOAD_RESPONSE_SLOT_SIZE_KB must be > 0"@,
        ) ==> config.upload_response_slot_size_kb == 0,
        config_fault(config) == Some(
            "UPLOAD_RESPONSE_SLOTS_PER_STREAM must be > 0"@,
        ) ==> config.upload_response_slots_per_stream == 0,
        config_fault(config) == Some(
            "UPLOAD_RESPONSE_TIMEOUT_MS must be > 0"@,
        ) ==> config.upload_response_timeout_ms == 0,
        config_fault(config) == Some(
            "UPLOAD_RESPONSE_WATCH_POLL_MS must be > 0"@,
        ) ==> config.upload_response_watch_poll_ms == 0,
        config_fault(config) == Some(
            "UPLOAD_RESPONSE_WORKER_POLL_MS must be > 0"@,
        ) ==> config.upload_response_worker_poll_ms == 0,
        config_fault(config) == Some(
            "UPLOAD_RESPONSE_MAX_INFLIGHT must be > 0"@,
        ) ==> config.upload_response_max_inflight == 0,
        config_fault(config) == Some(
            "UPLOAD_RESPONSE_WORKER_ID must not be empty"@,
        ) ==> is_blank(config.upload_response_worker_id@),
        config_fault(config) == Some(
            "UPLOAD_RESPONSE_DISCOVERY_INTERVAL_MS must be > 0"@,
        ) ==> config.upload_response_discovery_interval_ms == 0,
        config_fault(config) == Some(
            "worker role requires UPLOAD_RESPONSE_INGRESS_URLS or UPLOAD_RESPONSE_DISCOVERY_DNS"@,
        ) ==> config.role is Worker && !finds_ingresses(config),
{
    reveal_strlit("PORT must be > 0");
    assert("PORT must be > 0"@.len() == 16);
    reveal_strlit("ENCODEC_BIN must not be empty");
    assert("ENCODEC_BIN must not be empty"@.len() == 29);
    reveal_strlit("ENCODEC_BACKEND must not be empty");
    assert("ENCODEC_BACKEND must not be empty"@.len() == 33);
    reveal_strlit("UPLOAD_RESPONSE_NUM_STREAMS must be > 0");
    assert("UPLOAD_RESPONSE_NUM_STREAMS must be > 0"@.len() == 39);
    reveal_strlit("UPLOAD_RESPONSE_SLOT_SIZE_KB must be > 0");
    assert("UPLOAD_RESPONSE_SLOT_SIZE_KB must be > 0"@.len() == 40);
    reveal_strlit("UPLOAD_RESPONSE_SLOTS_PER_STREAM must be > 0");
    assert("UPLOAD_RESPONSE_SLOTS_PER_STREAM must be > 0"@.len() == 44);
    reveal_strlit("UPLOAD_RESPONSE_TIMEOUT_MS must be > 0");
    assert("UPLOAD_RESPONSE_TIMEOUT_MS must be > 0"@.len() == 38);
    reveal_strlit("UPLOAD_RESPONSE_WATCH_POLL_MS must be > 0");
    assert("UPLOAD_RESPONSE_WATCH_POLL_MS must be > 0"@.len() == 41);
    reveal_strlit("UPLOAD_RESPONSE_WORKER_POLL_MS must be > 0");
    assert("UPLOAD_RESPONSE_WORKER_POLL_MS must be > 0"@.len() == 42);
    reveal_strlit("UPLOAD_RESPONSE_MAX_INFLIGHT must be > 0");
    assert("UPLOAD_RESPONSE_MAX_INFLIGHT must be > 0"@.len() == 40);
    reveal_strlit("UPLOAD_RESPONSE_WORKER_ID must not be empty");
    assert("UPLOAD_RESPONSE_WORKER_ID must not be empty"@.len() == 43);
    reveal_strlit("UPLOAD_RESPONSE_DISCOVERY_INTERVAL_MS must be > 0");
    assert("UPLOAD_RESPONSE_DISCOVERY_INTERVAL_MS must be > 0"@.len() == 49);
    reveal_strlit("worker role requires UPLOAD_RESPONSE_INGRESS_URLS or UPLOAD_RESPONSE_DISCOVERY_DNS");
    assert("worker role requires UPLOAD_RESPONSE_INGRESS_URLS or UPLOAD_RESPONSE_DISCOVERY_DNS"@.len() == 82);
    assert("UPLOAD_RESPONSE_SLOT_SIZE_KB must be > 0"@[16] == 'S');
    assert("UPLOAD_RESPONSE_MAX_INFLIGHT must be > 0"@[16] == 'M');
}

/// A configuration is accepted where no number in it is zero and no name blank that has to be
/// something, and, for a worker, where there is a way to find ingresses. An ingress needs none.
pub proof fn sound_configurations_are_accepted(config: AppConfig)
    ensures
        config_fault(config) is None <==> {
            &&& config.port > 0
            &&& trimmed(config.encodec_bin@).len() > 0
            &&& trimmed(config.encodec_backend@).len() > 0
            &&& trimmed(config.upload_response_worker_id@).len() > 0
            &&& config.upload_response_num_streams > 0
            &&& config.upload_response_slot_size_kb > 0
            &&& config.upload_response_slots_per_stream > 0
            &&& config.upload_response_timeout_ms > 0
            &&& config.upload_response_watch_poll_ms > 0
            &&& config.upload_response_worker_poll_ms > 0
            &&& config.upload_response_max_inflight > 0
            &&& config.upload_response_discovery_interval_ms > 0
            &&& config.role is Worker ==> {
                ||| config.upload_response_ingress_urls@.len() > 0
                ||| config.upload_response_discovery_dns is Some && trimmed(
                    config.upload_response_discovery_dns->Some_0@,
                ).len() > 0
            }
        },
{
}

/// A place that is configured is used, whatever the role suggests. How its label is written does
/// not matter, and each place has a short and a long name that mean the same.
pub proof fn configured_places_are_used(
    config: AppConfig,
    label: Seq<char>,
    other: Seq<char>,
    device_id: i32,
    directory: Seq<char>,
)
    ensures
        config.encodec_execution_target matches Some(own) ==> target_label(config) == own@,
        lowered(trimmed(label)) == lowered(trimmed(other)) ==> target_named(
            label,
            device_id,
            directory,
        ) == target_named(other, device_id, directory),
        target_named("gpu"@, device_id, directory) == target_named("cuda"@, device_id, directory),
        target_named("trt"@, device_id, directory) == target_named(
            "tensorrt"@,
            device_id,
            directory,
        ),
        target_named("cuda"@, device_id, directory) == Some(TargetView::Cuda { device_id }),
        target_named(label, device_id, directory) matches Some(TargetView::Cuda { device_id: own })
            ==> own == device_id,
        target_named(label, device_id, directory) matches Some(
            TargetView::TensorRt { device_id: own, fp16, engine_cache_path, timing_cache_path },
        ) ==> {
            &&& own == device_id
            &&& !fp16
            &&& engine_cache_path matches Some(engines)
            &&& timing_cache_path matches Some(timing)
            &&& directory.is_prefix_of(engines)
            &&& directory.is_prefix_of(timing)
            &&& engines != timing
        },
{
    reveal_strlit("cpu");
    reveal_strlit("gpu");
    reveal_strlit("cuda");
    reveal_strlit("trt");
    reveal_strlit("tensorrt");
    lemma_trimmed_unchanged("gpu"@);
    lemma_trimmed_unchanged("cuda"@);
    lemma_trimmed_unchanged("trt"@);
    lemma_trimmed_unchanged("tensorrt"@);
    assert(lowered("gpu"@) =~= "gpu"@);
    assert(lowered("cuda"@) =~= "cuda"@);
    assert(lowered("trt"@) =~= "trt"@);
    assert(lowered("tensorrt"@) =~= "tensorrt"@);
    assert("cpu"@.len() == 3 && "cpu"@[0] == 'c');
    assert("gpu"@.len() == 3 && "gpu"@[0] == 'g');
    assert("trt"@.len() == 3 && "trt"@[0] == 't');
    assert("cuda"@.len() == 4);
    assert("tensorrt"@.len() == 8);
    reveal_strlit(".trt-cache/engines");
    reveal_strlit(".trt-cache/timing.cache");
    paths_lead_below(directory, ".trt-cache/engines"@);
    paths_lead_below(directory, ".trt-cache/timing.cache"@);
    assert(path_below(directory, ".trt-cache/engines"@).len() != path_below(
        directory,
        ".trt-cache/timing.cache"@,
    ).len());
}

/// The path of something below a directory begins with the directory and ends with what is below
/// it, and one slash stands between them.
pub proof fn paths_lead_below(directory: Seq<char>, below: Seq<char>)
    ensures
        ({
            let path = path_below(directory, below);
            &&& directory.is_prefix_of(path)
            &&& below.is_suffix_of(path)
            &&& directory.len() > 0 ==> path[path.len() - below.len() - 1] == '/'
            &&& directory.len() > 0 && directory.last() == '/' ==> path.len() == directory.len()
                + below.len()
            &&& directory.len() > 0 && directory.last() != '/' ==> path.len() == directory.len() + 1
                + below.len()
            &&& directory.len() == 0 ==> path == below
        }),
{
    reveal_strlit("/");
    let path = path_below(directory, below);
    assert(path.subrange(0, directory.len() as int) =~= directory);
    assert(path.subrange(path.len() - below.len(), path.len() as int) =~= below);
}

/// A bundle is called after the model and the bandwidth of the quality that it makes.
pub proof fn bundles_are_called_after_the_bandwidth(quality: EncodeQuality)
    ensures
        bundle_name(quality) == MODEL_NAME@ + "_"@ + decimal(quality.kbps() as nat) + "kbps"@,
{
    reveal_strlit("encodec_48khz");
    reveal_strlit("_");
    reveal_strlit("kbps");
    reveal_strlit("encodec_48khz_6kbps");
    reveal_strlit("encodec_48khz_12kbps");
    reveal_with_fuel(decimal, 2);
    assert(decimal(6) =~= seq!['6']);
    assert(decimal(12) =~= seq!['1', '2']);
    assert(bundle_name(quality) =~= MODEL_NAME@ + "_"@ + decimal(quality.kbps() as nat) + "kbps"@);
}

/// What could not be loaded is told with both paths, where there are any.
pub proof fn load_failures_tell_the_paths(source: TlsSource)
    ensures
        source matches TlsSource::Paths { cert_path, key_path } ==> {
            &&& contains_text(source.failure(), cert_path@)
            &&& key_path@.is_suffix_of(source.failure())
        },
        source == TlsSource::Default ==> contains_text(
            source.failure(),
            "default local Wavey TLS certificate"@,
        ),
{
    if source == TlsSource::Default {
        reveal_strlit("failed to load ");
        reveal_strlit("default local Wavey TLS certificate");
        reveal_strlit("failed to load default local Wavey TLS certificate");
        let start = "failed to load "@;
        let middle = "default local Wavey TLS certificate"@;
        assert(source.failure() =~= start + middle + Seq::<char>::empty());
        lemma_contains_middle(start, middle, Seq::empty());
    }
    if let TlsSource::Paths { cert_path, key_path } = source {
        let start = "failed to load TLS PEMs from "@;
        let end = " and "@ + key_path@;
        assert(source.failure() =~= start + cert_path@ + end);
        lemma_contains_middle(start, cert_path@, end);
        let all = source.failure();
        assert(all.subrange(all.len() - key_path@.len(), all.len() as int) =~= key_path@);
    }
}

/// The roles have different names, and where encodings are made is seen as it is.
pub proof fn roles_and_places_are_seen_as_they_are(
    role: AppRole,
    other: AppRole,
    target: ExecutionTarget,
)
    ensures
        role.word() == other.word() ==> role == other,
        target is Cpu <==> target@ is Cpu,
        target matches ExecutionTarget::Cuda { device_id } ==> target@ == (TargetView::Cuda {
            device_id,
        }),
        target matches ExecutionTarget::TensorRt {
            device_id,
            fp16,
            engine_cache_path,
            timing_cache_path,
        } ==> target@ == (TargetView::TensorRt {
            device_id,
            fp16,
            engine_cache_path: string_view(engine_cache_path),
            timing_cache_path: string_view(timing_cache_path),
        }),
{
    reveal_strlit("Ingress");
    reveal_strlit("Worker");
    assert("Ingress"@.len() != "Worker"@.len());
}

/// A place that does not exist is refused with what was understood, and with those that do.
pub proof fn refusals_name_the_places(label: Seq<char>)
    ensures
        contains_text(target_refusal(label), debug_text(lowered(trimmed(label)))),
        contains_text(target_refusal(label), "cpu"@),
        contains_text(target_refusal(label), "cuda"@),
        contains_text(target_refusal(label), "tensorrt"@),
{
    let start = "unsupported ENCODEC_EXECUTION_TARGET "@;
    let shown = debug_text(lowered(trimmed(label)));
    let end = "; use cpu, cuda, gpu, or tensorrt"@;
    reveal_strlit("; use cpu, cuda, gpu, or tensorrt");
    reveal_strlit("cpu");
    reveal_strlit("cuda");
    reveal_strlit("tensorrt");
    lemma_contains_middle(start, shown, end);
    assert(end.subrange(6, 9) =~= "cpu"@);
    assert(end.subrange(11, 15) =~= "cuda"@);
    assert(end.subrange(25, 33) =~= "tensorrt"@);
    lemma_contains_within(start + shown, end, 6, 9);
    lemma_contains_within(start + shown, end, 11, 15);
    lemma_contains_within(start + shown, end, 25, 33);
}

/// What can be wrong with a configuration, in the order in which it is told: whether it is, and
/// in which words.
pub open spec fn possible_faults(config: AppConfig) -> Seq<(bool, Seq<char>)> {
    seq![
        (config.port == 0, "PORT must be > 0"@),
        (is_blank(config.encodec_bin@), "ENCODEC_BIN must not be empty"@),
        (is_blank(config.encodec_backend@), "ENCODEC_BACKEND must not be empty"@),
        (config.upload_response_num_streams == 0, "UPLOAD_RESPONSE_NUM_STREAMS must be > 0"@),
        (config.upload_response_slot_size_kb == 0, "UPLOAD_RESPONSE_SLOT_SIZE_KB must be > 0"@),
        (config.upload_response_slots_per_stream == 0, "UPLOAD_RESPONSE_SLOTS_PER_STREAM must be > 0"@),
        (config.upload_response_timeout_ms == 0, "UPLOAD_RESPONSE_TIMEOUT_MS must be > 0"@),
        (config.upload_response_watch_poll_ms == 0, "UPLOAD_RESPONSE_WATCH_POLL_MS must be > 0"@),
        (config.upload_response_worker_poll_ms == 0, "UPLOAD_RESPONSE_WORKER_POLL_MS must be > 0"@),
        (config.upload_response_max_inflight == 0, "UPLOAD_RESPONSE_MAX_INFLIGHT must be > 0"@),
        (is_blank(config.upload_response_worker_id@), "UPLOAD_RESPONSE_WORKER_ID must not be empty"@),
        (config.upload_response_discovery_interval_ms == 0, "UPLOAD_RESPONSE_DISCOVERY_INTERVAL_MS must be > 0"@),
        (config.role is Worker && !finds_ingresses(config), "worker role requires UPLOAD_RESPONSE_INGRESS_URLS or UPLOAD_RESPONSE_DISCOVERY_DNS"@),
    ]
}

/// Of all that is wrong with a configuration the first thing is told.
pub proof fn the_first_fault_is_told(config: AppConfig, index: int)
    requires
        0 <= index < possible_faults(config).len(),
        possible_faults(config)[index].0,
        forall|i: int| 0 <= i < index ==> !(#[trigger] possible_faults(config)[i]).0,
    ensures
        config_fault(config) == Some(possible_faults(config)[index].1),
{
    let faults = possible_faults(config);
    assert forall|i: int| 0 <= i < index implies !(#[trigger] faults[i]).0 by {}
    assert(0 < index ==> !faults[0].0);
    assert(1 < index ==> !faults[1].0);
    assert(2 < index ==> !faults[2].0);
    assert(3 < index ==> !faults[3].0);
    assert(4 < index ==> !faults[4].0);
    assert(5 < index ==> !faults[5].0);
    assert(6 < index ==> !faults[6].0);
    assert(7 < index ==> !faults[7].0);
    assert(8 < index ==> !faults[8].0);
    assert(9 < index ==> !faults[9].0);
    assert(10 < index ==> !faults[10].0);
    assert(11 < index ==> !faults[11].0);
    assert(12 < index ==> !faults[12].0);
}

} // verus!
