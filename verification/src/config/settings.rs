//! The configuration that layers of files, profiles and managed overlays are
//! merged into.
//!
//! Sections that are only ever carried whole are held as their TOML text.
use vstd::prelude::*;

use crate::string_map::StringMap;

verus! {

/// A configuration section that no rule here looks into: its TOML text.
#[derive(Debug)]
pub struct Section {
    pub toml: String,
}

/// Whether the use of another program's credentials is allowed.
#[derive(Debug, Clone, Copy, PartialEq, Eq, Structural)]
pub enum ExternalCredentialAccess {
    /// The user, or an administrator, has refused.
    Disabled,
    /// The user has agreed.
    Granted,
}

/// A record of consent to the use of another program's credentials.
#[derive(Debug)]
pub struct ExternalCredentialConsent {
    pub access: ExternalCredentialAccess,
    /// What was agreed to.
    pub terms: Section,
}

/// Which route owns a base URL that the environment wrote.
#[derive(Debug)]
pub enum BaseUrlEnvReceipt {
    /// The configuration never met the environment layer.
    Unrecorded,
    /// It did, and no route owns the URL.
    NoOwner,
    /// The route with this provider and this identity owns the URL.
    Route(String, String),
}

/// The settings of one provider.
#[derive(Debug)]
pub struct ProviderConfig {
    pub api_key: Option<String>,
    pub base_url: Option<String>,
    pub model: Option<String>,
    pub context_window: Option<u64>,
    pub mode: Option<String>,
    pub wire: Option<String>,
    pub auth_mode: Option<String>,
    pub oauth_credential_generation: Option<u64>,
    pub insecure_skip_tls_verify: Option<bool>,
    pub http_headers: Option<Section>,
    pub path_suffix: Option<String>,
    pub reasoning_stream_style: Option<String>,
    pub max_concurrency: Option<u64>,
    pub auth: Option<Section>,
    pub external_credentials: Option<ExternalCredentialConsent>,
    pub kind: Option<String>,
    pub api_key_env: Option<String>,
}

/// The settings of the known providers, and of custom ones by name.
pub struct ProvidersConfig {
    pub deepseek: ProviderConfig,
    pub deepseek_cn: ProviderConfig,
    pub deepseek_anthropic: ProviderConfig,
    pub nvidia_nim: ProviderConfig,
    pub openai: ProviderConfig,
    pub anthropic: ProviderConfig,
    pub openmodel: ProviderConfig,
    pub atlascloud: ProviderConfig,
    pub wanjie_ark: ProviderConfig,
    pub openrouter: ProviderConfig,
    pub orcarouter: ProviderConfig,
    pub xiaomi_mimo: ProviderConfig,
    pub novita: ProviderConfig,
    pub fireworks: ProviderConfig,
    pub siliconflow: ProviderConfig,
    pub siliconflow_cn: ProviderConfig,
    pub arcee: ProviderConfig,
    pub moonshot: ProviderConfig,
    pub sglang: ProviderConfig,
    pub vllm: ProviderConfig,
    pub ollama: ProviderConfig,
    pub ollama_cloud: ProviderConfig,
    pub volcengine: ProviderConfig,
    pub huggingface: ProviderConfig,
    pub deepinfra: ProviderConfig,
    pub together: ProviderConfig,
    pub qianfan: ProviderConfig,
    pub openai_codex: ProviderConfig,
    pub zai: ProviderConfig,
    pub stepfun: ProviderConfig,
    pub minimax: ProviderConfig,
    pub minimax_anthropic: ProviderConfig,
    pub sakana: ProviderConfig,
    pub longcat: ProviderConfig,
    pub opencode_go: ProviderConfig,
    pub opencode_zen: ProviderConfig,
    pub meta: ProviderConfig,
    pub xai: ProviderConfig,
    pub mistral: ProviderConfig,
    pub google: ProviderConfig,
    pub antigravity: ProviderConfig,
    pub telecomjs: ProviderConfig,
    pub edenai: ProviderConfig,
    pub modelstudio_token_plan: ProviderConfig,
    pub modelstudio_token_plan_anthropic: ProviderConfig,
    pub modelstudio_coding_plan: ProviderConfig,
    pub modelstudio_coding_plan_anthropic: ProviderConfig,
    pub custom: StringMap<ProviderConfig>,
}

/// Where skills come from.
#[derive(Debug)]
pub struct SkillsConfig {
    pub registry_url: Option<String>,
    pub max_install_size_bytes: Option<u64>,
    pub scan_codewhale_only: Option<bool>,
}

/// How the context window is managed.
#[derive(Debug)]
pub struct ContextConfig {
    pub enabled: Option<bool>,
    pub project_pack: Option<bool>,
    pub verbatim_window_turns: Option<u64>,
    pub l1_threshold: Option<u64>,
    pub l2_threshold: Option<u64>,
    pub l3_threshold: Option<u64>,
    pub seam_model: Option<String>,
}

/// Feature switches, by name.
pub struct FeaturesToml {
    pub entries: StringMap<bool>,
}

/// One layer of configuration, or the result of merging several.
pub struct Config {
    pub provider: Option<String>,
    pub telemetry: Option<Section>,
    pub api_key: Option<String>,
    pub base_url: Option<String>,
    pub http_headers: Option<Section>,
    pub default_text_model: Option<String>,
    pub auth_mode: Option<String>,
    pub reasoning_effort: Option<String>,
    pub reasoning_effort_inferred_from_legacy_alias: bool,
    pub fleet_operator_route_applied: bool,
    pub fleet_operator_reasoning_applied: bool,
    pub migrated_legacy_ollama_cloud_route: bool,
    pub migrated_deepseek_model_alias: Option<String>,
    pub tools: Option<Section>,
    pub skills_dir: Option<String>,
    pub mcp_config_path: Option<String>,
    pub mcp_oauth_callback_port: Option<u16>,
    pub mcp_oauth_callback_url: Option<String>,
    pub notes_path: Option<String>,
    pub memory_path: Option<String>,
    pub vision_model: Option<Section>,
    pub instructions: Option<Vec<String>>,
    pub stop_words: Option<Vec<String>>,
    pub allow_shell: Option<bool>,
    pub prompt_suggestion: Option<bool>,
    pub yolo: Option<bool>,
    pub verbosity: Option<String>,
    pub approval_policy: Option<String>,
    pub sandbox_mode: Option<String>,
    pub sandbox_network_access: Option<bool>,
    pub project_instruction_imports: Vec<String>,
    pub fallback_providers: Vec<String>,
    pub sandbox_backend: Option<String>,
    pub sandbox_url: Option<String>,
    pub sandbox_api_key: Option<String>,
    pub prefer_bwrap: Option<bool>,
    pub bwrap_ro_roots: Vec<String>,
    pub bwrap_dev_roots: Vec<String>,
    pub sandbox_denied_read_paths: Vec<String>,
    pub managed_config_path: Option<String>,
    pub requirements_path: Option<String>,
    pub max_subagents: Option<u64>,
    pub retry: Option<Section>,
    pub auto_review: Option<Section>,
    pub tui: Option<Section>,
    pub transcript: Option<Section>,
    pub hooks: Option<Section>,
    pub lifecycle_outbox: Option<Section>,
    pub control_socket: Option<Section>,
    pub providers: Option<ProvidersConfig>,
    pub features: Option<FeaturesToml>,
    pub notifications: Option<Section>,
    pub approval: Option<Section>,
    pub network: Option<Section>,
    pub verifier: Option<Section>,
    pub advisor: Option<Section>,
    pub skills: Option<SkillsConfig>,
    pub snapshots: Option<Section>,
    pub search: Option<Section>,
    pub goal: Option<Section>,
    pub engine: Option<Section>,
    pub memory: Option<Section>,
    pub speech: Option<Section>,
    pub auto: Option<Section>,
    pub hotbar: Option<Section>,
    pub update: Option<Section>,
    pub lsp: Option<Section>,
    pub context: ContextConfig,
    pub fleet: Option<Section>,
    pub workflow: Option<Section>,
    pub subagents: Option<Section>,
    pub strict_tool_mode: Option<bool>,
    pub runtime_api: Option<Section>,
    pub workshop: Option<Section>,
    pub exec_policy_engine: Section,
    pub base_url_env_receipt: BaseUrlEnvReceipt,
    pub root_base_url_owner: BaseUrlEnvReceipt,
    pub runtime_chat_isolated: bool,
    pub runtime_thread_inference_unrelated: bool,
    pub mini_window: Option<Section>,
    pub title: Option<String>,
}

/// A configuration file: its top level and its profiles.
pub struct ConfigFile {
    pub base: Config,
    pub profiles: Option<StringMap<Config>>,
}

impl ProviderConfig {
    /// Whether nothing is set.
    pub open spec fn blank(&self) -> bool {
        &&& self.api_key is None
        &&& self.base_url is None
        &&& self.model is None
        &&& self.context_window is None
        &&& self.mode is None
        &&& self.wire is None
        &&& self.auth_mode is None
        &&& self.oauth_credential_generation is None
        &&& self.insecure_skip_tls_verify is None
        &&& self.http_headers is None
        &&& self.path_suffix is None
        &&& self.reasoning_stream_style is None
        &&& self.max_concurrency is None
        &&& self.auth is None
        &&& self.external_credentials is None
        &&& self.kind is None
        &&& self.api_key_env is None
    }
}

impl Default for ProviderConfig {
    fn default() -> (config: Self)
        ensures
            config.blank(),
    {
        ProviderConfig {
            api_key: None,
            base_url: None,
            model: None,
            context_window: None,
            mode: None,
            wire: None,
            auth_mode: None,
            oauth_credential_generation: None,
            insecure_skip_tls_verify: None,
            http_headers: None,
            path_suffix: None,
            reasoning_stream_style: None,
            max_concurrency: None,
            auth: None,
            external_credentials: None,
            kind: None,
            api_key_env: None,
        }
    }
}

impl ProvidersConfig {
    /// Whether nothing is set for any provider.
    pub open spec fn blank(&self) -> bool {
        &&& self.deepseek.blank()
        &&& self.deepseek_cn.blank()
        &&& self.deepseek_anthropic.blank()
        &&& self.nvidia_nim.blank()
        &&& self.openai.blank()
        &&& self.anthropic.blank()
        &&& self.openmodel.blank()
        &&& self.atlascloud.blank()
        &&& self.wanjie_ark.blank()
        &&& self.openrouter.blank()
        &&& self.orcarouter.blank()
        &&& self.xiaomi_mimo.blank()
        &&& self.novita.blank()
        &&& self.fireworks.blank()
        &&& self.siliconflow.blank()
        &&& self.siliconflow_cn.blank()
        &&& self.arcee.blank()
        &&& self.moonshot.blank()
        &&& self.sglang.blank()
        &&& self.vllm.blank()
        &&& self.ollama.blank()
        &&& self.ollama_cloud.blank()
        &&& self.volcengine.blank()
        &&& self.huggingface.blank()
        &&& self.deepinfra.blank()
        &&& self.together.blank()
        &&& self.qianfan.blank()
        &&& self.openai_codex.blank()
        &&& self.zai.blank()
        &&& self.stepfun.blank()
        &&& self.minimax.blank()
        &&& self.minimax_anthropic.blank()
        &&& self.sakana.blank()
        &&& self.longcat.blank()
        &&& self.opencode_go.blank()
        &&& self.opencode_zen.blank()
        &&& self.meta.blank()
        &&& self.xai.blank()
        &&& self.mistral.blank()
        &&& self.google.blank()
        &&& self.antigravity.blank()
        &&& self.telecomjs.blank()
        &&& self.edenai.blank()
        &&& self.modelstudio_token_plan.blank()
        &&& self.modelstudio_token_plan_anthropic.blank()
        &&& self.modelstudio_coding_plan.blank()
        &&& self.modelstudio_coding_plan_anthropic.blank()
        &&& self.custom@ == Map::<Seq<char>, ProviderConfig>::empty()
    }
}

impl Default for ProvidersConfig {
    fn default() -> (config: Self)
        ensures
            config.blank(),
    {
        ProvidersConfig {
            deepseek: ProviderConfig::default(),
            deepseek_cn: ProviderConfig::default(),
            deepseek_anthropic: ProviderConfig::default(),
            nvidia_nim: ProviderConfig::default(),
            openai: ProviderConfig::default(),
            anthropic: ProviderConfig::default(),
            openmodel: ProviderConfig::default(),
            atlascloud: ProviderConfig::default(),
            wanjie_ark: ProviderConfig::default(),
            openrouter: ProviderConfig::default(),
            orcarouter: ProviderConfig::default(),
            xiaomi_mimo: ProviderConfig::default(),
            novita: ProviderConfig::default(),
            fireworks: ProviderConfig::default(),
            siliconflow: ProviderConfig::default(),
            siliconflow_cn: ProviderConfig::default(),
            arcee: ProviderConfig::default(),
            moonshot: ProviderConfig::default(),
            sglang: ProviderConfig::default(),
            vllm: ProviderConfig::default(),
            ollama: ProviderConfig::default(),
            ollama_cloud: ProviderConfig::default(),
            volcengine: ProviderConfig::default(),
            huggingface: ProviderConfig::default(),
            deepinfra: ProviderConfig::default(),
            together: ProviderConfig::default(),
            qianfan: ProviderConfig::default(),
            openai_codex: ProviderConfig::default(),
            zai: ProviderConfig::default(),
            stepfun: ProviderConfig::default(),
            minimax: ProviderConfig::default(),
            minimax_anthropic: ProviderConfig::default(),
            sakana: ProviderConfig::default(),
            longcat: ProviderConfig::default(),
            opencode_go: ProviderConfig::default(),
            opencode_zen: ProviderConfig::default(),
            meta: ProviderConfig::default(),
            xai: ProviderConfig::default(),
            mistral: ProviderConfig::default(),
            google: ProviderConfig::default(),
            antigravity: ProviderConfig::default(),
            telecomjs: ProviderConfig::default(),
            edenai: ProviderConfig::default(),
            modelstudio_token_plan: ProviderConfig::default(),
            modelstudio_token_plan_anthropic: ProviderConfig::default(),
            modelstudio_coding_plan: ProviderConfig::default(),
            modelstudio_coding_plan_anthropic: ProviderConfig::default(),
            custom: StringMap::new(),
        }
    }
}

impl ContextConfig {
    /// Whether nothing is set.
    pub open spec fn blank(&self) -> bool {
        &&& self.enabled is None
        &&& self.project_pack is None
        &&& self.verbatim_window_turns is None
        &&& self.l1_threshold is None
        &&& self.l2_threshold is None
        &&& self.l3_threshold is None
        &&& self.seam_model is None
    }
}

impl Config {
    /// Whether nothing is set. The execution policy is always set to something,
    /// so it does not count.
    pub open spec fn blank(&self) -> bool {
        &&& self.provider is None
        &&& self.telemetry is None
        &&& self.api_key is None
        &&& self.base_url is None
        &&& self.http_headers is None
        &&& self.default_text_model is None
        &&& self.auth_mode is None
        &&& self.reasoning_effort is None
        &&& !self.reasoning_effort_inferred_from_legacy_alias
        &&& !self.fleet_operator_route_applied
        &&& !self.fleet_operator_reasoning_applied
        &&& !self.migrated_legacy_ollama_cloud_route
        &&& self.migrated_deepseek_model_alias is None
        &&& self.tools is None
        &&& self.skills_dir is None
        &&& self.mcp_config_path is None
        &&& self.mcp_oauth_callback_port is None
        &&& self.mcp_oauth_callback_url is None
        &&& self.notes_path is None
        &&& self.memory_path is None
        &&& self.vision_model is None
        &&& self.instructions is None
        &&& self.stop_words is None
        &&& self.allow_shell is None
        &&& self.prompt_suggestion is None
        &&& self.yolo is None
        &&& self.verbosity is None
        &&& self.approval_policy is None
        &&& self.sandbox_mode is None
        &&& self.sandbox_network_access is None
        &&& self.project_instruction_imports@.len() == 0
        &&& self.fallback_providers@.len() == 0
        &&& self.sandbox_backend is None
        &&& self.sandbox_url is None
        &&& self.sandbox_api_key is None
        &&& self.prefer_bwrap is None
        &&& self.bwrap_ro_roots@.len() == 0
        &&& self.bwrap_dev_roots@.len() == 0
        &&& self.sandbox_denied_read_paths@.len() == 0
        &&& self.managed_config_path is None
        &&& self.requirements_path is None
        &&& self.max_subagents is None
        &&& self.retry is None
        &&& self.auto_review is None
        &&& self.tui is None
        &&& self.transcript is None
        &&& self.hooks is None
        &&& self.lifecycle_outbox is None
        &&& self.control_socket is None
        &&& self.providers is None
        &&& self.features is None
        &&& self.notifications is None
        &&& self.approval is None
        &&& self.network is None
        &&& self.verifier is None
        &&& self.advisor is None
        &&& self.skills is None
        &&& self.snapshots is None
        &&& self.search is None
        &&& self.goal is None
        &&& self.engine is None
        &&& self.memory is None
        &&& self.speech is None
        &&& self.auto is None
        &&& self.hotbar is None
        &&& self.update is None
        &&& self.lsp is None
        &&& self.context.blank()
        &&& self.fleet is None
        &&& self.workflow is None
        &&& self.subagents is None
        &&& self.strict_tool_mode is None
        &&& self.runtime_api is None
        &&& self.workshop is None
        &&& self.base_url_env_receipt is Unrecorded
        &&& self.root_base_url_owner is Unrecorded
        &&& !self.runtime_chat_isolated
        &&& !self.runtime_thread_inference_unrelated
        &&& self.mini_window is None
        &&& self.title is None
    }
}

impl Default for Config {
    fn default() -> (config: Self)
        ensures
            config.blank(),
            config.exec_policy_engine.toml@ == Seq::<char>::empty(),
    {
        Config {
            provider: None,
            telemetry: None,
            api_key: None,
            base_url: None,
            http_headers: None,
            default_text_model: None,
            auth_mode: None,
            reasoning_effort: None,
            reasoning_effort_inferred_from_legacy_alias: false,
            fleet_operator_route_applied: false,
            fleet_operator_reasoning_applied: false,
            migrated_legacy_ollama_cloud_route: false,
            migrated_deepseek_model_alias: None,
            tools: None,
            skills_dir: None,
            mcp_config_path: None,
            mcp_oauth_callback_port: None,
            mcp_oauth_callback_url: None,
            notes_path: None,
            memory_path: None,
            vision_model: None,
            instructions: None,
            stop_words: None,
            allow_shell: None,
            prompt_suggestion: None,
            yolo: None,
            verbosity: None,
            approval_policy: None,
            sandbox_mode: None,
            sandbox_network_access: None,
            project_instruction_imports: Vec::new(),
            fallback_providers: Vec::new(),
            sandbox_backend: None,
            sandbox_url: None,
            sandbox_api_key: None,
            prefer_bwrap: None,
            bwrap_ro_roots: Vec::new(),
            bwrap_dev_roots: Vec::new(),
            sandbox_denied_read_paths: Vec::new(),
            managed_config_path: None,
            requirements_path: None,
            max_subagents: None,
            retry: None,
            auto_review: None,
            tui: None,
            transcript: None,
            hooks: None,
            lifecycle_outbox: None,
            control_socket: None,
            providers: None,
            features: None,
            notifications: None,
            approval: None,
            network: None,
            verifier: None,
            advisor: None,
            skills: None,
            snapshots: None,
            search: None,
            goal: None,
            engine: None,
            memory: None,
            speech: None,
            auto: None,
            hotbar: None,
            update: None,
            lsp: None,
            context: ContextConfig {
                enabled: None,
                project_pack: None,
                verbatim_window_turns: None,
                l1_threshold: None,
                l2_threshold: None,
                l3_threshold: None,
                seam_model: None,
            },
            fleet: None,
            workflow: None,
            subagents: None,
            strict_tool_mode: None,
            runtime_api: None,
            workshop: None,
            exec_policy_engine: Section { toml: String::new() },
            base_url_env_receipt: BaseUrlEnvReceipt::Unrecorded,
            root_base_url_owner: BaseUrlEnvReceipt::Unrecorded,
            runtime_chat_isolated: false,
            runtime_thread_inference_unrelated: false,
            mini_window: None,
            title: None,
        }
    }
}

} // verus!
