//! Gateway configuration: modes, defaults and the thinking-budget rule.

use vstd::prelude::*;
use crate::ids::{random_uuid, uuid_simple, uuid_simple_text};

verus! {

/// The fixed ceiling that `Auto` mode applies to a thinking budget.
pub const AUTO_BUDGET_CAP: u64 = 24576;

/// Who must present the API key.
#[derive(Debug, Clone, Copy, PartialEq, Eq, Structural)]
pub enum ProxyAuthMode {
    Off,
    Strict,
    AllExceptHealth,
    Auto,
}

impl Default for ProxyAuthMode {
    fn default() -> (r: Self)
        ensures
            r == ProxyAuthMode::Auto,
    {
        ProxyAuthMode::Auto
    }
}

/// How the auxiliary provider takes part in account selection.
#[derive(Debug, Clone, Copy, PartialEq, Eq, Structural)]
pub enum ZaiDispatchMode {
    /// Never selectable.
    Off,
    /// Serves all traffic; the native pool is bypassed.
    Exclusive,
    /// Holds one rotation slot beside the native accounts.
    Pooled,
    /// Used only when the native pool is exhausted.
    Fallback,
}

impl Default for ZaiDispatchMode {
    fn default() -> (r: Self)
        ensures
            r == ZaiDispatchMode::Off,
    {
        ZaiDispatchMode::Off
    }
}

/// How a requested thinking budget is treated.
#[derive(Debug, Clone, Copy, PartialEq, Eq, Structural)]
pub enum ThinkingBudgetMode {
    /// Budgets above the fixed ceiling are lowered to it.
    Auto,
    /// Budgets are left as requested.
    Passthrough,
    /// Every budget is replaced with the configured value.
    Custom,
}

impl Default for ThinkingBudgetMode {
    fn default() -> (r: Self)
        ensures
            r == ThinkingBudgetMode::Auto,
    {
        ThinkingBudgetMode::Auto
    }
}

#[derive(Debug, Clone, Copy, PartialEq, Eq, Structural)]
pub struct ThinkingBudgetConfig {
    pub mode: ThinkingBudgetMode,
    /// The value used in `Custom` mode.
    pub custom_value: u32,
}

impl Default for ThinkingBudgetConfig {
    fn default() -> (r: Self)
        ensures
            r.mode == ThinkingBudgetMode::Auto,
            r.custom_value == 24576,
    {
        ThinkingBudgetConfig { mode: ThinkingBudgetMode::Auto, custom_value: default_thinking_budget_custom_value() }
    }
}

/// The budget that `config` makes of a requested budget `b`.
pub open spec fn normalized_budget(b: u64, config: ThinkingBudgetConfig) -> u64 {
    match config.mode {
        ThinkingBudgetMode::Auto => if b > AUTO_BUDGET_CAP { AUTO_BUDGET_CAP } else { b },
        ThinkingBudgetMode::Passthrough => b,
        ThinkingBudgetMode::Custom => config.custom_value as u64,
    }
}

/// Applies the thinking-budget rule to a requested budget.
pub fn normalize_budget(budget: u64, config: &ThinkingBudgetConfig) -> (r: u64)
    ensures
        r == normalized_budget(budget, *config),
        config.mode == ThinkingBudgetMode::Auto ==> r == if budget <= AUTO_BUDGET_CAP { budget } else { AUTO_BUDGET_CAP },
        config.mode == ThinkingBudgetMode::Passthrough ==> r == budget,
        config.mode == ThinkingBudgetMode::Custom ==> r == config.custom_value as u64,
{
    match config.mode {
        ThinkingBudgetMode::Auto => if budget > AUTO_BUDGET_CAP { AUTO_BUDGET_CAP } else { budget },
        ThinkingBudgetMode::Passthrough => budget,
        ThinkingBudgetMode::Custom => config.custom_value as u64,
    }
}

/// The thinking-budget setting shared by every request transform.
pub struct ThinkingBudgetStore {
    pub current: ThinkingBudgetConfig,
}

impl ThinkingBudgetStore {
    pub fn new() -> (r: Self)
        ensures
            r.current.mode == ThinkingBudgetMode::Auto,
            r.current.custom_value == 24576,
    {
        ThinkingBudgetStore { current: ThinkingBudgetConfig::default() }
    }
}

/// The setting in force.
pub fn get_thinking_budget_config(store: &ThinkingBudgetStore) -> (r: ThinkingBudgetConfig)
    ensures
        r == store.current,
{
    store.current
}

/// Replaces the setting in force.
pub fn update_thinking_budget_config(store: &mut ThinkingBudgetStore, config: ThinkingBudgetConfig)
    ensures
        final(store).current == config,
{
    store.current = config;
}

pub fn default_thinking_budget_custom_value() -> (r: u32)
    ensures
        r == 24576,
{
    24576
}

pub fn default_true() -> (r: bool)
    ensures
        r,
{
    true
}

pub fn default_false() -> (r: bool)
    ensures
        !r,
{
    false
}

pub fn default_block_message() -> (r: String)
    ensures
        r@ == "Access denied"@,
{
    "Access denied".to_string()
}

/// Seconds allowed for one upstream call.
pub fn default_request_timeout() -> (r: u64)
    ensures
        r == 120,
{
    120
}

pub fn default_zai_base_url() -> (r: String)
    ensures
        r@ == "https://api.z.ai/api/anthropic"@,
{
    "https://api.z.ai/api/anthropic".to_string()
}

pub fn default_zai_opus_model() -> (r: String)
    ensures
        r@ == "glm-4.7"@,
{
    "glm-4.7".to_string()
}

pub fn default_zai_sonnet_model() -> (r: String)
    ensures
        r@ == "glm-4.7"@,
{
    "glm-4.7".to_string()
}

pub fn default_zai_haiku_model() -> (r: String)
    ensures
        r@ == "glm-4.5-air"@,
{
    "glm-4.5-air".to_string()
}

#[derive(Debug, Clone)]
pub struct ZaiModelDefaults {
    pub opus: String,
    pub sonnet: String,
    pub haiku: String,
}

impl Default for ZaiModelDefaults {
    fn default() -> (r: Self)
        ensures
            r.opus@ == "glm-4.7"@,
            r.sonnet@ == "glm-4.7"@,
            r.haiku@ == "glm-4.5-air"@,
    {
        ZaiModelDefaults {
            opus: default_zai_opus_model(),
            sonnet: default_zai_sonnet_model(),
            haiku: default_zai_haiku_model(),
        }
    }
}

#[derive(Debug, Clone, Copy, PartialEq, Eq, Structural)]
pub struct ZaiMcpConfig {
    pub enabled: bool,
    pub web_search_enabled: bool,
    pub web_reader_enabled: bool,
    pub vision_enabled: bool,
}

impl Default for ZaiMcpConfig {
    fn default() -> (r: Self)
        ensures
            !r.enabled && !r.web_search_enabled && !r.web_reader_enabled && !r.vision_enabled,
    {
        ZaiMcpConfig { enabled: false, web_search_enabled: false, web_reader_enabled: false, vision_enabled: false }
    }
}

#[derive(Debug, Clone)]
pub struct ZaiConfig {
    pub enabled: bool,
    pub base_url: String,
    pub api_key: String,
    pub dispatch_mode: ZaiDispatchMode,
    /// Incoming model id to upstream model id, oldest entry first.
    pub model_mapping: Vec<(String, String)>,
    pub models: ZaiModelDefaults,
    pub mcp: ZaiMcpConfig,
}

impl Default for ZaiConfig {
    fn default() -> (r: Self)
        ensures
            !r.enabled,
            r.base_url@ == "https://api.z.ai/api/anthropic"@,
            r.api_key@.len() == 0,
            r.dispatch_mode == ZaiDispatchMode::Off,
            r.model_mapping@.len() == 0,
            r.models.opus@ == "glm-4.7"@,
            r.models.sonnet@ == "glm-4.7"@,
            r.models.haiku@ == "glm-4.5-air"@,
            !r.mcp.enabled,
    {
        ZaiConfig {
            enabled: false,
            base_url: default_zai_base_url(),
            api_key: String::new(),
            dispatch_mode: ZaiDispatchMode::Off,
            model_mapping: Vec::new(),
            models: ZaiModelDefaults::default(),
            mcp: ZaiMcpConfig::default(),
        }
    }
}

/// Feature flags. The three context-compression thresholds are ratios of
/// the context window, kept in thousandths.
#[derive(Debug, Clone, Copy, PartialEq, Eq, Structural)]
pub struct ExperimentalConfig {
    pub enable_signature_cache: bool,
    pub enable_tool_loop_recovery: bool,
    pub enable_cross_model_checks: bool,
    pub enable_usage_scaling: bool,
    pub context_compression_threshold_l1: u16,
    pub context_compression_threshold_l2: u16,
    pub context_compression_threshold_l3: u16,
}

impl ExperimentalConfig {
    /// The thresholds increase and stay within the whole window.
    pub open spec fn wf(&self) -> bool {
        self.context_compression_threshold_l1 < self.context_compression_threshold_l2
            && self.context_compression_threshold_l2 < self.context_compression_threshold_l3
            && self.context_compression_threshold_l3 <= 1000
    }

    /// Whether the thresholds increase and stay within the whole window.
    pub fn thresholds_valid(&self) -> (r: bool)
        ensures
            r == self.wf(),
    {
        self.context_compression_threshold_l1 < self.context_compression_threshold_l2
            && self.context_compression_threshold_l2 < self.context_compression_threshold_l3
            && self.context_compression_threshold_l3 <= 1000
    }
}

impl Default for ExperimentalConfig {
    fn default() -> (r: Self)
        ensures
            r.wf(),
            r.enable_signature_cache && r.enable_tool_loop_recovery && r.enable_cross_model_checks,
            !r.enable_usage_scaling,
            r.context_compression_threshold_l1 == 400,
            r.context_compression_threshold_l2 == 550,
            r.context_compression_threshold_l3 == 700,
    {
        ExperimentalConfig {
            enable_signature_cache: true,
            enable_tool_loop_recovery: true,
            enable_cross_model_checks: true,
            enable_usage_scaling: false,
            context_compression_threshold_l1: 400,
            context_compression_threshold_l2: 550,
            context_compression_threshold_l3: 700,
        }
    }
}

#[derive(Debug, Clone)]
pub struct DebugLoggingConfig {
    pub enabled: bool,
    pub output_dir: Option<String>,
}

impl Default for DebugLoggingConfig {
    fn default() -> (r: Self)
        ensures
            !r.enabled,
            r.output_dir is None,
    {
        DebugLoggingConfig { enabled: false, output_dir: None }
    }
}

#[derive(Debug, Clone)]
pub struct IpBlacklistConfig {
    pub enabled: bool,
    pub block_message: String,
}

impl Default for IpBlacklistConfig {
    fn default() -> (r: Self)
        ensures
            !r.enabled,
            r.block_message@ == "Access denied"@,
    {
        IpBlacklistConfig { enabled: false, block_message: default_block_message() }
    }
}

#[derive(Debug, Clone, Copy, PartialEq, Eq, Structural)]
pub struct IpWhitelistConfig {
    pub enabled: bool,
    /// Whitelisted addresses skip the blacklist check.
    pub whitelist_priority: bool,
}

impl Default for IpWhitelistConfig {
    fn default() -> (r: Self)
        ensures
            !r.enabled,
            r.whitelist_priority,
    {
        IpWhitelistConfig { enabled: false, whitelist_priority: true }
    }
}

#[derive(Debug, Clone)]
pub struct SecurityMonitorConfig {
    pub blacklist: IpBlacklistConfig,
    pub whitelist: IpWhitelistConfig,
}

impl Default for SecurityMonitorConfig {
    fn default() -> (r: Self)
        ensures
            !r.blacklist.enabled,
            r.blacklist.block_message@ == "Access denied"@,
            !r.whitelist.enabled,
            r.whitelist.whitelist_priority,
    {
        SecurityMonitorConfig { blacklist: IpBlacklistConfig::default(), whitelist: IpWhitelistConfig::default() }
    }
}

#[derive(Debug, Clone)]
pub struct UpstreamProxyConfig {
    pub enabled: bool,
    /// Proxy address (http://, https:// or socks5://).
    pub url: String,
}

impl Default for UpstreamProxyConfig {
    fn default() -> (r: Self)
        ensures
            !r.enabled,
            r.url@.len() == 0,
    {
        UpstreamProxyConfig { enabled: false, url: String::new() }
    }
}

#[derive(Debug, Clone)]
pub struct ProxyConfig {
    pub enabled: bool,
    /// Listen on every interface rather than on loopback only.
    pub allow_lan_access: bool,
    pub auth_mode: ProxyAuthMode,
    pub port: u16,
    pub api_key: String,
    pub admin_password: Option<String>,
    pub auto_start: bool,
    /// Requested model id to upstream model id, oldest entry first.
    pub custom_mapping: Vec<(String, String)>,
    /// Seconds allowed for one upstream call.
    pub request_timeout: u64,
    pub enable_logging: bool,
    pub debug_logging: DebugLoggingConfig,
    pub upstream_proxy: UpstreamProxyConfig,
    pub zai: ZaiConfig,
    pub user_agent_override: Option<String>,
    pub experimental: ExperimentalConfig,
    pub security_monitor: SecurityMonitorConfig,
    /// Pins every selection to this account while it is eligible.
    pub preferred_account_id: Option<String>,
    pub saved_user_agent: Option<String>,
    pub thinking_budget: ThinkingBudgetConfig,
}

impl Default for ProxyConfig {
    fn default() -> (r: Self)
        ensures
            !r.enabled,
            !r.allow_lan_access,
            r.auth_mode == ProxyAuthMode::Auto,
            r.port == 8045,
            exists|v: u128| r.api_key@ == "sk-"@ + uuid_simple_text(v),
            r.admin_password is None,
            !r.auto_start,
            r.custom_mapping@.len() == 0,
            r.request_timeout == 120,
            r.enable_logging,
            r.experimental.wf(),
            r.preferred_account_id is None,
            r.user_agent_override is None,
            r.saved_user_agent is None,
            r.thinking_budget.mode == ThinkingBudgetMode::Auto,
            r.thinking_budget.custom_value == 24576,
    {
        let id = random_uuid();
        let key = "sk-".to_string().concat(uuid_simple(id).as_str());
        ProxyConfig {
            enabled: false,
            allow_lan_access: false,
            auth_mode: ProxyAuthMode::default(),
            port: 8045,
            api_key: key,
            admin_password: None,
            auto_start: false,
            custom_mapping: Vec::new(),
            request_timeout: default_request_timeout(),
            enable_logging: true,
            debug_logging: DebugLoggingConfig::default(),
            upstream_proxy: UpstreamProxyConfig::default(),
            zai: ZaiConfig::default(),
            user_agent_override: None,
            experimental: ExperimentalConfig::default(),
            security_monitor: SecurityMonitorConfig::default(),
            preferred_account_id: None,
            saved_user_agent: None,
            thinking_budget: ThinkingBudgetConfig::default(),
        }
    }
}

impl ProxyConfig {
    /// The address to listen on: every interface with LAN access, loopback otherwise.
    pub fn get_bind_address(&self) -> (r: &'static str)
        ensures
            self.allow_lan_access ==> r@ == "0.0.0.0"@,
            !self.allow_lan_access ==> r@ == "127.0.0.1"@,
    {
        if self.allow_lan_access {
            "0.0.0.0"
        } else {
            "127.0.0.1"
        }
    }
}

} // verus!
