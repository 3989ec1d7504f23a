use vstd::prelude::*;
use vstd::string::*;

verus! {

/// How the assistant service is authenticated.
#[derive(Clone, Copy, Debug, PartialEq, Eq, Structural)]
pub enum AuthMethod {
    /// Reuse the session of the local assistant tool.
    ClaudeCode,
    /// Use a direct API key.
    ApiKey,
}

#[derive(Clone, Debug)]
pub struct AuthConfig {
    pub method: AuthMethod,
    pub api_key: Option<String>,
    /// Where the local assistant tool keeps its sessions.
    pub claude_code_session_path: Option<String>,
}

#[derive(Clone, Debug)]
pub struct MasterCoderConfig {
    /// Default autonomy mode: conservative, balanced, trust or interactive.
    pub default_mode: String,
    /// The default bound on concurrently running workers.
    pub max_parallel_agents: usize,
    /// Advisory token budget per task; not enforced here.
    pub token_budget: usize,
    /// Whether executions are recorded for later analysis.
    pub enable_learning: bool,
}

#[derive(Clone, Debug)]
pub struct StatusLineConfig {
    /// Update interval in seconds.
    pub update_interval: u64,
    pub show_costs: bool,
    /// Where usage data is fetched from; empty until the application sets it.
    pub api_endpoint: String,
}

#[derive(Clone, Debug)]
pub struct AnalyzerConfig {
    /// Number of sessions to analyze.
    pub history_depth: usize,
    /// Minimum token savings to suggest an optimization.
    pub min_savings_threshold: usize,
}

#[derive(Clone, Debug)]
pub struct Config {
    pub auth: AuthConfig,
    pub master_coder: MasterCoderConfig,
    pub statusline: StatusLineConfig,
    pub analyzer: AnalyzerConfig,
}

impl Default for AuthConfig {
    /// Session reuse, no key; the session path is left for the caller to fill in.
    fn default() -> (r: AuthConfig)
        ensures
            r.method == AuthMethod::ClaudeCode,
            r.api_key is None,
            r.claude_code_session_path is None,
    {
        AuthConfig { method: AuthMethod::ClaudeCode, api_key: None, claude_code_session_path: None }
    }
}

impl Default for Config {
    fn default() -> (r: Config)
        ensures
            r.auth.method == AuthMethod::ClaudeCode,
            r.auth.api_key is None,
            r.master_coder.default_mode@ == "balanced"@,
            r.master_coder.max_parallel_agents == 5,
            r.master_coder.token_budget == 50000,
            r.master_coder.enable_learning,
            r.statusline.update_interval == 30,
            r.statusline.show_costs,
            r.statusline.api_endpoint@.len() == 0,
            r.analyzer.history_depth == 50,
            r.analyzer.min_savings_threshold == 500,
    {
        Config {
            auth: AuthConfig::default(),
            master_coder: MasterCoderConfig {
                default_mode: String::from_str("balanced"),
                max_parallel_agents: 5,
                token_budget: 50000,
                enable_learning: true,
            },
            statusline: StatusLineConfig {
                update_interval: 30,
                show_costs: true,
                api_endpoint: String::new(),
            },
            analyzer: AnalyzerConfig { history_depth: 50, min_savings_threshold: 500 },
        }
    }
}

} // verus!
