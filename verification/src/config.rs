//! Display configuration: the user-level config, per-project overrides
//! with deep merge, and the runtime render configuration.

use vstd::prelude::*;

verus! {

/// Picks the override when present.
pub open spec fn ou<T>(o: Option<T>, d: T) -> T {
    match o {
        Option::Some(v) => v,
        Option::None => d,
    }
}

fn ob(o: Option<bool>, d: bool) -> (r: bool)
    ensures
        r == ou(o, d),
{
    match o {
        Option::Some(v) => v,
        Option::None => d,
    }
}

fn ousize(o: Option<usize>, d: usize) -> (r: usize)
    ensures
        r == ou(o, d),
{
    match o {
        Option::Some(v) => v,
        Option::None => d,
    }
}

// ---- User configuration ----

pub struct DisplayConfig {
    pub theme: String,
    pub icons: bool,
}

impl Default for DisplayConfig {
    fn default() -> (r: Self)
        ensures
            r.theme@ == "dark"@,
            r.icons,
    {
        DisplayConfig { theme: String::from_str("dark"), icons: true }
    }
}

pub struct IdentitySegmentConfig {
    pub show_model: bool,
    pub show_style: bool,
    pub show_version: bool,
    pub show_project: bool,
    pub show_git: bool,
    pub show_git_stats: bool,
}

impl Default for IdentitySegmentConfig {
    fn default() -> (r: Self)
        ensures
            r.show_model && r.show_style && r.show_version && r.show_project && r.show_git,
            !r.show_git_stats,
    {
        IdentitySegmentConfig {
            show_model: true,
            show_style: true,
            show_version: true,
            show_project: true,
            show_git: true,
            show_git_stats: false,
        }
    }
}

pub struct ConfigSegmentConfig {
    pub show_claude_md: bool,
    pub show_rules: bool,
    pub show_memory: bool,
    pub show_hooks: bool,
    pub show_mcp: bool,
    pub show_skills: bool,
    pub show_duration: bool,
}

impl Default for ConfigSegmentConfig {
    fn default() -> (r: Self)
        ensures
            r.show_claude_md && r.show_rules && r.show_memory && r.show_hooks && r.show_mcp
                && r.show_skills && r.show_duration,
    {
        ConfigSegmentConfig {
            show_claude_md: true,
            show_rules: true,
            show_memory: true,
            show_hooks: true,
            show_mcp: true,
            show_skills: true,
            show_duration: true,
        }
    }
}

pub struct BudgetSegmentConfig {
    pub show_context: bool,
    pub show_tokens: bool,
    pub show_cost: bool,
    pub show_speed: bool,
}

impl Default for BudgetSegmentConfig {
    fn default() -> (r: Self)
        ensures
            r.show_context && r.show_tokens && r.show_cost,
            !r.show_speed,
    {
        BudgetSegmentConfig { show_context: true, show_tokens: true, show_cost: true, show_speed: false }
    }
}

pub struct QuotaSegmentConfig {
    pub enabled: bool,
    pub show_five_hour: bool,
    pub show_seven_day: bool,
}

impl Default for QuotaSegmentConfig {
    fn default() -> (r: Self)
        ensures
            !r.enabled,
            r.show_five_hour,
            !r.show_seven_day,
    {
        QuotaSegmentConfig { enabled: false, show_five_hour: true, show_seven_day: false }
    }
}

pub struct ToolSegmentConfig {
    pub enabled: bool,
    pub max_lines: usize,
    pub max_completed: usize,
}

impl Default for ToolSegmentConfig {
    fn default() -> (r: Self)
        ensures
            r.enabled,
            r.max_lines == 2,
            r.max_completed == 4,
    {
        ToolSegmentConfig { enabled: true, max_lines: 2, max_completed: 4 }
    }
}

pub struct SegmentToggle {
    pub enabled: bool,
    pub max_lines: usize,
}

impl Default for SegmentToggle {
    fn default() -> (r: Self)
        ensures
            r.enabled,
            r.max_lines == 2,
    {
        SegmentToggle { enabled: true, max_lines: 2 }
    }
}

pub struct SegmentsConfig {
    pub identity: IdentitySegmentConfig,
    pub config: ConfigSegmentConfig,
    pub budget: BudgetSegmentConfig,
    pub quota: QuotaSegmentConfig,
    pub tools: ToolSegmentConfig,
    pub agents: SegmentToggle,
    pub todo: SegmentToggle,
}

pub struct PulselineConfig {
    pub display: DisplayConfig,
    pub segments: SegmentsConfig,
}


impl Default for SegmentsConfig {
    fn default() -> (r: Self)
        ensures
            r.identity.show_model && r.config.show_claude_md && r.budget.show_context,
            !r.quota.enabled,
            r.tools.enabled && r.tools.max_lines == 2 && r.tools.max_completed == 4,
            r.agents.enabled && r.agents.max_lines == 2,
            r.todo.enabled && r.todo.max_lines == 2,
    {
        SegmentsConfig {
            identity: IdentitySegmentConfig::default(),
            config: ConfigSegmentConfig::default(),
            budget: BudgetSegmentConfig::default(),
            quota: QuotaSegmentConfig::default(),
            tools: ToolSegmentConfig::default(),
            agents: SegmentToggle::default(),
            todo: SegmentToggle::default(),
        }
    }
}

impl Default for PulselineConfig {
    fn default() -> (r: Self)
        ensures
            r.display.theme@ == "dark"@,
            r.display.icons,
            r.segments.identity.show_model,
            r.segments.tools.max_lines == 2,
    {
        PulselineConfig { display: DisplayConfig::default(), segments: SegmentsConfig::default() }
    }
}

// ---- Project override configuration ----

pub struct ProjectDisplayOverride {
    pub theme: Option<String>,
    pub icons: Option<bool>,
}

pub struct ProjectIdentityOverride {
    pub show_model: Option<bool>,
    pub show_style: Option<bool>,
    pub show_version: Option<bool>,
    pub show_project: Option<bool>,
    pub show_git: Option<bool>,
    pub show_git_stats: Option<bool>,
}

pub struct ProjectConfigOverride {
    pub show_claude_md: Option<bool>,
    pub show_rules: Option<bool>,
    pub show_memory: Option<bool>,
    pub show_hooks: Option<bool>,
    pub show_mcp: Option<bool>,
    pub show_skills: Option<bool>,
    pub show_duration: Option<bool>,
}

pub struct ProjectBudgetOverride {
    pub show_context: Option<bool>,
    pub show_tokens: Option<bool>,
    pub show_cost: Option<bool>,
    pub show_speed: Option<bool>,
}

pub struct ProjectQuotaOverride {
    pub enabled: Option<bool>,
    pub show_five_hour: Option<bool>,
    pub show_seven_day: Option<bool>,
}

pub struct ProjectToolOverride {
    pub enabled: Option<bool>,
    pub max_lines: Option<usize>,
    pub max_completed: Option<usize>,
}

pub struct ProjectSegmentToggleOverride {
    pub enabled: Option<bool>,
    pub max_lines: Option<usize>,
}

pub struct ProjectSegmentsOverride {
    pub identity: Option<ProjectIdentityOverride>,
    pub config: Option<ProjectConfigOverride>,
    pub budget: Option<ProjectBudgetOverride>,
    pub quota: Option<ProjectQuotaOverride>,
    pub tools: Option<ProjectToolOverride>,
    pub agents: Option<ProjectSegmentToggleOverride>,
    pub todo: Option<ProjectSegmentToggleOverride>,
}

pub struct ProjectOverrideConfig {
    pub display: Option<ProjectDisplayOverride>,
    pub segments: Option<ProjectSegmentsOverride>,
}


impl Default for ProjectOverrideConfig {
    fn default() -> (r: Self)
        ensures
            r.display is None,
            r.segments is None,
    {
        ProjectOverrideConfig { display: Option::None, segments: Option::None }
    }
}

// ---- Deep merge ----

pub open spec fn spec_merge_display(user: DisplayConfig, o: Option<ProjectDisplayOverride>) -> DisplayConfig {
    match o {
        Option::Some(d) => DisplayConfig { theme: ou(d.theme, user.theme), icons: ou(d.icons, user.icons) },
        Option::None => user,
    }
}

pub open spec fn spec_merge_identity(user: IdentitySegmentConfig, o: Option<ProjectIdentityOverride>) -> IdentitySegmentConfig {
    match o {
        Option::Some(d) => IdentitySegmentConfig {
            show_model: ou(d.show_model, user.show_model),
            show_style: ou(d.show_style, user.show_style),
            show_version: ou(d.show_version, user.show_version),
            show_project: ou(d.show_project, user.show_project),
            show_git: ou(d.show_git, user.show_git),
            show_git_stats: ou(d.show_git_stats, user.show_git_stats),
        },
        Option::None => user,
    }
}

pub open spec fn spec_merge_config_seg(user: ConfigSegmentConfig, o: Option<ProjectConfigOverride>) -> ConfigSegmentConfig {
    match o {
        Option::Some(d) => ConfigSegmentConfig {
            show_claude_md: ou(d.show_claude_md, user.show_claude_md),
            show_rules: ou(d.show_rules, user.show_rules),
            show_memory: ou(d.show_memory, user.show_memory),
            show_hooks: ou(d.show_hooks, user.show_hooks),
            show_mcp: ou(d.show_mcp, user.show_mcp),
            show_skills: ou(d.show_skills, user.show_skills),
            show_duration: ou(d.show_duration, user.show_duration),
        },
        Option::None => user,
    }
}

pub open spec fn spec_merge_budget(user: BudgetSegmentConfig, o: Option<ProjectBudgetOverride>) -> BudgetSegmentConfig {
    match o {
        Option::Some(d) => BudgetSegmentConfig {
            show_context: ou(d.show_context, user.show_context),
            show_tokens: ou(d.show_tokens, user.show_tokens),
            show_cost: ou(d.show_cost, user.show_cost),
            show_speed: ou(d.show_speed, user.show_speed),
        },
        Option::None => user,
    }
}

pub open spec fn spec_merge_quota(user: QuotaSegmentConfig, o: Option<ProjectQuotaOverride>) -> QuotaSegmentConfig {
    match o {
        Option::Some(d) => QuotaSegmentConfig {
            enabled: ou(d.enabled, user.enabled),
            show_five_hour: ou(d.show_five_hour, user.show_five_hour),
            show_seven_day: ou(d.show_seven_day, user.show_seven_day),
        },
        Option::None => user,
    }
}

pub open spec fn spec_merge_tools(user: ToolSegmentConfig, o: Option<ProjectToolOverride>) -> ToolSegmentConfig {
    match o {
        Option::Some(d) => ToolSegmentConfig {
            enabled: ou(d.enabled, user.enabled),
            max_lines: ou(d.max_lines, user.max_lines),
            max_completed: ou(d.max_completed, user.max_completed),
        },
        Option::None => user,
    }
}

pub open spec fn spec_merge_toggle(user: SegmentToggle, o: Option<ProjectSegmentToggleOverride>) -> SegmentToggle {
    match o {
        Option::Some(d) => SegmentToggle {
            enabled: ou(d.enabled, user.enabled),
            max_lines: ou(d.max_lines, user.max_lines),
        },
        Option::None => user,
    }
}

/// Deep merge of a project override onto the user config: a set field
/// wins, an absent field inherits.
pub open spec fn spec_merge_configs(user: PulselineConfig, project: ProjectOverrideConfig) -> PulselineConfig {
    let segs = project.segments;
    PulselineConfig {
        display: spec_merge_display(user.display, project.display),
        segments: match segs {
            Option::Some(s) => SegmentsConfig {
                identity: spec_merge_identity(user.segments.identity, s.identity),
                config: spec_merge_config_seg(user.segments.config, s.config),
                budget: spec_merge_budget(user.segments.budget, s.budget),
                quota: spec_merge_quota(user.segments.quota, s.quota),
                tools: spec_merge_tools(user.segments.tools, s.tools),
                agents: spec_merge_toggle(user.segments.agents, s.agents),
                todo: spec_merge_toggle(user.segments.todo, s.todo),
            },
            Option::None => user.segments,
        },
    }
}

fn merge_display_exec(user: DisplayConfig, o: Option<ProjectDisplayOverride>) -> (r: DisplayConfig)
    ensures
        r == spec_merge_display(user, o),
{
    match o {
        Option::Some(d) => DisplayConfig {
            theme: match d.theme {
                Option::Some(t) => t,
                Option::None => user.theme,
            },
            icons: ob(d.icons, user.icons),
        },
        Option::None => user,
    }
}

fn merge_identity_exec(user: IdentitySegmentConfig, o: Option<ProjectIdentityOverride>) -> (r: IdentitySegmentConfig)
    ensures
        r == spec_merge_identity(user, o),
{
    match o {
        Option::Some(d) => IdentitySegmentConfig {
            show_model: ob(d.show_model, user.show_model),
            show_style: ob(d.show_style, user.show_style),
            show_version: ob(d.show_version, user.show_version),
            show_project: ob(d.show_project, user.show_project),
            show_git: ob(d.show_git, user.show_git),
            show_git_stats: ob(d.show_git_stats, user.show_git_stats),
        },
        Option::None => user,
    }
}

fn merge_config_seg_exec(user: ConfigSegmentConfig, o: Option<ProjectConfigOverride>) -> (r: ConfigSegmentConfig)
    ensures
        r == spec_merge_config_seg(user, o),
{
    match o {
        Option::Some(d) => ConfigSegmentConfig {
            show_claude_md: ob(d.show_claude_md, user.show_claude_md),
            show_rules: ob(d.show_rules, user.show_rules),
            show_memory: ob(d.show_memory, user.show_memory),
            show_hooks: ob(d.show_hooks, user.show_hooks),
            show_mcp: ob(d.show_mcp, user.show_mcp),
            show_skills: ob(d.show_skills, user.show_skills),
            show_duration: ob(d.show_duration, user.show_duration),
        },
        Option::None => user,
    }
}

fn merge_budget_exec(user: BudgetSegmentConfig, o: Option<ProjectBudgetOverride>) -> (r: BudgetSegmentConfig)
    ensures
        r == spec_merge_budget(user, o),
{
    match o {
        Option::Some(d) => BudgetSegmentConfig {
            show_context: ob(d.show_context, user.show_context),
            show_tokens: ob(d.show_tokens, user.show_tokens),
            show_cost: ob(d.show_cost, user.show_cost),
            show_speed: ob(d.show_speed, user.show_speed),
        },
        Option::None => user,
    }
}

fn merge_quota_exec(user: QuotaSegmentConfig, o: Option<ProjectQuotaOverride>) -> (r: QuotaSegmentConfig)
    ensures
        r == spec_merge_quota(user, o),
{
    match o {
        Option::Some(d) => QuotaSegmentConfig {
            enabled: ob(d.enabled, user.enabled),
            show_five_hour: ob(d.show_five_hour, user.show_five_hour),
            show_seven_day: ob(d.show_seven_day, user.show_seven_day),
        },
        Option::None => user,
    }
}

fn merge_tools_exec(user: ToolSegmentConfig, o: Option<ProjectToolOverride>) -> (r: ToolSegmentConfig)
    ensures
        r == spec_merge_tools(user, o),
{
    match o {
        Option::Some(d) => ToolSegmentConfig {
            enabled: ob(d.enabled, user.enabled),
            max_lines: ousize(d.max_lines, user.max_lines),
            max_completed: ousize(d.max_completed, user.max_completed),
        },
        Option::None => user,
    }
}

fn merge_toggle_exec(user: SegmentToggle, o: Option<ProjectSegmentToggleOverride>) -> (r: SegmentToggle)
    ensures
        r == spec_merge_toggle(user, o),
{
    match o {
        Option::Some(d) => SegmentToggle {
            enabled: ob(d.enabled, user.enabled),
            max_lines: ousize(d.max_lines, user.max_lines),
        },
        Option::None => user,
    }
}

/// Deep-merges project overrides onto the user config; `Some` wins, `None`
/// inherits.
pub fn merge_configs(user: PulselineConfig, project: ProjectOverrideConfig) -> (r: PulselineConfig)
    ensures
        r == spec_merge_configs(user, project),
{
    let PulselineConfig { display: udisp, segments: usegs } = user;
    let display = merge_display_exec(udisp, project.display);
    let segments = match project.segments {
        Option::Some(s) => {
            let SegmentsConfig {
                identity: uid,
                config: ucfg,
                budget: ubud,
                quota: uq,
                tools: ut,
                agents: ua,
                todo: utd,
            } = usegs;
            SegmentsConfig {
                identity: merge_identity_exec(uid, s.identity),
                config: merge_config_seg_exec(ucfg, s.config),
                budget: merge_budget_exec(ubud, s.budget),
                quota: merge_quota_exec(uq, s.quota),
                tools: merge_tools_exec(ut, s.tools),
                agents: merge_toggle_exec(ua, s.agents),
                todo: merge_toggle_exec(utd, s.todo),
            }
        },
        Option::None => usegs,
    };
    PulselineConfig { display, segments }
}

// ---- Runtime render configuration ----

#[derive(Clone, Copy, PartialEq, Eq, Structural)]
pub enum GlyphMode {
    Ascii,
    Icon,
}

#[derive(Clone, Copy, PartialEq, Eq, Structural)]
pub enum ColorTheme {
    Dark,
    Light,
}

#[derive(Clone, Copy, PartialEq, Eq, Structural)]
pub enum WidthDegradeStrategy {
    DropActivityLinesFirst,
    CompressLine2,
    CompressCoreLines,
}

pub struct RenderConfig {
    pub glyph_mode: GlyphMode,
    pub color_enabled: bool,
    pub color_theme: ColorTheme,
    pub show_model: bool,
    pub show_style: bool,
    pub show_version: bool,
    pub show_project: bool,
    pub show_git: bool,
    pub show_git_stats: bool,
    pub show_claude_md: bool,
    pub show_rules: bool,
    pub show_memory: bool,
    pub show_hooks: bool,
    pub show_mcp: bool,
    pub show_skills: bool,
    pub show_duration: bool,
    pub show_context: bool,
    pub show_tokens: bool,
    pub show_cost: bool,
    pub show_speed: bool,
    pub show_quota: bool,
    pub show_quota_five_hour: bool,
    pub show_quota_seven_day: bool,
    pub max_tool_lines: usize,
    pub max_completed_tools: usize,
    pub max_agent_lines: usize,
    pub max_todo_lines: usize,
    pub show_tools: bool,
    pub show_agents: bool,
    pub show_todo: bool,
    pub transcript_window_events: usize,
    pub transcript_poll_throttle_ms: u64,
    pub terminal_width: Option<usize>,
    pub degrade_order: Vec<WidthDegradeStrategy>,
}

impl Default for RenderConfig {
    fn default() -> (r: Self)
        ensures
            r.glyph_mode == GlyphMode::Ascii,
            !r.color_enabled,
            r.color_theme == ColorTheme::Dark,
            r.show_model && r.show_style && r.show_version && r.show_project && r.show_git,
            !r.show_git_stats,
            r.show_claude_md && r.show_rules && r.show_memory && r.show_hooks && r.show_mcp
                && r.show_skills && r.show_duration,
            r.show_context && r.show_tokens && r.show_cost,
            !r.show_speed,
            !r.show_quota,
            r.show_quota_five_hour,
            !r.show_quota_seven_day,
            r.max_tool_lines == 2,
            r.max_completed_tools == 4,
            r.max_agent_lines == 2,
            r.max_todo_lines == 2,
            r.show_tools && r.show_agents && r.show_todo,
            r.transcript_window_events == 400,
            r.transcript_poll_throttle_ms == 250,
            r.terminal_width is None,
            r.degrade_order@ =~= seq![
                WidthDegradeStrategy::DropActivityLinesFirst,
                WidthDegradeStrategy::CompressLine2,
                WidthDegradeStrategy::CompressCoreLines,
            ],
    {
        let mut order: Vec<WidthDegradeStrategy> = Vec::new();
        order.push(WidthDegradeStrategy::DropActivityLinesFirst);
        order.push(WidthDegradeStrategy::CompressLine2);
        order.push(WidthDegradeStrategy::CompressCoreLines);
        assert(order@ =~= seq![
            WidthDegradeStrategy::DropActivityLinesFirst,
            WidthDegradeStrategy::CompressLine2,
            WidthDegradeStrategy::CompressCoreLines,
        ]);
        RenderConfig {
            glyph_mode: GlyphMode::Ascii,
            color_enabled: false,
            color_theme: ColorTheme::Dark,
            show_model: true,
            show_style: true,
            show_version: true,
            show_project: true,
            show_git: true,
            show_git_stats: false,
            show_claude_md: true,
            show_rules: true,
            show_memory: true,
            show_hooks: true,
            show_mcp: true,
            show_skills: true,
            show_duration: true,
            show_context: true,
            show_tokens: true,
            show_cost: true,
            show_speed: false,
            show_quota: false,
            show_quota_five_hour: true,
            show_quota_seven_day: false,
            max_tool_lines: 2,
            max_completed_tools: 4,
            max_agent_lines: 2,
            max_todo_lines: 2,
            show_tools: true,
            show_agents: true,
            show_todo: true,
            transcript_window_events: 400,
            transcript_poll_throttle_ms: 250,
            terminal_width: Option::None,
            degrade_order: order,
        }
    }
}

/// A memoized render keyed by a configuration/frame hash.
pub struct RenderCacheEntry {
    pub key: u64,
    pub lines: Vec<String>,
}


/// The default user configuration file content.
pub fn default_config_toml() -> &'static str {
    "[display]\ntheme = \"dark\"          # dark | light\nicons = true            # nerd font icons vs ascii\n\n[segments.identity]     # model, style, version, project, git\nshow_model = true\nshow_style = true\nshow_version = true\nshow_project = true\nshow_git = true\nshow_git_stats = false\n\n[segments.config]       # guidance files, rules, memories, hooks, MCPs, skills, duration\nshow_claude_md = true\nshow_rules = true\nshow_memory = true\nshow_hooks = true\nshow_mcp = true\nshow_skills = true\nshow_duration = true\n\n[segments.budget]       # context, tokens, cost\nshow_context = true\nshow_tokens = true\nshow_cost = true\nshow_speed = false\n\n[segments.quota]        # usage tracking for subscription plans\nenabled = false\nshow_five_hour = true\nshow_seven_day = false\n\n[segments.tools]\nenabled = true\nmax_lines = 2           # max running tools shown\nmax_completed = 4       # max completed tool counts\n\n[segments.agents]\nenabled = true\nmax_lines = 2\n\n[segments.todo]\nenabled = true\nmax_lines = 2\n"
}

/// The default per-project override file content.
pub fn default_project_config_toml() -> &'static str {
    "# Project-level overrides\n# Only set fields you want to override from the user config.\n# Absent fields inherit from the user configuration file.\n\n# [display]\n# theme = \"light\"\n\n# [segments.identity]\n# show_version = false\n# show_git_stats = true\n\n# [segments.config]\n# show_memory = false\n# show_skills = false\n\n# [segments.budget]\n# show_tokens = false\n# show_speed = true\n\n# [segments.quota]\n# enabled = true\n\n# [segments.tools]\n# enabled = true\n# max_lines = 2\n# max_completed = 4\n\n# [segments.agents]\n# enabled = true\n# max_lines = 2\n\n# [segments.todo]\n# enabled = true\n# max_lines = 2\n"
}

} // verus!
