use cc_pulseline::config::{
    merge_configs, ProjectBudgetOverride, ProjectConfigOverride, ProjectDisplayOverride,
    ProjectIdentityOverride, ProjectOverrideConfig, ProjectQuotaOverride,
    ProjectSegmentToggleOverride, ProjectSegmentsOverride, ProjectToolOverride, PulselineConfig,
};

fn segments_override() -> ProjectSegmentsOverride {
    ProjectSegmentsOverride {
        identity: None,
        config: None,
        budget: None,
        quota: None,
        tools: None,
        agents: None,
        todo: None,
    }
}

fn identity_override() -> ProjectIdentityOverride {
    ProjectIdentityOverride {
        show_model: None,
        show_style: None,
        show_version: None,
        show_project: None,
        show_git: None,
        show_git_stats: None,
    }
}

#[test]
fn merge_with_empty_project_is_noop() {
    let user = PulselineConfig::default();
    let project = ProjectOverrideConfig::default();
    let merged = merge_configs(user, project);

    assert_eq!(merged.display.theme, "dark");
    assert!(merged.display.icons);
    assert!(merged.segments.identity.show_model);
    assert!(merged.segments.config.show_claude_md);
    assert!(merged.segments.budget.show_context);
    assert!(merged.segments.tools.enabled);
    assert_eq!(merged.segments.tools.max_lines, 2);
}

#[test]
fn merge_project_overrides_theme() {
    let user = PulselineConfig::default();
    let project = ProjectOverrideConfig {
        display: Some(ProjectDisplayOverride { theme: Some("light".to_string()), icons: None }),
        segments: None,
    };

    let merged = merge_configs(user, project);
    assert_eq!(merged.display.theme, "light");
    assert!(merged.display.icons, "icons should inherit from user default");
}

#[test]
fn merge_project_overrides_partial_identity() {
    let user = PulselineConfig::default();
    let project = ProjectOverrideConfig {
        display: None,
        segments: Some(ProjectSegmentsOverride {
            identity: Some(ProjectIdentityOverride {
                show_style: Some(false),
                show_version: Some(false),
                ..identity_override()
            }),
            ..segments_override()
        }),
    };

    let merged = merge_configs(user, project);
    assert!(merged.segments.identity.show_model, "model should inherit true");
    assert!(!merged.segments.identity.show_style, "style should be overridden to false");
    assert!(!merged.segments.identity.show_version, "version should be overridden to false");
    assert!(merged.segments.identity.show_project, "project should inherit true");
    assert!(merged.segments.identity.show_git, "git should inherit true");
}

#[test]
fn merge_project_overrides_tools_config() {
    let user = PulselineConfig::default();
    let project = ProjectOverrideConfig {
        display: None,
        segments: Some(ProjectSegmentsOverride {
            tools: Some(ProjectToolOverride {
                enabled: None,
                max_lines: None,
                max_completed: Some(8),
            }),
            ..segments_override()
        }),
    };

    let merged = merge_configs(user, project);
    assert!(merged.segments.tools.enabled, "enabled should inherit true");
    assert_eq!(merged.segments.tools.max_lines, 2, "max_lines should inherit default");
    assert_eq!(merged.segments.tools.max_completed, 8, "max_completed should be overridden");
}

#[test]
fn merge_project_overrides_show_memory() {
    let user = PulselineConfig::default();
    let project = ProjectOverrideConfig {
        display: None,
        segments: Some(ProjectSegmentsOverride {
            config: Some(ProjectConfigOverride {
                show_claude_md: None,
                show_rules: None,
                show_memory: Some(false),
                show_hooks: None,
                show_mcp: None,
                show_skills: None,
                show_duration: None,
            }),
            ..segments_override()
        }),
    };

    let merged = merge_configs(user, project);
    assert!(merged.segments.config.show_claude_md, "claude_md should inherit");
    assert!(merged.segments.config.show_rules, "rules should inherit");
    assert!(!merged.segments.config.show_memory, "memory should be overridden to false");
    assert!(merged.segments.config.show_hooks, "hooks should inherit");
}

#[test]
fn merge_project_overrides_budget_and_config() {
    let user = PulselineConfig::default();
    let project = ProjectOverrideConfig {
        display: None,
        segments: Some(ProjectSegmentsOverride {
            budget: Some(ProjectBudgetOverride {
                show_context: None,
                show_tokens: Some(false),
                show_cost: None,
                show_speed: None,
            }),
            config: Some(ProjectConfigOverride {
                show_claude_md: None,
                show_rules: None,
                show_memory: None,
                show_hooks: None,
                show_mcp: None,
                show_skills: Some(false),
                show_duration: Some(false),
            }),
            ..segments_override()
        }),
    };

    let merged = merge_configs(user, project);
    assert!(merged.segments.budget.show_context, "context should inherit");
    assert!(!merged.segments.budget.show_tokens, "tokens should be overridden");
    assert!(merged.segments.budget.show_cost, "cost should inherit");
    assert!(merged.segments.config.show_claude_md, "claude_md should inherit");
    assert!(!merged.segments.config.show_skills, "skills should be overridden");
    assert!(!merged.segments.config.show_duration, "duration should be overridden");
}

#[test]
fn merge_full_project_override() {
    let user = PulselineConfig::default();
    let project = ProjectOverrideConfig {
        display: Some(ProjectDisplayOverride {
            theme: Some("light".to_string()),
            icons: Some(false),
        }),
        segments: Some(ProjectSegmentsOverride {
            identity: Some(ProjectIdentityOverride {
                show_model: Some(false),
                show_style: Some(false),
                show_version: Some(false),
                show_project: Some(false),
                show_git: Some(false),
                show_git_stats: None,
            }),
            tools: Some(ProjectToolOverride {
                enabled: Some(false),
                max_lines: Some(5),
                max_completed: Some(10),
            }),
            agents: Some(ProjectSegmentToggleOverride {
                enabled: Some(false),
                max_lines: Some(3),
            }),
            todo: Some(ProjectSegmentToggleOverride {
                enabled: Some(false),
                max_lines: Some(1),
            }),
            ..segments_override()
        }),
    };

    let merged = merge_configs(user, project);
    assert_eq!(merged.display.theme, "light");
    assert!(!merged.display.icons);
    assert!(!merged.segments.identity.show_model);
    assert!(!merged.segments.tools.enabled);
    assert_eq!(merged.segments.tools.max_lines, 5);
    assert_eq!(merged.segments.tools.max_completed, 10);
    assert!(!merged.segments.agents.enabled);
    assert_eq!(merged.segments.agents.max_lines, 3);
    assert!(!merged.segments.todo.enabled);
    assert_eq!(merged.segments.todo.max_lines, 1);
}

#[test]
fn merge_project_overrides_git_stats() {
    let user = PulselineConfig::default();
    let project = ProjectOverrideConfig {
        display: None,
        segments: Some(ProjectSegmentsOverride {
            identity: Some(ProjectIdentityOverride {
                show_git_stats: Some(true),
                ..identity_override()
            }),
            ..segments_override()
        }),
    };

    let merged = merge_configs(user, project);
    assert!(merged.segments.identity.show_git_stats, "git_stats should be overridden to true");
    assert!(merged.segments.identity.show_git, "show_git should inherit default (true)");
}

#[test]
fn merge_project_overrides_show_speed() {
    let user = PulselineConfig::default();
    let project = ProjectOverrideConfig {
        display: None,
        segments: Some(ProjectSegmentsOverride {
            budget: Some(ProjectBudgetOverride {
                show_context: None,
                show_tokens: None,
                show_cost: None,
                show_speed: Some(true),
            }),
            ..segments_override()
        }),
    };

    let merged = merge_configs(user, project);
    assert!(merged.segments.budget.show_speed, "show_speed should be overridden to true");
    assert!(merged.segments.budget.show_context, "show_context should inherit default (true)");
    assert!(merged.segments.budget.show_cost, "show_cost should inherit default (true)");
}

#[test]
fn merge_project_overrides_quota() {
    let user = PulselineConfig::default();
    let project = ProjectOverrideConfig {
        display: None,
        segments: Some(ProjectSegmentsOverride {
            quota: Some(ProjectQuotaOverride {
                enabled: Some(true),
                show_five_hour: None,
                show_seven_day: Some(true),
            }),
            ..segments_override()
        }),
    };

    let merged = merge_configs(user, project);
    assert!(merged.segments.quota.enabled, "quota enabled should be overridden to true");
    assert!(merged.segments.quota.show_seven_day, "show_seven_day should be overridden to true");
    assert!(merged.segments.quota.show_five_hour, "show_five_hour should inherit default (true)");
}
