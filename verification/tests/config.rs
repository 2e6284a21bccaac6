use cue_daemon::config::{
    blocked_arg_matches, check_root_shape, validate_root_config_shape, versioned_command_matches,
    AliasConfig, AliasEntry, BlockCommandRule, BlockConfig, BlockDecision,
    CliResourceProviderConfig, Config, NvidiaResourceConfig, RootShape, WarnConfig,
    WrapperAllowlist, WrapperConfig, DEFAULT_DAEMON_CONFIG,
};
use cue_daemon::ordered_map::OrderedMap;
use toml::Value;

fn words(list: &[&str]) -> Vec<String> {
    list.iter().map(|word| word.to_string()).collect()
}

fn text(value: &Value) -> String {
    value.as_str().expect("text").to_string()
}

fn texts(value: Option<&Value>) -> Vec<String> {
    match value {
        Some(value) => value.as_array().expect("array").iter().map(text).collect(),
        None => Vec::new(),
    }
}

fn text_map(value: Option<&Value>) -> OrderedMap<String> {
    let mut map = OrderedMap::new();
    if let Some(value) = value {
        for (name, entry) in value.as_table().expect("table") {
            map.insert(name.clone(), text(entry));
        }
    }
    map
}

fn section(root: &Value, name: &str) -> Value {
    match root.get(name) {
        Some(value) => value.clone(),
        None => Value::Table(toml::map::Map::new()),
    }
}

fn number(value: Option<&Value>, default: u64) -> u64 {
    match value {
        Some(value) => value.as_integer().expect("integer") as u64,
        None => default,
    }
}

/// Reads the sections of a configuration that the tests use.
fn load(source: &str) -> Result<Config, String> {
    validate_root_config_shape(source, "daemon.toml")?;
    let root: Value = toml::from_str(source).map_err(|error| error.to_string())?;
    let mut config = Config::default();

    let block = section(&root, "block");
    let mut commands = OrderedMap::new();
    if let Some(rules) = block.get("commands") {
        for (name, rule) in rules.as_table().expect("rules") {
            let rule = match rule {
                Value::String(hint) => BlockCommandRule::WholeCommand(hint.clone()),
                other => BlockCommandRule::Args(text_map(Some(other))),
            };
            commands.insert(name.clone(), rule);
        }
    }
    config.block = BlockConfig {
        commands,
        versioned_commands: text_map(block.get("versioned_commands")),
    };
    config.warn = WarnConfig {
        commands: text_map(section(&root, "warn").get("commands")),
    };
    config.aliases = AliasConfig::from_map(&text_map(root.get("aliases")));

    let wrapper = section(&root, "wrapper");
    config.wrapper = WrapperConfig {
        enabled: wrapper.get("enabled").is_some_and(|value| value.as_bool() == Some(true)),
        binary: wrapper.get("binary").map(text).unwrap_or_default(),
        allowlist: WrapperAllowlist {
            commands: texts(wrapper.get("allowlist").and_then(|list| list.get("commands"))),
        },
    };

    let sandbox = section(&root, "sandbox");
    if let Some(root) = sandbox.get("default_upper_root") {
        config.sandbox.default_upper_root = text(root);
    }
    if let Some(ratio) = sandbox.get("min_free_ratio") {
        config.sandbox.min_free_ratio_bits = ratio.as_float().expect("ratio").to_bits();
    }

    let resources = section(&root, "resources");
    if let Some(nvidia) = resources.get("nvidia") {
        let default = NvidiaResourceConfig::default();
        config.resources.nvidia = NvidiaResourceConfig {
            enabled: nvidia.get("enabled").is_some_and(|value| value.as_bool() == Some(true)),
            provider_id: nvidia.get("provider_id").map(text).unwrap_or(default.provider_id),
            gpu_key: nvidia.get("gpu_key").map(text).unwrap_or(default.gpu_key),
            gpu_mem_key: nvidia.get("gpu_mem_key").map(text).unwrap_or(default.gpu_mem_key),
            safety_margin_bytes: number(
                nvidia.get("safety_margin_bytes"),
                default.safety_margin_bytes,
            ),
            probe_ttl_ms: number(nvidia.get("probe_ttl_ms"), default.probe_ttl_ms),
        };
    }
    if let Some(providers) = resources.get("cli") {
        for (id, provider) in providers.as_table().expect("providers") {
            config.resources.cli.insert(
                id.clone(),
                CliResourceProviderConfig {
                    keys: texts(provider.get("keys")),
                    probe: texts(provider.get("probe")),
                    reserve: texts(provider.get("reserve")),
                    release: texts(provider.get("release")),
                    timeout_ms: number(provider.get("timeout_ms"), 5_000),
                },
            );
        }
    }
    Config::complete(config, "daemon.toml")
}

fn aliases(entries: &[(&str, &str)]) -> AliasConfig {
    let mut map = OrderedMap::new();
    for (from, to) in entries {
        map.insert(from.to_string(), to.to_string());
    }
    AliasConfig::from_map(&map)
}

#[test]
fn default_daemon_config_text_parses_and_blocks_python() {
    let config = load(DEFAULT_DAEMON_CONFIG).expect("default config parses");

    assert!(matches!(
        config.check_command_guardrail(&words(&["python", "script.py"])),
        Some(BlockDecision::Block(_))
    ));
    assert!(matches!(
        config.check_command_guardrail(&words(&["python3.13", "script.py"])),
        Some(BlockDecision::Block(_))
    ));
    assert!(config
        .check_command_guardrail(&words(&["uv", "run", "python", "script.py"]))
        .is_none());
}

#[test]
fn invalid_config_is_not_silently_defaulted() {
    let error = load("[wrapper]\nenabled = [").expect_err("invalid config should fail");

    assert!(error.contains("parse config daemon.toml"), "{error}");
}

#[test]
fn daemon_config_rejects_unknown_top_level_sections() {
    let message = load("\n[wefft]\nsocket_path = \"/tmp/typo.sock\"\n")
        .expect_err("unknown top-level daemon sections should fail before defaults apply");

    assert!(message.contains("unknown top-level daemon config section `wefft`"));
    assert!(message.contains("daemon.toml"));
    assert!(message.contains("wrapper"));
    assert!(!message.contains("transport"));
}

#[test]
fn root_shape_decides_without_the_text() {
    assert!(check_root_shape(&RootShape::Sections(words(&["aliases", "warn"])), "d").is_ok());
    assert!(check_root_shape(&RootShape::Sections(words(&["oops"])), "d")
        .expect_err("unknown section")
        .contains("`oops`"));
    assert!(check_root_shape(&RootShape::NotTable, "d").is_err());
    assert!(check_root_shape(&RootShape::Invalid("line 1".to_string()), "d").is_err());
}

#[test]
fn alias_no_match_passthrough() {
    let cfg = AliasConfig::default();
    assert_eq!(cfg.apply("pip install foo"), "pip install foo");
}

#[test]
fn alias_single_word() {
    let cfg = aliases(&[("pip", "uv pip")]);
    assert_eq!(cfg.apply("pip install foo"), "uv pip install foo");
    assert_eq!(cfg.apply("pip"), "uv pip");
}

#[test]
fn alias_multi_word() {
    let cfg = aliases(&[("git clone", "ein clone")]);
    assert_eq!(
        cfg.apply("git clone https://github.com/foo/bar"),
        "ein clone https://github.com/foo/bar"
    );
}

#[test]
fn alias_longer_match_takes_priority() {
    let cfg = aliases(&[("git", "alt-git"), ("git clone", "ein clone")]);
    assert_eq!(
        cfg.apply("git clone https://github.com/foo/bar"),
        "ein clone https://github.com/foo/bar"
    );
    assert_eq!(cfg.apply("git status"), "alt-git status");
}

#[test]
fn alias_no_match_in_middle() {
    let cfg = aliases(&[("pip", "uv pip")]);
    assert_eq!(cfg.apply("run pip install foo"), "run pip install foo");
}

#[test]
fn alias_empty_input() {
    let cfg = aliases(&[("pip", "uv pip")]);
    assert_eq!(cfg.apply(""), "");
}

#[test]
fn alias_preserves_multiline_suffix() {
    let cfg = aliases(&[("pip", "uv pip")]);
    assert_eq!(
        cfg.apply("pip install foo\ncargo test"),
        "uv pip install foo\ncargo test"
    );
}

#[test]
fn alias_leaves_commands_with_a_colon_alone() {
    let cfg = AliasConfig {
        entries: vec![AliasEntry {
            from: ":run".to_string(),
            to: "oops".to_string(),
        }],
    };
    assert_eq!(cfg.apply(":run x"), ":run x");
    assert_eq!(cfg.apply("  :run x"), "oops x");
}

#[test]
fn alias_without_words_is_told() {
    let cfg = aliases(&[("", "nothing"), ("pip", "uv pip")]);
    assert!(cfg.meets_wordless_alias("echo hi"));
    assert!(!cfg.meets_wordless_alias("pip install"));
    assert!(!cfg.meets_wordless_alias(":jobs"));
    assert!(!aliases(&[("pip", "uv pip")]).meets_wordless_alias("echo hi"));
}

#[test]
fn alias_parsed_from_daemon_toml() {
    let config = load("\n[aliases]\n\"git clone\" = \"ein clone\"\npip = \"uv pip\"\n")
        .expect("load config");
    assert_eq!(
        config.aliases.apply("git clone https://example.com"),
        "ein clone https://example.com"
    );
    assert_eq!(config.aliases.apply("pip install foo"), "uv pip install foo");
}

#[test]
fn resources_nvidia_provider_parsed_from_daemon_toml() {
    let config = load(
        r#"
[resources.nvidia]
enabled = true
provider_id = "gpu"
gpu_key = "cuda"
gpu_mem_key = "cuda_mem"
safety_margin_bytes = 1048576
probe_ttl_ms = 250
"#,
    )
    .expect("load config");

    assert!(config.resources.nvidia.enabled);
    assert_eq!(config.resources.nvidia.provider_id, "gpu");
    assert_eq!(config.resources.nvidia.gpu_key, "cuda");
    assert_eq!(config.resources.nvidia.gpu_mem_key, "cuda_mem");
    assert_eq!(config.resources.nvidia.safety_margin_bytes, 1_048_576);
    assert_eq!(config.resources.nvidia.probe_ttl_ms, 250);
}

#[test]
fn resources_nvidia_keys_must_be_distinct() {
    let error = load(
        r#"
[resources.nvidia]
gpu_key = "gpu"
gpu_mem_key = "gpu"
"#,
    )
    .expect_err("duplicate keys should fail");

    assert!(
        error.contains("resources.nvidia.gpu_key and gpu_mem_key in daemon.toml must be distinct"),
        "{error}"
    );
}

#[test]
fn resources_cli_provider_parsed_from_daemon_toml() {
    let config = load(
        r#"
[resources.cli.license]
keys = ["license", "license_mem"]
probe = ["license-helper", "probe"]
reserve = ["license-helper", "reserve"]
release = ["license-helper", "release"]
timeout_ms = 250
"#,
    )
    .expect("load config");

    let provider = config.resources.cli.get("license").expect("license provider");
    assert_eq!(provider.keys, vec!["license", "license_mem"]);
    assert_eq!(provider.probe, vec!["license-helper", "probe"]);
    assert_eq!(provider.timeout_ms, 250);
}

#[test]
fn resources_cli_provider_requires_non_empty_commands() {
    let error = load(
        r#"
[resources.cli.license]
keys = ["license"]
probe = []
reserve = ["license-helper", "reserve"]
release = ["license-helper", "release"]
"#,
    )
    .expect_err("empty probe argv should fail");

    assert!(
        error.contains("resources.cli.license.probe in daemon.toml must be a non-empty argv array"),
        "{error}"
    );
}

#[test]
fn wrapper_default_disabled() {
    let cfg = WrapperConfig::default();
    assert!(!cfg.enabled);
    assert!(!cfg.should_wrap("git", false, None));
}

#[test]
fn wrapper_enabled_requires_allowlist_match() {
    let cfg = WrapperConfig {
        enabled: true,
        binary: "rtk".into(),
        allowlist: WrapperAllowlist {
            commands: vec!["git".into()],
        },
    };
    assert!(cfg.should_wrap("git", false, None));
    assert!(cfg.should_wrap("/usr/bin/git", false, None));
    assert!(!cfg.should_wrap("cargo", false, None));
}

#[test]
fn wrapper_empty_allowlist_wraps_nothing() {
    let cfg = WrapperConfig {
        enabled: true,
        binary: "rtk".into(),
        ..Default::default()
    };
    assert!(!cfg.should_wrap("git", false, None));
}

#[test]
fn wrapper_empty_binary_wraps_nothing_even_when_overridden_on() {
    let cfg = WrapperConfig {
        enabled: false,
        binary: String::new(),
        allowlist: WrapperAllowlist {
            commands: vec!["git".into()],
        },
    };

    assert!(!cfg.should_wrap("git", false, Some(true)));
}

#[test]
fn wrapper_enabled_requires_non_empty_binary() {
    let error = load(
        r#"
[wrapper]
enabled = true

[wrapper.allowlist]
commands = ["git"]
"#,
    )
    .expect_err("enabled wrapper without binary should fail config loading");

    assert!(error.contains("wrapper.binary is empty"));
}

#[test]
fn wrapper_binary_rejects_leading_or_trailing_whitespace() {
    let error = load(
        r#"
[wrapper]
enabled = false
binary = " rtk"
"#,
    )
    .expect_err("padded wrapper binary should fail config loading");

    assert!(error
        .contains("wrapper.binary in daemon.toml must not have leading or trailing whitespace"));
}

#[test]
fn wrapper_idempotent_already_wrapped() {
    let cfg = WrapperConfig {
        enabled: true,
        binary: "rtk".into(),
        allowlist: WrapperAllowlist {
            commands: vec!["rtk".into()],
        },
    };
    assert!(!cfg.should_wrap("rtk", false, None));
}

#[test]
fn wrapper_is_not_wrapped_by_any_path() {
    let cfg = WrapperConfig {
        enabled: true,
        binary: "/opt/bin/rtk".into(),
        allowlist: WrapperAllowlist {
            commands: vec!["rtk".into(), "/usr/bin/rtk".into(), "git".into()],
        },
    };
    for program in ["rtk", "/usr/bin/rtk", "/opt/bin/rtk", "./rtk"] {
        assert!(!cfg.should_wrap(program, false, None), "{program}");
        assert!(!cfg.should_wrap(program, false, Some(true)), "{program}");
    }
    assert!(cfg.should_wrap("git", false, None));
}

#[test]
fn wrapper_skips_foreground_commands() {
    let cfg = WrapperConfig {
        enabled: true,
        binary: "rtk".into(),
        allowlist: WrapperAllowlist {
            commands: vec!["git".into()],
        },
    };
    assert!(!cfg.should_wrap("git", true, None));
    assert!(cfg.should_wrap("git", false, None));
}

#[test]
fn wrapper_parsed_from_daemon_toml() {
    let config = load(
        r#"
[wrapper]
enabled = true
binary = "rtk"

[wrapper.allowlist]
commands = ["git", "cargo"]
"#,
    )
    .expect("load config");
    assert!(config.wrapper.enabled);
    assert_eq!(config.wrapper.binary, "rtk");
    assert_eq!(config.wrapper.allowlist.commands, vec!["git", "cargo"]);
}

#[test]
fn wrapper_absent_config_is_default() {
    let config = load("\n[aliases]\npip = \"uv pip\"\n").expect("load config");
    assert!(!config.wrapper.enabled);
}

#[test]
fn block_config_default_blocks_git_no_verify_with_hint() {
    let config = Config::default();
    assert!(
        config
            .check_command_guardrail(&words(&["python", "script.py"]))
            .is_none(),
        "Config::default should not hard-code the generated daemon.toml python block"
    );
    let decision = config
        .check_command_guardrail(&words(&["git", "commit", "--no-verify"]))
        .expect("git --no-verify should be blocked by default");
    match decision {
        BlockDecision::Block(message) => {
            assert!(message.contains("git --no-verify"));
            assert!(message.contains("hint:"));
            assert!(message.contains("Run the commit normally"));
        }
        BlockDecision::Warn(_) => panic!("expected block decision"),
    }
    assert!(config.check_command_guardrail(&words(&["git", "push"])).is_none());
    assert!(config.check_command_guardrail(&words(&["cd", "/tmp"])).is_none());
}

#[test]
fn block_config_partial_warn_table_keeps_default_block_commands() {
    let config = load("\n[warn.commands]\nsh = \"Use direct-exec instead.\"\n")
        .expect("load config");

    assert!(
        matches!(
            config.check_command_guardrail(&words(&["git", "commit", "--no-verify"])),
            Some(BlockDecision::Block(_))
        ),
        "configuring only warn.commands must not erase default block.commands"
    );
    assert!(matches!(
        config.check_command_guardrail(&words(&["sh", "-lc", "echo hi"])),
        Some(BlockDecision::Warn(_))
    ));
}

#[test]
fn block_config_whole_command_matches_exact_basename() {
    let config = load("\n[block.commands]\nsh = \"Avoid shell wrappers.\"\n")
        .expect("load config");

    for command in ["sh", "/bin/sh"] {
        let decision = config
            .check_command_guardrail(&words(&[command, "-c", "echo hi"]))
            .expect("sh command should be blocked");
        match decision {
            BlockDecision::Block(message) => {
                assert!(message.contains(command));
                assert!(message.contains("Avoid shell wrappers."));
            }
            BlockDecision::Warn(_) => panic!("expected block decision"),
        }
    }

    for command in ["zsh", "/bin/zsh", "shellcheck"] {
        assert!(
            config
                .check_command_guardrail(&words(&[command, "-c", "echo hi"]))
                .is_none(),
            "{command} must not match the literal sh command rule"
        );
    }
}

#[test]
fn block_config_argument_rules_match_each_token_literally() {
    let config = load(
        r#"
[block.commands.npm]
"--force" = "Use normal install."
"install --unsafe-peer-deps" = "This phrase is not matched across argv tokens."
"#,
    )
    .expect("load config");

    assert!(matches!(
        config.check_command_guardrail(&words(&["npm", "install", "--force"])),
        Some(BlockDecision::Block(_))
    ));
    assert!(matches!(
        config.check_command_guardrail(&words(&["npm", "install", "--force=true"])),
        Some(BlockDecision::Block(_))
    ));
    assert!(
        config
            .check_command_guardrail(&words(&["npm", "install", "--unsafe-peer-deps"]))
            .is_none(),
        "argument patterns must not match across joined argv tokens"
    );
}

#[test]
fn block_config_custom_commands_keep_default_git_no_verify() {
    let config = load("\n[block.commands.npm]\n\"--force\" = \"Use normal install.\"\n")
        .expect("load config");

    assert!(matches!(
        config.check_command_guardrail(&words(&["git", "commit", "--no-verify"])),
        Some(BlockDecision::Block(_))
    ));
    assert!(matches!(
        config.check_command_guardrail(&words(&["npm", "install", "--force"])),
        Some(BlockDecision::Block(_))
    ));
}

#[test]
fn block_config_prefers_block_over_warning_for_same_command() {
    let config = load(
        r#"
[block.commands.git]
"--no-verify" = "Run the commit normally."

[warn.commands]
git = "Review git command before running."
"#,
    )
    .expect("load config");

    let git_no_verify = config
        .check_command_guardrail(&words(&["git", "commit", "--no-verify"]))
        .expect("git --no-verify should be blocked");
    match git_no_verify {
        BlockDecision::Block(message) => {
            assert!(message.contains("hint:"));
            assert!(message.contains("Run the commit normally"));
        }
        BlockDecision::Warn(_) => panic!("expected block decision"),
    }
    assert!(matches!(
        config.check_command_guardrail(&words(&["git", "status"])),
        Some(BlockDecision::Warn(_))
    ));
}

#[test]
fn block_config_parses_and_checks() {
    let config = load(
        r#"
[block.commands.git]
"--no-verify" = "Run the commit normally."

[block.commands.npm]
"--force" = "Use the lockfile and normal install path instead."
"--unsafe-peer-deps" = "Use the package manager's normal dependency resolution."
"#,
    )
    .expect("load config");

    assert!(config
        .check_command_guardrail(&words(&["git", "push", "--no-verify"]))
        .is_some());
    assert!(config
        .check_command_guardrail(&words(&["git", "commit", "--no-verify"]))
        .is_some());
    let npm_force = config
        .check_command_guardrail(&words(&["npm", "install", "--force"]))
        .expect("npm --force should be blocked");
    match npm_force {
        BlockDecision::Block(message) => {
            assert!(message.contains("npm --force"));
            assert!(message.contains("Use the lockfile and normal install path instead."));
        }
        BlockDecision::Warn(_) => panic!("expected block decision"),
    }

    assert!(config.check_command_guardrail(&words(&["git", "push"])).is_none());
    assert!(config
        .check_command_guardrail(&words(&["git", "commit", "-m", "fix"]))
        .is_none());
    assert!(config.check_command_guardrail(&words(&["npm", "install"])).is_none());
    assert!(config.check_command_guardrail(&words(&["cargo", "test"])).is_none());
}

#[test]
fn patterns_match_an_argument_or_its_name() {
    assert!(blocked_arg_matches("--force", "--force"));
    assert!(blocked_arg_matches("--force=yes", "--force"));
    assert!(!blocked_arg_matches("--forced", "--force"));
    assert!(versioned_command_matches("python", "python"));
    assert!(versioned_command_matches("python3.12", "python"));
    assert!(!versioned_command_matches("python-config", "python"));
}

#[test]
fn default_retention_config_is_present() {
    let config = Config::default();
    assert_eq!(config.retention.max_job_history, 200);
    assert_eq!(config.retention.max_script_runs, 100);
}

#[test]
fn default_sandbox_config_uses_shared_memory_upper_root() {
    let config = Config::default();
    assert_eq!(config.sandbox.default_upper_root, "/dev/shm/cue-shell-sandbox");
    assert_eq!(f64::from_bits(config.sandbox.min_free_ratio_bits), 0.1);
}

#[test]
fn sandbox_config_parsed_from_daemon_toml() {
    let config = load(
        r#"
[sandbox]
default_upper_root = "/mnt/fast/cue-upper"
min_free_ratio = 0.25
"#,
    )
    .expect("load config");
    assert_eq!(config.sandbox.default_upper_root, "/mnt/fast/cue-upper");
    assert_eq!(f64::from_bits(config.sandbox.min_free_ratio_bits), 0.25);
}

#[test]
fn sandbox_config_rejects_empty_or_padded_upper_root() {
    let empty = load("[sandbox]\ndefault_upper_root = \"\"\n")
        .expect_err("empty upper root should fail");
    assert!(
        empty.contains("sandbox.default_upper_root in daemon.toml must not be empty"),
        "{empty}"
    );

    let padded = load("[sandbox]\ndefault_upper_root = \" /dev/shm/cue \"\n")
        .expect_err("padded upper root should fail");
    assert!(
        padded.contains(
            "sandbox.default_upper_root in daemon.toml must not have leading or trailing whitespace"
        ),
        "{padded}"
    );
}

#[test]
fn sandbox_config_rejects_out_of_range_min_free_ratio() {
    for value in ["-0.1", "1.0", "1.5"] {
        let error = load(&format!("[sandbox]\nmin_free_ratio = {value}\n"))
            .expect_err("out-of-range min_free_ratio should fail");
        assert!(
            error.contains("sandbox.min_free_ratio in daemon.toml must be in the range"),
            "min_free_ratio {value} produced unexpected error: {error}"
        );
    }
    let mut config = Config::default();
    config.sandbox.min_free_ratio_bits = f64::NAN.to_bits();
    assert!(Config::complete(config, "daemon.toml").is_err());
    let mut zero = Config::default();
    zero.sandbox.min_free_ratio_bits = (-0.0f64).to_bits();
    assert!(Config::complete(zero, "daemon.toml").is_ok());
}
