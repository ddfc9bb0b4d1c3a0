use pintas::config::Config;
use pintas::dispatch::{finish_run, run_alias, run_command, Action, Commands, Invocation};
use pintas::error::PintasError;
use pintas::listing::{entry_text, list_aliases};
use pintas::order::{name_less, same_text};
use pintas::registry::{add_alias, edit_alias, remove_alias};
use pintas::shim::{get_pintas_dir, get_shims_dir, init_shell, shim_plan, shim_script, Shim};

fn table(entries: &[(&str, &str)]) -> Config {
    let mut config = Config::new();
    for (name, command) in entries {
        config.insert(name.to_string(), command.to_string());
    }
    config
}

fn names(config: &Config) -> Vec<String> {
    config.aliases().iter().map(|a| a.name.clone()).collect()
}

fn strings(v: &[&str]) -> Vec<String> {
    v.iter().map(|s| s.to_string()).collect()
}

#[test]
fn add_to_empty_table() {
    let mut config = Config::new();
    assert_eq!(add_alias(&mut config, "x", "echo hi"), Ok(()));
    assert_eq!(config.len(), 1);
    assert_eq!(config.get("x"), Some(&"echo hi".to_string()));
}

#[test]
fn add_existing_is_refused_and_keeps_table() {
    let mut config = table(&[("x", "echo hi")]);
    let r = add_alias(&mut config, "x", "echo other");
    assert_eq!(r, Err(PintasError::AliasAlreadyExists("x".to_string())));
    assert_eq!(config.len(), 1);
    assert_eq!(config.get("x"), Some(&"echo hi".to_string()));
}

#[test]
fn add_grows_by_one() {
    let mut config = table(&[("a", "1"), ("c", "3")]);
    assert_eq!(add_alias(&mut config, "b", "2"), Ok(()));
    assert_eq!(config.len(), 3);
    assert_eq!(names(&config), strings(&["a", "b", "c"]));
}

#[test]
fn names_are_case_sensitive_and_untrimmed() {
    let mut config = table(&[("x", "1")]);
    assert_eq!(add_alias(&mut config, "X", "2"), Ok(()));
    assert_eq!(add_alias(&mut config, " x", "3"), Ok(()));
    assert_eq!(config.len(), 3);
}

#[test]
fn edit_replaces_command_keeps_size() {
    let mut config = table(&[("x", "echo hi"), ("y", "ls")]);
    assert_eq!(edit_alias(&mut config, "x", "echo bye"), Ok(()));
    assert_eq!(config.len(), 2);
    assert_eq!(config.get("x"), Some(&"echo bye".to_string()));
    assert_eq!(config.get("y"), Some(&"ls".to_string()));
}

#[test]
fn edit_missing_is_refused() {
    let mut config = table(&[("x", "echo hi")]);
    let r = edit_alias(&mut config, "z", "echo");
    assert_eq!(r, Err(PintasError::AliasNotFound("z".to_string())));
    assert_eq!(config, table(&[("x", "echo hi")]));
}

#[test]
fn remove_shrinks_by_one() {
    let mut config = table(&[("x", "echo hi"), ("y", "ls")]);
    assert_eq!(remove_alias(&mut config, "x"), Ok(()));
    assert_eq!(config.len(), 1);
    assert_eq!(config.get("x"), None);
    assert_eq!(names(&config), strings(&["y"]));
}

#[test]
fn remove_missing_is_refused() {
    let mut config = table(&[("x", "echo hi")]);
    let r = remove_alias(&mut config, "y");
    assert_eq!(r, Err(PintasError::AliasNotFound("y".to_string())));
    assert_eq!(config.len(), 1);
}

#[test]
fn insert_overwrites() {
    let mut config = table(&[("x", "1")]);
    config.insert("x".to_string(), "2".to_string());
    assert_eq!(config.len(), 1);
    assert_eq!(config.get("x"), Some(&"2".to_string()));
    assert_eq!(config.remove("x"), Some("2".to_string()));
    assert!(config.is_empty());
    assert_eq!(config.remove("x"), None);
}

#[test]
fn list_is_sorted_whatever_the_insertion_order() {
    let a = table(&[("zeta", "z"), ("alpha", "a"), ("mid", "m")]);
    let b = table(&[("mid", "m"), ("zeta", "z"), ("alpha", "a")]);
    let expected = strings(&[
        "Available aliases:",
        " - alpha: \"a\"",
        " - mid: \"m\"",
        " - zeta: \"z\"",
    ]);
    assert_eq!(list_aliases(&a), expected);
    assert_eq!(list_aliases(&b), expected);
}

#[test]
fn list_of_empty_table_says_so() {
    let config = Config::new();
    assert_eq!(list_aliases(&config), strings(&["Available aliases:", "No aliases found."]));
}

#[test]
fn entry_line_quotes_the_command() {
    assert_eq!(entry_text("gs", "git status"), " - gs: \"git status\"");
}

#[test]
fn name_order_is_byte_order() {
    assert!(name_less("B", "a"));
    assert!(!name_less("a", "B"));
    assert!(name_less("ab", "b"));
    assert!(name_less("a", "ab"));
    assert!(!name_less("ab", "ab"));
    assert!(name_less("", "a"));
    assert!(name_less("z", "é"));
    let config = table(&[("é", "1"), ("z", "2"), ("B", "3"), ("a", "4")]);
    assert_eq!(names(&config), strings(&["B", "a", "z", "é"]));
}

#[test]
fn same_text_compares_whole_strings() {
    assert!(same_text("bash", "bash"));
    assert!(!same_text("bash", "bas"));
    assert!(!same_text("bash", "Bash"));
    assert!(same_text("", ""));
}

#[test]
fn run_spawns_shell_with_positional_arguments() {
    let config = table(&[("foo", "echo $1-$2")]);
    let r = run_alias("foo".to_string(), strings(&["a", "b"]), false, Ok(config));
    assert_eq!(
        r,
        Action::Spawn(Invocation {
            program: "sh".to_string(),
            args: strings(&["-c", "echo $1-$2", "foo", "a", "b"]),
            internal: false,
            announce: Some("Executing command: 'echo $1-$2'".to_string()),
        })
    );
}

#[test]
fn internal_run_announces_nothing() {
    let config = table(&[("foo", "echo $1-$2")]);
    let r = run_alias("foo".to_string(), strings(&["a"]), true, Ok(config));
    assert_eq!(
        r,
        Action::Spawn(Invocation {
            program: "sh".to_string(),
            args: strings(&["-c", "echo $1-$2", "foo", "a"]),
            internal: true,
            announce: None,
        })
    );
}

#[test]
fn direct_run_status_follows_the_child() {
    assert_eq!(finish_run(false, Some(0)), Action::Done);
    assert_eq!(finish_run(false, Some(3)), Action::Fail(PintasError::ChildNonZeroExit(Some(3))));
    assert_eq!(finish_run(false, None), Action::Fail(PintasError::ChildNonZeroExit(None)));
}

#[test]
fn internal_run_forwards_the_exit_code() {
    assert_eq!(finish_run(true, Some(0)), Action::Exit(0));
    assert_eq!(finish_run(true, Some(42)), Action::Exit(42));
    assert_eq!(finish_run(true, None), Action::Exit(1));
}

#[test]
fn internal_run_of_missing_alias_exits_126() {
    let config = table(&[("foo", "echo")]);
    assert_eq!(run_alias("bar".to_string(), vec![], true, Ok(config)), Action::Exit(126));
}

#[test]
fn internal_run_without_config_exits_126() {
    let r = run_alias("foo".to_string(), vec![], true, Err(PintasError::ConfigNotFound));
    assert_eq!(r, Action::Exit(126));
    let r = run_alias("foo".to_string(), vec![], true, Err(PintasError::ConfigParseError));
    assert_eq!(r, Action::Exit(126));
}

#[test]
fn direct_run_of_missing_alias_fails() {
    let config = table(&[("foo", "echo")]);
    let r = run_alias("bar".to_string(), vec![], false, Ok(config));
    assert_eq!(r, Action::Fail(PintasError::AliasNotFound("bar".to_string())));
    let r = run_alias("bar".to_string(), vec![], false, Err(PintasError::ConfigNotFound));
    assert_eq!(r, Action::Fail(PintasError::ConfigNotFound));
}

#[test]
fn shim_after_add_runs_internal() {
    let mut config = Config::new();
    assert_eq!(add_alias(&mut config, "x", "echo hi"), Ok(()));
    let plan = shim_plan(&config, "/usr/bin/pintas");
    assert_eq!(
        plan,
        vec![Shim {
            name: "x".to_string(),
            script: "#!/bin/sh\nexec \"/usr/bin/pintas\" run --internal \"x\" \"$@\"".to_string(),
        }]
    );
}

#[test]
fn shim_plan_has_one_shim_per_alias() {
    let config = table(&[("b", "2"), ("a", "1")]);
    let plan = shim_plan(&config, "/p");
    let names: Vec<String> = plan.iter().map(|s| s.name.clone()).collect();
    assert_eq!(names, strings(&["a", "b"]));
    assert_eq!(plan[1].script, shim_script("/p", "b"));
    assert!(shim_plan(&Config::new(), "/p").is_empty());
}

#[test]
fn shim_directories_under_home() {
    assert_eq!(get_pintas_dir("/home/u"), "/home/u/.pintas");
    assert_eq!(get_shims_dir("/home/u"), "/home/u/.pintas/shims");
}

#[test]
fn init_bash_prints_path_export() {
    let r = init_shell("bash", "/home/u/.pintas/shims");
    assert_eq!(
        r,
        Ok("# pintas shell integration for bash\n#\n# Add the following line to your ~/.bashrc or ~/.profile:\n#\n  export PATH=\"/home/u/.pintas/shims\":$PATH\n".to_string())
    );
}

#[test]
fn init_other_shell_is_unsupported() {
    assert_eq!(init_shell("zsh", "/d"), Err(PintasError::UnsupportedShell("zsh".to_string())));
}

#[test]
fn dispatch_init_needs_home() {
    let r = run_command(Commands::Init { shell: "bash".to_string() }, Err(PintasError::ConfigNotFound), None);
    assert_eq!(r, Action::Fail(PintasError::HomeUnknown));
    let r = run_command(
        Commands::Init { shell: "bash".to_string() },
        Err(PintasError::ConfigNotFound),
        Some("/h/.pintas/shims".to_string()),
    );
    match r {
        Action::Integrate { shims_dir, snippet } => {
            assert_eq!(shims_dir, "/h/.pintas/shims");
            assert!(snippet.contains("export PATH=\"/h/.pintas/shims\":$PATH"));
        }
        other => panic!("unexpected {:?}", other),
    }
}

#[test]
fn dispatch_list() {
    let r = run_command(Commands::List, Ok(table(&[("x", "y")])), None);
    assert_eq!(r, Action::Print(strings(&["Available aliases:", " - x: \"y\""])));
    let r = run_command(Commands::List, Err(PintasError::ConfigNotFound), None);
    assert_eq!(r, Action::Fail(PintasError::ConfigNotFound));
}

#[test]
fn dispatch_sync() {
    let r = run_command(Commands::Sync, Ok(table(&[("x", "y")])), None);
    assert_eq!(r, Action::SyncShims(table(&[("x", "y")])));
    let r = run_command(Commands::Sync, Err(PintasError::ConfigParseError), None);
    assert_eq!(r, Action::Fail(PintasError::ConfigParseError));
}

#[test]
fn dispatch_add_without_config_starts_empty() {
    let cmd = Commands::Add { alias: "x".to_string(), command: "echo hi".to_string() };
    let r = run_command(cmd, Err(PintasError::ConfigNotFound), None);
    assert_eq!(
        r,
        Action::Persist {
            config: table(&[("x", "echo hi")]),
            message: "Successfully added alias 'x'.".to_string(),
        }
    );
}

#[test]
fn dispatch_add_keeps_unparsable_config() {
    let cmd = Commands::Add { alias: "x".to_string(), command: "echo hi".to_string() };
    let r = run_command(cmd, Err(PintasError::ConfigParseError), None);
    assert_eq!(r, Action::Fail(PintasError::ConfigParseError));
}

#[test]
fn dispatch_add_existing_fails() {
    let cmd = Commands::Add { alias: "x".to_string(), command: "other".to_string() };
    let r = run_command(cmd, Ok(table(&[("x", "echo hi")])), None);
    assert_eq!(r, Action::Fail(PintasError::AliasAlreadyExists("x".to_string())));
}

#[test]
fn dispatch_edit_and_remove() {
    let cmd = Commands::Edit { alias: "x".to_string(), command: "new".to_string() };
    let r = run_command(cmd, Ok(table(&[("x", "old")])), None);
    assert_eq!(
        r,
        Action::Persist {
            config: table(&[("x", "new")]),
            message: "Successfully edited alias 'x'.".to_string(),
        }
    );
    let cmd = Commands::Edit { alias: "x".to_string(), command: "new".to_string() };
    let r = run_command(cmd, Err(PintasError::ConfigNotFound), None);
    assert_eq!(r, Action::Fail(PintasError::ConfigNotFound));
    let r = run_command(Commands::Remove { alias: "x".to_string() }, Ok(table(&[("x", "old"), ("y", "1")])), None);
    assert_eq!(
        r,
        Action::Persist {
            config: table(&[("y", "1")]),
            message: "Successfully removed alias 'x'.".to_string(),
        }
    );
    let r = run_command(Commands::Remove { alias: "z".to_string() }, Ok(table(&[("x", "old")])), None);
    assert_eq!(r, Action::Fail(PintasError::AliasNotFound("z".to_string())));
}

#[test]
fn dispatch_run() {
    let cmd = Commands::Run { alias: "foo".to_string(), args: strings(&["a", "b"]), internal: true };
    let r = run_command(cmd, Ok(table(&[("foo", "echo $1-$2")])), None);
    assert_eq!(
        r,
        Action::Spawn(Invocation {
            program: "sh".to_string(),
            args: strings(&["-c", "echo $1-$2", "foo", "a", "b"]),
            internal: true,
            announce: None,
        })
    );
}

#[test]
fn table_round_trips_through_toml() {
    let config = table(&[("gs", "git status"), ("say", "echo \"$1\""), ("weird key", "ls -la")]);
    let mut inner = toml::Table::new();
    for a in config.aliases() {
        inner.insert(a.name.clone(), toml::Value::String(a.command.clone()));
    }
    let mut outer = toml::Table::new();
    outer.insert("aliases".to_string(), toml::Value::Table(inner));
    let text = toml::to_string(&outer).unwrap();
    let parsed: toml::Table = toml::from_str(&text).unwrap();
    let mut back = Config::new();
    match parsed.get("aliases") {
        Some(toml::Value::Table(t)) => {
            for (k, v) in t {
                back.insert(k.clone(), v.as_str().unwrap().to_string());
            }
        }
        _ => panic!("no alias table"),
    }
    assert_eq!(back, config);
}
