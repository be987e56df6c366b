use asenix::cli::{AgentCommands, BountyCommands, Cli, CliErrorKind, Commands, DomainCommands, ProjectCommands, FilesCommands};

#[test]
fn cli_parses_up() {
    let cli = Cli::try_parse_from(&["asenix", "up"]).unwrap();
    assert!(matches!(cli.command, Commands::Up));
}

#[test]
fn cli_parses_down() {
    let cli = Cli::try_parse_from(&["asenix", "down"]).unwrap();
    assert!(matches!(cli.command, Commands::Down));
}

#[test]
fn cli_parses_status_default_hub() {
    let cli = Cli::try_parse_from(&["asenix", "status"]).unwrap();
    match cli.command {
        Commands::Status { hub } => assert_eq!(hub, "http://localhost:3000"),
        _ => panic!("wrong command"),
    }
}

#[test]
fn cli_parses_status_custom_hub() {
    let cli = Cli::try_parse_from(&["asenix", "status", "--hub", "http://prod:3000"]).unwrap();
    match cli.command {
        Commands::Status { hub } => assert_eq!(hub, "http://prod:3000"),
        _ => panic!("wrong command"),
    }
}

#[test]
fn cli_parses_agent_run_requires_project() {
    // --project is required; omitting it must fail
    assert!(Cli::try_parse_from(&["asenix", "agent", "run"]).is_err());
}

#[test]
fn cli_parses_agent_run_with_project() {
    let cli = Cli::try_parse_from(&["asenix", "agent", "run", "--project", "cifar10-resnet"]).unwrap();
    match cli.command {
        Commands::Agent { subcommand: AgentCommands::Run { project, n, .. } } => {
            assert_eq!(project, "cifar10-resnet");
            assert_eq!(n, 1); // default
        }
        _ => panic!("wrong command"),
    }
}

#[test]
fn cli_parses_agent_run_with_n() {
    let cli = Cli::try_parse_from(&["asenix", "agent", "run", "--project", "ml", "--n", "3"]).unwrap();
    match cli.command {
        Commands::Agent { subcommand: AgentCommands::Run { project, n, .. } } => {
            assert_eq!(project, "ml");
            assert_eq!(n, 3);
        }
        _ => panic!("wrong command"),
    }
}

#[test]
fn cli_parses_domain_install() {
    let cli = Cli::try_parse_from(&["asenix", "domain", "install", "/tmp/my-pack"]).unwrap();
    match cli.command {
        Commands::Domain { subcommand: DomainCommands::Install { path } } => assert_eq!(path, "/tmp/my-pack"),
        _ => panic!("wrong command"),
    }
}

#[test]
fn cli_parses_domain_list() {
    let cli = Cli::try_parse_from(&["asenix", "domain", "list"]).unwrap();
    assert!(matches!(cli.command, Commands::Domain { subcommand: DomainCommands::List }));
}

#[test]
fn cli_parses_agent_list() {
    let cli = Cli::try_parse_from(&["asenix", "agent", "list"]).unwrap();
    assert!(matches!(cli.command, Commands::Agent { subcommand: AgentCommands::List }));
}

#[test]
fn cli_parses_bounty_post() {
    let cli = Cli::try_parse_from(&["asenix", "bounty", "post", "--domain", "bio"]).unwrap();
    match cli.command {
        Commands::Bounty { subcommand: BountyCommands::Post { domain, .. } } => assert_eq!(domain, "bio"),
        _ => panic!("wrong command"),
    }
}

#[test]
fn cli_parses_bounty_list_with_domain() {
    let cli = Cli::try_parse_from(&["asenix", "bounty", "list", "--domain", "physics"]).unwrap();
    match cli.command {
        Commands::Bounty { subcommand: BountyCommands::List { domain, .. } } => {
            assert_eq!(domain.as_deref(), Some("physics"))
        }
        _ => panic!("wrong command"),
    }
}

#[test]
fn cli_parses_bounty_list_without_domain() {
    let cli = Cli::try_parse_from(&["asenix", "bounty", "list"]).unwrap();
    match cli.command {
        Commands::Bounty { subcommand: BountyCommands::List { domain, .. } } => assert!(domain.is_none()),
        _ => panic!("wrong command"),
    }
}

#[test]
fn cli_parses_queue() {
    let cli = Cli::try_parse_from(&["asenix", "queue"]).unwrap();
    assert!(matches!(cli.command, Commands::Queue { .. }));
}

#[test]
fn cli_parses_login() {
    let cli = Cli::try_parse_from(&["asenix", "login"]).unwrap();
    assert!(matches!(cli.command, Commands::Login { .. }));
}

#[test]
fn cli_parses_logs_with_n() {
    let cli = Cli::try_parse_from(&["asenix", "logs", "3"]).unwrap();
    match cli.command {
        Commands::Logs { n } => assert_eq!(n, Some(3)),
        _ => panic!("wrong command"),
    }
}

#[test]
fn cli_parses_logs_without_n() {
    let cli = Cli::try_parse_from(&["asenix", "logs"]).unwrap();
    match cli.command {
        Commands::Logs { n } => assert!(n.is_none()),
        _ => panic!("wrong command"),
    }
}

#[test]
fn cli_parses_reset() {
    let cli = Cli::try_parse_from(&["asenix", "reset"]).unwrap();
    assert!(matches!(cli.command, Commands::Reset { .. }));
}

#[test]
fn unknown_subcommand_fails() {
    assert!(Cli::try_parse_from(&["asenix", "frobulate"]).is_err());
}

#[test]
fn cli_domain_install_requires_path() {
    assert!(Cli::try_parse_from(&["asenix", "domain", "install"]).is_err());
}

// ── further cases of the grammar ──

#[test]
fn cli_hub_from_environment() {
    let cli = Cli::try_parse_from_env(&["asenix", "status"], Some("http://env:1")).unwrap();
    match cli.command {
        Commands::Status { hub } => assert_eq!(hub, "http://env:1"),
        _ => panic!("wrong command"),
    }
    let cli = Cli::try_parse_from_env(&["asenix", "status", "--hub=http://flag:2"], Some("http://env:1")).unwrap();
    match cli.command {
        Commands::Status { hub } => assert_eq!(hub, "http://flag:2"),
        _ => panic!("wrong command"),
    }
}

#[test]
fn cli_short_option_and_stop() {
    let cli = Cli::try_parse_from(&["asenix", "agent", "stop", "-n", "2", "--project", "p"]).unwrap();
    match cli.command {
        Commands::Agent { subcommand: AgentCommands::Stop { project, n } } => {
            assert_eq!(project.as_deref(), Some("p"));
            assert_eq!(n, Some(2));
        }
        _ => panic!("wrong command"),
    }
    let cli = Cli::try_parse_from(&["asenix", "agent", "run", "--project", "p", "-n4"]).unwrap();
    match cli.command {
        Commands::Agent { subcommand: AgentCommands::Run { n, .. } } => assert_eq!(n, 4),
        _ => panic!("wrong command"),
    }
}

#[test]
fn cli_error_kinds() {
    assert_eq!(Cli::try_parse_from(&["asenix"]).err(), Some(CliErrorKind::MissingSubcommand));
    assert_eq!(Cli::try_parse_from(&["asenix", "--help"]).err(), Some(CliErrorKind::DisplayHelp));
    assert_eq!(Cli::try_parse_from(&["asenix", "--version"]).err(), Some(CliErrorKind::DisplayVersion));
    assert_eq!(Cli::try_parse_from(&["asenix", "frobulate"]).err(), Some(CliErrorKind::InvalidSubcommand));
    assert_eq!(Cli::try_parse_from(&["asenix", "logs", "x"]).err(), Some(CliErrorKind::InvalidValue));
    assert_eq!(Cli::try_parse_from(&["asenix", "status", "--hub"]).err(), Some(CliErrorKind::InvalidValue));
    assert_eq!(
        Cli::try_parse_from(&["asenix", "status", "--hub", "a", "--hub", "b"]).err(),
        Some(CliErrorKind::ArgumentConflict)
    );
    assert_eq!(Cli::try_parse_from(&["asenix", "status", "--bogus"]).err(), Some(CliErrorKind::UnknownArgument));
    assert_eq!(Cli::try_parse_from(&["asenix", "down", "extra"]).err(), Some(CliErrorKind::UnknownArgument));
}

#[test]
fn cli_project_files_download() {
    let cli = Cli::try_parse_from(&[
        "asenix", "project", "files", "download", "slug1", "train.py", "--out", "/tmp/x",
    ])
    .unwrap();
    match cli.command {
        Commands::Project {
            subcommand: ProjectCommands::Files {
                subcommand: FilesCommands::Download { hub, slug, filename, out },
            },
        } => {
            assert_eq!(hub, "http://localhost:3000");
            assert_eq!(slug, "slug1");
            assert_eq!(filename, "train.py");
            assert_eq!(out.as_deref(), Some("/tmp/x"));
        }
        _ => panic!("wrong command"),
    }
}
