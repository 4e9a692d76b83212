use clap::{Arg, Command};
use gsim_rs::cli::Cli;

// The command line the program accepts: a positional source path and `-c <config>`.
fn command() -> Command {
    Command::new("gsim_rs")
        .version("0.1.0")
        .arg(Arg::new("source").help("Path of the input G-code file. If not provided, stdin is targeted instead."))
        .arg(
            Arg::new("config")
                .short('c')
                .help("Path of the config file. If not provided, default config is used instead."),
        )
}

fn cli_from(args: &[&str]) -> Cli {
    let matches = command().get_matches_from(args.iter().copied());
    Cli::new(
        matches.get_one::<String>("source").cloned(),
        matches.get_one::<String>("config").cloned(),
    )
}

#[test]
fn verify() {
    command().debug_assert();
}

#[test]
fn cli_arguments() {
    let cli = cli_from(&["gsim", "part.nc", "-c", "config.json"]);
    assert_eq!(cli.source.as_deref(), Some("part.nc"));
    assert_eq!(cli.config.as_deref(), Some("config.json"));
    assert!(!cli.reads_stdin());

    let cli = cli_from(&["gsim"]);
    assert_eq!(cli, Cli::new(None, None));
    assert!(cli.reads_stdin());
}
