use suiup::router::{Command, Commands, UpdateCheckState};

fn invocation(command: Commands, disable_update_warnings: bool) -> Command {
    Command {
        command,
        github_token: None,
        disable_update_warnings,
    }
}

#[test]
fn verify_command() {
    // Every subcommand tag routes; the update check is owed for all of them
    // except self-update, and the token goes to the network-facing handlers.
    let all = [
        Commands::Default,
        Commands::Install,
        Commands::Remove,
        Commands::List,
        Commands::Self_,
        Commands::Show,
        Commands::Switch,
        Commands::Update,
        Commands::Which,
        Commands::Cleanup,
    ];
    for c in all {
        let is_self = c.is_self_update();
        assert_eq!(is_self, matches!(c, Commands::Self_));
        let cmd = invocation(c.clone(), false);
        assert_eq!(cmd.update_check_due(), !is_self);
        let takes = c.takes_github_token();
        assert_eq!(
            takes,
            matches!(
                c,
                Commands::Install
                    | Commands::Remove
                    | Commands::List
                    | Commands::Update
                    | Commands::Cleanup
            )
        );
    }
}

#[test]
fn update_check_fires_exactly_once() {
    let cmd = invocation(Commands::Install, false);
    let mut state = UpdateCheckState::new();
    assert!(state.request(&cmd));
    assert!(!state.request(&cmd));
    assert!(!state.request(&cmd));
}

#[test]
fn update_check_never_fires_for_self_update() {
    let cmd = invocation(Commands::Self_, false);
    let mut state = UpdateCheckState::new();
    assert!(!state.request(&cmd));
    assert!(!state.request(&cmd));
}

#[test]
fn update_check_never_fires_when_disabled() {
    let cmd = invocation(Commands::List, true);
    let mut state = UpdateCheckState::new();
    assert!(!state.request(&cmd));
}
