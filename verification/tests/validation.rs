use siderunner::{validate_conditions, Cmd, Command};

fn commands(cmds: Vec<Cmd>) -> Vec<Command> {
    cmds.into_iter().map(blank_cmd).collect()
}

fn blank_cmd(cmd: Cmd) -> Command {
    Command::new("".to_owned(), "".to_owned(), cmd)
}

#[test]
fn test_validation() {
    assert!(validate_conditions(&commands(vec![Cmd::While("...".to_owned()), Cmd::End])).is_ok());
    assert!(validate_conditions(&commands(vec![Cmd::If("...".to_owned()), Cmd::End])).is_ok());
    assert!(validate_conditions(&commands(vec![
        Cmd::If("...".to_owned()),
        Cmd::Else,
        Cmd::End
    ]))
    .is_ok());
    assert!(validate_conditions(&commands(vec![
        Cmd::If("...".to_owned()),
        Cmd::ElseIf("...".to_owned()),
        Cmd::Else,
        Cmd::End,
    ]))
    .is_ok());
    assert!(validate_conditions(&commands(vec![
        Cmd::If("...".to_owned()),
        Cmd::ElseIf("...".to_owned()),
        Cmd::ElseIf("...".to_owned()),
        Cmd::Else,
        Cmd::End,
    ]))
    .is_ok());
}

#[test]
fn test_validation_missed_end() {
    assert!(validate_conditions(&commands(vec![Cmd::While("...".to_owned())])).is_err());
    assert!(validate_conditions(&commands(vec![Cmd::If("...".to_owned())])).is_err());
    assert!(validate_conditions(&commands(vec![Cmd::If("...".to_owned()), Cmd::Else])).is_err());
    assert!(validate_conditions(&commands(vec![
        Cmd::If("...".to_owned()),
        Cmd::Else,
        Cmd::ElseIf("...".to_owned()),
    ]))
    .is_err());
    assert!(validate_conditions(&commands(vec![
        Cmd::If("...".to_owned()),
        Cmd::Else,
        Cmd::ElseIf("...".to_owned()),
        Cmd::ElseIf("...".to_owned()),
    ]))
    .is_err());
}

#[test]
fn test_validation_wrong_end() {
    assert!(validate_conditions(&commands(vec![Cmd::End])).is_err());
    assert!(validate_conditions(&commands(vec![
        Cmd::If("...".to_owned()),
        Cmd::End,
        Cmd::Else
    ]))
    .is_err());
    assert!(validate_conditions(&commands(vec![
        Cmd::If("...".to_owned()),
        Cmd::End,
        Cmd::Else,
        Cmd::ElseIf("...".to_owned()),
    ]))
    .is_err());
    assert!(validate_conditions(&commands(vec![
        Cmd::If("...".to_owned()),
        Cmd::Else,
        Cmd::End,
        Cmd::ElseIf("...".to_owned()),
    ]))
    .is_err());
}

#[test]
fn test_validation_missed_repeat_if() {
    assert!(validate_conditions(&commands(vec![
        Cmd::Open("".to_owned()),
        Cmd::Do,
        Cmd::Echo("".to_owned())
    ]))
    .is_err());
    assert!(validate_conditions(&commands(vec![
        Cmd::Open("".to_owned()),
        Cmd::Echo("".to_owned()),
        Cmd::RepeatIf("".to_owned()),
    ]))
    .is_err());
}

#[test]
fn test_validation_for_each() {
    assert!(validate_conditions(&commands(vec![
        Cmd::ForEach {
            iterator: String::new(),
            var: String::new()
        },
        Cmd::Echo(String::new()),
        Cmd::End,
    ]))
    .is_ok());

    assert!(validate_conditions(&commands(vec![Cmd::ForEach {
        iterator: String::new(),
        var: String::new()
    }]))
    .is_err());
}

#[test]
fn test_validation_times() {
    assert!(validate_conditions(&commands(vec![
        Cmd::Times(String::new()),
        Cmd::Echo(String::new()),
        Cmd::End,
    ]))
    .is_ok());

    assert!(validate_conditions(&commands(vec![Cmd::Times(String::new())])).is_err());
}

#[test]
fn test_validation_reports_position() {
    let err = validate_conditions(&commands(vec![
        Cmd::Open("".to_owned()),
        Cmd::Else,
        Cmd::End,
    ]))
    .unwrap_err();
    assert_eq!(err.index, 1);

    let err = validate_conditions(&commands(vec![Cmd::While("".to_owned())])).unwrap_err();
    assert_eq!(err.index, 1);
}
