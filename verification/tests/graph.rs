use siderunner::{build_nodes, Cmd, Command, Node, Transition};

fn blank_cmd(cmd: Cmd) -> Command {
    Command::new("".to_owned(), "".to_owned(), cmd)
}

#[test]
fn test_creating_run_list_basic() {
    let commands = vec![
        blank_cmd(Cmd::Open("".to_owned())),
        blank_cmd(Cmd::Echo("".to_owned())),
    ];
    let node = build_nodes(commands);
    assert_eq!(
        node,
        vec![
            Node::new(Cmd::Open("".to_owned()), 0, 0, Transition::Next),
            Node::new(Cmd::Echo("".to_owned()), 1, 0, Transition::Next)
        ]
    )
}

#[test]
fn test_creating_run_list_with_commeted_commands() {
    let commands = vec![
        blank_cmd(Cmd::Open("open".to_owned())),
        blank_cmd(Cmd::empty_custom()),
        blank_cmd(Cmd::empty_custom()),
        blank_cmd(Cmd::Echo("echo".to_owned())),
        blank_cmd(Cmd::empty_custom()),
        blank_cmd(Cmd::Echo("echo".to_owned())),
    ];
    let node = build_nodes(commands);
    assert_eq!(
        node,
        vec![
            Node::new(Cmd::Open("open".to_owned()), 0, 0, Transition::Next),
            Node::new(Cmd::Echo("echo".to_owned()), 3, 0, Transition::Next),
            Node::new(Cmd::Echo("echo".to_owned()), 5, 0, Transition::Next),
        ]
    )
}

#[test]
fn test_creating_run_list_with_commeted_command_and_while() {
    let commands = vec![
        blank_cmd(Cmd::While("...".to_owned())),
        blank_cmd(Cmd::Echo("echo".to_owned())),
        blank_cmd(Cmd::End),
        blank_cmd(Cmd::empty_custom()),
        blank_cmd(Cmd::Echo("echo".to_owned())),
    ];
    let node = build_nodes(commands);
    assert_eq!(
        node,
        vec![
            Node::new(
                Cmd::While("...".to_owned()),
                0,
                0,
                Transition::Conditional { next: 1, end: 4 }
            ),
            Node::new(Cmd::Echo("echo".to_owned()), 1, 1, Transition::Next),
            Node::new(Cmd::End, 2, 0, Transition::Move(0)),
            Node::new(Cmd::Echo("echo".to_owned()), 4, 0, Transition::Next),
        ]
    )
}

#[test]
fn test_creating_run_list_while_loop() {
    let commands = vec![
        blank_cmd(Cmd::Open("open".to_owned())),
        blank_cmd(Cmd::While("...".to_owned())),
        blank_cmd(Cmd::Echo("echo".to_owned())),
        blank_cmd(Cmd::End),
    ];
    let node = build_nodes(commands);
    assert_eq!(
        node,
        vec![
            Node::new(Cmd::Open("open".to_owned()), 0, 0, Transition::Next),
            Node::new(
                Cmd::While("...".to_owned()),
                1,
                0,
                Transition::Conditional { next: 2, end: 4 },
            ),
            Node::new(Cmd::Echo("echo".to_owned()), 2, 1, Transition::Next),
            Node::new(Cmd::End, 3, 0, Transition::Move(1)),
        ]
    )
}

#[test]
fn test_creating_run_list_if() {
    let commands = vec![
        blank_cmd(Cmd::Open("open".to_owned())),
        blank_cmd(Cmd::If("...".to_owned())),
        blank_cmd(Cmd::Echo("echo".to_owned())),
        blank_cmd(Cmd::End),
        blank_cmd(Cmd::Echo("echo".to_owned())),
    ];
    let node = build_nodes(commands);
    assert_eq!(
        node,
        vec![
            Node::new(Cmd::Open("open".to_owned()), 0, 0, Transition::Next),
            Node::new(
                Cmd::If("...".to_owned()),
                1,
                0,
                Transition::Conditional { next: 2, end: 3 },
            ),
            Node::new(Cmd::Echo("echo".to_owned()), 2, 1, Transition::Next),
            Node::new(Cmd::End, 3, 0, Transition::Next),
            Node::new(Cmd::Echo("echo".to_owned()), 4, 0, Transition::Next),
        ]
    )
}

#[test]
fn test_creating_run_list_if_complex_empty_conditions() {
    let commands = vec![
        blank_cmd(Cmd::Open("open".to_owned())),
        blank_cmd(Cmd::If("...".to_owned())),
        blank_cmd(Cmd::ElseIf("...".to_owned())),
        blank_cmd(Cmd::Else),
        blank_cmd(Cmd::End),
    ];
    let node = build_nodes(commands);
    assert_eq!(
        node,
        vec![
            Node::new(Cmd::Open("open".to_owned()), 0, 0, Transition::Next),
            Node::new(
                Cmd::If("...".to_owned()),
                1,
                0,
                Transition::Conditional { next: 4, end: 2 },
            ),
            Node::new(
                Cmd::ElseIf("...".to_owned()),
                2,
                0,
                Transition::Conditional { next: 4, end: 3 },
            ),
            Node::new(Cmd::Else, 3, 0, Transition::Next),
            Node::new(Cmd::End, 4, 0, Transition::Next),
        ]
    )
}

#[test]
fn test_creating_run_list_if_complex() {
    let commands = vec![
        blank_cmd(Cmd::Open("open".to_owned())),
        blank_cmd(Cmd::If("...".to_owned())),
        blank_cmd(Cmd::Echo("echo".to_owned())),
        blank_cmd(Cmd::ElseIf("...".to_owned())),
        blank_cmd(Cmd::Echo("echo".to_owned())),
        blank_cmd(Cmd::Echo("echo".to_owned())),
        blank_cmd(Cmd::Else),
        blank_cmd(Cmd::Echo("echo".to_owned())),
        blank_cmd(Cmd::End),
    ];
    let node = build_nodes(commands);
    assert_eq!(
        node,
        vec![
            Node::new(Cmd::Open("open".to_owned()), 0, 0, Transition::Next),
            Node::new(
                Cmd::If("...".to_owned()),
                1,
                0,
                Transition::Conditional { next: 2, end: 3 },
            ),
            Node::new(Cmd::Echo("echo".to_owned()), 2, 1, Transition::Move(8)),
            Node::new(
                Cmd::ElseIf("...".to_owned()),
                3,
                0,
                Transition::Conditional { next: 4, end: 6 },
            ),
            Node::new(Cmd::Echo("echo".to_owned()), 4, 1, Transition::Next),
            Node::new(Cmd::Echo("echo".to_owned()), 5, 1, Transition::Move(8)),
            Node::new(Cmd::Else, 6, 0, Transition::Next),
            Node::new(Cmd::Echo("echo".to_owned()), 7, 1, Transition::Next),
            Node::new(Cmd::End, 8, 0, Transition::Next)
        ]
    )
}

#[test]
fn test_creating_run_list_if_complex_without_else() {
    let commands = vec![
        blank_cmd(Cmd::Open("open".to_owned())),
        blank_cmd(Cmd::If("...".to_owned())),
        blank_cmd(Cmd::Echo("echo".to_owned())),
        blank_cmd(Cmd::ElseIf("...".to_owned())),
        blank_cmd(Cmd::Echo("echo".to_owned())),
        blank_cmd(Cmd::End),
    ];
    let node = build_nodes(commands);

    assert_eq!(
        node,
        vec![
            Node::new(Cmd::Open("open".to_owned()), 0, 0, Transition::Next),
            Node::new(
                Cmd::If("...".to_owned()),
                1,
                0,
                Transition::Conditional { next: 2, end: 3 },
            ),
            Node::new(Cmd::Echo("echo".to_owned()), 2, 1, Transition::Move(5)),
            Node::new(
                Cmd::ElseIf("...".to_owned()),
                3,
                0,
                Transition::Conditional { next: 4, end: 5 },
            ),
            Node::new(Cmd::Echo("echo".to_owned()), 4, 1, Transition::Next),
            Node::new(Cmd::End, 5, 0, Transition::Next),
        ]
    )
}

#[test]
fn test_creating_run_list_multi_while() {
    let commands = vec![
        blank_cmd(Cmd::Open("open".to_owned())),
        blank_cmd(Cmd::While("...".to_owned())),
        blank_cmd(Cmd::While("...".to_owned())),
        blank_cmd(Cmd::Echo("echo".to_owned())),
        blank_cmd(Cmd::End),
        blank_cmd(Cmd::End),
    ];
    let node = build_nodes(commands);
    assert_eq!(
        node,
        vec![
            Node::new(Cmd::Open("open".to_owned()), 0, 0, Transition::Next),
            Node::new(
                Cmd::While("...".to_owned()),
                1,
                0,
                Transition::Conditional { next: 2, end: 6 },
            ),
            Node::new(
                Cmd::While("...".to_owned()),
                2,
                1,
                Transition::Conditional { next: 3, end: 5 },
            ),
            Node::new(Cmd::Echo("echo".to_owned()), 3, 2, Transition::Next),
            Node::new(Cmd::End, 4, 1, Transition::Move(2)),
            Node::new(Cmd::End, 5, 0, Transition::Move(1)),
        ]
    )
}

#[test]
fn test_creating_run_list_multi_while_with_if() {
    let commands = vec![
        blank_cmd(Cmd::Open("open".to_owned())),
        blank_cmd(Cmd::While("...".to_owned())),
        blank_cmd(Cmd::While("...".to_owned())),
        blank_cmd(Cmd::Echo("echo".to_owned())),
        blank_cmd(Cmd::If("...".to_owned())),
        blank_cmd(Cmd::Else),
        blank_cmd(Cmd::End),
        blank_cmd(Cmd::End),
        blank_cmd(Cmd::End),
    ];
    let node = build_nodes(commands);
    assert_eq!(
        node,
        vec![
            Node::new(Cmd::Open("open".to_owned()), 0, 0, Transition::Next),
            Node::new(
                Cmd::While("...".to_owned()),
                1,
                0,
                Transition::Conditional { next: 2, end: 9 },
            ),
            Node::new(
                Cmd::While("...".to_owned()),
                2,
                1,
                Transition::Conditional { next: 3, end: 8 },
            ),
            Node::new(Cmd::Echo("echo".to_owned()), 3, 2, Transition::Next),
            Node::new(
                Cmd::If("...".to_owned()),
                4,
                2,
                Transition::Conditional { next: 6, end: 5 },
            ),
            Node::new(Cmd::Else, 5, 2, Transition::Next),
            Node::new(Cmd::End, 6, 2, Transition::Next),
            Node::new(Cmd::End, 7, 1, Transition::Move(2)),
            Node::new(Cmd::End, 8, 0, Transition::Move(1)),
        ]
    )
}

#[test]
fn test_creating_run_list_while_with_if() {
    let commands = vec![
        blank_cmd(Cmd::Open("open".to_owned())),
        blank_cmd(Cmd::While("...".to_owned())),
        blank_cmd(Cmd::Echo("echo".to_owned())),
        blank_cmd(Cmd::If("...".to_owned())),
        blank_cmd(Cmd::Else),
        blank_cmd(Cmd::End),
        blank_cmd(Cmd::End),
    ];
    let node = build_nodes(commands);
    assert_eq!(
        node,
        vec![
            Node::new(Cmd::Open("open".to_owned()), 0, 0, Transition::Next),
            Node::new(
                Cmd::While("...".to_owned()),
                1,
                0,
                Transition::Conditional { next: 2, end: 7 },
            ),
            Node::new(Cmd::Echo("echo".to_owned()), 2, 1, Transition::Next),
            Node::new(
                Cmd::If("...".to_owned()),
                3,
                1,
                Transition::Conditional { next: 5, end: 4 },
            ),
            Node::new(Cmd::Else, 4, 1, Transition::Next),
            Node::new(Cmd::End, 5, 1, Transition::Next),
            Node::new(Cmd::End, 6, 0, Transition::Move(1)),
        ]
    )
}

#[test]
fn test_creating_run_list_repeat_if() {
    let commands = vec![
        blank_cmd(Cmd::Open("open".to_owned())),
        blank_cmd(Cmd::Do),
        blank_cmd(Cmd::Echo("echo".to_owned())),
        blank_cmd(Cmd::RepeatIf("...".to_owned())),
    ];
    let node = build_nodes(commands);
    assert_eq!(
        node,
        vec![
            Node::new(Cmd::Open("open".to_owned()), 0, 0, Transition::Next),
            Node::new(Cmd::Do, 1, 0, Transition::Next),
            Node::new(Cmd::Echo("echo".to_owned()), 2, 1, Transition::Next),
            Node::new(
                Cmd::RepeatIf("...".to_owned()),
                3,
                0,
                Transition::Conditional { next: 1, end: 4 },
            ),
        ]
    )
}

#[test]
fn test_creating_run_list_repeat_if_with_if() {
    let commands = vec![
        blank_cmd(Cmd::Open("open".to_owned())),
        blank_cmd(Cmd::Do),
        blank_cmd(Cmd::If("".to_owned())),
        blank_cmd(Cmd::ElseIf("".to_owned())),
        blank_cmd(Cmd::Echo("echo".to_owned())),
        blank_cmd(Cmd::Else),
        blank_cmd(Cmd::End),
        blank_cmd(Cmd::RepeatIf("...".to_owned())),
    ];
    let node = build_nodes(commands);
    assert_eq!(
        node,
        vec![
            Node::new(Cmd::Open("open".to_owned()), 0, 0, Transition::Next),
            Node::new(Cmd::Do, 1, 0, Transition::Next),
            Node::new(
                Cmd::If("".to_owned()),
                2,
                1,
                Transition::Conditional { next: 6, end: 3 }
            ),
            Node::new(
                Cmd::ElseIf("".to_owned()),
                3,
                1,
                Transition::Conditional { next: 4, end: 5 },
            ),
            Node::new(Cmd::Echo("echo".to_owned()), 4, 2, Transition::Move(6)),
            Node::new(Cmd::Else, 5, 1, Transition::Next),
            Node::new(Cmd::End, 6, 1, Transition::Next),
            Node::new(
                Cmd::RepeatIf("...".to_owned()),
                7,
                0,
                Transition::Conditional { next: 1, end: 8 },
            ),
        ]
    )
}

#[test]
fn test_creating_run_list_repeat_if_and_while_and_if() {
    let commands = vec![
        blank_cmd(Cmd::Open("".to_owned())),
        blank_cmd(Cmd::Do),
        blank_cmd(Cmd::While("".to_owned())),
        blank_cmd(Cmd::If("".to_owned())),
        blank_cmd(Cmd::ElseIf("".to_owned())),
        blank_cmd(Cmd::Echo("".to_owned())),
        blank_cmd(Cmd::Else),
        blank_cmd(Cmd::End),
        blank_cmd(Cmd::End),
        blank_cmd(Cmd::RepeatIf("".to_owned())),
    ];
    let node = build_nodes(commands);
    assert_eq!(
        node,
        vec![
            Node::new(Cmd::Open("".to_owned()), 0, 0, Transition::Next),
            Node::new(Cmd::Do, 1, 0, Transition::Next),
            Node::new(
                Cmd::While("".to_owned()),
                2,
                1,
                Transition::Conditional { next: 3, end: 9 },
            ),
            Node::new(
                Cmd::If("".to_owned()),
                3,
                2,
                Transition::Conditional { next: 7, end: 4 },
            ),
            Node::new(
                Cmd::ElseIf("".to_owned()),
                4,
                2,
                Transition::Conditional { next: 5, end: 6 },
            ),
            Node::new(Cmd::Echo("".to_owned()), 5, 3, Transition::Move(7)),
            Node::new(Cmd::Else, 6, 2, Transition::Next),
            Node::new(Cmd::End, 7, 2, Transition::Next),
            Node::new(Cmd::End, 8, 1, Transition::Move(2)),
            Node::new(
                Cmd::RepeatIf("".to_owned()),
                9,
                0,
                Transition::Conditional { next: 1, end: 10 },
            ),
        ]
    )
}

#[test]
fn test_creating_run_list_with_while_and_repeat_if() {
    let commands = vec![
        blank_cmd(Cmd::While("..".to_owned())),
        blank_cmd(Cmd::Do),
        blank_cmd(Cmd::RepeatIf("...".to_owned())),
        blank_cmd(Cmd::End),
    ];
    let node = build_nodes(commands);
    assert_eq!(
        node,
        vec![
            Node::new(
                Cmd::While("..".to_owned()),
                0,
                0,
                Transition::Conditional { next: 1, end: 4 },
            ),
            Node::new(Cmd::Do, 1, 1, Transition::Next),
            Node::new(
                Cmd::RepeatIf("...".to_owned()),
                2,
                1,
                Transition::Conditional { next: 1, end: 3 },
            ),
            Node::new(Cmd::End, 3, 0, Transition::Move(0)),
        ]
    )
}

#[test]
fn test_creating_run_list_with_2_whiles_and_2_ifs() {
    let commands = vec![
        blank_cmd(Cmd::While(String::new())),
        blank_cmd(Cmd::If(String::new())),
        blank_cmd(Cmd::End),
        blank_cmd(Cmd::End),
        blank_cmd(Cmd::While(String::new())),
        blank_cmd(Cmd::End),
        blank_cmd(Cmd::While(String::new())),
        blank_cmd(Cmd::If(String::new())),
        blank_cmd(Cmd::Else),
        blank_cmd(Cmd::End),
        blank_cmd(Cmd::End),
    ];
    let node = build_nodes(commands);
    assert_eq!(
        node,
        vec![
            Node::new(
                Cmd::While(String::new()),
                0,
                0,
                Transition::Conditional { next: 1, end: 4 },
            ),
            Node::new(
                Cmd::If(String::new()),
                1,
                1,
                Transition::Conditional { next: 2, end: 2 }
            ),
            Node::new(Cmd::End, 2, 1, Transition::Next),
            Node::new(Cmd::End, 3, 0, Transition::Move(0)),
            Node::new(
                Cmd::While(String::new()),
                4,
                0,
                Transition::Conditional { next: 5, end: 6 }
            ),
            Node::new(Cmd::End, 5, 0, Transition::Move(4)),
            Node::new(
                Cmd::While(String::new()),
                6,
                0,
                Transition::Conditional { next: 7, end: 11 }
            ),
            Node::new(
                Cmd::If(String::new()),
                7,
                1,
                Transition::Conditional { next: 9, end: 8 }
            ),
            Node::new(Cmd::Else, 8, 1, Transition::Next),
            Node::new(Cmd::End, 9, 1, Transition::Next),
            Node::new(Cmd::End, 10, 0, Transition::Move(6)),
        ]
    )
}
