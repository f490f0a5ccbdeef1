use siderunner::{parse, Cmd, Location, ParseError, SideCommand, SideFile, SideTest, Target};

fn raw(cmd: &str, target: &str, value: &str, targets: Vec<(&str, &str)>) -> SideCommand {
    SideCommand {
        id: "id".to_owned(),
        comment: "".to_owned(),
        cmd: cmd.to_owned(),
        target: target.to_owned(),
        value: value.to_owned(),
        targets: targets
            .into_iter()
            .map(|(a, b)| (a.to_owned(), b.to_owned()))
            .collect(),
    }
}

fn side_file(commands: Vec<SideCommand>) -> SideFile {
    SideFile {
        id: "bfc1bd56-39bd-4a0d-be2b-583ad75ac104".to_owned(),
        version: "2.0".to_owned(),
        name: "EXAMPLE_TEST".to_owned(),
        url: "https://BASE_URL.com/".to_owned(),
        tests: vec![SideTest {
            id: "5d61ce01-d373-4b14-a1a1-7474a4e192e5".to_owned(),
            name: "basic".to_owned(),
            commands,
        }],
    }
}

#[test]
fn _parse() {
    let side = side_file(vec![
        raw("open", "RELATIVE_URL/", "", vec![]),
        raw("pause", "5000", "", vec![]),
        raw(
            "executeScript",
            "return \"hello world\"",
            "variable_name",
            vec![],
        ),
    ]);
    let file = parse(&side);
    assert!(file.is_ok());
    let file = file.unwrap();
    assert_eq!(file.tests.len(), 1);
    assert_eq!(file.tests[0].commands.len(), 3);
    assert!(matches!(
        file.tests[0].commands[0].cmd,
        Cmd::Open(ref url) if url == "RELATIVE_URL/"
    ));
    assert!(matches!(
        file.tests[0].commands[1].cmd,
        Cmd::Pause(timeout) if timeout == 5000
    ));
    assert!(matches!(
        file.tests[0].commands[2].cmd,
        Cmd::Execute {ref script, ref var} if script == "return \"hello world\"" && var == &Some("variable_name".to_string())
    ));
}

#[test]
fn _parse_empty_commands() {
    let side = side_file(vec![
        raw("", "", "", vec![]),
        raw(
            "//open",
            "http://google.com",
            "",
            vec![
                ("id=content", "id"),
                ("css=#content", "css:finder"),
                ("xpath=//div[@id='content']", "xpath:attributes"),
                ("xpath=//div[4]/div[2]", "xpath:position"),
            ],
        ),
        raw("open", "http://google.com", "", vec![]),
    ]);
    let file = parse(&side).unwrap();
    assert_eq!(file.tests.len(), 1);
    let test = &file.tests[0];
    let commands = &test.commands;
    assert_eq!(commands.len(), 3);
    assert!(matches!(commands[0].cmd, Cmd::Custom { .. }));
    assert!(matches!(commands[1].cmd, Cmd::Custom { .. }));
    assert!(matches!(commands[2].cmd, Cmd::Open(..)));

    if let Cmd::Custom { targets, .. } = &commands[1].cmd {
        assert_eq!(targets.len(), 4);
        assert_eq!(
            targets[0],
            Target {
                location: Location::Id("content".to_string()),
                tag: Some("id".to_string())
            }
        );
        assert_eq!(
            targets[1],
            Target {
                location: Location::Css("#content".to_string()),
                tag: Some("finder".to_string())
            }
        );
        assert_eq!(
            targets[2],
            Target {
                location: Location::XPath("//div[@id='content']".to_string()),
                tag: Some("attributes".to_string())
            }
        );
        assert_eq!(
            targets[3],
            Target {
                location: Location::XPath("//div[4]/div[2]".to_string()),
                tag: Some("position".to_string())
            }
        );
    }
}

#[test]
fn test_comment_with_bad_targets_is_still_a_placeholder() {
    let side = side_file(vec![
        raw("//note", "x", "y", vec![("nonsense", "tag")]),
        raw("open", "http://google.com", "", vec![]),
    ]);
    let file = parse(&side).unwrap();
    assert_eq!(file.tests[0].commands.len(), 2);
    match &file.tests[0].commands[0].cmd {
        Cmd::Custom { targets, .. } => assert!(targets.is_empty()),
        _ => panic!("expected a placeholder"),
    }
    assert!(matches!(file.tests[0].commands[1].cmd, Cmd::Open(..)));
}

#[test]
fn test_parse_rejects_unknown_command() {
    let side = side_file(vec![raw("flyToTheMoon", "", "", vec![])]);
    assert!(matches!(
        parse(&side),
        Err(ParseError::ValidationError(_))
    ));
}

#[test]
fn test_parse_rejects_bad_locator() {
    let side = side_file(vec![raw("click", "nonsense", "", vec![])]);
    assert!(matches!(
        parse(&side),
        Err(ParseError::LocatorFormatError(_))
    ));
}

#[test]
fn test_parse_rejects_bad_timeout() {
    let side = side_file(vec![raw("pause", "soon", "", vec![])]);
    assert!(matches!(parse(&side), Err(ParseError::TypeError(_))));
}

#[test]
fn test_parse_timeout_over_range() {
    let side = side_file(vec![raw("pause", "18446744073709551616", "", vec![])]);
    assert!(matches!(parse(&side), Err(ParseError::TypeError(_))));
    let side = side_file(vec![raw("pause", "+5000", "", vec![])]);
    let file = parse(&side).unwrap();
    assert!(matches!(file.tests[0].commands[0].cmd, Cmd::Pause(5000)));
}

#[test]
fn test_parse_window_size() {
    let side = side_file(vec![raw("setWindowSize", "1916x1034", "", vec![])]);
    let file = parse(&side).unwrap();
    assert!(matches!(
        file.tests[0].commands[0].cmd,
        Cmd::SetWindowSize(1916, 1034)
    ));

    let bad = side_file(vec![raw("setWindowSize", "1916", "", vec![])]);
    assert!(matches!(parse(&bad), Err(ParseError::TypeError(_))));
    let bad = side_file(vec![raw("setWindowSize", "1x2x3", "", vec![])]);
    assert!(matches!(parse(&bad), Err(ParseError::TypeError(_))));
}

#[test]
fn test_parse_select_locators() {
    let side = side_file(vec![raw("select", "css=#choices", "label=Steam", vec![])]);
    let file = parse(&side).unwrap();
    assert!(matches!(
        &file.tests[0].commands[0].cmd,
        Cmd::Select { locator, .. } if matches!(locator, siderunner::SelectLocator::Label(l) if l == "Steam")
    ));
}
