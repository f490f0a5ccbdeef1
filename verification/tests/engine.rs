use siderunner::{
    run_commands, Cmd, Command, Element, File, Location, Locator, Runner, RunnerErrorKind, Target,
    Test, Value, Webdriver,
};

/// A scripted driver double: it counts calls, remembers addresses, and
/// answers script calls from a prepared queue.
struct Mock {
    goto_urls: Vec<String>,
    clicks: usize,
    finds: usize,
    execs: usize,
    exec_results: Vec<Value>,
}

impl Mock {
    fn new(exec_results: Vec<Value>) -> Self {
        Mock {
            goto_urls: Vec::new(),
            clicks: 0,
            finds: 0,
            execs: 0,
            exec_results,
        }
    }

    fn next_exec(&mut self) -> Value {
        self.execs += 1;
        if self.exec_results.is_empty() {
            Value::Null
        } else {
            self.exec_results.remove(0)
        }
    }
}

struct MockElement;

impl Element for MockElement {
    fn attr(&mut self, _: &str) -> Result<Option<String>, RunnerErrorKind> {
        Ok(None)
    }
    fn prop(&mut self, _: &str) -> Result<Option<String>, RunnerErrorKind> {
        Ok(None)
    }
    fn text(&mut self) -> Result<String, RunnerErrorKind> {
        Ok(String::new())
    }
    fn html(&mut self, _: bool) -> Result<String, RunnerErrorKind> {
        Ok(String::new())
    }
    fn find(&mut self, _: Locator) -> Result<Self, RunnerErrorKind> {
        Ok(MockElement)
    }
    fn click(self) -> Result<(), RunnerErrorKind> {
        Ok(())
    }
    fn select_by_index(self, _: usize) -> Result<(), RunnerErrorKind> {
        Ok(())
    }
    fn select_by_value(self, _: &str) -> Result<(), RunnerErrorKind> {
        Ok(())
    }
    fn select_by_label(self, _: &str) -> Result<(), RunnerErrorKind> {
        Ok(())
    }
    fn send_keys(self, _: &str) -> Result<(), RunnerErrorKind> {
        Ok(())
    }
    fn is_selected(&mut self) -> Result<bool, RunnerErrorKind> {
        Ok(true)
    }
    fn is_present(&mut self) -> Result<bool, RunnerErrorKind> {
        Ok(true)
    }
    fn is_enabled(&mut self) -> Result<bool, RunnerErrorKind> {
        Ok(true)
    }
}

impl Webdriver for Mock {
    type Element = MockElement;

    fn goto(&mut self, url: &str) -> Result<(), RunnerErrorKind> {
        self.goto_urls.push(url.to_owned());
        Ok(())
    }
    fn find(&mut self, _: Locator) -> Result<MockElement, RunnerErrorKind> {
        self.finds += 1;
        Ok(MockElement)
    }
    fn find_all(&mut self, _: Locator) -> Result<Vec<MockElement>, RunnerErrorKind> {
        Ok(vec![MockElement])
    }
    fn current_url(&mut self) -> Result<String, RunnerErrorKind> {
        Ok("http://example.com".to_owned())
    }
    fn wait_for_visible(&mut self, _: Locator, _: u64) -> Result<(), RunnerErrorKind> {
        Ok(())
    }
    fn wait_for_not_visible(&mut self, _: Locator, _: u64) -> Result<(), RunnerErrorKind> {
        Ok(())
    }
    fn wait_for_present(&mut self, _: Locator, _: u64) -> Result<(), RunnerErrorKind> {
        Ok(())
    }
    fn wait_for_not_present(&mut self, _: Locator, _: u64) -> Result<(), RunnerErrorKind> {
        Ok(())
    }
    fn wait_for_editable(&mut self, _: Locator, _: u64) -> Result<(), RunnerErrorKind> {
        Ok(())
    }
    fn wait_for_not_editable(&mut self, _: Locator, _: u64) -> Result<(), RunnerErrorKind> {
        Ok(())
    }
    fn set_window_size(&mut self, _: u32, _: u32) -> Result<(), RunnerErrorKind> {
        Ok(())
    }
    fn execute(&mut self, _: &str, _: Vec<Value>) -> Result<Value, RunnerErrorKind> {
        Ok(self.next_exec())
    }
    fn execute_async(&mut self, _: &str, _: Vec<Value>) -> Result<Value, RunnerErrorKind> {
        Ok(self.next_exec())
    }
    fn close(&mut self) -> Result<(), RunnerErrorKind> {
        Ok(())
    }
    fn alert_text(&mut self) -> Result<String, RunnerErrorKind> {
        Ok(String::new())
    }
    fn alert_accept(&mut self) -> Result<(), RunnerErrorKind> {
        Ok(())
    }
    fn alert_dissmis(&mut self) -> Result<(), RunnerErrorKind> {
        Ok(())
    }
    fn double_click(&mut self, _: Locator) -> Result<(), RunnerErrorKind> {
        Ok(())
    }
    fn mouse_down(&mut self, _: Locator) -> Result<(), RunnerErrorKind> {
        Ok(())
    }
    fn mouse_up(&mut self, _: Locator) -> Result<(), RunnerErrorKind> {
        Ok(())
    }
    fn title(&mut self) -> Result<String, RunnerErrorKind> {
        Ok(String::new())
    }
    fn click_at(&mut self, _: Locator, _: (i32, i32)) -> Result<(), RunnerErrorKind> {
        Ok(())
    }
    fn double_click_at(&mut self, _: Locator, _: (i32, i32)) -> Result<(), RunnerErrorKind> {
        Ok(())
    }
    fn pause(&mut self, _: u64) {}
}

fn blank_cmd(cmd: Cmd) -> Command {
    Command::new("".to_owned(), "".to_owned(), cmd)
}

fn blank_file(commands: Vec<Cmd>) -> File {
    let commands = commands.into_iter().map(blank_cmd).collect();

    File {
        id: String::new(),
        name: String::new(),
        url: String::new(),
        version: String::new(),
        tests: vec![Test {
            id: String::new(),
            name: String::new(),
            commands,
        }],
    }
}

#[test]
fn test_run() {
    let file = blank_file(vec![
        Cmd::Open("http://example.com".to_owned()),
        Cmd::Click(Target::new(Location::Css("".to_owned()))),
    ]);
    let mut runner = Runner::new(Mock::new(vec![]));

    let res = runner.run(&file);
    assert!(res.is_ok());
    assert_eq!(runner.webdriver.goto_urls.len(), 1);
    assert_eq!(runner.webdriver.finds, 1);
}

#[test]
fn test_run_with_custom_command() {
    let file = blank_file(vec![
        Cmd::empty_custom(),
        Cmd::Open("http://example.com".to_owned()),
        Cmd::Click(Target::new(Location::Css("".to_owned()))),
    ]);
    let mut runner = Runner::new(Mock::new(vec![]));

    let res = runner.run(&file);
    assert!(res.is_ok());
    assert_eq!(runner.webdriver.goto_urls.len(), 1);
    assert_eq!(runner.webdriver.finds, 1);
}

#[test]
fn test_for_each() {
    let file = blank_file(vec![
        Cmd::Open("http://example.com".to_owned()),
        Cmd::ForEach {
            var: "element".to_string(),
            iterator: "array".to_string(),
        },
        Cmd::Echo("${element}".to_string()),
        Cmd::End,
    ]);
    let mut runner = Runner::new(Mock::new(vec![]));
    runner.save_value(
        "array".to_string(),
        Value::Arr(vec![
            Value::Str("E1".to_owned()),
            Value::Str("E2".to_owned()),
            Value::Str("E3".to_owned()),
        ]),
    );

    let res = runner.run(&file);
    assert!(res.is_ok());

    assert_eq!(runner.echoes().len(), 3);
    assert_eq!(runner.echoes()[0], "E1");
    assert_eq!(runner.echoes()[1], "E2");
    assert_eq!(runner.echoes()[2], "E3");
}

#[test]
fn test_for_each_over_string_characters() {
    let file = blank_file(vec![
        Cmd::ForEach {
            var: "c".to_string(),
            iterator: "word".to_string(),
        },
        Cmd::Echo("${c}".to_string()),
        Cmd::End,
    ]);
    let mut runner = Runner::new(Mock::new(vec![]));
    runner.save_value("word".to_string(), Value::Str("ab".to_owned()));

    let res = runner.run(&file);
    assert!(res.is_ok());

    assert_eq!(runner.echoes(), &vec!["a".to_owned(), "b".to_owned()]);
}

#[test]
fn test_times() {
    let file = blank_file(vec![
        Cmd::Open("http://example.com".to_string()),
        Cmd::Times("4".to_string()),
        Cmd::Echo("".to_string()),
        Cmd::End,
    ]);
    let mut runner = Runner::new(Mock::new(vec![]));

    let res = runner.run(&file);
    assert!(res.is_ok());

    assert_eq!(runner.echoes().len(), 4);
}

#[test]
fn test_times_with_var() {
    let file = blank_file(vec![
        Cmd::Open("http://example.com".to_string()),
        Cmd::Times("${N}".to_string()),
        Cmd::Echo("".to_string()),
        Cmd::End,
    ]);
    let mut runner = Runner::new(Mock::new(vec![]));
    runner.save_value("N".to_string(), Value::Num(4));

    let res = runner.run(&file);
    assert!(res.is_ok());

    assert_eq!(runner.echoes().len(), 4);
}

#[test]
fn test_open_relative_url() {
    let file = File::new(
        "".into(),
        "".into(),
        "http://example.com".into(),
        "".into(),
        vec![Test {
            id: String::new(),
            name: String::new(),
            commands: vec![Command::new(
                "".to_owned(),
                "".to_owned(),
                Cmd::Open("/index.html".to_owned()),
            )],
        }],
    );

    let mut runner = Runner::new(Mock::new(vec![]));
    runner.run(&file).unwrap();

    assert_eq!(
        runner.webdriver.goto_urls,
        vec!["http://example.com/index.html".to_owned()]
    );
}

#[test]
fn test_while_runs_body_once_per_true() {
    let file = blank_file(vec![
        Cmd::Open("http://x".to_owned()),
        Cmd::While("cond".to_owned()),
        Cmd::Echo("hi".to_owned()),
        Cmd::End,
    ]);
    let mut runner = Runner::new(Mock::new(vec![Value::Bool(true), Value::Bool(false)]));

    let res = runner.run(&file);
    assert!(res.is_ok());

    assert_eq!(runner.webdriver.goto_urls, vec!["http://x/".to_owned()]);
    assert_eq!(runner.echoes(), &vec!["hi".to_owned()]);
}

#[test]
fn test_while_runs_body_k_times() {
    let file = blank_file(vec![
        Cmd::While("cond".to_owned()),
        Cmd::Echo("tick".to_owned()),
        Cmd::End,
        Cmd::Echo("done".to_owned()),
    ]);
    let conds = vec![
        Value::Bool(true),
        Value::Bool(true),
        Value::Bool(true),
        Value::Bool(false),
    ];
    let mut runner = Runner::new(Mock::new(conds));

    let res = runner.run(&file);
    assert!(res.is_ok());

    assert_eq!(
        runner.echoes(),
        &vec![
            "tick".to_owned(),
            "tick".to_owned(),
            "tick".to_owned(),
            "done".to_owned()
        ]
    );
}

#[test]
fn test_if_chain_runs_exactly_one_branch() {
    let chain = |c1: &str, c2: &str| {
        vec![
            Cmd::If(c1.to_owned()),
            Cmd::Echo("first".to_owned()),
            Cmd::ElseIf(c2.to_owned()),
            Cmd::Echo("second".to_owned()),
            Cmd::Else,
            Cmd::Echo("third".to_owned()),
            Cmd::End,
            Cmd::Echo("after".to_owned()),
        ]
    };

    let mut runner = Runner::new(Mock::new(vec![Value::Bool(true)]));
    runner.run(&blank_file(chain("a", "b"))).unwrap();
    assert_eq!(
        runner.echoes(),
        &vec!["first".to_owned(), "after".to_owned()]
    );

    let mut runner = Runner::new(Mock::new(vec![Value::Bool(false), Value::Bool(true)]));
    runner.run(&blank_file(chain("a", "b"))).unwrap();
    assert_eq!(
        runner.echoes(),
        &vec!["second".to_owned(), "after".to_owned()]
    );

    let mut runner = Runner::new(Mock::new(vec![Value::Bool(false), Value::Bool(false)]));
    runner.run(&blank_file(chain("a", "b"))).unwrap();
    assert_eq!(
        runner.echoes(),
        &vec!["third".to_owned(), "after".to_owned()]
    );
}

#[test]
fn test_do_repeat_if() {
    let file = blank_file(vec![
        Cmd::Do,
        Cmd::Echo("lap".to_owned()),
        Cmd::RepeatIf("more".to_owned()),
    ]);
    let mut runner = Runner::new(Mock::new(vec![Value::Bool(true), Value::Bool(false)]));
    runner.run(&file).unwrap();
    assert_eq!(runner.echoes(), &vec!["lap".to_owned(), "lap".to_owned()]);
}

#[test]
fn test_condition_must_be_boolean() {
    let file = blank_file(vec![Cmd::While("cond".to_owned()), Cmd::End]);
    let mut runner = Runner::new(Mock::new(vec![Value::Str("yes".to_owned())]));
    let err = runner.run(&file).unwrap_err();
    assert!(matches!(err.kind, RunnerErrorKind::MismatchedType(_)));
}

#[test]
fn test_invalid_structure_reports_before_running() {
    let file = blank_file(vec![
        Cmd::Open("http://x".to_owned()),
        Cmd::While("cond".to_owned()),
    ]);
    let mut runner = Runner::new(Mock::new(vec![]));
    let err = runner.run(&file).unwrap_err();
    assert!(matches!(
        err.kind,
        RunnerErrorKind::BranchValidationError(_)
    ));
    assert_eq!(err.index, 2);
    assert!(runner.webdriver.goto_urls.is_empty());
}

#[test]
fn test_store_and_assert() {
    let file = blank_file(vec![
        Cmd::Store {
            var: "greeting".to_owned(),
            value: "hello".to_owned(),
        },
        Cmd::Assert {
            var: "greeting".to_owned(),
            value: "hello".to_owned(),
        },
    ]);
    let mut runner = Runner::new(Mock::new(vec![]));
    assert!(runner.run(&file).is_ok());

    let failing = blank_file(vec![Cmd::Assert {
        var: "missing".to_owned(),
        value: "there".to_owned(),
    }]);
    let err = runner.run(&failing).unwrap_err();
    match err.kind {
        RunnerErrorKind::AssertFailed { lhs, rhs } => {
            assert_eq!(lhs, "undefined");
            assert_eq!(rhs, "there");
        }
        _ => panic!("expected a failed assertion"),
    }
}

#[test]
fn test_wait_expiry_reports_timeout() {
    struct NeverPresent;
    struct NoElement;
    impl Element for NoElement {
        fn attr(&mut self, _: &str) -> Result<Option<String>, RunnerErrorKind> {
            Ok(None)
        }
        fn prop(&mut self, _: &str) -> Result<Option<String>, RunnerErrorKind> {
            Ok(None)
        }
        fn text(&mut self) -> Result<String, RunnerErrorKind> {
            Ok(String::new())
        }
        fn html(&mut self, _: bool) -> Result<String, RunnerErrorKind> {
            Ok(String::new())
        }
        fn find(&mut self, _: Locator) -> Result<Self, RunnerErrorKind> {
            Ok(NoElement)
        }
        fn click(self) -> Result<(), RunnerErrorKind> {
            Ok(())
        }
        fn select_by_index(self, _: usize) -> Result<(), RunnerErrorKind> {
            Ok(())
        }
        fn select_by_value(self, _: &str) -> Result<(), RunnerErrorKind> {
            Ok(())
        }
        fn select_by_label(self, _: &str) -> Result<(), RunnerErrorKind> {
            Ok(())
        }
        fn send_keys(self, _: &str) -> Result<(), RunnerErrorKind> {
            Ok(())
        }
        fn is_selected(&mut self) -> Result<bool, RunnerErrorKind> {
            Ok(false)
        }
        fn is_present(&mut self) -> Result<bool, RunnerErrorKind> {
            Ok(false)
        }
        fn is_enabled(&mut self) -> Result<bool, RunnerErrorKind> {
            Ok(false)
        }
    }
    impl Webdriver for NeverPresent {
        type Element = NoElement;
        fn goto(&mut self, _: &str) -> Result<(), RunnerErrorKind> {
            Ok(())
        }
        fn find(&mut self, _: Locator) -> Result<NoElement, RunnerErrorKind> {
            Ok(NoElement)
        }
        fn find_all(&mut self, _: Locator) -> Result<Vec<NoElement>, RunnerErrorKind> {
            Ok(vec![])
        }
        fn current_url(&mut self) -> Result<String, RunnerErrorKind> {
            Ok(String::new())
        }
        fn wait_for_visible(&mut self, _: Locator, _: u64) -> Result<(), RunnerErrorKind> {
            Ok(())
        }
        fn wait_for_not_visible(&mut self, _: Locator, _: u64) -> Result<(), RunnerErrorKind> {
            Ok(())
        }
        fn wait_for_present(&mut self, _: Locator, _: u64) -> Result<(), RunnerErrorKind> {
            Err(RunnerErrorKind::WebdriverError("deadline".to_owned()))
        }
        fn wait_for_not_present(&mut self, _: Locator, _: u64) -> Result<(), RunnerErrorKind> {
            Ok(())
        }
        fn wait_for_editable(&mut self, _: Locator, _: u64) -> Result<(), RunnerErrorKind> {
            Ok(())
        }
        fn wait_for_not_editable(&mut self, _: Locator, _: u64) -> Result<(), RunnerErrorKind> {
            Ok(())
        }
        fn set_window_size(&mut self, _: u32, _: u32) -> Result<(), RunnerErrorKind> {
            Ok(())
        }
        fn execute(&mut self, _: &str, _: Vec<Value>) -> Result<Value, RunnerErrorKind> {
            Ok(Value::Null)
        }
        fn execute_async(&mut self, _: &str, _: Vec<Value>) -> Result<Value, RunnerErrorKind> {
            Ok(Value::Null)
        }
        fn close(&mut self) -> Result<(), RunnerErrorKind> {
            Ok(())
        }
        fn alert_text(&mut self) -> Result<String, RunnerErrorKind> {
            Ok(String::new())
        }
        fn alert_accept(&mut self) -> Result<(), RunnerErrorKind> {
            Ok(())
        }
        fn alert_dissmis(&mut self) -> Result<(), RunnerErrorKind> {
            Ok(())
        }
        fn double_click(&mut self, _: Locator) -> Result<(), RunnerErrorKind> {
            Ok(())
        }
        fn mouse_down(&mut self, _: Locator) -> Result<(), RunnerErrorKind> {
            Ok(())
        }
        fn mouse_up(&mut self, _: Locator) -> Result<(), RunnerErrorKind> {
            Ok(())
        }
        fn title(&mut self) -> Result<String, RunnerErrorKind> {
            Ok(String::new())
        }
        fn click_at(&mut self, _: Locator, _: (i32, i32)) -> Result<(), RunnerErrorKind> {
            Ok(())
        }
        fn double_click_at(&mut self, _: Locator, _: (i32, i32)) -> Result<(), RunnerErrorKind> {
            Ok(())
        }
        fn pause(&mut self, _: u64) {}
    }

    let file = blank_file(vec![Cmd::WaitForElementPresent {
        target: Target::new(Location::Css("#x".to_owned())),
        timeout: 5,
    }]);
    let mut runner = Runner::new(NeverPresent);
    let err = runner.run(&file).unwrap_err();
    assert!(matches!(err.kind, RunnerErrorKind::Timeout(_)));
}

#[test]
fn test_run_commands_directly() {
    let commands: Vec<Command> = vec![
        Cmd::Store {
            var: "greeting".to_owned(),
            value: "hello".to_owned(),
        },
        Cmd::Echo("${greeting}".to_owned()),
    ]
    .into_iter()
    .map(blank_cmd)
    .collect();
    let mut runner = Runner::new(Mock::new(vec![]));
    assert!(run_commands(&mut runner, commands, "").is_ok());
    assert_eq!(runner.echoes(), &vec!["hello".to_owned()]);

    let unbalanced: Vec<Command> = vec![Cmd::End].into_iter().map(blank_cmd).collect();
    let err = run_commands(&mut runner, unbalanced, "").unwrap_err();
    assert!(matches!(err.kind, RunnerErrorKind::BranchValidationError(_)));
    assert_eq!(err.index, 0);
    assert!(err.test.is_none());
    assert_eq!(runner.echoes(), &vec!["hello".to_owned()]);
}

#[test]
fn test_open_bad_url_reports_url_error() {
    let file = blank_file(vec![Cmd::Open("/relative".to_owned())]);
    let mut runner = Runner::new(Mock::new(vec![]));
    let err = runner.run(&file).unwrap_err();
    assert!(matches!(err.kind, RunnerErrorKind::Url(_)));
    assert_eq!(err.index, 0);
}
