use siderunner::{emit_variables, emit_variables_custom, ObjEntry, Value, VarStore};

fn store(pairs: Vec<(&str, Value)>) -> VarStore {
    let mut vars = VarStore::new();
    for (name, value) in pairs {
        vars.set(name.to_owned(), value);
    }
    vars
}

fn s(text: &str) -> Value {
    Value::Str(text.to_owned())
}

#[test]
fn test_emit_variables() {
    let vars = store(vec![
        ("hello", s("Hello")),
        ("world", s("World")),
        ("something", s("XXX")),
        ("hello_world", s("Hello World")),
    ]);

    assert_eq!("Hello", emit_variables("${hello}", &vars));
    assert_eq!("Hello World!", emit_variables("${hello} ${world}!", &vars));
    assert_eq!(
        "There are no vars here",
        emit_variables("There are no vars here", &vars)
    );

    assert_eq!("\"World\"", emit_variables("\"${world}\"", &vars));
    assert_eq!("World\" }", emit_variables("${world}\" }", &vars));
    assert_eq!("World\"}", emit_variables("${world}\"}", &vars));
    assert_eq!("World }", emit_variables("${world} }", &vars));
    assert_eq!("World}", emit_variables("${world}}", &vars));

    assert_eq!("Hello World", emit_variables("${hello_world}", &vars));
}

#[test]
fn test_emit_variables_in_template_strings() {
    let vars = store(vec![]);

    assert_eq!(
        "let bar = \"123\"; return `${bar} hello`",
        emit_variables("let bar = \"123\"; return `${bar} hello`", &vars)
    );

    let vars = store(vec![("bar", s("Hello"))]);

    assert_eq!(
        "let bar = \"123\"; return `Hello hello`",
        emit_variables("let bar = \"123\"; return `${bar} hello`", &vars)
    );
}

#[test]
fn test_emit_internal_variables_doesn_work() {
    let vars = store(vec![("something", s("XXX"))]);

    assert_eq!("${${something}}", emit_variables("${${something}}", &vars));
}

#[test]
fn test_emit_variables_types() {
    let vars = store(vec![("test", s("string"))]);
    assert_eq!("string", emit_variables("${test}", &vars));

    let vars = store(vec![("test", Value::Num(2))]);
    assert_eq!("2", emit_variables("${test}", &vars));

    let vars = store(vec![(
        "test",
        Value::Obj(vec![ObjEntry {
            key: "h3".to_owned(),
            val: Value::Num(3),
        }]),
    )]);
    assert_eq!("[object Object]", emit_variables("${test}", &vars));

    let vars = store(vec![("test", Value::Arr(vec![s("h4"), Value::Num(4)]))]);
    assert_eq!("h4,4", emit_variables("${test}", &vars));
}

#[test]
fn test_emit_unset_variable_stays_verbatim() {
    let vars = store(vec![]);
    assert_eq!("${unset}", emit_variables("${unset}", &vars));
}

#[test]
fn test_emit_for_script_reuses_argument_slots() {
    let (text, vars) = emit_variables_custom("${a} + ${a}");
    assert_eq!("arguments[0] + arguments[0]", text);
    assert_eq!(vars, vec!["a".to_owned()]);
}

#[test]
fn test_emit_for_script_orders_first_seen() {
    let (text, vars) = emit_variables_custom("${b}${a}${b}");
    assert_eq!("arguments[0]arguments[1]arguments[0]", text);
    assert_eq!(vars, vec!["b".to_owned(), "a".to_owned()]);
}

#[test]
fn test_emit_renders_null_and_bool() {
    let vars = store(vec![("n", Value::Null), ("b", Value::Bool(true))]);
    assert_eq!("", emit_variables("${n}", &vars));
    assert_eq!("true", emit_variables("${b}", &vars));
    let vars = store(vec![("m", Value::Num(-42))]);
    assert_eq!("-42", emit_variables("${m}", &vars));
}
