use packager::{
    command_from_doc, config_from_doc, define_items_from_doc, substitute_document, Command, Config,
    DefineItem, Doc, LoadError, Replace, Run,
};

fn text(s: &str) -> Doc {
    Doc::Text(s.to_string())
}

fn map(entries: Vec<(&str, Doc)>) -> Doc {
    Doc::Mapping(entries.into_iter().map(|(k, v)| (k.to_string(), v)).collect())
}

fn copy_entry(kind: &str) -> Doc {
    map(vec![
        ("type", text(kind)),
        ("source", text("src")),
        ("destination", text("out")),
        ("gitignore_path", text(".packignore")),
        ("use_gitignore", Doc::Bool(true)),
    ])
}

fn run_entry(command: &str) -> Doc {
    map(vec![("type", text("run")), ("command", text(command))])
}

fn define(key: &str, value: &str) -> Doc {
    map(vec![("key", text(key)), ("value", text(value))])
}

fn expected_copy() -> Command {
    Command::Copy(packager::config::Copy {
        source: "src".to_string(),
        destination: "out".to_string(),
        gitignore_path: ".packignore".to_string(),
        use_gitignore: true,
    })
}

#[test]
fn decodes_each_command_kind() {
    assert_eq!(command_from_doc(&copy_entry("copy")), Some(expected_copy()));
    assert_eq!(command_from_doc(&copy_entry("Copy")), Some(expected_copy()));
    let replace = map(vec![
        ("type", text("replace")),
        ("source", text("*.txt")),
        ("regex", text("a(b)")),
        ("replacement", text("$1")),
        ("comment", text("ignored")),
    ]);
    assert_eq!(
        command_from_doc(&replace),
        Some(Command::Replace(Replace {
            source: "*.txt".to_string(),
            regex: "a(b)".to_string(),
            replacement: "$1".to_string(),
        }))
    );
    assert_eq!(
        command_from_doc(&run_entry("echo hi")),
        Some(Command::Run(Run { command: "echo hi".to_string() }))
    );
}

#[test]
fn rejects_ill_shaped_commands() {
    // no kind
    assert_eq!(command_from_doc(&map(vec![("command", text("ls"))])), None);
    // unknown kind
    assert_eq!(command_from_doc(&map(vec![("type", text("move")), ("command", text("ls"))])), None);
    // missing field of its kind
    assert_eq!(command_from_doc(&map(vec![("type", text("run"))])), None);
    // a field of the wrong type
    let wrong = map(vec![
        ("type", text("copy")),
        ("source", text("src")),
        ("destination", text("out")),
        ("gitignore_path", text(".packignore")),
        ("use_gitignore", text("yes")),
    ]);
    assert_eq!(command_from_doc(&wrong), None);
    // not a mapping
    assert_eq!(command_from_doc(&text("run")), None);
}

#[test]
fn decodes_a_configuration() {
    let doc = map(vec![
        ("define_items", Doc::List(vec![define("A", "1"), define("B", "2")])),
        ("command", Doc::List(vec![copy_entry("copy"), run_entry("make")])),
    ]);
    let config = config_from_doc(&doc).unwrap();
    assert_eq!(
        config,
        Config {
            define_items: vec![
                DefineItem { key: "A".to_string(), value: "1".to_string() },
                DefineItem { key: "B".to_string(), value: "2".to_string() },
            ],
            command: vec![expected_copy(), Command::Run(Run { command: "make".to_string() })],
        }
    );
    assert_eq!(define_items_from_doc(&doc).unwrap(), config.define_items);
}

#[test]
fn reports_the_first_ill_shaped_command() {
    let doc = map(vec![
        ("define_items", Doc::List(vec![])),
        (
            "command",
            Doc::List(vec![run_entry("a"), map(vec![("type", text("run"))]), text("x")]),
        ),
    ]);
    assert_eq!(config_from_doc(&doc), Err(LoadError::InvalidCommandShape(1)));
}

#[test]
fn reports_a_document_of_the_wrong_shape() {
    let no_defines = map(vec![("command", Doc::List(vec![]))]);
    assert!(matches!(config_from_doc(&no_defines), Err(LoadError::Decode(_))));
    assert!(matches!(define_items_from_doc(&no_defines), Err(LoadError::Decode(_))));
    let no_commands = map(vec![("define_items", Doc::List(vec![]))]);
    assert!(matches!(config_from_doc(&no_commands), Err(LoadError::Decode(_))));
    let bad_define = map(vec![
        ("define_items", Doc::List(vec![map(vec![("key", text("A"))])])),
        ("command", Doc::List(vec![])),
    ]);
    assert!(matches!(config_from_doc(&bad_define), Err(LoadError::Decode(_))));
    assert!(matches!(config_from_doc(&Doc::Null), Err(LoadError::Decode(_))));
}

fn doc_of(value: &serde_yaml::Value) -> Doc {
    match value {
        serde_yaml::Value::Null => Doc::Null,
        serde_yaml::Value::Bool(b) => Doc::Bool(*b),
        serde_yaml::Value::Number(n) => Doc::Text(n.to_string()),
        serde_yaml::Value::String(s) => Doc::Text(s.clone()),
        serde_yaml::Value::Sequence(items) => Doc::List(items.iter().map(doc_of).collect()),
        serde_yaml::Value::Mapping(m) => Doc::Mapping(
            m.iter().map(|(k, v)| (k.as_str().unwrap().to_string(), doc_of(v))).collect(),
        ),
        serde_yaml::Value::Tagged(t) => doc_of(&t.value),
    }
}

fn decode(yaml: &str) -> Config {
    let value: serde_yaml::Value = serde_yaml::from_str(yaml).unwrap();
    config_from_doc(&doc_of(&value)).unwrap()
}

const WITH_DEFINES: &str = "define_items:
  - key: VERSION
    value: \"1.2\"
  - key: OUT
    value: dist/v${VERSION}
command:
  - type: copy
    source: src
    destination: ${OUT}
    gitignore_path: .packignore
    use_gitignore: true
  - type: replace
    source: ${OUT}/*.txt
    regex: version=\\d+
    replacement: version=${VERSION}
  - type: run
    command: echo ${OUT}
";

const SUBSTITUTED: &str = "define_items:
  - key: VERSION
    value: \"1.2\"
  - key: OUT
    value: dist/v1.2
command:
  - type: copy
    source: src
    destination: dist/v1.2
    gitignore_path: .packignore
    use_gitignore: true
  - type: replace
    source: dist/v1.2/*.txt
    regex: version=\\d+
    replacement: version=1.2
  - type: run
    command: echo dist/v1.2
";

#[test]
fn substituted_document_decodes_like_the_literal_one() {
    let value: serde_yaml::Value = serde_yaml::from_str(WITH_DEFINES).unwrap();
    let items = define_items_from_doc(&doc_of(&value)).unwrap();
    let text = substitute_document(WITH_DEFINES, &items);
    assert_eq!(text, SUBSTITUTED);
    assert_eq!(decode(&text), decode(SUBSTITUTED));
    match &decode(&text).command[1] {
        Command::Replace(r) => assert_eq!(r.replacement, "version=1.2"),
        other => panic!("unexpected command {:?}", other),
    }
}

fn load_with_defines(yaml: &str) -> Config {
    let value: serde_yaml::Value = serde_yaml::from_str(yaml).unwrap();
    let items = define_items_from_doc(&doc_of(&value)).unwrap();
    decode(&substitute_document(yaml, &items))
}

#[test]
fn loading_resolves_definitions_transitively() {
    let yaml = "define_items:
  - key: A
    value: '1'
  - key: B
    value: '${A}.2'
  - key: C
    value: '${B}.3'
command:
  - type: run
    command: 'echo ${C}'
";
    let config = load_with_defines(yaml);
    assert_eq!(config.command, vec![Command::Run(Run { command: "echo 1.2.3".to_string() })]);
    let values: Vec<String> = config.define_items.iter().map(|d| d.value.clone()).collect();
    assert_eq!(values, vec!["1".to_string(), "1.2".to_string(), "1.2.3".to_string()]);
}

#[test]
fn loading_keeps_a_self_reference() {
    let yaml = "define_items:
  - key: A
    value: '${A}'
command:
  - type: run
    command: 'echo ${A}'
";
    let config = load_with_defines(yaml);
    assert_eq!(config.define_items[0].value, "${A}");
    assert_eq!(config.command, vec![Command::Run(Run { command: "echo ${A}".to_string() })]);
}
