use cook::{
    add_kdl_deserializers_to_context, add_node, ChildNode, Context, Directive, FileContent, Keyword,
    LoadError, LocalData, Node, Rule, State, Value,
};

fn s(v: &str) -> Value {
    Value::Str(v.to_string())
}

fn node(name: &str, entries: Vec<Value>, children: Vec<ChildNode>) -> Node {
    Node { name: name.to_string(), entries, children }
}

fn context() -> Context {
    let mut cx = Context::new("/work".to_string());
    assert!(add_kdl_deserializers_to_context(&mut cx).is_ok());
    cx
}

fn error_of(n: &Node) -> LoadError {
    match add_node(n, &context()) {
        Err(e) => e,
        Ok(_) => panic!("an error was expected"),
    }
}

#[test]
fn unknown_tag_is_an_error() {
    match error_of(&node("frobnicate", vec![], vec![])) {
        LoadError::UnknownKeyword(t) => assert_eq!(t, "frobnicate"),
        e => panic!("unexpected {:?}", e),
    }
}

#[test]
fn empty_context_knows_no_tag() {
    let cx = Context::new("/".to_string());
    assert!(matches!(add_node(&node("file", vec![s("/x")], vec![]), &cx), Err(LoadError::UnknownKeyword(_))));
}

#[test]
fn registering_twice_is_refused() {
    let mut cx = context();
    assert!(matches!(add_kdl_deserializers_to_context(&mut cx), Err(LoadError::DuplicateKeyword(t)) if t == "file"));
    assert!(matches!(cx.register("cp", Keyword::Cp), Err(LoadError::DuplicateKeyword(_))));
    assert!(cx.register("copy", Keyword::Cp).is_ok());
    assert_eq!(cx.handler("copy"), Some(Keyword::Cp));
    assert_eq!(cx.handler("nope"), None);
}

#[test]
fn missing_argument_names_the_node() {
    match error_of(&node("user", vec![], vec![])) {
        LoadError::MissingArgument(n) => assert_eq!(n, "user"),
        e => panic!("unexpected {:?}", e),
    }
    assert!(matches!(error_of(&node("service", vec![s("x")], vec![])), LoadError::MissingArgument(_)));
}

#[test]
fn non_string_argument_is_an_error() {
    match error_of(&node("host", vec![Value::Int(3)], vec![])) {
        LoadError::NotAString(n) => assert_eq!(n, "host"),
        e => panic!("unexpected {:?}", e),
    }
    assert!(matches!(error_of(&node("package", vec![s("a"), Value::Bool(true)], vec![])), LoadError::NotAString(_)));
}

#[test]
fn unknown_user_option_is_an_error() {
    match error_of(&node("user", vec![s("deploy"), s("sudo")], vec![])) {
        LoadError::UnknownOption(n, w) => {
            assert_eq!(n, "user");
            assert_eq!(w, "sudo");
        },
        e => panic!("unexpected {:?}", e),
    }
}

#[test]
fn unexpected_child_is_an_error() {
    let n = node("cp", vec![s("a"), s("b")], vec![ChildNode { name: "only".to_string(), entries: vec![] }]);
    match error_of(&n) {
        LoadError::UnexpectedChild(p, c) => {
            assert_eq!(p, "cp");
            assert_eq!(c, "only");
        },
        e => panic!("unexpected {:?}", e),
    }
}

#[test]
fn invalid_glob_in_cp_is_an_error() {
    let n = node("cp", vec![s("a"), s("b")], vec![ChildNode { name: "include".to_string(), entries: vec![s("x[")] }]);
    match error_of(&n) {
        LoadError::InvalidGlob(p) => assert_eq!(p, "**/x["),
        e => panic!("unexpected {:?}", e),
    }
}

#[test]
fn cp_resolves_source_against_root_and_rewrites_patterns() {
    let n = node(
        "cp",
        vec![s("dist"), s("/srv/")],
        vec![
            ChildNode { name: "include".to_string(), entries: vec![s("build/")] },
            ChildNode { name: "exclude".to_string(), entries: vec![s("*.map")] },
        ],
    );
    let ds = match add_node(&n, &context()) {
        Ok(d) => d,
        Err(e) => panic!("{:?}", e),
    };
    assert_eq!(ds.len(), 1);
    match &ds[0] {
        Directive::Copy(c) => {
            assert_eq!(c.src, "/work/dist");
            assert_eq!(c.dst, "/srv/");
        },
        _ => panic!("copy expected"),
    }
}

#[test]
fn package_node_gives_one_rule_per_name() {
    let ds = match add_node(&node("package", vec![s("curl"), s("git")], vec![]), &context()) {
        Ok(d) => d,
        Err(e) => panic!("{:?}", e),
    };
    assert_eq!(ds.len(), 2);
    assert!(matches!(&ds[1], Directive::Rule(Rule::Package(p)) if p.name == "git"));
}

#[test]
fn file_without_content_is_empty() {
    let ds = match add_node(&node("file", vec![s("/etc/empty")], vec![]), &context()) {
        Ok(d) => d,
        Err(e) => panic!("{:?}", e),
    };
    match &ds[0] {
        Directive::Rule(Rule::File(f)) => match &f.content {
            FileContent::Content(b, sha) => {
                assert!(b.is_empty());
                assert_eq!(sha, "e3b0c44298fc1c149afbf4c8996fb92427ae41e4649b934ca495991b7852b855");
            },
            FileContent::Url(_) => panic!("content expected"),
        },
        _ => panic!("file expected"),
    }
}

#[test]
fn file_with_url_child() {
    let n = node("file", vec![s("/opt/x")], vec![ChildNode { name: "url".to_string(), entries: vec![s("https://e.x/x")] }]);
    match add_node(&n, &context()) {
        Ok(ds) => assert!(matches!(&ds[0], Directive::Rule(Rule::File(f)) if matches!(&f.content, FileContent::Url(u) if u == "https://e.x/x"))),
        Err(e) => panic!("{:?}", e),
    }
}

#[test]
fn missing_local_content_is_an_error() {
    let n = node("service", vec![s("myd"), s("units/myd.service")], vec![]);
    let ds = match add_node(&n, &context()) {
        Ok(d) => d,
        Err(e) => panic!("{:?}", e),
    };
    let mut state = State::new();
    match state.add_directive(&ds[0], &LocalData::Nothing) {
        Err(LoadError::MissingLocal(p)) => assert_eq!(p, "/work/units/myd.service"),
        _ => panic!("missing local content expected"),
    }
    assert!(state.rules().is_empty());
}

#[test]
fn copy_of_file_without_name_into_directory_is_an_error() {
    let n = node("cp", vec![s("/"), s("/dst/")], vec![]);
    let ds = match add_node(&n, &context()) {
        Ok(d) => d,
        Err(e) => panic!("{:?}", e),
    };
    let mut state = State::new();
    assert!(matches!(state.add_directive(&ds[0], &LocalData::Bytes(vec![1])), Err(LoadError::NoFileName(_))));
}

#[test]
fn local_path_joins_relative_and_keeps_absolute() {
    let cx = Context::new("/work".to_string());
    assert_eq!(cx.local_path("a/b"), "/work/a/b");
    assert_eq!(cx.local_path("/abs"), "/abs");
    let cx2 = Context::new("/work/".to_string());
    assert_eq!(cx2.local_path("a"), "/work/a");
}

#[test]
fn which_takes_an_optional_script() {
    match add_node(&node("which", vec![s("jq")], vec![]), &context()) {
        Ok(ds) => assert!(matches!(&ds[0], Directive::Rule(Rule::Which(w)) if w.bin == "jq" && w.script.is_none())),
        Err(e) => panic!("{:?}", e),
    }
}
