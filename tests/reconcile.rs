use std::collections::{HashMap, HashSet};

use cook::{
    add_kdl_deserializers_to_context, add_node, ChildNode, Command, Context, Directive, FileContent,
    HostError, HostRun, LocalData, LocalFile, Action, Modification, Node, Output, Record, Reply,
    Rule, State, Value, FileChange, UserChange, ServiceChange, WhichChange,
};
use sha2::{Digest, Sha256};

fn hex(data: &[u8]) -> String {
    let mut h = Sha256::new();
    h.update(data);
    format!("{:x}", h.finalize())
}

fn s(v: &str) -> Value {
    Value::Str(v.to_string())
}

fn node(name: &str, entries: Vec<Value>, children: Vec<ChildNode>) -> Node {
    Node { name: name.to_string(), entries, children }
}

fn child(name: &str, entries: Vec<Value>) -> ChildNode {
    ChildNode { name: name.to_string(), entries }
}

fn context() -> Context {
    let mut cx = Context::new("/work".to_string());
    assert!(add_kdl_deserializers_to_context(&mut cx).is_ok());
    cx
}

/// Loads nodes into a state, answering local reads from `local`.
fn load(nodes: &[Node], local: &HashMap<String, LocalData>) -> State {
    let cx = context();
    let mut state = State::new();
    for n in nodes {
        let directives = match add_node(n, &cx) {
            Ok(d) => d,
            Err(e) => panic!("load error {:?}", e),
        };
        for d in &directives {
            let data = match d {
                Directive::Copy(c) => clone_local(local.get(&c.src)),
                Directive::Service(src) => clone_local(local.get(&src.unit_path)),
                _ => LocalData::Nothing,
            };
            assert!(state.add_directive(d, &data).is_ok());
        }
    }
    state
}

fn clone_local(d: Option<&LocalData>) -> LocalData {
    match d {
        None | Some(LocalData::Nothing) => LocalData::Nothing,
        Some(LocalData::Bytes(b)) => LocalData::Bytes(b.clone()),
        Some(LocalData::Text(t)) => LocalData::Text(t.clone()),
        Some(LocalData::Tree(fs)) => LocalData::Tree(
            fs.iter()
                .map(|f| LocalFile { relative_path: f.relative_path.clone(), content: f.content.clone() })
                .collect(),
        ),
    }
}

/// A host simulated in memory.
#[derive(Default)]
struct FakeHost {
    files: HashMap<String, Vec<u8>>,
    users: HashSet<String>,
    packages: HashSet<String>,
    bins: HashSet<String>,
    scripts: Vec<String>,
    commands: Vec<Vec<String>>,
    puts: Vec<String>,
    fail_puts: bool,
}

impl FakeHost {
    fn run(&mut self, c: &Command) -> Output {
        let mut argv = vec![c.program.clone()];
        argv.extend(c.args.iter().cloned());
        self.commands.push(argv.clone());
        let a: Vec<&str> = argv.iter().map(|x| x.as_str()).collect();
        let ok = |b: bool| Output { success: b, stdout: Vec::new() };
        match a.as_slice() {
            ["sha256sum", path] => match self.files.get(*path) {
                Some(data) => Output { success: true, stdout: format!("{}  {}\n", hex(data), path).into_bytes() },
                None => ok(false),
            },
            ["test", "-f", path] => ok(self.files.contains_key(*path)),
            ["apt", "-qq", "list", name] => {
                if self.packages.contains(*name) {
                    Output { success: true, stdout: format!("{}/stable 1.0 amd64 [installed]\n", name).into_bytes() }
                } else {
                    ok(true)
                }
            },
            ["apt", "install", "-y", name] => {
                self.packages.insert(name.to_string());
                ok(true)
            },
            ["id", name] => ok(self.users.contains(*name)),
            ["useradd", "-m", name] | ["useradd", name] => {
                self.users.insert(name.to_string());
                ok(true)
            },
            ["systemctl", "list-unit-files", unit] => {
                ok(self.files.contains_key(&format!("/etc/systemd/system/{}", unit)))
            },
            ["systemctl", "restart", _] => ok(true),
            ["which", bin] => ok(self.bins.contains(*bin)),
            ["sh", "-c", script] => {
                self.scripts.push(script.to_string());
                if *script == "apt install -y jq" {
                    self.bins.insert("jq".to_string());
                }
                ok(true)
            },
            ["mkdir", "-p", _] => ok(true),
            ["chmod", _, path] | ["chown", _, path] | ["chgrp", _, path] => ok(self.files.contains_key(*path)),
            _ => ok(false),
        }
    }

    fn put(&mut self, path: String, data: Vec<u8>) -> Reply {
        if self.fail_puts {
            return Reply::Broken("sftp write failed".to_string());
        }
        self.puts.push(path.clone());
        self.files.insert(path, data);
        Reply::Stored
    }
}

fn drive(state: &State, host: &str, fake: &mut FakeHost) -> Vec<Record> {
    let mut run = HostRun::new(host, state);
    let mut reply = Reply::Ack;
    let mut records = Vec::new();
    loop {
        match run.step(reply) {
            Action::Run(c) => reply = Reply::Ran(fake.run(&c)),
            Action::Put(p, b) => reply = fake.put(p, b),
            Action::Emit(r) => {
                records.push(r);
                reply = Reply::Ack;
            },
            Action::Done => break,
        }
    }
    assert!(run.is_done());
    records
}

fn summary(records: &[Record]) -> Option<(String, usize)> {
    records.iter().find_map(|r| match r {
        Record::Complete(c) => Some((c.host.clone(), c.modifications)),
        _ => None,
    })
}

fn changes(records: &[Record]) -> Vec<&Modification> {
    records.iter().filter_map(|r| match r {
        Record::Change(_, m) => Some(m),
        _ => None,
    }).collect()
}

#[test]
fn file_create_then_converged() {
    let nodes = vec![
        node("host", vec![s("alice")], vec![]),
        node("file", vec![s("/etc/hello")], vec![child("content", vec![s("hi\n")])]),
    ];
    let state = load(&nodes, &HashMap::new());
    assert_eq!(state.hosts(), vec!["alice".to_string()]);
    let mut fake = FakeHost::default();
    let records = drive(&state, "alice", &mut fake);
    let ch = changes(&records);
    assert_eq!(ch.len(), 1);
    match ch[0] {
        Modification::File(FileChange::MissingFile(m)) => {
            assert_eq!(m.path, "/etc/hello");
            match &m.content {
                FileContent::Content(b, sha) => {
                    assert_eq!(b, b"hi\n");
                    assert_eq!(sha, "98ea6e4f216f2fb4b69fff9b3a44842c38686ca685f3f55dc48c5d3fb1107be4");
                },
                FileContent::Url(_) => panic!("content expected"),
            }
        },
        _ => panic!("file change expected"),
    }
    assert_eq!(summary(&records), Some(("alice".to_string(), 1)));
    assert_eq!(fake.files.get("/etc/hello").map(|v| v.as_slice()), Some(&b"hi\n"[..]));
    assert!(fake.commands.contains(&vec!["mkdir".to_string(), "-p".to_string(), "/etc".to_string()]));
    assert!(fake.commands.contains(&vec!["chmod".to_string(), "644".to_string(), "/etc/hello".to_string()]));

    let again = drive(&state, "alice", &mut fake);
    assert!(changes(&again).is_empty());
    assert_eq!(summary(&again), Some(("alice".to_string(), 0)));
}

#[test]
fn copy_directory_with_excludes() {
    let nodes = vec![node("cp", vec![s("dist"), s("/srv/app/")], vec![child("exclude", vec![s("*.map")])])];
    let mut local = HashMap::new();
    local.insert(
        "/work/dist".to_string(),
        LocalData::Tree(vec![
            LocalFile { relative_path: "a.js".to_string(), content: b"console.log(1)\n".to_vec() },
            LocalFile { relative_path: "a.js.map".to_string(), content: b"{}".to_vec() },
            LocalFile { relative_path: "sub/b.js".to_string(), content: b"export const b = 2;\n".to_vec() },
        ]),
    );
    let state = load(&nodes, &local);
    let rules = state.rules();
    assert_eq!(rules.len(), 2);
    let expect = [
        ("/srv/app/a.js", "3879a5d930ae1999b278a3a498f7de3fd83ba8dae59330fcfa2db31c103ac21d"),
        ("/srv/app/sub/b.js", "b5d546753d33709dff508a6f2c2e547f432267fbb05b68d3da74fa5f7bda9f7a"),
    ];
    for (rule, (path, sha)) in rules.iter().zip(expect.iter()) {
        match rule {
            Rule::File(f) => {
                assert_eq!(f.path, *path);
                assert_eq!(f.mode, 0o644);
                match &f.content {
                    FileContent::Content(_, got) => assert_eq!(got, sha),
                    FileContent::Url(_) => panic!("content expected"),
                }
            },
            _ => panic!("file rule expected"),
        }
    }
}

#[test]
fn copy_single_file_into_directory_destination() {
    let nodes = vec![node("cp", vec![s("conf/app.toml"), s("/etc/app/")], vec![])];
    let mut local = HashMap::new();
    local.insert("/work/conf/app.toml".to_string(), LocalData::Bytes(b"x = 1\n".to_vec()));
    let state = load(&nodes, &local);
    match &state.rules()[0] {
        Rule::File(f) => assert_eq!(f.path, "/etc/app/app.toml"),
        _ => panic!("file rule expected"),
    }
}

#[test]
fn copy_single_file_to_exact_destination() {
    let nodes = vec![node("cp", vec![s("conf/app.toml"), s("/etc/app.toml")], vec![])];
    let mut local = HashMap::new();
    local.insert("/work/conf/app.toml".to_string(), LocalData::Bytes(b"x = 1\n".to_vec()));
    let state = load(&nodes, &local);
    match &state.rules()[0] {
        Rule::File(f) => assert_eq!(f.path, "/etc/app.toml"),
        _ => panic!("file rule expected"),
    }
}

#[test]
fn user_add_with_home() {
    let state = load(&[node("user", vec![s("deploy"), s("is_login")], vec![])], &HashMap::new());
    let mut fake = FakeHost::default();
    let records = drive(&state, "h", &mut fake);
    let ch = changes(&records);
    assert_eq!(ch.len(), 1);
    match ch[0] {
        Modification::User(UserChange::Add(u)) => {
            assert_eq!(u.name, "deploy");
            assert!(u.is_login);
        },
        _ => panic!("user change expected"),
    }
    assert!(fake.commands.contains(&vec!["useradd".to_string(), "-m".to_string(), "deploy".to_string()]));
    assert_eq!(summary(&records), Some(("h".to_string(), 1)));
}

#[test]
fn service_replace_then_converged() {
    let unit = "[Unit]\nDescription=myd\n";
    let mut local = HashMap::new();
    local.insert("/work/units/myd.service".to_string(), LocalData::Text(unit.to_string()));
    let state = load(&[node("service", vec![s("myd"), s("units/myd.service")], vec![])], &local);
    let mut fake = FakeHost::default();
    fake.files.insert("/etc/systemd/system/myd.service".to_string(), b"old".to_vec());
    let records = drive(&state, "h", &mut fake);
    let ch = changes(&records);
    assert_eq!(ch.len(), 1);
    match ch[0] {
        Modification::Service(ServiceChange::NewService(n)) => {
            assert_eq!(n.name, "myd");
            assert_eq!(n.service_file_content, unit);
            assert_eq!(n.service_file_content_sha256, "774a070ba5ef6027ed5388a89dbec4eabb4795436039eaf96c4296e6630f7803");
        },
        _ => panic!("service change expected"),
    }
    assert_eq!(fake.puts, vec!["/etc/systemd/system/myd.service".to_string()]);
    assert!(fake.commands.contains(&vec!["systemctl".to_string(), "restart".to_string(), "myd".to_string()]));
    let again = drive(&state, "h", &mut fake);
    assert!(changes(&again).is_empty());
    assert_eq!(summary(&again), Some(("h".to_string(), 0)));
}

#[test]
fn which_missing_runs_script() {
    let state = load(&[node("which", vec![s("jq"), s("apt install -y jq")], vec![])], &HashMap::new());
    let mut fake = FakeHost::default();
    let records = drive(&state, "h", &mut fake);
    let ch = changes(&records);
    assert_eq!(ch.len(), 1);
    match ch[0] {
        Modification::Which(WhichChange::RunScript(script)) => assert_eq!(script, "apt install -y jq"),
        _ => panic!("run script expected"),
    }
    assert_eq!(fake.scripts, vec!["apt install -y jq".to_string()]);
    let again = drive(&state, "h", &mut fake);
    assert!(changes(&again).is_empty());
}

#[test]
fn which_missing_without_script_fails_the_host() {
    let state = load(&[node("which", vec![s("jq")], vec![])], &HashMap::new());
    let mut fake = FakeHost::default();
    let records = drive(&state, "h", &mut fake);
    assert!(records.iter().any(|r| matches!(r, Record::Failed(h, HostError::Check(_)) if h == "h")));
}

#[test]
fn two_hosts_one_fails() {
    let state = load(&[node("file", vec![s("/etc/motd")], vec![child("content", vec![s("hello\n")])])], &HashMap::new());
    let mut a = FakeHost::default();
    let mut b = FakeHost::default();
    b.fail_puts = true;
    let ra = drive(&state, "a", &mut a);
    let rb = drive(&state, "b", &mut b);
    assert_eq!(summary(&ra), Some(("a".to_string(), 1)));
    assert_eq!(summary(&rb), None);
    assert!(rb.iter().any(|r| matches!(r, Record::Failed(h, HostError::Transport(_)) if h == "b")));
    // the records of `a` do not depend on what happened on `b`
    let mut a2 = FakeHost::default();
    let ra2 = drive(&state, "a", &mut a2);
    assert_eq!(summary(&ra2), summary(&ra));
    assert_eq!(changes(&ra2).len(), changes(&ra).len());
}

#[test]
fn empty_state_emits_one_summary_and_touches_nothing() {
    let state = State::new();
    let mut fake = FakeHost::default();
    let records = drive(&state, "idle", &mut fake);
    assert_eq!(records.len(), 1);
    assert_eq!(summary(&records), Some(("idle".to_string(), 0)));
    assert!(fake.commands.is_empty());
    assert!(fake.puts.is_empty());
}

#[test]
fn every_applied_change_is_emitted_once() {
    let nodes = vec![
        node("package", vec![s("curl"), s("git")], vec![]),
        node("user", vec![s("ops")], vec![]),
        node("file", vec![s("/etc/a")], vec![child("content", vec![s("a")])]),
    ];
    let state = load(&nodes, &HashMap::new());
    let mut fake = FakeHost::default();
    fake.packages.insert("git".to_string());
    let records = drive(&state, "h", &mut fake);
    assert_eq!(changes(&records).len(), 3);
    assert_eq!(summary(&records), Some(("h".to_string(), 3)));
    assert!(fake.packages.contains("curl"));
    assert!(fake.users.contains("ops"));
    assert!(fake.commands.contains(&vec!["useradd".to_string(), "ops".to_string()]));
}

#[test]
fn failed_apply_command_stops_the_host() {
    let state = load(&[node("file", vec![s("/etc/x")], vec![child("url", vec![s("https://example.com/x")])])], &HashMap::new());
    let mut fake = FakeHost::default();
    let records = drive(&state, "h", &mut fake);
    // `curl` is unknown to the fake host and fails
    assert!(records.iter().any(|r| matches!(r, Record::Failed(_, HostError::StepFailed(p)) if p == "curl")));
    assert_eq!(changes(&records).len(), 1);
}

#[test]
fn loading_twice_gives_equal_rules() {
    let nodes = vec![
        node("host", vec![s("a")], vec![]),
        node("package", vec![s("jq")], vec![]),
        node("file", vec![s("/etc/x")], vec![child("content", vec![s("x")])]),
    ];
    let s1 = load(&nodes, &HashMap::new());
    let s2 = load(&nodes, &HashMap::new());
    assert_eq!(format!("{:?}", s1.rules()), format!("{:?}", s2.rules()));
    assert_eq!(s1.hosts(), s2.hosts());
}

#[test]
fn merge_appends_rules_and_hosts() {
    let mut a = load(&[node("host", vec![s("a")], vec![]), node("package", vec![s("x")], vec![])], &HashMap::new());
    let b = load(&[node("host", vec![s("b")], vec![]), node("package", vec![s("y")], vec![])], &HashMap::new());
    a.merge(b);
    assert_eq!(a.hosts(), vec!["a".to_string(), "b".to_string()]);
    assert_eq!(a.rules().len(), 2);
    match &a.rules()[1] {
        Rule::Package(p) => assert_eq!(p.name, "y"),
        _ => panic!("package expected"),
    }
}
