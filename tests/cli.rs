use cook::{
    agent_found, Output,
    agent_probe_command, choose_transport, cp, ghrelease, host, kdl_path, package,
    platform_of_probe, platform_probe_command, platform_triple, service, user, which, CliError, File, HostComplete, Method, Run, Ssh,
    Transport, Up, Which, first_word_is,
};

#[test]
fn document_names() {
    assert!(kdl_path("/root/Cookfile"));
    assert!(kdl_path("site.kdl"));
    assert!(kdl_path("/a/b/hosts.kdl"));
    assert!(!kdl_path("main.py"));
    assert!(!kdl_path("Cargo.toml"));
    assert!(!kdl_path("/a/.kdl"));
    assert!(!kdl_path("kdl"));
}

#[test]
fn platform_triples() {
    assert_eq!(platform_triple("Linux", "x86_64", "/lib/x86_64-linux-gnu/libc.so.6").ok(), Some("x86_64-unknown-linux-gnu".to_string()));
    assert_eq!(platform_triple("Linux", "aarch64", "").ok(), Some("aarch64-unknown-linux-musl".to_string()));
    assert_eq!(platform_triple("Darwin", "arm64", "").ok(), Some("aarch64-apple-darwin".to_string()));
    assert!(matches!(platform_triple("SunOS", "x86_64", ""), Err(CliError::UnsupportedOs(o)) if o == "SunOS"));
    assert!(matches!(platform_triple("Linux", "riscv64", ""), Err(CliError::UnsupportedArch(a)) if a == "riscv64"));
}

#[test]
fn agent_probe_uses_augmented_path() {
    let c = agent_probe_command();
    assert_eq!(c.program, "sh");
    assert_eq!(c.args, vec!["-c".to_string(), "PATH=/usr/local/bin:/usr/bin:/opt/cook:$HOME/.cargo/bin: which cook".to_string()]);
}

#[test]
fn transport_choice() {
    assert_eq!(choose_transport(Method::Ssh, true, "h").ok(), Some(Transport::Shell));
    assert_eq!(choose_transport(Method::Auto, true, "h").ok(), Some(Transport::Agent));
    assert_eq!(choose_transport(Method::Auto, false, "h").ok(), Some(Transport::Shell));
    assert_eq!(choose_transport(Method::Agent, true, "h").ok(), Some(Transport::Agent));
    assert!(matches!(choose_transport(Method::Agent, false, "h"), Err(CliError::AgentMissing(x)) if x == "h"));
}

#[test]
fn run_snippet_joins_words() {
    let r = Run { command: vec!["user".to_string(), "\"deploy\"".to_string()] };
    assert_eq!(r.snippet(&vec!["a".to_string()]).ok(), Some("user \"deploy\"".to_string()));
    assert!(matches!(r.snippet(&vec![]), Err(CliError::NoHost)));
    let empty = Run { command: vec![] };
    assert!(matches!(empty.snippet(&vec!["a".to_string()]), Err(CliError::NoCommand)));
}

#[test]
fn up_needs_a_host() {
    assert!(Up {}.check_hosts(&vec![]).is_err());
    assert!(Up {}.check_hosts(&vec!["a".to_string()]).is_ok());
}

#[test]
fn ssh_invocations() {
    let shell = Ssh { command: vec![] };
    let v = match shell.invocations(&vec!["a".to_string(), "b".to_string()]) {
        Ok(v) => v,
        Err(_) => panic!("hosts given"),
    };
    assert_eq!(v, vec![vec!["a".to_string()]]);
    let cmd = Ssh { command: vec!["uptime".to_string()] };
    let v = match cmd.invocations(&vec!["a".to_string(), "b".to_string()]) {
        Ok(v) => v,
        Err(_) => panic!("hosts given"),
    };
    assert_eq!(v, vec![vec!["a".to_string(), "uptime".to_string()], vec!["b".to_string(), "uptime".to_string()]]);
    assert!(matches!(cmd.invocations(&vec![]), Err(CliError::NoHost)));
}

#[test]
fn summary_lines() {
    let c = HostComplete { host: "alice".to_string(), completed: true, modifications: 12 };
    assert_eq!(c.human_line(), "alice: 12 modifications applied");
    let z = HostComplete { host: "bob".to_string(), completed: true, modifications: 0 };
    assert_eq!(z.human_line(), "bob: No modifications to run");
    let one = HostComplete { host: "c".to_string(), completed: true, modifications: 1 };
    assert_eq!(one.human_line(), "c: 1 modifications applied");
}

#[test]
fn builders() {
    let f: File = cp("src/a", "/dst/a");
    assert_eq!(f.destination, "/dst/a");
    assert_eq!(f.src.as_deref(), Some("src/a"));
    let g = cook::file("/etc/x");
    assert!(g.src.is_none() && g.content.is_none() && g.link.is_none());
    assert_eq!(File::new("/y").destination, "/y");
    let w: Which = which("jq", "apt install -y jq");
    assert_eq!(w.script.as_deref(), Some("apt install -y jq"));
    assert!(Which::new("jq").script.is_none());
    let u = user("deploy");
    assert_eq!(u.user, "deploy");
    assert!(!u.no_login);
    let sv = service("myd", "[Unit]".to_string());
    assert_eq!(sv.name, "myd");
    let _p = package("curl");
    let _r = ghrelease("cook");
    let h = host("alice");
    assert_eq!(h.name(), "alice");
    assert!(h.roles.is_empty());
}

#[test]
fn first_word_of_digest_output() {
    assert!(first_word_is(b"  abc  /etc/x\n", b"abc"));
    assert!(!first_word_is(b"abcd /etc/x\n", b"abc"));
    assert!(!first_word_is(b"", b"abc"));
    assert!(first_word_is(b"\t\n", b""));
}

#[test]
fn platform_from_probe_output() {
    assert_eq!(
        platform_of_probe("Linux x86_64 /lib/x86_64-linux-gnu/libc.so.6\n").ok(),
        Some("x86_64-unknown-linux-gnu".to_string())
    );
    assert_eq!(platform_of_probe("Linux aarch64 \n").ok(), Some("aarch64-unknown-linux-musl".to_string()));
    assert_eq!(platform_of_probe("Darwin arm64\n").ok(), Some("aarch64-apple-darwin".to_string()));
    assert!(matches!(platform_of_probe("Linux\n"), Err(CliError::UnsupportedArch(a)) if a.is_empty()));
    assert!(matches!(platform_of_probe(""), Err(CliError::UnsupportedOs(o)) if o.is_empty()));
    let c = platform_probe_command();
    assert_eq!(c.program, "sh");
    assert_eq!(c.args[0], "-c");
}

#[test]
fn agent_found_when_probe_prints() {
    assert!(agent_found(&Output { success: true, stdout: b"/usr/local/bin/cook\n".to_vec() }));
    assert!(!agent_found(&Output { success: false, stdout: Vec::new() }));
}
