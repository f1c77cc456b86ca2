use vstd::prelude::*;
use crate::change::{Modification, ModificationView};
use crate::reconcile::{HostComplete, HostError, HostErrorView};
use crate::remote::{CheckError, Command, cmd};
use crate::text::{basename, concat, last_index, last_index_of, owned, radix, radix_digits, same};

verus! {

/// How modifications reach a host.
#[derive(Debug, Clone, Copy, PartialEq, Eq, Structural)]
pub enum Method {
    Auto,
    Ssh,
    Agent,
}

/// How events are written.
#[derive(Debug, Clone, Copy, PartialEq, Eq, Structural)]
pub enum Format {
    Human,
    Json,
}

/// The path a host run takes once the method is settled.
#[derive(Debug, Clone, Copy, PartialEq, Eq, Structural)]
pub enum Transport {
    Shell,
    Agent,
}

/// Why a command-line request cannot proceed.
#[derive(Debug, Clone)]
pub enum CliError {
    NoHost,
    NoCommand,
    AgentMissing(String),
    UnsupportedOs(String),
    UnsupportedArch(String),
}

/// Options of the agent installation request.
pub struct Install {
    pub install_dir: String,
    pub user: Option<String>,
    pub key: Option<String>,
}

/// Parse the documents and print what they declare.
pub struct Plan {}

/// Reconcile the hosts against a rule given on the command line.
pub struct Run {
    pub command: Vec<String>,
}

/// Open a shell, or run a command, on the hosts.
pub struct Ssh {
    pub command: Vec<String>,
}

/// Reconcile the hosts against the documents under the root.
pub struct Up {}

/// A document the loader reads: named `Cookfile`, or with extension `kdl`.
pub open spec fn document_name_accepted(name: Seq<char>) -> bool {
    let k = last_index_of(name, '.', name.len() as int);
    name == "Cookfile"@ || (k > 0 && name.subrange(k + 1, name.len() as int) == "kdl"@)
}

/// Whether the loader reads the file at this path.
pub fn kdl_path(path: &str) -> (r: bool)
    ensures
        r == document_name_accepted(basename(path@)),
{
    let name = crate::text::file_name(path);
    if same(name.as_str(), "Cookfile") {
        return true;
    }
    let n = name.unicode_len();
    match last_index(name.as_str(), '.') {
        Some(k) => k > 0 && same(name.as_str().substring_char(k + 1, n), "kdl"),
        None => false,
    }
}

pub open spec fn os_part(os: Seq<char>) -> Option<Seq<char>> {
    if os == "Linux"@ {
        Some("unknown-linux"@)
    } else if os == "Darwin"@ {
        Some("apple-darwin"@)
    } else {
        None
    }
}

pub open spec fn arch_part(arch: Seq<char>) -> Option<Seq<char>> {
    if arch == "x86_64"@ {
        Some("x86_64"@)
    } else if arch == "aarch64"@ || arch == "arm64"@ {
        Some("aarch64"@)
    } else {
        None
    }
}

/// The target triple of a host from `uname -s`, `uname -m` and the path of
/// its glibc (empty when there is none).
pub open spec fn triple(os: Seq<char>, arch: Seq<char>, libc: Seq<char>) -> Seq<char> {
    let base = arch_part(arch).unwrap() + "-"@ + os_part(os).unwrap();
    if os == "Linux"@ {
        if libc.len() == 0 {
            base + "-musl"@
        } else {
            base + "-gnu"@
        }
    } else {
        base
    }
}

pub fn platform_triple(os: &str, arch: &str, libc: &str) -> (r: Result<String, CliError>)
    ensures
        match r {
            Ok(t) => os_part(os@) is Some && arch_part(arch@) is Some && t@ == triple(os@, arch@, libc@),
            Err(CliError::UnsupportedOs(o)) => os_part(os@) is None && o@ == os@,
            Err(CliError::UnsupportedArch(a)) => os_part(os@) is Some && arch_part(arch@) is None && a@ == arch@,
            Err(_) => false,
        },
{
    let linux = same(os, "Linux");
    let os_name = if linux {
        "unknown-linux"
    } else if same(os, "Darwin") {
        "apple-darwin"
    } else {
        return Err(CliError::UnsupportedOs(owned(os)));
    };
    let arch_name = if same(arch, "x86_64") {
        "x86_64"
    } else if same(arch, "aarch64") || same(arch, "arm64") {
        "aarch64"
    } else {
        return Err(CliError::UnsupportedArch(owned(arch)));
    };
    let mut t = concat(arch_name, "-");
    t.append(os_name);
    if linux {
        if libc.unicode_len() == 0 {
            t.append("-musl");
        } else {
            t.append("-gnu");
        }
    }
    Ok(t)
}

/// The shell line that reports the kernel name, the machine, and the path
/// of the host's glibc when there is one.
pub open spec fn platform_probe_line() -> Seq<char> {
    "echo $(uname -s) $(uname -m) $(ls /lib/$(uname -m)-linux-gnu/libc.so.6)"@
}

pub fn platform_probe_command() -> (r: Command)
    ensures
        r@ == cmd("sh"@, seq!["-c"@, platform_probe_line()]),
{
    let mut args: Vec<String> = Vec::new();
    args.push(owned("-c"));
    args.push(owned("echo $(uname -s) $(uname -m) $(ls /lib/$(uname -m)-linux-gnu/libc.so.6)"));
    assert(args.deep_view() =~= seq!["-c"@, platform_probe_line()]);
    Command { program: owned("sh"), args }
}

pub open spec fn is_trailing_space(c: char) -> bool {
    c == ' ' || c == '\n' || c == '\r' || c == '\t'
}

pub open spec fn trimmed_end_len(s: Seq<char>, n: int) -> int
    decreases n,
{
    if n > 0 && is_trailing_space(s[n - 1]) {
        trimmed_end_len(s, n - 1)
    } else {
        n
    }
}

/// Index of the first `c` at or after `i`, or -1.
pub open spec fn first_index_from(s: Seq<char>, c: char, i: int) -> int
    decreases s.len() - i,
{
    if i < 0 || i >= s.len() {
        -1
    } else if s[i] == c {
        i
    } else {
        first_index_from(s, c, i + 1)
    }
}

/// The `k`-th field of `s` split at single spaces; empty past the last.
pub open spec fn field(s: Seq<char>, k: nat) -> Seq<char>
    decreases k,
{
    let i = first_index_from(s, ' ', 0);
    if k == 0 {
        if i < 0 { s } else { s.subrange(0, i) }
    } else if i < 0 {
        Seq::empty()
    } else {
        field(s.subrange(i + 1, s.len() as int), (k - 1) as nat)
    }
}

proof fn lemma_first_index_bounds(s: Seq<char>, c: char, i: int)
    requires
        0 <= i,
    ensures
        first_index_from(s, c, i) == -1 || (i <= first_index_from(s, c, i) < s.len()
            && s[first_index_from(s, c, i)] == c),
    decreases s.len() - i,
{
    if i < s.len() && s[i] != c {
        lemma_first_index_bounds(s, c, i + 1);
    }
}

fn first_space(s: &str) -> (r: Option<usize>)
    ensures
        match r {
            Some(i) => i as int == first_index_from(s@, ' ', 0) && i < s@.len(),
            None => first_index_from(s@, ' ', 0) == -1,
        },
{
    let n = s.unicode_len();
    let mut i: usize = 0;
    while i < n
        invariant
            n == s@.len(),
            i <= n,
            first_index_from(s@, ' ', 0) == first_index_from(s@, ' ', i as int),
        decreases n - i,
    {
        if s.get_char(i) == ' ' {
            return Some(i);
        }
        i = i + 1;
    }
    None
}

fn nth_field(s: &str, k: usize) -> (r: String)
    ensures
        r@ == field(s@, k as nat),
{
    let mut rest: &str = s;
    let mut j: usize = 0;
    while j < k
        invariant
            j <= k,
            field(s@, k as nat) == field(rest@, (k - j) as nat),
        decreases k - j,
    {
        match first_space(rest) {
            None => {
                return String::new();
            },
            Some(i) => {
                let n = rest.unicode_len();
                rest = rest.substring_char(i + 1, n);
            },
        }
        j = j + 1;
    }
    match first_space(rest) {
        None => owned(rest),
        Some(i) => owned(rest.substring_char(0, i)),
    }
}

/// The target triple from the output of the platform probe: without its
/// trailing whitespace, its first three space-separated fields are the
/// kernel name, the machine and the glibc path.
pub fn platform_of_probe(output: &str) -> (r: Result<String, CliError>)
    ensures
        ({
            let t = output@.subrange(0, trimmed_end_len(output@, output@.len() as int));
            let (os, arch, libc) = (field(t, 0), field(t, 1), field(t, 2));
            match r {
                Ok(x) => os_part(os) is Some && arch_part(arch) is Some && x@ == triple(os, arch, libc),
                Err(CliError::UnsupportedOs(o)) => os_part(os) is None && o@ == os,
                Err(CliError::UnsupportedArch(a)) => os_part(os) is Some && arch_part(arch) is None && a@ == arch,
                Err(_) => false,
            }
        }),
{
    let n = output.unicode_len();
    let mut k: usize = n;
    while k > 0 && (output.get_char(k - 1) == ' ' || output.get_char(k - 1) == '\n'
        || output.get_char(k - 1) == '\r' || output.get_char(k - 1) == '\t')
        invariant
            k <= n,
            n == output@.len(),
            trimmed_end_len(output@, k as int) == trimmed_end_len(output@, n as int),
        decreases k,
    {
        k = k - 1;
    }
    let t = output.substring_char(0, k);
    let os = nth_field(t, 0);
    let arch = nth_field(t, 1);
    let libc = nth_field(t, 2);
    platform_triple(os.as_str(), arch.as_str(), libc.as_str())
}

/// The shell line that looks for an installed agent.
pub open spec fn agent_probe_line() -> Seq<char> {
    "PATH=/usr/local/bin:/usr/bin:/opt/cook:$HOME/.cargo/bin: which cook"@
}

pub fn agent_probe_command() -> (r: Command)
    ensures
        r@ == cmd("sh"@, seq!["-c"@, agent_probe_line()]),
{
    let mut args: Vec<String> = Vec::new();
    args.push(owned("-c"));
    args.push(owned("PATH=/usr/local/bin:/usr/bin:/opt/cook:$HOME/.cargo/bin: which cook"));
    assert(args.deep_view() =~= seq!["-c"@, agent_probe_line()]);
    Command { program: owned("sh"), args }
}

/// Whether the agent probe found an agent: it printed its path.
pub fn agent_found(probe: &crate::remote::Output) -> (r: bool)
    ensures
        r == (probe.stdout@.len() > 0),
{
    probe.stdout.len() > 0
}

/// How a host is reached: `ssh` always uses the shell, `agent` needs the
/// agent on the host, `auto` uses the agent when it is there.
pub fn choose_transport(method: Method, agent_found: bool, host: &str) -> (r: Result<Transport, CliError>)
    ensures
        match method {
            Method::Ssh => r == Ok::<Transport, CliError>(Transport::Shell),
            Method::Agent => if agent_found {
                r == Ok::<Transport, CliError>(Transport::Agent)
            } else {
                r matches Err(CliError::AgentMissing(h)) && h@ == host@
            },
            Method::Auto => r == Ok::<Transport, CliError>(if agent_found { Transport::Agent } else { Transport::Shell }),
        },
{
    match method {
        Method::Ssh => Ok(Transport::Shell),
        Method::Agent => if agent_found {
            Ok(Transport::Agent)
        } else {
            Err(CliError::AgentMissing(owned(host)))
        },
        Method::Auto => if agent_found {
            Ok(Transport::Agent)
        } else {
            Ok(Transport::Shell)
        },
    }
}

/// Words joined by single spaces.
pub open spec fn join_words(ws: Seq<Seq<char>>) -> Seq<char>
    decreases ws.len(),
{
    if ws.len() == 0 {
        Seq::empty()
    } else if ws.len() == 1 {
        ws[0]
    } else {
        join_words(ws.drop_last()) + " "@ + ws.last()
    }
}

fn join_spaced(ws: &Vec<String>) -> (r: String)
    ensures
        r@ == join_words(ws.deep_view()),
{
    let mut r = String::new();
    let mut i: usize = 0;
    while i < ws.len()
        invariant
            i <= ws@.len(),
            r@ == join_words(ws.deep_view().subrange(0, i as int)),
        decreases ws@.len() - i,
    {
        let ghost prefix = ws.deep_view().subrange(0, i as int + 1);
        assert(prefix.drop_last() =~= ws.deep_view().subrange(0, i as int));
        assert(ws.deep_view()[i as int] == ws@[i as int]@);
        if i > 0 {
            r.append(" ");
        }
        r.append(ws[i].as_str());
        i = i + 1;
    }
    assert(ws.deep_view().subrange(0, i as int) =~= ws.deep_view());
    r
}

impl Run {
    /// The rule text to parse: the words of the command joined by spaces.
    /// Needs at least one host and one word.
    pub fn snippet(&self, hosts: &Vec<String>) -> (r: Result<String, CliError>)
        ensures
            hosts@.len() == 0 ==> r matches Err(CliError::NoHost),
            hosts@.len() > 0 && self.command@.len() == 0 ==> r matches Err(CliError::NoCommand),
            hosts@.len() > 0 && self.command@.len() > 0 ==> (r matches Ok(s) && s@ == join_words(self.command.deep_view())),
    {
        if hosts.len() == 0 {
            return Err(CliError::NoHost);
        }
        if self.command.len() == 0 {
            return Err(CliError::NoCommand);
        }
        Ok(join_spaced(&self.command))
    }
}

impl Up {
    /// Reconciling needs at least one host.
    pub fn check_hosts(&self, hosts: &Vec<String>) -> (r: Result<(), CliError>)
        ensures
            r is Ok <==> hosts@.len() > 0,
            r matches Err(e) ==> e is NoHost,
    {
        if hosts.len() == 0 {
            Err(CliError::NoHost)
        } else {
            Ok(())
        }
    }
}

impl Ssh {
    /// The argument lists for `ssh`: with no command, a shell on the first
    /// host; with a command, the command on every host.
    pub fn invocations(&self, hosts: &Vec<String>) -> (r: Result<Vec<Vec<String>>, CliError>)
        ensures
            hosts@.len() == 0 ==> r matches Err(CliError::NoHost),
            hosts@.len() > 0 && self.command@.len() == 0 ==> (r matches Ok(v) && v@.len() == 1
                && v@[0].deep_view() == seq![hosts@[0]@]),
            hosts@.len() > 0 && self.command@.len() > 0 ==> (r matches Ok(v) && v@.len() == hosts@.len()
                && forall|i: int| 0 <= i < hosts@.len() ==> #[trigger] v@[i].deep_view()
                    == seq![hosts@[i]@] + self.command.deep_view()),
    {
        if hosts.len() == 0 {
            return Err(CliError::NoHost);
        }
        let mut out: Vec<Vec<String>> = Vec::new();
        if self.command.len() == 0 {
            let mut one: Vec<String> = Vec::new();
            one.push(hosts[0].clone());
            assert(one.deep_view() =~= seq![hosts@[0]@]);
            out.push(one);
            return Ok(out);
        }
        let mut i: usize = 0;
        while i < hosts.len()
            invariant
                i <= hosts@.len(),
                out@.len() == i,
                forall|k: int| 0 <= k < i ==> #[trigger] out@[k].deep_view() == seq![hosts@[k]@] + self.command.deep_view(),
            decreases hosts@.len() - i,
        {
            let mut argv: Vec<String> = Vec::new();
            argv.push(hosts[i].clone());
            let mut j: usize = 0;
            while j < self.command.len()
                invariant
                    j <= self.command@.len(),
                    argv.deep_view() == seq![hosts@[i as int]@] + self.command.deep_view().subrange(0, j as int),
                decreases self.command@.len() - j,
            {
                let ghost before = argv.deep_view();
                let w = self.command[j].clone();
                argv.push(w);
                assert(argv.deep_view() =~= before.push(w@));
                assert(self.command.deep_view()[j as int] == w@);
                j = j + 1;
                assert(argv.deep_view() =~= seq![hosts@[i as int]@] + self.command.deep_view().subrange(0, j as int));
            }
            assert(self.command.deep_view().subrange(0, j as int) =~= self.command.deep_view());
            out.push(argv);
            i = i + 1;
        }
        Ok(out)
    }
}

/// The summary line of a host: how many modifications were applied.
pub open spec fn summary_line(host: Seq<char>, count: nat) -> Seq<char> {
    if count == 0 {
        host + ": No modifications to run"@
    } else {
        host + ": "@ + radix_digits(count, 10) + " modifications applied"@
    }
}

impl HostComplete {
    pub fn human_line(&self) -> (r: String)
        ensures
            r@ == summary_line(self.host@, self.modifications as nat),
    {
        if self.modifications == 0 {
            return concat(self.host.as_str(), ": No modifications to run");
        }
        let mut r = concat(self.host.as_str(), ": ");
        let n = radix(self.modifications as u64, 10);
        r.append(n.as_str());
        r.append(" modifications applied");
        r
    }
}

impl HostError {
    /// A one-line reason.
    pub fn reason(&self) -> (r: String)
        ensures
            r@ == match self@ {
                HostErrorView::Check(crate::remote::CheckErrorView::DigestFailed(p)) => "cannot read the digest of "@ + p,
                HostErrorView::Check(crate::remote::CheckErrorView::NoScript(b)) => b + " is missing and no script installs it"@,
                HostErrorView::StepFailed(p) => p + " failed"@,
                HostErrorView::Transport(m) => "transport: "@ + m,
                HostErrorView::UnexpectedReply => "unexpected reply"@,
            },
    {
        match self {
            HostError::Check(CheckError::DigestFailed(p)) => concat("cannot read the digest of ", p.as_str()),
            HostError::Check(CheckError::NoScript(b)) => concat(b.as_str(), " is missing and no script installs it"),
            HostError::StepFailed(p) => concat(p.as_str(), " failed"),
            HostError::Transport(m) => concat("transport: ", m.as_str()),
            HostError::UnexpectedReply => owned("unexpected reply"),
        }
    }
}

impl Modification {
    /// A one-line description.
    pub fn human_line(&self) -> (r: String)
        ensures
            r@ == match self@ {
                ModificationView::MissingFile(f) => "file change "@ + f.path,
                ModificationView::AddPackage(n) => "add package "@ + n,
                ModificationView::AddUser(n, _) => "add user "@ + n,
                ModificationView::NewService(n, _, _) => "new service "@ + n,
                ModificationView::RunScript(s) => "run script "@ + s,
            },
    {
        match self {
            Modification::File(crate::change::FileChange::MissingFile(m)) => concat("file change ", m.path.as_str()),
            Modification::Package(crate::change::PackageChange::AddPackage(p)) => concat("add package ", p.name.as_str()),
            Modification::User(crate::change::UserChange::Add(u)) => concat("add user ", u.name.as_str()),
            Modification::Service(crate::change::ServiceChange::NewService(s)) => concat("new service ", s.name.as_str()),
            Modification::Which(crate::change::WhichChange::RunScript(s)) => concat("run script ", s.as_str()),
        }
    }
}

} // verus!
