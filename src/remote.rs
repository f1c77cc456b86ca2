use vstd::prelude::*;
use crate::change::{
    FileChange, MissingFile, Modification, ModificationView, NewService, PackageChange,
    ServiceChange, UserChange, WhichChange,
};
use crate::digest::{is_hex_digest, sha256_hex, sha256_hex_of};
use crate::model::{
    copy_bytes, ContentView, FileContent, FileSpec, FileSpecView, PackageSpec, Rule, RuleView,
    UserSpec,
};
use crate::text::{concat, last_index, last_index_of, owned, radix, radix_digits};
use vstd::utf8::encode_utf8;
use vstd::string::StrSliceExecFns;

verus! {

/// A program and its arguments, run on a host without a shell.
#[derive(Debug, Clone)]
pub struct Command {
    pub program: String,
    pub args: Vec<String>,
}

pub struct CommandView {
    pub program: Seq<char>,
    pub args: Seq<Seq<char>>,
}

impl View for Command {
    type V = CommandView;

    open spec fn view(&self) -> CommandView {
        CommandView { program: self.program@, args: self.args.deep_view() }
    }
}

/// What a command run on a host returned: whether it exited successfully,
/// and its standard output.
#[derive(Debug, Clone)]
pub struct Output {
    pub success: bool,
    pub stdout: Vec<u8>,
}

/// The next thing checking a rule needs: the output of a command, or the
/// modifications found, or a failure.
pub enum Probe {
    Run(Command),
    Done(Vec<Modification>),
    Failed(CheckError),
}

/// Why checking a rule failed.
#[derive(Debug, Clone)]
pub enum CheckError {
    /// The digest of the named remote file could not be read.
    DigestFailed(String),
    /// The named executable is missing and no script installs it.
    NoScript(String),
}

pub enum CheckErrorView {
    DigestFailed(Seq<char>),
    NoScript(Seq<char>),
}

pub enum ProbeView {
    Run(CommandView),
    Done(Seq<ModificationView>),
    Failed(CheckErrorView),
}

impl View for Probe {
    type V = ProbeView;

    open spec fn view(&self) -> ProbeView {
        match self {
            Probe::Run(c) => ProbeView::Run(c@),
            Probe::Done(ms) => ProbeView::Done(ms@.map_values(|m: Modification| m@)),
            Probe::Failed(CheckError::DigestFailed(p)) => ProbeView::Failed(CheckErrorView::DigestFailed(p@)),
            Probe::Failed(CheckError::NoScript(b)) => ProbeView::Failed(CheckErrorView::NoScript(b@)),
        }
    }
}

/// One action of applying a modification: run a command, which must
/// succeed, or write a file over the file-transfer channel.
pub enum Step {
    Run(Command),
    Put(String, Vec<u8>),
}

pub enum StepView {
    Run(CommandView),
    Put(Seq<char>, Seq<u8>),
}

impl View for Step {
    type V = StepView;

    open spec fn view(&self) -> StepView {
        match self {
            Step::Run(c) => StepView::Run(c@),
            Step::Put(p, b) => StepView::Put(p@, b@),
        }
    }
}

pub open spec fn steps_view(s: Seq<Step>) -> Seq<StepView> {
    s.map_values(|x: Step| x@)
}

pub open spec fn is_ascii_space(b: u8) -> bool {
    b == 32 || b == 9 || b == 10 || b == 12 || b == 13
}

/// The end of the run of whitespace that starts at `i`.
pub open spec fn skip_spaces(s: Seq<u8>, i: int) -> int
    decreases s.len() - i,
{
    if 0 <= i < s.len() && is_ascii_space(s[i]) {
        skip_spaces(s, i + 1)
    } else {
        i
    }
}

/// The end of the run of non-whitespace that starts at `i`.
pub open spec fn word_end(s: Seq<u8>, i: int) -> int
    decreases s.len() - i,
{
    if 0 <= i < s.len() && !is_ascii_space(s[i]) {
        word_end(s, i + 1)
    } else {
        i
    }
}

/// The first whitespace-delimited word of a byte string (empty if none).
pub open spec fn first_word(s: Seq<u8>) -> Seq<u8> {
    s.subrange(skip_spaces(s, 0), word_end(s, skip_spaces(s, 0)))
}

pub open spec fn contains_bytes(hay: Seq<u8>, needle: Seq<u8>) -> bool {
    exists|i: int| 0 <= i && i + needle.len() <= hay.len() && #[trigger] hay.subrange(i, i + needle.len()) == needle
}

/// The directory a path lies in: what precedes its last `/` (the root for a
/// path directly under it), none for a path without a `/`.
pub open spec fn parent_dir(p: Seq<char>) -> Option<Seq<char>> {
    let k = last_index_of(p, '/', p.len() as int);
    if k < 0 {
        None
    } else if k == 0 {
        Some("/"@)
    } else {
        Some(p.subrange(0, k))
    }
}

pub open spec fn unit_path(name: Seq<char>) -> Seq<char> {
    "/etc/systemd/system/"@ + name + ".service"@
}

pub open spec fn cmd(program: Seq<char>, args: Seq<Seq<char>>) -> CommandView {
    CommandView { program, args }
}

/// The command that starts checking a rule.
pub open spec fn check_start(r: RuleView) -> CommandView {
    match r {
        RuleView::File(f) => match f.content {
            ContentView::Content(_, _) => cmd("sha256sum"@, seq![f.path]),
            ContentView::Url(_) => cmd("test"@, seq!["-f"@, f.path]),
        },
        RuleView::Package(n) => cmd("apt"@, seq!["-qq"@, "list"@, n]),
        RuleView::User(n, _) => cmd("id"@, seq![n]),
        RuleView::Service(n, _) => cmd("systemctl"@, seq!["list-unit-files"@, n + ".service"@]),
        RuleView::Which(b, _, _) => cmd("which"@, seq![b]),
    }
}

pub open spec fn new_service(name: Seq<char>, content: Seq<char>) -> ModificationView {
    ModificationView::NewService(name, content, sha256_hex_of(encode_utf8(content)))
}

/// What the output of the command at `stage` tells about a rule. Only a
/// service takes a second command (stage 1: the digest of its unit file).
pub open spec fn check_next(r: RuleView, stage: nat, success: bool, stdout: Seq<u8>) -> ProbeView {
    match r {
        RuleView::File(f) => match f.content {
            ContentView::Content(_, sha) => if first_word(stdout) == encode_utf8(sha) {
                ProbeView::Done(Seq::empty())
            } else {
                ProbeView::Done(seq![ModificationView::MissingFile(f)])
            },
            ContentView::Url(_) => if success {
                ProbeView::Done(Seq::empty())
            } else {
                ProbeView::Done(seq![ModificationView::MissingFile(f)])
            },
        },
        RuleView::Package(n) => if contains_bytes(stdout, encode_utf8(n)) {
            ProbeView::Done(Seq::empty())
        } else {
            ProbeView::Done(seq![ModificationView::AddPackage(n)])
        },
        RuleView::User(n, login) => if success {
            ProbeView::Done(Seq::empty())
        } else {
            ProbeView::Done(seq![ModificationView::AddUser(n, login)])
        },
        RuleView::Service(n, content) => if stage == 0 {
            if success {
                ProbeView::Run(cmd("sha256sum"@, seq![unit_path(n)]))
            } else {
                ProbeView::Done(seq![new_service(n, content)])
            }
        } else if !success {
            ProbeView::Failed(CheckErrorView::DigestFailed(unit_path(n)))
        } else if first_word(stdout) == encode_utf8(sha256_hex_of(encode_utf8(content))) {
            ProbeView::Done(Seq::empty())
        } else {
            ProbeView::Done(seq![new_service(n, content)])
        },
        RuleView::Which(b, script, _) => if success {
            ProbeView::Done(Seq::empty())
        } else {
            match script {
                Some(s) => ProbeView::Done(seq![ModificationView::RunScript(s)]),
                None => ProbeView::Failed(CheckErrorView::NoScript(b)),
            }
        },
    }
}

/// After a transfer: the mode (in octal), then the owner and the group
/// when they are set (as numeric ids).
pub open spec fn attribute_steps(f: FileSpecView) -> Seq<StepView> {
    let chmod = seq![StepView::Run(cmd("chmod"@, seq![radix_digits(f.mode as nat, 8), f.path]))];
    let chown = match f.owner {
        Some(uid) => seq![StepView::Run(cmd("chown"@, seq![radix_digits(uid as nat, 10), f.path]))],
        None => Seq::empty(),
    };
    let chgrp = match f.group {
        Some(gid) => seq![StepView::Run(cmd("chgrp"@, seq![radix_digits(gid as nat, 10), f.path]))],
        None => Seq::empty(),
    };
    chmod + chown + chgrp
}

/// The steps that apply a modification, in order.
pub open spec fn apply_plan(m: ModificationView) -> Seq<StepView> {
    match m {
        ModificationView::MissingFile(f) => {
            let prepare = match parent_dir(f.path) {
                Some(d) => seq![StepView::Run(cmd("mkdir"@, seq!["-p"@, d]))],
                None => Seq::empty(),
            };
            let transfer = match f.content {
                ContentView::Content(bytes, _) => StepView::Put(f.path, bytes),
                ContentView::Url(url) => StepView::Run(cmd("curl"@, seq!["-L"@, "-o"@, f.path, url])),
            };
            prepare.push(transfer) + attribute_steps(f)
        },
        ModificationView::AddPackage(n) => seq![StepView::Run(cmd("apt"@, seq!["install"@, "-y"@, n]))],
        ModificationView::AddUser(n, login) => if login {
            seq![StepView::Run(cmd("useradd"@, seq!["-m"@, n]))]
        } else {
            seq![StepView::Run(cmd("useradd"@, seq![n]))]
        },
        ModificationView::NewService(n, content, _) => seq![
            StepView::Put(unit_path(n), encode_utf8(content)),
            StepView::Run(cmd("systemctl"@, seq!["restart"@, n])),
        ],
        ModificationView::RunScript(s) => seq![StepView::Run(cmd("sh"@, seq!["-c"@, s]))],
    }
}

fn no_args() -> (r: Vec<String>)
    ensures
        r.deep_view() == Seq::<Seq<char>>::empty(),
{
    let r: Vec<String> = Vec::new();
    assert(r.deep_view() =~= Seq::<Seq<char>>::empty());
    r
}

fn push_arg(args: &mut Vec<String>, a: String)
    ensures
        final(args).deep_view() == old(args).deep_view().push(a@),
{
    args.push(a);
    assert(args.deep_view() =~= old(args).deep_view().push(a@));
}

fn is_space(b: u8) -> (r: bool)
    ensures
        r == is_ascii_space(b),
{
    b == 32 || b == 9 || b == 10 || b == 12 || b == 13
}

/// Whether the first whitespace-delimited word of `s` is exactly `expected`.
pub fn first_word_is(s: &[u8], expected: &[u8]) -> (r: bool)
    ensures
        r == (first_word(s@) == expected@),
{
    let n = s.len();
    let mut i: usize = 0;
    while i < n && is_space(s[i])
        invariant
            n == s@.len(),
            i <= n,
            skip_spaces(s@, i as int) == skip_spaces(s@, 0),
        decreases n - i,
    {
        i = i + 1;
    }
    let start = i;
    while i < n && !is_space(s[i])
        invariant
            n == s@.len(),
            start <= i <= n,
            start == skip_spaces(s@, 0),
            word_end(s@, i as int) == word_end(s@, start as int),
        decreases n - i,
    {
        i = i + 1;
    }
    assert(word_end(s@, i as int) == i);
    if i - start != expected.len() {
        return false;
    }
    let mut k: usize = 0;
    while k < expected.len()
        invariant
            start + expected@.len() == i <= n,
            start == skip_spaces(s@, 0),
            i == word_end(s@, start as int),
            n == s@.len(),
            k <= expected@.len(),
            forall|j: int| 0 <= j < k ==> s@[start + j] == expected@[j],
        decreases expected@.len() - k,
    {
        if s[start + k] != expected[k] {
            assert(first_word(s@)[k as int] != expected@[k as int]);
            return false;
        }
        k = k + 1;
    }
    assert(first_word(s@) =~= expected@);
    true
}

/// Whether `needle` occurs in `hay` as a contiguous run of bytes.
pub fn contains(hay: &[u8], needle: &[u8]) -> (r: bool)
    ensures
        r == contains_bytes(hay@, needle@),
{
    let n = hay.len();
    let m = needle.len();
    if m > n {
        return false;
    }
    if m == 0 {
        assert(hay@.subrange(0, 0 + needle@.len() as int) =~= needle@);
        return true;
    }
    let mut i: usize = 0;
    while i <= n - m
        invariant
            n == hay@.len(),
            m == needle@.len(),
            0 < m <= n,
            i <= n - m + 1,
            forall|j: int| 0 <= j < i ==> #[trigger] hay@.subrange(j, j + m as int) != needle@,
        decreases n - m + 1 - i,
    {
        let mut k: usize = 0;
        let mut same = true;
        while k < m
            invariant
                n == hay@.len(),
                m == needle@.len(),
                i + m <= n,
                k <= m,
                same ==> forall|j: int| 0 <= j < k ==> hay@[i + j] == needle@[j],
                !same ==> hay@.subrange(i as int, i + m) != needle@,
            decreases m - k,
        {
            if hay[i + k] != needle[k] {
                assert(hay@.subrange(i as int, i + m)[k as int] != needle@[k as int]);
                same = false;
            }
            k = k + 1;
        }
        if same {
            assert(hay@.subrange(i as int, i + m) =~= needle@);
            return true;
        }
        i = i + 1;
    }
    false
}

fn missing_file(f: &FileSpec) -> (r: Modification)
    ensures
        r@ == ModificationView::MissingFile(f@),
{
    Modification::File(FileChange::MissingFile(MissingFile {
        path: f.path.clone(),
        content: f.content.duplicate(),
        owner: f.owner,
        group: f.group,
        mode: f.mode,
    }))
}

fn unit_file_path(name: &str) -> (r: String)
    ensures
        r@ == unit_path(name@),
{
    let head = concat("/etc/systemd/system/", name);
    concat(head.as_str(), ".service")
}

fn no_change() -> (r: Probe)
    ensures
        r@ == ProbeView::Done(Seq::<ModificationView>::empty()),
{
    let v: Vec<Modification> = Vec::new();
    let r = Probe::Done(v);
    assert(v@.map_values(|m: Modification| m@) =~= Seq::<ModificationView>::empty());
    r
}

fn change(m: Modification) -> (r: Probe)
    ensures
        r@ == ProbeView::Done(seq![m@]),
{
    let v: Vec<Modification> = vec![m];
    assert(v@.map_values(|x: Modification| x@) =~= seq![m@]);
    Probe::Done(v)
}

fn new_service_change(name: &String, content: &String) -> (r: Modification)
    ensures
        r@ == new_service(name@, content@),
{
    let sha = sha256_hex(content.as_str().as_bytes());
    Modification::Service(ServiceChange::NewService(NewService {
        name: name.clone(),
        service_file_content: content.clone(),
        service_file_content_sha256: sha,
    }))
}

impl Rule {
    /// The command whose output starts checking this rule.
    pub fn check_start(&self) -> (r: Command)
        ensures
            r@ == check_start(self@),
    {
        match self {
            Rule::File(f) => match &f.content {
                FileContent::Content(_, _) => Command { program: owned("sha256sum"), args: args1(f.path.clone()) },
                FileContent::Url(_) => Command { program: owned("test"), args: args2(owned("-f"), f.path.clone()) },
            },
            Rule::Package(p) => Command {
                program: owned("apt"),
                args: args3(owned("-qq"), owned("list"), p.name.clone()),
            },
            Rule::User(u) => Command { program: owned("id"), args: args1(u.name.clone()) },
            Rule::Service(s) => Command {
                program: owned("systemctl"),
                args: args2(owned("list-unit-files"), concat(s.name.as_str(), ".service")),
            },
            Rule::Which(w) => Command { program: owned("which"), args: args1(w.bin.clone()) },
        }
    }

    /// What the output of the command at `stage` tells about this rule.
    pub fn check_next(&self, stage: usize, out: &Output) -> (r: Probe)
        ensures
            r@ == check_next(self@, stage as nat, out.success, out.stdout@),
    {
        match self {
            Rule::File(f) => match &f.content {
                FileContent::Content(_, sha) => if first_word_is(out.stdout.as_slice(), sha.as_str().as_bytes()) {
                    no_change()
                } else {
                    change(missing_file(f))
                },
                FileContent::Url(_) => if out.success {
                    no_change()
                } else {
                    change(missing_file(f))
                },
            },
            Rule::Package(p) => if contains(out.stdout.as_slice(), p.name.as_str().as_bytes()) {
                no_change()
            } else {
                change(Modification::Package(PackageChange::AddPackage(PackageSpec { name: p.name.clone() })))
            },
            Rule::User(u) => if out.success {
                no_change()
            } else {
                change(Modification::User(UserChange::Add(UserSpec { name: u.name.clone(), is_login: u.is_login })))
            },
            Rule::Service(s) => if stage == 0 {
                if out.success {
                    Probe::Run(Command { program: owned("sha256sum"), args: args1(unit_file_path(s.name.as_str())) })
                } else {
                    change(new_service_change(&s.name, &s.service_file_content))
                }
            } else if !out.success {
                Probe::Failed(CheckError::DigestFailed(unit_file_path(s.name.as_str())))
            } else {
                let sha = sha256_hex(s.service_file_content.as_str().as_bytes());
                if first_word_is(out.stdout.as_slice(), sha.as_str().as_bytes()) {
                    no_change()
                } else {
                    change(new_service_change(&s.name, &s.service_file_content))
                }
            },
            Rule::Which(w) => if out.success {
                no_change()
            } else {
                match &w.script {
                    Some(script) => change(Modification::Which(WhichChange::RunScript(script.clone()))),
                    None => Probe::Failed(CheckError::NoScript(w.bin.clone())),
                }
            },
        }
    }
}

fn parent_of(path: &str) -> (r: Option<String>)
    ensures
        r.deep_view() == parent_dir(path@),
{
    match last_index(path, '/') {
        None => None,
        Some(k) => if k == 0 {
            Some(owned("/"))
        } else {
            Some(String::from_str(path.substring_char(0, k)))
        },
    }
}

fn run_step(program: &str, args: Vec<String>) -> (r: Step)
    ensures
        r@ == StepView::Run(cmd(program@, args.deep_view())),
{
    Step::Run(Command { program: owned(program), args })
}

fn args2(a: String, b: String) -> (r: Vec<String>)
    ensures
        r.deep_view() == seq![a@, b@],
{
    let mut args = no_args();
    push_arg(&mut args, a);
    push_arg(&mut args, b);
    assert(args.deep_view() =~= seq![a@, b@]);
    args
}

fn args3(a: String, b: String, c: String) -> (r: Vec<String>)
    ensures
        r.deep_view() == seq![a@, b@, c@],
{
    let mut args = args2(a, b);
    push_arg(&mut args, c);
    assert(args.deep_view() =~= seq![a@, b@, c@]);
    args
}

fn args4(a: String, b: String, c: String, d: String) -> (r: Vec<String>)
    ensures
        r.deep_view() == seq![a@, b@, c@, d@],
{
    let mut args = args3(a, b, c);
    push_arg(&mut args, d);
    assert(args.deep_view() =~= seq![a@, b@, c@, d@]);
    args
}

fn args1(a: String) -> (r: Vec<String>)
    ensures
        r.deep_view() == seq![a@],
{
    let mut args = no_args();
    push_arg(&mut args, a);
    assert(args.deep_view() =~= seq![a@]);
    args
}

fn push_step(steps: &mut Vec<Step>, s: Step)
    ensures
        steps_view(final(steps)@) == steps_view(old(steps)@).push(s@),
{
    steps.push(s);
    assert(steps_view(steps@) =~= steps_view(old(steps)@).push(s@));
}

impl Modification {
    /// The steps that apply this modification, in order.
    pub fn apply_steps(&self) -> (r: Vec<Step>)
        ensures
            steps_view(r@) == apply_plan(self@),
    {
        let mut steps: Vec<Step> = Vec::new();
        assert(steps_view(steps@) =~= Seq::<StepView>::empty());
        match self {
            Modification::File(FileChange::MissingFile(m)) => {
                match parent_of(m.path.as_str()) {
                    Some(dir) => push_step(&mut steps, run_step("mkdir", args2(owned("-p"), dir))),
                    None => {},
                }
                match &m.content {
                    FileContent::Content(bytes, _) => {
                        push_step(&mut steps, Step::Put(m.path.clone(), copy_bytes(bytes)));
                    },
                    FileContent::Url(url) => {
                        let args = args4(owned("-L"), owned("-o"), m.path.clone(), url.clone());
                        push_step(&mut steps, run_step("curl", args));
                    },
                }
                let ghost before = steps_view(steps@);
                push_step(&mut steps, run_step("chmod", args2(radix(m.mode as u64, 8), m.path.clone())));
                let ghost with_mode = steps_view(steps@);
                match m.owner {
                    Some(uid) => push_step(&mut steps, run_step("chown", args2(radix(uid as u64, 10), m.path.clone()))),
                    None => {},
                }
                let ghost with_owner = steps_view(steps@);
                match m.group {
                    Some(gid) => push_step(&mut steps, run_step("chgrp", args2(radix(gid as u64, 10), m.path.clone()))),
                    None => {},
                }
                proof {
                    let f = FileSpecView { path: m.path@, mode: m.mode, content: m.content@, owner: m.owner, group: m.group };
                    assert(with_mode =~~= before + seq![StepView::Run(cmd("chmod"@, seq![radix_digits(f.mode as nat, 8), f.path]))]);
                    assert(steps_view(steps@) =~~= before + attribute_steps(f));
                }
                assert(steps_view(steps@) =~~= apply_plan(self@));
            },
            Modification::Package(PackageChange::AddPackage(p)) => {
                push_step(&mut steps, run_step("apt", args3(owned("install"), owned("-y"), p.name.clone())));
            },
            Modification::User(UserChange::Add(u)) => {
                let args = if u.is_login {
                    args2(owned("-m"), u.name.clone())
                } else {
                    args1(u.name.clone())
                };
                push_step(&mut steps, run_step("useradd", args));
            },
            Modification::Service(ServiceChange::NewService(s)) => {
                push_step(&mut steps, Step::Put(unit_file_path(s.name.as_str()), s.service_file_content.as_str().as_bytes_vec()));
                push_step(&mut steps, run_step("systemctl", args2(owned("restart"), s.name.clone())));
            },
            Modification::Which(WhichChange::RunScript(script)) => {
                push_step(&mut steps, run_step("sh", args2(owned("-c"), script.clone())));
            },
        }
        assert(steps_view(steps@) =~~= apply_plan(self@));
        steps
    }
}

/// What `sha256sum <path>` prints for a file holding `data`: the hex
/// digest, two spaces, the path, a newline.
pub open spec fn sha256sum_report(data: Seq<u8>, path: Seq<char>) -> Seq<u8> {
    encode_utf8(sha256_hex_of(data)) + seq![32u8, 32u8] + encode_utf8(path) + seq![10u8]
}

proof fn lemma_hex_bytes(s: Seq<char>)
    requires
        forall|i: int| 0 <= i < s.len() ==> crate::digest::is_lower_hex_digit(#[trigger] s[i]),
    ensures
        encode_utf8(s).len() == s.len(),
        forall|i: int| 0 <= i < s.len() ==> !is_ascii_space(#[trigger] encode_utf8(s)[i]),
    decreases s.len(),
{
    if s.len() > 0 {
        let c = s[0] as u32;
        assert(crate::digest::is_lower_hex_digit(s[0]));
        assert(48 <= c <= 57 || 97 <= c <= 102);
        assert(c & 0x7F == c) by (bit_vector)
            requires
                c <= 0x7F,
        ;
        lemma_hex_bytes(s.drop_first());
        let rest = encode_utf8(s.drop_first());
        assert(encode_utf8(s) == seq![(c & 0x7F) as u8] + rest);
        assert forall|i: int| 0 <= i < s.len() implies !is_ascii_space(#[trigger] encode_utf8(s)[i]) by {
            if i > 0 {
                assert(encode_utf8(s)[i] == rest[i - 1]);
                assert(s.drop_first()[i - 1] == s[i]);
            }
        }
    }
}

proof fn lemma_word_end(s: Seq<u8>, i: int, n: int)
    requires
        0 <= i <= n < s.len(),
        forall|j: int| i <= j < n ==> !is_ascii_space(#[trigger] s[j]),
        is_ascii_space(s[n]),
    ensures
        word_end(s, i) == n,
    decreases n - i,
{
    if i < n {
        lemma_word_end(s, i + 1, n);
    }
}

/// File convergence: applying the modification for a file whose content is
/// given as bytes transfers exactly those bytes to the path, in its only
/// transfer (every other step runs a command); and when the host then
/// reports their digest, the same rule finds nothing to change.
pub proof fn lemma_file_convergence(f: FileSpecView, data: Seq<u8>)
    requires
        f.content == ContentView::Content(data, sha256_hex_of(data)),
        is_hex_digest(sha256_hex_of(data)),
    ensures
        exists|k: int| 0 <= k < apply_plan(ModificationView::MissingFile(f)).len()
            && apply_plan(ModificationView::MissingFile(f))[k] == StepView::Put(f.path, data)
            && forall|j: int| 0 <= j < apply_plan(ModificationView::MissingFile(f)).len() && j != k
                ==> #[trigger] apply_plan(ModificationView::MissingFile(f))[j] is Run,
        check_start(RuleView::File(f)) == cmd("sha256sum"@, seq![f.path]),
        check_next(RuleView::File(f), 0, true, sha256sum_report(data, f.path)) == ProbeView::Done(Seq::<ModificationView>::empty()),
{
    let plan = apply_plan(ModificationView::MissingFile(f));
    let prepare = match parent_dir(f.path) {
        Some(d) => seq![StepView::Run(cmd("mkdir"@, seq!["-p"@, d]))],
        None => Seq::<StepView>::empty(),
    };
    let k = prepare.len() as int;
    assert(plan == prepare.push(StepView::Put(f.path, data)) + attribute_steps(f));
    assert(plan[k] == StepView::Put(f.path, data));
    assert forall|j: int| 0 <= j < plan.len() && j != k implies #[trigger] plan[j] is Run by {
        if j > k {
            assert(plan[j] == attribute_steps(f)[j - k - 1]);
        }
    }
    lemma_report_first_word(data, f.path);
}

/// The first word of the digest report for `data` is the digest itself.
proof fn lemma_report_first_word(data: Seq<u8>, path: Seq<char>)
    requires
        is_hex_digest(sha256_hex_of(data)),
    ensures
        first_word(sha256sum_report(data, path)) == encode_utf8(sha256_hex_of(data)),
{
    let sha = sha256_hex_of(data);
    let report = sha256sum_report(data, path);
    let word = encode_utf8(sha);
    lemma_hex_bytes(sha);
    let n = word.len() as int;
    assert(report[n] == 32u8);
    assert forall|j: int| 0 <= j < n implies !is_ascii_space(#[trigger] report[j]) by {
        assert(report[j] == word[j]);
    }
    assert(!is_ascii_space(report[0]));
    assert(skip_spaces(report, 0) == 0);
    lemma_word_end(report, 0, n);
    assert(first_word(report) =~= word);
}

/// Service convergence: applying the modification for a unit writes its
/// content to the unit file and then restarts the service; when the host
/// then lists the unit and reports the digest of that content, the same
/// rule finds nothing to change.
pub proof fn lemma_service_convergence(name: Seq<char>, content: Seq<char>, listing: Seq<u8>)
    requires
        is_hex_digest(sha256_hex_of(encode_utf8(content))),
    ensures
        apply_plan(new_service(name, content)) == seq![
            StepView::Put(unit_path(name), encode_utf8(content)),
            StepView::Run(cmd("systemctl"@, seq!["restart"@, name])),
        ],
        check_next(RuleView::Service(name, content), 0, true, listing)
            == ProbeView::Run(cmd("sha256sum"@, seq![unit_path(name)])),
        check_next(RuleView::Service(name, content), 1, true,
            sha256sum_report(encode_utf8(content), unit_path(name))) == ProbeView::Done(Seq::<ModificationView>::empty()),
{
    lemma_report_first_word(encode_utf8(content), unit_path(name));
}

} // verus!
