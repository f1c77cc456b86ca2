use vstd::prelude::*;
use crate::digest::{is_hex_digest, sha256_hex, sha256_hex_of};

verus! {

/// What a managed file must contain: literal bytes with their SHA-256 digest,
/// or a URL that the host downloads the content from.
#[derive(Debug, Clone)]
pub enum FileContent {
    Content(Vec<u8>, String),
    Url(String),
}

pub enum ContentView {
    Content(Seq<u8>, Seq<char>),
    Url(Seq<char>),
}

impl View for FileContent {
    type V = ContentView;

    open spec fn view(&self) -> ContentView {
        match self {
            FileContent::Content(bytes, sha) => ContentView::Content(bytes@, sha@),
            FileContent::Url(url) => ContentView::Url(url@),
        }
    }
}

impl FileContent {
    pub fn duplicate(&self) -> (r: FileContent)
        ensures
            r@ == self@,
    {
        match self {
            FileContent::Content(bytes, sha) => FileContent::Content(copy_bytes(bytes), sha.clone()),
            FileContent::Url(url) => FileContent::Url(url.clone()),
        }
    }
}

/// A copy of a byte vector.
pub fn copy_bytes(v: &Vec<u8>) -> (r: Vec<u8>)
    ensures
        r@ == v@,
{
    let mut r: Vec<u8> = Vec::with_capacity(v.len());
    let mut i: usize = 0;
    while i < v.len()
        invariant
            i <= v@.len(),
            r@ == v@.subrange(0, i as int),
        decreases v@.len() - i,
    {
        r.push(v[i]);
        i = i + 1;
    }
    assert(r@ =~= v@);
    r
}

/// A copy of a vector of strings.
pub fn copy_strings(v: &Vec<String>) -> (r: Vec<String>)
    ensures
        r.deep_view() == v.deep_view(),
{
    let mut r: Vec<String> = Vec::new();
    let mut i: usize = 0;
    while i < v.len()
        invariant
            i <= v@.len(),
            r@.len() == i,
            forall|k: int| 0 <= k < i ==> #[trigger] r@[k]@ == v@[k]@,
        decreases v@.len() - i,
    {
        r.push(v[i].clone());
        i = i + 1;
    }
    assert(r.deep_view() =~= v.deep_view());
    r
}

/// A copy of an optional string.
pub fn copy_opt_string(v: &Option<String>) -> (r: Option<String>)
    ensures
        r.deep_view() == v.deep_view(),
{
    match v {
        Some(s) => Some(s.clone()),
        None => None,
    }
}

/// A remote file with exact content, mode and ownership.
#[derive(Debug, Clone)]
pub struct FileSpec {
    pub path: String,
    pub mode: u32,
    pub content: FileContent,
    pub owner: Option<u32>,
    pub group: Option<u32>,
}

pub struct FileSpecView {
    pub path: Seq<char>,
    pub mode: u32,
    pub content: ContentView,
    pub owner: Option<u32>,
    pub group: Option<u32>,
}

impl View for FileSpec {
    type V = FileSpecView;

    open spec fn view(&self) -> FileSpecView {
        FileSpecView {
            path: self.path@,
            mode: self.mode,
            content: self.content@,
            owner: self.owner,
            group: self.group,
        }
    }
}

/// The mode given to files that do not name one (`rw-r--r--`).
pub const DEFAULT_MODE: u32 = 0o644;

/// The file spec a path and literal content stand for: default mode, no
/// ownership, and the content's digest.
pub open spec fn file_spec_of(path: Seq<char>, content: Seq<u8>) -> FileSpecView {
    FileSpecView {
        path,
        mode: DEFAULT_MODE,
        content: ContentView::Content(content, sha256_hex_of(content)),
        owner: None,
        group: None,
    }
}

impl FileSpec {
    pub fn new(path: String, content: Vec<u8>) -> (r: FileSpec)
        ensures
            r@ == file_spec_of(path@, content@),
            sha256_hex_of(content@).len() == 64,
            is_hex_digest(sha256_hex_of(content@)),
    {
        let sha256 = sha256_hex(content.as_slice());
        FileSpec {
            path,
            mode: DEFAULT_MODE,
            content: FileContent::Content(content, sha256),
            owner: None,
            group: None,
        }
    }

    pub fn duplicate(&self) -> (r: FileSpec)
        ensures
            r@ == self@,
    {
        FileSpec {
            path: self.path.clone(),
            mode: self.mode,
            content: self.content.duplicate(),
            owner: self.owner,
            group: self.group,
        }
    }
}

/// A package that must be installed.
#[derive(Debug, Clone)]
pub struct PackageSpec {
    pub name: String,
}

/// A user account that must exist; a login user also gets a home directory.
#[derive(Debug, Clone)]
pub struct UserSpec {
    pub name: String,
    pub is_login: bool,
}

/// A systemd unit whose file must hold exactly the given content.
#[derive(Debug, Clone)]
pub struct ServiceSpec {
    pub name: String,
    pub service_file_content: String,
}

/// An executable that must be on the host's PATH; `script` installs it.
#[derive(Debug, Clone)]
pub struct WhichSpec {
    pub bin: String,
    pub script: Option<String>,
    pub script_file: Option<String>,
}

/// A host to reconcile: an SSH destination and its role labels.
#[derive(Debug, Clone)]
pub struct Host {
    pub name: String,
    pub roles: Vec<String>,
}

pub struct HostView {
    pub name: Seq<char>,
    pub roles: Seq<Seq<char>>,
}

impl View for Host {
    type V = HostView;

    open spec fn view(&self) -> HostView {
        HostView { name: self.name@, roles: self.roles.deep_view() }
    }
}

/// A host with the given name and no roles.
pub fn host(hostname: &str) -> (r: Host)
    ensures
        r@ == (HostView { name: hostname@, roles: Seq::empty() }),
{
    let r = Host { name: String::from_str(hostname), roles: Vec::new() };
    assert(r.roles.deep_view() =~= Seq::<Seq<char>>::empty());
    r
}

impl Host {
    pub open spec fn spec_name(&self) -> Seq<char> {
        self@.name
    }

    pub fn name(&self) -> (r: &str)
        ensures
            r@ == self.spec_name(),
    {
        self.name.as_str()
    }

    pub fn duplicate(&self) -> (r: Host)
        ensures
            r@ == self@,
    {
        Host { name: self.name.clone(), roles: copy_strings(&self.roles) }
    }
}

/// A rule of any kind, in declaration order within a state.
#[derive(Debug, Clone)]
pub enum Rule {
    File(FileSpec),
    Package(PackageSpec),
    User(UserSpec),
    Service(ServiceSpec),
    Which(WhichSpec),
}

pub enum RuleView {
    File(FileSpecView),
    Package(Seq<char>),
    User(Seq<char>, bool),
    Service(Seq<char>, Seq<char>),
    Which(Seq<char>, Option<Seq<char>>, Option<Seq<char>>),
}

impl View for Rule {
    type V = RuleView;

    open spec fn view(&self) -> RuleView {
        match self {
            Rule::File(f) => RuleView::File(f@),
            Rule::Package(p) => RuleView::Package(p.name@),
            Rule::User(u) => RuleView::User(u.name@, u.is_login),
            Rule::Service(s) => RuleView::Service(s.name@, s.service_file_content@),
            Rule::Which(w) => RuleView::Which(w.bin@, w.script.deep_view(), w.script_file.deep_view()),
        }
    }
}

impl Rule {
    /// The label of the rule: the file path, package, user, unit or binary name.
    pub fn identifier(&self) -> (r: &str)
        ensures
            r@ == match self@ {
                RuleView::File(f) => f.path,
                RuleView::Package(n) => n,
                RuleView::User(n, _) => n,
                RuleView::Service(n, _) => n,
                RuleView::Which(b, _, _) => b,
            },
    {
        match self {
            Rule::File(f) => f.path.as_str(),
            Rule::Package(p) => p.name.as_str(),
            Rule::User(u) => u.name.as_str(),
            Rule::Service(s) => s.name.as_str(),
            Rule::Which(w) => w.bin.as_str(),
        }
    }

    pub fn duplicate(&self) -> (r: Rule)
        ensures
            r@ == self@,
    {
        match self {
            Rule::File(f) => Rule::File(f.duplicate()),
            Rule::Package(p) => Rule::Package(PackageSpec { name: p.name.clone() }),
            Rule::User(u) => Rule::User(UserSpec { name: u.name.clone(), is_login: u.is_login }),
            Rule::Service(s) => Rule::Service(
                ServiceSpec {
                    name: s.name.clone(),
                    service_file_content: s.service_file_content.clone(),
                },
            ),
            Rule::Which(w) => Rule::Which(
                WhichSpec {
                    bin: w.bin.clone(),
                    script: copy_opt_string(&w.script),
                    script_file: copy_opt_string(&w.script_file),
                },
            ),
        }
    }
}

} // verus!
