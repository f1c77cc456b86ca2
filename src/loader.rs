use vstd::prelude::*;
use crate::glob::{all_valid, anywhere_all_spec, first_rejected, pattern_accepted, GlobError, GlobFilter};
use crate::model::{
    ContentView, FileContent, FileSpec, FileSpecView, Host, HostView, PackageSpec, Rule, RuleView,
    UserSpec, WhichSpec, file_spec_of, DEFAULT_MODE, host,
};
use crate::node::{
    all_strs, arg_error, str_arg, str_args, str_at, strs_upto, ChildNode, LoadError, LoadErrorView, Node,
    Value,
};
use crate::text::{join, join_path, owned, same};
use vstd::utf8::encode_utf8;
use vstd::string::StrSliceExecFns;

verus! {

/// The handler a tag is registered to.
#[derive(Debug, Clone, Copy, PartialEq, Eq, Structural)]
pub enum Keyword {
    File,
    Cp,
    Package,
    User,
    Service,
    Which,
    Host,
}

/// Load-time context: the local root that relative paths resolve against,
/// and the keyword registry that maps tags to handlers.
pub struct Context {
    root: String,
    keywords: Vec<(String, Keyword)>,
}

/// The handler registered for a tag: the first entry with that tag.
pub open spec fn lookup(reg: Seq<(Seq<char>, Keyword)>, tag: Seq<char>) -> Option<Keyword>
    decreases reg.len(),
{
    if reg.len() == 0 {
        None
    } else if reg[0].0 == tag {
        Some(reg[0].1)
    } else {
        lookup(reg.drop_first(), tag)
    }
}

/// The tags of the built-in resource kinds.
pub open spec fn standard_registry() -> Seq<(Seq<char>, Keyword)> {
    seq![
        ("file"@, Keyword::File),
        ("cp"@, Keyword::Cp),
        ("package"@, Keyword::Package),
        ("user"@, Keyword::User),
        ("service"@, Keyword::Service),
        ("which"@, Keyword::Which),
        ("host"@, Keyword::Host),
    ]
}

impl Context {
    pub closed spec fn spec_root(&self) -> Seq<char> {
        self.root@
    }

    pub closed spec fn registry(&self) -> Seq<(Seq<char>, Keyword)> {
        self.keywords@.map_values(|e: (String, Keyword)| (e.0@, e.1))
    }

    /// A context for an already canonical root, with no tag registered.
    pub fn new(root: String) -> (r: Context)
        ensures
            r.spec_root() == root@,
            r.registry() == Seq::<(Seq<char>, Keyword)>::empty(),
    {
        let r = Context { root, keywords: Vec::new() };
        assert(r.registry() =~= Seq::<(Seq<char>, Keyword)>::empty());
        r
    }

    pub fn root(&self) -> (r: &str)
        ensures
            r@ == self.spec_root(),
    {
        self.root.as_str()
    }

    /// A document path resolved against the root.
    pub fn local_path(&self, path: &str) -> (r: String)
        ensures
            r@ == join_path(self.spec_root(), path@),
    {
        join(self.root.as_str(), path)
    }

    /// The handler of a tag.
    pub fn handler(&self, tag: &str) -> (r: Option<Keyword>)
        ensures
            r == lookup(self.registry(), tag@),
    {
        let mut i: usize = 0;
        assert(self.registry().subrange(0, self.registry().len() as int) =~= self.registry());
        while i < self.keywords.len()
            invariant
                i <= self.keywords@.len(),
                lookup(self.registry(), tag@) == lookup(self.registry().subrange(i as int, self.registry().len() as int), tag@),
            decreases self.keywords@.len() - i,
        {
            let ghost rest = self.registry().subrange(i as int, self.registry().len() as int);
            assert(rest.drop_first() =~= self.registry().subrange(i + 1, self.registry().len() as int));
            if same(self.keywords[i].0.as_str(), tag) {
                return Some(self.keywords[i].1);
            }
            i = i + 1;
        }
        None
    }

    /// Registers a tag; a tag that already has a handler is refused and the
    /// registry is left as it was.
    pub fn register(&mut self, tag: &str, handler: Keyword) -> (r: Result<(), LoadError>)
        ensures
            match lookup(old(self).registry(), tag@) {
                Some(_) => r matches Err(e) && e@ == LoadErrorView::DuplicateKeyword(tag@)
                    && final(self).registry() == old(self).registry(),
                None => r is Ok && final(self).registry() == old(self).registry().push((tag@, handler)),
            },
            final(self).spec_root() == old(self).spec_root(),
    {
        match self.handler(tag) {
            Some(_) => Err(LoadError::DuplicateKeyword(owned(tag))),
            None => {
                self.keywords.push((owned(tag), handler));
                assert(self.registry() =~= old(self).registry().push((tag@, handler)));
                Ok(())
            },
        }
    }
}

/// Registers the tags of the built-in resource kinds. Fails, changing
/// nothing, when one of them already has a handler.
pub fn add_kdl_deserializers_to_context(cx: &mut Context) -> (r: Result<(), LoadError>)
    ensures
        final(cx).spec_root() == old(cx).spec_root(),
        r is Ok <==> forall|i: int| 0 <= i < standard_registry().len()
            ==> lookup(old(cx).registry(), #[trigger] standard_registry()[i].0) is None,
        r is Ok ==> final(cx).registry() == old(cx).registry() + standard_registry(),
        r is Err ==> final(cx).registry() == old(cx).registry(),
{
    let tags: [(&str, Keyword); 7] = [
        ("file", Keyword::File),
        ("cp", Keyword::Cp),
        ("package", Keyword::Package),
        ("user", Keyword::User),
        ("service", Keyword::Service),
        ("which", Keyword::Which),
        ("host", Keyword::Host),
    ];
    proof {
        reveal_strlit("file");
        reveal_strlit("cp");
        reveal_strlit("package");
        reveal_strlit("user");
        reveal_strlit("service");
        reveal_strlit("which");
        reveal_strlit("host");
    }
    let mut i: usize = 0;
    while i < 7
        invariant
            i <= 7,
            forall|j: int| 0 <= j < 7 ==> (#[trigger] tags@[j]).0@ == standard_registry()[j].0
                && tags@[j].1 == standard_registry()[j].1,
            forall|j: int| 0 <= j < i ==> lookup(cx.registry(), #[trigger] standard_registry()[j].0) is None,
        decreases 7 - i,
    {
        if cx.handler(tags[i].0).is_some() {
            return Err(LoadError::DuplicateKeyword(owned(tags[i].0)));
        }
        i = i + 1;
    }
    let ghost base = cx.registry();
    let mut i: usize = 0;
    while i < 7
        invariant
            i <= 7,
            forall|j: int| 0 <= j < 7 ==> (#[trigger] tags@[j]).0@ == standard_registry()[j].0
                && tags@[j].1 == standard_registry()[j].1,
            forall|j: int| 0 <= j < 7 ==> lookup(base, #[trigger] standard_registry()[j].0) is None,
            cx.registry() == base + standard_registry().subrange(0, i as int),
            cx.spec_root() == old(cx).spec_root(),
        decreases 7 - i,
    {
        proof {
            assert forall|t: Seq<char>| lookup(cx.registry(), t) is Some && lookup(base, t) is None
                implies exists|j: int| 0 <= j < i && t == #[trigger] standard_registry()[j].0 by {
                lemma_lookup_prefix(base, standard_registry(), i as int, t);
            }
        }
        assert(lookup(cx.registry(), standard_registry()[i as int].0) is None) by {
            if lookup(cx.registry(), standard_registry()[i as int].0) is Some {
                let j = choose|j: int| 0 <= j < i && standard_registry()[i as int].0 == #[trigger] standard_registry()[j].0;
                lemma_standard_tags_distinct(i as int, j);
            }
        }
        let res = cx.register(tags[i].0, tags[i].1);
        i = i + 1;
        assert(cx.registry() =~= base + standard_registry().subrange(0, i as int));
    }
    assert(standard_registry().subrange(0, 7) =~= standard_registry());
    Ok(())
}

proof fn lemma_standard_tags_distinct(i: int, j: int)
    requires
        0 <= i < 7,
        0 <= j < 7,
        i != j,
    ensures
        standard_registry()[i].0 != standard_registry()[j].0,
{
    reveal_strlit("file");
    reveal_strlit("cp");
    reveal_strlit("package");
    reveal_strlit("user");
    reveal_strlit("service");
    reveal_strlit("which");
    reveal_strlit("host");
    let firsts = seq!['f', 'c', 'p', 'u', 's', 'w', 'h'];
    assert forall|k: int| 0 <= k < 7 implies standard_registry()[k].0.len() > 0
        && standard_registry()[k].0[0] == #[trigger] firsts[k] by {}
    assert(standard_registry()[i].0[0] != standard_registry()[j].0[0]);
}

proof fn lemma_lookup_prefix(base: Seq<(Seq<char>, Keyword)>, extra: Seq<(Seq<char>, Keyword)>, i: int, t: Seq<char>)
    requires
        0 <= i <= extra.len(),
        lookup(base + extra.subrange(0, i), t) is Some,
        lookup(base, t) is None,
    ensures
        exists|j: int| 0 <= j < i && t == #[trigger] extra[j].0,
    decreases base.len(),
{
    if base.len() == 0 {
        lemma_lookup_found(extra.subrange(0, i), t);
        assert(base + extra.subrange(0, i) =~= extra.subrange(0, i));
        let j = choose|j: int| 0 <= j < i && extra.subrange(0, i)[j].0 == t;
        assert(extra[j].0 == t);
    } else {
        assert((base + extra.subrange(0, i)).drop_first() =~= base.drop_first() + extra.subrange(0, i));
        lemma_lookup_prefix(base.drop_first(), extra, i, t);
    }
}

proof fn lemma_lookup_found(reg: Seq<(Seq<char>, Keyword)>, t: Seq<char>)
    requires
        lookup(reg, t) is Some,
    ensures
        exists|j: int| 0 <= j < reg.len() && reg[j].0 == t,
    decreases reg.len(),
{
    if reg[0].0 != t {
        lemma_lookup_found(reg.drop_first(), t);
        let j = choose|j: int| 0 <= j < reg.drop_first().len() && reg.drop_first()[j].0 == t;
        assert(reg[j + 1].0 == t);
    }
}

/// A copy of local files to a remote destination, expanded into file rules
/// once the local content is known.
pub struct CopySpec {
    pub src: String,
    pub dst: String,
    pub filter: GlobFilter,
}

pub struct CopyView {
    pub src: Seq<char>,
    pub dst: Seq<char>,
    pub includes: Seq<Seq<char>>,
    pub excludes: Seq<Seq<char>>,
}

impl View for CopySpec {
    type V = CopyView;

    open spec fn view(&self) -> CopyView {
        CopyView {
            src: self.src@,
            dst: self.dst@,
            includes: self.filter.include_patterns(),
            excludes: self.filter.exclude_patterns(),
        }
    }
}

/// A service whose unit file is read from a local path.
pub struct ServiceSource {
    pub name: String,
    pub unit_path: String,
}

/// What one document node declares. Copies and services still need local
/// content before they become rules.
pub enum Directive {
    Rule(Rule),
    Host(Host),
    Copy(CopySpec),
    Service(ServiceSource),
}

pub enum DirectiveView {
    Rule(RuleView),
    Host(HostView),
    Copy(CopyView),
    Service(Seq<char>, Seq<char>),
}

impl View for Directive {
    type V = DirectiveView;

    open spec fn view(&self) -> DirectiveView {
        match self {
            Directive::Rule(r) => DirectiveView::Rule(r@),
            Directive::Host(h) => DirectiveView::Host(h@),
            Directive::Copy(c) => DirectiveView::Copy(c@),
            Directive::Service(s) => DirectiveView::Service(s.name@, s.unit_path@),
        }
    }
}

pub open spec fn directives_view(ds: Seq<Directive>) -> Seq<DirectiveView> {
    ds.map_values(|d: Directive| d@)
}

pub open spec fn outcome_view(r: Result<Vec<Directive>, LoadError>) -> Result<Seq<DirectiveView>, LoadErrorView> {
    match r {
        Ok(ds) => Ok(directives_view(ds@)),
        Err(e) => Err(e@),
    }
}

/// The content a `file` node's block chooses.
pub enum BodyChoice {
    Text(Seq<char>),
    Url(Seq<char>),
}

/// The first `n` children of a `file` node: `content "<text>"` or
/// `url "<url>"`, the last one deciding.
pub open spec fn file_body(node: Seq<char>, children: Seq<ChildNode>, n: int) -> Result<Option<BodyChoice>, LoadErrorView>
    decreases n,
{
    if n <= 0 {
        Ok(None)
    } else {
        match file_body(node, children, n - 1) {
            Err(e) => Err(e),
            Ok(_) => {
                let c = children[n - 1];
                if c.name@ == "content"@ {
                    match str_at(c.entries@, 0) {
                        Some(t) => Ok(Some(BodyChoice::Text(t))),
                        None => Err(arg_error(c.name@, c.entries@, 0)),
                    }
                } else if c.name@ == "url"@ {
                    match str_at(c.entries@, 0) {
                        Some(u) => Ok(Some(BodyChoice::Url(u))),
                        None => Err(arg_error(c.name@, c.entries@, 0)),
                    }
                } else {
                    Err(LoadErrorView::UnexpectedChild(node, c.name@))
                }
            },
        }
    }
}

pub open spec fn file_rule(path: Seq<char>, choice: Option<BodyChoice>) -> FileSpecView {
    match choice {
        None => file_spec_of(path, Seq::empty()),
        Some(BodyChoice::Text(t)) => file_spec_of(path, encode_utf8(t)),
        Some(BodyChoice::Url(u)) => FileSpecView {
            path,
            mode: DEFAULT_MODE,
            content: ContentView::Url(u),
            owner: None,
            group: None,
        },
    }
}

/// The include and exclude patterns of the first `n` children of a `cp` node.
pub open spec fn cp_body(node: Seq<char>, children: Seq<ChildNode>, n: int) -> Result<(Seq<Seq<char>>, Seq<Seq<char>>), LoadErrorView>
    decreases n,
{
    if n <= 0 {
        Ok((Seq::empty(), Seq::empty()))
    } else {
        match cp_body(node, children, n - 1) {
            Err(e) => Err(e),
            Ok((inc, exc)) => {
                let c = children[n - 1];
                if c.name@ == "include"@ {
                    match all_strs(c.entries@) {
                        Some(ps) => Ok((inc + ps, exc)),
                        None => Err(LoadErrorView::NotAString(c.name@)),
                    }
                } else if c.name@ == "exclude"@ {
                    match all_strs(c.entries@) {
                        Some(ps) => Ok((inc, exc + ps)),
                        None => Err(LoadErrorView::NotAString(c.name@)),
                    }
                } else {
                    Err(LoadErrorView::UnexpectedChild(node, c.name@))
                }
            },
        }
    }
}

/// The first error among the options (arguments after the name) of a
/// `user` node, considering the first `n` arguments.
pub open spec fn user_options_error(node: Seq<char>, entries: Seq<Value>, n: int) -> Option<LoadErrorView>
    decreases n,
{
    if n <= 1 {
        None
    } else {
        match user_options_error(node, entries, n - 1) {
            Some(e) => Some(e),
            None => match entries[n - 1] {
                Value::Str(w) => if w@ == "is_login"@ {
                    None
                } else {
                    Some(LoadErrorView::UnknownOption(node, w@))
                },
                _ => Some(LoadErrorView::NotAString(node)),
            },
        }
    }
}

pub open spec fn handle_file(node: Node) -> Result<Seq<DirectiveView>, LoadErrorView> {
    match str_at(node.entries@, 0) {
        None => Err(arg_error(node.name@, node.entries@, 0)),
        Some(path) => match file_body(node.name@, node.children@, node.children@.len() as int) {
            Err(e) => Err(e),
            Ok(choice) => Ok(seq![DirectiveView::Rule(RuleView::File(file_rule(path, choice)))]),
        },
    }
}

pub open spec fn handle_cp(root: Seq<char>, node: Node) -> Result<Seq<DirectiveView>, LoadErrorView> {
    match str_at(node.entries@, 0) {
        None => Err(arg_error(node.name@, node.entries@, 0)),
        Some(src) => match str_at(node.entries@, 1) {
            None => Err(arg_error(node.name@, node.entries@, 1)),
            Some(dst) => match cp_body(node.name@, node.children@, node.children@.len() as int) {
                Err(e) => Err(e),
                Ok((inc, exc)) => {
                    let all = anywhere_all_spec(inc) + anywhere_all_spec(exc);
                    if all_valid(all) {
                        Ok(seq![DirectiveView::Copy(CopyView {
                            src: join_path(root, src),
                            dst,
                            includes: anywhere_all_spec(inc),
                            excludes: anywhere_all_spec(exc),
                        })])
                    } else {
                        Err(LoadErrorView::InvalidGlob(choose|p: Seq<char>| first_rejected(all, p)))
                    }
                },
            },
        },
    }
}

pub open spec fn handle_package(node: Node) -> Result<Seq<DirectiveView>, LoadErrorView> {
    match all_strs(node.entries@) {
        None => Err(LoadErrorView::NotAString(node.name@)),
        Some(names) => Ok(names.map_values(|n: Seq<char>| DirectiveView::Rule(RuleView::Package(n)))),
    }
}

pub open spec fn handle_user(node: Node) -> Result<Seq<DirectiveView>, LoadErrorView> {
    match str_at(node.entries@, 0) {
        None => Err(arg_error(node.name@, node.entries@, 0)),
        Some(name) => match user_options_error(node.name@, node.entries@, node.entries@.len() as int) {
            Some(e) => Err(e),
            None => Ok(seq![DirectiveView::Rule(RuleView::User(name, node.entries@.len() > 1))]),
        },
    }
}

pub open spec fn handle_service(root: Seq<char>, node: Node) -> Result<Seq<DirectiveView>, LoadErrorView> {
    match str_at(node.entries@, 0) {
        None => Err(arg_error(node.name@, node.entries@, 0)),
        Some(name) => match str_at(node.entries@, 1) {
            None => Err(arg_error(node.name@, node.entries@, 1)),
            Some(path) => Ok(seq![DirectiveView::Service(name, join_path(root, path))]),
        },
    }
}

pub open spec fn handle_which(node: Node) -> Result<Seq<DirectiveView>, LoadErrorView> {
    match str_at(node.entries@, 0) {
        None => Err(arg_error(node.name@, node.entries@, 0)),
        Some(bin) => if node.entries@.len() > 1 {
            match str_at(node.entries@, 1) {
                None => Err(LoadErrorView::NotAString(node.name@)),
                Some(script) => Ok(seq![DirectiveView::Rule(RuleView::Which(bin, Some(script), None))]),
            }
        } else {
            Ok(seq![DirectiveView::Rule(RuleView::Which(bin, None, None))])
        },
    }
}

pub open spec fn handle_host(node: Node) -> Result<Seq<DirectiveView>, LoadErrorView> {
    match str_at(node.entries@, 0) {
        None => Err(arg_error(node.name@, node.entries@, 0)),
        Some(name) => Ok(seq![DirectiveView::Host(HostView { name, roles: Seq::empty() })]),
    }
}

/// What a node declares, given the registry and the root.
pub open spec fn node_result(reg: Seq<(Seq<char>, Keyword)>, root: Seq<char>, node: Node) -> Result<Seq<DirectiveView>, LoadErrorView> {
    match lookup(reg, node.name@) {
        None => Err(LoadErrorView::UnknownKeyword(node.name@)),
        Some(Keyword::File) => handle_file(node),
        Some(Keyword::Cp) => handle_cp(root, node),
        Some(Keyword::Package) => handle_package(node),
        Some(Keyword::User) => handle_user(node),
        Some(Keyword::Service) => handle_service(root, node),
        Some(Keyword::Which) => handle_which(node),
        Some(Keyword::Host) => handle_host(node),
    }
}

fn one(d: Directive) -> (r: Vec<Directive>)
    ensures
        directives_view(r@) == seq![d@],
{
    let r = vec![d];
    assert(directives_view(r@) =~= seq![d@]);
    r
}

fn add_file(node: &Node) -> (r: Result<Vec<Directive>, LoadError>)
    ensures
        outcome_view(r) == handle_file(*node),
{
    let path = match str_arg(&node.name, &node.entries, 0) {
        Ok(p) => p,
        Err(e) => return Err(e),
    };
    let mut content = FileContent::Content(Vec::new(), String::new());
    let mut chosen = false;
    let ghost mut choice: Option<BodyChoice> = None;
    let mut i: usize = 0;
    while i < node.children.len()
        invariant
            i <= node.children@.len(),
            str_at(node.entries@, 0) == Some(path@),
            file_body(node.name@, node.children@, i as int) == Ok::<Option<BodyChoice>, LoadErrorView>(choice),
            chosen == choice is Some,
            choice is None ==> (content matches FileContent::Content(b, _) && b@ == Seq::<u8>::empty()),
            choice matches Some(BodyChoice::Text(t)) ==> (content matches FileContent::Content(b, _) && b@ == encode_utf8(t)),
            choice matches Some(BodyChoice::Url(u)) ==> (content matches FileContent::Url(x) && x@ == u),
        decreases node.children@.len() - i,
    {
        let c = &node.children[i];
        if same(c.name.as_str(), "content") {
            let t = match str_arg(&c.name, &c.entries, 0) {
                Ok(t) => t,
                Err(e) => {
                    assert(file_body(node.name@, node.children@, i as int + 1) == Err::<Option<BodyChoice>, LoadErrorView>(e@));
                    proof { lemma_file_body_err(node.name@, node.children@, i as int + 1, node.children@.len() as int); }
                    return Err(e);
                },
            };
            content = FileContent::Content(t.as_str().as_bytes_vec(), String::new());
            chosen = true;
            proof { choice = Some(BodyChoice::Text(t@)); }
        } else if same(c.name.as_str(), "url") {
            let u = match str_arg(&c.name, &c.entries, 0) {
                Ok(u) => u,
                Err(e) => {
                    assert(file_body(node.name@, node.children@, i as int + 1) == Err::<Option<BodyChoice>, LoadErrorView>(e@));
                    proof { lemma_file_body_err(node.name@, node.children@, i as int + 1, node.children@.len() as int); }
                    return Err(e);
                },
            };
            proof { choice = Some(BodyChoice::Url(u@)); }
            content = FileContent::Url(u);
            chosen = true;
        } else {
            let e = LoadError::UnexpectedChild(node.name.clone(), c.name.clone());
            assert(file_body(node.name@, node.children@, i as int + 1) == Err::<Option<BodyChoice>, LoadErrorView>(e@));
            proof { lemma_file_body_err(node.name@, node.children@, i as int + 1, node.children@.len() as int); }
            return Err(e);
        }
        i = i + 1;
    }
    let spec = match content {
        FileContent::Content(bytes, _) => FileSpec::new(path, bytes),
        FileContent::Url(u) => FileSpec {
            path,
            mode: DEFAULT_MODE,
            content: FileContent::Url(u),
            owner: None,
            group: None,
        },
    };
    proof {
        if !chosen {
            assert(encode_utf8(Seq::<char>::empty()) =~= Seq::<u8>::empty());
        }
    }
    Ok(one(Directive::Rule(Rule::File(spec))))
}

proof fn lemma_file_body_err(node: Seq<char>, children: Seq<ChildNode>, i: int, n: int)
    requires
        0 <= i <= n,
        file_body(node, children, i) is Err,
    ensures
        file_body(node, children, n) == file_body(node, children, i),
    decreases n - i,
{
    if i < n {
        lemma_file_body_err(node, children, i, n - 1);
    }
}

proof fn lemma_cp_body_err(node: Seq<char>, children: Seq<ChildNode>, i: int, n: int)
    requires
        0 <= i <= n,
        cp_body(node, children, i) is Err,
    ensures
        cp_body(node, children, n) == cp_body(node, children, i),
    decreases n - i,
{
    if i < n {
        lemma_cp_body_err(node, children, i, n - 1);
    }
}

proof fn lemma_user_options_err(node: Seq<char>, entries: Seq<Value>, i: int, n: int)
    requires
        1 <= i <= n,
        user_options_error(node, entries, i) is Some,
    ensures
        user_options_error(node, entries, n) == user_options_error(node, entries, i),
    decreases n - i,
{
    if i < n {
        lemma_user_options_err(node, entries, i, n - 1);
    }
}

fn append_all(v: &mut Vec<String>, more: Vec<String>)
    ensures
        final(v).deep_view() == old(v).deep_view() + more.deep_view(),
{
    let mut more = more;
    let ghost start = v.deep_view();
    let ghost extra = more.deep_view();
    let mut i: usize = 0;
    let n = more.len();
    while i < n
        invariant
            n == more@.len(),
            i <= n,
            more.deep_view() == extra,
            v.deep_view() == start + extra.subrange(0, i as int),
        decreases n - i,
    {
        let s = more[i].clone();
        assert(extra[i as int] == more@[i as int]@);
        let ghost before = v.deep_view();
        v.push(s);
        assert(v.deep_view() =~= before.push(s@));
        i = i + 1;
        assert(v.deep_view() =~= start + extra.subrange(0, i as int));
    }
    assert(extra.subrange(0, n as int) =~= extra);
}

fn add_cp(cx: &Context, node: &Node) -> (r: Result<Vec<Directive>, LoadError>)
    ensures
        outcome_view(r) == handle_cp(cx.spec_root(), *node),
{
    let src = match str_arg(&node.name, &node.entries, 0) {
        Ok(p) => p,
        Err(e) => return Err(e),
    };
    let dst = match str_arg(&node.name, &node.entries, 1) {
        Ok(p) => p,
        Err(e) => return Err(e),
    };
    let mut includes: Vec<String> = Vec::new();
    let mut excludes: Vec<String> = Vec::new();
    assert(includes.deep_view() =~= Seq::<Seq<char>>::empty());
    assert(excludes.deep_view() =~= Seq::<Seq<char>>::empty());
    let mut i: usize = 0;
    while i < node.children.len()
        invariant
            i <= node.children@.len(),
            str_at(node.entries@, 0) == Some(src@),
            str_at(node.entries@, 1) == Some(dst@),
            cp_body(node.name@, node.children@, i as int) == Ok::<(Seq<Seq<char>>, Seq<Seq<char>>), LoadErrorView>(
                (includes.deep_view(), excludes.deep_view())),
        decreases node.children@.len() - i,
    {
        let c = &node.children[i];
        let is_include = same(c.name.as_str(), "include");
        if is_include || same(c.name.as_str(), "exclude") {
            let ps = match str_args(&c.entries) {
                Some(ps) => ps,
                None => {
                    let e = LoadError::NotAString(c.name.clone());
                    assert(cp_body(node.name@, node.children@, i as int + 1) == Err::<(Seq<Seq<char>>, Seq<Seq<char>>), LoadErrorView>(e@));
                    proof { lemma_cp_body_err(node.name@, node.children@, i as int + 1, node.children@.len() as int); }
                    return Err(e);
                },
            };
            if is_include {
                append_all(&mut includes, ps);
            } else {
                append_all(&mut excludes, ps);
            }
        } else {
            let e = LoadError::UnexpectedChild(node.name.clone(), c.name.clone());
            assert(cp_body(node.name@, node.children@, i as int + 1) == Err::<(Seq<Seq<char>>, Seq<Seq<char>>), LoadErrorView>(e@));
            proof { lemma_cp_body_err(node.name@, node.children@, i as int + 1, node.children@.len() as int); }
            return Err(e);
        }
        i = i + 1;
    }
    let ghost all = anywhere_all_spec(includes.deep_view()) + anywhere_all_spec(excludes.deep_view());
    match GlobFilter::from_user_patterns(&includes, &excludes) {
        Ok(filter) => {
            let copy = CopySpec { src: cx.local_path(src.as_str()), dst, filter };
            Ok(one(Directive::Copy(copy)))
        },
        Err(GlobError::Invalid(p)) => {
            proof {
                let q = choose|q: Seq<char>| first_rejected(all, q);
                let j1 = choose|j: int| 0 <= j < all.len() && #[trigger] all[j] == p@ && !pattern_accepted(p@)
                    && forall|k: int| 0 <= k < j ==> pattern_accepted(#[trigger] all[k]);
                let j2 = choose|j: int| 0 <= j < all.len() && #[trigger] all[j] == q && !pattern_accepted(q)
                    && forall|k: int| 0 <= k < j ==> pattern_accepted(#[trigger] all[k]);
                if j1 < j2 {
                    assert(pattern_accepted(all[j1]));
                } else if j2 < j1 {
                    assert(pattern_accepted(all[j2]));
                }
            }
            Err(LoadError::InvalidGlob(p))
        },
    }
}

fn add_package(node: &Node) -> (r: Result<Vec<Directive>, LoadError>)
    ensures
        outcome_view(r) == handle_package(*node),
{
    let names = match str_args(&node.entries) {
        Some(ns) => ns,
        None => return Err(LoadError::NotAString(node.name.clone())),
    };
    let ghost target = names.deep_view().map_values(|n: Seq<char>| DirectiveView::Rule(RuleView::Package(n)));
    let mut out: Vec<Directive> = Vec::new();
    let mut i: usize = 0;
    while i < names.len()
        invariant
            i <= names@.len(),
            all_strs(node.entries@) == Some(names.deep_view()),
            target == names.deep_view().map_values(|n: Seq<char>| DirectiveView::Rule(RuleView::Package(n))),
            directives_view(out@) == target.subrange(0, i as int),
        decreases names@.len() - i,
    {
        assert(names.deep_view()[i as int] == names@[i as int]@);
        let ghost before = directives_view(out@);
        let d = Directive::Rule(Rule::Package(PackageSpec { name: names[i].clone() }));
        out.push(d);
        assert(directives_view(out@) =~= before.push(d@));
        i = i + 1;
        assert(directives_view(out@) =~= target.subrange(0, i as int));
    }
    assert(target.subrange(0, i as int) =~= target);
    Ok(out)
}

fn add_user(node: &Node) -> (r: Result<Vec<Directive>, LoadError>)
    ensures
        outcome_view(r) == handle_user(*node),
{
    let name = match str_arg(&node.name, &node.entries, 0) {
        Ok(n) => n,
        Err(e) => return Err(e),
    };
    let mut i: usize = 1;
    while i < node.entries.len()
        invariant
            1 <= i <= node.entries@.len(),
            str_at(node.entries@, 0) == Some(name@),
            user_options_error(node.name@, node.entries@, i as int) is None,
        decreases node.entries@.len() - i,
    {
        match &node.entries[i] {
            Value::Str(w) => {
                if !same(w.as_str(), "is_login") {
                    let e = LoadError::UnknownOption(node.name.clone(), w.clone());
                    proof { lemma_user_options_err(node.name@, node.entries@, i as int + 1, node.entries@.len() as int); }
                    return Err(e);
                }
            },
            _ => {
                proof { lemma_user_options_err(node.name@, node.entries@, i as int + 1, node.entries@.len() as int); }
                return Err(LoadError::NotAString(node.name.clone()));
            },
        }
        i = i + 1;
    }
    let is_login = node.entries.len() > 1;
    Ok(one(Directive::Rule(Rule::User(UserSpec { name, is_login }))))
}

fn add_service(cx: &Context, node: &Node) -> (r: Result<Vec<Directive>, LoadError>)
    ensures
        outcome_view(r) == handle_service(cx.spec_root(), *node),
{
    let name = match str_arg(&node.name, &node.entries, 0) {
        Ok(n) => n,
        Err(e) => return Err(e),
    };
    let path = match str_arg(&node.name, &node.entries, 1) {
        Ok(p) => p,
        Err(e) => return Err(e),
    };
    Ok(one(Directive::Service(ServiceSource { name, unit_path: cx.local_path(path.as_str()) })))
}

fn add_which(node: &Node) -> (r: Result<Vec<Directive>, LoadError>)
    ensures
        outcome_view(r) == handle_which(*node),
{
    let bin = match str_arg(&node.name, &node.entries, 0) {
        Ok(b) => b,
        Err(e) => return Err(e),
    };
    let script = if node.entries.len() > 1 {
        match str_arg(&node.name, &node.entries, 1) {
            Ok(s) => Some(s),
            Err(_) => return Err(LoadError::NotAString(node.name.clone())),
        }
    } else {
        None
    };
    Ok(one(Directive::Rule(Rule::Which(WhichSpec { bin, script, script_file: None }))))
}

fn add_host(node: &Node) -> (r: Result<Vec<Directive>, LoadError>)
    ensures
        outcome_view(r) == handle_host(*node),
{
    let name = match str_arg(&node.name, &node.entries, 0) {
        Ok(n) => n,
        Err(e) => return Err(e),
    };
    Ok(one(Directive::Host(host(name.as_str()))))
}

/// What one document node declares: the handler registered for its tag
/// reads its arguments and children.
pub fn add_node(node: &Node, context: &Context) -> (r: Result<Vec<Directive>, LoadError>)
    ensures
        outcome_view(r) == node_result(context.registry(), context.spec_root(), *node),
{
    match context.handler(node.name.as_str()) {
        None => Err(LoadError::UnknownKeyword(node.name.clone())),
        Some(Keyword::File) => add_file(node),
        Some(Keyword::Cp) => add_cp(context, node),
        Some(Keyword::Package) => add_package(node),
        Some(Keyword::User) => add_user(node),
        Some(Keyword::Service) => add_service(context, node),
        Some(Keyword::Which) => add_which(node),
        Some(Keyword::Host) => add_host(node),
    }
}

/// The content of a node argument.
pub enum ValueView {
    Str(Seq<char>),
    Int(i64),
    Bool(bool),
    Other,
}

pub open spec fn value_view(v: Value) -> ValueView {
    match v {
        Value::Str(s) => ValueView::Str(s@),
        Value::Int(i) => ValueView::Int(i),
        Value::Bool(b) => ValueView::Bool(b),
        Value::Other => ValueView::Other,
    }
}

pub open spec fn values_view(vs: Seq<Value>) -> Seq<ValueView> {
    vs.map_values(|v: Value| value_view(v))
}

pub open spec fn children_view(cs: Seq<ChildNode>) -> Seq<(Seq<char>, Seq<ValueView>)> {
    cs.map_values(|c: ChildNode| (c.name@, values_view(c.entries@)))
}

/// Two nodes with the same content: tag, arguments and children.
pub open spec fn same_content(a: Node, b: Node) -> bool {
    &&& a.name@ == b.name@
    &&& values_view(a.entries@) == values_view(b.entries@)
    &&& children_view(a.children@) == children_view(b.children@)
}

proof fn lemma_values_agree(e1: Seq<Value>, e2: Seq<Value>)
    requires
        values_view(e1) == values_view(e2),
    ensures
        e1.len() == e2.len(),
        forall|i: int| str_at(e1, i) == #[trigger] str_at(e2, i),
        strs_upto(e1, e1.len() as int) == strs_upto(e2, e2.len() as int),
{
    assert(values_view(e1).len() == e1.len());
    assert forall|i: int| str_at(e1, i) == #[trigger] str_at(e2, i) by {
        if 0 <= i < e1.len() {
            assert(values_view(e1)[i] == value_view(e1[i]));
            assert(values_view(e2)[i] == value_view(e2[i]));
        }
    }
    lemma_strs_agree(e1, e2, e1.len() as int);
}

proof fn lemma_strs_agree(e1: Seq<Value>, e2: Seq<Value>, n: int)
    requires
        forall|i: int| str_at(e1, i) == #[trigger] str_at(e2, i),
    ensures
        strs_upto(e1, n) == strs_upto(e2, n),
    decreases n,
{
    if n > 0 {
        lemma_strs_agree(e1, e2, n - 1);
        assert(str_at(e1, n - 1) == str_at(e2, n - 1));
    }
}

proof fn lemma_user_options_agree(name: Seq<char>, e1: Seq<Value>, e2: Seq<Value>, n: int)
    requires
        values_view(e1) == values_view(e2),
        n <= e1.len(),
    ensures
        user_options_error(name, e1, n) == user_options_error(name, e2, n),
    decreases n,
{
    if n > 1 {
        lemma_user_options_agree(name, e1, e2, n - 1);
        assert(values_view(e1).len() == e1.len() && values_view(e2).len() == e2.len());
        assert(values_view(e1)[n - 1] == value_view(e1[n - 1]));
        assert(values_view(e2)[n - 1] == value_view(e2[n - 1]));
    }
}

proof fn lemma_children_agree(name: Seq<char>, c1: Seq<ChildNode>, c2: Seq<ChildNode>, n: int)
    requires
        children_view(c1) == children_view(c2),
        n <= c1.len(),
    ensures
        file_body(name, c1, n) == file_body(name, c2, n),
        cp_body(name, c1, n) == cp_body(name, c2, n),
    decreases n,
{
    if n > 0 {
        lemma_children_agree(name, c1, c2, n - 1);
        assert(children_view(c1).len() == c1.len() && children_view(c2).len() == c2.len());
        assert(children_view(c1)[n - 1] == (c1[n - 1].name@, values_view(c1[n - 1].entries@)));
        assert(children_view(c2)[n - 1] == (c2[n - 1].name@, values_view(c2[n - 1].entries@)));
        lemma_values_agree(c1[n - 1].entries@, c2[n - 1].entries@);
    }
}

/// Loader determinism: what a node declares depends only on its content,
/// the registry and the root; so loading the same documents, with the same
/// local content, twice gives equal rules and hosts.
pub proof fn lemma_loader_deterministic(reg: Seq<(Seq<char>, Keyword)>, root: Seq<char>, a: Node, b: Node)
    requires
        same_content(a, b),
    ensures
        node_result(reg, root, a) == node_result(reg, root, b),
{
    lemma_values_agree(a.entries@, b.entries@);
    assert(children_view(a.children@).len() == a.children@.len());
    lemma_children_agree(a.name@, a.children@, b.children@, a.children@.len() as int);
    lemma_user_options_agree(a.name@, a.entries@, b.entries@, a.entries@.len() as int);
}

} // verus!
