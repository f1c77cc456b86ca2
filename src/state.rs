use vstd::prelude::*;
use crate::glob::{included, should_include_path};
use crate::loader::{CopySpec, CopyView, Directive, DirectiveView};
use crate::model::{
    file_spec_of, FileSpec, FileSpecView, Host, HostView, Rule, RuleView, ServiceSpec,
};
use crate::node::{LoadError, LoadErrorView};
use crate::text::{basename, concat, ends_with, ends_with_slash, file_name, join, join_path};

verus! {

/// A regular file found under a copy source directory: its path relative to
/// that directory, and its content.
pub struct LocalFile {
    pub relative_path: String,
    pub content: Vec<u8>,
}

/// The local content a directive needs: a file's bytes, a text file, the
/// files under a directory, or nothing.
pub enum LocalData {
    Nothing,
    Bytes(Vec<u8>),
    Text(String),
    Tree(Vec<LocalFile>),
}

pub enum LocalDataView {
    Nothing,
    Bytes(Seq<u8>),
    Text(Seq<char>),
    Tree(Seq<(Seq<char>, Seq<u8>)>),
}

impl View for LocalData {
    type V = LocalDataView;

    open spec fn view(&self) -> LocalDataView {
        match self {
            LocalData::Nothing => LocalDataView::Nothing,
            LocalData::Bytes(b) => LocalDataView::Bytes(b@),
            LocalData::Text(t) => LocalDataView::Text(t@),
            LocalData::Tree(files) => LocalDataView::Tree(
                files@.map_values(|f: LocalFile| (f.relative_path@, f.content@)),
            ),
        }
    }
}

/// The file rules that copying the first `n` files of a directory produces:
/// one for each included file, in listing order, at the destination joined
/// with the file's relative path.
pub open spec fn copy_rules_upto(c: CopyView, files: Seq<(Seq<char>, Seq<u8>)>, n: int) -> Seq<FileSpecView>
    decreases n,
{
    if n <= 0 {
        Seq::empty()
    } else {
        let prev = copy_rules_upto(c, files, n - 1);
        let f = files[n - 1];
        if included(f.0, c.includes, c.excludes) {
            prev.push(file_spec_of(join_path(c.dst, f.0), f.1))
        } else {
            prev
        }
    }
}

pub open spec fn copy_tree_rules(c: CopyView, files: Seq<(Seq<char>, Seq<u8>)>) -> Seq<FileSpecView> {
    copy_rules_upto(c, files, files.len() as int)
}

/// Where copying a single file lands: inside the destination when it ends
/// with `/`, at the destination itself otherwise.
pub open spec fn copy_file_target(src: Seq<char>, dst: Seq<char>) -> Seq<char> {
    if ends_with_slash(dst) {
        dst + basename(src)
    } else {
        dst
    }
}

/// The number of files among the first `n` that the copy includes.
pub open spec fn included_count(c: CopyView, files: Seq<(Seq<char>, Seq<u8>)>, n: int) -> nat
    decreases n,
{
    if n <= 0 {
        0
    } else if included(files[n - 1].0, c.includes, c.excludes) {
        included_count(c, files, n - 1) + 1
    } else {
        included_count(c, files, n - 1)
    }
}

/// Copying a directory yields exactly one file rule for each included file,
/// in listing order: its target is the destination joined with the file's
/// relative path, and its content and digest are the file's bytes and their
/// SHA-256.
pub proof fn lemma_copy_fidelity(c: CopyView, files: Seq<(Seq<char>, Seq<u8>)>, n: int)
    requires
        0 <= n <= files.len(),
    ensures
        copy_rules_upto(c, files, n).len() == included_count(c, files, n),
        forall|i: int| 0 <= i < n && included(#[trigger] files[i].0, c.includes, c.excludes)
            ==> copy_rules_upto(c, files, n)[included_count(c, files, i) as int]
                == file_spec_of(join_path(c.dst, files[i].0), files[i].1),
        forall|j: int| 0 <= j < copy_rules_upto(c, files, n).len() ==> exists|i: int| 0 <= i < n
            && included(files[i].0, c.includes, c.excludes) && included_count(c, files, i) == j
            && #[trigger] copy_rules_upto(c, files, n)[j] == file_spec_of(join_path(c.dst, files[i].0), files[i].1),
    decreases n,
{
    if n > 0 {
        lemma_copy_fidelity(c, files, n - 1);
        let prev = copy_rules_upto(c, files, n - 1);
        let cur = copy_rules_upto(c, files, n);
        assert forall|i: int| 0 <= i < n && included(#[trigger] files[i].0, c.includes, c.excludes)
            implies cur[included_count(c, files, i) as int] == file_spec_of(join_path(c.dst, files[i].0), files[i].1) by {
            if i < n - 1 {
                lemma_count_monotone(c, files, i + 1, n - 1);
                assert(cur[included_count(c, files, i) as int] == prev[included_count(c, files, i) as int]);
            }
        }
        assert forall|j: int| 0 <= j < cur.len() implies exists|i: int| 0 <= i < n
            && included(files[i].0, c.includes, c.excludes) && included_count(c, files, i) == j
            && #[trigger] cur[j] == file_spec_of(join_path(c.dst, files[i].0), files[i].1) by {
            if j < prev.len() {
                let i = choose|i: int| 0 <= i < n - 1
                    && included(files[i].0, c.includes, c.excludes) && included_count(c, files, i) == j
                    && #[trigger] prev[j] == file_spec_of(join_path(c.dst, files[i].0), files[i].1);
                assert(cur[j] == prev[j]);
            } else {
                assert(included(files[n - 1].0, c.includes, c.excludes));
                assert(cur[j] == file_spec_of(join_path(c.dst, files[n - 1].0), files[n - 1].1));
            }
        }
    }
}

proof fn lemma_count_monotone(c: CopyView, files: Seq<(Seq<char>, Seq<u8>)>, i: int, n: int)
    requires
        0 <= i <= n,
    ensures
        included_count(c, files, i) <= included_count(c, files, n),
    decreases n - i,
{
    if i < n {
        lemma_count_monotone(c, files, i, n - 1);
    }
}

/// The rules and hosts gathered from documents; rule order is apply order.
pub struct State {
    host_rules: Vec<Rule>,
    hosts: Vec<Host>,
}

pub struct StateView {
    pub rules: Seq<RuleView>,
    pub hosts: Seq<HostView>,
}

impl View for State {
    type V = StateView;

    closed spec fn view(&self) -> StateView {
        StateView {
            rules: self.host_rules@.map_values(|r: Rule| r@),
            hosts: self.hosts@.map_values(|h: Host| h@),
        }
    }
}

pub open spec fn file_rules(fs: Seq<FileSpecView>) -> Seq<RuleView> {
    fs.map_values(|f: FileSpecView| RuleView::File(f))
}

/// What adding a directive, with the local content it was given, does to a state.
pub open spec fn directive_effect(s: StateView, d: DirectiveView, l: LocalDataView) -> Result<StateView, LoadErrorView> {
    match d {
        DirectiveView::Rule(r) => Ok(StateView { rules: s.rules.push(r), ..s }),
        DirectiveView::Host(h) => Ok(StateView { hosts: s.hosts.push(h), ..s }),
        DirectiveView::Copy(c) => match l {
            LocalDataView::Bytes(b) => if ends_with_slash(c.dst) && basename(c.src).len() == 0 {
                Err(LoadErrorView::NoFileName(c.src))
            } else {
                Ok(StateView {
                    rules: s.rules.push(RuleView::File(file_spec_of(copy_file_target(c.src, c.dst), b))),
                    ..s
                })
            },
            LocalDataView::Tree(files) => Ok(StateView { rules: s.rules + file_rules(copy_tree_rules(c, files)), ..s }),
            _ => Err(LoadErrorView::MissingLocal(c.src)),
        },
        DirectiveView::Service(name, path) => match l {
            LocalDataView::Text(t) => Ok(StateView { rules: s.rules.push(RuleView::Service(name, t)), ..s }),
            _ => Err(LoadErrorView::MissingLocal(path)),
        },
    }
}

impl State {
    pub fn new() -> (r: State)
        ensures
            r@.rules == Seq::<RuleView>::empty(),
            r@.hosts == Seq::<HostView>::empty(),
    {
        let r = State { host_rules: Vec::new(), hosts: Vec::new() };
        assert(r@.rules =~= Seq::<RuleView>::empty());
        assert(r@.hosts =~= Seq::<HostView>::empty());
        r
    }

    pub fn add_host(&mut self, host: Host)
        ensures
            final(self)@ == (StateView { hosts: old(self)@.hosts.push(host@), ..old(self)@ }),
    {
        self.hosts.push(host);
        assert(self@.hosts =~= old(self)@.hosts.push(host@));
    }

    pub fn add_rule(&mut self, rule: Rule)
        ensures
            final(self)@ == (StateView { rules: old(self)@.rules.push(rule@), ..old(self)@ }),
    {
        self.host_rules.push(rule);
        assert(self@.rules =~= old(self)@.rules.push(rule@));
    }

    /// The rules, in apply order.
    pub fn rules(&self) -> (r: &Vec<Rule>)
        ensures
            r@.map_values(|x: Rule| x@) == self@.rules,
    {
        &self.host_rules
    }

    /// Appends the other state's rules and hosts to this one's.
    pub fn merge(&mut self, other: State)
        ensures
            final(self)@ == (StateView {
                rules: old(self)@.rules + other@.rules,
                hosts: old(self)@.hosts + other@.hosts,
            }),
    {
        let mut other = other;
        let ghost start = self@;
        let ghost o = other@;
        let mut i: usize = 0;
        while i < other.host_rules.len()
            invariant
                i <= other.host_rules@.len(),
                other@ == o,
                self@.hosts == start.hosts,
                self@.rules == start.rules + o.rules.subrange(0, i as int),
            decreases other.host_rules@.len() - i,
        {
            let r = other.host_rules[i].duplicate();
            self.add_rule(r);
            i = i + 1;
            assert(self@.rules =~= start.rules + o.rules.subrange(0, i as int));
        }
        let mut i: usize = 0;
        while i < other.hosts.len()
            invariant
                i <= other.hosts@.len(),
                other@ == o,
                self@.rules == start.rules + o.rules,
                self@.hosts == start.hosts + o.hosts.subrange(0, i as int),
            decreases other.hosts@.len() - i,
        {
            let h = other.hosts[i].duplicate();
            self.add_host(h);
            i = i + 1;
            assert(self@.hosts =~= start.hosts + o.hosts.subrange(0, i as int));
        }
        assert(o.rules.subrange(0, o.rules.len() as int) =~= o.rules);
        assert(o.hosts.subrange(0, o.hosts.len() as int) =~= o.hosts);
    }

    /// The names of the hosts, in declaration order.
    pub fn hosts(&self) -> (r: Vec<String>)
        ensures
            r.deep_view() == self@.hosts.map_values(|h: HostView| h.name),
    {
        let mut r: Vec<String> = Vec::new();
        let mut i: usize = 0;
        while i < self.hosts.len()
            invariant
                i <= self.hosts@.len(),
                r.deep_view() == self@.hosts.subrange(0, i as int).map_values(|h: HostView| h.name),
            decreases self.hosts@.len() - i,
        {
            let ghost before = r.deep_view();
            let name = self.hosts[i].name.clone();
            assert(self@.hosts[i as int].name == name@);
            r.push(name);
            assert(r.deep_view() =~= before.push(name@));
            i = i + 1;
            assert(r.deep_view() =~= self@.hosts.subrange(0, i as int).map_values(|h: HostView| h.name));
        }
        assert(self@.hosts.subrange(0, i as int) =~= self@.hosts);
        r
    }

    /// Adds what a directive declares, given the local content it needs: a
    /// copy of a file or directory becomes file rules, a service source
    /// becomes a service rule. On error the state is left as it was.
    pub fn add_directive(&mut self, d: &Directive, local: &LocalData) -> (r: Result<(), LoadError>)
        ensures
            match directive_effect(old(self)@, d@, local@) {
                Ok(s) => r is Ok && final(self)@ == s,
                Err(e) => r matches Err(x) && x@ == e && final(self)@ == old(self)@,
            },
    {
        match d {
            Directive::Rule(rule) => {
                self.add_rule(rule.duplicate());
                Ok(())
            },
            Directive::Host(h) => {
                self.add_host(h.duplicate());
                Ok(())
            },
            Directive::Copy(c) => match local {
                LocalData::Bytes(b) => {
                    let target = if ends_with(c.dst.as_str(), '/') {
                        let name = file_name(c.src.as_str());
                        if name.unicode_len() == 0 {
                            return Err(LoadError::NoFileName(c.src.clone()));
                        }
                        concat(c.dst.as_str(), name.as_str())
                    } else {
                        c.dst.clone()
                    };
                    self.add_rule(Rule::File(FileSpec::new(target, crate::model::copy_bytes(b))));
                    Ok(())
                },
                LocalData::Tree(files) => {
                    self.add_copied_tree(c, files);
                    Ok(())
                },
                _ => Err(LoadError::MissingLocal(c.src.clone())),
            },
            Directive::Service(src) => match local {
                LocalData::Text(t) => {
                    self.add_rule(Rule::Service(ServiceSpec { name: src.name.clone(), service_file_content: t.clone() }));
                    Ok(())
                },
                _ => Err(LoadError::MissingLocal(src.unit_path.clone())),
            },
        }
    }

    fn add_copied_tree(&mut self, c: &CopySpec, files: &Vec<LocalFile>)
        ensures
            final(self)@ == (StateView {
                rules: old(self)@.rules + file_rules(copy_tree_rules(c@, files@.map_values(|f: LocalFile| (f.relative_path@, f.content@)))),
                ..old(self)@
            }),
    {
        let ghost fv = files@.map_values(|f: LocalFile| (f.relative_path@, f.content@));
        let ghost start = self@;
        let mut i: usize = 0;
        while i < files.len()
            invariant
                i <= files@.len(),
                fv == files@.map_values(|f: LocalFile| (f.relative_path@, f.content@)),
                self@.hosts == start.hosts,
                self@.rules == start.rules + file_rules(copy_rules_upto(c@, fv, i as int)),
            decreases files@.len() - i,
        {
            let f = &files[i];
            if should_include_path(f.relative_path.as_str(), &c.filter) {
                let target = join(c.dst.as_str(), f.relative_path.as_str());
                self.add_rule(Rule::File(FileSpec::new(target, crate::model::copy_bytes(&f.content))));
            }
            i = i + 1;
            assert(self@.rules =~= start.rules + file_rules(copy_rules_upto(c@, fv, i as int)));
        }
    }
}

} // verus!
