use vstd::prelude::*;

verus! {

/// A value given to a node of a declarative document.
#[derive(Debug, Clone)]
pub enum Value {
    Str(String),
    Int(i64),
    Bool(bool),
    Other,
}

/// A node of a declarative document: a tag, positional arguments, and child
/// nodes (for blocks such as the include and exclude lists of `cp`).
#[derive(Debug, Clone)]
pub struct Node {
    pub name: String,
    pub entries: Vec<Value>,
    pub children: Vec<ChildNode>,
}

/// A child node: a tag and positional arguments. No handler reads deeper
/// than one level of nesting.
#[derive(Debug, Clone)]
pub struct ChildNode {
    pub name: String,
    pub entries: Vec<Value>,
}

/// Why a document could not be turned into rules.
#[derive(Debug, Clone)]
pub enum LoadError {
    /// A node whose tag no handler is registered for.
    UnknownKeyword(String),
    /// A tag registered twice.
    DuplicateKeyword(String),
    /// A node (named) that lacks a required argument.
    MissingArgument(String),
    /// A node (named) whose argument must be a string and is not.
    NotAString(String),
    /// A node (named) given a word it does not know.
    UnknownOption(String, String),
    /// A node (named) with a child node (named) it does not accept.
    UnexpectedChild(String, String),
    /// A glob pattern with too many `{`, or that the glob engine rejects.
    InvalidGlob(String),
    /// A copy source path without a file name.
    NoFileName(String),
    /// A local path whose content was needed and not supplied.
    MissingLocal(String),
}

pub enum LoadErrorView {
    UnknownKeyword(Seq<char>),
    DuplicateKeyword(Seq<char>),
    MissingArgument(Seq<char>),
    NotAString(Seq<char>),
    UnknownOption(Seq<char>, Seq<char>),
    UnexpectedChild(Seq<char>, Seq<char>),
    InvalidGlob(Seq<char>),
    NoFileName(Seq<char>),
    MissingLocal(Seq<char>),
}

impl View for LoadError {
    type V = LoadErrorView;

    open spec fn view(&self) -> LoadErrorView {
        match self {
            LoadError::UnknownKeyword(s) => LoadErrorView::UnknownKeyword(s@),
            LoadError::DuplicateKeyword(s) => LoadErrorView::DuplicateKeyword(s@),
            LoadError::MissingArgument(s) => LoadErrorView::MissingArgument(s@),
            LoadError::NotAString(s) => LoadErrorView::NotAString(s@),
            LoadError::UnknownOption(n, w) => LoadErrorView::UnknownOption(n@, w@),
            LoadError::UnexpectedChild(n, c) => LoadErrorView::UnexpectedChild(n@, c@),
            LoadError::InvalidGlob(s) => LoadErrorView::InvalidGlob(s@),
            LoadError::NoFileName(s) => LoadErrorView::NoFileName(s@),
            LoadError::MissingLocal(s) => LoadErrorView::MissingLocal(s@),
        }
    }
}

/// The string argument at position `i`, if there is one.
pub open spec fn str_at(entries: Seq<Value>, i: int) -> Option<Seq<char>> {
    if 0 <= i < entries.len() {
        match entries[i] {
            Value::Str(s) => Some(s@),
            _ => None,
        }
    } else {
        None
    }
}

/// The error for a missing or non-string argument at position `i`.
pub open spec fn arg_error(node: Seq<char>, entries: Seq<Value>, i: int) -> LoadErrorView {
    if i < entries.len() {
        LoadErrorView::NotAString(node)
    } else {
        LoadErrorView::MissingArgument(node)
    }
}

/// The first `n` arguments, when all of them are strings.
pub open spec fn strs_upto(entries: Seq<Value>, n: int) -> Option<Seq<Seq<char>>>
    decreases n,
{
    if n <= 0 {
        Some(Seq::empty())
    } else {
        match strs_upto(entries, n - 1) {
            None => None,
            Some(prev) => match str_at(entries, n - 1) {
                Some(s) => Some(prev.push(s)),
                None => None,
            },
        }
    }
}

/// All arguments, when all of them are strings.
pub open spec fn all_strs(entries: Seq<Value>) -> Option<Seq<Seq<char>>> {
    strs_upto(entries, entries.len() as int)
}

pub fn str_arg(name: &String, entries: &Vec<Value>, i: usize) -> (r: Result<String, LoadError>)
    ensures
        match str_at(entries@, i as int) {
            Some(s) => r matches Ok(x) && x@ == s,
            None => r matches Err(e) && e@ == arg_error(name@, entries@, i as int),
        },
{
    if i < entries.len() {
        match &entries[i] {
            Value::Str(s) => Ok(s.clone()),
            _ => Err(LoadError::NotAString(name.clone())),
        }
    } else {
        Err(LoadError::MissingArgument(name.clone()))
    }
}

pub fn str_args(entries: &Vec<Value>) -> (r: Option<Vec<String>>)
    ensures
        match all_strs(entries@) {
            Some(ss) => r matches Some(v) && v.deep_view() == ss,
            None => r is None,
        },
{
    let mut out: Vec<String> = Vec::new();
    let mut i: usize = 0;
    while i < entries.len()
        invariant
            i <= entries@.len(),
            strs_upto(entries@, i as int) matches Some(ss) && out.deep_view() == ss,
        decreases entries@.len() - i,
    {
        match &entries[i] {
            Value::Str(s) => {
                let ghost before = out.deep_view();
                out.push(s.clone());
                assert(out.deep_view() =~= before.push(s@));
            },
            _ => {
                proof { lemma_strs_none_after(entries@, i as int + 1, entries@.len() as int); }
                return None;
            },
        }
        i = i + 1;
    }
    Some(out)
}

pub proof fn lemma_strs_none_after(entries: Seq<Value>, i: int, n: int)
    requires
        0 <= i <= n,
        strs_upto(entries, i) is None,
    ensures
        strs_upto(entries, n) is None,
    decreases n - i,
{
    if i < n {
        lemma_strs_none_after(entries, i, n - 1);
    }
}

} // verus!
