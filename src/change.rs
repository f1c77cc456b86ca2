use vstd::prelude::*;
use crate::model::{FileContent, FileSpecView};

verus! {

/// A managed file that is absent or differs from its rule; carries what the
/// transfer needs.
#[derive(Debug, Clone)]
pub struct MissingFile {
    pub path: String,
    pub content: FileContent,
    pub owner: Option<u32>,
    pub group: Option<u32>,
    pub mode: u32,
}

#[derive(Debug, Clone)]
pub enum FileChange {
    MissingFile(MissingFile),
}

#[derive(Debug, Clone)]
pub enum PackageChange {
    AddPackage(crate::model::PackageSpec),
}

#[derive(Debug, Clone)]
pub enum UserChange {
    Add(crate::model::UserSpec),
}

/// A unit file to write, with the digest of its content, before a restart.
#[derive(Debug, Clone)]
pub struct NewService {
    pub name: String,
    pub service_file_content: String,
    pub service_file_content_sha256: String,
}

#[derive(Debug, Clone)]
pub enum ServiceChange {
    NewService(NewService),
}

#[derive(Debug, Clone)]
pub enum WhichChange {
    RunScript(String),
}

/// A single corrective action produced by checking a rule.
#[derive(Debug, Clone)]
pub enum Modification {
    File(FileChange),
    Package(PackageChange),
    User(UserChange),
    Service(ServiceChange),
    Which(WhichChange),
}

pub enum ModificationView {
    MissingFile(FileSpecView),
    AddPackage(Seq<char>),
    AddUser(Seq<char>, bool),
    NewService(Seq<char>, Seq<char>, Seq<char>),
    RunScript(Seq<char>),
}

impl View for Modification {
    type V = ModificationView;

    open spec fn view(&self) -> ModificationView {
        match self {
            Modification::File(FileChange::MissingFile(m)) => ModificationView::MissingFile(FileSpecView {
                path: m.path@,
                mode: m.mode,
                content: m.content@,
                owner: m.owner,
                group: m.group,
            }),
            Modification::Package(PackageChange::AddPackage(p)) => ModificationView::AddPackage(p.name@),
            Modification::User(UserChange::Add(u)) => ModificationView::AddUser(u.name@, u.is_login),
            Modification::Service(ServiceChange::NewService(s)) => ModificationView::NewService(
                s.name@,
                s.service_file_content@,
                s.service_file_content_sha256@,
            ),
            Modification::Which(WhichChange::RunScript(s)) => ModificationView::RunScript(s@),
        }
    }
}

/// The kind tag of a modification's rule.
pub open spec fn modification_kind(m: ModificationView) -> Seq<char> {
    match m {
        ModificationView::MissingFile(_) => "file"@,
        ModificationView::AddPackage(_) => "package"@,
        ModificationView::AddUser(_, _) => "user"@,
        ModificationView::NewService(_, _, _) => "service"@,
        ModificationView::RunScript(_) => "which"@,
    }
}

impl Modification {
    pub fn kind_tag(&self) -> (r: &'static str)
        ensures
            r@ == modification_kind(self@),
    {
        match self {
            Modification::File(_) => "file",
            Modification::Package(_) => "package",
            Modification::User(_) => "user",
            Modification::Service(_) => "service",
            Modification::Which(_) => "which",
        }
    }

    pub fn duplicate(&self) -> (r: Modification)
        ensures
            r@ == self@,
    {
        match self {
            Modification::File(FileChange::MissingFile(m)) => Modification::File(FileChange::MissingFile(MissingFile {
                path: m.path.clone(),
                content: m.content.duplicate(),
                owner: m.owner,
                group: m.group,
                mode: m.mode,
            })),
            Modification::Package(PackageChange::AddPackage(p)) => Modification::Package(
                PackageChange::AddPackage(crate::model::PackageSpec { name: p.name.clone() }),
            ),
            Modification::User(UserChange::Add(u)) => Modification::User(
                UserChange::Add(crate::model::UserSpec { name: u.name.clone(), is_login: u.is_login }),
            ),
            Modification::Service(ServiceChange::NewService(s)) => Modification::Service(
                ServiceChange::NewService(NewService {
                    name: s.name.clone(),
                    service_file_content: s.service_file_content.clone(),
                    service_file_content_sha256: s.service_file_content_sha256.clone(),
                }),
            ),
            Modification::Which(WhichChange::RunScript(s)) => Modification::Which(WhichChange::RunScript(s.clone())),
        }
    }
}

} // verus!
