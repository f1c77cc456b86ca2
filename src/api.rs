use vstd::prelude::*;
use crate::text::owned;

verus! {

/// A file to place on hosts: given content, a local source, or a link.
#[derive(Debug)]
pub struct File {
    pub destination: String,
    pub content: Option<String>,
    pub src: Option<String>,
    pub link: Option<String>,
}

/// A copy of a local source to a destination.
pub fn cp(src: &str, destination: &str) -> (r: File)
    ensures
        r.destination@ == destination@,
        r.src matches Some(s) && s@ == src@,
        r.content is None,
        r.link is None,
{
    File { destination: owned(destination), src: Some(owned(src)), content: None, link: None }
}

pub fn file(destination: &str) -> (r: File)
    ensures
        r.destination@ == destination@,
        r.src is None,
        r.content is None,
        r.link is None,
{
    File::new(destination)
}

impl File {
    /// A file or directory at the destination, with nothing else set.
    pub fn new(destination: &str) -> (r: File)
        ensures
            r.destination@ == destination@,
            r.src is None,
            r.content is None,
            r.link is None,
    {
        File { destination: owned(destination), src: None, content: None, link: None }
    }
}

/// A release asset to fetch.
pub struct GhRelease {
    name: String,
}

pub fn ghrelease(name: &str) -> (r: GhRelease)
    ensures
        r.spec_name() == name@,
{
    GhRelease::new(owned(name))
}

impl GhRelease {
    pub closed spec fn spec_name(&self) -> Seq<char> {
        self.name@
    }

    pub fn new(name: String) -> (r: GhRelease)
        ensures
            r.spec_name() == name@,
    {
        GhRelease { name }
    }
}

/// A package to install.
pub struct Package {
    name: String,
}

pub fn package(name: &str) -> (r: Package)
    ensures
        r.spec_name() == name@,
{
    Package::new(owned(name))
}

impl Package {
    pub closed spec fn spec_name(&self) -> Seq<char> {
        self.name@
    }

    pub fn new(name: String) -> (r: Package)
        ensures
            r.spec_name() == name@,
    {
        Package { name }
    }
}

/// A service and its unit file content.
pub struct Service {
    pub name: String,
    pub service_file_content: String,
}

pub fn service(name: &str, service_file_content: String) -> (r: Service)
    ensures
        r.name@ == name@,
        r.service_file_content@ == service_file_content@,
{
    Service::new(owned(name), service_file_content)
}

impl Service {
    pub fn new(name: String, service_file_content: String) -> (r: Service)
        ensures
            r.name@ == name@,
            r.service_file_content@ == service_file_content@,
    {
        Service { name, service_file_content }
    }
}

/// A user account to create.
pub struct User {
    pub user: String,
    pub no_login: bool,
    pub home: Option<String>,
    pub shell: Option<String>,
}

pub fn user(name: &str) -> (r: User)
    ensures
        r.user@ == name@,
        !r.no_login,
        r.home is None,
        r.shell is None,
{
    User::new(name)
}

impl User {
    /// A login user with the default home and shell.
    pub fn new(name: &str) -> (r: User)
        ensures
            r.user@ == name@,
            !r.no_login,
            r.home is None,
            r.shell is None,
    {
        User { user: owned(name), no_login: false, home: None, shell: None }
    }
}

/// An executable that must be on PATH, with the script that installs it.
pub struct Which {
    pub bin: String,
    pub script: Option<String>,
}

pub fn which(bin: &str, script: &str) -> (r: Which)
    ensures
        r.bin@ == bin@,
        r.script matches Some(s) && s@ == script@,
{
    Which { bin: owned(bin), script: Some(owned(script)) }
}

impl Which {
    pub fn new(bin: &str) -> (r: Which)
        ensures
            r.bin@ == bin@,
            r.script is None,
    {
        Which { bin: owned(bin), script: None }
    }
}

} // verus!
