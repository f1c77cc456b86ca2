//! Declarative configuration management: rules describing the desired state
//! of remote hosts, the loader that builds them from declarative documents,
//! and the per-host reconciler that turns observations into modifications.

mod api;
mod change;
mod cli;
mod digest;
mod glob;
mod loader;
mod model;
mod node;
mod reconcile;
mod remote;
mod state;
mod text;

pub use crate::api::{cp, file, ghrelease, package, service, user, which, File, GhRelease, Package, Service, User, Which};
pub use crate::change::{
    FileChange, MissingFile, Modification, ModificationView, NewService, PackageChange, ServiceChange,
    UserChange, WhichChange,
};
pub use crate::cli::{
    agent_found, agent_probe_command, choose_transport, kdl_path, platform_of_probe, platform_probe_command,
    platform_triple, CliError, Format, Install, Method,
    Plan, Run, Ssh, Transport, Up,
};
pub use crate::glob::{should_include_path, GlobError, GlobFilter};
pub use crate::loader::{
    add_kdl_deserializers_to_context, add_node, Context, CopySpec, Directive, Keyword, ServiceSource,
};
pub use crate::model::{
    host, ContentView, FileContent, FileSpec, FileSpecView, Host, HostView, PackageSpec, Rule, RuleView,
    ServiceSpec, UserSpec, WhichSpec,
};
pub use crate::node::{ChildNode, LoadError, Node, Value};
pub use crate::reconcile::{Action, HostComplete, HostError, HostRun, Phase, Record, Reply};
pub use crate::remote::{first_word_is, CheckError, Command, Output, Probe, Step};
pub use crate::state::{LocalData, LocalFile, State};
