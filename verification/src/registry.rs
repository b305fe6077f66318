//! The module registry: the closed table of endpoint modules, keyed by
//! endpoint name. It is fixed when the program is built and never changes.

use crate::text::{joined, same_text};
use vstd::prelude::*;

verus! {

/// An endpoint module of the registry.
#[derive(Clone, Copy, Debug, PartialEq, Eq, Structural)]
pub enum EndpointModule {
    /// Echoes the request body back.
    EchoInputData,
    /// Hands a prompt to a text-generation program.
    Llamacpp,
}

impl EndpointModule {
    /// The endpoint name under which the module is registered.
    pub open spec fn name(self) -> Seq<char> {
        match self {
            EndpointModule::EchoInputData => "echo_input_data"@,
            EndpointModule::Llamacpp => "llamacpp"@,
        }
    }

    /// The endpoint name under which the module is registered.
    pub fn endpoint_name(self) -> (name: &'static str)
        ensures
            name@ == self.name(),
    {
        match self {
            EndpointModule::EchoInputData => "echo_input_data",
            EndpointModule::Llamacpp => "llamacpp",
        }
    }
}

/// The module path of the endpoint called `name`:
/// `endpoint_modules/<name>/module.rs`.
pub open spec fn path_of_module(name: Seq<char>) -> Seq<char> {
    "endpoint_modules/"@ + name + "/module.rs"@
}

/// The module registered under the endpoint name `name`, if there is one.
pub open spec fn module_named(name: Seq<char>) -> Option<EndpointModule> {
    if name == EndpointModule::EchoInputData.name() {
        Some(EndpointModule::EchoInputData)
    } else if name == EndpointModule::Llamacpp.name() {
        Some(EndpointModule::Llamacpp)
    } else {
        None
    }
}

/// The module whose module path is `path`, if there is one.
pub open spec fn module_at(path: Seq<char>) -> Option<EndpointModule> {
    if path == path_of_module(EndpointModule::EchoInputData.name()) {
        Some(EndpointModule::EchoInputData)
    } else if path == path_of_module(EndpointModule::Llamacpp.name()) {
        Some(EndpointModule::Llamacpp)
    } else {
        None
    }
}

/// The module path of the endpoint called `endpoint_name`.
pub fn endpoint_module_path(endpoint_name: &str) -> (path: String)
    ensures
        path@ == path_of_module(endpoint_name@),
{
    let head = joined("endpoint_modules/", endpoint_name);
    joined(head.as_str(), "/module.rs")
}

/// Looks an endpoint name up in the registry.
pub fn find_module(module_name: &str) -> (found: Option<EndpointModule>)
    ensures
        found == module_named(module_name@),
{
    if same_text(module_name, EndpointModule::EchoInputData.endpoint_name()) {
        Some(EndpointModule::EchoInputData)
    } else if same_text(module_name, EndpointModule::Llamacpp.endpoint_name()) {
        Some(EndpointModule::Llamacpp)
    } else {
        None
    }
}

/// Looks a module path up in the registry.
pub fn find_module_at(endpoint_module_name: &str) -> (found: Option<EndpointModule>)
    ensures
        found == module_at(endpoint_module_name@),
{
    let echo = endpoint_module_path(EndpointModule::EchoInputData.endpoint_name());
    let llamacpp = endpoint_module_path(EndpointModule::Llamacpp.endpoint_name());
    if same_text(endpoint_module_name, echo.as_str()) {
        Some(EndpointModule::EchoInputData)
    } else if same_text(endpoint_module_name, llamacpp.as_str()) {
        Some(EndpointModule::Llamacpp)
    } else {
        None
    }
}

/// Whether a module is registered under the endpoint name `module_name`.
pub fn module_exists(module_name: &str) -> (exists: bool)
    ensures
        exists == module_named(module_name@).is_some(),
{
    find_module(module_name).is_some()
}

/// Whether `endpoint_module_name` is the module path of a registered module.
pub fn validate_endpoint_module_exists(endpoint_module_name: &str) -> (exists: bool)
    ensures
        exists == module_at(endpoint_module_name@).is_some(),
{
    find_module_at(endpoint_module_name).is_some()
}

/// Each module is found under its own name and at its own path, and a path
/// names a module exactly when it is the module path of a registered name.
pub proof fn lemma_registry_is_consistent(module: EndpointModule, name: Seq<char>)
    ensures
        module_named(module.name()) == Some(module),
        module_at(path_of_module(module.name())) == Some(module),
        module_at(path_of_module(name)) == module_named(name),
{
    reveal_strlit("echo_input_data");
    reveal_strlit("llamacpp");
    reveal_strlit("endpoint_modules/");
    reveal_strlit("/module.rs");
    let echo = EndpointModule::EchoInputData.name();
    let llama = EndpointModule::Llamacpp.name();
    assert(echo.len() == 15 && llama.len() == 8);
    assert(path_of_module(echo).len() != path_of_module(llama).len());
    let head = "endpoint_modules/"@;
    let tail = "/module.rs"@;
    assert forall|a: Seq<char>, b: Seq<char>| path_of_module(a) == path_of_module(b) implies a == b by {
        assert(a =~= path_of_module(a).subrange(head.len() as int, (head.len() + a.len()) as int));
        assert(path_of_module(a).len() == head.len() + a.len() + tail.len());
        assert(b =~= path_of_module(b).subrange(head.len() as int, (head.len() + b.len()) as int));
        assert(path_of_module(b).len() == head.len() + b.len() + tail.len());
    }
}

} // verus!
