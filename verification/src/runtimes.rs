//! The language runtimes' decision cores. Finding an interpreter,
//! spawning it and watching it are the driver's work; what is decided
//! beforehand — the resource-limit template, which framework a project
//! manifest names, which script starts it, whether a project is a Django
//! or Flask project — is computed and verified here.

use vstd::prelude::*;
use crate::json::{
    entries_contain, entries_get, entries_have_key, entries_lookup, json_field_entries,
    object_field_entries,
};
use crate::text::{contains_seq, contains_str, copy_str, seq_has_str, seq_views, any_str_eq};

verus! {

/// Resource limits for one instance: a memory ceiling in megabytes, a CPU
/// share, and an instruction budget. An unset field means unlimited.
#[derive(Debug, Clone)]
pub struct ResourceLimits {
    pub memory_mb: Option<u64>,
    pub cpu_percent: Option<u32>,
    pub fuel: Option<u64>,
}

impl Default for ResourceLimits {
    /// No limits at all.
    fn default() -> (r: Self)
        ensures
            r.memory_mb is None,
            r.cpu_percent is None,
            r.fuel is None,
    {
        ResourceLimits { memory_mb: None, cpu_percent: None, fuel: None }
    }
}

/// The Node.js runtime: its resource-limit template.
#[derive(Debug)]
pub struct NodeJSRuntime {
    pub limits: ResourceLimits,
}

/// The framework a Node.js manifest's dependencies name, by display name.
pub open spec fn spec_node_framework(content: Seq<char>) -> Option<Seq<char>> {
    match json_field_entries(content, "dependencies"@) {
        None => None,
        Some(es) => if entries_contain(es, "next"@) {
            Some("Next.js"@)
        } else if entries_contain(es, "express"@) {
            Some("Express"@)
        } else if entries_contain(es, "react"@) {
            Some("React"@)
        } else if entries_contain(es, "vue"@) {
            Some("Vue.js"@)
        } else {
            None
        },
    }
}

/// The script that starts a Node.js project: the manifest's `dev` script,
/// or failing that its `start` script, when the named script is a string.
pub open spec fn spec_start_script(content: Seq<char>) -> Option<Seq<char>> {
    match json_field_entries(content, "scripts"@) {
        None => None,
        Some(es) => if entries_contain(es, "dev"@) {
            entries_lookup(es, "dev"@)
        } else if entries_contain(es, "start"@) {
            entries_lookup(es, "start"@)
        } else {
            None
        },
    }
}

impl NodeJSRuntime {
    /// A runtime without limits.
    pub fn new() -> (r: Self)
        ensures
            r.limits.memory_mb is None,
            r.limits.cpu_percent is None,
            r.limits.fuel is None,
    {
        NodeJSRuntime { limits: ResourceLimits::default() }
    }

    /// A runtime with the given limits.
    pub fn with_limits(limits: ResourceLimits) -> (r: Self)
        ensures
            r.limits == limits,
    {
        NodeJSRuntime { limits }
    }

    /// The framework the manifest text names, for display.
    pub fn detect_framework(package_json: &str) -> (r: Option<String>)
        ensures
            match r {
                Some(name) => spec_node_framework(package_json@) == Some(name@),
                None => spec_node_framework(package_json@) is None,
            },
    {
        let entries = match object_field_entries(package_json, "dependencies") {
            Some(es) => es,
            None => {
                return None;
            },
        };
        if entries_have_key(&entries, "next") {
            Some(copy_str("Next.js"))
        } else if entries_have_key(&entries, "express") {
            Some(copy_str("Express"))
        } else if entries_have_key(&entries, "react") {
            Some(copy_str("React"))
        } else if entries_have_key(&entries, "vue") {
            Some(copy_str("Vue.js"))
        } else {
            None
        }
    }

    /// The start script the manifest text names.
    pub fn get_start_script(package_json: &str) -> (r: Option<String>)
        ensures
            match r {
                Some(s) => spec_start_script(package_json@) == Some(s@),
                None => spec_start_script(package_json@) is None,
            },
    {
        let entries = match object_field_entries(package_json, "scripts") {
            Some(es) => es,
            None => {
                return None;
            },
        };
        match entries_get(&entries, "dev") {
            Some(v) => v,
            None => match entries_get(&entries, "start") {
                Some(v) => v,
                None => None,
            },
        }
    }
}

/// The Python runtime: its resource-limit template.
#[derive(Debug)]
pub struct PythonRuntime {
    pub limits: ResourceLimits,
}

impl PythonRuntime {
    /// A runtime without limits.
    pub fn new() -> (r: Self)
        ensures
            r.limits.memory_mb is None,
            r.limits.cpu_percent is None,
            r.limits.fuel is None,
    {
        PythonRuntime { limits: ResourceLimits::default() }
    }

    /// A runtime with the given limits.
    pub fn with_limits(limits: ResourceLimits) -> (r: Self)
        ensures
            r.limits == limits,
    {
        PythonRuntime { limits }
    }

    /// Whether a project directory is a Django project: it holds a
    /// `manage.py`.
    pub fn is_django_project(project_files: &Vec<String>) -> (r: bool)
        ensures
            r == seq_has_str(seq_views(project_files@), "manage.py"@),
    {
        any_str_eq(project_files, "manage.py")
    }

    /// Whether a script is a Flask program: its text imports flask.
    pub fn is_flask_project(script: &str) -> (r: bool)
        ensures
            r == (contains_seq(script@, "from flask import"@) || contains_seq(
                script@,
                "import flask"@,
            )),
    {
        contains_str(script, "from flask import") || contains_str(script, "import flask")
    }
}

/// The static file server: the port it serves on.
#[derive(Debug)]
pub struct StaticServer {
    pub port: u16,
}

impl StaticServer {
    /// A server for the given port.
    pub fn new(port: u16) -> (r: Self)
        ensures
            r.port == port,
    {
        StaticServer { port }
    }
}

} // verus!
