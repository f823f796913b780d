//! Node roles and platforms.
use vstd::prelude::*;
use crate::text::str_eq;

verus! {

/// A role that a node offers to the network.
#[derive(Debug, Clone, Copy, PartialEq, Eq, Structural)]
pub enum NodeRole {
    Compute,
    Storage,
    Validation,
    Ai,
    Social,
}

/// The name of a role.
pub open spec fn role_name(r: NodeRole) -> Seq<char> {
    match r {
        NodeRole::Compute => "compute"@,
        NodeRole::Storage => "storage"@,
        NodeRole::Validation => "validation"@,
        NodeRole::Ai => "ai"@,
        NodeRole::Social => "social"@,
    }
}

/// The role named `s`, if any.
pub open spec fn role_named(s: Seq<char>) -> Option<NodeRole> {
    if s == "compute"@ {
        Some(NodeRole::Compute)
    } else if s == "storage"@ {
        Some(NodeRole::Storage)
    } else if s == "validation"@ {
        Some(NodeRole::Validation)
    } else if s == "ai"@ {
        Some(NodeRole::Ai)
    } else if s == "social"@ {
        Some(NodeRole::Social)
    } else {
        None
    }
}

/// How a role is printed for debugging: its variant name.
pub open spec fn role_debug(r: NodeRole) -> Seq<char> {
    match r {
        NodeRole::Compute => "Compute"@,
        NodeRole::Storage => "Storage"@,
        NodeRole::Validation => "Validation"@,
        NodeRole::Ai => "Ai"@,
        NodeRole::Social => "Social"@,
    }
}

impl NodeRole {
    /// The role's name.
    pub fn as_str(&self) -> (s: &'static str)
        ensures
            s@ == role_name(*self),
    {
        match self {
            NodeRole::Compute => "compute",
            NodeRole::Storage => "storage",
            NodeRole::Validation => "validation",
            NodeRole::Ai => "ai",
            NodeRole::Social => "social",
        }
    }

    /// The role's debug text.
    pub fn debug_str(&self) -> (s: &'static str)
        ensures
            s@ == role_debug(*self),
    {
        match self {
            NodeRole::Compute => "Compute",
            NodeRole::Storage => "Storage",
            NodeRole::Validation => "Validation",
            NodeRole::Ai => "Ai",
            NodeRole::Social => "Social",
        }
    }

    /// The role named `s`, if any.
    pub fn parse(s: &str) -> (r: Option<NodeRole>)
        ensures
            r == role_named(s@),
    {
        if str_eq(s, "compute") {
            Some(NodeRole::Compute)
        } else if str_eq(s, "storage") {
            Some(NodeRole::Storage)
        } else if str_eq(s, "validation") {
            Some(NodeRole::Validation)
        } else if str_eq(s, "ai") {
            Some(NodeRole::Ai)
        } else if str_eq(s, "social") {
            Some(NodeRole::Social)
        } else {
            None
        }
    }
}

/// The platform a node runs on.
#[derive(Debug, Clone, Copy, PartialEq, Eq, Structural)]
pub enum Platform {
    Linux,
    Windows,
    Macos,
    Android,
}

/// The name of a platform.
pub open spec fn platform_name(p: Platform) -> Seq<char> {
    match p {
        Platform::Linux => "linux"@,
        Platform::Windows => "windows"@,
        Platform::Macos => "macos"@,
        Platform::Android => "android"@,
    }
}

impl Platform {
    /// The platform's name.
    pub fn as_str(&self) -> (s: &'static str)
        ensures
            s@ == platform_name(*self),
    {
        match self {
            Platform::Linux => "linux",
            Platform::Windows => "windows",
            Platform::Macos => "macos",
            Platform::Android => "android",
        }
    }

    /// The platform of a Linux build, where the `FLOVENET_PLATFORM` setting `android`
    /// selects Android.
    pub fn for_linux(platform_setting: Option<&str>) -> (p: Platform)
        ensures
            p == (match platform_setting {
                Some(s) => if s@ == "android"@ { Platform::Android } else { Platform::Linux },
                None => Platform::Linux,
            }),
    {
        match platform_setting {
            Some(s) => if str_eq(s, "android") { Platform::Android } else { Platform::Linux },
            None => Platform::Linux,
        }
    }
}

/// Law: the name of every role parses back to that role.
pub proof fn law_role_name_parses_back(r: NodeRole)
    ensures
        role_named(role_name(r)) == Some(r),
{
    reveal_strlit("compute");
    reveal_strlit("storage");
    reveal_strlit("validation");
    reveal_strlit("ai");
    reveal_strlit("social");
    assert("storage"@[0] != "compute"@[0]);
    assert("validation"@.len() != "compute"@.len() && "validation"@.len() != "storage"@.len());
    assert("ai"@.len() != "compute"@.len() && "ai"@.len() != "storage"@.len() && "ai"@.len() != "validation"@.len());
    assert("social"@.len() != "compute"@.len() && "social"@.len() != "storage"@.len() && "social"@.len() != "validation"@.len() && "social"@.len() != "ai"@.len());
}

} // verus!
