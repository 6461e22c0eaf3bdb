//! The records that the rendering reads: registered apps, custom tag colors,
//! container-published ports and well-known service ports.
use vstd::prelude::*;

verus! {

/// A registered app: a port with an optional name and a category tag.
#[derive(Debug, Clone)]
pub struct App {
    pub id: i64,
    pub name: String,
    pub port: i64,
    pub category: String,
}

/// A custom color (`#RRGGBB`) chosen for a category tag.
#[derive(Debug, Clone)]
pub struct TagColor {
    pub category: String,
    pub color: String,
}

/// A port published by a container (docker, podman, ...).
#[derive(Debug, Clone)]
pub struct ContainerPort {
    pub port: u16,
    pub container_name: String,
    pub source: String,
}

/// A well-known service port of the operating system, with its service name.
#[derive(Debug, Clone)]
pub struct KnownPort {
    pub port: u16,
    pub name: String,
}

} // verus!
