//! Data for endpoints under `api/client/servers/{server}/startup`.

use vstd::prelude::*;

verus! {

/// A startup variable.
#[derive(Debug, Clone)]
pub struct Variable {
    /// The name of the variable
    pub name: String,
    /// The description of the variable
    pub description: String,
    /// The corresponding environment variable for this variable
    pub env_variable: String,
    /// The default value
    pub default_value: String,
    /// The current value
    pub server_value: String,
    /// Whether this variable is editable
    pub is_editable: bool,
    /// The rules for what this variable can hold
    pub rules: String,
}

/// The startup data for a server.
#[derive(Debug, Clone)]
pub struct StartupData {
    /// The startup command without variables substituted
    pub startup_command: String,
    /// The startup command with variables substituted
    pub raw_startup_command: String,
    /// The startup variables
    pub variables: Vec<Variable>,
}

} // verus!
