//! Handles initial privilege dropping at the launch of the program.
use vstd::prelude::*;

verus! {

/// Error when initializing privleges.
#[derive(Debug, PartialEq, Eq, Structural, Clone, Copy)]
pub enum Error {
    /// The app has not been run as root.
    NotRunningAsRoot,
    NoDefinedUser,
}

/// Create necessary groups.
fn create_groups() {
}

/// Update groups of the UInput file to allow the new group to access it.
fn set_groups() {
}

/// Set privileges to what the application needs to function with UInput and Input.
fn set_privs() {
}

/// Initialize correct permissions for the daemon to run.
pub fn establish_privileges() {
}

} // verus!
