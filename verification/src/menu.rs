//! Client-side login form state for the main menu.

use vstd::prelude::*;

verus! {

/// What the player typed into the login form.
#[derive(Clone, Debug)]
pub struct LoginInfo {
    pub username: String,
    pub password: String,
    pub server: String,
}

/// Which pane of the menu is open.
#[derive(Clone, Copy, Debug, PartialEq, Eq, Structural)]
pub enum Showing {
    Login,
    Languages,
}

impl Showing {
    /// Open the given pane, or fall back to the login pane when it is
    /// already open.
    pub fn toggle(&mut self, other: Showing)
        ensures
            *final(self) == if *old(self) == other {
                Showing::Login
            } else {
                other
            },
    {
        if *self == other {
            *self = Showing::Login;
        } else {
            *self = other;
        }
    }
}

} // verus!
