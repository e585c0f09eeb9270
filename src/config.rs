//! The client's settings: where to connect, who to be, and the key bindings.
use vstd::prelude::*;
use crate::keybinds::Keybinds;

verus! {

/// Connection and identity settings with the key bindings.
#[derive(Debug, Clone)]
pub struct Config {
    pub server: String,
    pub nick: String,
    pub user: String,
    pub real: String,
    pub pass: String,
    pub keybinds: Keybinds,
}

impl Config {
    pub fn server(&self) -> (r: String)
        ensures
            r@ == self.server@,
    {
        self.server.clone()
    }

    pub fn nick(&self) -> (r: String)
        ensures
            r@ == self.nick@,
    {
        self.nick.clone()
    }

    pub fn user(&self) -> (r: String)
        ensures
            r@ == self.user@,
    {
        self.user.clone()
    }

    pub fn real_name(&self) -> (r: String)
        ensures
            r@ == self.real@,
    {
        self.real.clone()
    }

    pub fn pass(&self) -> (r: String)
        ensures
            r@ == self.pass@,
    {
        self.pass.clone()
    }

    pub fn keybinds(&self) -> (r: &Keybinds)
        ensures
            r == &self.keybinds,
    {
        &self.keybinds
    }
}

} // verus!
