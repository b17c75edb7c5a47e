//! First start: choosing a name, and the port to serve on.
use crate::identity::{default_name, IdentityError, IdentityView, NodeIdentity};
use crate::text;
use crate::text::u16_of;
use vstd::prelude::*;
use vstd::string::*;

verus! {

/// The port to serve on where none is given.
pub const DEFAULT_WEB_PORT: u16 = 7700;

/// The port that the `TANOS_PORT` variable names, or the default where it is unset or names
/// none.
pub open spec fn web_port_of(variable: Option<String>) -> u16 {
    if variable is Some && u16_of(variable->0@) is Some {
        u16_of(variable->0@)->0
    } else {
        DEFAULT_WEB_PORT
    }
}

/// The port to serve on, given the `TANOS_PORT` variable.
pub fn web_port(variable: &Option<String>) -> (port: u16)
    ensures
        port == web_port_of(*variable),
{
    match variable {
        Some(value) => match text::parse_u16(value.as_str()) {
            Some(port) => port,
            None => DEFAULT_WEB_PORT,
        },
        None => DEFAULT_WEB_PORT,
    }
}

/// How a node gets its identity.
#[derive(Debug, Clone, Copy, PartialEq, Eq, Structural)]
pub enum Startup {
    /// Load the saved identity.
    Load,
    /// Ask for a name first.
    Setup,
}

/// How to start, given whether an identity is saved. Not to know counts as none.
pub fn startup(identity_exists: Result<bool, IdentityError>) -> (startup: Startup)
    ensures
        startup == (if identity_exists == Ok::<bool, IdentityError>(true) {
            Startup::Load
        } else {
            Startup::Setup
        }),
{
    match identity_exists {
        Ok(true) => Startup::Load,
        _ => Startup::Setup,
    }
}

/// The setup of a node: an identity that waits for its name.
pub struct SetupState {
    identity: Option<NodeIdentity>,
}

impl View for SetupState {
    type V = Option<IdentityView>;

    closed spec fn view(&self) -> Option<IdentityView> {
        match self.identity {
            Some(identity) => Some(identity@),
            None => None,
        }
    }
}

impl SetupState {
    /// The waiting identity, if there is one, has the keys and the id that belong together.
    pub closed spec fn well_formed(&self) -> bool {
        self.identity matches Some(identity) ==> identity.well_formed()
    }

    /// A setup with a freshly generated identity, so that its id can be shown.
    pub fn new() -> (setup: Self)
        ensures
            setup@ is Some,
            setup@->0.friendly_name == default_name(setup@->0.tan_id),
            setup.well_formed(),
    {
        SetupState { identity: Some(NodeIdentity::generate(None)) }
    }

    /// The setup of a given identity.
    pub fn for_identity(identity: NodeIdentity) -> (setup: Self)
        ensures
            setup@ == Some(identity@),
            identity.well_formed() ==> setup.well_formed(),
    {
        SetupState { identity: Some(identity) }
    }

    /// The id to show: that of the waiting identity, or nothing once it was handed out.
    pub fn shown_id(&self) -> (id: String)
        ensures
            id@ == (match self@ {
                Some(identity) => identity.tan_id,
                None => Seq::empty(),
            }),
    {
        match &self.identity {
            Some(identity) => identity.tan_id.clone(),
            None => String::new(),
        }
    }

    /// Take in the name that was chosen. The first time this hands out the identity, under
    /// that name, to be saved and used; after that there is none left.
    pub fn handle_setup(&mut self, username: String) -> (identity: Option<NodeIdentity>)
        ensures
            final(self)@ is None,
            final(self).well_formed(),
            match identity {
                Some(id) => {
                    &&& old(self)@ is Some
                    &&& id@ == (IdentityView { friendly_name: username@, ..old(self)@->0 })
                    &&& old(self).well_formed() ==> id.well_formed()
                },
                None => old(self)@ is None,
            },
    {
        match self.identity.take() {
            Some(mut identity) => {
                identity.friendly_name = username;
                Some(identity)
            },
            None => None,
        }
    }
}

/// The port to serve on is the number that the variable holds, and 7700 where it is unset or
/// holds none.
pub proof fn law_which_port_is_served(variable: Option<String>)
    ensures
        variable is None ==> web_port_of(variable) == 7700,
        variable is Some ==> web_port_of(variable) == (match u16_of(variable->0@) {
            Some(port) => port,
            None => 7700u16,
        }),
{
}

} // verus!
