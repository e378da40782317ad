//! The action that makes a call.

use vstd::prelude::*;
use vstd::string::*;

use crate::chance::{is_uuid, new_uuid};
use crate::execution::{config_get, config_value};
use crate::text::{cat2, opt_text};
use crate::value::{opt_json, Json, Value};

verus! {

/// The action on whose behalf a call is made, with the keys of the secrets that
/// it may reach. Keys are read to resolve a secret and never returned.
#[derive(Debug)]
pub struct Caller {
    action_ref: String,
    invocation_id: String,
    secrets: Value,
}

/// A caller as mathematics.
#[verifier::ext_equal]
pub struct CallerFrame {
    pub action_ref: Seq<char>,
    pub invocation_id: Seq<char>,
    pub secrets: Json,
}

/// The frame of an action with the given configuration.
pub open spec fn frame_of(action_ref: Seq<char>, cfg: Option<Json>, invocation_id: Seq<char>) -> CallerFrame {
    CallerFrame {
        action_ref,
        invocation_id,
        secrets: match config_get(cfg, "secrets"@) {
            Some(s) => s,
            None => Json::Null,
        },
    }
}

impl CallerFrame {
    /// The key that the caller holds for the secret `name`.
    pub open spec fn secret_key(self, name: Seq<char>) -> Option<Seq<char>> {
        self.secrets.get_str(name)
    }

    /// How the caller is named in messages.
    pub open spec fn display(self) -> Seq<char> {
        "action:/"@ + self.action_ref
    }
}

impl Caller {
    pub closed spec fn view(&self) -> CallerFrame {
        CallerFrame {
            action_ref: self.action_ref@,
            invocation_id: self.invocation_id@,
            secrets: self.secrets@,
        }
    }

    /// The frame of one run of an action, which holds the keys of that action's
    /// own `action_config.secrets`.
    pub fn with_invocation(action_ref: &str, action_config: Option<&Value>, invocation_id: &str) -> (r:
        Caller)
        ensures
            r@ == frame_of(action_ref@, opt_json(action_config), invocation_id@),
    {
        Caller {
            action_ref: action_ref.to_owned(),
            invocation_id: invocation_id.to_owned(),
            secrets: match config_value(action_config, "secrets") {
                Some(s) => s.clone(),
                None => Value::Null,
            },
        }
    }

    /// The frame of an action under a fresh run identifier.
    pub fn from_action(action_ref: &str, action_config: Option<&Value>) -> (r: Caller)
        ensures
            is_uuid(r@.invocation_id),
            r@ == frame_of(action_ref@, opt_json(action_config), r@.invocation_id),
    {
        let id = new_uuid();
        Caller::with_invocation(action_ref, action_config, id.as_str())
    }

    pub fn copy(&self) -> (r: Caller)
        ensures
            r@ == self@,
    {
        Caller {
            action_ref: self.action_ref.clone(),
            invocation_id: self.invocation_id.clone(),
            secrets: self.secrets.clone(),
        }
    }

    pub fn action_ref(&self) -> (r: &str)
        ensures
            r@ == self@.action_ref,
    {
        self.action_ref.as_str()
    }

    pub fn invocation_id(&self) -> (r: &str)
        ensures
            r@ == self@.invocation_id,
    {
        self.invocation_id.as_str()
    }

    pub fn secret_key(&self, name: &str) -> (r: Option<&str>)
        ensures
            opt_text(r) == self@.secret_key(name@),
    {
        self.secrets.get_str(name)
    }

    pub fn display(&self) -> (r: String)
        ensures
            r@ == self@.display(),
    {
        cat2("action:/", self.action_ref.as_str())
    }
}

} // verus!
