//! The entities that the action store holds.

use vstd::prelude::*;

use crate::text::{opt_string, texts};
use crate::value::{items, opt_value, Json, Value};

verus! {

/// How an action is executed.
#[derive(Debug, Clone, Copy, PartialEq, Eq, Structural)]
pub enum ActionType {
    Wasm,
    Webhook,
    Command,
    Internal,
    Script,
}

/// A stored action.
#[derive(Debug)]
pub struct Action {
    pub id: String,
    pub path: String,
    pub name: String,
    pub caption: Option<String>,
    pub description: Option<String>,
    pub capabilities: Vec<String>,
    pub phrases: Vec<String>,
    pub category: Option<String>,
    pub param_type_ref: Option<String>,
    pub result_type_ref: Option<String>,
    pub action_type: Option<ActionType>,
    pub fn_name: Option<String>,
    pub bin_name: Option<String>,
    pub action_config: Option<Value>,
    pub files: Vec<Value>,
    pub trusted: bool,
    pub created_at: String,
    pub updated_at: String,
}

/// A stored action as mathematics.
#[verifier::ext_equal]
pub struct ActionRecord {
    pub id: Seq<char>,
    pub path: Seq<char>,
    pub name: Seq<char>,
    pub caption: Option<Seq<char>>,
    pub description: Option<Seq<char>>,
    pub capabilities: Seq<Seq<char>>,
    pub phrases: Seq<Seq<char>>,
    pub category: Option<Seq<char>>,
    pub param_type_ref: Option<Seq<char>>,
    pub result_type_ref: Option<Seq<char>>,
    pub action_type: Option<ActionType>,
    pub fn_name: Option<Seq<char>>,
    pub bin_name: Option<Seq<char>>,
    pub action_config: Option<Json>,
    pub files: Seq<Json>,
    pub trusted: bool,
    pub created_at: Seq<char>,
    pub updated_at: Seq<char>,
}

impl Action {
    pub open spec fn view(&self) -> ActionRecord {
        ActionRecord {
            id: self.id@,
            path: self.path@,
            name: self.name@,
            caption: opt_string(self.caption),
            description: opt_string(self.description),
            capabilities: texts(self.capabilities@),
            phrases: texts(self.phrases@),
            category: opt_string(self.category),
            param_type_ref: opt_string(self.param_type_ref),
            result_type_ref: opt_string(self.result_type_ref),
            action_type: self.action_type,
            fn_name: opt_string(self.fn_name),
            bin_name: opt_string(self.bin_name),
            action_config: opt_value(self.action_config),
            files: items(self.files@),
            trusted: self.trusted,
            created_at: self.created_at@,
            updated_at: self.updated_at@,
        }
    }
}

pub open spec fn records(v: Seq<Action>) -> Seq<ActionRecord> {
    Seq::new(v.len(), |i: int| v[i]@)
}

/// What an action is created or updated with; what is left out keeps its stored
/// value.
#[derive(Debug)]
pub struct ActionInput {
    pub caption: Option<String>,
    pub description: Option<String>,
    pub capabilities: Vec<String>,
    pub phrases: Vec<String>,
    pub category: Option<String>,
    pub param_type_ref: Option<String>,
    pub result_type_ref: Option<String>,
    pub action_type: Option<ActionType>,
    pub fn_name: Option<String>,
    pub bin_name: Option<String>,
    pub action_config: Option<Value>,
    pub files: Vec<Value>,
    pub trusted: Option<bool>,
}

/// What an action is created or updated with, as mathematics.
#[verifier::ext_equal]
pub struct InputRecord {
    pub caption: Option<Seq<char>>,
    pub description: Option<Seq<char>>,
    pub capabilities: Seq<Seq<char>>,
    pub phrases: Seq<Seq<char>>,
    pub category: Option<Seq<char>>,
    pub param_type_ref: Option<Seq<char>>,
    pub result_type_ref: Option<Seq<char>>,
    pub action_type: Option<ActionType>,
    pub fn_name: Option<Seq<char>>,
    pub bin_name: Option<Seq<char>>,
    pub action_config: Option<Json>,
    pub files: Seq<Json>,
    pub trusted: Option<bool>,
}

impl ActionInput {
    pub open spec fn view(&self) -> InputRecord {
        InputRecord {
            caption: opt_string(self.caption),
            description: opt_string(self.description),
            capabilities: texts(self.capabilities@),
            phrases: texts(self.phrases@),
            category: opt_string(self.category),
            param_type_ref: opt_string(self.param_type_ref),
            result_type_ref: opt_string(self.result_type_ref),
            action_type: self.action_type,
            fn_name: opt_string(self.fn_name),
            bin_name: opt_string(self.bin_name),
            action_config: opt_value(self.action_config),
            files: items(self.files@),
            trusted: self.trusted,
        }
    }
}

impl Default for ActionInput {
    fn default() -> (r: ActionInput)
        ensures
            r@ == nothing_given(),
    {
        let r = ActionInput {
            caption: None,
            description: None,
            capabilities: Vec::new(),
            phrases: Vec::new(),
            category: None,
            param_type_ref: None,
            result_type_ref: None,
            action_type: None,
            fn_name: None,
            bin_name: None,
            action_config: None,
            files: Vec::new(),
            trusted: None,
        };
        assert(r@ =~= nothing_given());
        r
    }
}

/// The input that gives nothing.
pub open spec fn nothing_given() -> InputRecord {
    InputRecord {
        caption: None,
        description: None,
        capabilities: Seq::empty(),
        phrases: Seq::empty(),
        category: None,
        param_type_ref: None,
        result_type_ref: None,
        action_type: None,
        fn_name: None,
        bin_name: None,
        action_config: None,
        files: Seq::empty(),
        trusted: None,
    }
}

/// What executing an action came to.
#[derive(Debug)]
pub struct ActionExecResult {
    pub action: String,
    pub result: Value,
    pub success: bool,
    pub message: Option<String>,
}

/// What executing an action came to, as mathematics.
#[verifier::ext_equal]
pub struct ExecRecord {
    pub action: Seq<char>,
    pub result: Json,
    pub success: bool,
    pub message: Option<Seq<char>>,
}

impl ActionExecResult {
    pub open spec fn view(&self) -> ExecRecord {
        ExecRecord {
            action: self.action@,
            result: self.result@,
            success: self.success,
            message: opt_string(self.message),
        }
    }
}

} // verus!
