//! Power actions handed to systemd-logind through `systemctl`.
use vstd::prelude::*;

use crate::text::{owned, str_eq, trim};

verus! {

/// A power action the UI can ask for.
#[derive(Debug, Clone, Copy, PartialEq, Eq)]
pub enum Action {
    Suspend,
    Reboot,
    Shutdown,
}

/// The `systemctl` verb for each action.
pub open spec fn spec_systemctl_verb(action: Action) -> Seq<char> {
    match action {
        Action::Suspend => "suspend"@,
        Action::Reboot => "reboot"@,
        Action::Shutdown => "poweroff"@,
    }
}

/// The name the UI sends for each action: the variant's name in lower case.
pub open spec fn spec_action_name(action: Action) -> Seq<char> {
    match action {
        Action::Suspend => "suspend"@,
        Action::Reboot => "reboot"@,
        Action::Shutdown => "shutdown"@,
    }
}

impl Action {
    pub fn systemctl_verb(self) -> (verb: &'static str)
        ensures
            verb@ == spec_systemctl_verb(self),
    {
        match self {
            Action::Suspend => "suspend",
            Action::Reboot => "reboot",
            Action::Shutdown => "poweroff",
        }
    }

    /// The name the UI sends.
    pub fn name(self) -> (name: &'static str)
        ensures
            name@ == spec_action_name(self),
    {
        match self {
            Action::Suspend => "suspend",
            Action::Reboot => "reboot",
            Action::Shutdown => "shutdown",
        }
    }

    /// The action the UI named, or nothing for a name it cannot send.
    pub fn from_name(name: &str) -> (r: Option<Action>)
        ensures
            match r {
                Some(action) => spec_action_name(action) == name@,
                None => forall|action: Action| spec_action_name(action) != name@,
            },
    {
        if str_eq(name, "suspend") {
            Some(Action::Suspend)
        } else if str_eq(name, "reboot") {
            Some(Action::Reboot)
        } else if str_eq(name, "shutdown") {
            Some(Action::Shutdown)
        } else {
            assert forall|action: Action| spec_action_name(action) != name@ by {
                match action {
                    Action::Suspend => {},
                    Action::Reboot => {},
                    Action::Shutdown => {},
                }
            }
            None
        }
    }
}

/// Each action's name names it and no other, so the name the UI is sent for
/// an action is read back, by `from_name`, as that same action.
pub proof fn lemma_action_names_round_trip(a: Action, b: Action)
    ensures
        spec_action_name(a) == spec_action_name(b) ==> a == b,
{
    reveal_strlit("suspend");
    reveal_strlit("reboot");
    reveal_strlit("shutdown");
    if spec_action_name(a) == spec_action_name(b) {
        assert(spec_action_name(a).len() == spec_action_name(b).len());
        assert(spec_action_name(a).len() == match a {
            Action::Suspend => 7int,
            Action::Reboot => 6int,
            Action::Shutdown => 8int,
        });
        assert(spec_action_name(b).len() == match b {
            Action::Suspend => 7int,
            Action::Reboot => 6int,
            Action::Shutdown => 8int,
        });
    }
}

/// What is reported when `systemctl` ran and refused: the verb, and its
/// standard error trimmed.
pub fn failure_message(verb: &str, stderr: &str) -> (r: String)
    ensures
        r@ == "systemctl "@ + verb@ + " failed: "@ + trim(stderr@),
{
    let mut r = owned("systemctl ");
    r.append(verb);
    r.append(" failed: ");
    let chars = crate::text::chars_of(stderr);
    let trimmed = crate::text::trim_chars(&chars);
    let t = crate::text::string_of(&trimmed);
    r.append(t.as_str());
    r
}

} // verus!
