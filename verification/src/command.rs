//! The outbound commands of the daemon, in structured form, and their exact
//! rendering as the manager's text protocol, with quote escaping.
use vstd::prelude::*;
use vstd::string::StringExecFns;

use crate::text::{dec_int, escape_quotes, i64_to_string, spec_escape};

verus! {

/// A command the daemon issues to the window manager.
pub enum Command {
    SplitV,
    SplitH,
    RenameByName { old: String, new: String },
    RenameByNum { num: i64, new: String },
}

/// The mathematical image of a `Command`.
pub enum AbsCommand {
    SplitV,
    SplitH,
    RenameByName { old: Seq<char>, new: Seq<char> },
    RenameByNum { num: int, new: Seq<char> },
}

impl View for Command {
    type V = AbsCommand;

    open spec fn view(&self) -> AbsCommand {
        match self {
            Command::SplitV => AbsCommand::SplitV,
            Command::SplitH => AbsCommand::SplitH,
            Command::RenameByName { old, new } => AbsCommand::RenameByName {
                old: old@,
                new: new@,
            },
            Command::RenameByNum { num, new } => AbsCommand::RenameByNum {
                num: *num as int,
                new: new@,
            },
        }
    }
}

/// The protocol line for a command: `split v`, `split h`, or a rename that
/// addresses the workspace by quoted name or by number, with every
/// double-quote in the names escaped.
pub open spec fn spec_render(c: AbsCommand) -> Seq<char> {
    match c {
        AbsCommand::SplitV => "split v"@,
        AbsCommand::SplitH => "split h"@,
        AbsCommand::RenameByName { old, new } => "rename workspace \""@ + spec_escape(old)
            + "\" to \""@ + spec_escape(new) + "\""@,
        AbsCommand::RenameByNum { num, new } => "rename workspace number "@ + dec_int(num)
            + " to \""@ + spec_escape(new) + "\""@,
    }
}

impl Command {
    /// Render the command as the one text line the manager is sent.
    pub fn render(&self) -> (r: String)
        ensures
            r@ == spec_render(self@),
    {
        match self {
            Command::SplitV => "split v".to_owned(),
            Command::SplitH => "split h".to_owned(),
            Command::RenameByName { old, new } => {
                let mut s = "rename workspace \"".to_owned();
                let e_old = escape_quotes(old.as_str());
                s = s.concat(e_old.as_str());
                s = s.concat("\" to \"");
                let e_new = escape_quotes(new.as_str());
                s = s.concat(e_new.as_str());
                s = s.concat("\"");
                proof {
                    assert(s@ =~= spec_render(self@));
                }
                s
            },
            Command::RenameByNum { num, new } => {
                let mut s = "rename workspace number ".to_owned();
                let d = i64_to_string(*num);
                s = s.concat(d.as_str());
                s = s.concat(" to \"");
                let e_new = escape_quotes(new.as_str());
                s = s.concat(e_new.as_str());
                s = s.concat("\"");
                proof {
                    assert(s@ =~= spec_render(self@));
                }
                s
            },
        }
    }
}

} // verus!
