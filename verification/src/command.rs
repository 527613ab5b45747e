//! The console command that lists votes: `ls r all` asks every peer for
//! its public votes, `ls r` followed by an identifier asks that peer, and
//! anything else lists the local votes.

use vstd::prelude::*;
use crate::message::{ListMode, ListRequest, Mode, Request};

verus! {

/// What a list command asks for.
#[derive(Debug, PartialEq, Eq)]
pub enum ListCommand {
    /// The votes of this peer.
    Local,
    /// The public votes of other peers: this request is to be published.
    Ask(ListRequest),
}

/// A list command as a mathematical value.
pub enum ListCommandView {
    Local,
    Ask(Request),
}

impl View for ListCommand {
    type V = ListCommandView;

    open spec fn view(&self) -> ListCommandView {
        match self {
            ListCommand::Local => ListCommandView::Local,
            ListCommand::Ask(request) => ListCommandView::Ask(request@),
        }
    }
}

/// What the command line `line` asks for. Behind the words `ls r` and one
/// blank stands the peer to ask, or `all` for every peer; a line that does
/// not begin so asks for the local votes.
pub open spec fn list_command(line: Seq<char>) -> ListCommandView {
    if "ls r "@.is_prefix_of(line) {
        let rest = line.skip(5);
        if rest == "all"@ {
            ListCommandView::Ask(Request { mode: Mode::All })
        } else {
            ListCommandView::Ask(Request { mode: Mode::One(rest) })
        }
    } else {
        ListCommandView::Local
    }
}

/// Reads a list command.
pub fn parse_list_command(line: &str) -> (command: ListCommand)
    ensures
        command@ == list_command(line@),
{
    proof {
        reveal_strlit("ls r ");
        reveal_strlit("all");
    }
    let length = line.unicode_len();
    if length < 5 {
        return ListCommand::Local;
    }
    if line.get_char(0) != 'l' || line.get_char(1) != 's' || line.get_char(2) != ' '
        || line.get_char(3) != 'r' || line.get_char(4) != ' ' {
        proof {
            if "ls r "@.is_prefix_of(line@) {
                let head = line@.subrange(0, 5);
                assert(head[0] == line@[0] && head[1] == line@[1] && head[2] == line@[2]);
                assert(head[3] == line@[3] && head[4] == line@[4]);
            }
        }
        return ListCommand::Local;
    }
    proof {
        assert("ls r "@ =~= line@.subrange(0, 5));
    }
    let rest = line.substring_char(5, length);
    proof {
        assert(rest@ =~= line@.skip(5));
    }
    if length == 8 && rest.get_char(0) == 'a' && rest.get_char(1) == 'l' && rest.get_char(2) == 'l' {
        proof {
            assert(rest@ =~= "all"@);
        }
        ListCommand::Ask(ListRequest { mode: ListMode::ALL })
    } else {
        proof {
            if rest@ == "all"@ {
                assert(rest@.len() == 3);
                assert(line@.len() == 8);
            }
        }
        ListCommand::Ask(ListRequest { mode: ListMode::One(rest.to_owned()) })
    }
}

} // verus!
