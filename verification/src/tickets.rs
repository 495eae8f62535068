//! The shared data model of the support-ticket collaborators: the ticket
//! workflow states with their wire names, and the plain records exchanged
//! between the ticket server and its clients. The ticket storage and
//! transport themselves live outside the library.

use vstd::prelude::*;

verus! {

use vstd::string::*;
use crate::strutil::str_eq;

/// A ticket's workflow state.
#[derive(Clone, Copy, PartialEq, Eq, Structural, Debug)]
pub enum TicketState {
    New,
    InProgress,
    Done,
}

/// The stored and wire name of a ticket state.
pub open spec fn state_name(t: TicketState) -> Seq<char> {
    match t {
        TicketState::New => "new"@,
        TicketState::InProgress => "in_progress"@,
        TicketState::Done => "done"@,
    }
}

/// Which state a stored name denotes, if any.
pub open spec fn parse_state(s: Seq<char>) -> Option<TicketState> {
    if s == "new"@ {
        Some(TicketState::New)
    } else if s == "in_progress"@ {
        Some(TicketState::InProgress)
    } else if s == "done"@ {
        Some(TicketState::Done)
    } else {
        None
    }
}

impl TicketState {
    /// The state's stored and wire name.
    pub fn as_str(&self) -> (s: &'static str)
        ensures
            s@ == state_name(*self),
    {
        match self {
            TicketState::New => "new",
            TicketState::InProgress => "in_progress",
            TicketState::Done => "done",
        }
    }

    /// Parses a stored state name; `None` for anything outside the closed
    /// set.
    pub fn from_str(s: &str) -> (r: Option<TicketState>)
        ensures
            r == parse_state(s@),
    {
        if str_eq(s, "new") {
            Some(TicketState::New)
        } else if str_eq(s, "in_progress") {
            Some(TicketState::InProgress)
        } else if str_eq(s, "done") {
            Some(TicketState::Done)
        } else {
            None
        }
    }

    /// The state's human-readable label.
    pub fn display_label(&self) -> (s: &'static str)
        ensures
            s@ == (match self {
                TicketState::New => "Neu"@,
                TicketState::InProgress => "In Bearbeitung"@,
                TicketState::Done => "Erledigt"@,
            }),
    {
        match self {
            TicketState::New => "Neu",
            TicketState::InProgress => "In Bearbeitung",
            TicketState::Done => "Erledigt",
        }
    }
}

/// Round trip: every state's wire name parses back to exactly that state.
pub proof fn lemma_state_name_round_trip(t: TicketState)
    ensures
        parse_state(state_name(t)) == Some(t),
{
    reveal_strlit("new");
    reveal_strlit("in_progress");
    reveal_strlit("done");
    assert("new"@.len() == 3);
    assert("in_progress"@.len() == 11);
    assert("done"@.len() == 4);
}

/// A support ticket as listed.
pub struct Ticket {
    pub id: i64,
    pub user_id: i64,
    pub created_at: i64,
    pub description: String,
    pub zip_filename: String,
    pub state: TicketState,
}

/// A ticket together with its uploaded archive.
pub struct TicketWithZip {
    pub id: i64,
    pub user_id: i64,
    pub created_at: i64,
    pub description: String,
    pub zip_filename: String,
    pub zip_data: Vec<u8>,
    pub state: TicketState,
}

/// A comment on a ticket.
pub struct Comment {
    pub id: i64,
    pub ticket_id: i64,
    pub user_id: i64,
    pub created_at: i64,
    pub text: String,
}

/// A ticket with its ordered comments.
pub struct TicketDetail {
    pub ticket: Ticket,
    pub comments: Vec<Comment>,
}

/// A request to append a comment.
pub struct CreateCommentRequest {
    pub text: String,
}

/// A request to move a ticket to another state.
pub struct UpdateStateRequest {
    pub state: TicketState,
}

/// One entry of an uploaded archive, as shown in the viewer.
pub struct ZipEntry {
    pub name: String,
    pub size: u64,
    pub is_dir: bool,
}

/// The screens of the terminal client. (Named to stay clear of the view
/// trait that every verified type carries.)
#[derive(Clone, Copy, PartialEq, Eq, Structural, Debug)]
pub enum ClientView {
    TicketList,
    TicketDetail,
    ZipViewer,
    FileContent,
    AddComment,
    CreateTicket,
}

} // verus!
