//! One connection's side of the protocol: which room it is bound to, what
//! each text frame asks of the coordinator, and what to do with the
//! coordinator's replies.

use vstd::prelude::*;
use vstd::string::*;
use crate::room::{
    ControlInstruction, Leave, RoomKey, SendTextMessage, SessionIdentifier, SetStudentDoc,
    StudentJoin, TeacherJoin, UpdateStudentCode, WSResponse,
};
use crate::text::{find_first, split_at_first, split_once};

verus! {

/// The longest verb of the protocol has this many characters.
pub const LONGEST_VERB: usize = 7;

/// What one text frame asks of the coordinator.
pub enum Request {
    TeacherJoin(TeacherJoin),
    StudentJoin(StudentJoin),
    ControlInstruction(ControlInstruction),
    UpdateStudentCode(UpdateStudentCode),
    SetStudentDoc(SetStudentDoc),
    SendTextMessage(SendTextMessage),
}

pub enum RequestView {
    TeacherJoin { identifier: RoomKey, addr: u64, username: Seq<char> },
    StudentJoin { identifier: RoomKey, addr: u64, username: Seq<char> },
    ControlInstruction { instruction: Seq<char>, identifier: RoomKey },
    UpdateStudentCode { identifier: RoomKey, username: Seq<char>, code: Seq<char>, student_addr: u64 },
    SetStudentDoc { identifier: RoomKey, username: Seq<char>, code: Seq<char>, student_addr: u64 },
    SendTextMessage { identifier: RoomKey, username: Seq<char>, text: Seq<char> },
}

impl View for Request {
    type V = RequestView;

    open spec fn view(&self) -> RequestView {
        match self {
            Request::TeacherJoin(m) => RequestView::TeacherJoin {
                identifier: m.identifier@,
                addr: m.addr,
                username: m.username@,
            },
            Request::StudentJoin(m) => RequestView::StudentJoin {
                identifier: m.identifier@,
                addr: m.addr,
                username: m.username@,
            },
            Request::ControlInstruction(m) => RequestView::ControlInstruction {
                instruction: m.instruction@,
                identifier: m.identifier@,
            },
            Request::UpdateStudentCode(m) => RequestView::UpdateStudentCode {
                identifier: m.identifier@,
                username: m.username@,
                code: m.code@,
                student_addr: m.student_addr,
            },
            Request::SetStudentDoc(m) => RequestView::SetStudentDoc {
                identifier: m.identifier@,
                username: m.username@,
                code: m.code@,
                student_addr: m.student_addr,
            },
            Request::SendTextMessage(m) => RequestView::SendTextMessage {
                identifier: m.identifier@,
                username: m.username@,
                text: m.text@,
            },
        }
    }
}

/// The room key written `plan:session:host`; the host keeps any further
/// colons.
pub open spec fn room_key_of(s: Seq<char>) -> Option<RoomKey> {
    match split_once(s, ':') {
        Some(p) => match split_once(p.1, ':') {
            Some(q) => Some((p.0, q.0, q.1)),
            None => None,
        },
        None => None,
    }
}

/// What the frame `s` asks of the coordinator, from the user `user` at the
/// handle `own` while bound to `bound`: the verb is what comes before the
/// first space and the payload what follows it. Frames without a space,
/// with an unknown verb, with a malformed room key, or that need a bound
/// room while there is none ask nothing.
pub open spec fn request_of(bound: Option<RoomKey>, user: Seq<char>, own: u64, s: Seq<char>) -> Option<
    RequestView,
> {
    match split_once(s, ' ') {
        Some(p) => {
            let (verb, rest) = p;
            if verb == "tJoin"@ {
                match room_key_of(rest) {
                    Some(k) => Some(RequestView::TeacherJoin { identifier: k, addr: own, username: user }),
                    None => None,
                }
            } else if verb == "sJoin"@ {
                match room_key_of(rest) {
                    Some(k) => Some(RequestView::StudentJoin { identifier: k, addr: own, username: user }),
                    None => None,
                }
            } else if verb == "tInst"@ {
                match bound {
                    Some(k) => Some(RequestView::ControlInstruction { instruction: rest, identifier: k }),
                    None => None,
                }
            } else if verb == "sUpdate"@ {
                match bound {
                    Some(k) => Some(
                        RequestView::UpdateStudentCode {
                            identifier: k,
                            username: user,
                            code: rest,
                            student_addr: own,
                        },
                    ),
                    None => None,
                }
            } else if verb == "sDoc"@ {
                match bound {
                    Some(k) => Some(
                        RequestView::SetStudentDoc {
                            identifier: k,
                            username: user,
                            code: rest,
                            student_addr: own,
                        },
                    ),
                    None => None,
                }
            } else if verb == "txtm"@ {
                match bound {
                    Some(k) => Some(RequestView::SendTextMessage { identifier: k, username: user, text: rest }),
                    None => None,
                }
            } else {
                None
            }
        },
        None => None,
    }
}

/// Reads `plan:session:host`.
pub fn parse_room_key(s: &str) -> (r: Option<SessionIdentifier>)
    ensures
        match r {
            Some(id) => room_key_of(s@) == Some(id@),
            None => room_key_of(s@) is None,
        },
{
    match split_at_first(s, ':') {
        Some((plan, rest)) => match split_at_first(rest.as_str(), ':') {
            Some((session, host)) => Some(
                SessionIdentifier { plan_name: plan, session_name: session, host },
            ),
            None => None,
        },
        None => None,
    }
}

/// The state of one connection: its user, and the room it is bound to.
pub struct WsClientSession {
    pub connected_session: Option<SessionIdentifier>,
    pub username: String,
}

pub open spec fn bound_key(b: Option<SessionIdentifier>) -> Option<RoomKey> {
    match b {
        Some(id) => Some(id@),
        None => None,
    }
}

impl WsClientSession {
    pub fn new(username: String) -> (r: WsClientSession)
        ensures
            r.connected_session is None,
            r.username@ == username@,
    {
        WsClientSession { connected_session: None, username }
    }

    /// The room this connection is bound to, copied.
    fn bound_room(&self) -> (r: Option<SessionIdentifier>)
        ensures
            bound_key(r) == bound_key(self.connected_session),
    {
        match &self.connected_session {
            Some(id) => Some(id.duplicate()),
            None => None,
        }
    }

    /// What the text frame `text`, received on the connection with handle
    /// `own`, asks of the coordinator.
    pub fn on_text(&self, text: &str, own: u64) -> (r: Option<Request>)
        ensures
            match r {
                Some(q) => request_of(bound_key(self.connected_session), self.username@, own, text@)
                    == Some(q@),
                None => request_of(bound_key(self.connected_session), self.username@, own, text@) is None,
            },
    {
        proof {
            reveal_strlit("tJoin");
            reveal_strlit("sJoin");
            reveal_strlit("tInst");
            reveal_strlit("sUpdate");
            reveal_strlit("sDoc");
            reveal_strlit("txtm");
        }
        let len = text.unicode_len();
        let space = match find_first(text, ' ', LONGEST_VERB + 1) {
            Some(i) => i,
            None => {
                proof {
                    if exists|i: int| crate::text::is_first(text@, ' ', i) {
                        let i = choose|i: int| crate::text::is_first(text@, ' ', i);
                        assert(text@.take(i).len() > LONGEST_VERB);
                    }
                }
                return None;
            },
        };
        let verb = text.substring_char(0, space).to_owned();
        let rest = text.substring_char(space + 1, len).to_owned();
        proof {
            let k = choose|k: int| crate::text::is_first(text@, ' ', k);
            crate::text::lemma_first_unique(text@, ' ', space as int, k);
            assert(verb@ =~= text@.take(space as int));
            assert(rest@ =~= text@.skip(space + 1));
        }
        let user = self.username.clone();
        if verb == String::from_str("tJoin") {
            match parse_room_key(rest.as_str()) {
                Some(id) => Some(
                    Request::TeacherJoin(TeacherJoin { identifier: id, addr: own, username: user }),
                ),
                None => None,
            }
        } else if verb == String::from_str("sJoin") {
            match parse_room_key(rest.as_str()) {
                Some(id) => Some(
                    Request::StudentJoin(StudentJoin { identifier: id, addr: own, username: user }),
                ),
                None => None,
            }
        } else if verb == String::from_str("tInst") {
            match self.bound_room() {
                Some(id) => Some(
                    Request::ControlInstruction(
                        ControlInstruction { instruction: rest, identifier: id },
                    ),
                ),
                None => None,
            }
        } else if verb == String::from_str("sUpdate") {
            match self.bound_room() {
                Some(id) => Some(
                    Request::UpdateStudentCode(
                        UpdateStudentCode {
                            identifier: id,
                            username: user,
                            code: rest,
                            student_addr: own,
                        },
                    ),
                ),
                None => None,
            }
        } else if verb == String::from_str("sDoc") {
            match self.bound_room() {
                Some(id) => Some(
                    Request::SetStudentDoc(
                        SetStudentDoc {
                            identifier: id,
                            username: user,
                            code: rest,
                            student_addr: own,
                        },
                    ),
                ),
                None => None,
            }
        } else if verb == String::from_str("txtm") {
            match self.bound_room() {
                Some(id) => Some(
                    Request::SendTextMessage(
                        SendTextMessage { identifier: id, username: user, text: rest },
                    ),
                ),
                None => None,
            }
        } else {
            None
        }
    }

    /// Takes in a reply of the coordinator: text is handed back to be
    /// written to the socket; a room binds this connection to it.
    pub fn on_response(&mut self, response: WSResponse) -> (r: Option<String>)
        ensures
            match response@ {
                crate::room::ResponseView::Msg(t) => r matches Some(s) && s@ == t
                    && bound_key(final(self).connected_session) == bound_key(
                    old(self).connected_session,
                ),
                crate::room::ResponseView::SetConnectedSession(k) => r is None && bound_key(
                    final(self).connected_session,
                ) == Some(k),
            },
            final(self).username == old(self).username,
    {
        match response {
            WSResponse::Msg(text) => Some(text),
            WSResponse::SetConnectedSession(id) => {
                self.connected_session = Some(id);
                None
            },
        }
    }

    /// What the coordinator must hear when this connection, with handle
    /// `own`, closes: that it left its room, if it was bound to one.
    pub fn on_stopped(&self, own: u64) -> (r: Option<Leave>)
        ensures
            match r {
                Some(l) => bound_key(self.connected_session) == Some(l.identifier@) && l.addr == own,
                None => self.connected_session is None,
            },
    {
        match &self.connected_session {
            Some(id) => Some(Leave { identifier: id.duplicate(), addr: own }),
            None => None,
        }
    }
}

} // verus!
