//! The room coordinator: every room's teacher, students, focused section
//! and spotlighted student, changed one request at a time. Each request
//! returns the messages it sends, in order, for the caller to deliver.

use vstd::prelude::*;
use vstd::string::*;
use crate::bijection::{
    injective, pair_inserted, roster_get_by_left, roster_insert, roster_left_values, roster_new,
    roster_pairs, roster_remove_by_right, roster_right_values, value_removed, Roster,
};
use crate::text::{decimal, parse_unsigned, parse_usize, render_decimal, split_two_words, two_words};

verus! {

/// A room key as values: plan, session and host.
pub type RoomKey = (Seq<char>, Seq<char>, Seq<char>);

/// The room that a plan's session hosted by one user runs in.
#[derive(Debug, PartialEq, Eq, Hash, Clone)]
pub struct SessionIdentifier {
    pub plan_name: String,
    pub session_name: String,
    pub host: String,
}

impl View for SessionIdentifier {
    type V = RoomKey;

    open spec fn view(&self) -> RoomKey {
        (self.plan_name@, self.session_name@, self.host@)
    }
}

impl SessionIdentifier {
    /// Whether both name the same room.
    pub fn same_as(&self, other: &SessionIdentifier) -> (r: bool)
        ensures
            r == (self@ == other@),
    {
        self.plan_name == other.plan_name && self.session_name == other.session_name && self.host
            == other.host
    }

    /// A copy with the same fields.
    pub fn duplicate(&self) -> (r: SessionIdentifier)
        ensures
            r@ == self@,
    {
        SessionIdentifier {
            plan_name: self.plan_name.clone(),
            session_name: self.session_name.clone(),
            host: self.host.clone(),
        }
    }
}

/// What the coordinator tells one connection.
pub enum WSResponse {
    /// Text to write to the socket.
    Msg(String),
    /// The room that later requests from this connection are about.
    SetConnectedSession(SessionIdentifier),
}

pub enum ResponseView {
    Msg(Seq<char>),
    SetConnectedSession(RoomKey),
}

impl View for WSResponse {
    type V = ResponseView;

    open spec fn view(&self) -> ResponseView {
        match self {
            WSResponse::Msg(s) => ResponseView::Msg(s@),
            WSResponse::SetConnectedSession(id) => ResponseView::SetConnectedSession(id@),
        }
    }
}

/// One message for the connection with handle `to`.
pub struct Delivery {
    pub to: u64,
    pub response: WSResponse,
}

impl View for Delivery {
    type V = (u64, ResponseView);

    open spec fn view(&self) -> (u64, ResponseView) {
        (self.to, self.response@)
    }
}

/// The deliveries of `out` as values.
pub open spec fn sent(out: Seq<Delivery>) -> Seq<(u64, ResponseView)> {
    out.map_values(|d: Delivery| d@)
}

/// A room as values.
pub struct RoomView {
    pub teacher: Seq<char>,
    pub teacher_addr: u64,
    pub students: Map<Seq<char>, u64>,
    pub section: nat,
    pub spotlight: Option<Seq<char>>,
}

/// Students paired one to one with handles, and a spotlight on one of them.
pub open spec fn room_wf(r: RoomView) -> bool {
    injective(r.students) && (r.spotlight matches Some(s) ==> r.students.contains_key(s))
}

/// A connected user: a username and the handle of its connection.
pub struct User {
    pub addr: u64,
    pub username: String,
}

/// One live room.
pub struct SessionRoom {
    teacher: User,
    students: Roster,
    current_section: usize,
    current_student_username: Option<String>,
}

impl View for SessionRoom {
    type V = RoomView;

    closed spec fn view(&self) -> RoomView {
        RoomView {
            teacher: self.teacher.username@,
            teacher_addr: self.teacher.addr,
            students: roster_pairs(self.students),
            section: self.current_section as nat,
            spotlight: match self.current_student_username {
                Some(s) => Some(s@),
                None => None,
            },
        }
    }
}

impl SessionRoom {
    fn new(teacher_addr: u64, username: String) -> (r: SessionRoom)
        ensures
            r@ == fresh_room(username@, teacher_addr),
    {
        let r = SessionRoom {
            students: roster_new(),
            teacher: User { addr: teacher_addr, username },
            current_section: 0,
            current_student_username: None,
        };
        assert(r@.students =~= Map::<Seq<char>, u64>::empty());
        r
    }
}

/// The room that a teacher opens: no students, section 0, no spotlight.
pub open spec fn fresh_room(teacher: Seq<char>, addr: u64) -> RoomView {
    RoomView {
        teacher,
        teacher_addr: addr,
        students: Map::empty(),
        section: 0,
        spotlight: None,
    }
}

/// `r` with `name` at `addr` as its teacher.
pub open spec fn with_teacher(r: RoomView, name: Seq<char>, addr: u64) -> RoomView {
    RoomView {
        teacher: name,
        teacher_addr: addr,
        students: r.students,
        section: r.section,
        spotlight: r.spotlight,
    }
}

/// `r` after the student `name` joined at `addr`: any student with that
/// name or handle is replaced, and a spotlight on a replaced student goes
/// out.
pub open spec fn with_student(r: RoomView, name: Seq<char>, addr: u64) -> RoomView {
    let students = pair_inserted(r.students, name, addr);
    RoomView {
        teacher: r.teacher,
        teacher_addr: r.teacher_addr,
        students,
        section: r.section,
        spotlight: if r.spotlight matches Some(s) && students.contains_key(s) {
            r.spotlight
        } else {
            None
        },
    }
}

/// `r` after the connection `addr` left: its student, if any, is removed,
/// and so is the spotlight if it was on that student.
pub open spec fn without_handle(r: RoomView, addr: u64) -> RoomView {
    RoomView {
        teacher: r.teacher,
        teacher_addr: r.teacher_addr,
        students: value_removed(r.students, addr),
        section: r.section,
        spotlight: if r.spotlight matches Some(s) && r.students.contains_key(s) && r.students[s]
            == addr {
            None
        } else {
            r.spotlight
        },
    }
}

/// The rooms after a teacher joined the room keyed `k`: the teacher of an
/// open room is replaced, otherwise the room opens.
pub open spec fn teacher_joined(
    m: Map<RoomKey, RoomView>,
    k: RoomKey,
    name: Seq<char>,
    addr: u64,
) -> Map<RoomKey, RoomView> {
    if m.contains_key(k) {
        m.insert(k, with_teacher(m[k], name, addr))
    } else {
        m.insert(k, fresh_room(name, addr))
    }
}

/// The text that tells a student the focused section.
pub open spec fn sec_text(n: nat) -> Seq<char> {
    "sec "@ + decimal(n)
}

/// The usernames of `names`.
pub open spec fn usernames(names: Seq<String>) -> Seq<Seq<char>> {
    names.map_values(|s: String| s@)
}

/// A room and its key.
pub struct RoomEntry {
    pub identifier: SessionIdentifier,
    pub room: SessionRoom,
}

pub open spec fn keys_unique(s: Seq<RoomEntry>) -> bool {
    forall|i: int, j: int|
        0 <= i < s.len() && 0 <= j < s.len() && i != j ==> s[i].identifier@ != s[j].identifier@
}

pub open spec fn holds_key(s: Seq<RoomEntry>, k: RoomKey, i: int) -> bool {
    0 <= i < s.len() && s[i].identifier@ == k
}

/// The rooms of `s` by key.
pub open spec fn entries_map(s: Seq<RoomEntry>) -> Map<RoomKey, RoomView> {
    Map::new(
        |k: RoomKey| exists|i: int| holds_key(s, k, i),
        |k: RoomKey| s[choose|i: int| holds_key(s, k, i)].room@,
    )
}

proof fn lemma_entry_at(s: Seq<RoomEntry>, i: int)
    requires
        keys_unique(s),
        0 <= i < s.len(),
    ensures
        entries_map(s).contains_key(s[i].identifier@),
        entries_map(s)[s[i].identifier@] == s[i].room@,
{
    assert(holds_key(s, s[i].identifier@, i));
    let j = choose|j: int| holds_key(s, s[i].identifier@, j);
    assert(i == j);
}

proof fn lemma_entry_updated(s: Seq<RoomEntry>, i: int, e: RoomEntry)
    requires
        keys_unique(s),
        0 <= i < s.len(),
        e.identifier@ == s[i].identifier@,
    ensures
        keys_unique(s.update(i, e)),
        entries_map(s.update(i, e)) == entries_map(s).insert(e.identifier@, e.room@),
{
    let t = s.update(i, e);
    assert(keys_unique(t));
    lemma_entry_at(t, i);
    assert forall|k: RoomKey| #[trigger]
        entries_map(t).contains_key(k) == entries_map(s).insert(e.identifier@, e.room@).contains_key(k)
        by {
        if exists|j: int| holds_key(t, k, j) {
            let j = choose|j: int| holds_key(t, k, j);
            if j != i {
                assert(holds_key(s, k, j));
            }
        }
        if exists|j: int| holds_key(s, k, j) {
            let j = choose|j: int| holds_key(s, k, j);
            if j != i {
                assert(holds_key(t, k, j));
            }
        }
    }
    assert forall|k: RoomKey|
        entries_map(t).contains_key(k) && k != e.identifier@ implies #[trigger] entries_map(t)[k]
        == entries_map(s)[k] by {
        let j = choose|j: int| holds_key(t, k, j);
        assert(holds_key(s, k, j));
        lemma_entry_at(s, j);
        lemma_entry_at(t, j);
    }
    assert(entries_map(t) =~= entries_map(s).insert(e.identifier@, e.room@));
}

proof fn lemma_entry_pushed(s: Seq<RoomEntry>, e: RoomEntry)
    requires
        keys_unique(s),
        !entries_map(s).contains_key(e.identifier@),
    ensures
        keys_unique(s.push(e)),
        entries_map(s.push(e)) == entries_map(s).insert(e.identifier@, e.room@),
{
    let t = s.push(e);
    assert forall|j: int| 0 <= j < s.len() implies s[j].identifier@ != e.identifier@ by {
        if s[j].identifier@ == e.identifier@ {
            assert(holds_key(s, e.identifier@, j));
        }
    }
    assert(keys_unique(t));
    lemma_entry_at(t, s.len() as int);
    assert forall|k: RoomKey| #[trigger]
        entries_map(t).contains_key(k) == entries_map(s).insert(e.identifier@, e.room@).contains_key(k)
        by {
        if exists|j: int| holds_key(t, k, j) {
            let j = choose|j: int| holds_key(t, k, j);
            if j != s.len() {
                assert(holds_key(s, k, j));
            }
        }
        if exists|j: int| holds_key(s, k, j) {
            let j = choose|j: int| holds_key(s, k, j);
            assert(holds_key(t, k, j));
        }
    }
    assert forall|k: RoomKey|
        entries_map(t).contains_key(k) && k != e.identifier@ implies #[trigger] entries_map(t)[k]
        == entries_map(s)[k] by {
        let j = choose|j: int| holds_key(t, k, j);
        assert(holds_key(s, k, j));
        lemma_entry_at(s, j);
        lemma_entry_at(t, j);
    }
    assert(entries_map(t) =~= entries_map(s).insert(e.identifier@, e.room@));
}

/// All rooms, by key.
pub struct SessionServer {
    rooms: Vec<RoomEntry>,
}

impl View for SessionServer {
    type V = Map<RoomKey, RoomView>;

    closed spec fn view(&self) -> Map<RoomKey, RoomView> {
        entries_map(self.rooms@)
    }
}

/// Every room of `m` keeps its pairs one to one and its spotlight on a
/// student.
pub open spec fn rooms_wf(m: Map<RoomKey, RoomView>) -> bool {
    forall|k: RoomKey| #[trigger] m.contains_key(k) ==> room_wf(m[k])
}

impl SessionServer {
    /// Keys are not repeated and every room is well formed.
    pub closed spec fn entries_wf(&self) -> bool {
        keys_unique(self.rooms@)
    }

    pub open spec fn wf(&self) -> bool {
        self.entries_wf() && rooms_wf(self@)
    }

    pub fn new() -> (r: SessionServer)
        ensures
            r.wf(),
            r@.dom() == Set::<RoomKey>::empty(),
    {
        let r = SessionServer { rooms: Vec::new() };
        assert(r@.dom() =~= Set::<RoomKey>::empty());
        r
    }

    /// The position of the room keyed `id`.
    fn find_room(&self, id: &SessionIdentifier) -> (r: Option<usize>)
        requires
            self.entries_wf(),
        ensures
            match r {
                Some(i) => i < self.rooms@.len() && self.rooms@[i as int].identifier@ == id@
                    && self@.contains_key(id@) && self@[id@] == self.rooms@[i as int].room@,
                None => !self@.contains_key(id@),
            },
    {
        let mut i: usize = 0;
        while i < self.rooms.len()
            invariant
                i <= self.rooms@.len(),
                keys_unique(self.rooms@),
                forall|j: int| 0 <= j < i ==> self.rooms@[j].identifier@ != id@,
            decreases self.rooms@.len() - i,
        {
            if self.rooms[i].identifier.same_as(id) {
                proof {
                    lemma_entry_at(self.rooms@, i as int);
                }
                return Some(i);
            }
            i += 1;
        }
        assert(!exists|j: int| holds_key(self.rooms@, id@, j));
        None
    }
}

/// A teacher's request to open, or take over, a room.
pub struct TeacherJoin {
    pub identifier: SessionIdentifier,
    pub addr: u64,
    pub username: String,
}

/// A student's request to join a room.
pub struct StudentJoin {
    pub identifier: SessionIdentifier,
    pub addr: u64,
    pub username: String,
}

/// A request for the students of a room, answered to its teacher only.
pub struct GetStudentData {
    pub identifier: SessionIdentifier,
    pub username: String,
}

/// Notice that the connection `addr` has closed.
pub struct Leave {
    pub identifier: SessionIdentifier,
    pub addr: u64,
}

proof fn lemma_rooms_wf_insert(m: Map<RoomKey, RoomView>, k: RoomKey, r: RoomView)
    requires
        rooms_wf(m),
        room_wf(r),
    ensures
        rooms_wf(m.insert(k, r)),
{
}

impl SessionServer {
    /// Removes the entry at `i`, to be put back with `restore`.
    fn take_entry(&mut self, i: usize) -> (e: RoomEntry)
        requires
            i < old(self).rooms@.len(),
        ensures
            e == old(self).rooms@[i as int],
            final(self).rooms@ == old(self).rooms@.remove(i as int),
    {
        self.rooms.remove(i)
    }

    /// Puts back at `i` an entry taken with `take_entry`, keyed as before.
    fn restore(&mut self, i: usize, e: RoomEntry, Ghost(before): Ghost<Seq<RoomEntry>>)
        requires
            keys_unique(before),
            i < before.len(),
            old(self).rooms@ == before.remove(i as int),
            e.identifier@ == before[i as int].identifier@,
        ensures
            keys_unique(final(self).rooms@),
            final(self)@ == entries_map(before).insert(e.identifier@, e.room@),
    {
        self.rooms.insert(i, e);
        proof {
            assert(self.rooms@ =~= before.update(i as int, e));
            lemma_entry_updated(before, i as int, e);
        }
    }

    /// Opens the room for its teacher, or makes the sender its teacher if it
    /// is open, and binds the sender to it.
    pub fn teacher_join(&mut self, msg: TeacherJoin) -> (out: Vec<Delivery>)
        requires
            old(self).wf(),
        ensures
            final(self).wf(),
            final(self)@ == teacher_joined(old(self)@, msg.identifier@, msg.username@, msg.addr),
            sent(out@) == seq![
                (msg.addr, ResponseView::SetConnectedSession(msg.identifier@)),
            ],
    {
        let ghost before = self.rooms@;
        let reply = Delivery {
            to: msg.addr,
            response: WSResponse::SetConnectedSession(msg.identifier.duplicate()),
        };
        match self.find_room(&msg.identifier) {
            Some(i) => {
                let mut e = self.take_entry(i);
                e.room.teacher = User { addr: msg.addr, username: msg.username };
                proof {
                    lemma_entry_at(before, i as int);
                }
                self.restore(i, e, Ghost(before));
            },
            None => {
                let e = RoomEntry {
                    identifier: msg.identifier,
                    room: SessionRoom::new(msg.addr, msg.username),
                };
                proof {
                    lemma_entry_pushed(before, e);
                }
                self.rooms.push(e);
            },
        }
        proof {
            lemma_rooms_wf_insert(
                entries_map(before),
                msg.identifier@,
                self@[msg.identifier@],
            );
            assert(self@ =~= entries_map(before).insert(msg.identifier@, self@[msg.identifier@]));
        }
        let mut out: Vec<Delivery> = Vec::new();
        out.push(reply);
        assert(sent(out@) =~= seq![(msg.addr, ResponseView::SetConnectedSession(msg.identifier@))]);
        out
    }
}

impl SessionServer {
    /// Adds the student to an open room, replacing any student with the same
    /// name or handle; binds the student to the room and tells it the
    /// focused section. Does nothing if the room is not open.
    pub fn student_join(&mut self, msg: StudentJoin) -> (out: Vec<Delivery>)
        requires
            old(self).wf(),
        ensures
            final(self).wf(),
            old(self)@.contains_key(msg.identifier@) ==> final(self)@ == old(self)@.insert(
                msg.identifier@,
                with_student(old(self)@[msg.identifier@], msg.username@, msg.addr),
            ) && sent(out@) == seq![
                (msg.addr, ResponseView::SetConnectedSession(msg.identifier@)),
                (msg.addr, ResponseView::Msg(sec_text(old(self)@[msg.identifier@].section))),
            ],
            !old(self)@.contains_key(msg.identifier@) ==> final(self)@ == old(self)@ && out@.len()
                == 0,
    {
        let ghost before = self.rooms@;
        let mut out: Vec<Delivery> = Vec::new();
        match self.find_room(&msg.identifier) {
            Some(i) => {
                let mut e = self.take_entry(i);
                let ghost r0 = e.room@;
                proof {
                    lemma_entry_at(before, i as int);
                }
                out.push(
                    Delivery {
                        to: msg.addr,
                        response: WSResponse::SetConnectedSession(msg.identifier.duplicate()),
                    },
                );
                let mut sec = String::from_str("sec ");
                sec.append(render_decimal(e.room.current_section).as_str());
                out.push(Delivery { to: msg.addr, response: WSResponse::Msg(sec) });
                proof {
                    crate::bijection::lemma_pair_inserted_injective(
                        r0.students,
                        msg.username@,
                        msg.addr,
                    );
                }
                roster_insert(&mut e.room.students, msg.username, msg.addr);
                let keep = match &e.room.current_student_username {
                    Some(s) => roster_get_by_left(&e.room.students, s.as_str()).is_some(),
                    None => true,
                };
                if !keep {
                    e.room.current_student_username = None;
                }
                assert(e.room@ == with_student(r0, msg.username@, msg.addr));
                self.restore(i, e, Ghost(before));
                proof {
                    lemma_rooms_wf_insert(entries_map(before), msg.identifier@, e.room@);
                }
                assert(sent(out@) =~= seq![
                    (msg.addr, ResponseView::SetConnectedSession(msg.identifier@)),
                    (msg.addr, ResponseView::Msg(sec_text(r0.section))),
                ]);
            },
            None => {},
        }
        out
    }

    /// Removes the student at the closed connection `addr`, and the
    /// spotlight if it was on that student. Does nothing for a handle that
    /// no student of the room has, or a room that is not open.
    pub fn leave(&mut self, msg: Leave)
        requires
            old(self).wf(),
        ensures
            final(self).wf(),
            old(self)@.contains_key(msg.identifier@) ==> final(self)@ == old(self)@.insert(
                msg.identifier@,
                without_handle(old(self)@[msg.identifier@], msg.addr),
            ),
            !old(self)@.contains_key(msg.identifier@) ==> final(self)@ == old(self)@,
    {
        let ghost before = self.rooms@;
        match self.find_room(&msg.identifier) {
            Some(i) => {
                let mut e = self.take_entry(i);
                let ghost r0 = e.room@;
                proof {
                    lemma_entry_at(before, i as int);
                    crate::bijection::lemma_value_removed_injective(r0.students, msg.addr);
                }
                let removed = roster_remove_by_right(&mut e.room.students, msg.addr);
                let clear = match (&removed, &e.room.current_student_username) {
                    (Some(u), Some(s)) => *u == *s,
                    _ => false,
                };
                if clear {
                    e.room.current_student_username = None;
                }
                proof {
                    if let Some(sp) = r0.spotlight {
                        if let Some(u) = removed {
                            if u@ != sp {
                                assert(r0.students[u@] == msg.addr);
                                assert(r0.students[sp] != msg.addr);
                            }
                        }
                    }
                }
                assert(e.room@ == without_handle(r0, msg.addr));
                self.restore(i, e, Ghost(before));
                proof {
                    lemma_rooms_wf_insert(entries_map(before), msg.identifier@, e.room@);
                }
            },
            None => {},
        }
    }

    /// The usernames of the room's students, in no stated order, if the
    /// caller is the room's teacher; otherwise none.
    pub fn get_student_data(&self, msg: GetStudentData) -> (r: Vec<String>)
        requires
            self.wf(),
        ensures
            self@.contains_key(msg.identifier@) && self@[msg.identifier@].teacher
                == msg.username@ ==> usernames(r@).to_set() == self@[msg.identifier@].students.dom()
                && usernames(r@).no_duplicates(),
            !(self@.contains_key(msg.identifier@) && self@[msg.identifier@].teacher
                == msg.username@) ==> r@.len() == 0,
    {
        match self.find_room(&msg.identifier) {
            Some(i) => {
                let room = &self.rooms[i].room;
                if room.teacher.username == msg.username {
                    roster_left_values(&room.students)
                } else {
                    Vec::new()
                }
            },
            None => Vec::new(),
        }
    }
}

/// A teacher's instruction to a room: `setSection <n>` or
/// `subscribe <username>`.
pub struct ControlInstruction {
    pub instruction: String,
    pub identifier: SessionIdentifier,
}

/// A student's live code, for the teacher if the student is spotlighted.
pub struct UpdateStudentCode {
    pub identifier: SessionIdentifier,
    pub username: String,
    pub code: String,
    pub student_addr: u64,
}

/// A student's starting code, for the teacher if the student is
/// spotlighted.
pub struct SetStudentDoc {
    pub identifier: SessionIdentifier,
    pub username: String,
    pub code: String,
    pub student_addr: u64,
}

/// A chat message for everyone in a room.
pub struct SendTextMessage {
    pub identifier: SessionIdentifier,
    pub username: String,
    pub text: String,
}

/// The section that `s` asks to focus, for `setSection <n>`.
pub open spec fn section_request(s: Seq<char>) -> Option<nat> {
    match two_words(s, ' ') {
        Some(p) => if p.0 == "setSection"@ {
            match parse_unsigned(p.1) {
                Some(n) => if n <= usize::MAX {
                    Some(n)
                } else {
                    None
                },
                None => None,
            }
        } else {
            None
        },
        None => None,
    }
}

/// The student that `s` asks to spotlight, for `subscribe <username>`.
pub open spec fn subscribe_request(s: Seq<char>) -> Option<Seq<char>> {
    match two_words(s, ' ') {
        Some(p) => if p.0 == "subscribe"@ {
            Some(p.1)
        } else {
            None
        },
        None => None,
    }
}

/// `out` sends `m` once to each handle of `to`, in no stated order.
pub open spec fn broadcast(out: Seq<(u64, ResponseView)>, to: Set<u64>, m: ResponseView) -> bool {
    &&& forall|i: int| 0 <= i < out.len() ==> #[trigger] out[i].1 == m
    &&& out.map_values(|d: (u64, ResponseView)| d.0).to_set() == to
    &&& out.map_values(|d: (u64, ResponseView)| d.0).no_duplicates()
}

/// `r` focused on section `n`.
pub open spec fn with_section(r: RoomView, n: nat) -> RoomView {
    RoomView {
        teacher: r.teacher,
        teacher_addr: r.teacher_addr,
        students: r.students,
        section: n,
        spotlight: r.spotlight,
    }
}

/// `r` with the spotlight on `name`.
pub open spec fn with_spotlight(r: RoomView, name: Seq<char>) -> RoomView {
    RoomView {
        teacher: r.teacher,
        teacher_addr: r.teacher_addr,
        students: r.students,
        section: r.section,
        spotlight: Some(name),
    }
}

/// What moving the spotlight of `r` to `name` sends: `unsub` to the
/// student it leaves, if another, then `subscribe` to `name`.
pub open spec fn subscribe_sent(r: RoomView, name: Seq<char>) -> Seq<(u64, ResponseView)> {
    let first: Seq<(u64, ResponseView)> = match r.spotlight {
        Some(o) => if o != name && r.students.contains_key(o) {
            seq![(r.students[o], ResponseView::Msg("unsub"@))]
        } else {
            seq![]
        },
        None => seq![],
    };
    first.push((r.students[name], ResponseView::Msg("subscribe"@)))
}

/// What a student's code sends: `prefix` and the code to the teacher if
/// the student is spotlighted, else `unsub` back to the student.
pub open spec fn code_relay(
    m: Map<RoomKey, RoomView>,
    k: RoomKey,
    name: Seq<char>,
    prefix: Seq<char>,
    code: Seq<char>,
    requester: u64,
) -> Seq<(u64, ResponseView)> {
    if m.contains_key(k) && m[k].spotlight == Some(name) {
        seq![(m[k].teacher_addr, ResponseView::Msg(prefix + code))]
    } else {
        seq![(requester, ResponseView::Msg("unsub"@))]
    }
}

/// The text that serde_json writes for the JSON string holding `s`.
pub uninterp spec fn json_string(s: Seq<char>) -> Seq<char>;

/// The chat frame for `text` from `user`, with message id `id`.
pub open spec fn chat_text(user: Seq<char>, id: Seq<char>, text: Seq<char>) -> Seq<char> {
    "txtm {\"username\":"@ + json_string(user) + ",\"uuid\":"@ + json_string(id) + ",\"text\":"@
        + json_string(text) + "}"@
}

/// `out` is what a chat message sends in the room keyed `k`: the frame to
/// every student, then to the teacher; nothing if the room is not open.
pub open spec fn chat_sent(
    m: Map<RoomKey, RoomView>,
    k: RoomKey,
    user: Seq<char>,
    id: Seq<char>,
    text: Seq<char>,
    out: Seq<(u64, ResponseView)>,
) -> bool {
    if m.contains_key(k) {
        &&& out.len() >= 1
        &&& broadcast(
            out.drop_last(),
            m[k].students.values(),
            ResponseView::Msg(chat_text(user, id, text)),
        )
        &&& out.last() == (m[k].teacher_addr, ResponseView::Msg(chat_text(user, id, text)))
    } else {
        out.len() == 0
    }
}

/// Relies on `serde_json::Value`'s `Display` for a `Value::String`: the
/// quoted, escaped JSON form of `s`.
#[verifier::external_body]
fn json_quote(s: &str) -> (r: String)
    ensures
        r@ == json_string(s@),
{
    serde_json::Value::String(s.to_owned()).to_string()
}

/// Relies on `uuid::Uuid::new_v4`: a fresh random id, in its hyphenated
/// text form.
#[verifier::external_body]
fn fresh_uuid() -> (r: String) {
    uuid::Uuid::new_v4().to_string()
}

/// One delivery of `text` to each handle of `handles`, in that order.
fn send_to_all(handles: &Vec<u64>, text: &String) -> (out: Vec<Delivery>)
    ensures
        sent(out@) == handles@.map_values(|h: u64| (h, ResponseView::Msg(text@))),
{
    let mut out: Vec<Delivery> = Vec::new();
    let mut i: usize = 0;
    while i < handles.len()
        invariant
            i <= handles@.len(),
            out@.len() == i,
            forall|j: int| 0 <= j < i ==> #[trigger] out@[j]@ == (handles@[j], ResponseView::Msg(text@)),
        decreases handles@.len() - i,
    {
        out.push(Delivery { to: handles[i], response: WSResponse::Msg(text.clone()) });
        i += 1;
    }
    assert(sent(out@) =~= handles@.map_values(|h: u64| (h, ResponseView::Msg(text@))));
    out
}

proof fn lemma_send_to_all_broadcast(handles: Seq<u64>, out: Seq<(u64, ResponseView)>, m: ResponseView)
    requires
        out == handles.map_values(|h: u64| (h, m)),
    ensures
        out.map_values(|d: (u64, ResponseView)| d.0) == handles,
        forall|i: int| 0 <= i < out.len() ==> #[trigger] out[i].1 == m,
{
    assert(out.map_values(|d: (u64, ResponseView)| d.0) =~= handles);
}

impl SessionServer {
    /// Focuses the room on section `n` and tells every student.
    fn set_section(&mut self, id: &SessionIdentifier, n: usize) -> (out: Vec<Delivery>)
        requires
            old(self).wf(),
        ensures
            final(self).wf(),
            old(self)@.contains_key(id@) ==> final(self)@ == old(self)@.insert(
                id@,
                with_section(old(self)@[id@], n as nat),
            ) && broadcast(
                sent(out@),
                old(self)@[id@].students.values(),
                ResponseView::Msg(sec_text(n as nat)),
            ),
            !old(self)@.contains_key(id@) ==> final(self)@ == old(self)@ && out@.len() == 0,
    {
        let ghost before = self.rooms@;
        match self.find_room(id) {
            Some(i) => {
                let mut e = self.take_entry(i);
                let ghost r0 = e.room@;
                proof {
                    lemma_entry_at(before, i as int);
                }
                e.room.current_section = n;
                let mut sec = String::from_str("sec ");
                sec.append(render_decimal(n).as_str());
                let handles = roster_right_values(&e.room.students);
                let out = send_to_all(&handles, &sec);
                proof {
                    lemma_send_to_all_broadcast(handles@, sent(out@), ResponseView::Msg(sec@));
                }
                assert(e.room@ == with_section(r0, n as nat));
                self.restore(i, e, Ghost(before));
                proof {
                    lemma_rooms_wf_insert(entries_map(before), id@, e.room@);
                }
                out
            },
            None => Vec::new(),
        }
    }

    /// Spotlights the student `name` if the room has one by that name.
    fn subscribe(&mut self, id: &SessionIdentifier, name: String) -> (out: Vec<Delivery>)
        requires
            old(self).wf(),
        ensures
            final(self).wf(),
            old(self)@.contains_key(id@) && old(self)@[id@].students.contains_key(name@)
                ==> final(self)@ == old(self)@.insert(
                id@,
                with_spotlight(old(self)@[id@], name@),
            ) && sent(out@) == subscribe_sent(old(self)@[id@], name@),
            !(old(self)@.contains_key(id@) && old(self)@[id@].students.contains_key(name@))
                ==> final(self)@ == old(self)@ && out@.len() == 0,
    {
        let ghost before = self.rooms@;
        match self.find_room(id) {
            Some(i) => {
                match roster_get_by_left(&self.rooms[i].room.students, name.as_str()) {
                    Some(addr) => {
                        let mut e = self.take_entry(i);
                        let ghost r0 = e.room@;
                        proof {
                            lemma_entry_at(before, i as int);
                        }
                        let mut out: Vec<Delivery> = Vec::new();
                        match &e.room.current_student_username {
                            Some(old_name) => {
                                if *old_name != name {
                                    match roster_get_by_left(
                                        &e.room.students,
                                        old_name.as_str(),
                                    ) {
                                        Some(old_addr) => {
                                            out.push(
                                                Delivery {
                                                    to: old_addr,
                                                    response: WSResponse::Msg(
                                                        String::from_str("unsub"),
                                                    ),
                                                },
                                            );
                                        },
                                        None => {},
                                    }
                                }
                            },
                            None => {},
                        }
                        out.push(
                            Delivery {
                                to: addr,
                                response: WSResponse::Msg(String::from_str("subscribe")),
                            },
                        );
                        assert(sent(out@) =~= subscribe_sent(r0, name@));
                        e.room.current_student_username = Some(name);
                        assert(e.room@ == with_spotlight(r0, name@));
                        self.restore(i, e, Ghost(before));
                        proof {
                            lemma_rooms_wf_insert(entries_map(before), id@, e.room@);
                        }
                        out
                    },
                    None => Vec::new(),
                }
            },
            None => Vec::new(),
        }
    }

    /// Carries out a teacher's instruction: `setSection <n>` focuses the
    /// room on section `n` and tells every student; `subscribe <username>`
    /// moves the spotlight to that student. Anything else is ignored.
    pub fn control_instruction(&mut self, msg: ControlInstruction) -> (out: Vec<Delivery>)
        requires
            old(self).wf(),
        ensures
            final(self).wf(),
            ({
                let k = msg.identifier@;
                let m = old(self)@;
                match section_request(msg.instruction@) {
                    Some(n) => if m.contains_key(k) {
                        final(self)@ == m.insert(k, with_section(m[k], n)) && broadcast(
                            sent(out@),
                            m[k].students.values(),
                            ResponseView::Msg(sec_text(n)),
                        )
                    } else {
                        final(self)@ == m && out@.len() == 0
                    },
                    None => match subscribe_request(msg.instruction@) {
                        Some(name) => if m.contains_key(k) && m[k].students.contains_key(name) {
                            final(self)@ == m.insert(k, with_spotlight(m[k], name)) && sent(out@)
                                == subscribe_sent(m[k], name)
                        } else {
                            final(self)@ == m && out@.len() == 0
                        },
                        None => final(self)@ == m && out@.len() == 0,
                    },
                }
            }),
    {
        proof {
            reveal_strlit("setSection");
            reveal_strlit("subscribe");
            assert("setSection"@.len() != "subscribe"@.len());
        }
        let ghost ins = msg.instruction@;
        match split_two_words(msg.instruction.as_str(), ' ') {
            Some((verb, arg)) => {
                assert(two_words(ins, ' ') == Some((verb@, arg@)));
                if verb == String::from_str("setSection") {
                    assert(subscribe_request(ins) is None);
                    match parse_usize(arg.as_str()) {
                        Some(n) => {
                            assert(section_request(ins) == Some(n as nat));
                            self.set_section(&msg.identifier, n)
                        },
                        None => {
                            assert(section_request(ins) is None);
                            Vec::new()
                        },
                    }
                } else if verb == String::from_str("subscribe") {
                    assert(section_request(ins) is None);
                    assert(subscribe_request(ins) == Some(arg@));
                    self.subscribe(&msg.identifier, arg)
                } else {
                    assert(section_request(ins) is None);
                    assert(subscribe_request(ins) is None);
                    Vec::new()
                }
            },
            None => Vec::new(),
        }
    }

    /// Relays `prefix` and the code to the teacher if the sender is the
    /// spotlighted student; otherwise sends `unsub` back to the sender.
    fn relay_code(
        &self,
        id: &SessionIdentifier,
        username: &String,
        prefix: &str,
        code: &String,
        requester: u64,
    ) -> (out: Vec<Delivery>)
        requires
            self.wf(),
        ensures
            sent(out@) == code_relay(self@, id@, username@, prefix@, code@, requester),
    {
        proof {
            reveal_strlit("unsub");
        }
        let mut out: Vec<Delivery> = Vec::new();
        match self.find_room(id) {
            Some(i) => {
                let room = &self.rooms[i].room;
                match &room.current_student_username {
                    Some(s) => {
                        if *s == *username {
                            let mut text = String::from_str(prefix);
                            text.append(code.as_str());
                            out.push(
                                Delivery { to: room.teacher.addr, response: WSResponse::Msg(text) },
                            );
                            assert(sent(out@) =~= code_relay(
                                self@,
                                id@,
                                username@,
                                prefix@,
                                code@,
                                requester,
                            ));
                            return out;
                        }
                    },
                    None => {},
                }
            },
            None => {},
        }
        out.push(Delivery { to: requester, response: WSResponse::Msg(String::from_str("unsub")) });
        assert(sent(out@) =~= code_relay(self@, id@, username@, prefix@, code@, requester));
        out
    }

    /// Sends a student's live code to the teacher if the student is
    /// spotlighted; otherwise tells the student `unsub`.
    pub fn update_student_code(&self, msg: UpdateStudentCode) -> (out: Vec<Delivery>)
        requires
            self.wf(),
        ensures
            sent(out@) == code_relay(
                self@,
                msg.identifier@,
                msg.username@,
                "sUpdate "@,
                msg.code@,
                msg.student_addr,
            ),
    {
        self.relay_code(&msg.identifier, &msg.username, "sUpdate ", &msg.code, msg.student_addr)
    }

    /// Sends a student's starting code to the teacher if the student is
    /// spotlighted; otherwise tells the student `unsub`.
    pub fn set_student_doc(&self, msg: SetStudentDoc) -> (out: Vec<Delivery>)
        requires
            self.wf(),
        ensures
            sent(out@) == code_relay(
                self@,
                msg.identifier@,
                msg.username@,
                "sDoc "@,
                msg.code@,
                msg.student_addr,
            ),
    {
        self.relay_code(&msg.identifier, &msg.username, "sDoc ", &msg.code, msg.student_addr)
    }

    /// Sends a chat message, tagged with the message id `uuid`, to every
    /// student of the room and then to its teacher.
    pub fn send_text_message_with_id(&self, msg: SendTextMessage, uuid: &str) -> (out: Vec<
        Delivery,
    >)
        requires
            self.wf(),
        ensures
            chat_sent(self@, msg.identifier@, msg.username@, uuid@, msg.text@, sent(out@)),
    {
        match self.find_room(&msg.identifier) {
            Some(i) => {
                let room = &self.rooms[i].room;
                let mut frame = String::from_str("txtm {\"username\":");
                frame.append(json_quote(msg.username.as_str()).as_str());
                frame.append(",\"uuid\":");
                frame.append(json_quote(uuid).as_str());
                frame.append(",\"text\":");
                frame.append(json_quote(msg.text.as_str()).as_str());
                frame.append("}");
                assert(frame@ == chat_text(msg.username@, uuid@, msg.text@));
                let handles = roster_right_values(&room.students);
                let mut out = send_to_all(&handles, &frame);
                let ghost to_students = sent(out@);
                proof {
                    lemma_send_to_all_broadcast(handles@, to_students, ResponseView::Msg(frame@));
                }
                out.push(Delivery { to: room.teacher.addr, response: WSResponse::Msg(frame) });
                assert(sent(out@).drop_last() =~= to_students);
                out
            },
            None => Vec::new(),
        }
    }

    /// Sends a chat message, tagged with a fresh random id, to every student
    /// of the room and then to its teacher.
    pub fn send_text_message(&self, msg: SendTextMessage) -> (out: Vec<Delivery>)
        requires
            self.wf(),
        ensures
            exists|id: Seq<char>| #[trigger]
                chat_sent(self@, msg.identifier@, msg.username@, id, msg.text@, sent(out@)),
    {
        let id = fresh_uuid();
        let ghost (k, u, t) = (msg.identifier@, msg.username@, msg.text@);
        let out = self.send_text_message_with_id(msg, id.as_str());
        assert(chat_sent(self@, k, u, id@, t, sent(out@)));
        out
    }
}

/// Once the spotlighted student's connection leaves, the room has no
/// spotlight, and any student's code is answered with `unsub`.
pub proof fn lemma_leave_clears_spotlight(
    m: Map<RoomKey, RoomView>,
    k: RoomKey,
    addr: u64,
    name: Seq<char>,
    prefix: Seq<char>,
    code: Seq<char>,
    requester: u64,
)
    requires
        rooms_wf(m),
        m.contains_key(k),
        m[k].spotlight matches Some(s) && m[k].students[s] == addr,
    ensures
        m.insert(k, without_handle(m[k], addr))[k].spotlight is None,
        code_relay(m.insert(k, without_handle(m[k], addr)), k, name, prefix, code, requester)
            == seq![(requester, ResponseView::Msg("unsub"@))],
{
}

/// A teacher who opens a room and a student who then joins it: the room
/// lists that one student, for that teacher.
pub proof fn lemma_join_then_list(
    m: Map<RoomKey, RoomView>,
    k: RoomKey,
    teacher: Seq<char>,
    teacher_addr: u64,
    student: Seq<char>,
    student_addr: u64,
)
    requires
        !m.contains_key(k),
    ensures
        ({
            let r = with_student(teacher_joined(m, k, teacher, teacher_addr)[k], student, student_addr);
            r.teacher == teacher && r.students.dom() == set![student]
        }),
{
    let r = with_student(teacher_joined(m, k, teacher, teacher_addr)[k], student, student_addr);
    assert(r.students.dom() =~= set![student]);
}

} // verus!
