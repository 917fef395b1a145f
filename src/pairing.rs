//! The teacher-pairing registry: each teacher gets a six-digit code, kept
//! for the life of the process, that students exchange for the teacher's
//! username.

use vstd::prelude::*;
use rand::Rng;
use crate::bijection::{
    code_pairs, codes_get_by_left, codes_get_by_right, codes_insert, codes_new, injective,
    pair_inserted, CodeMap,
};
use crate::text::{decimal, pad_with_zeros, render_decimal, zero_padded};

verus! {

/// The smallest code number drawn.
pub const CODE_LOW: u32 = 1;

/// One past the largest code number drawn.
pub const CODE_HIGH: u32 = 999999;

/// The width that codes are padded to with zeros.
pub const CODE_WIDTH: usize = 6;

/// The text of the code numbered `n`.
pub open spec fn code_text(n: nat) -> Seq<char> {
    zero_padded(decimal(n), CODE_WIDTH as nat)
}

/// The registry and the code handed out after a teacher asks for one, with
/// `drawn` as the number that a new code would take.
pub open spec fn code_step(m: Map<Seq<char>, Seq<char>>, user: Seq<char>, drawn: nat) -> (
    Map<Seq<char>, Seq<char>>,
    Seq<char>,
) {
    if m.contains_key(user) {
        (m, m[user])
    } else {
        (pair_inserted(m, user, code_text(drawn)), code_text(drawn))
    }
}

/// The teacher that holds `code`, if any.
pub open spec fn resolve(m: Map<Seq<char>, Seq<char>>, code: Seq<char>) -> Option<Seq<char>> {
    if exists|u: Seq<char>| m.contains_key(u) && m[u] == code {
        Some(choose|u: Seq<char>| m.contains_key(u) && m[u] == code)
    } else {
        None
    }
}

/// A request for the code of `username`, made if there is none yet.
pub struct GetCode {
    pub username: String,
}

/// A request for the teacher that holds `code`.
pub struct GetTeacher {
    pub code: String,
}

/// Teachers paired one to one with their codes.
pub struct TeacherCodeManager {
    map: CodeMap,
}

impl View for TeacherCodeManager {
    type V = Map<Seq<char>, Seq<char>>;

    closed spec fn view(&self) -> Map<Seq<char>, Seq<char>> {
        code_pairs(self.map)
    }
}

/// Relies on `rand::Rng::gen_range` over `rand::thread_rng()`: a number from
/// `low` up to, not including, `high`.
#[verifier::external_body]
fn random_in_range(low: u32, high: u32) -> (r: u32)
    requires
        low < high,
    ensures
        low <= r < high,
{
    rand::thread_rng().gen_range(low..high)
}

/// Writes the code numbered `n`: its decimal digits, zero-padded on the left
/// to six characters.
pub fn render_code(n: u32) -> (r: String)
    ensures
        r@ == code_text(n as nat),
{
    let digits = render_decimal(n as usize);
    pad_with_zeros(digits.as_str(), CODE_WIDTH)
}

impl TeacherCodeManager {
    /// The registry is one to one.
    pub open spec fn wf(&self) -> bool {
        injective(self@)
    }

    pub fn new() -> (r: TeacherCodeManager)
        ensures
            r@.dom() == Set::<Seq<char>>::empty(),
            r.wf(),
    {
        TeacherCodeManager { map: codes_new() }
    }

    /// The code of the teacher named in `msg`; one numbered `drawn` is made
    /// and stored if the teacher has none. A code that another teacher
    /// already holds passes to this one.
    pub fn get_code_with(&mut self, msg: GetCode, drawn: u32) -> (r: String)
        requires
            old(self).wf(),
        ensures
            final(self).wf(),
            (final(self)@, r@) == code_step(old(self)@, msg.username@, drawn as nat),
    {
        match codes_get_by_left(&self.map, msg.username.as_str()) {
            Some(code) => code,
            None => {
                let code = render_code(drawn);
                let kept = code.clone();
                proof {
                    crate::bijection::lemma_pair_inserted_injective(
                        self@,
                        msg.username@,
                        code@,
                    );
                }
                codes_insert(&mut self.map, msg.username, code);
                kept
            },
        }
    }

    /// The code of the teacher named in `msg`; if the teacher has none, one
    /// is drawn at random from 1 to 999998 and stored.
    pub fn get_code(&mut self, msg: GetCode) -> (r: String)
        requires
            old(self).wf(),
        ensures
            final(self).wf(),
            exists|d: nat|
                CODE_LOW <= d < CODE_HIGH && (final(self)@, r@) == #[trigger] code_step(
                    old(self)@,
                    msg.username@,
                    d,
                ),
    {
        let drawn = random_in_range(CODE_LOW, CODE_HIGH);
        let ghost user = msg.username@;
        let r = self.get_code_with(msg, drawn);
        assert(code_step(old(self)@, user, drawn as nat) == (self@, r@));
        r
    }

    /// The teacher that holds the code in `msg`, if it was issued.
    pub fn get_teacher(&self, msg: GetTeacher) -> (r: Option<String>)
        requires
            self.wf(),
        ensures
            match r {
                Some(u) => resolve(self@, msg.code@) == Some(u@),
                None => resolve(self@, msg.code@) is None,
            },
    {
        let r = codes_get_by_right(&self.map, msg.code.as_str());
        match r {
            Some(u) => {
                proof {
                    let c = choose|c: Seq<char>| self@.contains_key(c) && self@[c] == msg.code@;
                    assert(self@[c] == self@[u@]);
                }
                Some(u)
            },
            None => None,
        }
    }
}

/// Asking twice for a teacher's code gives the same code both times, and
/// that code resolves to the teacher.
pub proof fn lemma_code_stable(m: Map<Seq<char>, Seq<char>>, user: Seq<char>, d1: nat, d2: nat)
    requires
        injective(m),
    ensures
        code_step(code_step(m, user, d1).0, user, d2) == code_step(m, user, d1),
        resolve(code_step(m, user, d1).0, code_step(m, user, d1).1) == Some(user),
{
    let (m1, c1) = code_step(m, user, d1);
    crate::bijection::lemma_pair_inserted_injective(m, user, code_text(d1));
    assert(m1.contains_key(user) && m1[user] == c1);
    let u = choose|u: Seq<char>| m1.contains_key(u) && m1[u] == c1;
    assert(m1[u] == m1[user]);
}

/// A code that no teacher holds resolves to nothing.
pub proof fn lemma_unissued_code(m: Map<Seq<char>, Seq<char>>, code: Seq<char>)
    requires
        forall|u: Seq<char>| #[trigger] m.contains_key(u) ==> m[u] != code,
    ensures
        resolve(m, code) is None,
{
}

} // verus!
