//! The one-to-one maps that rooms and the pairing registry keep, held in
//! `bimap::BiMap` and described here by what they contain.

use vstd::prelude::*;
use bimap::BiMap;

verus! {

/// Usernames paired one to one with connection handles.
pub type Roster = BiMap<String, u64>;

/// Usernames paired one to one with codes.
pub type CodeMap = BiMap<String, String>;

#[verifier::external_type_specification]
#[verifier::external_body]
#[verifier::reject_recursive_types(L)]
#[verifier::reject_recursive_types(R)]
#[verifier::reject_recursive_types(LS)]
#[verifier::reject_recursive_types(RS)]
pub struct ExBiHashMap<L, R, LS, RS>(bimap::BiHashMap<L, R, LS, RS>);

/// No two keys of `m` share a value.
pub open spec fn injective<V>(m: Map<Seq<char>, V>) -> bool {
    forall|a: Seq<char>, b: Seq<char>|
        #![trigger m[a], m[b]]
        m.contains_key(a) && m.contains_key(b) && m[a] == m[b] ==> a == b
}

/// `m` after the pair `(l, r)` went in: any pair with key `l` or value `r`
/// is gone first.
pub open spec fn pair_inserted<V>(m: Map<Seq<char>, V>, l: Seq<char>, r: V) -> Map<
    Seq<char>,
    V,
> {
    Map::new(
        |k: Seq<char>| k == l || (m.contains_key(k) && m[k] != r),
        |k: Seq<char>|
            if k == l {
                r
            } else {
                m[k]
            },
    )
}

/// `m` without the pairs whose value is `r`.
pub open spec fn value_removed<V>(m: Map<Seq<char>, V>, r: V) -> Map<Seq<char>, V> {
    Map::new(|k: Seq<char>| m.contains_key(k) && m[k] != r, |k: Seq<char>| m[k])
}

pub proof fn lemma_pair_inserted_injective<V>(m: Map<Seq<char>, V>, l: Seq<char>, r: V)
    requires
        injective(m),
    ensures
        injective(pair_inserted(m, l, r)),
        pair_inserted(m, l, r).contains_key(l),
        pair_inserted(m, l, r)[l] == r,
{
}

pub proof fn lemma_value_removed_injective<V>(m: Map<Seq<char>, V>, r: V)
    requires
        injective(m),
    ensures
        injective(value_removed(m, r)),
{
}

/// The pairs of username and connection handle that a roster holds.
pub uninterp spec fn roster_pairs(m: Roster) -> Map<Seq<char>, u64>;

/// The pairs of username and code that a code map holds.
pub uninterp spec fn code_pairs(m: CodeMap) -> Map<Seq<char>, Seq<char>>;

/// Relies on `BiHashMap::new`: the map starts empty.
#[verifier::external_body]
pub(crate) fn roster_new() -> (r: Roster)
    ensures
        roster_pairs(r).dom() == Set::<Seq<char>>::empty(),
{
    BiMap::new()
}

/// Relies on `BiHashMap::insert`: the pairs with key `l` or value `r` are
/// removed, then `(l, r)` is added.
#[verifier::external_body]
pub(crate) fn roster_insert(m: &mut Roster, l: String, r: u64)
    ensures
        roster_pairs(*final(m)) == pair_inserted(roster_pairs(*old(m)), l@, r),
{
    m.insert(l, r);
}

/// Relies on `BiHashMap::get_by_left`: the value paired with `l`.
#[verifier::external_body]
pub(crate) fn roster_get_by_left(m: &Roster, l: &str) -> (r: Option<u64>)
    ensures
        r == (if roster_pairs(*m).contains_key(l@) {
            Some(roster_pairs(*m)[l@])
        } else {
            None
        }),
{
    m.get_by_left(l).copied()
}

/// Relies on `BiHashMap::remove_by_right`: the pair with value `r` is
/// removed and its key handed back.
#[verifier::external_body]
pub(crate) fn roster_remove_by_right(m: &mut Roster, r: u64) -> (k: Option<String>)
    ensures
        roster_pairs(*final(m)) == value_removed(roster_pairs(*old(m)), r),
        match k {
            Some(k) => roster_pairs(*old(m)).contains_key(k@) && roster_pairs(*old(m))[k@] == r,
            None => forall|u: Seq<char>| #[trigger]
                roster_pairs(*old(m)).contains_key(u) ==> roster_pairs(*old(m))[u] != r,
        },
{
    m.remove_by_right(&r).map(|p| p.0)
}

/// Relies on `BiHashMap::left_values`: every key once, in no stated order.
#[verifier::external_body]
pub(crate) fn roster_left_values(m: &Roster) -> (r: Vec<String>)
    ensures
        r@.map_values(|s: String| s@).to_set() == roster_pairs(*m).dom(),
        r@.map_values(|s: String| s@).no_duplicates(),
{
    m.left_values().cloned().collect()
}

/// Relies on `BiHashMap::right_values`: every value once, in no stated
/// order.
#[verifier::external_body]
pub(crate) fn roster_right_values(m: &Roster) -> (r: Vec<u64>)
    ensures
        r@.to_set() == roster_pairs(*m).values(),
        r@.no_duplicates(),
{
    m.right_values().copied().collect()
}

/// Relies on `BiHashMap::new`: the map starts empty.
#[verifier::external_body]
pub(crate) fn codes_new() -> (r: CodeMap)
    ensures
        code_pairs(r).dom() == Set::<Seq<char>>::empty(),
{
    BiMap::new()
}

/// Relies on `BiHashMap::insert`: the pairs with key `l` or value `r` are
/// removed, then `(l, r)` is added.
#[verifier::external_body]
pub(crate) fn codes_insert(m: &mut CodeMap, l: String, r: String)
    ensures
        code_pairs(*final(m)) == pair_inserted(code_pairs(*old(m)), l@, r@),
{
    m.insert(l, r);
}

/// Relies on `BiHashMap::get_by_left`: the value paired with `l`.
#[verifier::external_body]
pub(crate) fn codes_get_by_left(m: &CodeMap, l: &str) -> (r: Option<String>)
    ensures
        match r {
            Some(v) => code_pairs(*m).contains_key(l@) && code_pairs(*m)[l@] == v@,
            None => !code_pairs(*m).contains_key(l@),
        },
{
    m.get_by_left(l).cloned()
}

/// Relies on `BiHashMap::get_by_right`: the key paired with `r`.
#[verifier::external_body]
pub(crate) fn codes_get_by_right(m: &CodeMap, r: &str) -> (k: Option<String>)
    ensures
        match k {
            Some(k) => code_pairs(*m).contains_key(k@) && code_pairs(*m)[k@] == r@,
            None => forall|u: Seq<char>| #[trigger]
                code_pairs(*m).contains_key(u) ==> code_pairs(*m)[u] != r@,
        },
{
    m.get_by_right(r).cloned()
}

} // verus!
