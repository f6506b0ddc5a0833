//! The first generation of the idea store: a single-level table of
//! ideas keyed by their own id, read and written through versioned
//! views, before collections arrived.

use vstd::prelude::*;

use crate::ident::{hex32, parse_hex_u128};
use crate::models::{StateView, clone_tags, tag_set};
use crate::table::{Entity, find_at, keyed, lemma_find_idx_at};
use crate::wrappers::random_index;

verus! {

/// An idea of the single-level store: no owning collection yet.
#[derive(Debug)]
pub struct Idea {
    pub id: u128,
    pub name: String,
    pub description: String,
    pub tags: Vec<String>,
    pub completed: bool,
}

/// The mathematical value of an `Idea`.
pub struct IdeaSummary {
    pub id: u128,
    pub name: Seq<char>,
    pub description: Seq<char>,
    pub tags: Set<Seq<char>>,
    pub completed: bool,
}

impl View for Idea {
    type V = IdeaSummary;

    open spec fn view(&self) -> IdeaSummary {
        IdeaSummary {
            id: self.id,
            name: self.name@,
            description: self.description@,
            tags: tag_set(self.tags@),
            completed: self.completed,
        }
    }
}

impl Entity for Idea {
    open spec fn pk_spec(&self) -> u128 {
        self.id
    }

    open spec fn rk_spec(&self) -> u128 {
        self.id
    }

    fn pk(&self) -> u128 {
        self.id
    }

    fn rk(&self) -> u128 {
        self.id
    }
}

impl Clone for Idea {
    fn clone(&self) -> (r: Self)
        ensures
            r@ == self@,
            r.id == self.id,
    {
        Idea {
            id: self.id,
            name: self.name.clone(),
            description: self.description.clone(),
            tags: clone_tags(&self.tags),
            completed: self.completed,
        }
    }
}

/// An optional tag and an optional completion flag on a listing.
pub struct QueryFilter {
    pub tag: Option<String>,
    pub complete: Option<bool>,
}

/// Whether an idea passes a query filter: the tag must be carried
/// exactly and the completion flag must agree.
pub open spec fn filter_matches_spec(
    idea: Idea,
    tag: Option<String>,
    complete: Option<bool>,
) -> bool {
    (match tag {
        Some(t) => tag_set(idea.tags@).contains(t@),
        None => true,
    }) && (match complete {
        Some(c) => idea.completed == c,
        None => true,
    })
}

/// The filter predicate the listing routes apply.
pub fn filter_matches(idea: &Idea, tag: &Option<String>, complete: &Option<bool>) -> (r: bool)
    ensures
        r == filter_matches_spec(*idea, *tag, *complete),
{
    let tag_ok = match tag {
        Some(t) => crate::models::has_tag(&idea.tags, t.as_str()),
        None => true,
    };
    let complete_ok = match complete {
        Some(c) => idea.completed == *c,
        None => true,
    };
    tag_ok && complete_ok
}

/// The first version of an idea's outward view: an optional 32-digit
/// id, a name and a description. Tags and completion are not carried.
#[derive(Debug)]
pub struct IdeaV1 {
    pub id: Option<String>,
    pub name: String,
    pub description: String,
}

impl StateView<Idea> for IdeaV1 {
    open spec fn models(&self, state: &Idea) -> bool {
        &&& (match self.id {
            Some(s) => crate::ident::parse_hex_ok(s@) ==> state.id == (crate::ident::hex_value_of(
                crate::ident::hex_digits_of(s@),
            ) as u128),
            None => true,
        })
        &&& state.name@ == self.name@
        &&& state.description@ == self.description@
    }

    fn from_state(state: &Idea) -> (r: Self) {
        proof {
            crate::ident::lemma_hex32_round_trip(state.id);
        }
        IdeaV1 {
            id: Some(hex32(state.id)),
            name: state.name.clone(),
            description: state.description.clone(),
        }
    }

    fn to_state(&self) -> (r: Idea) {
        let id = match &self.id {
            Some(s) => {
                match parse_hex_u128(s.as_str()) {
                    Some(v) => v,
                    None => crate::models::new_id(),
                }
            },
            None => crate::models::new_id(),
        };
        Idea {
            id,
            name: self.name.clone(),
            description: self.description.clone(),
            tags: Vec::new(),
            completed: false,
        }
    }
}

/// The second version of an idea's outward view: tags and a completion
/// flag join the record.
#[derive(Debug)]
pub struct IdeaV2 {
    pub id: Option<String>,
    pub name: String,
    pub description: String,
    pub tags: Vec<String>,
    pub completed: Option<bool>,
}

impl StateView<Idea> for IdeaV2 {
    open spec fn models(&self, state: &Idea) -> bool {
        &&& (match self.id {
            Some(s) => crate::ident::parse_hex_ok(s@) ==> state.id == (crate::ident::hex_value_of(
                crate::ident::hex_digits_of(s@),
            ) as u128),
            None => true,
        })
        &&& state.name@ == self.name@
        &&& state.description@ == self.description@
        &&& tag_set(state.tags@) == tag_set(self.tags@)
        &&& (match self.completed {
            Some(c) => state.completed == c,
            None => !state.completed,
        })
    }

    fn from_state(state: &Idea) -> (r: Self) {
        proof {
            crate::ident::lemma_hex32_round_trip(state.id);
        }
        IdeaV2 {
            id: Some(hex32(state.id)),
            name: state.name.clone(),
            description: state.description.clone(),
            tags: clone_tags(&state.tags),
            completed: Some(state.completed),
        }
    }

    fn to_state(&self) -> (r: Idea) {
        let id = match &self.id {
            Some(s) => {
                match parse_hex_u128(s.as_str()) {
                    Some(v) => v,
                    None => crate::models::new_id(),
                }
            },
            None => crate::models::new_id(),
        };
        let completed = match &self.completed {
            Some(c) => *c,
            None => false,
        };
        Idea {
            id,
            name: self.name.clone(),
            description: self.description.clone(),
            tags: crate::models::normalize_tags(clone_tags(&self.tags)),
            completed,
        }
    }
}

/// Whether a view renders a stored idea that the caller's predicate
/// accepted.
pub open spec fn models_kept<T: StateView<Idea>, P: Fn(&Idea) -> bool>(
    rows: Seq<Idea>,
    pred: P,
    v: T,
) -> bool {
    exists|x: Idea|
        #![auto]
        rows.contains(x) && v.models(&x) && call_ensures(pred, (&x,), true)
}

/// Whether a view renders one of the stored ideas (together with its
/// index) in a listing.
pub open spec fn represented_in<T: StateView<Idea>>(x: Idea, v: Seq<T>) -> bool {
    exists|j: int| #![auto] 0 <= j < v.len() && v[j].models(&x)
}

/// The entries stay in strictly ascending id order, as an ordered map
/// keyed by id lists them.
pub open spec fn ascending_ids(s: Seq<Idea>) -> bool {
    forall|a: int, b: int| 0 <= a < b < s.len() ==> (#[trigger] s[a]).id < (#[trigger] s[b]).id
}

/// The first position whose id is not below the given one: where a new
/// id belongs in an ascending table.
pub open spec fn insert_pos(s: Seq<Idea>, id: u128) -> int
    decreases s.len(),
{
    if s.len() == 0 {
        0
    } else if s[0].id < id {
        1 + insert_pos(s.skip(1), id)
    } else {
        0
    }
}

/// The table after storing an idea: an entry with the same id is
/// replaced in place; a new id is inserted at its ascending position.
pub open spec fn ordered_put(s: Seq<Idea>, x: Idea) -> Seq<Idea> {
    let i = crate::table::find_idx(s, x.id, x.id);
    if i >= 0 {
        s.update(i, x)
    } else {
        s.insert(insert_pos(s, x.id), x)
    }
}

/// `insert_pos` lands on the first entry whose id is not below the
/// given one.
proof fn lemma_insert_pos_at(s: Seq<Idea>, id: u128, i: int)
    requires
        0 <= i <= s.len(),
        forall|j: int| 0 <= j < i ==> (#[trigger] s[j]).id < id,
        i < s.len() ==> s[i].id >= id,
    ensures
        insert_pos(s, id) == i,
    decreases s.len(),
{
    if s.len() == 0 {
    } else if s[0].id < id {
        assert(i >= 1);
        lemma_insert_pos_at(s.skip(1), id, i - 1);
    } else {
        assert(i == 0);
    }
}

/// The single-process store behind the first API versions: one table
/// of ideas keyed by their own id, listed in ascending id order.
pub struct IdeasState {
    entries: Vec<Idea>,
}

impl IdeasState {
    pub closed spec fn rows(&self) -> Seq<Idea> {
        self.entries@
    }

    /// The entries stand in strictly ascending id order, so each id
    /// occurs at most once.
    pub open spec fn wf(&self) -> bool {
        ascending_ids(self.rows())
    }

    pub fn new() -> (r: Self)
        ensures
            r.wf(),
            r.rows() == Seq::<Idea>::empty(),
    {
        IdeasState { entries: Vec::new() }
    }

    /// Every stored idea, in ascending id order, through the chosen view.
    pub fn ideas<T: StateView<Idea>>(&self) -> (r: Option<Vec<T>>)
        ensures
            r matches Some(v) && v@.len() == self.rows().len(),
            r matches Some(v) ==> forall|k: int|
                0 <= k < v@.len() ==> (#[trigger] v@[k]).models(&self.rows()[k]),
    {
        let n = self.entries.len();
        let mut out: Vec<T> = Vec::new();
        let mut i: usize = 0;
        while i < n
            invariant
                n == self.rows().len(),
                i <= n,
                out@.len() == i,
                forall|k: int| 0 <= k < i ==> (#[trigger] out@[k]).models(&self.rows()[k]),
            decreases n - i,
        {
            out.push(T::from_state(&self.entries[i]));
            i += 1;
        }
        Some(out)
    }

    /// The idea stored under an id, through the chosen view.
    pub fn idea<T: StateView<Idea>>(&self, id: u128) -> (r: Option<T>)
        ensures
            match r {
                Some(v) => find_at(self.rows(), id, id) matches Some(e) && v.models(&e),
                None => find_at(self.rows(), id, id) is None,
            },
    {
        let n = self.entries.len();
        let mut i: usize = 0;
        while i < n
            invariant
                n == self.rows().len(),
                i <= n,
                forall|j: int| 0 <= j < i ==> !keyed(self.rows()[j], id, id),
            decreases n - i,
        {
            if self.entries[i].id == id {
                proof {
                    lemma_find_idx_at(self.rows(), id, id, i as int);
                }
                return Some(T::from_state(&self.entries[i]));
            }
            i += 1;
        }
        proof {
            lemma_find_idx_at(self.rows(), id, id, n as int);
        }
        None
    }

    /// Upserts the idea a view denotes, keeping ascending id order, and
    /// hands the stored value back through the same view.
    pub fn store_idea<T: StateView<Idea>>(&mut self, idea: &T) -> (r: Option<T>)
        requires
            old(self).wf(),
        ensures
            final(self).wf(),
            r matches Some(v) ==> exists|x: Idea|
                {
                    &&& #[trigger] idea.models(&x)
                    &&& v.models(&x)
                    &&& find_at(final(self).rows(), x.id, x.id) == Some(x)
                    &&& final(self).rows() == ordered_put(old(self).rows(), x)
                },
            r is Some,
    {
        let state = idea.to_state();
        let ghost x = state;
        let xid = state.id;
        let out = T::from_state(&state);
        let n = self.entries.len();
        let mut i: usize = 0;
        while i < n && self.entries[i].id < xid
            invariant
                n == self.rows().len(),
                i <= n,
                *self == *old(self),
                forall|j: int| 0 <= j < i ==> (#[trigger] self.rows()[j]).id < xid,
            decreases n - i,
        {
            i += 1;
        }
        proof {
            lemma_insert_pos_at(self.rows(), xid, i as int);
        }
        if i < n && self.entries[i].id == xid {
            proof {
                lemma_find_idx_at(self.rows(), xid, xid, i as int);
            }
            self.entries[i] = state;
            proof {
                let s2 = final(self).rows();
                let s0 = old(self).rows();
                assert(s2 == s0.update(i as int, x));
                assert forall|a: int, b: int| 0 <= a < b < s2.len() implies s2[a].id
                    < s2[b].id by {
                    if a != i {
                        assert(s2[a] == s0[a]);
                    }
                    if b != i {
                        assert(s2[b] == s0[b]);
                    }
                    assert(s0[i as int].id == xid);
                }
                lemma_find_idx_at(s2, xid, xid, i as int);
            }
            Some(out)
        } else {
            proof {
                assert forall|j: int| 0 <= j < self.rows().len() implies !keyed(
                    self.rows()[j],
                    xid,
                    xid,
                ) by {
                    if j >= i {
                        if j > i {
                            assert(self.rows()[i as int].id < self.rows()[j].id);
                        }
                    }
                }
                lemma_find_idx_at(self.rows(), xid, xid, self.rows().len() as int);
            }
            self.entries.insert(i, state);
            proof {
                let s2 = final(self).rows();
                let s0 = old(self).rows();
                assert(s2 == s0.insert(i as int, x));
                assert forall|a: int, b: int| 0 <= a < b < s2.len() implies s2[a].id
                    < s2[b].id by {
                    let a0 = if a < i {
                        a
                    } else {
                        a - 1
                    };
                    let b0 = if b < i {
                        b
                    } else {
                        b - 1
                    };
                    if a != i {
                        assert(s2[a] == s0[a0]);
                    }
                    if b != i {
                        assert(s2[b] == s0[b0]);
                    }
                    if a == i && b > i {
                        assert(s0[b0].id >= xid);
                        assert(s0[b0].id != xid);
                    }
                }
                lemma_find_idx_at(s2, xid, xid, i as int);
            }
            Some(out)
        }
    }

    /// Every stored idea the caller's predicate accepted, in ascending
    /// id order, through the chosen view: sound (each element renders an
    /// accepted idea) and complete (every stored idea is either rejected
    /// by the predicate or represented in the result).
    pub fn ideas_by<T: StateView<Idea>, P: Fn(&Idea) -> bool>(&self, pred: P) -> (r: Option<
        Vec<T>,
    >)
        requires
            forall|e: &Idea| #[trigger] call_requires(pred, (e,)),
        ensures
            r matches Some(v) && v@.len() <= self.rows().len(),
            r matches Some(v) ==> forall|k: int|
                0 <= k < v@.len() ==> models_kept(self.rows(), pred, #[trigger] v@[k]),
            r matches Some(v) ==> forall|k: int|
                0 <= k < self.rows().len() ==> call_ensures(pred, (&self.rows()[k],), false)
                    || represented_in(#[trigger] self.rows()[k], v@),
    {
        let n = self.entries.len();
        let mut out: Vec<T> = Vec::new();
        let ghost mut srcs: Seq<Idea> = Seq::empty();
        let mut i: usize = 0;
        while i < n
            invariant
                forall|e: &Idea| #[trigger] call_requires(pred, (e,)),
                n == self.rows().len(),
                i <= n,
                out@.len() <= i,
                srcs.len() == out@.len(),
                forall|k: int|
                    0 <= k < out@.len() ==> self.rows().contains(#[trigger] srcs[k])
                        && out@[k].models(&srcs[k]) && call_ensures(pred, (&srcs[k],), true),
                forall|k: int|
                    0 <= k < i ==> call_ensures(pred, (&self.rows()[k],), false)
                        || represented_in(#[trigger] self.rows()[k], out@),
            decreases n - i,
        {
            let ghost prev = out@;
            let keep = pred(&self.entries[i]);
            if keep {
                out.push(T::from_state(&self.entries[i]));
                proof {
                    assert(self.rows().contains(self.rows()[i as int]));
                    srcs = srcs.push(self.rows()[i as int]);
                }
            }
            proof {
                assert forall|k: int| 0 <= k < i + 1 implies call_ensures(
                    pred,
                    (&self.rows()[k],),
                    false,
                ) || represented_in(#[trigger] self.rows()[k], out@) by {
                    if k < i {
                        if represented_in(self.rows()[k], prev) {
                            let j = choose|j: int|
                                #![auto]
                                0 <= j < prev.len() && prev[j].models(&self.rows()[k]);
                            assert(out@[j].models(&self.rows()[k]));
                        }
                    } else {
                        if keep {
                            assert(out@[out@.len() - 1].models(&self.rows()[i as int]));
                        }
                    }
                }
            }
            i += 1;
        }
        proof {
            assert forall|k: int| 0 <= k < out@.len() implies models_kept(
                self.rows(),
                pred,
                #[trigger] out@[k],
            ) by {
                assert(self.rows().contains(srcs[k]) && out@[k].models(&srcs[k]) && call_ensures(
                    pred,
                    (&srcs[k],),
                    true,
                ));
            }
        }
        Some(out)
    }

    /// Draws one idea uniformly at random from those a predicate keeps,
    /// through the chosen view. Nothing comes back only when the
    /// predicate rejected every stored idea, so a filter matching
    /// exactly one idea always yields that idea.
    pub fn random_idea<T: StateView<Idea>, P: Fn(&Idea) -> bool>(&self, pred: P) -> (r: Option<T>)
        requires
            forall|e: &Idea| #[trigger] call_requires(pred, (e,)),
        ensures
            r matches Some(v) ==> models_kept(self.rows(), pred, v),
            r is None ==> forall|k: int|
                0 <= k < self.rows().len() ==> call_ensures(
                    pred,
                    (&(#[trigger] self.rows()[k]),),
                    false,
                ),
    {
        let n = self.entries.len();
        let mut kept: Vec<&Idea> = Vec::new();
        let mut i: usize = 0;
        while i < n
            invariant
                forall|e: &Idea| #[trigger] call_requires(pred, (e,)),
                n == self.rows().len(),
                i <= n,
                forall|k: int|
                    0 <= k < kept@.len() ==> self.rows().contains(*(#[trigger] kept@[k]))
                        && call_ensures(pred, (kept@[k],), true),
                kept@.len() == 0 ==> forall|k: int|
                    0 <= k < i ==> call_ensures(pred, (&(#[trigger] self.rows()[k]),), false),
            decreases n - i,
        {
            let ghost prev = kept@;
            let keep = pred(&self.entries[i]);
            if keep {
                kept.push(&self.entries[i]);
                proof {
                    assert forall|k: int| 0 <= k < kept@.len() implies self.rows().contains(
                        *(#[trigger] kept@[k]),
                    ) && call_ensures(pred, (kept@[k],), true) by {
                        if k < prev.len() {
                            assert(kept@[k] == prev[k]);
                        } else {
                            assert(self.rows().contains(self.rows()[i as int]));
                        }
                    }
                }
            }
            i += 1;
        }
        if kept.len() > 0 {
            let k = random_index(kept.len());
            let picked = kept[k];
            let out = T::from_state(picked);
            proof {
                assert(self.rows().contains(*picked));
                assert(out.models(&*picked));
                assert(call_ensures(pred, (picked,), true));
            }
            Some(out)
        } else {
            None
        }
    }
}

} // verus!
