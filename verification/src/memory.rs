//! The in-memory backend: four two-level tables, one per entity kind,
//! answering the full operation set.
//!
//! Absent partitions and absent rows are both reported as not-found, with
//! partition-specific versus row-specific wording; a brand-new collection
//! with zero ideas therefore reads as not-found rather than an empty list.

use vstd::prelude::*;

use crate::error::APIError;
use crate::models::{
    Collection, GetCollection, GetCollections, GetHealth, GetIdea, GetIdeas, GetRandomIdea,
    GetRoleAssignment, GetRoleAssignments, GetUser, Health, Idea, IdeaView, RemoveCollection,
    RemoveIdea, RemoveRoleAssignment, RoleAssignment, StoreCollection, StoreIdea,
    StoreRoleAssignment, StoreUser, User, tag_set, tags_wf,
};
use crate::table::{
    Entity, Table, find_at, has_partition, lemma_find_idx_valid, lemma_store_frames_others,
    lemma_store_isolated, lemma_store_then_get, opt_view, partition_of, remove_spec, upsert_spec,
    views_of,
};
use crate::wrappers::{now_unix_millis, random_index};

verus! {

impl Entity for Idea {
    open spec fn pk_spec(&self) -> u128 {
        self.collection_id
    }

    open spec fn rk_spec(&self) -> u128 {
        self.id
    }

    fn pk(&self) -> u128 {
        self.collection_id
    }

    fn rk(&self) -> u128 {
        self.id
    }
}

impl Entity for Collection {
    open spec fn pk_spec(&self) -> u128 {
        self.user_id
    }

    open spec fn rk_spec(&self) -> u128 {
        self.collection_id
    }

    fn pk(&self) -> u128 {
        self.user_id
    }

    fn rk(&self) -> u128 {
        self.collection_id
    }
}

impl Entity for RoleAssignment {
    open spec fn pk_spec(&self) -> u128 {
        self.collection_id
    }

    open spec fn rk_spec(&self) -> u128 {
        self.user_id
    }

    fn pk(&self) -> u128 {
        self.collection_id
    }

    fn rk(&self) -> u128 {
        self.user_id
    }
}

impl Entity for User {
    open spec fn pk_spec(&self) -> u128 {
        self.email_hash
    }

    open spec fn rk_spec(&self) -> u128 {
        self.email_hash
    }

    fn pk(&self) -> u128 {
        self.email_hash
    }

    fn rk(&self) -> u128 {
        self.email_hash
    }
}

/// Whether an idea passes the query filter: an optional completion flag
/// and an optional tag that the idea's tag set must contain exactly.
pub open spec fn idea_matches(i: Idea, tag: Option<String>, completed: Option<bool>) -> bool {
    (match completed {
        Some(c) => i.completed == c,
        None => true,
    }) && (match tag {
        Some(t) => tag_set(i.tags@).contains(t@),
        None => true,
    })
}

/// The query filter as a predicate over stored ideas.
pub open spec fn matches_query(tag: Option<String>, completed: Option<bool>) -> spec_fn(Idea) -> bool {
    |i: Idea| idea_matches(i, tag, completed)
}

/// The ideas of one collection that pass the query filter, in table order.
pub open spec fn matching_ideas(
    s: Seq<Idea>,
    collection: u128,
    tag: Option<String>,
    completed: Option<bool>,
) -> Seq<Idea> {
    partition_of(s, collection).filter(matches_query(tag, completed))
}

/// The value that a store-idea request persists.
pub open spec fn stored_idea_view(msg: StoreIdea) -> IdeaView {
    IdeaView {
        id: msg.id,
        collection_id: msg.collection,
        name: msg.name@,
        description: msg.description@,
        tags: tag_set(msg.tags@),
        completed: msg.completed,
    }
}

/// Every stored idea keeps a duplicate-free tag list.
pub open spec fn all_ideas_wf(s: Seq<Idea>) -> bool {
    forall|k: int| 0 <= k < s.len() ==> (#[trigger] s[k]).wf()
}

/// Keeps the borrowed ideas that pass the query filter, as fresh copies.
fn filter_ideas(rows: Vec<&Idea>, tag: &Option<String>, completed: &Option<bool>) -> (r: Vec<Idea>)
    ensures
        views_of(r@) == views_of(
            crate::table::deref_values(rows@).filter(matches_query(*tag, *completed)),
        ),
{
    let ghost all = crate::table::deref_values(rows@);
    let ghost q = matches_query(*tag, *completed);
    let n = rows.len();
    let mut out: Vec<Idea> = Vec::new();
    let mut i: usize = 0;
    while i < n
        invariant
            n == rows@.len(),
            i <= n,
            all == crate::table::deref_values(rows@),
            q == matches_query(*tag, *completed),
            out@.len() == all.take(i as int).filter(q).len(),
            forall|k: int| 0 <= k < out@.len() ==> (#[trigger] out@[k])@ == all.take(
                i as int,
            ).filter(q)[k]@,
        decreases n - i,
    {
        let ghost prev = out@;
        let e: &Idea = rows[i];
        let completed_ok = match completed {
            Some(c) => e.completed == *c,
            None => true,
        };
        let tag_ok = match tag {
            Some(t) => crate::models::has_tag(&e.tags, t.as_str()),
            None => true,
        };
        if completed_ok && tag_ok {
            out.push(e.clone());
        }
        proof {
            assert(all[i as int] == *e);
            assert(q(all[i as int]) == (completed_ok && tag_ok));
            crate::table::lemma_filter_singleton(all[i as int], q);
            assert(all.take(i + 1) =~= all.take(i as int) + seq![all[i as int]]);
            Seq::filter_distributes_over_add(all.take(i as int), seq![all[i as int]], q);
            if completed_ok && tag_ok {
                assert(all.take(i + 1).filter(q) == all.take(i as int).filter(q) + seq![
                    all[i as int],
                ]);
            } else {
                assert(all.take(i + 1).filter(q) =~= all.take(i as int).filter(q));
            }
        }
        i += 1;
    }
    proof {
        assert(all.take(n as int) =~= all);
        assert(views_of(out@) =~= views_of(all.filter(q)));
    }
    out
}

/// The value that a store-collection request persists.
pub open spec fn collection_of(msg: StoreCollection) -> Collection {
    Collection { collection_id: msg.collection_id, user_id: msg.principal_id, name: msg.name }
}

/// The value that a store-role-assignment request persists.
pub open spec fn role_assignment_of(msg: StoreRoleAssignment) -> RoleAssignment {
    RoleAssignment {
        collection_id: msg.collection_id,
        user_id: msg.principal_id,
        role: msg.role,
    }
}

/// The value that a store-user request persists.
pub open spec fn user_of(msg: StoreUser) -> User {
    User {
        principal_id: msg.principal_id,
        email_hash: msg.email_hash,
        first_name: msg.first_name,
    }
}

/// Copies a row of borrowed collections.
fn copy_collections(rows: Vec<&Collection>) -> (r: Vec<Collection>)
    ensures
        r@ == crate::table::deref_values(rows@),
{
    let mut out: Vec<Collection> = Vec::new();
    let mut i: usize = 0;
    while i < rows.len()
        invariant
            i <= rows@.len(),
            out@.len() == i,
            forall|j: int| 0 <= j < i ==> out@[j] == *rows@[j],
        decreases rows@.len() - i,
    {
        out.push(rows[i].clone());
        i += 1;
    }
    proof {
        assert(out@ =~= crate::table::deref_values(rows@));
    }
    out
}

/// Copies a row of borrowed role assignments.
fn copy_role_assignments(rows: Vec<&RoleAssignment>) -> (r: Vec<RoleAssignment>)
    ensures
        r@ == crate::table::deref_values(rows@),
{
    let mut out: Vec<RoleAssignment> = Vec::new();
    let mut i: usize = 0;
    while i < rows.len()
        invariant
            i <= rows@.len(),
            out@.len() == i,
            forall|j: int| 0 <= j < i ==> out@[j] == *rows@[j],
        decreases rows@.len() - i,
    {
        out.push(rows[i].clone());
        i += 1;
    }
    proof {
        assert(out@ =~= crate::table::deref_values(rows@));
    }
    out
}

/// A single-process store backed by ordered two-level tables.
pub struct MemoryStore {
    started_at: i64,
    ideas: Table<Idea>,
    collections: Table<Collection>,
    role_assignments: Table<RoleAssignment>,
    users: Table<User>,
}

impl MemoryStore {
    pub closed spec fn idea_rows(&self) -> Seq<Idea> {
        self.ideas@
    }

    pub closed spec fn collection_rows(&self) -> Seq<Collection> {
        self.collections@
    }

    pub closed spec fn role_rows(&self) -> Seq<RoleAssignment> {
        self.role_assignments@
    }

    pub closed spec fn user_rows(&self) -> Seq<User> {
        self.users@
    }

    pub closed spec fn started_at_spec(&self) -> i64 {
        self.started_at
    }

    /// Each table holds at most one entry per key pair, and every stored
    /// idea is well formed.
    pub open spec fn wf(&self) -> bool {
        &&& crate::table::unique_keys(self.idea_rows())
        &&& crate::table::unique_keys(self.collection_rows())
        &&& crate::table::unique_keys(self.role_rows())
        &&& crate::table::unique_keys(self.user_rows())
        &&& all_ideas_wf(self.idea_rows())
    }

    /// A fresh, empty store; records the current time as its start time.
    pub fn new() -> (r: Self)
        ensures
            r.wf(),
            r.idea_rows() == Seq::<Idea>::empty(),
            r.collection_rows() == Seq::<Collection>::empty(),
            r.role_rows() == Seq::<RoleAssignment>::empty(),
            r.user_rows() == Seq::<User>::empty(),
    {
        MemoryStore {
            started_at: now_unix_millis(),
            ideas: Table::new(),
            collections: Table::new(),
            role_assignments: Table::new(),
            users: Table::new(),
        }
    }

    /// The process is always reported healthy, with its start time.
    pub fn get_health(&self, _msg: GetHealth) -> (r: Result<Health, APIError>)
        ensures
            r == Result::<Health, APIError>::Ok(
                Health { ok: true, started_at: self.started_at_spec() },
            ),
    {
        Ok(Health { ok: true, started_at: self.started_at })
    }

    /// Looks an idea up by collection and id.
    pub fn get_idea(&self, msg: GetIdea) -> (r: Result<Idea, APIError>)
        requires
            self.wf(),
        ensures
            match r {
                Ok(i) => {
                    &&& opt_view(find_at(self.idea_rows(), msg.collection, msg.id)) == Some(i@)
                    &&& i.wf()
                },
                Err(e) => {
                    &&& find_at(self.idea_rows(), msg.collection, msg.id) is None
                    &&& e.code == 404
                    &&& !has_partition(self.idea_rows(), msg.collection) ==> e.message@
                        == "The collection ID you provided could not be found. Please check it and try again."@
                    &&& has_partition(self.idea_rows(), msg.collection) ==> e.message@
                        == "The idea ID you provided could not be found. Please check it and try again."@
                },
            },
    {
        match self.ideas.get(msg.collection, msg.id) {
            Some(e) => {
                proof {
                    lemma_find_idx_valid(self.idea_rows(), msg.collection, msg.id);
                }
                Ok(e.clone())
            },
            None => {
                if !self.ideas.partition_exists(msg.collection) {
                    Err(
                        APIError::new(
                            404,
                            "Not Found",
                            "The collection ID you provided could not be found. Please check it and try again.",
                        ),
                    )
                } else {
                    Err(
                        APIError::new(
                            404,
                            "Not Found",
                            "The idea ID you provided could not be found. Please check it and try again.",
                        ),
                    )
                }
            },
        }
    }

    /// Lists the ideas of one collection that pass the query filter. An
    /// absent partition is not-found, even when the collection merely has
    /// no ideas yet.
    pub fn get_ideas(&self, msg: GetIdeas) -> (r: Result<Vec<Idea>, APIError>)
        requires
            self.wf(),
        ensures
            match r {
                Ok(v) => {
                    &&& has_partition(self.idea_rows(), msg.collection)
                    &&& views_of(v@) == views_of(
                        matching_ideas(self.idea_rows(), msg.collection, msg.tag, msg.is_completed),
                    )
                },
                Err(e) => {
                    &&& !has_partition(self.idea_rows(), msg.collection)
                    &&& e.code == 404
                },
            },
    {
        if !self.ideas.partition_exists(msg.collection) {
            return Err(
                APIError::new(
                    404,
                    "Not Found",
                    "The collection ID you provided could not be found. Please check it and try again.",
                ),
            );
        }
        let rows = self.ideas.partition(msg.collection);
        let out = filter_ideas(rows, &msg.tag, &msg.is_completed);
        Ok(out)
    }

    /// Draws one idea uniformly at random from the filtered set.
    pub fn get_random_idea(&self, msg: GetRandomIdea) -> (r: Result<Idea, APIError>)
        requires
            self.wf(),
        ensures
            match r {
                Ok(i) => {
                    let m = matching_ideas(
                        self.idea_rows(),
                        msg.collection,
                        msg.tag,
                        msg.is_completed,
                    );
                    exists|k: int| 0 <= k < m.len() && i@ == (#[trigger] m[k])@
                },
                Err(e) => {
                    &&& e.code == 404
                    &&& (!has_partition(self.idea_rows(), msg.collection) || matching_ideas(
                        self.idea_rows(),
                        msg.collection,
                        msg.tag,
                        msg.is_completed,
                    ).len() == 0)
                },
            },
    {
        if !self.ideas.partition_exists(msg.collection) {
            return Err(
                APIError::new(
                    404,
                    "Not Found",
                    "The collection ID you provided could not be found. Please check it and try again.",
                ),
            );
        }
        let rows = self.ideas.partition(msg.collection);
        let matched = filter_ideas(rows, &msg.tag, &msg.is_completed);
        let ghost m = matching_ideas(self.idea_rows(), msg.collection, msg.tag, msg.is_completed);
        if matched.len() == 0 {
            proof {
                assert(views_of(matched@).len() == 0);
                assert(m.len() == views_of(m).len());
            }
            return Err(APIError::new(404, "Not Found", "No random ideas were available."));
        }
        let k = random_index(matched.len());
        let picked = matched[k].clone();
        proof {
            assert(crate::table::deref_values(rows@) == partition_of(
                self.idea_rows(),
                msg.collection,
            ));
            assert(views_of(matched@) == views_of(m));
            assert(views_of(m).len() == m.len());
            assert((k as int) < m.len());
            assert(picked@ == matched@[k as int]@);
            assert(views_of(matched@)[k as int] == matched@[k as int]@);
            assert(views_of(m)[k as int] == m[k as int]@);
            assert(picked@ == m[k as int]@);
        }
        Ok(picked)
    }

    /// Upserts an idea into its collection, creating the partition when
    /// absent, and returns the stored value.
    pub fn store_idea(&mut self, msg: StoreIdea) -> (r: Result<Idea, APIError>)
        requires
            old(self).wf(),
            tags_wf(msg.tags@),
        ensures
            final(self).wf(),
            match r {
                Ok(i) => i@ == stored_idea_view(msg) && i.wf(),
                Err(_) => false,
            },
            opt_view(find_at(final(self).idea_rows(), msg.collection, msg.id)) == Some(
                stored_idea_view(msg),
            ),
            forall|pk: u128, rk: u128|
                !(pk == msg.collection && rk == msg.id) ==> find_at(
                    final(self).idea_rows(),
                    pk,
                    rk,
                ) == find_at(old(self).idea_rows(), pk, rk),
            forall|pk: u128|
                pk != msg.collection ==> partition_of(final(self).idea_rows(), pk) == partition_of(
                    old(self).idea_rows(),
                    pk,
                ),
            final(self).idea_rows().len() <= old(self).idea_rows().len() + 1,
            final(self).collection_rows() == old(self).collection_rows(),
            final(self).role_rows() == old(self).role_rows(),
            final(self).user_rows() == old(self).user_rows(),
            final(self).started_at_spec() == old(self).started_at_spec(),
    {
        let idea = Idea {
            id: msg.id,
            collection_id: msg.collection,
            name: msg.name.clone(),
            description: msg.description.clone(),
            tags: crate::models::clone_tags(&msg.tags),
            completed: msg.completed,
        };
        let stored = idea.clone();
        let ghost rows0 = self.idea_rows();
        self.ideas.upsert(idea);
        proof {
            let rows1 = final(self).idea_rows();
            assert(rows1 == upsert_spec(rows0, idea));
            lemma_store_then_get(rows0, idea);
            assert forall|pk: u128, rk: u128| !(pk == msg.collection && rk == msg.id) implies
                find_at(rows1, pk, rk) == find_at(rows0, pk, rk) by {
                lemma_store_frames_others(rows0, idea, pk, rk);
            }
            assert forall|pk: u128| pk != msg.collection implies partition_of(rows1, pk)
                == partition_of(rows0, pk) by {
                lemma_store_isolated(rows0, idea, pk);
            }
            lemma_find_idx_valid(rows0, msg.collection, msg.id);
            assert forall|k: int| 0 <= k < rows1.len() implies (#[trigger] rows1[k]).wf() by {
                let i0 = crate::table::find_idx(rows0, msg.collection, msg.id);
                if i0 >= 0 {
                    if k != i0 {
                        assert(rows1[k] == rows0[k]);
                    }
                } else {
                    if k < rows0.len() {
                        assert(rows1[k] == rows0[k]);
                    }
                }
            }
        }
        Ok(stored)
    }

    /// Removes an idea; an absent partition or row is not-found.
    pub fn remove_idea(&mut self, msg: RemoveIdea) -> (r: Result<(), APIError>)
        requires
            old(self).wf(),
        ensures
            final(self).wf(),
            final(self).idea_rows() == remove_spec(old(self).idea_rows(), msg.collection, msg.id),
            final(self).collection_rows() == old(self).collection_rows(),
            final(self).role_rows() == old(self).role_rows(),
            final(self).user_rows() == old(self).user_rows(),
            final(self).started_at_spec() == old(self).started_at_spec(),
            match r {
                Ok(_) => find_at(old(self).idea_rows(), msg.collection, msg.id) is Some,
                Err(e) => {
                    &&& find_at(old(self).idea_rows(), msg.collection, msg.id) is None
                    &&& e.code == 404
                    &&& !has_partition(old(self).idea_rows(), msg.collection) ==> e.message@
                        == "The collection ID you provided could not be found. Please check it and try again."@
                    &&& has_partition(old(self).idea_rows(), msg.collection) ==> e.message@
                        == "The idea ID you provided could not be found. Please check it and try again."@
                },
            },
    {
        if !self.ideas.partition_exists(msg.collection) {
            proof {
                lemma_find_idx_valid(self.idea_rows(), msg.collection, msg.id);
            }
            return Err(
                APIError::new(
                    404,
                    "Not Found",
                    "The collection ID you provided could not be found. Please check it and try again.",
                ),
            );
        }
        let ghost rows0 = self.idea_rows();
        let removed = self.ideas.remove(msg.collection, msg.id);
        proof {
            let rows1 = final(self).idea_rows();
            assert(rows1 == remove_spec(rows0, msg.collection, msg.id));
            lemma_find_idx_valid(rows0, msg.collection, msg.id);
            assert forall|k: int| 0 <= k < rows1.len() implies (#[trigger] rows1[k]).wf() by {
                let i0 = crate::table::find_idx(rows0, msg.collection, msg.id);
                if i0 >= 0 {
                    let k0 = if k < i0 {
                        k
                    } else {
                        k + 1
                    };
                    assert(rows1[k] == rows0[k0]);
                }
            }
        }
        if removed {
            Ok(())
        } else {
            Err(
                APIError::new(
                    404,
                    "Not Found",
                    "The idea ID you provided could not be found. Please check it and try again.",
                ),
            )
        }
    }

    /// Looks a collection up by owner and id.
    pub fn get_collection(&self, msg: GetCollection) -> (r: Result<Collection, APIError>)
        requires
            self.wf(),
        ensures
            match r {
                Ok(c) => find_at(self.collection_rows(), msg.principal_id, msg.id) == Some(c),
                Err(e) => {
                    &&& find_at(self.collection_rows(), msg.principal_id, msg.id) is None
                    &&& e.code == 404
                    &&& !has_partition(self.collection_rows(), msg.principal_id) ==> e.message@
                        == "The principal ID you provided could not be found. This likely means that you do not yet have any collections."@
                    &&& has_partition(self.collection_rows(), msg.principal_id) ==> e.message@
                        == "The collection ID you provided could not be found. Please check it and try again."@
                },
            },
    {
        match self.collections.get(msg.principal_id, msg.id) {
            Some(c) => Ok(c.clone()),
            None => {
                if !self.collections.partition_exists(msg.principal_id) {
                    Err(
                        APIError::new(
                            404,
                            "Not Found",
                            "The principal ID you provided could not be found. This likely means that you do not yet have any collections.",
                        ),
                    )
                } else {
                    Err(
                        APIError::new(
                            404,
                            "Not Found",
                            "The collection ID you provided could not be found. Please check it and try again.",
                        ),
                    )
                }
            },
        }
    }

    /// Lists every collection a principal owns; a principal with no
    /// partition yet is not-found.
    pub fn get_collections(&self, msg: GetCollections) -> (r: Result<Vec<Collection>, APIError>)
        requires
            self.wf(),
        ensures
            match r {
                Ok(v) => {
                    &&& has_partition(self.collection_rows(), msg.principal_id)
                    &&& v@ == partition_of(self.collection_rows(), msg.principal_id)
                },
                Err(e) => {
                    &&& !has_partition(self.collection_rows(), msg.principal_id)
                    &&& e.code == 404
                },
            },
    {
        if !self.collections.partition_exists(msg.principal_id) {
            return Err(
                APIError::new(
                    404,
                    "Not Found",
                    "The principal ID you provided could not be found. This probably means that you do not yet have any collections.",
                ),
            );
        }
        let rows = self.collections.partition(msg.principal_id);
        Ok(copy_collections(rows))
    }

    /// Upserts a collection under its owner and returns the stored value.
    pub fn store_collection(&mut self, msg: StoreCollection) -> (r: Result<Collection, APIError>)
        requires
            old(self).wf(),
        ensures
            final(self).wf(),
            r == Result::<Collection, APIError>::Ok(collection_of(msg)),
            final(self).collection_rows() == upsert_spec(
                old(self).collection_rows(),
                collection_of(msg),
            ),
            final(self).idea_rows() == old(self).idea_rows(),
            final(self).role_rows() == old(self).role_rows(),
            final(self).user_rows() == old(self).user_rows(),
            final(self).started_at_spec() == old(self).started_at_spec(),
    {
        let collection = Collection {
            collection_id: msg.collection_id,
            user_id: msg.principal_id,
            name: msg.name,
        };
        let stored = collection.clone();
        self.collections.upsert(collection);
        Ok(stored)
    }

    /// Removes a collection; an absent partition or row is not-found.
    pub fn remove_collection(&mut self, msg: RemoveCollection) -> (r: Result<(), APIError>)
        requires
            old(self).wf(),
        ensures
            final(self).wf(),
            final(self).collection_rows() == remove_spec(
                old(self).collection_rows(),
                msg.principal_id,
                msg.id,
            ),
            final(self).idea_rows() == old(self).idea_rows(),
            final(self).role_rows() == old(self).role_rows(),
            final(self).user_rows() == old(self).user_rows(),
            final(self).started_at_spec() == old(self).started_at_spec(),
            match r {
                Ok(_) => find_at(old(self).collection_rows(), msg.principal_id, msg.id) is Some,
                Err(e) => {
                    &&& find_at(old(self).collection_rows(), msg.principal_id, msg.id) is None
                    &&& e.code == 404
                },
            },
    {
        if !self.collections.partition_exists(msg.principal_id) {
            proof {
                lemma_find_idx_valid(self.collection_rows(), msg.principal_id, msg.id);
            }
            return Err(
                APIError::new(
                    404,
                    "Not Found",
                    "The principal ID you provided could not be found. This likely means that you do not yet have any collections.",
                ),
            );
        }
        let removed = self.collections.remove(msg.principal_id, msg.id);
        if removed {
            Ok(())
        } else {
            Err(
                APIError::new(
                    404,
                    "Not Found",
                    "The collection ID you provided could not be found. Please check it and try again.",
                ),
            )
        }
    }

    /// Looks a principal's role on a collection up. Absence, at either
    /// level, is Forbidden: it never reveals whether the collection exists.
    pub fn get_role_assignment(&self, msg: GetRoleAssignment) -> (r: Result<
        RoleAssignment,
        APIError,
    >)
        requires
            self.wf(),
        ensures
            match r {
                Ok(a) => find_at(self.role_rows(), msg.collection_id, msg.principal_id) == Some(a),
                Err(e) => {
                    &&& find_at(self.role_rows(), msg.collection_id, msg.principal_id) is None
                    &&& e.code == 403
                    &&& e.message@
                        == "You do not have permission to access this resource."@
                },
            },
    {
        match self.role_assignments.get(msg.collection_id, msg.principal_id) {
            Some(a) => Ok(a.clone()),
            None => Err(
                APIError::new(
                    403,
                    "Forbidden",
                    "You do not have permission to access this resource.",
                ),
            ),
        }
    }

    /// Lists every role assignment on a collection.
    pub fn get_role_assignments(&self, msg: GetRoleAssignments) -> (r: Result<
        Vec<RoleAssignment>,
        APIError,
    >)
        requires
            self.wf(),
        ensures
            match r {
                Ok(v) => {
                    &&& has_partition(self.role_rows(), msg.collection_id)
                    &&& v@ == partition_of(self.role_rows(), msg.collection_id)
                },
                Err(e) => {
                    &&& !has_partition(self.role_rows(), msg.collection_id)
                    &&& e.code == 404
                },
            },
    {
        if !self.role_assignments.partition_exists(msg.collection_id) {
            return Err(
                APIError::new(
                    404,
                    "Not Found",
                    "The collection ID you provided could not be found. Please check it and try again.",
                ),
            );
        }
        let rows = self.role_assignments.partition(msg.collection_id);
        Ok(copy_role_assignments(rows))
    }

    /// Upserts a principal's role on a collection and returns it.
    pub fn store_role_assignment(&mut self, msg: StoreRoleAssignment) -> (r: Result<
        RoleAssignment,
        APIError,
    >)
        requires
            old(self).wf(),
        ensures
            final(self).wf(),
            r == Result::<RoleAssignment, APIError>::Ok(role_assignment_of(msg)),
            final(self).role_rows() == upsert_spec(
                old(self).role_rows(),
                role_assignment_of(msg),
            ),
            final(self).idea_rows() == old(self).idea_rows(),
            final(self).collection_rows() == old(self).collection_rows(),
            final(self).user_rows() == old(self).user_rows(),
            final(self).started_at_spec() == old(self).started_at_spec(),
    {
        let role_assignment = RoleAssignment {
            collection_id: msg.collection_id,
            user_id: msg.principal_id,
            role: msg.role,
        };
        let stored = role_assignment.clone();
        self.role_assignments.upsert(role_assignment);
        Ok(stored)
    }

    /// Removes a principal's role on a collection; absence is not-found.
    pub fn remove_role_assignment(&mut self, msg: RemoveRoleAssignment) -> (r: Result<
        (),
        APIError,
    >)
        requires
            old(self).wf(),
        ensures
            final(self).wf(),
            final(self).role_rows() == remove_spec(
                old(self).role_rows(),
                msg.collection_id,
                msg.principal_id,
            ),
            final(self).idea_rows() == old(self).idea_rows(),
            final(self).collection_rows() == old(self).collection_rows(),
            final(self).user_rows() == old(self).user_rows(),
            final(self).started_at_spec() == old(self).started_at_spec(),
            match r {
                Ok(_) => find_at(
                    old(self).role_rows(),
                    msg.collection_id,
                    msg.principal_id,
                ) is Some,
                Err(e) => {
                    &&& find_at(
                        old(self).role_rows(),
                        msg.collection_id,
                        msg.principal_id,
                    ) is None
                    &&& e.code == 404
                },
            },
    {
        if !self.role_assignments.partition_exists(msg.collection_id) {
            proof {
                lemma_find_idx_valid(self.role_rows(), msg.collection_id, msg.principal_id);
            }
            return Err(
                APIError::new(
                    404,
                    "Not Found",
                    "The collection ID you provided could not be found. Please check it and try again.",
                ),
            );
        }
        let removed = self.role_assignments.remove(msg.collection_id, msg.principal_id);
        if removed {
            Ok(())
        } else {
            Err(
                APIError::new(
                    404,
                    "Not Found",
                    "The principal ID you provided could not be found. This likely means that you do not yet have any collections.",
                ),
            )
        }
    }

    /// Looks a user up by email hash.
    pub fn get_user(&self, msg: GetUser) -> (r: Result<User, APIError>)
        requires
            self.wf(),
        ensures
            match r {
                Ok(u) => find_at(self.user_rows(), msg.email_hash, msg.email_hash) == Some(u),
                Err(e) => {
                    &&& find_at(self.user_rows(), msg.email_hash, msg.email_hash) is None
                    &&& e.code == 404
                },
            },
    {
        match self.users.get(msg.email_hash, msg.email_hash) {
            Some(u) => Ok(u.clone()),
            None => Err(
                APIError::new(
                    404,
                    "Not Found",
                    "No user could be found with the email hash you provided. Please check it and try again.",
                ),
            ),
        }
    }

    /// Upserts a user under their email hash and returns the stored value.
    pub fn store_user(&mut self, msg: StoreUser) -> (r: Result<User, APIError>)
        requires
            old(self).wf(),
        ensures
            final(self).wf(),
            r == Result::<User, APIError>::Ok(user_of(msg)),
            final(self).user_rows() == upsert_spec(old(self).user_rows(), user_of(msg)),
            final(self).idea_rows() == old(self).idea_rows(),
            final(self).collection_rows() == old(self).collection_rows(),
            final(self).role_rows() == old(self).role_rows(),
            final(self).started_at_spec() == old(self).started_at_spec(),
    {
        let user = User {
            principal_id: msg.principal_id,
            email_hash: msg.email_hash,
            first_name: msg.first_name,
        };
        let stored = user.clone();
        self.users.upsert(user);
        Ok(stored)
    }
}

/// A random draw over a filter that matches exactly one idea always
/// yields that idea: membership in a one-entry row is equality.
pub proof fn lemma_single_match_draw(m: Seq<Idea>, v: IdeaView)
    requires
        m.len() == 1,
        exists|k: int| 0 <= k < m.len() && v == (#[trigger] m[k])@,
    ensures
        v == m[0]@,
{
}

/// The single point of entry callers hold: the configured backend,
/// constructed once at process start and injected into every route.
pub struct GlobalState {
    pub store: MemoryStore,
}

impl GlobalState {
    pub fn new() -> (r: Self)
        ensures
            r.store.wf(),
            r.store.idea_rows() == Seq::<Idea>::empty(),
            r.store.collection_rows() == Seq::<Collection>::empty(),
            r.store.role_rows() == Seq::<RoleAssignment>::empty(),
            r.store.user_rows() == Seq::<User>::empty(),
    {
        GlobalState { store: MemoryStore::new() }
    }
}

} // verus!
