//! The entity model: plain data records for ideas, collections, role
//! assignments, users and process health, together with the operation
//! descriptors that every backend answers.
//!
//! All identifiers are 128-bit values; they are rendered as 32-character
//! lowercase hexadecimal strings only at the boundary (see `ident`).

use vstd::prelude::*;

use crate::strutil::str_eq;

verus! {

/// The per-collection role that gates every cross-entity operation.
/// `Invalid` is the sentinel produced when a role string fails to parse;
/// it never authorizes a write.
#[derive(Clone, Copy, Debug, PartialEq, Eq, Structural)]
pub enum Role {
    Owner,
    Contributor,
    Viewer,
    Invalid,
}

impl Role {
    /// Which `Role` a stored role string denotes.
    pub open spec fn parse_spec(s: Seq<char>) -> Role {
        if s == "Owner"@ {
            Role::Owner
        } else if s == "Contributor"@ {
            Role::Contributor
        } else if s == "Viewer"@ {
            Role::Viewer
        } else {
            Role::Invalid
        }
    }

    /// The string form under which a role is stored.
    pub open spec fn name_spec(self) -> Seq<char> {
        match self {
            Role::Owner => "Owner"@,
            Role::Contributor => "Contributor"@,
            Role::Viewer => "Viewer"@,
            Role::Invalid => "INVALID"@,
        }
    }

    pub fn parse(s: &str) -> (r: Role)
        ensures
            r == Role::parse_spec(s@),
    {
        if str_eq(s, "Owner") {
            Role::Owner
        } else if str_eq(s, "Contributor") {
            Role::Contributor
        } else if str_eq(s, "Viewer") {
            Role::Viewer
        } else {
            Role::Invalid
        }
    }

    pub fn name(self) -> (r: String)
        ensures
            r@ == self.name_spec(),
    {
        match self {
            Role::Owner => "Owner".to_owned(),
            Role::Contributor => "Contributor".to_owned(),
            Role::Viewer => "Viewer".to_owned(),
            Role::Invalid => "INVALID".to_owned(),
        }
    }
}

/// The set of tag views denoted by a tag list.
pub open spec fn tag_set(tags: Seq<String>) -> Set<Seq<char>> {
    Set::new(|t: Seq<char>| exists|i: int| 0 <= i < tags.len() && tags[i]@ == t)
}

/// A tag list is well formed when it holds no duplicates.
pub open spec fn tags_wf(tags: Seq<String>) -> bool {
    forall|i: int, j: int| 0 <= i < j < tags.len() ==> tags[i]@ != tags[j]@
}

/// Whether `tag` occurs in the tag list.
pub fn has_tag(tags: &Vec<String>, tag: &str) -> (r: bool)
    ensures
        r == tag_set(tags@).contains(tag@),
{
    let mut i: usize = 0;
    while i < tags.len()
        invariant
            i <= tags@.len(),
            forall|j: int| 0 <= j < i ==> tags@[j]@ != tag@,
        decreases tags@.len() - i,
    {
        if str_eq(tags[i].as_str(), tag) {
            assert(tag_set(tags@).contains(tag@));
            return true;
        }
        i += 1;
    }
    assert(!tag_set(tags@).contains(tag@));
    false
}

/// Clones a tag list; the copy denotes the same sequence of tags.
pub fn clone_tags(tags: &Vec<String>) -> (r: Vec<String>)
    ensures
        r@ == tags@,
{
    let mut out: Vec<String> = Vec::new();
    let mut i: usize = 0;
    while i < tags.len()
        invariant
            i <= tags@.len(),
            out@.len() == i,
            forall|j: int| 0 <= j < i ==> out@[j] == tags@[j],
        decreases tags@.len() - i,
    {
        out.push(tags[i].clone());
        i += 1;
    }
    proof {
        assert(out@ =~= tags@);
    }
    out
}

/// Drops every tag that already occurred earlier in the list, so that the
/// result holds no duplicates while denoting the same set.
pub fn normalize_tags(tags: Vec<String>) -> (r: Vec<String>)
    ensures
        tags_wf(r@),
        tag_set(r@) == tag_set(tags@),
{
    let mut out: Vec<String> = Vec::new();
    let mut i: usize = 0;
    while i < tags.len()
        invariant
            i <= tags@.len(),
            tags_wf(out@),
            forall|t: Seq<char>| tag_set(out@).contains(t) == tag_set(tags@.take(i as int)).contains(t),
        decreases tags@.len() - i,
    {
        let ghost prev = out@;
        if !has_tag(&out, tags[i].as_str()) {
            out.push(tags[i].clone());
        }
        proof {
            assert(tags@.take(i + 1).len() == i + 1);
            assert(forall|j: int| 0 <= j < i + 1 ==> tags@.take(i + 1)[j] == tags@[j]);
            assert forall|t: Seq<char>|
                tag_set(out@).contains(t) == tag_set(tags@.take(i + 1)).contains(t) by {
                if tag_set(out@).contains(t) {
                    let k = choose|k: int| 0 <= k < out@.len() && out@[k]@ == t;
                    if k < prev.len() {
                        assert(tag_set(prev).contains(t));
                        let k2 = choose|k2: int|
                            0 <= k2 < i && #[trigger] tags@.take(i as int)[k2]@ == t;
                        assert(tags@.take(i + 1)[k2]@ == t);
                    } else {
                        assert(out@[k]@ == tags@[i as int]@);
                        assert(tags@.take(i + 1)[i as int]@ == t);
                    }
                }
                if tag_set(tags@.take(i + 1)).contains(t) {
                    let k = choose|k: int|
                        0 <= k < i + 1 && #[trigger] tags@.take(i + 1)[k]@ == t;
                    if k < i {
                        assert(tags@.take(i as int)[k]@ == t);
                        assert(tag_set(prev).contains(t));
                        if prev.len() < out@.len() {
                            let k2 = choose|k2: int| 0 <= k2 < prev.len() && prev[k2]@ == t;
                            assert(out@[k2]@ == t);
                        }
                        assert(tag_set(out@).contains(t));
                    } else {
                        assert(tags@[i as int]@ == t);
                        if tag_set(prev).contains(t) {
                            let k2 = choose|k2: int| 0 <= k2 < prev.len() && prev[k2]@ == t;
                            assert(out@[k2]@ == t);
                        } else {
                            assert(out@[out@.len() - 1]@ == t);
                        }
                    }
                }
            }
        }
        i += 1;
    }
    proof {
        assert(tags@.take(tags@.len() as int) =~= tags@);
        assert(tag_set(out@) =~= tag_set(tags@));
    }
    out
}

/// A versioned outward view of a stored state: each view type says
/// which of the state's fields it carries faithfully.
pub trait StateView<T>: Sized {
    /// Whether this view agrees with a state on every field it carries.
    spec fn models(&self, state: &T) -> bool;

    fn from_state(state: &T) -> (r: Self)
        ensures
            r.models(state),
    ;

    fn to_state(&self) -> (r: T)
        ensures
            self.models(&r),
    ;
}

/// An idea, owned by exactly one collection and keyed by
/// `(collection_id, id)`.
#[derive(Debug)]
pub struct Idea {
    pub id: u128,
    pub collection_id: u128,
    pub name: String,
    pub description: String,
    pub tags: Vec<String>,
    pub completed: bool,
}

/// The mathematical value of an `Idea`.
pub struct IdeaView {
    pub id: u128,
    pub collection_id: u128,
    pub name: Seq<char>,
    pub description: Seq<char>,
    pub tags: Set<Seq<char>>,
    pub completed: bool,
}

impl View for Idea {
    type V = IdeaView;

    open spec fn view(&self) -> IdeaView {
        IdeaView {
            id: self.id,
            collection_id: self.collection_id,
            name: self.name@,
            description: self.description@,
            tags: tag_set(self.tags@),
            completed: self.completed,
        }
    }
}

impl Idea {
    /// The tag list must not hold duplicates.
    pub open spec fn wf(&self) -> bool {
        tags_wf(self.tags@)
    }
}

/// A named bucket of ideas belonging to a user, keyed by
/// `(user_id, collection_id)`.
#[derive(Debug)]
pub struct Collection {
    pub collection_id: u128,
    pub user_id: u128,
    pub name: String,
}

pub struct CollectionView {
    pub collection_id: u128,
    pub user_id: u128,
    pub name: Seq<char>,
}

impl View for Collection {
    type V = CollectionView;

    open spec fn view(&self) -> CollectionView {
        CollectionView { collection_id: self.collection_id, user_id: self.user_id, name: self.name@ }
    }
}

/// The sole authorization record: at most one per
/// `(collection_id, user_id)` pair.
#[derive(Debug)]
pub struct RoleAssignment {
    pub user_id: u128,
    pub collection_id: u128,
    pub role: Role,
}

pub struct RoleAssignmentView {
    pub user_id: u128,
    pub collection_id: u128,
    pub role: Role,
}

impl View for RoleAssignment {
    type V = RoleAssignmentView;

    open spec fn view(&self) -> RoleAssignmentView {
        RoleAssignmentView {
            user_id: self.user_id,
            collection_id: self.collection_id,
            role: self.role,
        }
    }
}

/// A secondary lookup entity keyed by a hash of the user's email address.
#[derive(Debug)]
pub struct User {
    pub principal_id: u128,
    pub email_hash: u128,
    pub first_name: String,
}

pub struct UserView {
    pub principal_id: u128,
    pub email_hash: u128,
    pub first_name: Seq<char>,
}

impl View for User {
    type V = UserView;

    open spec fn view(&self) -> UserView {
        UserView {
            principal_id: self.principal_id,
            email_hash: self.email_hash,
            first_name: self.first_name@,
        }
    }
}

/// Process-lifetime metadata, not persisted across restarts. The start
/// time is a unix timestamp in milliseconds.
#[derive(Clone, Copy, Debug, PartialEq, Eq, Structural)]
pub struct Health {
    pub ok: bool,
    pub started_at: i64,
}

/// Relies on uuid's Uuid::new_v4: a fresh random identifier, read as
/// one big-endian 128-bit value. The generator masks in the version-4
/// nibble and the standard variant bits; the rest is random, so nothing
/// more is promised of the value.
#[verifier::external_body]
pub fn new_id() -> (r: u128)
    ensures
        (r >> 76) & 0xf == 4,
        (r >> 62) & 0x3 == 2,
{
    let id = uuid::Uuid::new_v4();
    u128::from_be_bytes(*id.as_bytes())
}

impl Clone for Idea {
    fn clone(&self) -> (r: Self)
        ensures
            r@ == self@,
            r.wf() == self.wf(),
            r.id == self.id,
            r.collection_id == self.collection_id,
    {
        let tags = clone_tags(&self.tags);
        Idea {
            id: self.id,
            collection_id: self.collection_id,
            name: self.name.clone(),
            description: self.description.clone(),
            tags,
            completed: self.completed,
        }
    }
}

impl Clone for Collection {
    fn clone(&self) -> (r: Self)
        ensures
            r == *self,
    {
        Collection {
            collection_id: self.collection_id,
            user_id: self.user_id,
            name: self.name.clone(),
        }
    }
}

impl Clone for RoleAssignment {
    fn clone(&self) -> (r: Self)
        ensures
            r == *self,
    {
        RoleAssignment {
            user_id: self.user_id,
            collection_id: self.collection_id,
            role: self.role,
        }
    }
}

impl Clone for User {
    fn clone(&self) -> (r: Self)
        ensures
            r == *self,
    {
        User {
            principal_id: self.principal_id,
            email_hash: self.email_hash,
            first_name: self.first_name.clone(),
        }
    }
}

/// The operation descriptors: one request type per (entity, verb) pair,
/// each answered by every backend.
pub struct GetHealth {}

pub struct GetIdea {
    pub id: u128,
    pub collection: u128,
}

pub struct GetIdeas {
    pub collection: u128,
    pub tag: Option<String>,
    pub is_completed: Option<bool>,
}

pub struct GetRandomIdea {
    pub collection: u128,
    pub tag: Option<String>,
    pub is_completed: Option<bool>,
}

pub struct StoreIdea {
    pub id: u128,
    pub collection: u128,
    pub name: String,
    pub description: String,
    pub tags: Vec<String>,
    pub completed: bool,
}

pub struct RemoveIdea {
    pub id: u128,
    pub collection: u128,
}

pub struct GetCollection {
    pub id: u128,
    pub principal_id: u128,
}

pub struct GetCollections {
    pub principal_id: u128,
}

pub struct StoreCollection {
    pub collection_id: u128,
    pub principal_id: u128,
    pub name: String,
}

pub struct RemoveCollection {
    pub id: u128,
    pub principal_id: u128,
}

pub struct GetRoleAssignment {
    pub collection_id: u128,
    pub principal_id: u128,
}

pub struct GetRoleAssignments {
    pub collection_id: u128,
}

pub struct StoreRoleAssignment {
    pub collection_id: u128,
    pub principal_id: u128,
    pub role: Role,
}

pub struct RemoveRoleAssignment {
    pub collection_id: u128,
    pub principal_id: u128,
}

pub struct GetUser {
    pub email_hash: u128,
}

pub struct StoreUser {
    pub email_hash: u128,
    pub principal_id: u128,
    pub first_name: String,
}

} // verus!
