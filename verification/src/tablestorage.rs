//! The durable wide-column backend's own logic: the row form of each
//! entity, the comma-joined tag string, filter-query construction with
//! escaping, and the client-side re-check that corrects the remote
//! `contains` pre-filter.
//!
//! The network transport stays outside; every function here is a pure
//! step of the pipeline around it.

use vstd::prelude::*;

use crate::error::APIError;

use crate::strutil::{
    lemma_split_sep_concat, lemma_split_sep_free, push_char, split_sep, split_sep_exec, str_views,
};

verus! {

/// How str::split(',') cuts a string.
pub open spec fn split_commas(s: Seq<char>) -> Seq<Seq<char>> {
    split_sep(s, ',')
}


/// Keeps the non-empty pieces.
pub open spec fn non_empty() -> spec_fn(Seq<char>) -> bool {
    |t: Seq<char>| t.len() != 0
}

/// The non-empty pieces of a comma-joined string: the tag set a stored
/// row denotes.
pub open spec fn split_tags_of(s: Seq<char>) -> Seq<Seq<char>> {
    split_commas(s).filter(non_empty())
}

/// The stored form of a tag list: a comma before each tag, as the
/// durable backend writes it.
pub open spec fn joined_tags(tags: Seq<String>) -> Seq<char>
    decreases tags.len(),
{
    if tags.len() == 0 {
        Seq::empty()
    } else {
        joined_tags(tags.drop_last()) + seq![','] + tags.last()@
    }
}

/// The tags a stored row denotes: the non-empty pieces of its tag string.
pub fn split_tags(s: &str) -> (r: Vec<String>)
    ensures
        str_views(r@) == split_tags_of(s@),
{
    let parts = split_sep_exec(s, ',');
    let ghost whole = split_commas(s@);
    let mut out: Vec<String> = Vec::new();
    let mut i: usize = 0;
    while i < parts.len()
        invariant
            str_views(parts@) == whole,
            i <= parts@.len(),
            str_views(out@) == whole.take(i as int).filter(non_empty()),
        decreases parts@.len() - i,
    {
        let ghost prev = str_views(out@);
        if !parts[i].as_str().is_empty() {
            out.push(parts[i].clone());
        }
        proof {
            crate::table::lemma_filter_singleton(whole[i as int], non_empty());
            assert(whole.take(i + 1) =~= whole.take(i as int) + seq![whole[i as int]]);
            Seq::filter_distributes_over_add(whole.take(i as int), seq![whole[i as int]], non_empty());
            assert(whole[i as int] == parts@[i as int]@);
            if parts@[i as int]@.len() != 0 {
                assert(str_views(out@) =~= prev + seq![whole[i as int]]);
            } else {
                assert(str_views(out@) =~= prev);
            }
            assert(str_views(out@) =~= whole.take(i + 1).filter(non_empty()));
        }
        i += 1;
    }
    proof {
        assert(whole.take(parts@.len() as int) =~= whole);
    }
    out
}

/// Joins a tag list into its stored form.
pub fn join_tags(tags: &Vec<String>) -> (r: String)
    ensures
        r@ == joined_tags(tags@),
{
    let mut out = String::new();
    let mut i: usize = 0;
    while i < tags.len()
        invariant
            i <= tags@.len(),
            out@ == joined_tags(tags@.take(i as int)),
        decreases tags@.len() - i,
    {
        out.append(",");
        out.append(tags[i].as_str());
        proof {
            reveal_strlit(",");
            assert(","@ =~= seq![',']);
            let t = tags@.take(i + 1);
            assert(t.drop_last() =~= tags@.take(i as int));
            assert(t.last() == tags@[i as int]);
            assert(out@ =~= joined_tags(t));
        }
        i += 1;
    }
    proof {
        assert(tags@.take(tags@.len() as int) =~= tags@);
    }
    out
}

/// Whether the row's tag string holds the tag as one whole piece: the
/// exact membership test that corrects the remote substring pre-filter.
pub fn joined_contains_tag(joined: &str, tag: &str) -> (r: bool)
    ensures
        r == split_commas(joined@).contains(tag@),
{
    let parts = split_sep_exec(joined, ',');
    let ghost whole = split_commas(joined@);
    let mut i: usize = 0;
    while i < parts.len()
        invariant
            str_views(parts@) == whole,
            whole == split_commas(joined@),
            i <= parts@.len(),
            forall|j: int| 0 <= j < i ==> whole[j] != tag@,
        decreases parts@.len() - i,
    {
        if crate::strutil::str_eq(parts[i].as_str(), tag) {
            proof {
                assert(whole[i as int] == str_views(parts@)[i as int]);
                assert(whole[i as int] == tag@);
                assert(split_commas(joined@).contains(tag@));
            }
            return true;
        }
        i += 1;
    }
    proof {
        assert(forall|j: int| 0 <= j < whole.len() ==> whole[j] != tag@);
    }
    false
}

/// A string with every single quote doubled: the OData-filter escape.
pub open spec fn quote_escaped(s: Seq<char>) -> Seq<char>
    decreases s.len(),
{
    if s.len() == 0 {
        Seq::empty()
    } else {
        quote_escaped(s.drop_last()) + (if s.last() == '\'' {
            seq!['\'', '\'']
        } else {
            seq![s.last()]
        })
    }
}

/// A string with every percent sign spelt %25: the transport escape.
pub open spec fn pct_escaped(s: Seq<char>) -> Seq<char>
    decreases s.len(),
{
    if s.len() == 0 {
        Seq::empty()
    } else {
        pct_escaped(s.drop_last()) + (if s.last() == '%' {
            seq!['%', '2', '5']
        } else {
            seq![s.last()]
        })
    }
}

fn escape_quotes(s: &str) -> (r: String)
    ensures
        r@ == quote_escaped(s@),
{
    let len = s.unicode_len();
    let mut out = String::new();
    let mut i: usize = 0;
    while i < len
        invariant
            len == s@.len(),
            i <= len,
            out@ == quote_escaped(s@.take(i as int)),
        decreases len - i,
    {
        let c = s.get_char(i);
        push_char(&mut out, c);
        if c == '\'' {
            push_char(&mut out, '\'');
        }
        proof {
            let t = s@.take(i + 1);
            assert(t.drop_last() =~= s@.take(i as int));
            assert(t.last() == s@[i as int]);
            assert(out@ =~= quote_escaped(t));
        }
        i += 1;
    }
    proof {
        assert(s@.take(len as int) =~= s@);
    }
    out
}

fn escape_percents(s: &str) -> (r: String)
    ensures
        r@ == pct_escaped(s@),
{
    let len = s.unicode_len();
    let mut out = String::new();
    let mut i: usize = 0;
    while i < len
        invariant
            len == s@.len(),
            i <= len,
            out@ == pct_escaped(s@.take(i as int)),
        decreases len - i,
    {
        let c = s.get_char(i);
        if c == '%' {
            push_char(&mut out, '%');
            push_char(&mut out, '2');
            push_char(&mut out, '5');
        } else {
            push_char(&mut out, c);
        }
        proof {
            let t = s@.take(i + 1);
            assert(t.drop_last() =~= s@.take(i as int));
            assert(t.last() == s@[i as int]);
            assert(out@ =~= pct_escaped(t));
        }
        i += 1;
    }
    proof {
        assert(s@.take(len as int) =~= s@);
    }
    out
}

/// A user-supplied string as it may stand inside a filter expression:
/// quotes doubled first, percent signs encoded second.
pub open spec fn filter_escaped(s: Seq<char>) -> Seq<char> {
    pct_escaped(quote_escaped(s))
}

/// The filter expression for an idea query: the collection is always
/// required; the completion flag and the tag are appended with `and`.
pub open spec fn idea_query_of(
    partition_key: u128,
    is_completed: Option<bool>,
    tag: Option<String>,
) -> Seq<char> {
    "PartitionKey eq '"@ + crate::ident::hex32_of(partition_key) + "'"@ + (match is_completed {
        Some(c) => (if c {
            " and Completed eq true"@
        } else {
            " and Completed eq false"@
        }),
        None => Seq::<char>::empty(),
    }) + (match tag {
        Some(t) => " and contains(Tags, '"@ + filter_escaped(t@) + "')"@,
        None => Seq::<char>::empty(),
    })
}

/// Builds the remote filter query for an idea listing, escaping the
/// user-supplied tag at both levels.
pub fn build_idea_filter_query(
    partition_key: u128,
    is_completed: Option<bool>,
    tag: Option<String>,
) -> (r: String)
    ensures
        r@ == idea_query_of(partition_key, is_completed, tag),
{
    let mut query = String::from_str("PartitionKey eq '");
    query.append(crate::ident::hex32(partition_key).as_str());
    query.append("'");
    match &is_completed {
        Some(c) => {
            if *c {
                query.append(" and Completed eq true");
            } else {
                query.append(" and Completed eq false");
            }
        },
        None => {},
    }
    match &tag {
        Some(t) => {
            query.append(" and contains(Tags, '");
            let escaped = escape_percents(escape_quotes(t.as_str()).as_str());
            query.append(escaped.as_str());
            query.append("')");
        },
        None => {},
    }
    query
}

/// A tag can be stored faithfully when it is non-empty and holds no
/// comma, the join separator.
pub open spec fn tag_storable(t: Seq<char>) -> bool {
    t.len() > 0 && forall|i: int| 0 <= i < t.len() ==> t[i] != ','
}

/// Joining a list of storable tags and splitting the result yields the
/// same tags back, in order: the tag codec round-trips.
pub proof fn lemma_tags_round_trip(tags: Seq<String>)
    requires
        forall|i: int| 0 <= i < tags.len() ==> tag_storable((#[trigger] tags[i])@),
    ensures
        split_tags_of(joined_tags(tags)) == str_views(tags),
    decreases tags.len(),
{
    if tags.len() == 0 {
        crate::table::lemma_filter_singleton(Seq::<char>::empty(), non_empty());
        assert(split_commas(joined_tags(tags)) =~= seq![Seq::<char>::empty()]);
        assert(split_tags_of(joined_tags(tags)) =~= str_views(tags));
    } else {
        let dl = tags.drop_last();
        let last = tags.last()@;
        assert(forall|i: int| 0 <= i < dl.len() ==> tag_storable((#[trigger] dl[i])@));
        lemma_tags_round_trip(dl);
        lemma_split_sep_concat(joined_tags(dl), ',', last);
        assert(tag_storable(last));
        lemma_split_sep_free(last, ',');
        Seq::filter_distributes_over_add(
            split_commas(joined_tags(dl)),
            seq![last],
            non_empty(),
        );
        crate::table::lemma_filter_singleton(last, non_empty());
        assert(split_tags_of(joined_tags(tags)) == split_tags_of(joined_tags(dl)) + seq![last]);
        assert(str_views(dl) + seq![last] =~= str_views(tags));
    }
}

/// The physical row of an idea: both keys in 32-digit form, the tags as
/// one comma-joined string.
pub struct TableStorageIdea {
    pub collection_id: String,
    pub id: String,
    pub name: String,
    pub description: String,
    pub tags: String,
    pub completed: bool,
}

pub struct TableStorageCollection {
    pub principal_id: String,
    pub collection_id: String,
    pub name: String,
}

pub struct TableStorageRoleAssignment {
    pub collection_id: String,
    pub principal_id: String,
    pub role: String,
}

pub struct TableStorageUser {
    pub email_hash: String,
    pub row_key: String,
    pub principal_id: String,
    pub first_name: String,
}

/// The identifier a stored key string denotes; an unreadable key falls
/// back to zero, as the entity conversions always have.
pub open spec fn parsed_id(s: Seq<char>) -> u128 {
    if crate::ident::parse_hex_ok(s) {
        crate::ident::hex_value_of(crate::ident::hex_digits_of(s)) as u128
    } else {
        0
    }
}

fn parse_id(s: &str) -> (r: u128)
    ensures
        r == parsed_id(s@),
{
    match crate::ident::parse_hex_u128(s) {
        Some(v) => v,
        None => 0,
    }
}

/// The set of tags a row of pieces denotes.
pub open spec fn set_of_parts(parts: Seq<Seq<char>>) -> Set<Seq<char>> {
    Set::new(|t: Seq<char>| parts.contains(t))
}

/// A tag list and its views denote one set.
proof fn lemma_tag_set_as_parts(tags: Seq<String>)
    ensures
        crate::models::tag_set(tags) == set_of_parts(str_views(tags)),
{
    assert forall|t: Seq<char>|
        crate::models::tag_set(tags).contains(t) == set_of_parts(str_views(tags)).contains(
            t,
        ) by {
        if crate::models::tag_set(tags).contains(t) {
            let i = choose|i: int| 0 <= i < tags.len() && tags[i]@ == t;
            assert(str_views(tags)[i] == t);
        }
        if set_of_parts(str_views(tags)).contains(t) {
            let i = choose|i: int| 0 <= i < str_views(tags).len() && str_views(tags)[i] == t;
            assert(tags[i]@ == t);
        }
    }
    assert(crate::models::tag_set(tags) =~= set_of_parts(str_views(tags)));
}

/// Writes a store-idea request in its physical row form.
pub fn idea_row_of_store(msg: &crate::models::StoreIdea) -> (r: TableStorageIdea)
    ensures
        r.collection_id@ == crate::ident::hex32_of(msg.collection),
        r.id@ == crate::ident::hex32_of(msg.id),
        r.name@ == msg.name@,
        r.description@ == msg.description@,
        r.tags@ == joined_tags(msg.tags@),
        r.completed == msg.completed,
{
    TableStorageIdea {
        collection_id: crate::ident::hex32(msg.collection),
        id: crate::ident::hex32(msg.id),
        name: msg.name.clone(),
        description: msg.description.clone(),
        tags: join_tags(&msg.tags),
        completed: msg.completed,
    }
}

/// Reads an idea out of its physical row: keys are parsed, the tag
/// string is split and deduplicated.
/// The idea a physical row denotes.
pub open spec fn idea_view_of_row(row: TableStorageIdea) -> crate::models::IdeaView {
    crate::models::IdeaView {
        id: parsed_id(row.id@),
        collection_id: parsed_id(row.collection_id@),
        name: row.name@,
        description: row.description@,
        tags: set_of_parts(split_tags_of(row.tags@)),
        completed: row.completed,
    }
}

pub fn idea_from_row(row: &TableStorageIdea) -> (r: crate::models::Idea)
    ensures
        r.wf(),
        r@ == idea_view_of_row(*row),
{
    let parts = split_tags(row.tags.as_str());
    let ghost parts0 = parts@;
    let tags = crate::models::normalize_tags(parts);
    proof {
        lemma_tag_set_as_parts(parts0);
        assert(crate::models::tag_set(tags@) == set_of_parts(split_tags_of(row.tags@)));
    }
    crate::models::Idea {
        id: parse_id(row.id.as_str()),
        collection_id: parse_id(row.collection_id.as_str()),
        name: row.name.clone(),
        description: row.description.clone(),
        tags,
        completed: row.completed,
    }
}

/// Storing an idea row and reading it back keeps every field: the keys
/// parse back to the identifiers, and the tag string splits back to the
/// stored tag set, whenever each tag is non-empty and comma-free.
pub proof fn lemma_idea_codec_round_trip(msg: crate::models::StoreIdea)
    requires
        forall|i: int| 0 <= i < msg.tags@.len() ==> tag_storable((#[trigger] msg.tags@[i])@),
    ensures
        parsed_id(crate::ident::hex32_of(msg.id)) == msg.id,
        parsed_id(crate::ident::hex32_of(msg.collection)) == msg.collection,
        set_of_parts(split_tags_of(joined_tags(msg.tags@))) == crate::models::tag_set(msg.tags@),
{
    crate::ident::lemma_hex32_round_trip(msg.id);
    crate::ident::lemma_hex32_round_trip(msg.collection);
    lemma_tags_round_trip(msg.tags@);
    lemma_tag_set_as_parts(msg.tags@);
}

pub fn collection_row_of_store(msg: &crate::models::StoreCollection) -> (r: TableStorageCollection)
    ensures
        r.principal_id@ == crate::ident::hex32_of(msg.principal_id),
        r.collection_id@ == crate::ident::hex32_of(msg.collection_id),
        r.name@ == msg.name@,
{
    TableStorageCollection {
        principal_id: crate::ident::hex32(msg.principal_id),
        collection_id: crate::ident::hex32(msg.collection_id),
        name: msg.name.clone(),
    }
}

pub fn collection_from_row(row: &TableStorageCollection) -> (r: crate::models::Collection)
    ensures
        r.collection_id == parsed_id(row.collection_id@),
        r.user_id == parsed_id(row.principal_id@),
        r.name@ == row.name@,
{
    crate::models::Collection {
        collection_id: parse_id(row.collection_id.as_str()),
        user_id: parse_id(row.principal_id.as_str()),
        name: row.name.clone(),
    }
}

pub fn role_assignment_row_of_store(msg: &crate::models::StoreRoleAssignment) -> (r:
    TableStorageRoleAssignment)
    ensures
        r.collection_id@ == crate::ident::hex32_of(msg.collection_id),
        r.principal_id@ == crate::ident::hex32_of(msg.principal_id),
        r.role@ == msg.role.name_spec(),
{
    TableStorageRoleAssignment {
        collection_id: crate::ident::hex32(msg.collection_id),
        principal_id: crate::ident::hex32(msg.principal_id),
        role: msg.role.name(),
    }
}

pub fn role_assignment_from_row(row: &TableStorageRoleAssignment) -> (r:
    crate::models::RoleAssignment)
    ensures
        r.collection_id == parsed_id(row.collection_id@),
        r.user_id == parsed_id(row.principal_id@),
        r.role == crate::models::Role::parse_spec(row.role@),
{
    crate::models::RoleAssignment {
        collection_id: parse_id(row.collection_id.as_str()),
        user_id: parse_id(row.principal_id.as_str()),
        role: crate::models::Role::parse(row.role.as_str()),
    }
}

pub fn user_row_of_store(msg: &crate::models::StoreUser) -> (r: TableStorageUser)
    ensures
        r.email_hash@ == crate::ident::hex32_of(msg.email_hash),
        r.row_key@ == crate::ident::hex32_of(msg.email_hash),
        r.principal_id@ == crate::ident::hex32_of(msg.principal_id),
        r.first_name@ == msg.first_name@,
{
    TableStorageUser {
        email_hash: crate::ident::hex32(msg.email_hash),
        row_key: crate::ident::hex32(msg.email_hash),
        principal_id: crate::ident::hex32(msg.principal_id),
        first_name: msg.first_name.clone(),
    }
}

pub fn user_from_row(row: &TableStorageUser) -> (r: crate::models::User)
    ensures
        r.email_hash == parsed_id(row.email_hash@),
        r.principal_id == parsed_id(row.principal_id@),
        r.first_name@ == row.first_name@,
{
    crate::models::User {
        email_hash: parse_id(row.email_hash.as_str()),
        principal_id: parse_id(row.principal_id.as_str()),
        first_name: row.first_name.clone(),
    }
}

/// Whether a row passes the exact tag re-check: an unset or empty tag
/// accepts every row; otherwise the row's tag string must hold the tag
/// as one whole piece. A tag that is merely a substring of a stored tag
/// fails this, whatever the remote pre-filter returned.
pub open spec fn row_passes_recheck(row: TableStorageIdea, tag: Option<String>) -> bool {
    match tag {
        Some(t) => t@.len() == 0 || split_commas(row.tags@).contains(t@),
        None => true,
    }
}

/// The re-check as a predicate over rows.
pub open spec fn recheck_of(tag: Option<String>) -> spec_fn(TableStorageIdea) -> bool {
    |row: TableStorageIdea| row_passes_recheck(row, tag)
}

/// Applies the client-side re-check to the accumulated pages: only rows
/// whose tag set exactly contains the queried tag stay.
pub fn recheck_idea_rows(rows: Vec<TableStorageIdea>, tag: &Option<String>) -> (r: Vec<
    TableStorageIdea,
>)
    ensures
        r@ == rows@.filter(recheck_of(*tag)),
{
    let ghost q = recheck_of(*tag);
    let n = rows.len();
    let mut out: Vec<TableStorageIdea> = Vec::new();
    let mut i: usize = 0;
    while i < n
        invariant
            n == rows@.len(),
            i <= n,
            q == recheck_of(*tag),
            out@ == rows@.take(i as int).filter(q),
        decreases n - i,
    {
        let ghost prev = out@;
        let row = &rows[i];
        let keep = match tag {
            Some(t) => t.as_str().is_empty() || joined_contains_tag(
                row.tags.as_str(),
                t.as_str(),
            ),
            None => true,
        };
        if keep {
            let copy = TableStorageIdea {
                collection_id: row.collection_id.clone(),
                id: row.id.clone(),
                name: row.name.clone(),
                description: row.description.clone(),
                tags: row.tags.clone(),
                completed: row.completed,
            };
            proof {
                assert(copy == rows@[i as int]);
            }
            out.push(copy);
        }
        proof {
            assert(q(rows@[i as int]) == keep);
            crate::table::lemma_filter_singleton(rows@[i as int], q);
            assert(rows@.take(i + 1) =~= rows@.take(i as int) + seq![rows@[i as int]]);
            Seq::filter_distributes_over_add(rows@.take(i as int), seq![rows@[i as int]], q);
            if keep {
                assert(out@ =~= prev + seq![rows@[i as int]]);
            }
            assert(out@ =~= rows@.take(i + 1).filter(q));
        }
        i += 1;
    }
    proof {
        assert(rows@.take(n as int) =~= rows@);
    }
    out
}

/// Only exact tag membership survives the client-side re-check: every
/// row it keeps holds the queried tag as one whole piece, whatever
/// superset the remote substring pre-filter returned.
pub proof fn lemma_recheck_exact(rows: Seq<TableStorageIdea>, tag: String)
    requires
        tag@.len() != 0,
    ensures
        forall|k: int|
            0 <= k < rows.filter(recheck_of(Some(tag))).len() ==> split_commas(
                (#[trigger] rows.filter(recheck_of(Some(tag)))[k]).tags@,
            ).contains(tag@),
{
    let q = recheck_of(Some(tag));
    assert forall|k: int| 0 <= k < rows.filter(q).len() implies split_commas(
        (#[trigger] rows.filter(q)[k]).tags@,
    ).contains(tag@) by {
        Seq::lemma_filter_pred(rows, q, k);
        assert(row_passes_recheck(rows.filter(q)[k], Some(tag)));
    }
}

/// Draws one row uniformly at random from the accumulated, re-checked
/// set; an empty set is nothing to draw from.
pub fn pick_random_row(rows: &Vec<TableStorageIdea>) -> (r: Option<&TableStorageIdea>)
    ensures
        match r {
            Some(row) => exists|k: int| 0 <= k < rows@.len() && *row == #[trigger] rows@[k],
            None => rows@.len() == 0,
        },
{
    if rows.len() == 0 {
        None
    } else {
        let k = crate::wrappers::random_index(rows.len());
        let row = &rows[k];
        proof {
            assert(*row == rows@[k as int]);
        }
        Some(row)
    }
}

/// All the pages of one remote query, in order: the backend keeps
/// issuing continuation requests until no token remains, and the rows
/// accumulate before any filtering or selection.
pub open spec fn concat_pages<T>(pages: Seq<Seq<T>>) -> Seq<T>
    decreases pages.len(),
{
    if pages.len() == 0 {
        Seq::empty()
    } else {
        pages[0] + concat_pages(pages.skip(1))
    }
}

/// The rows of a row of pages.
pub open spec fn page_views<T>(pages: Seq<Vec<T>>) -> Seq<Seq<T>> {
    pages.map_values(|p: Vec<T>| p@)
}

/// Accumulates the pages of a query in order.
pub fn collect_pages<T>(pages: Vec<Vec<T>>) -> (r: Vec<T>)
    ensures
        r@ == concat_pages(page_views(pages@)),
{
    let ghost orig = page_views(pages@);
    let mut rest = pages;
    let mut out: Vec<T> = Vec::new();
    proof {
        assert(out@ + concat_pages(page_views(rest@)) =~= concat_pages(orig));
    }
    while rest.len() > 0
        invariant
            out@ + concat_pages(page_views(rest@)) == concat_pages(orig),
        decreases rest@.len(),
    {
        let ghost before = page_views(rest@);
        let ghost out0 = out@;
        let mut page = rest.remove(0);
        let ghost page0 = page@;
        out.append(&mut page);
        proof {
            assert(before[0] == page0);
            assert(page_views(rest@) =~= before.skip(1));
            assert(concat_pages(before) == before[0] + concat_pages(before.skip(1)));
            assert(out@ =~= out0 + page0);
            assert(out@ + concat_pages(page_views(rest@)) =~= concat_pages(orig));
        }
    }
    proof {
        assert(page_views(rest@) =~= Seq::<Seq<T>>::empty());
        assert(out@ =~= concat_pages(orig));
    }
    out
}

/// What came of one remote table call: the entity reference could not
/// even be built, the entity was not there, the call itself failed in
/// transit, or a value came back.
pub enum RemoteOutcome<T> {
    Returned(T),
    BadReference,
    Missing,
    CallFailed,
}

/// Maps a single-entity read's outcome: a bad reference is an internal
/// error; a missing entity, or a failed call, is whatever not-found
/// error the operation chose.
pub fn resolve_get<T>(outcome: RemoteOutcome<T>, not_found_err: APIError) -> (r: Result<
    T,
    APIError,
>)
    ensures
        match outcome {
            RemoteOutcome::Returned(v) => r == Result::<T, APIError>::Ok(v),
            RemoteOutcome::BadReference => r matches Err(e) && e.code == 500,
            RemoteOutcome::Missing => r == Result::<T, APIError>::Err(not_found_err),
            RemoteOutcome::CallFailed => r == Result::<T, APIError>::Err(not_found_err),
        },
{
    match outcome {
        RemoteOutcome::Returned(v) => Ok(v),
        RemoteOutcome::BadReference => Err(
            APIError::new(
                500,
                "Internal Server Error",
                "We were unable to retrieve the item you requested, this failure has been reported.",
            ),
        ),
        RemoteOutcome::Missing => Err(not_found_err),
        RemoteOutcome::CallFailed => Err(not_found_err),
    }
}

/// Maps an upsert's outcome: any failure of the call itself is
/// retryable service-unavailable (an upsert has no missing-entity
/// case); success returns the stored value unchanged.
pub fn resolve_store<T>(outcome: RemoteOutcome<T>) -> (r: Result<T, APIError>)
    ensures
        match outcome {
            RemoteOutcome::Returned(v) => r == Result::<T, APIError>::Ok(v),
            RemoteOutcome::BadReference => r matches Err(e) && e.code == 500,
            RemoteOutcome::Missing => r matches Err(e) && e.code == 503,
            RemoteOutcome::CallFailed => r matches Err(e) && e.code == 503,
        },
{
    match outcome {
        RemoteOutcome::Returned(v) => Ok(v),
        RemoteOutcome::BadReference => Err(
            APIError::new(
                500,
                "Internal Server Error",
                "We were unable to remove the item you requested, this failure has been reported.",
            ),
        ),
        RemoteOutcome::Missing => Err(
            APIError::new(
                503,
                "Service Unavailable",
                "We were unable to store the item you requested, this failure has been reported.",
            ),
        ),
        RemoteOutcome::CallFailed => Err(
            APIError::new(
                503,
                "Service Unavailable",
                "We were unable to store the item you requested, this failure has been reported.",
            ),
        ),
    }
}

/// Maps a delete's outcome: a missing entity is not-found, so removing
/// an already-removed key answers not-found however often it is tried;
/// only a transport failure is retryable service-unavailable.
pub fn resolve_remove(outcome: RemoteOutcome<()>) -> (r: Result<(), APIError>)
    ensures
        match outcome {
            RemoteOutcome::Returned(_) => r is Ok,
            RemoteOutcome::BadReference => r matches Err(e) && e.code == 500,
            RemoteOutcome::Missing => r matches Err(e) && e.code == 404 && e.error@
                == "Not Found"@,
            RemoteOutcome::CallFailed => r matches Err(e) && e.code == 503,
        },
{
    match outcome {
        RemoteOutcome::Returned(_) => Ok(()),
        RemoteOutcome::BadReference => Err(
            APIError::new(
                500,
                "Internal Server Error",
                "We were unable to remove the item you requested, this failure has been reported.",
            ),
        ),
        RemoteOutcome::Missing => Err(
            APIError::new(
                404,
                "Not Found",
                "The item you asked to remove could not be found. Please check it and try again.",
            ),
        ),
        RemoteOutcome::CallFailed => Err(
            APIError::new(
                503,
                "Service Unavailable",
                "We were unable to remove the item you requested, this failure has been reported.",
            ),
        ),
    }
}

/// The whole client side of a durable idea listing: the accumulated
/// pages pass the exact tag re-check, and the rows that stay are read
/// back as ideas, in order.
pub fn durable_get_ideas(pages: Vec<Vec<TableStorageIdea>>, tag: &Option<String>) -> (r: Vec<
    crate::models::Idea,
>)
    ensures
        ({
            let kept = concat_pages(page_views(pages@)).filter(recheck_of(*tag));
            &&& r@.len() == kept.len()
            &&& (forall|k: int|
                0 <= k < r@.len() ==> (#[trigger] r@[k])@ == idea_view_of_row(kept[k])
                    && r@[k].wf())
        }),
{
    let rows = collect_pages(pages);
    let kept = recheck_idea_rows(rows, tag);
    let ghost kept0 = kept@;
    let mut out: Vec<crate::models::Idea> = Vec::new();
    let mut i: usize = 0;
    while i < kept.len()
        invariant
            kept@ == kept0,
            i <= kept@.len(),
            out@.len() == i,
            forall|k: int|
                0 <= k < i ==> (#[trigger] out@[k])@ == idea_view_of_row(kept0[k])
                    && out@[k].wf(),
        decreases kept@.len() - i,
    {
        out.push(idea_from_row(&kept[i]));
        i += 1;
    }
    out
}

/// The whole client side of a durable random draw: one row drawn
/// uniformly from the accumulated, re-checked set, read back as an
/// idea; an empty set is nothing to draw from.
pub fn durable_get_random_idea(pages: Vec<Vec<TableStorageIdea>>, tag: &Option<String>) -> (r:
    Option<crate::models::Idea>)
    ensures
        ({
            let kept = concat_pages(page_views(pages@)).filter(recheck_of(*tag));
            match r {
                Some(i) => exists|k: int|
                    0 <= k < kept.len() && i@ == idea_view_of_row(#[trigger] kept[k]),
                None => kept.len() == 0,
            }
        }),
{
    let rows = collect_pages(pages);
    let kept = recheck_idea_rows(rows, tag);
    let ghost kept0 = kept@;
    match pick_random_row(&kept) {
        Some(row) => {
            let idea = idea_from_row(row);
            proof {
                let k = choose|k: int| 0 <= k < kept0.len() && *row == kept0[k];
                assert(idea@ == idea_view_of_row(kept0[k]));
            }
            Some(idea)
        },
        None => None,
    }
}

} // verus!
