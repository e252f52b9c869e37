//! In-memory state of the migration caches: the WordPress-id to Strapi-id
//! mapping tables, the failed-comment and partial-article retry queues, and
//! the set of already migrated posts. Loading and persisting them is left to
//! the caller; every mutation here is stated over the resulting contents.
use std::collections::{HashMap, HashSet};

use vstd::prelude::*;

use crate::models::{CommentFailureRecord, PartialArticleRecord};
use crate::text::{chars_eq, chars_of, i64_decimal, int_decimal, parse_i64, parse_i64_spec, string_of};

verus! {

broadcast use vstd::std_specs::hash::group_hash_axioms;

#[derive(Debug, Clone, Copy, PartialEq, Eq, Structural)]
pub enum MappingType {
    Performer,
    Studio,
}

pub open spec fn mapping_type_name(t: MappingType) -> Seq<char> {
    match t {
        MappingType::Performer => "performer"@,
        MappingType::Studio => "studio"@,
    }
}

pub open spec fn parse_mapping_type_spec(s: Seq<char>) -> Option<MappingType> {
    if s == "performer"@ {
        Some(MappingType::Performer)
    } else if s == "studio"@ {
        Some(MappingType::Studio)
    } else {
        None
    }
}

impl MappingType {
    pub fn as_str(self) -> (r: &'static str)
        ensures
            r@ == mapping_type_name(self),
    {
        match self {
            MappingType::Performer => "performer",
            MappingType::Studio => "studio",
        }
    }

    pub fn parse(s: &str) -> (r: Option<Self>)
        ensures
            r == parse_mapping_type_spec(s@),
    {
        let v = chars_of(s);
        let p = chars_of("performer");
        let st = chars_of("studio");
        if chars_eq(&v, &p) {
            Some(MappingType::Performer)
        } else if chars_eq(&v, &st) {
            Some(MappingType::Studio)
        } else {
            None
        }
    }
}

/// Parsing the name of a mapping type gives the type back.
pub proof fn lemma_mapping_type_roundtrip(t: MappingType)
    ensures
        parse_mapping_type_spec(mapping_type_name(t)) == Some(t),
{
    reveal_strlit("performer");
    reveal_strlit("studio");
    if t == MappingType::Studio {
        assert("studio"@ != "performer"@) by {
            assert("studio"@[0] != "performer"@[0]);
        }
    }
}

#[derive(Debug, Clone)]
pub struct MappingEntry {
    pub kind: MappingType,
    pub document_id: String,
}

/// Abstract contents of the mapping tables.
pub struct MappingView {
    /// Performers and studios share one namespace of WordPress tag ids.
    pub performers_studios: Map<i64, (MappingType, Seq<char>)>,
    pub categories: Map<i64, Seq<char>>,
    pub sub_categories: Map<i64, Seq<char>>,
    pub admin_users: Map<i64, i64>,
    pub users: Map<i64, i64>,
    pub authors: Map<i64, i64>,
    /// Avatar image id (`IMG_N`) -> Strapi media id.
    pub images: Map<Seq<char>, i64>,
}

/// The map denoted by an association list, later entries winning.
pub open spec fn assoc_map(s: Seq<(String, i64)>) -> Map<Seq<char>, i64>
    decreases s.len(),
{
    if s.len() == 0 {
        Map::empty()
    } else {
        assoc_map(s.drop_last()).insert(s.last().0@, s.last().1)
    }
}

pub open spec fn keys_unique(s: Seq<(String, i64)>) -> bool {
    forall|i: int, j: int| 0 <= i < j < s.len() ==> s[i].0@ != s[j].0@
}

proof fn lemma_assoc_update(s: Seq<(String, i64)>, i: int, e: (String, i64))
    requires
        keys_unique(s),
        0 <= i < s.len(),
        s[i].0@ == e.0@,
    ensures
        assoc_map(s.update(i, e)) == assoc_map(s).insert(e.0@, e.1),
    decreases s.len(),
{
    let t = s.update(i, e);
    if i == s.len() - 1 {
        assert(t.drop_last() =~= s.drop_last());
        assert(assoc_map(t) =~= assoc_map(s).insert(e.0@, e.1));
    } else {
        assert(t.drop_last() =~= s.drop_last().update(i, e));
        lemma_assoc_update(s.drop_last(), i, e);
        assert(s.last().0@ != e.0@);
        assert(assoc_map(t) =~= assoc_map(s).insert(e.0@, e.1));
    }
}

proof fn lemma_assoc_lookup(s: Seq<(String, i64)>, i: int)
    requires
        keys_unique(s),
        0 <= i < s.len(),
    ensures
        assoc_map(s).contains_key(s[i].0@),
        assoc_map(s)[s[i].0@] == s[i].1,
    decreases s.len(),
{
    if i < s.len() - 1 {
        lemma_assoc_lookup(s.drop_last(), i);
        assert(s.last().0@ != s[i].0@);
    }
}

proof fn lemma_assoc_absent(s: Seq<(String, i64)>, k: Seq<char>)
    requires
        forall|i: int| 0 <= i < s.len() ==> s[i].0@ != k,
    ensures
        !assoc_map(s).contains_key(k),
    decreases s.len(),
{
    if s.len() > 0 {
        lemma_assoc_absent(s.drop_last(), k);
    }
}

/// Central WordPress-id -> Strapi-id mapping tables.
pub struct MappingCache {
    global_map: HashMap<i64, MappingEntry>,
    category_map: HashMap<i64, String>,
    sub_category_map: HashMap<i64, String>,
    admin_user_map: HashMap<i64, i64>,
    user_map: HashMap<i64, i64>,
    author_map: HashMap<i64, i64>,
    image_map: Vec<(String, i64)>,
}

pub open spec fn string_map_view(m: Map<i64, String>) -> Map<i64, Seq<char>> {
    m.map_values(|s: String| s@)
}

pub open spec fn entry_map_view(m: Map<i64, MappingEntry>) -> Map<i64, (MappingType, Seq<char>)> {
    m.map_values(|e: MappingEntry| (e.kind, e.document_id@))
}

/// Strapi user id used for comments whose author has no known mapping.
pub open spec fn fallback_user_id() -> i64 {
    3
}

impl MappingCache {
    /// Default Strapi user id used when no mapping is known.
    pub const FALLBACK_USER_ID: i64 = 3;

    pub closed spec fn view(&self) -> MappingView {
        MappingView {
            performers_studios: entry_map_view(self.global_map@),
            categories: string_map_view(self.category_map@),
            sub_categories: string_map_view(self.sub_category_map@),
            admin_users: self.admin_user_map@,
            users: self.user_map@,
            authors: self.author_map@,
            images: assoc_map(self.image_map@),
        }
    }

    pub closed spec fn wf(&self) -> bool {
        keys_unique(self.image_map@)
    }

    /// Empty tables.
    pub fn new() -> (r: Self)
        ensures
            r.wf(),
            r.view().performers_studios == Map::<i64, (MappingType, Seq<char>)>::empty(),
            r.view().categories == Map::<i64, Seq<char>>::empty(),
            r.view().sub_categories == Map::<i64, Seq<char>>::empty(),
            r.view().admin_users == Map::<i64, i64>::empty(),
            r.view().users == Map::<i64, i64>::empty(),
            r.view().authors == Map::<i64, i64>::empty(),
            r.view().images == Map::<Seq<char>, i64>::empty(),
    {
        let r = MappingCache {
            global_map: HashMap::new(),
            category_map: HashMap::new(),
            sub_category_map: HashMap::new(),
            admin_user_map: HashMap::new(),
            user_map: HashMap::new(),
            author_map: HashMap::new(),
            image_map: Vec::new(),
        };
        assert(r.view().performers_studios =~= Map::empty());
        assert(r.view().categories =~= Map::empty());
        assert(r.view().sub_categories =~= Map::empty());
        r
    }

    pub fn put_performer(&mut self, wp_id: i64, document_id: String)
        ensures
            final(self).wf() == old(self).wf(),
            final(self).view() == (MappingView {
                performers_studios: old(self).view().performers_studios.insert(
                    wp_id,
                    (MappingType::Performer, document_id@),
                ),
                ..old(self).view()
            }),
    {
        self.global_map.insert(wp_id, MappingEntry { kind: MappingType::Performer, document_id });
        assert(entry_map_view(self.global_map@) =~= entry_map_view(old(self).global_map@).insert(
            wp_id,
            (MappingType::Performer, document_id@),
        ));
    }

    pub fn put_studio(&mut self, wp_id: i64, document_id: String)
        ensures
            final(self).wf() == old(self).wf(),
            final(self).view() == (MappingView {
                performers_studios: old(self).view().performers_studios.insert(
                    wp_id,
                    (MappingType::Studio, document_id@),
                ),
                ..old(self).view()
            }),
    {
        self.global_map.insert(wp_id, MappingEntry { kind: MappingType::Studio, document_id });
        assert(entry_map_view(self.global_map@) =~= entry_map_view(old(self).global_map@).insert(
            wp_id,
            (MappingType::Studio, document_id@),
        ));
    }

    pub fn put_category(&mut self, wp_id: i64, document_id: String)
        ensures
            final(self).wf() == old(self).wf(),
            final(self).view() == (MappingView {
                categories: old(self).view().categories.insert(wp_id, document_id@),
                ..old(self).view()
            }),
    {
        self.category_map.insert(wp_id, document_id);
        assert(string_map_view(self.category_map@) =~= string_map_view(
            old(self).category_map@,
        ).insert(wp_id, document_id@));
    }

    pub fn put_sub_category(&mut self, wp_id: i64, document_id: String)
        ensures
            final(self).wf() == old(self).wf(),
            final(self).view() == (MappingView {
                sub_categories: old(self).view().sub_categories.insert(wp_id, document_id@),
                ..old(self).view()
            }),
    {
        self.sub_category_map.insert(wp_id, document_id);
        assert(string_map_view(self.sub_category_map@) =~= string_map_view(
            old(self).sub_category_map@,
        ).insert(wp_id, document_id@));
    }

    pub fn put_admin_user(&mut self, wp_id: i64, strapi_id: i64)
        ensures
            final(self).wf() == old(self).wf(),
            final(self).view() == (MappingView {
                admin_users: old(self).view().admin_users.insert(wp_id, strapi_id),
                ..old(self).view()
            }),
    {
        self.admin_user_map.insert(wp_id, strapi_id);
    }

    pub fn put_user(&mut self, wp_id: i64, strapi_id: i64)
        ensures
            final(self).wf() == old(self).wf(),
            final(self).view() == (MappingView {
                users: old(self).view().users.insert(wp_id, strapi_id),
                ..old(self).view()
            }),
    {
        self.user_map.insert(wp_id, strapi_id);
    }

    pub fn put_author_mapping(&mut self, wp_id: i64, strapi_id: i64)
        ensures
            final(self).wf() == old(self).wf(),
            final(self).view() == (MappingView {
                authors: old(self).view().authors.insert(wp_id, strapi_id),
                ..old(self).view()
            }),
    {
        self.author_map.insert(wp_id, strapi_id);
    }

    pub fn put_image(&mut self, image_id: String, strapi_media_id: i64)
        requires
            old(self).wf(),
        ensures
            final(self).wf(),
            final(self).view() == (MappingView {
                images: old(self).view().images.insert(image_id@, strapi_media_id),
                ..old(self).view()
            }),
    {
        let key = chars_of(image_id.as_str());
        let mut i: usize = 0;
        while i < self.image_map.len()
            invariant
                *self == *old(self),
                keys_unique(self.image_map@),
                key@ == image_id@,
                i <= self.image_map.len(),
                forall|k: int| 0 <= k < i ==> self.image_map@[k].0@ != image_id@,
            decreases self.image_map.len() - i,
        {
            let cur = chars_of(self.image_map[i].0.as_str());
            if chars_eq(&cur, &key) {
                let ghost s = self.image_map@;
                let ghost e = (image_id, strapi_media_id);
                proof {
                    lemma_assoc_update(s, i as int, e);
                }
                self.image_map.set(i, (image_id, strapi_media_id));
                assert(self.image_map@ == s.update(i as int, e));
                assert(keys_unique(self.image_map@));
                return;
            }
            i += 1;
        }
        let ghost s = self.image_map@;
        self.image_map.push((image_id, strapi_media_id));
        assert(self.image_map@.drop_last() == s);
        assert(keys_unique(self.image_map@));
        assert(assoc_map(self.image_map@) == assoc_map(s).insert(image_id@, strapi_media_id));
    }

    pub fn get_performer_document_id(&self, wp_id: i64) -> (r: Option<String>)
        ensures
            match r {
                Some(d) => self.view().performers_studios.contains_key(wp_id)
                    && self.view().performers_studios[wp_id] == (MappingType::Performer, d@),
                None => !(self.view().performers_studios.contains_key(wp_id)
                    && self.view().performers_studios[wp_id].0 == MappingType::Performer),
            },
    {
        match self.global_map.get(&wp_id) {
            Some(e) => {
                if e.kind == MappingType::Performer {
                    Some(e.document_id.clone())
                } else {
                    None
                }
            },
            None => None,
        }
    }

    pub fn get_studio_document_id(&self, wp_id: i64) -> (r: Option<String>)
        ensures
            match r {
                Some(d) => self.view().performers_studios.contains_key(wp_id)
                    && self.view().performers_studios[wp_id] == (MappingType::Studio, d@),
                None => !(self.view().performers_studios.contains_key(wp_id)
                    && self.view().performers_studios[wp_id].0 == MappingType::Studio),
            },
    {
        match self.global_map.get(&wp_id) {
            Some(e) => {
                if e.kind == MappingType::Studio {
                    Some(e.document_id.clone())
                } else {
                    None
                }
            },
            None => None,
        }
    }

    pub open spec fn category_document_id_spec(v: MappingView, wp_id: i64) -> Seq<char> {
        if v.sub_categories.contains_key(wp_id) {
            v.sub_categories[wp_id]
        } else if v.categories.contains_key(wp_id) {
            v.categories[wp_id]
        } else {
            Seq::empty()
        }
    }

    /// Sub-category document id of a WordPress category, else its category
    /// document id, else empty.
    pub fn get_category_document_id(&self, wp_id: i64) -> (r: String)
        ensures
            r@ == Self::category_document_id_spec(self.view(), wp_id),
    {
        match self.sub_category_map.get(&wp_id) {
            Some(d) => d.clone(),
            None => match self.category_map.get(&wp_id) {
                Some(d) => d.clone(),
                None => String::new(),
            },
        }
    }

    pub open spec fn author_document_id_spec(v: MappingView, wp_id: i64) -> Seq<char> {
        if v.authors.contains_key(wp_id) {
            int_decimal(v.authors[wp_id] as int)
        } else {
            Seq::empty()
        }
    }

    /// The Strapi author id of a WordPress author in decimal, or empty when unknown.
    pub fn get_author_document_id(&self, wp_id: i64) -> (r: String)
        ensures
            r@ == Self::author_document_id_spec(self.view(), wp_id),
    {
        match self.author_map.get(&wp_id) {
            Some(v) => {
                let d = i64_decimal(*v);
                string_of(&d)
            },
            None => String::new(),
        }
    }

    pub open spec fn user_strapi_id_spec(v: MappingView, wp_id: i64) -> i64 {
        if v.users.contains_key(wp_id) {
            v.users[wp_id]
        } else if v.admin_users.contains_key(wp_id) {
            v.admin_users[wp_id]
        } else {
            fallback_user_id()
        }
    }

    /// The Strapi user id of a WordPress user: a regular-user mapping first, then
    /// an admin-user mapping, then the fallback user.
    pub fn get_user_strapi_id(&self, wp_id: i64) -> (r: i64)
        ensures
            r == Self::user_strapi_id_spec(self.view(), wp_id),
    {
        match self.user_map.get(&wp_id) {
            Some(v) => *v,
            None => match self.admin_user_map.get(&wp_id) {
                Some(v) => *v,
                None => Self::FALLBACK_USER_ID,
            },
        }
    }

    pub fn get_admin_user_strapi_id(&self, wp_id: i64) -> (r: Option<i64>)
        ensures
            r == (if self.view().admin_users.contains_key(wp_id) {
                Some(self.view().admin_users[wp_id])
            } else {
                None
            }),
    {
        match self.admin_user_map.get(&wp_id) {
            Some(v) => Some(*v),
            None => None,
        }
    }

    pub fn get_image_strapi_media_id(&self, image_id: &str) -> (r: Option<i64>)
        requires
            self.wf(),
        ensures
            r == (if self.view().images.contains_key(image_id@) {
                Some(self.view().images[image_id@])
            } else {
                None
            }),
    {
        let key = chars_of(image_id);
        for i in 0..self.image_map.len()
            invariant
                keys_unique(self.image_map@),
                key@ == image_id@,
                forall|k: int| 0 <= k < i ==> self.image_map@[k].0@ != image_id@,
        {
            let cur = chars_of(self.image_map[i].0.as_str());
            if chars_eq(&cur, &key) {
                proof {
                    lemma_assoc_lookup(self.image_map@, i as int);
                }
                return Some(self.image_map[i].1);
            }
        }
        proof {
            lemma_assoc_absent(self.image_map@, image_id@);
        }
        None
    }

    /// Performer and studio entries, for persisting.
    pub fn performer_studio_entries(&self) -> (r: &HashMap<i64, MappingEntry>)
        ensures
            entry_map_view(r@) == self.view().performers_studios,
    {
        &self.global_map
    }

    /// Category entries, for persisting.
    pub fn category_entries(&self) -> (r: &HashMap<i64, String>)
        ensures
            string_map_view(r@) == self.view().categories,
    {
        &self.category_map
    }

    /// Sub-category entries, for persisting.
    pub fn sub_category_entries(&self) -> (r: &HashMap<i64, String>)
        ensures
            string_map_view(r@) == self.view().sub_categories,
    {
        &self.sub_category_map
    }

    /// Admin-user entries, for persisting.
    pub fn admin_user_entries(&self) -> (r: &HashMap<i64, i64>)
        ensures
            r@ == self.view().admin_users,
    {
        &self.admin_user_map
    }

    /// Regular-user entries, for persisting.
    pub fn user_entries(&self) -> (r: &HashMap<i64, i64>)
        ensures
            r@ == self.view().users,
    {
        &self.user_map
    }

    /// Author entries, for persisting.
    pub fn author_entries(&self) -> (r: &HashMap<i64, i64>)
        ensures
            r@ == self.view().authors,
    {
        &self.author_map
    }

    /// Image entries, for persisting; no image id occurs twice.
    pub fn image_entries(&self) -> (r: &Vec<(String, i64)>)
        requires
            self.wf(),
        ensures
            assoc_map(r@) == self.view().images,
            keys_unique(r@),
    {
        &self.image_map
    }
}

// ------------------------------------------------------------------
// Loading persisted tables
// ------------------------------------------------------------------

/// The entries of a persisted integer table whose key is a decimal id.
pub open spec fn int_entries(s: Seq<(String, i64)>) -> Seq<(i64, i64)>
    decreases s.len(),
{
    if s.len() == 0 {
        Seq::empty()
    } else {
        let rest = int_entries(s.drop_last());
        match parse_i64_spec(s.last().0@) {
            Some(k) => rest.push((k, s.last().1)),
            None => rest,
        }
    }
}

/// The entries of a persisted text table whose key is a decimal id.
pub open spec fn text_entries(s: Seq<(String, String)>) -> Seq<(i64, Seq<char>)>
    decreases s.len(),
{
    if s.len() == 0 {
        Seq::empty()
    } else {
        let rest = text_entries(s.drop_last());
        match parse_i64_spec(s.last().0@) {
            Some(k) => rest.push((k, s.last().1@)),
            None => rest,
        }
    }
}

/// The entries of the persisted performer/studio table: a decimal id and an
/// object whose `documentId` (default empty) and `type` (default performer)
/// are read.
pub open spec fn kind_entries(s: Seq<(String, Option<(Option<String>, Option<String>)>)>) -> Seq<
    (i64, (MappingType, Seq<char>)),
>
    decreases s.len(),
{
    if s.len() == 0 {
        Seq::empty()
    } else {
        let rest = kind_entries(s.drop_last());
        match (parse_i64_spec(s.last().0@), s.last().1) {
            (Some(k), Some((doc, kind))) => rest.push(
                (
                    k,
                    (
                        match kind {
                            Some(t) => match parse_mapping_type_spec(t@) {
                                Some(m) => m,
                                None => MappingType::Performer,
                            },
                            None => MappingType::Performer,
                        },
                        match doc {
                            Some(d) => d@,
                            None => Seq::empty(),
                        },
                    ),
                ),
            ),
            _ => rest,
        }
    }
}

pub open spec fn insert_all<V>(m: Map<i64, V>, s: Seq<(i64, V)>) -> Map<i64, V>
    decreases s.len(),
{
    if s.len() == 0 {
        m
    } else {
        insert_all(m, s.drop_last()).insert(s.last().0, s.last().1)
    }
}

pub proof fn lemma_insert_all_push<V>(m: Map<i64, V>, s: Seq<(i64, V)>, x: (i64, V))
    ensures
        insert_all(m, s.push(x)) == insert_all(m, s).insert(x.0, x.1),
{
    assert(s.push(x).drop_last() =~= s);
}

/// `m` with each avatar entry inserted in turn.
pub open spec fn insert_images(m: Map<Seq<char>, i64>, s: Seq<(String, i64)>) -> Map<Seq<char>, i64>
    decreases s.len(),
{
    if s.len() == 0 {
        m
    } else {
        insert_images(m, s.drop_last()).insert(s.last().0@, s.last().1)
    }
}

/// A table restored from disk.
#[derive(Debug, Clone, Copy, PartialEq, Eq, Structural)]
pub enum IdTable {
    AdminUsers,
    Users,
    Authors,
}

/// A table of document ids restored from disk.
#[derive(Debug, Clone, Copy, PartialEq, Eq, Structural)]
pub enum DocTable {
    Categories,
    SubCategories,
}

impl MappingCache {
    /// Adds the persisted performer/studio entries (see `kind_entries`).
    pub fn load_performers_studios(
        &mut self,
        entries: &Vec<(String, Option<(Option<String>, Option<String>)>)>,
    )
        ensures
            final(self).wf() == old(self).wf(),
            final(self).view() == (MappingView {
                performers_studios: insert_all(
                    old(self).view().performers_studios,
                    kind_entries(entries@),
                ),
                ..old(self).view()
            }),
    {
        for i in 0..entries.len()
            invariant
                self.wf() == old(self).wf(),
                self.view() == (MappingView {
                    performers_studios: insert_all(
                        old(self).view().performers_studios,
                        kind_entries(entries@.take(i as int)),
                    ),
                    ..old(self).view()
                }),
        {
            assert(entries@.take(i + 1).drop_last() =~= entries@.take(i as int));
            let key = chars_of(entries[i].0.as_str());
            match (parse_i64(&key), &entries[i].1) {
                (Some(k), Some((doc, kind))) => {
                    let t = match kind {
                        Some(t) => match MappingType::parse(t.as_str()) {
                            Some(m) => m,
                            None => MappingType::Performer,
                        },
                        None => MappingType::Performer,
                    };
                    let d = match doc {
                        Some(d) => d.clone(),
                        None => String::new(),
                    };
                    proof {
                        lemma_insert_all_push(
                            old(self).view().performers_studios,
                            kind_entries(entries@.take(i as int)),
                            (k, (t, d@)),
                        );
                    }
                    match t {
                        MappingType::Performer => self.put_performer(k, d),
                        MappingType::Studio => self.put_studio(k, d),
                    }
                },
                _ => {},
            }
        }
        assert(entries@.take(entries.len() as int) =~= entries@);
    }

    /// Adds the persisted avatar entries (image id -> media id).
    pub fn load_images(&mut self, entries: &Vec<(String, i64)>)
        requires
            old(self).wf(),
        ensures
            final(self).wf(),
            final(self).view() == (MappingView {
                images: insert_images(old(self).view().images, entries@),
                ..old(self).view()
            }),
    {
        for i in 0..entries.len()
            invariant
                self.wf(),
                self.view() == (MappingView {
                    images: insert_images(old(self).view().images, entries@.take(i as int)),
                    ..old(self).view()
                }),
        {
            assert(entries@.take(i + 1).drop_last() =~= entries@.take(i as int));
            self.put_image(entries[i].0.clone(), entries[i].1);
        }
        assert(entries@.take(entries.len() as int) =~= entries@);
    }

    /// Adds the persisted entries of a document-id table (see `text_entries`).
    pub fn load_doc_table(&mut self, table: DocTable, entries: &Vec<(String, String)>)
        ensures
            final(self).wf() == old(self).wf(),
            final(self).view() == (match table {
                DocTable::Categories => MappingView {
                    categories: insert_all(old(self).view().categories, text_entries(entries@)),
                    ..old(self).view()
                },
                DocTable::SubCategories => MappingView {
                    sub_categories: insert_all(
                        old(self).view().sub_categories,
                        text_entries(entries@),
                    ),
                    ..old(self).view()
                },
            }),
    {
        for i in 0..entries.len()
            invariant
                self.wf() == old(self).wf(),
                self.view() == (match table {
                    DocTable::Categories => MappingView {
                        categories: insert_all(
                            old(self).view().categories,
                            text_entries(entries@.take(i as int)),
                        ),
                        ..old(self).view()
                    },
                    DocTable::SubCategories => MappingView {
                        sub_categories: insert_all(
                            old(self).view().sub_categories,
                            text_entries(entries@.take(i as int)),
                        ),
                        ..old(self).view()
                    },
                }),
        {
            assert(entries@.take(i + 1).drop_last() =~= entries@.take(i as int));
            let key = chars_of(entries[i].0.as_str());
            match parse_i64(&key) {
                Some(k) => match table {
                    DocTable::Categories => {
                        proof {
                            lemma_insert_all_push(
                                old(self).view().categories,
                                text_entries(entries@.take(i as int)),
                                (k, entries@[i as int].1@),
                            );
                        }
                        self.put_category(k, entries[i].1.clone())
                    },
                    DocTable::SubCategories => {
                        proof {
                            lemma_insert_all_push(
                                old(self).view().sub_categories,
                                text_entries(entries@.take(i as int)),
                                (k, entries@[i as int].1@),
                            );
                        }
                        self.put_sub_category(k, entries[i].1.clone())
                    },
                },
                None => {},
            }
        }
        assert(entries@.take(entries.len() as int) =~= entries@);
    }

    /// Adds the persisted entries of a Strapi-id table (see `int_entries`).
    pub fn load_id_table(&mut self, table: IdTable, entries: &Vec<(String, i64)>)
        ensures
            final(self).wf() == old(self).wf(),
            final(self).view() == (match table {
                IdTable::AdminUsers => MappingView {
                    admin_users: insert_all(old(self).view().admin_users, int_entries(entries@)),
                    ..old(self).view()
                },
                IdTable::Users => MappingView {
                    users: insert_all(old(self).view().users, int_entries(entries@)),
                    ..old(self).view()
                },
                IdTable::Authors => MappingView {
                    authors: insert_all(old(self).view().authors, int_entries(entries@)),
                    ..old(self).view()
                },
            }),
    {
        for i in 0..entries.len()
            invariant
                self.wf() == old(self).wf(),
                self.view() == (match table {
                    IdTable::AdminUsers => MappingView {
                        admin_users: insert_all(
                            old(self).view().admin_users,
                            int_entries(entries@.take(i as int)),
                        ),
                        ..old(self).view()
                    },
                    IdTable::Users => MappingView {
                        users: insert_all(old(self).view().users, int_entries(entries@.take(i as int))),
                        ..old(self).view()
                    },
                    IdTable::Authors => MappingView {
                        authors: insert_all(
                            old(self).view().authors,
                            int_entries(entries@.take(i as int)),
                        ),
                        ..old(self).view()
                    },
                }),
        {
            assert(entries@.take(i + 1).drop_last() =~= entries@.take(i as int));
            let key = chars_of(entries[i].0.as_str());
            match parse_i64(&key) {
                Some(k) => match table {
                    IdTable::AdminUsers => {
                        proof {
                            lemma_insert_all_push(
                                old(self).view().admin_users,
                                int_entries(entries@.take(i as int)),
                                (k, entries@[i as int].1),
                            );
                        }
                        self.put_admin_user(k, entries[i].1)
                    },
                    IdTable::Users => {
                        proof {
                            lemma_insert_all_push(
                                old(self).view().users,
                                int_entries(entries@.take(i as int)),
                                (k, entries@[i as int].1),
                            );
                        }
                        self.put_user(k, entries[i].1)
                    },
                    IdTable::Authors => {
                        proof {
                            lemma_insert_all_push(
                                old(self).view().authors,
                                int_entries(entries@.take(i as int)),
                                (k, entries@[i as int].1),
                            );
                        }
                        self.put_author_mapping(k, entries[i].1)
                    },
                },
                None => {},
            }
        }
        assert(entries@.take(entries.len() as int) =~= entries@);
    }
}

// ------------------------------------------------------------------
// Retry queues
// ------------------------------------------------------------------

/// Index of the first record with the given comment id, if any.
pub open spec fn first_comment_index(s: Seq<CommentFailureRecord>, id: i64) -> Option<int> {
    if exists|i: int| 0 <= i < s.len() && s[i].wp_comment_id == id {
        Some(
            choose|i: int|
                0 <= i < s.len() && s[i].wp_comment_id == id && forall|k: int|
                    0 <= k < i ==> s[k].wp_comment_id != id,
        )
    } else {
        None
    }
}

/// The queue after recording `r`: it replaces the first record of the same
/// comment, or is appended when the comment is not queued yet.
pub open spec fn upsert_comment_spec(
    s: Seq<CommentFailureRecord>,
    r: CommentFailureRecord,
) -> Seq<CommentFailureRecord> {
    match first_comment_index(s, r.wp_comment_id) {
        Some(i) => s.update(i, r),
        None => s.push(r),
    }
}

/// The queued records of one article, in queue order.
pub open spec fn records_of_post(s: Seq<CommentFailureRecord>, wp_post_id: i64) -> Seq<
    CommentFailureRecord,
>
    decreases s.len(),
{
    if s.len() == 0 {
        Seq::empty()
    } else if s.last().wp_post_id == wp_post_id {
        records_of_post(s.drop_last(), wp_post_id).push(s.last())
    } else {
        records_of_post(s.drop_last(), wp_post_id)
    }
}

/// Queue of comments that could not be posted.
pub struct FailedCommentsCache;

impl FailedCommentsCache {
    /// Records a failed comment in the loaded queue (replacing an earlier record of
    /// the same comment).
    pub fn save(records: &mut Vec<CommentFailureRecord>, record: &CommentFailureRecord)
        ensures
            final(records)@ == upsert_comment_spec(old(records)@, *record),
    {
        let mut i: usize = 0;
        while i < records.len()
            invariant
                records@ == old(records)@,
                i <= records.len(),
                forall|k: int| 0 <= k < i ==> records@[k].wp_comment_id != record.wp_comment_id,
            decreases records.len() - i,
        {
            if records[i].wp_comment_id == record.wp_comment_id {
                proof {
                    let j = choose|j: int|
                        0 <= j < records@.len() && records@[j].wp_comment_id == record.wp_comment_id
                            && forall|k: int| 0 <= k < j ==> records@[k].wp_comment_id != record.wp_comment_id;
                    assert(0 <= i < records@.len() && records@[i as int].wp_comment_id == record.wp_comment_id);
                    if j < i {
                        assert(records@[j].wp_comment_id != record.wp_comment_id);
                    } else if j > i {
                        assert(records@[i as int].wp_comment_id != record.wp_comment_id);
                    }
                    assert(j == i);
                }
                records.set(i, record.clone());
                return;
            }
            i += 1;
        }
        records.push(record.clone());
    }

    /// The queued records of one article.
    pub fn get_by_article(records: &Vec<CommentFailureRecord>, wp_post_id: i64) -> (r: Vec<
        CommentFailureRecord,
    >)
        ensures
            r@ == records_of_post(records@, wp_post_id),
    {
        let mut out: Vec<CommentFailureRecord> = Vec::new();
        for i in 0..records.len()
            invariant
                out@ == records_of_post(records@.take(i as int), wp_post_id),
        {
            assert(records@.take(i + 1).drop_last() == records@.take(i as int));
            if records[i].wp_post_id == wp_post_id {
                out.push(records[i].clone());
            }
        }
        assert(records@.take(records.len() as int) == records@);
        out
    }
}

/// Articles whose migration stopped part-way, keyed by WordPress post id.
pub struct PartialArticleCache;

impl PartialArticleCache {
    /// Records (or replaces) the partial state of an article.
    pub fn save(records: &mut HashMap<i64, PartialArticleRecord>, record: PartialArticleRecord)
        ensures
            final(records)@ == old(records)@.insert(record.wp_post_id, record),
    {
        let id = record.wp_post_id;
        records.insert(id, record);
    }

    /// Forgets the partial state of an article.
    pub fn remove(records: &mut HashMap<i64, PartialArticleRecord>, wp_post_id: i64)
        ensures
            final(records)@ == old(records)@.remove(wp_post_id),
    {
        records.remove(&wp_post_id);
    }
}

/// Set of WordPress post ids already migrated (idempotency tracker).
pub struct ProcessedPostTracker {
    set: HashSet<i64>,
}

impl ProcessedPostTracker {
    pub closed spec fn view(&self) -> Set<i64> {
        self.set@
    }

    /// The tracked set is finite.
    #[verifier::type_invariant]
    spec fn tracker_finite(&self) -> bool {
        self.set@.finite()
    }

    pub fn new() -> (r: Self)
        ensures
            r.view() == Set::<i64>::empty(),
    {
        ProcessedPostTracker { set: HashSet::new() }
    }

    /// A tracker holding the given ids (as loaded from disk).
    pub fn from_ids(ids: &Vec<i64>) -> (r: Self)
        ensures
            r.view() == ids@.to_set(),
            r.view().finite(),
    {
        let mut set: HashSet<i64> = HashSet::new();
        for i in 0..ids.len()
            invariant
                set@ == ids@.take(i as int).to_set(),
        {
            set.insert(ids[i]);
            let ghost a = ids@.take(i as int);
            let ghost b = ids@.take(i + 1);
            assert forall|y: i64| b.contains(y) <==> (a.contains(y) || y == ids@[i as int]) by {
                if b.contains(y) {
                    let k = choose|k: int| 0 <= k < b.len() && b[k] == y;
                    if k < i {
                        assert(a[k] == y);
                    }
                }
                if a.contains(y) {
                    let k = choose|k: int| 0 <= k < a.len() && a[k] == y;
                    assert(b[k] == y);
                }
                if y == ids@[i as int] {
                    assert(b[i as int] == y);
                }
            }
            assert(b.to_set() =~= a.to_set().insert(ids@[i as int]));
        }
        assert(ids@.take(ids.len() as int) == ids@);
        proof {
            vstd::seq_lib::seq_to_set_is_finite(ids@);
        }
        ProcessedPostTracker { set }
    }

    pub fn contains(&self, post_id: i64) -> (r: bool)
        ensures
            r == self.view().contains(post_id),
    {
        self.set.contains(&post_id)
    }

    /// Marks a post as migrated; returns whether it was new (and so the set must
    /// be persisted again).
    pub fn mark_processed(&mut self, post_id: i64) -> (r: bool)
        ensures
            final(self).view() == old(self).view().insert(post_id),
            r == !old(self).view().contains(post_id),
            final(self).view().finite(),
            final(self).view().len() == old(self).view().len() + if r {
                1int
            } else {
                0int
            },
    {
        proof {
            use_type_invariant(&*self);
            vstd::set::axiom_set_insert_len(self.set@, post_id);
            vstd::set::axiom_set_insert_finite(self.set@, post_id);
        }
        let mut set: HashSet<i64> = HashSet::new();
        std::mem::swap(&mut set, &mut self.set);
        let r = set.insert(post_id);
        self.set = set;
        r
    }

    /// Number of tracked posts.
    pub fn size(&self) -> (r: usize)
        ensures
            r == self.view().len(),
            self.view().finite(),
    {
        proof {
            use_type_invariant(self);
        }
        self.set.len()
    }

    /// The tracked ids, for persisting.
    pub fn ids(&self) -> (r: &HashSet<i64>)
        ensures
            r@ == self.view(),
    {
        &self.set
    }
}

} // verus!
