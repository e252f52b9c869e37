//! The taxonomy phase that runs before the articles: performers and studios
//! read from CSV records, category groups read from JSON, the bookkeeping of
//! each creation in Strapi, and the reuse of one Strapi sub-category for the
//! sub-categories of a parent that share a slug.
use vstd::prelude::*;

use crate::cache::{MappingCache, MappingType, MappingView};
use crate::config::PreMigrationConfig;
use crate::models::{DsPerformer, DsStudio, ParentCategoryGroup, SubCategoryItem};
use crate::text::{chars_eq, chars_of, parse_i64, parse_i64_spec, string_of, trim_chars, trim_seq};

verus! {

/// The text of each field of a CSV record.
pub open spec fn record_text(record: Vec<String>) -> Seq<Seq<char>> {
    record@.map_values(|f: String| f@)
}

/// The text of CSV records.
pub open spec fn records_text(records: Seq<Vec<String>>) -> Seq<Seq<Seq<char>>> {
    records.map_values(|r: Vec<String>| record_text(r))
}

/// The records (header excluded, each a sequence of field texts) that the `csv`
/// crate reads from `data` with a header row and its default settings; `None`
/// when reading any record fails.
pub uninterp spec fn csv_records_of(data: Seq<u8>) -> Option<Seq<Seq<Seq<char>>>>;

/// Reads CSV bytes with `csv::ReaderBuilder::new().has_headers(true)` and
/// collects every record's fields as strings. The contract claims only that the
/// outcome is a function of the bytes, named `csv_records_of`: the records'
/// field texts when every record was read, `None` at the first error.
#[verifier::external_body]
pub fn csv_records(data: &[u8]) -> (r: Option<Vec<Vec<String>>>)
    ensures
        match r {
            Some(v) => csv_records_of(data@) == Some(records_text(v@)),
            None => csv_records_of(data@) is None,
        },
{
    let mut reader = csv::ReaderBuilder::new().has_headers(true).from_reader(data);
    let mut out = Vec::new();
    for rec in reader.records() {
        match rec {
            Ok(r) => out.push(r.iter().map(|f| f.to_string()).collect()),
            Err(_) => return None,
        }
    }
    Some(out)
}

/// Field `i` of a CSV record, empty when the record is shorter.
pub open spec fn csv_field(fields: Seq<Seq<char>>, i: int) -> Seq<char> {
    if 0 <= i < fields.len() {
        fields[i]
    } else {
        Seq::empty()
    }
}

/// A `id,name,slug` record (fields trimmed; an unparsable id counts as 0): kept
/// when the id is positive and the name is not empty.
pub open spec fn record_entity_spec(fields: Seq<Seq<char>>) -> Option<(i64, Seq<char>, Seq<char>)> {
    let id = match parse_i64_spec(trim_seq(csv_field(fields, 0))) {
        Some(v) => v,
        None => 0,
    };
    let name = trim_seq(csv_field(fields, 1));
    let slug = trim_seq(csv_field(fields, 2));
    if id > 0 && name.len() > 0 {
        Some((id, name, slug))
    } else {
        None
    }
}

/// The kept records, in order.
pub open spec fn records_spec(records: Seq<Seq<Seq<char>>>) -> Seq<(i64, Seq<char>, Seq<char>)>
    decreases records.len(),
{
    if records.len() == 0 {
        Seq::empty()
    } else {
        let rest = records_spec(records.drop_last());
        match record_entity_spec(records.last()) {
            Some(e) => rest.push(e),
            None => rest,
        }
    }
}

pub open spec fn performer_view(p: DsPerformer) -> (i64, Seq<char>, Seq<char>) {
    (p.id, p.name@, p.slug@)
}

pub open spec fn studio_view(s: DsStudio) -> (i64, Seq<char>, Seq<char>) {
    (s.id, s.name@, s.slug@)
}

fn field(fields: &Vec<String>, i: usize) -> (r: Vec<char>)
    ensures
        r@ == trim_seq(csv_field(record_text(*fields), i as int)),
{
    if i < fields.len() {
        let v = chars_of(fields[i].as_str());
        trim_chars(&v)
    } else {
        let v: Vec<char> = Vec::new();
        let t = trim_chars(&v);
        assert(v@ =~= Seq::<char>::empty());
        t
    }
}

fn record_entity(fields: &Vec<String>) -> (r: Option<(i64, String, String)>)
    ensures
        match r {
            Some((id, name, slug)) => record_entity_spec(record_text(*fields)) == Some(
                (id, name@, slug@),
            ),
            None => record_entity_spec(record_text(*fields)) is None,
        },
{
    let id = match parse_i64(&field(fields, 0)) {
        Some(v) => v,
        None => 0,
    };
    let name = field(fields, 1);
    let slug = field(fields, 2);
    if id > 0 && name.len() > 0 {
        Some((id, string_of(&name), string_of(&slug)))
    } else {
        None
    }
}

/// Performers of the CSV records (header excluded), see `record_entity_spec`.
pub fn performers_from_records(records: &Vec<Vec<String>>) -> (r: Vec<DsPerformer>)
    ensures
        r@.map_values(|p: DsPerformer| performer_view(p)) == records_spec(records_text(records@)),
{
    let mut out: Vec<DsPerformer> = Vec::new();
    for i in 0..records.len()
        invariant
            out@.map_values(|p: DsPerformer| performer_view(p)) == records_spec(
                records_text(records@.take(i as int)),
            ),
    {
        assert(records_text(records@.take(i + 1)).drop_last() =~= records_text(
            records@.take(i as int),
        ));
        assert(records_text(records@.take(i + 1)).last() == record_text(records@[i as int]));
        let ghost before = out@;
        match record_entity(&records[i]) {
            Some((id, name, slug)) => {
                let p = DsPerformer { id, name, slug };
                out.push(p);
                assert(out@.map_values(|p: DsPerformer| performer_view(p)) =~= before.map_values(
                    |p: DsPerformer| performer_view(p),
                ).push(performer_view(p)));
            },
            None => {},
        }
    }
    assert(records@.take(records.len() as int) =~= records@);
    out
}

/// Performers of a CSV file's bytes: `None` when the `csv` crate cannot read
/// every record, else the kept `id,name,slug` records (see `record_entity_spec`).
pub fn performers_from_csv(data: &[u8]) -> (r: Option<Vec<DsPerformer>>)
    ensures
        match r {
            Some(ps) => csv_records_of(data@) matches Some(recs) && ps@.map_values(
                |p: DsPerformer| performer_view(p),
            ) == records_spec(recs),
            None => csv_records_of(data@) is None,
        },
{
    match csv_records(data) {
        Some(records) => Some(performers_from_records(&records)),
        None => None,
    }
}

/// Studios of the CSV records (header excluded), see `record_entity_spec`.
pub fn studios_from_records(records: &Vec<Vec<String>>) -> (r: Vec<DsStudio>)
    ensures
        r@.map_values(|s: DsStudio| studio_view(s)) == records_spec(records_text(records@)),
{
    let mut out: Vec<DsStudio> = Vec::new();
    for i in 0..records.len()
        invariant
            out@.map_values(|s: DsStudio| studio_view(s)) == records_spec(
                records_text(records@.take(i as int)),
            ),
    {
        assert(records_text(records@.take(i + 1)).drop_last() =~= records_text(
            records@.take(i as int),
        ));
        assert(records_text(records@.take(i + 1)).last() == record_text(records@[i as int]));
        let ghost before = out@;
        match record_entity(&records[i]) {
            Some((id, name, slug)) => {
                let s = DsStudio { id, name, slug };
                out.push(s);
                assert(out@.map_values(|s: DsStudio| studio_view(s)) =~= before.map_values(
                    |s: DsStudio| studio_view(s),
                ).push(studio_view(s)));
            },
            None => {},
        }
    }
    assert(records@.take(records.len() as int) =~= records@);
    out
}

/// Studios of a CSV file's bytes: `None` when the `csv` crate cannot read every
/// record, else the kept `id,Studio,Slug` records (see `record_entity_spec`).
pub fn studios_from_csv(data: &[u8]) -> (r: Option<Vec<DsStudio>>)
    ensures
        match r {
            Some(ss) => csv_records_of(data@) matches Some(recs) && ss@.map_values(
                |s: DsStudio| studio_view(s),
            ) == records_spec(recs),
            None => csv_records_of(data@) is None,
        },
{
    match csv_records(data) {
        Some(records) => Some(studios_from_records(&records)),
        None => None,
    }
}

// ---------------- category groups ----------------

/// What the JSON of one sub-category holds.
#[derive(Debug, Clone)]
pub struct RawSubCategory {
    /// `WPCategoryId`, when an integer.
    pub wp_id: Option<i64>,
    /// `dsName`, `dsSlug`, `accessLevel`, when strings.
    pub name: Option<String>,
    pub slug: Option<String>,
    pub access_level: Option<String>,
}

/// What the JSON of one parent category holds.
#[derive(Debug, Clone)]
pub struct RawCategoryGroup {
    pub name: Option<String>,
    pub slug: Option<String>,
    pub access_level: Option<String>,
    /// The values of `SubCategories`, when it is an object.
    pub sub_categories: Option<Vec<RawSubCategory>>,
}

pub open spec fn text_or(o: Option<String>, dflt: Seq<char>) -> Seq<char> {
    match o {
        Some(s) => s@,
        None => dflt,
    }
}

pub open spec fn sub_view(s: SubCategoryItem) -> (i64, Seq<char>, Seq<char>, Seq<char>) {
    (s.wp_id, s.name@, s.slug@, s.access_level@)
}

pub open spec fn raw_sub_view(s: RawSubCategory) -> (i64, Seq<char>, Seq<char>, Seq<char>) {
    (
        match s.wp_id {
            Some(x) => x,
            None => 0,
        },
        text_or(s.name, Seq::empty()),
        text_or(s.slug, Seq::empty()),
        text_or(s.access_level, "Public"@),
    )
}

/// A group read from JSON: missing names and slugs are empty, a missing access
/// level is `Public`, and no Strapi document is known yet.
pub open spec fn group_ok(g: ParentCategoryGroup, raw: RawCategoryGroup) -> bool {
    &&& g.name@ == text_or(raw.name, Seq::empty())
    &&& g.slug@ == text_or(raw.slug, Seq::empty())
    &&& g.access_level@ == text_or(raw.access_level, "Public"@)
    &&& g.document_id@.len() == 0
    &&& g.sub_categories@.map_values(|s: SubCategoryItem| sub_view(s)) == match raw.sub_categories {
        Some(v) => v@.map_values(|s: RawSubCategory| raw_sub_view(s)),
        None => Seq::empty(),
    }
}

fn text_or_default(o: &Option<String>, dflt: &str) -> (r: String)
    ensures
        r@ == text_or(*o, dflt@),
{
    match o {
        Some(s) => s.clone(),
        None => dflt.to_owned(),
    }
}

/// The category groups of the taxonomy file, in order (see `group_ok`).
pub fn category_groups(raw: &Vec<RawCategoryGroup>) -> (r: Vec<ParentCategoryGroup>)
    ensures
        r@.len() == raw@.len(),
        forall|i: int| 0 <= i < raw@.len() ==> #[trigger] group_ok(r@[i], raw@[i]),
{
    proof {
        reveal_strlit("");
    }
    let mut out: Vec<ParentCategoryGroup> = Vec::new();
    for i in 0..raw.len()
        invariant
            out@.len() == i,
            ""@ == Seq::<char>::empty(),
            forall|k: int| 0 <= k < i ==> #[trigger] group_ok(out@[k], raw@[k]),
    {
        let g = &raw[i];
        let mut subs: Vec<SubCategoryItem> = Vec::new();
        match &g.sub_categories {
            Some(v) => {
                for j in 0..v.len()
                    invariant
                        subs@.len() == j,
                        ""@ == Seq::<char>::empty(),
                        forall|k: int| 0 <= k < j ==> sub_view(#[trigger] subs@[k]) == raw_sub_view(v@[k]),
                {
                    let s = &v[j];
                    subs.push(
                        SubCategoryItem {
                            wp_id: match s.wp_id {
                                Some(x) => x,
                                None => 0,
                            },
                            name: text_or_default(&s.name, ""),
                            slug: text_or_default(&s.slug, ""),
                            access_level: text_or_default(&s.access_level, "Public"),
                        },
                    );
                }
                assert(subs@.map_values(|s: SubCategoryItem| sub_view(s)) =~= v@.map_values(
                    |s: RawSubCategory| raw_sub_view(s),
                ));
            },
            None => {
                assert(subs@.map_values(|s: SubCategoryItem| sub_view(s)) =~= Seq::<
                    (i64, Seq<char>, Seq<char>, Seq<char>),
                >::empty());
            },
        }
        out.push(
            ParentCategoryGroup {
                name: text_or_default(&g.name, ""),
                slug: text_or_default(&g.slug, ""),
                access_level: text_or_default(&g.access_level, "Public"),
                sub_categories: subs,
                document_id: String::new(),
            },
        );
    }
    out
}

// ---------------- slug reuse ----------------

/// The document of `slug` among the pairs, later pairs winning.
pub open spec fn memo_get(s: Seq<(String, String)>, slug: Seq<char>) -> Option<Seq<char>>
    decreases s.len(),
{
    if s.len() == 0 {
        None
    } else if s.last().0@ == slug {
        Some(s.last().1@)
    } else {
        memo_get(s.drop_last(), slug)
    }
}

/// The Strapi documents already created for the sub-categories of one parent,
/// by slug.
#[derive(Debug, Clone)]
pub struct SlugMemo {
    pub entries: Vec<(String, String)>,
}

impl SlugMemo {
    pub fn new() -> (r: Self)
        ensures
            r.entries@.len() == 0,
    {
        SlugMemo { entries: Vec::new() }
    }

    /// The document created for `slug`, if any.
    pub fn lookup(&self, slug: &str) -> (r: Option<String>)
        ensures
            match r {
                Some(d) => memo_get(self.entries@, slug@) == Some(d@),
                None => memo_get(self.entries@, slug@) is None,
            },
    {
        let key = chars_of(slug);
        let mut i = self.entries.len();
        assert(self.entries@.take(i as int) =~= self.entries@);
        while i > 0
            invariant
                i <= self.entries@.len(),
                key@ == slug@,
                memo_get(self.entries@, slug@) == memo_get(self.entries@.take(i as int), slug@),
            decreases i,
        {
            assert(self.entries@.take(i as int).drop_last() =~= self.entries@.take(i - 1));
            let cur = chars_of(self.entries[i - 1].0.as_str());
            if chars_eq(&cur, &key) {
                return Some(self.entries[i - 1].1.clone());
            }
            i = i - 1;
        }
        None
    }

    /// Remembers the document created for `slug`.
    pub fn remember(&mut self, slug: String, document_id: String)
        ensures
            final(self).entries@ == old(self).entries@.push((slug, document_id)),
            memo_get(final(self).entries@, slug@) == Some(document_id@),
    {
        self.entries.push((slug, document_id));
    }
}

// ---------------- statistics ----------------

/// Counts of the taxonomy phase.
#[derive(Debug, Clone)]
pub struct PreMigrationStats {
    pub performers_created: i32,
    pub performers_failed: i32,
    pub studios_created: i32,
    pub studios_failed: i32,
    pub categories_created: i32,
    pub categories_failed: i32,
    pub sub_categories_created: i32,
    pub sub_categories_failed: i32,
    pub completed: bool,
    pub completion_message: String,
}

pub open spec fn stats_zero(s: PreMigrationStats) -> bool {
    &&& s.performers_created == 0
    &&& s.performers_failed == 0
    &&& s.studios_created == 0
    &&& s.studios_failed == 0
    &&& s.categories_created == 0
    &&& s.categories_failed == 0
    &&& s.sub_categories_created == 0
    &&& s.sub_categories_failed == 0
}

/// Whether the sub-categories of `parent` are created: when configured and the
/// parent has a Strapi document.
pub open spec fn wants_sub_categories_spec(cfg: PreMigrationConfig, parent: ParentCategoryGroup) -> bool {
    cfg.migrate_sub_categories && parent.document_id@.len() > 0
}

impl PreMigrationStats {
    /// Nothing done yet.
    pub fn new() -> (r: Self)
        ensures
            stats_zero(r),
            !r.completed,
            r.completion_message@.len() == 0,
    {
        PreMigrationStats {
            performers_created: 0,
            performers_failed: 0,
            studios_created: 0,
            studios_failed: 0,
            categories_created: 0,
            categories_failed: 0,
            sub_categories_created: 0,
            sub_categories_failed: 0,
            completed: false,
            completion_message: String::new(),
        }
    }

    /// The result of a run with the phase disabled: complete, nothing done.
    pub fn disabled() -> (r: Self)
        ensures
            stats_zero(r),
            r.completed,
            r.completion_message@ == "Pre-migration disabled"@,
    {
        let mut r = Self::new();
        r.completed = true;
        r.completion_message = "Pre-migration disabled".to_owned();
        r
    }

    /// Marks the phase complete; the counts are kept.
    pub fn finish(&mut self)
        ensures
            final(self).completed,
            final(self).completion_message@ == "Pre-migration completed successfully"@,
            stats_zero(*old(self)) == stats_zero(*final(self)),
            *final(self) == (PreMigrationStats {
                completed: true,
                completion_message: final(self).completion_message,
                ..*old(self)
            }),
    {
        self.completed = true;
        self.completion_message = "Pre-migration completed successfully".to_owned();
    }

    /// Records the creation of a performer: on success its document is mapped
    /// to its WordPress id.
    pub fn on_performer(&mut self, cache: &mut MappingCache, p: &DsPerformer, created: Option<String>)
        requires
            old(self).performers_created < i32::MAX,
            old(self).performers_failed < i32::MAX,
        ensures
            match created {
                Some(doc) => {
                    &&& final(cache).view() == (MappingView {
                        performers_studios: old(cache).view().performers_studios.insert(
                            p.id,
                            (MappingType::Performer, doc@),
                        ),
                        ..old(cache).view()
                    })
                    &&& *final(self) == (PreMigrationStats {
                        performers_created: (old(self).performers_created + 1) as i32,
                        ..*old(self)
                    })
                },
                None => {
                    &&& final(cache).view() == old(cache).view()
                    &&& *final(self) == (PreMigrationStats {
                        performers_failed: (old(self).performers_failed + 1) as i32,
                        ..*old(self)
                    })
                },
            },
            final(cache).wf() == old(cache).wf(),
    {
        match created {
            Some(doc) => {
                cache.put_performer(p.id, doc);
                self.performers_created = self.performers_created + 1;
            },
            None => {
                self.performers_failed = self.performers_failed + 1;
            },
        }
    }

    /// Records the creation of a studio: on success its document is mapped to
    /// its WordPress id.
    pub fn on_studio(&mut self, cache: &mut MappingCache, s: &DsStudio, created: Option<String>)
        requires
            old(self).studios_created < i32::MAX,
            old(self).studios_failed < i32::MAX,
        ensures
            match created {
                Some(doc) => {
                    &&& final(cache).view() == (MappingView {
                        performers_studios: old(cache).view().performers_studios.insert(
                            s.id,
                            (MappingType::Studio, doc@),
                        ),
                        ..old(cache).view()
                    })
                    &&& *final(self) == (PreMigrationStats {
                        studios_created: (old(self).studios_created + 1) as i32,
                        ..*old(self)
                    })
                },
                None => {
                    &&& final(cache).view() == old(cache).view()
                    &&& *final(self) == (PreMigrationStats {
                        studios_failed: (old(self).studios_failed + 1) as i32,
                        ..*old(self)
                    })
                },
            },
            final(cache).wf() == old(cache).wf(),
    {
        match created {
            Some(doc) => {
                cache.put_studio(s.id, doc);
                self.studios_created = self.studios_created + 1;
            },
            None => {
                self.studios_failed = self.studios_failed + 1;
            },
        }
    }

    /// Records the creation of a parent category: on success the group keeps
    /// its document and the document is mapped under WordPress id 0.
    pub fn on_category(
        &mut self,
        cache: &mut MappingCache,
        parent: &mut ParentCategoryGroup,
        created: Option<String>,
    )
        requires
            old(self).categories_created < i32::MAX,
            old(self).categories_failed < i32::MAX,
        ensures
            match created {
                Some(doc) => {
                    &&& final(parent).document_id == doc
                    &&& final(cache).view() == (MappingView {
                        categories: old(cache).view().categories.insert(0, doc@),
                        ..old(cache).view()
                    })
                    &&& *final(self) == (PreMigrationStats {
                        categories_created: (old(self).categories_created + 1) as i32,
                        ..*old(self)
                    })
                },
                None => {
                    &&& final(parent).document_id == old(parent).document_id
                    &&& final(cache).view() == old(cache).view()
                    &&& *final(self) == (PreMigrationStats {
                        categories_failed: (old(self).categories_failed + 1) as i32,
                        ..*old(self)
                    })
                },
            },
            *final(parent) == (ParentCategoryGroup {
                document_id: final(parent).document_id,
                ..*old(parent)
            }),
            final(cache).wf() == old(cache).wf(),
    {
        match created {
            Some(doc) => {
                parent.document_id = doc.clone();
                cache.put_category(0, doc);
                self.categories_created = self.categories_created + 1;
            },
            None => {
                self.categories_failed = self.categories_failed + 1;
            },
        }
    }

    /// Whether the sub-categories of `parent` are created next.
    pub fn wants_sub_categories(cfg: &PreMigrationConfig, parent: &ParentCategoryGroup) -> (r: bool)
        ensures
            r == wants_sub_categories_spec(*cfg, *parent),
    {
        cfg.migrate_sub_categories && !parent.document_id.as_str().is_empty()
    }

    /// A sub-category whose slug already has a document in this parent: it is
    /// mapped to that document and counted as created, with no request.
    pub fn reuse_sub_category(&mut self, cache: &mut MappingCache, sub: &SubCategoryItem, existing: String)
        requires
            old(self).sub_categories_created < i32::MAX,
        ensures
            final(cache).view() == (MappingView {
                sub_categories: old(cache).view().sub_categories.insert(sub.wp_id, existing@),
                ..old(cache).view()
            }),
            *final(self) == (PreMigrationStats {
                sub_categories_created: (old(self).sub_categories_created + 1) as i32,
                ..*old(self)
            }),
            final(cache).wf() == old(cache).wf(),
    {
        cache.put_sub_category(sub.wp_id, existing);
        self.sub_categories_created = self.sub_categories_created + 1;
    }

    /// Records the creation of a sub-category: on success its document is
    /// remembered for its slug and mapped to its WordPress id.
    pub fn on_sub_category(
        &mut self,
        cache: &mut MappingCache,
        memo: &mut SlugMemo,
        sub: &SubCategoryItem,
        created: Option<String>,
    )
        requires
            old(self).sub_categories_created < i32::MAX,
            old(self).sub_categories_failed < i32::MAX,
        ensures
            match created {
                Some(doc) => {
                    &&& memo_get(final(memo).entries@, sub.slug@) == Some(doc@)
                    &&& final(memo).entries@ == old(memo).entries@.push((sub.slug, doc))
                    &&& final(cache).view() == (MappingView {
                        sub_categories: old(cache).view().sub_categories.insert(sub.wp_id, doc@),
                        ..old(cache).view()
                    })
                    &&& *final(self) == (PreMigrationStats {
                        sub_categories_created: (old(self).sub_categories_created + 1) as i32,
                        ..*old(self)
                    })
                },
                None => {
                    &&& final(memo).entries == old(memo).entries
                    &&& final(cache).view() == old(cache).view()
                    &&& *final(self) == (PreMigrationStats {
                        sub_categories_failed: (old(self).sub_categories_failed + 1) as i32,
                        ..*old(self)
                    })
                },
            },
            final(cache).wf() == old(cache).wf(),
    {
        match created {
            Some(doc) => {
                memo.remember(sub.slug.clone(), doc.clone());
                cache.put_sub_category(sub.wp_id, doc);
                self.sub_categories_created = self.sub_categories_created + 1;
            },
            None => {
                self.sub_categories_failed = self.sub_categories_failed + 1;
            },
        }
    }
}

} // verus!
