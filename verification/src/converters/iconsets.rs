//! Icon sets: many named icons that share one record of metadata.

use vstd::prelude::*;
use vstd::string::*;
use crate::archive::{
    add_capped, after_optional_text, after_table, builder_steps, builder_used, capped,
    create_offset_vector, create_string, finish, finished_bytes, finished_data, idle, new_builder,
    optional_string_offset, optional_text_cost, optional_text_weight, string_offset, table_cost,
    table_offset, text_cost, text_view, text_weight, vector_cost, vector_offset,
    write_optional_text, write_table, ArchiveBuilder, BuilderStep, Field, ARCHIVE_LIMIT,
};
use crate::converters::utils::{
    astro_source, jsx_markup, native_source, pascal_case, patterns_accepted, qwik_source,
    react_component, react_source, script_language, script_language_of, solid_source, svg_to_astro,
    svg_to_jsx, svg_to_qwik, svg_to_react_native, svg_to_solid, to_pascal_case,
};
use crate::text::{decimal_text, push_decimal};
use crate::order::{
    arranged, cost_along, cost_sum, key_views, keys_distinct, lemma_arranged_elements,
    lemma_cost_along_order, lemma_cost_along_rises, lemma_rising_unique, lemma_stable_order_of,
    lemma_stable_order_rises, lemma_text_lt_asymmetric, lemma_text_lt_irreflexive, ranks_before,
    stable_order, stable_order_of, text_lt,
};

verus! {

/// Who made an icon set.
#[derive(Debug)]
pub struct Author {
    pub name: String,
    pub url: Option<String>,
}

/// The terms under which an icon set is given out.
#[derive(Debug)]
pub struct License {
    pub title: String,
    pub spdx: String,
    pub url: Option<String>,
}

/// The metadata that the icons of a set share.
#[derive(Debug)]
pub struct IconSetInfo {
    pub name: String,
    /// The number of icons that the set declares; it is not held against the
    /// icons that are there.
    pub total: u32,
    pub version: Option<String>,
    pub author: Option<Author>,
    pub license: Option<License>,
    pub height: Option<u32>,
    pub category: Option<String>,
    pub palette: Option<bool>,
}

/// A width or a height as the source gave it.
#[derive(Debug)]
pub struct Measure {
    /// The whole units that an archive stores.
    pub units: u32,
    /// The number as markup writes it.
    pub text: String,
}

/// One icon of a set: a fragment of markup without the outer `svg` element.
/// An absent measure stands for the default of the set, not for zero.
#[derive(Debug)]
pub struct IconData {
    pub body: String,
    pub width: Option<Measure>,
    pub height: Option<Measure>,
}

/// An icon under the name that identifies it in its set.
#[derive(Debug)]
pub struct NamedIcon {
    pub name: String,
    pub icon: IconData,
}

/// An icon set. Every name occurs once among its icons; the order in which
/// they are held carries no meaning.
#[derive(Debug)]
pub struct IconSetJson {
    pub prefix: String,
    pub info: IconSetInfo,
    pub last_modified: Option<u64>,
    pub icons: Vec<NamedIcon>,
}

/// An author, as plain texts.
pub struct AuthorView {
    pub name: Seq<char>,
    pub url: Option<Seq<char>>,
}

/// A license, as plain texts.
pub struct LicenseView {
    pub title: Seq<char>,
    pub spdx: Seq<char>,
    pub url: Option<Seq<char>>,
}

/// The metadata of a set, as plain values.
pub struct IconSetInfoView {
    pub name: Seq<char>,
    pub total: u32,
    pub version: Option<Seq<char>>,
    pub author: Option<AuthorView>,
    pub license: Option<LicenseView>,
    pub height: Option<u32>,
    pub category: Option<Seq<char>>,
    pub palette: Option<bool>,
}

/// What an archive stores of one icon.
pub struct IconRecord {
    pub id: Seq<char>,
    pub body: Seq<char>,
    pub width: u32,
    pub height: u32,
}

impl View for Author {
    type V = AuthorView;

    open spec fn view(&self) -> AuthorView {
        AuthorView { name: self.name@, url: text_view(self.url) }
    }
}

impl View for License {
    type V = LicenseView;

    open spec fn view(&self) -> LicenseView {
        LicenseView { title: self.title@, spdx: self.spdx@, url: text_view(self.url) }
    }
}

impl View for IconSetInfo {
    type V = IconSetInfoView;

    open spec fn view(&self) -> IconSetInfoView {
        IconSetInfoView {
            name: self.name@,
            total: self.total,
            version: text_view(self.version),
            author: match self.author {
                Some(a) => Some(a@),
                None => None,
            },
            license: match self.license {
                Some(l) => Some(l@),
                None => None,
            },
            height: self.height,
            category: text_view(self.category),
            palette: self.palette,
        }
    }
}

/// The whole units of a measure, zero when it is absent.
pub open spec fn stored_units(m: Option<Measure>) -> u32 {
    match m {
        Some(m) => m.units,
        None => 0,
    }
}

impl NamedIcon {
    /// What an archive stores of the icon.
    pub open spec fn record(&self) -> IconRecord {
        IconRecord {
            id: self.name@,
            body: self.icon.body@,
            width: stored_units(self.icon.width),
            height: stored_units(self.icon.height),
        }
    }
}

/// The fields of an author table, in the order they are written.
pub open spec fn author_fields(name: u32, url: Option<u32>) -> Seq<Field> {
    seq![Field::Offset { slot: 6, offset: url }, Field::Offset { slot: 4, offset: Some(name) }]
}

/// The fields of a license table, in the order they are written.
pub open spec fn license_fields(title: u32, spdx: u32, url: Option<u32>) -> Seq<Field> {
    seq![
        Field::Offset { slot: 8, offset: url },
        Field::Offset { slot: 6, offset: Some(spdx) },
        Field::Offset { slot: 4, offset: Some(title) },
    ]
}

/// The fields of an icon table, in the order they are written.
pub open spec fn icon_fields(id: u32, body: u32, width: u32, height: u32) -> Seq<Field> {
    seq![
        Field::Word { slot: 10, value: height, default: 0 },
        Field::Word { slot: 8, value: width, default: 0 },
        Field::Offset { slot: 6, offset: Some(body) },
        Field::Offset { slot: 4, offset: Some(id) },
    ]
}

/// The fields of the table that roots an icon-set archive.
pub open spec fn set_fields(prefix: u32, info: u32, icons: u32) -> Seq<Field> {
    seq![
        Field::Offset { slot: 8, offset: Some(icons) },
        Field::Offset { slot: 6, offset: Some(info) },
        Field::Offset { slot: 4, offset: Some(prefix) },
    ]
}

/// The height stored for a set: 16 where the source gives none.
pub open spec fn stored_height(h: Option<u32>) -> u32 {
    match h {
        Some(h) => h,
        None => 16,
    }
}

/// The palette flag stored for a set: false where the source gives none.
pub open spec fn stored_palette(p: Option<bool>) -> bool {
    match p {
        Some(p) => p,
        None => false,
    }
}

/// The steps after an author was written: name, link, table.
pub open spec fn after_author(steps: Seq<BuilderStep>, a: AuthorView) -> Seq<BuilderStep> {
    let named = steps.push(BuilderStep::Text(a.name));
    let linked = after_optional_text(named, a.url);
    after_table(linked, author_fields(string_offset(named), optional_string_offset(named, a.url)))
}

/// The steps after a license was written: title, identifier, link, table.
pub open spec fn after_license(steps: Seq<BuilderStep>, l: LicenseView) -> Seq<BuilderStep> {
    let titled = steps.push(BuilderStep::Text(l.title));
    let marked = titled.push(BuilderStep::Text(l.spdx));
    let linked = after_optional_text(marked, l.url);
    after_table(
        linked,
        license_fields(
            string_offset(titled),
            string_offset(marked),
            optional_string_offset(marked, l.url),
        ),
    )
}

/// The steps after an author was written, if there is one.
pub open spec fn after_optional_author(steps: Seq<BuilderStep>, a: Option<AuthorView>) -> Seq<
    BuilderStep,
> {
    match a {
        Some(a) => after_author(steps, a),
        None => steps,
    }
}

/// The steps after a license was written, if there is one.
pub open spec fn after_optional_license(steps: Seq<BuilderStep>, l: Option<LicenseView>) -> Seq<
    BuilderStep,
> {
    match l {
        Some(l) => after_license(steps, l),
        None => steps,
    }
}

/// The offset of the table that the given steps closed last, if `present`.
pub open spec fn optional_table_offset(steps: Seq<BuilderStep>, present: bool) -> Option<u32> {
    if present {
        Some(table_offset(steps))
    } else {
        None
    }
}

/// The fields of the metadata table, in the order they are written.
pub open spec fn info_fields(
    info: IconSetInfoView,
    name: u32,
    version: Option<u32>,
    author: Option<u32>,
    license: Option<u32>,
    category: Option<u32>,
) -> Seq<Field> {
    seq![
        Field::Offset { slot: 16, offset: category },
        Field::Word { slot: 14, value: stored_height(info.height), default: 0 },
        Field::Offset { slot: 12, offset: license },
        Field::Offset { slot: 10, offset: author },
        Field::Offset { slot: 8, offset: version },
        Field::Word { slot: 6, value: info.total, default: 0 },
        Field::Offset { slot: 4, offset: Some(name) },
        Field::Flag { slot: 18, on: stored_palette(info.palette), default_on: false },
    ]
}

/// The steps after the metadata of a set was written: author, license,
/// name, version, category, table.
pub open spec fn after_info(steps: Seq<BuilderStep>, info: IconSetInfoView) -> Seq<BuilderStep> {
    let authored = after_optional_author(steps, info.author);
    let licensed = after_optional_license(authored, info.license);
    let named = licensed.push(BuilderStep::Text(info.name));
    let versioned = after_optional_text(named, info.version);
    let sorted = after_optional_text(versioned, info.category);
    after_table(
        sorted,
        info_fields(
            info,
            string_offset(named),
            optional_string_offset(named, info.version),
            optional_table_offset(authored, info.author is Some),
            optional_table_offset(licensed, info.license is Some),
            optional_string_offset(versioned, info.category),
        ),
    )
}

/// The steps after one icon was written: name, body, table.
pub open spec fn after_record(steps: Seq<BuilderStep>, r: IconRecord) -> Seq<BuilderStep> {
    let named = steps.push(BuilderStep::Text(r.id));
    let filled = named.push(BuilderStep::Text(r.body));
    after_table(filled, icon_fields(string_offset(named), string_offset(filled), r.width, r.height))
}

/// The steps after the first `n` icons were written, one after the other.
pub open spec fn after_records(steps: Seq<BuilderStep>, records: Seq<IconRecord>, n: int) -> Seq<
    BuilderStep,
>
    decreases n,
{
    if n <= 0 || n > records.len() {
        steps
    } else {
        after_record(after_records(steps, records, n - 1), records[n - 1])
    }
}

/// The offsets of the tables of the first `n` icons.
pub open spec fn record_offsets(steps: Seq<BuilderStep>, records: Seq<IconRecord>, n: int) -> Seq<
    u32,
> {
    Seq::new(n as nat, |k: int| table_offset(after_records(steps, records, k + 1)))
}

/// The steps that write an icon-set archive whose icons come in the given
/// order: metadata, icons, the vector of icons, prefix, root table, finish.
pub open spec fn icon_set_steps(prefix: Seq<char>, info: IconSetInfoView, records: Seq<IconRecord>)
    -> Seq<BuilderStep> {
    let described = after_info(Seq::empty(), info);
    let drawn = after_records(described, records, records.len() as int);
    let listed = drawn.push(
        BuilderStep::OffsetVector(record_offsets(described, records, records.len() as int)),
    );
    let prefixed = listed.push(BuilderStep::Text(prefix));
    let rooted = after_table(
        prefixed,
        set_fields(string_offset(prefixed), table_offset(described), vector_offset(listed)),
    );
    rooted.push(BuilderStep::Finish { root: table_offset(rooted) })
}

/// An upper bound on the bytes that an author takes in an archive.
pub open spec fn author_cost(a: AuthorView) -> nat {
    text_cost(a.name) + optional_text_cost(a.url) + table_cost(2)
}

/// An upper bound on the bytes that a license takes in an archive.
pub open spec fn license_cost(l: LicenseView) -> nat {
    text_cost(l.title) + text_cost(l.spdx) + optional_text_cost(l.url) + table_cost(3)
}

/// An upper bound on the bytes that the metadata takes in an archive.
pub open spec fn info_cost(info: IconSetInfoView) -> nat {
    (match info.author {
        Some(a) => author_cost(a),
        None => 0,
    }) + (match info.license {
        Some(l) => license_cost(l),
        None => 0,
    }) + text_cost(info.name) + optional_text_cost(info.version) + optional_text_cost(
        info.category,
    ) + table_cost(8)
}

/// An upper bound on the bytes that an icon takes in an archive.
pub open spec fn record_cost(r: IconRecord) -> nat {
    text_cost(r.id) + text_cost(r.body) + table_cost(4)
}

/// Lists the fields of an author table.
pub fn author_field_list(name: u32, url: Option<u32>) -> (fields: Vec<Field>)
    ensures
        fields@ == author_fields(name, url),
{
    let mut fields: Vec<Field> = Vec::new();
    fields.push(Field::Offset { slot: 6, offset: url });
    fields.push(Field::Offset { slot: 4, offset: Some(name) });
    assert(fields@ =~= author_fields(name, url));
    fields
}

/// Lists the fields of a license table.
pub fn license_field_list(title: u32, spdx: u32, url: Option<u32>) -> (fields: Vec<Field>)
    ensures
        fields@ == license_fields(title, spdx, url),
{
    let mut fields: Vec<Field> = Vec::new();
    fields.push(Field::Offset { slot: 8, offset: url });
    fields.push(Field::Offset { slot: 6, offset: Some(spdx) });
    fields.push(Field::Offset { slot: 4, offset: Some(title) });
    assert(fields@ =~= license_fields(title, spdx, url));
    fields
}

/// Lists the fields of the metadata table: an absent height is stored as
/// 16, an absent palette flag as false.
pub fn info_field_list(
    info: &IconSetInfo,
    name: u32,
    version: Option<u32>,
    author: Option<u32>,
    license: Option<u32>,
    category: Option<u32>,
) -> (fields: Vec<Field>)
    ensures
        fields@ == info_fields(info@, name, version, author, license, category),
{
    let height = match info.height {
        Some(h) => h,
        None => 16,
    };
    let palette = match info.palette {
        Some(p) => p,
        None => false,
    };
    let mut fields: Vec<Field> = Vec::new();
    fields.push(Field::Offset { slot: 16, offset: category });
    fields.push(Field::Word { slot: 14, value: height, default: 0 });
    fields.push(Field::Offset { slot: 12, offset: license });
    fields.push(Field::Offset { slot: 10, offset: author });
    fields.push(Field::Offset { slot: 8, offset: version });
    fields.push(Field::Word { slot: 6, value: info.total, default: 0 });
    fields.push(Field::Offset { slot: 4, offset: Some(name) });
    fields.push(Field::Flag { slot: 18, on: palette, default_on: false });
    assert(fields@ =~= info_fields(info@, name, version, author, license, category));
    fields
}

/// Lists the fields of an icon table: an absent measure is stored as zero.
pub fn icon_field_list(icon: &IconData, id: u32, body: u32) -> (fields: Vec<Field>)
    ensures
        fields@ == icon_fields(id, body, stored_units(icon.width), stored_units(icon.height)),
{
    let width = match &icon.width {
        Some(m) => m.units,
        None => 0,
    };
    let height = match &icon.height {
        Some(m) => m.units,
        None => 0,
    };
    let mut fields: Vec<Field> = Vec::new();
    fields.push(Field::Word { slot: 10, value: height, default: 0 });
    fields.push(Field::Word { slot: 8, value: width, default: 0 });
    fields.push(Field::Offset { slot: 6, offset: Some(body) });
    fields.push(Field::Offset { slot: 4, offset: Some(id) });
    assert(fields@ =~= icon_fields(id, body, width, height));
    fields
}

/// Lists the fields of the table that roots an icon-set archive.
pub fn set_field_list(prefix: u32, info: u32, icons: u32) -> (fields: Vec<Field>)
    ensures
        fields@ == set_fields(prefix, info, icons),
{
    let mut fields: Vec<Field> = Vec::new();
    fields.push(Field::Offset { slot: 8, offset: Some(icons) });
    fields.push(Field::Offset { slot: 6, offset: Some(info) });
    fields.push(Field::Offset { slot: 4, offset: Some(prefix) });
    assert(fields@ =~= set_fields(prefix, info, icons));
    fields
}

/// Writes an author and hands back the offset of its table.
fn write_author(b: &mut ArchiveBuilder, a: &Author) -> (offset: u32)
    requires
        idle(builder_steps(*old(b))),
        builder_used(*old(b)) + author_cost(a@) <= ARCHIVE_LIMIT,
    ensures
        builder_steps(*final(b)) == after_author(builder_steps(*old(b)), a@),
        idle(builder_steps(*final(b))),
        offset == table_offset(builder_steps(*final(b))),
        offset <= builder_used(*final(b)),
        builder_used(*old(b)) <= builder_used(*final(b)),
        builder_used(*final(b)) <= builder_used(*old(b)) + author_cost(
            a@,
        ),
{
    let name = create_string(b, a.name.as_str());
    let url = write_optional_text(b, &a.url);
    write_table(b, &author_field_list(name, url))
}

/// Writes a license and hands back the offset of its table.
fn write_license(b: &mut ArchiveBuilder, l: &License) -> (offset: u32)
    requires
        idle(builder_steps(*old(b))),
        builder_used(*old(b)) + license_cost(l@) <= ARCHIVE_LIMIT,
    ensures
        builder_steps(*final(b)) == after_license(builder_steps(*old(b)), l@),
        idle(builder_steps(*final(b))),
        offset == table_offset(builder_steps(*final(b))),
        offset <= builder_used(*final(b)),
        builder_used(*old(b)) <= builder_used(*final(b)),
        builder_used(*final(b)) <= builder_used(*old(b))
            + license_cost(l@),
{
    let title = create_string(b, l.title.as_str());
    let spdx = create_string(b, l.spdx.as_str());
    let url = write_optional_text(b, &l.url);
    write_table(b, &license_field_list(title, spdx, url))
}

/// Writes the metadata of a set and hands back the offset of its table.
fn write_info(b: &mut ArchiveBuilder, info: &IconSetInfo) -> (offset: u32)
    requires
        idle(builder_steps(*old(b))),
        builder_used(*old(b)) + info_cost(info@) <= ARCHIVE_LIMIT,
    ensures
        builder_steps(*final(b)) == after_info(builder_steps(*old(b)), info@),
        idle(builder_steps(*final(b))),
        offset == table_offset(builder_steps(*final(b))),
        offset <= builder_used(*final(b)),
        builder_used(*old(b)) <= builder_used(*final(b)),
        builder_used(*final(b)) <= builder_used(*old(b)) + info_cost(
            info@,
        ),
{
    let author = match &info.author {
        Some(a) => Some(write_author(b, a)),
        None => None,
    };
    let license = match &info.license {
        Some(l) => Some(write_license(b, l)),
        None => None,
    };
    let name = create_string(b, info.name.as_str());
    let version = write_optional_text(b, &info.version);
    let category = write_optional_text(b, &info.category);
    write_table(b, &info_field_list(info, name, version, author, license, category))
}

/// Writes one icon and hands back the offset of its table.
fn write_icon(b: &mut ArchiveBuilder, named: &NamedIcon) -> (offset: u32)
    requires
        idle(builder_steps(*old(b))),
        builder_used(*old(b)) + record_cost(named.record()) <= ARCHIVE_LIMIT,
    ensures
        builder_steps(*final(b)) == after_record(builder_steps(*old(b)), named.record()),
        idle(builder_steps(*final(b))),
        offset == table_offset(builder_steps(*final(b))),
        offset <= builder_used(*final(b)),
        builder_used(*old(b)) <= builder_used(*final(b)),
        builder_used(*final(b)) <= builder_used(*old(b)) + record_cost(
            named.record(),
        ),
{
    let id = create_string(b, named.name.as_str());
    let body = create_string(b, named.icon.body.as_str());
    write_table(b, &icon_field_list(&named.icon, id, body))
}

/// The capped cost of writing an author.
fn author_weight(a: &Author) -> (weight: usize)
    ensures
        weight == capped(author_cost(a@)),
{
    add_capped(add_capped(text_weight(a.name.as_str()), optional_text_weight(&a.url)), 64)
}

/// The capped cost of writing a license.
fn license_weight(l: &License) -> (weight: usize)
    ensures
        weight == capped(license_cost(l@)),
{
    let texts = add_capped(text_weight(l.title.as_str()), text_weight(l.spdx.as_str()));
    add_capped(add_capped(texts, optional_text_weight(&l.url)), 72)
}

/// The capped cost of writing the metadata of a set.
fn info_weight(info: &IconSetInfo) -> (weight: usize)
    ensures
        weight == capped(info_cost(info@)),
{
    let author = match &info.author {
        Some(a) => author_weight(a),
        None => 0,
    };
    let license = match &info.license {
        Some(l) => license_weight(l),
        None => 0,
    };
    let people = add_capped(author, license);
    let named = add_capped(people, text_weight(info.name.as_str()));
    let versioned = add_capped(named, optional_text_weight(&info.version));
    let sorted = add_capped(versioned, optional_text_weight(&info.category));
    add_capped(sorted, 112)
}

/// The capped cost of writing one icon.
fn icon_weight(named: &NamedIcon) -> (weight: usize)
    ensures
        weight == capped(record_cost(named.record())),
{
    let texts = add_capped(text_weight(named.name.as_str()), text_weight(named.icon.body.as_str()));
    add_capped(texts, 80)
}

impl IconSetJson {
    /// The names of the icons, in the order they are held.
    pub open spec fn names(&self) -> Seq<Seq<char>> {
        Seq::new(self.icons@.len(), |i: int| self.icons@[i].name@)
    }

    /// What an archive stores of each icon, in the order they are held.
    pub open spec fn records(&self) -> Seq<IconRecord> {
        Seq::new(self.icons@.len(), |i: int| self.icons@[i].record())
    }

    /// An upper bound on the bytes that each icon takes in an archive.
    pub open spec fn record_costs(&self) -> Seq<nat> {
        Seq::new(self.icons@.len(), |i: int| record_cost(self.icons@[i].record()))
    }

    /// Whether every name occurs once among the icons.
    pub open spec fn well_formed(&self) -> bool {
        forall|i: int, j: int|
            0 <= i < j < self.icons@.len() ==> self.icons@[i].name@ != self.icons@[j].name@
    }

    /// An upper bound on the size of the archive of the set.
    pub open spec fn archive_cost(&self) -> nat {
        info_cost(self.info@) + cost_sum(self.record_costs(), self.icons@.len() as int)
            + vector_cost(self.icons@.len()) + text_cost(self.prefix@) + table_cost(3) + 16
    }

    /// Whether the set is small enough for an archive.
    pub open spec fn encodable(&self) -> bool {
        self.archive_cost() <= ARCHIVE_LIMIT
    }

    /// What an archive stores of each icon, in the order of the archive:
    /// the stable order of the names.
    pub open spec fn sorted_records(&self) -> Seq<IconRecord> {
        arranged(self.records(), stable_order_of(self.names()))
    }

    /// The archive of the set: what the builder makes of the metadata, the
    /// icons in the stable order of their names, and the prefix.
    pub open spec fn archive(&self) -> Seq<u8> {
        finished_bytes(icon_set_steps(self.prefix@, self.info@, self.sorted_records()))
    }

    /// Tells whether every name occurs once among the icons.
    pub fn is_well_formed(&self) -> (ok: bool)
        ensures
            ok == self.well_formed(),
    {
        let n = self.icons.len();
        let mut keys: Vec<&str> = Vec::new();
        let mut i: usize = 0;
        while i < n
            invariant
                i <= n,
                n == self.icons@.len(),
                keys@.len() == i,
                forall|j: int| 0 <= j < i ==> keys@[j]@ == self.icons@[j].name@,
            decreases n - i,
        {
            keys.push(self.icons[i].name.as_str());
            i = i + 1;
        }
        let ghost kv = key_views(keys@);
        let distinct = keys_distinct(&keys);
        proof {
            assert(kv.len() == n);
            assert forall|a: int, b: int| 0 <= a < b < n implies (kv[a] != kv[b]) == (
            self.icons@[a].name@ != self.icons@[b].name@) by {
                assert(kv[a] == self.icons@[a].name@);
                assert(kv[b] == self.icons@[b].name@);
            }
            if distinct {
                assert forall|a: int, b: int| 0 <= a < b < n implies self.icons@[a].name@
                    != self.icons@[b].name@ by {
                    assert(kv[a] != kv[b]);
                }
            } else {
                let (a, b) = choose|a: int, b: int| 0 <= a < b < kv.len() && kv[a] == kv[b];
                assert(self.icons@[a].name@ == self.icons@[b].name@);
            }
        }
        distinct
    }

    /// Tells whether the set is small enough for an archive.
    pub fn is_encodable(&self) -> (fits: bool)
        ensures
            fits == self.encodable(),
    {
        let n = self.icons.len();
        let mut sum: usize = 0;
        let mut i: usize = 0;
        while i < n
            invariant
                i <= n,
                n == self.icons@.len(),
                sum == capped(cost_sum(self.record_costs(), i as int)),
            decreases n - i,
        {
            sum = add_capped(sum, icon_weight(&self.icons[i]));
            i = i + 1;
        }
        let listed = add_capped(add_capped(n, n), add_capped(n, n));
        let icons = add_capped(sum, add_capped(listed, 16));
        let described = add_capped(info_weight(&self.info), icons);
        let prefixed = add_capped(described, text_weight(self.prefix.as_str()));
        add_capped(prefixed, 88) <= ARCHIVE_LIMIT
    }

    /// Encodes the set as a FlatBuffers archive where it is small enough for
    /// one, and hands back nothing where it is not.
    pub fn try_to_flatbuffer(&self) -> (bytes: Option<Vec<u8>>)
        ensures
            match bytes {
                Some(b) => self.encodable() && b@ == self.archive(),
                None => !self.encodable(),
            },
    {
        if self.is_encodable() {
            Some(self.to_flatbuffer())
        } else {
            None
        }
    }

    /// Encodes the set as a FlatBuffers archive. The icons are written in the
    /// order of their names, whatever order they are held in.
    pub fn to_flatbuffer(&self) -> (bytes: Vec<u8>)
        requires
            self.encodable(),
        ensures
            bytes@ == self.archive(),
    {
        let n = self.icons.len();
        let mut keys: Vec<&str> = Vec::new();
        let mut i: usize = 0;
        while i < n
            invariant
                i <= n,
                n == self.icons@.len(),
                keys@.len() == i,
                forall|j: int| 0 <= j < i ==> keys@[j]@ == self.icons@[j].name@,
            decreases n - i,
        {
            keys.push(self.icons[i].name.as_str());
            i = i + 1;
        }
        assert(key_views(keys@) =~= self.names());
        let order = stable_order(&keys);
        let ghost costs = self.record_costs();
        let ghost sorted = arranged(self.records(), order@);
        proof {
            lemma_cost_along_order(costs, order@);
        }

        let mut b = new_builder();
        let info = write_info(&mut b, &self.info);
        let ghost described = builder_steps(b);
        let ghost base = builder_used(b);
        let mut offsets: Vec<u32> = Vec::new();
        let mut k: usize = 0;
        while k < n
            invariant
                k <= n,
                n == self.icons@.len(),
                order@.len() == n,
                forall|j: int| 0 <= j < n ==> (#[trigger] order@[j] as int) < n,
                costs == self.record_costs(),
                sorted == arranged(self.records(), order@),
                builder_steps(b) == after_records(described, sorted, k as int),
                idle(builder_steps(b)),
                offsets@ == record_offsets(described, sorted, k as int),
                forall|j: int| 0 <= j < k ==> offsets@[j] <= builder_used(b),
                base <= builder_used(b),
                builder_used(b) <= base + cost_along(
                    costs,
                    order@,
                    k as int,
                ),
                base + cost_along(costs, order@, n as int) <= ARCHIVE_LIMIT,
            decreases n - k,
        {
            proof {
                lemma_cost_along_rises(costs, order@, k + 1, n as int);
            }
            let at = order[k];
            let offset = write_icon(&mut b, &self.icons[at]);
            offsets.push(offset);
            k = k + 1;
            assert(offsets@ =~= record_offsets(described, sorted, k as int));
        }
        let icons = create_offset_vector(&mut b, &offsets);
        let prefix = create_string(&mut b, self.prefix.as_str());
        let root = write_table(&mut b, &set_field_list(prefix, info, icons));
        finish(&mut b, root);
        finished_data(&b)
    }
}

/// The archive of an icon set lists the icons in the order of their names:
/// of two icons, the one listed later does not come first by name.
pub proof fn lemma_archive_in_name_order(set: IconSetJson, i: int, j: int)
    requires
        0 <= i < j < set.icons@.len(),
    ensures
        set.sorted_records().len() == set.icons@.len(),
        !text_lt(set.sorted_records()[j].id, set.sorted_records()[i].id),
{
    let order = stable_order_of(set.names());
    assert(set.icons.len() == set.icons@.len());
    lemma_stable_order_of(set.names());
    assert(ranks_before(set.names(), order[i] as int, order[j] as int));
    if text_lt(set.names()[order[i] as int], set.names()[order[j] as int]) {
        lemma_text_lt_asymmetric(set.names()[order[i] as int], set.names()[order[j] as int]);
    } else {
        lemma_text_lt_irreflexive(set.names()[order[i] as int]);
    }
}

/// The archive of an icon set does not depend on the order in which its
/// icons are held: two well-formed sets with the same prefix, the same
/// metadata and the same icons have the same archive.
pub proof fn lemma_archive_order_free(a: IconSetJson, b: IconSetJson)
    requires
        a.well_formed(),
        b.well_formed(),
        a.prefix@ == b.prefix@,
        a.info@ == b.info@,
        forall|r: IconRecord| a.records().contains(r) <==> b.records().contains(r),
    ensures
        a.archive() == b.archive(),
{
    let p = stable_order_of(a.names());
    let q = stable_order_of(b.names());
    assert(a.icons.len() == a.icons@.len() && b.icons.len() == b.icons@.len());
    lemma_stable_order_of(a.names());
    lemma_stable_order_of(b.names());
    let sa = arranged(a.records(), p);
    let sb = arranged(b.records(), q);
    let lt = |r: IconRecord, s: IconRecord| text_lt(r.id, s.id);
    lemma_arranged_elements(a.records(), p);
    lemma_arranged_elements(b.records(), q);
    assert forall|i: int, j: int| 0 <= i < j < sa.len() implies #[trigger] lt(sa[i], sa[j]) by {
        lemma_stable_order_rises(a.names(), p, i, j);
    }
    assert forall|i: int, j: int| 0 <= i < j < sb.len() implies #[trigger] lt(sb[i], sb[j]) by {
        lemma_stable_order_rises(b.names(), q, i, j);
    }
    assert forall|r: IconRecord, s: IconRecord| #[trigger] lt(r, s) implies !lt(s, r) by {
        lemma_text_lt_asymmetric(r.id, s.id);
    }
    assert forall|e: IconRecord| sa.contains(e) <==> sb.contains(e) by {
        assert(sa.contains(e) <==> a.records().contains(e));
        assert(sb.contains(e) <==> b.records().contains(e));
    }
    lemma_rising_unique(sa, sb, lt);
}

/// The text of a measure: as the source wrote it, or the default in
/// decimal where the source gave none.
pub open spec fn measure_text(m: Option<Measure>, default: u32) -> Seq<char> {
    match m {
        Some(m) => m.text@,
        None => decimal_text(default as nat),
    }
}

/// A document around a fragment: an `svg` element of the given size, filled
/// with the current colour.
pub open spec fn svg_document(body: Seq<char>, width: Seq<char>, height: Seq<char>) -> Seq<char> {
    "<svg viewBox=\"0 0 "@ + width + " "@ + height + "\" width=\""@ + width + "\" height=\""@
        + height + "\" fill=\"currentColor\">"@ + body + "</svg>"@
}

/// The source of a Vue component around a document without styles.
pub open spec fn plain_vue_source(svg: Seq<char>, typescript: bool) -> Seq<char> {
    "<script setup"@ + script_language(typescript) + ">\n</script>\n\n<template>\n"@ + svg
        + "\n</template>"@
}

/// The source of a Svelte component around a document without styles.
pub open spec fn plain_svelte_source(svg: Seq<char>, typescript: bool) -> Seq<char> {
    "<script"@ + script_language(typescript) + ">\n</script>\n\n"@ + svg
}

/// Writes a measure, or the default where there is none.
fn measure_text_of(m: &Option<Measure>, default: u32) -> (text: String)
    ensures
        text@ == measure_text(*m, default),
{
    match m {
        Some(m) => String::from_str(m.text.as_str()),
        None => {
            let mut text = String::new();
            push_decimal(&mut text, default);
            text
        },
    }
}

impl IconData {
    /// The document of the icon at the size it has, or at the default size
    /// where it has none.
    pub open spec fn document(&self, default_width: u32, default_height: u32) -> Seq<char> {
        svg_document(
            self.body@,
            measure_text(self.width, default_width),
            measure_text(self.height, default_height),
        )
    }

    /// Wraps the fragment in an `svg` element.
    pub fn to_svg(&self, default_width: u32, default_height: u32) -> (out: String)
        ensures
            out@ == self.document(default_width, default_height),
    {
        let w = measure_text_of(&self.width, default_width);
        let h = measure_text_of(&self.height, default_height);
        let mut out = String::from_str("<svg viewBox=\"0 0 ");
        out.append(w.as_str());
        out.append(" ");
        out.append(h.as_str());
        out.append("\" width=\"");
        out.append(w.as_str());
        out.append("\" height=\"");
        out.append(h.as_str());
        out.append("\" fill=\"currentColor\">");
        out.append(self.body.as_str());
        out.append("</svg>");
        out
    }

    /// Renders the icon as a React component of the given name in Pascal
    /// case. The markup is in the JSX dialect, or as it stands where the
    /// patterns of the rewriter cannot be compiled.
    pub fn to_react_component(
        &self,
        name: &str,
        default_width: u32,
        default_height: u32,
        typescript: bool,
    ) -> (out: String)
        ensures
            patterns_accepted() ==> out@ == react_source(
                pascal_case(name@),
                jsx_markup(self.document(default_width, default_height)),
                typescript,
            ),
            !patterns_accepted() ==> out@ == react_source(
                pascal_case(name@),
                self.document(default_width, default_height),
                typescript,
            ),
    {
        let name = to_pascal_case(name);
        let svg = self.to_svg(default_width, default_height);
        let jsx = svg_to_jsx(svg.as_str());
        react_component(name.as_str(), jsx.as_str(), typescript)
    }

    /// Renders the icon as a Vue component.
    pub fn to_vue_component(
        &self,
        default_width: u32,
        default_height: u32,
        typescript: bool,
    ) -> (out: String)
        ensures
            out@ == plain_vue_source(self.document(default_width, default_height), typescript),
    {
        let svg = self.to_svg(default_width, default_height);
        let mut out = String::from_str("<script setup");
        out.append(script_language_of(typescript));
        out.append(">\n</script>\n\n<template>\n");
        out.append(svg.as_str());
        out.append("\n</template>");
        out
    }

    /// Renders the icon as a Svelte component.
    pub fn to_svelte_component(
        &self,
        default_width: u32,
        default_height: u32,
        typescript: bool,
    ) -> (out: String)
        ensures
            out@ == plain_svelte_source(self.document(default_width, default_height), typescript),
    {
        let svg = self.to_svg(default_width, default_height);
        let mut out = String::from_str("<script");
        out.append(script_language_of(typescript));
        out.append(">\n</script>\n\n");
        out.append(svg.as_str());
        out
    }

    /// Renders the icon as a whole React Native component file; hands its
    /// document back as it stands where the patterns of the rewriter cannot
    /// be compiled.
    pub fn to_react_native_component(
        &self,
        name: &str,
        default_width: u32,
        default_height: u32,
        _typescript: bool,
    ) -> (out: String)
        ensures
            patterns_accepted() ==> out@ == native_source(
                self.document(default_width, default_height),
                pascal_case(name@),
                false,
            ),
            !patterns_accepted() ==> out@ == self.document(default_width, default_height),
    {
        let name = to_pascal_case(name);
        let svg = self.to_svg(default_width, default_height);
        svg_to_react_native(svg.as_str(), name.as_str(), false)
    }

    /// Renders the icon as a whole Qwik component file; hands its document
    /// back as it stands where the patterns of the rewriter cannot be
    /// compiled.
    pub fn to_qwik_component(
        &self,
        name: &str,
        default_width: u32,
        default_height: u32,
        _typescript: bool,
    ) -> (out: String)
        ensures
            patterns_accepted() ==> out@ == qwik_source(
                self.document(default_width, default_height),
                pascal_case(name@),
                false,
            ),
            !patterns_accepted() ==> out@ == self.document(default_width, default_height),
    {
        let name = to_pascal_case(name);
        let svg = self.to_svg(default_width, default_height);
        svg_to_qwik(svg.as_str(), name.as_str(), false)
    }

    /// Renders the icon as a whole Solid component file; hands its document
    /// back as it stands where the patterns of the rewriter cannot be
    /// compiled.
    pub fn to_solid_component(
        &self,
        name: &str,
        default_width: u32,
        default_height: u32,
        _typescript: bool,
    ) -> (out: String)
        ensures
            patterns_accepted() ==> out@ == solid_source(
                self.document(default_width, default_height),
                pascal_case(name@),
                false,
            ),
            !patterns_accepted() ==> out@ == self.document(default_width, default_height),
    {
        let name = to_pascal_case(name);
        let svg = self.to_svg(default_width, default_height);
        svg_to_solid(svg.as_str(), name.as_str(), false)
    }

    /// Renders the icon as an Astro component; hands its document back as
    /// it stands where the patterns of the rewriter cannot be compiled.
    pub fn to_astro_component(&self, default_width: u32, default_height: u32) -> (out: String)
        ensures
            patterns_accepted() ==> out@ == astro_source(
                self.document(default_width, default_height),
            ),
            !patterns_accepted() ==> out@ == self.document(default_width, default_height),
    {
        let svg = self.to_svg(default_width, default_height);
        svg_to_astro(svg.as_str())
    }
}

} // verus!
