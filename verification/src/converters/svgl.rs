//! Standalone SVG documents: one icon to a file.

use vstd::prelude::*;
use vstd::string::*;
use crate::archive::{
    add_capped, after_optional_text, after_table, builder_steps, builder_used, capped,
    create_offset_vector, create_string, finish, finished_bytes, finished_data, idle, new_builder,
    optional_string_offset, optional_text_cost, optional_text_weight, string_offset, table_cost,
    table_offset, text_cost, text_view, text_weight, vector_cost, vector_offset,
    write_optional_text, write_table, ArchiveBuilder, BuilderStep, Field, ARCHIVE_LIMIT,
};
use crate::converters::utils::{
    astro_source, extract_styles, jsx_markup, native_source, pascal_case, patterns_accepted,
    qwik_source, react_component, react_source, script_language, script_language_of, solid_source,
    style_free, style_text, svg_to_astro, svg_to_jsx, svg_to_qwik, svg_to_react_native,
    svg_to_solid, to_pascal_case,
};
use crate::xml::{
    attribute_views, closed_once, closes, open_reader, pending_tokens, read_token, token_views,
    xml_tokens, XmlAttribute, XmlAttributeView, XmlToken, XmlTokenView,
};
use crate::order::{
    arranged, cost_along, cost_sum, key_views, lemma_arranged_elements, lemma_cost_along_order,
    lemma_cost_along_rises, lemma_rising_unique, lemma_stable_order_of, lemma_stable_order_rises,
    lemma_text_lt_asymmetric, lemma_text_lt_irreflexive, ranks_before, same_text, stable_order,
    stable_order_of, text_lt,
};

verus! {

/// An icon read from a standalone SVG document.
#[derive(Debug, Clone)]
pub struct SvgIcon {
    /// The stem of the file's name, by which the icon is known.
    pub filename: String,
    /// The whole document, outer `svg` element included.
    pub svg_content: String,
    /// The `viewBox` attribute of the root element as it is written.
    pub viewbox: Option<String>,
    pub width: Option<u32>,
    pub height: Option<u32>,
}

/// A standalone icon, as plain values.
pub struct SvgIconView {
    pub filename: Seq<char>,
    pub svg_content: Seq<char>,
    pub viewbox: Option<Seq<char>>,
    pub width: Option<u32>,
    pub height: Option<u32>,
}

impl View for SvgIcon {
    type V = SvgIconView;

    open spec fn view(&self) -> SvgIconView {
        SvgIconView {
            filename: self.filename@,
            svg_content: self.svg_content@,
            viewbox: text_view(self.viewbox),
            width: self.width,
            height: self.height,
        }
    }
}

/// The measure that an archive stores: zero where the document gives none.
pub open spec fn stored_measure(m: Option<u32>) -> u32 {
    match m {
        Some(m) => m,
        None => 0,
    }
}

/// The fields of the table of a standalone icon, in the order they are
/// written.
pub open spec fn svgl_icon_fields(
    id: u32,
    filename: u32,
    svg_content: u32,
    viewbox: Option<u32>,
    width: u32,
    height: u32,
) -> Seq<Field> {
    seq![
        Field::Word { slot: 14, value: height, default: 0 },
        Field::Word { slot: 12, value: width, default: 0 },
        Field::Offset { slot: 10, offset: viewbox },
        Field::Offset { slot: 8, offset: Some(svg_content) },
        Field::Offset { slot: 6, offset: Some(filename) },
        Field::Offset { slot: 4, offset: Some(id) },
    ]
}

/// The fields of the table that roots a collection archive.
pub open spec fn collection_fields(icons: u32) -> Seq<Field> {
    seq![Field::Offset { slot: 4, offset: Some(icons) }]
}

/// The steps after one standalone icon was written: its name as identifier,
/// its name again, the document, the view box, the table.
pub open spec fn after_svg(steps: Seq<BuilderStep>, icon: SvgIconView) -> Seq<BuilderStep> {
    let identified = steps.push(BuilderStep::Text(icon.filename));
    let named = identified.push(BuilderStep::Text(icon.filename));
    let filled = named.push(BuilderStep::Text(icon.svg_content));
    let boxed = after_optional_text(filled, icon.viewbox);
    after_table(
        boxed,
        svgl_icon_fields(
            string_offset(identified),
            string_offset(named),
            string_offset(filled),
            optional_string_offset(filled, icon.viewbox),
            stored_measure(icon.width),
            stored_measure(icon.height),
        ),
    )
}

/// The steps after the first `n` standalone icons were written.
pub open spec fn after_svgs(steps: Seq<BuilderStep>, icons: Seq<SvgIconView>, n: int) -> Seq<
    BuilderStep,
>
    decreases n,
{
    if n <= 0 || n > icons.len() {
        steps
    } else {
        after_svg(after_svgs(steps, icons, n - 1), icons[n - 1])
    }
}

/// The offsets of the tables of the first `n` standalone icons.
pub open spec fn svg_offsets(steps: Seq<BuilderStep>, icons: Seq<SvgIconView>, n: int) -> Seq<u32> {
    Seq::new(n as nat, |k: int| table_offset(after_svgs(steps, icons, k + 1)))
}

/// The steps that write a collection archive whose icons come in the given
/// order: the icons, the vector of icons, root table, finish.
pub open spec fn collection_steps(icons: Seq<SvgIconView>) -> Seq<BuilderStep> {
    let start = Seq::<BuilderStep>::empty();
    let drawn = after_svgs(start, icons, icons.len() as int);
    let listed = drawn.push(
        BuilderStep::OffsetVector(svg_offsets(start, icons, icons.len() as int)),
    );
    let rooted = after_table(listed, collection_fields(vector_offset(listed)));
    rooted.push(BuilderStep::Finish { root: table_offset(rooted) })
}

/// An upper bound on the bytes that a standalone icon takes in an archive.
pub open spec fn svg_cost(icon: SvgIconView) -> nat {
    text_cost(icon.filename) + text_cost(icon.filename) + text_cost(icon.svg_content)
        + optional_text_cost(icon.viewbox) + table_cost(6)
}

/// The views of the icons of a collection, in the order they are held.
pub open spec fn icon_views(icons: Seq<SvgIcon>) -> Seq<SvgIconView> {
    Seq::new(icons.len(), |i: int| icons[i]@)
}

/// The names of the icons of a collection, in the order they are held.
pub open spec fn icon_names(icons: Seq<SvgIcon>) -> Seq<Seq<char>> {
    Seq::new(icons.len(), |i: int| icons[i].filename@)
}

/// An upper bound on the bytes that each icon of a collection takes.
pub open spec fn icon_costs(icons: Seq<SvgIcon>) -> Seq<nat> {
    Seq::new(icons.len(), |i: int| svg_cost(icons[i]@))
}

/// An upper bound on the size of the archive of a collection.
pub open spec fn collection_cost(icons: Seq<SvgIcon>) -> nat {
    cost_sum(icon_costs(icons), icons.len() as int) + vector_cost(icons.len()) + table_cost(1) + 16
}

/// Whether a collection is small enough for an archive.
pub open spec fn collection_encodable(icons: Seq<SvgIcon>) -> bool {
    collection_cost(icons) <= ARCHIVE_LIMIT
}

/// The icons of a collection in the order of its archive: the stable order
/// of their names.
pub open spec fn sorted_icons(icons: Seq<SvgIcon>) -> Seq<SvgIconView> {
    arranged(icon_views(icons), stable_order_of(icon_names(icons)))
}

/// The archive of a collection: what the builder makes of the icons in the
/// stable order of their names.
pub open spec fn collection_archive(icons: Seq<SvgIcon>) -> Seq<u8> {
    finished_bytes(collection_steps(sorted_icons(icons)))
}

/// Whether no name occurs twice in a collection.
pub open spec fn distinct_names(icons: Seq<SvgIcon>) -> bool {
    forall|i: int, j: int| 0 <= i < j < icons.len() ==> icons[i].filename@ != icons[j].filename@
}

/// Lists the fields of the table of a standalone icon: an absent measure is
/// stored as zero.
pub fn svgl_icon_field_list(
    id: u32,
    filename: u32,
    svg_content: u32,
    viewbox: Option<u32>,
    width: Option<u32>,
    height: Option<u32>,
) -> (fields: Vec<Field>)
    ensures
        fields@ == svgl_icon_fields(
            id,
            filename,
            svg_content,
            viewbox,
            stored_measure(width),
            stored_measure(height),
        ),
{
    let w = match width {
        Some(w) => w,
        None => 0,
    };
    let h = match height {
        Some(h) => h,
        None => 0,
    };
    let mut fields: Vec<Field> = Vec::new();
    fields.push(Field::Word { slot: 14, value: h, default: 0 });
    fields.push(Field::Word { slot: 12, value: w, default: 0 });
    fields.push(Field::Offset { slot: 10, offset: viewbox });
    fields.push(Field::Offset { slot: 8, offset: Some(svg_content) });
    fields.push(Field::Offset { slot: 6, offset: Some(filename) });
    fields.push(Field::Offset { slot: 4, offset: Some(id) });
    assert(fields@ =~= svgl_icon_fields(id, filename, svg_content, viewbox, w, h));
    fields
}

/// Lists the fields of the table that roots a collection archive.
pub fn collection_field_list(icons: u32) -> (fields: Vec<Field>)
    ensures
        fields@ == collection_fields(icons),
{
    let mut fields: Vec<Field> = Vec::new();
    fields.push(Field::Offset { slot: 4, offset: Some(icons) });
    assert(fields@ =~= collection_fields(icons));
    fields
}

/// Writes one standalone icon and hands back the offset of its table.
fn write_svg(b: &mut ArchiveBuilder, icon: &SvgIcon) -> (offset: u32)
    requires
        idle(builder_steps(*old(b))),
        builder_used(*old(b)) + svg_cost(icon@) <= ARCHIVE_LIMIT,
    ensures
        builder_steps(*final(b)) == after_svg(builder_steps(*old(b)), icon@),
        idle(builder_steps(*final(b))),
        offset == table_offset(builder_steps(*final(b))),
        offset <= builder_used(*final(b)),
        builder_used(*old(b)) <= builder_used(*final(b)),
        builder_used(*final(b)) <= builder_used(*old(b)) + svg_cost(
            icon@,
        ),
{
    let id = create_string(b, icon.filename.as_str());
    let filename = create_string(b, icon.filename.as_str());
    let svg_content = create_string(b, icon.svg_content.as_str());
    let viewbox = write_optional_text(b, &icon.viewbox);
    write_table(
        b,
        &svgl_icon_field_list(id, filename, svg_content, viewbox, icon.width, icon.height),
    )
}

/// The capped cost of writing one standalone icon.
fn svg_weight(icon: &SvgIcon) -> (weight: usize)
    ensures
        weight == capped(svg_cost(icon@)),
{
    let name = text_weight(icon.filename.as_str());
    let names = add_capped(name, name);
    let filled = add_capped(names, text_weight(icon.svg_content.as_str()));
    add_capped(add_capped(filled, optional_text_weight(&icon.viewbox)), 96)
}

impl SvgIcon {
    /// Tells whether a collection is small enough for an archive.
    pub fn collection_fits(icons: &[SvgIcon]) -> (fits: bool)
        ensures
            fits == collection_encodable(icons@),
    {
        let n = icons.len();
        let mut sum: usize = 0;
        let mut i: usize = 0;
        while i < n
            invariant
                i <= n,
                n == icons@.len(),
                sum == capped(cost_sum(icon_costs(icons@), i as int)),
            decreases n - i,
        {
            sum = add_capped(sum, svg_weight(&icons[i]));
            i = i + 1;
        }
        let listed = add_capped(add_capped(n, n), add_capped(n, n));
        add_capped(add_capped(sum, listed), 88) <= ARCHIVE_LIMIT
    }

    /// Encodes a collection as a FlatBuffers archive where it is small enough
    /// for one, and hands back nothing where it is not.
    pub fn try_build_collection(icons: &[SvgIcon]) -> (bytes: Option<Vec<u8>>)
        ensures
            match bytes {
                Some(b) => collection_encodable(icons@) && b@ == collection_archive(icons@),
                None => !collection_encodable(icons@),
            },
    {
        if Self::collection_fits(icons) {
            Some(Self::build_collection(icons))
        } else {
            None
        }
    }

    /// Encodes a collection of standalone icons as one FlatBuffers archive.
    /// The icons are written in the order of their names; icons of the same
    /// name keep the order they were given in.
    pub fn build_collection(icons: &[SvgIcon]) -> (bytes: Vec<u8>)
        requires
            collection_encodable(icons@),
        ensures
            bytes@ == collection_archive(icons@),
    {
        let n = icons.len();
        let mut keys: Vec<&str> = Vec::new();
        let mut i: usize = 0;
        while i < n
            invariant
                i <= n,
                n == icons@.len(),
                keys@.len() == i,
                forall|j: int| 0 <= j < i ==> keys@[j]@ == icons@[j].filename@,
            decreases n - i,
        {
            keys.push(icons[i].filename.as_str());
            i = i + 1;
        }
        assert(key_views(keys@) =~= icon_names(icons@));
        let order = stable_order(&keys);
        let ghost costs = icon_costs(icons@);
        let ghost sorted = arranged(icon_views(icons@), order@);
        proof {
            lemma_cost_along_order(costs, order@);
        }

        let mut b = new_builder();
        let ghost start = builder_steps(b);
        let mut offsets: Vec<u32> = Vec::new();
        let mut k: usize = 0;
        while k < n
            invariant
                k <= n,
                n == icons@.len(),
                order@.len() == n,
                forall|j: int| 0 <= j < n ==> (#[trigger] order@[j] as int) < n,
                costs == icon_costs(icons@),
                sorted == arranged(icon_views(icons@), order@),
                start == Seq::<BuilderStep>::empty(),
                builder_steps(b) == after_svgs(start, sorted, k as int),
                idle(builder_steps(b)),
                offsets@ == svg_offsets(start, sorted, k as int),
                forall|j: int| 0 <= j < k ==> offsets@[j] <= builder_used(b),
                builder_used(b) <= cost_along(costs, order@, k as int),
                cost_along(costs, order@, n as int) <= ARCHIVE_LIMIT,
            decreases n - k,
        {
            proof {
                lemma_cost_along_rises(costs, order@, k + 1, n as int);
            }
            let at = order[k];
            let offset = write_svg(&mut b, &icons[at]);
            offsets.push(offset);
            k = k + 1;
            assert(offsets@ =~= svg_offsets(start, sorted, k as int));
        }
        let listed = create_offset_vector(&mut b, &offsets);
        let root = write_table(&mut b, &collection_field_list(listed));
        finish(&mut b, root);
        finished_data(&b)
    }
}

/// The archive of a collection lists the icons in the order of their names:
/// of two icons, the one listed later does not come first by name.
pub proof fn lemma_collection_in_name_order(icons: Seq<SvgIcon>, i: int, j: int)
    requires
        icons.len() <= usize::MAX,
        0 <= i < j < icons.len(),
    ensures
        sorted_icons(icons).len() == icons.len(),
        !text_lt(sorted_icons(icons)[j].filename, sorted_icons(icons)[i].filename),
{
    let names = icon_names(icons);
    let order = stable_order_of(names);
    lemma_stable_order_of(names);
    assert(ranks_before(names, order[i] as int, order[j] as int));
    if text_lt(names[order[i] as int], names[order[j] as int]) {
        lemma_text_lt_asymmetric(names[order[i] as int], names[order[j] as int]);
    } else {
        lemma_text_lt_irreflexive(names[order[i] as int]);
    }
}

/// The archive of a collection does not depend on the order in which the
/// icons are given, where no name occurs twice: two such collections of the
/// same icons have the same archive.
pub proof fn lemma_collection_archive_order_free(a: Seq<SvgIcon>, b: Seq<SvgIcon>)
    requires
        a.len() <= usize::MAX,
        b.len() <= usize::MAX,
        distinct_names(a),
        distinct_names(b),
        forall|v: SvgIconView| icon_views(a).contains(v) <==> icon_views(b).contains(v),
    ensures
        collection_archive(a) == collection_archive(b),
{
    let p = stable_order_of(icon_names(a));
    let q = stable_order_of(icon_names(b));
    lemma_stable_order_of(icon_names(a));
    lemma_stable_order_of(icon_names(b));
    let sa = arranged(icon_views(a), p);
    let sb = arranged(icon_views(b), q);
    let lt = |r: SvgIconView, s: SvgIconView| text_lt(r.filename, s.filename);
    lemma_arranged_elements(icon_views(a), p);
    lemma_arranged_elements(icon_views(b), q);
    assert forall|i: int, j: int| 0 <= i < j < sa.len() implies #[trigger] lt(sa[i], sa[j]) by {
        lemma_stable_order_rises(icon_names(a), p, i, j);
    }
    assert forall|i: int, j: int| 0 <= i < j < sb.len() implies #[trigger] lt(sb[i], sb[j]) by {
        lemma_stable_order_rises(icon_names(b), q, i, j);
    }
    assert forall|r: SvgIconView, s: SvgIconView| #[trigger] lt(r, s) implies !lt(s, r) by {
        lemma_text_lt_asymmetric(r.filename, s.filename);
    }
    assert forall|e: SvgIconView| sa.contains(e) <==> sb.contains(e) by {
        assert(sa.contains(e) <==> icon_views(a).contains(e));
        assert(sb.contains(e) <==> icon_views(b).contains(e));
    }
    lemma_rising_unique(sa, sb, lt);
}

/// The value of a run of decimal digits: that of its first `n` characters.
pub open spec fn digits_value(s: Seq<char>, n: int) -> nat
    decreases n,
{
    if n <= 0 {
        0
    } else {
        digits_value(s, n - 1) * 10 + digit_value(s[n - 1])
    }
}

/// The value of a decimal digit.
pub open spec fn digit_value(c: char) -> nat {
    if c == '1' {
        1
    } else if c == '2' {
        2
    } else if c == '3' {
        3
    } else if c == '4' {
        4
    } else if c == '5' {
        5
    } else if c == '6' {
        6
    } else if c == '7' {
        7
    } else if c == '8' {
        8
    } else if c == '9' {
        9
    } else {
        0
    }
}

/// Whether a character is a decimal digit.
pub open spec fn is_digit(c: char) -> bool {
    c == '0' || c == '1' || c == '2' || c == '3' || c == '4' || c == '5' || c == '6' || c == '7'
        || c == '8' || c == '9'
}

/// Whether a text is made of decimal digits alone.
pub open spec fn all_digits(s: Seq<char>) -> bool {
    forall|i: int| 0 <= i < s.len() ==> is_digit(#[trigger] s[i])
}

/// The length of a text once every `px` at its end is taken off.
pub open spec fn trimmed_len(s: Seq<char>, n: int) -> int
    decreases n,
{
    if n >= 2 && n <= s.len() && s[n - 2] == 'p' && s[n - 1] == 'x' {
        trimmed_len(s, n - 2)
    } else {
        n
    }
}

/// The number that a text of digits stands for: an optional plus sign, then
/// one digit or more, the whole no greater than `u32::MAX`.
pub open spec fn parsed_number(s: Seq<char>) -> Option<u32> {
    let digits = if s.len() > 0 && s[0] == '+' {
        s.skip(1)
    } else {
        s
    };
    if digits.len() > 0 && all_digits(digits) && digits_value(digits, digits.len() as int)
        <= u32::MAX {
        Some(digits_value(digits, digits.len() as int) as u32)
    } else {
        None
    }
}

/// The measure that an attribute value gives: its number once every `px` at
/// its end is taken off, or nothing where that is no whole number.
pub open spec fn parsed_dimension(value: Seq<char>) -> Option<u32> {
    parsed_number(value.take(trimmed_len(value, value.len() as int)))
}

proof fn lemma_trimmed_len(s: Seq<char>, t: Seq<char>, n: int)
    requires
        0 <= n <= s.len(),
        n <= t.len(),
        forall|i: int| 0 <= i < n ==> s[i] == t[i],
    ensures
        0 <= trimmed_len(s, n) <= n,
        trimmed_len(s, n) == trimmed_len(t, n),
    decreases n,
{
    if n >= 2 && s[n - 2] == 'p' && s[n - 1] == 'x' {
        lemma_trimmed_len(s, t, n - 2);
    }
}

/// A `px` at the end of a value does not change the measure that it gives.
pub proof fn lemma_unit_suffix(value: Seq<char>)
    ensures
        parsed_dimension(value + seq!['p', 'x']) == parsed_dimension(value),
{
    let longer = value + seq!['p', 'x'];
    let n = value.len() as int;
    assert(longer[n] == 'p' && longer[n + 1] == 'x');
    lemma_trimmed_len(value, longer, n);
    let t = trimmed_len(value, n);
    assert(trimmed_len(longer, n + 2) == t);
    assert(longer.take(t) =~= value.take(t));
}

/// A value with a character that is neither a digit, nor a plus sign in
/// front, nor part of the `px` at its end, gives no measure.
pub proof fn lemma_not_a_whole_number(value: Seq<char>, i: int)
    requires
        0 <= i < trimmed_len(value, value.len() as int),
        !is_digit(value[i]),
        !(i == 0 && value[0] == '+'),
    ensures
        parsed_dimension(value) is None,
{
    lemma_trimmed_len(value, value, value.len() as int);
    let trimmed = value.take(trimmed_len(value, value.len() as int));
    if trimmed[0] == '+' {
        assert(trimmed.skip(1)[i - 1] == value[i]);
    } else {
        assert(trimmed[i] == value[i]);
    }
}

proof fn lemma_digits_value_rises(s: Seq<char>, k: int, n: int)
    requires
        0 <= k <= n,
    ensures
        digits_value(s, k) <= digits_value(s, n),
    decreases n - k,
{
    if k < n {
        lemma_digits_value_rises(s, k, n - 1);
        assert(digits_value(s, n - 1) <= digits_value(s, n - 1) * 10) by (nonlinear_arith);
    }
}

/// The value of a decimal digit, if the character is one.
fn digit_of(c: char) -> (d: Option<u32>)
    ensures
        d is Some <==> is_digit(c),
        d is Some ==> d->0 == digit_value(c),
{
    if c == '0' {
        Some(0)
    } else if c == '1' {
        Some(1)
    } else if c == '2' {
        Some(2)
    } else if c == '3' {
        Some(3)
    } else if c == '4' {
        Some(4)
    } else if c == '5' {
        Some(5)
    } else if c == '6' {
        Some(6)
    } else if c == '7' {
        Some(7)
    } else if c == '8' {
        Some(8)
    } else if c == '9' {
        Some(9)
    } else {
        None
    }
}

/// Reads a measure from the value of a `width` or `height` attribute.
pub fn parse_dimension(value: &str) -> (measure: Option<u32>)
    ensures
        measure == parsed_dimension(value@),
{
    let chars = crate::text::chars_of(value);
    let mut end: usize = chars.len();
    while end >= 2 && chars[end - 2] == 'p' && chars[end - 1] == 'x'
        invariant
            end <= chars@.len(),
            trimmed_len(chars@, chars@.len() as int) == trimmed_len(chars@, end as int),
        decreases end,
    {
        end = end - 2;
    }
    let start: usize = if end > 0 && chars[0] == '+' {
        1
    } else {
        0
    };
    let ghost trimmed = chars@.take(end as int);
    let ghost digits = if trimmed.len() > 0 && trimmed[0] == '+' {
        trimmed.skip(1)
    } else {
        trimmed
    };
    assert(digits.len() == end - start);
    assert(forall|j: int| 0 <= j < digits.len() ==> digits[j] == chars@[start + j]);
    let ghost goal = if digits.len() > 0 && all_digits(digits) && digits_value(
        digits,
        digits.len() as int,
    ) <= u32::MAX {
        Some(digits_value(digits, digits.len() as int) as u32)
    } else {
        None
    };
    assert(parsed_dimension(value@) == goal);
    if start == end {
        return None;
    }
    let mut total: u64 = 0;
    let mut i: usize = start;
    while i < end
        invariant
            start <= i <= end <= chars@.len(),
            digits.len() == end - start,
            forall|j: int| 0 <= j < digits.len() ==> digits[j] == chars@[start + j],
            forall|j: int| 0 <= j < i - start ==> is_digit(#[trigger] digits[j]),
            total == digits_value(digits, i - start),
            total <= u32::MAX,
            parsed_dimension(value@) == goal,
            goal == (if digits.len() > 0 && all_digits(digits) && digits_value(
                digits,
                digits.len() as int,
            ) <= u32::MAX {
                Some(digits_value(digits, digits.len() as int) as u32)
            } else {
                None
            }),
        decreases end - i,
    {
        let d = match digit_of(chars[i]) {
            Some(d) => d,
            None => {
                assert(!is_digit(digits[i - start]));
                return None;
            },
        };
        total = total * 10 + d as u64;
        if total > 0xffff_ffff {
            proof {
                lemma_digits_value_rises(digits, i - start + 1, digits.len() as int);
            }
            return None;
        }
        i = i + 1;
    }
    Some(total as u32)
}

/// The last position below `n` at which `c` stands in `s`, or -1.
pub open spec fn last_index_of(s: Seq<char>, c: char, n: int) -> int
    decreases n,
{
    if n <= 0 || n > s.len() {
        -1
    } else if s[n - 1] == c {
        n - 1
    } else {
        last_index_of(s, c, n - 1)
    }
}

/// The last component of a file name: what follows its last slash.
pub open spec fn base_name(name: Seq<char>) -> Seq<char> {
    name.skip(last_index_of(name, '/', name.len() as int) + 1)
}

/// The stem of a file name: its last component without the extension. A
/// component without a dot, or with its only dot in front, is its own stem;
/// an empty component, `.` and `..` have none.
pub open spec fn stem_of(name: Seq<char>) -> Option<Seq<char>> {
    let base = base_name(name);
    let dot = last_index_of(base, '.', base.len() as int);
    if base.len() == 0 || base == seq!['.'] || base == seq!['.', '.'] {
        None
    } else if dot <= 0 {
        Some(base)
    } else {
        Some(base.take(dot))
    }
}

/// The name by which the icon of a file is known: the stem of the file
/// name, or `unknown` where it has none.
pub open spec fn icon_name(name: Seq<char>) -> Seq<char> {
    match stem_of(name) {
        Some(stem) => stem,
        None => "unknown"@,
    }
}

/// The value of the last of the first `n` attributes that has the given key.
pub open spec fn last_value(attributes: Seq<Option<XmlAttributeView>>, key: Seq<char>, n: int)
    -> Option<Seq<char>>
    decreases n,
{
    if n <= 0 || n > attributes.len() {
        None
    } else {
        match attributes[n - 1] {
            Some(a) => if a.key == key {
                Some(a.value)
            } else {
                last_value(attributes, key, n - 1)
            },
            None => last_value(attributes, key, n - 1),
        }
    }
}

/// The measure that the attribute of the given key gives, if there is one.
pub open spec fn measure_of(attributes: Seq<Option<XmlAttributeView>>, key: Seq<char>) -> Option<
    u32,
> {
    match last_value(attributes, key, attributes.len() as int) {
        Some(v) => parsed_dimension(v),
        None => None,
    }
}

/// The attributes of the first `svg` element from position `i` on that
/// comes before the end of the input and before any fault.
pub open spec fn root_from(tokens: Seq<XmlTokenView>, i: int) -> Option<
    Seq<Option<XmlAttributeView>>,
>
    decreases tokens.len() - i,
{
    if i < 0 || i >= tokens.len() {
        None
    } else {
        match tokens[i] {
            XmlTokenView::Element { name, attributes } => if name == "svg"@ {
                Some(attributes)
            } else {
                root_from(tokens, i + 1)
            },
            XmlTokenView::Other => root_from(tokens, i + 1),
            XmlTokenView::End => None,
            XmlTokenView::Fault => None,
        }
    }
}

/// Whether the search for the root element, from position `i` on, ends at
/// markup that could not be read.
pub open spec fn faulted_from(tokens: Seq<XmlTokenView>, i: int) -> bool
    decreases tokens.len() - i,
{
    if i < 0 || i >= tokens.len() {
        false
    } else {
        match tokens[i] {
            XmlTokenView::Element { name, attributes } => if name == "svg"@ {
                false
            } else {
                faulted_from(tokens, i + 1)
            },
            XmlTokenView::Other => faulted_from(tokens, i + 1),
            XmlTokenView::End => false,
            XmlTokenView::Fault => true,
        }
    }
}

/// What the root element of a document says of its size.
pub struct RootMeasures {
    pub viewbox: Option<String>,
    pub width: Option<u32>,
    pub height: Option<u32>,
}

/// Whether the measures are those that a list of attributes gives.
pub open spec fn measures_of(attributes: Seq<Option<XmlAttributeView>>, m: RootMeasures) -> bool {
    &&& text_view(m.viewbox) == last_value(attributes, "viewBox"@, attributes.len() as int)
    &&& m.width == measure_of(attributes, "width"@)
    &&& m.height == measure_of(attributes, "height"@)
}

/// The icon of a document: its measures are those of its root element, and
/// absent where the tokens hold none.
pub open spec fn scanned(filename: Seq<char>, content: Seq<char>, tokens: Seq<XmlTokenView>)
    -> SvgIconView {
    match root_from(tokens, 0) {
        Some(attributes) => SvgIconView {
            filename,
            svg_content: content,
            viewbox: last_value(attributes, "viewBox"@, attributes.len() as int),
            width: measure_of(attributes, "width"@),
            height: measure_of(attributes, "height"@),
        },
        None => SvgIconView {
            filename,
            svg_content: content,
            viewbox: None,
            width: None,
            height: None,
        },
    }
}

/// A key that no attribute has gives no value, and so no measure.
pub proof fn lemma_absent_attribute(attributes: Seq<Option<XmlAttributeView>>, key: Seq<char>)
    requires
        forall|i: int|
            0 <= i < attributes.len() && attributes[i] is Some ==> (#[trigger] attributes[i])->0.key
                != key,
    ensures
        last_value(attributes, key, attributes.len() as int) is None,
        measure_of(attributes, key) is None,
{
    lemma_absent_below(attributes, key, attributes.len() as int);
}

proof fn lemma_absent_below(attributes: Seq<Option<XmlAttributeView>>, key: Seq<char>, n: int)
    requires
        forall|i: int|
            0 <= i < attributes.len() && attributes[i] is Some ==> (#[trigger] attributes[i])->0.key
                != key,
    ensures
        last_value(attributes, key, n) is None,
    decreases n,
{
    if 0 < n <= attributes.len() {
        lemma_absent_below(attributes, key, n - 1);
        assert(attributes[n - 1] is Some ==> attributes[n - 1]->0.key != key);
    }
}

/// The position of the last `c` below `n` in `s`, if there is one.
fn find_last(s: &Vec<char>, c: char, from: usize, n: usize) -> (at: Option<usize>)
    requires
        from <= n <= s@.len(),
    ensures
        match at {
            Some(i) => from <= i < n && i == last_index_of(s@, c, n as int),
            None => last_index_of(s@, c, n as int) < from,
        },
{
    let mut k: usize = n;
    while k > from
        invariant
            from <= k <= n <= s@.len(),
            last_index_of(s@, c, n as int) == last_index_of(s@, c, k as int),
        decreases k,
    {
        if s[k - 1] == c {
            return Some(k - 1);
        }
        k = k - 1;
    }
    proof {
        lemma_last_index_below(s@, c, k as int);
    }
    None
}

proof fn lemma_last_index_below(s: Seq<char>, c: char, n: int)
    ensures
        last_index_of(s, c, n) < n || n <= 0,
        last_index_of(s, c, n) >= -1,
    decreases n,
{
    if n > 0 && n <= s.len() && s[n - 1] != c {
        lemma_last_index_below(s, c, n - 1);
    }
}

proof fn lemma_last_index_skip(s: Seq<char>, c: char, b: int, n: int)
    requires
        0 <= b <= n <= s.len(),
    ensures
        last_index_of(s.skip(b), c, n - b) == (if last_index_of(s, c, n) >= b {
            last_index_of(s, c, n) - b
        } else {
            -1
        }),
    decreases n - b,
{
    lemma_last_index_below(s, c, b);
    if n > b {
        lemma_last_index_skip(s, c, b, n - 1);
    } else {
        lemma_last_index_below(s, c, n);
    }
}

/// Gives the name by which the icon of a file is known.
pub fn icon_name_of(filename: &str) -> (name: String)
    ensures
        name@ == icon_name(filename@),
{
    let chars = crate::text::chars_of(filename);
    let n = chars.len();
    let start: usize = match find_last(&chars, '/', 0, n) {
        Some(i) => i + 1,
        None => 0,
    };
    proof {
        lemma_last_index_below(chars@, '/', n as int);
    }
    let ghost base = base_name(filename@);
    assert(base == chars@.skip(start as int));
    assert(base.len() == n - start);
    let lone_dot = n - start == 1 && chars[start] == '.';
    let two_dots = n - start == 2 && chars[start] == '.' && chars[start + 1] == '.';
    assert(lone_dot == (base == seq!['.'])) by {
        if lone_dot {
            assert(base =~= seq!['.']);
        }
        if base == seq!['.'] {
            assert(base[0] == '.');
        }
    }
    assert(two_dots == (base == seq!['.', '.'])) by {
        if two_dots {
            assert(base =~= seq!['.', '.']);
        }
        if base == seq!['.', '.'] {
            assert(base[0] == '.' && base[1] == '.');
        }
    }
    if n == start || lone_dot || two_dots {
        return String::from_str("unknown");
    }
    proof {
        lemma_last_index_skip(chars@, '.', start as int, n as int);
    }
    let end: usize = match find_last(&chars, '.', start, n) {
        Some(i) => if i > start {
            i
        } else {
            n
        },
        None => n,
    };
    let mut name = String::new();
    crate::text::append_range(&mut name, &chars, start, end);
    assert(chars@.subrange(start as int, end as int) =~= (if end == n {
        base
    } else {
        base.take(end - start)
    }));
    name
}

/// Reads the measures that a list of attributes gives. Of attributes with
/// the same key the last one counts.
pub fn read_measures(attributes: &Vec<Option<XmlAttribute>>) -> (m: RootMeasures)
    ensures
        measures_of(attribute_views(attributes@), m),
{
    let ghost views = attribute_views(attributes@);
    let mut viewbox: Option<String> = None;
    let mut width: Option<u32> = None;
    let mut height: Option<u32> = None;
    let ghost mut wide: Option<Seq<char>> = None;
    let ghost mut high: Option<Seq<char>> = None;
    let mut k: usize = 0;
    while k < attributes.len()
        invariant
            k <= attributes@.len(),
            views == attribute_views(attributes@),
            text_view(viewbox) == last_value(views, "viewBox"@, k as int),
            wide == last_value(views, "width"@, k as int),
            high == last_value(views, "height"@, k as int),
            width == (match wide {
                Some(v) => parsed_dimension(v),
                None => None,
            }),
            height == (match high {
                Some(v) => parsed_dimension(v),
                None => None,
            }),
        decreases attributes@.len() - k,
    {
        match &attributes[k] {
            Some(a) => {
                assert(views[k as int] == Some(a@));
                if same_text(a.key.as_str(), "viewBox") {
                    viewbox = Some(String::from_str(a.value.as_str()));
                }
                if same_text(a.key.as_str(), "width") {
                    width = parse_dimension(a.value.as_str());
                    proof {
                        wide = Some(a.value@);
                    }
                }
                if same_text(a.key.as_str(), "height") {
                    height = parse_dimension(a.value.as_str());
                    proof {
                        high = Some(a.value@);
                    }
                }
            },
            None => {
                assert(views[k as int] is None);
            },
        }
        k = k + 1;
    }
    RootMeasures { viewbox, width, height }
}

impl SvgIcon {
    /// Makes the icon of a document from the tokens that the document was
    /// read into.
    pub fn from_tokens(filename: &str, content: &str, tokens: &Vec<XmlToken>) -> (icon: SvgIcon)
        ensures
            icon@ == scanned(icon_name(filename@), content@, token_views(tokens@)),
    {
        Self::read_tokens(filename, content, tokens).0
    }

    /// Makes the icon of a document from the tokens that the document was
    /// read into, and tells whether the search for the root element ended at
    /// markup that could not be read.
    pub fn read_tokens(filename: &str, content: &str, tokens: &Vec<XmlToken>) -> (reading: (
        SvgIcon,
        bool,
    ))
        ensures
            reading.0@ == scanned(icon_name(filename@), content@, token_views(tokens@)),
            reading.1 == faulted_from(token_views(tokens@), 0),
    {
        let ghost views = token_views(tokens@);
        let mut found: Option<RootMeasures> = None;
        let mut faulted = false;
        let mut i: usize = 0;
        while i < tokens.len()
            invariant_except_break
                i <= tokens@.len(),
                found is None,
                !faulted,
                root_from(views, 0) == root_from(views, i as int),
                faulted_from(views, 0) == faulted_from(views, i as int),
            invariant
                views == token_views(tokens@),
            ensures
                match found {
                    Some(m) => root_from(views, 0) is Some && measures_of(
                        root_from(views, 0)->0,
                        m,
                    ),
                    None => root_from(views, 0) is None,
                },
                faulted == faulted_from(views, 0),
            decreases tokens@.len() - i,
        {
            assert(views[i as int] == tokens@[i as int]@);
            match &tokens[i] {
                XmlToken::Element { name, attributes } => {
                    if same_text(name.as_str(), "svg") {
                        found = Some(read_measures(attributes));
                        break;
                    }
                },
                XmlToken::Other => {},
                XmlToken::End => {
                    break;
                },
                XmlToken::Fault => {
                    faulted = true;
                    break;
                },
            }
            i = i + 1;
        }
        (Self::with_measures(filename, content, found), faulted)
    }

    /// Makes an icon of a document and of what was found of its measures.
    fn with_measures(filename: &str, content: &str, found: Option<RootMeasures>) -> (icon: SvgIcon)
        ensures
            icon.filename@ == icon_name(filename@),
            icon.svg_content@ == content@,
            match found {
                Some(m) => text_view(icon.viewbox) == text_view(m.viewbox) && icon.width == m.width
                    && icon.height == m.height,
                None => icon.viewbox is None && icon.width is None && icon.height is None,
            },
    {
        let name = icon_name_of(filename);
        let svg_content = String::from_str(content);
        match found {
            Some(m) => SvgIcon {
                filename: name,
                svg_content,
                viewbox: m.viewbox,
                width: m.width,
                height: m.height,
            },
            None => SvgIcon {
                filename: name,
                svg_content,
                viewbox: None,
                width: None,
                height: None,
            },
        }
    }

    /// Reads the icon of a document. The root `svg` element gives its
    /// measures; a document that cannot be read up to that element gives an
    /// icon without measures. The document is kept as it stands.
    pub fn from_source(filename: &str, content: &str) -> (icon: SvgIcon)
        ensures
            icon@ == scanned(icon_name(filename@), content@, xml_tokens(content@)),
    {
        Self::read_source(filename, content).0
    }

    /// Reads the icon of a document as `from_source` does, and tells whether
    /// the search for the root element ended at markup that could not be
    /// read.
    pub fn read_source(filename: &str, content: &str) -> (reading: (SvgIcon, bool))
        ensures
            reading.0@ == scanned(icon_name(filename@), content@, xml_tokens(content@)),
            reading.1 == faulted_from(xml_tokens(content@), 0),
    {
        let mut reader = open_reader(content);
        let ghost tokens = xml_tokens(content@);
        let ghost mut i: int = 0;
        let mut found: Option<RootMeasures> = None;
        let mut faulted = false;
        loop
            invariant_except_break
                0 <= i < tokens.len(),
                pending_tokens(reader) == tokens.skip(i),
                found is None,
                !faulted,
                root_from(tokens, 0) == root_from(tokens, i),
                faulted_from(tokens, 0) == faulted_from(tokens, i),
            invariant
                closed_once(tokens),
            ensures
                match found {
                    Some(m) => root_from(tokens, 0) is Some && measures_of(
                        root_from(tokens, 0)->0,
                        m,
                    ),
                    None => root_from(tokens, 0) is None,
                },
                faulted == faulted_from(tokens, 0),
            decreases tokens.len() - i,
        {
            assert(tokens.skip(i)[0] == tokens[i]);
            let token = read_token(&mut reader);
            match &token {
                XmlToken::Element { name, attributes } => {
                    if same_text(name.as_str(), "svg") {
                        found = Some(read_measures(attributes));
                        break;
                    }
                },
                XmlToken::Other => {},
                XmlToken::End => {
                    break;
                },
                XmlToken::Fault => {
                    faulted = true;
                    break;
                },
            }
            proof {
                assert(!closes(tokens[i]));
                assert(tokens.skip(i).skip(1) =~= tokens.skip(i + 1));
                i = i + 1;
            }
        }
        (Self::with_measures(filename, content, found), faulted)
    }
}

/// The style section of a single-file component: nothing where there are
/// no styles.
pub open spec fn style_block(opening: Seq<char>, styles: Seq<char>) -> Seq<char> {
    if styles.len() > 0 {
        opening + styles + "\n</style>"@
    } else {
        Seq::empty()
    }
}

/// The source of a Vue component: an empty script, the markup as template,
/// the styles as a scoped style section.
pub open spec fn vue_source(template: Seq<char>, styles: Seq<char>, typescript: bool) -> Seq<char> {
    "<script setup"@ + script_language(typescript) + ">\n</script>\n\n<template>\n"@ + template
        + "\n</template>\n"@ + style_block("\n<style scoped>\n"@, styles)
}

/// The source of a Svelte component: an empty script, the markup, the
/// styles as a style section.
pub open spec fn svelte_source(template: Seq<char>, styles: Seq<char>, typescript: bool) -> Seq<
    char,
> {
    "<script"@ + script_language(typescript) + ">\n</script>\n\n"@ + template + "\n"@
        + style_block("\n<style>\n"@, styles)
}

/// Writes the style section of a single-file component.
fn style_section(opening: &str, styles: &str) -> (out: String)
    ensures
        out@ == style_block(opening@, styles@),
{
    if !styles.is_empty() {
        let mut out = String::from_str(opening);
        out.append(styles);
        out.append("\n</style>");
        out
    } else {
        String::new()
    }
}

impl SvgIcon {
    /// Renders the icon as a React component named after it in Pascal case.
    /// The markup is in the JSX dialect, or as it stands where the patterns
    /// of the rewriter cannot be compiled.
    pub fn to_react_component(&self, typescript: bool) -> (out: String)
        ensures
            patterns_accepted() ==> out@ == react_source(
                pascal_case(self.filename@),
                jsx_markup(self.svg_content@),
                typescript,
            ),
            !patterns_accepted() ==> out@ == react_source(
                pascal_case(self.filename@),
                self.svg_content@,
                typescript,
            ),
    {
        let name = to_pascal_case(self.filename.as_str());
        let jsx = svg_to_jsx(self.svg_content.as_str());
        react_component(name.as_str(), jsx.as_str(), typescript)
    }

    /// Renders the icon as a Vue component. The inline styles of the
    /// document move to a scoped style section, or stay where they are
    /// where the patterns of the rewriter cannot be compiled.
    pub fn to_vue_component(&self, typescript: bool) -> (out: String)
        ensures
            patterns_accepted() ==> out@ == vue_source(
                style_free(self.svg_content@),
                style_text(self.svg_content@),
                typescript,
            ),
            !patterns_accepted() ==> out@ == vue_source(
                self.svg_content@,
                Seq::empty(),
                typescript,
            ),
    {
        let parts = extract_styles(self.svg_content.as_str());
        let mut out = String::from_str("<script setup");
        out.append(script_language_of(typescript));
        out.append(">\n</script>\n\n<template>\n");
        out.append(parts.0.as_str());
        out.append("\n</template>\n");
        out.append(style_section("\n<style scoped>\n", parts.1.as_str()).as_str());
        out
    }

    /// Renders the icon as a Svelte component. The inline styles of the
    /// document move to a style section, or stay where they are where the
    /// patterns of the rewriter cannot be compiled.
    pub fn to_svelte_component(&self, typescript: bool) -> (out: String)
        ensures
            patterns_accepted() ==> out@ == svelte_source(
                style_free(self.svg_content@),
                style_text(self.svg_content@),
                typescript,
            ),
            !patterns_accepted() ==> out@ == svelte_source(
                self.svg_content@,
                Seq::empty(),
                typescript,
            ),
    {
        let parts = extract_styles(self.svg_content.as_str());
        let mut out = String::from_str("<script");
        out.append(script_language_of(typescript));
        out.append(">\n</script>\n\n");
        out.append(parts.0.as_str());
        out.append("\n");
        out.append(style_section("\n<style>\n", parts.1.as_str()).as_str());
        out
    }

    /// Renders the icon as a whole React Native component file; hands the
    /// document back as it stands where the patterns of the rewriter cannot
    /// be compiled.
    pub fn to_react_native_component(&self, _typescript: bool) -> (out: String)
        ensures
            patterns_accepted() ==> out@ == native_source(
                self.svg_content@,
                pascal_case(self.filename@),
                false,
            ),
            !patterns_accepted() ==> out@ == self.svg_content@,
    {
        let name = to_pascal_case(self.filename.as_str());
        svg_to_react_native(self.svg_content.as_str(), name.as_str(), false)
    }

    /// Renders the icon as a whole Qwik component file; hands the document
    /// back as it stands where the patterns of the rewriter cannot be
    /// compiled.
    pub fn to_qwik_component(&self, _typescript: bool) -> (out: String)
        ensures
            patterns_accepted() ==> out@ == qwik_source(
                self.svg_content@,
                pascal_case(self.filename@),
                false,
            ),
            !patterns_accepted() ==> out@ == self.svg_content@,
    {
        let name = to_pascal_case(self.filename.as_str());
        svg_to_qwik(self.svg_content.as_str(), name.as_str(), false)
    }

    /// Renders the icon as a whole Solid component file; hands the document
    /// back as it stands where the patterns of the rewriter cannot be
    /// compiled.
    pub fn to_solid_component(&self, _typescript: bool) -> (out: String)
        ensures
            patterns_accepted() ==> out@ == solid_source(
                self.svg_content@,
                pascal_case(self.filename@),
                false,
            ),
            !patterns_accepted() ==> out@ == self.svg_content@,
    {
        let name = to_pascal_case(self.filename.as_str());
        svg_to_solid(self.svg_content.as_str(), name.as_str(), false)
    }

    /// Renders the icon as an Astro component; hands the document back as
    /// it stands where the patterns of the rewriter cannot be compiled.
    pub fn to_astro_component(&self) -> (out: String)
        ensures
            patterns_accepted() ==> out@ == astro_source(self.svg_content@),
            !patterns_accepted() ==> out@ == self.svg_content@,
    {
        svg_to_astro(self.svg_content.as_str())
    }
}

} // verus!
