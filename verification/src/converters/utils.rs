//! Markup rewriting: stateless transforms from markup text to markup text.

use vstd::prelude::*;
use vstd::string::*;
use crate::pattern::{
    compile, find_hits, group_text, hit_views, regex_accepts, regex_gaps, regex_hits, regex_source,
    split_text, tiles, weave, woven, Hit, HitView,
};
use crate::text::{
    append_range, begins_with, chars_of, has_prefix, is_space, join_texts, joined, push_char,
    replace_text, replaced, space_char, texts, upper_chars, upper_text,
};

verus! {

/// Whether a character separates the words of an identifier: a hyphen or
/// white space.
pub open spec fn word_separator(c: char) -> bool {
    c == '-' || space_char(c)
}

/// The Pascal-case form of the first `n` characters of `s`: separators are
/// dropped, the first character of each word is replaced by its uppercase
/// form, and every other character is kept.
pub open spec fn pascal_prefix(s: Seq<char>, n: int) -> Seq<char>
    decreases n,
{
    if n <= 0 || n > s.len() {
        Seq::empty()
    } else if word_separator(s[n - 1]) {
        pascal_prefix(s, n - 1)
    } else if n == 1 || word_separator(s[n - 2]) {
        pascal_prefix(s, n - 1) + upper_text(s[n - 1])
    } else {
        pascal_prefix(s, n - 1).push(s[n - 1])
    }
}

/// The Pascal-case form of an identifier.
pub open spec fn pascal_case(s: Seq<char>) -> Seq<char> {
    pascal_prefix(s, s.len() as int)
}

/// Turns a hyphen- or space-separated identifier into Pascal case.
pub fn to_pascal_case(s: &str) -> (out: String)
    ensures
        out@ == pascal_case(s@),
{
    let chars = chars_of(s);
    let mut out = String::new();
    let mut at_start = true;
    let mut i: usize = 0;
    while i < chars.len()
        invariant
            i <= chars@.len(),
            chars@ == s@,
            out@ == pascal_prefix(s@, i as int),
            at_start == (i == 0 || word_separator(s@[i - 1])),
        decreases chars@.len() - i,
    {
        let c = chars[i];
        if c == '-' || is_space(c) {
            at_start = true;
        } else if at_start {
            let up = upper_chars(c);
            append_range(&mut out, &up, 0, up.len());
            assert(up@.subrange(0, up@.len() as int) == up@);
            at_start = false;
        } else {
            push_char(&mut out, c);
            at_start = false;
        }
        i = i + 1;
    }
    out
}

/// Pascal case of the empty identifier is empty.
pub proof fn lemma_pascal_case_empty()
    ensures
        pascal_case(Seq::<char>::empty()) == Seq::<char>::empty(),
{
}

/// Pascal case of a single word is the word with its first character in
/// uppercase form.
pub proof fn lemma_pascal_case_single_word(s: Seq<char>)
    requires
        s.len() > 0,
        forall|i: int| 0 <= i < s.len() ==> !word_separator(#[trigger] s[i]),
    ensures
        pascal_case(s) == upper_text(s[0]) + s.skip(1),
{
    lemma_pascal_prefix_single_word(s, s.len() as int);
    assert(s.subrange(1, s.len() as int) == s.skip(1));
}

proof fn lemma_pascal_prefix_single_word(s: Seq<char>, n: int)
    requires
        0 < n <= s.len(),
        forall|i: int| 0 <= i < s.len() ==> !word_separator(#[trigger] s[i]),
    ensures
        pascal_prefix(s, n) == upper_text(s[0]) + s.subrange(1, n),
    decreases n,
{
    if n == 1 {
        assert(pascal_prefix(s, 0) + upper_text(s[0]) =~= upper_text(s[0]) + s.subrange(1, 1));
    } else {
        lemma_pascal_prefix_single_word(s, n - 1);
        assert(!word_separator(s[n - 2]));
        assert((upper_text(s[0]) + s.subrange(1, n - 1)).push(s[n - 1]) =~= upper_text(s[0])
            + s.subrange(1, n));
    }
}

/// The pattern of an inline style block: the tag in any case, the body
/// across lines.
pub open spec fn style_pattern() -> Seq<char> {
    "(?si)<style[^>]*>(.*?)</style>"@
}

/// The pattern of the attribute name `class`: the name where no character
/// of a longer name stands before it, with what stands before it as its
/// first group.
pub open spec fn class_pattern() -> Seq<char> {
    "(^|[^\\w:.-])class="@
}

/// The pattern of a hyphenated attribute name.
pub open spec fn attribute_pattern() -> Seq<char> {
    "([a-z]+-[a-z0-9-]+)="@
}

/// The pattern of the opening tag of an `svg` element with attributes.
pub open spec fn root_pattern() -> Seq<char> {
    "<svg (.*?)>"@
}

/// The pattern of the opening tag of the element `from`.
pub open spec fn open_pattern(from: Seq<char>) -> Seq<char> {
    "<"@ + from + "([\\s>])"@
}

/// The pattern of the closing tag of the element `from`.
pub open spec fn close_pattern(from: Seq<char>) -> Seq<char> {
    "</"@ + from + ">"@
}

/// The elements that the native dialect renames, each with its new name.
pub open spec fn native_tags() -> Seq<(Seq<char>, Seq<char>)> {
    seq![
        ("svg"@, "Svg"@),
        ("path"@, "Path"@),
        ("g"@, "G"@),
        ("circle"@, "Circle"@),
        ("rect"@, "Rect"@),
        ("line"@, "Line"@),
        ("polyline"@, "Polyline"@),
        ("polygon"@, "Polygon"@),
        ("ellipse"@, "Ellipse"@),
        ("text"@, "Text"@),
        ("tspan"@, "Tspan"@),
        ("textPath"@, "TextPath"@),
        ("defs"@, "Defs"@),
        ("use"@, "Use"@),
        ("symbol"@, "Symbol"@),
        ("linearGradient"@, "LinearGradient"@),
        ("radialGradient"@, "RadialGradient"@),
        ("stop"@, "Stop"@),
    ]
}

/// The camel-case form of the first `n` characters of a hyphenated name:
/// hyphens are dropped, and a character that follows one is replaced by the
/// first character of its uppercase form.
pub open spec fn camel_prefix(s: Seq<char>, n: int) -> Seq<char>
    decreases n,
{
    if n <= 0 || n > s.len() {
        Seq::empty()
    } else if s[n - 1] == '-' {
        camel_prefix(s, n - 1)
    } else if n >= 2 && s[n - 2] == '-' {
        camel_prefix(s, n - 1).push(upper_text(s[n - 1])[0])
    } else {
        camel_prefix(s, n - 1).push(s[n - 1])
    }
}

/// The camel-case form of a hyphenated name.
pub open spec fn camel_case(s: Seq<char>) -> Seq<char> {
    camel_prefix(s, s.len() as int)
}

/// The name of an attribute in the JSX dialect: `data-` and `aria-` names
/// stay as they are, other hyphenated names turn to camel case.
pub open spec fn jsx_attribute(name: Seq<char>) -> Seq<char> {
    if begins_with(name, "data-"@) || begins_with(name, "aria-"@) {
        name
    } else {
        camel_case(name)
    }
}

/// One fill for each of `n` matches, all the same.
pub open spec fn constant_fills(n: nat, fill: Seq<char>) -> Seq<Seq<char>> {
    Seq::new(n, |k: int| fill)
}

/// For each match its first group between `prefix` and `suffix`.
pub open spec fn framed_fills(hits: Seq<HitView>, prefix: Seq<char>, suffix: Seq<char>) -> Seq<
    Seq<char>,
> {
    Seq::new(hits.len(), |k: int| prefix + group_text(hits[k]) + suffix)
}

/// For each match the JSX form of the attribute name in its first group,
/// and the equals sign.
pub open spec fn attribute_fills(hits: Seq<HitView>) -> Seq<Seq<char>> {
    Seq::new(hits.len(), |k: int| jsx_attribute(group_text(hits[k])) + "="@)
}

/// For the first match an `svg` tag with its attributes and `suffix` in
/// place of the closing bracket; every later match as it stands.
pub open spec fn root_fills(hits: Seq<HitView>, suffix: Seq<char>) -> Seq<Seq<char>> {
    Seq::new(
        hits.len(),
        |k: int|
            if k == 0 {
                "<svg "@ + group_text(hits[k]) + suffix
            } else {
                hits[k].whole
            },
    )
}

/// The text with every match of the pattern replaced by `fill`.
pub open spec fn with_constant(pattern: Seq<char>, text: Seq<char>, fill: Seq<char>) -> Seq<char> {
    woven(regex_gaps(pattern, text), constant_fills(regex_hits(pattern, text).len(), fill))
}

/// The text with every match of the pattern replaced by its first group
/// between `prefix` and `suffix`.
pub open spec fn with_frames(
    pattern: Seq<char>,
    text: Seq<char>,
    prefix: Seq<char>,
    suffix: Seq<char>,
) -> Seq<char> {
    woven(regex_gaps(pattern, text), framed_fills(regex_hits(pattern, text), prefix, suffix))
}

/// The markup with the attribute names that the pattern finds turned to the
/// JSX dialect.
pub open spec fn with_attributes(pattern: Seq<char>, text: Seq<char>) -> Seq<char> {
    woven(regex_gaps(pattern, text), attribute_fills(regex_hits(pattern, text)))
}

/// The markup with `suffix` put at the end of the first opening `svg` tag
/// that the pattern finds.
pub open spec fn with_root_props(pattern: Seq<char>, text: Seq<char>, suffix: Seq<char>) -> Seq<
    char,
> {
    woven(regex_gaps(pattern, text), root_fills(regex_hits(pattern, text), suffix))
}

/// The first groups of the first `n` matches.
pub open spec fn groups(hits: Seq<HitView>) -> Seq<Seq<char>> {
    Seq::new(hits.len(), |k: int| group_text(hits[k]))
}

/// The markup without its inline style blocks.
pub open spec fn style_free(content: Seq<char>) -> Seq<char> {
    with_constant(style_pattern(), content, Seq::empty())
}

/// The bodies of the inline style blocks of the markup, in document order,
/// one to a line.
pub open spec fn style_text(content: Seq<char>) -> Seq<char> {
    joined(groups(regex_hits(style_pattern(), content)), "\n"@)
}

/// The markup in the JSX dialect: the attribute name `class` becomes
/// `className`, hyphenated attribute names turn to camel case, comments
/// become expression comments.
pub open spec fn jsx_markup(content: Seq<char>) -> Seq<char> {
    let classed = with_frames(class_pattern(), content, Seq::empty(), "className="@);
    let cased = with_attributes(attribute_pattern(), classed);
    replaced(replaced(cased, "<!--"@, "{/*"@), "-->"@, "*/}"@)
}

/// Markup under way to the native dialect, and the new names of the
/// elements found in it so far.
pub struct NativeState {
    pub markup: Seq<char>,
    pub used: Seq<Seq<char>>,
}

/// Renames one element where it occurs: the opening tags, then the closing
/// tags, and notes the new name.
pub open spec fn native_step(state: NativeState, from: Seq<char>, to: Seq<char>) -> NativeState {
    if regex_hits(open_pattern(from), state.markup).len() > 0 || regex_hits(
        close_pattern(from),
        state.markup,
    ).len() > 0 {
        let opened = with_frames(open_pattern(from), state.markup, "<"@ + to, Seq::empty());
        NativeState {
            markup: with_constant(close_pattern(from), opened, "</"@ + to + ">"@),
            used: state.used.push(to),
        }
    } else {
        state
    }
}

/// The state after the first `n` elements of the table were renamed.
pub open spec fn native_after(markup: Seq<char>, n: int) -> NativeState
    decreases n,
{
    if n <= 0 || n > native_tags().len() {
        NativeState { markup, used: Seq::empty() }
    } else {
        native_step(native_after(markup, n - 1), native_tags()[n - 1].0, native_tags()[n - 1].1)
    }
}

/// The markup in the native dialect: JSX first, then the elements of the
/// table renamed, `className` attributes dropped, `href` renamed.
pub open spec fn native_markup(content: Seq<char>) -> Seq<char> {
    let tagged = native_after(jsx_markup(content), native_tags().len() as int).markup;
    replaced(replaced(tagged, "className="@, ""@), "href="@, "xlinkHref="@)
}

/// The new names of the elements that occur in the markup, in table order.
pub open spec fn native_used(content: Seq<char>) -> Seq<Seq<char>> {
    native_after(jsx_markup(content), native_tags().len() as int).used
}

/// Of the first `n` names, those that are imported by name: all but `Svg`.
pub open spec fn named_imports(used: Seq<Seq<char>>, n: int) -> Seq<Seq<char>>
    decreases n,
{
    if n <= 0 || n > used.len() {
        Seq::empty()
    } else if used[n - 1] == "Svg"@ {
        named_imports(used, n - 1)
    } else {
        named_imports(used, n - 1).push(used[n - 1])
    }
}

/// The import line of a native component.
pub open spec fn native_imports(used: Seq<Seq<char>>) -> Seq<char> {
    let others = named_imports(used, used.len() as int);
    "import Svg"@ + (if others.len() > 0 {
        ", { "@ + joined(others, ", "@) + " }"@
    } else {
        Seq::empty()
    }) + " from 'react-native-svg';"@
}

/// The function of a native component.
pub open spec fn native_code(markup: Seq<char>, name: Seq<char>) -> Seq<char> {
    "\nexport function "@ + name + "(props) {\n  return (\n    "@ + markup + "\n  )\n}"@
}

/// The source of a native component: its function alone as a snippet, else
/// a whole file with imports and a default export.
pub open spec fn native_source(content: Seq<char>, name: Seq<char>, snippet: bool) -> Seq<char> {
    let code = native_code(native_markup(content), name);
    if snippet {
        code
    } else {
        "import React from 'react';\n"@ + native_imports(native_used(content)) + "\n\n"@ + code
            + "\nexport default "@ + name + ";"@
    }
}

/// The function of a Qwik component.
pub open spec fn qwik_code(markup: Seq<char>, name: Seq<char>) -> Seq<char> {
    "\nexport function "@ + name
        + "(props: QwikIntrinsicElements['svg'], key: string) {\n  return (\n    "@ + markup
        + "\n  )\n}"@
}

/// The source of a Qwik component: JSX markup with props and key put into
/// the root tag.
pub open spec fn qwik_source(content: Seq<char>, name: Seq<char>, snippet: bool) -> Seq<char> {
    let markup = with_root_props(root_pattern(), jsx_markup(content), " {...props} key={key}>"@);
    let code = qwik_code(markup, name);
    if snippet {
        code
    } else {
        "import type { QwikIntrinsicElements } from '@builder.io/qwik'\n"@ + code
            + "\nexport default "@ + name
    }
}

/// The function of a Solid component.
pub open spec fn solid_code(markup: Seq<char>, name: Seq<char>) -> Seq<char> {
    "\nexport function "@ + name + "(props: JSX.IntrinsicElements['svg']) {\n  return (\n    "@
        + markup + "\n  )\n}"@
}

/// The source of a Solid component: the markup as it stands with props put
/// into the root tag.
pub open spec fn solid_source(content: Seq<char>, name: Seq<char>, snippet: bool) -> Seq<char> {
    let markup = with_root_props(root_pattern(), content, " {...props}>"@);
    let code = solid_code(markup, name);
    if snippet {
        code
    } else {
        "import type { JSX } from 'solid-js'\n"@ + code + "\nexport default "@ + name
    }
}

/// The source of an Astro component: front matter, then the markup as it
/// stands with props put into the root tag.
pub open spec fn astro_source(content: Seq<char>) -> Seq<char> {
    "---\nconst props = Astro.props\n---\n\n"@ + with_root_props(
        root_pattern(),
        content,
        " {{...props}}>"@,
    )
}

/// Turns a hyphenated attribute name into camel case.
pub fn to_camel_case(name: &str) -> (out: String)
    ensures
        out@ == camel_case(name@),
{
    let chars = chars_of(name);
    let mut out = String::new();
    let mut i: usize = 0;
    while i < chars.len()
        invariant
            i <= chars@.len(),
            chars@ == name@,
            out@ == camel_prefix(name@, i as int),
        decreases chars@.len() - i,
    {
        let c = chars[i];
        if c == '-' {
        } else if i >= 1 && chars[i - 1] == '-' {
            let up = upper_chars(c);
            push_char(&mut out, up[0]);
        } else {
            push_char(&mut out, c);
        }
        i = i + 1;
    }
    out
}

/// Gives the name of an attribute in the JSX dialect.
pub fn to_jsx_attribute(name: &str) -> (out: String)
    ensures
        out@ == jsx_attribute(name@),
{
    let chars = chars_of(name);
    if has_prefix(&chars, "data-") || has_prefix(&chars, "aria-") {
        String::from_str(name)
    } else {
        to_camel_case(name)
    }
}

/// The text of the first group of a match.
pub fn group_of(hit: &Hit) -> (text: &str)
    ensures
        text@ == group_text(hit@),
{
    match &hit.group {
        Some(g) => g.as_str(),
        None => {
            proof {
                reveal_strlit("");
            }
            assert(""@ =~= Seq::<char>::empty());
            ""
        },
    }
}

/// Gives one fill for each of `n` matches, all the same.
pub fn constant_fill_list(n: usize, fill: &str) -> (fills: Vec<String>)
    ensures
        fills@.len() == n,
        texts(fills@) == constant_fills(n as nat, fill@),
{
    let mut fills: Vec<String> = Vec::new();
    let mut k: usize = 0;
    while k < n
        invariant
            k <= n,
            fills@.len() == k,
            forall|j: int| 0 <= j < k ==> fills@[j]@ == fill@,
        decreases n - k,
    {
        fills.push(String::from_str(fill));
        k = k + 1;
    }
    assert(texts(fills@) =~= constant_fills(n as nat, fill@));
    fills
}

/// Gives for each match its first group between `prefix` and `suffix`.
pub fn framed_fill_list(hits: &Vec<Hit>, prefix: &str, suffix: &str) -> (fills: Vec<String>)
    ensures
        fills@.len() == hits@.len(),
        texts(fills@) == framed_fills(hit_views(hits@), prefix@, suffix@),
{
    let mut fills: Vec<String> = Vec::new();
    let mut k: usize = 0;
    while k < hits.len()
        invariant
            k <= hits@.len(),
            fills@.len() == k,
            forall|j: int|
                0 <= j < k ==> fills@[j]@ == prefix@ + group_text(hits@[j]@) + suffix@,
        decreases hits@.len() - k,
    {
        let mut fill = String::from_str(prefix);
        fill.append(group_of(&hits[k]));
        fill.append(suffix);
        fills.push(fill);
        k = k + 1;
    }
    assert(texts(fills@) =~= framed_fills(hit_views(hits@), prefix@, suffix@));
    fills
}

/// Gives for each match the JSX form of the attribute name in its first
/// group, and the equals sign.
pub fn attribute_fill_list(hits: &Vec<Hit>) -> (fills: Vec<String>)
    ensures
        fills@.len() == hits@.len(),
        texts(fills@) == attribute_fills(hit_views(hits@)),
{
    let mut fills: Vec<String> = Vec::new();
    let mut k: usize = 0;
    while k < hits.len()
        invariant
            k <= hits@.len(),
            fills@.len() == k,
            forall|j: int|
                0 <= j < k ==> fills@[j]@ == jsx_attribute(group_text(hits@[j]@)) + "="@,
        decreases hits@.len() - k,
    {
        let mut fill = to_jsx_attribute(group_of(&hits[k]));
        fill.append("=");
        fills.push(fill);
        k = k + 1;
    }
    assert(texts(fills@) =~= attribute_fills(hit_views(hits@)));
    fills
}

/// Gives for the first match an `svg` tag with its attributes and `suffix`
/// in place of the closing bracket, and every later match as it stands.
pub fn root_fill_list(hits: &Vec<Hit>, suffix: &str) -> (fills: Vec<String>)
    ensures
        fills@.len() == hits@.len(),
        texts(fills@) == root_fills(hit_views(hits@), suffix@),
{
    let mut fills: Vec<String> = Vec::new();
    let mut k: usize = 0;
    while k < hits.len()
        invariant
            k <= hits@.len(),
            fills@.len() == k,
            forall|j: int|
                0 <= j < k ==> fills@[j]@ == (if j == 0 {
                    "<svg "@ + group_text(hits@[j]@) + suffix@
                } else {
                    hits@[j]@.whole
                }),
        decreases hits@.len() - k,
    {
        if k == 0 {
            let mut fill = String::from_str("<svg ");
            fill.append(group_of(&hits[k]));
            fill.append(suffix);
            fills.push(fill);
        } else {
            fills.push(String::from_str(hits[k].whole.as_str()));
        }
        k = k + 1;
    }
    assert(texts(fills@) =~= root_fills(hit_views(hits@), suffix@));
    fills
}

/// Gives the first group of each match.
pub fn group_list(hits: &Vec<Hit>) -> (bodies: Vec<String>)
    ensures
        bodies@.len() == hits@.len(),
        texts(bodies@) == groups(hit_views(hits@)),
{
    let mut bodies: Vec<String> = Vec::new();
    let mut k: usize = 0;
    while k < hits.len()
        invariant
            k <= hits@.len(),
            bodies@.len() == k,
            forall|j: int| 0 <= j < k ==> bodies@[j]@ == group_text(hits@[j]@),
        decreases hits@.len() - k,
    {
        bodies.push(String::from_str(group_of(&hits[k])));
        k = k + 1;
    }
    assert(texts(bodies@) =~= groups(hit_views(hits@)));
    bodies
}

/// Replaces every match of `re` in `text` by `fill`.
fn replace_constant(re: &regex::Regex, text: &str, fill: &str) -> (out: String)
    requires
        regex_source(*re) is Some,
    ensures
        out@ == with_constant(regex_source(*re)->0, text@, fill@),
{
    let hits = find_hits(re, text);
    let gaps = split_text(re, text);
    weave(&gaps, &constant_fill_list(hits.len(), fill))
}

/// Replaces every match of `re` in `text` by its first group between
/// `prefix` and `suffix`.
fn replace_framed(re: &regex::Regex, text: &str, prefix: &str, suffix: &str) -> (out: String)
    requires
        regex_source(*re) is Some,
    ensures
        out@ == with_frames(regex_source(*re)->0, text@, prefix@, suffix@),
{
    let hits = find_hits(re, text);
    let gaps = split_text(re, text);
    weave(&gaps, &framed_fill_list(&hits, prefix, suffix))
}

/// Turns the attribute names that `re` finds in `text` to the JSX dialect.
fn replace_attributes(re: &regex::Regex, text: &str) -> (out: String)
    requires
        regex_source(*re) is Some,
    ensures
        out@ == with_attributes(regex_source(*re)->0, text@),
{
    let hits = find_hits(re, text);
    let gaps = split_text(re, text);
    weave(&gaps, &attribute_fill_list(&hits))
}

/// Puts `suffix` at the end of the first opening `svg` tag that `re` finds.
fn replace_root(re: &regex::Regex, text: &str, suffix: &str) -> (out: String)
    requires
        regex_source(*re) is Some,
    ensures
        out@ == with_root_props(regex_source(*re)->0, text@, suffix@),
{
    let hits = find_hits(re, text);
    let gaps = split_text(re, text);
    weave(&gaps, &root_fill_list(&hits, suffix))
}

/// Whether the regular-expression engine compiles the patterns of the
/// opening and the closing tag of element `i` of the native table.
pub open spec fn tag_accepted(i: int) -> bool {
    regex_accepts(open_pattern(native_tags()[i].0)) && regex_accepts(
        close_pattern(native_tags()[i].0),
    )
}

/// Whether the regular-expression engine compiles every pattern of the
/// rewriter: the four patterns of the markup and those of the tags of each
/// element of the native table.
pub open spec fn patterns_accepted() -> bool {
    &&& regex_accepts(style_pattern())
    &&& regex_accepts(class_pattern())
    &&& regex_accepts(attribute_pattern())
    &&& regex_accepts(root_pattern())
    &&& forall|i: int| 0 <= i < native_tags().len() ==> #[trigger] tag_accepted(i)
}

/// The compiled patterns of one element of the native dialect.
pub struct TagRule {
    open: regex::Regex,
    close: regex::Regex,
    name: String,
}

/// The compiled patterns that the rewriter works with.
pub struct MarkupPatterns {
    style: regex::Regex,
    class: regex::Regex,
    attribute: regex::Regex,
    root: regex::Regex,
    tags: Vec<TagRule>,
}

/// The table of the native dialect.
fn tag_table() -> (table: Vec<(&'static str, &'static str)>)
    ensures
        table@.len() == native_tags().len(),
        forall|i: int|
            0 <= i < table@.len() ==> table@[i].0@ == native_tags()[i].0 && table@[i].1@
                == native_tags()[i].1,
{
    let mut table: Vec<(&'static str, &'static str)> = Vec::new();
    table.push(("svg", "Svg"));
    table.push(("path", "Path"));
    table.push(("g", "G"));
    table.push(("circle", "Circle"));
    table.push(("rect", "Rect"));
    table.push(("line", "Line"));
    table.push(("polyline", "Polyline"));
    table.push(("polygon", "Polygon"));
    table.push(("ellipse", "Ellipse"));
    table.push(("text", "Text"));
    table.push(("tspan", "Tspan"));
    table.push(("textPath", "TextPath"));
    table.push(("defs", "Defs"));
    table.push(("use", "Use"));
    table.push(("symbol", "Symbol"));
    table.push(("linearGradient", "LinearGradient"));
    table.push(("radialGradient", "RadialGradient"));
    table.push(("stop", "Stop"));
    table
}

impl MarkupPatterns {
    /// The text that the pattern of style blocks was compiled from.
    pub closed spec fn style_source(&self) -> Option<Seq<char>> {
        regex_source(self.style)
    }

    /// The text that the pattern of the `class` attribute was compiled from.
    pub closed spec fn class_source(&self) -> Option<Seq<char>> {
        regex_source(self.class)
    }

    /// The text that the pattern of hyphenated attribute names was compiled
    /// from.
    pub closed spec fn attribute_source(&self) -> Option<Seq<char>> {
        regex_source(self.attribute)
    }

    /// The text that the pattern of the root tag was compiled from.
    pub closed spec fn root_source(&self) -> Option<Seq<char>> {
        regex_source(self.root)
    }

    /// The number of elements that patterns are held for.
    pub closed spec fn tag_count(&self) -> nat {
        self.tags@.len()
    }

    /// The text that the pattern of the opening tag of element `i` was
    /// compiled from.
    pub closed spec fn open_source(&self, i: int) -> Option<Seq<char>> {
        regex_source(self.tags@[i].open)
    }

    /// The text that the pattern of the closing tag of element `i` was
    /// compiled from.
    pub closed spec fn close_source(&self, i: int) -> Option<Seq<char>> {
        regex_source(self.tags@[i].close)
    }

    /// The name that element `i` takes in the native dialect.
    pub closed spec fn tag_name(&self, i: int) -> Seq<char> {
        self.tags@[i].name@
    }

    /// Whether each pattern was compiled, with the default options, from the
    /// text that the rewriter states for it: the four patterns of the
    /// markup, and for each element of the native table, in table order, the
    /// patterns of its opening and closing tags beside its new name.
    pub open spec fn compiled_as_stated(&self) -> bool {
        &&& self.style_source() == Some(style_pattern())
        &&& self.class_source() == Some(class_pattern())
        &&& self.attribute_source() == Some(attribute_pattern())
        &&& self.root_source() == Some(root_pattern())
        &&& self.tag_count() == native_tags().len()
        &&& forall|i: int|
            #![trigger self.open_source(i)]
            #![trigger self.close_source(i)]
            #![trigger self.tag_name(i)]
            0 <= i < self.tag_count() ==> {
                &&& self.open_source(i) == Some(open_pattern(native_tags()[i].0))
                &&& self.close_source(i) == Some(close_pattern(native_tags()[i].0))
                &&& self.tag_name(i) == native_tags()[i].1
            }
    }

    /// Every value of the type holds the patterns as stated.
    #[verifier::type_invariant]
    closed spec fn wf(&self) -> bool {
        self.compiled_as_stated()
    }

    /// Compiles the patterns of the rewriter, each from the text that the
    /// rewriter states for it. They are handed back where the
    /// regular-expression engine compiles every one of them, and nothing
    /// where it refuses one.
    pub fn compile() -> (patterns: Option<MarkupPatterns>)
        ensures
            patterns is Some <==> patterns_accepted(),
            patterns is Some ==> patterns->0.compiled_as_stated(),
    {
        let style = match compile("(?si)<style[^>]*>(.*?)</style>") {
            Some(re) => re,
            None => { return None; },
        };
        let class = match compile("(^|[^\\w:.-])class=") {
            Some(re) => re,
            None => { return None; },
        };
        let attribute = match compile("([a-z]+-[a-z0-9-]+)=") {
            Some(re) => re,
            None => { return None; },
        };
        let root = match compile("<svg (.*?)>") {
            Some(re) => re,
            None => { return None; },
        };
        let table = tag_table();
        let mut tags: Vec<TagRule> = Vec::new();
        let mut i: usize = 0;
        while i < table.len()
            invariant
                i <= table@.len(),
                table@.len() == native_tags().len(),
                forall|k: int|
                    0 <= k < table@.len() ==> table@[k].0@ == native_tags()[k].0 && table@[k].1@
                        == native_tags()[k].1,
                tags@.len() == i,
                forall|k: int| 0 <= k < i ==> #[trigger] tag_accepted(k),
                forall|k: int|
                    0 <= k < i ==> {
                        &&& regex_source((#[trigger] tags@[k]).open) == Some(
                            open_pattern(native_tags()[k].0),
                        )
                        &&& regex_source(tags@[k].close) == Some(
                            close_pattern(native_tags()[k].0),
                        )
                        &&& tags@[k].name@ == native_tags()[k].1
                    },
            decreases table@.len() - i,
        {
            let from = table[i].0;
            let to = table[i].1;
            let mut open_text = String::from_str("<");
            open_text.append(from);
            open_text.append("([\\s>])");
            let mut close_text = String::from_str("</");
            close_text.append(from);
            close_text.append(">");
            let open = match compile(open_text.as_str()) {
                Some(re) => re,
                None => {
                    assert(!tag_accepted(i as int));
                    return None;
                },
            };
            let close = match compile(close_text.as_str()) {
                Some(re) => re,
                None => {
                    assert(!tag_accepted(i as int));
                    return None;
                },
            };
            tags.push(TagRule { open, close, name: String::from_str(to) });
            i = i + 1;
        }
        let patterns = MarkupPatterns { style, class, attribute, root, tags };
        assert(patterns.compiled_as_stated()) by {
            assert forall|k: int|
                #![trigger patterns.open_source(k)]
                #![trigger patterns.close_source(k)]
                #![trigger patterns.tag_name(k)]
                0 <= k < patterns.tag_count() implies {
                &&& patterns.open_source(k) == Some(open_pattern(native_tags()[k].0))
                &&& patterns.close_source(k) == Some(close_pattern(native_tags()[k].0))
                &&& patterns.tag_name(k) == native_tags()[k].1
            } by {
                assert(regex_source(patterns.tags@[k].open) == Some(
                    open_pattern(native_tags()[k].0),
                ));
            }
        }
        Some(patterns)
    }

    /// Takes the inline style blocks out of the markup. Hands back the
    /// markup without them, and their bodies one to a line. What is left of
    /// the markup and the blocks that were taken out, in turn, make up the
    /// markup that was given.
    pub fn extract_styles(&self, content: &str) -> (parts: (String, String))
        ensures
            parts.0@ == style_free(content@),
            parts.1@ == style_text(content@),
            tiles(
                regex_gaps(style_pattern(), content@),
                regex_hits(style_pattern(), content@),
                content@,
            ),
    {
        proof {
            use_type_invariant(self);
        }
        let template = replace_constant(&self.style, content, "");
        proof {
            reveal_strlit("");
        }
        assert(""@ =~= Seq::<char>::empty());
        let hits = find_hits(&self.style, content);
        (template, join_texts(&group_list(&hits), "\n"))
    }

    /// Rewrites markup into the JSX dialect.
    pub fn svg_to_jsx(&self, content: &str) -> (out: String)
        ensures
            out@ == jsx_markup(content@),
    {
        proof {
            use_type_invariant(self);
        }
        proof {
            reveal_strlit("");
            reveal_strlit("<!--");
            reveal_strlit("-->");
        }
        assert(""@ =~= Seq::<char>::empty());
        let classed = replace_framed(&self.class, content, "", "className=");
        let cased = replace_attributes(&self.attribute, classed.as_str());
        let opened = replace_text(cased.as_str(), "<!--", "{/*");
        replace_text(opened.as_str(), "-->", "*/}")
    }

    /// Rewrites markup into the native dialect and notes which elements
    /// occur in it.
    fn native_parts(&self, content: &str) -> (parts: (String, Vec<String>))
        ensures
            parts.0@ == native_markup(content@),
            texts(parts.1@) == native_used(content@),
    {
        proof {
            use_type_invariant(self);
        }
        let mut svg = self.svg_to_jsx(content);
        let mut used: Vec<String> = Vec::new();
        let mut i: usize = 0;
        assert(texts(used@) =~= Seq::<Seq<char>>::empty());
        while i < self.tags.len()
            invariant
                self.wf(),
                i <= self.tags@.len(),
                svg@ == native_after(jsx_markup(content@), i as int).markup,
                texts(used@) == native_after(jsx_markup(content@), i as int).used,
            decreases self.tags@.len() - i,
        {
            let rule = &self.tags[i];
            let ghost before = texts(used@);
            assert(self.open_source(i as int) == Some(open_pattern(native_tags()[i as int].0)));
            assert(self.close_source(i as int) == Some(close_pattern(native_tags()[i as int].0)));
            assert(self.tag_name(i as int) == native_tags()[i as int].1);
            let open_hits = find_hits(&rule.open, svg.as_str());
            let close_hits = find_hits(&rule.close, svg.as_str());
            if open_hits.len() > 0 || close_hits.len() > 0 {
                used.push(String::from_str(rule.name.as_str()));
                assert(texts(used@) =~= before.push(rule.name@));
                let mut open_fill = String::from_str("<");
                open_fill.append(rule.name.as_str());
                proof {
                    reveal_strlit("");
                }
                assert(""@ =~= Seq::<char>::empty());
                let opened = replace_framed(&rule.open, svg.as_str(), open_fill.as_str(), "");
                let mut close_fill = String::from_str("</");
                close_fill.append(rule.name.as_str());
                close_fill.append(">");
                svg = replace_constant(&rule.close, opened.as_str(), close_fill.as_str());
            }
            i = i + 1;
        }
        proof {
            reveal_strlit("className=");
            reveal_strlit("href=");
        }
        let bare = replace_text(svg.as_str(), "className=", "");
        (replace_text(bare.as_str(), "href=", "xlinkHref="), used)
    }

    /// Renders markup as a native component.
    pub fn svg_to_react_native(&self, content: &str, name: &str, snippet: bool) -> (out: String)
        ensures
            out@ == native_source(content@, name@, snippet),
    {
        proof {
            use_type_invariant(self);
        }
        let parts = self.native_parts(content);
        let svg = parts.0;
        let used = parts.1;
        let mut code = String::from_str("\nexport function ");
        code.append(name);
        code.append("(props) {\n  return (\n    ");
        code.append(svg.as_str());
        code.append("\n  )\n}");
        if snippet {
            return code;
        }
        let mut others: Vec<String> = Vec::new();
        let mut k: usize = 0;
        assert(texts(others@) =~= Seq::<Seq<char>>::empty());
        while k < used.len()
            invariant
                k <= used@.len(),
                texts(others@) == named_imports(texts(used@), k as int),
            decreases used@.len() - k,
        {
            let ghost before = texts(others@);
            if !crate::order::same_text(used[k].as_str(), "Svg") {
                others.push(String::from_str(used[k].as_str()));
                assert(texts(others@) =~= before.push(used@[k as int]@));
            }
            k = k + 1;
        }
        let mut imports = String::from_str("import Svg");
        if others.len() > 0 {
            let mut list = String::from_str(", { ");
            list.append(join_texts(&others, ", ").as_str());
            list.append(" }");
            imports.append(list.as_str());
        } else {
            assert(imports@ + Seq::<char>::empty() =~= imports@);
        }
        imports.append(" from 'react-native-svg';");
        let mut out = String::from_str("import React from 'react';\n");
        out.append(imports.as_str());
        out.append("\n\n");
        out.append(code.as_str());
        out.append("\nexport default ");
        out.append(name);
        out.append(";");
        out
    }

    /// Renders markup as a Qwik component.
    pub fn svg_to_qwik(&self, content: &str, name: &str, snippet: bool) -> (out: String)
        ensures
            out@ == qwik_source(content@, name@, snippet),
    {
        proof {
            use_type_invariant(self);
        }
        let jsx = self.svg_to_jsx(content);
        let svg = replace_root(&self.root, jsx.as_str(), " {...props} key={key}>");
        let mut code = String::from_str("\nexport function ");
        code.append(name);
        code.append("(props: QwikIntrinsicElements['svg'], key: string) {\n  return (\n    ");
        code.append(svg.as_str());
        code.append("\n  )\n}");
        if snippet {
            return code;
        }
        let mut out = String::from_str(
            "import type { QwikIntrinsicElements } from '@builder.io/qwik'\n",
        );
        out.append(code.as_str());
        out.append("\nexport default ");
        out.append(name);
        out
    }

    /// Renders markup as a Solid component.
    pub fn svg_to_solid(&self, content: &str, name: &str, snippet: bool) -> (out: String)
        ensures
            out@ == solid_source(content@, name@, snippet),
    {
        proof {
            use_type_invariant(self);
        }
        let svg = replace_root(&self.root, content, " {...props}>");
        let mut code = String::from_str("\nexport function ");
        code.append(name);
        code.append("(props: JSX.IntrinsicElements['svg']) {\n  return (\n    ");
        code.append(svg.as_str());
        code.append("\n  )\n}");
        if snippet {
            return code;
        }
        let mut out = String::from_str("import type { JSX } from 'solid-js'\n");
        out.append(code.as_str());
        out.append("\nexport default ");
        out.append(name);
        out
    }

    /// Renders markup as an Astro component.
    pub fn svg_to_astro(&self, content: &str) -> (out: String)
        ensures
            out@ == astro_source(content@),
    {
        proof {
            use_type_invariant(self);
        }
        let svg = replace_root(&self.root, content, " {{...props}}>");
        let mut out = String::from_str("---\nconst props = Astro.props\n---\n\n");
        out.append(svg.as_str());
        out
    }
}

/// Takes the inline style blocks out of the markup. Hands back the markup
/// without them and their bodies one to a line; or the markup as it stands
/// and no styles, where the patterns cannot be compiled.
pub fn extract_styles(content: &str) -> (parts: (String, String))
    ensures
        patterns_accepted() ==> parts.0@ == style_free(content@) && parts.1@ == style_text(
            content@,
        ),
        patterns_accepted() ==> tiles(
            regex_gaps(style_pattern(), content@),
            regex_hits(style_pattern(), content@),
            content@,
        ),
        !patterns_accepted() ==> parts.0@ == content@ && parts.1@ == Seq::<char>::empty(),
{
    match MarkupPatterns::compile() {
        Some(patterns) => patterns.extract_styles(content),
        None => (String::from_str(content), String::new()),
    }
}

/// Rewrites markup into the JSX dialect; hands it back as it stands where
/// the patterns cannot be compiled.
pub fn svg_to_jsx(content: &str) -> (out: String)
    ensures
        patterns_accepted() ==> out@ == jsx_markup(content@),
        !patterns_accepted() ==> out@ == content@,
{
    match MarkupPatterns::compile() {
        Some(patterns) => patterns.svg_to_jsx(content),
        None => String::from_str(content),
    }
}

/// Renders markup as a native component; hands it back as it stands where
/// the patterns cannot be compiled.
pub fn svg_to_react_native(content: &str, name: &str, snippet: bool) -> (out: String)
    ensures
        patterns_accepted() ==> out@ == native_source(content@, name@, snippet),
        !patterns_accepted() ==> out@ == content@,
{
    match MarkupPatterns::compile() {
        Some(patterns) => patterns.svg_to_react_native(content, name, snippet),
        None => String::from_str(content),
    }
}

/// Renders markup as a Qwik component; hands it back as it stands where the
/// patterns cannot be compiled.
pub fn svg_to_qwik(content: &str, name: &str, snippet: bool) -> (out: String)
    ensures
        patterns_accepted() ==> out@ == qwik_source(content@, name@, snippet),
        !patterns_accepted() ==> out@ == content@,
{
    match MarkupPatterns::compile() {
        Some(patterns) => patterns.svg_to_qwik(content, name, snippet),
        None => String::from_str(content),
    }
}

/// Renders markup as a Solid component; hands it back as it stands where
/// the patterns cannot be compiled.
pub fn svg_to_solid(content: &str, name: &str, snippet: bool) -> (out: String)
    ensures
        patterns_accepted() ==> out@ == solid_source(content@, name@, snippet),
        !patterns_accepted() ==> out@ == content@,
{
    match MarkupPatterns::compile() {
        Some(patterns) => patterns.svg_to_solid(content, name, snippet),
        None => String::from_str(content),
    }
}

/// Renders markup as an Astro component; hands it back as it stands where
/// the patterns cannot be compiled.
pub fn svg_to_astro(content: &str) -> (out: String)
    ensures
        patterns_accepted() ==> out@ == astro_source(content@),
        !patterns_accepted() ==> out@ == content@,
{
    match MarkupPatterns::compile() {
        Some(patterns) => patterns.svg_to_astro(content),
        None => String::from_str(content),
    }
}

/// The language attribute of a script block.
pub open spec fn script_language(typescript: bool) -> Seq<char> {
    if typescript {
        " lang=\"ts\""@
    } else {
        Seq::empty()
    }
}

/// The source of a React component around JSX markup.
pub open spec fn react_source(name: Seq<char>, jsx: Seq<char>, typescript: bool) -> Seq<char> {
    "import * as React from 'react';\n\nconst "@ + name + (if typescript {
        " = (props: React.SVGProps<SVGSVGElement>) => (\n"@
    } else {
        " = (props) => (\n"@
    }) + jsx + "\n);\n\nexport default "@ + name + ";"@
}

/// Gives the language attribute of a script block.
pub fn script_language_of(typescript: bool) -> (lang: &'static str)
    ensures
        lang@ == script_language(typescript),
{
    if typescript {
        " lang=\"ts\""
    } else {
        proof {
            reveal_strlit("");
        }
        assert(""@ =~= Seq::<char>::empty());
        ""
    }
}

/// Writes a React component around JSX markup.
pub fn react_component(name: &str, jsx: &str, typescript: bool) -> (out: String)
    ensures
        out@ == react_source(name@, jsx@, typescript),
{
    let mut out = String::from_str("import * as React from 'react';\n\nconst ");
    out.append(name);
    if typescript {
        out.append(" = (props: React.SVGProps<SVGSVGElement>) => (\n");
    } else {
        out.append(" = (props) => (\n");
    }
    out.append(jsx);
    out.append("\n);\n\nexport default ");
    out.append(name);
    out.append(";");
    out
}

} // verus!
