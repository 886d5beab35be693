use dx_icon::converters::utils::{
    attribute_fill_list, constant_fill_list, extract_styles, framed_fill_list, group_list, group_of,
    react_component, root_fill_list, script_language_of, svg_to_astro, svg_to_jsx, svg_to_qwik,
    svg_to_react_native, svg_to_solid, to_camel_case, to_jsx_attribute, to_pascal_case,
    MarkupPatterns,
};
use dx_icon::pattern::{weave, Hit};
use dx_icon::text::{chars_of, is_space, join_texts, replace_text, upper_chars};

#[test]
fn pascal_case_joins_capitalised_words() {
    assert_eq!(to_pascal_case("arrow-left-circle"), "ArrowLeftCircle");
}

#[test]
fn pascal_case_of_nothing_is_nothing() {
    assert_eq!(to_pascal_case(""), "");
}

#[test]
fn pascal_case_splits_at_white_space_and_hyphens() {
    assert_eq!(to_pascal_case("hello world"), "HelloWorld");
    assert_eq!(to_pascal_case("  a--b\tc "), "ABC");
    assert_eq!(to_pascal_case("react_light"), "React_light");
    assert_eq!(to_pascal_case("x"), "X");
}

#[test]
fn pascal_case_keeps_the_rest_of_a_word() {
    assert_eq!(to_pascal_case("gitHub-logo"), "GitHubLogo");
    assert_eq!(to_pascal_case("24-hours"), "24Hours");
}

#[test]
fn pascal_case_uses_the_whole_uppercase_mapping() {
    assert_eq!(to_pascal_case("\u{df}-x"), "SSX");
    assert_eq!(to_pascal_case("\u{e9}t\u{e9}"), "\u{c9}t\u{e9}");
}

#[test]
fn pascal_case_knows_every_kind_of_white_space() {
    assert_eq!(to_pascal_case("a\u{b}b\u{c}c\rd\ne"), "ABCDE");
    assert_eq!(to_pascal_case("a\u{a0}b\u{3000}c\u{2028}d"), "ABCD");
    assert_eq!(to_pascal_case("a\u{1c}b\u{200b}c"), "A\u{1c}b\u{200b}c");
    assert_eq!(to_pascal_case("z{|}~\u{7f}"), "Z{|}~\u{7f}");
    assert_eq!(to_pascal_case("`a"), "`a");
}

#[test]
fn camel_case_raises_what_follows_a_hyphen() {
    assert_eq!(to_camel_case("stroke-width"), "strokeWidth");
    assert_eq!(to_camel_case("a-b-c"), "aBC");
    assert_eq!(to_camel_case("a--b"), "aB");
    assert_eq!(to_camel_case("font-2x-"), "font2x");
    assert_eq!(to_camel_case("plain"), "plain");
    assert_eq!(to_camel_case(""), "");
}

#[test]
fn jsx_attribute_keeps_data_and_aria_names() {
    assert_eq!(to_jsx_attribute("data-foo"), "data-foo");
    assert_eq!(to_jsx_attribute("aria-label"), "aria-label");
    assert_eq!(to_jsx_attribute("stroke-linecap"), "strokeLinecap");
    assert_eq!(to_jsx_attribute("dat-a"), "datA");
}

#[test]
fn jsx_rewrites_attribute_names() {
    assert_eq!(
        svg_to_jsx("<path stroke-width=\"2\" class=\"x\" data-foo=\"y\"/>"),
        "<path strokeWidth=\"2\" className=\"x\" data-foo=\"y\"/>"
    );
}

#[test]
fn jsx_rewrites_comments() {
    assert_eq!(svg_to_jsx("<g><!-- note --></g>"), "<g>{/* note */}</g>");
}

#[test]
fn jsx_applied_twice_changes_nothing_more() {
    let once = svg_to_jsx("<path fill-rule=\"evenodd\" class=\"a\" aria-hidden=\"true\"/>");
    assert_eq!(once, "<path fillRule=\"evenodd\" className=\"a\" aria-hidden=\"true\"/>");
    assert_eq!(svg_to_jsx(&once), once);
}

#[test]
fn jsx_leaves_plain_markup_alone() {
    let markup = "<svg viewBox=\"0 0 1 1\"><path d=\"M0 0\"/></svg>";
    assert_eq!(svg_to_jsx(markup), markup);
    assert_eq!(svg_to_jsx(""), "");
}

#[test]
fn styles_are_taken_out() {
    let (template, styles) = extract_styles("<svg><style>.cls{fill:red}</style><path/></svg>");
    assert_eq!(template, "<svg><path/></svg>");
    assert_eq!(styles, ".cls{fill:red}");
}

#[test]
fn styles_put_back_give_the_document() {
    let document = "<svg><style>.cls{fill:red}</style><path/></svg>";
    let (template, styles) = extract_styles(document);
    let rebuilt = template.replacen("<svg>", &format!("<svg><style>{}</style>", styles), 1);
    assert_eq!(rebuilt, document);
}

#[test]
fn several_style_blocks_come_one_to_a_line() {
    let (template, styles) =
        extract_styles("<svg><STYLE type=\"text/css\">a{}\nb{}</STYLE><g/><style>c{}</style></svg>");
    assert_eq!(template, "<svg><g/></svg>");
    assert_eq!(styles, "a{}\nb{}\nc{}");
}

#[test]
fn markup_without_styles_is_kept() {
    let (template, styles) = extract_styles("<svg><path/></svg>");
    assert_eq!(template, "<svg><path/></svg>");
    assert_eq!(styles, "");
}

#[test]
fn native_component_renames_elements_and_imports_them() {
    let out = svg_to_react_native(
        "<svg viewBox=\"0 0 24 24\"><g class=\"a\"><path stroke-width=\"2\" d=\"M0 0\"/></g></svg>",
        "Icon",
        false,
    );
    assert_eq!(
        out,
        "import React from 'react';\nimport Svg, { Path, G } from 'react-native-svg';\n\n\n\
         export function Icon(props) {\n  return (\n    \
         <Svg viewBox=\"0 0 24 24\"><G \"a\"><Path strokeWidth=\"2\" d=\"M0 0\"/></G></Svg>\n  )\n}\n\
         export default Icon;"
    );
}

#[test]
fn native_snippet_is_the_function_alone() {
    let out = svg_to_react_native("<svg><use href=\"#a\"/></svg>", "Mark", true);
    assert_eq!(
        out,
        "\nexport function Mark(props) {\n  return (\n    <Svg><Use xlinkHref=\"#a\"/></Svg>\n  )\n}"
    );
}

#[test]
fn native_component_without_other_elements_imports_svg_alone() {
    let out = svg_to_react_native("<svg></svg>", "Empty", false);
    assert_eq!(
        out,
        "import React from 'react';\nimport Svg from 'react-native-svg';\n\n\n\
         export function Empty(props) {\n  return (\n    <Svg></Svg>\n  )\n}\nexport default Empty;"
    );
}

#[test]
fn native_component_does_not_rename_longer_names() {
    let out = svg_to_react_native("<svg><textPath>x</textPath><texture/></svg>", "T", true);
    assert_eq!(
        out,
        "\nexport function T(props) {\n  return (\n    \
         <Svg><TextPath>x</TextPath><texture/></Svg>\n  )\n}"
    );
}

#[test]
fn qwik_component_takes_props_and_key() {
    let out = svg_to_qwik("<svg width=\"24\" class=\"i\"><path/></svg>", "Icon", false);
    assert_eq!(
        out,
        "import type { QwikIntrinsicElements } from '@builder.io/qwik'\n\n\
         export function Icon(props: QwikIntrinsicElements['svg'], key: string) {\n  return (\n    \
         <svg width=\"24\" className=\"i\" {...props} key={key}><path/></svg>\n  )\n}\n\
         export default Icon"
    );
}

#[test]
fn qwik_snippet_is_the_function_alone() {
    let out = svg_to_qwik("<svg a=\"1\"></svg>", "I", true);
    assert_eq!(
        out,
        "\nexport function I(props: QwikIntrinsicElements['svg'], key: string) {\n  return (\n    \
         <svg a=\"1\" {...props} key={key}></svg>\n  )\n}"
    );
}

#[test]
fn solid_component_keeps_the_markup() {
    let out = svg_to_solid("<svg class=\"i\" stroke-width=\"2\"><svg x=\"1\"/></svg>", "Icon", false);
    assert_eq!(
        out,
        "import type { JSX } from 'solid-js'\n\n\
         export function Icon(props: JSX.IntrinsicElements['svg']) {\n  return (\n    \
         <svg class=\"i\" stroke-width=\"2\" {...props}><svg x=\"1\"/></svg>\n  )\n}\n\
         export default Icon"
    );
}

#[test]
fn solid_leaves_a_root_without_attributes_alone() {
    let out = svg_to_solid("<svg><path/></svg>", "Icon", true);
    assert_eq!(
        out,
        "\nexport function Icon(props: JSX.IntrinsicElements['svg']) {\n  return (\n    \
         <svg><path/></svg>\n  )\n}"
    );
}

#[test]
fn astro_component_has_front_matter() {
    let out = svg_to_astro("<svg width=\"1\"><path/></svg>");
    assert_eq!(
        out,
        "---\nconst props = Astro.props\n---\n\n<svg width=\"1\" {{...props}}><path/></svg>"
    );
}

#[test]
fn compiled_patterns_serve_many_calls() {
    let patterns = MarkupPatterns::compile().unwrap();
    assert_eq!(patterns.svg_to_jsx("<a class=\"b\"/>"), "<a className=\"b\"/>");
    let (template, styles) = patterns.extract_styles("<style>x</style>y");
    assert_eq!(template, "y");
    assert_eq!(styles, "x");
    assert_eq!(
        patterns.svg_to_astro("<svg a>"),
        "---\nconst props = Astro.props\n---\n\n<svg a {{...props}}>"
    );
    assert_eq!(
        patterns.svg_to_solid("<svg a>", "N", true),
        "\nexport function N(props: JSX.IntrinsicElements['svg']) {\n  return (\n    \
         <svg a {...props}>\n  )\n}"
    );
    assert_eq!(
        patterns.svg_to_qwik("<svg a>", "N", true),
        "\nexport function N(props: QwikIntrinsicElements['svg'], key: string) {\n  return (\n    \
         <svg a {...props} key={key}>\n  )\n}"
    );
    assert_eq!(
        patterns.svg_to_react_native("<svg a>", "N", true),
        "\nexport function N(props) {\n  return (\n    <Svg a>\n  )\n}"
    );
}

#[test]
fn literal_replacement_goes_from_the_left() {
    assert_eq!(replace_text("aaa", "aa", "b"), "ba");
    assert_eq!(replace_text("a-b-c", "-", " "), "a b c");
    assert_eq!(replace_text("abc", "x", "y"), "abc");
    assert_eq!(replace_text("", "x", "y"), "");
    assert_eq!(replace_text("className=\"a\"", "className=", ""), "\"a\"");
}

#[test]
fn texts_are_joined_with_a_separator() {
    assert_eq!(join_texts(&vec!["a".to_string(), "b".to_string(), "c".to_string()], ", "), "a, b, c");
    assert_eq!(join_texts(&vec!["a".to_string()], ", "), "a");
    assert_eq!(join_texts(&vec![], ", "), "");
}

#[test]
fn gaps_and_fills_are_woven() {
    let gaps = vec!["a".to_string(), "b".to_string(), "c".to_string()];
    let fills = vec!["1".to_string(), "2".to_string()];
    assert_eq!(weave(&gaps, &fills), "a1b2c");
    assert_eq!(weave(&vec!["only".to_string()], &vec![]), "only");
}

#[test]
fn characters_are_listed_in_order() {
    assert_eq!(chars_of("a\u{e9}\u{1f600}"), vec!['a', '\u{e9}', '\u{1f600}']);
    assert_eq!(chars_of(""), Vec::<char>::new());
}

fn hit(whole: &str, group: Option<&str>) -> Hit {
    Hit { whole: whole.to_string(), group: group.map(|g| g.to_string()) }
}

#[test]
fn matches_are_filled_from_their_first_group() {
    let hits = vec![hit("<svg a>", Some("a")), hit("<svg b>", Some("b")), hit("x", None)];
    assert_eq!(constant_fill_list(2, "c"), vec!["c", "c"]);
    assert_eq!(constant_fill_list(0, "c"), Vec::<String>::new());
    assert_eq!(framed_fill_list(&hits, "<", ">"), vec!["<a>", "<b>", "<>"]);
    assert_eq!(root_fill_list(&hits, " {...props}>"), vec!["<svg a {...props}>", "<svg b>", "x"]);
    assert_eq!(group_list(&hits), vec!["a", "b", ""]);
    assert_eq!(group_of(&hits[0]), "a");
    assert_eq!(group_of(&hits[2]), "");
}

#[test]
fn attribute_names_are_filled_in_the_jsx_form() {
    let hits = vec![
        hit("stroke-width=", Some("stroke-width")),
        hit("data-x=", Some("data-x")),
        hit("aria-label=", Some("aria-label")),
    ];
    assert_eq!(attribute_fill_list(&hits), vec!["strokeWidth=", "data-x=", "aria-label="]);
}

#[test]
fn a_react_component_wraps_its_markup() {
    assert_eq!(
        react_component("N", "<svg/>", true),
        "import * as React from 'react';\n\nconst N = (props: React.SVGProps<SVGSVGElement>) => \
         (\n<svg/>\n);\n\nexport default N;"
    );
    assert_eq!(script_language_of(true), " lang=\"ts\"");
    assert_eq!(script_language_of(false), "");
}

#[test]
fn characters_have_an_uppercase_form() {
    assert_eq!(upper_chars('a'), vec!['A']);
    assert_eq!(upper_chars('z'), vec!['Z']);
    assert_eq!(upper_chars('A'), vec!['A']);
    assert_eq!(upper_chars('5'), vec!['5']);
    assert_eq!(upper_chars('{'), vec!['{']);
    assert_eq!(upper_chars('`'), vec!['`']);
    assert_eq!(upper_chars('\u{df}'), vec!['S', 'S']);
    assert_eq!(upper_chars('\u{fb03}'), vec!['F', 'F', 'I']);
    for code in 0u32..0x3000 {
        if let Some(c) = char::from_u32(code) {
            assert_eq!(upper_chars(c), c.to_uppercase().collect::<Vec<char>>());
            assert_eq!(is_space(c), c.is_whitespace());
        }
    }
}

#[test]
fn jsx_renames_only_the_attribute_named_class() {
    assert_eq!(svg_to_jsx("<g data-class='x'/>"), "<g data-class='x'/>");
    assert_eq!(svg_to_jsx("<g subclass='x' my_class='y'/>"), "<g subclass='x' my_class='y'/>");
    assert_eq!(svg_to_jsx("<g xlink:class='x' a.class='y'/>"), "<g xlink:class='x' a.class='y'/>");
    assert_eq!(svg_to_jsx("<g\tclass='x'\nclass='y'/>"), "<g\tclassName='x'\nclassName='y'/>");
    assert_eq!(svg_to_jsx("class='x'"), "className='x'");
    assert_eq!(svg_to_jsx("<g a='b'class='x'/>"), "<g a='b'className='x'/>");
    assert_eq!(svg_to_jsx("<g my-class='x'/>"), "<g myClass='x'/>");
}

#[test]
fn jsx_keeps_aria_names_and_raises_hyphenated_ones() {
    assert_eq!(
        svg_to_jsx("<svg aria-hidden='true' fill-rule='evenodd' clip-path='url(#a)'/>"),
        "<svg aria-hidden='true' fillRule='evenodd' clipPath='url(#a)'/>"
    );
}

#[test]
fn styles_of_the_sample_document_are_taken_out() {
    let document = "<svg><style>.cls{fill:red}</style><path class='cls'/></svg>";
    let (template, styles) = extract_styles(document);
    assert_eq!(template, "<svg><path class='cls'/></svg>");
    assert_eq!(styles, ".cls{fill:red}");
    let at = "<svg>".len();
    let rebuilt = format!("{}<style>{}</style>{}", &template[..at], styles, &template[at..]);
    assert_eq!(rebuilt, document);
}

#[test]
fn a_style_tag_may_stand_in_any_case_with_attributes_across_lines() {
    let (template, styles) = extract_styles("<svg><StYlE\n type='text/css'>a{}\n</sTyLe><g/></svg>");
    assert_eq!(template, "<svg><g/></svg>");
    assert_eq!(styles, "a{}\n");
}

#[test]
fn native_snippet_of_the_sample_document() {
    assert_eq!(
        svg_to_react_native("<svg viewBox='0 0 24 24'><path d='M0 0'/></svg>", "Icon", true),
        "\nexport function Icon(props) {\n  return (\n    \
         <Svg viewBox='0 0 24 24'><Path d='M0 0'/></Svg>\n  )\n}"
    );
}

#[test]
fn native_file_holds_the_snippet_between_imports_and_export() {
    let content = "<svg><defs><linearGradient id='a'><stop offset='0'/></linearGradient></defs>\
                   <use href='#a' stroke-width='2'/></svg>";
    let snippet = svg_to_react_native(content, "Icon", true);
    assert_eq!(
        snippet,
        "\nexport function Icon(props) {\n  return (\n    \
         <Svg><Defs><LinearGradient id='a'><Stop offset='0'/></LinearGradient></Defs>\
         <Use xlinkHref='#a' strokeWidth='2'/></Svg>\n  )\n}"
    );
    let file = svg_to_react_native(content, "Icon", false);
    assert_eq!(
        file,
        format!(
            "import React from 'react';\n\
             import Svg, {{ Defs, Use, LinearGradient, Stop }} from 'react-native-svg';\n\n\
             {}\nexport default Icon;",
            snippet
        )
    );
    assert_eq!(file, svg_to_react_native(content, "Icon", false));
}
