use dx_icon::converters::iconsets::{IconData, Measure};
use dx_icon::converters::svgl::{icon_name_of, parse_dimension, read_measures, SvgIcon};
use dx_icon::readers::{IconSetsReader, SvglReader};
use dx_icon::xml::{XmlAttribute, XmlToken};
use dx_icon::{icon_sets, svgl};

fn attribute(key: &str, value: &str) -> Option<XmlAttribute> {
    Some(XmlAttribute { key: key.to_string(), value: value.to_string() })
}

fn element(name: &str, attributes: Vec<Option<XmlAttribute>>) -> XmlToken {
    XmlToken::Element { name: name.to_string(), attributes }
}

#[test]
fn test_parse_svg() {
    let svg = r#"<svg width="100" height="100" viewBox="0 0 100 100"><path d="M10 10"/></svg>"#;
    let icon = SvgIcon::from_source("test.svg", svg);
    assert_eq!(icon.filename, "test");
    assert_eq!(icon.width, Some(100));
    assert_eq!(icon.height, Some(100));
    assert_eq!(icon.viewbox, Some("0 0 100 100".to_string()));
}

#[test]
fn the_document_is_kept_as_it_stands() {
    let svg = "<?xml version=\"1.0\"?>\n<!-- c -->\n<svg width=\"1\">\n  <path/>\n</svg>\n";
    let icon = SvgIcon::from_source("a.svg", svg);
    assert_eq!(icon.svg_content, svg);
    assert_eq!(icon.width, Some(1));
}

#[test]
fn absent_measures_stay_absent() {
    let icon = SvgIcon::from_source("x.svg", "<svg viewBox=\"0 0 24 24\"></svg>");
    assert_eq!(icon.width, None);
    assert_eq!(icon.height, None);
    assert_eq!(icon.viewbox, Some("0 0 24 24".to_string()));
}

#[test]
fn a_root_that_closes_itself_is_read() {
    let icon = SvgIcon::from_source("x.svg", "<svg width=\"7px\" height=\"8\"/>");
    assert_eq!(icon.width, Some(7));
    assert_eq!(icon.height, Some(8));
    assert_eq!(icon.viewbox, None);
}

#[test]
fn only_the_first_svg_element_is_read() {
    let icon = SvgIcon::from_source(
        "x.svg",
        "<svg width=\"1\"><svg width=\"2\" height=\"3\" viewBox=\"0 0 2 3\"/></svg>",
    );
    assert_eq!(icon.width, Some(1));
    assert_eq!(icon.height, None);
    assert_eq!(icon.viewbox, None);
}

#[test]
fn markup_that_cannot_be_read_gives_an_icon_without_measures() {
    let broken = "<!-- <svg width=\"5\">";
    let icon = SvgIcon::from_source("broken.svg", broken);
    assert_eq!(icon.filename, "broken");
    assert_eq!(icon.svg_content, broken);
    assert_eq!(icon.width, None);
    assert_eq!(icon.height, None);
    assert_eq!(icon.viewbox, None);
}

#[test]
fn a_document_without_root_gives_an_icon_without_measures() {
    let icon = SvgIcon::from_source("empty.svg", "");
    assert_eq!(icon.filename, "empty");
    assert_eq!(icon.svg_content, "");
    assert_eq!(icon.width, None);
    let other = SvgIcon::from_source("g.svg", "<g width=\"3\"/>");
    assert_eq!(other.width, None);
}

#[test]
fn measures_with_a_unit_are_read() {
    assert_eq!(parse_dimension("24px"), Some(24));
    assert_eq!(parse_dimension("24"), Some(24));
    assert_eq!(parse_dimension("24pxpx"), Some(24));
    assert_eq!(parse_dimension("+24"), Some(24));
    assert_eq!(parse_dimension("007"), Some(7));
    assert_eq!(parse_dimension("0"), Some(0));
    assert_eq!(parse_dimension("4294967295"), Some(4294967295));
}

#[test]
fn measures_that_are_no_whole_numbers_are_absent() {
    assert_eq!(parse_dimension("24.5"), None);
    assert_eq!(parse_dimension(""), None);
    assert_eq!(parse_dimension("px"), None);
    assert_eq!(parse_dimension("+"), None);
    assert_eq!(parse_dimension("-1"), None);
    assert_eq!(parse_dimension("100%"), None);
    assert_eq!(parse_dimension("1em"), None);
    assert_eq!(parse_dimension(" 24"), None);
    assert_eq!(parse_dimension("24 px"), None);
    assert_eq!(parse_dimension("4294967296"), None);
    assert_eq!(parse_dimension("99999999999999999999999"), None);
    assert_eq!(parse_dimension("\u{661}"), None);
}

#[test]
fn icons_are_named_by_the_stem_of_the_file() {
    assert_eq!(icon_name_of("test.svg"), "test");
    assert_eq!(icon_name_of("dir/sub/react_light.svg"), "react_light");
    assert_eq!(icon_name_of("archive.tar.gz"), "archive.tar");
    assert_eq!(icon_name_of("noext"), "noext");
    assert_eq!(icon_name_of(".hidden"), ".hidden");
    assert_eq!(icon_name_of("a."), "a");
    assert_eq!(icon_name_of("..a"), ".");
}

#[test]
fn a_file_name_without_stem_gives_the_fallback_name() {
    assert_eq!(icon_name_of(""), "unknown");
    assert_eq!(icon_name_of("dir/"), "unknown");
    assert_eq!(icon_name_of(".."), "unknown");
    assert_eq!(icon_name_of("."), "unknown");
    assert_eq!(icon_name_of("a/.."), "unknown");
}

#[test]
fn tokens_before_the_root_are_passed_over() {
    let tokens = vec![
        XmlToken::Other,
        element("g", vec![attribute("width", "9")]),
        element("svg", vec![attribute("viewBox", "0 0 24 24")]),
        element("svg", vec![attribute("width", "5")]),
        XmlToken::End,
    ];
    let icon = SvgIcon::from_tokens("icon.svg", "<doc/>", &tokens);
    assert_eq!(icon.filename, "icon");
    assert_eq!(icon.svg_content, "<doc/>");
    assert_eq!(icon.viewbox, Some("0 0 24 24".to_string()));
    assert_eq!(icon.width, None);
    assert_eq!(icon.height, None);
}

#[test]
fn a_fault_before_the_root_ends_the_scan() {
    let tokens = vec![XmlToken::Fault, element("svg", vec![attribute("width", "5")])];
    let icon = SvgIcon::from_tokens("icon.svg", "x", &tokens);
    assert_eq!(icon.width, None);
    let ended = vec![XmlToken::End, element("svg", vec![attribute("width", "5")])];
    assert_eq!(SvgIcon::from_tokens("icon.svg", "x", &ended).width, None);
    assert_eq!(SvgIcon::from_tokens("icon.svg", "x", &vec![]).width, None);
}

#[test]
fn of_attributes_with_one_key_the_last_counts() {
    let m = read_measures(&vec![
        attribute("width", "24"),
        None,
        attribute("height", "12px"),
        attribute("width", "wide"),
        attribute("viewBox", "a"),
        attribute("viewBox", "b"),
        attribute("Width", "3"),
    ]);
    assert_eq!(m.width, None);
    assert_eq!(m.height, Some(12));
    assert_eq!(m.viewbox, Some("b".to_string()));
}

#[test]
fn react_component_is_named_in_pascal_case() {
    let icon = SvgIcon::from_source("react-light.svg", "<svg class=\"a\"><path stroke-width=\"1\"/></svg>");
    assert_eq!(
        icon.to_react_component(true),
        "import * as React from 'react';\n\n\
         const ReactLight = (props: React.SVGProps<SVGSVGElement>) => (\n\
         <svg className=\"a\"><path strokeWidth=\"1\"/></svg>\n\
         );\n\n\
         export default ReactLight;"
    );
    assert_eq!(
        icon.to_react_component(false),
        "import * as React from 'react';\n\n\
         const ReactLight = (props) => (\n\
         <svg className=\"a\"><path strokeWidth=\"1\"/></svg>\n\
         );\n\n\
         export default ReactLight;"
    );
}

#[test]
fn vue_component_moves_styles_to_a_scoped_section() {
    let icon = SvgIcon::from_source("a.svg", "<svg><style>.a{}</style><path/></svg>");
    assert_eq!(
        icon.to_vue_component(true),
        "<script setup lang=\"ts\">\n</script>\n\n<template>\n<svg><path/></svg>\n</template>\n\n\
         <style scoped>\n.a{}\n</style>"
    );
    let plain = SvgIcon::from_source("a.svg", "<svg><path/></svg>");
    assert_eq!(
        plain.to_vue_component(false),
        "<script setup>\n</script>\n\n<template>\n<svg><path/></svg>\n</template>\n"
    );
}

#[test]
fn svelte_component_moves_styles_to_a_section() {
    let icon = SvgIcon::from_source("a.svg", "<svg><style>.a{}</style><path/></svg>");
    assert_eq!(
        icon.to_svelte_component(false),
        "<script>\n</script>\n\n<svg><path/></svg>\n\n<style>\n.a{}\n</style>"
    );
    let plain = SvgIcon::from_source("a.svg", "<svg><path/></svg>");
    assert_eq!(
        plain.to_svelte_component(true),
        "<script lang=\"ts\">\n</script>\n\n<svg><path/></svg>\n"
    );
}

#[test]
fn standalone_icons_render_for_the_other_frameworks() {
    let icon = SvgIcon::from_source("my-icon.svg", "<svg width=\"1\"><path/></svg>");
    assert_eq!(
        icon.to_react_native_component(true),
        "import React from 'react';\nimport Svg from 'react-native-svg';\n\n\n\
         export function MyIcon(props) {\n  return (\n    <Svg width=\"1\"><path/></Svg>\n  )\n}\n\
         export default MyIcon;"
    );
    assert_eq!(
        icon.to_qwik_component(false),
        "import type { QwikIntrinsicElements } from '@builder.io/qwik'\n\n\
         export function MyIcon(props: QwikIntrinsicElements['svg'], key: string) {\n  return (\n    \
         <svg width=\"1\" {...props} key={key}><path/></svg>\n  )\n}\nexport default MyIcon"
    );
    assert_eq!(
        icon.to_solid_component(false),
        "import type { JSX } from 'solid-js'\n\n\
         export function MyIcon(props: JSX.IntrinsicElements['svg']) {\n  return (\n    \
         <svg width=\"1\" {...props}><path/></svg>\n  )\n}\nexport default MyIcon"
    );
    assert_eq!(
        icon.to_astro_component(),
        "---\nconst props = Astro.props\n---\n\n<svg width=\"1\" {{...props}}><path/></svg>"
    );
}

fn fragment(width: Option<(u32, &str)>, height: Option<(u32, &str)>) -> IconData {
    IconData {
        body: "<path d=\"M0 0\"/>".to_string(),
        width: width.map(|(units, text)| Measure { units, text: text.to_string() }),
        height: height.map(|(units, text)| Measure { units, text: text.to_string() }),
    }
}

#[test]
fn a_fragment_is_wrapped_at_the_default_size() {
    assert_eq!(
        fragment(None, None).to_svg(24, 16),
        "<svg viewBox=\"0 0 24 16\" width=\"24\" height=\"16\" fill=\"currentColor\">\
         <path d=\"M0 0\"/></svg>"
    );
    assert_eq!(
        fragment(None, None).to_svg(0, 4294967295),
        "<svg viewBox=\"0 0 0 4294967295\" width=\"0\" height=\"4294967295\" fill=\"currentColor\">\
         <path d=\"M0 0\"/></svg>"
    );
}

#[test]
fn a_fragment_is_wrapped_at_its_own_size() {
    assert_eq!(
        fragment(Some((30, "30.5")), Some((12, "12"))).to_svg(24, 16),
        "<svg viewBox=\"0 0 30.5 12\" width=\"30.5\" height=\"12\" fill=\"currentColor\">\
         <path d=\"M0 0\"/></svg>"
    );
}

#[test]
fn fragments_render_as_components() {
    let icon = fragment(None, None);
    assert_eq!(
        icon.to_react_component("arrow-left", 24, 24, false),
        "import * as React from 'react';\n\n\
         const ArrowLeft = (props) => (\n\
         <svg viewBox=\"0 0 24 24\" width=\"24\" height=\"24\" fill=\"currentColor\">\
         <path d=\"M0 0\"/></svg>\n\
         );\n\n\
         export default ArrowLeft;"
    );
    assert_eq!(
        icon.to_vue_component(1, 2, true),
        "<script setup lang=\"ts\">\n</script>\n\n<template>\n\
         <svg viewBox=\"0 0 1 2\" width=\"1\" height=\"2\" fill=\"currentColor\">\
         <path d=\"M0 0\"/></svg>\n</template>"
    );
    assert_eq!(
        icon.to_svelte_component(1, 2, false),
        "<script>\n</script>\n\n\
         <svg viewBox=\"0 0 1 2\" width=\"1\" height=\"2\" fill=\"currentColor\">\
         <path d=\"M0 0\"/></svg>"
    );
    assert_eq!(
        icon.to_react_native_component("arrow-left", 1, 2, true),
        "import React from 'react';\nimport Svg, { Path } from 'react-native-svg';\n\n\n\
         export function ArrowLeft(props) {\n  return (\n    \
         <Svg viewBox=\"0 0 1 2\" width=\"1\" height=\"2\" fill=\"currentColor\">\
         <Path d=\"M0 0\"/></Svg>\n  )\n}\nexport default ArrowLeft;"
    );
    assert_eq!(
        icon.to_qwik_component("arrow-left", 1, 2, true),
        "import type { QwikIntrinsicElements } from '@builder.io/qwik'\n\n\
         export function ArrowLeft(props: QwikIntrinsicElements['svg'], key: string) {\n  return (\n    \
         <svg viewBox=\"0 0 1 2\" width=\"1\" height=\"2\" fill=\"currentColor\" {...props} key={key}>\
         <path d=\"M0 0\"/></svg>\n  )\n}\nexport default ArrowLeft"
    );
    assert_eq!(
        icon.to_solid_component("arrow-left", 1, 2, true),
        "import type { JSX } from 'solid-js'\n\n\
         export function ArrowLeft(props: JSX.IntrinsicElements['svg']) {\n  return (\n    \
         <svg viewBox=\"0 0 1 2\" width=\"1\" height=\"2\" fill=\"currentColor\" {...props}>\
         <path d=\"M0 0\"/></svg>\n  )\n}\nexport default ArrowLeft"
    );
    assert_eq!(
        icon.to_astro_component(1, 2),
        "---\nconst props = Astro.props\n---\n\n\
         <svg viewBox=\"0 0 1 2\" width=\"1\" height=\"2\" fill=\"currentColor\" {{...props}}>\
         <path d=\"M0 0\"/></svg>"
    );
}

#[test]
fn new_readers_hold_nothing() {
    let sets = icon_sets();
    assert!(sets.get("mdi").is_none());
    assert!(sets.list_sets().is_empty());
    assert!(IconSetsReader::new().get("").is_none());
    assert!(IconSetsReader::default().list_sets().is_empty());
    let icons = svgl();
    assert_eq!(icons.count(), 0);
    assert!(icons.get("react").is_none());
    assert!(icons.list_icons().is_empty());
    assert_eq!(SvglReader::new().count(), 0);
    assert_eq!(SvglReader::default().count(), 0);
}

#[test]
fn a_reader_holds_icons_by_name() {
    let icons = vec![
        SvgIcon::from_source("b.svg", "<svg>b</svg>"),
        SvgIcon::from_source("a.svg", "<svg>a</svg>"),
        SvgIcon::from_source("dir/b.svg", "<svg>b2</svg>"),
    ];
    let reader = SvglReader::from_icons(&icons);
    assert_eq!(reader.count(), 2);
    assert_eq!(reader.list_icons(), vec!["b", "a"]);
    let b = reader.get("b").unwrap();
    assert_eq!(b.id, "b");
    assert_eq!(b.filename, "b");
    assert_eq!(b.svg_content, "<svg>b2</svg>");
    assert_eq!(reader.get("a").unwrap().svg_content, "<svg>a</svg>");
    assert!(reader.get("c").is_none());
}

#[test]
fn one_unreadable_document_does_not_stop_the_others() {
    let sources = [
        ("a.svg", "<svg width=\"1\"/>"),
        ("bad.svg", "<svg width=\"1\"<<>>"),
        ("c.svg", "<svg width=\"3\"/>"),
    ];
    let icons: Vec<SvgIcon> =
        sources.iter().map(|(name, text)| SvgIcon::from_source(name, text)).collect();
    let reader = SvglReader::from_icons(&icons);
    assert_eq!(reader.count(), 3);
    assert_eq!(icons[0].width, Some(1));
    assert_eq!(icons[2].width, Some(3));
    assert_eq!(reader.get("bad").unwrap().svg_content, "<svg width=\"1\"<<>>");
}

#[test]
fn a_fault_before_the_root_is_told() {
    let (icon, faulted) = SvgIcon::read_source("broken.svg", "<!-- <svg width=\"5\">");
    assert!(faulted);
    assert_eq!(icon.filename, "broken");
    assert_eq!(icon.width, None);
    let (icon, faulted) = SvgIcon::read_source("fine.svg", "<svg width=\"5\"><!-- </svg>");
    assert!(!faulted);
    assert_eq!(icon.width, Some(5));
    assert!(!SvgIcon::read_source("empty.svg", "").1);
    assert!(!SvgIcon::read_source("g.svg", "<g/>").1);
}

#[test]
fn a_fault_among_the_tokens_is_told() {
    let svg = element("svg", vec![attribute("width", "5")]);
    let (icon, faulted) = SvgIcon::read_tokens("a.svg", "x", &vec![XmlToken::Other, XmlToken::Fault, svg]);
    assert!(faulted);
    assert_eq!(icon.width, None);
    let svg = element("svg", vec![attribute("width", "5")]);
    let (icon, faulted) = SvgIcon::read_tokens("a.svg", "x", &vec![svg, XmlToken::Fault]);
    assert!(!faulted);
    assert_eq!(icon.width, Some(5));
    assert!(!SvgIcon::read_tokens("a.svg", "x", &vec![XmlToken::End, XmlToken::Fault]).1);
    assert!(!SvgIcon::read_tokens("a.svg", "x", &vec![]).1);
}

#[test]
fn the_sample_icons_render() {
    let icon = SvgIcon {
        filename: "arrow-left".to_string(),
        svg_content: "<svg class='a' stroke-width='2'/>".to_string(),
        viewbox: None,
        width: None,
        height: None,
    };
    assert_eq!(
        icon.to_react_component(false),
        "import * as React from 'react';\n\nconst ArrowLeft = (props) => (\n\
         <svg className='a' strokeWidth='2'/>\n);\n\nexport default ArrowLeft;"
    );
    let styled = SvgIcon::from_source(
        "s.svg",
        "<svg><style>.cls{fill:red}</style><path class='cls'/></svg>",
    );
    assert_eq!(
        styled.to_vue_component(true),
        "<script setup lang=\"ts\">\n</script>\n\n<template>\n\
         <svg><path class='cls'/></svg>\n</template>\n\n<style scoped>\n.cls{fill:red}\n</style>"
    );
    let plain = SvgIcon::from_source("arrow-left.svg", "<svg viewBox='0 0 1 1'></svg>");
    assert_eq!(
        plain.to_react_native_component(true),
        "import React from 'react';\nimport Svg from 'react-native-svg';\n\n\n\
         export function ArrowLeft(props) {\n  return (\n    <Svg viewBox='0 0 1 1'></Svg>\n  )\n}\n\
         export default ArrowLeft;"
    );
    assert_eq!(
        plain.to_solid_component(false),
        "import type { JSX } from 'solid-js'\n\n\
         export function ArrowLeft(props: JSX.IntrinsicElements['svg']) {\n  return (\n    \
         <svg viewBox='0 0 1 1' {...props}></svg>\n  )\n}\nexport default ArrowLeft"
    );
}
