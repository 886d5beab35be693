use dx_icon::archive::Field;
use dx_icon::converters::iconsets::{
    author_field_list, icon_field_list, info_field_list, license_field_list, set_field_list, Author,
    IconData, IconSetInfo, IconSetJson, License, Measure, NamedIcon,
};
use dx_icon::converters::svgl::{collection_field_list, svgl_icon_field_list, SvgIcon};
use dx_icon::order::{bytes_before, keys_distinct, same_text, stable_order, text_before};

fn word_at(buf: &[u8], at: usize) -> usize {
    u32::from_le_bytes([buf[at], buf[at + 1], buf[at + 2], buf[at + 3]]) as usize
}

fn half_at(buf: &[u8], at: usize) -> usize {
    u16::from_le_bytes([buf[at], buf[at + 1]]) as usize
}

/// The position of a field of the table at `table`, if the table has it.
fn field_at(buf: &[u8], table: usize, slot: usize) -> Option<usize> {
    let back = i32::from_le_bytes([buf[table], buf[table + 1], buf[table + 2], buf[table + 3]]);
    let vtable = (table as i64 - back as i64) as usize;
    if slot >= half_at(buf, vtable) {
        return None;
    }
    let offset = half_at(buf, vtable + slot);
    if offset == 0 {
        None
    } else {
        Some(table + offset)
    }
}

fn target_of(buf: &[u8], at: usize) -> usize {
    at + word_at(buf, at)
}

fn text_of(buf: &[u8], table: usize, slot: usize) -> Option<String> {
    let at = target_of(buf, field_at(buf, table, slot)?);
    let len = word_at(buf, at);
    Some(String::from_utf8(buf[at + 4..at + 4 + len].to_vec()).unwrap())
}

fn table_of(buf: &[u8], table: usize, slot: usize) -> Option<usize> {
    Some(target_of(buf, field_at(buf, table, slot)?))
}

fn number_of(buf: &[u8], table: usize, slot: usize) -> usize {
    match field_at(buf, table, slot) {
        Some(at) => word_at(buf, at),
        None => 0,
    }
}

fn flag_of(buf: &[u8], table: usize, slot: usize) -> bool {
    match field_at(buf, table, slot) {
        Some(at) => buf[at] != 0,
        None => false,
    }
}

fn tables_of(buf: &[u8], table: usize, slot: usize) -> Vec<usize> {
    let at = target_of(buf, field_at(buf, table, slot).unwrap());
    let len = word_at(buf, at);
    (0..len).map(|i| target_of(buf, at + 4 + 4 * i)).collect()
}

fn root_of(buf: &[u8]) -> usize {
    word_at(buf, 0)
}

fn icon(name: &str, body: &str, width: Option<u32>, height: Option<u32>) -> NamedIcon {
    NamedIcon {
        name: name.to_string(),
        icon: IconData {
            body: body.to_string(),
            width: width.map(|w| Measure { units: w, text: w.to_string() }),
            height: height.map(|h| Measure { units: h, text: h.to_string() }),
        },
    }
}

fn plain_info(name: &str, total: u32) -> IconSetInfo {
    IconSetInfo {
        name: name.to_string(),
        total,
        version: None,
        author: None,
        license: None,
        height: None,
        category: None,
        palette: None,
    }
}

fn full_info() -> IconSetInfo {
    IconSetInfo {
        name: "Test Icons".to_string(),
        total: 7,
        version: Some("1.0.0".to_string()),
        author: Some(Author { name: "Ann".to_string(), url: Some("https://a.example".to_string()) }),
        license: Some(License {
            title: "MIT License".to_string(),
            spdx: "MIT".to_string(),
            url: None,
        }),
        height: Some(24),
        category: Some("General".to_string()),
        palette: Some(true),
    }
}

fn svg(filename: &str, content: &str, viewbox: Option<&str>, width: Option<u32>) -> SvgIcon {
    SvgIcon {
        filename: filename.to_string(),
        svg_content: content.to_string(),
        viewbox: viewbox.map(|v| v.to_string()),
        width,
        height: None,
    }
}

#[test]
fn icons_are_listed_in_the_order_of_their_names() {
    let set = IconSetJson {
        prefix: "test".to_string(),
        info: plain_info("Test Icons", 2),
        last_modified: None,
        icons: vec![icon("b-icon", "<path d='B'/>", None, None), icon("a-icon", "<path d='A'/>", None, None)],
    };
    assert!(set.is_encodable());
    let bytes = set.to_flatbuffer();
    let root = root_of(&bytes);
    let icons = tables_of(&bytes, root, 8);
    assert_eq!(icons.len(), 2);
    assert_eq!(text_of(&bytes, icons[0], 4).unwrap(), "a-icon");
    assert_eq!(text_of(&bytes, icons[0], 6).unwrap(), "<path d='A'/>");
    assert_eq!(text_of(&bytes, icons[1], 4).unwrap(), "b-icon");
    assert_eq!(text_of(&bytes, icons[1], 6).unwrap(), "<path d='B'/>");
}

#[test]
fn the_archive_does_not_depend_on_the_order_held() {
    let names = ["delta", "alpha", "charlie", "bravo", "Echo", "alpha-2", "\u{e9}t\u{e9}"];
    let forward: Vec<NamedIcon> =
        names.iter().map(|n| icon(n, &format!("<g id='{}'/>", n), Some(24), None)).collect();
    let backward: Vec<NamedIcon> =
        names.iter().rev().map(|n| icon(n, &format!("<g id='{}'/>", n), Some(24), None)).collect();
    let a = IconSetJson { prefix: "p".to_string(), info: full_info(), last_modified: Some(1), icons: forward };
    let b = IconSetJson { prefix: "p".to_string(), info: full_info(), last_modified: Some(1), icons: backward };
    let x = a.to_flatbuffer();
    assert_eq!(x, b.to_flatbuffer());
    assert_eq!(x, a.to_flatbuffer());
    let icons = tables_of(&x, root_of(&x), 8);
    let listed: Vec<String> = icons.iter().map(|t| text_of(&x, *t, 4).unwrap()).collect();
    assert_eq!(listed, vec!["Echo", "alpha", "alpha-2", "bravo", "charlie", "delta", "\u{e9}t\u{e9}"]);
}

#[test]
fn the_archive_holds_the_metadata() {
    let set = IconSetJson {
        prefix: "test".to_string(),
        info: full_info(),
        last_modified: None,
        icons: vec![icon("one", "<path/>", Some(16), Some(20))],
    };
    let bytes = set.to_flatbuffer();
    let root = root_of(&bytes);
    assert_eq!(text_of(&bytes, root, 4).unwrap(), "test");
    let info = table_of(&bytes, root, 6).unwrap();
    assert_eq!(text_of(&bytes, info, 4).unwrap(), "Test Icons");
    assert_eq!(number_of(&bytes, info, 6), 7);
    assert_eq!(text_of(&bytes, info, 8).unwrap(), "1.0.0");
    let author = table_of(&bytes, info, 10).unwrap();
    assert_eq!(text_of(&bytes, author, 4).unwrap(), "Ann");
    assert_eq!(text_of(&bytes, author, 6).unwrap(), "https://a.example");
    let license = table_of(&bytes, info, 12).unwrap();
    assert_eq!(text_of(&bytes, license, 4).unwrap(), "MIT License");
    assert_eq!(text_of(&bytes, license, 6).unwrap(), "MIT");
    assert_eq!(text_of(&bytes, license, 8), None);
    assert_eq!(number_of(&bytes, info, 14), 24);
    assert_eq!(text_of(&bytes, info, 16).unwrap(), "General");
    assert!(flag_of(&bytes, info, 18));
    let icons = tables_of(&bytes, root, 8);
    assert_eq!(number_of(&bytes, icons[0], 8), 16);
    assert_eq!(number_of(&bytes, icons[0], 10), 20);
}

#[test]
fn absent_metadata_takes_its_defaults() {
    let set = IconSetJson {
        prefix: "bare".to_string(),
        info: plain_info("Bare", 0),
        last_modified: None,
        icons: vec![icon("one", "<path/>", None, None)],
    };
    let bytes = set.to_flatbuffer();
    let root = root_of(&bytes);
    let info = table_of(&bytes, root, 6).unwrap();
    assert_eq!(number_of(&bytes, info, 6), 0);
    assert_eq!(number_of(&bytes, info, 14), 16);
    assert!(!flag_of(&bytes, info, 18));
    assert_eq!(text_of(&bytes, info, 8), None);
    assert_eq!(table_of(&bytes, info, 10), None);
    assert_eq!(table_of(&bytes, info, 12), None);
    assert_eq!(text_of(&bytes, info, 16), None);
    let icons = tables_of(&bytes, root, 8);
    assert_eq!(number_of(&bytes, icons[0], 8), 0);
    assert_eq!(number_of(&bytes, icons[0], 10), 0);
}

#[test]
fn a_set_without_icons_has_an_empty_list() {
    let set = IconSetJson {
        prefix: "none".to_string(),
        info: plain_info("None", 3),
        last_modified: None,
        icons: vec![],
    };
    let bytes = set.to_flatbuffer();
    let root = root_of(&bytes);
    assert_eq!(tables_of(&bytes, root, 8).len(), 0);
    assert_eq!(text_of(&bytes, root, 4).unwrap(), "none");
}

#[test]
fn a_collection_is_listed_in_the_order_of_its_names() {
    let icons = vec![
        svg("zeta", "<svg>z</svg>", None, None),
        svg("beta", "<svg>b</svg>", Some("0 0 1 1"), Some(12)),
        svg("alpha", "<svg>a</svg>", None, Some(3)),
    ];
    assert!(SvgIcon::collection_fits(&icons));
    let bytes = SvgIcon::build_collection(&icons);
    let listed = tables_of(&bytes, root_of(&bytes), 4);
    assert_eq!(listed.len(), 3);
    assert_eq!(text_of(&bytes, listed[0], 4).unwrap(), "alpha");
    assert_eq!(text_of(&bytes, listed[0], 6).unwrap(), "alpha");
    assert_eq!(text_of(&bytes, listed[0], 8).unwrap(), "<svg>a</svg>");
    assert_eq!(text_of(&bytes, listed[0], 10), None);
    assert_eq!(number_of(&bytes, listed[0], 12), 3);
    assert_eq!(number_of(&bytes, listed[0], 14), 0);
    assert_eq!(text_of(&bytes, listed[1], 4).unwrap(), "beta");
    assert_eq!(text_of(&bytes, listed[1], 10).unwrap(), "0 0 1 1");
    assert_eq!(number_of(&bytes, listed[1], 12), 12);
    assert_eq!(text_of(&bytes, listed[2], 4).unwrap(), "zeta");
}

#[test]
fn a_collection_archive_does_not_depend_on_the_order_given() {
    let one = vec![
        svg("c", "<svg>c</svg>", None, None),
        svg("a", "<svg>a</svg>", Some("0 0 2 2"), None),
        svg("b", "<svg>b</svg>", None, Some(1)),
    ];
    let other = vec![
        svg("b", "<svg>b</svg>", None, Some(1)),
        svg("c", "<svg>c</svg>", None, None),
        svg("a", "<svg>a</svg>", Some("0 0 2 2"), None),
    ];
    let x = SvgIcon::build_collection(&one);
    assert_eq!(x, SvgIcon::build_collection(&other));
    assert_eq!(x, SvgIcon::build_collection(&one));
}

#[test]
fn icons_of_the_same_name_keep_the_order_given() {
    let icons = vec![
        svg("same", "<svg>first</svg>", None, None),
        svg("other", "<svg>o</svg>", None, None),
        svg("same", "<svg>second</svg>", None, None),
    ];
    let bytes = SvgIcon::build_collection(&icons);
    let listed = tables_of(&bytes, root_of(&bytes), 4);
    assert_eq!(text_of(&bytes, listed[0], 4).unwrap(), "other");
    assert_eq!(text_of(&bytes, listed[1], 8).unwrap(), "<svg>first</svg>");
    assert_eq!(text_of(&bytes, listed[2], 8).unwrap(), "<svg>second</svg>");
}

#[test]
fn an_empty_collection_has_an_archive() {
    let bytes = SvgIcon::build_collection(&[]);
    assert_eq!(tables_of(&bytes, root_of(&bytes), 4).len(), 0);
}

#[test]
fn keys_are_ordered_byte_by_byte() {
    assert!(text_before("a", "b"));
    assert!(!text_before("b", "a"));
    assert!(!text_before("a", "a"));
    assert!(text_before("a", "ab"));
    assert!(text_before("", "a"));
    assert!(text_before("Z", "a"));
    assert!(text_before("z", "\u{e9}"));
    assert!(bytes_before(&[1, 2], &[1, 3]));
    assert!(!bytes_before(&[2], &[1, 3]));
    assert!(same_text("abc", "abc"));
    assert!(!same_text("abc", "abd"));
    assert!(!same_text("abc", "ab"));
}

#[test]
fn the_stable_order_ranks_positions() {
    assert_eq!(stable_order(&vec!["b", "a", "c", "a"]), vec![1, 3, 0, 2]);
    assert_eq!(stable_order(&vec![]), Vec::<usize>::new());
    assert_eq!(stable_order(&vec!["x"]), vec![0]);
}

#[test]
fn repeated_names_are_found() {
    let mut set = IconSetJson {
        prefix: "p".to_string(),
        info: plain_info("P", 3),
        last_modified: None,
        icons: vec![icon("b", "", None, None), icon("a", "", None, None), icon("c", "", None, None)],
    };
    assert!(set.is_well_formed());
    set.icons.push(icon("a", "<g/>", None, None));
    assert!(!set.is_well_formed());
    assert!(keys_distinct(&vec![]));
    assert!(keys_distinct(&vec!["x", "y", "xy"]));
    assert!(!keys_distinct(&vec!["x", "y", "x"]));
}

#[test]
fn tables_list_their_fields_from_the_last_slot_down() {
    assert_eq!(
        author_field_list(10, None),
        vec![Field::Offset { slot: 6, offset: None }, Field::Offset { slot: 4, offset: Some(10) }]
    );
    assert_eq!(
        license_field_list(1, 2, Some(3)),
        vec![
            Field::Offset { slot: 8, offset: Some(3) },
            Field::Offset { slot: 6, offset: Some(2) },
            Field::Offset { slot: 4, offset: Some(1) },
        ]
    );
    assert_eq!(
        set_field_list(1, 2, 3),
        vec![
            Field::Offset { slot: 8, offset: Some(3) },
            Field::Offset { slot: 6, offset: Some(2) },
            Field::Offset { slot: 4, offset: Some(1) },
        ]
    );
    assert_eq!(collection_field_list(9), vec![Field::Offset { slot: 4, offset: Some(9) }]);
}

#[test]
fn absent_values_are_stored_as_their_defaults() {
    assert_eq!(
        info_field_list(&plain_info("n", 5), 1, None, None, Some(2), None),
        vec![
            Field::Offset { slot: 16, offset: None },
            Field::Word { slot: 14, value: 16, default: 0 },
            Field::Offset { slot: 12, offset: Some(2) },
            Field::Offset { slot: 10, offset: None },
            Field::Offset { slot: 8, offset: None },
            Field::Word { slot: 6, value: 5, default: 0 },
            Field::Offset { slot: 4, offset: Some(1) },
            Field::Flag { slot: 18, on: false, default_on: false },
        ]
    );
    assert_eq!(
        info_field_list(&full_info(), 1, Some(2), Some(3), Some(4), Some(5)),
        vec![
            Field::Offset { slot: 16, offset: Some(5) },
            Field::Word { slot: 14, value: 24, default: 0 },
            Field::Offset { slot: 12, offset: Some(4) },
            Field::Offset { slot: 10, offset: Some(3) },
            Field::Offset { slot: 8, offset: Some(2) },
            Field::Word { slot: 6, value: 7, default: 0 },
            Field::Offset { slot: 4, offset: Some(1) },
            Field::Flag { slot: 18, on: true, default_on: false },
        ]
    );
    assert_eq!(
        icon_field_list(&icon("a", "b", Some(7), None).icon, 1, 2),
        vec![
            Field::Word { slot: 10, value: 0, default: 0 },
            Field::Word { slot: 8, value: 7, default: 0 },
            Field::Offset { slot: 6, offset: Some(2) },
            Field::Offset { slot: 4, offset: Some(1) },
        ]
    );
    assert_eq!(
        svgl_icon_field_list(1, 2, 3, None, None, Some(8)),
        vec![
            Field::Word { slot: 14, value: 8, default: 0 },
            Field::Word { slot: 12, value: 0, default: 0 },
            Field::Offset { slot: 10, offset: None },
            Field::Offset { slot: 8, offset: Some(3) },
            Field::Offset { slot: 6, offset: Some(2) },
            Field::Offset { slot: 4, offset: Some(1) },
        ]
    );
}

#[test]
fn small_sets_and_collections_are_encoded() {
    let set = IconSetJson {
        prefix: "p".to_string(),
        info: plain_info("P", 1),
        last_modified: None,
        icons: vec![icon("a", "<g/>", None, None)],
    };
    assert_eq!(set.try_to_flatbuffer(), Some(set.to_flatbuffer()));
    let icons = vec![svg("a", "<svg/>", None, None)];
    assert_eq!(SvgIcon::try_build_collection(&icons), Some(SvgIcon::build_collection(&icons)));
}

#[test]
fn a_large_set_is_listed_in_order() {
    let count = 3000u32;
    let icons: Vec<NamedIcon> = (0..count)
        .map(|i| (i * 7919) % count)
        .map(|i| icon(&format!("icon-{:05}", i), &format!("<path d='M{} 0'/>", i), Some(i), None))
        .collect();
    let set = IconSetJson {
        prefix: "big".to_string(),
        info: plain_info("Big", count),
        last_modified: None,
        icons,
    };
    assert!(set.is_well_formed());
    let bytes = set.to_flatbuffer();
    let listed = tables_of(&bytes, root_of(&bytes), 8);
    assert_eq!(listed.len(), count as usize);
    for (i, table) in listed.iter().enumerate() {
        assert_eq!(text_of(&bytes, *table, 4).unwrap(), format!("icon-{:05}", i));
        assert_eq!(number_of(&bytes, *table, 8), i);
    }
}
