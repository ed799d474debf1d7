//! Tests for the HTML/XML character-reference lookup.
use ucinfo::entities::get_entities;
use ucinfo::entities::EntityTable;

fn names(list: &[&str]) -> Vec<String> {
    list.iter().map(|s| s.to_string()).collect()
}

fn test_table() -> EntityTable {
    let entries: Vec<(u32, Vec<String>)> = vec![
        (0x0022, names(&["quot"])),
        (0x0026, names(&["amp"])),
        (0x00a0, names(&["nbsp", "NonBreakingSpace"])),
        (0x00a9, names(&["copy"])),
        (0x00de, names(&["THORN"])),
        (0x00fe, names(&["thorn"])),
        (0x20ac, names(&["euro"])),
        (0x226c, names(&["between", "twixt"])),
    ];
    EntityTable::new(entries).unwrap()
}

#[test]
fn test_htmlentities_loaded() {
    assert!(!test_table().entries.is_empty());
}

#[test]
fn test_get_entities() {
    let table = test_table();

    let entities = get_entities(&table, 0x0020);
    assert_eq!(entities, vec!["&#32;", "&#x20;"]);

    let entities = get_entities(&table, 0x0022);
    assert_eq!(entities, vec!["&quot;", "&#34;", "&#x22;"]);

    let entities = get_entities(&table, 0x0026);
    assert_eq!(entities, vec!["&amp;", "&#38;", "&#x26;"]);

    let entities = get_entities(&table, 0x00a0);
    assert_eq!(
        entities,
        vec!["&nbsp;", "&NonBreakingSpace;", "&#160;", "&#xA0;"]
    );

    let entities = get_entities(&table, 0x00a9);
    assert_eq!(entities, vec!["&copy;", "&#169;", "&#xA9;"]);

    let entities = get_entities(&table, 0x00fe);
    assert_eq!(entities, vec!["&thorn;", "&#254;", "&#xFE;"]);

    let entities = get_entities(&table, 0x00de);
    assert_eq!(entities, vec!["&THORN;", "&#222;", "&#xDE;"]);

    let entities = get_entities(&table, 0x20ac);
    assert_eq!(entities, vec!["&euro;", "&#8364;", "&#x20AC;"]);

    let entities = get_entities(&table, 0x226c);
    assert_eq!(
        entities,
        vec!["&between;", "&twixt;", "&#8812;", "&#x226C;"]
    );
}

#[test]
fn test_get_entities_zero_and_max() {
    let table = test_table();
    assert_eq!(get_entities(&table, 0), vec!["&#0;", "&#x0;"]);
    assert_eq!(
        get_entities(&table, 0xFFFFFFFF),
        vec!["&#4294967295;", "&#xFFFFFFFF;"]
    );
}

#[test]
fn test_entity_table_rejects_unsorted() {
    let entries: Vec<(u32, Vec<String>)> =
        vec![(0x26, names(&["amp"])), (0x22, names(&["quot"]))];
    assert!(EntityTable::new(entries).is_none());
    let duplicate: Vec<(u32, Vec<String>)> =
        vec![(0x26, names(&["amp"])), (0x26, names(&["AMP"]))];
    assert!(EntityTable::new(duplicate).is_none());
    assert!(EntityTable::new(Vec::new()).is_some());
}
