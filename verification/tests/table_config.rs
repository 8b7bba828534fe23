use stream_decoder::table_config::ColumnConfig;
use stream_decoder::table_config::TableConfig;

fn names(config: &TableConfig) -> Vec<String> {
    config.columns().iter().map(|c| c.name().to_owned()).collect()
}

#[test]
fn column_config_accessors() {
    let col = ColumnConfig::new(7, "time".to_owned());
    assert_eq!(7, col.id());
    assert_eq!("time", col.name());
    assert!(col.visible());

    let mut hidden = ColumnConfig::new_with_visible(8, "internal".to_owned(), false);
    assert!(!hidden.visible());
    hidden.toggle_visible();
    assert!(hidden.visible());
}

#[test]
fn get_with_columns_appends_new_and_drops_gone() {
    let config = TableConfig::new(1);
    let config = config.get_with_columns(vec![
        ColumnConfig::new(10, "a".to_owned()),
        ColumnConfig::new(11, "b".to_owned()),
    ]);
    assert_eq!(vec!["a".to_owned(), "b".to_owned()], names(&config));

    // a new column is appended at the end; a vanished one is dropped
    let config = config.get_with_columns(vec![
        ColumnConfig::new(11, "b".to_owned()),
        ColumnConfig::new(12, "c".to_owned()),
    ]);
    assert_eq!(vec!["b".to_owned(), "c".to_owned()], names(&config));

    // stored order survives reconciliation with reordered input
    let config = config.get_with_columns(vec![
        ColumnConfig::new(12, "c".to_owned()),
        ColumnConfig::new(11, "b".to_owned()),
    ]);
    assert_eq!(vec!["b".to_owned(), "c".to_owned()], names(&config));
}

#[test]
fn visibility_filters() {
    let config = TableConfig::new(2);
    let config = config.get_with_columns(vec![
        ColumnConfig::new(1, "shown".to_owned()),
        ColumnConfig::new_with_visible(2, "hidden".to_owned(), false),
        ColumnConfig::new(3, "also shown".to_owned()),
    ]);

    let visible = config.visible_columns();
    assert_eq!(2, visible.len());
    assert_eq!("shown", visible[0].name());
    assert_eq!("also shown", visible[1].name());

    assert_eq!(vec!["shown".to_owned(), "also shown".to_owned()], config.visible_column_names());
    assert_eq!(vec![1, 3], config.visible_column_ids());
    assert_eq!(2, config.id());
}
