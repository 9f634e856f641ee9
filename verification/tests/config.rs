use typed_db::config::{DbMode, DbOpts};
use typed_db::types::{is_reserved_name, DbTrees};
use typed_db::{Database, DbError};

#[test]
fn default_options() {
    let opts = DbOpts::default();
    assert_eq!(opts.path, "test_infos.db");
    assert_eq!(opts.system_page_cache, None);
    assert_eq!(opts.compression_factor, None);
    assert_eq!(opts.mode, None);
    assert!(!opts.debug);
}

#[test]
fn default_mode_is_fast() {
    assert_eq!(DbMode::default(), DbMode::Fast);
}

#[test]
fn modes_map_to_the_engines() {
    assert!(matches!(DbMode::LowSpace.engine_mode(), sled::Mode::LowSpace));
    assert!(matches!(DbMode::Fast.engine_mode(), sled::Mode::HighThroughput));
}

#[test]
fn unset_options_keep_the_engines_defaults() {
    let config = DbOpts::default().engine_config();
    assert_eq!(config.path.to_str(), Some("test_infos.db"));
    assert_eq!(config.cache_capacity, 1024 * 1024 * 1024);
    assert!(!config.use_compression);
    assert_eq!(config.compression_factor, 5);
    assert!(!config.print_profile_on_drop);
}

#[test]
fn settings_without_an_option_keep_the_engines_defaults() {
    let plain = DbOpts::default().engine_config();
    let tuned = DbOpts {
        compression_factor: Some(7),
        debug: true,
        mode: Some(DbMode::LowSpace),
        path: "/tmp/typed_db_options.db".to_string(),
        system_page_cache: Some(4096),
    }
    .engine_config();
    for config in [plain, tuned] {
        assert_eq!(config.flush_every_ms, Some(500));
        assert_eq!(config.segment_size, 512 * 1024);
        assert!(!config.create_new);
        assert!(!config.temporary);
        assert_eq!(config.idgen_persist_interval, 1_000_000);
        assert_eq!(config.version, (0, 34));
    }
}

#[test]
fn unset_mode_stands_for_the_default_mode() {
    let config = DbOpts::default().engine_config();
    assert!(matches!(config.mode, sled::Mode::HighThroughput));
}

#[test]
fn set_options_reach_the_engine() {
    let opts = DbOpts {
        compression_factor: Some(7),
        debug: true,
        mode: Some(DbMode::Fast),
        path: "/tmp/typed_db_options.db".to_string(),
        system_page_cache: Some(4096),
    };
    let config = opts.engine_config();
    assert_eq!(config.path.to_str(), Some("/tmp/typed_db_options.db"));
    assert_eq!(config.cache_capacity, 4096);
    assert!(config.use_compression);
    assert_eq!(config.compression_factor, 7);
    assert!(matches!(config.mode, sled::Mode::HighThroughput));
    assert!(config.print_profile_on_drop);
}

#[test]
fn each_option_changes_its_own_setting_only() {
    let base = DbOpts { path: "store".to_string(), ..DbOpts::default() };

    let config = DbOpts { system_page_cache: Some(1), ..base.clone() }.engine_config();
    assert_eq!(config.cache_capacity, 1);
    assert!(!config.use_compression);
    assert_eq!(config.compression_factor, 5);
    assert!(!config.print_profile_on_drop);

    let config = DbOpts { compression_factor: Some(22), ..base.clone() }.engine_config();
    assert_eq!(config.cache_capacity, 1024 * 1024 * 1024);
    assert!(config.use_compression);
    assert_eq!(config.compression_factor, 22);

    let config = DbOpts { mode: Some(DbMode::LowSpace), ..base.clone() }.engine_config();
    assert!(matches!(config.mode, sled::Mode::LowSpace));
    assert!(!config.use_compression);

    let config = DbOpts { mode: Some(DbMode::Fast), ..base.clone() }.engine_config();
    assert!(matches!(config.mode, sled::Mode::HighThroughput));
    assert_eq!(config.compression_factor, 5);

    let config = DbOpts { debug: true, ..base.clone() }.engine_config();
    assert!(config.print_profile_on_drop);
    assert_eq!(config.cache_capacity, 1024 * 1024 * 1024);
    assert_eq!(config.path.to_str(), Some("store"));
}

#[test]
fn options_compare_by_their_fields() {
    let opts = DbOpts::default();
    assert_eq!(opts.clone(), opts);
    assert_ne!(DbOpts { debug: true, ..opts.clone() }, opts);
    assert_ne!(DbMode::Fast, DbMode::LowSpace);
}

#[test]
fn store_opens_with_a_page_cache_size_and_a_mode() {
    let opts = DbOpts {
        compression_factor: None,
        debug: false,
        mode: Some(DbMode::Fast),
        path: "/tmp/typed_db_tuned.db".to_string(),
        system_page_cache: Some(1024 * 1024),
    };
    let db = Database::new(&opts).unwrap();
    db.destroy();
    let tree = db.open_tree(DbTrees::Custom("tuned")).unwrap();
    assert_eq!(tree.len(), 0);
    db.destroy();
}

#[test]
fn factor_out_of_the_engines_range_fails_the_open() {
    let opts = DbOpts {
        compression_factor: Some(0),
        path: "/tmp/typed_db_bad_factor.db".to_string(),
        ..DbOpts::default()
    };
    let refused = Database::new(&opts);
    assert!(matches!(refused, Err(DbError::EngineOpen(_))));
    if let Err(DbError::EngineOpen(reason)) = refused {
        assert!(reason.starts_with("Unsupported: "));
    }
}

#[test]
fn partition_names() {
    let name = DbTrees::Custom("foobar");
    assert_eq!(name.str(), "foobar");
    assert_eq!(name.to_string(), "foobar".to_string());
    assert_eq!(DbTrees::Custom("").str(), "");
}

#[test]
fn partition_names_compare_by_name() {
    let owned = "foobar".to_string();
    assert_eq!(DbTrees::Custom("foobar"), DbTrees::Custom(owned.as_str()));
    assert_ne!(DbTrees::Custom("foobar"), DbTrees::Custom("foobarbaz"));
    assert_ne!(DbTrees::Custom("foobar"), DbTrees::Custom("foobaz"));
    assert_ne!(DbTrees::Custom(""), DbTrees::Custom("a"));
    let mut names = std::collections::HashSet::new();
    names.insert(DbTrees::Custom("foobar"));
    assert!(names.contains(&DbTrees::Custom(owned.as_str())));
    assert!(!names.contains(&DbTrees::Custom("other")));
}

#[test]
fn only_the_engines_own_name_is_reserved() {
    assert!(is_reserved_name(b"__sled__default"));
    assert!(!is_reserved_name(b"__sled__defaul"));
    assert!(!is_reserved_name(b"__sled__default_"));
    assert!(!is_reserved_name(b"__SLED__DEFAULT"));
    assert!(!is_reserved_name(b""));
    assert!(!is_reserved_name(b"foobar"));
}
