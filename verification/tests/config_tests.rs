use quicktool::config::{ClassConfig, parse_class_code, derive_account_name};
use quicktool::overlay::ConfigOverlay;

#[test]
fn class_code_forms() {
    assert_eq!(parse_class_code("1091"), Some("DPST1091".to_string()));
    assert_eq!(parse_class_code("1098"), Some("DPST1098".to_string()));
    assert_eq!(parse_class_code("1511"), Some("COMP1511".to_string()));
    assert_eq!(parse_class_code("cs1511"), Some("COMP1511".to_string()));
    assert_eq!(parse_class_code("comp1511"), Some("COMP1511".to_string()));
    assert_eq!(parse_class_code("SENG2021"), Some("SENG2021".to_string()));
    assert_eq!(parse_class_code("gsoe9820"), Some("GSOE9820".to_string()));
}

#[test]
fn class_code_rejections() {
    assert_eq!(parse_class_code(""), None);
    assert_eq!(parse_class_code("151"), None);
    assert_eq!(parse_class_code("15111"), None);
    assert_eq!(parse_class_code("cs151"), None);
    assert_eq!(parse_class_code("cs15x1"), None);
    assert_eq!(parse_class_code("comp151"), None);
    assert_eq!(parse_class_code("com15111"), None);
    assert_eq!(parse_class_code("c0mp1511"), None);
    // Codes holding non-ASCII characters are rejected.
    assert_eq!(parse_class_code("cömp151"), None);
    assert_eq!(parse_class_code("ÇOMP1511"), None);
}

#[test]
fn account_name_table() {
    assert_eq!(derive_account_name("COMP1511"), Some("cs1511".to_string()));
    assert_eq!(derive_account_name("SENG2021"), Some("se2021".to_string()));
    assert_eq!(derive_account_name("BINF3020"), Some("bi3020".to_string()));
    assert_eq!(derive_account_name("DPST1091"), Some("dp1091".to_string()));
    assert_eq!(derive_account_name("ENGG1000"), Some("en1000".to_string()));
    assert_eq!(derive_account_name("GENE1500"), Some("ge1500".to_string()));
    assert_eq!(derive_account_name("GSOE9820"), Some("gs9820".to_string()));
    assert_eq!(derive_account_name("HSCH1001"), Some("hs1001".to_string()));
    assert_eq!(derive_account_name("INFS1603"), Some("is1603".to_string()));
    assert_eq!(derive_account_name("REGZ9000"), Some("rz9000".to_string()));
    assert_eq!(derive_account_name("MATH1131"), None);
    assert_eq!(derive_account_name("COMP151"), None);
}

#[test]
fn new_config_derives_paths() {
    let config = ClassConfig::new("cs1511").unwrap();
    assert_eq!(config.class, "COMP1511");
    assert_eq!(config.account_name, Some("cs1511".to_string()));
    assert_eq!(config.home_dir, Some("/home/cs1511".to_string()));
    assert_eq!(config.bin_path, Some("/home/cs1511/bin".to_string()));
    assert_eq!(config.man_path, Some("/home/cs1511/man".to_string()));
    assert_eq!(config.newclassrc_path, Some("/home/cs1511/.newclassrc".to_string()));
}

#[test]
fn new_config_without_known_account() {
    let config = ClassConfig::new("MATH1131").unwrap();
    assert_eq!(config.class, "MATH1131");
    assert_eq!(config.account_name, None);
    assert_eq!(config.home_dir, None);
    assert_eq!(config.bin_path, None);
    assert_eq!(config.man_path, None);
    assert_eq!(config.newclassrc_path, None);
}

#[test]
fn invalid_class_code_gives_no_config() {
    assert!(ClassConfig::new("nonsense").is_none());
    assert!(ClassConfig::new("12").is_none());
}

#[test]
fn path_extension() {
    let config = ClassConfig::new("cs1511").unwrap();
    assert_eq!(config.get_path("/usr/bin:/bin"), "/home/cs1511/bin:/usr/bin:/bin");
    assert_eq!(config.get_manpath("/usr/share/man"), "/home/cs1511/man:/usr/share/man");
    let bare = ClassConfig::new("MATH1131").unwrap();
    assert_eq!(bare.get_path("/usr/bin"), "/usr/bin");
    assert_eq!(bare.get_manpath("/usr/share/man"), "/usr/share/man");
}

#[test]
fn newclassrc_detection() {
    let bare = ClassConfig::new("MATH1131").unwrap();
    assert!(!bare.has_newclassrc());
    let missing = ClassConfig {
        class: "COMP1511".to_string(),
        account_name: None,
        home_dir: None,
        bin_path: None,
        man_path: None,
        newclassrc_path: Some("/no/such/path/.newclassrc".to_string()),
        custom_config: ConfigOverlay::new(),
    };
    assert!(!missing.has_newclassrc());
    let rooted = ClassConfig {
        newclassrc_path: Some("/".to_string()),
        ..missing
    };
    assert!(rooted.has_newclassrc());
}

#[test]
fn overlay_store_direct() {
    let mut overlay = ConfigOverlay::new();
    assert_eq!(overlay.get("k"), None);
    overlay.insert("k".to_string(), "1".to_string());
    overlay.insert("other".to_string(), "x".to_string());
    overlay.insert("k".to_string(), "2".to_string());
    assert_eq!(overlay.get("k"), Some(&"2".to_string()));
    assert_eq!(overlay.get("other"), Some(&"x".to_string()));
}
