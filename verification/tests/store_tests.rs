use bili::aria2c::Aria2c;
use bili::aria2c::Aria2cFileAllocation;
use bili::getopt::OptStore;
use bili::opt_list::get_opt_list;
use bili::settings::SettingStore;

fn store_with(args: Vec<&str>) -> OptStore {
    OptStore::new(
        get_opt_list(),
        args.into_iter().map(String::from).collect(),
    )
}

#[test]
fn test_parse_options_long_and_short() {
    let mut o = store_with(vec!["bili", "--aria2c", "true", "-V", "url"]);
    assert!(o.parse_options());
    assert_eq!(Some(String::from("true")), o.get_option("aria2c"));
    assert!(o.has_option("version"));
    assert_eq!(Some(String::from("url")), o.parse_url());
    assert_eq!(Some(true), o.get_option_as_bool("aria2c"));
}

#[test]
fn test_parse_options_unknown_fails() {
    let mut o = store_with(vec!["bili", "--no-such-option"]);
    assert!(!o.parse_options());
}

#[test]
fn test_parse_options_missing_value_fails() {
    let mut o = store_with(vec!["bili", "--aria2c"]);
    assert!(!o.parse_options());
}

#[test]
fn test_option_as_bool_and_size() {
    let mut o = store_with(vec![
        "bili",
        "--aria2c",
        "0",
        "--aria2c-min-split-size",
        "20MiB",
    ]);
    assert!(o.parse_options());
    assert_eq!(Some(false), o.get_option_as_bool("aria2c"));
    assert_eq!(Some(20971520), o.get_option_as_size("aria2c-min-split-size"));
    assert_eq!(None, o.get_option_as_bool("login"));
}

#[test]
fn test_settings_add_value() {
    let mut se = SettingStore::new();
    // a valid boolean is stored and read back
    assert!(se.add_value("basic", "aria2c", "true", false));
    assert_eq!(Some(true), se.get_settings_as_bool("basic", "aria2c"));
    // an invalid value for the key is rejected
    assert!(!se.add_value("basic", "aria2c", "\"x\"", false));
    // an unknown key is rejected
    assert!(!se.add_value("basic", "no-such-key", "1", false));
    // text that is not JSON is rejected
    assert!(!se.add_value("basic", "aria2c", "{", false));
    // overwriting needs force
    assert!(!se.add_value("basic", "aria2c", "false", false));
    assert!(se.add_value("basic", "aria2c", "false", true));
    assert_eq!(Some(false), se.get_settings_as_bool("basic", "aria2c"));
}

#[test]
fn test_aria2c_settings() {
    let mut a = Aria2c::new(None, true).unwrap();
    assert!(Aria2c::new(None, false).is_none());
    assert!(a.set_split(&3usize));
    assert!(!a.set_split(&0usize));
    assert!(a.set_min_split_size(&1048576usize));
    assert!(!a.set_min_split_size(&1usize));
    assert!(a.set_file_allocation(&"TRUNC"));
    assert!(!a.set_file_allocation(&"bogus"));
    assert_eq!(
        Ok(Aria2cFileAllocation::Trunc),
        Aria2cFileAllocation::try_from("Trunc")
    );
    assert!(a.set_output(Some(&"a?b")));
    let cfg = a.config();
    assert_eq!(1048576, cfg.0);
    assert_eq!(3, cfg.1);
    assert_eq!(Aria2cFileAllocation::Trunc, cfg.2);
    assert_eq!(Some(String::from("a_b")), cfg.4);
}

#[test]
fn test_dependence_lists() {
    let mut o = store_with(vec!["bili"]);
    bili::providers::add_all_opts(&mut o);
    let deps = o.get_des_dependence("BiliNormalVideoProvider").unwrap();
    assert_eq!(vec![String::from("WebDriver")], deps);
    assert!(o.get_des_dependence("WebDriver").is_none());
    let mut se = SettingStore::new();
    bili::providers::add_all_settings(&mut se);
    let deps = se.get_des_dependence("BiliNormalVideoProvider").unwrap();
    assert_eq!(vec![String::from("WebDriver")], deps);
}
