//! The tables of command-line options and settings that the program and its
//! providers understand.
use crate::getopt::OptDes;
use crate::settings::JsonValueType;
use crate::settings::SettingDes;
use crate::settings::SettingDesCallback;
use vstd::prelude::*;

verus! {

/// Options of the `config` subcommand.
pub fn get_config_opt_list() -> (r: Vec<OptDes>)
    ensures
        r@.len() == 5,
{
    proof {
        reveal_strlit("c");
        reveal_strlit("f");
        reveal_strlit("h");
        reveal_strlit("s");
    }
    let mut r: Vec<OptDes> = Vec::new();
    r.push(
        OptDes::new(
            "config",
            Some("c"),
            "The location of settings file. Default: bili.settings.json",
            true,
            true,
            Some("path"),
        ).unwrap(),
    );
    r.push(
        OptDes::new("fix", None, "Ignore invalid value when reading file", false, false, None)
            .unwrap(),
    );
    r.push(OptDes::new("force", Some("f"), "Overwrite exists value.", false, false, None).unwrap());
    r.push(OptDes::new("help", Some("h"), "Print help message", false, false, None).unwrap());
    r.push(OptDes::new("str", Some("s"), "Treat value as string", false, false, None).unwrap());
    r
}

/// Options of the `cookie` handling.
pub fn get_cookie_opt_list() -> (r: Vec<OptDes>)
    ensures
        r@.len() == 2,
{
    proof {
        reveal_strlit("c");
        reveal_strlit("h");
    }
    let mut r: Vec<OptDes> = Vec::new();
    r.push(
        OptDes::new(
            "cookies",
            Some("c"),
            "The location of cookies file. Default: \"bili.cookies.json\" in executable's path.",
            true,
            true,
            Some("path"),
        ).unwrap(),
    );
    r.push(OptDes::new("help", Some("h"), "Print help message", false, false, None).unwrap());
    r
}

/// The basic command-line options.
pub fn get_opt_list() -> (r: Vec<OptDes>)
    ensures
        r@.len() == 14,
{
    proof {
        reveal_strlit("c");
        reveal_strlit("j");
        reveal_strlit("h");
        reveal_strlit("V");
    }
    let mut r: Vec<OptDes> = Vec::new();
    r.push(
        OptDes::new("aria2c", None, "Whether to enable arai2c.", true, true, Some("boolean"))
            .unwrap(),
    );
    r.push(
        OptDes::new(
            "aria2c-file-allocation",
            None,
            "The file allocation method used by aria2c. Available value: none, prealloc, trunc, falloc.",
            true,
            true,
            Some("METHOD"),
        ).unwrap(),
    );
    r.push(
        OptDes::new(
            "aria2c-max-connection-per-server",
            None,
            "The maximum number of connections to one server for each download when using aria2c to download.",
            true,
            true,
            Some("NUM"),
        ).unwrap(),
    );
    r.push(
        OptDes::new(
            "aria2c-min-split-size",
            None,
            "Let aria2 does not split less than 2*SIZE byte range.",
            true,
            true,
            Some("SIZE"),
        ).unwrap(),
    );
    r.push(
        OptDes::new(
            "aria2c-split",
            None,
            "The number of connections used when downloading a file.",
            true,
            true,
            Some("N"),
        ).unwrap(),
    );
    r.push(
        OptDes::new(
            "config",
            Some("c"),
            "The location of settings file. Default: bili.settings.json",
            true,
            true,
            Some("path"),
        ).unwrap(),
    );
    r.push(
        OptDes::new(
            "cookies",
            None,
            "The location of cookies file. Default: \"bili.cookies.json\" in executable's path.",
            true,
            true,
            Some("path"),
        ).unwrap(),
    );
    r.push(
        OptDes::new(
            "cookie-jar",
            Some("j"),
            "The name of cookie jar which cookies will be stored.",
            true,
            true,
            Some("name"),
        ).unwrap(),
    );
    r.push(
        OptDes::new(
            "help",
            Some("h"),
            "Print help message",
            true,
            false,
            Some("full|provider name"),
        ).unwrap(),
    );
    r.push(
        OptDes::new(
            "help-deps",
            None,
            "Print all options/settings which provider depended on. Exclude basic options",
            false,
            false,
            None,
        ).unwrap(),
    );
    r.push(
        OptDes::new(
            "help-settings",
            None,
            "Print all settings",
            true,
            false,
            Some("full|provider name"),
        ).unwrap(),
    );
    r.push(
        OptDes::new(
            "list-providers-only",
            None,
            "List only providers name when print help message",
            false,
            false,
            None,
        ).unwrap(),
    );
    r.push(
        OptDes::new("login", None, "If not logined, force to login.", false, false, None).unwrap(),
    );
    r.push(
        OptDes::new("version", Some("V"), "Print version of bili", false, false, None).unwrap(),
    );
    r
}

/// The basic settings.
pub fn get_settings_list() -> (r: Vec<SettingDes>)
    ensures
        r@.len() == 6,
{
    let mut r: Vec<SettingDes> = Vec::new();
    r.push(
        SettingDes::new("aria2c", "Whether to enable arai2c.", JsonValueType::Boolean, None)
            .unwrap(),
    );
    r.push(
        SettingDes::new(
            "aria2c-file-allocation",
            "The file allocation method used by aria2c. Available value: none, prealloc, trunc, falloc.",
            JsonValueType::Str,
            Some(SettingDesCallback::FileAllocation),
        ).unwrap(),
    );
    r.push(
        SettingDes::new(
            "aria2c-max-connection-per-server",
            "The maximum number of connections to one server for each download when using aria2c to download.",
            JsonValueType::Multiple,
            Some(SettingDesCallback::MaxConnectionPerServer),
        ).unwrap(),
    );
    r.push(
        SettingDes::new(
            "aria2c-min-split-size",
            "Let aria2 does not split less than 2*SIZE byte range.",
            JsonValueType::Multiple,
            Some(SettingDesCallback::MinSplitSize),
        ).unwrap(),
    );
    r.push(
        SettingDes::new(
            "aria2c-split",
            "The number of connections used when downloading a file.",
            JsonValueType::Multiple,
            Some(SettingDesCallback::Split),
        ).unwrap(),
    );
    r.push(
        SettingDes::new(
            "cookies",
            "The location of cookies file. Default: \"bili.cookies.json\" in executable's path.",
            JsonValueType::Str,
            None,
        ).unwrap(),
    );
    r
}

/// Options of the browser-automation login flow.
pub fn get_webdriver_options() -> (r: Vec<OptDes>)
    ensures
        r@.len() == 3,
{
    let mut r: Vec<OptDes> = Vec::new();
    r.push(
        OptDes::new("chrome", None, "Start browser with chromedriver", false, false, None)
            .unwrap(),
    );
    r.push(
        OptDes::new(
            "chromedriver",
            None,
            "The location of the chromedriver executable",
            true,
            true,
            Some("location"),
        ).unwrap(),
    );
    r.push(
        OptDes::new(
            "chromedriver-server",
            None,
            "The location of the chromedriver server. Such as http://locahost:4444",
            true,
            true,
            Some("url"),
        ).unwrap(),
    );
    r
}

/// Settings of the browser-automation login flow.
pub fn get_webdriver_settings() -> (r: Vec<SettingDes>)
    ensures
        r@.len() == 1,
{
    let mut r: Vec<SettingDes> = Vec::new();
    r.push(
        SettingDes::new(
            "chrome",
            "Start browser with chromedriver",
            JsonValueType::Boolean,
            None,
        ).unwrap(),
    );
    r
}

/// Options of the basic provider.
pub fn get_bili_base_options() -> (r: Vec<OptDes>)
    ensures
        r@.len() == 1,
{
    proof {
        reveal_strlit("p");
    }
    let mut r: Vec<OptDes> = Vec::new();
    r.push(
        OptDes::new(
            "part",
            Some("p"),
            "The video part number of a page.",
            true,
            true,
            Some("part number"),
        ).unwrap(),
    );
    r
}

/// Options of the normal-video provider.
pub fn get_bili_normal_video_options() -> (r: Vec<OptDes>)
    ensures
        r@.len() == 1,
{
    proof {
        reveal_strlit("p");
    }
    let mut r: Vec<OptDes> = Vec::new();
    r.push(
        OptDes::new(
            "part",
            Some("p"),
            "The video part number of a page.",
            true,
            true,
            Some("part number"),
        ).unwrap(),
    );
    r
}

/// Settings of the normal-video provider.
pub fn get_bili_normal_video_settings() -> (r: Vec<SettingDes>)
    ensures
        r@.len() == 1,
{
    let mut r: Vec<SettingDes> = Vec::new();
    r.push(
        SettingDes::new(
            "part",
            "The video part number of a page.\nExample: \n2\tSelect part 2\n\"2-34\"\tSelect from part 2 to part 34.\n\"3, 5-10\" or [3, \"5-10\"]\tSelect part 3 and from part 5 to part 10.\n\"3-\"\tSelect from part 3 to last part.\n\"-10\"\tSelect from first part to part 10.\n\"-\"\tSelect all parts.",
            JsonValueType::Multiple,
            Some(SettingDesCallback::Part),
        ).unwrap(),
    );
    r
}

/// Whether a JSON value is a valid part selection.
pub fn check_part(value: crate::json_model::Json) -> (r: bool)
    ensures
        r == (crate::part::spec_parse_json(value) is Some),
{
    crate::part::PartList::parse_from_json(&value).is_some()
}

} // verus!
