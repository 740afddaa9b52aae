//! The decisions of the browser-automation login flow: which browser is
//! preferred, where its driver executable and server URL come from, and the
//! command line that starts a driver. Probing executables, binding ports
//! and talking to the driver stay with the host program.
use crate::getopt::spec_has_opt;
use crate::getopt::spec_last_opt;
use crate::getopt::OptStore;
use crate::settings::spec_jar_get;
use crate::settings::spec_maps_get;
use crate::settings::SettingStore;
use vstd::prelude::*;

verus! {

/// The browsers the login flow can drive.
#[derive(Clone, Copy, PartialEq, Eq, Structural)]
pub enum WebDriverType {
    Chrome,
}

/// Where a login flow connects: a server URL, the browser to drive, and
/// the command line that starts the driver when one was started.
pub struct WebDriverUrlResult {
    pub url: String,
    pub typ: WebDriverType,
    pub cml: Option<Vec<String>>,
}

impl WebDriverUrlResult {
    pub fn new(url: &str, typ: WebDriverType, cml: Option<Vec<String>>) -> (r: WebDriverUrlResult)
        ensures
            r.url@ == url@,
            r.typ == typ,
            r.cml == cml,
    {
        WebDriverUrlResult { url: url.to_owned(), typ, cml }
    }
}

/// The decision logic that locates a webdriver.
pub struct WebDriverStarter {
    opt: Option<OptStore>,
    se: Option<SettingStore>,
}

impl WebDriverStarter {
    pub closed spec fn spec_opt(&self) -> Option<OptStore> {
        self.opt
    }

    pub closed spec fn spec_se(&self) -> Option<SettingStore> {
        self.se
    }

    pub fn new(opt: Option<OptStore>, se: Option<SettingStore>) -> (r: WebDriverStarter)
        ensures
            r.spec_opt() == opt,
            r.spec_se() == se,
    {
        WebDriverStarter { opt, se }
    }

    /// The command line that starts a driver of the given kind on a port.
    pub fn get_command_line(&self, t: WebDriverType, exe: String, port: u16) -> (r: Vec<String>)
        ensures
            r@.len() == 2,
            r@[0]@ == exe@,
            r@[1]@ == "--port="@ + crate::strutil::spec_usize_digits(port as int),
    {
        let mut r: Vec<String> = Vec::new();
        let ghost e = exe@;
        let mut arg = crate::strutil::chars_of("--port=");
        let digits = crate::strutil::usize_digits(port as usize);
        let mut i: usize = 0;
        while i < digits.len()
            invariant
                0 <= i <= digits@.len(),
                arg@ =~= "--port="@ + digits@.subrange(0, i as int),
            decreases digits@.len() - i,
        {
            arg.push(digits[i]);
            proof {
                assert(arg@ =~= "--port="@ + digits@.subrange(0, i + 1));
            }
            i += 1;
        }
        proof {
            assert(digits@.subrange(0, digits@.len() as int) =~= digits@);
        }
        r.push(exe);
        r.push(crate::strutil::string_from_chars(&arg));
        r
    }

    /// The driver executables to try: the one named by the `chromedriver`
    /// option first, then the plain name on the search path.
    pub fn get_executable(&self, t: WebDriverType) -> (r: Vec<String>)
        ensures
            r@.len() >= 1,
    {
        let mut s: Vec<String> = Vec::new();
        s.push("chromedriver".to_owned());
        match &self.opt {
            Some(opt) => {
                match opt.get_option("chromedriver") {
                    Some(te) => {
                        s.insert(0, te);
                    },
                    None => {},
                }
            },
            None => {},
        }
        s
    }

    /// The preferred browser: the `chrome` option wins, else the `chrome`
    /// setting of the login flow.
    pub fn get_prefered_broswer(&self) -> (r: Option<WebDriverType>)
        ensures
            r == (if self.spec_opt() matches Some(o) && spec_has_opt(o@.list, "chrome"@) {
                Some(WebDriverType::Chrome)
            } else if (match self.spec_se() {
                Some(se) => (match spec_maps_get(se@.maps, "WebDriver"@) {
                    Some(jar) => (match spec_jar_get(jar, "chrome"@) {
                        Some(v) => crate::json_model::spec_as_bool(v) == Some(true),
                        None => false,
                    }),
                    None => false,
                }),
                None => false,
            }) {
                Some(WebDriverType::Chrome)
            } else {
                None::<WebDriverType>
            }),
    {
        match &self.opt {
            Some(opt) => {
                if opt.has_option("chrome") {
                    return Some(WebDriverType::Chrome);
                }
            },
            None => {},
        }
        match &self.se {
            Some(se) => {
                match se.get_settings_as_bool("WebDriver", "chrome") {
                    Some(r) => {
                        if r {
                            return Some(WebDriverType::Chrome);
                        }
                    },
                    None => {},
                }
            },
            None => {},
        }
        None
    }

    /// The driver server URL named on the command line, when one is.
    pub fn get_server_url_from_opt(&self, t: WebDriverType) -> (r: Option<String>)
        ensures
            match self.spec_opt() {
                Some(o) => match spec_last_opt(o@.list, "chromedriver-server"@) {
                    Some(v) => crate::getopt::view_opt_string(r) == v,
                    None => r is None,
                },
                None => r is None,
            },
    {
        match &self.opt {
            Some(opt) => opt.get_option("chromedriver-server"),
            None => None,
        }
    }
}

} // verus!
