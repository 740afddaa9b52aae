//! The interface a video provider offers: URL matching, custom options and
//! settings, and the login surface. Providers that talk to the network
//! implement the fetching parts in the host program.
use crate::cookies_json::CookiesJar;
use crate::getopt::OptDes;
use crate::getopt::OptStore;
use crate::metadata::ExtractInfo;
use crate::settings::SettingDes;
use crate::settings::SettingStore;
use vstd::prelude::*;

verus! {

pub trait Provider {
    fn new() -> Self where Self: core::marker::Sized;

    fn add_custom_options(&self, opt: &mut OptStore) {
    }

    fn add_custom_settings(&self, store: &mut SettingStore) {
    }

    fn can_login(&self) -> bool {
        false
    }

    fn check_logined(&mut self) -> Option<bool> {
        Some(false)
    }

    fn extract(&mut self, url: &str) -> Option<ExtractInfo> {
        None
    }

    fn get_custom_options() -> Vec<OptDes> {
        Vec::new()
    }

    fn get_custom_settings() -> Vec<SettingDes> {
        Vec::new()
    }

    fn get_default_cookie_jar_name(&self) -> Option<&str> {
        None
    }

    fn has_custom_options(&self) -> bool {
        false
    }

    fn has_custom_settings(&self) -> bool {
        false
    }

    fn init(&mut self, jar: Option<&CookiesJar>, opt: OptStore, settings: SettingStore) -> bool {
        false
    }

    fn login(&mut self, jar: &mut CookiesJar) -> bool {
        false
    }

    fn logined(&self) -> bool {
        false
    }

    fn login_required(&self) -> bool {
        false
    }

    fn match_url(url: &str) -> bool {
        false
    }

    fn provider_name(&self) -> &'static str;
}

} // verus!
