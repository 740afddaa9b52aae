//! The known providers, and the registration of their options and settings.
use crate::getopt::OptStore;
use crate::normal_video::BiliNormalVideoProvider;
use crate::opt_list::get_bili_normal_video_options;
use crate::opt_list::get_bili_normal_video_settings;
use crate::opt_list::get_webdriver_options;
use crate::opt_list::get_webdriver_settings;
use crate::provider_base::Provider;
use crate::settings::SettingStore;
use vstd::prelude::*;

verus! {

impl Provider for BiliNormalVideoProvider {
    fn new() -> Self {
        BiliNormalVideoProvider::new()
    }

    fn add_custom_options(&self, opt: &mut OptStore) {
        opt.add("BiliNormalVideoProvider", get_bili_normal_video_options());
    }

    fn add_custom_settings(&self, store: &mut SettingStore) {
        store.add("BiliNormalVideoProvider", get_bili_normal_video_settings());
    }

    fn can_login(&self) -> bool {
        true
    }

    fn get_custom_options() -> Vec<crate::getopt::OptDes> {
        get_bili_normal_video_options()
    }

    fn get_custom_settings() -> Vec<crate::settings::SettingDes> {
        get_bili_normal_video_settings()
    }

    fn get_default_cookie_jar_name(&self) -> Option<&str> {
        Some("bili")
    }

    fn has_custom_options(&self) -> bool {
        true
    }

    fn has_custom_settings(&self) -> bool {
        true
    }

    fn match_url(url: &str) -> bool {
        BiliNormalVideoProvider::match_url(url)
    }

    fn provider_name(&self) -> &'static str {
        "BiliNormalVideoProvider"
    }
}

/// The provider whose patterns recognize the URL, when one does.
pub fn match_provider(url: &str) -> (r: Option<BiliNormalVideoProvider>)
    ensures
        r is Some <==> crate::normal_video::spec_parse_url(url@) is Some,
{
    if BiliNormalVideoProvider::match_url(url) {
        return Some(BiliNormalVideoProvider::new());
    }
    None
}

/// Register every provider's options, with its dependencies.
pub fn add_all_opts(opt: &mut OptStore) {
    opt.add("WebDriver", get_webdriver_options());
    opt.add_with_dependence(
        "BiliNormalVideoProvider",
        get_bili_normal_video_options(),
        vec!["WebDriver"],
    );
}

/// Register every provider's settings, with its dependencies.
pub fn add_all_settings(store: &mut SettingStore) {
    store.add("WebDriver", get_webdriver_settings());
    store.add_with_dependence(
        "BiliNormalVideoProvider",
        get_bili_normal_video_settings(),
        vec!["WebDriver"],
    );
}

} // verus!
