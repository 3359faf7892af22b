//! The reader's configuration model: plain values only. Reading and
//! writing the configuration file is the shell's concern; the library only
//! defines the shape, the defaults, and the source-expansion rule.

use vstd::prelude::*;

verus! {

/// The whole configuration.
pub struct Config {
    pub app: AppConfig,
    pub ui: UiConfig,
    pub feeds: FeedsConfig,
}

/// Application-wide settings.
pub struct AppConfig {
    pub theme: String,
    pub startup_cleanup: bool,
}

/// Presentation settings.
pub struct UiConfig {
    pub show_ascii_banner: bool,
    pub default_tab: String,
}

/// The configured feed subscriptions.
pub struct FeedsConfig {
    pub urls: Vec<String>,
    pub sources: Vec<FeedSource>,
}

/// One configured source: a single URL or a list, under one category.
pub struct FeedSource {
    pub url: Option<String>,
    pub urls: Option<Vec<String>>,
    pub category: String,
}

impl FeedSource {
    /// Every URL this source names: the single URL first, then the list.
    pub fn get_urls(&self) -> (r: Vec<String>)
        ensures
            r@ == (match self.url {
                Some(u) => seq![u],
                None => Seq::<String>::empty(),
            }) + (match self.urls {
                Some(us) => us@,
                None => Seq::<String>::empty(),
            }),
    {
        let mut r: Vec<String> = Vec::new();
        match &self.url {
            Some(u) => {
                r.push(u.clone());
            },
            None => {},
        }
        let ghost head = r@;
        match &self.urls {
            Some(us) => {
                let mut i: usize = 0;
                while i < us.len()
                    invariant
                        i <= us@.len(),
                        r@ == head + us@.take(i as int),
                    decreases us@.len() - i,
                {
                    r.push(us[i].clone());
                    proof {
                        assert(us@.take(i + 1).drop_last() == us@.take(i as int));
                        assert(us@.take(i + 1) == us@.take(i as int).push(us@[i as int]));
                        assert(head + us@.take(i + 1) =~= (head + us@.take(i as int)).push(
                            us@[i as int],
                        ));
                    }
                    i += 1;
                }
                proof {
                    assert(us@.take(us@.len() as int) == us@);
                }
            },
            None => {
                proof {
                    assert(r@ =~= head + Seq::<String>::empty());
                }
            },
        }
        proof {
            if self.url is Some {
                assert(head =~= seq![self.url->0]);
            } else {
                assert(head =~= Seq::<String>::empty());
            }
        }
        r
    }
}

impl Default for AppConfig {
    /// The stock application settings.
    fn default() -> (r: AppConfig)
        ensures
            r.theme@ == "catppuccin-mocha"@,
            r.startup_cleanup == false,
    {
        AppConfig { theme: "catppuccin-mocha".to_owned(), startup_cleanup: false }
    }
}

impl Default for UiConfig {
    /// The stock presentation settings.
    fn default() -> (r: UiConfig)
        ensures
            r.show_ascii_banner == true,
            r.default_tab@ == "all-posts"@,
    {
        UiConfig { show_ascii_banner: true, default_tab: "all-posts".to_owned() }
    }
}

impl Default for FeedsConfig {
    /// No subscriptions.
    fn default() -> (r: FeedsConfig)
        ensures
            r.urls@.len() == 0,
            r.sources@.len() == 0,
    {
        FeedsConfig { urls: Vec::new(), sources: Vec::new() }
    }
}

} // verus!
