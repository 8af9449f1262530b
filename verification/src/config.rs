//! The application's settings, as plain values.

use vstd::prelude::*;
use crate::text::{chars_of, slice_string};

verus! {

/// Where downloads are kept.
#[derive(Debug)]
pub struct DownloadConfig {
    pub download_path: String,
}

/// How the network is reached.
#[derive(Debug)]
pub struct NetworkConfig {
    /// The proxy for the metadata service.
    pub bgm_proxy: Option<String>,
    /// The proxy for the release sources.
    pub torrents_proxy: Option<String>,
    pub bgm_proxy_enabled: bool,
    pub torrents_proxy_enabled: bool,
}

impl Default for NetworkConfig {
    fn default() -> (config: Self)
        ensures
            config.bgm_proxy is None,
            config.torrents_proxy is None,
            !config.bgm_proxy_enabled,
            !config.torrents_proxy_enabled,
    {
        NetworkConfig {
            bgm_proxy: None,
            torrents_proxy: None,
            bgm_proxy_enabled: false,
            torrents_proxy_enabled: false,
        }
    }
}

impl NetworkConfig {
    /// Sets the proxy for the metadata service and switches it on or off. A
    /// proxy that is given takes the place of the one before; without one,
    /// the one before stays. What comes back is the proxy to use from now on:
    /// the one that is set, if it is switched on.
    pub fn set_bangumi_proxy(&mut self, proxy: Option<String>, enabled: bool) -> (used: Option<
        String,
    >)
        ensures
            final(self).bgm_proxy.deep_view() == (if proxy is Some {
                proxy.deep_view()
            } else {
                old(self).bgm_proxy.deep_view()
            }),
            final(self).bgm_proxy_enabled == enabled,
            final(self).torrents_proxy == old(self).torrents_proxy,
            final(self).torrents_proxy_enabled == old(self).torrents_proxy_enabled,
            used.deep_view() == (if enabled {
                final(self).bgm_proxy.deep_view()
            } else {
                None
            }),
    {
        match proxy {
            Some(p) => {
                self.bgm_proxy = Some(p);
            },
            None => {},
        }
        self.bgm_proxy_enabled = enabled;
        if enabled {
            match &self.bgm_proxy {
                Some(p) => Some(p.clone()),
                None => None,
            }
        } else {
            None
        }
    }

    /// Sets the proxy for the release sources and switches it on or off, as
    /// `set_bangumi_proxy` does for the metadata service.
    pub fn set_torrents_proxy(&mut self, proxy: Option<String>, enabled: bool) -> (used: Option<
        String,
    >)
        ensures
            final(self).torrents_proxy.deep_view() == (if proxy is Some {
                proxy.deep_view()
            } else {
                old(self).torrents_proxy.deep_view()
            }),
            final(self).torrents_proxy_enabled == enabled,
            final(self).bgm_proxy == old(self).bgm_proxy,
            final(self).bgm_proxy_enabled == old(self).bgm_proxy_enabled,
            used.deep_view() == (if enabled {
                final(self).torrents_proxy.deep_view()
            } else {
                None
            }),
    {
        match proxy {
            Some(p) => {
                self.torrents_proxy = Some(p);
            },
            None => {},
        }
        self.torrents_proxy_enabled = enabled;
        if enabled {
            match &self.torrents_proxy {
                Some(p) => Some(p.clone()),
                None => None,
            }
        } else {
            None
        }
    }
}

/// How much is logged.
#[derive(Debug, Clone, Copy, PartialEq, Eq, Structural)]
pub enum LogLevelFilter {
    Info,
    Debug,
    Trace,
    Warn,
    Error,
}

impl Default for LogLevelFilter {
    fn default() -> (level: Self)
        ensures
            level == LogLevelFilter::Info,
    {
        LogLevelFilter::Info
    }
}

/// The name of a log level in the settings file.
pub open spec fn level_name_of(level: LogLevelFilter) -> Seq<char> {
    match level {
        LogLevelFilter::Info => "info"@,
        LogLevelFilter::Debug => "debug"@,
        LogLevelFilter::Trace => "trace"@,
        LogLevelFilter::Warn => "warn"@,
        LogLevelFilter::Error => "error"@,
    }
}

impl LogLevelFilter {
    /// The name of this log level in the settings file.
    pub fn name(&self) -> (name: &'static str)
        ensures
            name@ == level_name_of(*self),
    {
        match self {
            LogLevelFilter::Info => "info",
            LogLevelFilter::Debug => "debug",
            LogLevelFilter::Trace => "trace",
            LogLevelFilter::Warn => "warn",
            LogLevelFilter::Error => "error",
        }
    }
}

/// What helps to find faults.
#[derive(Debug)]
pub struct DebugConfig {
    pub log_level: LogLevelFilter,
}

impl Default for DebugConfig {
    fn default() -> (config: Self)
        ensures
            config.log_level == LogLevelFilter::Info,
    {
        DebugConfig { log_level: LogLevelFilter::Info }
    }
}

/// All settings.
#[derive(Debug)]
pub struct KisaraConfig {
    pub download_config: DownloadConfig,
    pub network_config: NetworkConfig,
    /// The language of the interface.
    pub locale: String,
    pub debug_config: DebugConfig,
}

/// A path without the prefix `\\?\` that marks a verbatim path, if it has
/// that prefix.
pub open spec fn without_unc_prefix(path: Seq<char>) -> Seq<char> {
    if path.len() >= 4 && path[0] == '\\' && path[1] == '\\' && path[2] == '?' && path[3] == '\\' {
        path.skip(4)
    } else {
        path
    }
}

impl DownloadConfig {
    /// Where downloads are kept unless the settings say otherwise: beside
    /// the program, or one directory up while the program is developed.
    pub fn default_download_path(development: bool) -> (path: &'static str)
        ensures
            path@ == (if development {
                "../downloads"@
            } else {
                "./downloads"@
            }),
    {
        if development {
            "../downloads"
        } else {
            "./downloads"
        }
    }

    /// Takes the verbatim prefix off a path.
    pub fn strip_unc_prefix(path: &str) -> (stripped: String)
        ensures
            stripped@ == without_unc_prefix(path@),
    {
        let v = chars_of(path);
        if v.len() >= 4 && v[0] == '\\' && v[1] == '\\' && v[2] == '?' && v[3] == '\\' {
            let stripped = slice_string(path, 4, v.len());
            assert(stripped@ =~= path@.skip(4));
            stripped
        } else {
            String::from_str(path)
        }
    }
}

impl KisaraConfig {
    /// The language of the interface: the system's language where it is
    /// known, Chinese where it is not.
    pub fn locale_or_default(language: Option<String>) -> (locale: String)
        ensures
            locale@ == (match language {
                Some(l) => l@,
                None => "zh"@,
            }),
    {
        match language {
            Some(l) => l,
            None => String::from_str("zh"),
        }
    }

    /// Where the settings are kept: beside the program, or one directory up
    /// while the program is developed.
    pub fn config_path(development: bool) -> (path: &'static str)
        ensures
            path@ == (if development {
                "../config.json"@
            } else {
                "./config.json"@
            }),
    {
        if development {
            "../config.json"
        } else {
            "./config.json"
        }
    }

    /// The proxy through which the metadata service is reached, if one is
    /// set and switched on.
    pub fn bgm_proxy(&self) -> (proxy: Option<String>)
        ensures
            proxy.deep_view() == (if self.network_config.bgm_proxy_enabled {
                self.network_config.bgm_proxy.deep_view()
            } else {
                None
            }),
    {
        if self.network_config.bgm_proxy_enabled {
            match &self.network_config.bgm_proxy {
                Some(p) => Some(p.clone()),
                None => None,
            }
        } else {
            None
        }
    }

    /// The proxy through which the release sources are reached, if one is
    /// set and switched on.
    pub fn torrents_proxy(&self) -> (proxy: Option<String>)
        ensures
            proxy.deep_view() == (if self.network_config.torrents_proxy_enabled {
                self.network_config.torrents_proxy.deep_view()
            } else {
                None
            }),
    {
        if self.network_config.torrents_proxy_enabled {
            match &self.network_config.torrents_proxy {
                Some(p) => Some(p.clone()),
                None => None,
            }
        } else {
            None
        }
    }
}

} // verus!
