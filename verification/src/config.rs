//! The application configuration record that the coordinator's workload
//! protects: a name, a connection limit and a debug flag.

use vstd::prelude::*;

verus! {

/// What an [`AppConfig`] holds, as mathematical values.
pub struct ConfigView {
    pub app_name: Seq<char>,
    pub max_connections: u32,
    pub debug_mode: bool,
}

/// A configuration record. The fields carry no invariant of their own.
#[derive(Debug, Clone, PartialEq, Eq)]
pub struct AppConfig {
    pub app_name: String,
    pub max_connections: u32,
    pub debug_mode: bool,
}

impl View for AppConfig {
    type V = ConfigView;

    open spec fn view(&self) -> ConfigView {
        ConfigView {
            app_name: self.app_name@,
            max_connections: self.max_connections,
            debug_mode: self.debug_mode,
        }
    }
}

impl ConfigView {
    /// The configuration an application starts with.
    pub open spec fn initial() -> ConfigView {
        ConfigView { app_name: "MyApp"@, max_connections: 100, debug_mode: false }
    }

    /// The configuration after the single writer's update.
    pub open spec fn upgraded() -> ConfigView {
        ConfigView { app_name: "MySuperApp"@, max_connections: 200, debug_mode: true }
    }
}

impl AppConfig {
    /// A record with the given fields.
    pub fn new(app_name: &str, max_connections: u32, debug_mode: bool) -> (config: AppConfig)
        ensures
            config@ == (ConfigView { app_name: app_name@, max_connections, debug_mode }),
    {
        AppConfig { app_name: app_name.to_owned(), max_connections, debug_mode }
    }

    /// The starting configuration: name `MyApp`, at most 100 connections,
    /// debugging off.
    pub fn default() -> (config: AppConfig)
        ensures
            config@ == ConfigView::initial(),
    {
        AppConfig { app_name: "MyApp".to_owned(), max_connections: 100, debug_mode: false }
    }

    /// The configuration the writer installs: name `MySuperApp`, at most 200
    /// connections, debugging on.
    pub fn upgraded() -> (config: AppConfig)
        ensures
            config@ == ConfigView::upgraded(),
    {
        AppConfig { app_name: "MySuperApp".to_owned(), max_connections: 200, debug_mode: true }
    }

    /// Overwrites every field with the writer's update, in place.
    pub fn upgrade(&mut self)
        ensures
            final(self)@ == ConfigView::upgraded(),
    {
        self.app_name = "MySuperApp".to_owned();
        self.max_connections = 200;
        self.debug_mode = true;
    }

    /// An independent copy of the record, field for field.
    pub fn snapshot(&self) -> (copy: AppConfig)
        ensures
            copy@ == self@,
    {
        AppConfig {
            app_name: self.app_name.clone(),
            max_connections: self.max_connections,
            debug_mode: self.debug_mode,
        }
    }

    /// Whether two records hold the same three fields.
    pub fn same_as(&self, other: &AppConfig) -> (same: bool)
        ensures
            same == (self@ == other@),
    {
        self.app_name == other.app_name && self.max_connections == other.max_connections
            && self.debug_mode == other.debug_mode
    }
}

} // verus!
