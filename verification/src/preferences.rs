//! The desktop application's preferences and the merge rule its
//! settings dialog applies. Reading and writing the preferences file is
//! the surrounding application's concern; it hands the parsed result in
//! and takes the merged value back out.

use vstd::prelude::*;

verus! {

/// The optional settings: each is None while the user has not chosen.
#[derive(Clone, Debug)]
pub struct Preferences {
    pub enable_notifications: Option<bool>,
    pub enable_mpris: Option<bool>,
    pub current_device_name: Option<String>,
}

impl Preferences {
    /// Preferences with nothing chosen yet.
    pub fn new() -> (p: Self)
        ensures
            p.enable_notifications is None,
            p.enable_mpris is None,
            p.current_device_name is None,
    {
        Preferences { enable_notifications: None, enable_mpris: None, current_device_name: None }
    }
}

impl Default for Preferences {
    /// The defaults used when no preferences file can be read:
    /// notifications on, no media-player integration, no device chosen.
    fn default() -> (p: Self)
        ensures
            p.enable_notifications == Some(true),
            p.enable_mpris == Some(false),
            p.current_device_name is None,
    {
        Preferences {
            enable_notifications: Some(true),
            enable_mpris: Some(false),
            current_device_name: None,
        }
    }
}

/// The in-memory preferences together with where they came from.
#[derive(Clone, Debug)]
pub struct PreferencesInterface {
    pub preferences_file_path: Option<String>,
    pub preferences: Preferences,
}

/// `update` keeps a chosen value and falls back to the current one.
pub open spec fn merged<T>(update: Option<T>, current: Option<T>) -> Option<T> {
    match update {
        Some(v) => Some(v),
        None => current,
    }
}

impl PreferencesInterface {
    /// Wraps the outcome of loading the preferences file: the parsed
    /// preferences when the read succeeded, the defaults otherwise.
    pub fn new(preferences_file_path: Option<String>, loaded: Option<Preferences>) -> (r: Self)
        ensures
            r.preferences_file_path == preferences_file_path,
            match loaded {
                Some(p) => r.preferences == p,
                None => {
                    &&& r.preferences.enable_notifications == Some(true)
                    &&& r.preferences.enable_mpris == Some(false)
                    &&& r.preferences.current_device_name is None
                },
            },
    {
        match loaded {
            Some(preferences) => PreferencesInterface { preferences_file_path, preferences },
            None => PreferencesInterface {
                preferences_file_path,
                preferences: Preferences::default(),
            },
        }
    }

    /// Merges freshly chosen settings over the current ones: a field
    /// the update leaves None keeps its current value. (Persisting the
    /// result is the caller's concern.)
    pub fn update(&mut self, update_preferences: Preferences)
        ensures
            final(self).preferences_file_path == old(self).preferences_file_path,
            final(self).preferences.enable_notifications == merged(
                update_preferences.enable_notifications,
                old(self).preferences.enable_notifications,
            ),
            final(self).preferences.enable_mpris == merged(
                update_preferences.enable_mpris,
                old(self).preferences.enable_mpris,
            ),
            final(self).preferences.current_device_name == merged(
                update_preferences.current_device_name,
                old(self).preferences.current_device_name,
            ),
    {
        let mut current = Preferences::new();
        core::mem::swap(&mut current, &mut self.preferences);
        let enable_notifications = match update_preferences.enable_notifications {
            Some(v) => Some(v),
            None => current.enable_notifications,
        };
        let enable_mpris = match update_preferences.enable_mpris {
            Some(v) => Some(v),
            None => current.enable_mpris,
        };
        let current_device_name = match update_preferences.current_device_name {
            Some(v) => Some(v),
            None => current.current_device_name,
        };
        self.preferences = Preferences {
            enable_notifications,
            enable_mpris,
            current_device_name,
        };
    }
}

} // verus!
