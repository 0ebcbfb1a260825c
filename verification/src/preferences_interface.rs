//! The earlier, smaller preferences scheme kept by one of the two
//! desktop shells: both settings always present, with fixed fallbacks
//! when the preferences file cannot be parsed. File access belongs to
//! the surrounding application, which passes the parse outcome in.

use vstd::prelude::*;

verus! {

/// Both settings, always resolved.
pub struct Preferences {
    pub enable_notifications: bool,
    pub device_name: String,
}

/// The in-memory preferences and the file they are kept in.
pub struct PreferencesInterface {
    pub preferences_file_path: String,
    pub preferences: Preferences,
}

impl PreferencesInterface {
    /// Wraps the outcome of loading the preferences file: the parsed
    /// preferences when the read succeeded, else notifications on and
    /// an empty device name.
    pub fn new(preferences_file_path: String, loaded: Option<Preferences>) -> (r: Self)
        ensures
            r.preferences_file_path == preferences_file_path,
            match loaded {
                Some(p) => r.preferences == p,
                None => r.preferences.enable_notifications == true
                    && r.preferences.device_name@.len() == 0,
            },
    {
        match loaded {
            Some(preferences) => PreferencesInterface { preferences_file_path, preferences },
            None => PreferencesInterface {
                preferences_file_path,
                preferences: Preferences {
                    enable_notifications: true,
                    device_name: String::new(),
                },
            },
        }
    }
}

} // verus!
