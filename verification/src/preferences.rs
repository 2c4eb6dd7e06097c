use vstd::prelude::*;
use crate::text::owned;

verus! {

/// The application settings.
#[derive(Debug)]
pub struct Preferences {
    pub theme: String,
    pub language: String,
    pub font_size: u32,
    /// The font weight.
    pub font_bold: String,
    pub font_family: String,
    /// Whether to look for updates.
    pub check_update: bool,
    /// The directory that holds the projects.
    pub project_path: String,
}

impl Clone for Preferences {
    fn clone(&self) -> (r: Self)
        ensures
            r == *self,
    {
        Preferences {
            theme: self.theme.clone(),
            language: self.language.clone(),
            font_size: self.font_size,
            font_bold: self.font_bold.clone(),
            font_family: self.font_family.clone(),
            check_update: self.check_update,
            project_path: self.project_path.clone(),
        }
    }
}

/// The default font size.
pub const DEFAULT_FONT_SIZE: u32 = 12;

/// `p` holds the default settings for projects kept in `project_path`: automatic theme and
/// language, font size 12 of normal weight in the system's font (PingFang SC on macOS,
/// Microsoft YaHei Mono elsewhere), and update checks on.
pub open spec fn is_default_for(p: Preferences, macos: bool, project_path: String) -> bool {
    &&& p.theme@ == "auto"@
    &&& p.language@ == "auto"@
    &&& p.font_size == 12
    &&& p.font_bold@ == "normal"@
    &&& p.font_family@ == (if macos {
        "PingFang SC"@
    } else {
        "Microsoft YaHei Mono"@
    })
    &&& p.check_update
    &&& p.project_path == project_path
}

impl Preferences {
    /// The default settings on a macOS machine (`macos`) or another, for projects kept in
    /// `project_path`.
    pub fn default_for(macos: bool, project_path: String) -> (p: Preferences)
        ensures
            is_default_for(p, macos, project_path),
    {
        let font_family = if macos {
            owned("PingFang SC")
        } else {
            owned("Microsoft YaHei Mono")
        };
        Preferences {
            font_family,
            theme: owned("auto"),
            language: owned("auto"),
            font_size: DEFAULT_FONT_SIZE,
            font_bold: owned("normal"),
            check_update: true,
            project_path,
        }
    }

    /// The settings in effect: those stored, or `fallback` where none could be read.
    pub fn load(stored: Option<Preferences>, fallback: Preferences) -> (p: Preferences)
        ensures
            p == (match stored {
                Some(s) => s,
                None => fallback,
            }),
    {
        match stored {
            Some(s) => s,
            None => fallback,
        }
    }

    /// Replaces the settings with `preferences`, whose saving to the settings file answered
    /// `saved`: where they were saved, the second in-memory copy `config` takes them too, and
    /// keeps what it held otherwise. Answers what the saving answered.
    pub fn set_preferences(
        &mut self,
        preferences: Preferences,
        saved: Result<(), String>,
        config: &mut Config,
    ) -> (r: Result<(), String>)
        ensures
            *final(self) == preferences,
            r == saved,
            saved is Ok ==> final(config).current() == preferences,
            saved is Err ==> final(config).current() == old(config).current(),
    {
        *self = preferences.clone();
        if saved.is_ok() {
            config.preferences = preferences;
        }
        saved
    }

    /// The directory that holds the projects.
    pub fn get_project_path(&self) -> (p: String)
        ensures
            p == self.project_path,
    {
        self.project_path.clone()
    }
}

/// The settings of the running application, kept in memory beside their file.
#[derive(Debug)]
pub struct PreferencesManager {
    preferences: Preferences,
}

impl PreferencesManager {
    /// The settings currently in effect.
    pub closed spec fn current(&self) -> Preferences {
        self.preferences
    }

    /// A manager of the settings `preferences`, as read at start-up.
    pub fn new(preferences: Preferences) -> (m: Self)
        ensures
            m.current() == preferences,
    {
        PreferencesManager { preferences }
    }

    /// The settings currently in effect.
    pub fn preferences(&self) -> (p: &Preferences)
        ensures
            *p == self.current(),
    {
        &self.preferences
    }

    /// Replaces the settings in effect with `preferences`.
    pub fn set_preferences(&mut self, preferences: Preferences)
        ensures
            final(self).current() == preferences,
    {
        self.preferences = preferences;
    }

    /// A copy of the settings currently in effect.
    pub fn get_preferences(&self) -> (p: Preferences)
        ensures
            p == self.current(),
    {
        self.preferences.clone()
    }

    /// Lets `updater` change the settings in effect.
    pub fn update_preferences<F: FnOnce(Preferences) -> Preferences>(&mut self, updater: F)
        requires
            updater.requires((old(self).current(),)),
        ensures
            updater.ensures((old(self).current(),), final(self).current()),
    {
        let current = self.preferences.clone();
        self.preferences = updater(current);
    }

    /// The directory that holds the projects.
    pub fn get_project_path(&self) -> (p: String)
        ensures
            p == self.current().project_path,
    {
        self.preferences.project_path.clone()
    }
}

/// A second in-memory copy of the settings, which the resource manager reads.
#[derive(Debug)]
pub struct Config {
    preferences: Preferences,
}

impl Config {
    /// The settings this copy holds.
    pub closed spec fn current(&self) -> Preferences {
        self.preferences
    }

    /// A copy holding `preferences`, as read at start-up.
    pub fn new(preferences: Preferences) -> (c: Self)
        ensures
            c.current() == preferences,
    {
        Config { preferences }
    }

    /// The settings this copy holds.
    pub fn preferences(&self) -> (p: &Preferences)
        ensures
            *p == self.current(),
    {
        &self.preferences
    }

    /// Lets `updater` change the settings this copy holds.
    pub fn update_preferences<F: FnOnce(Preferences) -> Preferences>(&mut self, updater: F)
        requires
            updater.requires((old(self).current(),)),
        ensures
            updater.ensures((old(self).current(),), final(self).current()),
    {
        let current = self.preferences.clone();
        self.preferences = updater(current);
    }
}

} // verus!
