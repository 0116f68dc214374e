//! The settings document: the folder scanned last and the path of the mapping file.

use crate::models::opt_text;
use vstd::prelude::*;

verus! {

/// The settings that the viewer keeps between runs.
#[derive(Debug, Clone)]
pub struct AppSettings {
    pub last_scanned_folder: Option<String>,
    pub mapping_file_path: Option<String>,
}

pub ghost struct AppSettingsView {
    pub last_scanned_folder: Option<Seq<char>>,
    pub mapping_file_path: Option<Seq<char>>,
}

impl View for AppSettings {
    type V = AppSettingsView;

    open spec fn view(&self) -> AppSettingsView {
        AppSettingsView {
            last_scanned_folder: opt_text(self.last_scanned_folder),
            mapping_file_path: opt_text(self.mapping_file_path),
        }
    }
}

impl AppSettingsView {
    /// The settings in which nothing is set.
    pub open spec fn unset() -> AppSettingsView {
        AppSettingsView { last_scanned_folder: None, mapping_file_path: None }
    }

    /// These settings with the last scanned folder set to `folder`.
    pub open spec fn with_folder(self, folder: Seq<char>) -> AppSettingsView {
        AppSettingsView { last_scanned_folder: Some(folder), ..self }
    }

    /// These settings with the mapping file path set to `path`.
    pub open spec fn with_mapping(self, path: Seq<char>) -> AppSettingsView {
        AppSettingsView { mapping_file_path: Some(path), ..self }
    }
}

impl Default for AppSettings {
    fn default() -> (settings: AppSettings)
        ensures
            settings@ == AppSettingsView::unset(),
    {
        AppSettings { last_scanned_folder: None, mapping_file_path: None }
    }
}

/// A copy of an optional string.
fn copy_of(text: &Option<String>) -> (copy: Option<String>)
    ensures
        opt_text(copy) == opt_text(*text),
{
    match text {
        Some(t) => Some(t.clone()),
        None => None,
    }
}

/// The settings to work with: those that the document held, or the unset ones
/// where it was missing or could not be read.
pub fn load_settings(parsed: Option<AppSettings>) -> (settings: AppSettings)
    ensures
        settings@ == match parsed {
            Some(found) => found@,
            None => AppSettingsView::unset(),
        },
{
    match parsed {
        Some(found) => found,
        None => AppSettings::default(),
    }
}

/// The folder that was scanned last, if one was recorded.
pub fn get_last_scanned_folder(settings: &AppSettings) -> (folder: Option<String>)
    ensures
        opt_text(folder) == settings@.last_scanned_folder,
{
    copy_of(&settings.last_scanned_folder)
}

/// Records the folder that was scanned last, and leaves the rest as it was.
pub fn set_last_scanned_folder(settings: &mut AppSettings, folder: &str)
    ensures
        final(settings)@ == old(settings)@.with_folder(folder@),
{
    settings.last_scanned_folder = Some(folder.to_owned());
}

/// The path of the mapping file, if one was recorded.
pub fn get_mapping_file_path(settings: &AppSettings) -> (path: Option<String>)
    ensures
        opt_text(path) == settings@.mapping_file_path,
{
    copy_of(&settings.mapping_file_path)
}

/// Records the path of the mapping file, and leaves the rest as it was.
pub fn set_mapping_file_path(settings: &mut AppSettings, path: &str)
    ensures
        final(settings)@ == old(settings)@.with_mapping(path@),
{
    settings.mapping_file_path = Some(path.to_owned());
}

/// A folder that was recorded is the one that is read back.
pub proof fn lemma_folder_round_trip(settings: AppSettingsView, folder: Seq<char>)
    ensures
        settings.with_folder(folder).last_scanned_folder == Some(folder),
{
}

/// A mapping path that was recorded is the one that is read back.
pub proof fn lemma_mapping_round_trip(settings: AppSettingsView, path: Seq<char>)
    ensures
        settings.with_mapping(path).mapping_file_path == Some(path),
{
}

/// Until a mapping path is recorded there is none, whatever folder is recorded
/// in the meantime.
pub proof fn lemma_mapping_unset(folder: Seq<char>)
    ensures
        AppSettingsView::unset().mapping_file_path is None,
        AppSettingsView::unset().with_folder(folder).mapping_file_path is None,
{
}

/// Recording one setting leaves the other as it was, so that both can be
/// recorded in either order and both are read back.
pub proof fn lemma_settings_independent(
    settings: AppSettingsView,
    folder: Seq<char>,
    path: Seq<char>,
)
    ensures
        settings.with_folder(folder).mapping_file_path == settings.mapping_file_path,
        settings.with_mapping(path).last_scanned_folder == settings.last_scanned_folder,
        settings.with_folder(folder).with_mapping(path) == settings.with_mapping(path).with_folder(
            folder,
        ),
        settings.with_folder(folder).with_mapping(path).last_scanned_folder == Some(folder),
        settings.with_folder(folder).with_mapping(path).mapping_file_path == Some(path),
{
}

/// Where the settings document lies: a base path and the components to join
/// to it, in order.
#[derive(Debug, Clone)]
pub struct SettingsLocation {
    pub base: String,
    pub components: Vec<String>,
}

impl View for SettingsLocation {
    type V = (Seq<char>, Seq<Seq<char>>);

    open spec fn view(&self) -> (Seq<char>, Seq<Seq<char>>) {
        (self.base@, self.components@.map_values(|c: String| c@))
    }
}

/// The location of the settings document: the path that the environment names,
/// taken as it is; else the file `settings.json` in the folder `lancedb-viewer`
/// of the user's configuration directory, or of the directory for temporary
/// files where the user has none.
pub open spec fn settings_location(
    named: Option<Seq<char>>,
    config_dir: Option<Seq<char>>,
    temp_dir: Seq<char>,
) -> (Seq<char>, Seq<Seq<char>>) {
    match named {
        Some(path) => (path, Seq::<Seq<char>>::empty()),
        None => (
            match config_dir {
                Some(dir) => dir,
                None => temp_dir,
            },
            seq!["lancedb-viewer"@, "settings.json"@],
        ),
    }
}

/// Decides where the settings document lies.
pub fn settings_path(named: Option<String>, config_dir: Option<String>, temp_dir: String) -> (path:
    SettingsLocation)
    ensures
        path@ == settings_location(opt_text(named), opt_text(config_dir), temp_dir@),
{
    match named {
        Some(base) => {
            let components: Vec<String> = Vec::new();
            assert(components@.map_values(|c: String| c@) =~= Seq::<Seq<char>>::empty());
            SettingsLocation { base, components }
        },
        None => {
            let base = match config_dir {
                Some(dir) => dir,
                None => temp_dir,
            };
            let mut components: Vec<String> = Vec::new();
            components.push("lancedb-viewer".to_owned());
            components.push("settings.json".to_owned());
            assert(components@.map_values(|c: String| c@) =~= seq![
                "lancedb-viewer"@,
                "settings.json"@,
            ]);
            SettingsLocation { base, components }
        },
    }
}

} // verus!
