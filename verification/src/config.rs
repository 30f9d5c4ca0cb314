//! Where the application keeps its files, and the settings it starts with.
//!
//! Paths are plain strings whose parts are joined by a forward slash.

use vstd::prelude::*;
use crate::spectrum::{SpectrumFile, SpectrumPair, valid_file};
use crate::noise::NoiseTexture;
use crate::overlay::noise_fault;

verus! {

/// Number of old log files that are kept unless the settings say otherwise.
pub const DEFAULT_LOG_RETENTION: usize = 10;

/// The blend strength that the settings start with: full strength, in
/// millionths.
pub const DEFAULT_STRENGTH: i64 = 1_000_000;

/// The number of old log files kept by default.
pub fn default_log_retention() -> (count: usize)
    ensures
        count == DEFAULT_LOG_RETENTION,
{
    DEFAULT_LOG_RETENTION
}

/// The settings of the application.
#[derive(Clone, Debug)]
pub struct AppConfig {
    pub last_monitor: Option<usize>,
    pub colorblind_type: Option<String>,
    /// Blend strength in millionths.
    pub strength: i64,
    pub noise_texture: Option<String>,
    pub overlay_enabled: bool,
    pub run_at_startup: bool,
    pub debug_overlay: bool,
    pub log_retention_count: usize,
}

impl Default for AppConfig {
    /// The settings of a first launch: nothing selected, full strength,
    /// nothing enabled.
    fn default() -> (config: Self)
        ensures
            config.last_monitor is None,
            config.colorblind_type is None,
            config.strength == DEFAULT_STRENGTH,
            config.noise_texture is None,
            !config.overlay_enabled,
            !config.run_at_startup,
            !config.debug_overlay,
            config.log_retention_count == DEFAULT_LOG_RETENTION,
    {
        AppConfig {
            last_monitor: None,
            colorblind_type: None,
            strength: DEFAULT_STRENGTH,
            noise_texture: None,
            overlay_enabled: false,
            run_at_startup: false,
            debug_overlay: false,
            log_retention_count: DEFAULT_LOG_RETENTION,
        }
    }
}

/// The path of `file` in the directory `dir`.
pub open spec fn join(dir: Seq<char>, file: Seq<char>) -> Seq<char> {
    dir + "/"@ + file
}

/// The directory of the application below the user's data directory.
pub open spec fn app_dir_of(app_data: Seq<char>, app_name: Seq<char>) -> Seq<char> {
    join(app_data, app_name)
}

/// The directory of the assets of the given kind.
pub open spec fn assets_dir_of(app_dir: Seq<char>, kind: Seq<char>) -> Seq<char> {
    join(join(app_dir, "assets"@), kind)
}

/// The path of the asset `name` with the extension `extension` (which
/// begins with its dot) in `dir`.
pub open spec fn asset_path(dir: Seq<char>, name: Seq<char>, extension: Seq<char>) -> Seq<char> {
    join(dir, name + extension)
}

/// Joins a directory and a file name.
pub fn join_path(dir: &str, file: &str) -> (path: String)
    ensures
        path@ == join(dir@, file@),
{
    let mut path = String::from_str(dir);
    path.append("/");
    path.append(file);
    path
}

/// The places of the application's files.
pub struct Config {
    pub config_path: String,
    pub app_data_dir: String,
    pub spectrums_dir: String,
    pub noise_dir: String,
}

impl Config {
    /// The places below the user's data directory `app_data`, for the
    /// application directory `ColorInterlacer`.
    pub fn new(app_data: &str) -> (config: Self)
        ensures
            config.app_data_dir@ == app_dir_of(app_data@, "ColorInterlacer"@),
            config.config_path@ == join(config.app_data_dir@, "config.json"@),
            config.spectrums_dir@ == assets_dir_of(config.app_data_dir@, "spectrums"@),
            config.noise_dir@ == assets_dir_of(config.app_data_dir@, "noise"@),
    {
        Self::for_app(app_data, "ColorInterlacer")
    }

    /// The places below the user's data directory `app_data`, for the
    /// application directory `app_name`.
    pub fn for_app(app_data: &str, app_name: &str) -> (config: Self)
        ensures
            config.app_data_dir@ == app_dir_of(app_data@, app_name@),
            config.config_path@ == join(config.app_data_dir@, "config.json"@),
            config.spectrums_dir@ == assets_dir_of(config.app_data_dir@, "spectrums"@),
            config.noise_dir@ == assets_dir_of(config.app_data_dir@, "noise"@),
    {
        let app_data_dir = join_path(app_data, app_name);
        let config_path = join_path(app_data_dir.as_str(), "config.json");
        let assets = join_path(app_data_dir.as_str(), "assets");
        let spectrums_dir = join_path(assets.as_str(), "spectrums");
        let noise_dir = join_path(assets.as_str(), "noise");
        Config { config_path, app_data_dir, spectrums_dir, noise_dir }
    }

    /// The path of the spectrum file named `name`.
    pub fn get_spectrum_path(&self, name: &str) -> (path: String)
        ensures
            path@ == asset_path(self.spectrums_dir@, name@, ".json"@),
    {
        let mut file = String::from_str(name);
        file.append(".json");
        join_path(self.spectrums_dir.as_str(), file.as_str())
    }

    /// The path of the mask file named `name`.
    pub fn get_noise_path(&self, name: &str) -> (path: String)
        ensures
            path@ == asset_path(self.noise_dir@, name@, ".png"@),
    {
        let mut file = String::from_str(name);
        file.append(".png");
        join_path(self.noise_dir.as_str(), file.as_str())
    }

    /// Whether a spectrum file is usable: it could be read (`file` is its
    /// content), holds at least one spectrum, and every spectrum is valid.
    pub fn validate_spectrum_file(&self, file: Option<SpectrumFile>) -> (valid: bool)
        ensures
            valid == (file matches Some(f) && valid_file(f.spectra@)),
    {
        match file {
            Some(f) => SpectrumPair::load_from_file(f).is_ok(),
            None => false,
        }
    }

    /// Whether a mask file is usable: it could be read (`bytes` is its
    /// content) and decodes to an image.
    pub fn validate_noise_file(&self, bytes: Option<Vec<u8>>) -> (valid: bool)
        ensures
            valid == (bytes matches Some(b) && noise_fault(b@) is None),
    {
        match bytes {
            Some(b) => NoiseTexture::load_from_file(b.as_slice()).is_ok(),
            None => false,
        }
    }
}

} // verus!
