//! Where downloads are kept: the cache folder, the stored setting that can
//! move it, and the place of each driver within it.
//!
//! Paths are strings here, with the separator of the platform handed in.
//! Nothing reads or writes the disk: the caller says what it found there
//! and is told what to do.
use vstd::prelude::*;
use crate::config::OS;
use crate::text::{chars_of, lower, replace_char, replaced};

verus! {

/// The cache folder below the home directory, written with `/`.
pub const CACHE_FOLDER: &'static str = ".cache/selenium";

/// The file below the home directory that holds the stored setting.
pub const STORAGE_CONFIG_FILE: &'static str = ".selenium-files.json";

/// What the binary of a driver is called after its name on Windows.
pub const WINDOWS_EXTENSION: &'static str = ".exe";

/// `base` with `component` below it. A component that starts with the
/// separator stands for itself. Otherwise the separator goes between the
/// two, unless `base` is empty or ends with it already.
pub open spec fn joined(base: Seq<char>, component: Seq<char>, separator: char) -> Seq<char> {
    if component.len() > 0 && component[0] == separator {
        component
    } else if base.len() == 0 || base.last() == separator {
        base + component
    } else {
        base.push(separator) + component
    }
}

/// Puts `component` below `base`.
pub fn join(base: &str, component: &str, separator: char) -> (r: String)
    ensures
        r@ == joined(base@, component@, separator),
{
    let b = chars_of(base);
    let c = chars_of(component);
    if c.len() > 0 && c[0] == separator {
        String::from_str(component)
    } else if b.len() == 0 || b[b.len() - 1] == separator {
        String::from_str(base).concat(component)
    } else {
        let mut r = String::from_str(base);
        r.push(separator);
        r.concat(component)
    }
}

/// The place below the home directory of something that is named with `/`.
/// With no home directory there is no place: the path is empty.
pub open spec fn below_home(home_dir: Option<Seq<char>>, relative: Seq<char>, separator: char) -> Seq<
    char,
> {
    match home_dir {
        Some(home) => joined(home, replaced(relative, '/', separator), separator),
        None => Seq::<char>::empty(),
    }
}

/// The view of an optional string.
pub open spec fn optional_text(s: Option<&str>) -> Option<Seq<char>> {
    match s {
        Some(text) => Some(text@),
        None => None,
    }
}

fn place_below_home(home_dir: Option<&str>, relative: &str, separator: char) -> (r: String)
    ensures
        r@ == below_home(optional_text(home_dir), relative@, separator),
{
    match home_dir {
        Some(home) => {
            let tail = replace_char(relative, '/', separator);
            join(home, tail.as_str(), separator)
        },
        None => String::new(),
    }
}

/// The cache folder that is used where none has been set.
pub fn compose_cache_folder(home_dir: Option<&str>, separator: char) -> (r: String)
    ensures
        r@ == below_home(optional_text(home_dir), CACHE_FOLDER@, separator),
{
    place_below_home(home_dir, CACHE_FOLDER, separator)
}

/// The file that holds the stored setting.
pub fn get_storage_config_path(home_dir: Option<&str>, separator: char) -> (r: String)
    ensures
        r@ == below_home(optional_text(home_dir), STORAGE_CONFIG_FILE@, separator),
{
    place_below_home(home_dir, STORAGE_CONFIG_FILE, separator)
}

/// The stored setting: the cache folder that the user chose, or the empty
/// string for the usual one.
#[derive(Debug, Clone, PartialEq, Eq)]
pub struct StorageConfig {
    pub cache_path: String,
}

impl View for StorageConfig {
    type V = Seq<char>;

    open spec fn view(&self) -> Seq<char> {
        self.cache_path@
    }
}

/// What was found where the stored setting is kept.
#[derive(Debug, Clone, PartialEq, Eq)]
pub enum StoredConfig {
    /// There is no file.
    Absent,
    /// There is a file, and it does not hold a setting.
    Unreadable,
    /// There is a file, and it holds this setting.
    Loaded(StorageConfig),
}

/// The setting that is in force for what was found: the one that was
/// loaded, and the empty one where none could be.
pub open spec fn setting_of(stored: StoredConfig) -> Seq<char> {
    match stored {
        StoredConfig::Loaded(config) => config@,
        _ => Seq::<char>::empty(),
    }
}

/// The setting that names no folder.
pub fn new_storage_config() -> (r: StorageConfig)
    ensures
        r@.len() == 0,
{
    StorageConfig { cache_path: String::new() }
}

/// The setting that is in force. A file that cannot be read as a setting
/// counts as no file.
pub fn get_storage_config(stored: StoredConfig) -> (r: StorageConfig)
    ensures
        r@ == setting_of(stored),
{
    match stored {
        StoredConfig::Loaded(config) => config,
        StoredConfig::Unreadable => new_storage_config(),
        StoredConfig::Absent => new_storage_config(),
    }
}

/// The setting to write where none is stored yet: the empty one where there
/// is no file, and none where there is a file, whatever it holds.
pub fn create_storage_config_file(file_exists: bool) -> (r: Option<StorageConfig>)
    ensures
        r is Some <==> !file_exists,
        r matches Some(config) ==> config@.len() == 0,
{
    if file_exists {
        None
    } else {
        Some(new_storage_config())
    }
}

/// The setting to store so that `path` becomes the cache folder: the one in
/// force, with its folder exchanged.
pub fn set_cache_path(stored: StoredConfig, path: String) -> (r: StorageConfig)
    ensures
        r@ == path@,
{
    let mut config = get_storage_config(stored);
    config.cache_path = path;
    config
}

/// The cache folder, and whether it is the caller's to create.
#[derive(Debug, Clone, PartialEq, Eq)]
pub struct CacheFolder {
    pub path: String,
    /// The folder is the usual one, which is made on first use. A folder
    /// that the user chose is taken as it is.
    pub create_if_absent: bool,
}

/// The mathematical value of a [`CacheFolder`].
pub struct CacheFolderView {
    pub path: Seq<char>,
    pub create_if_absent: bool,
}

impl View for CacheFolder {
    type V = CacheFolderView;

    open spec fn view(&self) -> CacheFolderView {
        CacheFolderView { path: self.path@, create_if_absent: self.create_if_absent }
    }
}

/// The cache folder for a setting: the folder that the setting names, as it
/// stands; with the empty setting, the usual folder below the home
/// directory, to be created.
pub open spec fn cache_folder_of(setting: Seq<char>, home_dir: Option<Seq<char>>, separator: char) -> CacheFolderView {
    if setting.len() == 0 {
        CacheFolderView { path: below_home(home_dir, CACHE_FOLDER@, separator), create_if_absent: true }
    } else {
        CacheFolderView { path: setting, create_if_absent: false }
    }
}

impl CacheFolder {
    /// Whether the folder has to be created now, given whether it exists.
    pub fn must_create(&self, exists: bool) -> (r: bool)
        ensures
            r == (self.create_if_absent && !exists),
    {
        self.create_if_absent && !exists
    }
}

/// Resolves the cache folder from what was found where the setting is kept.
/// A folder that was set is handed back as it stands, whether or not it
/// exists.
pub fn get_cache_folder(stored: StoredConfig, home_dir: Option<&str>, separator: char) -> (r: CacheFolder)
    ensures
        r@ == cache_folder_of(setting_of(stored), optional_text(home_dir), separator),
{
    let config = get_storage_config(stored);
    if config.cache_path.as_str().is_empty() {
        CacheFolder { path: compose_cache_folder(home_dir, separator), create_if_absent: true }
    } else {
        CacheFolder { path: config.cache_path, create_if_absent: false }
    }
}

/// What follows the name of a driver in the name of its binary: `.exe` on
/// Windows, nothing elsewhere.
pub open spec fn binary_extension_of(os: Seq<char>) -> Seq<char> {
    if lower(OS::WINDOWS.name()) == lower(os) {
        WINDOWS_EXTENSION@
    } else {
        Seq::<char>::empty()
    }
}

/// The name of a driver's binary on a platform.
pub open spec fn driver_filename_of(driver_name: Seq<char>, os: Seq<char>) -> Seq<char> {
    driver_name + binary_extension_of(os)
}

/// Where a driver is kept: below the cache folder, its name, then the
/// folder of the architecture, then the version, then the binary.
pub open spec fn driver_path_of(
    cache_folder: Seq<char>,
    driver_name: Seq<char>,
    os: Seq<char>,
    arch_folder: Seq<char>,
    driver_version: Seq<char>,
    separator: char,
) -> Seq<char> {
    joined(
        joined(
            joined(joined(cache_folder, driver_name, separator), arch_folder, separator),
            driver_version,
            separator,
        ),
        driver_filename_of(driver_name, os),
        separator,
    )
}

/// What follows the name of a driver in the name of its binary.
pub fn get_binary_extension(os: &str) -> (r: &'static str)
    ensures
        r@ == binary_extension_of(os@),
{
    if OS::WINDOWS.is(os) {
        WINDOWS_EXTENSION
    } else {
        proof {
            reveal_strlit("");
        }
        ""
    }
}

/// The name of a driver's binary on a platform.
pub fn get_driver_filename(driver_name: &str, os: &str) -> (r: String)
    ensures
        r@ == driver_filename_of(driver_name@, os@),
{
    String::from_str(driver_name).concat(get_binary_extension(os))
}

/// Where a driver is kept in the cache. The path is a function of the
/// arguments: the same arguments give the same path, letter for letter.
pub fn compose_driver_path_in_cache(
    cache_folder: &str,
    driver_name: &str,
    os: &str,
    arch_folder: &str,
    driver_version: &str,
    separator: char,
) -> (r: String)
    ensures
        r@ == driver_path_of(cache_folder@, driver_name@, os@, arch_folder@, driver_version@, separator),
{
    let by_name = join(cache_folder, driver_name, separator);
    let by_arch = join(by_name.as_str(), arch_folder, separator);
    let by_version = join(by_arch.as_str(), driver_version, separator);
    let filename = get_driver_filename(driver_name, os);
    join(by_version.as_str(), filename.as_str(), separator)
}

/// A browser as its path is looked up: by platform and release channel.
#[derive(Hash, Eq, PartialEq, Debug)]
pub struct BrowserPath {
    os: OS,
    channel: String,
}

impl BrowserPath {
    /// The platform.
    pub closed spec fn spec_os(&self) -> OS {
        self.os
    }

    /// The release channel.
    pub closed spec fn spec_channel(&self) -> Seq<char> {
        self.channel@
    }

    pub fn new(os: OS, channel: &str) -> (r: BrowserPath)
        ensures
            r.spec_os() == os,
            r.spec_channel() == channel@,
    {
        BrowserPath { os, channel: String::from_str(channel) }
    }

    /// The platform.
    #[verifier::when_used_as_spec(spec_os)]
    pub fn os(&self) -> (r: OS)
        ensures
            r == self.spec_os(),
    {
        self.os
    }

    /// The release channel.
    pub fn channel(&self) -> (r: &str)
        ensures
            r@ == self.spec_channel(),
    {
        self.channel.as_str()
    }
}

/// Whether a cache folder has to be created, given whether it exists.
pub open spec fn creation_due(folder: CacheFolderView, exists: bool) -> bool {
    folder.create_if_absent && !exists
}

/// Resolving the cache folder twice, with the stored setting unchanged in
/// between, gives the same folder both times, and the second time nothing
/// is left to create: the folder exists by then, be it from before or
/// because the first resolution had it created.
pub proof fn lemma_resolving_twice(
    setting: Seq<char>,
    home_dir: Option<Seq<char>>,
    separator: char,
    existed: bool,
)
    ensures
        ({
            let first = cache_folder_of(setting, home_dir, separator);
            let exists_now = existed || creation_due(first, existed);
            let second = cache_folder_of(setting, home_dir, separator);
            second == first && !creation_due(second, exists_now)
        }),
{
}

/// Once a folder has been set, the cache folder is that folder, letter for
/// letter, and it is not the caller's to create. The empty path is no
/// folder: it stands for the usual one.
pub proof fn lemma_set_path_is_resolved(
    stored: StorageConfig,
    path: Seq<char>,
    home_dir: Option<Seq<char>>,
    separator: char,
)
    requires
        stored@ == path,
        path.len() > 0,
    ensures
        cache_folder_of(setting_of(StoredConfig::Loaded(stored)), home_dir, separator) == (
        CacheFolderView { path, create_if_absent: false }),
{
}

/// A joined path ends with the component that was put below.
pub proof fn lemma_joined_ends_with_component(base: Seq<char>, component: Seq<char>, separator: char)
    ensures
        joined(base, component, separator).len() >= component.len(),
        joined(base, component, separator).skip(
            joined(base, component, separator).len() - component.len(),
        ) == component,
{
    let whole = joined(base, component, separator);
    assert(whole.skip(whole.len() - component.len()) =~= component);
}

/// The path of a driver ends with the name of its binary.
pub proof fn lemma_driver_path_ends_with_filename(
    cache_folder: Seq<char>,
    driver_name: Seq<char>,
    os: Seq<char>,
    arch_folder: Seq<char>,
    driver_version: Seq<char>,
    separator: char,
)
    ensures
        ({
            let path = driver_path_of(cache_folder, driver_name, os, arch_folder, driver_version, separator);
            let filename = driver_filename_of(driver_name, os);
            path.len() >= filename.len() && path.skip(path.len() - filename.len()) == filename
        }),
{
    lemma_joined_ends_with_component(
        joined(
            joined(joined(cache_folder, driver_name, separator), arch_folder, separator),
            driver_version,
            separator,
        ),
        driver_filename_of(driver_name, os),
        separator,
    );
}

} // verus!
