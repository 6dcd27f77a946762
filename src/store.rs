//! The persisted data: application entries, profiles, settings and the
//! store's root aggregate, with their views.
use vstd::prelude::*;

verus! {

/// One Dock shortcut.
#[derive(Debug, PartialEq)]
pub struct AppEntry {
    pub name: String,
    pub path: String,
    pub icon: Option<String>,
    pub bundle_id: Option<String>,
}

pub ghost struct AppEntryView {
    pub name: Seq<char>,
    pub path: Seq<char>,
    pub icon: Option<Seq<char>>,
    pub bundle_id: Option<Seq<char>>,
}

pub open spec fn opt_text(o: Option<String>) -> Option<Seq<char>> {
    match o {
        Some(s) => Some(s@),
        None => None,
    }
}

fn clone_opt_text(o: &Option<String>) -> (r: Option<String>)
    ensures
        opt_text(r) == opt_text(*o),
{
    match o {
        Some(s) => Some(s.clone()),
        None => None,
    }
}

impl View for AppEntry {
    type V = AppEntryView;

    open spec fn view(&self) -> AppEntryView {
        AppEntryView {
            name: self.name@,
            path: self.path@,
            icon: opt_text(self.icon),
            bundle_id: opt_text(self.bundle_id),
        }
    }
}

impl Clone for AppEntry {
    fn clone(&self) -> (r: Self)
        ensures
            r@ == self@,
    {
        AppEntry {
            name: self.name.clone(),
            path: self.path.clone(),
            icon: clone_opt_text(&self.icon),
            bundle_id: clone_opt_text(&self.bundle_id),
        }
    }
}

pub open spec fn entries_view(v: Seq<AppEntry>) -> Seq<AppEntryView> {
    v.map_values(|e: AppEntry| e@)
}

/// Copies of the entries of `v`, in order.
pub fn clone_entries(v: &Vec<AppEntry>) -> (r: Vec<AppEntry>)
    ensures
        entries_view(r@) == entries_view(v@),
{
    let mut r: Vec<AppEntry> = Vec::new();
    let mut i: usize = 0;
    while i < v.len()
        invariant
            i <= v@.len(),
            entries_view(r@) == entries_view(v@.take(i as int)),
        decreases v@.len() - i,
    {
        let e = v[i].clone();
        let ghost before = r@;
        r.push(e);
        assert(entries_view(r@) =~= entries_view(before).push(v@[i as int]@));
        assert(v@.take(i + 1) =~= v@.take(i as int).push(v@[i as int]));
        assert(entries_view(v@.take(i + 1)) =~= entries_view(v@.take(i as int)).push(v@[i as int]@));
        i = i + 1;
    }
    assert(v@.take(i as int) =~= v@);
    r
}

/// A named, ordered collection of application entries.
#[derive(Debug, PartialEq)]
pub struct Profile {
    pub id: String,
    pub name: String,
    pub apps: Vec<AppEntry>,
    pub created_at: String,
    pub updated_at: String,
}

pub ghost struct ProfileView {
    pub id: Seq<char>,
    pub name: Seq<char>,
    pub apps: Seq<AppEntryView>,
    pub created_at: Seq<char>,
    pub updated_at: Seq<char>,
}

impl View for Profile {
    type V = ProfileView;

    open spec fn view(&self) -> ProfileView {
        ProfileView {
            id: self.id@,
            name: self.name@,
            apps: entries_view(self.apps@),
            created_at: self.created_at@,
            updated_at: self.updated_at@,
        }
    }
}

impl Clone for Profile {
    fn clone(&self) -> (r: Self)
        ensures
            r@ == self@,
    {
        Profile {
            id: self.id.clone(),
            name: self.name.clone(),
            apps: clone_entries(&self.apps),
            created_at: self.created_at.clone(),
            updated_at: self.updated_at.clone(),
        }
    }
}

pub open spec fn profiles_view(v: Seq<Profile>) -> Seq<ProfileView> {
    v.map_values(|p: Profile| p@)
}

/// Process-wide user preferences.
#[derive(Debug, Clone, Copy, PartialEq, Eq, Structural)]
pub struct Settings {
    pub launch_at_login: bool,
    pub confirm_before_switch: bool,
}

impl Default for Settings {
    fn default() -> (r: Self)
        ensures
            !r.launch_at_login,
            !r.confirm_before_switch,
    {
        Settings { launch_at_login: false, confirm_before_switch: false }
    }
}

/// The schema version that this library writes.
pub const SCHEMA_VERSION: u32 = 1;

/// The root persisted aggregate.
#[derive(Debug, PartialEq)]
pub struct StoreData {
    pub profiles: Vec<Profile>,
    pub active_profile_id: Option<String>,
    pub settings: Settings,
    pub schema_version: u32,
}

pub ghost struct StoreDataView {
    pub profiles: Seq<ProfileView>,
    pub active_profile_id: Option<Seq<char>>,
    pub settings: Settings,
    pub schema_version: u32,
}

impl View for StoreData {
    type V = StoreDataView;

    open spec fn view(&self) -> StoreDataView {
        StoreDataView {
            profiles: profiles_view(self.profiles@),
            active_profile_id: opt_text(self.active_profile_id),
            settings: self.settings,
            schema_version: self.schema_version,
        }
    }
}

/// No profiles, no active profile, default settings, the current schema version.
pub open spec fn default_data() -> StoreDataView {
    StoreDataView {
        profiles: seq![],
        active_profile_id: None,
        settings: Settings { launch_at_login: false, confirm_before_switch: false },
        schema_version: SCHEMA_VERSION,
    }
}

impl Default for StoreData {
    fn default() -> (r: Self)
        ensures
            r@ == default_data(),
    {
        let r = StoreData {
            profiles: Vec::new(),
            active_profile_id: None,
            settings: Settings::default(),
            schema_version: SCHEMA_VERSION,
        };
        assert(r@.profiles =~= Seq::<ProfileView>::empty());
        r
    }
}

/// Relies on `dirs::config_dir`: the user's configuration directory, where
/// one is known; it depends on the platform and the environment.
#[verifier::external_body]
fn config_dir() -> (r: Option<String>) {
    dirs::config_dir().map(|p| p.to_string_lossy().to_string())
}

/// The store's file under the configuration directory `base`, or under the
/// current directory where none is known.
pub open spec fn config_path_in_spec(base: Option<Seq<char>>) -> Seq<char> {
    match base {
        Some(b) => crate::icon::join_path_spec(b, "com.dockswitcher.app/config.json"@),
        None => "./com.dockswitcher.app/config.json"@,
    }
}

pub fn config_path_in(base: Option<String>) -> (r: String)
    ensures
        r@ == config_path_in_spec(opt_text(base)),
{
    match base {
        Some(b) => crate::icon::join_path(b.as_str(), "com.dockswitcher.app/config.json"),
        None => "./com.dockswitcher.app/config.json".to_owned(),
    }
}

/// The single in-memory copy of the store's data, with the file it lives in.
pub struct Store {
    pub data: StoreData,
    pub path: String,
}

impl Default for Store {
    /// A store at the usual path that holds the default data.
    fn default() -> (r: Self)
        ensures
            r.data@ == default_data(),
            exists|base: Option<Seq<char>>| r.path@ == config_path_in_spec(base),
    {
        Store::with_path(Store::config_path())
    }
}

impl Store {
    /// The file that the store lives in: `config.json` in the application's
    /// directory under the user's configuration directory.
    pub fn config_path() -> (r: String)
        ensures
            exists|base: Option<Seq<char>>| r@ == config_path_in_spec(base),
    {
        let base = config_dir();
        config_path_in(base)
    }

    /// A store at `path` that holds the default data.
    pub fn with_path(path: String) -> (r: Store)
        ensures
            r.data@ == default_data(),
            r.path@ == path@,
    {
        Store { data: StoreData::default(), path }
    }

    /// The store at `path`, holding what was read from it, or the default
    /// data where nothing was stored there yet.
    pub fn load(path: String, stored: Option<StoreData>) -> (r: Store)
        ensures
            r.path@ == path@,
            match stored {
                Some(d) => r.data@ == d@,
                None => r.data@ == default_data(),
            },
    {
        match stored {
            Some(data) => Store { data, path },
            None => Store::with_path(path),
        }
    }

    /// The file that the store's data is saved to.
    pub fn path(&self) -> (r: &String)
        ensures
            r@ == self.path@,
    {
        &self.path
    }
}

} // verus!
