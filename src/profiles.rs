//! Operations on the store's profiles: lookup, creation, editing, deletion,
//! reordering and the active-profile pointer.
use crate::store::{
    entries_view, opt_text, profiles_view, AppEntry, AppEntryView, Profile, ProfileView, Settings,
    StoreData, StoreDataView,
};
use crate::text::chars_of;
use vstd::prelude::*;

verus! {

/// Why a profile operation did nothing.
#[derive(Debug, Clone, Copy, PartialEq, Eq, Structural)]
pub enum StoreError {
    ProfileNotFound,
    EntryNotFound,
}

impl StoreError {
    /// The text shown to the user.
    pub fn message(&self) -> (r: String)
        ensures
            *self == StoreError::ProfileNotFound ==> r@ == "Profile not found"@,
            *self == StoreError::EntryNotFound ==> r@ == "App entry not found"@,
    {
        match self {
            StoreError::ProfileNotFound => "Profile not found".to_owned(),
            StoreError::EntryNotFound => "App entry not found".to_owned(),
        }
    }
}

/// The index of the first profile with identifier `id`, or -1 where there is none.
pub open spec fn index_of(ps: Seq<ProfileView>, id: Seq<char>) -> int
    decreases ps.len(),
{
    if ps.len() == 0 {
        -1
    } else if ps[0].id == id {
        0
    } else {
        let k = index_of(ps.drop_first(), id);
        if k < 0 {
            -1
        } else {
            k + 1
        }
    }
}

pub proof fn lemma_index_of(ps: Seq<ProfileView>, id: Seq<char>)
    ensures
        -1 <= index_of(ps, id) < ps.len(),
        index_of(ps, id) >= 0 ==> ps[index_of(ps, id)].id == id,
        index_of(ps, id) >= 0 ==> forall|j: int| 0 <= j < index_of(ps, id) ==> ps[j].id != id,
        index_of(ps, id) == -1 ==> forall|j: int| 0 <= j < ps.len() ==> ps[j].id != id,
    decreases ps.len(),
{
    if ps.len() > 0 {
        lemma_index_of(ps.drop_first(), id);
        assert forall|j: int| 1 <= j < ps.len() implies ps[j] == ps.drop_first()[j - 1] by {}
    }
}

/// The profiles that `ids` name, in the order of `ids`: for each identifier
/// the first profile that has it; identifiers that no profile has are left out.
pub open spec fn reordered(ps: Seq<ProfileView>, ids: Seq<Seq<char>>) -> Seq<ProfileView>
    decreases ids.len(),
{
    if ids.len() == 0 {
        seq![]
    } else {
        let rest = reordered(ps, ids.drop_last());
        let k = index_of(ps, ids.last());
        if k >= 0 {
            rest.push(ps[k])
        } else {
            rest
        }
    }
}

/// The data with `ps` as its profiles and everything else as in `d`.
pub open spec fn with_profiles(d: StoreDataView, ps: Seq<ProfileView>) -> StoreDataView {
    StoreDataView { profiles: ps, ..d }
}

/// A new, empty profile.
pub open spec fn fresh_profile(id: Seq<char>, name: Seq<char>, now: Seq<char>) -> ProfileView {
    ProfileView { id, name, apps: seq![], created_at: now, updated_at: now }
}

pub open spec fn texts_view(v: Seq<String>) -> Seq<Seq<char>> {
    v.map_values(|s: String| s@)
}

/// Relies on `uuid::Uuid::new_v4` and the text form of the identifier: a
/// fresh random identifier, of which nothing is promised.
#[verifier::external_body]
fn new_profile_id() -> (r: String) {
    uuid::Uuid::new_v4().to_string()
}

/// Relies on `chrono::Utc::now` and `DateTime::to_rfc3339`: the current
/// time as text, of which nothing is promised.
#[verifier::external_body]
fn now_timestamp() -> (r: String) {
    chrono::Utc::now().to_rfc3339()
}

/// What `std::path::Path::file_stem` gives for a path: the final component
/// without its extension, if the path has a final component.
pub uninterp spec fn file_stem_of(path: Seq<char>) -> Option<Seq<char>>;

/// Relies on `std::path::Path::file_stem`: its result depends on the path alone.
#[verifier::external_body]
fn file_stem(path: &str) -> (r: Option<String>)
    ensures
        opt_text(r) == file_stem_of(path@),
{
    std::path::Path::new(path).file_stem().map(|s| s.to_string_lossy().to_string())
}

/// The name shown for a bundle: its path's file stem, or `Unknown` where the
/// path has none.
pub open spec fn display_name(path: Seq<char>) -> Seq<char> {
    match file_stem_of(path) {
        Some(n) => n,
        None => "Unknown"@,
    }
}

/// An entry for the bundle at `path`, named after it, with the given icon and
/// no bundle identifier.
pub fn entry_for_path(path: String, icon: Option<String>) -> (r: AppEntry)
    ensures
        r@ == (AppEntryView {
            name: display_name(path@),
            path: path@,
            icon: opt_text(icon),
            bundle_id: None,
        }),
{
    let name = match file_stem(path.as_str()) {
        Some(n) => n,
        None => "Unknown".to_owned(),
    };
    AppEntry { name, path, icon, bundle_id: None }
}

/// A new profile with no entries, created and updated at `now`.
pub fn new_profile(id: String, name: String, now: String) -> (r: Profile)
    ensures
        r@ == fresh_profile(id@, name@, now@),
{
    let updated_at = now.clone();
    let r = Profile { id, name, apps: Vec::new(), created_at: now, updated_at };
    assert(r@.apps =~= Seq::<AppEntryView>::empty());
    r
}

impl StoreData {
    /// The index of the first profile with identifier `id`.
    pub fn find_profile(&self, id: &String) -> (r: Option<usize>)
        ensures
            match r {
                Some(i) => i == index_of(self@.profiles, id@),
                None => index_of(self@.profiles, id@) == -1,
            },
    {
        let ghost ps = self@.profiles;
        let mut i: usize = 0;
        assert(ps.skip(0) =~= ps);
        while i < self.profiles.len()
            invariant
                ps == self@.profiles,
                i <= ps.len(),
                ps.len() == self.profiles@.len(),
                index_of(ps, id@) == (if index_of(ps.skip(i as int), id@) < 0 {
                    -1
                } else {
                    index_of(ps.skip(i as int), id@) + i
                }),
            decreases ps.len() - i,
        {
            assert(ps.skip(i as int)[0] == self.profiles@[i as int]@);
            if self.profiles[i].id == *id {
                return Some(i);
            }
            assert(ps.skip(i as int).drop_first() =~= ps.skip(i + 1));
            i = i + 1;
        }
        None
    }

    /// A copy of the first profile with identifier `id`.
    pub fn profile(&self, id: &String) -> (r: Option<Profile>)
        ensures
            match r {
                Some(p) => index_of(self@.profiles, id@) >= 0 && p@ == self@.profiles[index_of(
                    self@.profiles,
                    id@,
                )],
                None => index_of(self@.profiles, id@) == -1,
            },
    {
        proof {
            lemma_index_of(self@.profiles, id@);
        }
        match self.find_profile(id) {
            Some(i) => Some(self.profiles[i].clone()),
            None => None,
        }
    }

    /// Appends a new, empty profile and returns a copy of it.
    pub fn add_new_profile(&mut self, id: String, name: String, now: String) -> (r: Profile)
        ensures
            r@ == fresh_profile(id@, name@, now@),
            final(self)@ == with_profiles(old(self)@, old(self)@.profiles.push(r@)),
    {
        let p = new_profile(id, name, now);
        let r = p.clone();
        self.profiles.push(p);
        assert(self@.profiles =~= old(self)@.profiles.push(r@));
        r
    }

    /// Renames the first profile with `profile`'s identifier and gives it
    /// `profile`'s entries, updated at `now`.
    pub fn update_profile(&mut self, profile: Profile, now: String) -> (r: Result<(), StoreError>)
        ensures
            ({
                let k = index_of(old(self)@.profiles, profile@.id);
                &&& r is Err <==> k == -1
                &&& r is Err ==> r == Err::<(), StoreError>(StoreError::ProfileNotFound)
                    && final(self)@ == old(self)@
                &&& r is Ok ==> final(self)@ == with_profiles(
                    old(self)@,
                    old(self)@.profiles.update(
                        k,
                        ProfileView {
                            name: profile@.name,
                            apps: profile@.apps,
                            updated_at: now@,
                            ..old(self)@.profiles[k]
                        },
                    ),
                )
            }),
    {
        proof {
            lemma_index_of(self@.profiles, profile@.id);
        }
        match self.find_profile(&profile.id) {
            None => Err(StoreError::ProfileNotFound),
            Some(i) => {
                let mut p = self.profiles[i].clone();
                p.name = profile.name;
                p.apps = profile.apps;
                p.updated_at = now;
                self.profiles.set(i, p);
                assert(self@.profiles =~= old(self)@.profiles.update(i as int, p@));
                Ok(())
            },
        }
    }

    /// Removes every profile with identifier `id`, and clears the active
    /// profile where it was `id`.
    pub fn delete_profile(&mut self, id: &String)
        ensures
            final(self)@.profiles == old(self)@.profiles.filter(|p: ProfileView| p.id != id@),
            old(self)@.active_profile_id == Some(id@) ==> final(self)@.active_profile_id is None,
            old(self)@.active_profile_id != Some(id@) ==> final(self)@.active_profile_id == old(
                self,
            )@.active_profile_id,
            final(self)@.settings == old(self)@.settings,
            final(self)@.schema_version == old(self)@.schema_version,
    {
        let ghost ps = old(self)@.profiles;
        let ghost keep = |p: ProfileView| p.id != id@;
        let mut kept: Vec<Profile> = Vec::new();
        let mut i: usize = 0;
        while i < self.profiles.len()
            invariant
                ps == self@.profiles,
                keep == (|p: ProfileView| p.id != id@),
                i <= ps.len(),
                ps.len() == self.profiles@.len(),
                profiles_view(kept@) == ps.take(i as int).filter(keep),
            decreases ps.len() - i,
        {
            assert(ps.take(i + 1).drop_last() =~= ps.take(i as int));
            assert(ps.take(i + 1).last() == self.profiles@[i as int]@);
            proof {
                reveal(Seq::filter);
            }
            if self.profiles[i].id != *id {
                let ghost before = kept@;
                kept.push(self.profiles[i].clone());
                assert(profiles_view(kept@) =~= profiles_view(before).push(ps[i as int]));
            }
            i = i + 1;
        }
        assert(ps.take(i as int) =~= ps);
        proof {
            reveal(Seq::filter);
        }
        self.profiles = kept;
        let clear = match &self.active_profile_id {
            Some(a) => *a == *id,
            None => false,
        };
        if clear {
            self.active_profile_id = None;
        }
    }

    /// Puts the profiles in the order of `ids`; profiles that `ids` does not
    /// name are dropped, and so are identifiers that no profile has.
    pub fn reorder_profiles(&mut self, ids: &Vec<String>)
        ensures
            final(self)@ == with_profiles(
                old(self)@,
                reordered(old(self)@.profiles, texts_view(ids@)),
            ),
    {
        let ghost ps = old(self)@.profiles;
        let ghost idv = texts_view(ids@);
        let mut out: Vec<Profile> = Vec::new();
        let mut i: usize = 0;
        while i < ids.len()
            invariant
                ps == self@.profiles,
                *self == *old(self),
                idv == texts_view(ids@),
                i <= ids@.len(),
                profiles_view(out@) == reordered(ps, idv.take(i as int)),
            decreases ids@.len() - i,
        {
            assert(idv.take(i + 1).drop_last() =~= idv.take(i as int));
            assert(idv.take(i + 1).last() == ids@[i as int]@);
            proof {
                lemma_index_of(ps, ids@[i as int]@);
            }
            match self.find_profile(&ids[i]) {
                Some(k) => {
                    let ghost before = out@;
                    out.push(self.profiles[k].clone());
                    assert(profiles_view(out@) =~= profiles_view(before).push(ps[k as int]));
                },
                None => {},
            }
            i = i + 1;
        }
        assert(idv.take(i as int) =~= idv);
        self.profiles = out;
    }

    /// Appends `entry` to the first profile with identifier `profile_id`,
    /// updated at `now`.
    pub fn add_app_to_profile(&mut self, profile_id: &String, entry: AppEntry, now: String) -> (r:
        Result<(), StoreError>)
        ensures
            ({
                let k = index_of(old(self)@.profiles, profile_id@);
                let p = old(self)@.profiles[k];
                &&& r is Err <==> k == -1
                &&& r is Err ==> r == Err::<(), StoreError>(StoreError::ProfileNotFound)
                    && final(self)@ == old(self)@
                &&& r is Ok ==> final(self)@ == with_profiles(
                    old(self)@,
                    old(self)@.profiles.update(
                        k,
                        ProfileView { apps: p.apps.push(entry@), updated_at: now@, ..p },
                    ),
                )
            }),
    {
        proof {
            lemma_index_of(self@.profiles, profile_id@);
        }
        match self.find_profile(profile_id) {
            None => Err(StoreError::ProfileNotFound),
            Some(i) => {
                let mut p = self.profiles[i].clone();
                let ghost e = entry@;
                let ghost before = p.apps@;
                p.apps.push(entry);
                assert(entries_view(p.apps@) =~= entries_view(before).push(e));
                p.updated_at = now;
                self.profiles.set(i, p);
                assert(self@.profiles =~= old(self)@.profiles.update(i as int, p@));
                Ok(())
            },
        }
    }

    /// Removes the entry at `index` from the first profile with identifier
    /// `profile_id`, updated at `now`.
    pub fn remove_app_from_profile(&mut self, profile_id: &String, index: usize, now: String) -> (r:
        Result<(), StoreError>)
        ensures
            ({
                let k = index_of(old(self)@.profiles, profile_id@);
                let p = old(self)@.profiles[k];
                &&& k == -1 ==> r == Err::<(), StoreError>(StoreError::ProfileNotFound)
                &&& k >= 0 && index >= p.apps.len() ==> r == Err::<(), StoreError>(
                    StoreError::EntryNotFound,
                )
                &&& r is Err ==> final(self)@ == old(self)@
                &&& k >= 0 && index < p.apps.len() ==> r is Ok && final(self)@ == with_profiles(
                    old(self)@,
                    old(self)@.profiles.update(
                        k,
                        ProfileView { apps: p.apps.remove(index as int), updated_at: now@, ..p },
                    ),
                )
            }),
    {
        proof {
            lemma_index_of(self@.profiles, profile_id@);
        }
        match self.find_profile(profile_id) {
            None => Err(StoreError::ProfileNotFound),
            Some(i) => {
                if index >= self.profiles[i].apps.len() {
                    return Err(StoreError::EntryNotFound);
                }
                let mut p = self.profiles[i].clone();
                let ghost before = p.apps@;
                p.apps.remove(index);
                assert(entries_view(p.apps@) =~= entries_view(before).remove(index as int));
                p.updated_at = now;
                self.profiles.set(i, p);
                assert(self@.profiles =~= old(self)@.profiles.update(i as int, p@));
                Ok(())
            },
        }
    }

    /// Gives the first profile with identifier `profile_id` the entries
    /// `apps`, updated at `now`.
    pub fn replace_profile_apps(&mut self, profile_id: &String, apps: Vec<AppEntry>, now: String) -> (r:
        Result<(), StoreError>)
        ensures
            ({
                let k = index_of(old(self)@.profiles, profile_id@);
                let p = old(self)@.profiles[k];
                &&& r is Err <==> k == -1
                &&& r is Err ==> r == Err::<(), StoreError>(StoreError::ProfileNotFound)
                    && final(self)@ == old(self)@
                &&& r is Ok ==> final(self)@ == with_profiles(
                    old(self)@,
                    old(self)@.profiles.update(
                        k,
                        ProfileView { apps: entries_view(apps@), updated_at: now@, ..p },
                    ),
                )
            }),
    {
        proof {
            lemma_index_of(self@.profiles, profile_id@);
        }
        match self.find_profile(profile_id) {
            None => Err(StoreError::ProfileNotFound),
            Some(i) => {
                let mut p = self.profiles[i].clone();
                p.apps = apps;
                p.updated_at = now;
                self.profiles.set(i, p);
                assert(self@.profiles =~= old(self)@.profiles.update(i as int, p@));
                Ok(())
            },
        }
    }

    /// Appends a new, empty profile named `name`, with a fresh random
    /// identifier, created now; returns a copy of it.
    pub fn create_profile(&mut self, name: String) -> (r: Profile)
        ensures
            r@.name == name@,
            r@.apps.len() == 0,
            r@.created_at == r@.updated_at,
            index_of(old(self)@.profiles, r@.id) == -1,
            final(self)@ == with_profiles(old(self)@, old(self)@.profiles.push(r@)),
    {
        let id = self.unused_id(new_profile_id());
        let now = now_timestamp();
        self.add_new_profile(id, name, now)
    }

    /// `candidate` where no profile has it as identifier; otherwise
    /// `candidate`, a `-` and the longest identifier in use, which is longer
    /// than every identifier in use.
    pub fn unused_id(&self, candidate: String) -> (r: String)
        ensures
            index_of(self@.profiles, r@) == -1,
            index_of(self@.profiles, candidate@) == -1 ==> r@ == candidate@,
    {
        proof {
            lemma_index_of(self@.profiles, candidate@);
        }
        if self.find_profile(&candidate).is_none() {
            return candidate;
        }
        let ghost ps = self@.profiles;
        let mut longest: usize = 0;
        let mut longest_id = String::new();
        let mut i: usize = 0;
        while i < self.profiles.len()
            invariant
                ps == self@.profiles,
                ps.len() == self.profiles@.len(),
                i <= ps.len(),
                longest == longest_id@.len(),
                forall|j: int| 0 <= j < i ==> ps[j].id.len() <= longest_id@.len(),
            decreases ps.len() - i,
        {
            let n = chars_of(self.profiles[i].id.as_str()).len();
            assert(ps[i as int].id == self.profiles@[i as int].id@);
            if n > longest {
                longest = n;
                longest_id = self.profiles[i].id.clone();
            }
            i = i + 1;
        }
        let mut r = candidate;
        r.append("-");
        r.append(longest_id.as_str());
        proof {
            reveal_strlit("-");
            lemma_index_of(ps, r@);
            if index_of(ps, r@) >= 0 {
                assert(ps[index_of(ps, r@)].id.len() <= longest_id@.len());
            }
        }
        r
    }

    /// Whether the active profile is the one with identifier `id`.
    pub fn is_active_profile(&self, id: &String) -> (r: bool)
        ensures
            r == (self@.active_profile_id == Some(id@)),
    {
        match &self.active_profile_id {
            Some(a) => *a == *id,
            None => false,
        }
    }

    /// The index of the active profile, looked up by its identifier; none
    /// where no profile is active or no profile has that identifier any more.
    pub fn active_profile_index(&self) -> (r: Option<usize>)
        ensures
            match self@.active_profile_id {
                None => r is None,
                Some(a) => match r {
                    Some(i) => i == index_of(self@.profiles, a),
                    None => index_of(self@.profiles, a) == -1,
                },
            },
    {
        match &self.active_profile_id {
            Some(a) => self.find_profile(a),
            None => None,
        }
    }

    /// The entries of a profile menu: each profile's identifier and name, in
    /// order, and whether it is the active one.
    pub fn menu_items(&self) -> (r: Vec<(String, String, bool)>)
        ensures
            r@.len() == self@.profiles.len(),
            forall|i: int|
                0 <= i < r@.len() ==> {
                    &&& (#[trigger] r@[i]).0@ == self@.profiles[i].id
                    &&& r@[i].1@ == self@.profiles[i].name
                    &&& r@[i].2 == (self@.active_profile_id == Some(self@.profiles[i].id))
                },
    {
        let mut r: Vec<(String, String, bool)> = Vec::new();
        let mut i: usize = 0;
        while i < self.profiles.len()
            invariant
                i <= self@.profiles.len(),
                self@.profiles.len() == self.profiles@.len(),
                r@.len() == i,
                forall|j: int|
                    0 <= j < i ==> {
                        &&& (#[trigger] r@[j]).0@ == self@.profiles[j].id
                        &&& r@[j].1@ == self@.profiles[j].name
                        &&& r@[j].2 == (self@.active_profile_id == Some(self@.profiles[j].id))
                    },
            decreases self@.profiles.len() - i,
        {
            let p = &self.profiles[i];
            assert(self@.profiles[i as int] == p@);
            let active = self.is_active_profile(&p.id);
            r.push((p.id.clone(), p.name.clone(), active));
            i = i + 1;
        }
        r
    }

    /// Whether saving `new` settings asks for launch at login to be switched:
    /// `Some(on)` where the flag changes to `on`, nothing where it stays.
    pub fn launch_at_login_change(&self, new: &Settings) -> (r: Option<bool>)
        ensures
            self@.settings.launch_at_login == new.launch_at_login ==> r is None,
            self@.settings.launch_at_login != new.launch_at_login ==> r == Some(
                new.launch_at_login,
            ),
    {
        if self.settings.launch_at_login != new.launch_at_login {
            Some(new.launch_at_login)
        } else {
            None
        }
    }

    /// Replaces the settings.
    pub fn set_settings(&mut self, settings: Settings)
        ensures
            final(self)@ == (StoreDataView { settings, ..old(self)@ }),
    {
        self.settings = settings;
    }

    /// Makes `id` the active profile.
    pub fn set_active_profile(&mut self, id: String)
        ensures
            final(self)@ == (StoreDataView { active_profile_id: Some(id@), ..old(self)@ }),
    {
        self.active_profile_id = Some(id);
    }
}

} // verus!
