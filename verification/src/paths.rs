//! Where the application keeps its files, and the check for a database placed
//! under a synchronised folder.

use vstd::prelude::*;
use crate::text::{chars_of, matches_at, starts_at, string_from_chars};

verus! {

/// `str::to_lowercase` (full Unicode lower-casing).
pub uninterp spec fn unicode_lowercase(s: Seq<char>) -> Seq<char>;

pub open spec fn ascii_lower(c: char) -> char {
    if 'A' <= c && c <= 'Z' {
        ((c as u32) + 32) as char
    } else {
        c
    }
}

/// `s.to_lowercase()`. Its result is named `unicode_lowercase`; on ASCII text it lowers
/// `A`..`Z` and keeps every other character, as the Unicode mapping does.
#[verifier::external_body]
pub fn to_lowercase(s: &str) -> (r: String)
    ensures
        r@ == unicode_lowercase(s@),
        (forall|i: int| 0 <= i < s@.len() ==> (#[trigger] s@[i] as u32) < 128) ==> r@
            == s@.map_values(|c: char| ascii_lower(c)),
{
    s.to_lowercase()
}

/// `PathBuf::join`, written with `/` (which Windows also accepts): a `name` starting with
/// `/` replaces `base`.
pub open spec fn path_join(base: Seq<char>, name: Seq<char>) -> Seq<char> {
    if name.len() > 0 && name[0] == '/' {
        name
    } else if base.len() == 0 {
        name
    } else if base.last() == '/' {
        base + name
    } else {
        base + seq!['/'] + name
    }
}

pub fn join(base: &str, name: &str) -> (r: String)
    ensures
        r@ == path_join(base@, name@),
{
    let b = chars_of(base);
    let n = chars_of(name);
    if n.len() > 0 && n[0] == '/' {
        return String::from_str(name);
    }
    let mut s = String::from_str(base);
    if b.len() > 0 && b[b.len() - 1] != '/' {
        s.push('/');
    }
    s.append(name);
    s
}

/// The standard locations of the application's files.
#[derive(Debug, Clone, PartialEq, Eq)]
pub struct AppPaths {
    /// `<roaming>/VRCWatchDog`
    pub roaming_dir: String,
    /// `<local>/VRCWatchDog`
    pub local_dir: String,
    /// `<roaming>/VRCWatchDog/settings.json`
    pub settings_path: String,
    /// `<local>/VRCWatchDog/vrcwatchdog.db`
    pub db_path: String,
    /// `<local>/VRCWatchDog/cache`
    pub cache_dir: String,
    /// `<local>/VRCWatchDog/cache/thumbs`
    pub thumb_dir: String,
}

/// Failure to find the base directories.
#[derive(Debug, Clone, Copy, PartialEq, Eq)]
pub enum PathsError {
    MissingAppData,
    MissingLocalAppData,
}

/// The database may be synchronised: its path holds a `OneDrive` or `Roaming` segment.
#[derive(Debug, Clone, PartialEq, Eq)]
pub struct DbSyncRisk {
    pub db_path: String,
    /// `"OneDrive"` or `"Roaming"`.
    pub indicator: String,
}

pub open spec fn app_paths_of(roaming_base: Seq<char>, local_base: Seq<char>) -> (Seq<char>, Seq<
    char,
>, Seq<char>, Seq<char>, Seq<char>, Seq<char>) {
    let roaming_dir = path_join(roaming_base, "VRCWatchDog"@);
    let local_dir = path_join(local_base, "VRCWatchDog"@);
    let cache_dir = path_join(local_dir, "cache"@);
    (
        roaming_dir,
        local_dir,
        path_join(roaming_dir, "settings.json"@),
        path_join(local_dir, "vrcwatchdog.db"@),
        cache_dir,
        path_join(cache_dir, "thumbs"@),
    )
}

impl AppPaths {
    pub open spec fn view(self) -> (Seq<char>, Seq<char>, Seq<char>, Seq<char>, Seq<char>, Seq<
        char,
    >) {
        (
            self.roaming_dir@,
            self.local_dir@,
            self.settings_path@,
            self.db_path@,
            self.cache_dir@,
            self.thumb_dir@,
        )
    }

    /// Builds the paths under the given base directories (which do not include `VRCWatchDog`).
    /// Nothing is touched on disk.
    pub fn with_bases(roaming_base: String, local_base: String) -> (r: Self)
        ensures
            r.view() == app_paths_of(roaming_base@, local_base@),
    {
        let roaming_dir = join(roaming_base.as_str(), "VRCWatchDog");
        let local_dir = join(local_base.as_str(), "VRCWatchDog");
        let settings_path = join(roaming_dir.as_str(), "settings.json");
        let db_path = join(local_dir.as_str(), "vrcwatchdog.db");
        let cache_dir = join(local_dir.as_str(), "cache");
        let thumb_dir = join(cache_dir.as_str(), "thumbs");
        AppPaths { roaming_dir, local_dir, settings_path, db_path, cache_dir, thumb_dir }
    }

    /// Builds the paths from the values of `%APPDATA%` and `%LOCALAPPDATA%`; an absent or
    /// empty variable is an error.
    pub fn from_env(appdata: Option<String>, localappdata: Option<String>) -> (r: Result<
        Self,
        PathsError,
    >)
        ensures
            match (env_path(appdata), env_path(localappdata)) {
                (None, _) => r == Err::<AppPaths, PathsError>(PathsError::MissingAppData),
                (Some(_), None) => r == Err::<AppPaths, PathsError>(PathsError::MissingLocalAppData),
                (Some(a), Some(l)) => r matches Ok(p) && p.view() == app_paths_of(a, l),
            },
    {
        let a = match read_env_var(appdata) {
            Some(a) => a,
            None => return Err(PathsError::MissingAppData),
        };
        let l = match read_env_var(localappdata) {
            Some(l) => l,
            None => return Err(PathsError::MissingLocalAppData),
        };
        Ok(Self::with_bases(a, l))
    }

    /// Flags a database under a `OneDrive` or `Roaming` folder.
    pub fn detect_db_sync_risk(&self) -> (r: Option<DbSyncRisk>)
        ensures
            risk_view(r) == sync_risk_spec(self.db_path@),
    {
        detect_sync_risk(self.db_path.as_str())
    }
}

/// VRChat's standard log folder under the user profile: `AppData/LocalLow/VRChat/VRChat`.
pub open spec fn vrchat_log_dir_of(profile: Seq<char>) -> Seq<char> {
    path_join(path_join(path_join(path_join(profile, "AppData"@), "LocalLow"@), "VRChat"@), "VRChat"@)
}

/// The default log folder from the value of `%USERPROFILE%` (`None` when it is not set).
pub fn default_vrchat_log_dir(userprofile: Option<String>) -> (r: Option<String>)
    ensures
        match userprofile {
            Some(h) => r matches Some(d) && d@ == vrchat_log_dir_of(h@),
            None => r is None,
        },
{
    match userprofile {
        Some(home) => {
            let a = join(home.as_str(), "AppData");
            let b = join(a.as_str(), "LocalLow");
            let c = join(b.as_str(), "VRChat");
            Some(join(c.as_str(), "VRChat"))
        },
        None => None,
    }
}

/// An environment value as a path: absent and empty both count as missing.
pub open spec fn env_path(v: Option<String>) -> Option<Seq<char>> {
    match v {
        Some(s) => if s@.len() == 0 {
            None
        } else {
            Some(s@)
        },
        None => None,
    }
}

/// Keeps a non-empty environment value.
pub fn read_env_var(v: Option<String>) -> (r: Option<String>)
    ensures
        match r {
            Some(s) => env_path(v) == Some(s@),
            None => env_path(v) is None,
        },
{
    match v {
        Some(s) => {
            if s.as_str().unicode_len() == 0 {
                None
            } else {
                Some(s)
            }
        },
        None => None,
    }
}

pub open spec fn contains_at_some(s: Seq<char>, t: Seq<char>) -> bool {
    exists|i: int| 0 <= i <= s.len() && #[trigger] starts_at(s, i, t)
}

pub open spec fn ends_with(s: Seq<char>, t: Seq<char>) -> bool {
    t.len() <= s.len() && starts_at(s, s.len() - t.len(), t)
}

/// `needle` forms a whole `/`-delimited segment of `normalized`.
pub open spec fn has_segment(normalized: Seq<char>, needle: Seq<char>) -> bool {
    contains_at_some(normalized, seq!['/'] + needle + seq!['/']) || starts_at(
        normalized,
        0,
        needle + seq!['/'],
    ) || ends_with(normalized, seq!['/'] + needle)
}

/// The path with `\` turned into `/`, then lower-cased.
pub open spec fn normalized_path(p: Seq<char>) -> Seq<char> {
    unicode_lowercase(p.map_values(|c: char| if c == '\\' { '/' } else { c }))
}

/// The indicator found in `db_path`, `OneDrive` first.
pub open spec fn sync_risk_spec(db_path: Seq<char>) -> Option<(Seq<char>, Seq<char>)> {
    let n = normalized_path(db_path);
    if has_segment(n, "onedrive"@) {
        Some((db_path, "OneDrive"@))
    } else if has_segment(n, "roaming"@) {
        Some((db_path, "Roaming"@))
    } else {
        None
    }
}

pub open spec fn risk_view(r: Option<DbSyncRisk>) -> Option<(Seq<char>, Seq<char>)> {
    match r {
        Some(d) => Some((d.db_path@, d.indicator@)),
        None => None,
    }
}

fn contains_chars(s: &[char], t: &[char]) -> (r: bool)
    ensures
        r == contains_at_some(s@, t@),
{
    let mut i: usize = 0;
    while i < s.len()
        invariant
            i <= s@.len(),
            forall|j: int| 0 <= j < i ==> !#[trigger] starts_at(s@, j, t@),
        decreases s@.len() - i,
    {
        if matches_at(s, i, t) {
            return true;
        }
        i = i + 1;
    }
    matches_at(s, s.len(), t)
}

fn segment_present(n: &[char], needle: &str) -> (r: bool)
    ensures
        r == has_segment(n@, needle@),
{
    let nd = chars_of(needle);
    let mut mid: Vec<char> = Vec::new();
    mid.push('/');
    let mut lead = nd.clone();
    let mut trail: Vec<char> = Vec::new();
    trail.push('/');
    let mut i: usize = 0;
    while i < nd.len()
        invariant
            i <= nd@.len(),
            mid@ == seq!['/'] + nd@.take(i as int),
            trail@ == seq!['/'] + nd@.take(i as int),
        decreases nd@.len() - i,
    {
        mid.push(nd[i]);
        trail.push(nd[i]);
        i = i + 1;
        assert(mid@ =~= seq!['/'] + nd@.take(i as int));
        assert(trail@ =~= seq!['/'] + nd@.take(i as int));
    }
    assert(nd@.take(nd@.len() as int) =~= nd@);
    mid.push('/');
    lead.push('/');
    assert(lead@ =~= nd@ + seq!['/']);
    assert(mid@ =~= seq!['/'] + nd@ + seq!['/']);
    let ends = trail.len() <= n.len() && matches_at(n, n.len() - trail.len(), trail.as_slice());
    contains_chars(n, mid.as_slice()) || matches_at(n, 0, lead.as_slice()) || ends
}

/// Flags a database path holding a `OneDrive` or `Roaming` segment (after turning `\` into
/// `/` and lower-casing); a segment must be whole, so `OneDriveBackup` does not count.
pub fn detect_sync_risk(path: &str) -> (r: Option<DbSyncRisk>)
    ensures
        risk_view(r) == sync_risk_spec(path@),
{
    let p = chars_of(path);
    let mut replaced: Vec<char> = Vec::new();
    let mut i: usize = 0;
    while i < p.len()
        invariant
            i <= p@.len(),
            replaced@ == p@.take(i as int).map_values(|c: char| if c == '\\' { '/' } else { c }),
        decreases p@.len() - i,
    {
        let c = if p[i] == '\\' {
            '/'
        } else {
            p[i]
        };
        replaced.push(c);
        i = i + 1;
        assert(replaced@ =~= p@.take(i as int).map_values(
            |c: char|
                if c == '\\' {
                    '/'
                } else {
                    c
                },
        ));
    }
    assert(p@.take(p@.len() as int) =~= p@);
    let joined = string_from_chars(replaced.as_slice());
    let lowered = to_lowercase(joined.as_str());
    let n = chars_of(lowered.as_str());
    if segment_present(n.as_slice(), "onedrive") {
        return Some(DbSyncRisk { db_path: String::from_str(path), indicator: String::from_str("OneDrive") });
    }
    if segment_present(n.as_slice(), "roaming") {
        return Some(DbSyncRisk { db_path: String::from_str(path), indicator: String::from_str("Roaming") });
    }
    None
}

/// Information on a corrupt settings file found at start-up.
#[derive(Debug, Clone, PartialEq, Eq)]
pub struct SettingsCorruptInfo {
    pub backup_path: String,
    pub reason: String,
}

} // verus!
