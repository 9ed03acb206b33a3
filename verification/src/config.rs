//! The configuration: which volumes are kept, how many snapshots of each
//! tier, and to which repositories they are replicated.

use vstd::prelude::*;
use crate::error::FridgeError;
use crate::location::{copy_text, place, placed, text_of, Location, LocationView};
use crate::options::{RunOpts, SnapshotOpts, SnapshotOptsView, SyncOpts};
use crate::retention::RetentionPolicy;
use crate::text::{chars_of, decimal_digits, digits_of, string_of};

verus! {

pub const DEFAULT_HOURLY: usize = 24;

pub const DEFAULT_DAILY: usize = 7;

pub const DEFAULT_WEEKLY: usize = 4;

pub const DEFAULT_MONTHLY: usize = 12;

pub const DEFAULT_YEARLY: usize = 3;

/// Where the snapshots of this machine are kept.
#[derive(Clone, Debug, Default, PartialEq)]
pub struct LocalConfig {
    pub sudo: bool,
    pub path: String,
    pub suffix: String,
}

/// A volume, and how many snapshots of each tier it keeps.
#[derive(Clone, Debug, Default, PartialEq)]
pub struct SnapshotConfig {
    pub name: String,
    pub path: String,
    pub hourly: usize,
    pub daily: usize,
    pub weekly: usize,
    pub monthly: usize,
    pub yearly: usize,
}

/// A repository to which snapshots are replicated.
#[derive(Clone, Debug, Default, PartialEq)]
pub struct RemoteConfig {
    pub user: Option<String>,
    pub host: Option<String>,
    pub port: Option<u16>,
    pub path: String,
    pub sudo: bool,
    pub suffix: String,
}

/// The whole configuration.
#[derive(Clone, Debug, Default, PartialEq)]
pub struct Config {
    pub local: LocalConfig,
    pub snapshots: Vec<SnapshotConfig>,
    pub remotes: Vec<RemoteConfig>,
}

/// `LocalConfig` as plain values.
pub struct LocalConfigView {
    pub sudo: bool,
    pub path: Seq<char>,
    pub suffix: Seq<char>,
}

/// `SnapshotConfig` as plain values.
pub struct SnapshotConfigView {
    pub name: Seq<char>,
    pub path: Seq<char>,
    pub policy: RetentionPolicy,
}

/// `RemoteConfig` as plain values.
pub struct RemoteConfigView {
    pub user: Option<Seq<char>>,
    pub host: Option<Seq<char>>,
    pub port: Option<u16>,
    pub path: Seq<char>,
    pub sudo: bool,
    pub suffix: Seq<char>,
}

/// `Config` as plain values.
pub struct ConfigView {
    pub local: LocalConfigView,
    pub snapshots: Seq<SnapshotConfigView>,
    pub remotes: Seq<RemoteConfigView>,
}

impl View for LocalConfig {
    type V = LocalConfigView;

    open spec fn view(&self) -> LocalConfigView {
        LocalConfigView { sudo: self.sudo, path: self.path@, suffix: self.suffix@ }
    }
}

impl View for SnapshotConfig {
    type V = SnapshotConfigView;

    open spec fn view(&self) -> SnapshotConfigView {
        SnapshotConfigView {
            name: self.name@,
            path: self.path@,
            policy: RetentionPolicy {
                hourly: self.hourly,
                daily: self.daily,
                weekly: self.weekly,
                monthly: self.monthly,
                yearly: self.yearly,
            },
        }
    }
}

impl View for RemoteConfig {
    type V = RemoteConfigView;

    open spec fn view(&self) -> RemoteConfigView {
        RemoteConfigView {
            user: text_of(self.user),
            host: text_of(self.host),
            port: self.port,
            path: self.path@,
            sudo: self.sudo,
            suffix: self.suffix@,
        }
    }
}

impl View for Config {
    type V = ConfigView;

    open spec fn view(&self) -> ConfigView {
        ConfigView {
            local: self.local@,
            snapshots: Seq::new(self.snapshots@.len(), |i: int| self.snapshots@[i]@),
            remotes: Seq::new(self.remotes@.len(), |i: int| self.remotes@[i]@),
        }
    }
}

impl SnapshotConfig {
    /// What taking a snapshot of this volume is told.
    pub fn to_snapshot_opts(&self, suffix: Option<&str>, sudo: bool, dry_run: bool, verbose: i32)
        -> (r: SnapshotOpts)
        ensures
            r@ == (SnapshotOptsView {
                src: self@.path,
                name: self@.name,
                suffix: match suffix {
                    Some(s) => Some(s@),
                    None => None,
                },
                sudo,
                dry_run,
                verbose,
            }),
    {
        SnapshotOpts {
            src: self.path.clone(),
            name: self.name.clone(),
            suffix: match suffix {
                Some(v) => Some(String::from_str(v)),
                None => None,
            },
            sudo,
            dry_run,
            verbose,
        }
    }

    /// How many snapshots of each tier this volume keeps.
    pub fn policy(&self) -> (r: RetentionPolicy)
        ensures
            r == self@.policy,
    {
        RetentionPolicy {
            hourly: self.hourly,
            daily: self.daily,
            weekly: self.weekly,
            monthly: self.monthly,
            yearly: self.yearly,
        }
    }
}

/// The location string of a remote repository: the path alone where no
/// user is named, else `user@host:path`, or `user@host:port:path` where a
/// port is named.
pub open spec fn location_text(v: RemoteConfigView) -> Seq<char> {
    match (v.user, v.host, v.port) {
        (None, _, _) => v.path,
        (Some(user), Some(host), None) => user + seq!['@'] + host + seq![':'] + v.path,
        (Some(user), Some(host), Some(port)) => user + seq!['@'] + host + seq![':']
            + decimal_digits(port as nat) + seq![':'] + v.path,
        (Some(user), None, _) => Seq::empty(),
    }
}

impl RemoteConfig {
    /// The location string of this repository. A repository that names a
    /// user and no host has none.
    pub fn location_string(&self) -> (r: Result<String, FridgeError>)
        ensures
            self@.user is Some && self@.host is None ==> r is Err && r->Err_0 is MissingHost,
            !(self@.user is Some && self@.host is None) ==> r is Ok && r->Ok_0@ == location_text(
                self@,
            ),
    {
        match &self.user {
            None => Ok(self.path.clone()),
            Some(user) => match &self.host {
                None => Err(FridgeError::MissingHost),
                Some(host) => {
                    let mut out = chars_of(user.as_str());
                    out.push('@');
                    let mut host = chars_of(host.as_str());
                    out.append(&mut host);
                    out.push(':');
                    match self.port {
                        Some(port) => {
                            let mut digits = digits_of(port);
                            out.append(&mut digits);
                            out.push(':');
                        },
                        None => {},
                    }
                    let mut path = chars_of(self.path.as_str());
                    out.append(&mut path);
                    assert(out@ =~= location_text(self@));
                    Ok(string_of(&out))
                },
            },
        }
    }

    /// Where this repository keeps its snapshots: under its path, in the
    /// directory that its suffix names.
    pub fn to_snapshot_repository_location(&self) -> (r: Location)
        ensures
            r@ == (LocationView {
                user: self@.user,
                host: self@.host,
                port: self@.port,
                path: placed(self@.path, self@.suffix),
            }),
    {
        let path = place(chars_of(self.path.as_str()), &chars_of(self.suffix.as_str()));
        Location {
            user: copy_text(&self.user),
            host: copy_text(&self.host),
            port: self.port,
            path: string_of(&path),
        }
    }
}

/// The local part of a configuration as it was written: what is left out
/// is `None`.
#[derive(Debug, PartialEq)]
pub struct RawLocalConfig {
    pub sudo: bool,
    pub path: Option<String>,
    pub suffix: Option<String>,
}

/// A volume as it was written.
#[derive(Debug, PartialEq)]
pub struct RawSnapshotConfig {
    pub name: String,
    pub path: String,
    pub hourly: Option<i64>,
    pub daily: Option<i64>,
    pub weekly: Option<i64>,
    pub monthly: Option<i64>,
    pub yearly: Option<i64>,
}

/// A remote repository as it was written.
#[derive(Debug, PartialEq)]
pub struct RawRemoteConfig {
    pub user: Option<String>,
    pub host: Option<String>,
    pub port: Option<u16>,
    pub path: Option<String>,
    pub suffix: Option<String>,
    pub sudo: Option<bool>,
}

/// A configuration as it was written.
#[derive(Debug, PartialEq)]
pub struct RawConfig {
    pub local: Option<RawLocalConfig>,
    pub snapshots: Option<Vec<RawSnapshotConfig>>,
    pub remotes: Option<Vec<RawRemoteConfig>>,
}

/// The text of an optional string, or `default` where there is none.
pub open spec fn text_or(s: Option<String>, default: Seq<char>) -> Seq<char> {
    match s {
        Some(s) => s@,
        None => default,
    }
}

/// The string of `s`, or `default` where there is none.
pub fn string_or(s: &Option<String>, default: &str) -> (r: String)
    ensures
        r@ == text_or(*s, default@),
{
    match s {
        Some(s) => s.clone(),
        None => String::from_str(default),
    }
}

/// The count that was written, or `default` where none was.
pub open spec fn count_or(count: Option<i64>, default: usize) -> int {
    match count {
        Some(n) => n as int,
        None => default as int,
    }
}

/// The count that was written, or `default` where none was. A negative
/// count is refused.
pub fn checked_count(count: Option<i64>, default: usize) -> (r: Result<usize, FridgeError>)
    ensures
        0 <= count_or(count, default) <= usize::MAX ==> r is Ok && r->Ok_0 == count_or(
            count,
            default,
        ),
        !(0 <= count_or(count, default) <= usize::MAX) ==> r is Err && r->Err_0 is InvalidPolicy
            && r->Err_0->count == count_or(count, default),
{
    match count {
        None => Ok(default),
        Some(n) => {
            if n < 0 || n as u64 > usize::MAX as u64 {
                Err(FridgeError::InvalidPolicy { count: n })
            } else {
                Ok(n as usize)
            }
        },
    }
}

/// The counts of a volume as it was written, each with its default.
pub open spec fn written_counts(raw: RawSnapshotConfig) -> Seq<int> {
    seq![
        count_or(raw.hourly, DEFAULT_HOURLY),
        count_or(raw.daily, DEFAULT_DAILY),
        count_or(raw.weekly, DEFAULT_WEEKLY),
        count_or(raw.monthly, DEFAULT_MONTHLY),
        count_or(raw.yearly, DEFAULT_YEARLY),
    ]
}

/// Whether each count of `counts` is one that a policy can hold.
pub open spec fn counts_fit(counts: Seq<int>) -> bool {
    forall|i: int| 0 <= i < counts.len() ==> 0 <= #[trigger] counts[i] <= usize::MAX
}

/// A volume as configured, where each of its counts is one that a policy
/// can hold.
pub open spec fn configured(raw: RawSnapshotConfig) -> SnapshotConfigView {
    SnapshotConfigView {
        name: raw.name@,
        path: raw.path@,
        policy: RetentionPolicy {
            hourly: written_counts(raw)[0] as usize,
            daily: written_counts(raw)[1] as usize,
            weekly: written_counts(raw)[2] as usize,
            monthly: written_counts(raw)[3] as usize,
            yearly: written_counts(raw)[4] as usize,
        },
    }
}

/// A remote repository as configured.
pub open spec fn remote(raw: RawRemoteConfig) -> RemoteConfigView {
    RemoteConfigView {
        user: text_of(raw.user),
        host: text_of(raw.host),
        port: raw.port,
        path: text_or(raw.path, "/"@),
        sudo: match raw.sudo {
            Some(b) => b,
            None => false,
        },
        suffix: text_or(raw.suffix, ".snapshots"@),
    }
}

/// The local part as configured; empty where it was left out.
pub open spec fn local(raw: Option<RawLocalConfig>) -> LocalConfigView {
    match raw {
        Some(raw) => LocalConfigView {
            sudo: raw.sudo,
            path: text_or(raw.path, "/"@),
            suffix: text_or(raw.suffix, ".snapshots"@),
        },
        None => LocalConfigView { sudo: false, path: Seq::empty(), suffix: Seq::empty() },
    }
}

/// The volumes that were written; none where the list was left out.
pub open spec fn written_snapshots(raw: RawConfig) -> Seq<RawSnapshotConfig> {
    match raw.snapshots {
        Some(list) => list@,
        None => Seq::empty(),
    }
}

/// The remote repositories that were written; none where the list was left
/// out.
pub open spec fn written_remotes(raw: RawConfig) -> Seq<RawRemoteConfig> {
    match raw.remotes {
        Some(list) => list@,
        None => Seq::empty(),
    }
}

/// Whether each volume of `list` holds counts that a policy can hold.
pub open spec fn all_fit(list: Seq<RawSnapshotConfig>) -> bool {
    forall|i: int| 0 <= i < list.len() ==> counts_fit(written_counts(#[trigger] list[i]))
}

/// The configuration that `raw` spells, where all its counts fit.
pub open spec fn config_of(raw: RawConfig) -> ConfigView {
    ConfigView {
        local: local(raw.local),
        snapshots: Seq::new(
            written_snapshots(raw).len(),
            |i: int| configured(written_snapshots(raw)[i]),
        ),
        remotes: Seq::new(written_remotes(raw).len(), |i: int| remote(written_remotes(raw)[i])),
    }
}

impl LocalConfig {
    /// The local part of a configuration: the path is `/` and the suffix
    /// `.snapshots` where they were left out.
    pub fn from_raw(raw: &RawLocalConfig) -> (r: LocalConfig)
        ensures
            r@ == local(Some(*raw)),
    {
        LocalConfig {
            sudo: raw.sudo,
            path: string_or(&raw.path, "/"),
            suffix: string_or(&raw.suffix, ".snapshots"),
        }
    }
}

impl SnapshotConfig {
    /// A volume as configured: a count that was left out is 24 for hourly,
    /// 7 for daily, 4 for weekly, 12 for monthly, 3 for yearly snapshots.
    /// The first count that no policy can hold is refused.
    pub fn from_raw(raw: &RawSnapshotConfig) -> (r: Result<SnapshotConfig, FridgeError>)
        ensures
            counts_fit(written_counts(*raw)) ==> r is Ok && r->Ok_0@ == configured(*raw),
            !counts_fit(written_counts(*raw)) ==> r is Err && r->Err_0 is InvalidPolicy && exists|
                k: int,
            |
                {
                    &&& 0 <= k < 5
                    &&& r->Err_0->count == #[trigger] written_counts(*raw)[k]
                    &&& !(0 <= written_counts(*raw)[k] <= usize::MAX)
                    &&& forall|i: int|
                        0 <= i < k ==> 0 <= #[trigger] written_counts(*raw)[i] <= usize::MAX
                },
    {
        let ghost counts = written_counts(*raw);
        let hourly = match checked_count(raw.hourly, DEFAULT_HOURLY) {
            Ok(n) => n,
            Err(e) => {
                assert(!(0 <= counts[0] <= usize::MAX));
                return Err(e);
            },
        };
        let daily = match checked_count(raw.daily, DEFAULT_DAILY) {
            Ok(n) => n,
            Err(e) => {
                assert(!(0 <= counts[1] <= usize::MAX));
                return Err(e);
            },
        };
        let weekly = match checked_count(raw.weekly, DEFAULT_WEEKLY) {
            Ok(n) => n,
            Err(e) => {
                assert(!(0 <= counts[2] <= usize::MAX));
                return Err(e);
            },
        };
        let monthly = match checked_count(raw.monthly, DEFAULT_MONTHLY) {
            Ok(n) => n,
            Err(e) => {
                assert(!(0 <= counts[3] <= usize::MAX));
                return Err(e);
            },
        };
        let yearly = match checked_count(raw.yearly, DEFAULT_YEARLY) {
            Ok(n) => n,
            Err(e) => {
                assert(!(0 <= counts[4] <= usize::MAX));
                return Err(e);
            },
        };
        assert(counts_fit(counts)) by {
            assert forall|i: int| 0 <= i < counts.len() implies 0 <= #[trigger] counts[i]
                <= usize::MAX by {
                assert(i == 0 || i == 1 || i == 2 || i == 3 || i == 4);
            }
        }
        Ok(
            SnapshotConfig {
                name: raw.name.clone(),
                path: raw.path.clone(),
                hourly,
                daily,
                weekly,
                monthly,
                yearly,
            },
        )
    }
}

impl RemoteConfig {
    /// A remote repository as configured: the path is `/`, the suffix
    /// `.snapshots` and `sudo` off where they were left out.
    pub fn from_raw(raw: &RawRemoteConfig) -> (r: RemoteConfig)
        ensures
            r@ == remote(*raw),
    {
        RemoteConfig {
            user: copy_text(&raw.user),
            host: copy_text(&raw.host),
            port: raw.port,
            path: string_or(&raw.path, "/"),
            suffix: string_or(&raw.suffix, ".snapshots"),
            sudo: match raw.sudo {
                Some(b) => b,
                None => false,
            },
        }
    }
}

impl Config {
    /// The configuration that `raw` spells. A part that was left out is
    /// empty. Of the volumes, the first with a count that no policy can hold
    /// is refused.
    pub fn from_raw(raw: &RawConfig) -> (r: Result<Config, FridgeError>)
        ensures
            all_fit(written_snapshots(*raw)) ==> r is Ok && r->Ok_0@ == config_of(*raw),
            !all_fit(written_snapshots(*raw)) ==> r is Err && r->Err_0 is InvalidPolicy,
    {
        let local_part = match &raw.local {
            Some(l) => LocalConfig::from_raw(l),
            None => LocalConfig { sudo: false, path: String::new(), suffix: String::new() },
        };
        let mut snapshots: Vec<SnapshotConfig> = Vec::new();
        match &raw.snapshots {
            Some(list) => {
                let mut i: usize = 0;
                while i < list.len()
                    invariant
                        i <= list.len(),
                        snapshots.len() == i,
                        list@ == written_snapshots(*raw),
                        forall|j: int| 0 <= j < i ==> counts_fit(written_counts(#[trigger] list[j])),
                        forall|j: int|
                            0 <= j < i ==> (#[trigger] snapshots[j])@ == configured(list[j]),
                    decreases list.len() - i,
                {
                    match SnapshotConfig::from_raw(&list[i]) {
                        Ok(c) => {
                            snapshots.push(c);
                        },
                        Err(e) => {
                            assert(!counts_fit(written_counts(list@[i as int])));
                            return Err(e);
                        },
                    }
                    i += 1;
                }
            },
            None => {},
        }
        let mut remotes: Vec<RemoteConfig> = Vec::new();
        match &raw.remotes {
            Some(list) => {
                let mut i: usize = 0;
                while i < list.len()
                    invariant
                        i <= list.len(),
                        remotes.len() == i,
                        list@ == written_remotes(*raw),
                        forall|j: int| 0 <= j < i ==> (#[trigger] remotes[j])@ == remote(list[j]),
                    decreases list.len() - i,
                {
                    remotes.push(RemoteConfig::from_raw(&list[i]));
                    i += 1;
                }
            },
            None => {},
        }
        let config = Config { local: local_part, snapshots, remotes };
        assert(config@.snapshots =~= config_of(*raw).snapshots);
        assert(config@.remotes =~= config_of(*raw).remotes);
        Ok(config)
    }

    /// The configuration that holds where none can be read: local
    /// snapshots under `/` in `.snapshots` without `sudo`, the volumes
    /// `root` at `/` and `home` at `/home` with 24 hourly, 7 daily, 4
    /// weekly, 12 monthly and 3 yearly snapshots, and no remote repository.
    pub fn standard() -> (r: Config)
        ensures
            r@.local == (LocalConfigView { sudo: false, path: "/"@, suffix: ".snapshots"@ }),
            r@.snapshots.len() == 2,
            r@.snapshots[0] == (SnapshotConfigView {
                name: "root"@,
                path: "/"@,
                policy: RetentionPolicy { hourly: 24, daily: 7, weekly: 4, monthly: 12, yearly: 3 },
            }),
            r@.snapshots[1] == (SnapshotConfigView {
                name: "home"@,
                path: "/home"@,
                policy: RetentionPolicy { hourly: 24, daily: 7, weekly: 4, monthly: 12, yearly: 3 },
            }),
            r@.remotes.len() == 0,
    {
        let mut snapshots: Vec<SnapshotConfig> = Vec::new();
        snapshots.push(
            SnapshotConfig {
                name: String::from_str("root"),
                path: String::from_str("/"),
                hourly: DEFAULT_HOURLY,
                daily: DEFAULT_DAILY,
                weekly: DEFAULT_WEEKLY,
                monthly: DEFAULT_MONTHLY,
                yearly: DEFAULT_YEARLY,
            },
        );
        snapshots.push(
            SnapshotConfig {
                name: String::from_str("home"),
                path: String::from_str("/home"),
                hourly: DEFAULT_HOURLY,
                daily: DEFAULT_DAILY,
                weekly: DEFAULT_WEEKLY,
                monthly: DEFAULT_MONTHLY,
                yearly: DEFAULT_YEARLY,
            },
        );
        Config {
            local: LocalConfig {
                sudo: false,
                path: String::from_str("/"),
                suffix: String::from_str(".snapshots"),
            },
            snapshots,
            remotes: Vec::new(),
        }
    }
}

/// The configuration to work with, where `parsed` holds what was read of
/// the configuration file, or `None` where it could not be read: what
/// `parsed` spells, or the standard configuration where there is nothing
/// or it holds a count that no policy can hold.
pub fn load(parsed: Option<RawConfig>) -> (r: Config)
    ensures
        parsed is Some && all_fit(written_snapshots(parsed->0)) ==> r@ == config_of(parsed->0),
        parsed is None || !all_fit(written_snapshots(parsed->0)) ==> r@.local == (LocalConfigView {
            sudo: false,
            path: "/"@,
            suffix: ".snapshots"@,
        }) && r@.snapshots.len() == 2 && r@.remotes.len() == 0,
{
    match parsed {
        Some(raw) => match Config::from_raw(&raw) {
            Ok(config) => config,
            Err(_) => Config::standard(),
        },
        None => Config::standard(),
    }
}

impl Config {
    /// Where this machine keeps its snapshots: at the local path with the
    /// suffix written right behind it.
    pub fn local_location(&self) -> (r: Location)
        ensures
            r@ == (LocationView {
                user: None,
                host: None,
                port: None,
                path: self@.local.path + self@.local.suffix,
            }),
    {
        let mut path = self.local.path.clone();
        path.append(self.local.suffix.as_str());
        Location { user: None, host: None, port: None, path }
    }
}

/// The address at which to try a remote repository before anything is sent
/// to it: `host:port`, where it names both.
pub open spec fn address_text(v: RemoteConfigView) -> Option<Seq<char>> {
    match (v.host, v.port) {
        (Some(host), Some(port)) => Some(host + seq![':'] + decimal_digits(port as nat)),
        _ => None,
    }
}

impl RemoteConfig {
    /// The address at which to try this repository, if it names a host and
    /// a port.
    pub fn probe_address(&self) -> (r: Option<String>)
        ensures
            text_of(r) == address_text(self@),
    {
        match (&self.host, self.port) {
            (Some(host), Some(port)) => {
                let mut out = chars_of(host.as_str());
                out.push(':');
                let mut digits = digits_of(port);
                out.append(&mut digits);
                assert(out@ =~= host@ + seq![':'] + decimal_digits(port as nat));
                Some(string_of(&out))
            },
            _ => None,
        }
    }

    /// What bringing this repository up to date with the snapshots of the
    /// volume `snapshot` is told, where `local` says where this machine
    /// keeps them. A repository that names a user and no host is refused.
    pub fn sync_opts(&self, local: &LocalConfig, snapshot: &SnapshotConfig, opts: &RunOpts) -> (r:
        Result<SyncOpts, FridgeError>)
        ensures
            self@.user is Some && self@.host is None ==> r is Err && r->Err_0 is MissingHost,
            !(self@.user is Some && self@.host is None) ==> r is Ok && {
                let o = r->Ok_0;
                &&& o.name@ == snapshot@.name
                &&& o.src@ == local@.path
                &&& o.src_sudo == local@.sudo
                &&& o.src_suffix@ == local@.suffix
                &&& o.dst@ == location_text(self@)
                &&& o.dst_sudo == self@.sudo
                &&& o.dst_suffix@ == self@.suffix
                &&& o.dry_run == opts.dry_run
                &&& o.verbose == opts.verbose
            },
    {
        let dst = match self.location_string() {
            Ok(dst) => dst,
            Err(e) => { return Err(e); },
        };
        Ok(
            SyncOpts {
                name: snapshot.name.clone(),
                src: local.path.clone(),
                src_sudo: local.sudo,
                src_suffix: local.suffix.clone(),
                dst,
                dst_sudo: self.sudo,
                dst_suffix: self.suffix.clone(),
                dry_run: opts.dry_run,
                verbose: opts.verbose,
            },
        )
    }
}

} // verus!
