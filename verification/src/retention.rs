//! When a snapshot of a tier is due, and which snapshots leave.

use vstd::prelude::*;
use crate::codec::{encoded, records, IdentifierView, Snapshot, SnapshotIdentifier, SnapshotView};
use crate::config::{SnapshotConfig, SnapshotConfigView};
use crate::error::FridgeError;
use crate::instant::{instant_at, Timestamp};
use crate::location::{Location, LocationView};
use crate::options::{SnapshotOpts, SnapshotOptsView};
use crate::text::same_text;

verus! {

/// A cadence at which snapshots are taken.
#[derive(Clone, Copy, Debug, PartialEq, Eq, Structural)]
pub enum Tier {
    Hourly,
    Daily,
    Weekly,
    Monthly,
    Yearly,
}

/// The seconds of one hour.
pub const HOUR: i64 = 3600;

/// The seconds of one day.
pub const DAY: i64 = 86400;

impl Tier {
    /// The least time between two snapshots of this tier, in seconds: an
    /// hour, a day, seven days, 31 days, 365 days.
    pub open spec fn interval_spec(self) -> int {
        match self {
            Tier::Hourly => 3_600,
            Tier::Daily => 86_400,
            Tier::Weekly => 604_800,
            Tier::Monthly => 2_678_400,
            Tier::Yearly => 31_536_000,
        }
    }

    /// The least time between two snapshots of this tier, in seconds.
    pub fn interval(self) -> (r: i64)
        ensures
            r == self.interval_spec(),
    {
        match self {
            Tier::Hourly => HOUR,
            Tier::Daily => DAY,
            Tier::Weekly => 7 * DAY,
            Tier::Monthly => 31 * DAY,
            Tier::Yearly => 365 * DAY,
        }
    }

    /// The tier's name, as it stands at the end of a snapshot's name.
    pub open spec fn suffix_spec(self) -> Seq<char> {
        match self {
            Tier::Hourly => "hourly"@,
            Tier::Daily => "daily"@,
            Tier::Weekly => "weekly"@,
            Tier::Monthly => "monthly"@,
            Tier::Yearly => "yearly"@,
        }
    }

    /// The tier's name.
    pub fn suffix(self) -> (r: &'static str)
        ensures
            r@ == self.suffix_spec(),
    {
        match self {
            Tier::Hourly => "hourly",
            Tier::Daily => "daily",
            Tier::Weekly => "weekly",
            Tier::Monthly => "monthly",
            Tier::Yearly => "yearly",
        }
    }
}

/// How many snapshots of each tier a volume keeps.
#[derive(Clone, Copy, Debug, PartialEq, Eq, Structural)]
pub struct RetentionPolicy {
    pub hourly: usize,
    pub daily: usize,
    pub weekly: usize,
    pub monthly: usize,
    pub yearly: usize,
}

impl RetentionPolicy {
    /// The counts that hold where none are configured: 24 hourly, 7 daily,
    /// 4 weekly, 12 monthly and 3 yearly snapshots.
    pub fn standard() -> (r: RetentionPolicy)
        ensures
            r == (RetentionPolicy { hourly: 24, daily: 7, weekly: 4, monthly: 12, yearly: 3 }),
    {
        RetentionPolicy { hourly: 24, daily: 7, weekly: 4, monthly: 12, yearly: 3 }
    }

    /// How many snapshots of `tier` are kept.
    pub open spec fn max_count_spec(self, tier: Tier) -> usize {
        match tier {
            Tier::Hourly => self.hourly,
            Tier::Daily => self.daily,
            Tier::Weekly => self.weekly,
            Tier::Monthly => self.monthly,
            Tier::Yearly => self.yearly,
        }
    }

    /// How many snapshots of `tier` are kept.
    pub fn max_count(&self, tier: Tier) -> (r: usize)
        ensures
            r == self.max_count_spec(tier),
    {
        match tier {
            Tier::Hourly => self.hourly,
            Tier::Daily => self.daily,
            Tier::Weekly => self.weekly,
            Tier::Monthly => self.monthly,
            Tier::Yearly => self.yearly,
        }
    }
}

/// Whether a snapshot is due `now`, where `last` holds the seconds at which
/// the newest one was taken: there is none yet, or at least `interval`
/// seconds have gone by since.
pub open spec fn due(last: Option<int>, interval: int, now: int) -> bool {
    match last {
        None => true,
        Some(at) => now - at >= interval,
    }
}

/// The seconds at which the last snapshot of `existing` was taken.
pub open spec fn last_seen(existing: Seq<SnapshotView>) -> Option<int> {
    if existing.len() == 0 {
        None
    } else {
        Some(existing.last().datetime.seconds)
    }
}

/// Decides whether a snapshot is due at `now`, in seconds since
/// 1970-01-01T00:00:00Z, where `existing` holds the snapshots of one volume
/// and tier from the oldest to the newest and `tier_interval` is the tier's
/// interval in seconds.
pub fn is_snapshot_due(existing: &Vec<Snapshot>, tier_interval: i64, now: i64) -> (r: bool)
    ensures
        r == due(last_seen(records(existing@)), tier_interval as int, now as int),
{
    if existing.len() == 0 {
        return true;
    }
    assert(records(existing@).last() == existing@.last()@);
    let at: i64 = existing[existing.len() - 1].datetime.timestamp();
    now as i128 - at as i128 >= tier_interval as i128
}

/// How many of `count` snapshots leave where at most `max_count` stay.
pub open spec fn excess(count: int, max_count: int) -> int {
    if count > max_count {
        count - max_count
    } else {
        0
    }
}

/// Takes out of `existing`, which holds the snapshots of one volume and
/// tier from the oldest to the newest, the oldest ones until at most
/// `max_count` are left, and returns those taken out, the oldest first.
pub fn plan_pruning(existing: &mut Vec<Snapshot>, max_count: usize) -> (r: Vec<Snapshot>)
    ensures
        r@ == old(existing)@.take(excess(old(existing)@.len() as int, max_count as int)),
        final(existing)@ == old(existing)@.skip(
            excess(old(existing)@.len() as int, max_count as int),
        ),
        final(existing)@.len() <= max_count,
        r@ + final(existing)@ == old(existing)@,
{
    let mut deleted: Vec<Snapshot> = Vec::new();
    while existing.len() > max_count
        invariant
            deleted@.len() <= excess(old(existing)@.len() as int, max_count as int),
            deleted@ == old(existing)@.take(deleted@.len() as int),
            existing@ == old(existing)@.skip(deleted@.len() as int),
        decreases existing.len(),
    {
        let oldest = existing.remove(0);
        deleted.push(oldest);
        assert(existing@ == old(existing)@.skip(deleted@.len() as int));
        assert(deleted@ == old(existing)@.take(deleted@.len() as int));
    }
    assert(deleted@ + existing@ == old(existing)@);
    deleted
}

/// The records of `list` that belong to the volume `name` and the tier
/// `suffix`, in their order.
pub open spec fn selected(list: Seq<SnapshotView>, name: Seq<char>, suffix: Seq<char>) -> Seq<
    SnapshotView,
>
    decreases list.len(),
{
    if list.len() == 0 {
        Seq::empty()
    } else if list.last().name == name && list.last().suffix == suffix {
        selected(list.drop_last(), name, suffix).push(list.last())
    } else {
        selected(list.drop_last(), name, suffix)
    }
}

/// What a pass does for one tier of one volume, where a snapshot is due:
/// it takes the snapshot named `full_name`, as `create` tells, and then
/// deletes the snapshots of `delete` in their order.
#[derive(Debug, PartialEq, Eq)]
pub struct SnapshotPass {
    pub create: SnapshotOpts,
    pub full_name: String,
    pub delete: Vec<Snapshot>,
}

/// A pass as plain values.
pub struct SnapshotPassView {
    pub create: SnapshotOptsView,
    pub full_name: Seq<char>,
    pub delete: Seq<SnapshotView>,
}

impl View for SnapshotPass {
    type V = SnapshotPassView;

    open spec fn view(&self) -> SnapshotPassView {
        SnapshotPassView {
            create: self.create@,
            full_name: self.full_name@,
            delete: records(self.delete@),
        }
    }
}

/// What one pass decides for the tier `tier` of the volume `cfg` at `now`,
/// where `known` holds the snapshots of a repository from the oldest to the
/// newest. Nothing where no snapshot is due. Else the snapshot to take at
/// `now`, and, of the tier's snapshots with that one as the newest, the
/// oldest ones beyond the tier's maximum, the oldest first. `Err` stands
/// for a `now` outside the years 0000 to 9999.
pub open spec fn passed(
    cfg: SnapshotConfigView,
    known: Seq<SnapshotView>,
    tier: Tier,
    now: i64,
    repository: LocationView,
    sudo: bool,
    dry_run: bool,
    verbose: i32,
) -> Result<Option<SnapshotPassView>, ()> {
    let existing = selected(known, cfg.name, tier.suffix_spec());
    if !due(last_seen(existing), tier.interval_spec(), now as int) {
        Ok(None)
    } else {
        match instant_at(now) {
            None => Err(()),
            Some(at) => {
                let full_name = encoded(
                    IdentifierView {
                        base_name: cfg.name,
                        timestamp: at,
                        tier: tier.suffix_spec(),
                    },
                );
                let taken = SnapshotView {
                    full_name,
                    name: cfg.name,
                    suffix: tier.suffix_spec(),
                    datetime: at,
                    repository,
                };
                let all = existing.push(taken);
                Ok(
                    Some(
                        SnapshotPassView {
                            create: SnapshotOptsView {
                                src: cfg.path,
                                name: cfg.name,
                                suffix: Some(tier.suffix_spec()),
                                sudo,
                                dry_run,
                                verbose,
                            },
                            full_name,
                            delete: all.take(
                                excess(
                                    all.len() as int,
                                    cfg.policy.max_count_spec(tier) as int,
                                ),
                            ),
                        },
                    ),
                )
            },
        }
    }
}

/// The snapshots of `known` that belong to the volume `name` and the tier
/// `suffix`, in their order.
pub fn select(known: &Vec<Snapshot>, name: &str, suffix: &str) -> (r: Vec<Snapshot>)
    ensures
        records(r@) == selected(records(known@), name@, suffix@),
{
    let mut r: Vec<Snapshot> = Vec::new();
    let mut i: usize = 0;
    while i < known.len()
        invariant
            i <= known.len(),
            records(r@) == selected(records(known@).take(i as int), name@, suffix@),
        decreases known.len() - i,
    {
        let s = &known[i];
        let ghost before = records(r@);
        proof {
            let next = records(known@).take(i as int + 1);
            assert(next.drop_last() == records(known@).take(i as int));
            assert(next.last() == s@);
        }
        if same_text(s.name.as_str(), name) && same_text(s.suffix.as_str(), suffix) {
            r.push(s.clone());
            assert(records(r@) == before.push(s@));
        }
        i += 1;
    }
    assert(records(known@).take(known@.len() as int) == records(known@));
    r
}

/// Decides what a pass does for the tier `tier` of the volume `cfg` at
/// `now`, in seconds since 1970-01-01T00:00:00Z. `snapshots` holds the
/// snapshots that `repository` has, from the oldest to the newest. The
/// decision is the same with and without `dry_run`.
pub fn run_snapshot(
    cfg: &SnapshotConfig,
    snapshots: &Vec<Snapshot>,
    tier: Tier,
    now: i64,
    repository: &Location,
    sudo: bool,
    dry_run: bool,
    verbose: i32,
) -> (r: Result<Option<SnapshotPass>, FridgeError>)
    ensures
        match passed(cfg@, records(snapshots@), tier, now, repository@, sudo, dry_run, verbose) {
            Ok(None) => r is Ok && r->Ok_0 is None,
            Ok(Some(pass)) => r is Ok && r->Ok_0 is Some && r->Ok_0->0@ == pass,
            Err(_) => r is Err && r->Err_0 is InstantOutOfRange && r->Err_0->seconds == now,
        },
{
    let mut existing = select(snapshots, cfg.name.as_str(), tier.suffix());
    if !is_snapshot_due(&existing, tier.interval(), now) {
        return Ok(None);
    }
    let at = match Timestamp::from_seconds(now) {
        Some(at) => at,
        None => { return Err(FridgeError::InstantOutOfRange { seconds: now }); },
    };
    let id = SnapshotIdentifier::new(cfg.name.as_str(), at, Some(tier.suffix()));
    let full_name = id.encode();
    let ghost old_records = records(existing@);
    let taken = Snapshot {
        full_name: full_name.clone(),
        name: id.base_name,
        suffix: id.tier,
        datetime: at,
        repository: repository.clone(),
    };
    existing.push(taken);
    let ghost all = existing@;
    assert(records(all) == old_records.push(taken@));
    let delete = plan_pruning(&mut existing, cfg.policy().max_count(tier));
    assert(records(delete@) == records(all).take(delete@.len() as int));
    let create = cfg.to_snapshot_opts(Some(tier.suffix()), sudo, dry_run, verbose);
    Ok(Some(SnapshotPass { create, full_name, delete }))
}

/// The tier that `suffix` names, if any.
pub open spec fn tier_named(suffix: Seq<char>) -> Option<Tier> {
    if suffix == "hourly"@ {
        Some(Tier::Hourly)
    } else if suffix == "daily"@ {
        Some(Tier::Daily)
    } else if suffix == "weekly"@ {
        Some(Tier::Weekly)
    } else if suffix == "monthly"@ {
        Some(Tier::Monthly)
    } else if suffix == "yearly"@ {
        Some(Tier::Yearly)
    } else {
        None
    }
}

/// How many snapshots a repository keeps that holds the snapshots of the
/// tier that `suffix` names: the policy's count for that tier, and a
/// million where `suffix` names no tier.
pub open spec fn kept(policy: RetentionPolicy, suffix: Seq<char>) -> usize {
    match tier_named(suffix) {
        Some(tier) => policy.max_count_spec(tier),
        None => 1_000_000,
    }
}

impl Tier {
    /// The tier that `suffix` names, if any.
    pub fn from_suffix(suffix: &str) -> (r: Option<Tier>)
        ensures
            r == tier_named(suffix@),
    {
        if same_text(suffix, "hourly") {
            Some(Tier::Hourly)
        } else if same_text(suffix, "daily") {
            Some(Tier::Daily)
        } else if same_text(suffix, "weekly") {
            Some(Tier::Weekly)
        } else if same_text(suffix, "monthly") {
            Some(Tier::Monthly)
        } else if same_text(suffix, "yearly") {
            Some(Tier::Yearly)
        } else {
            None
        }
    }
}

/// How many snapshots of the volume `cfg` a repository keeps whose suffix
/// is `suffix`.
pub fn remote_max_count(cfg: &SnapshotConfig, suffix: &str) -> (r: usize)
    ensures
        r == kept(cfg@.policy, suffix@),
{
    match Tier::from_suffix(suffix) {
        Some(tier) => cfg.policy().max_count(tier),
        None => 1_000_000,
    }
}

} // verus!
