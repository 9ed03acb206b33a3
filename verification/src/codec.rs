//! The canonical name of a snapshot, `name@YYYY-MM-DD_HH:MM:SS_tier`.

use vstd::prelude::*;
use crate::error::{FridgeError, SnapshotField};
use crate::location::{Location, LocationView};
use crate::instant::{
    civil_key, date_text, in_range, lemma_stamped_texts, lemma_stamps_ordered, lemma_two_digits,
    stamp_text, stamped, time_text, two_digits, valid, Instant, Timestamp,
};
use crate::text::{
    chars_of, head, lemma_first_index, lemma_precedes_blocks, lemma_split_joined, occurs,
    precedes, split_first, string_of, tail, words,
};

verus! {

/// The identity of a snapshot: the volume's name, the instant at which it
/// was taken, and its tier.
#[derive(Debug, PartialEq, Eq)]
pub struct SnapshotIdentifier {
    pub base_name: String,
    pub timestamp: Timestamp,
    pub tier: String,
}

/// A snapshot's identity as plain values.
pub struct IdentifierView {
    pub base_name: Seq<char>,
    pub timestamp: Instant,
    pub tier: Seq<char>,
}

impl View for SnapshotIdentifier {
    type V = IdentifierView;

    open spec fn view(&self) -> IdentifierView {
        IdentifierView {
            base_name: self.base_name@,
            timestamp: self.timestamp@,
            tier: self.tier@,
        }
    }
}

/// The canonical name of `v`.
pub open spec fn encoded(v: IdentifierView) -> Seq<char> {
    v.base_name + seq!['@'] + date_text(v.timestamp) + seq!['_'] + time_text(v.timestamp)
        + seq!['_'] + v.tier
}

/// What a name means, or the part of it at fault. The volume's name ends at
/// the first `@`. What follows is split at `_` into date, time of day and
/// tier; what follows a third `_` is left out.
pub open spec fn decoded(s: Seq<char>) -> Result<IdentifierView, SnapshotField> {
    let rest = tail(s, '@');
    let after_date = tail(rest, '_');
    if !occurs(s, '@') {
        Err(SnapshotField::Name)
    } else if rest.len() == 0 {
        Err(SnapshotField::DatetimeAndSuffix)
    } else if !occurs(rest, '_') {
        Err(SnapshotField::Time)
    } else if !occurs(after_date, '_') {
        Err(SnapshotField::Suffix)
    } else {
        match stamped(head(rest, '_'), head(after_date, '_')) {
            Ok(t) => Ok(
                IdentifierView {
                    base_name: head(s, '@'),
                    timestamp: t,
                    tier: head(tail(after_date, '_'), '_'),
                },
            ),
            Err(field) => Err(field),
        }
    }
}

/// Whether an identity comes back from its canonical name: the volume's
/// name holds no `@`, the tier no `_`, and the instant is one of the
/// calendar.
pub open spec fn canonical(v: IdentifierView) -> bool {
    &&& !occurs(v.base_name, '@')
    &&& !occurs(v.tier, '_')
    &&& valid(v.timestamp)
}

/// Neither a date nor a time of day holds the separator `_`.
proof fn lemma_texts_hold_no_separator(t: Instant)
    requires
        valid(t),
    ensures
        !occurs(date_text(t), '_'),
        !occurs(time_text(t), '_'),
{
    let d = date_text(t);
    let c = time_text(t);
    lemma_two_digits(t.year / 100);
    lemma_two_digits(t.year % 100);
    lemma_two_digits(t.month);
    lemma_two_digits(t.day);
    lemma_two_digits(t.hour);
    lemma_two_digits(t.minute);
    lemma_two_digits(t.second);
    lemma_first_index(d, '_');
    lemma_first_index(c, '_');
    assert forall|i: int| 0 <= i < d.len() implies d[i] != '_' by {
        assert(d[0] == two_digits(t.year / 100)[0] && d[1] == two_digits(t.year / 100)[1]);
        assert(d[2] == two_digits(t.year % 100)[0] && d[3] == two_digits(t.year % 100)[1]);
        assert(d[5] == two_digits(t.month)[0] && d[6] == two_digits(t.month)[1]);
        assert(d[8] == two_digits(t.day)[0] && d[9] == two_digits(t.day)[1]);
        assert(d[4] == '-' && d[7] == '-');
    }
    assert forall|i: int| 0 <= i < c.len() implies c[i] != '_' by {
        assert(c[0] == two_digits(t.hour)[0] && c[1] == two_digits(t.hour)[1]);
        assert(c[3] == two_digits(t.minute)[0] && c[4] == two_digits(t.minute)[1]);
        assert(c[6] == two_digits(t.second)[0] && c[7] == two_digits(t.second)[1]);
        assert(c[2] == ':' && c[5] == ':');
    }
}

/// The canonical names of two snapshots of one volume and tier stand in the
/// order of strings exactly as their instants stand in the order of their
/// civil fields, the year first.
pub proof fn lemma_names_ordered_as_instants(a: IdentifierView, b: IdentifierView)
    requires
        in_range(a.timestamp),
        in_range(b.timestamp),
        a.base_name == b.base_name,
        a.tier == b.tier,
    ensures
        precedes(encoded(a), encoded(b)) <==> civil_key(a.timestamp) < civil_key(b.timestamp),
{
    let front = a.base_name + seq!['@'];
    let rest = seq!['_'] + a.tier;
    assert(encoded(a) =~= front + stamp_text(a.timestamp, rest));
    assert(encoded(b) =~= front + stamp_text(b.timestamp, rest));
    lemma_precedes_blocks(
        front,
        front,
        stamp_text(a.timestamp, rest),
        stamp_text(b.timestamp, rest),
    );
    lemma_stamps_ordered(a.timestamp, b.timestamp, rest);
}

/// Decoding the canonical name of an identity gives the identity back.
pub proof fn lemma_round_trip(v: IdentifierView)
    requires
        canonical(v),
    ensures
        decoded(encoded(v)) == Ok::<IdentifierView, SnapshotField>(v),
{
    let d = date_text(v.timestamp);
    let c = time_text(v.timestamp);
    let after_date = c.push('_') + v.tier;
    let rest = d.push('_') + after_date;
    let s = encoded(v);
    lemma_stamped_texts(v.timestamp);
    lemma_texts_hold_no_separator(v.timestamp);
    assert(s =~= v.base_name.push('@') + rest);
    lemma_split_joined(v.base_name, '@', rest);
    lemma_split_joined(d, '_', after_date);
    lemma_split_joined(c, '_', v.tier);
    lemma_first_index(v.tier, '_');
    assert(v.tier.take(v.tier.len() as int) == v.tier);
    assert(rest.len() > 0);
}

impl Clone for SnapshotIdentifier {
    fn clone(&self) -> (r: Self)
        ensures
            r@ == self@,
    {
        SnapshotIdentifier {
            base_name: self.base_name.clone(),
            timestamp: self.timestamp,
            tier: self.tier.clone(),
        }
    }
}

impl SnapshotIdentifier {
    /// The identity of the snapshot of volume `base_name` taken at
    /// `timestamp`; its tier is `tier`, or `manual` where none is given.
    pub fn new(base_name: &str, timestamp: Timestamp, tier: Option<&str>) -> (r: SnapshotIdentifier)
        ensures
            r@.base_name == base_name@,
            r@.timestamp == timestamp@,
            r@.tier == (match tier {
                Some(t) => t@,
                None => "manual"@,
            }),
    {
        let tier = match tier {
            Some(t) => t,
            None => "manual",
        };
        SnapshotIdentifier {
            base_name: String::from_str(base_name),
            timestamp,
            tier: String::from_str(tier),
        }
    }

    /// The canonical name. It is `encoded` of this identity, and decoding it
    /// gives the identity back where the volume's name holds no `@` and the
    /// tier no `_`.
    pub fn encode(&self) -> (r: String)
        ensures
            r@ == encoded(self@),
            valid(self@.timestamp),
            canonical(self@) ==> decoded(r@) == Ok::<IdentifierView, SnapshotField>(self@),
    {
        let mut out = chars_of(self.base_name.as_str());
        out.push('@');
        let mut date = self.timestamp.date();
        out.append(&mut date);
        out.push('_');
        let mut time = self.timestamp.time();
        out.append(&mut time);
        out.push('_');
        let mut tier = chars_of(self.tier.as_str());
        out.append(&mut tier);
        proof {
            assert(out@ =~= encoded(self@));
            if canonical(self@) {
                lemma_round_trip(self@);
            }
        }
        string_of(&out)
    }

    /// Reads a canonical name: the identity that `decoded` gives, or the
    /// error that names the part at fault and the name itself.
    pub fn decode(full_name: &str) -> (r: Result<SnapshotIdentifier, FridgeError>)
        ensures
            match decoded(full_name@) {
                Ok(v) => r is Ok && r->Ok_0@ == v,
                Err(field) => r is Err && r->Err_0 is ParseSnapshot && r->Err_0->what == field
                    && r->Err_0->snapshot@ == full_name@,
            },
    {
        let text = chars_of(full_name);
        match decode_chars(&text) {
            Ok(id) => Ok(id),
            Err(what) => Err(FridgeError::ParseSnapshot { snapshot: string_of(&text), what }),
        }
    }
}

/// An identity or a field at fault as plain values.
pub open spec fn identity_view(r: Result<SnapshotIdentifier, SnapshotField>) -> Result<
    IdentifierView,
    SnapshotField,
> {
    match r {
        Ok(id) => Ok(id@),
        Err(field) => Err(field),
    }
}

/// Reads a canonical name in its characters.
fn decode_chars(text: &Vec<char>) -> (r: Result<SnapshotIdentifier, SnapshotField>)
    ensures
        identity_view(r) == decoded(text@),
{
    let (name, rest) = split_first(text, '@');
    let rest = match rest {
        Some(rest) => rest,
        None => { return Err(SnapshotField::Name); },
    };
    if rest.len() == 0 {
        return Err(SnapshotField::DatetimeAndSuffix);
    }
    let (date, after_date) = split_first(&rest, '_');
    let after_date = match after_date {
        Some(after_date) => after_date,
        None => { return Err(SnapshotField::Time); },
    };
    let (time, after_time) = split_first(&after_date, '_');
    let after_time = match after_time {
        Some(after_time) => after_time,
        None => { return Err(SnapshotField::Suffix); },
    };
    let (tier, _) = split_first(&after_time, '_');
    match Timestamp::parse(&date, &time) {
        Ok(timestamp) => Ok(
            SnapshotIdentifier { base_name: string_of(&name), timestamp, tier: string_of(&tier) },
        ),
        Err(field) => Err(field),
    }
}

/// A snapshot that was seen in a repository.
#[derive(Debug, PartialEq, Eq)]
pub struct Snapshot {
    pub full_name: String,
    pub name: String,
    pub suffix: String,
    pub datetime: Timestamp,
    pub repository: Location,
}

/// A snapshot record as plain values.
pub struct SnapshotView {
    pub full_name: Seq<char>,
    pub name: Seq<char>,
    pub suffix: Seq<char>,
    pub datetime: Instant,
    pub repository: LocationView,
}

impl View for Snapshot {
    type V = SnapshotView;

    open spec fn view(&self) -> SnapshotView {
        SnapshotView {
            full_name: self.full_name@,
            name: self.name@,
            suffix: self.suffix@,
            datetime: self.datetime@,
            repository: self.repository@,
        }
    }
}

impl Clone for Snapshot {
    fn clone(&self) -> (r: Self)
        ensures
            r@ == self@,
    {
        Snapshot {
            full_name: self.full_name.clone(),
            name: self.name.clone(),
            suffix: self.suffix.clone(),
            datetime: self.datetime,
            repository: self.repository.clone(),
        }
    }
}

impl Snapshot {
    /// The identity of this snapshot.
    pub fn identifier(&self) -> (r: SnapshotIdentifier)
        ensures
            r@.base_name == self@.name,
            r@.timestamp == self@.datetime,
            r@.tier == self@.suffix,
    {
        SnapshotIdentifier {
            base_name: self.name.clone(),
            timestamp: self.datetime,
            tier: self.suffix.clone(),
        }
    }
}

/// The record of the snapshot named `full_name` in `repository`, or the
/// part of the name at fault.
pub open spec fn recorded(full_name: Seq<char>, repository: LocationView) -> Result<
    SnapshotView,
    SnapshotField,
> {
    match decoded(full_name) {
        Ok(v) => Ok(
            SnapshotView {
                full_name,
                name: v.base_name,
                suffix: v.tier,
                datetime: v.timestamp,
                repository,
            },
        ),
        Err(field) => Err(field),
    }
}

/// Reads the name of a snapshot that was seen in `repository`.
pub fn parse_snapshot_name(snapshot_name: &str, repository: &Location) -> (r: Result<
    Snapshot,
    FridgeError,
>)
    ensures
        match recorded(snapshot_name@, repository@) {
            Ok(v) => r is Ok && r->Ok_0@ == v,
            Err(field) => r is Err && r->Err_0 is ParseSnapshot && r->Err_0->what == field
                && r->Err_0->snapshot@ == snapshot_name@,
        },
{
    match SnapshotIdentifier::decode(snapshot_name) {
        Ok(id) => Ok(
            Snapshot {
                full_name: String::from_str(snapshot_name),
                name: id.base_name,
                suffix: id.tier,
                datetime: id.timestamp,
                repository: repository.clone(),
            },
        ),
        Err(e) => Err(e),
    }
}

/// The records of a list as plain values.
pub open spec fn records(list: Seq<Snapshot>) -> Seq<SnapshotView> {
    Seq::new(list.len(), |i: int| list[i]@)
}

/// The index of the first name of `names` that cannot be read, or the
/// length of `names` where all can.
pub open spec fn first_unreadable(names: Seq<Seq<char>>) -> int
    decreases names.len(),
{
    if names.len() == 0 || decoded(names[0]) is Err {
        0
    } else {
        1 + first_unreadable(names.drop_first())
    }
}

/// The records of the snapshots named `names` in `repository`, or the
/// first name that cannot be read with its part at fault.
pub open spec fn listed(names: Seq<Seq<char>>, repository: LocationView) -> Result<
    Seq<SnapshotView>,
    (Seq<char>, SnapshotField),
> {
    let k = first_unreadable(names);
    if 0 <= k < names.len() {
        Err((names[k], decoded(names[k])->Err_0))
    } else {
        Ok(Seq::new(names.len(), |i: int| recorded(names[i], repository)->Ok_0))
    }
}

/// An index that holds a name which cannot be read, with none such before
/// it, is the first.
pub proof fn lemma_first_unreadable_is(names: Seq<Seq<char>>, i: int)
    requires
        0 <= i <= names.len(),
        forall|j: int| 0 <= j < i ==> decoded(#[trigger] names[j]) is Ok,
        i < names.len() ==> decoded(names[i]) is Err,
    ensures
        first_unreadable(names) == i,
    decreases i,
{
    if i == 0 {
    } else {
        assert(decoded(names[0]) is Ok);
        let rest = names.drop_first();
        assert forall|j: int| 0 <= j < i - 1 implies decoded(#[trigger] rest[j]) is Ok by {
            assert(rest[j] == names[j + 1]);
        }
        if i < names.len() {
            assert(rest[i - 1] == names[i]);
        }
        lemma_first_unreadable_is(rest, i - 1);
    }
}

/// Reads the names of the snapshots that were seen in `repository`, in
/// their order. The first name that cannot be read is reported, and nothing
/// else.
pub fn parse_snapshot_list(snapshot_list: &Vec<String>, repository: &Location) -> (r: Result<
    Vec<Snapshot>,
    FridgeError,
>)
    ensures
        match listed(words(snapshot_list@), repository@) {
            Ok(list) => r is Ok && records(r->Ok_0@) == list,
            Err((name, field)) => r is Err && r->Err_0 is ParseSnapshot && r->Err_0->what == field
                && r->Err_0->snapshot@ == name,
        },
{
    let ghost names = words(snapshot_list@);
    let mut snapshots: Vec<Snapshot> = Vec::new();
    let mut n: usize = 0;
    while n < snapshot_list.len()
        invariant
            n <= snapshot_list.len(),
            snapshots.len() == n,
            names == words(snapshot_list@),
            forall|i: int| 0 <= i < n ==> decoded(#[trigger] names[i]) is Ok,
            forall|i: int|
                0 <= i < n ==> (#[trigger] snapshots[i])@ == recorded(names[i], repository@)->Ok_0,
        decreases snapshot_list.len() - n,
    {
        assert(names[n as int] == snapshot_list[n as int]@);
        match parse_snapshot_name(snapshot_list[n].as_str(), repository) {
            Ok(snapshot) => {
                snapshots.push(snapshot);
            },
            Err(e) => {
                proof {
                    lemma_first_unreadable_is(names, n as int);
                }
                return Err(e);
            },
        }
        n += 1;
    }
    proof {
        lemma_first_unreadable_is(names, n as int);
        assert(records(snapshots@) =~= Seq::new(
            names.len(),
            |i: int| recorded(names[i], repository@)->Ok_0,
        ));
    }
    Ok(snapshots)
}

} // verus!
