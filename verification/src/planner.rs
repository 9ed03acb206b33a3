//! Which snapshots a destination lacks, and from which parent each is sent.

use vstd::prelude::*;
use crate::error::FridgeError;
use crate::location::{copy_text, located, parse_snapshot_repository_location, LocationView};
use crate::options::{SyncOpts, TransferOpts, TransferOptsView};
use crate::text::same_text;

verus! {

/// The names of a list as plain values.
pub open spec fn texts(list: Seq<&str>) -> Seq<Seq<char>> {
    Seq::new(list.len(), |i: int| list[i]@)
}

/// The names of `source` that `destination` lacks, in the order of `source`.
pub open spec fn missing(source: Seq<Seq<char>>, destination: Seq<Seq<char>>) -> Seq<Seq<char>>
    decreases source.len(),
{
    if source.len() == 0 {
        Seq::empty()
    } else if destination.contains(source.last()) {
        missing(source.drop_last(), destination)
    } else {
        missing(source.drop_last(), destination).push(source.last())
    }
}

/// The index of the first entry of `list` that equals `name`, or the length
/// of `list` where none does.
pub open spec fn first_at(list: Seq<Seq<char>>, name: Seq<char>) -> int
    decreases list.len(),
{
    if list.len() == 0 || list[0] == name {
        0
    } else {
        1 + first_at(list.drop_first(), name)
    }
}

/// The entry that stands right before the first occurrence of `name` in
/// `list`; `None` where `name` is the first entry or does not occur.
pub open spec fn parent_of(name: Seq<char>, list: Seq<Seq<char>>) -> Option<Seq<char>> {
    let at = first_at(list, name);
    if 0 < at < list.len() {
        Some(list[at - 1])
    } else {
        None
    }
}

/// `first_at` is the least index that holds `name`, where there is one.
pub proof fn lemma_first_at(list: Seq<Seq<char>>, name: Seq<char>)
    ensures
        0 <= first_at(list, name) <= list.len(),
        forall|j: int| 0 <= j < first_at(list, name) ==> list[j] != name,
        first_at(list, name) < list.len() ==> list[first_at(list, name)] == name,
    decreases list.len(),
{
    if list.len() == 0 || list[0] == name {
    } else {
        let rest = list.drop_first();
        lemma_first_at(rest, name);
        assert forall|j: int| 0 <= j < first_at(list, name) implies list[j] != name by {
            if j > 0 {
                assert(list[j] == rest[j - 1]);
            }
        }
        if first_at(list, name) < list.len() {
            assert(list[first_at(list, name)] == rest[first_at(rest, name)]);
        }
    }
}

/// An index that holds `name` and has no `name` before it is the first.
pub proof fn lemma_first_at_is(list: Seq<Seq<char>>, name: Seq<char>, i: int)
    requires
        0 <= i <= list.len(),
        forall|j: int| 0 <= j < i ==> list[j] != name,
        i < list.len() ==> list[i] == name,
    ensures
        first_at(list, name) == i,
{
    lemma_first_at(list, name);
    let f = first_at(list, name);
    if f < i {
        assert(list[f] != name);
    }
    if i < f {
        assert(list[i] == name);
    }
}

/// A name is among those that the destination lacks exactly if the source
/// holds it and the destination does not.
pub proof fn lemma_missing_members(
    source: Seq<Seq<char>>,
    destination: Seq<Seq<char>>,
    name: Seq<char>,
)
    ensures
        missing(source, destination).contains(name) <==> source.contains(name)
            && !destination.contains(name),
    decreases source.len(),
{
    if source.len() > 0 {
        let rest = source.drop_last();
        let lacking = missing(rest, destination);
        lemma_missing_members(rest, destination, name);
        if source.contains(name) {
            let k = choose|k: int| 0 <= k < source.len() && source[k] == name;
            if k < rest.len() {
                assert(rest[k] == name);
            }
        }
        if rest.contains(name) {
            let k = choose|k: int| 0 <= k < rest.len() && rest[k] == name;
            assert(source[k] == name);
        }
        if !destination.contains(source.last()) {
            let all = lacking.push(source.last());
            if lacking.contains(name) {
                let k = choose|k: int| 0 <= k < lacking.len() && lacking[k] == name;
                assert(all[k] == name);
            }
            if source.last() == name {
                assert(all[all.len() - 1] == name);
                assert(source[source.len() - 1] == name);
            }
        } else if source.last() == name {
            assert(source[source.len() - 1] == name);
        }
    }
}

/// The first name that the destination lacks stands in the source behind
/// names that the destination holds, and nowhere before.
pub proof fn lemma_first_missing(source: Seq<Seq<char>>, destination: Seq<Seq<char>>)
    requires
        missing(source, destination).len() > 0,
    ensures
        ({
            let at = first_at(source, missing(source, destination)[0]);
            &&& 0 <= at < source.len()
            &&& source[at] == missing(source, destination)[0]
            &&& !destination.contains(source[at])
            &&& forall|j: int| 0 <= j < at ==> destination.contains(#[trigger] source[j])
        }),
    decreases source.len(),
{
    let rest = source.drop_last();
    let lacking = missing(rest, destination);
    let first = missing(source, destination)[0];
    if lacking.len() > 0 {
        lemma_first_missing(rest, destination);
        let at = first_at(rest, lacking[0]);
        assert(first == lacking[0]);
        assert forall|j: int| 0 <= j < at implies source[j] != first by {
            assert(source[j] == rest[j]);
            assert(destination.contains(rest[j]));
        }
        assert(source[at] == rest[at]);
        lemma_first_at_is(source, first, at);
        assert forall|j: int| 0 <= j < at implies destination.contains(#[trigger] source[j]) by {
            assert(source[j] == rest[j]);
        }
    } else {
        let at = source.len() - 1;
        assert(first == source.last());
        assert forall|j: int| 0 <= j < at implies destination.contains(#[trigger] source[j]) by {
            lemma_missing_members(rest, destination, source[j]);
            assert(rest[j] == source[j]);
            assert(rest.contains(source[j]));
        }
        lemma_first_at_is(source, first, at);
    }
}

/// The first step of a plan is sent from a snapshot that the destination
/// holds, or in full.
pub proof fn lemma_first_parent_at_destination(
    source: Seq<Seq<char>>,
    destination: Seq<Seq<char>>,
)
    requires
        missing(source, destination).len() > 0,
    ensures
        match planned(missing(source, destination), source)[0].parent {
            Some(parent) => destination.contains(parent),
            None => true,
        },
{
    lemma_first_missing(source, destination);
}

/// Reports whether `list` holds `name`.
pub fn holds(list: &[&str], name: &str) -> (r: bool)
    ensures
        r == texts(list@).contains(name@),
{
    let mut i: usize = 0;
    while i < list.len()
        invariant
            i <= list.len(),
            forall|j: int| 0 <= j < i ==> texts(list@)[j] != name@,
        decreases list.len() - i,
    {
        if same_text(list[i], name) {
            assert(texts(list@)[i as int] == name@);
            return true;
        }
        i += 1;
    }
    false
}

/// The names of `src_list` that `dst_list` lacks, in the order of
/// `src_list`. It never fails.
pub fn diff_snapshot_lists<'a>(src_list: &[&'a str], dst_list: &[&'a str]) -> (r: Result<
    Vec<&'a str>,
    FridgeError,
>)
    ensures
        r is Ok,
        texts(r->Ok_0@) == missing(texts(src_list@), texts(dst_list@)),
{
    let mut final_list: Vec<&'a str> = Vec::new();
    let mut i: usize = 0;
    while i < src_list.len()
        invariant
            i <= src_list.len(),
            texts(final_list@) == missing(texts(src_list@).take(i as int), texts(dst_list@)),
        decreases src_list.len() - i,
    {
        let entry = src_list[i];
        let ghost before = texts(final_list@);
        proof {
            let next = texts(src_list@).take(i as int + 1);
            assert(next.drop_last() == texts(src_list@).take(i as int));
            assert(next.last() == entry@);
        }
        if !holds(dst_list, entry) {
            final_list.push(entry);
            assert(texts(final_list@) == before.push(entry@));
        }
        i += 1;
    }
    assert(texts(src_list@).take(src_list@.len() as int) == texts(src_list@));
    Ok(final_list)
}

/// The text of an optional name.
pub open spec fn text_of_name(name: Option<&str>) -> Option<Seq<char>> {
    match name {
        Some(name) => Some(name@),
        None => None,
    }
}

/// The entry of `snapshot_list` that stands right before the first
/// occurrence of `name`; `None` where `name` is the first entry or does not
/// occur.
pub fn find_parent_snapshot_to<'a>(name: &'a str, snapshot_list: &[&'a str]) -> (r: Option<
    &'a str,
>)
    ensures
        text_of_name(r) == parent_of(name@, texts(snapshot_list@)),
{
    let mut i: usize = 0;
    while i < snapshot_list.len() && !same_text(snapshot_list[i], name)
        invariant
            i <= snapshot_list.len(),
            forall|j: int| 0 <= j < i ==> texts(snapshot_list@)[j] != name@,
        decreases snapshot_list.len() - i,
    {
        i += 1;
    }
    proof {
        if i < snapshot_list.len() {
            assert(texts(snapshot_list@)[i as int] == name@);
        }
        lemma_first_at_is(texts(snapshot_list@), name@, i as int);
    }
    if 0 < i && i < snapshot_list.len() {
        Some(snapshot_list[i - 1])
    } else {
        None
    }
}

/// As `find_parent_snapshot_to`. It never fails.
pub fn parent_snapshot_to<'a>(name: &'a str, snapshot_list: &[&'a str]) -> (r: Result<
    Option<&'a str>,
    FridgeError,
>)
    ensures
        r is Ok,
        text_of_name(r->Ok_0) == parent_of(name@, texts(snapshot_list@)),
{
    Ok(find_parent_snapshot_to(name, snapshot_list))
}

/// One step of a replication: the snapshot to send, and the snapshot that
/// the destination already holds to send it from, if any.
#[derive(Debug, PartialEq, Eq)]
pub struct TransferStep {
    pub snapshot: String,
    pub parent: Option<String>,
}

/// A step as plain values.
pub struct StepView {
    pub snapshot: Seq<char>,
    pub parent: Option<Seq<char>>,
}

impl View for TransferStep {
    type V = StepView;

    open spec fn view(&self) -> StepView {
        StepView {
            snapshot: self.snapshot@,
            parent: match self.parent {
                Some(p) => Some(p@),
                None => None,
            },
        }
    }
}

/// The steps of a plan as plain values.
pub open spec fn steps(plan: Seq<TransferStep>) -> Seq<StepView> {
    Seq::new(plan.len(), |i: int| plan[i]@)
}

/// The plan that sends the snapshots of `lacking` in their order. The first
/// is sent from the entry that stands right before it in `source`, or in
/// full where there is none; each later one from the one sent before it.
pub open spec fn planned(lacking: Seq<Seq<char>>, source: Seq<Seq<char>>) -> Seq<StepView> {
    Seq::new(
        lacking.len(),
        |i: int|
            StepView {
                snapshot: lacking[i],
                parent: if i == 0 {
                    parent_of(lacking[0], source)
                } else {
                    Some(lacking[i - 1])
                },
            },
    )
}

/// In a plan, each step after the first is sent from the snapshot of the
/// step before it.
pub proof fn lemma_parent_chain(lacking: Seq<Seq<char>>, source: Seq<Seq<char>>, i: int)
    requires
        0 < i < lacking.len(),
    ensures
        planned(lacking, source).len() == lacking.len(),
        planned(lacking, source)[i].parent == Some(planned(lacking, source)[i - 1].snapshot),
{
}

/// Plans the sending of the snapshots `missing`, which a destination lacks,
/// where `source_names` holds all snapshots of the source in their order.
pub fn build_replication_plan(missing: &[&str], source_names: &[&str]) -> (r: Vec<TransferStep>)
    ensures
        steps(r@) == planned(texts(missing@), texts(source_names@)),
        forall|i: int| 0 < i < r.len() ==> (#[trigger] r[i])@.parent == Some(r[i - 1]@.snapshot),
{
    let mut plan: Vec<TransferStep> = Vec::new();
    if missing.len() == 0 {
        assert(steps(plan@) == planned(texts(missing@), texts(source_names@)));
        return plan;
    }
    let first = match find_parent_snapshot_to(missing[0], source_names) {
        Some(p) => Some(String::from_str(p)),
        None => None,
    };
    plan.push(TransferStep { snapshot: String::from_str(missing[0]), parent: first });
    let mut i: usize = 1;
    while i < missing.len()
        invariant
            1 <= i <= missing.len(),
            plan.len() == i,
            forall|j: int|
                0 <= j < i ==> (#[trigger] plan[j])@ == planned(
                    texts(missing@),
                    texts(source_names@),
                )[j],
        decreases missing.len() - i,
    {
        plan.push(
            TransferStep {
                snapshot: String::from_str(missing[i]),
                parent: Some(String::from_str(missing[i - 1])),
            },
        );
        i += 1;
    }
    assert(steps(plan@) == planned(texts(missing@), texts(source_names@)));
    assert forall|i: int| 0 < i < plan.len() implies (#[trigger] plan[i])@.parent == Some(
        plan[i - 1]@.snapshot,
    ) by {
        assert(plan[i - 1]@ == planned(texts(missing@), texts(source_names@))[i - 1]);
    }
    plan
}

/// The transfers of a plan as plain values.
pub open spec fn transfers(plan: Seq<TransferOpts>) -> Seq<TransferOptsView> {
    Seq::new(plan.len(), |i: int| plan[i]@)
}

/// The transfers that bring the destination of `opts` up to date, where
/// `source` and `destination` hold the names of the snapshots on each side:
/// one for each step of the plan for what the destination lacks, between
/// the two locations of `opts` and with its switches.
pub open spec fn synced(
    src: LocationView,
    dst: LocationView,
    src_sudo: bool,
    dst_sudo: bool,
    dry_run: bool,
    verbose: i32,
    source: Seq<Seq<char>>,
    destination: Seq<Seq<char>>,
) -> Seq<TransferOptsView> {
    let plan = planned(missing(source, destination), source);
    Seq::new(
        plan.len(),
        |i: int|
            TransferOptsView {
                parent_snapshot: plan[i].parent,
                snapshot: plan[i].snapshot,
                src,
                src_sudo,
                dst,
                dst_sudo,
                dry_run,
                verbose,
            },
    )
}

/// Plans the transfers that bring the destination of `opts` up to date.
/// `src_names` and `dst_names` hold the names of the snapshots that the
/// source and the destination have, each in its order. The transfers are to
/// be made in their order, and none after one that failed. A location that
/// gives no path is refused, the source first.
pub fn sync(opts: &SyncOpts, src_names: &[&str], dst_names: &[&str]) -> (r: Result<
    Vec<TransferOpts>,
    FridgeError,
>)
    ensures
        ({
            let src = located(opts.src@, opts.src_suffix@);
            let dst = located(opts.dst@, opts.dst_suffix@);
            if src.path.len() == 0 {
                r is Err && r->Err_0 is MalformedLocation && r->Err_0->location@ == opts.src@
            } else if dst.path.len() == 0 {
                r is Err && r->Err_0 is MalformedLocation && r->Err_0->location@ == opts.dst@
            } else {
                r is Ok && transfers(r->Ok_0@) == synced(
                    src,
                    dst,
                    opts.src_sudo,
                    opts.dst_sudo,
                    opts.dry_run,
                    opts.verbose,
                    texts(src_names@),
                    texts(dst_names@),
                )
            }
        }),
{
    let src = match parse_snapshot_repository_location(opts.src.as_str(), opts.src_suffix.as_str()) {
        Ok(src) => src,
        Err(e) => { return Err(e); },
    };
    let dst = match parse_snapshot_repository_location(opts.dst.as_str(), opts.dst_suffix.as_str()) {
        Ok(dst) => dst,
        Err(e) => { return Err(e); },
    };
    let diff_list = match diff_snapshot_lists(src_names, dst_names) {
        Ok(diff_list) => diff_list,
        Err(e) => { return Err(e); },
    };
    let plan = build_replication_plan(diff_list.as_slice(), src_names);
    let ghost wanted = synced(
        src@,
        dst@,
        opts.src_sudo,
        opts.dst_sudo,
        opts.dry_run,
        opts.verbose,
        texts(src_names@),
        texts(dst_names@),
    );
    let mut out: Vec<TransferOpts> = Vec::new();
    let mut i: usize = 0;
    while i < plan.len()
        invariant
            i <= plan.len(),
            out.len() == i,
            wanted.len() == plan.len(),
            steps(plan@) == planned(texts(diff_list@), texts(src_names@)),
            texts(diff_list@) == missing(texts(src_names@), texts(dst_names@)),
            wanted == synced(
                src@,
                dst@,
                opts.src_sudo,
                opts.dst_sudo,
                opts.dry_run,
                opts.verbose,
                texts(src_names@),
                texts(dst_names@),
            ),
            forall|j: int| 0 <= j < i ==> (#[trigger] out[j])@ == wanted[j],
        decreases plan.len() - i,
    {
        let step = &plan[i];
        assert(step@ == steps(plan@)[i as int]);
        out.push(
            TransferOpts {
                parent_snapshot: copy_text(&step.parent),
                snapshot: step.snapshot.clone(),
                src: src.clone(),
                src_sudo: opts.src_sudo,
                dst: dst.clone(),
                dst_sudo: opts.dst_sudo,
                dry_run: opts.dry_run,
                verbose: opts.verbose,
            },
        );
        i += 1;
    }
    assert(transfers(out@) == wanted);
    Ok(out)
}

} // verus!
