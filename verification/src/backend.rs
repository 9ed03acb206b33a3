//! The commands that carry out what the library plans, as plain values:
//! nothing here runs them.

use vstd::prelude::*;
use crate::codec::{
    encoded, listed, parse_snapshot_list, records, IdentifierView, Snapshot, SnapshotIdentifier,
    SnapshotView,
};
use crate::error::FridgeError;
use crate::instant::{instant_at, Timestamp};
use crate::location::{
    join_path, joined, located, parse_snapshot_repository_location, Location, LocationView,
};
use crate::options::{
    ListOpts, RestoreOpts, SnapshotOpts, SnapshotOptsView, TransferOpts, TransferOptsView,
};
use crate::text::{
    chars_of, decimal_digits, digits_of, head, occurs, same_chars, split_first, string_of, words,
};

verus! {

/// A program and the arguments to run it with.
#[derive(Debug, PartialEq, Eq)]
pub struct Command {
    pub program: String,
    pub args: Vec<String>,
}

/// A command as plain values.
pub struct CommandView {
    pub program: Seq<char>,
    pub args: Seq<Seq<char>>,
}

impl View for Command {
    type V = CommandView;

    open spec fn view(&self) -> CommandView {
        CommandView { program: self.program@, args: words(self.args@) }
    }
}

/// The arguments that tell `ssh` where `l` is: the host, with the user
/// before it where one is named, and the port before both where a user and
/// a port are named.
pub open spec fn ssh_target(l: LocationView) -> Seq<Seq<char>>
    recommends
        l.host is Some,
{
    match (l.user, l.port) {
        (Some(user), Some(port)) => seq![
            "-p"@,
            decimal_digits(port as nat),
            user + seq!['@'] + l.host->0,
        ],
        (Some(user), None) => seq![user + seq!['@'] + l.host->0],
        (None, _) => seq![l.host->0],
    }
}

/// The command that runs `btrfs` with `arguments` where `l` is: through
/// `ssh` where `l` is remote, and through `sudo` where `sudo` is asked for.
pub open spec fn btrfs_at(l: LocationView, sudo: bool, arguments: Seq<Seq<char>>) -> CommandView {
    if l.host is Some {
        CommandView {
            program: "ssh"@,
            args: ssh_target(l) + (if sudo {
                seq!["sudo"@, "btrfs"@]
            } else {
                seq!["btrfs"@]
            }) + arguments,
        }
    } else if sudo {
        CommandView { program: "sudo"@, args: seq!["btrfs"@] + arguments }
    } else {
        CommandView { program: "btrfs"@, args: arguments }
    }
}

/// Appends the strings of `more` to `list`.
fn extend(list: &mut Vec<String>, more: &Vec<String>)
    ensures
        words(final(list)@) == words(old(list)@) + words(more@),
{
    let mut i: usize = 0;
    while i < more.len()
        invariant
            i <= more.len(),
            words(list@) == words(old(list)@) + words(more@).take(i as int),
        decreases more.len() - i,
    {
        let ghost before = words(list@);
        list.push(more[i].clone());
        assert(words(list@) =~= before.push(more@[i as int]@));
        assert(words(more@).take(i as int + 1) =~= words(more@).take(i as int).push(
            more@[i as int]@,
        ));
        i += 1;
    }
    assert(words(more@).take(more@.len() as int) =~= words(more@));
}

/// Appends the string of `text` to `list`.
fn push_word(list: &mut Vec<String>, text: &str)
    ensures
        words(final(list)@) == words(old(list)@).push(text@),
{
    list.push(String::from_str(text));
    assert(words(list@) =~= words(old(list)@).push(text@));
}

/// Appends `text` to `list`.
fn push_string(list: &mut Vec<String>, text: String)
    ensures
        words(final(list)@) == words(old(list)@).push(text@),
{
    list.push(text);
    assert(words(list@) =~= words(old(list)@).push(text@));
}

/// The arguments that tell `ssh` where `location` is.
fn ssh_arguments(location: &Location, host: &String) -> (r: Vec<String>)
    requires
        location.host == Some(*host),
    ensures
        words(r@) == ssh_target(location@),
{
    let mut args: Vec<String> = Vec::new();
    assert(words(args@) =~= Seq::<Seq<char>>::empty());
    match &location.user {
        Some(user) => {
            match location.port {
                Some(port) => {
                    push_word(&mut args, "-p");
                    push_string(&mut args, string_of(&digits_of(port)));
                },
                None => {},
            }
            let mut target = chars_of(user.as_str());
            target.push('@');
            let mut name = chars_of(host.as_str());
            target.append(&mut name);
            assert(target@ =~= user@ + seq!['@'] + host@);
            push_string(&mut args, string_of(&target));
        },
        None => {
            push_string(&mut args, host.clone());
        },
    }
    assert(words(args@) =~= ssh_target(location@));
    args
}

/// The command that runs `btrfs` with `arguments` where `location` is.
pub fn btrfs_command(location: &Location, sudo: bool, arguments: &Vec<String>) -> (r: Command)
    ensures
        r@ == btrfs_at(location@, sudo, words(arguments@)),
{
    match &location.host {
        Some(host) => {
            let mut args = ssh_arguments(location, host);
            if sudo {
                push_word(&mut args, "sudo");
            }
            push_word(&mut args, "btrfs");
            extend(&mut args, arguments);
            let r = Command { program: String::from_str("ssh"), args };
            assert(r@.args =~= btrfs_at(location@, sudo, words(arguments@)).args);
            r
        },
        None => {
            let mut args: Vec<String> = Vec::new();
            assert(words(args@) =~= Seq::<Seq<char>>::empty());
            if sudo {
                push_word(&mut args, "btrfs");
                extend(&mut args, arguments);
                let r = Command { program: String::from_str("sudo"), args };
                assert(r@.args =~= btrfs_at(location@, sudo, words(arguments@)).args);
                r
            } else {
                extend(&mut args, arguments);
                let r = Command { program: String::from_str("btrfs"), args };
                assert(r@.args =~= btrfs_at(location@, sudo, words(arguments@)).args);
                r
            }
        },
    }
}

/// `name` adjoined to the path `base`, as a string.
pub fn path_in(base: &str, name: &str) -> (r: String)
    ensures
        r@ == joined(base@, name@),
{
    string_of(&join_path(&chars_of(base), &chars_of(name)))
}

/// The command that lists the volumes of `repository`.
pub open spec fn listing_of(repository: LocationView, sudo: bool) -> CommandView {
    btrfs_at(repository, sudo, seq!["subvolume"@, "list"@, repository.path])
}

/// The command that lists the volumes of `repository`.
pub fn list_command(repository: &Location, sudo: bool) -> (r: Command)
    ensures
        r@ == listing_of(repository@, sudo),
{
    let mut arguments: Vec<String> = Vec::new();
    assert(words(arguments@) =~= Seq::<Seq<char>>::empty());
    push_word(&mut arguments, "subvolume");
    push_word(&mut arguments, "list");
    push_string(&mut arguments, repository.path.clone());
    assert(words(arguments@) =~= seq!["subvolume"@, "list"@, repository@.path]);
    btrfs_command(repository, sudo, &arguments)
}

/// The command that deletes `snapshot` in its repository.
pub open spec fn deletion_of(snapshot: SnapshotView, sudo: bool) -> CommandView {
    btrfs_at(
        snapshot.repository,
        sudo,
        seq!["subvolume"@, "delete"@, joined(snapshot.repository.path, snapshot.full_name)],
    )
}

/// The command that deletes `snapshot` in its repository.
pub fn delete_command(snapshot: &Snapshot, sudo: bool) -> (r: Command)
    ensures
        r@ == deletion_of(snapshot@, sudo),
{
    let path = path_in(snapshot.repository.path.as_str(), snapshot.full_name.as_str());
    let mut arguments: Vec<String> = Vec::new();
    assert(words(arguments@) =~= Seq::<Seq<char>>::empty());
    push_word(&mut arguments, "subvolume");
    push_word(&mut arguments, "delete");
    push_string(&mut arguments, path);
    assert(words(arguments@) =~= seq![
        "subvolume"@,
        "delete"@,
        joined(snapshot@.repository.path, snapshot@.full_name),
    ]);
    btrfs_command(&snapshot.repository, sudo, &arguments)
}

/// The command that sends the snapshot of `opts` from its source, which is
/// local: from its parent where one is named, else in full.
pub open spec fn sending_of(opts: TransferOptsView) -> CommandView {
    let snapshot = joined(opts.src.path, opts.snapshot);
    btrfs_at(
        opts.src,
        opts.src_sudo,
        match opts.parent_snapshot {
            Some(parent) => seq!["send"@, "-p"@, joined(opts.src.path, parent), snapshot],
            None => seq!["send"@, snapshot],
        },
    )
}

/// The command that receives a snapshot at the destination of `opts`.
pub open spec fn receiving_of(opts: TransferOptsView) -> CommandView {
    btrfs_at(opts.dst, opts.dst_sudo, seq!["receive"@, opts.dst.path])
}

/// The two commands of a transfer: the first sends the snapshot, and the
/// second, which reads what the first writes, receives it.
#[derive(Debug, PartialEq, Eq)]
pub struct Transfer {
    pub send: Command,
    pub receive: Command,
}

/// The commands that send the snapshot of `opts` from its source to its
/// destination. A remote source is refused.
pub fn transfer(opts: &TransferOpts) -> (r: Result<Transfer, FridgeError>)
    ensures
        opts@.src.host is Some ==> r is Err && r->Err_0 is RemoteSource,
        opts@.src.host is None ==> r is Ok && r->Ok_0.send@ == sending_of(opts@)
            && r->Ok_0.receive@ == receiving_of(opts@),
{
    if opts.src.is_remote() {
        return Err(FridgeError::RemoteSource);
    }
    let snapshot = path_in(opts.src.path.as_str(), opts.snapshot.as_str());
    let mut arguments: Vec<String> = Vec::new();
    assert(words(arguments@) =~= Seq::<Seq<char>>::empty());
    push_word(&mut arguments, "send");
    match &opts.parent_snapshot {
        Some(parent) => {
            push_word(&mut arguments, "-p");
            push_string(&mut arguments, path_in(opts.src.path.as_str(), parent.as_str()));
            push_string(&mut arguments, snapshot);
            assert(words(arguments@) =~= seq![
                "send"@,
                "-p"@,
                joined(opts@.src.path, parent@),
                joined(opts@.src.path, opts@.snapshot),
            ]);
        },
        None => {
            push_string(&mut arguments, snapshot);
            assert(words(arguments@) =~= seq!["send"@, joined(opts@.src.path, opts@.snapshot)]);
        },
    }
    let send = btrfs_command(&opts.src, opts.src_sudo, &arguments);
    let mut arguments: Vec<String> = Vec::new();
    assert(words(arguments@) =~= Seq::<Seq<char>>::empty());
    push_word(&mut arguments, "receive");
    push_string(&mut arguments, opts.dst.path.clone());
    assert(words(arguments@) =~= seq!["receive"@, opts@.dst.path]);
    let receive = btrfs_command(&opts.dst, opts.dst_sudo, &arguments);
    Ok(Transfer { send, receive })
}

/// The commands that restore the volume at `dst` from the snapshot at
/// `src`, in their order: the volume is moved aside, the snapshot is copied
/// to its place, and the place is unmounted and mounted again.
pub open spec fn restoring_of(src: Seq<char>, dst: Seq<char>) -> Seq<CommandView> {
    seq![
        CommandView { program: "mv"@, args: seq![dst, dst + ".old"@] },
        CommandView { program: "btrfs"@, args: seq!["subvolume"@, "snapshot"@, src, dst] },
        CommandView { program: "umount"@, args: seq![dst] },
        CommandView { program: "mount"@, args: seq![dst] },
    ]
}

/// The commands of a list as plain values.
pub open spec fn commands(list: Seq<Command>) -> Seq<CommandView> {
    Seq::new(list.len(), |i: int| list[i]@)
}

/// The commands that restore the volume named in `opts`, to be run in
/// their order, and none after one that failed.
pub fn restore(opts: &RestoreOpts) -> (r: Vec<Command>)
    ensures
        commands(r@) == restoring_of(opts.src@, opts.dst@),
{
    let mut r: Vec<Command> = Vec::new();
    let mut aside = opts.dst.clone();
    aside.append(".old");
    let mut args: Vec<String> = Vec::new();
    assert(words(args@) =~= Seq::<Seq<char>>::empty());
    push_string(&mut args, opts.dst.clone());
    push_string(&mut args, aside);
    assert(words(args@) =~= seq![opts.dst@, opts.dst@ + ".old"@]);
    r.push(Command { program: String::from_str("mv"), args });
    let mut args: Vec<String> = Vec::new();
    assert(words(args@) =~= Seq::<Seq<char>>::empty());
    push_word(&mut args, "subvolume");
    push_word(&mut args, "snapshot");
    push_string(&mut args, opts.src.clone());
    push_string(&mut args, opts.dst.clone());
    assert(words(args@) =~= seq!["subvolume"@, "snapshot"@, opts.src@, opts.dst@]);
    r.push(Command { program: String::from_str("btrfs"), args });
    let mut args: Vec<String> = Vec::new();
    assert(words(args@) =~= Seq::<Seq<char>>::empty());
    push_string(&mut args, opts.dst.clone());
    assert(words(args@) =~= seq![opts.dst@]);
    r.push(Command { program: String::from_str("umount"), args });
    let mut args: Vec<String> = Vec::new();
    assert(words(args@) =~= Seq::<Seq<char>>::empty());
    push_string(&mut args, opts.dst.clone());
    assert(words(args@) =~= seq![opts.dst@]);
    r.push(Command { program: String::from_str("mount"), args });
    assert(commands(r@) =~= restoring_of(opts.src@, opts.dst@));
    r
}

/// The taking of a snapshot: its name, where it is put, and the command
/// that takes it.
#[derive(Debug, PartialEq, Eq)]
pub struct SnapshotAction {
    pub full_name: String,
    pub destination: String,
    pub command: Command,
}

/// The taking of a snapshot as plain values.
pub struct SnapshotActionView {
    pub full_name: Seq<char>,
    pub destination: Seq<char>,
    pub command: CommandView,
}

impl View for SnapshotAction {
    type V = SnapshotActionView;

    open spec fn view(&self) -> SnapshotActionView {
        SnapshotActionView {
            full_name: self.full_name@,
            destination: self.destination@,
            command: self.command@,
        }
    }
}

/// The taking of the snapshot that `opts` asks for at `now`: its name is
/// the canonical name of the volume, `now` and the tier, which is `manual`
/// where none is named; it is put under `/.snapshots`, read-only. `None`
/// stands for a `now` outside the years 0000 to 9999.
pub open spec fn taking_of(opts: SnapshotOptsView, now: i64) -> Option<SnapshotActionView> {
    match instant_at(now) {
        None => None,
        Some(at) => {
            let full_name = encoded(
                IdentifierView {
                    base_name: opts.name,
                    timestamp: at,
                    tier: match opts.suffix {
                        Some(tier) => tier,
                        None => "manual"@,
                    },
                },
            );
            let destination = joined(joined("/"@, ".snapshots"@), full_name);
            Some(
                SnapshotActionView {
                    full_name,
                    destination,
                    command: CommandView {
                        program: if opts.sudo {
                            "sudo"@
                        } else {
                            "btrfs"@
                        },
                        args: (if opts.sudo {
                            seq!["btrfs"@]
                        } else {
                            Seq::<Seq<char>>::empty()
                        }) + seq!["subvolume"@, "snapshot"@, "-r"@, opts.src, destination],
                    },
                },
            )
        },
    }
}

/// Plans the taking of the snapshot that `opts` asks for at `now`, in
/// seconds since 1970-01-01T00:00:00Z.
pub fn snapshot(opts: &SnapshotOpts, now: i64) -> (r: Result<SnapshotAction, FridgeError>)
    ensures
        match taking_of(opts@, now) {
            Some(action) => r is Ok && r->Ok_0@ == action,
            None => r is Err && r->Err_0 is InstantOutOfRange && r->Err_0->seconds == now,
        },
{
    let at = match Timestamp::from_seconds(now) {
        Some(at) => at,
        None => { return Err(FridgeError::InstantOutOfRange { seconds: now }); },
    };
    let id = match &opts.suffix {
        Some(tier) => SnapshotIdentifier::new(opts.name.as_str(), at, Some(tier.as_str())),
        None => SnapshotIdentifier::new(opts.name.as_str(), at, None),
    };
    let full_name = id.encode();
    let root = path_in("/", ".snapshots");
    let destination = path_in(root.as_str(), full_name.as_str());
    let mut args: Vec<String> = Vec::new();
    assert(words(args@) =~= Seq::<Seq<char>>::empty());
    if opts.sudo {
        push_word(&mut args, "btrfs");
    }
    push_word(&mut args, "subvolume");
    push_word(&mut args, "snapshot");
    push_word(&mut args, "-r");
    push_string(&mut args, opts.src.clone());
    push_string(&mut args, destination.clone());
    let program = if opts.sudo {
        String::from_str("sudo")
    } else {
        String::from_str("btrfs")
    };
    let action = SnapshotAction { full_name, destination, command: Command { program, args } };
    assert(action@.command.args =~= taking_of(opts@, now)->0.command.args);
    Ok(action)
}

/// `s` without the white space at its start and at its end.
pub uninterp spec fn trimmed(s: Seq<char>) -> Seq<char>;

/// `str::trim` gives the string without its leading and trailing white
/// space. The result is a function of the string's characters alone;
/// nothing more is claimed of it.
pub assume_specification[ str::trim ](s: &str) -> (r: &str)
    ensures
        r@ == trimmed(s@),
;

/// The pieces into which the separator `c` splits `s`: one more than `c`
/// occurs in `s`.
pub open spec fn pieces(s: Seq<char>, c: char) -> Seq<Seq<char>>
    decreases s.len(),
{
    if s.len() == 0 {
        seq![Seq::<char>::empty()]
    } else if s.last() == c {
        pieces(s.drop_last(), c).push(Seq::<char>::empty())
    } else {
        let before = pieces(s.drop_last(), c);
        before.drop_last().push(before.last().push(s.last()))
    }
}

/// What stands in `s` after the last `c`: all of `s` where `c` does not
/// occur.
pub open spec fn after_last(s: Seq<char>, c: char) -> Seq<char>
    decreases s.len(),
{
    if s.len() == 0 {
        s
    } else if s.last() == c {
        Seq::<char>::empty()
    } else {
        after_last(s.drop_last(), c).push(s.last())
    }
}

/// Whether `field` names a snapshot of the volume `name`: `name` stands in
/// it before a first `@`.
pub open spec fn names_volume(field: Seq<char>, name: Seq<char>) -> bool {
    occurs(field, '@') && head(field, '@') == name
}

/// Of the last fields of `lines`, where a space ends a field, those that
/// name a snapshot of the volume `name`, in their order.
pub open spec fn named(lines: Seq<Seq<char>>, name: Seq<char>) -> Seq<Seq<char>>
    decreases lines.len(),
{
    if lines.len() == 0 {
        Seq::empty()
    } else if names_volume(after_last(lines.last(), ' '), name) {
        named(lines.drop_last(), name).push(after_last(lines.last(), ' '))
    } else {
        named(lines.drop_last(), name)
    }
}

/// The names of the snapshots of the volume `name` in a listing of
/// volumes, which holds one volume in each line and its name at the line's
/// end.
pub open spec fn names_listed(listing: Seq<char>, name: Seq<char>) -> Seq<Seq<char>> {
    named(pieces(listing, '\n'), name)
}

/// Reports whether `field` names a snapshot of the volume `name`.
fn is_named(field: &Vec<char>, name: &Vec<char>) -> (r: bool)
    ensures
        r == names_volume(field@, name@),
{
    let (volume, rest) = split_first(field, '@');
    match rest {
        Some(_) => same_chars(&volume, name),
        None => false,
    }
}

/// The names of the snapshots of the volume `name` in the listing `text`.
pub fn names_in_listing(text: &Vec<char>, name: &Vec<char>) -> (r: Vec<String>)
    ensures
        words(r@) == names_listed(text@, name@),
{
    let mut out: Vec<String> = Vec::new();
    let mut field: Vec<char> = Vec::new();
    let mut i: usize = 0;
    assert(words(out@) =~= Seq::<Seq<char>>::empty());
    assert(text@.take(0) =~= Seq::<char>::empty());
    assert(pieces(text@.take(0), '\n').drop_last() =~= Seq::<Seq<char>>::empty());
    while i < text.len()
        invariant
            i <= text.len(),
            pieces(text@.take(i as int), '\n').len() >= 1,
            words(out@) == named(pieces(text@.take(i as int), '\n').drop_last(), name@),
            field@ == after_last(pieces(text@.take(i as int), '\n').last(), ' '),
        decreases text.len() - i,
    {
        let c = text[i];
        let ghost before = pieces(text@.take(i as int), '\n');
        let ghost after = pieces(text@.take(i as int + 1), '\n');
        let ghost listed_before = words(out@);
        proof {
            let next = text@.take(i as int + 1);
            assert(next.drop_last() =~= text@.take(i as int));
            assert(next.last() == c);
        }
        if c == '\n' {
            assert(after == before.push(Seq::<char>::empty()));
            assert(after.drop_last() =~= before);
            if is_named(&field, name) {
                out.push(string_of(&field));
                assert(words(out@) =~= listed_before.push(field@));
            }
            field = Vec::new();
        } else {
            assert(after == before.drop_last().push(before.last().push(c)));
            assert(after.drop_last() =~= before.drop_last());
            assert(after.last().drop_last() =~= before.last());
            if c == ' ' {
                field = Vec::new();
            } else {
                field.push(c);
            }
        }
        i += 1;
    }
    assert(text@.take(text@.len() as int) =~= text@);
    let ghost listed_before = words(out@);
    if is_named(&field, name) {
        out.push(string_of(&field));
        assert(words(out@) =~= listed_before.push(field@));
    }
    out
}

/// The names of the snapshots of the volume `name` in `stdout`, which is
/// what the command that lists the volumes of a repository wrote.
pub fn parse_listing(stdout: &str, name: &str) -> (r: Vec<String>)
    ensures
        words(r@) == names_listed(trimmed(stdout@), name@),
{
    names_in_listing(&chars_of(stdout.trim()), &chars_of(name))
}

/// The snapshots of the volume `name` that `repository` has, read in
/// `stdout`, which is what the command that lists its volumes wrote. The
/// first name that cannot be read is reported.
pub fn list_snapshots(name: &str, repository: &Location, stdout: &str) -> (r: Result<
    Vec<Snapshot>,
    FridgeError,
>)
    ensures
        match listed(names_listed(trimmed(stdout@), name@), repository@) {
            Ok(list) => r is Ok && records(r->Ok_0@) == list,
            Err((name, field)) => r is Err && r->Err_0 is ParseSnapshot && r->Err_0->what == field
                && r->Err_0->snapshot@ == name,
        },
{
    let names = parse_listing(stdout, name);
    parse_snapshot_list(&names, repository)
}

/// The full names of the snapshots of a list.
pub open spec fn full_names(list: Seq<SnapshotView>) -> Seq<Seq<char>> {
    Seq::new(list.len(), |i: int| list[i].full_name)
}

/// The names to show for `opts`, read in `stdout`, which is what the
/// command that lists the volumes of the repository of `opts` wrote: the
/// names of the snapshots of the volume of `opts`, in their order. A
/// location that gives no path is refused, and so is a name that cannot be
/// read.
pub fn list(opts: &ListOpts, stdout: &str) -> (r: Result<Vec<String>, FridgeError>)
    ensures
        ({
            let at = located(opts.path@, opts.suffix@);
            if at.path.len() == 0 {
                r is Err && r->Err_0 is MalformedLocation && r->Err_0->location@ == opts.path@
            } else {
                match listed(names_listed(trimmed(stdout@), opts.name@), at) {
                    Ok(list) => r is Ok && words(r->Ok_0@) == full_names(list),
                    Err((name, field)) => r is Err && r->Err_0 is ParseSnapshot && r->Err_0->what
                        == field && r->Err_0->snapshot@ == name,
                }
            }
        }),
{
    let repository = match parse_snapshot_repository_location(
        opts.path.as_str(),
        opts.suffix.as_str(),
    ) {
        Ok(repository) => repository,
        Err(e) => { return Err(e); },
    };
    let snapshots = match list_snapshots(opts.name.as_str(), &repository, stdout) {
        Ok(snapshots) => snapshots,
        Err(e) => { return Err(e); },
    };
    let mut out: Vec<String> = Vec::new();
    let mut i: usize = 0;
    while i < snapshots.len()
        invariant
            i <= snapshots.len(),
            out.len() == i,
            forall|j: int| 0 <= j < i ==> (#[trigger] out[j])@ == snapshots[j]@.full_name,
        decreases snapshots.len() - i,
    {
        out.push(snapshots[i].full_name.clone());
        i += 1;
    }
    assert(words(out@) =~= full_names(records(snapshots@)));
    Ok(out)
}

} // verus!
