//! Where a snapshot repository lives, and the grammar of location strings.

use vstd::prelude::*;
use crate::error::FridgeError;
use crate::text::{
    chars_of, decimal_digits, head, is_digit, lemma_decimal_digits, lemma_first_index, occurs,
    parse_decimal, parse_decimal_spec, part, split_first, string_of, tail,
};

verus! {

/// Where a snapshot repository lives: on this machine, or on a remote host.
#[derive(Debug, Default, PartialEq, Eq)]
pub struct Location {
    pub user: Option<String>,
    pub host: Option<String>,
    pub port: Option<u16>,
    pub path: String,
}

/// The name under which a location is known where it holds snapshots.
pub type SnapshotRepositoryLocation = Location;

/// A location as plain values.
pub struct LocationView {
    pub user: Option<Seq<char>>,
    pub host: Option<Seq<char>>,
    pub port: Option<u16>,
    pub path: Seq<char>,
}

/// The characters of an optional string.
pub open spec fn text_of(s: Option<String>) -> Option<Seq<char>> {
    match s {
        Some(s) => Some(s@),
        None => None,
    }
}

impl View for Location {
    type V = LocationView;

    open spec fn view(&self) -> LocationView {
        LocationView {
            user: text_of(self.user),
            host: text_of(self.host),
            port: self.port,
            path: self.path@,
        }
    }
}

/// A copy of an optional string.
pub fn copy_text(s: &Option<String>) -> (r: Option<String>)
    ensures
        text_of(r) == text_of(*s),
{
    match s {
        Some(s) => Some(s.clone()),
        None => None,
    }
}

impl Clone for Location {
    fn clone(&self) -> (r: Self)
        ensures
            r@ == self@,
    {
        Location {
            user: copy_text(&self.user),
            host: copy_text(&self.host),
            port: self.port,
            path: self.path.clone(),
        }
    }
}

impl Location {
    /// A location is remote exactly where it names a host.
    pub fn is_remote(&self) -> (r: bool)
        ensures
            r == self@.host is Some,
    {
        self.host.is_some()
    }
}

/// `name` adjoined to `base` as a path: `name` alone where it starts at the
/// root, else `base`, a separator unless `base` is empty or ends in one,
/// and `name`.
pub open spec fn joined(base: Seq<char>, name: Seq<char>) -> Seq<char> {
    if name.len() > 0 && name[0] == '/' {
        name
    } else if base.len() == 0 || base.last() == '/' {
        base + name
    } else {
        base.push('/') + name
    }
}

/// `path` with the directory `suffix` adjoined, or `path` itself where
/// `suffix` is empty.
pub open spec fn placed(path: Seq<char>, suffix: Seq<char>) -> Seq<char> {
    if suffix.len() == 0 {
        path
    } else {
        joined(path, suffix)
    }
}

/// The port that `s` spells: a decimal number up to 65535, which a `+` may
/// precede.
pub open spec fn port_number(s: Seq<char>) -> Option<u16> {
    let digits = if s.len() > 0 && s[0] == '+' {
        s.skip(1)
    } else {
        s
    };
    match parse_decimal_spec(digits, 65535) {
        Some(n) => Some(n as u16),
        None => None,
    }
}

/// The decimal digits of a port spell that port.
pub proof fn lemma_port_digits(port: u16)
    ensures
        port_number(decimal_digits(port as nat)) == Some(port),
{
    let digits = decimal_digits(port as nat);
    lemma_decimal_digits(port as nat);
    assert(is_digit(digits[0]));
}

/// The port of a remote location, where `rest` is what follows the user.
pub open spec fn remote_port(rest: Seq<char>) -> Option<u16> {
    if occurs(rest, ':') {
        port_number(head(tail(rest, ':'), ':'))
    } else {
        None
    }
}

/// The path that stands in `after`, which is what follows the host and
/// its colon: the first token where that is no port, the second token where
/// the first is a port, each with the suffix adjoined; empty where the
/// first token is a port and nothing follows it.
pub open spec fn path_after_host(after: Seq<char>, suffix: Seq<char>) -> Seq<char> {
    if port_number(head(after, ':')) is None {
        placed(head(after, ':'), suffix)
    } else if occurs(after, ':') {
        placed(head(tail(after, ':'), ':'), suffix)
    } else {
        Seq::empty()
    }
}

/// The path of a remote location, where `rest` is what follows the user:
/// empty where no colon follows the host.
pub open spec fn remote_path(rest: Seq<char>, suffix: Seq<char>) -> Seq<char> {
    if occurs(rest, ':') {
        path_after_host(tail(rest, ':'), suffix)
    } else {
        Seq::empty()
    }
}

/// What a location string means. Without `@` the whole string is a local
/// path. With one, the user stands before the first `@`, and what follows it
/// is split at colons into host, an optional port and the path.
pub open spec fn located(url: Seq<char>, suffix: Seq<char>) -> LocationView {
    let rest = tail(url, '@');
    if occurs(url, '@') {
        LocationView {
            user: Some(head(url, '@')),
            host: Some(head(rest, ':')),
            port: remote_port(rest),
            path: remote_path(rest, suffix),
        }
    } else {
        LocationView { user: None, host: None, port: None, path: placed(url, suffix) }
    }
}

/// Adjoins `name` to `base` as a path.
pub fn join_path(base: &Vec<char>, name: &Vec<char>) -> (r: Vec<char>)
    ensures
        r@ == joined(base@, name@),
{
    let mut r: Vec<char> = Vec::new();
    let absolute = name.len() > 0 && name[0] == '/';
    if !absolute {
        let mut i: usize = 0;
        while i < base.len()
            invariant
                i <= base.len(),
                r@ == base@.take(i as int),
            decreases base.len() - i,
        {
            r.push(base[i]);
            i += 1;
        }
        assert(base@.take(base@.len() as int) == base@);
        if base.len() > 0 && base[base.len() - 1] != '/' {
            r.push('/');
        }
    }
    let ghost start = r@;
    let mut j: usize = 0;
    while j < name.len()
        invariant
            j <= name.len(),
            r@ == start + name@.take(j as int),
        decreases name.len() - j,
    {
        r.push(name[j]);
        assert(name@.take(j as int).push(name@[j as int]) == name@.take(j as int + 1));
        j += 1;
    }
    assert(name@.take(name@.len() as int) == name@);
    r
}

/// `path` with the directory `suffix` adjoined, or `path` itself where
/// `suffix` is empty.
pub fn place(path: Vec<char>, suffix: &Vec<char>) -> (r: Vec<char>)
    ensures
        r@ == placed(path@, suffix@),
{
    if suffix.len() == 0 {
        path
    } else {
        join_path(&path, suffix)
    }
}

/// Reads `v` as a port.
pub fn parse_port(v: &Vec<char>) -> (r: Option<u16>)
    ensures
        r == port_number(v@),
{
    let digits = if v.len() > 0 && v[0] == '+' {
        part(v, 1, v.len())
    } else {
        part(v, 0, v.len())
    };
    assert(v@.subrange(0, v@.len() as int) == v@);
    match parse_decimal(&digits, 65535) {
        Some(n) => Some(n as u16),
        None => None,
    }
}

/// Reads port and path in `after`, which is what follows the host and its
/// colon.
fn read_after_host(after: &Vec<char>, suffix: &Vec<char>) -> (r: (Option<u16>, Vec<char>))
    ensures
        r.0 == port_number(head(after@, ':')),
        r.1@ == path_after_host(after@, suffix@),
{
    let (second, more) = split_first(after, ':');
    let port = parse_port(&second);
    match port {
        None => (None, place(second, suffix)),
        Some(_) => match more {
            None => (port, Vec::new()),
            Some(more) => {
                let (third, _) = split_first(&more, ':');
                (port, place(third, suffix))
            },
        },
    }
}

/// Reads a location string. `suffix` names a directory to adjoin to the
/// path; an empty `suffix` leaves the path as it stands. A string that
/// gives no path is refused.
pub fn parse_snapshot_repository_location(url: &str, suffix: &str) -> (r: Result<
    Location,
    FridgeError,
>)
    ensures
        located(url@, suffix@).path.len() > 0 ==> r is Ok && r->Ok_0@ == located(url@, suffix@),
        located(url@, suffix@).path.len() == 0 ==> r is Err
            && r->Err_0 is MalformedLocation
            && r->Err_0->location@ == url@,
{
    let text = chars_of(url);
    let tail_text = chars_of(suffix);
    let (first, rest) = split_first(&text, '@');
    let location = match rest {
        None => {
            proof {
                lemma_first_index(text@, '@');
                assert(text@.take(text@.len() as int) == text@);
            }
            let path = string_of(&place(first, &tail_text));
            Location { user: None, host: None, port: None, path }
        },
        Some(rest) => {
            let (host, after) = split_first(&rest, ':');
            let (port, path) = match after {
                Some(after) => read_after_host(&after, &tail_text),
                None => (None, Vec::new()),
            };
            Location {
                user: Some(string_of(&first)),
                host: Some(string_of(&host)),
                port,
                path: string_of(&path),
            }
        },
    };
    if location.path.as_str().unicode_len() == 0 {
        Err(FridgeError::MalformedLocation { location: string_of(&text) })
    } else {
        Ok(location)
    }
}

/// Reads a location string, as `parse_snapshot_repository_location` does.
pub fn parse_sync_location(url: &str, suffix: &str) -> (r: Result<Location, FridgeError>)
    ensures
        located(url@, suffix@).path.len() > 0 ==> r is Ok && r->Ok_0@ == located(url@, suffix@),
        located(url@, suffix@).path.len() == 0 ==> r is Err
            && r->Err_0 is MalformedLocation
            && r->Err_0->location@ == url@,
{
    parse_snapshot_repository_location(url, suffix)
}

} // verus!
