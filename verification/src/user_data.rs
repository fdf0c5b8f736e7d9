//! Where received content is saved, and the user's configuration.

use vstd::prelude::*;
use crate::paths::{
    dot_dot, ext_chars, ext_of, extension, file_name, file_name_chars, file_stem, has_root,
    is_plain_name, join, join_chars, last_dot, lemma_file_name_has_no_separator,
    lemma_join_plain_file_name, lemma_last_dot_at, lemma_last_dot_bounds, lemma_last_dot_is_last,
    lemma_last_dot_prefix, lemma_last_dot_skip, lemma_parent_join, lemma_stem_prefix, parent,
    parent_chars, stem_chars, stem_of,
};
use crate::text::{
    chars_of, decimal, is_numeral_of, law_decimal_reads_back, lemma_decimal_digits, push_all,
    push_decimal, slice_chars, string_of,
};

verus! {

/// Port the application listens on unless configured otherwise.
pub const DEFAULT_LISTEN_PORT: u16 = 36571;

/// Whether the firewall counts as checked in a fresh configuration.
pub const DEFAULT_FIREWALL_CHECKED: bool = false;

/// The name used for a directory that has none (`directory`).
pub open spec fn directory_word() -> Seq<char> {
    seq!['d', 'i', 'r', 'e', 'c', 't', 'o', 'r', 'y']
}

/// The name used for a file that has none (`file`).
pub open spec fn file_word() -> Seq<char> {
    seq!['f', 'i', 'l', 'e']
}

/// `base` followed by `_` and the decimal numeral of `time`.
pub open spec fn timestamped(base: Seq<char>, time: u64) -> Seq<char> {
    base.push('_') + decimal(time as nat)
}

/// `s` is `base` stamped with `time`: `base`, then `_`, then the full
/// decimal numeral of `time`.
pub open spec fn is_stamp(base: Seq<char>, time: u64, s: Seq<char>) -> bool {
    &&& s.len() > base.len() + 1
    &&& s.take(base.len() as int) == base
    &&& s[base.len() as int] == '_'
    &&& is_numeral_of(s.skip(base.len() as int + 1), time as int)
}

/// A stamped name is the name, `_`, and digits that read back as the whole
/// time, for every time.
pub proof fn law_stamp_reads_back(base: Seq<char>, time: u64)
    ensures
        is_stamp(base, time, timestamped(base, time)),
{
    let s = timestamped(base, time);
    law_decimal_reads_back(time as nat);
    assert(s.take(base.len() as int) =~= base);
    assert(s.skip(base.len() as int + 1) =~= decimal(time as nat));
}

/// A free name for an existing directory `path`: its name extended with the
/// time, next to it.
pub open spec fn extended_dir(path: Seq<char>, time: u64) -> Seq<char> {
    let dir = match file_name(path) {
        Some(d) => d,
        None => directory_word(),
    };
    match parent(path) {
        Some(p) => join(p, timestamped(dir, time)),
        None => seq!['/'] + timestamped(directory_word(), time),
    }
}

/// The name given instead of an existing file's name `n`: its stem (or
/// `file` when there is no name) followed by `_` and the time, then a `.`
/// and its extension when it has one.
pub open spec fn stamped_file_name(n: Option<Seq<char>>, time: u64) -> Seq<char> {
    match n {
        Some(x) => match ext_of(x) {
            Some(e) => timestamped(stem_of(x), time).push('.') + e,
            None => timestamped(stem_of(x), time),
        },
        None => timestamped(file_word(), time),
    }
}

/// A free name for an existing file `path`: next to it, its name with the
/// stem extended with the time; `/file_<time>` style for a path without
/// parent.
pub open spec fn extended_file(path: Seq<char>, time: u64) -> Seq<char> {
    let name = stamped_file_name(file_name(path), time);
    match parent(path) {
        Some(p) => join(p, name),
        None => seq!['/'] + name,
    }
}

/// What is found on disk at a candidate target path.
#[derive(Debug, Clone, Copy, PartialEq, Eq, Structural)]
pub enum PathKind {
    Missing,
    File,
    Directory,
}

/// The target for `name` inside directory `path`, given what is found at
/// `path` joined with `name` and the time.
pub open spec fn full_path(name: Seq<char>, path: Seq<char>, kind: PathKind, time: u64) -> Seq<
    char,
> {
    let joined = join(path, name);
    match kind {
        PathKind::Missing => joined,
        PathKind::File => extended_file(joined, time),
        PathKind::Directory => extended_dir(joined, time),
    }
}

fn directory_chars() -> (v: Vec<char>)
    ensures
        v@ == directory_word(),
{
    let v = chars_of("directory");
    proof {
        reveal_strlit("directory");
        assert(v@ =~= directory_word());
    }
    v
}

fn file_chars() -> (v: Vec<char>)
    ensures
        v@ == file_word(),
{
    let v = chars_of("file");
    proof {
        reveal_strlit("file");
        assert(v@ =~= file_word());
    }
    v
}

fn timestamped_chars(base: &Vec<char>, time: u64) -> (r: Vec<char>)
    ensures
        r@ == timestamped(base@, time),
{
    let mut r = slice_chars(base, 0, base.len());
    proof {
        assert(base@.subrange(0, base.len() as int) == base@);
    }
    r.push('_');
    push_decimal(time, &mut r);
    r
}

fn extend_dir_chars(path: &Vec<char>, time: u64) -> (r: Vec<char>)
    ensures
        r@ == extended_dir(path@, time),
{
    let dir = match file_name_chars(path) {
        Some(d) => d,
        None => directory_chars(),
    };
    match parent_chars(path) {
        Some(p) => {
            let name = timestamped_chars(&dir, time);
            join_chars(&p, &name)
        },
        None => {
            let mut r: Vec<char> = Vec::new();
            r.push('/');
            let name = timestamped_chars(&directory_chars(), time);
            crate::text::push_all(&mut r, &name);
            proof {
                assert(r@ =~= seq!['/'] + timestamped(directory_word(), time));
            }
            r
        },
    }
}

fn stamped_file_name_chars(path: &Vec<char>, time: u64) -> (r: Vec<char>)
    ensures
        r@ == stamped_file_name(file_name(path@), time),
{
    match file_name_chars(path) {
        Some(n) => {
            let stem = stem_chars(&n);
            let mut t = timestamped_chars(&stem, time);
            match ext_chars(&n) {
                Some(e) => {
                    t.push('.');
                    push_all(&mut t, &e);
                    t
                },
                None => t,
            }
        },
        None => timestamped_chars(&file_chars(), time),
    }
}

fn extend_file_chars(path: &Vec<char>, time: u64) -> (r: Vec<char>)
    ensures
        r@ == extended_file(path@, time),
{
    let name = stamped_file_name_chars(path, time);
    match parent_chars(path) {
        Some(p) => join_chars(&p, &name),
        None => {
            let mut r: Vec<char> = Vec::new();
            r.push('/');
            push_all(&mut r, &name);
            r
        },
    }
}

/// The path of an existing directory extended with a time stamp: the
/// directory's name (or `directory`) followed by `_` and `time`, next to it;
/// `/directory_<time>` for a path without parent.
pub fn extend_dir(path: &str, time: u64) -> (r: String)
    ensures
        r@ == extended_dir(path@, time),
        parent(path@) is Some ==> parent(r@) == parent(path@),
        file_name(path@) matches Some(d) ==> (file_name(r@) matches Some(n) && is_stamp(d, time, n)),
{
    let p = chars_of(path);
    proof {
        lemma_extended_dir(path@, time);
        if let Some(d) = file_name(path@) {
            law_stamp_reads_back(d, time);
        }
    }
    string_of(&extend_dir_chars(&p, time))
}

/// The path of an existing file extended with a time stamp: in the same
/// directory, the file's stem (or `file`) followed by `_` and `time`, with
/// the file's extension.
pub fn extend_file(path: &str, time: u64) -> (r: String)
    ensures
        r@ == extended_file(path@, time),
        parent(path@) is Some ==> parent(r@) == parent(path@),
        file_name(path@) is Some ==> file_stem(r@) == Some(
            timestamped(file_stem(path@)->0, time),
        ) && extension(r@) == extension(path@),
        file_name(path@) is Some ==> (file_stem(r@) matches Some(st) && is_stamp(
            file_stem(path@)->0,
            time,
            st,
        )),
{
    let p = chars_of(path);
    proof {
        lemma_extended_file(path@, time);
        if file_name(path@) is Some {
            law_stamp_reads_back(file_stem(path@)->0, time);
        }
    }
    string_of(&extend_file_chars(&p, time))
}

/// The path at which content called `name` is saved in directory `path`. When
/// something already exists at `path` joined with `name` (as `probe` reports
/// it), the name is extended with the time that `timestamp` gives, so that
/// nothing is overwritten.
pub fn generate_full_path<P, F>(name: &str, path: &str, probe: P, timestamp: F) -> (r: String) where
    P: Fn(&String) -> PathKind,
    F: Fn() -> u64,

    requires
        forall|p: &String| probe.requires((p,)),
        timestamp.requires(()),
    ensures
        exists|kind: PathKind, time: u64|
            {
                &&& #[trigger] full_path(name@, path@, kind, time) == r@
                &&& exists|candidate: &String|
                    candidate@ == join(path@, name@) && probe.ensures((candidate,), kind)
                &&& timestamp.ensures((), time)
            },
{
    let n = chars_of(name);
    let p = chars_of(path);
    let joined = join_chars(&p, &n);
    let candidate = string_of(&joined);
    let kind = probe(&candidate);
    let time = timestamp();
    let r = match kind {
        PathKind::Missing => joined,
        PathKind::File => extend_file_chars(&joined, time),
        PathKind::Directory => extend_dir_chars(&joined, time),
    };
    let out = string_of(&r);
    assert(full_path(name@, path@, kind, time) == out@);
    out
}

/// The directory content is saved in: the given target, else the downloads
/// directory.
pub open spec fn base_dir(target_path: Option<&String>, downloads_dir: &str) -> Seq<char> {
    match target_path {
        Some(t) => t@,
        None => downloads_dir@,
    }
}

/// The path at which content called `name` is saved: inside `target_path`
/// when one is given, else inside the configured downloads directory, as
/// `generate_full_path` chooses it.
pub fn get_target_path<P, F>(
    name: &str,
    target_path: Option<&String>,
    downloads_dir: &str,
    probe: P,
    timestamp: F,
) -> (r: String) where P: Fn(&String) -> PathKind, F: Fn() -> u64,

    requires
        forall|p: &String| probe.requires((p,)),
        timestamp.requires(()),
    ensures
        exists|kind: PathKind, time: u64|
            {
                &&& #[trigger] full_path(name@, base_dir(target_path, downloads_dir), kind, time)
                    == r@
                &&& exists|candidate: &String|
                    candidate@ == join(base_dir(target_path, downloads_dir), name@)
                        && probe.ensures((candidate,), kind)
                &&& timestamp.ensures((), time)
            },
{
    let dir: &str = match target_path {
        Some(t) => t.as_str(),
        None => downloads_dir,
    };
    assert(dir@ == base_dir(target_path, downloads_dir));
    let r = generate_full_path(name, dir, probe, timestamp);
    proof {
        let (k, t) = choose|k: PathKind, t: u64|
            {
                &&& #[trigger] full_path(name@, dir@, k, t) == r@
                &&& exists|candidate: &String|
                    candidate@ == join(dir@, name@) && probe.ensures((candidate,), k)
                &&& timestamp.ensures((), t)
            };
        assert(full_path(name@, base_dir(target_path, downloads_dir), k, t) == r@);
    }
    r
}


/// The port used when the configuration does not name one.
pub fn default_port() -> (p: u16)
    ensures
        p == DEFAULT_LISTEN_PORT,
{
    DEFAULT_LISTEN_PORT
}

/// Whether the firewall counts as checked when the configuration does not
/// say.
pub fn default_firewall_checked() -> (b: bool)
    ensures
        b == DEFAULT_FIREWALL_CHECKED,
{
    DEFAULT_FIREWALL_CHECKED
}

/// The settings kept in the configuration file.
#[derive(Debug)]
pub struct Config {
    pub downloads: String,
    pub port: u16,
    pub firewall_checked: bool,
}

impl Config {
    /// The configuration written on first start: downloads go to the user's
    /// download directory, or to the home directory when there is none; port
    /// and firewall flag take their defaults.
    pub fn initial(download_dir: Option<String>, home_dir: String) -> (c: Config)
        ensures
            c.downloads@ == (match download_dir {
                Some(d) => d@,
                None => home_dir@,
            }),
            c.port == DEFAULT_LISTEN_PORT,
            c.firewall_checked == DEFAULT_FIREWALL_CHECKED,
    {
        let downloads = match download_dir {
            Some(d) => d,
            None => home_dir,
        };
        Config { downloads, port: default_port(), firewall_checked: default_firewall_checked() }
    }
}

/// The user's configuration together with the file it was read from.
#[derive(Debug)]
pub struct UserConfig {
    conf: Config,
    conf_path: String,
}

impl UserConfig {
    /// The configuration `conf`, read from the file at `conf_path`.
    pub fn from_parts(conf: Config, conf_path: String) -> (u: UserConfig)
        ensures
            u.config() == conf,
            u.path()@ == conf_path@,
    {
        UserConfig { conf, conf_path }
    }

    /// The settings read from the file.
    pub closed spec fn config(&self) -> Config {
        self.conf
    }

    /// The path of the configuration file.
    pub closed spec fn path(&self) -> String {
        self.conf_path
    }

    /// The file the configuration is kept in.
    pub fn config_path(&self) -> (p: String)
        ensures
            p@ == self.path()@,
    {
        self.conf_path.clone()
    }

    /// The directory received content is saved in.
    pub fn get_downloads_dir(&self) -> (d: String)
        ensures
            d@ == self.config().downloads@,
    {
        self.conf.downloads.clone()
    }

    /// The port to listen on.
    pub fn get_port(&self) -> (p: u16)
        ensures
            p == self.config().port,
    {
        self.conf.port
    }

    /// Whether the firewall was already checked.
    pub fn get_firewall_checked(&self) -> (b: bool)
        ensures
            b == self.config().firewall_checked,
    {
        self.conf.firewall_checked
    }

    /// The configuration to write so that received content goes to `path`;
    /// the other settings are kept.
    pub fn set_downloads_dir(&self, path: &str) -> (c: Config)
        ensures
            c.downloads@ == path@,
            c.port == self.config().port,
            c.firewall_checked == self.config().firewall_checked,
    {
        Config {
            downloads: string_of(&chars_of(path)),
            port: self.conf.port,
            firewall_checked: self.conf.firewall_checked,
        }
    }

    /// The configuration to write to record whether the firewall was
    /// checked; the other settings are kept.
    pub fn set_firewall_checked(&self, value: bool) -> (c: Config)
        ensures
            c.downloads@ == self.config().downloads@,
            c.port == self.config().port,
            c.firewall_checked == value,
    {
        Config {
            downloads: self.conf.downloads.clone(),
            port: self.conf.port,
            firewall_checked: value,
        }
    }
}

proof fn lemma_timestamped_plain(base: Seq<char>, time: u64)
    requires
        forall|i: int| 0 <= i < base.len() ==> base[i] != '/',
    ensures
        is_plain_name(timestamped(base, time)),
        !has_root(timestamped(base, time)),
        timestamped(base, time).len() > base.len() + 1,
{
    let sn = timestamped(base, time);
    let d = decimal(time as nat);
    lemma_decimal_digits(time as nat);
    assert forall|i: int| 0 <= i < sn.len() implies sn[i] != '/' by {
        if i < base.len() {
            assert(sn[i] == base[i]);
        } else if i > base.len() {
            assert(sn[i] == d[i - base.len() - 1]);
        }
    }
    assert(sn[base.len() as int] == '_');
    assert(sn.len() == base.len() + 1 + d.len());
    assert(seq!['.'].len() == 1);
    assert(sn != seq!['.']);
    assert(sn != seq!['.', '.']) by {
        if sn == seq!['.', '.'] {
            assert(sn[base.len() as int] == '.');
        }
    }
}

/// The stamped name of a file is a plain name with the stamped stem and the
/// same extension, longer than the name it replaces.
proof fn lemma_stamped_file_name(x: Option<Seq<char>>, time: u64)
    requires
        x matches Some(v) ==> (forall|i: int| 0 <= i < v.len() ==> v[i] != '/') && v
            != dot_dot(),
    ensures
        is_plain_name(stamped_file_name(x, time)),
        x matches Some(v) ==> stem_of(stamped_file_name(x, time)) == timestamped(stem_of(v), time)
            && ext_of(stamped_file_name(x, time)) == ext_of(v) && stamped_file_name(x, time).len()
            > v.len(),
{
    let name = stamped_file_name(x, time);
    match x {
        None => {
            lemma_timestamped_plain(file_word(), time);
        },
        Some(v) => {
            lemma_stem_prefix(v);
            let stem = stem_of(v);
            assert forall|i: int| 0 <= i < stem.len() implies stem[i] != '/' by {
                assert(stem[i] == v[i]);
            }
            let t = timestamped(stem, time);
            lemma_timestamped_plain(stem, time);
            let d = decimal(time as nat);
            lemma_decimal_digits(time as nat);
            assert forall|k: int| stem.len() <= k < t.len() implies t[k] != '.' by {
                if k > stem.len() {
                    assert(t[k] == d[k - stem.len() - 1]);
                }
            }
            lemma_last_dot_bounds(v, v.len() as int);
            let jd = last_dot(v, v.len() as int);
            match ext_of(v) {
                Some(e) => {
                    lemma_last_dot_is_last(v, v.len() as int);
                    assert(stem =~= v.subrange(0, jd));
                    assert(e =~= v.subrange(jd + 1, v.len() as int));
                    assert(name =~= t.push('.') + e);
                    assert forall|k: int| t.len() < k < name.len() implies name[k] != '.' by {
                        assert(name[k] == v[k - t.len() + jd]);
                    }
                    lemma_last_dot_at(name, t.len() as int, name.len() as int);
                    assert(name != dot_dot());
                    assert(name.subrange(0, t.len() as int) =~= t);
                    assert(name.subrange(t.len() + 1int, name.len() as int) =~= e);
                    assert forall|i: int| 0 <= i < name.len() implies name[i] != '/' by {
                        if i < t.len() {
                            assert(name[i] == t[i]);
                        } else if i > t.len() {
                            assert(name[i] == v[i - t.len() + jd]);
                        }
                    }
                    assert(name != seq!['.']);
                    assert(v.len() == jd + 1 + e.len());
                },
                None => {
                    assert(stem == v);
                    assert(name == t);
                    lemma_last_dot_skip(t, v.len() as int, t.len() as int);
                    assert forall|k: int| 0 <= k < v.len() implies t[k] == v[k] by {}
                    lemma_last_dot_prefix(t, v, v.len() as int);
                    assert(t != dot_dot());
                },
            }
        },
    }
}

/// The stamped path of a file keeps its parent, stamps its stem and keeps
/// its extension.
proof fn lemma_extended_dir(path: Seq<char>, time: u64)
    ensures
        parent(path) is Some ==> parent(extended_dir(path, time)) == parent(path),
        file_name(path) matches Some(d) ==> file_name(extended_dir(path, time)) == Some(
            timestamped(d, time),
        ),
{
    lemma_file_name_has_no_separator(path);
    let dir = match file_name(path) {
        Some(d) => d,
        None => directory_word(),
    };
    let sn = timestamped(dir, time);
    lemma_timestamped_plain(dir, time);
    match parent(path) {
        Some(p) => {
            lemma_join_plain_file_name(p, sn);
            lemma_parent_join(path, sn);
        },
        None => {
            lemma_timestamped_plain(directory_word(), time);
            assert(seq!['/'] + timestamped(directory_word(), time) == join(
                seq!['/'],
                timestamped(directory_word(), time),
            ));
            lemma_join_plain_file_name(seq!['/'], timestamped(directory_word(), time));
        },
    }
}

proof fn lemma_extended_file(path: Seq<char>, time: u64)
    ensures
        parent(path) is Some ==> parent(extended_file(path, time)) == parent(path),
        file_name(path) is Some ==> file_stem(extended_file(path, time)) == Some(
            timestamped(file_stem(path)->0, time),
        ) && extension(extended_file(path, time)) == extension(path),
        file_name(extended_file(path, time)) == Some(stamped_file_name(file_name(path), time)),
{
    lemma_file_name_has_no_separator(path);
    let name = stamped_file_name(file_name(path), time);
    lemma_stamped_file_name(file_name(path), time);
    match parent(path) {
        Some(p) => {
            lemma_join_plain_file_name(p, name);
            lemma_parent_join(path, name);
        },
        None => {
            assert(seq!['/'] + name == join(seq!['/'], name));
            lemma_join_plain_file_name(seq!['/'], name);
        },
    }
}

/// An existing target is never reused: when something is already found at
/// `path` joined with `name`, the chosen path differs from it.
pub proof fn law_existing_target_is_not_reused(
    name: Seq<char>,
    path: Seq<char>,
    kind: PathKind,
    time: u64,
)
    requires
        kind != PathKind::Missing,
    ensures
        full_path(name, path, kind, time) != join(path, name),
{
    let j = join(path, name);
    lemma_file_name_has_no_separator(j);
    if kind == PathKind::Directory {
        let dir = match file_name(j) {
            Some(d) => d,
            None => directory_word(),
        };
        let sn = timestamped(dir, time);
        lemma_timestamped_plain(dir, time);
        let r = extended_dir(j, time);
        match parent(j) {
            Some(p) => {
                lemma_join_plain_file_name(p, sn);
            },
            None => {
                assert(r == join(seq!['/'], sn));
                lemma_join_plain_file_name(seq!['/'], sn);
            },
        }
        assert(file_name(r) == Some(sn));
        if let Some(n) = file_name(j) {
            assert(sn.len() > n.len());
        }
    } else {
        lemma_extended_file(j, time);
        if let Some(n) = file_name(j) {
            lemma_stamped_file_name(file_name(j), time);
        }
    }
}

} // verus!
