//! Counts of installed packages, per package manager.

use crate::split::{lines, split_lines};
use crate::text::{chars_of, opt_text, string_of, texts, trim, trimmed};
use vstd::prelude::*;

verus! {

/// A package manager that an Android host may carry.
#[derive(Clone, Copy, Debug, PartialEq, Eq, Structural)]
pub enum PackageManager {
    /// The platform's own manager, `pm`.
    Android,
    /// `dpkg`, as Termux installs it.
    Dpkg,
    /// `cargo`.
    Cargo,
}

/// The directory of package manifests, relative to the installation prefix.
pub const DPKG_INFO_DIR: &'static str = "var/lib/dpkg/info";

/// The directory of package manifests under the installation prefix
/// `prefix`: the prefix, a slash unless the prefix is empty or ends in one,
/// and `DPKG_INFO_DIR`.
pub open spec fn manifest_dir(prefix: Seq<char>) -> Seq<char> {
    if prefix.len() == 0 || prefix.last() == '/' {
        prefix + DPKG_INFO_DIR@
    } else {
        prefix + seq!['/'] + DPKG_INFO_DIR@
    }
}

/// Computes `manifest_dir`.
pub fn dpkg_info_dir(prefix: &str) -> (dir: String)
    ensures
        dir@ == manifest_dir(prefix@),
{
    let mut path = chars_of(prefix);
    let n = path.len();
    if n > 0 && path[n - 1] != '/' {
        path.push('/');
    }
    let mut tail = chars_of(DPKG_INFO_DIR);
    path.append(&mut tail);
    proof {
        assert(path@ =~= manifest_dir(prefix@));
    }
    string_of(&path)
}

/// What was gathered about the package managers of the host.
pub struct PackageSources {
    /// What `pm list packages` printed; `None` where the command could not
    /// be run.
    pub pm_listing: Option<String>,
    /// Whether a `dpkg` executable is on the search path.
    pub dpkg_present: bool,
    /// The names of the entries of the manifest directory; `None` where no
    /// installation prefix is set.
    pub dpkg_entries: Option<Vec<String>>,
    /// Whether a `cargo` executable is on the search path.
    pub cargo_present: bool,
    /// The count that the lookup of `cargo`'s packages gave; `None` where
    /// it gave none.
    pub cargo_binaries: Option<usize>,
}

/// The number of lines of `text` once the white space around it is gone;
/// `None` where nothing is left.
pub open spec fn line_count(text: Seq<char>) -> Option<nat> {
    let n = lines(trim(text)).len();
    if n == 0 {
        None
    } else {
        Some(n)
    }
}

/// Whether the file name or path `name` has the extension `ext`, which holds
/// no dot: the name ends in a dot and `ext`, and its last component has
/// something before that dot.
pub open spec fn has_extension(name: Seq<char>, ext: Seq<char>) -> bool {
    let n = name.len();
    let e = ext.len();
    &&& n >= e + 2
    &&& name.skip(n - e) == ext
    &&& name[n - e - 1] == '.'
    &&& name[n - e - 2] != '/'
}

/// How many of `entries` are package manifests, that is, have the
/// extension `list`.
pub open spec fn manifest_count(entries: Seq<Seq<char>>) -> nat
    decreases entries.len(),
{
    if entries.len() == 0 {
        0
    } else {
        manifest_count(entries.drop_last()) + if has_extension(entries.last(), "list"@) {
            1nat
        } else {
            0nat
        }
    }
}

/// The count for `dpkg`, from the entries of its manifest directory: none
/// without a prefix or with an empty directory.
pub open spec fn dpkg_count(entries: Option<Seq<Seq<char>>>) -> Option<nat> {
    match entries {
        Some(names) => if names.len() == 0 {
            None
        } else {
            Some(manifest_count(names))
        },
        None => None,
    }
}

/// The count for the platform's own manager, from what its list command
/// printed: the number of lines, and none where the command could not be
/// run or printed nothing but white space.
pub open spec fn pm_count(listing: Option<Seq<char>>) -> Option<nat> {
    match listing {
        Some(text) => line_count(text),
        None => None,
    }
}

/// The count for `cargo`: the count that its lookup gave, as it is.
pub open spec fn cargo_count(binaries: Option<usize>) -> Option<nat> {
    match binaries {
        Some(n) => Some(n as nat),
        None => None,
    }
}

/// The characters of an optional string.
pub open spec fn opt_string(o: Option<String>) -> Option<Seq<char>> {
    match o {
        Some(s) => Some(s@),
        None => None,
    }
}

/// The entry of one manager: a pair where there is a count, nothing where
/// there is none.
pub open spec fn entry(manager: PackageManager, count: Option<nat>) -> Seq<(PackageManager, nat)> {
    match count {
        Some(n) => seq![(manager, n)],
        None => Seq::empty(),
    }
}

/// The list of counts: the platform's manager first, then `dpkg`, then
/// `cargo`, each only where it has a count.
pub open spec fn package_counts(pm: Option<nat>, dpkg: Option<nat>, cargo: Option<nat>) -> Seq<
    (PackageManager, nat),
> {
    entry(PackageManager::Android, pm) + entry(PackageManager::Dpkg, dpkg) + entry(
        PackageManager::Cargo,
        cargo,
    )
}

/// The names held by an optional list of names.
pub open spec fn opt_texts(o: Option<Vec<String>>) -> Option<Seq<Seq<char>>> {
    match o {
        Some(v) => Some(texts(v@)),
        None => None,
    }
}

/// The counts of `v` as natural numbers.
pub open spec fn counts(v: Seq<(PackageManager, usize)>) -> Seq<(PackageManager, nat)> {
    Seq::new(v.len(), |i: int| (v[i].0, v[i].1 as nat))
}

/// What `count_pkgs` returns for `sources`.
pub open spec fn count_pkgs_of(sources: PackageSources) -> Seq<(PackageManager, nat)> {
    package_counts(
        pm_count(opt_string(sources.pm_listing)),
        if sources.dpkg_present {
            dpkg_count(opt_texts(sources.dpkg_entries))
        } else {
            None
        },
        if sources.cargo_present {
            cargo_count(sources.cargo_binaries)
        } else {
            None
        },
    )
}

/// The place of a manager in the list of counts.
pub open spec fn rank(manager: PackageManager) -> int {
    match manager {
        PackageManager::Android => 0,
        PackageManager::Dpkg => 1,
        PackageManager::Cargo => 2,
    }
}

/// Whatever was gathered, the list of counts names each manager at most
/// once and in the fixed order.
pub proof fn lemma_counts_in_order(pm: Option<nat>, dpkg: Option<nat>, cargo: Option<nat>)
    ensures
        package_counts(pm, dpkg, cargo).len() <= 3,
        forall|i: int, j: int|
            0 <= i < j < package_counts(pm, dpkg, cargo).len() ==> rank(
                #[trigger] package_counts(pm, dpkg, cargo)[i].0,
            ) < rank(#[trigger] package_counts(pm, dpkg, cargo)[j].0),
{
}

/// Decides `has_extension` for the extension `list`.
pub fn is_manifest(name: &str) -> (b: bool)
    ensures
        b == has_extension(name@, "list"@),
{
    let v = chars_of(name);
    let n = v.len();
    proof {
        reveal_strlit("list");
    }
    if n < 6 {
        return false;
    }
    let b = v[n - 1] == 't' && v[n - 2] == 's' && v[n - 3] == 'i' && v[n - 4] == 'l' && v[n - 5]
        == '.' && v[n - 6] != '/';
    proof {
        let tail = v@.skip(n - 4);
        if b {
            assert(tail =~= "list"@);
        } else if v[n - 5] == '.' && v[n - 6] != '/' {
            assert(tail[0] == v[n - 4] && tail[1] == v[n - 3] && tail[2] == v[n - 2] && tail[3]
                == v[n - 1]);
        }
    }
    b
}

/// Reads the counts of installed packages.
pub struct AndroidPackageReadout;

impl AndroidPackageReadout {
    pub fn new() -> Self {
        AndroidPackageReadout
    }

    /// The number of lines of a listing, not counting the white space
    /// around it; `None` for a listing with nothing else.
    pub fn count_lines(listing: &str) -> (r: Option<usize>)
        ensures
            match r {
                Some(n) => line_count(listing@) == Some(n as nat),
                None => line_count(listing@) is None,
            },
    {
        let all = chars_of(listing);
        let body = trimmed(&all);
        let table = split_lines(&body);
        if table.len() == 0 {
            None
        } else {
            Some(table.len())
        }
    }

    /// The number of packages of the platform's own manager, from what
    /// `pm list packages` printed; `None` stands for a command that could
    /// not be run.
    pub fn count_pm(listing: Option<&str>) -> (r: Option<usize>)
        ensures
            match r {
                Some(n) => pm_count(opt_text(listing)) == Some(n as nat),
                None => pm_count(opt_text(listing)) is None,
            },
    {
        match listing {
            Some(text) => Self::count_lines(text),
            None => None,
        }
    }

    /// The number of packages that `dpkg` installed, from the names of the
    /// entries of its manifest directory; `None` stands for a host without
    /// an installation prefix.
    pub fn count_dpkg(entries: &Option<Vec<String>>) -> (r: Option<usize>)
        ensures
            match r {
                Some(n) => dpkg_count(opt_texts(*entries)) == Some(n as nat),
                None => dpkg_count(opt_texts(*entries)) is None,
            },
    {
        match entries {
            None => None,
            Some(names) => {
                if names.len() == 0 {
                    return None;
                }
                let ghost all = texts(names@);
                let mut found: usize = 0;
                let mut i: usize = 0;
                while i < names.len()
                    invariant
                        i <= names.len(),
                        all == texts(names@),
                        found <= i,
                        found == manifest_count(all.take(i as int)),
                    decreases names.len() - i,
                {
                    proof {
                        assert(all.take(i + 1).drop_last() =~= all.take(i as int));
                        assert(all.take(i + 1).last() == names@[i as int]@);
                    }
                    if is_manifest(names[i].as_str()) {
                        found += 1;
                    }
                    i += 1;
                }
                proof {
                    assert(all.take(names.len() as int) =~= all);
                }
                Some(found)
            },
        }
    }

    /// The number of packages that `cargo` installed: the count that its
    /// lookup gave, handed on as it is.
    pub fn count_cargo(binaries: Option<usize>) -> (r: Option<usize>)
        ensures
            r == binaries,
    {
        binaries
    }

    /// The counts of installed packages, one entry for each manager that
    /// has a count: the platform's own manager, then `dpkg` and `cargo`
    /// where they are present.
    pub fn count_pkgs(&self, sources: &PackageSources) -> (r: Vec<(PackageManager, usize)>)
        ensures
            counts(r@) == count_pkgs_of(*sources),
    {
        let mut packages: Vec<(PackageManager, usize)> = Vec::new();
        let listing: Option<&str> = match &sources.pm_listing {
            Some(text) => Some(text.as_str()),
            None => None,
        };
        if let Some(c) = Self::count_pm(listing) {
            packages.push((PackageManager::Android, c));
        }
        if sources.dpkg_present {
            if let Some(c) = Self::count_dpkg(&sources.dpkg_entries) {
                packages.push((PackageManager::Dpkg, c));
            }
        }
        if sources.cargo_present {
            if let Some(c) = Self::count_cargo(sources.cargo_binaries) {
                packages.push((PackageManager::Cargo, c));
            }
        }
        proof {
            assert(counts(packages@) =~= count_pkgs_of(*sources));
        }
        packages
    }
}

} // verus!
