//! Packages: pending updates, search, install, remove and cache cleaning,
//! through the first known package manager on PATH.
use vstd::prelude::*;
use crate::modules::{act, Action, ActionView, Step, StepView, extend, strs1};
use crate::text::{
    chars_of, copy, has_prefix, lines, lit, owned, slice_of, split_lines, split_ws, starts_with,
    string_of, tokens, trim, trim_chars, trim_end, trim_end_chars, trim_start, trim_start_chars,
    utf8_len, views_of, views_of_strs,
};
use crate::ui::{key_step, selected_row, Key, ListModel, ListView};

verus! {

/// A package manager. Templates carry `{}` where the package name goes.
#[derive(Clone, Debug)]
pub struct Pm {
    pub bin: &'static str,
    /// Its write operations need sudo (never the search).
    pub sudo: bool,
    /// Ways to list pending updates, in order of preference: the first one
    /// that exists and answers wins.
    pub updates: Vec<Vec<&'static str>>,
    pub upgrade: Vec<&'static str>,
    pub search: Vec<&'static str>,
    pub install: Vec<&'static str>,
    pub remove: Vec<&'static str>,
    /// Cache or source cleanup; empty = this manager has no equivalent.
    pub clean: Vec<&'static str>,
    /// The `updates` output is a table: drop everything up to the dashes row.
    pub table: bool,
    /// In tables, minimum columns of a real row: drops the trailing summary.
    pub min_cols: usize,
    /// Noise line prefixes in the `updates` output.
    pub noise: Vec<&'static str>,
}

/// A manager with its strings as character sequences.
pub struct PmView {
    pub bin: Seq<char>,
    pub sudo: bool,
    pub updates: Seq<Seq<Seq<char>>>,
    pub upgrade: Seq<Seq<char>>,
    pub search: Seq<Seq<char>>,
    pub install: Seq<Seq<char>>,
    pub remove: Seq<Seq<char>>,
    pub clean: Seq<Seq<char>>,
    pub table: bool,
    pub min_cols: usize,
    pub noise: Seq<Seq<char>>,
}

pub open spec fn pm_view(pm: Pm) -> PmView {
    PmView {
        bin: pm.bin@,
        sudo: pm.sudo,
        updates: pm.updates@.map_values(|u: Vec<&'static str>| views_of_strs(u@)),
        upgrade: views_of_strs(pm.upgrade@),
        search: views_of_strs(pm.search@),
        install: views_of_strs(pm.install@),
        remove: views_of_strs(pm.remove@),
        clean: views_of_strs(pm.clean@),
        table: pm.table,
        min_cols: pm.min_cols,
        noise: views_of_strs(pm.noise@),
    }
}

/// An Arch manager (`checkupdates`, else `pacman -Qu`, for the updates).
pub open spec fn arch_pm(bin: Seq<char>, sudo: bool) -> PmView {
    PmView {
        bin,
        sudo,
        updates: seq![seq!["checkupdates"@], seq!["pacman"@, "-Qu"@]],
        upgrade: seq![bin, "-Syu"@],
        search: seq![bin, "-Ss"@, "{}"@],
        install: seq![bin, "-S"@, "{}"@],
        remove: seq![bin, "-Rns"@, "{}"@],
        clean: seq![bin, "-Sc"@],
        table: false,
        min_cols: 0,
        noise: seq![],
    }
}

/// The supported managers, in detection order.
pub open spec fn pms_spec() -> Seq<PmView> {
    seq![
        arch_pm("paru"@, false),
        arch_pm("yay"@, false),
        arch_pm("pacman"@, true),
        PmView {
            bin: "apt"@,
            sudo: true,
            updates: seq![seq!["apt"@, "list"@, "--upgradable"@]],
            upgrade: seq!["apt"@, "upgrade"@],
            search: seq!["apt"@, "search"@, "{}"@],
            install: seq!["apt"@, "install"@, "{}"@],
            remove: seq!["apt"@, "remove"@, "--purge"@, "{}"@],
            clean: seq!["apt"@, "autoremove"@, "--purge"@],
            table: false,
            min_cols: 0,
            noise: seq!["Listing"@, "WARNING"@, "N:"@, "W:"@],
        },
        PmView {
            bin: "dnf"@,
            sudo: true,
            updates: seq![seq!["dnf"@, "check-update"@]],
            upgrade: seq!["dnf"@, "upgrade"@],
            search: seq!["dnf"@, "search"@, "{}"@],
            install: seq!["dnf"@, "install"@, "{}"@],
            remove: seq!["dnf"@, "remove"@, "{}"@],
            clean: seq!["dnf"@, "clean"@, "all"@],
            table: false,
            min_cols: 0,
            noise: seq!["Last metadata"@, "Obsoleting"@, "Security:"@, "Updating "@],
        },
        PmView {
            bin: "zypper"@,
            sudo: true,
            updates: seq![seq!["zypper"@, "--no-refresh"@, "list-updates"@]],
            upgrade: seq!["zypper"@, "update"@],
            search: seq!["zypper"@, "search"@, "{}"@],
            install: seq!["zypper"@, "install"@, "{}"@],
            remove: seq!["zypper"@, "remove"@, "{}"@],
            clean: seq!["zypper"@, "clean"@],
            table: true,
            min_cols: 4,
            noise: seq![],
        },
        PmView {
            bin: "apk"@,
            sudo: true,
            updates: seq![seq!["apk"@, "list"@, "-u"@]],
            upgrade: seq!["apk"@, "upgrade"@],
            search: seq!["apk"@, "search"@, "{}"@],
            install: seq!["apk"@, "add"@, "{}"@],
            remove: seq!["apk"@, "del"@, "{}"@],
            clean: seq!["apk"@, "cache"@, "clean"@],
            table: false,
            min_cols: 0,
            noise: seq![],
        },
        PmView {
            bin: "winget"@,
            sudo: false,
            updates: seq![seq!["winget"@, "upgrade"@, "--include-unknown"@]],
            upgrade: seq!["winget"@, "upgrade"@, "--all"@, "--include-unknown"@],
            search: seq!["winget"@, "search"@, "{}"@],
            install: seq!["winget"@, "install"@, "{}"@],
            remove: seq!["winget"@, "uninstall"@, "{}"@],
            clean: seq!["winget"@, "source"@, "update"@],
            table: true,
            min_cols: 4,
            noise: seq![],
        },
        PmView {
            bin: "scoop"@,
            sudo: false,
            updates: seq![seq!["scoop"@, "status"@]],
            upgrade: seq!["scoop"@, "update"@, "*"@],
            search: seq!["scoop"@, "search"@, "{}"@],
            install: seq!["scoop"@, "install"@, "{}"@],
            remove: seq!["scoop"@, "uninstall"@, "{}"@],
            clean: seq!["scoop"@, "cleanup"@, "*"@],
            table: true,
            min_cols: 3,
            noise: seq![],
        },
        PmView {
            bin: "choco"@,
            sudo: false,
            updates: seq![seq!["choco"@, "outdated"@, "-r"@]],
            upgrade: seq!["choco"@, "upgrade"@, "all"@, "-y"@],
            search: seq!["choco"@, "search"@, "{}"@],
            install: seq!["choco"@, "install"@, "{}"@, "-y"@],
            remove: seq!["choco"@, "uninstall"@, "{}"@, "-y"@],
            clean: seq![],
            table: false,
            min_cols: 0,
            noise: seq!["Chocolatey v"@],
        },
    ]
}

/// The supported managers, in detection order: the first one on PATH wins
/// (paru/yay before pacman, as they cover the AUR; on Windows only one of the
/// last three can exist).
pub fn pms() -> (r: Vec<Pm>)
    ensures
        r@.map_values(|pm: Pm| pm_view(pm)) == pms_spec(),
{
    let r = vec![
        Pm {
            bin: "paru",
            sudo: false,
            updates: vec![vec!["checkupdates"], vec!["pacman", "-Qu"]],
            upgrade: vec!["paru", "-Syu"],
            search: vec!["paru", "-Ss", "{}"],
            install: vec!["paru", "-S", "{}"],
            remove: vec!["paru", "-Rns", "{}"],
            clean: vec!["paru", "-Sc"],
            table: false,
            min_cols: 0,
            noise: vec![],
        },
        Pm {
            bin: "yay",
            sudo: false,
            updates: vec![vec!["checkupdates"], vec!["pacman", "-Qu"]],
            upgrade: vec!["yay", "-Syu"],
            search: vec!["yay", "-Ss", "{}"],
            install: vec!["yay", "-S", "{}"],
            remove: vec!["yay", "-Rns", "{}"],
            clean: vec!["yay", "-Sc"],
            table: false,
            min_cols: 0,
            noise: vec![],
        },
        Pm {
            bin: "pacman",
            sudo: true,
            updates: vec![vec!["checkupdates"], vec!["pacman", "-Qu"]],
            upgrade: vec!["pacman", "-Syu"],
            search: vec!["pacman", "-Ss", "{}"],
            install: vec!["pacman", "-S", "{}"],
            remove: vec!["pacman", "-Rns", "{}"],
            clean: vec!["pacman", "-Sc"],
            table: false,
            min_cols: 0,
            noise: vec![],
        },
        Pm {
            bin: "apt",
            sudo: true,
            updates: vec![vec!["apt", "list", "--upgradable"]],
            upgrade: vec!["apt", "upgrade"],
            search: vec!["apt", "search", "{}"],
            install: vec!["apt", "install", "{}"],
            remove: vec!["apt", "remove", "--purge", "{}"],
            clean: vec!["apt", "autoremove", "--purge"],
            table: false,
            min_cols: 0,
            noise: vec!["Listing", "WARNING", "N:", "W:"],
        },
        Pm {
            bin: "dnf",
            sudo: true,
            updates: vec![vec!["dnf", "check-update"]],
            upgrade: vec!["dnf", "upgrade"],
            search: vec!["dnf", "search", "{}"],
            install: vec!["dnf", "install", "{}"],
            remove: vec!["dnf", "remove", "{}"],
            clean: vec!["dnf", "clean", "all"],
            table: false,
            min_cols: 0,
            noise: vec!["Last metadata", "Obsoleting", "Security:", "Updating "],
        },
        Pm {
            bin: "zypper",
            sudo: true,
            updates: vec![vec!["zypper", "--no-refresh", "list-updates"]],
            upgrade: vec!["zypper", "update"],
            search: vec!["zypper", "search", "{}"],
            install: vec!["zypper", "install", "{}"],
            remove: vec!["zypper", "remove", "{}"],
            clean: vec!["zypper", "clean"],
            table: true,
            min_cols: 4,
            noise: vec![],
        },
        Pm {
            bin: "apk",
            sudo: true,
            updates: vec![vec!["apk", "list", "-u"]],
            upgrade: vec!["apk", "upgrade"],
            search: vec!["apk", "search", "{}"],
            install: vec!["apk", "add", "{}"],
            remove: vec!["apk", "del", "{}"],
            clean: vec!["apk", "cache", "clean"],
            table: false,
            min_cols: 0,
            noise: vec![],
        },
        Pm {
            bin: "winget",
            sudo: false,
            updates: vec![vec!["winget", "upgrade", "--include-unknown"]],
            upgrade: vec!["winget", "upgrade", "--all", "--include-unknown"],
            search: vec!["winget", "search", "{}"],
            install: vec!["winget", "install", "{}"],
            remove: vec!["winget", "uninstall", "{}"],
            clean: vec!["winget", "source", "update"],
            table: true,
            min_cols: 4,
            noise: vec![],
        },
        Pm {
            bin: "scoop",
            sudo: false,
            updates: vec![vec!["scoop", "status"]],
            upgrade: vec!["scoop", "update", "*"],
            search: vec!["scoop", "search", "{}"],
            install: vec!["scoop", "install", "{}"],
            remove: vec!["scoop", "uninstall", "{}"],
            clean: vec!["scoop", "cleanup", "*"],
            table: true,
            min_cols: 3,
            noise: vec![],
        },
        Pm {
            bin: "choco",
            sudo: false,
            updates: vec![vec!["choco", "outdated", "-r"]],
            upgrade: vec!["choco", "upgrade", "all", "-y"],
            search: vec!["choco", "search", "{}"],
            install: vec!["choco", "install", "{}", "-y"],
            remove: vec!["choco", "uninstall", "{}", "-y"],
            clean: vec![],
            table: false,
            min_cols: 0,
            noise: vec!["Chocolatey v"],
        },
    ];
    // Each entry's strings, one field at a time.
    proof {
        assert(views_of_strs(r@[0].upgrade@) =~= seq!["paru"@, "-Syu"@]);
        assert(views_of_strs(r@[0].search@) =~= seq!["paru"@, "-Ss"@, "{}"@]);
        assert(views_of_strs(r@[0].install@) =~= seq!["paru"@, "-S"@, "{}"@]);
        assert(views_of_strs(r@[0].remove@) =~= seq!["paru"@, "-Rns"@, "{}"@]);
        assert(views_of_strs(r@[0].clean@) =~= seq!["paru"@, "-Sc"@]);
        assert(views_of_strs(r@[0].noise@) =~= seq![]);
        assert(views_of_strs(r@[0].updates@[0]@) =~= seq!["checkupdates"@]);
        assert(views_of_strs(r@[0].updates@[1]@) =~= seq!["pacman"@, "-Qu"@]);
        assert(r@[0].updates@.map_values(|u: Vec<&'static str>| views_of_strs(u@)) =~= seq![seq!["checkupdates"@], seq!["pacman"@, "-Qu"@]]);
        assert(pm_view(r@[0]) == pms_spec()[0]);
        assert(views_of_strs(r@[1].upgrade@) =~= seq!["yay"@, "-Syu"@]);
        assert(views_of_strs(r@[1].search@) =~= seq!["yay"@, "-Ss"@, "{}"@]);
        assert(views_of_strs(r@[1].install@) =~= seq!["yay"@, "-S"@, "{}"@]);
        assert(views_of_strs(r@[1].remove@) =~= seq!["yay"@, "-Rns"@, "{}"@]);
        assert(views_of_strs(r@[1].clean@) =~= seq!["yay"@, "-Sc"@]);
        assert(views_of_strs(r@[1].noise@) =~= seq![]);
        assert(views_of_strs(r@[1].updates@[0]@) =~= seq!["checkupdates"@]);
        assert(views_of_strs(r@[1].updates@[1]@) =~= seq!["pacman"@, "-Qu"@]);
        assert(r@[1].updates@.map_values(|u: Vec<&'static str>| views_of_strs(u@)) =~= seq![seq!["checkupdates"@], seq!["pacman"@, "-Qu"@]]);
        assert(pm_view(r@[1]) == pms_spec()[1]);
        assert(views_of_strs(r@[2].upgrade@) =~= seq!["pacman"@, "-Syu"@]);
        assert(views_of_strs(r@[2].search@) =~= seq!["pacman"@, "-Ss"@, "{}"@]);
        assert(views_of_strs(r@[2].install@) =~= seq!["pacman"@, "-S"@, "{}"@]);
        assert(views_of_strs(r@[2].remove@) =~= seq!["pacman"@, "-Rns"@, "{}"@]);
        assert(views_of_strs(r@[2].clean@) =~= seq!["pacman"@, "-Sc"@]);
        assert(views_of_strs(r@[2].noise@) =~= seq![]);
        assert(views_of_strs(r@[2].updates@[0]@) =~= seq!["checkupdates"@]);
        assert(views_of_strs(r@[2].updates@[1]@) =~= seq!["pacman"@, "-Qu"@]);
        assert(r@[2].updates@.map_values(|u: Vec<&'static str>| views_of_strs(u@)) =~= seq![seq!["checkupdates"@], seq!["pacman"@, "-Qu"@]]);
        assert(pm_view(r@[2]) == pms_spec()[2]);
        assert(views_of_strs(r@[3].upgrade@) =~= seq!["apt"@, "upgrade"@]);
        assert(views_of_strs(r@[3].search@) =~= seq!["apt"@, "search"@, "{}"@]);
        assert(views_of_strs(r@[3].install@) =~= seq!["apt"@, "install"@, "{}"@]);
        assert(views_of_strs(r@[3].remove@) =~= seq!["apt"@, "remove"@, "--purge"@, "{}"@]);
        assert(views_of_strs(r@[3].clean@) =~= seq!["apt"@, "autoremove"@, "--purge"@]);
        assert(views_of_strs(r@[3].noise@) =~= seq!["Listing"@, "WARNING"@, "N:"@, "W:"@]);
        assert(views_of_strs(r@[3].updates@[0]@) =~= seq!["apt"@, "list"@, "--upgradable"@]);
        assert(r@[3].updates@.map_values(|u: Vec<&'static str>| views_of_strs(u@)) =~= seq![seq!["apt"@, "list"@, "--upgradable"@]]);
        assert(pm_view(r@[3]) == pms_spec()[3]);
        assert(views_of_strs(r@[4].upgrade@) =~= seq!["dnf"@, "upgrade"@]);
        assert(views_of_strs(r@[4].search@) =~= seq!["dnf"@, "search"@, "{}"@]);
        assert(views_of_strs(r@[4].install@) =~= seq!["dnf"@, "install"@, "{}"@]);
        assert(views_of_strs(r@[4].remove@) =~= seq!["dnf"@, "remove"@, "{}"@]);
        assert(views_of_strs(r@[4].clean@) =~= seq!["dnf"@, "clean"@, "all"@]);
        assert(views_of_strs(r@[4].noise@) =~= seq!["Last metadata"@, "Obsoleting"@, "Security:"@, "Updating "@]);
        assert(views_of_strs(r@[4].updates@[0]@) =~= seq!["dnf"@, "check-update"@]);
        assert(r@[4].updates@.map_values(|u: Vec<&'static str>| views_of_strs(u@)) =~= seq![seq!["dnf"@, "check-update"@]]);
        assert(pm_view(r@[4]) == pms_spec()[4]);
        assert(views_of_strs(r@[5].upgrade@) =~= seq!["zypper"@, "update"@]);
        assert(views_of_strs(r@[5].search@) =~= seq!["zypper"@, "search"@, "{}"@]);
        assert(views_of_strs(r@[5].install@) =~= seq!["zypper"@, "install"@, "{}"@]);
        assert(views_of_strs(r@[5].remove@) =~= seq!["zypper"@, "remove"@, "{}"@]);
        assert(views_of_strs(r@[5].clean@) =~= seq!["zypper"@, "clean"@]);
        assert(views_of_strs(r@[5].noise@) =~= seq![]);
        assert(views_of_strs(r@[5].updates@[0]@) =~= seq!["zypper"@, "--no-refresh"@, "list-updates"@]);
        assert(r@[5].updates@.map_values(|u: Vec<&'static str>| views_of_strs(u@)) =~= seq![seq!["zypper"@, "--no-refresh"@, "list-updates"@]]);
        assert(pm_view(r@[5]) == pms_spec()[5]);
        assert(views_of_strs(r@[6].upgrade@) =~= seq!["apk"@, "upgrade"@]);
        assert(views_of_strs(r@[6].search@) =~= seq!["apk"@, "search"@, "{}"@]);
        assert(views_of_strs(r@[6].install@) =~= seq!["apk"@, "add"@, "{}"@]);
        assert(views_of_strs(r@[6].remove@) =~= seq!["apk"@, "del"@, "{}"@]);
        assert(views_of_strs(r@[6].clean@) =~= seq!["apk"@, "cache"@, "clean"@]);
        assert(views_of_strs(r@[6].noise@) =~= seq![]);
        assert(views_of_strs(r@[6].updates@[0]@) =~= seq!["apk"@, "list"@, "-u"@]);
        assert(r@[6].updates@.map_values(|u: Vec<&'static str>| views_of_strs(u@)) =~= seq![seq!["apk"@, "list"@, "-u"@]]);
        assert(pm_view(r@[6]) == pms_spec()[6]);
        assert(views_of_strs(r@[7].upgrade@) =~= seq!["winget"@, "upgrade"@, "--all"@, "--include-unknown"@]);
        assert(views_of_strs(r@[7].search@) =~= seq!["winget"@, "search"@, "{}"@]);
        assert(views_of_strs(r@[7].install@) =~= seq!["winget"@, "install"@, "{}"@]);
        assert(views_of_strs(r@[7].remove@) =~= seq!["winget"@, "uninstall"@, "{}"@]);
        assert(views_of_strs(r@[7].clean@) =~= seq!["winget"@, "source"@, "update"@]);
        assert(views_of_strs(r@[7].noise@) =~= seq![]);
        assert(views_of_strs(r@[7].updates@[0]@) =~= seq!["winget"@, "upgrade"@, "--include-unknown"@]);
        assert(r@[7].updates@.map_values(|u: Vec<&'static str>| views_of_strs(u@)) =~= seq![seq!["winget"@, "upgrade"@, "--include-unknown"@]]);
        assert(pm_view(r@[7]) == pms_spec()[7]);
        assert(views_of_strs(r@[8].upgrade@) =~= seq!["scoop"@, "update"@, "*"@]);
        assert(views_of_strs(r@[8].search@) =~= seq!["scoop"@, "search"@, "{}"@]);
        assert(views_of_strs(r@[8].install@) =~= seq!["scoop"@, "install"@, "{}"@]);
        assert(views_of_strs(r@[8].remove@) =~= seq!["scoop"@, "uninstall"@, "{}"@]);
        assert(views_of_strs(r@[8].clean@) =~= seq!["scoop"@, "cleanup"@, "*"@]);
        assert(views_of_strs(r@[8].noise@) =~= seq![]);
        assert(views_of_strs(r@[8].updates@[0]@) =~= seq!["scoop"@, "status"@]);
        assert(r@[8].updates@.map_values(|u: Vec<&'static str>| views_of_strs(u@)) =~= seq![seq!["scoop"@, "status"@]]);
        assert(pm_view(r@[8]) == pms_spec()[8]);
        assert(views_of_strs(r@[9].upgrade@) =~= seq!["choco"@, "upgrade"@, "all"@, "-y"@]);
        assert(views_of_strs(r@[9].search@) =~= seq!["choco"@, "search"@, "{}"@]);
        assert(views_of_strs(r@[9].install@) =~= seq!["choco"@, "install"@, "{}"@, "-y"@]);
        assert(views_of_strs(r@[9].remove@) =~= seq!["choco"@, "uninstall"@, "{}"@, "-y"@]);
        assert(views_of_strs(r@[9].clean@) =~= seq![]);
        assert(views_of_strs(r@[9].noise@) =~= seq!["Chocolatey v"@]);
        assert(views_of_strs(r@[9].updates@[0]@) =~= seq!["choco"@, "outdated"@, "-r"@]);
        assert(r@[9].updates@.map_values(|u: Vec<&'static str>| views_of_strs(u@)) =~= seq![seq!["choco"@, "outdated"@, "-r"@]]);
        assert(pm_view(r@[9]) == pms_spec()[9]);
        assert(r@.map_values(|pm: Pm| pm_view(pm)) =~= pms_spec());
    }
    r
}

/// Separator row of the winget/scoop/zypper tables (`-----`, `--+--`): at
/// least three bytes once trimmed, all dashes, pluses and spaces. The lone
/// `-` of winget's progress spinner does not count.
pub open spec fn separator(line: Seq<char>) -> bool {
    let l = trim(line);
    utf8_len(l) >= 3 && forall|k: int|
        0 <= k < l.len() ==> (#[trigger] l[k] == '-' || l[k] == '+' || l[k] == ' ')
}

/// Whether `line` is the separator row of a table.
pub fn is_separator(line: &str) -> (b: bool)
    ensures
        b == separator(line@),
{
    let l = chars_of(line);
    separator_chars(&l)
}

fn separator_chars(line: &Vec<char>) -> (b: bool)
    ensures
        b == separator(line@),
{
    let l = trim_chars(line);
    let mut i: usize = 0;
    while i < l.len()
        invariant
            i <= l@.len(),
            l@ == trim(line@),
            forall|k: int| 0 <= k < i ==> (#[trigger] l@[k] == '-' || l@[k] == '+' || l@[k] == ' '),
        decreases l@.len() - i,
    {
        let c = l[i];
        if !(c == '-' || c == '+' || c == ' ') {
            assert(!separator(line@)) by {
                let t = trim(line@);
                assert(t == l@);
                assert(!(t[i as int] == '-' || t[i as int] == '+' || t[i as int] == ' '));
            }
            return false;
        }
        i = i + 1;
    }
    let n = if l.len() < 3 {
        l.len()
    } else {
        3
    };
    let w = crate::text::utf8_len_of_prefix(&l, n);
    proof {
        crate::text::lemma_utf8_len_mono(l@, n as int);
        if n == l@.len() {
            assert(l@.take(n as int) =~= l@);
        }
        assert(utf8_len(l@.take(n as int)) >= n);
    }
    // All characters are ASCII here, so bytes and characters agree.
    if w >= 3 {
        true
    } else {
        proof {
            lemma_ascii_len(l@);
        }
        false
    }
}

/// A string of dashes, pluses and spaces has one byte per character.
pub proof fn lemma_ascii_len(l: Seq<char>)
    requires
        forall|k: int| 0 <= k < l.len() ==> (#[trigger] l[k] == '-' || l[k] == '+' || l[k] == ' '),
    ensures
        utf8_len(l) == l.len(),
    decreases l.len(),
{
    if l.len() > 0 {
        assert(l.last() == l[l.len() - 1]);
        lemma_ascii_len(l.drop_last());
    }
}

/// `l` without its trailing `'\r'`s.
pub open spec fn strip_cr_all(l: Seq<char>) -> Seq<char>
    decreases l.len(),
{
    if l.len() > 0 && l.last() == '\r' {
        strip_cr_all(l.drop_last())
    } else {
        l
    }
}

/// Index of the first separator row at or after `i`, or `ls.len()`.
pub open spec fn separator_from(ls: Seq<Seq<char>>, i: int) -> int
    decreases ls.len() - i,
{
    if i >= ls.len() {
        ls.len() as int
    } else if separator(ls[i]) {
        i
    } else {
        separator_from(ls, i + 1)
    }
}

/// Whether some noise prefix starts `l`.
pub open spec fn is_noise(noise: Seq<Seq<char>>, l: Seq<char>) -> bool {
    exists|k: int| 0 <= k < noise.len() && starts_with(l, #[trigger] noise[k])
}

/// Whether a line of the updates list is a real row.
pub open spec fn keeps(pm: Pm, l: Seq<char>) -> bool {
    &&& trim(l).len() > 0
    &&& !separator(l)
    &&& tokens(l).len() >= pm.min_cols
    &&& !is_noise(views_of_strs(pm.noise@), trim_start(l))
}

/// Rows (line, package name) of the lines `rest`.
pub open spec fn update_rows(pm: Pm, rest: Seq<Seq<char>>) -> Seq<(Seq<char>, Seq<char>)>
    decreases rest.len(),
{
    if rest.len() == 0 {
        Seq::empty()
    } else {
        let prev = update_rows(pm, rest.drop_last());
        let l = trim_end(rest.last());
        if keeps(pm, l) {
            prev.push((l, if tokens(l).len() > 0 { tokens(l)[0] } else { Seq::empty() }))
        } else {
            prev
        }
    }
}

/// The lines that can hold updates: all of them, or for a table those after
/// its dashes row (no dashes row: no table, hence no updates).
pub open spec fn update_lines(pm: Pm, out: Seq<char>) -> Seq<Seq<char>> {
    let ls = lines(out).map_values(|l: Seq<char>| strip_cr_all(l));
    if pm.table {
        let i = separator_from(ls, 0);
        if i < ls.len() {
            ls.skip(i + 1)
        } else {
            Seq::empty()
        }
    } else {
        ls
    }
}

/// Raw `updates` output → rows of (line, package name).
pub open spec fn clean_spec(pm: Pm, out: Seq<char>) -> Seq<(Seq<char>, Seq<char>)> {
    update_rows(pm, update_lines(pm, out))
}

pub open spec fn pairs_view(v: Seq<(String, String)>) -> Seq<(Seq<char>, Seq<char>)> {
    v.map_values(|r: (String, String)| (r.0@, r.1@))
}

fn strip_cr_chars(l: &Vec<char>) -> (r: Vec<char>)
    ensures
        r@ == strip_cr_all(l@),
{
    let mut j = l.len();
    assert(l@.take(j as int) =~= l@);
    while j > 0 && l[j - 1] == '\r'
        invariant
            j <= l@.len(),
            strip_cr_all(l@) == strip_cr_all(l@.take(j as int)),
        decreases j,
    {
        assert(l@.take(j as int).drop_last() =~= l@.take(j - 1));
        j = j - 1;
    }
    proof {
        if j == l@.len() {
            assert(l@.take(j as int) =~= l@);
        }
    }
    let r = slice_of(l, 0, j);
    assert(r@ =~= l@.take(j as int));
    r
}

fn noise_at_start(noise: &Vec<&'static str>, l: &Vec<char>) -> (b: bool)
    ensures
        b == is_noise(views_of_strs(noise@), l@),
{
    let mut i: usize = 0;
    while i < noise.len()
        invariant
            i <= noise@.len(),
            forall|k: int| 0 <= k < i ==> !starts_with(l@, #[trigger] views_of_strs(noise@)[k]),
        decreases noise@.len() - i,
    {
        let n = chars_of(noise[i]);
        if has_prefix(l, &n) {
            assert(views_of_strs(noise@)[i as int] == n@);
            return true;
        }
        i = i + 1;
    }
    false
}

/// Raw `updates` output → rows of (line, package name).
pub fn clean(pm: &Pm, out: &str) -> (r: Vec<(String, String)>)
    ensures
        pairs_view(r@) == clean_spec(*pm, out@),
{
    let oc = chars_of(out);
    let raw = split_lines(&oc);
    let mut ls: Vec<Vec<char>> = Vec::new();
    let mut i: usize = 0;
    while i < raw.len()
        invariant
            i <= raw@.len(),
            raw.deep_view() == lines(out@),
            ls.deep_view() == lines(out@).take(i as int).map_values(|l: Seq<char>| strip_cr_all(l)),
        decreases raw@.len() - i,
    {
        proof {
            crate::text::lemma_deep_chars(raw@[i as int]);
        }
        let ghost before = ls.deep_view();
        let t = strip_cr_chars(&raw[i]);
        ls.push(t);
        proof {
            crate::text::lemma_deep_chars(t);
        }
        assert(ls.deep_view() =~= before.push(t@));
        i = i + 1;
        assert(lines(out@).take(i as int).map_values(|l: Seq<char>| strip_cr_all(l)) =~= before.push(
            t@,
        ));
    }
    assert(lines(out@).take(raw@.len() as int) =~= lines(out@));
    let ghost all = ls.deep_view();
    assert forall|m: int| 0 <= m < ls@.len() implies ls.deep_view()[m] == (#[trigger] ls@[m])@ by {
        crate::text::lemma_deep_chars(ls@[m]);
    }
    // Lines that can hold updates start at `start`.
    let mut start: usize = 0;
    if pm.table {
        let mut j: usize = 0;
        while j < ls.len() && !separator_chars(&ls[j])
            invariant
                j <= ls@.len(),
                ls.deep_view() == all,
                separator_from(all, 0) == separator_from(all, j as int),
                forall|m: int| 0 <= m < ls@.len() ==> ls.deep_view()[m] == (#[trigger] ls@[m])@,
            decreases ls@.len() - j,
        {
            j = j + 1;
        }
        start = if j < ls.len() {
            j + 1
        } else {
            ls.len()
        };
    }
    let ghost rest = all.skip(start as int);
    assert(all =~= lines(out@).map_values(|l: Seq<char>| strip_cr_all(l)));
    assert(rest =~= update_lines(*pm, out@));
    let mut acc: Vec<(String, String)> = Vec::new();
    let mut k: usize = start;
    while k < ls.len()
        invariant
            start <= k <= ls@.len(),
            ls.deep_view() == all,
            rest == all.skip(start as int),
            pairs_view(acc@) == update_rows(*pm, rest.take(k - start)),
        decreases ls@.len() - k,
    {
        proof {
            crate::text::lemma_deep_chars(ls@[k as int]);
            assert(rest.take(k + 1 - start).drop_last() =~= rest.take(k - start));
            assert(rest.take(k + 1 - start).last() == ls@[k as int]@);
        }
        let l = trim_end_chars(&ls[k]);
        let t = trim_chars(&l);
        let ts = split_ws(&l);
        let ts2 = trim_start_chars(&l);
        let keep = t.len() > 0 && !separator_chars(&l) && ts.len() >= pm.min_cols && !noise_at_start(
            &pm.noise,
            &ts2,
        );
        if keep {
            let pkg = if ts.len() > 0 {
                proof {
                    crate::text::lemma_deep_chars(ts@[0]);
                }
                copy(&ts[0])
            } else {
                Vec::new()
            };
            let ghost before = acc@;
            let a = string_of(&l);
            let b = string_of(&pkg);
            acc.push((a, b));
            assert(pairs_view(acc@) =~= pairs_view(before).push((a@, b@)));
        }
        k = k + 1;
    }
    assert(rest.take(ls@.len() - start) =~= rest);
    acc
}

/// The first manager of `table` whose binary is present (`present[i]` for
/// `table[i]`).
pub fn first_available(table: Vec<Pm>, present: &Vec<bool>) -> (r: Option<Pm>)
    requires
        present@.len() == table@.len(),
    ensures
        match r {
            Some(pm) => exists|i: int|
                #![trigger table@[i]]
                0 <= i < table@.len() && present@[i] && table@[i] == pm && forall|j: int|
                    0 <= j < i ==> !present@[j],
            None => forall|j: int| 0 <= j < table@.len() ==> !present@[j],
        },
{
    let ghost all = table@;
    let mut t = table;
    let mut i: usize = 0;
    while i < present.len()
        invariant
            i <= present@.len(),
            present@.len() == all.len(),
            t@ == all,
            all == table@,
            forall|j: int| 0 <= j < i ==> !present@[j],
        decreases present@.len() - i,
    {
        if present[i] {
            let pm = t.remove(i);
            assert(all[i as int] == pm && present@[i as int]);
            return Some(pm);
        }
        i = i + 1;
    }
    None
}

/// The outcome of trying one update command, in order of preference: not
/// run (its binary is missing), or what running it gave. The first command
/// that ran and answered gives the output to show; the others are not tried.
pub fn update_answer(outcome: Option<Result<String, String>>) -> (r: Option<String>)
    ensures
        crate::modules::opt_view(r) == match outcome {
            Some(Ok(o)) => Some(o@),
            _ => None,
        },
{
    match outcome {
        Some(Ok(o)) => Some(o),
        _ => None,
    }
}

/// A command of the manager: `args`, with `sudo` in front when its write
/// operations need it (never on Windows).
pub open spec fn pm_cmd(pm: Pm, args: Seq<Seq<char>>, win: bool) -> Seq<Seq<char>> {
    if pm.sudo && !win {
        seq!["sudo"@] + args
    } else {
        args
    }
}

/// What a key does with manager `pm`, once the list has not taken it.
pub open spec fn packages_key(pm: Pm, key: Key, win: bool) -> StepView {
    if key == Key::Char('U') {
        StepView::Act(ActionView::Interactive(pm_cmd(pm, views_of_strs(pm.upgrade@), win)))
    } else if key == Key::Char('b') {
        StepView::Act(
            ActionView::Prompt {
                label: "Search package"@,
                template: views_of_strs(pm.search@),
                interactive: false,
                show: true,
            },
        )
    } else if key == Key::Char('i') {
        StepView::Act(
            ActionView::Prompt {
                label: "Package to install"@,
                template: pm_cmd(pm, views_of_strs(pm.install@), win),
                interactive: true,
                show: false,
            },
        )
    } else if key == Key::Char('x') {
        StepView::Act(
            ActionView::Prompt {
                label: "Package to remove"@,
                template: pm_cmd(pm, views_of_strs(pm.remove@), win),
                interactive: true,
                show: false,
            },
        )
    } else if key == Key::Char('l') && pm.clean@.len() > 0 {
        StepView::Act(ActionView::Interactive(pm_cmd(pm, views_of_strs(pm.clean@), win)))
    } else {
        StepView::Act(ActionView::Ignored)
    }
}

fn pm_command(pm: &Pm, args: &Vec<&'static str>, win: bool) -> (r: Vec<String>)
    ensures
        views_of(r@) == pm_cmd(*pm, views_of_strs(args@), win),
{
    let mut v: Vec<String> = Vec::new();
    if pm.sudo && !win {
        v = strs1("sudo");
    }
    let rest = owned(args.as_slice());
    extend(&mut v, rest);
    assert(views_of(v@) =~= pm_cmd(*pm, views_of_strs(args@), win));
    v
}

/// Pending updates of the first package manager found.
pub struct Packages {
    list: ListView,
    pm: Option<Pm>,
    detected: bool,
}

impl Packages {
    pub closed spec fn manager_view(&self) -> Option<Pm> {
        self.pm
    }

    pub closed spec fn is_detected(&self) -> bool {
        self.detected
    }

    pub closed spec fn list_model(&self) -> ListModel {
        self.list@
    }

    pub closed spec fn wf(&self) -> bool {
        self.list.wf()
    }

    pub fn new() -> (r: Self)
        ensures
            r.wf(),
            r.manager_view() is None,
            !r.is_detected(),
            crate::ui::fresh(r.list_model()),
    {
        Packages { list: ListView::new(), pm: None, detected: false }
    }

    pub fn detected(&self) -> (r: bool)
        ensures
            r == self.is_detected(),
    {
        self.detected
    }

    pub fn manager(&self) -> (r: &Option<Pm>)
        ensures
            *r == self.manager_view(),
    {
        &self.pm
    }

    pub fn list(&self) -> (r: &ListView)
        ensures
            r@ == self.list_model(),
    {
        &self.list
    }

    /// Records the manager found (done once).
    pub fn set_manager(&mut self, pm: Option<Pm>)
        requires
            old(self).wf(),
        ensures
            final(self).wf(),
            final(self).manager_view() == pm,
            final(self).is_detected(),
            final(self).list_model() == old(self).list_model(),
    {
        self.pm = pm;
        self.detected = true;
    }

    /// The ways to list pending updates, in order of preference.
    pub fn update_cmds(&self) -> (r: Vec<Vec<String>>)
        ensures
            match self.manager_view() {
                Some(pm) => r@.len() == pm.updates@.len() && forall|k: int|
                    0 <= k < r@.len() ==> views_of(#[trigger] r@[k]@) == views_of_strs(pm.updates@[k]@),
                None => r@.len() == 0,
            },
    {
        let mut out: Vec<Vec<String>> = Vec::new();
        match &self.pm {
            Some(pm) => {
                let mut i: usize = 0;
                while i < pm.updates.len()
                    invariant
                        i <= pm.updates@.len(),
                        out@.len() == i,
                        forall|k: int|
                            0 <= k < i ==> views_of(#[trigger] out@[k]@) == views_of_strs(
                                pm.updates@[k]@,
                            ),
                    decreases pm.updates@.len() - i,
                {
                    out.push(owned(pm.updates[i].as_slice()));
                    i = i + 1;
                }
            },
            None => {},
        }
        out
    }

    /// Shows the pending updates from the output of the first update command
    /// that answered (none: nothing answered).
    pub fn set_updates(&mut self, out: Option<String>)
        requires
            old(self).wf(),
        ensures
            final(self).wf(),
            final(self).manager_view() == old(self).manager_view(),
            final(self).is_detected() == old(self).is_detected(),
            ({
                let rows = final(self).list_model().rows;
                match old(self).manager_view() {
                    None => rows.len() == 1 && rows[0].text@
                        == "No known package manager (pacman/paru/yay, apt, dnf, zypper, apk, winget, scoop, choco)"@
                        && rows[0].id@.len() == 0 && rows[0].look is Plain,
                    Some(pm) => {
                        let want = match out {
                            Some(o) => clean_spec(pm, o@),
                            None => Seq::empty(),
                        };
                        if want.len() == 0 {
                            rows.len() == 1 && rows[0].text@ == "System up to date ✓"@
                                && rows[0].id@.len() == 0 && rows[0].look is Plain
                        } else {
                            rows.map_values(|r: crate::ui::Row| (r.text@, r.id@)) == want
                                && forall|k: int| 0 <= k < rows.len() ==> (#[trigger] rows[k]).look is Plain
                        }
                    },
                }
            }),
    {
        let rows = match &self.pm {
            None => {
                self.list.set_items(
                    vec![
                        (
                            lit(
                                "No known package manager (pacman/paru/yay, apt, dnf, zypper, apk, winget, scoop, choco)",
                            ),
                            String::new(),
                        ),
                    ],
                );
                return;
            },
            Some(pm) => match &out {
                Some(o) => clean(pm, o.as_str()),
                None => Vec::new(),
            },
        };
        if rows.len() == 0 {
            self.list.set_items(vec![(lit("System up to date ✓"), String::new())]);
        } else {
            let ghost want = pairs_view(rows@);
            self.list.set_items(rows);
            assert(self.list@.rows.map_values(|r: crate::ui::Row| (r.text@, r.id@)) =~= want);
        }
    }

    /// Handles a key: the list's keys, then upgrade, search, install,
    /// remove and clean with the manager found.
    pub fn on_key(&mut self, key: Key, win: bool) -> (r: Step)
        requires
            old(self).wf(),
        ensures
            final(self).wf(),
            final(self).list_model() == key_step(old(self).list_model(), key).0,
            final(self).manager_view() == old(self).manager_view(),
            final(self).is_detected() == old(self).is_detected(),
            r@ == if key_step(old(self).list_model(), key).1 {
                StepView::Act(ActionView::Handled)
            } else {
                match old(self).manager_view() {
                    None => StepView::Act(ActionView::Ignored),
                    Some(pm) => packages_key(pm, key, win),
                }
            },
    {
        if self.list.key(key) {
            return act(Action::Handled);
        }
        let pm = match &self.pm {
            Some(pm) => pm,
            None => {
                return act(Action::Ignored);
            },
        };
        if key == Key::Char('U') {
            act(Action::Interactive(pm_command(pm, &pm.upgrade, win)))
        } else if key == Key::Char('b') {
            act(
                Action::Prompt {
                    label: lit("Search package"),
                    template: owned(pm.search.as_slice()),
                    interactive: false,
                    show: true,
                },
            )
        } else if key == Key::Char('i') {
            act(
                Action::Prompt {
                    label: lit("Package to install"),
                    template: pm_command(pm, &pm.install, win),
                    interactive: true,
                    show: false,
                },
            )
        } else if key == Key::Char('x') {
            act(
                Action::Prompt {
                    label: lit("Package to remove"),
                    template: pm_command(pm, &pm.remove, win),
                    interactive: true,
                    show: false,
                },
            )
        } else if key == Key::Char('l') && pm.clean.len() > 0 {
            act(Action::Interactive(pm_command(pm, &pm.clean, win)))
        } else {
            act(Action::Ignored)
        }
    }

    /// The module's own shortcuts for the bottom bar.
    pub fn footer(&self) -> (r: String)
        ensures
            r@ == "U upgrade all · b search · i install · x remove · l clean cache"@,
    {
        lit("U upgrade all · b search · i install · x remove · l clean cache")
    }

    /// Text copied by the global `y` key.
    pub fn clip(&self) -> (r: Option<String>)
        ensures
            crate::modules::opt_view(r) == match selected_row(self.list_model()) {
                Some(row) => crate::ui::clip_of(row),
                None => None,
            },
    {
        self.list.clip()
    }
}


proof fn lemma_no_separator_from(ls: Seq<Seq<char>>, i: int)
    requires
        0 <= i <= ls.len(),
        forall|k: int| 0 <= k < ls.len() ==> !separator(#[trigger] ls[k]),
    ensures
        separator_from(ls, i) == ls.len(),
    decreases ls.len() - i,
{
    if i < ls.len() {
        lemma_no_separator_from(ls, i + 1);
    }
}

/// A manager whose updates come as a table lists no updates when its output
/// has no dashes row (with nothing to upgrade, winget prints no table).
pub proof fn law_no_table_no_updates(pm: Pm, out: Seq<char>)
    requires
        pm.table,
        forall|k: int| 0 <= k < lines(out).len() ==> !separator(strip_cr_all(#[trigger] lines(out)[k])),
    ensures
        clean_spec(pm, out).len() == 0,
{
    let ls = lines(out).map_values(|l: Seq<char>| strip_cr_all(l));
    assert forall|k: int| 0 <= k < ls.len() implies !separator(#[trigger] ls[k]) by {
        assert(ls[k] == strip_cr_all(lines(out)[k]));
    }
    lemma_no_separator_from(ls, 0);
    assert(update_lines(pm, out) =~= Seq::<Seq<char>>::empty());
}


/// The AUR helpers come first: when the chosen manager is the first present
/// one of the table (as `first_available` picks it), paru is used whenever it
/// is present, else yay, and pacman only when neither is.
pub proof fn law_aur_helpers_first(present: Seq<bool>, i: int)
    requires
        present.len() == pms_spec().len(),
        0 <= i < present.len(),
        present[i],
        forall|j: int| 0 <= j < i ==> !present[j],
    ensures
        present[0] ==> pms_spec()[i].bin == "paru"@,
        !present[0] && present[1] ==> pms_spec()[i].bin == "yay"@,
        pms_spec()[i].bin == "pacman"@ ==> !present[0] && !present[1],
{
    reveal_strlit("pacman");
    reveal_strlit("paru");
    reveal_strlit("yay");
    reveal_strlit("apt");
    reveal_strlit("dnf");
    reveal_strlit("zypper");
    reveal_strlit("apk");
    reveal_strlit("winget");
    reveal_strlit("scoop");
    reveal_strlit("choco");
    assert(pms_spec().len() == 10);
    if i == 5 {
        assert(pms_spec()[i].bin[0] != "pacman"@[0]);
    } else if i == 7 {
        assert(pms_spec()[i].bin[0] != "pacman"@[0]);
    } else if i != 2 {
        assert(pms_spec()[i].bin.len() != "pacman"@.len());
    }
}


/// A line with a first column starts, once trimmed, with that column's
/// first character.
proof fn lemma_trim_starts_with_first_token(x: Seq<char>)
    requires
        tokens(x).len() > 0,
    ensures
        trim(x).len() > 0,
        trim(x)[0] == tokens(x)[0][0],
{
    crate::text::lemma_skip_ws(x, 0);
    let a = crate::text::skip_ws_from(x, 0);
    crate::text::lemma_token_end(x, a);
    assert(a < x.len());
    assert(tokens(x)[0] == x.subrange(a, crate::text::token_end_from(x, a)));
    let y = trim_start(x);
    assert(y[0] == x[a]);
    crate::text::lemma_trim_end_len(y, y.len() as int);
    assert(crate::text::trim_end_len(y, y.len() as int) > 0);
}

/// A row of the updates list is kept, as the line without trailing blanks
/// and with its first column as the package, whenever it has at least the
/// manager's minimum number of columns, does not start with a dash or plus
/// (so it is no separator row), and starts with none of the manager's noise
/// prefixes. A table row with exactly `min_cols` columns is kept.
pub proof fn law_update_row_kept(pm: Pm, rest: Seq<Seq<char>>, l: Seq<char>)
    requires
        tokens(trim_end(l)).len() > 0,
        tokens(trim_end(l)).len() >= pm.min_cols,
        tokens(trim_end(l))[0][0] != '-' && tokens(trim_end(l))[0][0] != '+',
        forall|k: int|
            0 <= k < pm.noise@.len() ==> !starts_with(trim_start(trim_end(l)), #[trigger] pm.noise@[k]@),
    ensures
        update_rows(pm, rest.push(l)) == update_rows(pm, rest).push(
            (trim_end(l), tokens(trim_end(l))[0]),
        ),
{
    let x = trim_end(l);
    lemma_trim_starts_with_first_token(x);
    let c = tokens(x)[0][0];
    crate::text::lemma_tokens_from_shape(x, 0);
    assert(tokens(x)[0].len() > 0);
    assert(!crate::text::is_ws(c));
    assert(!separator(x)) by {
        let t = trim(x);
        assert(t[0] == c);
        assert(!(t[0] == '-' || t[0] == '+' || t[0] == ' '));
    }
    assert(!is_noise(views_of_strs(pm.noise@), trim_start(x))) by {
        if is_noise(views_of_strs(pm.noise@), trim_start(x)) {
            let k = choose|k: int|
                0 <= k < views_of_strs(pm.noise@).len() && starts_with(
                    trim_start(x),
                    #[trigger] views_of_strs(pm.noise@)[k],
                );
            assert(views_of_strs(pm.noise@)[k] == pm.noise@[k]@);
        }
    }
    assert(keeps(pm, x));
    assert(rest.push(l).drop_last() =~= rest);
}


proof fn lemma_first_separator(ls: Seq<Seq<char>>, i: int, j: int)
    requires
        0 <= j <= i < ls.len(),
        separator(ls[i]),
        forall|k: int| 0 <= k < i ==> !separator(#[trigger] ls[k]),
    ensures
        separator_from(ls, j) == i,
    decreases i - j,
{
    if j < i {
        lemma_first_separator(ls, i, j + 1);
    }
}

/// For a manager whose updates come as a table, the rows are read from the
/// lines after the first dashes row, every one of them, in order (each line
/// without its trailing carriage returns); the lines up to it are the header.
pub proof fn law_table_rows_after_separator(pm: Pm, out: Seq<char>, i: int)
    requires
        pm.table,
        0 <= i < lines(out).len(),
        separator(strip_cr_all(lines(out)[i])),
        forall|k: int| 0 <= k < i ==> !separator(strip_cr_all(#[trigger] lines(out)[k])),
    ensures
        update_lines(pm, out).len() == lines(out).len() - i - 1,
        forall|k: int|
            0 <= k < update_lines(pm, out).len() ==> #[trigger] update_lines(pm, out)[k]
                == strip_cr_all(lines(out)[i + 1 + k]),
{
    let ls = lines(out).map_values(|l: Seq<char>| strip_cr_all(l));
    assert forall|k: int| 0 <= k < i implies !separator(#[trigger] ls[k]) by {
        assert(ls[k] == strip_cr_all(lines(out)[k]));
    }
    assert(ls[i] == strip_cr_all(lines(out)[i]));
    lemma_first_separator(ls, i, 0);
}

} // verus!

