//! Dashboard: memory, disks and a summary of the system. The program samples
//! the system and draws the gauges (floating point); this holds what is shown
//! in whole numbers and text.
use vstd::prelude::*;
use crate::text::{concat, decimal, decimal_string, lines, lit, split_lines, chars_of};

verus! {

/// A disk as the system reports it: device name (raw bytes), mount point,
/// total and available bytes.
pub struct DiskInfo {
    pub name: Vec<u8>,
    pub mount: String,
    pub total: u64,
    pub available: u64,
}

pub type DiskView = (Seq<u8>, Seq<char>, u64, u64);

pub open spec fn disk_view(d: DiskInfo) -> DiskView {
    (d.name@, d.mount@, d.total, d.available)
}

pub open spec fn disks_view(ds: Seq<DiskInfo>) -> Seq<DiskView> {
    ds.map_values(|d: DiskInfo| disk_view(d))
}

/// Two reports of one partition: same device and same size (btrfs mounts one
/// partition on several subvolumes).
pub open spec fn same_key(a: DiskView, b: DiskView) -> bool {
    a.0 == b.0 && a.2 == b.2
}

/// Whether a disk before position `i` has the key of disk `i`.
pub open spec fn has_key_before(ds: Seq<DiskView>, i: int) -> bool {
    exists|j: int| 0 <= j < i && same_key(#[trigger] ds[j], ds[i])
}

/// Positions of the disks shown: the first report of each partition.
pub open spec fn kept(ds: Seq<DiskView>) -> Seq<int>
    decreases ds.len(),
{
    if ds.len() == 0 {
        Seq::empty()
    } else {
        let prev = kept(ds.drop_last());
        if has_key_before(ds, ds.len() - 1) {
            prev
        } else {
            prev.push(ds.len() - 1)
        }
    }
}

/// A shown disk: mount point, used bytes, total bytes.
pub open spec fn disk_row(d: DiskView) -> (Seq<char>, int, int) {
    (d.1, d.2 - d.3, d.2 as int)
}

pub open spec fn disk_rows(ds: Seq<DiskView>) -> Seq<(Seq<char>, int, int)> {
    kept(ds).map_values(|i: int| disk_row(ds[i]))
}

/// Positions within `0..n`, in increasing order.
pub open spec fn increasing_within(k: Seq<int>, n: int) -> bool {
    &&& forall|a: int| 0 <= a < k.len() ==> 0 <= #[trigger] k[a] < n
    &&& forall|a: int, b: int| 0 <= a < b < k.len() ==> #[trigger] k[a] < #[trigger] k[b]
}

/// No two of the disks at positions `k` are the same partition.
pub open spec fn distinct_keys(ds: Seq<DiskView>, k: Seq<int>) -> bool {
    forall|a: int, b: int|
        0 <= a < b < k.len() ==> !same_key(ds[#[trigger] k[a]], ds[#[trigger] k[b]])
}

/// Disk `i` has its partition at one of the positions `k`, no later than itself.
pub open spec fn covered(ds: Seq<DiskView>, k: Seq<int>, i: int) -> bool {
    exists|a: int| 0 <= a < k.len() && #[trigger] k[a] <= i && same_key(ds[k[a]], ds[i])
}

/// Every disk has its partition at one of the positions `k`, no later than itself.
pub open spec fn covers(ds: Seq<DiskView>, k: Seq<int>) -> bool {
    forall|i: int| 0 <= i < ds.len() ==> #[trigger] covered(ds, k, i)
}

proof fn lemma_kept_step(ds: Seq<DiskView>)
    requires
        ds.len() > 0,
        increasing_within(kept(ds.drop_last()), ds.len() - 1),
        distinct_keys(ds.drop_last(), kept(ds.drop_last())),
        covers(ds.drop_last(), kept(ds.drop_last())),
    ensures
        increasing_within(kept(ds), ds.len() as int),
        distinct_keys(ds, kept(ds)),
        covers(ds, kept(ds)),
{
    let d = ds.drop_last();
    let n = ds.len() - 1;
    let p = kept(d);
    let k = kept(ds);
    assert forall|j: int| 0 <= j < n implies #[trigger] d[j] == ds[j] by {}
    if has_key_before(ds, n) {
        assert(k == p);
        assert forall|i: int| 0 <= i < ds.len() implies #[trigger] covered(ds, k, i) by {
            if i < n {
                assert(covered(d, p, i));
                let a = choose|a: int| 0 <= a < p.len() && #[trigger] p[a] <= i && same_key(d[p[a]], d[i]);
                assert(d[i] == ds[i]);
                assert(0 <= p[a] < n);
                assert(d[p[a]] == ds[p[a]]);
                assert(k[a] <= i && same_key(ds[k[a]], ds[i]));
            } else {
                let j = choose|j: int| 0 <= j < n && same_key(#[trigger] ds[j], ds[n]);
                assert(covered(d, p, j));
                let a = choose|a: int| 0 <= a < p.len() && #[trigger] p[a] <= j && same_key(d[p[a]], d[j]);
                assert(d[j] == ds[j]);
                assert(0 <= p[a] < n);
                assert(d[p[a]] == ds[p[a]]);
                assert(k[a] <= i && same_key(ds[k[a]], ds[i]));
            }
        }
    } else {
        assert(k == p.push(n));
        assert forall|a: int, b: int| 0 <= a < b < k.len() implies !same_key(
            ds[#[trigger] k[a]],
            ds[#[trigger] k[b]],
        ) by {
            assert(k[a] == p[a]);
            if b < p.len() {
                assert(k[b] == p[b]);
                assert(d[p[a]] == ds[p[a]]);
                assert(d[p[b]] == ds[p[b]]);
            } else {
                assert(k[b] == n);
                if same_key(ds[k[a]], ds[n]) {
                    assert(0 <= p[a] < n);
                    assert(same_key(ds[p[a]], ds[n]));
                    assert(has_key_before(ds, n));
                }
            }
        }
        assert forall|i: int| 0 <= i < ds.len() implies #[trigger] covered(ds, k, i) by {
            if i < n {
                assert(covered(d, p, i));
                let a = choose|a: int| 0 <= a < p.len() && #[trigger] p[a] <= i && same_key(d[p[a]], d[i]);
                assert(d[i] == ds[i]);
                assert(0 <= p[a] < n);
                assert(d[p[a]] == ds[p[a]]);
                assert(k[a] == p[a]);
                assert(k[a] <= i && same_key(ds[k[a]], ds[i]));
            } else {
                assert(k[p.len() as int] == n);
                assert(same_key(ds[k[p.len() as int]], ds[i]));
            }
        }
        assert forall|a: int, b: int| 0 <= a < b < k.len() implies #[trigger] k[a] < #[trigger] k[b] by {
            assert(k[a] == p[a]);
            if b < p.len() {
                assert(k[b] == p[b]);
            }
        }
    }
}

proof fn lemma_kept(ds: Seq<DiskView>)
    ensures
        increasing_within(kept(ds), ds.len() as int),
        distinct_keys(ds, kept(ds)),
        covers(ds, kept(ds)),
    decreases ds.len(),
{
    if ds.len() > 0 {
        lemma_kept(ds.drop_last());
        lemma_kept_step(ds);
    }
}

/// The disks shown are each partition once, in the order reported: no two
/// shown disks are the same partition, and every reported disk is shown by
/// its first report.
pub proof fn law_disks_deduplicated(ds: Seq<DiskView>)
    ensures
        increasing_within(kept(ds), ds.len() as int),
        distinct_keys(ds, kept(ds)),
        covers(ds, kept(ds)),
{
    lemma_kept(ds);
}

fn bytes_eq(a: &Vec<u8>, b: &Vec<u8>) -> (r: bool)
    ensures
        r == (a@ == b@),
{
    if a.len() != b.len() {
        return false;
    }
    let mut i: usize = 0;
    while i < a.len()
        invariant
            i <= a.len(),
            a.len() == b.len(),
            forall|k: int| 0 <= k < i ==> a@[k] == b@[k],
        decreases a.len() - i,
    {
        if a[i] != b[i] {
            return false;
        }
        i = i + 1;
    }
    assert(a@ =~= b@);
    true
}

/// The disks to show: each partition once (first report), with its mount
/// point, used and total bytes.
pub fn dedup_disks(disks: &Vec<DiskInfo>) -> (r: Vec<(String, u64, u64)>)
    requires
        forall|i: int| 0 <= i < disks@.len() ==> #[trigger] disks@[i].available <= disks@[i].total,
    ensures
        r@.map_values(|x: (String, u64, u64)| (x.0@, x.1 as int, x.2 as int)) == disk_rows(
            disks_view(disks@),
        ),
{
    let ghost ds = disks_view(disks@);
    let mut out: Vec<(String, u64, u64)> = Vec::new();
    let mut i: usize = 0;
    while i < disks.len()
        invariant
            i <= disks@.len(),
            ds == disks_view(disks@),
            forall|i: int| 0 <= i < disks@.len() ==> #[trigger] disks@[i].available <= disks@[i].total,
            out@.map_values(|x: (String, u64, u64)| (x.0@, x.1 as int, x.2 as int)) == disk_rows(
                ds.take(i as int),
            ),
        decreases disks@.len() - i,
    {
        let ghost t = ds.take(i as int);
        let ghost t1 = ds.take(i + 1);
        proof {
            lemma_kept(t);
            assert(t1.drop_last() =~= t);
        }
        let ghost kt = kept(t);
        // Whether an earlier disk has this one's key.
        let mut found = false;
        let mut b: usize = 0;
        while b < i
            invariant
                b <= i,
                i < disks@.len(),
                ds == disks_view(disks@),
                found == exists|j: int| 0 <= j < b && same_key(#[trigger] ds[j], ds[i as int]),
            decreases i - b,
        {
            if bytes_eq(&disks[b].name, &disks[i].name) && disks[b].total == disks[i].total {
                assert(same_key(ds[b as int], ds[i as int]));
                found = true;
            }
            b = b + 1;
        }
        proof {
            assert(forall|j: int| 0 <= j < i ==> t1[j] == ds[j]);
            assert(t1[i as int] == ds[i as int]);
            if found {
                let j = choose|j: int| 0 <= j < i && same_key(#[trigger] ds[j], ds[i as int]);
                assert(same_key(t1[j], t1[i as int]));
            }
            assert(found == has_key_before(t1, i as int));
        }
        let ghost before = out@;
        if !found {
            let d = &disks[i];
            out.push((d.mount.clone(), d.total - d.available, d.total));
            proof {
                assert(kept(t1) == kt.push(i as int));
                assert(out@.map_values(|x: (String, u64, u64)| (x.0@, x.1 as int, x.2 as int))
                    =~= disk_rows(t).push(disk_row(ds[i as int])));
                assert(disk_rows(t1) =~= disk_rows(t).push(disk_row(ds[i as int]))) by {
                    assert forall|c: int| 0 <= c < kt.len() implies t1[kt[c]] == t[kt[c]] by {}
                }
            }
        } else {
            proof {
                assert(kept(t1) == kt);
                assert(disk_rows(t1) =~= disk_rows(t)) by {
                    assert forall|c: int| 0 <= c < kt.len() implies t1[kt[c]] == t[kt[c]] by {}
                }
            }
        }
        i = i + 1;
    }
    assert(ds.take(disks@.len() as int) =~= ds);
    out
}

/// "host (system version)", each part empty when unknown.
pub open spec fn host_line_spec(host: Option<Seq<char>>, name: Option<Seq<char>>, version: Option<Seq<char>>) -> Seq<char> {
    or_empty(host) + " ("@ + or_empty(name) + " "@ + or_empty(version) + ")"@
}

pub open spec fn or_empty(o: Option<Seq<char>>) -> Seq<char> {
    match o {
        Some(s) => s,
        None => Seq::empty(),
    }
}

fn unwrap_or_empty(o: Option<String>) -> (r: String)
    ensures
        r@ == or_empty(crate::modules::opt_view(o)),
{
    match o {
        Some(s) => s,
        None => String::new(),
    }
}

pub fn host_line(host: Option<String>, name: Option<String>, version: Option<String>) -> (r: String)
    ensures
        r@ == host_line_spec(
            crate::modules::opt_view(host),
            crate::modules::opt_view(name),
            crate::modules::opt_view(version),
        ),
{
    let h = unwrap_or_empty(host);
    let n = unwrap_or_empty(name);
    let v = unwrap_or_empty(version);
    let a = concat(h.as_str(), " (");
    let b = concat(a.as_str(), n.as_str());
    let c = concat(b.as_str(), " ");
    let d = concat(c.as_str(), v.as_str());
    concat(d.as_str(), ")")
}

/// Uptime as whole hours and the minutes past them.
pub open spec fn uptime_spec(secs: u64) -> Seq<char> {
    decimal((secs / 3600) as nat) + " h "@ + decimal((secs % 3600 / 60) as nat) + " min"@
}

pub fn uptime_text(secs: u64) -> (r: String)
    ensures
        r@ == uptime_spec(secs),
{
    let h = decimal_string(secs / 3600);
    let m = decimal_string(secs % 3600 / 60);
    let a = concat(h.as_str(), " h ");
    let b = concat(a.as_str(), m.as_str());
    concat(b.as_str(), " min")
}

/// The Docker line: how many containers run (lines of `docker ps -q`),
/// "daemon stopped" when the command fails, "not installed" without docker.
pub open spec fn docker_line_spec(ps: Option<Result<Seq<char>, Seq<char>>>) -> Seq<char> {
    match ps {
        None => "not installed"@,
        Some(Ok(o)) => decimal(lines(o).len()) + " containers running"@,
        Some(Err(_)) => "daemon stopped"@,
    }
}

pub fn docker_line(ps: Option<Result<String, String>>) -> (r: String)
    ensures
        r@ == docker_line_spec(
            match ps {
                None => None,
                Some(x) => Some(crate::modules::docker::result_view(x)),
            },
        ),
{
    match ps {
        None => lit("not installed"),
        Some(Ok(o)) => {
            let oc = chars_of(o.as_str());
            let ls = split_lines(&oc);
            let n = ls.len() as u64;
            let d = decimal_string(n);
            concat(d.as_str(), " containers running")
        },
        Some(Err(_)) => lit("daemon stopped"),
    }
}

/// The load line: the three averages as the program formats them, or a note
/// on Windows, which has none.
pub fn load_line(formatted: String, win: bool) -> (r: String)
    ensures
        r@ == (if win {
            "n/a on Windows"@
        } else {
            formatted@
        }),
{
    if win {
        lit("n/a on Windows")
    } else {
        formatted
    }
}

/// Memory, swap, disks and the system summary.
pub struct Dashboard {
    mem: (u64, u64),
    swap: (u64, u64),
    disks: Vec<(String, u64, u64)>,
    info: Vec<(&'static str, String)>,
    primed: bool,
}

impl Dashboard {
    pub closed spec fn mem_view(&self) -> (u64, u64) {
        self.mem
    }

    pub closed spec fn swap_view(&self) -> (u64, u64) {
        self.swap
    }

    pub closed spec fn disks_shown(&self) -> Seq<(Seq<char>, int, int)> {
        self.disks@.map_values(|x: (String, u64, u64)| (x.0@, x.1 as int, x.2 as int))
    }

    pub closed spec fn info_view(&self) -> Seq<(Seq<char>, Seq<char>)> {
        self.info@.map_values(|x: (&'static str, String)| (x.0@, x.1@))
    }

    pub closed spec fn is_primed(&self) -> bool {
        self.primed
    }

    /// Nothing sampled yet: no memory used out of 1 (never a zero total).
    pub fn new() -> (r: Self)
        ensures
            r.mem_view() == (0u64, 1u64),
            r.swap_view() == (0u64, 1u64),
            r.disks_shown().len() == 0,
            r.info_view().len() == 0,
            !r.is_primed(),
    {
        Dashboard { mem: (0, 1), swap: (0, 1), disks: Vec::new(), info: Vec::new(), primed: false }
    }

    /// Whether the CPU has a previous sample (else the first refresh waits
    /// for one).
    pub fn primed(&self) -> (r: bool)
        ensures
            r == self.is_primed(),
    {
        self.primed
    }

    pub fn set_primed(&mut self)
        ensures
            final(self).is_primed(),
            final(self).mem_view() == old(self).mem_view(),
            final(self).swap_view() == old(self).swap_view(),
            final(self).disks_shown() == old(self).disks_shown(),
            final(self).info_view() == old(self).info_view(),
    {
        self.primed = true;
    }

    pub fn mem(&self) -> (r: (u64, u64))
        ensures
            r == self.mem_view(),
    {
        self.mem
    }

    pub fn swap(&self) -> (r: (u64, u64))
        ensures
            r == self.swap_view(),
    {
        self.swap
    }

    pub fn disks(&self) -> (r: &Vec<(String, u64, u64)>)
        ensures
            r@.map_values(|x: (String, u64, u64)| (x.0@, x.1 as int, x.2 as int))
                == self.disks_shown(),
    {
        &self.disks
    }

    pub fn info(&self) -> (r: &Vec<(&'static str, String)>)
        ensures
            r@.map_values(|x: (&'static str, String)| (x.0@, x.1@)) == self.info_view(),
    {
        &self.info
    }

    /// Used and total memory and swap; a total is never 0 (it divides).
    pub fn set_memory(&mut self, used: u64, total: u64, used_swap: u64, total_swap: u64)
        ensures
            final(self).mem_view() == (used, if total > 1 { total } else { 1 }),
            final(self).swap_view() == (used_swap, if total_swap > 1 { total_swap } else { 1 }),
            final(self).disks_shown() == old(self).disks_shown(),
            final(self).info_view() == old(self).info_view(),
            final(self).is_primed() == old(self).is_primed(),
    {
        self.mem = (used, if total > 1 { total } else { 1 });
        self.swap = (used_swap, if total_swap > 1 { total_swap } else { 1 });
    }

    /// The disks, each partition once.
    pub fn set_disks(&mut self, disks: &Vec<DiskInfo>)
        requires
            forall|i: int|
                0 <= i < disks@.len() ==> #[trigger] disks@[i].available <= disks@[i].total,
        ensures
            final(self).disks_shown() == disk_rows(disks_view(disks@)),
            final(self).mem_view() == old(self).mem_view(),
            final(self).swap_view() == old(self).swap_view(),
            final(self).info_view() == old(self).info_view(),
            final(self).is_primed() == old(self).is_primed(),
    {
        self.disks = dedup_disks(disks);
    }

    /// The system summary, from its six values in order.
    pub fn set_info(
        &mut self,
        host: String,
        kernel: String,
        uptime: String,
        load: String,
        docker: String,
        date: String,
    )
        ensures
            final(self).info_view() == seq![
                ("Host"@, host@),
                ("Kernel"@, kernel@),
                ("Uptime"@, uptime@),
                ("Load"@, load@),
                ("Docker"@, docker@),
                ("Date"@, date@),
            ],
            final(self).mem_view() == old(self).mem_view(),
            final(self).swap_view() == old(self).swap_view(),
            final(self).disks_shown() == old(self).disks_shown(),
            final(self).is_primed() == old(self).is_primed(),
    {
        let ghost hv = host@;
        let ghost kv = kernel@;
        let ghost uv = uptime@;
        let ghost lv = load@;
        let ghost dv = docker@;
        let ghost tv = date@;
        self.info = vec![
            ("Host", host),
            ("Kernel", kernel),
            ("Uptime", uptime),
            ("Load", load),
            ("Docker", docker),
            ("Date", date),
        ];
        assert(self.info_view() =~= seq![
            ("Host"@, hv),
            ("Kernel"@, kv),
            ("Uptime"@, uv),
            ("Load"@, lv),
            ("Docker"@, dv),
            ("Date"@, tv),
        ]);
    }
}

} // verus!
