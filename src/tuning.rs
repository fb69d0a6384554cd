//! The decisions behind the hardware tuning: the low-memory-killer bands,
//! the I/O scheduler of choice, and the GPU and SoC families.
use crate::text::{
    dec, has_prefix, lower_of, push_decimal, same_text, split_words, starts_with, to_lowercase, views, words,
};
use vstd::prelude::*;

verus! {

/// Thresholds of the low-memory killer: free pages per class and their
/// adjustment scores, both comma-separated.
#[derive(Clone, Debug)]
pub struct LmkConfig {
    pub minfree: String,
    pub adj: String,
}

/// RAM assumed when the total cannot be read, in megabytes.
pub const FALLBACK_RAM_MB: u64 = 4096;

/// Largest RAM size, in megabytes, whose page counts the thresholds can
/// hold.
pub const MAX_RAM_MB: u64 = 700_000_000_000_000;

/// The killer is tuned on devices of at most 8 GiB; above that the
/// system's own daemon is left alone.
pub open spec fn lmk_wanted(total_ram_mb: u64) -> bool {
    total_ram_mb <= 8192
}

pub fn should_apply_lmk(total_ram_mb: u64) -> (r: bool)
    ensures
        r == lmk_wanted(total_ram_mb),
{
    total_ram_mb <= 8192
}

/// Percentages of the pages for the six classes, by profile name.
pub open spec fn lmk_percents(profile: Seq<char>) -> Seq<u64> {
    if profile == "balanced"@ {
        seq![10, 15, 20, 50, 75, 95]
    } else if profile == "powersave"@ {
        seq![15, 25, 35, 60, 80, 95]
    } else {
        seq![5, 8, 12, 45, 70, 95]
    }
}

/// `pct` percent of `p`, rounded down.
pub open spec fn share(p: nat, pct: u64) -> nat {
    (p * (pct as nat)) / 100
}

pub open spec fn pages_of(total_ram_mb: u64) -> nat {
    (total_ram_mb as nat * 1024) / 4
}

/// The comma-separated free-page thresholds.
pub open spec fn minfree_text(total_ram_mb: u64, profile: Seq<char>) -> Seq<char> {
    let p = pages_of(total_ram_mb);
    let c = lmk_percents(profile);
    dec(share(p, c[0])) + ","@ + dec(share(p, c[1])) + ","@ + dec(share(p, c[2])) + ","@ + dec(share(p, c[3]))
        + ","@ + dec(share(p, c[4])) + ","@ + dec(share(p, c[5]))
}

fn percents(profile: &str) -> (r: [u64; 6])
    ensures
        r@ == lmk_percents(profile@),
{
    let r = if same_text(profile, "balanced") {
        [10, 15, 20, 50, 75, 95]
    } else if same_text(profile, "powersave") {
        [15, 25, 35, 60, 80, 95]
    } else {
        [5, 8, 12, 45, 70, 95]
    };
    proof {
        assert(r@ =~= lmk_percents(profile@));
    }
    r
}

/// The thresholds of a profile (`gaming`, `balanced` or `powersave`;
/// any other name counts as gaming) for a device of `total_ram_mb`.
pub fn calculate_lmk_for_ram(total_ram_mb: u64, profile: &str) -> (r: LmkConfig)
    requires
        total_ram_mb <= MAX_RAM_MB,
    ensures
        r.minfree@ == minfree_text(total_ram_mb, profile@),
        r.adj@ == "0,1,2,4,9,15"@,
{
    let pages = (total_ram_mb * 1024) / 4;
    let c = percents(profile);
    let ghost p = pages_of(total_ram_mb);
    proof {
        assert forall|j: int| 0 <= j < 6 implies pages * c@[j] <= MAX_RAM_MB * 256 * 95 by {
            assert(pages * c@[j] <= MAX_RAM_MB * 256 * 95) by (nonlinear_arith)
                requires pages <= MAX_RAM_MB * 256, c@[j] <= 95;
        }
    }
    let mut s = String::new();
    push_decimal(&mut s, pages * c[0] / 100);
    s.append(",");
    push_decimal(&mut s, pages * c[1] / 100);
    s.append(",");
    push_decimal(&mut s, pages * c[2] / 100);
    s.append(",");
    push_decimal(&mut s, pages * c[3] / 100);
    s.append(",");
    push_decimal(&mut s, pages * c[4] / 100);
    s.append(",");
    push_decimal(&mut s, pages * c[5] / 100);
    proof {
        assert(s@ =~= minfree_text(total_ram_mb, profile@));
    }
    LmkConfig { minfree: s, adj: String::from_str("0,1,2,4,9,15") }
}

fn lmk_for(total_ram_mb: Option<u64>, profile: &str) -> (r: Option<LmkConfig>)
    ensures
        ({
            let ram = match total_ram_mb {
                Some(m) => m,
                None => FALLBACK_RAM_MB,
            };
            &&& (r is Some <==> lmk_wanted(ram))
            &&& r matches Some(c) ==> c.minfree@ == minfree_text(ram, profile@) && c.adj@ == "0,1,2,4,9,15"@
        }),
{
    let ram = match total_ram_mb {
        Some(m) => m,
        None => FALLBACK_RAM_MB,
    };
    if !should_apply_lmk(ram) {
        return None;
    }
    Some(calculate_lmk_for_ram(ram, profile))
}

/// The gaming thresholds for a device whose RAM was read as
/// `total_ram_mb` (unreadable: 4 GiB assumed); none above 8 GiB.
pub fn apply_gaming_lmk(total_ram_mb: Option<u64>) -> (r: Option<LmkConfig>)
    ensures
        ({
            let ram = match total_ram_mb {
                Some(m) => m,
                None => FALLBACK_RAM_MB,
            };
            &&& (r is Some <==> lmk_wanted(ram))
            &&& r matches Some(c) ==> c.minfree@ == minfree_text(ram, "gaming"@) && c.adj@ == "0,1,2,4,9,15"@
        }),
{
    lmk_for(total_ram_mb, "gaming")
}

/// The balanced thresholds, under the same conditions.
pub fn apply_balanced_lmk(total_ram_mb: Option<u64>) -> (r: Option<LmkConfig>)
    ensures
        ({
            let ram = match total_ram_mb {
                Some(m) => m,
                None => FALLBACK_RAM_MB,
            };
            &&& (r is Some <==> lmk_wanted(ram))
            &&& r matches Some(c) ==> c.minfree@ == minfree_text(ram, "balanced"@) && c.adj@ == "0,1,2,4,9,15"@
        }),
{
    lmk_for(total_ram_mb, "balanced")
}

/// The powersave thresholds, under the same conditions.
pub fn apply_powersave_lmk(total_ram_mb: Option<u64>) -> (r: Option<LmkConfig>)
    ensures
        ({
            let ram = match total_ram_mb {
                Some(m) => m,
                None => FALLBACK_RAM_MB,
            };
            &&& (r is Some <==> lmk_wanted(ram))
            &&& r matches Some(c) ==> c.minfree@ == minfree_text(ram, "powersave"@) && c.adj@ == "0,1,2,4,9,15"@
        }),
{
    lmk_for(total_ram_mb, "powersave")
}

} // verus!

verus! {

/// A block-device I/O scheduler.
#[derive(Clone, Copy, Debug, PartialEq, Eq, Structural)]
pub enum IoScheduler {
    Kyber,
    Deadline,
    Cfq,
    Noop,
    Bfq,
    MqDeadline,
}

impl IoScheduler {
    pub open spec fn spec_name(self) -> Seq<char> {
        match self {
            IoScheduler::Kyber => "kyber"@,
            IoScheduler::Deadline => "deadline"@,
            IoScheduler::Cfq => "cfq"@,
            IoScheduler::Noop => "noop"@,
            IoScheduler::Bfq => "bfq"@,
            IoScheduler::MqDeadline => "mq-deadline"@,
        }
    }

    /// The name the kernel uses.
    pub fn name(&self) -> (r: &'static str)
        ensures
            r@ == self.spec_name(),
    {
        match self {
            IoScheduler::Kyber => "kyber",
            IoScheduler::Deadline => "deadline",
            IoScheduler::Cfq => "cfq",
            IoScheduler::Noop => "noop",
            IoScheduler::Bfq => "bfq",
            IoScheduler::MqDeadline => "mq-deadline",
        }
    }

    /// The scheduler a name denotes, if any.
    pub fn from_name(s: &str) -> (r: Option<IoScheduler>)
        ensures
            r == scheduler_named(s@),
    {
        scheduler_of(s)
    }
}

/// The order of preference for games.
pub open spec fn preference() -> Seq<IoScheduler> {
    seq![
        IoScheduler::Kyber,
        IoScheduler::Deadline,
        IoScheduler::Bfq,
        IoScheduler::Noop,
        IoScheduler::Cfq,
        IoScheduler::MqDeadline,
    ]
}

/// The most preferred scheduler that the device offers, else the first it
/// offers; none when it offers none.
pub fn select_best_gaming_scheduler(available: &Vec<IoScheduler>) -> (r: Option<IoScheduler>)
    ensures
        available@.len() == 0 <==> r is None,
        r matches Some(x) ==> available@.contains(x),
        r matches Some(x) ==> forall|k: int|
            0 <= k < 6 && available@.contains(preference()[k]) ==> exists|j: int|
                0 <= j <= k && preference()[j] == x,
{
    let order = [
        IoScheduler::Kyber,
        IoScheduler::Deadline,
        IoScheduler::Bfq,
        IoScheduler::Noop,
        IoScheduler::Cfq,
        IoScheduler::MqDeadline,
    ];
    proof {
        assert(order@ =~= preference());
    }
    let mut k: usize = 0;
    while k < 6
        invariant
            k <= 6,
            order@ == preference(),
            forall|m: int| 0 <= m < k ==> !available@.contains(preference()[m]),
        decreases 6 - k,
    {
        let want = order[k];
        let mut j: usize = 0;
        while j < available.len()
            invariant
                j <= available@.len(),
                k < 6,
                order@ == preference(),
                want == preference()[k as int],
                forall|m: int| 0 <= m < k ==> !available@.contains(preference()[m]),
                forall|m: int| 0 <= m < j ==> available@[m] != want,
            decreases available.len() - j,
        {
            if available[j] == want {
                proof {
                    assert(available@.contains(want));
                    assert forall|kk: int| 0 <= kk < 6 && available@.contains(preference()[kk]) implies exists|
                        jj: int,
                    | 0 <= jj <= kk && preference()[jj] == want by {
                        assert(preference()[k as int] == want);
                    }
                }
                return Some(want);
            }
            j = j + 1;
        }
        k = k + 1;
    }
    if available.len() > 0 {
        proof {
            assert(available@.contains(available@[0]));
            let x = available@[0];
            assert(x == IoScheduler::Kyber || x == IoScheduler::Deadline || x == IoScheduler::Bfq || x
                == IoScheduler::Noop || x == IoScheduler::Cfq || x == IoScheduler::MqDeadline);
            assert(x == preference()[0] || x == preference()[1] || x == preference()[2] || x == preference()[3]
                || x == preference()[4] || x == preference()[5]);
        }
        Some(available[0])
    } else {
        None
    }
}

/// The GPU family.
#[derive(Clone, Copy, Debug, PartialEq, Eq, Structural)]
pub enum GpuVendor {
    Adreno,
    Unknown,
}

/// Adreno when its kernel graphics node is present.
pub fn detect_vendor(kgsl_present: bool) -> (r: GpuVendor)
    ensures
        r == (if kgsl_present {
            GpuVendor::Adreno
        } else {
            GpuVendor::Unknown
        }),
{
    if kgsl_present {
        GpuVendor::Adreno
    } else {
        GpuVendor::Unknown
    }
}

/// The SoC family.
#[derive(Clone, Copy, Debug, PartialEq, Eq, Structural)]
pub enum SocType {
    Snapdragon,
    MediaTek,
    Exynos,
    Unisoc,
    Tensor,
    Unknown,
}

impl SocType {
    pub fn name(&self) -> (r: &'static str)
        ensures
            r@ == match self {
                SocType::Snapdragon => "Snapdragon"@,
                SocType::MediaTek => "MediaTek"@,
                SocType::Exynos => "Exynos"@,
                SocType::Unisoc => "Unisoc"@,
                SocType::Tensor => "Tensor"@,
                SocType::Unknown => "Unknown"@,
            },
    {
        match self {
            SocType::Snapdragon => "Snapdragon",
            SocType::MediaTek => "MediaTek",
            SocType::Exynos => "Exynos",
            SocType::Unisoc => "Unisoc",
            SocType::Tensor => "Tensor",
            SocType::Unknown => "Unknown",
        }
    }
}

pub open spec fn contains_seq(h: Seq<char>, p: Seq<char>) -> bool {
    exists|i: int| 0 <= i && i + p.len() <= h.len() && #[trigger] h.subrange(i, i + p.len()) == p
}

/// The family a platform property names, given in lower case.
pub open spec fn soc_of_platform(l: Seq<char>) -> Option<SocType> {
    if has_prefix(l, "mt"@) || has_prefix(l, "k6"@) {
        Some(SocType::MediaTek)
    } else if has_prefix(l, "sm"@) || has_prefix(l, "sdm"@) || has_prefix(l, "msm"@) || has_prefix(l, "apq"@) {
        Some(SocType::Snapdragon)
    } else if has_prefix(l, "exynos"@) {
        Some(SocType::Exynos)
    } else if has_prefix(l, "ud710"@) || has_prefix(l, "ums"@) {
        Some(SocType::Unisoc)
    } else if has_prefix(l, "gs"@) {
        Some(SocType::Tensor)
    } else {
        None
    }
}

/// The family a hardware property names, given in lower case.
pub open spec fn soc_of_hardware(l: Seq<char>) -> Option<SocType> {
    if contains_seq(l, "mt"@) {
        Some(SocType::MediaTek)
    } else if contains_seq(l, "qcom"@) {
        Some(SocType::Snapdragon)
    } else if contains_seq(l, "exynos"@) || contains_seq(l, "samsung"@) {
        Some(SocType::Exynos)
    } else {
        None
    }
}

fn contains_text(h: &str, p: &str) -> (r: bool)
    ensures
        r == contains_seq(h@, p@),
{
    let n = h.unicode_len();
    let m = p.unicode_len();
    if m > n {
        return false;
    }
    if m == 0 {
        proof {
            assert(h@.subrange(0, 0 + p@.len() as int) =~= p@);
        }
        return true;
    }
    let mut i: usize = 0;
    while i < n - m + 1
        invariant
            n == h@.len(),
            m == p@.len(),
            0 < m <= n,
            i <= n - m + 1,
            forall|j: int| 0 <= j < i ==> #[trigger] h@.subrange(j, j + m) != p@,
        decreases n - m + 1 - i,
    {
        let w = h.substring_char(i, i + m);
        if same_text(w, p) {
            return true;
        }
        i = i + 1;
    }
    false
}

pub open spec fn soc_from(
    platform: Option<Seq<char>>,
    hardware: Option<Seq<char>>,
    has_ppm: bool,
    has_kgsl: bool,
) -> SocType {
    match (match platform {
        Some(p) => soc_of_platform(p),
        None => None,
    }) {
        Some(t) => t,
        None => match (match hardware {
            Some(h) => soc_of_hardware(h),
            None => None,
        }) {
            Some(t) => t,
            None => if has_ppm {
                SocType::MediaTek
            } else if has_kgsl {
                SocType::Snapdragon
            } else {
                SocType::Unknown
            },
        },
    }
}

pub open spec fn opt_text(o: Option<&str>) -> Option<Seq<char>> {
    match o {
        Some(s) => Some(s@),
        None => None,
    }
}

/// The SoC family from the platform and hardware properties already in
/// lower case (`None`: unreadable or empty) and, failing those, from the
/// presence of the MediaTek performance manager or the Adreno graphics
/// node.
pub fn soc_from_lowered(platform: Option<&str>, hardware: Option<&str>, has_ppm: bool, has_kgsl: bool) -> (r:
    SocType)
    ensures
        r == soc_from(opt_text(platform), opt_text(hardware), has_ppm, has_kgsl),
{
    if let Some(ls) = platform {
        if starts_with(ls, "mt") || starts_with(ls, "k6") {
            return SocType::MediaTek;
        } else if starts_with(ls, "sm") || starts_with(ls, "sdm") || starts_with(ls, "msm") || starts_with(ls, "apq") {
            return SocType::Snapdragon;
        } else if starts_with(ls, "exynos") {
            return SocType::Exynos;
        } else if starts_with(ls, "ud710") || starts_with(ls, "ums") {
            return SocType::Unisoc;
        } else if starts_with(ls, "gs") {
            return SocType::Tensor;
        }
    }
    if let Some(ls) = hardware {
        if contains_text(ls, "mt") {
            return SocType::MediaTek;
        } else if contains_text(ls, "qcom") {
            return SocType::Snapdragon;
        } else if contains_text(ls, "exynos") || contains_text(ls, "samsung") {
            return SocType::Exynos;
        }
    }
    if has_ppm {
        SocType::MediaTek
    } else if has_kgsl {
        SocType::Snapdragon
    } else {
        SocType::Unknown
    }
}

/// The SoC family from the platform and hardware properties (`None`:
/// unreadable or empty), each read in lower case, and failing those from
/// the presence of the MediaTek performance manager or the Adreno graphics
/// node.
pub fn detect_soc(platform: Option<&str>, hardware: Option<&str>, has_ppm: bool, has_kgsl: bool) -> (r: SocType)
    ensures
        r == soc_from(
            match platform {
                Some(p) => Some(lower_of(p@)),
                None => None,
            },
            match hardware {
                Some(h) => Some(lower_of(h@)),
                None => None,
            },
            has_ppm,
            has_kgsl,
        ),
{
    let lp = match platform {
        Some(p) => Some(to_lowercase(p)),
        None => None,
    };
    let lh = match hardware {
        Some(h) => Some(to_lowercase(h)),
        None => None,
    };
    let pl: Option<&str> = match &lp {
        Some(s) => Some(s.as_str()),
        None => None,
    };
    let hl: Option<&str> = match &lh {
        Some(s) => Some(s.as_str()),
        None => None,
    };
    soc_from_lowered(pl, hl, has_ppm, has_kgsl)
}

} // verus!

verus! {

/// The scheduler whose kernel name is `s`.
pub open spec fn scheduler_named(s: Seq<char>) -> Option<IoScheduler> {
    if s == "kyber"@ {
        Some(IoScheduler::Kyber)
    } else if s == "deadline"@ {
        Some(IoScheduler::Deadline)
    } else if s == "cfq"@ {
        Some(IoScheduler::Cfq)
    } else if s == "noop"@ {
        Some(IoScheduler::Noop)
    } else if s == "bfq"@ {
        Some(IoScheduler::Bfq)
    } else if s == "mq-deadline"@ {
        Some(IoScheduler::MqDeadline)
    } else {
        None
    }
}

fn scheduler_of(s: &str) -> (r: Option<IoScheduler>)
    ensures
        r == scheduler_named(s@),
{
    if same_text(s, "kyber") {
        Some(IoScheduler::Kyber)
    } else if same_text(s, "deadline") {
        Some(IoScheduler::Deadline)
    } else if same_text(s, "cfq") {
        Some(IoScheduler::Cfq)
    } else if same_text(s, "noop") {
        Some(IoScheduler::Noop)
    } else if same_text(s, "bfq") {
        Some(IoScheduler::Bfq)
    } else if same_text(s, "mq-deadline") {
        Some(IoScheduler::MqDeadline)
    } else {
        None
    }
}

/// A word of the scheduler list without the brackets that mark the
/// current one: every leading `[` and every trailing `]` dropped.
pub open spec fn unbracketed(w: Seq<char>) -> Seq<char> {
    strip_end(strip_start(w))
}

pub open spec fn strip_start(w: Seq<char>) -> Seq<char>
    decreases w.len(),
{
    if w.len() > 0 && w[0] == '[' {
        strip_start(w.drop_first())
    } else {
        w
    }
}

pub open spec fn strip_end(w: Seq<char>) -> Seq<char>
    decreases w.len(),
{
    if w.len() > 0 && w.last() == ']' {
        strip_end(w.drop_last())
    } else {
        w
    }
}

/// The known schedulers a list names, in order.
pub open spec fn schedulers_in(ws: Seq<Seq<char>>) -> Seq<IoScheduler>
    decreases ws.len(),
{
    if ws.len() == 0 {
        Seq::empty()
    } else {
        match scheduler_named(unbracketed(ws.last())) {
            Some(x) => schedulers_in(ws.drop_last()).push(x),
            None => schedulers_in(ws.drop_last()),
        }
    }
}

fn unbracket(w: &str) -> (r: String)
    ensures
        r@ == unbracketed(w@),
{
    let n = w.unicode_len();
    let mut a: usize = 0;
    proof {
        assert(w@.subrange(0, n as int) =~= w@);
    }
    while a < n && w.get_char(a) == '['
        invariant
            n == w@.len(),
            a <= n,
            strip_start(w@) == strip_start(w@.subrange(a as int, n as int)),
        decreases n - a,
    {
        proof {
            assert(w@.subrange(a as int, n as int).drop_first() =~= w@.subrange(a as int + 1, n as int));
        }
        a = a + 1;
    }
    let ghost st = w@.subrange(a as int, n as int);
    proof {
        assert(strip_start(st) == st);
        assert(st.subrange(0, st.len() as int) =~= st);
    }
    let mut b: usize = n;
    while b > a && w.get_char(b - 1) == ']'
        invariant
            n == w@.len(),
            a <= b <= n,
            st == w@.subrange(a as int, n as int),
            strip_end(st) == strip_end(w@.subrange(a as int, b as int)),
        decreases b,
    {
        proof {
            assert(w@.subrange(a as int, b as int).drop_last() =~= w@.subrange(a as int, b as int - 1));
        }
        b = b - 1;
    }
    w.substring_char(a, b).to_owned()
}

/// The schedulers a device's `queue/scheduler` file offers, such as
/// `none [mq-deadline] kyber bfq`; unknown names are skipped.
pub fn get_available_schedulers(text: &str) -> (r: Vec<IoScheduler>)
    ensures
        r@ == schedulers_in(words(text@)),
{
    let ws = split_words(text);
    let ghost v = views(ws@);
    let mut out: Vec<IoScheduler> = Vec::new();
    let mut i: usize = 0;
    while i < ws.len()
        invariant
            i <= ws@.len(),
            v == views(ws@),
            v == words(text@),
            v.len() == ws@.len(),
            out@ == schedulers_in(v.take(i as int)),
        decreases ws.len() - i,
    {
        proof {
            assert(v.take(i as int + 1).drop_last() =~= v.take(i as int));
            assert(v[i as int] == ws@[i as int]@);
        }
        let u = unbracket(ws[i].as_str());
        match scheduler_of(u.as_str()) {
            Some(x) => out.push(x),
            None => {},
        }
        i = i + 1;
    }
    proof {
        assert(v.take(v.len() as int) =~= v);
    }
    out
}

/// The word marked current: the first one in brackets.
pub open spec fn bracketed(w: Seq<char>) -> bool {
    w.len() > 0 && w[0] == '[' && w.last() == ']'
}

/// The current scheduler of a `queue/scheduler` file: the first word in
/// brackets names it, if it is a known one.
pub open spec fn current_in(ws: Seq<Seq<char>>) -> Option<IoScheduler>
    decreases ws.len(),
{
    if ws.len() == 0 {
        None
    } else if bracketed(ws[0]) {
        if ws[0].len() >= 2 {
            scheduler_named(ws[0].subrange(1, ws[0].len() - 1))
        } else {
            None
        }
    } else {
        current_in(ws.drop_first())
    }
}

pub fn get_current_scheduler(text: &str) -> (r: Option<IoScheduler>)
    ensures
        r == current_in(words(text@)),
{
    let ws = split_words(text);
    let ghost v = views(ws@);
    let mut i: usize = 0;
    proof {
        assert(v.skip(0) =~= v);
    }
    while i < ws.len()
        invariant
            i <= ws@.len(),
            v == views(ws@),
            v == words(text@),
            v.len() == ws@.len(),
            current_in(v) == current_in(v.skip(i as int)),
        decreases ws.len() - i,
    {
        proof {
            assert(v[i as int] == ws@[i as int]@);
            assert(v.skip(i as int).drop_first() =~= v.skip(i as int + 1));
            assert(v.skip(i as int)[0] == v[i as int]);
        }
        let w = ws[i].as_str();
        let n = w.unicode_len();
        if n > 0 && w.get_char(0) == '[' && w.get_char(n - 1) == ']' {
            if n >= 2 {
                return scheduler_of(w.substring_char(1, n - 1));
            }
            return None;
        }
        i = i + 1;
    }
    None
}

/// A physical block device: not a loop, RAM, device-mapper or zram
/// device, and named like a disk (`sd`, `nvme`, `mmcblk`, `vd`).
pub open spec fn physical_device(name: Seq<char>) -> bool {
    !(has_prefix(name, "loop"@) || has_prefix(name, "ram"@) || has_prefix(name, "dm-"@) || has_prefix(name, "zram"@))
        && (has_prefix(name, "sd"@) || has_prefix(name, "nvme"@) || has_prefix(name, "mmcblk"@) || has_prefix(
        name,
        "vd"@,
    ))
}

pub fn is_block_device(name: &str) -> (r: bool)
    ensures
        r == physical_device(name@),
{
    !(starts_with(name, "loop") || starts_with(name, "ram") || starts_with(name, "dm-") || starts_with(name, "zram"))
        && (starts_with(name, "sd") || starts_with(name, "nvme") || starts_with(name, "mmcblk") || starts_with(
        name,
        "vd",
    ))
}

} // verus!
