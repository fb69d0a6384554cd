//! Reading the values the control loop needs out of the system's
//! diagnostic text: power state, foreground package and process id.
use crate::text::{
    digits_value, has_prefix, is_digit, parse_u64, parse_u64_spec, pieces, split_on, split_words,
    starts_with, views, words,
};
use crate::tick::PowerState;
use crate::tuning::contains_seq;
use vstd::prelude::*;

verus! {

/// Index of the first occurrence of `p` in `h`.
pub open spec fn is_first_occurrence(h: Seq<char>, p: Seq<char>, i: int) -> bool {
    &&& 0 <= i && i + p.len() <= h.len()
    &&& h.subrange(i, i + p.len()) == p
    &&& forall|j: int| 0 <= j < i ==> #[trigger] h.subrange(j, j + p.len()) != p
}

/// Position of the first `p` in `h`.
pub fn find_text(h: &str, p: &str) -> (r: Option<usize>)
    ensures
        match r {
            Some(i) => is_first_occurrence(h@, p@, i as int),
            None => !contains_seq(h@, p@),
        },
{
    let n = h.unicode_len();
    let m = p.unicode_len();
    if m > n {
        return None;
    }
    if m == 0 {
        proof {
            assert(h@.subrange(0, 0 + p@.len() as int) =~= p@);
        }
        return Some(0);
    }
    let mut i: usize = 0;
    while i < n - m + 1
        invariant
            n == h@.len(),
            m == p@.len(),
            0 < m <= n,
            i <= n - m + 1,
            forall|j: int| 0 <= j < i ==> #[trigger] h@.subrange(j, j + m) != p@,
        decreases n - m + 1 - i,
    {
        let w = h.substring_char(i, i + m);
        if crate::text::same_text(w, p) {
            return Some(i);
        }
        i = i + 1;
    }
    None
}

/// Length of the run of ASCII digits at the start of `s`.
pub open spec fn digit_prefix_len(s: Seq<char>) -> nat
    decreases s.len(),
{
    if s.len() > 0 && is_digit(s[0]) {
        1 + digit_prefix_len(s.drop_first())
    } else {
        0
    }
}

/// The process id after the first `pid=`: its run of digits, when there
/// is one, it fits an `i32` and it is positive.
pub open spec fn pid_in(s: Seq<char>) -> Option<i32> {
    if contains_seq(s, "pid="@) {
        let i = choose|i: int| is_first_occurrence(s, "pid="@, i);
        let rest = s.skip(i + "pid="@.len());
        let run = rest.take(digit_prefix_len(rest) as int);
        if run.len() > 0 && digits_value(run) <= i32::MAX && digits_value(run) > 0 {
            Some(digits_value(run) as i32)
        } else {
            None
        }
    } else {
        None
    }
}

proof fn lemma_first_occurrence_unique(h: Seq<char>, p: Seq<char>, i: int, k: int)
    requires
        is_first_occurrence(h, p, i),
        is_first_occurrence(h, p, k),
    ensures
        i == k,
{
    if i < k {
        assert(h.subrange(i, i + p.len()) != p);
    } else if k < i {
        assert(h.subrange(k, k + p.len()) != p);
    }
}

proof fn lemma_digit_run(s: Seq<char>, i: int)
    requires
        0 <= i <= s.len(),
        forall|j: int| 0 <= j < i ==> is_digit(s[j]),
        i == s.len() || !is_digit(s[i]),
    ensures
        digit_prefix_len(s) == i,
    decreases i,
{
    if i > 0 {
        lemma_digit_run(s.drop_first(), i - 1);
    }
}

/// Reads the process id that follows `pid=` in a line.
pub fn parse_pid_from_str(s: &str) -> (r: Option<i32>)
    ensures
        r == pid_in(s@),
{
    let i = match find_text(s, "pid=") {
        Some(i) => i,
        None => {
            return None;
        },
    };
    proof {
        assert(contains_seq(s@, "pid="@));
        let k = choose|k: int| is_first_occurrence(s@, "pid="@, k);
        lemma_first_occurrence_unique(s@, "pid="@, i as int, k);
    }
    let n = s.unicode_len();
    let start = i + "pid=".unicode_len();
    let ghost rest = s@.skip(start as int);
    let mut j: usize = start;
    let mut value: u64 = 0;
    while j < n && '0' <= s.get_char(j) && s.get_char(j) <= '9'
        invariant
            n == s@.len(),
            start <= j <= n,
            rest == s@.skip(start as int),
            forall|k: int| 0 <= k < j - start ==> is_digit(rest[k]),
            value <= i32::MAX ==> value == digits_value(rest.take(j - start)),
            value > i32::MAX ==> digits_value(rest.take(j - start)) > i32::MAX,
            value <= 10 * (i32::MAX as u64) + 9,
        decreases n - j,
    {
        let c = s.get_char(j);
        proof {
            assert(rest.take(j - start + 1).drop_last() =~= rest.take(j - start));
            assert(rest[j - start] == c);
        }
        if value <= i32::MAX as u64 {
            value = value * 10 + ((c as u32) - ('0' as u32)) as u64;
        }
        j = j + 1;
    }
    proof {
        lemma_digit_run(rest, j - start);
        assert(rest.take(digit_prefix_len(rest) as int).len() == j - start);
    }
    if j > start && value <= i32::MAX as u64 && value > 0 {
        Some(value as i32)
    } else {
        None
    }
}

} // verus!

verus! {

/// The package of an activity token `pkg/.Activity`: what comes before
/// the first `/`, when it holds a dot.
pub open spec fn package_of_token(t: Seq<char>) -> Option<Seq<char>> {
    let pkg = pieces(t, '/')[0];
    if pkg.contains('.') {
        Some(pkg)
    } else {
        None
    }
}

fn has_char(s: &str, c: char) -> (r: bool)
    ensures
        r == s@.contains(c),
{
    let n = s.unicode_len();
    let mut i: usize = 0;
    while i < n
        invariant
            n == s@.len(),
            i <= n,
            forall|j: int| 0 <= j < i ==> s@[j] != c,
        decreases n - i,
    {
        if s.get_char(i) == c {
            proof {
                assert(s@[i as int] == c);
            }
            return true;
        }
        i = i + 1;
    }
    false
}

fn package_from_token(t: &str) -> (r: Option<String>)
    ensures
        match r {
            Some(p) => package_of_token(t@) == Some(p@),
            None => package_of_token(t@) is None,
        },
{
    let parts = split_on(t, '/');
    proof {
        assert(views(parts@).len() == parts@.len());
        assert(views(parts@)[0] == parts@[0]@);
    }
    let pkg = &parts[0];
    if has_char(pkg.as_str(), '.') {
        Some(pkg.clone())
    } else {
        None
    }
}

/// The package of a resumed-activity line: the token after `u0 `.
pub open spec fn activity_package(s: Seq<char>) -> Option<Seq<char>> {
    if contains_seq(s, "u0 "@) {
        let i = choose|i: int| is_first_occurrence(s, "u0 "@, i);
        let ws = words(s.skip(i + "u0 "@.len()));
        if ws.len() == 0 {
            None
        } else {
            package_of_token(ws[0])
        }
    } else {
        None
    }
}

/// Reads the package from a line such as
/// `mResumedActivity: ActivityRecord{1 u0 com.x/.Main t9}`.
pub fn parse_pkg_from_activity_line(s: &str) -> (r: Option<String>)
    ensures
        match r {
            Some(p) => activity_package(s@) == Some(p@),
            None => activity_package(s@) is None,
        },
{
    let i = match find_text(s, "u0 ") {
        Some(i) => i,
        None => {
            return None;
        },
    };
    proof {
        let k = choose|k: int| is_first_occurrence(s@, "u0 "@, k);
        lemma_first_occurrence_unique(s@, "u0 "@, i as int, k);
    }
    let n = s.unicode_len();
    let start = i + "u0 ".unicode_len();
    let rest = s.substring_char(start, n);
    proof {
        assert(rest@ =~= s@.skip(start as int));
    }
    let ws = split_words(rest);
    if ws.len() == 0 {
        return None;
    }
    proof {
        assert(views(ws@)[0] == ws@[0]@);
    }
    package_from_token(ws[0].as_str())
}

/// The package of a focused-window line: the first token before `{`
/// that holds a `/`.
pub open spec fn window_package(s: Seq<char>) -> Option<Seq<char>> {
    let ws = words(pieces(s, '{')[0]);
    if exists|k: int| 0 <= k < ws.len() && ws[k].contains('/') {
        let k = choose|k: int|
            0 <= k < ws.len() && ws[k].contains('/') && forall|j: int| 0 <= j < k ==> !ws[j].contains('/');
        package_of_token(ws[k])
    } else {
        None
    }
}

/// Reads the package from a line such as
/// `mCurrentFocus=Window{5 u0 com.x/com.x.Main}`.
pub fn parse_pkg_from_window_line(s: &str) -> (r: Option<String>)
    ensures
        match r {
            Some(p) => window_package(s@) == Some(p@),
            None => window_package(s@) is None,
        },
{
    let heads = split_on(s, '{');
    proof {
        assert(views(heads@).len() == heads@.len());
        assert(views(heads@)[0] == heads@[0]@);
    }
    let ws = split_words(heads[0].as_str());
    let ghost w = views(ws@);
    let mut k: usize = 0;
    while k < ws.len()
        invariant
            k <= ws@.len(),
            w == views(ws@),
            w == words(pieces(s@, '{')[0]),
            w.len() == ws@.len(),
            forall|j: int| 0 <= j < k ==> !w[j].contains('/'),
        decreases ws.len() - k,
    {
        proof {
            assert(w[k as int] == ws@[k as int]@);
        }
        if has_char(ws[k].as_str(), '/') {
            proof {
                assert(0 <= k < w.len() && w[k as int].contains('/'));
                let c = choose|c: int|
                    0 <= c < w.len() && w[c].contains('/') && forall|j: int| 0 <= j < c ==> !w[j].contains('/');
                if c < k {
                    assert(!w[c].contains('/'));
                } else if c > k {
                    assert(!w[k as int].contains('/'));
                }
            }
            return package_from_token(ws[k].as_str());
        }
        k = k + 1;
    }
    None
}

/// The battery saver setting as `cmd settings` prints it: `1` on, `0`
/// off, anything else unknown.
pub fn saver_setting_from(text: &str) -> (r: Option<bool>)
    ensures
        r == (if crate::text::trimmed(text@) == "1"@ {
            Some(true)
        } else if crate::text::trimmed(text@) == "0"@ {
            Some(false)
        } else {
            None
        }),
{
    let t = crate::text::trim(text);
    if crate::text::same_text(t, "1") {
        Some(true)
    } else if crate::text::same_text(t, "0") {
        Some(false)
    } else {
        None
    }
}

pub open spec fn awake_in(s: Seq<char>) -> bool {
    contains_seq(s, "mWakefulness=Awake"@) || contains_seq(s, "mAwake=true"@) || contains_seq(
        s,
        "mInteractive=true"@,
    ) || contains_seq(s, "mScreenOn=true"@)
}

pub open spec fn saver_in(s: Seq<char>) -> bool {
    contains_seq(s, "mBatterySaverEnabled=true"@) || contains_seq(s, "mSettingBatterySaverEnabled=true"@)
        || contains_seq(s, "Battery Saver: ON"@)
}

fn contains(h: &str, p: &str) -> (r: bool)
    ensures
        r == contains_seq(h@, p@),
{
    find_text(h, p).is_some()
}

/// The power state from the power service's dump, with the saver setting
/// (when it could be read) taking precedence over the dump.
pub fn power_from_dump(dump: &str, saver_setting: Option<bool>) -> (r: PowerState)
    ensures
        r.screen_awake == awake_in(dump@),
        r.battery_saver == match saver_setting {
            Some(b) => b,
            None => saver_in(dump@),
        },
{
    let saver = match saver_setting {
        Some(b) => b,
        None => contains(dump, "mBatterySaverEnabled=true") || contains(dump, "mSettingBatterySaverEnabled=true")
            || contains(dump, "Battery Saver: ON"),
    };
    let awake = contains(dump, "mWakefulness=Awake") || contains(dump, "mAwake=true") || contains(
        dump,
        "mInteractive=true",
    ) || contains(dump, "mScreenOn=true");
    PowerState { screen_awake: awake, battery_saver: saver }
}

/// Whether a process id can name a live process: only positive ones.
pub fn is_pid_valid(pid: i32, proc_entry_exists: bool) -> (r: bool)
    ensures
        r == (pid > 0 && proc_entry_exists),
{
    pid > 0 && proc_entry_exists
}

} // verus!

verus! {

/// After reading some lines of the activity dump: the package of the first
/// resumed activity that names one, and the package of the first focused
/// window that names one.
pub open spec fn scan_lines(ls: Seq<Seq<char>>) -> (Option<Seq<char>>, Option<Seq<char>>)
    decreases ls.len(),
{
    if ls.len() == 0 {
        (None, None)
    } else {
        let st = scan_lines(ls.drop_last());
        let l = ls.last();
        let found = if st.0 is None && contains_seq(l, "ResumedActivity"@) {
            activity_package(l)
        } else {
            st.0
        };
        let fallback = if st.1 is None && contains_seq(l, "mCurrentFocus"@) {
            window_package(l)
        } else {
            st.1
        };
        (found, fallback)
    }
}

/// The foreground package from the activity dump: the resumed activity,
/// else the focused window.
pub open spec fn foreground_in(dump: Seq<char>) -> Option<Seq<char>> {
    let st = scan_lines(pieces(dump, '\n'));
    match st.0 {
        Some(p) => Some(p),
        None => st.1,
    }
}

pub open spec fn opt_view(o: Option<String>) -> Option<Seq<char>> {
    match o {
        Some(s) => Some(s@),
        None => None,
    }
}

/// Reads the foreground package out of the activity manager's dump.
pub fn foreground_from_dump(dump: &str) -> (r: Option<String>)
    ensures
        opt_view(r) == foreground_in(dump@),
{
    let lines = split_on(dump, '\n');
    let ghost ls = views(lines@);
    let mut found: Option<String> = None;
    let mut fallback: Option<String> = None;
    let mut i: usize = 0;
    while i < lines.len()
        invariant
            i <= lines@.len(),
            ls == views(lines@),
            ls == pieces(dump@, '\n'),
            ls.len() == lines@.len(),
            (opt_view(found), opt_view(fallback)) == scan_lines(ls.take(i as int)),
        decreases lines.len() - i,
    {
        proof {
            assert(ls.take(i as int + 1).drop_last() =~= ls.take(i as int));
            assert(ls[i as int] == lines@[i as int]@);
        }
        let l = lines[i].as_str();
        if found.is_none() && contains(l, "ResumedActivity") {
            found = parse_pkg_from_activity_line(l);
        }
        if fallback.is_none() && contains(l, "mCurrentFocus") {
            fallback = parse_pkg_from_window_line(l);
        }
        i = i + 1;
    }
    proof {
        assert(ls.take(ls.len() as int) =~= ls);
    }
    match found {
        Some(p) => Some(p),
        None => fallback,
    }
}

} // verus!

verus! {

/// The amount after the first `MemTotal:` line that has one.
pub open spec fn mem_total_word(ls: Seq<Seq<char>>) -> Option<Seq<char>>
    decreases ls.len(),
{
    if ls.len() == 0 {
        None
    } else if has_prefix(ls[0], "MemTotal:"@) && words(ls[0]).len() >= 2 {
        Some(words(ls[0])[1])
    } else {
        mem_total_word(ls.drop_first())
    }
}

/// Total RAM in megabytes from the kernel's memory summary, whose
/// `MemTotal:` line counts kilobytes.
pub open spec fn ram_mb_in(meminfo: Seq<char>) -> Option<u64> {
    match mem_total_word(pieces(meminfo, '\n')) {
        Some(w) => match parse_u64_spec(w) {
            Some(kb) => Some(kb / 1024),
            None => None,
        },
        None => None,
    }
}

/// Reads the total RAM, in megabytes, from `/proc/meminfo`'s text.
pub fn total_ram_mb_from(meminfo: &str) -> (r: Option<u64>)
    ensures
        r == ram_mb_in(meminfo@),
{
    let lines = split_on(meminfo, '\n');
    let ghost ls = views(lines@);
    let mut i: usize = 0;
    proof {
        assert(ls.skip(0) =~= ls);
    }
    while i < lines.len()
        invariant
            i <= lines@.len(),
            ls == views(lines@),
            ls == pieces(meminfo@, '\n'),
            ls.len() == lines@.len(),
            mem_total_word(ls) == mem_total_word(ls.skip(i as int)),
        decreases lines.len() - i,
    {
        proof {
            assert(ls[i as int] == lines@[i as int]@);
            assert(ls.skip(i as int).drop_first() =~= ls.skip(i as int + 1));
            assert(ls.skip(i as int)[0] == ls[i as int]);
        }
        let l = lines[i].as_str();
        if starts_with(l, "MemTotal:") {
            let ws = split_words(l);
            if ws.len() >= 2 {
                proof {
                    assert(views(ws@)[1] == ws@[1]@);
                }
                return match parse_u64(ws[1].as_str()) {
                    Some(kb) => Some(kb / 1024),
                    None => None,
                };
            }
        }
        i = i + 1;
    }
    None
}

} // verus!
