//! Core classification from the device's topology and the affinity mask
//! of each profile.
use crate::buffer::{sort_ascending, sorted};
use crate::text::{parse_usize, parse_usize_spec, piece_state, pieces, split_on, trim, trimmed, views};
use vstd::prelude::*;
use vstd::relations::{sorted_by, total_ordering};

verus! {

/// One gigahertz in kilohertz, the unit of the frequency tables.
pub const BIG_CORE_MIN_KHZ: u32 = 1_000_000;

/// The mask that allows every core.
pub const ALL_CORES: u64 = 0xffff_ffff_ffff_ffff;

pub open spec fn has_bit(m: u64, c: int) -> bool {
    0 <= c < 64 && (m >> (c as u64)) & 1 == 1
}

pub open spec fn leq_u32() -> spec_fn(u32, u32) -> bool {
    |a: u32, b: u32| a <= b
}

/// The frequencies in ascending order.
pub open spec fn ascending(s: Seq<u32>) -> Seq<u32> {
    s.sort_by(leq_u32())
}

/// The frequencies that could be read, in core order.
pub open spec fn known(freqs: Seq<Option<u32>>) -> Seq<u32>
    decreases freqs.len(),
{
    if freqs.len() == 0 {
        Seq::empty()
    } else {
        match freqs.last() {
            Some(f) => known(freqs.drop_last()).push(f),
            None => known(freqs.drop_last()),
        }
    }
}

/// Index of the prime core: the first whose frequency is the highest.
pub open spec fn is_prime_index(freqs: Seq<Option<u32>>, p: int) -> bool {
    &&& 0 <= p < freqs.len()
    &&& freqs[p] is Some
    &&& forall|i: int| 0 <= i < freqs.len() && freqs[i] is Some ==> freqs[i].unwrap() <= freqs[p].unwrap()
    &&& forall|i: int| 0 <= i < p && freqs[i] is Some ==> freqs[i].unwrap() < freqs[p].unwrap()
}

/// The threshold of the big cores: with more than two known frequencies,
/// the one in the middle of the descending order, which is the upper
/// median of the cores other than the prime one (`lemma_median_of_others`);
/// else zero, which decides the single other core, if any, as its own
/// frequency would.
pub open spec fn median_freq(freqs: Seq<Option<u32>>) -> int {
    let k = known(freqs);
    if k.len() > 2 {
        ascending(k)[k.len() - 1 - k.len() / 2] as int
    } else {
        0
    }
}

/// Core `i` is big: known, not the prime core, at least the median and at
/// least one gigahertz.
pub open spec fn is_big(cores: Seq<usize>, freqs: Seq<Option<u32>>, p: int, i: int) -> bool {
    &&& freqs[i] is Some
    &&& cores[i] != cores[p]
    &&& freqs[i].unwrap() >= median_freq(freqs)
    &&& freqs[i].unwrap() >= BIG_CORE_MIN_KHZ
}

pub open spec fn is_little(cores: Seq<usize>, freqs: Seq<Option<u32>>, p: int, i: int) -> bool {
    &&& freqs[i] is Some
    &&& cores[i] != cores[p]
    &&& !is_big(cores, freqs, p, i)
}

proof fn lemma_set_bit(m: u64, c: u64, d: u64)
    requires
        c < 64,
        d < 64,
    ensures
        ((m | (1u64 << c)) >> d) & 1 == 1 <==> ((m >> d) & 1 == 1 || c == d),
{
    assert(((m | (1u64 << c)) >> d) & 1 == 1 <==> ((m >> d) & 1 == 1 || c == d)) by (bit_vector)
        requires
            c < 64,
            d < 64,
    ;
}

proof fn lemma_zero_bits(d: u64)
    requires
        d < 64,
    ensures
        (0u64 >> d) & 1 != 1,
{
    assert((0u64 >> d) & 1 != 1) by (bit_vector);
}

/// Sets the bit of `c`.
fn with_bit(m: u64, c: usize) -> (r: u64)
    requires
        c < 64,
    ensures
        forall|d: int| 0 <= d < 64 ==> (has_bit(r, d) <==> (has_bit(m, d) || d == c)),
{
    let r = m | (1u64 << (c as u64));
    proof {
        assert forall|d: int| 0 <= d < 64 implies (has_bit(r, d) <==> (has_bit(m, d) || d == c)) by {
            lemma_set_bit(m, c as u64, d as u64);
        }
    }
    r
}

proof fn lemma_known_push(freqs: Seq<Option<u32>>, i: int)
    requires
        0 <= i < freqs.len(),
    ensures
        known(freqs.take(i + 1)) == match freqs[i] {
            Some(f) => known(freqs.take(i)).push(f),
            None => known(freqs.take(i)),
        },
{
    assert(freqs.take(i + 1).drop_last() =~= freqs.take(i));
}

fn known_freqs(freqs: &Vec<Option<u32>>) -> (r: Vec<u32>)
    ensures
        r@ == known(freqs@),
{
    let mut r: Vec<u32> = Vec::new();
    let mut i: usize = 0;
    while i < freqs.len()
        invariant
            i <= freqs@.len(),
            r@ == known(freqs@.take(i as int)),
        decreases freqs.len() - i,
    {
        proof {
            lemma_known_push(freqs@, i as int);
        }
        match freqs[i] {
            Some(f) => r.push(f),
            None => {},
        }
        i = i + 1;
    }
    proof {
        assert(freqs@.take(freqs@.len() as int) =~= freqs@);
    }
    r
}

proof fn lemma_ascending(s: Seq<u32>, t: Seq<u32>)
    requires
        sorted(t),
        t.to_multiset() == s.to_multiset(),
    ensures
        ascending(s) == t,
{
    let leq = leq_u32();
    assert(total_ordering(leq)) by {
        assert(vstd::relations::reflexive(leq));
        assert(vstd::relations::antisymmetric(leq));
        assert(vstd::relations::transitive(leq));
        assert(vstd::relations::strongly_connected(leq));
    }
    s.lemma_sort_by_ensures(leq);
    assert(sorted_by(t, leq));
    vstd::seq_lib::lemma_sorted_unique(ascending(s), t, leq);
}

} // verus!

verus! {

/// Splits the cores into little, big and prime masks from their highest
/// frequencies (`None`: unreadable). The prime core is the first of the
/// highest frequency; the others are big when at least the median and at
/// least one gigahertz, else little. With no readable frequency the
/// topology is unknown and there is no split.
pub fn classify_cores(cores: &Vec<usize>, max_freqs: &Vec<Option<u32>>) -> (r: Option<(u64, u64, u64)>)
    requires
        cores@.len() == max_freqs@.len(),
        forall|i: int| 0 <= i < cores@.len() ==> cores@[i] < 64,
    ensures
        r is None <==> known(max_freqs@).len() == 0,
        r matches Some((little, big, prime)) ==> exists|p: int|
            {
                &&& is_prime_index(max_freqs@, p)
                &&& forall|d: int| 0 <= d < 64 ==> (has_bit(prime, d) <==> d == cores@[p])
                &&& forall|d: int|
                    0 <= d < 64 ==> (has_bit(big, d) <==> exists|i: int|
                        0 <= i < cores@.len() && is_big(cores@, max_freqs@, p, i) && cores@[i] == d)
                &&& forall|d: int|
                    0 <= d < 64 ==> (has_bit(little, d) <==> exists|i: int|
                        0 <= i < cores@.len() && is_little(cores@, max_freqs@, p, i) && cores@[i] == d)
            },
{
    let n = cores.len();
    let mut best: Option<usize> = None;
    let mut i: usize = 0;
    while i < n
        invariant
            n == cores@.len(),
            n == max_freqs@.len(),
            i <= n,
            match best {
                Some(p) => p < i && max_freqs@[p as int] is Some && (forall|j: int|
                    0 <= j < i && max_freqs@[j] is Some ==> max_freqs@[j].unwrap() <= max_freqs@[p as int].unwrap())
                    && (forall|j: int|
                    0 <= j < p && max_freqs@[j] is Some ==> max_freqs@[j].unwrap() < max_freqs@[p as int].unwrap()),
                None => forall|j: int| 0 <= j < i ==> max_freqs@[j] is None,
            },
        decreases n - i,
    {
        match max_freqs[i] {
            Some(f) => {
                match best {
                    Some(p) => {
                        let bf = match max_freqs[p] {
                            Some(b) => b,
                            None => 0,
                        };
                        if f > bf {
                            best = Some(i);
                        }
                    },
                    None => {
                        best = Some(i);
                    },
                }
            },
            None => {},
        }
        i = i + 1;
    }
    let p = match best {
        Some(p) => p,
        None => {
            proof {
                assert forall|m: int| 0 <= m <= n implies known(max_freqs@.take(m)).len() == 0 by {
                    lemma_known_empty(max_freqs@, m);
                }
                assert(max_freqs@.take(n as int) =~= max_freqs@);
            }
            return None;
        },
    };
    let ks = known_freqs(max_freqs);
    let kn = ks.len();
    let med: u32 = if kn > 2 {
        let mut s = ks.clone();
        proof {
            assert(s@ =~= ks@);
        }
        sort_ascending(&mut s);
        proof {
            lemma_ascending(ks@, s@);
        }
        s[kn - 1 - kn / 2]
    } else {
        0
    };
    let prime_core = cores[p];
    let prime = with_bit(0, prime_core);
    let mut big: u64 = 0;
    let mut little: u64 = 0;
    let mut j: usize = 0;
    proof {
        assert forall|d: int| 0 <= d < 64 implies !has_bit(0, d) by {
            lemma_zero_bits(d as u64);
        }
    }
    while j < n
        invariant
            n == cores@.len(),
            n == max_freqs@.len(),
            j <= n,
            p < n,
            prime_core == cores@[p as int],
            med == median_freq(max_freqs@),
            forall|i: int| 0 <= i < cores@.len() ==> cores@[i] < 64,
            forall|d: int|
                0 <= d < 64 ==> (has_bit(big, d) <==> exists|i: int|
                    0 <= i < j && is_big(cores@, max_freqs@, p as int, i) && cores@[i] == d),
            forall|d: int|
                0 <= d < 64 ==> (has_bit(little, d) <==> exists|i: int|
                    0 <= i < j && is_little(cores@, max_freqs@, p as int, i) && cores@[i] == d),
        decreases n - j,
    {
        match max_freqs[j] {
            Some(f) => {
                if cores[j] != prime_core {
                    if f >= med && f >= BIG_CORE_MIN_KHZ {
                        big = with_bit(big, cores[j]);
                    } else {
                        little = with_bit(little, cores[j]);
                    }
                }
            },
            None => {},
        }
        proof {
            assert forall|d: int|
                0 <= d < 64 implies (has_bit(big, d) <==> exists|i: int|
                    0 <= i < j + 1 && is_big(cores@, max_freqs@, p as int, i) && cores@[i] == d) by {
                if exists|i: int| 0 <= i < j + 1 && is_big(cores@, max_freqs@, p as int, i) && cores@[i] == d {
                    let i = choose|i: int| 0 <= i < j + 1 && is_big(cores@, max_freqs@, p as int, i) && cores@[i] == d;
                    if i < j {
                    }
                }
            }
            assert forall|d: int|
                0 <= d < 64 implies (has_bit(little, d) <==> exists|i: int|
                    0 <= i < j + 1 && is_little(cores@, max_freqs@, p as int, i) && cores@[i] == d) by {
                if exists|i: int| 0 <= i < j + 1 && is_little(cores@, max_freqs@, p as int, i) && cores@[i] == d {
                    let i = choose|i: int| 0 <= i < j + 1 && is_little(cores@, max_freqs@, p as int, i) && cores@[i] == d;
                    if i < j {
                    }
                }
            }
        }
        j = j + 1;
    }
    proof {
        assert(is_prime_index(max_freqs@, p as int));
        lemma_known_nonempty(max_freqs@, p as int);
    }
    Some((little, big, prime))
}

proof fn lemma_known_empty(freqs: Seq<Option<u32>>, m: int)
    requires
        0 <= m <= freqs.len(),
        forall|j: int| 0 <= j < freqs.len() ==> freqs[j] is None,
    ensures
        known(freqs.take(m)).len() == 0,
    decreases m,
{
    if m > 0 {
        lemma_known_empty(freqs, m - 1);
        lemma_known_push(freqs, m - 1);
    }
}

proof fn lemma_known_nonempty(freqs: Seq<Option<u32>>, p: int)
    requires
        0 <= p < freqs.len(),
        freqs[p] is Some,
    ensures
        known(freqs).len() > 0,
    decreases freqs.len(),
{
    if p < freqs.len() - 1 {
        lemma_known_nonempty(freqs.drop_last(), p);
    }
}

/// The affinity mask of a profile from the split of the cores (`None`:
/// the topology could not be read): performance and unknown names get the
/// big and prime cores, balance the big ones, powersave the little ones.
/// Without a topology every core is allowed.
pub fn get_affinity_mask_for_profile(profile: &str, classes: Option<(u64, u64, u64)>) -> (r: u64)
    ensures
        match classes {
            None => r == ALL_CORES,
            Some((little, big, prime)) => if profile@ == "balance"@ {
                r == big
            } else if profile@ == "powersave"@ {
                r == little
            } else {
                r == big | prime
            },
        },
{
    match classes {
        None => ALL_CORES,
        Some((little, big, prime)) => if crate::text::same_text(profile, "balance") {
            big
        } else if crate::text::same_text(profile, "powersave") {
            little
        } else {
            big | prime
        },
    }
}

} // verus!

verus! {

/// The cores `a` to `b`, both included.
pub open spec fn core_range(a: usize, b: usize) -> Seq<usize> {
    Seq::new(if a <= b { (b - a + 1) as nat } else { 0 }, |i: int| (a + i) as usize)
}

/// The cores one entry of the online list names: `n`, or `a-b`.
pub open spec fn entry_cores(p: Seq<char>) -> Seq<usize> {
    if p.contains('-') {
        let parts = pieces(p, '-');
        if parts.len() == 2 {
            match (parse_usize_spec(parts[0]), parse_usize_spec(parts[1])) {
                (Some(a), Some(b)) => core_range(a, b),
                _ => Seq::empty(),
            }
        } else {
            Seq::empty()
        }
    } else {
        match parse_usize_spec(p) {
            Some(c) => seq![c],
            None => Seq::empty(),
        }
    }
}

/// The cores of a list of entries, in order.
pub open spec fn entries_cores(ps: Seq<Seq<char>>) -> Seq<usize>
    decreases ps.len(),
{
    if ps.len() == 0 {
        Seq::empty()
    } else {
        entries_cores(ps.drop_last()) + entry_cores(ps.last())
    }
}

/// The cores an online list such as `0-3,5` names; malformed entries are
/// skipped.
pub open spec fn online_cores(s: Seq<char>) -> Seq<usize> {
    entries_cores(pieces(trimmed(s), ','))
}

fn push_range(out: &mut Vec<usize>, a: usize, b: usize)
    ensures
        final(out)@ == old(out)@ + core_range(a, b),
{
    if a > b {
        proof {
            assert(core_range(a, b) =~= Seq::<usize>::empty());
            assert(old(out)@ + core_range(a, b) =~= old(out)@);
        }
        return;
    }
    let mut c: usize = a;
    loop
        invariant
            a <= c <= b,
            out@ == old(out)@ + core_range(a, b).take(c - a),
        decreases b - c,
    {
        let ghost before = out@;
        out.push(c);
        proof {
            assert(core_range(a, b).take(c - a + 1) =~= core_range(a, b).take(c - a).push(c));
        }
        if c == b {
            proof {
                assert(core_range(a, b).take(c - a + 1) =~= core_range(a, b));
            }
            return;
        }
        c = c + 1;
    }
}

fn entry_into(out: &mut Vec<usize>, p: &str)
    ensures
        final(out)@ == old(out)@ + entry_cores(p@),
{
    let parts = split_on(p, '-');
    proof {
        assert(views(parts@).len() == parts@.len());
    }
    if parts.len() >= 2 {
        proof {
            lemma_pieces_has_sep(p@, '-');
        }
        if parts.len() == 2 {
            proof {
                assert(views(parts@)[0] == parts@[0]@);
                assert(views(parts@)[1] == parts@[1]@);
            }
            match (parse_usize(parts[0].as_str()), parse_usize(parts[1].as_str())) {
                (Some(a), Some(b)) => push_range(out, a, b),
                _ => {
                    proof {
                        assert(old(out)@ + Seq::<usize>::empty() =~= old(out)@);
                    }
                },
            }
        } else {
            proof {
                assert(old(out)@ + Seq::<usize>::empty() =~= old(out)@);
            }
        }
    } else {
        proof {
            lemma_pieces_no_sep(p@, '-');
        }
        match parse_usize(p) {
            Some(c) => {
                out.push(c);
                proof {
                    assert(final(out)@ =~= old(out)@ + seq![c]);
                }
            },
            None => {
                proof {
                    assert(old(out)@ + Seq::<usize>::empty() =~= old(out)@);
                }
            },
        }
    }
}

proof fn lemma_piece_state_len(s: Seq<char>, sep: char)
    ensures
        piece_state(s, sep).0.len() == 0 <==> !s.contains(sep),
    decreases s.len(),
{
    if s.len() > 0 {
        lemma_piece_state_len(s.drop_last(), sep);
        if s.drop_last().contains(sep) {
            let i = choose|i: int| 0 <= i < s.drop_last().len() && s.drop_last()[i] == sep;
            assert(s[i] == sep);
        }
        if s.contains(sep) && s.last() != sep {
            let i = choose|i: int| 0 <= i < s.len() && s[i] == sep;
            assert(s.drop_last()[i] == sep);
        }
        if s.last() == sep {
            assert(s[s.len() - 1] == sep);
        }
    }
}

proof fn lemma_pieces_has_sep(s: Seq<char>, sep: char)
    requires
        pieces(s, sep).len() >= 2,
    ensures
        s.contains(sep),
{
    lemma_piece_state_len(s, sep);
}

proof fn lemma_pieces_no_sep(s: Seq<char>, sep: char)
    requires
        pieces(s, sep).len() < 2,
    ensures
        !s.contains(sep),
        pieces(s, sep) == seq![s],
{
    lemma_piece_state_len(s, sep);
    lemma_piece_state_rest(s, sep);
}

proof fn lemma_piece_state_rest(s: Seq<char>, sep: char)
    requires
        !s.contains(sep),
    ensures
        piece_state(s, sep).1 == s,
    decreases s.len(),
{
    if s.len() > 0 {
        assert(!s.drop_last().contains(sep)) by {
            if s.drop_last().contains(sep) {
                let i = choose|i: int| 0 <= i < s.drop_last().len() && s.drop_last()[i] == sep;
                assert(s[i] == sep);
            }
        }
        lemma_piece_state_rest(s.drop_last(), sep);
        assert(s[s.len() - 1] != sep);
        assert(s.drop_last().push(s.last()) =~= s);
    }
}

/// The cores named by the kernel's online list, such as `0-3,5`:
/// entries are single cores or ranges; malformed ones are skipped.
pub fn parse_online_cores(s: &str) -> (r: Vec<usize>)
    ensures
        r@ == online_cores(s@),
{
    let t = trim(s);
    let entries = split_on(t, ',');
    let ghost ps = views(entries@);
    let mut out: Vec<usize> = Vec::new();
    let mut i: usize = 0;
    while i < entries.len()
        invariant
            i <= entries@.len(),
            ps == views(entries@),
            ps == pieces(t@, ','),
            ps.len() == entries@.len(),
            out@ == entries_cores(ps.take(i as int)),
        decreases entries.len() - i,
    {
        proof {
            assert(ps.take(i as int + 1).drop_last() =~= ps.take(i as int));
            assert(ps[i as int] == entries@[i as int]@);
        }
        entry_into(&mut out, entries[i].as_str());
        i = i + 1;
    }
    proof {
        assert(ps.take(ps.len() as int) =~= ps);
    }
    out
}

} // verus!

verus! {

/// The upper median of a non-empty set of frequencies.
pub open spec fn upper_median(s: Seq<u32>) -> u32 {
    ascending(s)[s.len() - 1 - (s.len() - 1) / 2]
}

proof fn lemma_ascending_facts(s: Seq<u32>)
    ensures
        sorted(ascending(s)),
        ascending(s).to_multiset() == s.to_multiset(),
        ascending(s).len() == s.len(),
{
    let leq = leq_u32();
    assert(total_ordering(leq)) by {
        assert(vstd::relations::reflexive(leq));
        assert(vstd::relations::antisymmetric(leq));
        assert(vstd::relations::transitive(leq));
        assert(vstd::relations::strongly_connected(leq));
    }
    s.lemma_sort_by_ensures(leq);
    let a = ascending(s);
    assert(sorted(a)) by {
        assert forall|i: int, j: int| 0 <= i <= j < a.len() implies a[i] <= a[j] by {
            if i < j {
                assert(leq(a[i], a[j]));
            }
        }
    }
    s.to_multiset_ensures();
    a.to_multiset_ensures();
}

/// The threshold of the big cores is the upper median of the frequencies
/// of the cores other than the prime one: with more than two known
/// frequencies, the middle of the descending order of all of them is the
/// upper median of all but one highest.
pub proof fn lemma_median_of_others(k: Seq<u32>, q: int)
    requires
        k.len() > 2,
        0 <= q < k.len(),
        forall|i: int| 0 <= i < k.len() ==> k[i] <= k[q],
    ensures
        ascending(k)[k.len() - 1 - k.len() / 2] == upper_median(k.remove(q)),
{
    let rest = k.remove(q);
    let r = ascending(rest);
    lemma_ascending_facts(rest);
    lemma_ascending_facts(k);
    let t = r.push(k[q]);
    rest.to_multiset_ensures();
    r.to_multiset_ensures();
    k.to_multiset_ensures();
    assert forall|i: int| 0 <= i < r.len() implies r[i] <= k[q] by {
        assert(r.to_multiset().count(r[i]) > 0);
        assert(rest.contains(r[i]));
        let j = choose|j: int| 0 <= j < rest.len() && rest[j] == r[i];
        if j < q {
            assert(rest[j] == k[j]);
        } else {
            assert(rest[j] == k[j + 1]);
        }
    }
    assert(sorted(t)) by {
        assert forall|i: int, j: int| 0 <= i <= j < t.len() implies t[i] <= t[j] by {
            if j < r.len() {
                assert(t[i] == r[i] && t[j] == r[j]);
            } else if i < r.len() {
                assert(t[i] == r[i]);
            }
        }
    }
    assert(t.to_multiset() == k.to_multiset()) by {
        assert(t.to_multiset() =~= r.to_multiset().insert(k[q]));
        assert(rest.to_multiset() =~= k.to_multiset().remove(k[q]));
        assert(k.to_multiset().count(k[q]) > 0) by {
            assert(k.contains(k[q]));
        }
    }
    lemma_ascending(k, t);
    let m = rest.len();
    assert(m == k.len() - 1);
    assert(k.len() - 1 - k.len() / 2 == m - 1 - (m - 1) / 2);
    assert(t[m - 1 - (m - 1) / 2] == r[m - 1 - (m - 1) / 2]);
}

} // verus!
