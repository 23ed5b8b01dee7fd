//! The performance leaderboard: which benchmark leads in throughput, p99
//! latency and memory per actor, and the text that announces them.

use crate::text::{decimal, push_decimal, push_decimal_u128};
use vstd::prelude::*;

verus! {

/// The latest result of one benchmark, as the leaderboard reads it.
pub struct LeaderEntry {
    pub name: String,
    pub messages_per_second: u64,
    /// p99 latency in whole nanoseconds: it ranks latency, and the text
    /// shows it in whole microseconds.
    pub p99_nanos: u128,
    pub bytes_per_actor: usize,
}

/// Position of the last greatest key: later entries win ties.
pub open spec fn last_max_index(keys: Seq<int>) -> int
    decreases keys.len(),
{
    if keys.len() <= 1 {
        0
    } else {
        let k = last_max_index(keys.drop_last());
        if keys.last() >= keys[k] {
            keys.len() - 1
        } else {
            k
        }
    }
}

/// Position of the first least key: earlier entries win ties.
pub open spec fn first_min_index(keys: Seq<int>) -> int
    decreases keys.len(),
{
    if keys.len() <= 1 {
        0
    } else {
        let k = first_min_index(keys.drop_last());
        if keys.last() < keys[k] {
            keys.len() - 1
        } else {
            k
        }
    }
}

pub open spec fn throughput_keys(es: Seq<LeaderEntry>) -> Seq<int> {
    es.map_values(|e: LeaderEntry| e.messages_per_second as int)
}

pub open spec fn latency_keys(es: Seq<LeaderEntry>) -> Seq<int> {
    es.map_values(|e: LeaderEntry| e.p99_nanos as int)
}

pub open spec fn memory_keys(es: Seq<LeaderEntry>) -> Seq<int> {
    es.map_values(|e: LeaderEntry| e.bytes_per_actor as int)
}

/// The leaderboard text for the latest results `es`, listed by benchmark name.
pub open spec fn leaderboard_spec(es: Seq<LeaderEntry>) -> Seq<char> {
    let header = "🏆 Performance Leaderboard\n=======================\n\n"@;
    if es.len() == 0 {
        header
    } else {
        let t = es[last_max_index(throughput_keys(es))];
        let l = es[first_min_index(latency_keys(es))];
        let m = es[first_min_index(memory_keys(es))];
        header + "🥇 Highest Throughput: "@ + t.name@ + " ("@ + decimal(t.messages_per_second as nat) + " msg/s)\n"@
            + "🥈 Best Latency: "@ + l.name@ + " (p99: "@ + decimal((l.p99_nanos / 1000) as nat) + "µs)\n"@
            + "🥉 Most Memory Efficient: "@ + m.name@ + " ("@ + decimal(m.bytes_per_actor as nat) + " bytes/actor)\n"@
    }
}

/// The positions of the throughput, latency and memory leaders among `es`.
fn leaders(es: &Vec<LeaderEntry>) -> (r: (usize, usize, usize))
    requires
        es@.len() > 0,
    ensures
        r.0 == last_max_index(throughput_keys(es@)),
        r.1 == first_min_index(latency_keys(es@)),
        r.2 == first_min_index(memory_keys(es@)),
        r.0 < es@.len() && r.1 < es@.len() && r.2 < es@.len(),
{
    let ghost s = es@;
    let mut t: usize = 0;
    let mut l: usize = 0;
    let mut m: usize = 0;
    let mut i: usize = 1;
    proof {
        assert(throughput_keys(s).take(1).len() == 1);
    }
    while i < es.len()
        invariant
            s == es@,
            1 <= i <= s.len(),
            t < i && l < i && m < i,
            t == last_max_index(throughput_keys(s).take(i as int)),
            l == first_min_index(latency_keys(s).take(i as int)),
            m == first_min_index(memory_keys(s).take(i as int)),
        decreases s.len() - i,
    {
        proof {
            assert(throughput_keys(s).take(i + 1).drop_last() =~= throughput_keys(s).take(i as int));
            assert(latency_keys(s).take(i + 1).drop_last() =~= latency_keys(s).take(i as int));
            assert(memory_keys(s).take(i + 1).drop_last() =~= memory_keys(s).take(i as int));
        }
        if es[i].messages_per_second >= es[t].messages_per_second {
            t = i;
        }
        if es[i].p99_nanos < es[l].p99_nanos {
            l = i;
        }
        if es[i].bytes_per_actor < es[m].bytes_per_actor {
            m = i;
        }
        i = i + 1;
    }
    proof {
        assert(throughput_keys(s).take(i as int) =~= throughput_keys(s));
        assert(latency_keys(s).take(i as int) =~= latency_keys(s));
        assert(memory_keys(s).take(i as int) =~= memory_keys(s));
    }
    (t, l, m)
}

/// The leaderboard text: a header, then, when there are results, the
/// benchmark with the highest throughput (the last one on a tie), the one
/// with the lowest p99 latency and the one with the fewest bytes per actor
/// (the first one on a tie).
pub fn leaderboard_text(latest: &Vec<LeaderEntry>) -> (r: String)
    ensures
        r@ == leaderboard_spec(latest@),
{
    let mut out = String::from_str("🏆 Performance Leaderboard\n=======================\n\n");
    if latest.len() == 0 {
        return out;
    }
    let (ti, li, mi) = leaders(latest);
    let t = &latest[ti];
    let l = &latest[li];
    let m = &latest[mi];
    out.append("🥇 Highest Throughput: ");
    out.append(t.name.as_str());
    out.append(" (");
    push_decimal(&mut out, t.messages_per_second);
    out.append(" msg/s)\n");
    out.append("🥈 Best Latency: ");
    out.append(l.name.as_str());
    out.append(" (p99: ");
    push_decimal_u128(&mut out, l.p99_nanos / 1000);
    out.append("µs)\n");
    out.append("🥉 Most Memory Efficient: ");
    out.append(m.name.as_str());
    out.append(" (");
    push_decimal(&mut out, m.bytes_per_actor as u64);
    out.append(" bytes/actor)\n");
    out
}

/// The first position holds the least key, and no earlier key is as small.
proof fn lemma_first_min_index(keys: Seq<int>)
    requires
        keys.len() > 0,
    ensures
        0 <= first_min_index(keys) < keys.len(),
        forall|j: int| 0 <= j < keys.len() ==> keys[first_min_index(keys)] <= #[trigger] keys[j],
        forall|j: int| 0 <= j < first_min_index(keys) ==> #[trigger] keys[j] > keys[first_min_index(keys)],
    decreases keys.len(),
{
    if keys.len() > 1 {
        let p = keys.drop_last();
        let n = keys.len() - 1;
        lemma_first_min_index(p);
        let k0 = first_min_index(p);
        let k = first_min_index(keys);
        assert(keys.last() == keys[n]);
        assert(p[k0] == keys[k0]);
        assert forall|j: int| 0 <= j < keys.len() implies keys[k] <= #[trigger] keys[j] && (j < k ==> keys[j] > keys[k]) by {
            if j < n {
                assert(p[j] == keys[j]);
                assert(p[k0] <= p[j]);
                if j < k0 {
                    assert(p[j] > p[k0]);
                }
            }
        }
    }
}

/// The last position holds the greatest key, and no later key is as great.
proof fn lemma_last_max_index(keys: Seq<int>)
    requires
        keys.len() > 0,
    ensures
        0 <= last_max_index(keys) < keys.len(),
        forall|j: int| 0 <= j < keys.len() ==> #[trigger] keys[j] <= keys[last_max_index(keys)],
        forall|j: int| last_max_index(keys) < j < keys.len() ==> #[trigger] keys[j] < keys[last_max_index(keys)],
    decreases keys.len(),
{
    if keys.len() > 1 {
        let p = keys.drop_last();
        let n = keys.len() - 1;
        lemma_last_max_index(p);
        let k0 = last_max_index(p);
        let k = last_max_index(keys);
        assert(keys.last() == keys[n]);
        assert(p[k0] == keys[k0]);
        assert forall|j: int| 0 <= j < keys.len() implies #[trigger] keys[j] <= keys[k] && (k < j ==> keys[j] < keys[k]) by {
            if j < n {
                assert(p[j] == keys[j]);
                assert(p[j] <= p[k0]);
                if k0 < j {
                    assert(p[j] < p[k0]);
                }
            }
        }
    }
}

/// The leaderboard names, on its three lines, an entry with the highest
/// throughput (the last of several), one with the lowest p99 latency and one
/// with the fewest bytes per actor (the first of several each), each line
/// chosen by its own measure alone; without results it is the header alone.
pub proof fn lemma_leaderboard_names_leaders(es: Seq<LeaderEntry>)
    ensures
        es.len() == 0 ==> leaderboard_spec(es) == "🏆 Performance Leaderboard\n=======================\n\n"@,
        es.len() > 0 ==> ({
            let t = last_max_index(throughput_keys(es));
            let l = first_min_index(latency_keys(es));
            let m = first_min_index(memory_keys(es));
            &&& 0 <= t < es.len() && 0 <= l < es.len() && 0 <= m < es.len()
            &&& forall|j: int| 0 <= j < es.len() ==> (#[trigger] es[j]).messages_per_second <= es[t].messages_per_second
            &&& forall|j: int| t < j < es.len() ==> (#[trigger] es[j]).messages_per_second < es[t].messages_per_second
            &&& forall|j: int| 0 <= j < es.len() ==> es[l].p99_nanos <= (#[trigger] es[j]).p99_nanos
            &&& forall|j: int| 0 <= j < l ==> (#[trigger] es[j]).p99_nanos > es[l].p99_nanos
            &&& forall|j: int| 0 <= j < es.len() ==> es[m].bytes_per_actor <= (#[trigger] es[j]).bytes_per_actor
            &&& forall|j: int| 0 <= j < m ==> (#[trigger] es[j]).bytes_per_actor > es[m].bytes_per_actor
            &&& leaderboard_spec(es) == "🏆 Performance Leaderboard\n=======================\n\n"@
                + "🥇 Highest Throughput: "@ + es[t].name@ + " ("@ + decimal(es[t].messages_per_second as nat) + " msg/s)\n"@
                + "🥈 Best Latency: "@ + es[l].name@ + " (p99: "@ + decimal((es[l].p99_nanos / 1000) as nat) + "µs)\n"@
                + "🥉 Most Memory Efficient: "@ + es[m].name@ + " ("@ + decimal(es[m].bytes_per_actor as nat) + " bytes/actor)\n"@
        }),
{
    if es.len() > 0 {
        lemma_last_max_index(throughput_keys(es));
        lemma_first_min_index(latency_keys(es));
        lemma_first_min_index(memory_keys(es));
        let t = last_max_index(throughput_keys(es));
        let l = first_min_index(latency_keys(es));
        let m = first_min_index(memory_keys(es));
        assert forall|j: int| 0 <= j < es.len() implies (#[trigger] es[j]).messages_per_second <= es[t].messages_per_second
            && (t < j ==> es[j].messages_per_second < es[t].messages_per_second)
            && es[l].p99_nanos <= es[j].p99_nanos && (j < l ==> es[j].p99_nanos > es[l].p99_nanos)
            && es[m].bytes_per_actor <= es[j].bytes_per_actor && (j < m ==> es[j].bytes_per_actor > es[m].bytes_per_actor) by {
            assert(throughput_keys(es)[j] == es[j].messages_per_second as int);
            assert(latency_keys(es)[j] == es[j].p99_nanos as int);
            assert(memory_keys(es)[j] == es[j].bytes_per_actor as int);
        }
    }
}

} // verus!
