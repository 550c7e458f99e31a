//! The periodic state-sync tick's own state: which sink each stream was
//! last seen on, and the last volume written per virtual node.
use vstd::prelude::*;

use crate::audio::persistence::{
    get, id_lookup, id_pairs_view, insert_key, kv_view, pairs_map, sink_inputs_view,
    SinkInput, SinkInputView, drop_key,
};
use crate::text::string_of_str;

verus! {

/// State kept between ticks.
pub struct StateSyncState {
    /// Sink-input id -> the sink it was last seen on.
    pub stream_sinks: Vec<(u32, String)>,
    /// Node name -> the volume last written for it.
    pub last_saved_volumes: Vec<(String, u32)>,
}

/// The streams whose sink is known, each with that sink's name.
pub open spec fn stream_sinks_spec(inputs: Seq<SinkInputView>, sinks: Seq<(u32, Seq<char>)>) -> Seq<(u32, Seq<char>)> {
    crate::text::filter_map(
        inputs,
        |i: SinkInputView|
            match id_lookup(sinks, i.1) {
                Some(n) => Some((i.0, n)),
                None => None,
            },
    )
}

fn find_sink(v: &Vec<(u32, String)>, id: u32) -> (r: Option<String>)
    ensures
        match r {
            Some(x) => id_lookup(id_pairs_view(v@), id) == Some(x@),
            None => id_lookup(id_pairs_view(v@), id) is None,
        },
{
    let ghost l = id_pairs_view(v@);
    let mut i: usize = v.len();
    assert(l.take(i as int) =~= l);
    while i > 0
        invariant
            i <= v.len(),
            l == id_pairs_view(v@),
            id_lookup(l, id) == id_lookup(l.take(i as int), id),
        decreases i,
    {
        assert(l.take(i as int).drop_last() =~= l.take(i - 1));
        assert(l.take(i as int).last() == (v@[i - 1].0, v@[i - 1].1@));
        if v[i - 1].0 == id {
            return Some(v[i - 1].1.clone());
        }
        i = i - 1;
    }
    None
}

impl StateSyncState {
    /// Seed from the streams now playing, the sinks they play on, and the
    /// volumes saved on disk.
    pub fn new_seeded(inputs: &Vec<SinkInput>, sinks_by_id: &Vec<(u32, String)>, saved_volumes: Vec<(String, u32)>) -> (r: StateSyncState)
        ensures
            id_pairs_view(r.stream_sinks@) == stream_sinks_spec(sink_inputs_view(inputs@), id_pairs_view(sinks_by_id@)),
            r.last_saved_volumes@ == saved_volumes@,
    {
        let ghost iv = sink_inputs_view(inputs@);
        let ghost kv = id_pairs_view(sinks_by_id@);
        let ghost f = |i: SinkInputView|
            match id_lookup(kv, i.1) {
                Some(n) => Some((i.0, n)),
                None => None,
            };
        let mut stream_sinks: Vec<(u32, String)> = Vec::new();
        let mut k: usize = 0;
        assert(id_pairs_view(stream_sinks@) =~= crate::text::filter_map(iv.take(0), f));
        while k < inputs.len()
            invariant
                k <= inputs.len(),
                iv == sink_inputs_view(inputs@),
                kv == id_pairs_view(sinks_by_id@),
                f == (|i: SinkInputView|
                    match id_lookup(kv, i.1) {
                        Some(n) => Some((i.0, n)),
                        None => None,
                    }),
                id_pairs_view(stream_sinks@) == crate::text::filter_map(iv.take(k as int), f),
            decreases inputs.len() - k,
        {
            proof {
                crate::text::lemma_filter_map_step(iv, f, k as int);
            }
            let ghost before = id_pairs_view(stream_sinks@);
            match find_sink(sinks_by_id, inputs[k].sink_id) {
                Some(n) => {
                    let ghost nv = n@;
                    stream_sinks.push((inputs[k].id, n));
                    assert(id_pairs_view(stream_sinks@) =~= before.push((inputs@[k as int].id, nv)));
                },
                None => {},
            }
            k = k + 1;
        }
        assert(iv.take(inputs.len() as int) =~= iv);
        StateSyncState { stream_sinks, last_saved_volumes: saved_volumes }
    }
}

/// One reading: when the node's volume was read and differs from the one
/// last written, it is written and remembered.
pub open spec fn capture_step(
    st: (Seq<(Seq<char>, u32)>, Seq<(Seq<char>, u32)>),
    name: Seq<char>,
    reading: Option<u32>,
) -> (Seq<(Seq<char>, u32)>, Seq<(Seq<char>, u32)>) {
    match reading {
        Some(v) => if get(st.0, name) == Some(v) {
            st
        } else {
            (drop_key(st.0, name).push((name, v)), st.1.push((name, v)))
        },
        None => st,
    }
}

/// The Music and Aux sinks, then the mic source.
pub open spec fn capture_spec(last: Seq<(Seq<char>, u32)>, music: Option<u32>, aux: Option<u32>, mic: Option<u32>) -> (Seq<(Seq<char>, u32)>, Seq<(Seq<char>, u32)>) {
    let s1 = capture_step((last, seq![]), "SteelSeries_Music"@, music);
    let s2 = capture_step(s1, "SteelSeries_Aux"@, aux);
    capture_step(s2, "SteelSeries_Mic"@, mic)
}

fn find_volume(v: &Vec<(String, u32)>, k: &String) -> (r: Option<u32>)
    ensures
        r == get(kv_view(v@), k@),
{
    let ghost l = kv_view(v@);
    let mut i: usize = v.len();
    assert(l.take(i as int) =~= l);
    while i > 0
        invariant
            i <= v.len(),
            l == kv_view(v@),
            get(l, k@) == get(l.take(i as int), k@),
        decreases i,
    {
        let ghost t = l.take(i as int);
        assert(t.drop_last() =~= l.take(i - 1));
        assert(t.last() == (v@[i - 1].0@, v@[i - 1].1));
        if v[i - 1].0 == *k {
            return Some(v[i - 1].1);
        }
        i = i - 1;
    }
    assert(pairs_map(l.take(0)) == Map::<Seq<char>, u32>::empty());
    None
}

fn capture_one(last: &mut Vec<(String, u32)>, writes: &mut Vec<(String, u32)>, name: &str, reading: Option<u32>)
    ensures
        (kv_view(final(last)@), kv_view(final(writes)@)) == capture_step(
            (kv_view(old(last)@), kv_view(old(writes)@)),
            name@,
            reading,
        ),
{
    match reading {
        Some(v) => {
            let key = string_of_str(name);
            if find_volume(last, &key) != Some(v) {
                let ghost before = kv_view(writes@);
                insert_key(last, key, v);
                writes.push((string_of_str(name), v));
                assert(kv_view(writes@) =~= before.push((name@, v)));
            }
        },
        None => {},
    }
}

/// Decide which virtual-node volumes to write this tick: each reading that
/// differs from the last one written for its node. Returns the (node,
/// volume) writes in order and remembers them in `last_saved`.
pub fn capture_virtual_volumes(
    last_saved: &mut Vec<(String, u32)>,
    music: Option<u32>,
    aux: Option<u32>,
    mic: Option<u32>,
) -> (writes: Vec<(String, u32)>)
    ensures
        (kv_view(final(last_saved)@), kv_view(writes@)) == capture_spec(kv_view(old(last_saved)@), music, aux, mic),
{
    let mut writes: Vec<(String, u32)> = Vec::new();
    assert(kv_view(writes@) =~= Seq::<(Seq<char>, u32)>::empty());
    capture_one(last_saved, &mut writes, "SteelSeries_Music", music);
    capture_one(last_saved, &mut writes, "SteelSeries_Aux", aux);
    capture_one(last_saved, &mut writes, "SteelSeries_Mic", mic);
    writes
}


/// A tick whose readings all match the volumes last written writes nothing
/// and leaves the remembered volumes alone.
pub proof fn law_unchanged_volumes_write_nothing(
    last: Seq<(Seq<char>, u32)>,
    music: Option<u32>,
    aux: Option<u32>,
    mic: Option<u32>,
)
    requires
        music matches Some(v) ==> get(last, "SteelSeries_Music"@) == Some(v),
        aux matches Some(v) ==> get(last, "SteelSeries_Aux"@) == Some(v),
        mic matches Some(v) ==> get(last, "SteelSeries_Mic"@) == Some(v),
    ensures
        capture_spec(last, music, aux, mic) == (last, Seq::<(Seq<char>, u32)>::empty()),
{
}

} // verus!
