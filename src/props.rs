//! The property map of one stream, and the snapshot of all streams.
use vstd::prelude::*;
use crate::assoc::{
    assoc_map, keys_unique, lemma_assoc_dom, lemma_assoc_index, lemma_assoc_push,
    lemma_assoc_update,
};

verus! {

/// The named properties of one stream, as the audio tool printed them.
#[derive(Debug)]
pub struct Props {
    entries: Vec<(String, String)>,
}

/// The properties of a stream, as a map from name to value.
pub type PropsMap = Map<Seq<char>, Seq<char>>;

/// All streams at one moment: stream id to its properties.
pub type SnapshotMap = Map<u32, PropsMap>;

impl Props {
    pub closed spec fn pairs(&self) -> Seq<(Seq<char>, Seq<char>)> {
        self.entries@.map_values(|e: (String, String)| (e.0@, e.1@))
    }

    pub closed spec fn wf(&self) -> bool {
        keys_unique(self.pairs())
    }

    pub closed spec fn view(&self) -> PropsMap {
        assoc_map(self.pairs())
    }

    pub fn new() -> (r: Props)
        ensures
            r.wf(),
            r.view() == PropsMap::empty(),
    {
        let r = Props { entries: Vec::new() };
        assert(r.pairs() =~= Seq::empty());
        r
    }

    /// The position of the entry named `k`, if there is one.
    fn position(&self, k: &String) -> (r: Option<usize>)
        ensures
            match r {
                Some(j) => j < self.entries.len() && self.pairs()[j as int].0 == k@,
                None => forall|i: int| 0 <= i < self.entries.len() ==> #[trigger] self.pairs()[i].0 != k@,
            },
    {
        let mut j: usize = 0;
        while j < self.entries.len()
            invariant
                j <= self.entries.len(),
                forall|i: int| 0 <= i < j ==> #[trigger] self.pairs()[i].0 != k@,
            decreases self.entries.len() - j,
        {
            if self.entries[j].0 == *k {
                return Some(j);
            }
            j += 1;
        }
        None
    }

    /// Sets property `k` to `v`, replacing an earlier value.
    pub fn insert(&mut self, k: String, v: String)
        requires
            old(self).wf(),
        ensures
            final(self).wf(),
            final(self).view() == old(self).view().insert(k@, v@),
    {
        let ghost s = self.pairs();
        match self.position(&k) {
            Some(j) => {
                proof {
                    lemma_assoc_update(s, j as int, v@);
                }
                self.entries[j] = (k, v);
                assert(self.pairs() =~= s.update(j as int, (s[j as int].0, v@)));
            },
            None => {
                proof {
                    lemma_assoc_push(s, k@, v@);
                }
                self.entries.push((k, v));
                assert(self.pairs() =~= s.push((k@, v@)));
            },
        }
    }

    /// The value of property `k`.
    pub fn get(&self, k: &String) -> (r: Option<&String>)
        requires
            self.wf(),
        ensures
            match r {
                Some(v) => self.view().dom().contains(k@) && v@ == self.view()[k@],
                None => !self.view().dom().contains(k@),
            },
    {
        proof {
            lemma_assoc_dom(self.pairs(), k@);
        }
        match self.position(k) {
            Some(j) => {
                proof {
                    lemma_assoc_index(self.pairs(), j as int);
                }
                Some(&self.entries[j].1)
            },
            None => None,
        }
    }

    /// The number of properties.
    pub fn len(&self) -> (r: usize)
        requires
            self.wf(),
        ensures
            r == self.view().len(),
    {
        proof {
            lemma_assoc_len(self.pairs());
        }
        self.entries.len()
    }
}

/// All active streams at one moment, each under its id.
#[derive(Debug)]
pub struct Snapshot {
    entries: Vec<(u32, Props)>,
}

impl Snapshot {
    pub closed spec fn pairs(&self) -> Seq<(u32, PropsMap)> {
        self.entries@.map_values(|e: (u32, Props)| (e.0, e.1.view()))
    }

    pub closed spec fn wf(&self) -> bool {
        &&& keys_unique(self.pairs())
        &&& forall|i: int| 0 <= i < self.entries.len() ==> (#[trigger] self.entries@[i]).1.wf()
    }

    pub closed spec fn view(&self) -> SnapshotMap {
        assoc_map(self.pairs())
    }

    pub fn new() -> (r: Snapshot)
        ensures
            r.wf(),
            r.view() == SnapshotMap::empty(),
    {
        let r = Snapshot { entries: Vec::new() };
        assert(r.pairs() =~= Seq::empty());
        r
    }

    fn position(&self, id: u32) -> (r: Option<usize>)
        ensures
            match r {
                Some(j) => j < self.entries.len() && self.pairs()[j as int].0 == id,
                None => forall|i: int| 0 <= i < self.entries.len() ==> #[trigger] self.pairs()[i].0 != id,
            },
    {
        let mut j: usize = 0;
        while j < self.entries.len()
            invariant
                j <= self.entries.len(),
                forall|i: int| 0 <= i < j ==> #[trigger] self.pairs()[i].0 != id,
            decreases self.entries.len() - j,
        {
            if self.entries[j].0 == id {
                return Some(j);
            }
            j += 1;
        }
        None
    }

    /// Puts stream `id` with properties `p`, replacing an earlier entry.
    pub fn insert(&mut self, id: u32, p: Props)
        requires
            old(self).wf(),
            p.wf(),
        ensures
            final(self).wf(),
            final(self).view() == old(self).view().insert(id, p.view()),
    {
        let ghost s = self.pairs();
        let ghost pv = p.view();
        match self.position(id) {
            Some(j) => {
                proof {
                    lemma_assoc_update(s, j as int, pv);
                }
                self.entries[j] = (id, p);
                assert(self.pairs() =~= s.update(j as int, (s[j as int].0, pv)));
            },
            None => {
                proof {
                    lemma_assoc_push(s, id, pv);
                }
                self.entries.push((id, p));
                assert(self.pairs() =~= s.push((id, pv)));
            },
        }
    }

    /// The properties of stream `id`.
    pub fn get(&self, id: u32) -> (r: Option<&Props>)
        requires
            self.wf(),
        ensures
            match r {
                Some(p) => self.view().dom().contains(id) && p.view() == self.view()[id] && p.wf(),
                None => !self.view().dom().contains(id),
            },
    {
        proof {
            lemma_assoc_dom(self.pairs(), id);
        }
        match self.position(id) {
            Some(j) => {
                proof {
                    lemma_assoc_index(self.pairs(), j as int);
                }
                Some(&self.entries[j].1)
            },
            None => None,
        }
    }

    /// The ids of all streams, each once.
    pub fn ids(&self) -> (r: Vec<u32>)
        requires
            self.wf(),
        ensures
            r@.len() == self.view().len(),
            r@.no_duplicates(),
            forall|id: u32| r@.contains(id) <==> self.view().dom().contains(id),
    {
        let mut out: Vec<u32> = Vec::new();
        let mut j: usize = 0;
        while j < self.entries.len()
            invariant
                j <= self.entries.len(),
                out@ == self.pairs().take(j as int).map_values(|e: (u32, PropsMap)| e.0),
            decreases self.entries.len() - j,
        {
            out.push(self.entries[j].0);
            j += 1;
            assert(out@ =~= self.pairs().take(j as int).map_values(|e: (u32, PropsMap)| e.0));
        }
        assert(self.pairs().take(j as int) == self.pairs());
        proof {
            lemma_assoc_len(self.pairs());
            assert forall|id: u32| out@.contains(id) <==> self.view().dom().contains(id) by {
                lemma_assoc_dom(self.pairs(), id);
                if self.view().dom().contains(id) {
                    let i = choose|i: int| 0 <= i < self.pairs().len() && #[trigger] self.pairs()[i].0 == id;
                    assert(out@[i] == id);
                }
            }
            assert forall|a: int, b: int| 0 <= a < out@.len() && 0 <= b < out@.len() && a != b
                implies out@[a] != out@[b] by {
                if a < b {
                    assert(self.pairs()[a].0 != self.pairs()[b].0);
                } else {
                    assert(self.pairs()[b].0 != self.pairs()[a].0);
                }
            }
        }
        out
    }

    /// The number of streams.
    pub fn len(&self) -> (r: usize)
        requires
            self.wf(),
        ensures
            r == self.view().len(),
    {
        proof {
            lemma_assoc_len(self.pairs());
        }
        self.entries.len()
    }
}

/// The title a stream is shown under: its media name, else its application
/// name, else its program's binary name, else `Unknown`.
pub open spec fn title_of(p: PropsMap) -> Seq<char> {
    if p.dom().contains("media.name"@) {
        p["media.name"@]
    } else if p.dom().contains("application.name"@) {
        p["application.name"@]
    } else if p.dom().contains("application.process.binary"@) {
        p["application.process.binary"@]
    } else {
        "Unknown"@
    }
}

impl Props {
    /// The title the stream is shown under, as `title_of` describes.
    pub fn title(&self) -> (r: String)
        requires
            self.wf(),
        ensures
            r@ == title_of(self.view()),
    {
        if let Some(v) = self.get(&String::from_str("media.name")) {
            return v.clone();
        }
        if let Some(v) = self.get(&String::from_str("application.name")) {
            return v.clone();
        }
        if let Some(v) = self.get(&String::from_str("application.process.binary")) {
            return v.clone();
        }
        String::from_str("Unknown")
    }
}

/// With distinct keys, the map has one entry per pair.
proof fn lemma_assoc_len<K, V>(s: Seq<(K, V)>)
    requires
        keys_unique(s),
    ensures
        assoc_map(s).len() == s.len(),
        assoc_map(s).dom().finite(),
    decreases s.len(),
{
    if s.len() > 0 {
        let t = s.drop_last();
        assert(keys_unique(t)) by {
            assert forall|a: int, b: int| 0 <= a < b < t.len() implies #[trigger] t[a].0
                != #[trigger] t[b].0 by {
                assert(s[a].0 != s[b].0);
            }
        }
        lemma_assoc_len(t);
        lemma_assoc_dom(t, s.last().0);
        if assoc_map(t).dom().contains(s.last().0) {
            let i = choose|i: int| 0 <= i < t.len() && #[trigger] t[i].0 == s.last().0;
            assert(s[i].0 != s[s.len() - 1].0);
        }
    } else {
        assert(assoc_map(s).dom() =~= Set::empty());
    }
}

} // verus!
