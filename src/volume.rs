//! Volume percentages: the one read from a stream's `Volume:` property, the
//! table of them over a snapshot, and the main volume from the reply of the
//! main-volume query (`wpctl get-volume`).
use vstd::prelude::*;
use crate::assoc::{assoc_map, keys_unique, lemma_assoc_dom, lemma_assoc_index, lemma_assoc_push};
use crate::listing::volume_key;
use crate::number::{decimal_of, hundredfold, parse_decimal, times_hundred, Decimal};
use crate::props::{PropsMap, Snapshot, SnapshotMap};
use crate::text::{
    chars_of, find, find_in, is_whitespace, is_ws, slice, string_of, trim, trim_end,
    trim_end_of, trim_of,
};

verus! {

/// The second `/`-separated field of a volume descriptor, if there are two.
pub open spec fn second_field(s: Seq<char>) -> Option<Seq<char>> {
    let a = find(s, seq!['/']);
    if a < 0 {
        None
    } else {
        let rest = s.skip(a + 1);
        let b = find(rest, seq!['/']);
        Some(
            if b < 0 {
                rest
            } else {
                rest.take(b)
            },
        )
    }
}

/// The percentage in a volume descriptor: its second `/`-separated field,
/// trimmed, must end in `%`, and what stands before the `%`, trimmed, must be
/// a decimal number. So `49152 / 75% / -7.50 dB` and `75% / 75%` give 75,
/// while a descriptor with labels inside the field, such as
/// `Front Left: 30% / Front Right: 60%`, gives none.
pub open spec fn percent_of(s: Seq<char>) -> Option<Decimal> {
    match second_field(s) {
        Some(f) => {
            let t = trim(f);
            if t.len() > 0 && t.last() == '%' {
                decimal_of(trim(t.drop_last()))
            } else {
                None
            }
        },
        None => None,
    }
}

/// The volume of a stream with properties `p`.
pub open spec fn stream_volume(p: PropsMap) -> Option<Decimal> {
    if p.dom().contains(volume_key()) {
        percent_of(p[volume_key()])
    } else {
        None
    }
}

/// The volume table of a snapshot: every stream whose volume can be read,
/// with that volume.
pub open spec fn volume_table_of(s: SnapshotMap) -> Map<u32, Decimal> {
    Map::new(
        |id: u32| s.dom().contains(id) && stream_volume(s[id]) is Some,
        |id: u32| stream_volume(s[id])->0,
    )
}

/// Reads the percentage of a volume descriptor, as `percent_of` describes.
pub fn parse_percent(s: &str) -> (r: Option<Decimal>)
    ensures
        r == percent_of(s@),
{
    let v = chars_of(s);
    let slash: Vec<char> = vec!['/'];
    assert(slash@ == seq!['/']);
    let a = match find_in(&v, &slash) {
        Some(a) => a,
        None => {
            return None;
        },
    };
    let rest = slice(&v, a + 1, v.len());
    assert(rest@ == v@.skip(a + 1));
    let field = match find_in(&rest, &slash) {
        Some(b) => slice(&rest, 0, b),
        None => rest,
    };
    let t = trim_of(&field);
    if t.len() == 0 || t[t.len() - 1] != '%' {
        return None;
    }
    let num = slice(&t, 0, t.len() - 1);
    assert(num@ == t@.drop_last());
    parse_decimal(&trim_of(&num))
}

/// The volume of each stream whose volume can be read.
#[derive(Debug)]
pub struct VolumeTable {
    entries: Vec<(u32, Decimal)>,
}

impl VolumeTable {
    pub closed spec fn wf(&self) -> bool {
        keys_unique(self.entries@)
    }

    pub closed spec fn view(&self) -> Map<u32, Decimal> {
        assoc_map(self.entries@)
    }

    pub fn new() -> (r: VolumeTable)
        ensures
            r.wf(),
            r.view() == Map::<u32, Decimal>::empty(),
    {
        VolumeTable { entries: Vec::new() }
    }

    fn position(&self, id: u32) -> (r: Option<usize>)
        ensures
            match r {
                Some(j) => j < self.entries.len() && self.entries@[j as int].0 == id,
                None => forall|i: int| 0 <= i < self.entries.len() ==> #[trigger] self.entries@[i].0 != id,
            },
    {
        let mut j: usize = 0;
        while j < self.entries.len()
            invariant
                j <= self.entries.len(),
                forall|i: int| 0 <= i < j ==> #[trigger] self.entries@[i].0 != id,
            decreases self.entries.len() - j,
        {
            if self.entries[j].0 == id {
                return Some(j);
            }
            j += 1;
        }
        None
    }

    /// The volume of stream `id`.
    pub fn get(&self, id: u32) -> (r: Option<Decimal>)
        requires
            self.wf(),
        ensures
            match r {
                Some(d) => self.view().dom().contains(id) && d == self.view()[id],
                None => !self.view().dom().contains(id),
            },
    {
        proof {
            lemma_assoc_dom(self.entries@, id);
        }
        match self.position(id) {
            Some(j) => {
                proof {
                    lemma_assoc_index(self.entries@, j as int);
                }
                Some(self.entries[j].1)
            },
            None => None,
        }
    }

    /// Sets the volume of stream `id`, if the table has it; else changes nothing.
    pub fn set_existing(&mut self, id: u32, d: Decimal)
        requires
            old(self).wf(),
        ensures
            final(self).wf(),
            final(self).view() == if old(self).view().dom().contains(id) {
                old(self).view().insert(id, d)
            } else {
                old(self).view()
            },
    {
        proof {
            lemma_assoc_dom(self.entries@, id);
        }
        match self.position(id) {
            Some(j) => {
                let ghost s = self.entries@;
                proof {
                    crate::assoc::lemma_assoc_update(s, j as int, d);
                }
                self.entries[j] = (id, d);
                assert(self.entries@ == s.update(j as int, (s[j as int].0, d)));
            },
            None => {},
        }
    }

    /// Builds the volume table of a snapshot.
    pub fn of_snapshot(snap: &Snapshot) -> (r: VolumeTable)
        requires
            snap.wf(),
        ensures
            r.wf(),
            r.view() == volume_table_of(snap@),
    {
        let ids = snap.ids();
        let mut t = VolumeTable { entries: Vec::new() };
        let key = string_of(&vec!['V', 'o', 'l', 'u', 'm', 'e']);
        assert(key@ == volume_key());
        let mut j: usize = 0;
        while j < ids.len()
            invariant
                j <= ids.len(),
                snap.wf(),
                t.wf(),
                key@ == volume_key(),
                ids@.no_duplicates(),
                forall|id: u32| ids@.contains(id) <==> snap@.dom().contains(id),
                forall|i: int| 0 <= i < t.entries.len() ==> ids@.take(j as int).contains(
                    #[trigger] t.entries@[i].0,
                ),
                t.view() == Map::new(
                    |id: u32|
                        ids@.take(j as int).contains(id) && stream_volume(snap@[id]) is Some,
                    |id: u32| stream_volume(snap@[id])->0,
                ),
            decreases ids.len() - j,
        {
            let id = ids[j];
            assert(ids@.contains(id));
            let p = snap.get(id).unwrap();
            let found = match p.get(&key) {
                Some(vs) => parse_percent(vs.as_str()),
                None => None,
            };
            assert(found == stream_volume(snap@[id]));
            let ghost pre = ids@.take(j as int);
            let ghost post = ids@.take(j + 1);
            assert(post == pre.push(id));
            assert(post[j as int] == id);
            assert forall|x: u32| post.contains(x) <==> (pre.contains(x) || x == id) by {
                if pre.contains(x) {
                    let k = choose|k: int| 0 <= k < pre.len() && pre[k] == x;
                    assert(post[k] == x);
                }
                if post.contains(x) && x != id {
                    let k = choose|k: int| 0 <= k < post.len() && post[k] == x;
                    assert(pre[k] == x);
                }
            }
            if let Some(d) = found {
                let ghost s = t.entries@;
                proof {
                    assert forall|i: int| 0 <= i < s.len() implies #[trigger] s[i].0 != id by {
                        let k = choose|k: int| 0 <= k < j && ids@[k] == s[i].0;
                        assert(ids@[k] == ids@.take(j as int)[k]);
                    }
                    lemma_assoc_push(s, id, d);
                }
                t.entries.push((id, d));
                assert forall|i: int| 0 <= i < t.entries.len() implies post.contains(
                    #[trigger] t.entries@[i].0,
                ) by {
                    if i < s.len() {
                        assert(t.entries@[i] == s[i]);
                        assert(pre.contains(s[i].0));
                    }
                }
                assert(t.view() =~= Map::new(
                    |x: u32| ids@.take(j + 1).contains(x) && stream_volume(snap@[x]) is Some,
                    |x: u32| stream_volume(snap@[x])->0,
                ));
            } else {
                assert forall|i: int| 0 <= i < t.entries.len() implies post.contains(
                    #[trigger] t.entries@[i].0,
                ) by {
                    assert(pre.contains(t.entries@[i].0));
                }
                assert(t.view() =~= Map::new(
                    |x: u32| ids@.take(j + 1).contains(x) && stream_volume(snap@[x]) is Some,
                    |x: u32| stream_volume(snap@[x])->0,
                ));
            }
            j += 1;
        }
        assert(ids@.take(j as int) == ids@);
        assert(t.view() =~= volume_table_of(snap@));
        t
    }
}

/// Where the last whitespace-separated token of `t` starts.
pub open spec fn token_start(t: Seq<char>) -> int
    decreases t.len(),
{
    if t.len() == 0 {
        0
    } else if is_ws(t.last()) {
        t.len() as int
    } else {
        token_start(t.drop_last())
    }
}

/// The last whitespace-separated token of `s`.
pub open spec fn last_token(s: Seq<char>) -> Option<Seq<char>> {
    let t = trim_end(s);
    if t.len() == 0 {
        None
    } else {
        Some(t.skip(token_start(t)))
    }
}

/// The main volume in a reply of the main-volume query: its last token is a
/// fraction (1 for full volume), which is read as a percentage.
pub open spec fn main_volume_of(s: Seq<char>) -> Option<Decimal> {
    match last_token(s) {
        Some(tok) => match decimal_of(tok) {
            Some(f) => hundredfold(f),
            None => None,
        },
        None => None,
    }
}

/// Reads the main volume from a reply such as `Volume: 0.65`, as
/// `main_volume_of` describes.
pub fn parse_main_volume(reply: &str) -> (r: Option<Decimal>)
    ensures
        r == main_volume_of(reply@),
{
    let v = chars_of(reply);
    let t = trim_end_of(&v);
    if t.len() == 0 {
        return None;
    }
    let mut j: usize = t.len();
    assert(t@.take(t.len() as int) == t@);
    while j > 0 && !is_whitespace(t[j - 1])
        invariant
            j <= t.len(),
            token_start(t@) == token_start(t@.take(j as int)),
        decreases j,
    {
        assert(t@.take(j as int).drop_last() == t@.take(j - 1));
        j -= 1;
    }
    let tok = slice(&t, j, t.len());
    assert(tok@ == t@.skip(token_start(t@)));
    match parse_decimal(&tok) {
        Some(f) => times_hundred(f),
        None => None,
    }
}

} // verus!
