//! The panel's state: the last snapshot, its volume table and the main
//! volume, replaced whole on each refresh.
use vstd::prelude::*;
use crate::listing::{parse_stream_list, snapshot_of};
use crate::number::Decimal;
use crate::props::{Snapshot, SnapshotMap};
use crate::volume::{main_volume_of, parse_main_volume, volume_table_of, VolumeTable};

verus! {

/// What the panel shows: the streams, their volumes, the main volume.
pub type PanelModel = (SnapshotMap, Map<u32, Decimal>, Decimal);

/// The main volume after a refresh: the one read from the reply, or the
/// previous one when there is no reply or it cannot be read.
pub open spec fn next_main(prev: Decimal, reply: Option<Seq<char>>) -> Decimal {
    match reply {
        Some(t) => match main_volume_of(t) {
            Some(v) => v,
            None => prev,
        },
        None => prev,
    }
}

/// The panel after a refresh with stream listing `listing` and main-volume
/// reply `reply` (none when the query failed).
pub open spec fn refreshed(m: PanelModel, listing: Seq<char>, reply: Option<Seq<char>>) -> PanelModel {
    (snapshot_of(listing), volume_table_of(snapshot_of(listing)), next_main(m.2, reply))
}

/// The panel after a stream's slider is moved to `d`: only a stream that has
/// a volume has a slider.
pub open spec fn with_stream_volume(m: PanelModel, id: u32, d: Decimal) -> PanelModel {
    if m.1.dom().contains(id) {
        (m.0, m.1.insert(id, d), m.2)
    } else {
        m
    }
}

pub struct AppState {
    snapshot: Snapshot,
    volumes: VolumeTable,
    main_volume: Decimal,
}

impl AppState {
    pub closed spec fn wf(&self) -> bool {
        &&& self.snapshot.wf()
        &&& self.volumes.wf()
        &&& self.volumes@.dom().subset_of(self.snapshot@.dom())
    }

    pub closed spec fn view(&self) -> PanelModel {
        (self.snapshot@, self.volumes@, self.main_volume)
    }

    /// A panel with no streams yet and main volume `initial`, or zero when
    /// the first query gave none.
    pub fn new(initial: Option<Decimal>) -> (r: AppState)
        ensures
            r.wf(),
            r@.0 == SnapshotMap::empty(),
            r@.1 == Map::<u32, Decimal>::empty(),
            r@.2 == match initial {
                Some(v) => v,
                None => Decimal { mantissa: 0, scale: 0 },
            },
    {
        let main_volume = match initial {
            Some(v) => v,
            None => Decimal { mantissa: 0, scale: 0 },
        };
        AppState { snapshot: Snapshot::new(), volumes: VolumeTable::new(), main_volume }
    }

    /// Replaces the snapshot and its volume table, and the main volume when
    /// one was read.
    pub fn apply_refresh(&mut self, snap: Snapshot, main: Option<Decimal>)
        requires
            old(self).wf(),
            snap.wf(),
        ensures
            final(self).wf(),
            final(self)@.0 == snap@,
            final(self)@.1 == volume_table_of(snap@),
            final(self)@.2 == match main {
                Some(v) => v,
                None => old(self)@.2,
            },
    {
        let volumes = VolumeTable::of_snapshot(&snap);
        self.snapshot = snap;
        self.volumes = volumes;
        if let Some(v) = main {
            self.main_volume = v;
        }
    }

    /// One refresh from the replies of the two queries.
    pub fn refresh(&mut self, listing: &str, reply: Option<&str>)
        requires
            old(self).wf(),
        ensures
            final(self).wf(),
            final(self)@ == refreshed(
                old(self)@,
                listing@,
                match reply {
                    Some(t) => Some(t@),
                    None => None,
                },
            ),
    {
        let snap = parse_stream_list(listing);
        let main = match reply {
            Some(t) => parse_main_volume(t),
            None => None,
        };
        self.apply_refresh(snap, main);
    }

    /// The streams of the last refresh.
    pub fn snapshot(&self) -> (r: &Snapshot)
        requires
            self.wf(),
        ensures
            r.wf(),
            r@ == self@.0,
    {
        &self.snapshot
    }

    /// The volume of stream `id`, which its slider shows; none when the
    /// stream has no readable volume, and then it has no slider.
    pub fn stream_volume(&self, id: u32) -> (r: Option<Decimal>)
        requires
            self.wf(),
        ensures
            match r {
                Some(d) => self@.1.dom().contains(id) && d == self@.1[id],
                None => !self@.1.dom().contains(id),
            },
    {
        self.volumes.get(id)
    }

    /// Moves the slider of stream `id` to `d`; without a slider, nothing changes.
    pub fn set_stream_volume(&mut self, id: u32, d: Decimal)
        requires
            old(self).wf(),
        ensures
            final(self).wf(),
            final(self)@ == with_stream_volume(old(self)@, id, d),
    {
        self.volumes.set_existing(id, d);
    }

    pub fn main_volume(&self) -> (r: Decimal)
        ensures
            r == self@.2,
    {
        self.main_volume
    }

    /// Moves the main volume slider to `d`.
    pub fn set_main_volume(&mut self, d: Decimal)
        requires
            old(self).wf(),
        ensures
            final(self).wf(),
            final(self)@ == (old(self)@.0, old(self)@.1, d),
    {
        self.main_volume = d;
    }
}

} // verus!
