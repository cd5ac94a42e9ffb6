//! Properties that relate several operations of the panel.
use vstd::prelude::*;
use crate::commands::{decimal_digits, stream_volume_args};
use crate::listing::{header_id, parse_lines, step, volume_key, ParseState};
use crate::number::Decimal;
use crate::props::SnapshotMap;
use crate::state::{refreshed, with_stream_volume, PanelModel};
use crate::number::{decimal_of, frac_part, int_part};
use crate::text::{digits_value, find, find_from, trim, trim_end, trim_start};
use crate::volume::{percent_of, second_field};
use crate::volume::volume_table_of;

verus! {

/// Lines before the first block header are ignored: whatever lines `pre`
/// holds, if none of them is a header, reading `pre` and then `ls` ends
/// where reading `ls` alone ends.
pub proof fn lemma_preamble_ignored(pre: Seq<Seq<char>>, ls: Seq<Seq<char>>)
    requires
        forall|i: int| 0 <= i < pre.len() ==> header_id(trim_start(#[trigger] pre[i])) is None,
    ensures
        parse_lines(pre + ls) == parse_lines(ls),
    decreases ls.len(),
{
    if ls.len() == 0 {
        assert(pre + ls == pre);
        lemma_preamble_start(pre);
    } else {
        assert((pre + ls).drop_last() == pre + ls.drop_last());
        assert((pre + ls).last() == ls.last());
        lemma_preamble_ignored(pre, ls.drop_last());
    }
}

proof fn lemma_preamble_start(pre: Seq<Seq<char>>)
    requires
        forall|i: int| 0 <= i < pre.len() ==> header_id(trim_start(#[trigger] pre[i])) is None,
    ensures
        parse_lines(pre) == (None::<u32>, SnapshotMap::empty()),
    decreases pre.len(),
{
    if pre.len() > 0 {
        assert forall|i: int| 0 <= i < pre.drop_last().len() implies header_id(
            trim_start(#[trigger] pre.drop_last()[i]),
        ) is None by {
            assert(pre.drop_last()[i] == pre[i]);
        }
        lemma_preamble_start(pre.drop_last());
        assert(header_id(trim_start(pre[pre.len() - 1])) is None);
        let st: ParseState = (None, SnapshotMap::empty());
        assert(step(st, pre.last()) == st);
    }
}

/// The single-channel descriptor `Mono: 50% / 50%`.
pub open spec fn mono_half() -> Seq<char> {
    seq!['M', 'o', 'n', 'o', ':', ' ', '5', '0', '%', ' ', '/', ' ', '5', '0', '%']
}

/// A stream whose `Volume:` line reads `Mono: 50% / 50%` has volume 50 in
/// the table, whatever else the snapshot holds.
pub proof fn lemma_mono_half(s: SnapshotMap, id: u32)
    requires
        s.dom().contains(id),
        s[id].dom().contains(volume_key()),
        s[id][volume_key()] == mono_half(),
    ensures
        volume_table_of(s).dom().contains(id),
        volume_table_of(s)[id] == (Decimal { mantissa: 50, scale: 0 }),
{
    let m = mono_half();
    let slash = seq!['/'];
    reveal_with_fuel(find_from, 12);
    assert(m.subrange(10, 11) =~= slash);
    assert forall|i: int| 0 <= i < 10 implies #[trigger] m.subrange(i, i + 1) != slash by {
        assert(m.subrange(i, i + 1)[0] == m[i]);
    }
    assert(find_from(m, slash, 10) == 10);
    assert(find(m, slash) == 10);
    let rest = m.skip(11);
    assert(rest =~= seq![' ', '5', '0', '%']);
    assert forall|i: int| 0 <= i < 4 implies #[trigger] rest.subrange(i, i + 1) != slash by {
        assert(rest.subrange(i, i + 1)[0] == rest[i]);
    }
    assert(find(rest, slash) == -1);
    assert(second_field(m) == Some(rest));
    let fifty = seq!['5', '0'];
    assert(rest.drop_first() =~= seq!['5', '0', '%']);
    assert(trim_start(rest.drop_first()) == rest.drop_first());
    assert(trim_start(rest) == rest.drop_first());
    assert(trim_end(rest.drop_first()) == rest.drop_first());
    let t = trim(rest);
    assert(t == seq!['5', '0', '%']);
    assert(t.drop_last() =~= fifty);
    assert(trim_start(fifty) == fifty);
    assert(trim_end(fifty) == fifty);
    assert(trim(fifty) == fifty);
    let dot = seq!['.'];
    assert forall|i: int| 0 <= i < 2 implies #[trigger] fifty.subrange(i, i + 1) != dot by {
        assert(fifty.subrange(i, i + 1)[0] == fifty[i]);
    }
    assert(find(fifty, dot) == -1);
    assert(int_part(fifty) == fifty);
    assert(frac_part(fifty) =~= Seq::<char>::empty());
    assert(fifty + Seq::<char>::empty() =~= fifty);
    assert(fifty.drop_last() =~= seq!['5']);
    assert(seq!['5'].drop_last() =~= Seq::<char>::empty());
    assert(digits_value(Seq::<char>::empty()) == 0);
    assert(('5' as u32) - ('0' as u32) == 5);
    assert(('0' as u32) - ('0' as u32) == 0);
    assert(seq!['5'].last() == '5');
    assert(digits_value(seq!['5']) == 5);
    assert(digits_value(fifty) == 50);
    assert(decimal_of(fifty) == Some(Decimal { mantissa: 50, scale: 0 }));
    assert(percent_of(m) == Some(Decimal { mantissa: 50, scale: 0 }));
}

/// Every stream in the volume table is a stream of the snapshot.
pub proof fn lemma_volumes_within_snapshot(s: SnapshotMap)
    ensures
        volume_table_of(s).dom().subset_of(s.dom()),
{
}

/// Refreshing twice from the same replies leaves the panel as refreshing
/// once does: the second refresh reads the same snapshot, volume table and
/// main volume again.
pub proof fn lemma_refresh_idempotent(
    m: PanelModel,
    listing: Seq<char>,
    reply: Option<Seq<char>>,
)
    ensures
        refreshed(refreshed(m, listing, reply), listing, reply) == refreshed(m, listing, reply),
{
}

/// Moving the volume of a stream that has no volume in the table changes
/// nothing the panel shows, while the command that sets a stream's volume
/// is the same whatever the panel holds.
pub proof fn lemma_absent_stream(m: PanelModel, id: u32, d: Decimal, percent: Seq<char>)
    requires
        !m.1.dom().contains(id),
    ensures
        with_stream_volume(m, id, d) == m,
        stream_volume_args(id, percent) == seq![
            "set-sink-input-volume"@,
            decimal_digits(id as nat),
            percent + "%"@,
        ],
{
}

} // verus!
