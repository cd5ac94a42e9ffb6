//! The stream listing of the audio tool (`pactl list sink-inputs`): blocks
//! that open with `Sink Input #<id>`, followed by `key = "value"` lines and
//! a `Volume:` line.
use vstd::prelude::*;
use crate::number::{parse_u32, u32_of};
use crate::props::{Props, PropsMap, Snapshot, SnapshotMap};
use crate::text::{
    chars_of, find, find_in, slice, starts_with, starts_with_of, string_of, trim, trim_char,
    trim_char_of, trim_of, trim_start, trim_start_of,
};

verus! {

pub open spec fn header_prefix() -> Seq<char> {
    seq!['S', 'i', 'n', 'k', ' ', 'I', 'n', 'p', 'u', 't', ' ', '#']
}

pub open spec fn volume_prefix() -> Seq<char> {
    seq!['V', 'o', 'l', 'u', 'm', 'e', ':']
}

/// The property under which a stream's `Volume:` line is kept.
pub open spec fn volume_key() -> Seq<char> {
    seq!['V', 'o', 'l', 'u', 'm', 'e']
}

pub open spec fn separator() -> Seq<char> {
    seq![' ', '=', ' ']
}

/// `l` without one trailing carriage return.
pub open spec fn strip_cr(l: Seq<char>) -> Seq<char> {
    if l.len() > 0 && l.last() == '\r' {
        l.drop_last()
    } else {
        l
    }
}

/// The finished lines of `s` and the unfinished one after the last newline.
pub open spec fn line_scan(s: Seq<char>) -> (Seq<Seq<char>>, Seq<char>)
    decreases s.len(),
{
    if s.len() == 0 {
        (Seq::empty(), Seq::empty())
    } else {
        let (done, cur) = line_scan(s.drop_last());
        if s.last() == '\n' {
            (done.push(strip_cr(cur)), Seq::empty())
        } else {
            (done, cur.push(s.last()))
        }
    }
}

/// The lines of `s` as `str::lines` gives them: split at `\n` or `\r\n`,
/// with no empty line after a final newline.
pub open spec fn lines_of(s: Seq<char>) -> Seq<Seq<char>> {
    let (done, cur) = line_scan(s);
    if cur.len() == 0 {
        done
    } else {
        done.push(cur)
    }
}

/// The stream id of a block header line.
pub open spec fn header_id(t: Seq<char>) -> Option<u32> {
    if starts_with(t, header_prefix()) {
        u32_of(trim(t.skip(12)))
    } else {
        None
    }
}

/// The parser's state: the stream whose block is open, and the streams so far.
pub type ParseState = (Option<u32>, SnapshotMap);

/// Records property `k` = `v` for the open stream, if there is one.
pub open spec fn with_prop(st: ParseState, k: Seq<char>, v: Seq<char>) -> ParseState {
    match st.0 {
        Some(id) => (st.0, st.1.insert(id, st.1[id].insert(k, v))),
        None => st,
    }
}

/// One line of the listing read into the state. A header opens a fresh
/// block; a `key = value` line and a `Volume:` line add to the open block;
/// anything else, and anything before the first header, is passed over.
pub open spec fn step(st: ParseState, line: Seq<char>) -> ParseState {
    let t = trim_start(line);
    let st1 = match header_id(t) {
        Some(id) => (Some(id), st.1.insert(id, PropsMap::empty())),
        None => st,
    };
    let p = find(t, separator());
    let st2 = if p >= 0 {
        with_prop(st1, t.take(p), trim_char(t.skip(p + 3), '"'))
    } else {
        st1
    };
    if starts_with(t, volume_prefix()) {
        with_prop(st2, volume_key(), trim(t.skip(7)))
    } else {
        st2
    }
}

pub open spec fn parse_lines(ls: Seq<Seq<char>>) -> ParseState
    decreases ls.len(),
{
    if ls.len() == 0 {
        (None, SnapshotMap::empty())
    } else {
        step(parse_lines(ls.drop_last()), ls.last())
    }
}

/// The snapshot that a stream listing describes.
pub open spec fn snapshot_of(text: Seq<char>) -> SnapshotMap {
    parse_lines(lines_of(text)).1
}

/// The state that the finished streams and the open block stand for.
pub open spec fn state_of(done: Snapshot, open: Option<(u32, Props)>) -> ParseState {
    match open {
        Some((id, p)) => (Some(id), done@.insert(id, p@)),
        None => (None, done@),
    }
}

pub open spec fn open_wf(open: Option<(u32, Props)>) -> bool {
    match open {
        Some((_, p)) => p.wf(),
        None => true,
    }
}

/// Adds `k` = `v` to the open block.
fn add_prop(done: Snapshot, open: Option<(u32, Props)>, k: &Vec<char>, v: &Vec<char>) -> (r: (
    Snapshot,
    Option<(u32, Props)>,
))
    requires
        done.wf(),
        open_wf(open),
        state_of(done, open).0 is Some ==> state_of(done, open).1.dom().contains(
            state_of(done, open).0->0,
        ),
    ensures
        r.0.wf(),
        open_wf(r.1),
        state_of(r.0, r.1) == with_prop(state_of(done, open), k@, v@),
{
    match open {
        Some((id, mut p)) => {
            let ks = string_of(k);
            let vs = string_of(v);
            p.insert(ks, vs);
            assert(done@.insert(id, p@) =~= state_of(done, open).1.insert(
                id,
                state_of(done, open).1[id].insert(k@, v@),
            ));
            (done, Some((id, p)))
        },
        None => (done, None),
    }
}

/// Reads one line, as `step` describes.
fn read_line(done: Snapshot, open: Option<(u32, Props)>, line: &Vec<char>) -> (r: (
    Snapshot,
    Option<(u32, Props)>,
))
    requires
        done.wf(),
        open_wf(open),
    ensures
        r.0.wf(),
        open_wf(r.1),
        state_of(r.0, r.1) == step(state_of(done, open), line@),
{
    let ghost st = state_of(done, open);
    let t = trim_start_of(line);
    let hp: Vec<char> = vec!['S', 'i', 'n', 'k', ' ', 'I', 'n', 'p', 'u', 't', ' ', '#'];
    assert(hp@ == header_prefix());
    let mut done = done;
    let mut open = open;
    if starts_with_of(&t, &hp) {
        let rest = slice(&t, 12, t.len());
        assert(rest@ == t@.skip(12));
        if let Some(id) = parse_u32(&trim_of(&rest)) {
            if let Some((oid, p)) = open {
                done.insert(oid, p);
            }
            open = Some((id, Props::new()));
            assert(state_of(done, open).1 =~= st.1.insert(id, PropsMap::empty()));
        }
    }
    let ghost st1 = state_of(done, open);
    let sep: Vec<char> = vec![' ', '=', ' '];
    assert(sep@ == separator());
    if let Some(p) = find_in(&t, &sep) {
        let key = slice(&t, 0, p);
        let raw = slice(&t, p + 3, t.len());
        assert(key@ == t@.take(p as int));
        assert(raw@ == t@.skip(p + 3));
        let value = trim_char_of(&raw, '"');
        let r = add_prop(done, open, &key, &value);
        done = r.0;
        open = r.1;
    }
    let ghost st2 = state_of(done, open);
    let vp: Vec<char> = vec!['V', 'o', 'l', 'u', 'm', 'e', ':'];
    assert(vp@ == volume_prefix());
    if starts_with_of(&t, &vp) {
        let rest = slice(&t, 7, t.len());
        assert(rest@ == t@.skip(7));
        let value = trim_of(&rest);
        let vk: Vec<char> = vec!['V', 'o', 'l', 'u', 'm', 'e'];
        assert(vk@ == volume_key());
        let r = add_prop(done, open, &vk, &value);
        done = r.0;
        open = r.1;
    }
    (done, open)
}

/// Reads a stream listing into a snapshot: every block header `Sink Input
/// #<id>` opens stream `id` afresh, and the lines after it up to the next
/// header fill in its properties.
pub fn parse_stream_list(text: &str) -> (r: Snapshot)
    ensures
        r.wf(),
        r@ == snapshot_of(text@),
{
    let cs = chars_of(text);
    let mut done = Snapshot::new();
    let mut open: Option<(u32, Props)> = None;
    let mut line: Vec<char> = Vec::new();
    let mut i: usize = 0;
    while i < cs.len()
        invariant
            i <= cs.len(),
            done.wf(),
            open_wf(open),
            line@ == line_scan(cs@.take(i as int)).1,
            state_of(done, open) == parse_lines(line_scan(cs@.take(i as int)).0),
        decreases cs.len() - i,
    {
        assert(cs@.take(i + 1).drop_last() == cs@.take(i as int));
        let ghost ls = line_scan(cs@.take(i as int)).0;
        if cs[i] == '\n' {
            let l = if line.len() > 0 && line[line.len() - 1] == '\r' {
                slice(&line, 0, line.len() - 1)
            } else {
                line
            };
            assert(l@ == strip_cr(line_scan(cs@.take(i as int)).1));
            let r = read_line(done, open, &l);
            done = r.0;
            open = r.1;
            line = Vec::new();
            assert(ls.push(l@).drop_last() == ls);
        } else {
            line.push(cs[i]);
        }
        i += 1;
    }
    assert(cs@.take(i as int) == cs@);
    if line.len() > 0 {
        let ghost ls = line_scan(cs@).0;
        let r = read_line(done, open, &line);
        done = r.0;
        open = r.1;
        assert(ls.push(line@).drop_last() == ls);
    }
    if let Some((id, p)) = open {
        done.insert(id, p);
    }
    done
}

} // verus!
