use volume_panel::commands::{
    decimal_text, main_volume_query, set_main_volume_command, set_stream_volume_command,
    stream_list_query,
};
use volume_panel::listing::parse_stream_list;
use volume_panel::number::{parse_decimal, parse_u32, times_hundred, Decimal};
use volume_panel::props::{Props, Snapshot};
use volume_panel::state::AppState;
use volume_panel::volume::{parse_main_volume, parse_percent, VolumeTable};

fn prop(p: &Props, k: &str) -> Option<String> {
    p.get(&k.to_string()).cloned()
}

fn dec(m: u64, s: u32) -> Decimal {
    Decimal { mantissa: m, scale: s }
}

fn as_f64(d: Decimal) -> f64 {
    d.mantissa as f64 / 10f64.powi(d.scale as i32)
}

fn chars(s: &str) -> Vec<char> {
    s.chars().collect()
}

fn same(a: &Snapshot, b: &Snapshot) -> bool {
    let mut ia = a.ids();
    let mut ib = b.ids();
    ia.sort();
    ib.sort();
    if ia != ib {
        return false;
    }
    for id in ia {
        let pa = a.get(id).unwrap();
        let pb = b.get(id).unwrap();
        if pa.len() != pb.len() {
            return false;
        }
        for k in ["application.name", "media.name", "Volume", "Driver"] {
            if prop(pa, k) != prop(pb, k) {
                return false;
            }
        }
    }
    true
}

const LISTING: &str = "Sink Input #42\n\tDriver: protocol-native.c\n\tVolume: front-left: 49152 /  75% / -7.50 dB,   front-right: 49152 /  75% / -7.50 dB\n\tProperties:\n\t\tapplication.name = \"Firefox\"\n\t\tmedia.name = \"Video\"\nSink Input #7\n\tVolume: mono: 32768 /  50% / -18.06 dB\n\t\tapplication.name = \"mpv\"\n";

#[test]
fn block_with_name_and_volume() {
    let snap = parse_stream_list("Sink Input #42\n\tapplication.name = \"Firefox\"\n\tVolume: 75% / 75%\n");
    assert_eq!(snap.ids(), vec![42]);
    let p = snap.get(42).unwrap();
    assert_eq!(p.len(), 2);
    assert_eq!(prop(p, "application.name"), Some("Firefox".to_string()));
    assert_eq!(prop(p, "Volume"), Some("75% / 75%".to_string()));
    let t = VolumeTable::of_snapshot(&snap);
    assert_eq!(t.get(42), Some(dec(75, 0)));
    assert_eq!(as_f64(t.get(42).unwrap()), 75.0);
}

#[test]
fn mono_descriptor_gives_fifty() {
    let snap = parse_stream_list("Sink Input #3\n\tVolume: Mono: 50% / 50%\n");
    let t = VolumeTable::of_snapshot(&snap);
    assert_eq!(as_f64(t.get(3).unwrap()), 50.0);
    assert_eq!(parse_percent("Mono: 50% / 50%"), Some(dec(50, 0)));
}

#[test]
fn labelled_channels_give_no_volume() {
    assert_eq!(parse_percent("Front Left: 30% / Front Right: 60%"), None);
    let snap = parse_stream_list("Sink Input #5\nVolume: Front Left: 30% / Front Right: 60%\n");
    assert!(snap.get(5).is_some());
    let t = VolumeTable::of_snapshot(&snap);
    assert_eq!(t.get(5), None);
}

#[test]
fn percent_field_shapes() {
    assert_eq!(parse_percent("front-left: 49152 /  75% / -7.50 dB"), Some(dec(75, 0)));
    assert_eq!(parse_percent("12.5%"), None);
    assert_eq!(parse_percent("a / 12.5 %"), Some(dec(125, 1)));
    assert_eq!(parse_percent("a / 12.5"), None);
    assert_eq!(parse_percent("a / %"), None);
    assert_eq!(parse_percent("a / -5%"), None);
}

#[test]
fn main_volume_reply() {
    let v = parse_main_volume("Volume: 0.65").unwrap();
    assert_eq!(v, dec(65, 0));
    assert_eq!(as_f64(v), 65.0);
    assert_eq!(parse_main_volume("garbage"), None);
    assert_eq!(parse_main_volume("Volume: 1.00\n"), Some(dec(100, 0)));
    assert_eq!(parse_main_volume("Volume: 0.4 [MUTED]"), None);
    assert_eq!(parse_main_volume("   "), None);
    assert_eq!(parse_main_volume(""), None);
    assert_eq!(parse_main_volume("Volume: 0.655"), Some(dec(655, 1)));
}

#[test]
fn unreadable_reply_keeps_main_volume() {
    let mut st = AppState::new(parse_main_volume("Volume: 0.30"));
    assert_eq!(st.main_volume(), dec(30, 0));
    st.refresh("", Some("garbage"));
    assert_eq!(st.main_volume(), dec(30, 0));
    st.refresh("", None);
    assert_eq!(st.main_volume(), dec(30, 0));
    st.refresh("", Some("Volume: 0.65"));
    assert_eq!(st.main_volume(), dec(65, 0));
}

#[test]
fn no_initial_reading_starts_at_zero() {
    let st = AppState::new(None);
    assert_eq!(st.main_volume(), dec(0, 0));
    assert_eq!(st.snapshot().len(), 0);
}

#[test]
fn lines_before_first_header_are_ignored() {
    let text = "application.name = \"ghost\"\nVolume: 10% / 10%\nrandom words\nSink Input #1\n\tapplication.name = \"real\"\n";
    let snap = parse_stream_list(text);
    assert_eq!(snap.ids(), vec![1]);
    let p = snap.get(1).unwrap();
    assert_eq!(p.len(), 1);
    assert_eq!(prop(p, "application.name"), Some("real".to_string()));
    let only = parse_stream_list("x = y\nVolume: 1 / 2%\n\n");
    assert_eq!(only.len(), 0);
}

#[test]
fn empty_listing() {
    assert_eq!(parse_stream_list("").len(), 0);
    assert_eq!(parse_stream_list("\n\n").len(), 0);
}

#[test]
fn repeated_refresh_gives_equal_snapshots() {
    let a = parse_stream_list(LISTING);
    let b = parse_stream_list(LISTING);
    assert!(same(&a, &b));
    let mut st = AppState::new(None);
    st.refresh(LISTING, Some("Volume: 0.5"));
    let first: Vec<_> = [42u32, 7].iter().map(|&i| st.stream_volume(i)).collect();
    st.refresh(LISTING, Some("Volume: 0.5"));
    let second: Vec<_> = [42u32, 7].iter().map(|&i| st.stream_volume(i)).collect();
    assert_eq!(first, second);
    assert!(same(st.snapshot(), &a));
}

#[test]
fn full_listing() {
    let snap = parse_stream_list(LISTING);
    let mut ids = snap.ids();
    ids.sort();
    assert_eq!(ids, vec![7, 42]);
    let p = snap.get(42).unwrap();
    assert_eq!(prop(p, "media.name"), Some("Video".to_string()));
    assert_eq!(prop(p, "Driver"), None);
    let t = VolumeTable::of_snapshot(&snap);
    assert_eq!(t.get(42), Some(dec(75, 0)));
    assert_eq!(t.get(7), Some(dec(50, 0)));
}

#[test]
fn repeated_header_starts_afresh() {
    let snap = parse_stream_list("Sink Input #4\na = \"1\"\nSink Input #4\nb = \"2\"\n");
    assert_eq!(snap.len(), 1);
    let p = snap.get(4).unwrap();
    assert_eq!(prop(p, "a"), None);
    assert_eq!(prop(p, "b"), Some("2".to_string()));
}

#[test]
fn repeated_key_keeps_last_value() {
    let snap = parse_stream_list("Sink Input #4\na = \"1\"\na = \"2\"\n");
    let p = snap.get(4).unwrap();
    assert_eq!(p.len(), 1);
    assert_eq!(prop(p, "a"), Some("2".to_string()));
}

#[test]
fn header_forms() {
    let snap = parse_stream_list("Sink Input #4294967296\nk = v\nSink Input #+9 \r\nk = \"\"v\"\"\r\n  Sink Input #x\nj = w");
    assert_eq!(snap.ids(), vec![9]);
    let p = snap.get(9).unwrap();
    assert_eq!(prop(p, "k"), Some("v".to_string()));
    assert_eq!(prop(p, "j"), Some("w".to_string()));
}

#[test]
fn setting_absent_stream_changes_nothing() {
    let mut st = AppState::new(None);
    st.refresh(LISTING, None);
    assert_eq!(st.stream_volume(99), None);
    st.set_stream_volume(99, dec(40, 0));
    assert_eq!(st.stream_volume(99), None);
    st.set_stream_volume(42, dec(40, 0));
    assert_eq!(st.stream_volume(42), Some(dec(40, 0)));
    let c = set_stream_volume_command(99, "40");
    assert_eq!(c.program, "pactl");
    assert_eq!(c.args, vec!["set-sink-input-volume", "99", "40%"]);
}

#[test]
fn main_volume_slider() {
    let mut st = AppState::new(None);
    st.set_main_volume(dec(125, 1));
    assert_eq!(st.main_volume(), dec(125, 1));
}

#[test]
fn command_lines() {
    let q = main_volume_query();
    assert_eq!(q.program, "wpctl");
    assert_eq!(q.args, vec!["get-volume", "@DEFAULT_AUDIO_SINK@"]);
    let l = stream_list_query();
    assert_eq!(l.program, "pactl");
    assert_eq!(l.args, vec!["list", "sink-inputs"]);
    let s = set_main_volume_command("65.00");
    assert_eq!(s.program, "wpctl");
    assert_eq!(s.args, vec!["set-volume", "@DEFAULT_AUDIO_SINK@", "65.00%"]);
    let t = set_stream_volume_command(4294967295, "12.5");
    assert_eq!(t.args, vec!["set-sink-input-volume", "4294967295", "12.5%"]);
}

#[test]
fn decimal_text_of_ids() {
    assert_eq!(decimal_text(0), "0");
    assert_eq!(decimal_text(10), "10");
    assert_eq!(decimal_text(4294967295), "4294967295");
}

#[test]
fn integers() {
    assert_eq!(parse_u32(&chars("42")), Some(42));
    assert_eq!(parse_u32(&chars("+42")), Some(42));
    assert_eq!(parse_u32(&chars("4294967295")), Some(4294967295));
    assert_eq!(parse_u32(&chars("4294967296")), None);
    assert_eq!(parse_u32(&chars("")), None);
    assert_eq!(parse_u32(&chars("+")), None);
    assert_eq!(parse_u32(&chars("-1")), None);
    assert_eq!(parse_u32(&chars("1 2")), None);
}

#[test]
fn decimals() {
    assert_eq!(parse_decimal(&chars("0.65")), Some(dec(65, 2)));
    assert_eq!(parse_decimal(&chars("5.")), Some(dec(5, 0)));
    assert_eq!(parse_decimal(&chars(".5")), Some(dec(5, 1)));
    assert_eq!(parse_decimal(&chars("18446744073709551615")), Some(dec(u64::MAX, 0)));
    assert_eq!(parse_decimal(&chars("18446744073709551616")), None);
    assert_eq!(parse_decimal(&chars(".")), None);
    assert_eq!(parse_decimal(&chars("")), None);
    assert_eq!(parse_decimal(&chars("1.2.3")), None);
    assert_eq!(parse_decimal(&chars("1e3")), None);
}

#[test]
fn times_hundred_values() {
    assert_eq!(times_hundred(dec(65, 2)), Some(dec(65, 0)));
    assert_eq!(times_hundred(dec(655, 3)), Some(dec(655, 1)));
    assert_eq!(times_hundred(dec(5, 1)), Some(dec(50, 0)));
    assert_eq!(times_hundred(dec(1, 0)), Some(dec(100, 0)));
    assert_eq!(times_hundred(dec(u64::MAX, 0)), None);
    assert_eq!(times_hundred(dec(u64::MAX, 1)), None);
}

#[test]
fn props_insert_and_get() {
    let mut p = Props::new();
    p.insert("a".to_string(), "1".to_string());
    p.insert("b".to_string(), "2".to_string());
    p.insert("a".to_string(), "3".to_string());
    assert_eq!(p.len(), 2);
    assert_eq!(prop(&p, "a"), Some("3".to_string()));
    assert_eq!(prop(&p, "c"), None);
}

#[test]
fn stream_titles() {
    let snap = parse_stream_list("Sink Input #1\nmedia.name = \"Song\"\napplication.name = \"Player\"\nSink Input #2\napplication.process.binary = \"mpv\"\napplication.name = \"MPV\"\nSink Input #3\napplication.process.binary = \"mpv\"\nSink Input #4\n");
    assert_eq!(snap.get(1).unwrap().title(), "Song");
    assert_eq!(snap.get(2).unwrap().title(), "MPV");
    assert_eq!(snap.get(3).unwrap().title(), "mpv");
    assert_eq!(snap.get(4).unwrap().title(), "Unknown");
}
