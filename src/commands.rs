//! The command lines that query the audio tools and apply volume changes.
use vstd::prelude::*;

verus! {

/// A program to run and its arguments.
#[derive(Debug)]
pub struct CommandLine {
    pub program: String,
    pub args: Vec<String>,
}

impl CommandLine {
    /// The arguments, as text.
    pub open spec fn spec_args(&self) -> Seq<Seq<char>> {
        self.args@.map_values(|a: String| a@)
    }
}

/// The decimal digits of `n`, without sign or leading zeros.
pub open spec fn decimal_digits(n: nat) -> Seq<char>
    decreases n,
{
    if n < 10 {
        seq![digit_char(n)]
    } else {
        decimal_digits(n / 10).push(digit_char(n % 10))
    }
}

pub open spec fn digit_char(d: nat) -> char {
    (('0' as u32) + d) as char
}

fn decimal_chars(n: u32) -> (r: Vec<char>)
    ensures
        r@ == decimal_digits(n as nat),
    decreases n,
{
    let d = (n % 10) as u8;
    let c = ('0' as u8 + d) as char;
    assert(c == digit_char((n % 10) as nat));
    if n < 10 {
        vec![c]
    } else {
        let mut v = decimal_chars(n / 10);
        v.push(c);
        v
    }
}

/// `n` written in decimal, as `u32`'s `Display` writes it.
pub fn decimal_text(n: u32) -> (r: String)
    ensures
        r@ == decimal_digits(n as nat),
{
    crate::text::string_of(&decimal_chars(n))
}

/// The main-volume query: `wpctl get-volume @DEFAULT_AUDIO_SINK@`.
pub fn main_volume_query() -> (r: CommandLine)
    ensures
        r.program@ == "wpctl"@,
        r.spec_args() == seq!["get-volume"@, "@DEFAULT_AUDIO_SINK@"@],
{
    let r = CommandLine {
        program: String::from_str("wpctl"),
        args: vec![String::from_str("get-volume"), String::from_str("@DEFAULT_AUDIO_SINK@")],
    };
    assert(r.spec_args() =~= seq!["get-volume"@, "@DEFAULT_AUDIO_SINK@"@]);
    r
}

/// The stream listing query: `pactl list sink-inputs`.
pub fn stream_list_query() -> (r: CommandLine)
    ensures
        r.program@ == "pactl"@,
        r.spec_args() == seq!["list"@, "sink-inputs"@],
{
    let r = CommandLine {
        program: String::from_str("pactl"),
        args: vec![String::from_str("list"), String::from_str("sink-inputs")],
    };
    assert(r.spec_args() =~= seq!["list"@, "sink-inputs"@]);
    r
}

/// Sets the main volume: `wpctl set-volume @DEFAULT_AUDIO_SINK@ <percent>%`,
/// where `percent` is the percentage already written out with two decimals.
pub fn set_main_volume_command(percent: &str) -> (r: CommandLine)
    ensures
        r.program@ == "wpctl"@,
        r.spec_args() == seq!["set-volume"@, "@DEFAULT_AUDIO_SINK@"@, percent@ + "%"@],
{
    let r = CommandLine {
        program: String::from_str("wpctl"),
        args: vec![
            String::from_str("set-volume"),
            String::from_str("@DEFAULT_AUDIO_SINK@"),
            String::from_str(percent).concat("%"),
        ],
    };
    assert(r.spec_args() =~= seq!["set-volume"@, "@DEFAULT_AUDIO_SINK@"@, percent@ + "%"@]);
    r
}

/// The arguments that set the volume of stream `id` to `percent` percent.
pub open spec fn stream_volume_args(id: u32, percent: Seq<char>) -> Seq<Seq<char>> {
    seq!["set-sink-input-volume"@, decimal_digits(id as nat), percent + "%"@]
}

/// Sets the volume of one stream, whatever streams are known:
/// `pactl set-sink-input-volume <id> <percent>%`.
pub fn set_stream_volume_command(id: u32, percent: &str) -> (r: CommandLine)
    ensures
        r.program@ == "pactl"@,
        r.spec_args() == stream_volume_args(id, percent@),
{
    let r = CommandLine {
        program: String::from_str("pactl"),
        args: vec![
            String::from_str("set-sink-input-volume"),
            decimal_text(id),
            String::from_str(percent).concat("%"),
        ],
    };
    assert(r.spec_args() =~= seq![
        "set-sink-input-volume"@,
        decimal_digits(id as nat),
        percent@ + "%"@,
    ]);
    r
}

} // verus!
