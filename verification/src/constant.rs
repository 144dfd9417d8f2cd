//! Event-key naming: the channel names under which one session's
//! input, resize and output travel between the core and the
//! presentation boundary, each keyed by the session id in decimal.

use vstd::prelude::*;

verus! {

/// The name of the event that tells the presentation boundary to
/// retire a terminal's view.
pub const DESTROY_TERMINAL: &'static str = "destroy";

/// The name of the event that carries directory listings to the
/// presentation boundary.
pub const UPDATE_FILES: &'static str = "files";

/// The decimal digit `d` as a character, for `d < 10`.
pub open spec fn dec_digit(d: nat) -> char
    recommends
        d < 10,
{
    if d == 0 {
        '0'
    } else if d == 1 {
        '1'
    } else if d == 2 {
        '2'
    } else if d == 3 {
        '3'
    } else if d == 4 {
        '4'
    } else if d == 5 {
        '5'
    } else if d == 6 {
        '6'
    } else if d == 7 {
        '7'
    } else if d == 8 {
        '8'
    } else {
        '9'
    }
}

/// The usual decimal writing of `n`: no leading zeroes, most
/// significant digit first.
pub open spec fn dec_chars(n: nat) -> Seq<char>
    decreases n,
{
    if n < 10 {
        seq![dec_digit(n)]
    } else {
        dec_chars(n / 10) + seq![dec_digit(n % 10)]
    }
}

/// Append the single digit `d` to `s`.
fn push_digit(s: &mut String, d: u8)
    requires
        d < 10,
    ensures
        final(s)@ == old(s)@ + seq![dec_digit(d as nat)],
{
    let lit: &str = match d {
        0 => "0",
        1 => "1",
        2 => "2",
        3 => "3",
        4 => "4",
        5 => "5",
        6 => "6",
        7 => "7",
        8 => "8",
        _ => "9",
    };
    proof {
        reveal_strlit("0");
        reveal_strlit("1");
        reveal_strlit("2");
        reveal_strlit("3");
        reveal_strlit("4");
        reveal_strlit("5");
        reveal_strlit("6");
        reveal_strlit("7");
        reveal_strlit("8");
        reveal_strlit("9");
        assert(lit@ =~= seq![dec_digit(d as nat)]);
    }
    s.append(lit);
}

/// The id written in decimal.
fn dec_string(n: u8) -> (s: String)
    ensures
        s@ == dec_chars(n as nat),
    decreases n,
{
    if n < 10 {
        let mut s = String::new();
        push_digit(&mut s, n);
        proof {
            assert(Seq::<char>::empty() + seq![dec_digit(n as nat)] =~= seq![
                dec_digit(n as nat),
            ]);
        }
        s
    } else {
        let mut s = dec_string(n / 10);
        push_digit(&mut s, n % 10);
        s
    }
}

/// The channel name of a key: the given prefix followed by the id in
/// decimal.
pub open spec fn event_key_chars(prefix: Seq<char>, id: u8) -> Seq<char> {
    prefix + dec_chars(id as nat)
}

/// The name under which input for session `id` arrives.
pub fn writer_event_key(id: &u8) -> (key: String)
    ensures
        key@ == event_key_chars("writer-"@, *id),
{
    let mut key = String::from_str("writer-");
    key.append(dec_string(*id).as_str());
    key
}

/// The name under which resize requests for session `id` arrive.
pub fn resize_event_key(id: &u8) -> (key: String)
    ensures
        key@ == event_key_chars("resize-"@, *id),
{
    let mut key = String::from_str("resize-");
    key.append(dec_string(*id).as_str());
    key
}

/// The name under which session `id`'s output is forwarded to the
/// presentation boundary.
pub fn reader_event_key(id: &u8) -> (key: String)
    ensures
        key@ == event_key_chars("data-"@, *id),
{
    let mut key = String::from_str("data-");
    key.append(dec_string(*id).as_str());
    key
}

} // verus!
