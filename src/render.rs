//! The text of records, banners and the endpoint address.
use vstd::prelude::*;

use vstd::string::StringSliceAdditionalSpecFns;

use crate::clock::ClockTime;

verus! {

/// Width of the console banners, in characters.
pub const BANNER_WIDTH: usize = 80;

/// The ASCII digit for `d`, which lies in `0..10`.
pub open spec fn digit(d: int) -> u8 {
    (48 + d) as u8
}

/// `n` (below 100) in two digits.
pub open spec fn two_digits(n: int) -> Seq<u8> {
    seq![digit(n / 10), digit(n % 10)]
}

/// `n` (below 1000) in three digits.
pub open spec fn three_digits(n: int) -> Seq<u8> {
    seq![digit(n / 100), digit(n / 10 % 10), digit(n % 10)]
}

/// `HH:MM:SS.mmm`, 24-hour, without a date.
pub open spec fn time_text(t: ClockTime) -> Seq<u8> {
    two_digits(t.hour as int) + seq![58u8] + two_digits(t.minute as int) + seq![58u8]
        + two_digits(t.second as int) + seq![46u8] + three_digits(t.millis as int)
}

/// The stamp in front of a record: `[HH:MM:SS.mmm]`.
pub open spec fn stamp_text(t: ClockTime) -> Seq<u8> {
    seq![91u8] + time_text(t) + seq![93u8]
}

/// A record as written to the log: the stamp, a space, then the line.
pub open spec fn record_text(t: ClockTime, line: Seq<u8>) -> Seq<u8> {
    stamp_text(t) + seq![32u8] + line
}

/// `n` in decimal, without leading zeros.
pub open spec fn decimal(n: nat) -> Seq<u8>
    decreases n,
{
    if n < 10 {
        seq![digit(n as int)]
    } else {
        decimal(n / 10).push(digit((n % 10) as int))
    }
}

/// `host:port`, as bytes.
pub open spec fn address_text(host: Seq<u8>, port: u16) -> Seq<u8> {
    host + seq![58u8] + decimal(port as nat)
}

/// The banner fill character `─` (U+2500) in UTF-8.
pub open spec fn fill_char() -> Seq<u8> {
    seq![0xe2u8, 0x94u8, 0x80u8]
}

/// `n` fill characters.
pub open spec fn fill_text(n: nat) -> Seq<u8>
    decreases n,
{
    if n == 0 {
        seq![]
    } else {
        fill_text((n - 1) as nat) + fill_char()
    }
}

fn push_digit(out: &mut Vec<u8>, d: u32)
    requires
        d < 10,
    ensures
        final(out)@ == old(out)@.push(digit(d as int)),
{
    out.push((48 + d) as u8);
}

/// The text of `t` as `HH:MM:SS.mmm`.
pub fn format_time(t: &ClockTime) -> (r: Vec<u8>)
    requires
        t.wf(),
    ensures
        r@ == time_text(*t),
{
    let mut r: Vec<u8> = Vec::new();
    push_digit(&mut r, t.hour / 10);
    push_digit(&mut r, t.hour % 10);
    r.push(58u8);
    push_digit(&mut r, t.minute / 10);
    push_digit(&mut r, t.minute % 10);
    r.push(58u8);
    push_digit(&mut r, t.second / 10);
    push_digit(&mut r, t.second % 10);
    r.push(46u8);
    push_digit(&mut r, t.millis / 100);
    push_digit(&mut r, t.millis / 10 % 10);
    push_digit(&mut r, t.millis % 10);
    assert(r@ =~= time_text(*t));
    r
}

/// The stamp `[HH:MM:SS.mmm]` of a record taken at `t`.
pub fn format_stamp(t: &ClockTime) -> (r: Vec<u8>)
    requires
        t.wf(),
    ensures
        r@ == stamp_text(*t),
{
    let mut r: Vec<u8> = Vec::new();
    r.push(91u8);
    let mut time = format_time(t);
    r.append(&mut time);
    r.push(93u8);
    assert(r@ =~= stamp_text(*t));
    r
}

fn push_all(out: &mut Vec<u8>, bytes: &[u8])
    ensures
        final(out)@ == old(out)@ + bytes@,
{
    let mut i: usize = 0;
    while i < bytes.len()
        invariant
            i <= bytes@.len(),
            out@ == old(out)@ + bytes@.take(i as int),
        decreases bytes@.len() - i,
    {
        out.push(bytes[i]);
        i = i + 1;
        assert(out@ =~= old(out)@ + bytes@.take(i as int));
    }
    assert(bytes@.take(bytes@.len() as int) =~= bytes@);
}

/// The record of `line`, received at `t`: `[HH:MM:SS.mmm] line`.
pub fn format_record(t: &ClockTime, line: &[u8]) -> (r: Vec<u8>)
    requires
        t.wf(),
    ensures
        r@ == record_text(*t, line@),
{
    let mut r = format_stamp(t);
    r.push(32u8);
    push_all(&mut r, line);
    r
}

fn push_decimal(out: &mut Vec<u8>, n: u16)
    ensures
        final(out)@ == old(out)@ + decimal(n as nat),
    decreases n,
{
    if n >= 10 {
        push_decimal(out, n / 10);
    }
    push_digit(out, (n % 10) as u32);
    assert(final(out)@ =~= old(out)@ + decimal(n as nat));
}

/// The address `host:port` to connect to.
pub fn endpoint_address(host: &str, port: u16) -> (r: Vec<u8>)
    ensures
        r@ == address_text(host.spec_bytes(), port),
{
    let mut r: Vec<u8> = Vec::new();
    push_all(&mut r, host.as_bytes());
    r.push(58u8);
    push_decimal(&mut r, port);
    assert(r@ =~= address_text(host.spec_bytes(), port));
    r
}

/// The number of fill characters left and right of a banner label of
/// `label_width` characters, centred in `BANNER_WIDTH` columns; the odd one
/// goes to the right.
pub fn banner_padding(label_width: usize) -> (r: (usize, usize))
    requires
        label_width <= BANNER_WIDTH,
    ensures
        r.0 == (BANNER_WIDTH - label_width) / 2,
        r.0 + label_width + r.1 == BANNER_WIDTH,
{
    let room = BANNER_WIDTH - label_width;
    (room / 2, room - room / 2)
}

/// `n` banner fill characters.
pub fn fill(n: usize) -> (r: Vec<u8>)
    ensures
        r@ == fill_text(n as nat),
{
    let mut r: Vec<u8> = Vec::new();
    let mut i: usize = 0;
    while i < n
        invariant
            i <= n,
            r@ == fill_text(i as nat),
        decreases n - i,
    {
        r.push(0xe2u8);
        r.push(0x94u8);
        r.push(0x80u8);
        i = i + 1;
        assert(r@ =~= fill_text(i as nat));
    }
    r
}

} // verus!
