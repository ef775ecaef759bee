//! The durable record format: a human-readable, versionless text encoding of
//! channel snapshots (and of the transport envelope), with a verified parser.
//!
//! Integers are fixed-width lowercase hexadecimal; strings are length-prefixed;
//! options carry a one-character tag. A record that does not follow the layout
//! exactly, or that describes an ill-formed channel, fails to decode.

use vstd::prelude::*;
use vstd::arithmetic::div_mod::*;
use crate::channel::{Channel, ChannelSettings, ChannelStatus, ChannelView};
use crate::message::{
    BroadcastMessage, BroadcastMessageView, MessageSenderView, MessageType, WebSocketResponseView,
};
use crate::text::{chars_of_str, string_from_chars};

verus! {

/// 16 to the power `k`.
pub open spec fn pow16(k: nat) -> nat
    decreases k,
{
    if k == 0 {
        1
    } else {
        16 * pow16((k - 1) as nat)
    }
}

/// The hexadecimal digit for a value below 16.
pub open spec fn hex_digit(d: nat) -> char {
    if d == 0 { '0' } else if d == 1 { '1' } else if d == 2 { '2' } else if d == 3 { '3' }
    else if d == 4 { '4' } else if d == 5 { '5' } else if d == 6 { '6' } else if d == 7 { '7' }
    else if d == 8 { '8' } else if d == 9 { '9' } else if d == 10 { 'a' } else if d == 11 { 'b' }
    else if d == 12 { 'c' } else if d == 13 { 'd' } else if d == 14 { 'e' } else { 'f' }
}

/// The value of a hexadecimal digit; 16 for any other character.
pub open spec fn hex_val(c: char) -> nat {
    if c == '0' { 0 } else if c == '1' { 1 } else if c == '2' { 2 } else if c == '3' { 3 }
    else if c == '4' { 4 } else if c == '5' { 5 } else if c == '6' { 6 } else if c == '7' { 7 }
    else if c == '8' { 8 } else if c == '9' { 9 } else if c == 'a' { 10 } else if c == 'b' { 11 }
    else if c == 'c' { 12 } else if c == 'd' { 13 } else if c == 'e' { 14 } else if c == 'f' { 15 }
    else { 16 }
}

pub open spec fn is_hex_digit(c: char) -> bool {
    hex_val(c) < 16
}

pub open spec fn all_hex(s: Seq<char>) -> bool {
    forall|i: int| 0 <= i < s.len() ==> is_hex_digit(#[trigger] s[i])
}

/// `n` written as exactly `w` hexadecimal digits, most significant first.
/// Only the low `w` digits of `n` appear.
pub open spec fn enc_hex(n: nat, w: nat) -> Seq<char> {
    Seq::new(w, |k: int| hex_digit((n / pow16((w - 1 - k) as nat)) % 16))
}

/// The value of a sequence of hexadecimal digits, most significant first.
pub open spec fn hex_seq_val(s: Seq<char>) -> nat
    decreases s.len(),
{
    if s.len() == 0 {
        0
    } else {
        hex_seq_val(s.drop_last()) * 16 + hex_val(s.last()) % 16
    }
}

/// Read exactly `w` hexadecimal digits at position `i`: the value and the
/// position after them, or nothing if the input is too short or a character
/// is not a digit.
pub open spec fn p_hex(s: Seq<char>, i: int, w: int) -> Option<(nat, int)> {
    if 0 <= i && 0 <= w && i + w <= s.len() && all_hex(s.subrange(i, i + w)) {
        Some((hex_seq_val(s.subrange(i, i + w)), i + w))
    } else {
        None
    }
}

/// Read one character at position `i`.
pub open spec fn p_char(s: Seq<char>, i: int) -> Option<(char, int)> {
    if 0 <= i < s.len() {
        Some((s[i], i + 1))
    } else {
        None
    }
}

/// Read a length-prefixed string: sixteen hexadecimal digits giving the
/// character count, then that many characters.
pub open spec fn p_str(s: Seq<char>, i: int) -> Option<(Seq<char>, int)> {
    match p_hex(s, i, 16) {
        Some((n, j)) => if j + n <= s.len() {
            Some((s.subrange(j, j + n as int), j + n as int))
        } else {
            None
        },
        None => None,
    }
}

/// The one-character tag of a status.
pub open spec fn status_char(st: ChannelStatus) -> char {
    match st {
        ChannelStatus::Created => 'C',
        ChannelStatus::Active => 'A',
        ChannelStatus::Paused => 'P',
        ChannelStatus::Stopped => 'S',
    }
}

pub open spec fn char_status(c: char) -> Option<ChannelStatus> {
    if c == 'C' { Some(ChannelStatus::Created) }
    else if c == 'A' { Some(ChannelStatus::Active) }
    else if c == 'P' { Some(ChannelStatus::Paused) }
    else if c == 'S' { Some(ChannelStatus::Stopped) }
    else { None }
}

pub open spec fn bool_char(b: bool) -> char {
    if b { '1' } else { '0' }
}

pub open spec fn char_bool(c: char) -> Option<bool> {
    if c == '1' { Some(true) } else if c == '0' { Some(false) } else { None }
}

/// The optional rate limit: a tag, then eight hexadecimal digits when present.
pub open spec fn enc_rate(r: Option<u32>) -> Seq<char> {
    match r {
        Some(v) => seq!['1'] + enc_hex(v as nat, 8),
        None => seq!['0'],
    }
}

pub open spec fn p_rate(s: Seq<char>, i: int) -> Option<(Option<u32>, int)> {
    match p_char(s, i) {
        Some((t, j)) => if t == '0' {
            Some((None, j))
        } else if t == '1' {
            match p_hex(s, j, 8) {
                Some((v, j2)) => Some((Some(v as u32), j2)),
                None => None,
            }
        } else {
            None
        },
        None => None,
    }
}

/// An optional string: a tag, then a length-prefixed string when present.
pub open spec fn enc_opt_str(d: Option<Seq<char>>) -> Seq<char> {
    match d {
        Some(s) => seq!['1'] + enc_hex(s.len(), 16) + s,
        None => seq!['0'],
    }
}

pub open spec fn p_opt_str(s: Seq<char>, i: int) -> Option<(Option<Seq<char>>, int)> {
    match p_char(s, i) {
        Some((t, j)) => if t == '0' {
            Some((None, j))
        } else if t == '1' {
            match p_str(s, j) {
                Some((d, j2)) => Some((Some(d), j2)),
                None => None,
            }
        } else {
            None
        },
        None => None,
    }
}

/// The persisted snapshot of a channel, as characters: id, both timestamps,
/// status, the settings, then the name and the optional description.
pub open spec fn channel_record(c: ChannelView) -> Seq<char> {
    enc_hex(c.id as nat, 32) + enc_hex(c.created_at as nat, 16) + enc_hex(c.updated_at as nat, 16)
        + seq![status_char(c.status)] + enc_hex(c.settings.max_connections as nat, 16)
        + seq![bool_char(c.settings.allow_client_messages)]
        + seq![bool_char(c.settings.persist_messages)]
        + enc_rate(c.settings.rate_limit_per_minute) + enc_hex(c.name.len(), 16) + c.name
        + enc_opt_str(c.description)
}

/// Decode one channel record. Yields a channel exactly when the input is a
/// whole, well-shaped record of a well-formed channel; anything else fails.
pub open spec fn parse_channel_record(s: Seq<char>) -> Option<ChannelView> {
    match p_hex(s, 0, 32) {
        None => None,
        Some((id, i1)) => match p_hex(s, i1, 16) {
            None => None,
            Some((ca, i2)) => match p_hex(s, i2, 16) {
                None => None,
                Some((ua, i3)) => match p_char(s, i3) {
                    None => None,
                    Some((stc, i4)) => match char_status(stc) {
                        None => None,
                        Some(st) => match p_hex(s, i4, 16) {
                            None => None,
                            Some((mc, i5)) => match p_char(s, i5) {
                                None => None,
                                Some((acmc, i6)) => match char_bool(acmc) {
                                    None => None,
                                    Some(acm) => match p_char(s, i6) {
                                        None => None,
                                        Some((pmc, i7)) => match char_bool(pmc) {
                                            None => None,
                                            Some(pm) => match p_rate(s, i7) {
                                                None => None,
                                                Some((rl, i8)) => match p_str(s, i8) {
                                                    None => None,
                                                    Some((name, i9)) => match p_opt_str(s, i9) {
                                                        None => None,
                                                        Some((desc, i10)) => {
                                                            let c = ChannelView {
                                                                id: id as u128,
                                                                name: name,
                                                                description: desc,
                                                                status: st,
                                                                created_at: ca as u64,
                                                                updated_at: ua as u64,
                                                                settings: ChannelSettings {
                                                                    max_connections: mc as usize,
                                                                    allow_client_messages: acm,
                                                                    persist_messages: pm,
                                                                    rate_limit_per_minute: rl,
                                                                },
                                                            };
                                                            if i10 == s.len() && mc
                                                                <= usize::MAX as nat && c.wf() {
                                                                Some(c)
                                                            } else {
                                                                None
                                                            }
                                                        },
                                                    },
                                                },
                                            },
                                        },
                                    },
                                },
                            },
                        },
                    },
                },
            },
        },
    }
}

pub proof fn lemma_pow16_pos(k: nat)
    ensures
        pow16(k) >= 1,
    decreases k,
{
    if k > 0 {
        lemma_pow16_pos((k - 1) as nat);
    }
}

pub proof fn lemma_pow16_mono(a: nat, b: nat)
    requires
        a <= b,
    ensures
        pow16(a) <= pow16(b),
    decreases b,
{
    if a < b {
        lemma_pow16_mono(a, (b - 1) as nat);
        lemma_pow16_pos((b - 1) as nat);
    }
}

/// The powers of 16 at the three widths the record format uses.
pub proof fn lemma_pow16_values()
    ensures
        pow16(8) == 0x1_0000_0000,
        pow16(16) == 0x1_0000_0000_0000_0000,
        pow16(32) == 0x1_0000_0000_0000_0000_0000_0000_0000_0000,
{
    reveal_with_fuel(pow16, 33);
}

pub proof fn lemma_hex_digit_val(d: nat)
    requires
        d < 16,
    ensures
        is_hex_digit(hex_digit(d)),
        hex_val(hex_digit(d)) == d,
{
}

/// A fixed-width encoding of a value in range reads back as that value.
pub proof fn lemma_enc_hex_val(n: nat, w: nat)
    requires
        n < pow16(w),
    ensures
        enc_hex(n, w).len() == w,
        all_hex(enc_hex(n, w)),
        hex_seq_val(enc_hex(n, w)) == n,
    decreases w,
{
    if w == 0 {
        assert(enc_hex(n, 0) =~= Seq::<char>::empty());
    } else {
        let e = enc_hex(n, w);
        let p1 = pow16((w - 1) as nat);
        lemma_pow16_pos((w - 1) as nat);
        let n1 = n / 16;
        assert(n <= 16 * p1 - 1);
        lemma_div_is_ordered(n as int, 16 * p1 - 1, 16);
        lemma_fundamental_div_mod_converse(16 * p1 as int - 1, 16, p1 as int - 1, 15);
        assert(n1 < p1);
        lemma_enc_hex_val(n1, (w - 1) as nat);
        assert forall|k: int| 0 <= k < w - 1 implies e.drop_last()[k] == enc_hex(
            n1,
            (w - 1) as nat,
        )[k] by {
            let q = pow16((w - 2 - k) as nat);
            lemma_pow16_pos((w - 2 - k) as nat);
            lemma_div_denominator(n as int, 16, q as int);
            assert(pow16((w - 1 - k) as nat) == 16 * q);
        }
        assert(e.drop_last() =~= enc_hex(n1, (w - 1) as nat));
        lemma_div_basics(n as int);
        assert(e.last() == hex_digit((n % 16) as nat));
        lemma_hex_digit_val((n % 16) as nat);
        lemma_fundamental_div_mod(n as int, 16);
        assert(hex_seq_val(e) == n1 * 16 + n % 16);
        assert forall|i: int| 0 <= i < w implies is_hex_digit(e[i]) by {
            if i < w - 1 {
                assert(e[i] == e.drop_last()[i]);
            }
        }
    }
}

/// Reading at a position where an in-range encoding was laid down yields the
/// encoded value and stops right after it.
pub proof fn lemma_p_hex_exact(s: Seq<char>, i: int, n: nat, w: nat)
    requires
        0 <= i,
        i + w <= s.len(),
        s.subrange(i, i + w) == enc_hex(n, w),
        n < pow16(w),
    ensures
        p_hex(s, i, w as int) == Some((n, i + w as int)),
{
    lemma_enc_hex_val(n, w);
}

/// Decoding inverts encoding: a well-formed channel's record parses back to
/// exactly that channel. The length bounds are forced by the fixed sixteen-
/// digit length prefixes, which any in-memory string satisfies.
#[verifier::rlimit(100)]
#[verifier::spinoff_prover]
pub proof fn lemma_channel_record_round_trip(c: ChannelView)
    requires
        c.wf(),
        c.name.len() < pow16(16),
        c.description matches Some(d) ==> d.len() < pow16(16),
    ensures
        parse_channel_record(channel_record(c)) == Some(c),
{
    lemma_pow16_values();
    let s = channel_record(c);
    let nm = c.name;
    let mc = c.settings.max_connections;
    assert(s.subrange(0, 32) =~= enc_hex(c.id as nat, 32));
    lemma_p_hex_exact(s, 0, c.id as nat, 32);
    assert(s.subrange(32, 48) =~= enc_hex(c.created_at as nat, 16));
    lemma_p_hex_exact(s, 32, c.created_at as nat, 16);
    assert(s.subrange(48, 64) =~= enc_hex(c.updated_at as nat, 16));
    lemma_p_hex_exact(s, 48, c.updated_at as nat, 16);
    assert(s[64] == status_char(c.status));
    assert(char_status(status_char(c.status)) == Some(c.status));
    assert(s.subrange(65, 81) =~= enc_hex(mc as nat, 16));
    lemma_p_hex_exact(s, 65, mc as nat, 16);
    assert(s[81] == bool_char(c.settings.allow_client_messages));
    assert(s[82] == bool_char(c.settings.persist_messages));
    let i8 = match c.settings.rate_limit_per_minute {
        Some(v) => {
            assert(s[83] == '1');
            assert(s.subrange(84, 92) =~= enc_hex(v as nat, 8));
            lemma_p_hex_exact(s, 84, v as nat, 8);
            92int
        },
        None => {
            assert(s[83] == '0');
            84int
        },
    };
    assert(p_rate(s, 83) == Some((c.settings.rate_limit_per_minute, i8)));
    assert(s.subrange(i8, i8 + 16) =~= enc_hex(nm.len(), 16));
    lemma_p_hex_exact(s, i8, nm.len(), 16);
    let i9 = i8 + 16 + nm.len() as int;
    assert(s.subrange(i8 + 16, i9) =~= nm);
    assert(p_str(s, i8) == Some((nm, i9)));
    let i10 = match c.description {
        Some(d) => {
            assert(s[i9] == '1');
            assert(s.subrange(i9 + 1, i9 + 17) =~= enc_hex(d.len(), 16));
            lemma_p_hex_exact(s, i9 + 1, d.len(), 16);
            assert(s.subrange(i9 + 17, i9 + 17 + d.len() as int) =~= d);
            assert(p_str(s, i9 + 1) == Some((d, i9 + 17 + d.len() as int)));
            i9 + 17 + d.len() as int
        },
        None => {
            assert(s[i9] == '0');
            i9 + 1
        },
    };
    assert(p_opt_str(s, i9) == Some((c.description, i10)));
    assert(i10 == s.len());
    assert(parse_channel_record(s) == Some(c));
}

fn hex_digit_exec(d: u8) -> (c: char)
    requires
        d < 16,
    ensures
        c == hex_digit(d as nat),
{
    if d == 0 { '0' } else if d == 1 { '1' } else if d == 2 { '2' } else if d == 3 { '3' }
    else if d == 4 { '4' } else if d == 5 { '5' } else if d == 6 { '6' } else if d == 7 { '7' }
    else if d == 8 { '8' } else if d == 9 { '9' } else if d == 10 { 'a' } else if d == 11 { 'b' }
    else if d == 12 { 'c' } else if d == 13 { 'd' } else if d == 14 { 'e' } else { 'f' }
}

fn hex_val_exec(c: char) -> (d: u8)
    ensures
        d as nat == hex_val(c),
{
    if c == '0' { 0 } else if c == '1' { 1 } else if c == '2' { 2 } else if c == '3' { 3 }
    else if c == '4' { 4 } else if c == '5' { 5 } else if c == '6' { 6 } else if c == '7' { 7 }
    else if c == '8' { 8 } else if c == '9' { 9 } else if c == 'a' { 10 } else if c == 'b' { 11 }
    else if c == 'c' { 12 } else if c == 'd' { 13 } else if c == 'e' { 14 } else if c == 'f' { 15 }
    else { 16 }
}

/// Append the fixed-width hexadecimal encoding of `n` to `out`.
pub(crate) fn push_hex(out: &mut Vec<char>, n: u128, w: usize)
    requires
        w <= 32,
    ensures
        final(out)@ == old(out)@ + enc_hex(n as nat, w as nat),
{
    let mut tmp: Vec<char> = Vec::new();
    let mut cur: u128 = n;
    let mut j: usize = 0;
    proof {
        lemma_div_basics(n as int);
    }
    while j < w
        invariant
            j <= w,
            w <= 32,
            tmp@.len() == j,
            cur as nat == (n as nat) / pow16(j as nat),
            forall|t: int|
                0 <= t < j ==> tmp@[t] == hex_digit((((n as nat) / pow16(t as nat)) % 16) as nat),
        decreases w - j,
    {
        let d: u8 = (cur % 16) as u8;
        tmp.push(hex_digit_exec(d));
        proof {
            lemma_pow16_pos(j as nat);
            lemma_div_denominator(n as int, pow16(j as nat) as int, 16);
            assert(pow16((j + 1) as nat) == 16 * pow16(j as nat));
        }
        cur = cur / 16;
        j = j + 1;
    }
    let ghost base = out@;
    let ghost e = enc_hex(n as nat, w as nat);
    let mut k: usize = 0;
    while k < w
        invariant
            k <= w,
            w <= 32,
            tmp@.len() == w,
            forall|t: int|
                0 <= t < w ==> tmp@[t] == hex_digit((((n as nat) / pow16(t as nat)) % 16) as nat),
            e == enc_hex(n as nat, w as nat),
            out@ == base + e.subrange(0, k as int),
        decreases w - k,
    {
        out.push(tmp[w - 1 - k]);
        proof {
            assert(e[k as int] == tmp@[w - 1 - k]);
            assert(e.subrange(0, k + 1) =~= e.subrange(0, k as int).push(e[k as int]));
        }
        k = k + 1;
    }
    proof {
        assert(e.subrange(0, w as int) =~= e);
    }
}

/// Read exactly `w` hexadecimal digits of `s` starting at `i`.
fn read_hex(s: &Vec<char>, i: usize, w: usize) -> (r: Option<(u128, usize)>)
    requires
        w <= 32,
    ensures
        match r {
            Some(p) => p_hex(s@, i as int, w as int) == Some((p.0 as nat, p.1 as int)),
            None => p_hex(s@, i as int, w as int) is None,
        },
{
    let n_len = s.len();
    if i > n_len || w > n_len - i {
        return None;
    }
    let ghost whole = s@.subrange(i as int, i + w);
    let mut acc: u128 = 0;
    let mut k: usize = 0;
    while k < w
        invariant
            k <= w,
            w <= 32,
            i + w <= n_len,
            n_len == s@.len(),
            whole == s@.subrange(i as int, i + w as int),
            all_hex(s@.subrange(i as int, i + k)),
            acc as nat == hex_seq_val(s@.subrange(i as int, i + k)),
            (acc as nat) < pow16(k as nat),
        decreases w - k,
    {
        let c = s[i + k];
        let d = hex_val_exec(c);
        if d >= 16 {
            proof {
                assert(whole[k as int] == c);
                assert(!all_hex(whole));
            }
            return None;
        }
        proof {
            lemma_pow16_mono((k + 1) as nat, 32);
            lemma_pow16_values();
            assert(pow16((k + 1) as nat) == 16 * pow16(k as nat));
        }
        acc = acc * 16 + (d as u128);
        proof {
            let pre = s@.subrange(i as int, i + k as int);
            let ext = pre.push(s@[i + k]);
            assert(s@.subrange(i as int, i + k + 1) =~= ext);
            assert(ext.drop_last() =~= pre);
            assert(ext.last() == s@[i + k]);
        }
        k = k + 1;
    }
    Some((acc, i + w))
}

/// Read a length-prefixed string of `s` starting at `i`.
fn read_str(s: &Vec<char>, i: usize) -> (r: Option<(Vec<char>, usize)>)
    ensures
        match r {
            Some(p) => p_str(s@, i as int) == Some((p.0@, p.1 as int)),
            None => p_str(s@, i as int) is None,
        },
{
    let (n, j) = match read_hex(s, i, 16) {
        Some(p) => p,
        None => {
            return None;
        },
    };
    let n_len = s.len();
    if n > (n_len - j) as u128 {
        return None;
    }
    let len = n as usize;
    let mut out: Vec<char> = Vec::new();
    let mut k: usize = 0;
    while k < len
        invariant
            k <= len,
            j + len <= n_len,
            n_len == s@.len(),
            out@ == s@.subrange(j as int, j + k),
        decreases len - k,
    {
        out.push(s[j + k]);
        proof {
            assert(s@.subrange(j as int, j + k + 1) =~= s@.subrange(j as int, j + k as int).push(
                s@[j + k],
            ));
        }
        k = k + 1;
    }
    Some((out, j + len))
}

/// Serialize a channel snapshot into its durable record.
pub fn encode_channel(c: &Channel) -> (r: Vec<char>)
    ensures
        r@ == channel_record(c@),
{
    let mut out: Vec<char> = Vec::new();
    push_hex(&mut out, c.id, 32);
    push_hex(&mut out, c.created_at as u128, 16);
    push_hex(&mut out, c.updated_at as u128, 16);
    out.push(
        match c.status {
            ChannelStatus::Created => 'C',
            ChannelStatus::Active => 'A',
            ChannelStatus::Paused => 'P',
            ChannelStatus::Stopped => 'S',
        },
    );
    push_hex(&mut out, c.settings.max_connections as u128, 16);
    out.push(if c.settings.allow_client_messages { '1' } else { '0' });
    out.push(if c.settings.persist_messages { '1' } else { '0' });
    match c.settings.rate_limit_per_minute {
        Some(v) => {
            out.push('1');
            push_hex(&mut out, v as u128, 8);
        },
        None => {
            out.push('0');
        },
    }
    let mut name_chars = chars_of_str(c.name.as_str());
    push_hex(&mut out, name_chars.len() as u128, 16);
    out.append(&mut name_chars);
    match &c.description {
        Some(d) => {
            let mut desc_chars = chars_of_str(d.as_str());
            out.push('1');
            push_hex(&mut out, desc_chars.len() as u128, 16);
            out.append(&mut desc_chars);
        },
        None => {
            out.push('0');
        },
    }
    proof {
        assert(out@ =~= channel_record(c@));
    }
    out
}

/// Decode one durable channel record, exactly as `parse_channel_record` says.
pub fn parse_channel(s: &Vec<char>) -> (r: Option<Channel>)
    ensures
        match r {
            Some(c) => parse_channel_record(s@) == Some(c@),
            None => parse_channel_record(s@) is None,
        },
{
    let (id, i1) = match read_hex(s, 0, 32) {
        Some(p) => p,
        None => {
            return None;
        },
    };
    let (ca, i2) = match read_hex(s, i1, 16) {
        Some(p) => p,
        None => {
            return None;
        },
    };
    let (ua, i3) = match read_hex(s, i2, 16) {
        Some(p) => p,
        None => {
            return None;
        },
    };
    if i3 >= s.len() {
        return None;
    }
    let stc = s[i3];
    let i4 = i3 + 1;
    let st = if stc == 'C' {
        ChannelStatus::Created
    } else if stc == 'A' {
        ChannelStatus::Active
    } else if stc == 'P' {
        ChannelStatus::Paused
    } else if stc == 'S' {
        ChannelStatus::Stopped
    } else {
        return None;
    };
    let (mc, i5) = match read_hex(s, i4, 16) {
        Some(p) => p,
        None => {
            return None;
        },
    };
    if mc > usize::MAX as u128 {
        return None;
    }
    if i5 >= s.len() {
        return None;
    }
    let acm = match char_bool_exec(s[i5]) {
        Some(b) => b,
        None => {
            return None;
        },
    };
    let i6 = i5 + 1;
    if i6 >= s.len() {
        return None;
    }
    let pm = match char_bool_exec(s[i6]) {
        Some(b) => b,
        None => {
            return None;
        },
    };
    let i7 = i6 + 1;
    if i7 >= s.len() {
        return None;
    }
    let (rl, i8) = if s[i7] == '0' {
        (None, i7 + 1)
    } else if s[i7] == '1' {
        match read_hex(s, i7 + 1, 8) {
            Some(p) => (Some(p.0 as u32), p.1),
            None => {
                return None;
            },
        }
    } else {
        return None;
    };
    let (name_chars, i9) = match read_str(s, i8) {
        Some(p) => p,
        None => {
            return None;
        },
    };
    if i9 >= s.len() {
        return None;
    }
    let (desc_chars, i10) = if s[i9] == '0' {
        (None, i9 + 1)
    } else if s[i9] == '1' {
        match read_str(s, i9 + 1) {
            Some(p) => (Some(p.0), p.1),
            None => {
                return None;
            },
        }
    } else {
        return None;
    };
    if i10 != s.len() {
        return None;
    }
    if name_chars.len() == 0 {
        return None;
    }
    let created_at = ca as u64;
    let updated_at = ua as u64;
    if created_at > updated_at {
        return None;
    }
    let description = match desc_chars {
        Some(d) => Some(string_from_chars(&d)),
        None => None,
    };
    let c = Channel {
        id: id,
        name: string_from_chars(&name_chars),
        description: description,
        status: st,
        created_at: created_at,
        updated_at: updated_at,
        settings: ChannelSettings {
            max_connections: mc as usize,
            allow_client_messages: acm,
            persist_messages: pm,
            rate_limit_per_minute: rl,
        },
    };
    Some(c)
}

/// The one-character tag of a message type.
pub open spec fn mtype_char(t: MessageType) -> char {
    match t {
        MessageType::Broadcast => 'B',
        MessageType::System => 'Y',
        MessageType::ClientMessage => 'C',
        MessageType::StatusUpdate => 'U',
    }
}

/// A sender: a tag, then the client identifier when there is one.
pub open spec fn enc_sender(s: MessageSenderView) -> Seq<char> {
    match s {
        MessageSenderView::Server => seq!['V'],
        MessageSenderView::Client(id) => seq!['C'] + enc_hex(id.len(), 16) + id,
        MessageSenderView::System => seq!['Y'],
    }
}

/// The persisted snapshot of a message: both ids, the timestamp, the type,
/// the sender and the content.
pub open spec fn message_record(m: BroadcastMessageView) -> Seq<char> {
    enc_hex(m.id as nat, 32) + enc_hex(m.channel_id as nat, 32) + enc_hex(m.timestamp as nat, 16)
        + seq![mtype_char(m.message_type)] + enc_sender(m.sender) + enc_hex(m.content.len(), 16)
        + m.content
}

/// Serialize a message into its durable record.
pub fn encode_message(m: &BroadcastMessage) -> (r: Vec<char>)
    ensures
        r@ == message_record(m@),
{
    let mut out: Vec<char> = Vec::new();
    push_hex(&mut out, m.id, 32);
    push_hex(&mut out, m.channel_id, 32);
    push_hex(&mut out, m.timestamp as u128, 16);
    out.push(
        match m.message_type {
            MessageType::Broadcast => 'B',
            MessageType::System => 'Y',
            MessageType::ClientMessage => 'C',
            MessageType::StatusUpdate => 'U',
        },
    );
    match &m.sender {
        crate::message::MessageSender::Server => {
            out.push('V');
        },
        crate::message::MessageSender::Client(id) => {
            let mut id_chars = chars_of_str(id.as_str());
            out.push('C');
            push_hex(&mut out, id_chars.len() as u128, 16);
            out.append(&mut id_chars);
        },
        crate::message::MessageSender::System => {
            out.push('Y');
        },
    }
    let mut content_chars = chars_of_str(m.content.as_str());
    push_hex(&mut out, content_chars.len() as u128, 16);
    out.append(&mut content_chars);
    proof {
        assert(out@ =~= message_record(m@));
    }
    out
}

/// The transport form of an envelope: the channel and timestamp, then the
/// status word, the message text and the optional structured payload.
pub open spec fn envelope_record(v: WebSocketResponseView) -> Seq<char> {
    enc_hex(v.channel_id as nat, 32) + enc_hex(v.timestamp as nat, 16) + enc_hex(v.status.len(), 16)
        + v.status + enc_hex(v.message.len(), 16) + v.message + enc_opt_str(v.data)
}

/// Serialize a transport envelope to the text a session is handed.
pub fn encode_envelope(e: &crate::message::WebSocketResponse) -> (r: String)
    ensures
        r@ == envelope_record(e@),
{
    let mut out: Vec<char> = Vec::new();
    push_hex(&mut out, e.channel_id, 32);
    push_hex(&mut out, e.timestamp as u128, 16);
    let mut status_chars = chars_of_str(e.status.as_str());
    push_hex(&mut out, status_chars.len() as u128, 16);
    out.append(&mut status_chars);
    let mut message_chars = chars_of_str(e.message.as_str());
    push_hex(&mut out, message_chars.len() as u128, 16);
    out.append(&mut message_chars);
    match &e.data {
        Some(d) => {
            let mut data_chars = chars_of_str(d.as_str());
            out.push('1');
            push_hex(&mut out, data_chars.len() as u128, 16);
            out.append(&mut data_chars);
        },
        None => {
            out.push('0');
        },
    }
    proof {
        assert(out@ =~= envelope_record(e@));
    }
    string_from_chars(&out)
}

fn char_bool_exec(c: char) -> (r: Option<bool>)
    ensures
        r == char_bool(c),
{
    if c == '1' {
        Some(true)
    } else if c == '0' {
        Some(false)
    } else {
        None
    }
}

} // verus!
