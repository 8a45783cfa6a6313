//! Channel naming.
//!
//! Every command or monitor channel gets a fresh name: the 32 hex
//! characters of a 128-bit random token.  Uniqueness across invocations is
//! achieved by always generating a new token, never by reuse; the naming
//! function itself is injective, so two names collide only if the random
//! tokens do.

use vstd::prelude::*;
use vstd::arithmetic::div_mod::{lemma_breakdown, lemma_fundamental_div_mod};
use vstd::slice::slice_index_get;
use crate::protocol::JobId;

verus! {

/// Number of characters in a channel name: 128 bits, four per character.
pub const CHANNEL_NAME_LEN: usize = 32;

/// ASCII lower-case hex character of a value below sixteen.
pub open spec fn hex_char(d: u8) -> u8 {
    if d < 10 {
        (48 + d) as u8
    } else {
        (87 + d) as u8
    }
}

/// The `n` low hex digits of `v` as characters, least significant first.
pub open spec fn le_hex_digits(v: u128, n: nat) -> Seq<u8>
    decreases n,
{
    if n == 0 {
        Seq::empty()
    } else {
        seq![hex_char((v % 16) as u8)] + le_hex_digits(v / 16, (n - 1) as nat)
    }
}

/// The name of a 128-bit token: its 32 hex digits, most significant first.
pub open spec fn spec_channel_name(v: u128) -> Seq<u8> {
    le_hex_digits(v, 32).reverse()
}

fn hex_char_of(d: u8) -> (c: u8)
    requires
        d < 16,
    ensures
        c == hex_char(d),
{
    if d < 10 {
        48 + d
    } else {
        87 + d
    }
}

/// Format a 128-bit token as its 32-character channel name.
pub fn channel_name_of(v: u128) -> (name: Vec<u8>)
    ensures
        name@ == spec_channel_name(v),
        name@.len() == CHANNEL_NAME_LEN,
{
    let mut le: Vec<u8> = Vec::new();
    let mut x = v;
    let mut i: usize = 0;
    proof {
        assert(le@ + le_hex_digits(x, 32) =~= le_hex_digits(v, 32));
    }
    while i < 32
        invariant
            i <= 32,
            le@.len() == i,
            le@ + le_hex_digits(x, (32 - i) as nat) == le_hex_digits(v, 32),
        decreases 32 - i,
    {
        let d = (x % 16) as u8;
        le.push(hex_char_of(d));
        x = x / 16;
        i = i + 1;
        proof {
            assert(le@ + le_hex_digits(x, (32 - i) as nat) =~= le_hex_digits(v, 32));
        }
    }
    proof {
        assert(le@ =~= le_hex_digits(v, 32));
    }
    let mut name: Vec<u8> = Vec::new();
    let mut k: usize = 0;
    while k < 32
        invariant
            k <= 32,
            name@.len() == k,
            le@.len() == 32,
            le@ == le_hex_digits(v, 32),
            forall|j: int| 0 <= j < k ==> name@[j] == le@[31 - j],
        decreases 32 - k,
    {
        let c = le[31 - k];
        name.push(c);
        k = k + 1;
    }
    proof {
        assert(name@ =~= spec_channel_name(v));
    }
    name
}

/// Relies on `rand::random`: a 128-bit token from the thread-local
/// generator.  Nothing is promised of a random value.
#[verifier::external_body]
fn random_token() -> u128 {
    rand::random()
}

/// Generate a fresh channel name: the hex of a new random 128-bit token.
pub fn generate_channel_name() -> (name: Vec<u8>)
    ensures
        name@.len() == CHANNEL_NAME_LEN,
        exists|v: u128| name@ == spec_channel_name(v),
{
    let v = random_token();
    let name = channel_name_of(v);
    proof {
        assert(name@ == spec_channel_name(v));
    }
    name
}

/// Sixteen to the `n`.
pub open spec fn pow16(n: nat) -> int
    decreases n,
{
    if n == 0 {
        1int
    } else {
        16 * pow16((n - 1) as nat)
    }
}

proof fn lemma_le_hex_digits_len(v: u128, n: nat)
    ensures
        le_hex_digits(v, n).len() == n,
    decreases n,
{
    if n > 0 {
        lemma_le_hex_digits_len(v / 16, (n - 1) as nat);
    }
}

proof fn lemma_le_hex_digits_injective(a: u128, b: u128, n: nat)
    requires
        le_hex_digits(a, n) == le_hex_digits(b, n),
        a < pow16(n),
        b < pow16(n),
    ensures
        a == b,
    decreases n,
{
    if n == 0 {
        assert(pow16(0) == 1);
    } else {
        let sa = le_hex_digits(a, n);
        let sb = le_hex_digits(b, n);
        assert(sa[0] == hex_char((a % 16) as u8));
        assert(sb[0] == hex_char((b % 16) as u8));
        assert(a % 16 == b % 16);
        assert(sa.skip(1) =~= le_hex_digits(a / 16, (n - 1) as nat));
        assert(sb.skip(1) =~= le_hex_digits(b / 16, (n - 1) as nat));
        assert(a / 16 < pow16((n - 1) as nat) && b / 16 < pow16((n - 1) as nat)) by (
        nonlinear_arith)
            requires
                a < 16 * pow16((n - 1) as nat),
                b < 16 * pow16((n - 1) as nat),
                a >= 0,
                b >= 0,
        ;
        lemma_le_hex_digits_injective(a / 16, b / 16, (n - 1) as nat);
        lemma_fundamental_div_mod(a as int, 16);
        lemma_fundamental_div_mod(b as int, 16);
    }
}

proof fn lemma_pow16_32_exceeds_u128()
    ensures
        pow16(32) == 0x1_0000_0000_0000_0000_0000_0000_0000_0000,
{
    reveal_with_fuel(pow16, 33);
}

/// Naming is injective: two channel names are equal only if the random
/// tokens behind them are.  Collisions can therefore come only from the
/// 128-bit random source, never from the formatting.
pub proof fn lemma_channel_name_injective(a: u128, b: u128)
    requires
        spec_channel_name(a) == spec_channel_name(b),
    ensures
        a == b,
{
    let la = le_hex_digits(a, 32);
    let lb = le_hex_digits(b, 32);
    lemma_le_hex_digits_len(a, 32);
    lemma_le_hex_digits_len(b, 32);
    assert(la.len() == 32 && lb.len() == 32);
    assert forall|j: int| 0 <= j < 32 implies la[j] == lb[j] by {
        assert(la.reverse()[31 - j] == la[j]);
        assert(lb.reverse()[31 - j] == lb[j]);
    }
    assert(la =~= lb);
    lemma_pow16_32_exceeds_u128();
    lemma_le_hex_digits_injective(a, b, 32);
}

// ---------------------------------------------------------------------------
// Job identifiers in hex
// ---------------------------------------------------------------------------

/// Hex digit value of an ASCII character, upper or lower case.
pub open spec fn hex_val(c: u8) -> Option<u8> {
    if 48 <= c && c <= 57 {
        Some((c - 48) as u8)
    } else if 97 <= c && c <= 102 {
        Some((c - 87) as u8)
    } else if 65 <= c && c <= 70 {
        Some((c - 55) as u8)
    } else {
        None
    }
}

/// Value of a string of hex characters, most significant first; nothing if
/// any character is no hex digit.
pub open spec fn hex_value(s: Seq<u8>) -> Option<int>
    decreases s.len(),
{
    if s.len() == 0 {
        Some(0int)
    } else {
        match (hex_value(s.drop_last()), hex_val(s.last())) {
            (Some(v), Some(d)) => Some(16 * v + d),
            _ => None,
        }
    }
}

fn hex_val_of(c: u8) -> (r: Option<u8>)
    ensures
        r == hex_val(c),
        r matches Some(d) ==> d < 16,
{
    if 48 <= c && c <= 57 {
        Some(c - 48)
    } else if 97 <= c && c <= 102 {
        Some(c - 87)
    } else if 65 <= c && c <= 70 {
        Some(c - 55)
    } else {
        None
    }
}

/// Format a job identifier as its 32-character hex name, high half first.
pub fn job_id_to_hex(id: &JobId) -> (name: Vec<u8>)
    ensures
        name@ == spec_channel_name(id.token()),
        name@.len() == CHANNEL_NAME_LEN,
{
    proof {
        assert((id.hi as int) * 0x1_0000_0000_0000_0000 <= 0xFFFF_FFFF_FFFF_FFFF
            * 0x1_0000_0000_0000_0000) by (nonlinear_arith)
            requires
                id.hi <= 0xFFFF_FFFF_FFFF_FFFFu64,
        ;
    }
    let v: u128 = (id.hi as u128) * 0x1_0000_0000_0000_0000 + (id.lo as u128);
    channel_name_of(v)
}

proof fn lemma_hex_value_invalid(s: Seq<u8>, j: int)
    requires
        0 <= j < s.len(),
        hex_val(s[j]) is None,
    ensures
        hex_value(s) is None,
    decreases s.len(),
{
    if j < s.len() - 1 {
        lemma_hex_value_invalid(s.drop_last(), j);
    }
}

proof fn lemma_pow16_pos(n: nat)
    ensures
        pow16(n) >= 1,
    decreases n,
{
    if n > 0 {
        lemma_pow16_pos((n - 1) as nat);
    }
}

proof fn lemma_pow16_mono(m: nat, n: nat)
    requires
        m <= n,
    ensures
        pow16(m) <= pow16(n),
    decreases n,
{
    lemma_pow16_pos(m);
    if m < n {
        lemma_pow16_mono(m, (n - 1) as nat);
        lemma_pow16_pos((n - 1) as nat);
    }
}

/// Parse a 32-character hex name into the job identifier it spells.
/// Succeeds exactly on strings of 32 hex characters, and the parsed
/// identifier names exactly the value the string spells.
pub fn job_id_from_hex(s: &[u8]) -> (r: Option<JobId>)
    ensures
        match r {
            Some(id) => s@.len() == CHANNEL_NAME_LEN && hex_value(s@) == Some(id.token() as int),
            None => s@.len() != CHANNEL_NAME_LEN || hex_value(s@) is None,
        },
{
    if s.len() != 32 {
        return None;
    }
    let mut v: u128 = 0;
    let mut i: usize = 0;
    proof {
        assert(s@.take(0) =~= Seq::<u8>::empty());
    }
    while i < 32
        invariant
            i <= 32,
            s@.len() == 32,
            hex_value(s@.take(i as int)) == Some(v as int),
            v < pow16(i as nat),
        decreases 32 - i,
    {
        let c = *slice_index_get(s, i);
        let d = match hex_val_of(c) {
            Some(d) => d,
            None => {
                proof {
                    lemma_hex_value_invalid(s@, i as int);
                }
                return None;
            },
        };
        proof {
            lemma_pow16_mono(i as nat, 31);
            lemma_pow16_32_exceeds_u128();
            assert(pow16(32) == 16 * pow16(31));
            assert((v as int) * 16 + 15 < pow16(32));
            let t = s@.take(i + 1);
            assert(t.drop_last() =~= s@.take(i as int));
            assert(t.last() == s@[i as int]);
        }
        v = v * 16 + (d as u128);
        i = i + 1;
    }
    proof {
        assert(s@.take(32) =~= s@);
        assert(0x1_0000_0000_0000_0000int * 0x1_0000_0000_0000_0000int
            == 0x1_0000_0000_0000_0000_0000_0000_0000_0000int);
        assert((v as int) / 0x1_0000_0000_0000_0000 < 0x1_0000_0000_0000_0000) by (nonlinear_arith)
            requires
                (v as int) < 0x1_0000_0000_0000_0000int * 0x1_0000_0000_0000_0000int,
                v >= 0,
        ;
    }
    let hi = (v / 0x1_0000_0000_0000_0000) as u64;
    let lo = (v % 0x1_0000_0000_0000_0000) as u64;
    let id = JobId { hi, lo };
    proof {
        lemma_fundamental_div_mod(v as int, 0x1_0000_0000_0000_0000);
        assert(id.token() == v);
    }
    Some(id)
}

proof fn lemma_hex_value_le_reverse(v: u128, n: nat)
    ensures
        hex_value(le_hex_digits(v, n).reverse()) == Some((v as int) % pow16(n)),
    decreases n,
{
    lemma_pow16_pos(n);
    if n == 0 {
        assert(le_hex_digits(v, 0).reverse() =~= Seq::<u8>::empty());
    } else {
        let c = hex_char((v % 16) as u8);
        let t = le_hex_digits(v / 16, (n - 1) as nat);
        lemma_le_hex_digits_len(v, n);
        lemma_le_hex_digits_len(v / 16, (n - 1) as nat);
        let s = le_hex_digits(v, n);
        assert(s.reverse() =~= t.reverse() + seq![c]);
        assert(s.reverse().drop_last() =~= t.reverse());
        assert(s.reverse().last() == c);
        assert(hex_val(c) == Some((v % 16) as u8));
        lemma_hex_value_le_reverse(v / 16, (n - 1) as nat);
        lemma_pow16_pos((n - 1) as nat);
        lemma_breakdown(v as int, 16, pow16((n - 1) as nat));
        assert(pow16(n) == 16 * pow16((n - 1) as nat));
    }
}

/// Round trip: the hex name of a 128-bit token spells that token.  In
/// particular a job identifier survives formatting and parsing.
pub proof fn lemma_hex_name_round_trip(v: u128)
    ensures
        hex_value(spec_channel_name(v)) == Some(v as int),
{
    lemma_hex_value_le_reverse(v, 32);
    lemma_pow16_32_exceeds_u128();
    vstd::arithmetic::div_mod::lemma_small_mod(v as nat, pow16(32) as nat);
}

} // verus!
