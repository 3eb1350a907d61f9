//! Identifier and timestamp minting from the values the clock and
//! random ports supply: UUID v4 (RFC 4122 version and variant bits set),
//! ULID (48-bit millisecond time, 80 random bits, Crockford base32) and
//! the millisecond timestamp a message carries.

use vstd::prelude::*;

verus! {

/// The lowercase hex digit of `n < 16`.
pub open spec fn hex_digit(n: int) -> char {
    if n < 10 {
        ((n + 48) as u8) as char
    } else {
        ((n - 10 + 97) as u8) as char
    }
}

/// The two lowercase hex digits of each byte, in order.
pub open spec fn hex_bytes(b: Seq<u8>) -> Seq<char>
    decreases b.len(),
{
    if b.len() == 0 {
        seq![]
    } else {
        hex_bytes(b.drop_last()) + seq![hex_digit(b.last() as int / 16), hex_digit(b.last() as int % 16)]
    }
}

/// The hyphenated lowercase form of 16 bytes: groups of 4, 2, 2, 2 and
/// 6 bytes in hex, joined by `-`.
pub open spec fn uuid_hyphenated(b: Seq<u8>) -> Seq<char> {
    hex_bytes(b.subrange(0, 4)) + seq!['-'] + hex_bytes(b.subrange(4, 6)) + seq!['-'] + hex_bytes(
        b.subrange(6, 8),
    ) + seq!['-'] + hex_bytes(b.subrange(8, 10)) + seq!['-'] + hex_bytes(b.subrange(10, 16))
}

/// Renders the UUID of 16 bytes (`uuid::Uuid::from_bytes`, then its
/// `Display`, which writes the hyphenated lowercase hex form). Stated:
/// that form, as uuid's `format_hyphenated` writes it.
#[verifier::external_body]
fn uuid_text(b: [u8; 16]) -> (r: String)
    ensures
        r@ == uuid_hyphenated(b@),
{
    uuid::Uuid::from_bytes(b).to_string()
}

/// The UUID v4 bytes made of 16 random bytes: byte 6 gets version 4 in
/// its high nibble, byte 8 the RFC 4122 variant `10` in its top bits.
pub open spec fn uuid_v4_bytes(r: Seq<u8>) -> Seq<u8> {
    r.update(6, (r[6] & 0x0F) | 0x40).update(8, (r[8] & 0x3F) | 0x80)
}

/// Mints a UUID v4 from 16 random bytes and renders it in the canonical
/// 36-character hyphenated form.
pub fn uuid_v4(random: [u8; 16]) -> (s: String)
    ensures
        s@ == uuid_hyphenated(uuid_v4_bytes(random@)),
{
    let mut b = random;
    b.set(6, (random[6] & 0x0F) | 0x40);
    b.set(8, (random[8] & 0x3F) | 0x80);
    assert(b@ =~= uuid_v4_bytes(random@));
    uuid_text(b)
}

/// A minted UUID v4 says so: the version digit (position 14) is `4` and
/// the variant digit (position 19) is one of `8`, `9`, `a`, `b`.
pub proof fn law_uuid_v4_version_and_variant(random: Seq<u8>)
    requires
        random.len() == 16,
    ensures
        uuid_hyphenated(uuid_v4_bytes(random)).len() == 36,
        uuid_hyphenated(uuid_v4_bytes(random))[14] == '4',
        uuid_hyphenated(uuid_v4_bytes(random))[19] == '8' || uuid_hyphenated(uuid_v4_bytes(random))[19]
            == '9' || uuid_hyphenated(uuid_v4_bytes(random))[19] == 'a' || uuid_hyphenated(
            uuid_v4_bytes(random),
        )[19] == 'b',
{
    let b = uuid_v4_bytes(random);
    let b6 = random[6];
    let b8 = random[8];
    assert(((b6 & 0x0F) | 0x40) / 16 == 4) by (bit_vector);
    assert(8 <= ((b8 & 0x3F) | 0x80) / 16 <= 11) by (bit_vector);
    reveal_with_fuel(hex_bytes, 7);
    assert(b.subrange(6, 8)[0] == b[6]);
    assert(b.subrange(6, 8).drop_last() =~= seq![b[6]]);
    assert(seq![b[6]].drop_last() =~= Seq::<u8>::empty());
    assert(b.subrange(8, 10).drop_last() =~= seq![b[8]]);
    assert(seq![b[8]].drop_last() =~= Seq::<u8>::empty());
    assert(b.subrange(0, 4).drop_last().drop_last().drop_last().drop_last() =~= Seq::<u8>::empty());
    assert(b.subrange(4, 6).drop_last().drop_last() =~= Seq::<u8>::empty());
    assert(hex_bytes(b.subrange(0, 4)).len() == 8);
    assert(hex_bytes(b.subrange(4, 6)).len() == 4);
    assert(hex_bytes(b.subrange(6, 8))[0] == hex_digit(b[6] as int / 16));
    assert(hex_bytes(b.subrange(8, 10))[0] == hex_digit(b[8] as int / 16));
    assert(hex_bytes(b.subrange(6, 8)).len() == 4);
    assert(hex_bytes(b.subrange(8, 10)).len() == 4);
    assert(b.subrange(10, 16).len() == 6);
    assert(hex_bytes(b.subrange(10, 16)).len() == 12) by {
        reveal_with_fuel(hex_bytes, 7);
        assert(b.subrange(10, 16).drop_last().drop_last().drop_last().drop_last().drop_last().drop_last()
            =~= Seq::<u8>::empty());
    }
}

/// The Crockford base32 digit of `d < 32`.
pub open spec fn crockford_digit(d: int) -> char {
    "0123456789ABCDEFGHJKMNPQRSTVWXYZ"@[d]
}

/// `32^n`.
pub open spec fn pow32(n: nat) -> nat
    decreases n,
{
    if n == 0 {
        1
    } else {
        32 * pow32((n - 1) as nat)
    }
}

/// The 26-character Crockford base32 form of a 128-bit value, most
/// significant digit first.
pub open spec fn ulid_chars(v: nat) -> Seq<char> {
    Seq::new(26, |i: int| crockford_digit(((v / pow32((25 - i) as nat)) % 32) as int))
}

/// The value of a ULID: the low 48 bits of the millisecond timestamp
/// above the low 80 bits of the random part.
pub open spec fn ulid_value(ts: u64, rand: u128) -> nat {
    ((ts as nat) % 0x1_0000_0000_0000) * 0x1_0000_0000_0000_0000_0000 + (rand as nat)
        % 0x1_0000_0000_0000_0000_0000
}

/// Renders the ULID of a timestamp and random part
/// (`ulid::Ulid::from_parts`, then `array_to_str`). Stated: the
/// Crockford base32 form of [`ulid_value`], as ulid's source computes
/// (48 time bits above 80 random bits; 26 digits from the top).
#[verifier::external_body]
fn ulid_text(ts: u64, rand: u128) -> (r: String)
    ensures
        r@ == ulid_chars(ulid_value(ts, rand)),
{
    let mut buf = [0u8; 26];
    String::from(&*ulid::Ulid::from_parts(ts, rand).array_to_str(&mut buf))
}

/// The little-endian value of `b`.
pub open spec fn le_value(b: Seq<u8>) -> nat
    decreases b.len(),
{
    if b.len() == 0 {
        0
    } else {
        (b[0] as nat) + 256 * le_value(b.drop_first())
    }
}

/// `256^n`.
pub open spec fn pow256(n: nat) -> nat
    decreases n,
{
    if n == 0 {
        1
    } else {
        256 * pow256((n - 1) as nat)
    }
}

proof fn lemma_le_value_bound(b: Seq<u8>)
    ensures
        le_value(b) < pow256(b.len()),
    decreases b.len(),
{
    if b.len() > 0 {
        lemma_le_value_bound(b.drop_first());
        assert(le_value(b) <= 255 + 256 * (pow256((b.len() - 1) as nat) - 1)) by (nonlinear_arith)
            requires
                le_value(b) == (b[0] as nat) + 256 * le_value(b.drop_first()),
                le_value(b.drop_first()) < pow256((b.len() - 1) as nat),
                b[0] <= 255,
        ;
    }
}

proof fn lemma_le_value_take(b: Seq<u8>, k: int)
    requires
        0 < k <= b.len(),
    ensures
        le_value(b.take(k)) == le_value(b.take(k - 1)) + (b[k - 1] as nat) * pow256((k - 1) as nat),
    decreases k,
{
    if k == 1 {
        assert(b.take(1).drop_first() =~= Seq::<u8>::empty());
        assert(b.take(0) =~= Seq::<u8>::empty());
        assert(le_value(Seq::<u8>::empty()) == 0);
        assert(b.take(1)[0] == b[0]);
        assert(le_value(b.take(1)) == b[0] as nat);
        assert(pow256(0) == 1);
        assert((b[0] as nat) * pow256(0) == b[0] as nat) by (nonlinear_arith)
            requires
                pow256(0) == 1,
        ;
    } else {
        assert(b.take(k).drop_first() =~= b.drop_first().take(k - 1));
        assert(b.take(k - 1).drop_first() =~= b.drop_first().take(k - 2));
        lemma_le_value_take(b.drop_first(), k - 1);
        assert(b.drop_first()[k - 2] == b[k - 1]);
        let x = le_value(b.drop_first().take(k - 2));
        assert(le_value(b.take(k)) == (b[0] as nat) + 256 * le_value(b.drop_first().take(k - 1)));
        assert(le_value(b.take(k - 1)) == (b[0] as nat) + 256 * x);
        assert(256 * ((b[k - 1] as nat) * pow256((k - 2) as nat)) == (b[k - 1] as nat) * pow256(
            (k - 1) as nat,
        )) by (nonlinear_arith)
            requires
                pow256((k - 1) as nat) == 256 * pow256((k - 2) as nat),
        ;
    }
}

/// Mints a ULID from the clock's milliseconds (negative reads as 0) and
/// 10 random bytes (their little-endian value is the random part).
pub fn ulid(now_millis: i64, random: [u8; 10]) -> (s: String)
    ensures
        s@ == ulid_chars(
            ulid_value(
                if now_millis < 0 {
                    0u64
                } else {
                    now_millis as u64
                },
                le_value(random@) as u128,
            ),
        ),
{
    let ts: u64 = if now_millis < 0 {
        0
    } else {
        now_millis as u64
    };
    let mut v: u128 = 0;
    let mut scale: u128 = 1;
    let mut i: usize = 0;
    assert(random@.take(0) =~= Seq::<u8>::empty());
    while i < 10
        invariant
            i <= 10,
            v == le_value(random@.take(i as int)),
            scale == pow256(i as nat),
            v < pow256(i as nat),
        decreases 10 - i,
    {
        proof {
            lemma_le_value_take(random@, i + 1);
            assert(pow256(10) == 0x1_0000_0000_0000_0000_0000) by {
                reveal_with_fuel(pow256, 11);
            }
            lemma_pow256_mono(i as nat, 9);
            assert(v + (random[i as int] as nat) * scale < pow256((i + 1) as nat)) by (nonlinear_arith)
                requires
                    v < scale,
                    random[i as int] <= 255,
                    pow256((i + 1) as nat) == 256 * scale,
            ;
            lemma_pow256_mono((i + 1) as nat, 10);
        }
        v = v + (random[i] as u128) * scale;
        scale = scale * 256;
        i = i + 1;
    }
    assert(random@.take(10) =~= random@);
    ulid_text(ts, v)
}

proof fn lemma_pow256_mono(a: nat, b: nat)
    requires
        a <= b,
    ensures
        pow256(a) <= pow256(b),
    decreases b,
{
    if a < b {
        lemma_pow256_mono(a, (b - 1) as nat);
    }
}

/// Whether chrono represents a `DateTime<Utc>` at `ms` milliseconds since
/// the Unix epoch: chrono's dates span the years -262143 to 262142, so the
/// instants from -262143-01-01T00:00:00.000 to
/// +262142-12-31T23:59:59.999.
pub open spec fn chrono_millis_representable(ms: i64) -> bool {
    -8_334_601_228_800_000 <= ms <= 8_210_266_876_799_999
}

/// Asks chrono whether `ms` is a representable instant
/// (`DateTime::<Utc>::from_timestamp_millis(ms).is_some()`). Stated: it is
/// exactly when `ms` lies within chrono's range of dates (its
/// `from_timestamp` takes the day of `ms`, and a date exists only for a
/// year between `MIN_YEAR` and `MAX_YEAR`).
#[verifier::external_body]
fn millis_representable(ms: i64) -> (r: bool)
    ensures
        r == chrono_millis_representable(ms),
{
    chrono::DateTime::<chrono::Utc>::from_timestamp_millis(ms).is_some()
}

/// The message timestamp for the clock reading `clock_millis`: the
/// reading when chrono represents it, else the epoch.
pub fn now_utc_millis(clock_millis: i64) -> (t: i64)
    ensures
        t == if chrono_millis_representable(clock_millis) {
            clock_millis
        } else {
            0
        },
{
    if millis_representable(clock_millis) {
        clock_millis
    } else {
        0
    }
}

} // verus!
