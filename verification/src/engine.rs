use vstd::prelude::*;

verus! {

/// Lowest passion score a freshly minted record can carry.
pub const MIN_PASSION: u8 = 20;

/// Lowest stamina score a freshly minted record can carry.
pub const MIN_STAMINA: u8 = 20;

/// The timestamp reinterpreted as an unsigned 64-bit value (two's
/// complement). Negative timestamps cannot arise after the epoch; reading
/// them unsigned pins their behavior all the same, uniformly with the
/// unsigned mixing done when a feed is available.
pub open spec fn wrapped_timestamp(timestamp: i64) -> u64 {
    if timestamp < 0 {
        (timestamp + 0x1_0000_0000_0000_0000) as u64
    } else {
        timestamp as u64
    }
}

/// The 64-bit mix of one feed reading with the clock: the price plus the
/// timestamp, wrapping at the 64-bit boundary; the bare timestamp when the
/// feed is unavailable.
pub open spec fn entropy_base(price: Option<u64>, timestamp: i64) -> u64 {
    match price {
        Some(p) => {
            if p + wrapped_timestamp(timestamp) > u64::MAX {
                (p + wrapped_timestamp(timestamp) - 0x1_0000_0000_0000_0000) as u64
            } else {
                (p + wrapped_timestamp(timestamp)) as u64
            }
        },
        None => wrapped_timestamp(timestamp),
    }
}

/// The entropy drawn for one score: the low decimal digit of the mix.
pub open spec fn entropy_of(price: Option<u64>, timestamp: i64) -> u64 {
    entropy_base(price, timestamp) % 10
}

/// The score derived from one feed reading: the floor plus the entropy,
/// wrapping at the 8-bit boundary.
pub open spec fn spec_derive_score(price: Option<u64>, timestamp: i64, floor: u8) -> u8 {
    if floor + entropy_of(price, timestamp) > u8::MAX {
        (floor + entropy_of(price, timestamp) - 0x100) as u8
    } else {
        (floor + entropy_of(price, timestamp)) as u8
    }
}

/// The entropy drawn for a score is one of the ten values 0 through 9,
/// whether or not the feed was available.
pub proof fn lemma_entropy_bounded(price: Option<u64>, timestamp: i64)
    ensures
        entropy_of(price, timestamp) <= 9,
{
}

/// Score derivation is deterministic: it is a function of the feed reading,
/// the timestamp and the floor alone, so equal inputs always yield the
/// identical score.
pub proof fn lemma_derive_score_deterministic(
    price_a: Option<u64>,
    timestamp_a: i64,
    floor_a: u8,
    price_b: Option<u64>,
    timestamp_b: i64,
    floor_b: u8,
)
    requires
        price_a == price_b,
        timestamp_a == timestamp_b,
        floor_a == floor_b,
    ensures
        spec_derive_score(price_a, timestamp_a, floor_a) == spec_derive_score(
            price_b,
            timestamp_b,
            floor_b,
        ),
{
}

/// A score minted with the default floor of 20 always lands in [20, 29],
/// for every feed reading (available or not) and every timestamp.
pub proof fn lemma_mint_score_range(price: Option<u64>, timestamp: i64)
    ensures
        20 <= spec_derive_score(price, timestamp, 20) <= 29,
{
    lemma_entropy_bounded(price, timestamp);
}

/// An upgrade raises a score by a delta in [0, 9] modulo 256: the new score
/// minus the old one, read modulo 256, equals the entropy drawn for the
/// upgrade, which never exceeds 9.
pub proof fn lemma_upgrade_delta(price: Option<u64>, timestamp: i64, floor: u8)
    ensures
        (spec_derive_score(price, timestamp, floor) - floor) % 256 == entropy_of(
            price,
            timestamp,
        ),
        (spec_derive_score(price, timestamp, floor) - floor) % 256 <= 9,
{
    lemma_entropy_bounded(price, timestamp);
    let e = entropy_of(price, timestamp) as int;
    let d = spec_derive_score(price, timestamp, floor) as int;
    if floor + e > u8::MAX {
        assert(d - floor == e - 256);
        assert((e - 256) % 256 == e) by {
            assert(e - 256 + 256 == e);
        }
    } else {
        assert(d - floor == e);
        assert(e % 256 == e);
    }
}

/// The timestamp as an unsigned 64-bit value.
fn wrapped_timestamp_exec(timestamp: i64) -> (r: u64)
    ensures
        r == wrapped_timestamp(timestamp),
{
    if timestamp >= 0 {
        timestamp as u64
    } else {
        ((timestamp as i128) + 0x1_0000_0000_0000_0000i128) as u64
    }
}

/// Derives one trait score from a feed reading, the current time and a
/// floor. The price feed serves purely as an entropy source: the result is
/// the floor plus a value in [0, 9], wrapping at the 8-bit boundary (which
/// can only happen when the floor exceeds 246). An unavailable feed is not
/// an error: derivation falls back to the clock alone.
pub fn derive_score(price: Option<u64>, timestamp: i64, floor: u8) -> (r: u8)
    ensures
        r == spec_derive_score(price, timestamp, floor),
        floor as int + 9 <= u8::MAX as int ==> floor <= r <= floor as int + 9,
{
    let ts: u64 = wrapped_timestamp_exec(timestamp);
    let base: u64 = match price {
        Some(p) => p.wrapping_add(ts),
        None => ts,
    };
    proof {
        assert(base == entropy_base(price, timestamp));
    }
    let e: u8 = (base % 10) as u8;
    let r = floor.wrapping_add(e);
    proof {
        lemma_entropy_bounded(price, timestamp);
    }
    r
}

} // verus!
