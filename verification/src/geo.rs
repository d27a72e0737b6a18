//! The companion endpoint's data: a fixed list of known locations and a
//! duplicate-free random sample of five of them.
//!
//! Coordinates are microdegrees, so every constraint is exact integer
//! arithmetic.

use vstd::prelude::*;
use crate::rng::Rng64;

verus! {

/// One known location, in microdegrees.
#[derive(Clone, Copy, PartialEq, Eq, Structural, Debug)]
pub struct GeoPoint {
    pub lat_micro: i64,
    pub lng_micro: i64,
}

/// No two entries are the same point.
pub open spec fn distinct_points(s: Seq<GeoPoint>) -> bool {
    forall|i: int, j: int| 0 <= i < j < s.len() ==> s[i] != s[j]
}

/// The fixed list of known locations.
pub open spec fn spec_known_locations() -> Seq<GeoPoint> {
    seq![
        GeoPoint { lat_micro: 34_050_000i64, lng_micro: -118_240_000i64 },
        GeoPoint { lat_micro: 48_850_000i64, lng_micro: 2_350_000i64 },
        GeoPoint { lat_micro: -33_870_000i64, lng_micro: 151_210_000i64 },
        GeoPoint { lat_micro: 55_750_000i64, lng_micro: 37_610_000i64 },
        GeoPoint { lat_micro: 19_430_000i64, lng_micro: -99_130_000i64 },
        GeoPoint { lat_micro: 51_500_000i64, lng_micro: -120_000i64 },
        GeoPoint { lat_micro: 35_680_000i64, lng_micro: 139_690_000i64 },
        GeoPoint { lat_micro: 40_710_000i64, lng_micro: -74_000_000i64 },
        GeoPoint { lat_micro: -23_550_000i64, lng_micro: -46_630_000i64 },
        GeoPoint { lat_micro: 30_040_000i64, lng_micro: 31_240_000i64 },
    ]
}

/// The fixed list, materialized.  It is nonempty, has at least five
/// entries, and holds no duplicate point.
pub fn known_locations() -> (r: Vec<GeoPoint>)
    ensures
        r@ == spec_known_locations(),
        r@.len() == 10,
        distinct_points(r@),
{
    let mut v: Vec<GeoPoint> = Vec::new();
    v.push(GeoPoint { lat_micro: 34_050_000, lng_micro: -118_240_000 });
    v.push(GeoPoint { lat_micro: 48_850_000, lng_micro: 2_350_000 });
    v.push(GeoPoint { lat_micro: -33_870_000, lng_micro: 151_210_000 });
    v.push(GeoPoint { lat_micro: 55_750_000, lng_micro: 37_610_000 });
    v.push(GeoPoint { lat_micro: 19_430_000, lng_micro: -99_130_000 });
    v.push(GeoPoint { lat_micro: 51_500_000, lng_micro: -120_000 });
    v.push(GeoPoint { lat_micro: 35_680_000, lng_micro: 139_690_000 });
    v.push(GeoPoint { lat_micro: 40_710_000, lng_micro: -74_000_000 });
    v.push(GeoPoint { lat_micro: -23_550_000, lng_micro: -46_630_000 });
    v.push(GeoPoint { lat_micro: 30_040_000, lng_micro: 31_240_000 });
    assert(v@ =~= spec_known_locations());
    v
}

/// Draw five distinct points from the fixed list, without replacement.
pub fn pick_points(rng: &mut Rng64) -> (r: Vec<GeoPoint>)
    ensures
        r@.len() == 5,
        distinct_points(r@),
        forall|i: int| 0 <= i < r@.len() ==> spec_known_locations().contains(#[trigger] r@[i]),
{
    let mut pool = known_locations();
    let mut out: Vec<GeoPoint> = Vec::new();
    let mut i: usize = 0;
    while i < 5
        invariant
            i <= 5,
            out@.len() == i,
            pool@.len() == 10 - i,
            distinct_points(out@),
            distinct_points(pool@),
            forall|a: int, b: int|
                0 <= a < out@.len() && 0 <= b < pool@.len() ==> out@[a] != pool@[b],
            forall|a: int|
                0 <= a < out@.len() ==> spec_known_locations().contains(#[trigger] out@[a]),
            forall|b: int|
                0 <= b < pool@.len() ==> spec_known_locations().contains(#[trigger] pool@[b]),
        decreases 5 - i,
    {
        let k = rng.below((10 - i) as u64) as usize;
        let ghost old_pool = pool@;
        let p = pool.remove(k);
        out.push(p);
        proof {
            assert(p == old_pool[k as int]);
            assert(pool@ == old_pool.remove(k as int));
            assert forall|b: int| 0 <= b < pool@.len() implies spec_known_locations().contains(
                #[trigger] pool@[b],
            ) by {
                if b < k {
                    assert(pool@[b] == old_pool[b]);
                } else {
                    assert(pool@[b] == old_pool[b + 1]);
                }
            }
            assert forall|a: int, b: int|
                0 <= a < out@.len() && 0 <= b < pool@.len() implies out@[a] != pool@[b] by {
                if b < k {
                    assert(pool@[b] == old_pool[b]);
                } else {
                    assert(pool@[b] == old_pool[b + 1]);
                }
                if a < out@.len() - 1 {
                } else {
                    assert(out@[a] == old_pool[k as int]);
                }
            }
            assert forall|a: int, b: int| 0 <= a < b < pool@.len() implies pool@[a] != pool@[b]
                by {
                if a < k {
                    assert(pool@[a] == old_pool[a]);
                } else {
                    assert(pool@[a] == old_pool[a + 1]);
                }
                if b < k {
                    assert(pool@[b] == old_pool[b]);
                } else {
                    assert(pool@[b] == old_pool[b + 1]);
                }
            }
        }
        i = i + 1;
    }
    out
}

} // verus!
