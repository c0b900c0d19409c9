//! Attendance: whether a biometric log was taken within a distance of a
//! location, by the haversine formula on decimals.
use vstd::prelude::*;
use crate::decimal::{
    Dec, decimal_add, decimal_cos, decimal_div, decimal_mul, decimal_sin, decimal_sqrt, decimal_sub,
    o_add, o_div, o_mul, o_powu, o_sub,
};
use crate::time::Timestamp;

verus! {

/// A biometric attendance log: who, when, and where (degrees).
#[derive(Clone, Debug)]
pub struct BiometricLog {
    pub employee_id: String,
    pub timestamp: Timestamp,
    pub lat: Dec,
    pub lon: Dec,
}

/// The Earth's radius in meters, 6371000.
pub open spec fn earth_radius() -> Dec {
    Dec::spec_new(6371000, 0)
}

/// π to 15 places, 3.141592653589793.
pub open spec fn pi_15() -> Dec {
    Dec::spec_new(3141592653589793, 15)
}

/// An angle in degrees in radians: `deg * π / 180`.
pub open spec fn radians(deg: Dec) -> Option<Dec> {
    o_div(decimal_mul(deg, pi_15()), Some(Dec::spec_new(180, 0)))
}

/// `sin(half)²` where `half` is present.
pub open spec fn sin_squared(half: Option<Dec>) -> Option<Dec> {
    match half {
        Some(h) => o_powu(decimal_sin(h), 2),
        None => None,
    }
}

/// The haversine `a = sin²(Δlat/2) + cos(lat1)·cos(lat2)·sin²(Δlon/2)`.
pub open spec fn haversine_a(lat: Dec, lon: Dec, target_lat: Dec, target_lon: Dec) -> Option<Dec> {
    match (radians(lat), radians(target_lat), radians(lon), radians(target_lon)) {
        (Some(lat1), Some(lat2), Some(lon1), Some(lon2)) => {
            let two = Dec::spec_new(2, 0);
            let dlat = decimal_sub(lat2, lat1);
            let dlon = decimal_sub(lon2, lon1);
            o_add(
                sin_squared(o_div(dlat, Some(two))),
                o_mul(o_mul(decimal_cos(lat1), decimal_cos(lat2)), sin_squared(o_div(dlon, Some(two)))),
            )
        },
        _ => None,
    }
}

/// The state of the arcsine series of `x` after `k` further terms: the sum,
/// the last term and the index `n` of the next one.  Each term is the one
/// before times `x² (2n-1)² / (2n (2n+1))`.
pub open spec fn arcsin_series(x: Dec, k: nat) -> Option<(Dec, Dec, Dec)>
    decreases k,
{
    if k == 0 {
        Some((x, x, Dec::spec_new(1, 0)))
    } else {
        match arcsin_series(x, (k - 1) as nat) {
            None => None,
            Some((sum, term, n)) => {
                let one = Dec::spec_new(1, 0);
                let two_n = decimal_mul(Dec::spec_new(2, 0), n);
                let odd = o_sub(two_n, Some(one));
                let num = o_mul(o_mul(o_mul(o_mul(Some(term), Some(x)), Some(x)), odd), odd);
                let den = o_mul(two_n, o_add(two_n, Some(one)));
                let next = o_div(num, den);
                match (next, decimal_add(n, one)) {
                    (Some(t2), Some(n2)) => match decimal_add(sum, t2) {
                        Some(s2) => Some((s2, t2, n2)),
                        None => None,
                    },
                    _ => None,
                }
            },
        }
    }
}

/// The great-circle distance in meters: `R · 2 · arcsin(√a)`, the arcsine by
/// ten terms of its series after the first, and a root that does not exist
/// counting as zero.
pub open spec fn distance_meters(lat: Dec, lon: Dec, target_lat: Dec, target_lon: Dec) -> Option<Dec> {
    match haversine_a(lat, lon, target_lat, target_lon) {
        None => None,
        Some(a) => {
            let x = match decimal_sqrt(a) {
                Some(r) => r,
                None => Dec::spec_zero(),
            };
            match arcsin_series(x, 10) {
                None => None,
                Some((asin, _, _)) => o_mul(Some(earth_radius()), decimal_mul(Dec::spec_new(2, 0), asin)),
            }
        },
    }
}

fn radians_exec(deg: Dec, pi: Dec, c180: Dec) -> (r: Option<Dec>)
    requires
        pi == pi_15(),
        c180 == Dec::spec_new(180, 0),
    ensures
        r == radians(deg),
{
    crate::decimal::div_opt(deg.checked_mul(&pi), Some(c180))
}

fn sin_squared_exec(half: Option<Dec>) -> (r: Option<Dec>)
    ensures
        r == sin_squared(half),
{
    match half {
        Some(h) => match h.checked_sin() {
            Some(s) => s.checked_powu(2),
            None => None,
        },
        None => None,
    }
}

/// The distance in meters between a log and a target location; `None` where
/// a decimal operation overflows.
pub fn checked_distance_meters(log: &BiometricLog, target_lat: Dec, target_lon: Dec) -> (r: Option<Dec>)
    ensures
        r == distance_meters(log.lat, log.lon, target_lat, target_lon),
{
    let pi = Dec::new(3141592653589793, 15);
    let c180 = Dec::new(180, 0);
    let two = Dec::new(2, 0);
    let one = Dec::new(1, 0);
    let (lat1, lat2, lon1, lon2) = match (
        radians_exec(log.lat, pi, c180),
        radians_exec(target_lat, pi, c180),
        radians_exec(log.lon, pi, c180),
        radians_exec(target_lon, pi, c180),
    ) {
        (Some(a), Some(b), Some(c), Some(d)) => (a, b, c, d),
        _ => {
            return None;
        },
    };
    let dlat = lat2.checked_sub(&lat1);
    let dlon = lon2.checked_sub(&lon1);
    let cosines = match (lat1.checked_cos(), lat2.checked_cos()) {
        (Some(c1), Some(c2)) => c1.checked_mul(&c2),
        _ => None,
    };
    let a = crate::decimal::add_opt(
        sin_squared_exec(crate::decimal::div_opt(dlat, Some(two))),
        crate::decimal::mul_opt(cosines, sin_squared_exec(crate::decimal::div_opt(dlon, Some(two)))),
    );
    let a = match a {
        Some(v) => v,
        None => {
            return None;
        },
    };
    let x = match a.sqrt() {
        Some(v) => v,
        None => Dec::zero(),
    };
    let mut state: Option<(Dec, Dec, Dec)> = Some((x, x, one));
    let mut k: usize = 0;
    while k < 10
        invariant
            k <= 10,
            one == Dec::spec_new(1, 0),
            two == Dec::spec_new(2, 0),
            state == arcsin_series(x, k as nat),
        decreases 10 - k,
    {
        state = match state {
            None => None,
            Some((sum, term, n)) => {
                let two_n = two.checked_mul(&n);
                let odd = crate::decimal::sub_opt(two_n, Some(one));
                let num = crate::decimal::mul_opt(
                    crate::decimal::mul_opt(
                        crate::decimal::mul_opt(crate::decimal::mul_opt(Some(term), Some(x)), Some(x)),
                        odd,
                    ),
                    odd,
                );
                let den = crate::decimal::mul_opt(two_n, crate::decimal::add_opt(two_n, Some(one)));
                let next = crate::decimal::div_opt(num, den);
                match (next, n.checked_add(&one)) {
                    (Some(t2), Some(n2)) => match sum.checked_add(&t2) {
                        Some(s2) => Some((s2, t2, n2)),
                        None => None,
                    },
                    _ => None,
                }
            },
        };
        k += 1;
    }
    match state {
        None => None,
        Some((asin, _, _)) => {
            let r = Dec::new(6371000, 0);
            crate::decimal::mul_opt(Some(r), two.checked_mul(&asin))
        },
    }
}

/// Whether a log was taken within `threshold_meters` of the target location;
/// `None` where a decimal operation overflows.
pub fn checked_is_within_location(
    log: &BiometricLog,
    target_lat: Dec,
    target_lon: Dec,
    threshold_meters: Dec,
) -> (r: Option<bool>)
    ensures
        r == (match distance_meters(log.lat, log.lon, target_lat, target_lon) {
            Some(d) => Some(d.units() <= threshold_meters.units()),
            None => None,
        }),
{
    match checked_distance_meters(log, target_lat, target_lon) {
        Some(d) => Some(d.le(&threshold_meters)),
        None => None,
    }
}

/// Whether a log was taken within `threshold_meters` of the target location,
/// by the haversine distance on a sphere of the Earth's radius.
pub fn is_within_location(log: &BiometricLog, target_lat: Dec, target_lon: Dec, threshold_meters: Dec) -> (r: bool)
    requires
        distance_meters(log.lat, log.lon, target_lat, target_lon) is Some,
    ensures
        r == (distance_meters(log.lat, log.lon, target_lat, target_lon).unwrap().units()
            <= threshold_meters.units()),
{
    checked_is_within_location(log, target_lat, target_lon, threshold_meters).unwrap()
}

} // verus!
