//! Anomalies of authentication attempts and the checks that detect them.
use vstd::prelude::*;
use crate::text::{concat2, concat3, int_to_text, int_text};

verus! {

/// Kind of anomaly.
#[derive(Debug, Clone, Copy, PartialEq, Eq, Structural)]
pub enum AnomalyType {
    ImpossibleTravel,
    HighVelocity,
    UnusualTime,
    UnknownDevice,
    UnknownIp,
    GeographicAnomaly,
    CredentialStuffing,
    SessionHijacking,
    BruteForce,
}

/// Whether an anomaly kind calls for a security key at once.
pub open spec fn is_critical_anomaly(t: AnomalyType) -> bool {
    t is ImpossibleTravel || t is SessionHijacking || t is BruteForce
}

/// Whether an anomaly kind concerns the location of the attempt.
pub open spec fn is_geographic_anomaly(t: AnomalyType) -> bool {
    t is GeographicAnomaly || t is ImpossibleTravel
}

/// What the detector knows of an attempt.
pub struct AttemptFacts {
    /// Logins recorded for the user so far.
    pub total_logins: u64,
    /// Whole seconds since the previous login, when there was one.
    pub seconds_since_last_login: Option<i64>,
    /// Whether the address was seen before.
    pub ip_known: bool,
    /// The address as text.
    pub ip_text: String,
    /// The country of the attempt, when known, and whether it was seen before.
    pub country: Option<(String, bool)>,
    pub failed_attempts: u32,
}

/// The anomalies of an attempt, in the order they are checked: a login
/// within a minute of the previous one after more than 10 logins; an
/// unknown address after more than 5; an unusual country after more than
/// 3; at least `brute_force_attempts` failures.
pub open spec fn anomaly_kinds(f: AttemptFacts, brute_force_attempts: u32) -> Seq<AnomalyType> {
    let a = if f.total_logins > 10 && (f.seconds_since_last_login matches Some(s) && s < 60) {
        seq![AnomalyType::HighVelocity]
    } else {
        Seq::empty()
    };
    let b = if !f.ip_known && f.total_logins > 5 { a.push(AnomalyType::UnknownIp) } else { a };
    let c = if (f.country matches Some((_, known)) && !known) && f.total_logins > 3 {
        b.push(AnomalyType::GeographicAnomaly)
    } else {
        b
    };
    if f.failed_attempts >= brute_force_attempts { c.push(AnomalyType::BruteForce) } else { c }
}

/// The anomalies of an attempt, each with its description (see `anomaly_kinds`).
pub fn detect_anomalies(f: &AttemptFacts, brute_force_attempts: u32) -> (r: Vec<(AnomalyType, String)>)
    ensures
        r@.map_values(|p: (AnomalyType, String)| p.0) == anomaly_kinds(*f, brute_force_attempts),
        forall|i: int| 0 <= i < r@.len() ==> (#[trigger] r@[i]).1@ == anomaly_description(r@[i].0, *f),
{
    let mut out: Vec<(AnomalyType, String)> = Vec::new();
    if f.total_logins > 10 {
        match f.seconds_since_last_login {
            Some(s) => {
                if s < 60 {
                    let t = int_to_text(s);
                    out.push((AnomalyType::HighVelocity, concat3("Login only ", t.as_str(), "s after previous")));
                }
            },
            None => {},
        }
    }
    let ghost a = out@;
    if !f.ip_known && f.total_logins > 5 {
        out.push((AnomalyType::UnknownIp, concat2("Unknown IP address: ", f.ip_text.as_str())));
    }
    let ghost b = out@;
    match &f.country {
        Some((c, known)) => {
            if !*known && f.total_logins > 3 {
                out.push((AnomalyType::GeographicAnomaly, concat2("Unusual country: ", c.as_str())));
            }
        },
        None => {},
    }
    if f.failed_attempts >= brute_force_attempts {
        let t = int_to_text(f.failed_attempts as i64);
        out.push((AnomalyType::BruteForce, concat2(t.as_str(), " failed attempts")));
    }
    assert(out@.map_values(|p: (AnomalyType, String)| p.0) =~= anomaly_kinds(*f, brute_force_attempts));
    out
}

/// The description of a detected anomaly.
pub open spec fn anomaly_description(t: AnomalyType, f: AttemptFacts) -> Seq<char> {
    match t {
        AnomalyType::HighVelocity => "Login only "@ + int_text(f.seconds_since_last_login.unwrap() as int) + "s after previous"@,
        AnomalyType::UnknownIp => "Unknown IP address: "@ + f.ip_text@,
        AnomalyType::GeographicAnomaly => "Unusual country: "@ + f.country.unwrap().0@,
        _ => int_text(f.failed_attempts as int) + " failed attempts"@,
    }
}

} // verus!
