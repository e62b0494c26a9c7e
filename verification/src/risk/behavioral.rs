//! Behavioral profiles: the habits of a user's logins (hours, days,
//! addresses, devices, countries, interval between logins).
//! Times are Unix times in microseconds, in UTC.
use vstd::prelude::*;
use crate::ids::{UserId, DeviceId, IpAddress};
use crate::ids::uuid_text;
use crate::text::{string_views, contains_string, nat_digits, u64_to_text};

verus! {

/// Day of the week.
#[derive(Debug, Clone, Copy, PartialEq, Eq, Structural)]
pub enum Weekday {
    Mon,
    Tue,
    Wed,
    Thu,
    Fri,
    Sat,
    Sun,
}

/// Microseconds in one day.
pub const MICROS_PER_DAY: i64 = 86_400_000_000;

/// The hour of the day (UTC) of a time.
pub open spec fn hour_of(t: i64) -> int {
    ((t as int) % (MICROS_PER_DAY as int)) / 3_600_000_000
}

/// The day of the week (UTC) of a time, Monday first: the first day of
/// Unix time was a Thursday.
pub open spec fn weekday_index(t: i64) -> int {
    ((t as int) / (MICROS_PER_DAY as int) + 3) % 7
}

/// The weekday with index `i` (Monday is 0).
pub open spec fn weekday_of_index(i: int) -> Weekday {
    if i == 0 { Weekday::Mon } else if i == 1 { Weekday::Tue } else if i == 2 { Weekday::Wed }
    else if i == 3 { Weekday::Thu } else if i == 4 { Weekday::Fri } else if i == 5 { Weekday::Sat }
    else { Weekday::Sun }
}

/// The hour of the day (UTC) of `t`.
pub fn hour(t: i64) -> (h: u8)
    ensures
        h == hour_of(t),
        h < 24,
{
    let r = t % MICROS_PER_DAY;
    let r = if r < 0 { r + MICROS_PER_DAY } else { r };
    assert(r == (t as int) % (MICROS_PER_DAY as int));
    (r / 3_600_000_000) as u8
}

/// The day of the week (UTC) of `t`.
pub fn weekday(t: i64) -> (d: Weekday)
    ensures
        d == weekday_of_index(weekday_index(t)),
{
    let q = t / MICROS_PER_DAY;
    let r = t % MICROS_PER_DAY;
    let days: i64 = if r < 0 { q - 1 } else { q };
    assert(days == (t as int) / (MICROS_PER_DAY as int));
    let m = (days % 7 + 7 + 3) % 7;
    assert(m == (days + 3) % 7);
    if m == 0 { Weekday::Mon } else if m == 1 { Weekday::Tue } else if m == 2 { Weekday::Wed }
    else if m == 3 { Weekday::Thu } else if m == 4 { Weekday::Fri } else if m == 5 { Weekday::Sat }
    else { Weekday::Sun }
}

/// `s` with `x` added at the end unless present, keeping the last `cap` elements.
pub open spec fn remember<T>(s: Seq<T>, x: T, cap: nat) -> Seq<T> {
    if s.contains(x) {
        s
    } else if s.len() + 1 > cap {
        s.push(x).drop_first()
    } else {
        s.push(x)
    }
}

/// `s` with `x` added at the end unless present.
pub open spec fn add_new<T>(s: Seq<T>, x: T) -> Seq<T> {
    if s.contains(x) { s } else { s.push(x) }
}

/// Whole seconds from `from` to `to` (microseconds), rounded toward zero,
/// and 0 when negative.
pub open spec fn interval_secs(from: i64, to: i64) -> int {
    let d = to - from;
    if d > 0 { d / 1_000_000 } else { 0 }
}

/// The interval average after a login `interval` seconds after the previous:
/// the first interval, then a moving average weighing the old average 9 to 1.
pub open spec fn next_average(avg: Option<u64>, interval: int) -> int {
    match avg {
        Some(a) => (a * 9 + interval) / 10,
        None => interval,
    }
}

/// Profile of a user's logins.
#[derive(Debug, Clone)]
pub struct UserBehavior {
    pub user_id: UserId,
    /// Hours (0 to 23) at which the user logged in.
    pub typical_login_hours: Vec<u8>,
    pub typical_login_days: Vec<Weekday>,
    /// Last 10 addresses.
    pub known_ips: Vec<IpAddress>,
    /// Last 5 devices.
    pub known_devices: Vec<DeviceId>,
    /// Average seconds between logins.
    pub avg_login_interval_secs: Option<u64>,
    pub total_logins: u64,
    pub last_login: Option<i64>,
    pub first_seen: i64,
    /// Country codes.
    pub known_countries: Vec<String>,
}

/// The interval average of a login at `t` fits in 64 bits.
pub open spec fn average_fits(b: UserBehavior, t: i64) -> bool {
    match (b.last_login, b.avg_login_interval_secs) {
        (Some(last), Some(a)) => a * 9 + interval_secs(last, t) <= u64::MAX,
        _ => true,
    }
}

fn contains_u8(v: &Vec<u8>, x: u8) -> (b: bool)
    ensures
        b == v@.contains(x),
{
    let mut i: usize = 0;
    while i < v.len()
        invariant
            i <= v@.len(),
            forall|j: int| 0 <= j < i ==> v@[j] != x,
        decreases v@.len() - i,
    {
        if v[i] == x {
            return true;
        }
        i += 1;
    }
    false
}

fn contains_day(v: &Vec<Weekday>, x: Weekday) -> (b: bool)
    ensures
        b == v@.contains(x),
{
    let mut i: usize = 0;
    while i < v.len()
        invariant
            i <= v@.len(),
            forall|j: int| 0 <= j < i ==> v@[j] != x,
        decreases v@.len() - i,
    {
        if v[i] == x {
            return true;
        }
        i += 1;
    }
    false
}

fn contains_ip(v: &Vec<IpAddress>, x: IpAddress) -> (b: bool)
    ensures
        b == v@.contains(x),
{
    let mut i: usize = 0;
    while i < v.len()
        invariant
            i <= v@.len(),
            forall|j: int| 0 <= j < i ==> v@[j] != x,
        decreases v@.len() - i,
    {
        if v[i] == x {
            return true;
        }
        i += 1;
    }
    false
}

fn contains_device(v: &Vec<DeviceId>, x: DeviceId) -> (b: bool)
    ensures
        b == v@.contains(x),
{
    let mut i: usize = 0;
    while i < v.len()
        invariant
            i <= v@.len(),
            forall|j: int| 0 <= j < i ==> v@[j] != x,
        decreases v@.len() - i,
    {
        if v[i] == x {
            return true;
        }
        i += 1;
    }
    false
}

impl UserBehavior {
    /// An empty profile first seen at `now`.
    pub fn new_at(user_id: UserId, now: i64) -> (b: UserBehavior)
        ensures
            b.user_id == user_id,
            b.typical_login_hours@.len() == 0,
            b.typical_login_days@.len() == 0,
            b.known_ips@.len() == 0,
            b.known_devices@.len() == 0,
            b.avg_login_interval_secs is None,
            b.total_logins == 0,
            b.last_login is None,
            b.first_seen == now,
            b.known_countries@.len() == 0,
    {
        UserBehavior {
            user_id,
            typical_login_hours: Vec::new(),
            typical_login_days: Vec::new(),
            known_ips: Vec::new(),
            known_devices: Vec::new(),
            avg_login_interval_secs: None,
            total_logins: 0,
            last_login: None,
            first_seen: now,
            known_countries: Vec::new(),
        }
    }

    /// An empty profile first seen now.
    pub fn new(user_id: UserId) -> (b: UserBehavior)
        ensures
            b.user_id == user_id,
            b.total_logins == 0,
            b.last_login is None,
    {
        UserBehavior::new_at(user_id, crate::ids::now_micros())
    }

    /// Records a login at `timestamp`.
    pub fn record_login(&mut self, timestamp: i64, ip: IpAddress, device_id: DeviceId, country: Option<String>)
        requires
            old(self).total_logins < u64::MAX,
            average_fits(*old(self), timestamp),
        ensures
            final(self).user_id == old(self).user_id,
            final(self).first_seen == old(self).first_seen,
            final(self).total_logins == old(self).total_logins + 1,
            final(self).typical_login_hours@ == add_new(old(self).typical_login_hours@, hour_of(timestamp) as u8),
            final(self).typical_login_days@ == add_new(old(self).typical_login_days@, weekday_of_index(weekday_index(timestamp))),
            final(self).known_ips@ == remember(old(self).known_ips@, ip, 10),
            final(self).known_devices@ == remember(old(self).known_devices@, device_id, 5),
            string_views(final(self).known_countries@) == match country {
                Some(c) => add_new(string_views(old(self).known_countries@), c@),
                None => string_views(old(self).known_countries@),
            },
            final(self).avg_login_interval_secs == match old(self).last_login {
                Some(last) => Some(next_average(old(self).avg_login_interval_secs, interval_secs(last, timestamp)) as u64),
                None => old(self).avg_login_interval_secs,
            },
            final(self).last_login == Some(timestamp),
    {
        self.total_logins = self.total_logins + 1;
        let h = hour(timestamp);
        if !contains_u8(&self.typical_login_hours, h) {
            self.typical_login_hours.push(h);
        }
        let d = weekday(timestamp);
        if !contains_day(&self.typical_login_days, d) {
            self.typical_login_days.push(d);
        }
        if !contains_ip(&self.known_ips, ip) {
            self.known_ips.push(ip);
            if self.known_ips.len() > 10 {
                self.known_ips.remove(0);
            }
        }
        if !contains_device(&self.known_devices, device_id) {
            self.known_devices.push(device_id);
            if self.known_devices.len() > 5 {
                self.known_devices.remove(0);
            }
        }
        match country {
            Some(c) => {
                if !contains_string(&self.known_countries, c.as_str()) {
                    let ghost before = self.known_countries@;
                    self.known_countries.push(c);
                    assert(string_views(self.known_countries@) =~= string_views(before).push(c@));
                }
            },
            None => {},
        }
        match self.last_login {
            Some(last) => {
                let diff: i128 = (timestamp as i128) - (last as i128);
                let secs: u64 = if diff > 0 { (diff / 1_000_000) as u64 } else { 0 };
                assert(secs == interval_secs(last, timestamp));
                match self.avg_login_interval_secs {
                    Some(avg) => {
                        self.avg_login_interval_secs = Some((avg * 9 + secs) / 10);
                    },
                    None => {
                        self.avg_login_interval_secs = Some(secs);
                    },
                }
            },
            None => {},
        }
        self.last_login = Some(timestamp);
    }

    /// Whether `hour` is one of the user's login hours (any hour before data).
    pub fn is_typical_hour(&self, hour: u8) -> (b: bool)
        ensures
            b == (self.typical_login_hours@.len() == 0 || self.typical_login_hours@.contains(hour)),
    {
        if self.typical_login_hours.len() == 0 {
            true
        } else {
            contains_u8(&self.typical_login_hours, hour)
        }
    }

    /// Whether `day` is one of the user's login days (any day before data).
    pub fn is_typical_day(&self, day: Weekday) -> (b: bool)
        ensures
            b == (self.typical_login_days@.len() == 0 || self.typical_login_days@.contains(day)),
    {
        if self.typical_login_days.len() == 0 {
            true
        } else {
            contains_day(&self.typical_login_days, day)
        }
    }

    /// Whether the address is one of the last known.
    pub fn is_known_ip(&self, ip: &IpAddress) -> (b: bool)
        ensures
            b == self.known_ips@.contains(*ip),
    {
        contains_ip(&self.known_ips, *ip)
    }

    /// Whether the device is one of the last known.
    pub fn is_known_device(&self, device_id: &DeviceId) -> (b: bool)
        ensures
            b == self.known_devices@.contains(*device_id),
    {
        contains_device(&self.known_devices, *device_id)
    }

    /// Whether the country is known (any country before data).
    pub fn is_known_country(&self, country: &str) -> (b: bool)
        ensures
            b == (self.known_countries@.len() == 0 || string_views(self.known_countries@).contains(country@)),
    {
        if self.known_countries.len() == 0 {
            true
        } else {
            contains_string(&self.known_countries, country)
        }
    }
}

/// The name of a day, as its `Debug` form writes it.
pub open spec fn weekday_name(d: Weekday) -> Seq<char> {
    match d {
        Weekday::Mon => "Mon"@,
        Weekday::Tue => "Tue"@,
        Weekday::Wed => "Wed"@,
        Weekday::Thu => "Thu"@,
        Weekday::Fri => "Fri"@,
        Weekday::Sat => "Sat"@,
        Weekday::Sun => "Sun"@,
    }
}

impl Weekday {
    /// The name of the day, "Mon" to "Sun".
    pub fn name(&self) -> (s: &'static str)
        ensures
            s@ == weekday_name(*self),
    {
        match self {
            Weekday::Mon => "Mon",
            Weekday::Tue => "Tue",
            Weekday::Wed => "Wed",
            Weekday::Thu => "Thu",
            Weekday::Fri => "Fri",
            Weekday::Sat => "Sat",
            Weekday::Sun => "Sun",
        }
    }
}

/// Whether the hour of `t` is typical of the profile (any hour before data).
pub open spec fn typical_hour_of(b: UserBehavior, t: i64) -> bool {
    b.typical_login_hours@.len() == 0 || b.typical_login_hours@.contains(hour_of(t) as u8)
}

/// Whether the day of `t` is typical of the profile (any day before data).
pub open spec fn typical_day_of(b: UserBehavior, t: i64) -> bool {
    b.typical_login_days@.len() == 0 || b.typical_login_days@.contains(weekday_of_index(weekday_index(t)))
}

/// Whether the country is known to the profile (any country before data).
pub open spec fn known_country(b: UserBehavior, c: Seq<char>) -> bool {
    b.known_countries@.len() == 0 || string_views(b.known_countries@).contains(c)
}

/// Whether a login at `t` from `ip` on `device` fits the profile: every
/// login fits a profile without logins; otherwise its hour and day are
/// typical, its address is known or fewer than 3 are, and its device is
/// known or fewer than 2 are.
pub open spec fn typical_login(b: UserBehavior, t: i64, ip: IpAddress, device: DeviceId) -> bool {
    b.total_logins == 0 || (typical_hour_of(b, t) && typical_day_of(b, t)
        && (b.known_ips@.contains(ip) || b.known_ips@.len() < 3)
        && (b.known_devices@.contains(device) || b.known_devices@.len() < 2))
}

/// The text of a country, when there is one.
pub open spec fn country_view(country: Option<&str>) -> Option<Seq<char>> {
    match country {
        Some(c) => Some(c@),
        None => None,
    }
}

/// The finding on the interval since the previous login: one when it is
/// under a tenth of the average interval and under 300 seconds.
pub open spec fn interval_finding(b: UserBehavior, t: i64) -> Seq<Seq<char>> {
    match (b.last_login, b.avg_login_interval_secs) {
        (Some(last), Some(avg)) => {
            let actual = interval_secs(last, t);
            if actual < avg / 10 && actual < 300 {
                seq!["Login too soon ("@ + nat_digits(actual as nat) + "s vs avg "@ + nat_digits(avg as nat) + "s)"@]
            } else {
                Seq::empty()
            }
        },
        _ => Seq::empty(),
    }
}

/// What is unusual in a login at `t` against the profile, in order: its
/// hour, its day, its address (`ip_text` is the address as text), its
/// device, its country, and an interval far shorter than usual (see
/// `interval_finding`). Nothing for a profile without logins.
pub open spec fn login_findings(
    b: UserBehavior,
    t: i64,
    ip: IpAddress,
    ip_text: Seq<char>,
    device: DeviceId,
    country: Option<Seq<char>>,
) -> Seq<Seq<char>> {
    if b.total_logins == 0 {
        Seq::empty()
    } else {
        let s1: Seq<Seq<char>> = if typical_hour_of(b, t) {
            Seq::empty()
        } else {
            seq!["Unusual login hour: "@ + nat_digits(hour_of(t) as nat)]
        };
        let s2 = if typical_day_of(b, t) {
            s1
        } else {
            s1.push("Unusual login day: "@ + weekday_name(weekday_of_index(weekday_index(t))))
        };
        let s3 = if b.known_ips@.contains(ip) { s2 } else { s2.push("Unknown IP address: "@ + ip_text) };
        let s4 = if b.known_devices@.contains(device) { s3 } else { s3.push("Unknown device: "@ + uuid_text(device.0)) };
        let s5 = match country {
            Some(c) => if known_country(b, c) { s4 } else { s4.push("Unusual country: "@ + c) },
            None => s4,
        };
        s5 + interval_finding(b, t)
    }
}

/// Whether a login at `t` comes within `tolerance` seconds of the average
/// interval after the previous login; true while either is unknown.
pub open spec fn interval_within(b: UserBehavior, t: i64, tolerance: u64) -> bool {
    match (b.last_login, b.avg_login_interval_secs) {
        (Some(last), Some(avg)) => {
            let actual = interval_secs(last, t);
            let lower = if avg >= tolerance { avg - tolerance } else { 0 };
            lower <= actual && actual <= avg + tolerance
        },
        _ => true,
    }
}

/// Whole seconds from `from` to `to`, 0 when negative (see `interval_secs`).
fn seconds_between(from: i64, to: i64) -> (s: u64)
    ensures
        s == interval_secs(from, to),
{
    let diff: i128 = (to as i128) - (from as i128);
    if diff > 0 { (diff / 1_000_000) as u64 } else { 0 }
}

impl UserBehavior {
    /// Whether a login at `t` from `ip` on `device_id` fits the profile
    /// (see `typical_login`).
    pub fn is_typical_login(&self, t: i64, ip: &IpAddress, device_id: &DeviceId) -> (b: bool)
        ensures
            b == typical_login(*self, t, *ip, *device_id),
    {
        if self.total_logins == 0 {
            return true;
        }
        let h = hour(t);
        let d = weekday(t);
        self.is_typical_hour(h) && self.is_typical_day(d)
            && (self.is_known_ip(ip) || self.known_ips.len() < 3)
            && (self.is_known_device(device_id) || self.known_devices.len() < 2)
    }

    /// What is unusual in a login at `t` (see `login_findings`); `ip_text`
    /// is the address as text.
    pub fn unusual_in_login(
        &self,
        t: i64,
        ip: &IpAddress,
        ip_text: &str,
        device_id: &DeviceId,
        country: Option<&str>,
    ) -> (r: Vec<String>)
        ensures
            string_views(r@) == login_findings(*self, t, *ip, ip_text@, *device_id, country_view(country)),
    {
        let mut out: Vec<String> = Vec::new();
        if self.total_logins == 0 {
            assert(string_views(out@) =~= Seq::<Seq<char>>::empty());
            return out;
        }
        let h = hour(t);
        if !self.is_typical_hour(h) {
            let mut m = String::from_str("Unusual login hour: ");
            m.append(u64_to_text(h as u64).as_str());
            out.push(m);
        }
        let d = weekday(t);
        if !self.is_typical_day(d) {
            let mut m = String::from_str("Unusual login day: ");
            m.append(d.name());
            out.push(m);
        }
        if !self.is_known_ip(ip) {
            let mut m = String::from_str("Unknown IP address: ");
            m.append(ip_text);
            out.push(m);
        }
        if !self.is_known_device(device_id) {
            let mut m = String::from_str("Unknown device: ");
            m.append(device_id.to_string().as_str());
            out.push(m);
        }
        match country {
            Some(c) => {
                if !self.is_known_country(c) {
                    let mut m = String::from_str("Unusual country: ");
                    m.append(c);
                    out.push(m);
                }
            },
            None => {},
        }
        let ghost before = string_views(out@);
        match (self.last_login, self.avg_login_interval_secs) {
            (Some(last), Some(avg)) => {
                let actual = seconds_between(last, t);
                if actual < avg / 10 && actual < 300 {
                    let mut m = String::from_str("Login too soon (");
                    m.append(u64_to_text(actual).as_str());
                    m.append("s vs avg ");
                    m.append(u64_to_text(avg).as_str());
                    m.append("s)");
                    out.push(m);
                }
            },
            _ => {},
        }
        assert(string_views(out@) =~= login_findings(*self, t, *ip, ip_text@, *device_id, country_view(country)));
        out
    }

    /// Whether a login at `t` comes within `tolerance` seconds of the
    /// average interval (see `interval_within`).
    pub fn interval_within(&self, t: i64, tolerance: u64) -> (b: bool)
        requires
            self.avg_login_interval_secs matches Some(avg) ==> avg + tolerance <= u64::MAX,
        ensures
            b == interval_within(*self, t, tolerance),
    {
        match (self.last_login, self.avg_login_interval_secs) {
            (Some(last), Some(avg)) => {
                let actual = seconds_between(last, t);
                let lower = if avg >= tolerance { avg - tolerance } else { 0 };
                lower <= actual && actual <= avg + tolerance
            },
            _ => true,
        }
    }
}

/// After a login, its address, device and country are known, and its hour
/// and day are typical; the address and device lists stay within their
/// caps and free of repeats.
pub proof fn lemma_login_becomes_known<T>(s: Seq<T>, x: T, cap: nat)
    requires
        cap >= 1,
        s.len() <= cap,
        s.no_duplicates(),
    ensures
        remember(s, x, cap).contains(x),
        remember(s, x, cap).len() <= cap,
        remember(s, x, cap).no_duplicates(),
        add_new(s, x).contains(x),
{
    if !s.contains(x) {
        let p = s.push(x);
        assert(p[s.len() as int] == x);
        assert(p.no_duplicates()) by {
            assert forall|i: int, j: int| 0 <= i < p.len() && 0 <= j < p.len() && i != j implies p[i] != p[j] by {
                if i < s.len() && j < s.len() {
                } else if i < s.len() {
                    assert(s.contains(p[i]));
                } else {
                    assert(s.contains(p[j]));
                }
            }
        }
        if s.len() + 1 > cap {
            assert(p.drop_first()[p.len() - 2] == x);
        }
    }
}

} // verus!
