//! The system facts that one sample holds, the closed set of additional
//! information that can be shown, and how each kind is rendered.

use vstd::prelude::*;
use crate::text::{
    all_ascii, all_space, ascii_lower_seq, fixed2, lemma_ascii_lower_idempotent, fixed2_spec, lemma_trim_padding, lower_of, lowercase, trim, trim_spec,
};

verus! {

/// One sample of the system, as plain values. Fractional quantities are
/// fixed point: temperatures in millionths of a degree Celsius, processor
/// usage in millionths of a percent, finer than the hundredths shown, so
/// that rounding for display happens here alone. The five-minute load average is kept as
/// the decimal text it is shown as.
pub struct SystemFacts {
    pub os_name: Option<String>,
    pub long_os_version: Option<String>,
    pub kernel_version: Option<String>,
    pub host_name: Option<String>,
    pub boot_time: u64,
    pub uptime: u64,
    pub load_average_five: String,
    pub available_memory_kb: u64,
    pub total_memory_kb: u64,
    pub component_temperatures: Vec<i64>,
    pub processor_brand: String,
    pub processor_usage: u64,
}

/// The additional information that can be shown beside the OS name.
#[derive(PartialEq, Eq, Structural, Clone, Copy, Debug)]
pub enum AvailableInfos {
    Hostname,
    AvgTemperature,
    Memory,
    Cpu,
    Load,
}

/// The kind that a lowercased key selects: the trimmed key must be one of
/// the four names exactly, and anything else selects the load average.
pub open spec fn kind_of_spec(lowered: Seq<char>) -> AvailableInfos {
    let t = trim_spec(lowered);
    if t == "hostname"@ {
        AvailableInfos::Hostname
    } else if t == "average-temperature"@ {
        AvailableInfos::AvgTemperature
    } else if t == "memory"@ {
        AvailableInfos::Memory
    } else if t == "cpu"@ {
        AvailableInfos::Cpu
    } else {
        AvailableInfos::Load
    }
}

/// Compares two strings character by character.
pub fn str_eq(a: &str, b: &str) -> (r: bool)
    ensures
        r == (a@ == b@),
{
    let n = a.unicode_len();
    if n != b.unicode_len() {
        return false;
    }
    let mut k: usize = 0;
    while k < n
        invariant
            k <= n,
            n == a@.len(),
            n == b@.len(),
            forall|t: int| 0 <= t < k ==> a@[t] == b@[t],
        decreases n - k,
    {
        if a.get_char(k) != b.get_char(k) {
            return false;
        }
        k = k + 1;
    }
    assert(a@ =~= b@);
    true
}

/// Selects the kind for a key that is already lowercased.
pub fn parse_lowered(lowered: &str) -> (r: AvailableInfos)
    ensures
        r == kind_of_spec(lowered@),
{
    let t = trim(lowered);
    let t = t.as_str();
    if str_eq(t, "hostname") {
        AvailableInfos::Hostname
    } else if str_eq(t, "average-temperature") {
        AvailableInfos::AvgTemperature
    } else if str_eq(t, "memory") {
        AvailableInfos::Memory
    } else if str_eq(t, "cpu") {
        AvailableInfos::Cpu
    } else {
        AvailableInfos::Load
    }
}

/// Selects the kind for a user's key, ignoring case and surrounding
/// whitespace. Never fails: an unknown or empty key selects the load average.
pub fn parse_infos(input: &str) -> (r: AvailableInfos)
    ensures
        r == kind_of_spec(lower_of(input@)),
        all_ascii(input@) ==> r == kind_of_spec(ascii_lower_seq(input@)),
{
    let lowered = lowercase(input);
    parse_lowered(lowered.as_str())
}

/// Parsing never fails, and a key selects the same kind whatever whitespace
/// surrounds it; for ASCII keys, whatever case it is written in, since
/// lowercasing the key first changes nothing.
pub proof fn lemma_parse_ignores_padding_and_case(pre: Seq<char>, key: Seq<char>, suf: Seq<char>)
    requires
        all_space(pre),
        all_space(suf),
    ensures
        kind_of_spec(pre + key + suf) == kind_of_spec(key),
        kind_of_spec(ascii_lower_seq(ascii_lower_seq(key))) == kind_of_spec(ascii_lower_seq(key)),
{
    lemma_trim_padding(pre, key, suf);
    lemma_ascii_lower_idempotent(key);
}

/// The listing of the keys that can be chosen, one per line.
pub open spec fn listing_spec() -> Seq<char> {
    "Hostname\nAverage-Temperature\nMemory\nCpu\n"@
}

/// `n / d` rounded to the nearest integer, halves rounded up.
pub open spec fn round_div(n: nat, d: nat) -> nat
    recommends
        d > 0,
{
    n / d + if (n % d) * 2 >= d { 1nat } else { 0nat }
}

/// The sum of a sequence of readings.
pub open spec fn sum_spec(s: Seq<i64>) -> int
    decreases s.len(),
{
    if s.len() == 0 {
        0
    } else {
        sum_spec(s.drop_last()) + s.last()
    }
}

/// The absolute value of an integer.
pub open spec fn abs_spec(x: int) -> nat {
    if x < 0 { (-x) as nat } else { x as nat }
}

/// The mean of readings in millionths, in hundredths, rounded to the nearest,
/// halves away from zero; the sign is given apart.
pub open spec fn mean_centi(s: Seq<i64>) -> nat
    recommends
        s.len() > 0,
{
    round_div(abs_spec(sum_spec(s)), 10000 * s.len())
}

/// The average temperature line: the mean to two decimals with the unit, or
/// `N/A` where there is no component.
pub open spec fn temperature_text(s: Seq<i64>) -> Seq<char> {
    if s.len() == 0 {
        "N/A"@
    } else {
        (if sum_spec(s) < 0 && mean_centi(s) > 0 { "-"@ } else { Seq::<char>::empty() })
            + fixed2_spec(mean_centi(s)) + " °C"@
    }
}

/// Kilobytes as gigabytes in hundredths, rounded to the nearest.
pub open spec fn gb_centi(kb: nat) -> nat {
    round_div(kb, 10000)
}

/// The memory line: available and total gigabytes to two decimals.
pub open spec fn memory_text(available_kb: nat, total_kb: nat) -> Seq<char> {
    fixed2_spec(gb_centi(available_kb)) + "/"@ + fixed2_spec(gb_centi(total_kb)) + " GB RAM"@
}

/// The processor line: brand and usage (in millionths) to two decimals.
pub open spec fn cpu_text(brand: Seq<char>, usage_micro: nat) -> Seq<char> {
    brand + " ("@ + fixed2_spec(round_div(usage_micro, 10000)) + "%)"@
}

/// The load line.
pub open spec fn load_text(five: Seq<char>) -> Seq<char> {
    "Load: "@ + five
}

/// The host line: the host name, else the OS name, else nothing.
pub open spec fn host_text(f: SystemFacts) -> Seq<char> {
    match f.host_name {
        Some(h) => h@,
        None => match f.os_name {
            Some(n) => n@,
            None => Seq::<char>::empty(),
        },
    }
}

/// The line that a kind renders from a sample.
pub open spec fn info_text_spec(kind: AvailableInfos, f: SystemFacts) -> Seq<char> {
    match kind {
        AvailableInfos::Hostname => host_text(f),
        AvailableInfos::AvgTemperature => temperature_text(f.component_temperatures@),
        AvailableInfos::Memory => memory_text(
            f.available_memory_kb as nat,
            f.total_memory_kb as nat,
        ),
        AvailableInfos::Cpu => cpu_text(f.processor_brand@, f.processor_usage as nat),
        AvailableInfos::Load => load_text(f.load_average_five@),
    }
}

fn round_div_u64(n: u64, d: u64) -> (r: u64)
    requires
        d > 1,
    ensures
        r == round_div(n as nat, d as nat),
{
    let q = n / d;
    assert(q < n || n == 0) by (nonlinear_arith)
        requires
            q == n / d,
            d > 1,
    ;
    if (n % d) >= d - n % d {
        q + 1
    } else {
        q
    }
}

fn average_temperature(temps: &Vec<i64>) -> (r: String)
    ensures
        r@ == temperature_text(temps@),
{
    let n = temps.len();
    if n == 0 {
        return String::from_str("N/A");
    }
    let mut sum: i128 = 0;
    let mut i: usize = 0;
    while i < n
        invariant
            i <= n,
            n == temps@.len(),
            sum == sum_spec(temps@.subrange(0, i as int)),
            -(i as int) * 0x8000_0000_0000_0000 <= sum <= (i as int) * 0x8000_0000_0000_0000,
        decreases n - i,
    {
        assert(temps@.subrange(0, i + 1).drop_last() =~= temps@.subrange(0, i as int));
        sum = sum + temps[i] as i128;
        i = i + 1;
    }
    assert(temps@.subrange(0, n as int) =~= temps@);
    let neg = sum < 0;
    let m: u128 = if neg { (-sum) as u128 } else { sum as u128 };
    let d: u128 = 10000 * (n as u128);
    let q = m / d;
    assert(q <= 0x8000_0000_0000_0000) by (nonlinear_arith)
        requires
            q == m / d,
            d == 10000 * n,
            n > 0,
            m <= n * 0x8000_0000_0000_0000,
    ;
    let centi: u64 = if (m % d) >= d - m % d { (q + 1) as u64 } else { q as u64 };
    assert(centi == mean_centi(temps@));
    let mut r = if neg && centi > 0 { String::from_str("-") } else { String::new() };
    let digits = fixed2(centi);
    r.append(digits.as_str());
    r.append(" °C");
    proof {
        reveal_strlit("-");
    }
    assert(r@ =~= temperature_text(temps@));
    r
}

impl AvailableInfos {
    /// The keys that can be chosen, one per line.
    pub fn get_all() -> (r: String)
        ensures
            r@ == listing_spec(),
    {
        String::from_str("Hostname\nAverage-Temperature\nMemory\nCpu\n")
    }

    /// Renders this kind of information from a sample.
    pub fn get_requested(self, facts: &SystemFacts) -> (r: String)
        ensures
            r@ == info_text_spec(self, *facts),
    {
        match self {
            AvailableInfos::Hostname => match &facts.host_name {
                Some(h) => h.clone(),
                None => match &facts.os_name {
                    Some(n) => n.clone(),
                    None => String::new(),
                },
            },
            AvailableInfos::AvgTemperature => average_temperature(&facts.component_temperatures),
            AvailableInfos::Memory => {
                let mut r = fixed2(round_div_u64(facts.available_memory_kb, 10000));
                r.append("/");
                let total = fixed2(round_div_u64(facts.total_memory_kb, 10000));
                r.append(total.as_str());
                r.append(" GB RAM");
                r
            },
            AvailableInfos::Cpu => {
                let mut r = facts.processor_brand.clone();
                r.append(" (");
                let usage = fixed2(round_div_u64(facts.processor_usage, 10000));
                r.append(usage.as_str());
                r.append("%)");
                r
            },
            AvailableInfos::Load => {
                let mut r = String::from_str("Load: ");
                r.append(facts.load_average_five.as_str());
                r
            },
        }
    }
}

} // verus!
