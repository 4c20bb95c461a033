//! Source reader for CPU load: the 1-minute load average, supplied in
//! thousandths, is divided by the number of logical CPUs and rendered with
//! exactly three decimal digits. Only the 1-minute average is exposed.

use vstd::prelude::*;

use crate::error::MetricsError;
use crate::metric::{sample_line, spec_render, Metric, MetricType};
use crate::text::{dec_str, digit_char, digit_str, u128_to_string};

verus! {

/// The load in thousandths, divided by the CPU count and rounded to the
/// nearest thousandth (an exact half rounds upward).
pub open spec fn load_per_cpu_milli(load_milli: nat, cpus: nat) -> nat
    recommends
        cpus >= 1,
{
    (load_milli + cpus / 2) / cpus
}

/// Exactly three decimal digits, with leading zeros.
pub open spec fn pad3(n: nat) -> Seq<char> {
    seq![digit_char((n / 100) % 10), digit_char((n / 10) % 10), digit_char(n % 10)]
}

/// A value in thousandths as decimal text with exactly three digits after
/// the point.
pub open spec fn milli_text(m: nat) -> Seq<char> {
    dec_str(m / 1000) + "."@ + pad3(m % 1000)
}

/// The CPU section: one gauge with a single unlabeled sample holding the
/// normalized 1-minute load average.
pub open spec fn cpu_section_spec(load_milli: u64, cpus: u64) -> Seq<char> {
    spec_render(
        "squo_load_avg_1m"@,
        MetricType::Gauge,
        seq![
            sample_line(
                "squo_load_avg_1m"@,
                Option::None,
                milli_text(load_per_cpu_milli(load_milli as nat, cpus as nat)),
            ),
        ],
    )
}

/// Renders a value in thousandths with exactly three digits after the point.
fn format_milli(m: u128) -> (s: String)
    ensures
        s@ == milli_text(m as nat),
{
    let mut s = u128_to_string(m / 1000);
    s.append(".");
    let r = m % 1000;
    s.append(digit_str((r / 100) % 10));
    s.append(digit_str((r / 10) % 10));
    s.append(digit_str(r % 10));
    proof {
        assert(s@ =~= milli_text(m as nat));
    }
    s
}

/// Renders the CPU section for a raw 1-minute load average (in thousandths)
/// and a logical-CPU count. A CPU count of zero must not occur.
pub fn cpu_section(load_milli: u64, cpus: u64) -> (s: String)
    requires
        cpus >= 1,
    ensures
        s@ == cpu_section_spec(load_milli, cpus),
{
    let l = load_milli as u128;
    let c = cpus as u128;
    let m = (l + c / 2) / c;
    let text = format_milli(m);
    let mut la = Metric {
        name: "squo_load_avg_1m".to_owned(),
        ptype: MetricType::Gauge,
        values: Vec::new(),
    };
    la.add(text.as_str(), Option::None);
    proof {
        assert(la.values.deep_view() =~~= seq![
            sample_line(
                "squo_load_avg_1m"@,
                Option::None,
                milli_text(load_per_cpu_milli(load_milli as nat, cpus as nat)),
            ),
        ]);
    }
    la.render()
}

/// Relies on num_cpus::get: the number of logical CPUs available to the
/// process, documented to always be at least 1.
#[verifier::external_body]
fn logical_cpus() -> (n: u64)
    ensures
        1 <= n,
{
    num_cpus::get() as u64
}

/// Renders the CPU section for a raw 1-minute load average in thousandths,
/// normalized by the number of logical CPUs the process sees. Never fails.
pub fn get_cpu_info(load_milli: u64) -> (r: Result<String, MetricsError>)
    ensures
        r is Ok,
        r matches Ok(s) ==> exists|c: u64| 1 <= c && s@ == cpu_section_spec(load_milli, c),
{
    let c = logical_cpus();
    let s = cpu_section(load_milli, c);
    proof {
        assert(s@ == cpu_section_spec(load_milli, c));
    }
    Ok(s)
}

} // verus!
