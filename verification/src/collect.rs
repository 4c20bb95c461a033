//! The collection orchestrator: one scrape invokes the source readers in
//! the fixed order CPU, memory, disk, network, concatenates their sections,
//! and aborts at the first failure — a failed reader never yields a partial
//! document.

use vstd::prelude::*;

use crate::cpu::{cpu_section, cpu_section_spec, get_cpu_info};
use crate::disk::{disk_section, get_disk_info, render_disk_section};
use crate::error::MetricsError;
use crate::memory::{get_mem_info, mem_ok, mem_section};
use crate::network::{get_network_info, net_ok, net_section};
use crate::text::spec_tokens;

verus! {

/// The full exposition document: the CPU, memory, disk and network sections
/// concatenated in that fixed order.
pub open spec fn document_spec(
    load_milli: u64,
    cpus: u64,
    mem_lines: Seq<Seq<char>>,
    mounts: Seq<Seq<char>>,
    stats: Seq<(u64, u64, u64)>,
    net_lines: Seq<Seq<char>>,
) -> Seq<char> {
    cpu_section_spec(load_milli, cpus) + mem_section(mem_lines) + disk_section(mounts, stats)
        + net_section(net_lines)
}

/// Assembles the whole document from plain inputs: the raw load average in
/// thousandths, the CPU count, the raw memory table, the mount points with
/// the filesystem stats queried for them, and the raw device table.
/// Succeeds exactly when the memory and device tables are well-formed.
pub fn render_document(
    load_milli: u64,
    cpus: u64,
    mem_lines: &Vec<String>,
    mounts: &Vec<String>,
    stats: &Vec<(u64, u64, u64)>,
    net_lines: &Vec<String>,
) -> (r: Result<String, MetricsError>)
    requires
        cpus >= 1,
        stats@.len() == mounts@.len(),
    ensures
        r is Ok <==> mem_ok(mem_lines.deep_view()) && net_ok(net_lines.deep_view()),
        r matches Ok(s) ==> s@ == document_spec(
            load_milli,
            cpus,
            mem_lines.deep_view(),
            mounts.deep_view(),
            stats@,
            net_lines.deep_view(),
        ),
        r matches Err(e) ==> e == MetricsError::MalformedData,
{
    let mut out = cpu_section(load_milli, cpus);
    let mem_s = match get_mem_info(mem_lines) {
        Ok(s) => s,
        Err(e) => { return Err(e) },
    };
    let disk_s = render_disk_section(mounts, stats);
    let net_s = match get_network_info(net_lines) {
        Ok(s) => s,
        Err(e) => { return Err(e) },
    };
    out.append(mem_s.as_str());
    out.append(disk_s.as_str());
    out.append(net_s.as_str());
    proof {
        assert(out@ =~= document_spec(
            load_milli,
            cpus,
            mem_lines.deep_view(),
            mounts.deep_view(),
            stats@,
            net_lines.deep_view(),
        ));
    }
    Ok(out)
}

/// One scrape. The load average (in thousandths) and the raw tables arrive
/// as options: `None` stands for a source that could not be read and fails
/// the whole scrape as source-unavailable, in reader order — CPU first, then
/// memory, then disk, then network. The mount list is split on whitespace
/// and each mount point is queried; the first unstattable one aborts the
/// scrape. No partial document is ever returned.
pub fn metrics(
    load_milli: Option<u64>,
    mem_lines: Option<Vec<String>>,
    disk_mounts: &str,
    net_lines: Option<Vec<String>>,
) -> (r: Result<String, MetricsError>)
    ensures
        load_milli is None ==> r == Err::<String, MetricsError>(MetricsError::SourceUnavailable),
        load_milli is Some && mem_lines is None ==> r == Err::<String, MetricsError>(
            MetricsError::SourceUnavailable,
        ),
        ({
            &&& load_milli is Some
            &&& mem_lines matches Some(ml)
            &&& !mem_ok(ml.deep_view())
        }) ==> r == Err::<String, MetricsError>(MetricsError::MalformedData),
        r is Ok ==> {
            &&& load_milli is Some
            &&& mem_lines matches Some(ml) && mem_ok(ml.deep_view())
            &&& net_lines matches Some(nl) && net_ok(nl.deep_view())
        },
        r matches Ok(s) ==> exists|cpus: u64, stats: Seq<(u64, u64, u64)>|
            1 <= cpus && stats.len() == spec_tokens(disk_mounts@).len() && s@ == document_spec(
                load_milli.unwrap(),
                cpus,
                mem_lines.unwrap().deep_view(),
                spec_tokens(disk_mounts@),
                stats,
                net_lines.unwrap().deep_view(),
            ),
        ({
            &&& load_milli is Some
            &&& mem_lines matches Some(ml)
            &&& mem_ok(ml.deep_view())
            &&& spec_tokens(disk_mounts@).len() == 0
            &&& net_lines matches Some(nl)
            &&& net_ok(nl.deep_view())
        }) ==> r is Ok,
{
    let l = match load_milli {
        Some(l) => l,
        None => { return Err(MetricsError::SourceUnavailable) },
    };
    let cpu_s = match get_cpu_info(l) {
        Ok(s) => s,
        Err(e) => { return Err(e) },
    };
    let ml = match mem_lines {
        Some(ml) => ml,
        None => { return Err(MetricsError::SourceUnavailable) },
    };
    let mem_s = match get_mem_info(&ml) {
        Ok(s) => s,
        Err(e) => { return Err(e) },
    };
    let disk_s = match get_disk_info(disk_mounts) {
        Ok(s) => s,
        Err(e) => { return Err(e) },
    };
    let nl = match net_lines {
        Some(nl) => nl,
        None => { return Err(MetricsError::SourceUnavailable) },
    };
    let net_s = match get_network_info(&nl) {
        Ok(s) => s,
        Err(e) => { return Err(e) },
    };
    let ghost cpu_v = cpu_s@;
    let mut out = cpu_s;
    out.append(mem_s.as_str());
    out.append(disk_s.as_str());
    out.append(net_s.as_str());
    proof {
        let c = choose|c: u64| 1 <= c && cpu_v == cpu_section_spec(l, c);
        let stats = choose|st: Seq<(u64, u64, u64)>|
            st.len() == spec_tokens(disk_mounts@).len() && disk_s@ == disk_section(
                spec_tokens(disk_mounts@),
                st,
            );
        assert(out@ =~= document_spec(
            l,
            c,
            ml.deep_view(),
            spec_tokens(disk_mounts@),
            stats,
            nl.deep_view(),
        ));
    }
    Ok(out)
}

} // verus!
