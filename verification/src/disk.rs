//! Source reader for disk capacity: for each mount point a filesystem
//! statistics query yields block size, total block count and available block
//! count; total and free bytes are their products. One unstattable mount
//! point fails the whole scrape.

use vstd::prelude::*;

use crate::error::MetricsError;
use crate::metric::{label_text, label_views, sample_line, spec_render, Metric, MetricType};
use crate::text::{
    count_char, dec_str, lemma_count_char_concat, spec_tokens, tokens_vec, u128_to_string,
};

verus! {

/// Total bytes of a filesystem: block size times total block count.
pub open spec fn total_bytes(st: (u64, u64, u64)) -> nat {
    st.0 as nat * st.1 as nat
}

/// Free bytes of a filesystem: block size times available block count.
pub open spec fn free_bytes(st: (u64, u64, u64)) -> nat {
    st.0 as nat * st.2 as nat
}

/// One disk sample line, labeled with its mount path.
pub open spec fn disk_sample(name: Seq<char>, mount: Seq<char>, bytes: nat) -> Seq<char> {
    sample_line(name, Option::Some(seq![("path"@, mount)]), dec_str(bytes))
}

/// The sample lines of one disk gauge: one per mount point, in order, each
/// labeled with its own path.
pub open spec fn disk_samples(
    name: Seq<char>,
    mounts: Seq<Seq<char>>,
    stats: Seq<(u64, u64, u64)>,
    use_free: bool,
) -> Seq<Seq<char>> {
    Seq::new(
        mounts.len(),
        |i: int|
            disk_sample(
                name,
                mounts[i],
                if use_free {
                    free_bytes(stats[i])
                } else {
                    total_bytes(stats[i])
                },
            ),
    )
}

/// The disk section: the total gauge, then the free gauge.
pub open spec fn disk_section(mounts: Seq<Seq<char>>, stats: Seq<(u64, u64, u64)>) -> Seq<char> {
    spec_render(
        "squo_disk_total"@,
        MetricType::Gauge,
        disk_samples("squo_disk_total"@, mounts, stats, false),
    ) + spec_render(
        "squo_disk_free"@,
        MetricType::Gauge,
        disk_samples("squo_disk_free"@, mounts, stats, true),
    )
}

/// Each disk gauge carries exactly one sample per mount point.
pub proof fn lemma_disk_sample_count(
    name: Seq<char>,
    mounts: Seq<Seq<char>>,
    stats: Seq<(u64, u64, u64)>,
    use_free: bool,
)
    ensures
        disk_samples(name, mounts, stats, use_free).len() == mounts.len(),
{
}

proof fn lemma_disk_samples_newline_free(
    name: Seq<char>,
    mounts: Seq<Seq<char>>,
    stats: Seq<(u64, u64, u64)>,
    use_free: bool,
)
    requires
        count_char(name, '\n') == 0,
        forall|i: int| 0 <= i < mounts.len() ==> count_char(#[trigger] mounts[i], '\n') == 0,
    ensures
        forall|t: int|
            0 <= t < disk_samples(name, mounts, stats, use_free).len() ==> count_char(
                #[trigger] disk_samples(name, mounts, stats, use_free)[t],
                '\n',
            ) == 0,
{
    reveal_with_fuel(crate::text::count_char, 8);
    reveal_strlit("{");
    reveal_strlit("}");
    reveal_strlit(" ");
    reveal_strlit("path");
    reveal_strlit("=\"");
    reveal_strlit("\"");
    assert forall|t: int|
        0 <= t < disk_samples(name, mounts, stats, use_free).len() implies count_char(
        #[trigger] disk_samples(name, mounts, stats, use_free)[t],
        '\n',
    ) == 0 by {
        let bytes = if use_free {
            free_bytes(stats[t])
        } else {
            total_bytes(stats[t])
        };
        crate::text::lemma_dec_str_newline_free(bytes);
        let lt = label_text("path"@, mounts[t]);
        lemma_count_char_concat("path"@, "=\""@, '\n');
        lemma_count_char_concat("path"@ + "=\""@, mounts[t], '\n');
        lemma_count_char_concat("path"@ + "=\""@ + mounts[t], "\""@, '\n');
        assert(count_char(lt, '\n') == 0);
        lemma_count_char_concat(name, "{"@, '\n');
        lemma_count_char_concat(name + "{"@, lt, '\n');
        lemma_count_char_concat(name + "{"@ + lt, "}"@, '\n');
        lemma_count_char_concat(name + "{"@ + lt + "}"@, " "@, '\n');
        lemma_count_char_concat(name + "{"@ + lt + "}"@ + " "@, dec_str(bytes), '\n');
        assert(disk_samples(name, mounts, stats, use_free)[t] == sample_line(
            name,
            Option::Some(seq![("path"@, mounts[t])]),
            dec_str(bytes),
        ));
    }
}

/// For every set of mount points whose paths are newline-free, each disk
/// gauge renders as exactly one header line and one sample line per mount:
/// its text holds one newline per mount plus one (two for an empty mount
/// list), and the whole disk section twice that.
#[verifier::rlimit(60)]
pub proof fn lemma_disk_section_line_count(mounts: Seq<Seq<char>>, stats: Seq<(u64, u64, u64)>)
    requires
        forall|i: int| 0 <= i < mounts.len() ==> count_char(#[trigger] mounts[i], '\n') == 0,
    ensures
        ({
            let per_metric: nat = if mounts.len() == 0 {
                2nat
            } else {
                (mounts.len() + 1) as nat
            };
            count_char(disk_section(mounts, stats), '\n') == 2 * per_metric
        }),
{
    reveal_with_fuel(crate::text::count_char, 17);
    reveal_strlit("squo_disk_total");
    reveal_strlit("squo_disk_free");
    assert(count_char("squo_disk_total"@, '\n') == 0);
    assert(count_char("squo_disk_free"@, '\n') == 0);
    lemma_disk_samples_newline_free("squo_disk_total"@, mounts, stats, false);
    lemma_disk_samples_newline_free("squo_disk_free"@, mounts, stats, true);
    crate::metric::lemma_render_newline_count(
        "squo_disk_total"@,
        MetricType::Gauge,
        disk_samples("squo_disk_total"@, mounts, stats, false),
    );
    crate::metric::lemma_render_newline_count(
        "squo_disk_free"@,
        MetricType::Gauge,
        disk_samples("squo_disk_free"@, mounts, stats, true),
    );
    lemma_count_char_concat(
        spec_render(
            "squo_disk_total"@,
            MetricType::Gauge,
            disk_samples("squo_disk_total"@, mounts, stats, false),
        ),
        spec_render(
            "squo_disk_free"@,
            MetricType::Gauge,
            disk_samples("squo_disk_free"@, mounts, stats, true),
        ),
        '\n',
    );
}

/// For a consistent filesystem state (available blocks no more than total
/// blocks) the free byte count never exceeds the total byte count.
pub proof fn lemma_disk_free_le_total(st: (u64, u64, u64))
    requires
        st.2 <= st.1,
    ensures
        free_bytes(st) <= total_bytes(st),
{
    let a = st.0 as nat;
    let b = st.1 as nat;
    let c = st.2 as nat;
    assert(a * c <= a * b) by (nonlinear_arith)
        requires
            c <= b,
    ;
}

fn mul_u64(a: u64, b: u64) -> (r: u128)
    ensures
        r as nat == a as nat * b as nat,
{
    proof {
        assert((a as nat) * (b as nat) < 0x100000000000000000000000000000000) by (nonlinear_arith)
            requires
                (a as nat) < 0x10000000000000000,
                (b as nat) < 0x10000000000000000,
        ;
    }
    (a as u128) * (b as u128)
}

/// Renders the disk section from the mount points and the filesystem stats
/// that were queried for them, one (block size, blocks, blocks available)
/// triple per mount.
pub fn render_disk_section(mounts: &Vec<String>, stats: &Vec<(u64, u64, u64)>) -> (s: String)
    requires
        stats@.len() == mounts@.len(),
    ensures
        s@ == disk_section(mounts.deep_view(), stats@),
{
    let ghost mdv = mounts.deep_view();
    let mut disk_total = Metric {
        name: "squo_disk_total".to_owned(),
        ptype: MetricType::Gauge,
        values: Vec::new(),
    };
    let mut disk_free = Metric {
        name: "squo_disk_free".to_owned(),
        ptype: MetricType::Gauge,
        values: Vec::new(),
    };
    let n = mounts.len();
    for i in 0..n
        invariant
            n == mounts.len(),
            stats@.len() == mounts@.len(),
            mdv == mounts.deep_view(),
            disk_total.name@ == "squo_disk_total"@,
            disk_total.ptype == MetricType::Gauge,
            disk_total.values.deep_view() == disk_samples(
                "squo_disk_total"@,
                mdv.take(i as int),
                stats@.take(i as int),
                false,
            ),
            disk_free.name@ == "squo_disk_free"@,
            disk_free.ptype == MetricType::Gauge,
            disk_free.values.deep_view() == disk_samples(
                "squo_disk_free"@,
                mdv.take(i as int),
                stats@.take(i as int),
                true,
            ),
    {
        let st = stats[i];
        let total = u128_to_string(mul_u64(st.0, st.1));
        let free = u128_to_string(mul_u64(st.0, st.2));
        let ghost old_total = disk_total.values.deep_view();
        let ghost old_free = disk_free.values.deep_view();
        let labels_total = vec![("path", mounts[i].as_str())];
        let labels_free = vec![("path", mounts[i].as_str())];
        let ghost lvt = label_views(labels_total@);
        let ghost lvf = label_views(labels_free@);
        disk_total.add(total.as_str(), Option::Some(labels_total));
        disk_free.add(free.as_str(), Option::Some(labels_free));
        proof {
            let lv = seq![("path"@, mdv[i as int])];
            assert(lvt =~= lv);
            assert(lvf =~= lv);
            assert(disk_total.values.deep_view() =~~= old_total.push(
                disk_sample("squo_disk_total"@, mdv[i as int], total_bytes(stats@[i as int])),
            ));
            assert(disk_free.values.deep_view() =~~= old_free.push(
                disk_sample("squo_disk_free"@, mdv[i as int], free_bytes(stats@[i as int])),
            ));
            assert(disk_samples("squo_disk_total"@, mdv.take(i + 1), stats@.take(i + 1), false)
                =~~= old_total.push(
                disk_sample("squo_disk_total"@, mdv[i as int], total_bytes(stats@[i as int])),
            ));
            assert(disk_samples("squo_disk_free"@, mdv.take(i + 1), stats@.take(i + 1), true)
                =~~= old_free.push(
                disk_sample("squo_disk_free"@, mdv[i as int], free_bytes(stats@[i as int])),
            ));
        }
    }
    proof {
        assert(mdv.take(n as int) =~= mdv);
        assert(stats@.take(n as int) =~= stats@);
    }
    let mut out = disk_total.render();
    out.append(disk_free.render().as_str());
    proof {
        assert(out@ =~= disk_section(mounts.deep_view(), stats@));
    }
    out
}

/// Relies on nix::sys::statvfs::statvfs: queries filesystem statistics for
/// the given path, returning (block size, total blocks, available blocks);
/// any failure of the query is mapped to `MetricsError::InvalidMount`.
#[verifier::external_body]
pub(crate) fn stat_mount(mount: &str) -> (r: Result<(u64, u64, u64), MetricsError>)
    ensures
        r matches Err(e) ==> e == MetricsError::InvalidMount,
{
    match nix::sys::statvfs::statvfs(mount) {
        Ok(fs) => Ok((fs.block_size() as u64, fs.blocks() as u64, fs.blocks_available() as u64)),
        Err(_) => Err(MetricsError::InvalidMount),
    }
}

/// Splits the whitespace-separated mount list, queries filesystem statistics
/// for each mount point in order, and renders the disk section from whatever
/// the queries returned. The first unstattable mount point aborts with an
/// invalid-mount error; an empty mount list always succeeds, with two
/// sample-less gauges.
pub fn get_disk_info(disk_mounts: &str) -> (r: Result<String, MetricsError>)
    ensures
        r matches Err(e) ==> e == MetricsError::InvalidMount,
        spec_tokens(disk_mounts@).len() == 0 ==> r is Ok,
        r matches Ok(s) ==> exists|stats: Seq<(u64, u64, u64)>|
            stats.len() == spec_tokens(disk_mounts@).len() && s@ == disk_section(
                spec_tokens(disk_mounts@),
                stats,
            ),
{
    let mounts = tokens_vec(disk_mounts);
    let mut stats: Vec<(u64, u64, u64)> = Vec::new();
    let n = mounts.len();
    for i in 0..n
        invariant
            n == mounts.len(),
            mounts.deep_view() == spec_tokens(disk_mounts@),
            stats@.len() == i,
    {
        match stat_mount(mounts[i].as_str()) {
            Ok(st) => { stats.push(st) },
            Err(e) => { return Err(e) },
        }
    }
    let s = render_disk_section(&mounts, &stats);
    proof {
        assert(mounts.deep_view().len() == mounts@.len());
        assert(s@ == disk_section(spec_tokens(disk_mounts@), stats@));
    }
    Ok(s)
}

} // verus!
