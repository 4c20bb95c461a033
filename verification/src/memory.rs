//! Source reader for memory statistics: the first three lines of the
//! kernel's memory table are taken, by fixed position, to be total, free and
//! available memory in kilobytes; the value is the second whitespace-separated
//! token of each line. This positional assumption mirrors the table's layout
//! and is a known limitation: a reordered table silently yields wrong values,
//! a short table or a short line yields a malformed-data error.

use vstd::prelude::*;

use crate::error::MetricsError;
use crate::metric::{sample_line, spec_render, Metric, MetricType};
use crate::text::{
    count_char, is_space_char, lemma_count_char_concat, lemma_newline_free_count,
    lemma_tokens_have_no_whitespace, newline_free, spec_tokens, tokens_vec,
};

verus! {

/// A memory table line is usable when it has at least two tokens.
pub open spec fn mem_line_ok(line: Seq<char>) -> bool {
    spec_tokens(line).len() >= 2
}

/// A raw memory table is well-formed when it has at least three lines and
/// each of the first three has a second token.
pub open spec fn mem_ok(lines: Seq<Seq<char>>) -> bool {
    &&& lines.len() >= 3
    &&& mem_line_ok(lines[0])
    &&& mem_line_ok(lines[1])
    &&& mem_line_ok(lines[2])
}

/// The second token of a line: the numeric text reported for it.
pub open spec fn mem_value(line: Seq<char>) -> Seq<char> {
    spec_tokens(line)[1]
}

/// One gauge with a single unlabeled sample.
pub open spec fn mem_metric(name: Seq<char>, value: Seq<char>) -> Seq<char> {
    spec_render(name, MetricType::Gauge, seq![sample_line(name, Option::None, value)])
}

/// The memory section: three gauges, total, free and available, with the
/// second tokens of lines 0, 1 and 2 as their values.
pub open spec fn mem_section(lines: Seq<Seq<char>>) -> Seq<char> {
    mem_metric("squo_mem_total"@, mem_value(lines[0])) + mem_metric(
        "squo_mem_free"@,
        mem_value(lines[1]),
    ) + mem_metric("squo_mem_available"@, mem_value(lines[2]))
}

/// For every well-formed raw memory table, the memory section is exactly six
/// newline-terminated lines: three `# TYPE ... gauge` header lines, each
/// followed by its one sample line, and the sample values — themselves
/// newline-free — are the second tokens of input lines 0, 1 and 2.
#[verifier::rlimit(30)]
pub proof fn lemma_mem_section_lines(lines: Seq<Seq<char>>)
    requires
        mem_ok(lines),
    ensures
        mem_section(lines) == "# TYPE squo_mem_total gauge\nsquo_mem_total "@ + spec_tokens(
            lines[0],
        )[1] + "\n# TYPE squo_mem_free gauge\nsquo_mem_free "@ + spec_tokens(lines[1])[1]
            + "\n# TYPE squo_mem_available gauge\nsquo_mem_available "@ + spec_tokens(
            lines[2],
        )[1] + "\n"@,
        newline_free(spec_tokens(lines[0])[1]),
        newline_free(spec_tokens(lines[1])[1]),
        newline_free(spec_tokens(lines[2])[1]),
        count_char(mem_section(lines), '\n') == 6,
{
    reveal_with_fuel(crate::text::count_char, 20);
    reveal_strlit("# TYPE ");
    reveal_strlit(" ");
    reveal_strlit("\n");
    reveal_strlit("gauge");
    reveal_strlit("squo_mem_total");
    reveal_strlit("squo_mem_free");
    reveal_strlit("squo_mem_available");
    reveal_strlit("# TYPE squo_mem_total gauge\nsquo_mem_total ");
    reveal_strlit("\n# TYPE squo_mem_free gauge\nsquo_mem_free ");
    reveal_strlit("\n# TYPE squo_mem_available gauge\nsquo_mem_available ");
    lemma_tokens_have_no_whitespace(lines[0]);
    lemma_tokens_have_no_whitespace(lines[1]);
    lemma_tokens_have_no_whitespace(lines[2]);
    assert forall|m: int|
        0 <= m < spec_tokens(lines[0])[1].len() implies spec_tokens(lines[0])[1][m] != '\n' by {
        assert(!is_space_char(spec_tokens(lines[0])[1][m]));
    }
    assert forall|m: int|
        0 <= m < spec_tokens(lines[1])[1].len() implies spec_tokens(lines[1])[1][m] != '\n' by {
        assert(!is_space_char(spec_tokens(lines[1])[1][m]));
    }
    assert forall|m: int|
        0 <= m < spec_tokens(lines[2])[1].len() implies spec_tokens(lines[2])[1][m] != '\n' by {
        assert(!is_space_char(spec_tokens(lines[2])[1][m]));
    }
    assert(mem_section(lines) =~= "# TYPE squo_mem_total gauge\nsquo_mem_total "@ + spec_tokens(
        lines[0],
    )[1] + "\n# TYPE squo_mem_free gauge\nsquo_mem_free "@ + spec_tokens(lines[1])[1]
        + "\n# TYPE squo_mem_available gauge\nsquo_mem_available "@ + spec_tokens(lines[2])[1]
        + "\n"@);
    let v0 = spec_tokens(lines[0])[1];
    let v1 = spec_tokens(lines[1])[1];
    let v2 = spec_tokens(lines[2])[1];
    lemma_newline_free_count(v0);
    lemma_newline_free_count(v1);
    lemma_newline_free_count(v2);
    assert(count_char("squo_mem_total"@, '\n') == 0);
    assert(count_char("squo_mem_free"@, '\n') == 0);
    assert(count_char("squo_mem_available"@, '\n') == 0);
    lemma_mem_metric_newline_count("squo_mem_total"@, v0);
    lemma_mem_metric_newline_count("squo_mem_free"@, v1);
    lemma_mem_metric_newline_count("squo_mem_available"@, v2);
    lemma_count_char_concat(
        mem_metric("squo_mem_total"@, v0),
        mem_metric("squo_mem_free"@, v1),
        '\n',
    );
    lemma_count_char_concat(
        mem_metric("squo_mem_total"@, v0) + mem_metric("squo_mem_free"@, v1),
        mem_metric("squo_mem_available"@, v2),
        '\n',
    );
}

proof fn lemma_mem_metric_newline_count(name: Seq<char>, value: Seq<char>)
    requires
        count_char(name, '\n') == 0,
        count_char(value, '\n') == 0,
    ensures
        count_char(mem_metric(name, value), '\n') == 2,
{
    reveal_strlit(" ");
    reveal_with_fuel(crate::text::count_char, 3);
    lemma_count_char_concat(name, " "@, '\n');
    lemma_count_char_concat(name + " "@, value, '\n');
    crate::metric::lemma_render_newline_count(
        name,
        MetricType::Gauge,
        seq![sample_line(name, Option::None, value)],
    );
}

fn one_mem_metric(name: &str, value: &str) -> (r: String)
    ensures
        r@ == mem_metric(name@, value@),
{
    let mut m = Metric { name: name.to_owned(), ptype: MetricType::Gauge, values: Vec::new() };
    m.add(value, Option::None);
    proof {
        assert(m.values.deep_view() =~~= seq![sample_line(name@, Option::None, value@)]);
    }
    m.render()
}

/// Renders the memory section from the raw lines of the kernel's memory
/// table. Succeeds exactly on well-formed tables; a short table or a short
/// line is reported as malformed data.
pub fn get_mem_info(mem_lines: &Vec<String>) -> (r: Result<String, MetricsError>)
    ensures
        r is Ok <==> mem_ok(mem_lines.deep_view()),
        r matches Ok(s) ==> s@ == mem_section(mem_lines.deep_view()),
        r matches Err(e) ==> e == MetricsError::MalformedData,
{
    if mem_lines.len() < 3 {
        return Err(MetricsError::MalformedData);
    }
    let t0 = tokens_vec(mem_lines[0].as_str());
    let t1 = tokens_vec(mem_lines[1].as_str());
    let t2 = tokens_vec(mem_lines[2].as_str());
    if t0.len() < 2 || t1.len() < 2 || t2.len() < 2 {
        return Err(MetricsError::MalformedData);
    }
    proof {
        assert(t0.deep_view().len() == t0@.len());
        assert(t1.deep_view().len() == t1@.len());
        assert(t2.deep_view().len() == t2@.len());
    }
    let mut out = one_mem_metric("squo_mem_total", t0[1].as_str());
    out.append(one_mem_metric("squo_mem_free", t1[1].as_str()).as_str());
    out.append(one_mem_metric("squo_mem_available", t2[1].as_str()).as_str());
    proof {
        assert(t0.deep_view()[1] == t0@[1]@);
        assert(t1.deep_view()[1] == t1@[1]@);
        assert(t2.deep_view()[1] == t2@[1]@);
        assert(out@ =~= mem_section(mem_lines.deep_view()));
    }
    Ok(out)
}

} // verus!
