//! Source reader for network byte counters: the kernel's per-interface
//! device table has two header lines, detected and discarded because they
//! contain the `|` separator token, and one line per interface. On a data
//! line, token 0 is the interface name with a trailing colon, token 1 the
//! receive byte count and token 9 the transmit byte count, at fixed
//! positions. A data line with fewer than ten tokens is malformed data.

use vstd::prelude::*;

use crate::error::MetricsError;
use crate::metric::{label_text, label_views, sample_line, spec_render, Metric, MetricType};
use crate::text::{
    contains_char, count_char, is_space_char, lemma_count_char_concat, lemma_newline_free_count,
    lemma_strip_colons_preserves_nonspace, lemma_tokens_have_no_whitespace, spec_tokens,
    str_contains_char, strip_colons, strip_trailing_colons, tokens_vec,
};

verus! {

/// A data line (one without the header separator) is usable when it has at
/// least ten tokens.
pub open spec fn net_line_ok(line: Seq<char>) -> bool {
    spec_tokens(line).len() >= 10
}

/// A raw device table is well-formed when every data line is usable.
pub open spec fn net_ok(lines: Seq<Seq<char>>) -> bool {
    forall|i: int|
        0 <= i < lines.len() && !contains_char(lines[i], '|') ==> net_line_ok(lines[i])
}

/// The number of data lines: those without the header separator.
pub open spec fn data_line_count(lines: Seq<Seq<char>>) -> nat
    decreases lines.len(),
{
    if lines.len() == 0 {
        0
    } else {
        data_line_count(lines.drop_last()) + if contains_char(lines.last(), '|') {
            0nat
        } else {
            1nat
        }
    }
}

/// The sample lines of one network counter: one per data line, in table
/// order, labeled with the interface name stripped of its trailing colon,
/// holding the token at position `tok`.
pub open spec fn net_samples(lines: Seq<Seq<char>>, name: Seq<char>, tok: int) -> Seq<Seq<char>>
    decreases lines.len(),
{
    if lines.len() == 0 {
        Seq::empty()
    } else {
        let init = net_samples(lines.drop_last(), name, tok);
        let l = lines.last();
        if contains_char(l, '|') {
            init
        } else {
            init + seq![
                sample_line(
                    name,
                    Option::Some(seq![("device"@, strip_colons(spec_tokens(l)[0]))]),
                    spec_tokens(l)[tok],
                ),
            ]
        }
    }
}

/// Each network counter carries exactly one sample per data line.
pub proof fn lemma_net_sample_count(lines: Seq<Seq<char>>, name: Seq<char>, tok: int)
    ensures
        net_samples(lines, name, tok).len() == data_line_count(lines),
    decreases lines.len(),
{
    if lines.len() > 0 {
        lemma_net_sample_count(lines.drop_last(), name, tok);
    }
}

proof fn lemma_net_samples_newline_free(lines: Seq<Seq<char>>, name: Seq<char>, tok: int)
    requires
        net_ok(lines),
        count_char(name, '\n') == 0,
        0 <= tok < 10,
    ensures
        forall|t: int|
            0 <= t < net_samples(lines, name, tok).len() ==> count_char(
                #[trigger] net_samples(lines, name, tok)[t],
                '\n',
            ) == 0,
    decreases lines.len(),
{
    reveal_with_fuel(crate::text::count_char, 8);
    reveal_strlit("{");
    reveal_strlit("}");
    reveal_strlit(" ");
    reveal_strlit(",");
    reveal_strlit("device");
    reveal_strlit("=\"");
    reveal_strlit("\"");
    if lines.len() > 0 {
        assert forall|i: int|
            0 <= i < lines.drop_last().len() && !contains_char(
                #[trigger] lines.drop_last()[i],
                '|',
            ) implies net_line_ok(lines.drop_last()[i]) by {
            assert(lines.drop_last()[i] == lines[i]);
        }
        lemma_net_samples_newline_free(lines.drop_last(), name, tok);
        let l = lines.last();
        if !contains_char(l, '|') {
            assert(l == lines[lines.len() - 1]);
            assert(net_line_ok(l));
            lemma_tokens_have_no_whitespace(l);
            let dev = strip_colons(spec_tokens(l)[0]);
            let value = spec_tokens(l)[tok];
            assert forall|m: int|
                0 <= m < spec_tokens(l)[0].len() implies !is_space_char(
                #[trigger] spec_tokens(l)[0][m],
            ) by {}
            lemma_strip_colons_preserves_nonspace(spec_tokens(l)[0]);
            assert forall|m: int| 0 <= m < dev.len() implies dev[m] != '\n' by {
                assert(!is_space_char(dev[m]));
            }
            lemma_newline_free_count(dev);
            assert forall|m: int| 0 <= m < value.len() implies value[m] != '\n' by {
                assert(!is_space_char(value[m]));
            }
            lemma_newline_free_count(value);
            let lt = label_text("device"@, dev);
            lemma_count_char_concat("device"@, "=\""@, '\n');
            lemma_count_char_concat("device"@ + "=\""@, dev, '\n');
            lemma_count_char_concat("device"@ + "=\""@ + dev, "\""@, '\n');
            assert(count_char(lt, '\n') == 0);
            let sample = sample_line(name, Option::Some(seq![("device"@, dev)]), value);
            lemma_count_char_concat(name, "{"@, '\n');
            lemma_count_char_concat(name + "{"@, lt, '\n');
            lemma_count_char_concat(name + "{"@ + lt, "}"@, '\n');
            lemma_count_char_concat(name + "{"@ + lt + "}"@, " "@, '\n');
            lemma_count_char_concat(name + "{"@ + lt + "}"@ + " "@, value, '\n');
            assert(count_char(sample, '\n') == 0);
            assert forall|t: int|
                0 <= t < net_samples(lines, name, tok).len() implies count_char(
                #[trigger] net_samples(lines, name, tok)[t],
                '\n',
            ) == 0 by {
                if t < net_samples(lines.drop_last(), name, tok).len() {
                    assert(net_samples(lines, name, tok)[t] == net_samples(
                        lines.drop_last(),
                        name,
                        tok,
                    )[t]);
                } else {
                    assert(net_samples(lines, name, tok)[t] == sample);
                }
            }
        }
    }
}

/// For every well-formed device table with K data lines, each network
/// counter renders as exactly one header line and K sample lines: its text
/// holds K+1 newlines (two when K is 0), and the whole network section twice
/// that.
#[verifier::rlimit(60)]
pub proof fn lemma_net_section_line_count(lines: Seq<Seq<char>>)
    requires
        net_ok(lines),
    ensures
        ({
            let k = data_line_count(lines);
            let per_metric: nat = if k == 0 {
                2nat
            } else {
                (k + 1) as nat
            };
            count_char(net_section(lines), '\n') == 2 * per_metric
        }),
{
    reveal_with_fuel(crate::text::count_char, 30);
    reveal_strlit("squo_network_bytes_received");
    reveal_strlit("squo_network_bytes_sent");
    assert(count_char("squo_network_bytes_received"@, '\n') == 0);
    assert(count_char("squo_network_bytes_sent"@, '\n') == 0);
    lemma_net_samples_newline_free(lines, "squo_network_bytes_received"@, 1);
    lemma_net_samples_newline_free(lines, "squo_network_bytes_sent"@, 9);
    lemma_net_sample_count(lines, "squo_network_bytes_received"@, 1);
    lemma_net_sample_count(lines, "squo_network_bytes_sent"@, 9);
    crate::metric::lemma_render_newline_count(
        "squo_network_bytes_received"@,
        MetricType::Counter,
        net_samples(lines, "squo_network_bytes_received"@, 1),
    );
    crate::metric::lemma_render_newline_count(
        "squo_network_bytes_sent"@,
        MetricType::Counter,
        net_samples(lines, "squo_network_bytes_sent"@, 9),
    );
    lemma_count_char_concat(
        spec_render(
            "squo_network_bytes_received"@,
            MetricType::Counter,
            net_samples(lines, "squo_network_bytes_received"@, 1),
        ),
        spec_render(
            "squo_network_bytes_sent"@,
            MetricType::Counter,
            net_samples(lines, "squo_network_bytes_sent"@, 9),
        ),
        '\n',
    );
}

/// The network section: the received counter, then the sent counter.
pub open spec fn net_section(lines: Seq<Seq<char>>) -> Seq<char> {
    spec_render(
        "squo_network_bytes_received"@,
        MetricType::Counter,
        net_samples(lines, "squo_network_bytes_received"@, 1),
    ) + spec_render(
        "squo_network_bytes_sent"@,
        MetricType::Counter,
        net_samples(lines, "squo_network_bytes_sent"@, 9),
    )
}

/// Renders the network section from the raw lines of the kernel's device
/// table. Succeeds exactly when every data line has at least ten tokens; a
/// short data line is reported as malformed data.
pub fn get_network_info(net_lines: &Vec<String>) -> (r: Result<String, MetricsError>)
    ensures
        r is Ok <==> net_ok(net_lines.deep_view()),
        r matches Ok(s) ==> s@ == net_section(net_lines.deep_view()),
        r matches Err(e) ==> e == MetricsError::MalformedData,
{
    let ghost dv = net_lines.deep_view();
    let mut received = Metric {
        name: "squo_network_bytes_received".to_owned(),
        ptype: MetricType::Counter,
        values: Vec::new(),
    };
    let mut sent = Metric {
        name: "squo_network_bytes_sent".to_owned(),
        ptype: MetricType::Counter,
        values: Vec::new(),
    };
    let n = net_lines.len();
    for i in 0..n
        invariant
            n == net_lines.len(),
            dv == net_lines.deep_view(),
            received.name@ == "squo_network_bytes_received"@,
            received.ptype == MetricType::Counter,
            received.values.deep_view() == net_samples(
                dv.take(i as int),
                "squo_network_bytes_received"@,
                1,
            ),
            sent.name@ == "squo_network_bytes_sent"@,
            sent.ptype == MetricType::Counter,
            sent.values.deep_view() == net_samples(
                dv.take(i as int),
                "squo_network_bytes_sent"@,
                9,
            ),
            forall|j: int|
                0 <= j < i && !contains_char(dv[j], '|') ==> net_line_ok(dv[j]),
    {
        let has_pipe = str_contains_char(net_lines[i].as_str(), '|');
        proof {
            assert(dv.take(i + 1).drop_last() =~= dv.take(i as int));
            assert(dv.take(i + 1).last() == dv[i as int]);
        }
        if !has_pipe {
            let toks = tokens_vec(net_lines[i].as_str());
            if toks.len() < 10 {
                proof {
                    assert(toks.deep_view().len() == toks@.len());
                    assert(!net_line_ok(dv[i as int]));
                    assert(!net_ok(dv));
                }
                return Err(MetricsError::MalformedData);
            }
            proof {
                assert(toks.deep_view().len() == toks@.len());
            }
            let device = strip_trailing_colons(toks[0].as_str());
            let ghost old_received = received.values.deep_view();
            let ghost old_sent = sent.values.deep_view();
            let labels_r = vec![("device", device.as_str())];
            let labels_s = vec![("device", device.as_str())];
            let ghost lvr = label_views(labels_r@);
            let ghost lvs = label_views(labels_s@);
            received.add(toks[1].as_str(), Option::Some(labels_r));
            sent.add(toks[9].as_str(), Option::Some(labels_s));
            proof {
                let l = dv[i as int];
                let lv = seq![("device"@, strip_colons(spec_tokens(l)[0]))];
                assert(toks.deep_view()[0] == toks@[0]@);
                assert(toks.deep_view()[1] == toks@[1]@);
                assert(toks.deep_view()[9] == toks@[9]@);
                assert(lvr =~= lv);
                assert(lvs =~= lv);
                assert(received.values.deep_view() =~~= old_received.push(
                    sample_line(
                        "squo_network_bytes_received"@,
                        Option::Some(lv),
                        spec_tokens(l)[1],
                    ),
                ));
                assert(sent.values.deep_view() =~~= old_sent.push(
                    sample_line("squo_network_bytes_sent"@, Option::Some(lv), spec_tokens(l)[9]),
                ));
                assert(net_samples(dv.take(i + 1), "squo_network_bytes_received"@, 1)
                    =~~= received.values.deep_view());
                assert(net_samples(dv.take(i + 1), "squo_network_bytes_sent"@, 9)
                    =~~= sent.values.deep_view());
            }
        } else {
            proof {
                assert(net_samples(dv.take(i + 1), "squo_network_bytes_received"@, 1)
                    =~~= received.values.deep_view());
                assert(net_samples(dv.take(i + 1), "squo_network_bytes_sent"@, 9)
                    =~~= sent.values.deep_view());
            }
        }
    }
    proof {
        assert(dv.take(n as int) =~= dv);
    }
    let mut out = received.render();
    out.append(sent.render().as_str());
    proof {
        assert(out@ =~= net_section(dv));
    }
    Ok(out)
}

} // verus!
