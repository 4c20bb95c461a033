//! The metric model: one named time series, its kind, and its rendered
//! sample lines.

use vstd::prelude::*;

use crate::text::{count_char, lemma_count_char_concat};

verus! {

/// Kind of a metric series, as declared to the scrape consumer.
pub enum MetricType {
    Counter,
    Gauge,
    Untyped,
}

impl MetricType {
    /// The exposition-format token for this kind.
    pub open spec fn spec_display(&self) -> Seq<char> {
        match *self {
            MetricType::Counter => "counter"@,
            MetricType::Gauge => "gauge"@,
            MetricType::Untyped => "untyped"@,
        }
    }

    pub fn display(&self) -> (s: &'static str)
        ensures
            s@ == self.spec_display(),
    {
        match *self {
            MetricType::Counter => "counter",
            MetricType::Gauge => "gauge",
            MetricType::Untyped => "untyped",
        }
    }
}

/// The rendered text of one label: `key="value"`.
pub open spec fn label_text(k: Seq<char>, v: Seq<char>) -> Seq<char> {
    k + "=\""@ + v + "\""@
}

/// The comma-separated body between the label braces, in insertion order.
pub open spec fn labels_body(ls: Seq<(Seq<char>, Seq<char>)>) -> Seq<char>
    decreases ls.len(),
{
    if ls.len() == 0 {
        Seq::empty()
    } else if ls.len() == 1 {
        label_text(ls[0].0, ls[0].1)
    } else {
        labels_body(ls.drop_last()) + ","@ + label_text(ls.last().0, ls.last().1)
    }
}

/// The rendered text of one sample line (without its trailing newline):
/// the metric name, an optional brace-enclosed label list, a space, and the
/// value text. An absent or empty label list renders no braces.
pub open spec fn sample_line(
    name: Seq<char>,
    labels: Option<Seq<(Seq<char>, Seq<char>)>>,
    value: Seq<char>,
) -> Seq<char> {
    match labels {
        Option::None => name + " "@ + value,
        Option::Some(ls) => {
            if ls.len() == 0 {
                name + " "@ + value
            } else {
                name + "{"@ + labels_body(ls) + "}"@ + " "@ + value
            }
        },
    }
}

/// The views of a borrowed label list.
pub open spec fn label_views<'a, 'b>(ls: Seq<(&'a str, &'b str)>) -> Seq<(Seq<char>, Seq<char>)> {
    Seq::new(ls.len(), |i: int| (ls[i].0@, ls[i].1@))
}

/// The sample lines joined by single newlines (no trailing newline).
pub open spec fn join_nl(lines: Seq<Seq<char>>) -> Seq<char>
    decreases lines.len(),
{
    if lines.len() == 0 {
        Seq::empty()
    } else if lines.len() == 1 {
        lines[0]
    } else {
        join_nl(lines.drop_last()) + "\n"@ + lines.last()
    }
}

/// The full rendering of a metric: one `# TYPE` header line, then the sample
/// lines joined by newlines, then a final newline. A metric with no samples
/// still renders its header, followed by an empty line.
pub open spec fn spec_render(name: Seq<char>, ptype: MetricType, lines: Seq<Seq<char>>) -> Seq<
    char,
> {
    "# TYPE "@ + name + " "@ + ptype.spec_display() + "\n"@ + join_nl(lines) + "\n"@
}

/// One named time series and its accumulated, already-rendered sample lines.
pub struct Metric {
    pub name: String,
    pub ptype: MetricType,
    pub values: Vec<String>,
}

impl Metric {
    /// The exposition text this metric renders to.
    pub open spec fn rendered(&self) -> Seq<char> {
        spec_render(self.name@, self.ptype, self.values.deep_view())
    }

    /// Appends one sample. Previously added samples are left untouched.
    pub fn add(&mut self, value: &str, labels: Option<Vec<(&str, &str)>>)
        ensures
            final(self).name == old(self).name,
            final(self).ptype == old(self).ptype,
            final(self).values@.len() == old(self).values@.len() + 1,
            forall|i: int|
                0 <= i < old(self).values@.len() ==> final(self).values@[i] == old(
                    self,
                ).values@[i],
            final(self).values@.last()@ == sample_line(
                old(self).name@,
                match labels {
                    Option::None => Option::None,
                    Option::Some(l) => Option::Some(label_views(l@)),
                },
                value@,
            ),
    {
        let mut output = self.name.as_str().to_owned();
        match labels {
            Option::None => {},
            Option::Some(ls) => {
                if ls.len() > 0 {
                    output.append("{");
                    let ghost lv = label_views(ls@);
                    let n = ls.len();
                    for i in 0..n
                        invariant
                            n == ls.len(),
                            lv == label_views(ls@),
                            output@ =~= old(self).name@ + "{"@ + labels_body(
                                lv.take(i as int),
                            ),
                    {
                        let pair = ls[i];
                        if i > 0 {
                            output.append(",");
                        }
                        output.append(pair.0);
                        output.append("=\"");
                        output.append(pair.1);
                        output.append("\"");
                        proof {
                            assert(lv.take(i + 1).drop_last() =~= lv.take(i as int));
                            assert(lv.take(i + 1).last() == lv[i as int]);
                            assert(output@ =~= old(self).name@ + "{"@ + labels_body(
                                lv.take(i + 1),
                            ));
                        }
                    }
                    output.append("}");
                    proof {
                        assert(lv.take(n as int) =~= lv);
                    }
                }
            },
        }
        output.append(" ");
        output.append(value);
        proof {
            assert(output@ =~= sample_line(
                old(self).name@,
                match labels {
                    Option::None => Option::None,
                    Option::Some(l) => Option::Some(label_views(l@)),
                },
                value@,
            ));
        }
        self.values.push(output);
    }

    /// Renders the metric into its exposition text.
    pub fn render(&self) -> (r: String)
        ensures
            r@ == self.rendered(),
    {
        let mut out = "# TYPE ".to_owned();
        out.append(self.name.as_str());
        out.append(" ");
        out.append(self.ptype.display());
        out.append("\n");
        let n = self.values.len();
        let ghost dv = self.values.deep_view();
        for i in 0..n
            invariant
                n == self.values.len(),
                dv == self.values.deep_view(),
                out@ =~= "# TYPE "@ + self.name@ + " "@ + self.ptype.spec_display() + "\n"@
                    + join_nl(dv.take(i as int)),
        {
            if i > 0 {
                out.append("\n");
            }
            out.append(self.values[i].as_str());
            proof {
                assert(dv.take(i + 1).drop_last() =~= dv.take(i as int));
                assert(dv.take(i + 1).last() == dv[i as int]);
                assert(out@ =~= "# TYPE "@ + self.name@ + " "@ + self.ptype.spec_display()
                    + "\n"@ + join_nl(dv.take(i + 1)));
            }
        }
        out.append("\n");
        proof {
            assert(dv.take(n as int) =~= dv);
            assert(out@ =~= self.rendered());
        }
        out
    }
}

pub proof fn lemma_join_nl_newline_count(lines: Seq<Seq<char>>)
    requires
        forall|t: int| 0 <= t < lines.len() ==> count_char(#[trigger] lines[t], '\n') == 0,
    ensures
        count_char(join_nl(lines), '\n') == if lines.len() == 0 {
            0nat
        } else {
            (lines.len() - 1) as nat
        },
    decreases lines.len(),
{
    reveal_with_fuel(crate::text::count_char, 3);
    reveal_strlit("\n");
    if lines.len() > 1 {
        assert forall|t: int|
            0 <= t < lines.drop_last().len() implies count_char(
            #[trigger] lines.drop_last()[t],
            '\n',
        ) == 0 by {
            assert(lines.drop_last()[t] == lines[t]);
        }
        lemma_join_nl_newline_count(lines.drop_last());
        lemma_count_char_concat(join_nl(lines.drop_last()), "\n"@, '\n');
        lemma_count_char_concat(join_nl(lines.drop_last()) + "\n"@, lines.last(), '\n');
        assert(("\n"@).drop_last() =~= Seq::<char>::empty());
        assert(count_char("\n"@, '\n') == 1);
    }
}

/// A rendered metric consists of exactly one header line followed by its
/// sample lines: for a newline-free name and newline-free sample lines, the
/// text holds one newline per sample line plus one for the header — and two
/// when there is no sample at all, the header line and one empty line.
pub proof fn lemma_render_newline_count(name: Seq<char>, ptype: MetricType, lines: Seq<Seq<char>>)
    requires
        count_char(name, '\n') == 0,
        forall|t: int| 0 <= t < lines.len() ==> count_char(#[trigger] lines[t], '\n') == 0,
    ensures
        count_char(spec_render(name, ptype, lines), '\n') == if lines.len() == 0 {
            2nat
        } else {
            (lines.len() + 1) as nat
        },
{
    reveal_with_fuel(crate::text::count_char, 10);
    reveal_strlit("# TYPE ");
    reveal_strlit(" ");
    reveal_strlit("\n");
    reveal_strlit("counter");
    reveal_strlit("gauge");
    reveal_strlit("untyped");
    lemma_join_nl_newline_count(lines);
    let disp = ptype.spec_display();
    assert(count_char(disp, '\n') == 0);
    assert(count_char("# TYPE "@, '\n') == 0);
    assert(count_char(" "@, '\n') == 0);
    assert(count_char("\n"@, '\n') == 1);
    lemma_count_char_concat("# TYPE "@, name, '\n');
    lemma_count_char_concat("# TYPE "@ + name, " "@, '\n');
    lemma_count_char_concat("# TYPE "@ + name + " "@, disp, '\n');
    lemma_count_char_concat("# TYPE "@ + name + " "@ + disp, "\n"@, '\n');
    lemma_count_char_concat("# TYPE "@ + name + " "@ + disp + "\n"@, join_nl(lines), '\n');
    lemma_count_char_concat(
        "# TYPE "@ + name + " "@ + disp + "\n"@ + join_nl(lines),
        "\n"@,
        '\n',
    );
}

/// Rendering is a pure function of the metric: any two renderings of the
/// same metric, with no sample added in between, are byte-identical.
pub proof fn lemma_render_deterministic(m: &Metric, r1: Seq<char>, r2: Seq<char>)
    requires
        r1 == m.rendered(),
        r2 == m.rendered(),
    ensures
        r1 == r2,
{
}

} // verus!
