use vstd::prelude::*;
use crate::collect::{count_indents, lemma_sample_stops_at_cap, sample_of, views, Sampled, SAMPLE_CAP};
use crate::gcd::{divides, lemma_divisor_le};
use crate::format::{format_indent, format_spec, OutputFormat};
use crate::infer::{detect_indent, detect_spec, gcd_all, lemma_space_unit_is_gcd, too_wide_message};
use crate::scan::qualifies;

verus! {

pub open spec fn no_indentation_message() -> Seq<char> {
    "No indentation"@
}

/// The text reported for a sample: "No indentation" when no tab and no space
/// run was seen, otherwise the rendered indent descriptor.
pub open spec fn report_spec(tabs: bool, sp_counts: Seq<u32>, output_format: OutputFormat, def_tab_width: u32) -> Result<
    Seq<char>,
    Seq<char>,
> {
    if !tabs && sp_counts.len() == 0 {
        Err(no_indentation_message())
    } else {
        match detect_spec(tabs, sp_counts, def_tab_width) {
            None => Err(too_wide_message()),
            Some(p) => Ok(format_spec(p.0, p.1, output_format)),
        }
    }
}

/// The text reported for a sequence of lines.
pub open spec fn pipeline_spec(lines: Seq<Seq<char>>, output_format: OutputFormat, def_tab_width: u32) -> Result<
    Seq<char>,
    Seq<char>,
> {
    let st: Sampled = sample_of(lines);
    report_spec(st.tabs, st.sp_counts, output_format, def_tab_width)
}

/// The characters of a result of strings.
pub open spec fn result_view(r: Result<String, String>) -> Result<Seq<char>, Seq<char>> {
    match r {
        Ok(s) => Ok(s@),
        Err(e) => Err(e@),
    }
}

/// Infers the indentation from a sample (the tab flag and the nonzero space
/// runs) and renders it, or says why it cannot.
pub fn report(tabs: bool, sp_counts: &[u32], output_format: OutputFormat, def_tab_width: u32) -> (r: Result<
    String,
    String,
>)
    requires
        def_tab_width > 0,
        forall|i: int| 0 <= i < sp_counts@.len() ==> sp_counts@[i] > 0,
    ensures
        result_view(r) == report_spec(tabs, sp_counts@, output_format, def_tab_width),
{
    if !tabs && sp_counts.len() == 0 {
        return Err(String::from_str("No indentation"));
    }
    let indent = match detect_indent(tabs, sp_counts, def_tab_width) {
        Ok(p) => p,
        Err(e) => {
            return Err(e);
        },
    };
    proof {
        lemma_space_unit_is_gcd(sp_counts@);
        if !tabs {
            assert(sp_counts@[0] > 0);
            assert(divides(gcd_all(sp_counts@), sp_counts@[0] as nat));
            assert(gcd_all(sp_counts@) > 0);
            lemma_divisor_le(gcd_all(sp_counts@), sp_counts@[0] as nat);
        }
    }
    Ok(format_indent(indent, output_format))
}

/// Samples the lines, infers their indentation and renders it.
pub fn do_lines(lines: &[String], output_format: OutputFormat, def_tab_width: u32) -> (r: Result<String, String>)
    requires
        def_tab_width > 0,
    ensures
        result_view(r) == pipeline_spec(views(lines@), output_format, def_tab_width),
{
    let (tabs, sp_counts) = count_indents(lines);
    report(tabs, sp_counts.as_slice(), output_format, def_tab_width)
}

/// The output is a function of the lines and the settings: two runs on the
/// same input give the same output.
pub proof fn lemma_pipeline_deterministic(
    r1: Result<String, String>,
    r2: Result<String, String>,
    lines: Seq<String>,
    output_format: OutputFormat,
    def_tab_width: u32,
)
    requires
        result_view(r1) == pipeline_spec(views(lines), output_format, def_tab_width),
        result_view(r2) == pipeline_spec(views(lines), output_format, def_tab_width),
    ensures
        result_view(r1) == result_view(r2),
{
}

/// Lines after the first `SAMPLE_CAP` qualifying ones never change the
/// output.
pub proof fn lemma_pipeline_stops_at_cap(
    a: Seq<Seq<char>>,
    b: Seq<Seq<char>>,
    output_format: OutputFormat,
    def_tab_width: u32,
)
    requires
        sample_of(a).lines == SAMPLE_CAP,
    ensures
        pipeline_spec(a + b, output_format, def_tab_width) == pipeline_spec(a, output_format, def_tab_width),
{
    lemma_sample_stops_at_cap(a, b);
}

proof fn lemma_unindented_sample_empty(lines: Seq<Seq<char>>)
    requires
        forall|i: int| 0 <= i < lines.len() ==> !qualifies(#[trigger] lines[i]),
    ensures
        !sample_of(lines).tabs,
        sample_of(lines).sp_counts.len() == 0,
    decreases lines.len(),
{
    if lines.len() > 0 {
        let p = lines.drop_last();
        assert forall|i: int| 0 <= i < p.len() implies !qualifies(#[trigger] p[i]) by {
            assert(p[i] == lines[i]);
        }
        lemma_unindented_sample_empty(p);
        assert(!qualifies(lines[lines.len() - 1]));
    }
}

/// Lines none of which starts with a tab or a space (no lines at all, too)
/// give "No indentation".
pub proof fn lemma_no_indentation(lines: Seq<Seq<char>>, output_format: OutputFormat, def_tab_width: u32)
    requires
        forall|i: int| 0 <= i < lines.len() ==> !qualifies(#[trigger] lines[i]),
    ensures
        pipeline_spec(lines, output_format, def_tab_width) == Err::<Seq<char>, Seq<char>>(
            no_indentation_message(),
        ),
{
    lemma_unindented_sample_empty(lines);
}

} // verus!
