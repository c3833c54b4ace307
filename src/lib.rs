//! Infers the indentation convention of a text: whether it indents with tabs,
//! with spaces, or with both, and the width of one indentation step.
//!
//! The library samples the leading whitespace of indented lines, reduces the
//! observed space runs to one unit by greatest common divisor, and renders the
//! result either as a short generic description or as a Vim `set` command.

mod args;
mod collect;
mod format;
mod gcd;
mod infer;
mod pipeline;
mod scan;

pub use gcd::{divides, gcd, lemma_divisor_le, lemma_gcd_divides, lemma_gcd_greatest, maybe_gcd};
pub use infer::{detect_indent, detect_spec, gcd_all, lemma_space_unit_is_gcd, max_all, too_wide_message};
pub use scan::{line_qualifies, qualifies, run_len, scan_indent, space_run, tab_run};
pub use collect::{
    count_indents, empty_sample, lemma_sample_stops_at_cap, sample_of, sample_step, views, wrap32, Collector,
    Sampled, SAMPLE_CAP,
};
pub use format::{
    decimal, digit_char, format_indent, format_spec, lemma_vim_expandtab_iff_no_tabs, push_decimal, vim_settings,
    vim_settings_spec, OutputFormat,
};
pub use args::{
    digit_value, digits_value, format_of, invalid_format_message, invalid_width_message, is_digit, parse_u32,
    parse_u32_spec, process_args, settings_spec, str_eq, unsigned_digits, zero_width_message,
};
pub use pipeline::{
    do_lines, lemma_no_indentation, lemma_pipeline_deterministic, lemma_pipeline_stops_at_cap, no_indentation_message,
    pipeline_spec, report, report_spec, result_view,
};
