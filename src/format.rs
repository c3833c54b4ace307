use vstd::prelude::*;

verus! {

/// The two ways of rendering an indent descriptor.
#[derive(Debug, Clone, Copy, PartialEq, Eq, Structural)]
pub enum OutputFormat {
    /// `tab N`, `space N` or `tab+space N M`.
    Generic,
    /// A Vim command setting `expandtab`, `tabstop` and `shiftwidth`.
    Vim,
}

/// The ASCII decimal digit of `d < 10`.
pub open spec fn digit_char(d: nat) -> char {
    if d == 0 {
        '0'
    } else if d == 1 {
        '1'
    } else if d == 2 {
        '2'
    } else if d == 3 {
        '3'
    } else if d == 4 {
        '4'
    } else if d == 5 {
        '5'
    } else if d == 6 {
        '6'
    } else if d == 7 {
        '7'
    } else if d == 8 {
        '8'
    } else {
        '9'
    }
}

/// Decimal notation of `n`, without leading zeros.
pub open spec fn decimal(n: nat) -> Seq<char>
    decreases n,
{
    if n < 10 {
        seq![digit_char(n)]
    } else {
        decimal(n / 10).push(digit_char(n % 10))
    }
}

fn digit_str(d: u32) -> (r: &'static str)
    requires
        d < 10,
    ensures
        r@ == seq![digit_char(d as nat)],
{
    let r = if d == 0 {
        "0"
    } else if d == 1 {
        "1"
    } else if d == 2 {
        "2"
    } else if d == 3 {
        "3"
    } else if d == 4 {
        "4"
    } else if d == 5 {
        "5"
    } else if d == 6 {
        "6"
    } else if d == 7 {
        "7"
    } else if d == 8 {
        "8"
    } else {
        "9"
    };
    proof {
        reveal_strlit("0");
        reveal_strlit("1");
        reveal_strlit("2");
        reveal_strlit("3");
        reveal_strlit("4");
        reveal_strlit("5");
        reveal_strlit("6");
        reveal_strlit("7");
        reveal_strlit("8");
        reveal_strlit("9");
        assert(r@ =~= seq![digit_char(d as nat)]);
    }
    r
}

/// Appends the decimal notation of `n` to `out`.
pub fn push_decimal(out: &mut String, n: u32)
    ensures
        final(out)@ == old(out)@ + decimal(n as nat),
    decreases n,
{
    if n >= 10 {
        push_decimal(out, n / 10);
    }
    out.append(digit_str(n % 10));
    proof {
        if n >= 10 {
            assert(decimal(n as nat) == decimal((n / 10) as nat).push(digit_char((n % 10) as nat)));
        }
    }
    assert(final(out)@ =~= old(out)@ + decimal(n as nat));
}

/// Vim settings for an indent descriptor: (expandtab, tabstop, shiftwidth).
/// Pure tabs keep tabs with both widths at the tab width; pure spaces expand
/// tabs with both widths at the space unit; mixed keeps tabs, with the tab
/// width as tabstop and the space unit as shiftwidth.
pub open spec fn vim_settings_spec(tab_width: u32, sp_unit: u32) -> (bool, u32, u32) {
    if sp_unit == 0 {
        (false, tab_width, tab_width)
    } else if tab_width == 0 {
        (true, sp_unit, sp_unit)
    } else {
        (false, tab_width, sp_unit)
    }
}

/// The text of an indent descriptor in the chosen format.
pub open spec fn format_spec(tab_width: u32, sp_unit: u32, output_format: OutputFormat) -> Seq<char> {
    match output_format {
        OutputFormat::Generic => if sp_unit == 0 {
            "tab "@ + decimal(tab_width as nat)
        } else if tab_width == 0 {
            "space "@ + decimal(sp_unit as nat)
        } else {
            "tab+space "@ + decimal(tab_width as nat) + " "@ + decimal(sp_unit as nat)
        },
        OutputFormat::Vim => {
            let (expandtab, tabstop, shiftwidth) = vim_settings_spec(tab_width, sp_unit);
            "set "@ + (if expandtab {
                ""@
            } else {
                "no"@
            }) + "expandtab tabstop="@ + decimal(tabstop as nat) + " shiftwidth="@ + decimal(
                shiftwidth as nat,
            )
        },
    }
}

/// In the Vim rendering, tabs are expanded exactly when the tab width is 0,
/// that is when the text indents with spaces alone.
pub proof fn lemma_vim_expandtab_iff_no_tabs(tab_width: u32, sp_unit: u32)
    requires
        !(tab_width == 0 && sp_unit == 0),
    ensures
        vim_settings_spec(tab_width, sp_unit).0 <==> tab_width == 0,
{
}

/// Computes the Vim settings (expandtab, tabstop, shiftwidth).
pub fn vim_settings(tab_width: u32, sp_unit: u32) -> (r: (bool, u32, u32))
    ensures
        r == vim_settings_spec(tab_width, sp_unit),
{
    if sp_unit == 0 {
        (false, tab_width, tab_width)
    } else if tab_width == 0 {
        (true, sp_unit, sp_unit)
    } else {
        (false, tab_width, sp_unit)
    }
}

/// Renders an indent descriptor (tab width, space unit); the two are never
/// both 0.
pub fn format_indent(indent: (u32, u32), output_format: OutputFormat) -> (r: String)
    requires
        !(indent.0 == 0 && indent.1 == 0),
    ensures
        r@ == format_spec(indent.0, indent.1, output_format),
{
    let (tab_width, sp_unit) = indent;
    match output_format {
        OutputFormat::Generic => {
            if sp_unit == 0 {
                let mut out = String::from_str("tab ");
                push_decimal(&mut out, tab_width);
                out
            } else if tab_width == 0 {
                let mut out = String::from_str("space ");
                push_decimal(&mut out, sp_unit);
                out
            } else {
                let mut out = String::from_str("tab+space ");
                push_decimal(&mut out, tab_width);
                out.append(" ");
                push_decimal(&mut out, sp_unit);
                out
            }
        },
        OutputFormat::Vim => {
            let (expandtab, tabstop, shiftwidth) = vim_settings(tab_width, sp_unit);
            let mut out = String::from_str("set ");
            if !expandtab {
                out.append("no");
            }
            proof {
                if expandtab {
                    reveal_strlit("");
                    assert(out@ =~= "set "@ + ""@);
                }
            }
            out.append("expandtab tabstop=");
            push_decimal(&mut out, tabstop);
            out.append(" shiftwidth=");
            push_decimal(&mut out, shiftwidth);
            out
        },
    }
}

} // verus!
