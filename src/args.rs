use vstd::prelude::*;
use crate::format::OutputFormat;

verus! {

pub open spec fn is_digit(c: char) -> bool {
    '0' <= c && c <= '9'
}

pub open spec fn digit_value(c: char) -> nat {
    ((c as u32) - ('0' as u32)) as nat
}

/// Value of a sequence of decimal digits, most significant first.
pub open spec fn digits_value(d: Seq<char>) -> nat
    decreases d.len(),
{
    if d.len() == 0 {
        0
    } else {
        digits_value(d.drop_last()) * 10 + digit_value(d.last())
    }
}

/// The digits of a decimal number: the text after an optional leading `+`.
pub open spec fn unsigned_digits(s: Seq<char>) -> Seq<char> {
    if s.len() > 0 && s[0] == '+' {
        s.drop_first()
    } else {
        s
    }
}

/// The `u32` written in `s`: an optional `+` and then one or more decimal
/// digits whose value fits in a `u32`; `None` for any other text.
pub open spec fn parse_u32_spec(s: Seq<char>) -> Option<u32> {
    let d = unsigned_digits(s);
    if d.len() > 0 && (forall|i: int| 0 <= i < d.len() ==> is_digit(#[trigger] d[i])) && digits_value(d)
        <= u32::MAX {
        Some(digits_value(d) as u32)
    } else {
        None
    }
}

/// The output format named by `s`: `generic` or `vim`.
pub open spec fn format_of(s: Seq<char>) -> Option<OutputFormat> {
    if s == "generic"@ {
        Some(OutputFormat::Generic)
    } else if s == "vim"@ {
        Some(OutputFormat::Vim)
    } else {
        None
    }
}

pub open spec fn invalid_format_message() -> Seq<char> {
    "Invalid output format"@
}

pub open spec fn invalid_width_message() -> Seq<char> {
    "Invalid default tab width"@
}

pub open spec fn zero_width_message() -> Seq<char> {
    "Default tab width can't be zero"@
}

/// The output format and the default tab width given by the format
/// argument and the width argument, or the message that rejects them.
pub open spec fn settings_spec(format: Seq<char>, width: Seq<char>) -> Result<(OutputFormat, u32), Seq<char>> {
    match format_of(format) {
        None => Err(invalid_format_message()),
        Some(f) => match parse_u32_spec(width) {
            None => Err(invalid_width_message()),
            Some(w) => if w == 0 {
                Err(zero_width_message())
            } else {
                Ok((f, w))
            },
        },
    }
}

/// Whether two strings hold the same characters.
pub fn str_eq(a: &str, b: &str) -> (r: bool)
    ensures
        r == (a@ == b@),
{
    let n = a.unicode_len();
    if n != b.unicode_len() {
        return false;
    }
    let mut i: usize = 0;
    while i < n
        invariant
            i <= n,
            n == a@.len(),
            n == b@.len(),
            a@.take(i as int) == b@.take(i as int),
        decreases n - i,
    {
        if a.get_char(i) != b.get_char(i) {
            return false;
        }
        proof {
            assert(a@.take(i + 1) =~= a@.take(i as int).push(a@[i as int]));
            assert(b@.take(i + 1) =~= b@.take(i as int).push(b@[i as int]));
        }
        i = i + 1;
    }
    assert(a@ =~= a@.take(n as int));
    assert(b@ =~= b@.take(n as int));
    true
}

proof fn lemma_digits_value_grows(d: Seq<char>, c: char)
    requires
        is_digit(c),
    ensures
        digits_value(d.push(c)) == digits_value(d) * 10 + digit_value(c),
{
    assert(d.push(c).drop_last() =~= d);
}

/// Parses a `u32` written in decimal, with an optional leading `+`.
pub fn parse_u32(s: &str) -> (r: Option<u32>)
    ensures
        r == parse_u32_spec(s@),
{
    let len = s.unicode_len();
    let start: usize = if len > 0 && s.get_char(0) == '+' {
        1
    } else {
        0
    };
    let ghost d = unsigned_digits(s@);
    assert(d =~= s@.subrange(start as int, len as int));
    if start == len {
        return None;
    }
    let mut v: u64 = 0;
    let mut i: usize = start;
    while i < len
        invariant
            start <= i <= len,
            len == s@.len(),
            d == s@.subrange(start as int, len as int),
            d == unsigned_digits(s@),
            forall|k: int| 0 <= k < i - start ==> is_digit(#[trigger] d[k]),
            v <= u32::MAX ==> v == digits_value(d.take(i - start)),
            v > u32::MAX ==> digits_value(d.take(i - start)) > u32::MAX,
            v <= 10 * (u32::MAX as u64) + 9,
        decreases len - i,
    {
        let c = s.get_char(i);
        if !('0' <= c && c <= '9') {
            proof {
                let k = i - start;
                assert(d[k] == c);
                assert(!is_digit(d[k]));
                assert(!(forall|j: int| 0 <= j < d.len() ==> is_digit(#[trigger] d[j])));
            }
            return None;
        }
        let ghost prefix = d.take(i - start);
        proof {
            assert(d.take(i - start + 1) =~= prefix.push(c));
            lemma_digits_value_grows(prefix, c);
        }
        if v <= u32::MAX as u64 {
            v = v * 10 + ((c as u32) - ('0' as u32)) as u64;
        }
        i = i + 1;
    }
    assert(d.take(len - start) =~= d);
    if v <= u32::MAX as u64 {
        Some(v as u32)
    } else {
        None
    }
}

/// Reads the three arguments: the file name, the output format (`generic`
/// or `vim`) and the default tab width, which must be a positive `u32`.
/// A wrong number of arguments is a usage error for the caller to report
/// before calling this.
pub fn process_args<'a>(args: &[&'a str]) -> (r: Result<(&'a str, OutputFormat, u32), String>)
    requires
        args@.len() == 3,
    ensures
        r is Ok <==> settings_spec(args@[1]@, args@[2]@) is Ok,
        r matches Ok(p) ==> p.0 == args@[0] && settings_spec(args@[1]@, args@[2]@) == Ok::<
            (OutputFormat, u32),
            Seq<char>,
        >((p.1, p.2)),
        r matches Err(e) ==> settings_spec(args@[1]@, args@[2]@) == Err::<(OutputFormat, u32), Seq<char>>(
            e@,
        ),
{
    let output_format = if str_eq(args[1], "generic") {
        OutputFormat::Generic
    } else if str_eq(args[1], "vim") {
        OutputFormat::Vim
    } else {
        return Err(String::from_str("Invalid output format"));
    };
    let def_tab_width = match parse_u32(args[2]) {
        Some(w) => w,
        None => {
            return Err(String::from_str("Invalid default tab width"));
        },
    };
    if def_tab_width == 0 {
        return Err(String::from_str("Default tab width can't be zero"));
    }
    Ok((args[0], output_format, def_tab_width))
}

} // verus!
