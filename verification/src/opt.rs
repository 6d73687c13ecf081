use vstd::prelude::*;
use vstd::string::StringExecFns;
use vstd::string::StrSliceExecFns;

verus! {

/// Where the document is read from: standard input (written `-`) or a
/// file path.
#[derive(Debug, PartialEq, Eq, Clone)]
pub enum Input {
    StdIn,
    Path(String),
}

/// Where the rendered artifact is written: standard output (written
/// `-`) or a file path.
#[derive(Debug, PartialEq, Eq, Clone)]
pub enum Output {
    StdOut,
    Path(String),
}

/// The requested output format.
#[derive(Debug, PartialEq, Eq, Clone, Copy)]
pub enum Format {
    Markdown,
    Excel,
}

/// An `0xRRGGBB` color.
#[derive(Debug, PartialEq, Eq, Clone, Copy)]
pub struct Color(pub u32);

/// A rejected option value, carrying the text that was offered.
#[derive(Debug, PartialEq, Eq, Clone)]
pub enum OptionError {
    InvalidFormat(String),
    InvalidColor(String),
}

/// What `str::to_lowercase` returns: a function of the characters
/// alone.
pub uninterp spec fn lower_of(s: Seq<char>) -> Seq<char>;

/// Relies on str::to_lowercase: the result depends on the input
/// characters alone.
#[verifier::external_body]
fn lowercase(s: &str) -> (r: String)
    ensures
        r@ == lower_of(s@),
{
    s.to_lowercase()
}

/// A hexadecimal digit.
pub open spec fn is_hex_digit(c: char) -> bool {
    ('0' <= c && c <= '9') || ('a' <= c && c <= 'f') || ('A' <= c && c <= 'F')
}

/// The text of a color option: `0x` followed by exactly six
/// hexadecimal digits.
pub open spec fn is_color_literal(s: Seq<char>) -> bool {
    &&& s.len() == 8
    &&& s[0] == '0'
    &&& s[1] == 'x'
    &&& forall|i: int| 2 <= i < 8 ==> is_hex_digit(#[trigger] s[i])
}

/// Relies on regex::Regex::new and regex::Regex::is_match: the
/// anchored pattern `^0x[0-9a-fA-F]{6}$` matches exactly the strings
/// of `0x` followed by six hexadecimal digits.
#[verifier::external_body]
fn matches_color_pattern(s: &str) -> (r: bool)
    ensures
        r == is_color_literal(s@),
{
    match regex::Regex::new("^0x[0-9a-fA-F]{6}$") {
        Ok(re) => re.is_match(s),
        Err(_) => false,
    }
}

/// The numeric value of one hexadecimal digit.
pub open spec fn hex_digit_value(c: char) -> nat
    recommends
        is_hex_digit(c),
{
    if '0' <= c && c <= '9' {
        (c as int - '0' as int) as nat
    } else if 'a' <= c && c <= 'f' {
        (c as int - 'a' as int + 10) as nat
    } else {
        (c as int - 'A' as int + 10) as nat
    }
}

/// The value of a big-endian string of hexadecimal digits.
pub open spec fn hex_value(s: Seq<char>) -> nat
    decreases s.len(),
{
    if s.len() == 0 {
        0
    } else {
        hex_value(s.drop_last()) * 16 + hex_digit_value(s.last())
    }
}

/// Sixteen to the `n`-th power: the bound of an `n`-digit hex string.
pub open spec fn pow16(n: nat) -> nat
    decreases n,
{
    if n == 0 {
        1
    } else {
        16 * pow16((n - 1) as nat)
    }
}

pub proof fn lemma_hex_value_bound(s: Seq<char>)
    requires
        forall|i: int| 0 <= i < s.len() ==> is_hex_digit(#[trigger] s[i]),
    ensures
        hex_value(s) < pow16(s.len()),
    decreases s.len(),
{
    if s.len() > 0 {
        assert(forall|i: int| 0 <= i < s.drop_last().len() ==> is_hex_digit(
            #[trigger] s.drop_last()[i],
        ));
        lemma_hex_value_bound(s.drop_last());
        assert(is_hex_digit(s.last()));
        assert(hex_digit_value(s.last()) < 16);
    }
}

/// The numeric value of one hexadecimal digit character.
fn hex_digit_val(c: char) -> (d: u32)
    requires
        is_hex_digit(c),
    ensures
        d as nat == hex_digit_value(c),
        d < 16,
{
    let v = c as u32;
    if v >= 97 {
        v - 87
    } else if v >= 65 {
        v - 55
    } else {
        v - 48
    }
}

impl Color {
    /// The raw `0xRRGGBB` value.
    pub fn into_inner(&self) -> (r: u32)
        ensures
            r == self.0,
    {
        self.0
    }

    /// Parses a color option: accepts exactly `0x` followed by six
    /// hexadecimal digits, and returns their value.
    pub fn from_str(s: &str) -> (r: Result<Color, OptionError>)
        ensures
            is_color_literal(s@) ==> (r matches Ok(c) && c.0 as nat == hex_value(
                s@.subrange(2, 8),
            )),
            !is_color_literal(s@) ==> (r matches Err(e) && e matches OptionError::InvalidColor(m)
                && m@ == s@),
    {
        if !matches_color_pattern(s) {
            return Err(OptionError::InvalidColor(s.to_owned()));
        }
        let mut value: u32 = 0;
        let mut i: usize = 2;
        while i < 8
            invariant
                2 <= i <= 8,
                is_color_literal(s@),
                value as nat == hex_value(s@.subrange(2, i as int)),
                (value as nat) < pow16((i - 2) as nat),
            decreases 8 - i,
        {
            let c = s.get_char(i);
            let d = hex_digit_val(c);
            proof {
                lemma_hex_value_bound(s@.subrange(2, i as int));
                assert(pow16(((i + 1) - 2) as nat) == 16 * pow16((i - 2) as nat));
                assert(pow16(6nat) == 16 * pow16(5nat));
                assert(pow16(5nat) == 16 * pow16(4nat));
                assert(pow16(4nat) == 16 * pow16(3nat));
                assert(pow16(3nat) == 16 * pow16(2nat));
                assert(pow16(2nat) == 16 * pow16(1nat));
                assert(pow16(1nat) == 16 * pow16(0nat));
                assert(pow16((i - 2) as nat) <= pow16(6nat)) by {
                    lemma_pow16_increases((i - 2) as nat, 6nat);
                }
            }
            value = value * 16 + d;
            proof {
                assert(s@.subrange(2, i + 1).drop_last() =~= s@.subrange(2, i as int));
                assert(s@.subrange(2, i + 1).last() == s@[i as int]);
            }
            i = i + 1;
        }
        proof {
            assert(s@.subrange(2, 8) =~= s@.subrange(2, 8int));
        }
        Ok(Color(value))
    }
}

pub proof fn lemma_pow16_increases(a: nat, b: nat)
    requires
        a <= b,
    ensures
        pow16(a) <= pow16(b),
    decreases b,
{
    if a < b {
        lemma_pow16_increases(a, (b - 1) as nat);
        assert(pow16(b) == 16 * pow16((b - 1) as nat));
        assert(pow16((b - 1) as nat) >= 1) by {
            lemma_pow16_positive((b - 1) as nat);
        }
    }
}

pub proof fn lemma_pow16_positive(n: nat)
    ensures
        pow16(n) >= 1,
    decreases n,
{
    if n > 0 {
        lemma_pow16_positive((n - 1) as nat);
    }
}

impl Input {
    /// Reads an input choice: `-` (in any letter case) stands for
    /// standard input, anything else is a file path, kept verbatim.
    pub fn from_str(s: &str) -> (r: Input)
        ensures
            lower_of(s@) == "-"@ ==> r == Input::StdIn,
            lower_of(s@) != "-"@ ==> (r matches Input::Path(p) && p@ == s@),
    {
        let lower = lowercase(s);
        if lower == String::from_str("-") {
            Input::StdIn
        } else {
            Input::Path(s.to_owned())
        }
    }
}

impl Output {
    /// Reads an output choice: `-` (in any letter case) stands for
    /// standard output, anything else is a file path, kept verbatim.
    pub fn from_str(s: &str) -> (r: Output)
        ensures
            lower_of(s@) == "-"@ ==> r == Output::StdOut,
            lower_of(s@) != "-"@ ==> (r matches Output::Path(p) && p@ == s@),
    {
        let lower = lowercase(s);
        if lower == String::from_str("-") {
            Output::StdOut
        } else {
            Output::Path(s.to_owned())
        }
    }
}

impl Format {
    /// Reads the requested format, ignoring letter case: `markdown`
    /// or `excel`; anything else is rejected.
    pub fn from_str(s: &str) -> (r: Result<Format, OptionError>)
        ensures
            lower_of(s@) == "markdown"@ ==> r == Ok::<Format, OptionError>(Format::Markdown),
            lower_of(s@) == "excel"@ ==> r == Ok::<Format, OptionError>(Format::Excel),
            lower_of(s@) != "markdown"@ && lower_of(s@) != "excel"@ ==> (r matches Err(e)
                && e matches OptionError::InvalidFormat(m) && m@ == s@),
    {
        proof {
            reveal_strlit("markdown");
            reveal_strlit("excel");
        }
        let lower = lowercase(s);
        proof {
            assert("markdown"@.len() == 8);
            assert("excel"@.len() == 5);
            assert("markdown"@ != "excel"@);
        }
        if lower == String::from_str("markdown") {
            Ok(Format::Markdown)
        } else if lower == String::from_str("excel") {
            Ok(Format::Excel)
        } else {
            Err(OptionError::InvalidFormat(s.to_owned()))
        }
    }
}

} // verus!
