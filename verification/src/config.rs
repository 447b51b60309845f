//! Command-line configuration.

use vstd::prelude::*;

use crate::lexer::{digits_value, is_digit_char, lemma_digits_value_mono, lemma_digits_value_nonneg};

verus! {

/// Whether a character sequence is a valid decimal numeral for a `u32`:
/// non-empty, digits only, and within range.
pub open spec fn valid_u32_text(s: Seq<char>) -> bool {
    &&& s.len() > 0
    &&& forall|i: int| 0 <= i < s.len() ==> is_digit_char(#[trigger] s[i])
    &&& digits_value(s, 0, s.len() as int) <= u32::MAX
}

/// Parse a decimal numeral: succeeds exactly on valid `u32` text and
/// returns exactly its value.
pub fn parse_u32(s: &str) -> (r: Option<u32>)
    ensures
        r is Some <==> valid_u32_text(s@),
        r matches Some(v) ==> v as int == digits_value(s@, 0, s@.len() as int),
{
    let n = s.unicode_len();
    if n == 0 {
        return None;
    }
    let mut acc: u32 = 0;
    let mut i: usize = 0;
    while i < n
        invariant
            n == s@.len(),
            0 < n,
            i <= n,
            forall|k: int| 0 <= k < i ==> is_digit_char(#[trigger] s@[k]),
            acc as int == digits_value(s@, 0, i as int),
        decreases n - i,
    {
        let c = s.get_char(i);
        let u = c as u32;
        if !(48 <= u && u <= 57) {
            return None;
        }
        let d = u - 48;
        let acc10 = match acc.checked_mul(10) {
            Some(v) => v,
            None => {
                proof {
                    lemma_digits_value_overflows(s@, i as int);
                }
                return None;
            },
        };
        acc = match acc10.checked_add(d) {
            Some(v) => v,
            None => {
                proof {
                    lemma_digits_value_overflows(s@, i as int);
                }
                return None;
            },
        };
        i += 1;
    }
    Some(acc)
}

/// If the numeral's prefix up to and including position `i` already
/// exceeds `u32::MAX`, the text is not valid `u32` text.
proof fn lemma_digits_value_overflows(s: Seq<char>, i: int)
    requires
        0 <= i < s.len(),
        forall|k: int| 0 <= k < i ==> is_digit_char(#[trigger] s[k]),
        is_digit_char(s[i]),
        digits_value(s, 0, i + 1) > u32::MAX,
    ensures
        !valid_u32_text(s),
{
    if forall|k: int| 0 <= k < s.len() ==> is_digit_char(#[trigger] s[k]) {
        lemma_digits_value_mono(s, 0, i + 1, s.len() as int);
    }
}

/// Configuration for one run: the scene input file, the output image file,
/// and the output image dimensions.
#[derive(Debug)]
pub struct Config {
    /// A .ray file as the scene input.
    pub ray_filename: String,
    /// An output filename for the rendered scene.
    pub output_filename: String,
    /// The output image dimensions, width by height.
    pub output_dimensions: (u32, u32),
}

impl Config {
    /// Read a configuration from the command-line arguments: the input
    /// file, the output file, and two decimal image dimensions. Succeeds
    /// exactly when all four are present (after the program name) and both
    /// dimensions are valid `u32` numerals.
    pub fn new(args: &Vec<String>) -> (r: Result<Config, &'static str>)
        ensures
            r is Ok <==> args.len() >= 5 && valid_u32_text(args@[3]@) && valid_u32_text(
                args@[4]@,
            ),
            r matches Ok(c) ==> {
                &&& c.ray_filename@ == args@[1]@
                &&& c.output_filename@ == args@[2]@
                &&& c.output_dimensions.0 as int == digits_value(args@[3]@, 0, args@[3]@.len() as int)
                &&& c.output_dimensions.1 as int == digits_value(args@[4]@, 0, args@[4]@.len() as int)
            },
    {
        if args.len() < 5 {
            return Err("not enough arguements");
        }
        let width = match parse_u32(args[3].as_str()) {
            Some(v) => v,
            None => { return Err("invalid output dimensions"); },
        };
        let height = match parse_u32(args[4].as_str()) {
            Some(v) => v,
            None => { return Err("invalid output dimensions"); },
        };
        let ray_filename = args[1].clone();
        let output_filename = args[2].clone();
        Ok(Config { ray_filename, output_filename, output_dimensions: (width, height) })
    }
}

} // verus!
