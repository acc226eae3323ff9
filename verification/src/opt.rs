//! Command-line option parsing for the simulation driver.
//!
//! The accepted grammar is fixed by [`parse_spec`]: `--help` and `--fancy`
//! are flags; `--x`, `--y`, `--start`, `--gens` and `--delay` each consume
//! the following argument, which must be a decimal numeral (an optional
//! leading plus sign, then digits) whose value fits in a `u32`. Later
//! occurrences overwrite earlier ones; the first argument that does not fit
//! the grammar is reported in the error message.

use crate::error::Error;
use vstd::prelude::*;
use vstd::string::StrSliceExecFns;
use vstd::string::StringExecFns;

verus! {

/// The run configuration read from the command line.
#[derive(Debug)]
pub struct Options {
    /// Print the usage text instead of simulating.
    pub help: bool,
    /// Grid width; `None` means take it from the terminal.
    pub x: Option<u32>,
    /// Grid height; `None` means take it from the terminal.
    pub y: Option<u32>,
    /// Size of the starting population; 0 means derive it from the grid.
    pub start: u32,
    /// How many generations to run; 0 means run forever.
    pub gens: u32,
    /// Milliseconds to wait between generations.
    pub delay: u64,
    /// Distinguish born/alive/died cells in the rendering.
    pub fancy: bool,
}

/// The configuration before any argument is applied.
pub open spec fn default_options() -> Options {
    Options { help: false, x: None, y: None, start: 0, gens: 0, delay: 100, fancy: false }
}

impl Default for Options {
    fn default() -> (r: Options)
        ensures
            r == default_options(),
    {
        Options { help: false, x: None, y: None, start: 0, gens: 0, delay: 100, fancy: false }
    }
}

/// A decimal digit, `'0'` through `'9'`.
pub open spec fn is_digit(c: char) -> bool {
    48 <= c as int && c as int <= 57
}

/// The value of a digit string read in base 10.
pub open spec fn digits_val(s: Seq<char>) -> int
    decreases s.len(),
{
    if s.len() == 0 {
        0
    } else {
        digits_val(s.drop_last()) * 10 + (s.last() as int - 48)
    }
}

/// The digit part of a numeral: everything after an optional leading plus.
pub open spec fn numeral_digits(s: Seq<char>) -> Seq<char> {
    if s.len() > 0 && s[0] == '+' {
        s.drop_first()
    } else {
        s
    }
}

/// `s` is the decimal form of a `u32`: an optional plus sign, then at least
/// one digit, with a value below 2^32.
pub open spec fn is_u32_numeral(s: Seq<char>) -> bool {
    let d = numeral_digits(s);
    &&& d.len() > 0
    &&& forall|i: int| 0 <= i < d.len() ==> is_digit(#[trigger] d[i])
    &&& digits_val(d) < 0x1_0000_0000
}

/// The value of a numeral.
pub open spec fn numeral_val(s: Seq<char>) -> int {
    digits_val(numeral_digits(s))
}

/// The message rejecting an argument no option matches.
pub open spec fn msg_unexpected(arg: Seq<char>) -> Seq<char> {
    arg + ": unexpected argument"@
}

/// The message rejecting a valued option at the end of the list.
pub open spec fn msg_missing(arg: Seq<char>) -> Seq<char> {
    arg + ": expecting argument to follow"@
}

/// The message rejecting a value that is not a `u32` numeral.
pub open spec fn msg_invalid(value: Seq<char>, arg: Seq<char>) -> Seq<char> {
    value + ": invalid argument following "@ + arg
}

/// What parsing yields, read from position `i` of the argument list with the
/// options gathered so far: the final configuration, or the message of the
/// first rejected argument.
pub open spec fn parse_spec(args: Seq<Seq<char>>, i: int, acc: Options) -> Result<
    Options,
    Seq<char>,
>
    decreases args.len() - i,
{
    if i < 0 || i >= args.len() {
        Ok(acc)
    } else {
        let a = args[i];
        if a == "--help"@ {
            parse_spec(args, i + 1, Options { help: true, ..acc })
        } else if a == "--fancy"@ {
            parse_spec(args, i + 1, Options { fancy: true, ..acc })
        } else if a == "--x"@ || a == "--y"@ || a == "--start"@ || a == "--gens"@ || a
            == "--delay"@ {
            if i + 1 >= args.len() {
                Err(msg_missing(a))
            } else if !is_u32_numeral(args[i + 1]) {
                Err(msg_invalid(args[i + 1], a))
            } else {
                let v = numeral_val(args[i + 1]) as u32;
                let acc2 = if a == "--x"@ {
                    Options { x: Some(v), ..acc }
                } else if a == "--y"@ {
                    Options { y: Some(v), ..acc }
                } else if a == "--start"@ {
                    Options { start: v, ..acc }
                } else if a == "--gens"@ {
                    Options { gens: v, ..acc }
                } else {
                    Options { delay: v as u64, ..acc }
                };
                parse_spec(args, i + 2, acc2)
            }
        } else {
            Err(msg_unexpected(a))
        }
    }
}

impl Options {
    /// Parses the argument list, starting from the default configuration.
    /// Returns exactly what [`parse_spec`] prescribes; a rejected argument
    /// comes back as an [`Error::Options`] carrying the prescribed message.
    pub fn parse(args: Vec<String>) -> (r: Result<Options, Error>)
        ensures
            match parse_spec(args.deep_view(), 0, default_options()) {
                Ok(o) => r matches Ok(got) && got == o,
                Err(m) => r matches Err(e) && (e matches Error::Options(s) && s@ == m),
            },
    {
        let ghost gargs = args.deep_view();
        let mut opts = Options::default();
        let mut i: usize = 0;
        while i < args.len()
            invariant
                i <= args@.len(),
                gargs == args.deep_view(),
                gargs.len() == args@.len(),
                parse_spec(gargs, 0, default_options()) == parse_spec(gargs, i as int, opts),
            decreases args@.len() - i,
        {
            proof {
                assert(gargs[i as int] == args@[i as int]@);
            }
            let ghost pre = opts;
            if str_eq(args[i].as_str(), "--help") {
                opts.help = true;
                proof {
                    assert(parse_spec(gargs, i as int, pre) == parse_spec(gargs, i + 1, opts));
                }
                i += 1;
            } else if str_eq(args[i].as_str(), "--fancy") {
                opts.fancy = true;
                proof {
                    assert(parse_spec(gargs, i as int, pre) == parse_spec(gargs, i + 1, opts));
                }
                i += 1;
            } else if str_eq(args[i].as_str(), "--x") {
                let next = if i + 1 < args.len() {
                    Some(args[i + 1].clone())
                } else {
                    None
                };
                proof {
                    if i + 1 < gargs.len() {
                        assert(gargs[i + 1] == args@[i + 1]@);
                    }
                }
                match parse_arg(args[i].as_str(), next) {
                    Ok(v) => {
                        opts.x = Some(v);
                        proof {
                            assert(parse_spec(gargs, i as int, pre) == parse_spec(
                                gargs,
                                i + 2,
                                opts,
                            ));
                        }
                        i += 2;
                    },
                    Err(e) => {
                        return Err(e);
                    },
                }
            } else if str_eq(args[i].as_str(), "--y") {
                let next = if i + 1 < args.len() {
                    Some(args[i + 1].clone())
                } else {
                    None
                };
                proof {
                    if i + 1 < gargs.len() {
                        assert(gargs[i + 1] == args@[i + 1]@);
                    }
                }
                match parse_arg(args[i].as_str(), next) {
                    Ok(v) => {
                        opts.y = Some(v);
                        proof {
                            assert(parse_spec(gargs, i as int, pre) == parse_spec(
                                gargs,
                                i + 2,
                                opts,
                            ));
                        }
                        i += 2;
                    },
                    Err(e) => {
                        return Err(e);
                    },
                }
            } else if str_eq(args[i].as_str(), "--start") {
                let next = if i + 1 < args.len() {
                    Some(args[i + 1].clone())
                } else {
                    None
                };
                proof {
                    if i + 1 < gargs.len() {
                        assert(gargs[i + 1] == args@[i + 1]@);
                    }
                }
                match parse_arg(args[i].as_str(), next) {
                    Ok(v) => {
                        opts.start = v;
                        proof {
                            assert(parse_spec(gargs, i as int, pre) == parse_spec(
                                gargs,
                                i + 2,
                                opts,
                            ));
                        }
                        i += 2;
                    },
                    Err(e) => {
                        return Err(e);
                    },
                }
            } else if str_eq(args[i].as_str(), "--gens") {
                let next = if i + 1 < args.len() {
                    Some(args[i + 1].clone())
                } else {
                    None
                };
                proof {
                    if i + 1 < gargs.len() {
                        assert(gargs[i + 1] == args@[i + 1]@);
                    }
                }
                match parse_arg(args[i].as_str(), next) {
                    Ok(v) => {
                        opts.gens = v;
                        proof {
                            assert(parse_spec(gargs, i as int, pre) == parse_spec(
                                gargs,
                                i + 2,
                                opts,
                            ));
                        }
                        i += 2;
                    },
                    Err(e) => {
                        return Err(e);
                    },
                }
            } else if str_eq(args[i].as_str(), "--delay") {
                let next = if i + 1 < args.len() {
                    Some(args[i + 1].clone())
                } else {
                    None
                };
                proof {
                    if i + 1 < gargs.len() {
                        assert(gargs[i + 1] == args@[i + 1]@);
                    }
                }
                match parse_arg(args[i].as_str(), next) {
                    Ok(v) => {
                        opts.delay = v as u64;
                        proof {
                            assert(parse_spec(gargs, i as int, pre) == parse_spec(
                                gargs,
                                i + 2,
                                opts,
                            ));
                        }
                        i += 2;
                    },
                    Err(e) => {
                        return Err(e);
                    },
                }
            } else {
                let mut m = String::from_str(args[i].as_str());
                m.append(": unexpected argument");
                return Err(Error::Options(m));
            }
        }
        Ok(opts)
    }
}

/// Reads the numeric value that must follow the option `arg`. `None` means
/// the list ended early; a value that is not a `u32` numeral is rejected
/// with a message naming both the value and the option.
pub fn parse_arg(arg: &str, next: Option<String>) -> (r: Result<u32, Error>)
    ensures
        match next {
            Some(a) => {
                if is_u32_numeral(a@) {
                    r matches Ok(v) && v == numeral_val(a@)
                } else {
                    r matches Err(e) && (e matches Error::Options(s) && s@ == msg_invalid(a@, arg@))
                }
            },
            None => r matches Err(e) && (e matches Error::Options(s) && s@ == msg_missing(arg@)),
        },
{
    match next {
        Some(a) => match parse_u32(a.as_str()) {
            Some(v) => Ok(v),
            None => {
                let mut m = a;
                m.append(": invalid argument following ");
                m.append(arg);
                Err(Error::Options(m))
            },
        },
        None => {
            let mut m = String::from_str(arg);
            m.append(": expecting argument to follow");
            Err(Error::Options(m))
        },
    }
}

/// Reads a `u32` from its decimal form; anything else yields `None`.
pub fn parse_u32(s: &str) -> (r: Option<u32>)
    ensures
        is_u32_numeral(s@) ==> (r matches Some(v) && v == numeral_val(s@)),
        !is_u32_numeral(s@) ==> r is None,
{
    let n = s.unicode_len();
    let mut i: usize = 0;
    if n > 0 && s.get_char(0) == '+' {
        i = 1;
    }
    let ghost start = i as int;
    proof {
        assert(numeral_digits(s@) =~= s@.subrange(start, s@.len() as int));
    }
    if i >= n {
        return None;
    }
    let mut acc: u64 = 0;
    while i < n
        invariant
            0 <= start <= i <= n,
            n == s@.len(),
            numeral_digits(s@) == s@.subrange(start, n as int),
            forall|j: int| start <= j < i ==> is_digit(#[trigger] s@[j]),
            acc <= 0xffff_ffff,
            acc == digits_val(s@.subrange(start, i as int)),
        decreases n - i,
    {
        let c = s.get_char(i);
        let cv = c as u32;
        if cv < 48 || cv > 57 {
            proof {
                assert(s@.subrange(start, n as int)[i - start] == s@[i as int]);
                assert(!is_digit(numeral_digits(s@)[i - start]));
            }
            return None;
        }
        proof {
            assert(s@.subrange(start, i + 1).drop_last() =~= s@.subrange(start, i as int));
            assert(s@.subrange(start, i + 1).last() == s@[i as int]);
        }
        acc = acc * 10 + ((cv - 48) as u64);
        if acc > 0xffff_ffff {
            proof {
                let d = numeral_digits(s@);
                if forall|k: int| 0 <= k < d.len() ==> is_digit(#[trigger] d[k]) {
                    assert(d.take(i + 1 - start) =~= s@.subrange(start, i + 1));
                    lemma_digits_val_prefix(d, i + 1 - start);
                }
            }
            return None;
        }
        i += 1;
    }
    proof {
        let d = numeral_digits(s@);
        assert(d =~= s@.subrange(start, n as int));
        assert forall|k: int| 0 <= k < d.len() implies is_digit(#[trigger] d[k]) by {
            assert(d[k] == s@[start + k]);
        }
        assert(is_u32_numeral(s@));
    }
    Some(acc as u32)
}

/// All-digit strings value at least 0.
proof fn lemma_digits_val_nonneg(s: Seq<char>)
    requires
        forall|j: int| 0 <= j < s.len() ==> is_digit(#[trigger] s[j]),
    ensures
        digits_val(s) >= 0,
    decreases s.len(),
{
    if s.len() > 0 {
        lemma_digits_val_nonneg(s.drop_last());
    }
}

/// Extending an all-digit string never lowers its value.
proof fn lemma_digits_val_prefix(s: Seq<char>, k: int)
    requires
        0 <= k <= s.len(),
        forall|j: int| 0 <= j < s.len() ==> is_digit(#[trigger] s[j]),
    ensures
        digits_val(s.take(k)) <= digits_val(s),
    decreases s.len() - k,
{
    if k < s.len() {
        lemma_digits_val_nonneg(s.take(k));
        assert(s.take(k + 1).drop_last() =~= s.take(k));
        assert(s.take(k + 1).last() == s[k]);
        lemma_digits_val_prefix(s, k + 1);
    } else {
        assert(s.take(k) =~= s);
    }
}

/// Character-by-character string equality, proved against the views.
fn str_eq(a: &str, b: &str) -> (r: bool)
    ensures
        r == (a@ == b@),
{
    let an = a.unicode_len();
    let bn = b.unicode_len();
    if an != bn {
        return false;
    }
    let mut i: usize = 0;
    while i < an
        invariant
            i <= an,
            an == a@.len(),
            an == b@.len(),
            forall|j: int| 0 <= j < i ==> a@[j] == b@[j],
        decreases an - i,
    {
        if a.get_char(i) != b.get_char(i) {
            return false;
        }
        i += 1;
    }
    proof {
        assert(a@ =~= b@);
    }
    true
}

} // verus!
