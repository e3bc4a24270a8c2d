//! The command line: `-o/--output <path>`, `-t/--topleft`, and one or more
//! positional input paths, parsed left to right.

use vstd::prelude::*;
use vstd::string::StrSliceExecFns;
use vstd::string::StringExecFns;
use crate::errors::SheetError;
use crate::layout::Mode;

verus! {

/// A validated command line: where to write, what to read (in sheet order),
/// and how to align.
pub struct Config {
    pub output: String,
    pub inputs: Vec<String>,
    pub mode: Mode,
}

/// The alignment flag.
pub open spec fn is_topleft_flag(t: Seq<char>) -> bool {
    t == "-t"@ || t == "--topleft"@
}

/// The output option, which consumes the following token as its value.
pub open spec fn is_output_flag(t: Seq<char>) -> bool {
    t == "-o"@ || t == "--output"@
}

/// A token that looks like an option: a dash followed by at least one more
/// character. A bare dash counts as a positional input.
pub open spec fn is_option_like(t: Seq<char>) -> bool {
    t.len() >= 2 && t[0] == '-'
}

/// The parser's state after some prefix of the arguments.
pub ghost struct ParseState {
    pub ok: bool,
    pub expecting_output: bool,
    pub output: Option<Seq<char>>,
    pub inputs: Seq<Seq<char>>,
    pub topleft: bool,
}

pub open spec fn init_state() -> ParseState {
    ParseState { ok: true, expecting_output: false, output: None, inputs: seq![], topleft: false }
}

/// One token of the grammar. A token right after the output flag is taken
/// verbatim as the output path; `-t`/`--topleft` sets top-left alignment; a
/// second output flag or an unrecognized option is a usage error; anything
/// else is the next input path.
pub open spec fn step(st: ParseState, t: Seq<char>) -> ParseState {
    if !st.ok {
        st
    } else if st.expecting_output {
        ParseState { expecting_output: false, output: Some(t), ..st }
    } else if is_topleft_flag(t) {
        ParseState { topleft: true, ..st }
    } else if is_output_flag(t) {
        if st.output is Some {
            ParseState { ok: false, ..st }
        } else {
            ParseState { expecting_output: true, ..st }
        }
    } else if is_option_like(t) {
        ParseState { ok: false, ..st }
    } else {
        ParseState { inputs: st.inputs.push(t), ..st }
    }
}

/// The state after all arguments.
pub open spec fn run(args: Seq<Seq<char>>) -> ParseState
    decreases args.len(),
{
    if args.len() == 0 {
        init_state()
    } else {
        step(run(args.drop_last()), args.last())
    }
}

/// A command line is accepted exactly when no token was rejected, the output
/// option got its value, and at least one input path was given.
pub open spec fn parse_ok(args: Seq<Seq<char>>) -> bool {
    let st = run(args);
    st.ok && !st.expecting_output && st.output is Some && st.inputs.len() >= 1
}

/// The views of the argument strings.
pub open spec fn arg_views(args: Seq<String>) -> Seq<Seq<char>> {
    Seq::new(args.len(), |i: int| args[i]@)
}

/// Whether `tok` is the string `lit`.
fn is_lit(tok: &String, lit: &str) -> (r: bool)
    ensures
        r == (tok@ == lit@),
{
    let s: String = lit.to_owned();
    *tok == s
}

/// Whether `tok` looks like an option.
fn option_like(tok: &String) -> (r: bool)
    ensures
        r == is_option_like(tok@),
{
    let s = tok.as_str();
    if s.unicode_len() >= 2 {
        s.get_char(0) == '-'
    } else {
        false
    }
}

/// Parses the command line (the arguments after the program name) into a
/// validated configuration, or a usage error. The accepted command lines are
/// exactly those `parse_ok` allows, and the configuration carries the output
/// path, the input paths in order, and the alignment the flag selects.
pub fn parse_args(args: &Vec<String>) -> (r: Result<Config, SheetError>)
    ensures
        r is Ok <==> parse_ok(arg_views(args@)),
        r matches Ok(c) ==> ({
            let st = run(arg_views(args@));
            &&& c.output@ == st.output.unwrap()
            &&& c.mode == (if st.topleft {
                Mode::TopLeft
            } else {
                Mode::Centered
            })
            &&& c.inputs@.len() == st.inputs.len()
            &&& forall|i: int| 0 <= i < st.inputs.len() ==> (#[trigger] c.inputs@[i])@
                == st.inputs[i]
        }),
        r matches Err(e) ==> e is Usage,
{
    let ghost av = arg_views(args@);
    let n = args.len();
    let mut i: usize = 0;
    let mut ok: bool = true;
    let mut expecting: bool = false;
    let mut output: Option<String> = None;
    let mut inputs: Vec<String> = Vec::new();
    let mut topleft: bool = false;
    while i < n
        invariant
            n == args@.len(),
            av == arg_views(args@),
            i <= n,
            ok == run(av.take(i as int)).ok,
            ok ==> ({
                let st = run(av.take(i as int));
                &&& expecting == st.expecting_output
                &&& (output is Some <==> st.output is Some)
                &&& (output matches Some(s) ==> s@ == st.output.unwrap())
                &&& inputs@.len() == st.inputs.len()
                &&& forall|j: int| 0 <= j < st.inputs.len() ==> (#[trigger] inputs@[j])@
                    == st.inputs[j]
                &&& topleft == st.topleft
            }),
        decreases n - i,
    {
        proof {
            assert(av.take(i + 1).drop_last() =~= av.take(i as int));
            assert(av.take(i + 1).last() == args@[i as int]@);
        }
        let tok = &args[i];
        if ok {
            if expecting {
                output = Some(tok.clone());
                expecting = false;
            } else if is_lit(tok, "-t") || is_lit(tok, "--topleft") {
                topleft = true;
            } else if is_lit(tok, "-o") || is_lit(tok, "--output") {
                if output.is_some() {
                    ok = false;
                } else {
                    expecting = true;
                }
            } else if option_like(tok) {
                ok = false;
            } else {
                inputs.push(tok.clone());
            }
        }
        i += 1;
    }
    proof {
        assert(av.take(n as int) =~= av);
    }
    if ok && !expecting && inputs.len() > 0 {
        match output {
            Some(out) => {
                let mode = if topleft {
                    Mode::TopLeft
                } else {
                    Mode::Centered
                };
                return Ok(Config { output: out, inputs, mode });
            },
            None => {
                return Err(
                    SheetError::Usage {
                        msg: "an output path is required: -o/--output <path>".to_owned(),
                    },
                );
            },
        }
    }
    Err(
        SheetError::Usage {
            msg: "usage: -o/--output <path> [-t/--topleft] <input>... (one or more inputs)".to_owned(),
        },
    )
}

} // verus!
