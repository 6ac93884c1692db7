use vstd::prelude::*;
use crate::model::same_text;
use crate::schedule::{parse_unsigned, unsigned_number};
use crate::text::chars_of;

verus! {

/// The error that asks for the usage text.
pub const HELP_REQUESTED: &'static str = "Requested help.";

pub const MISSING_FORMAT: &'static str = "Missing value for --format";

pub const MISSING_INTERVAL: &'static str = "Missing value for --interval";

pub const INVALID_INTERVAL: &'static str = "Invalid value for --interval";

pub const UNKNOWN_ARGUMENT: &'static str = "Unknown argument: ";

/// How to print a line.
pub enum OutputFormat {
    /// `Label: message | Remaining: H:MM:SS`.
    Plain,
    /// A pattern whose tokens `[Label]`, `[Period]`, `[HH]`, `[MM]` and
    /// `[SS]` are replaced.
    Pattern(String),
}

/// The command-line options.
pub struct Options {
    pub format: OutputFormat,
    pub once: bool,
    pub interval_secs: u64,
}

pub enum FormatView {
    Plain,
    Pattern(Seq<char>),
}

pub struct OptionsView {
    pub format: FormatView,
    pub once: bool,
    pub interval_secs: u64,
}

impl View for Options {
    type V = OptionsView;

    open spec fn view(&self) -> OptionsView {
        OptionsView {
            format: match self.format {
                OutputFormat::Plain => FormatView::Plain,
                OutputFormat::Pattern(p) => FormatView::Pattern(p@),
            },
            once: self.once,
            interval_secs: self.interval_secs,
        }
    }
}

pub open spec fn default_options() -> OptionsView {
    OptionsView { format: FormatView::Plain, once: false, interval_secs: 1 }
}

/// The options that the arguments `args` set on top of `o`, or the message
/// that refuses them.
pub open spec fn options_from(args: Seq<Seq<char>>, o: OptionsView) -> Result<OptionsView, Seq<char>>
    decreases args.len(),
{
    if args.len() == 0 {
        Ok(o)
    } else {
        let a = args[0];
        let rest = args.drop_first();
        if a == "--once"@ {
            options_from(rest, OptionsView { once: true, ..o })
        } else if a == "--format"@ {
            if rest.len() == 0 {
                Err(MISSING_FORMAT@)
            } else {
                let f = if rest[0] == "plain"@ {
                    FormatView::Plain
                } else {
                    FormatView::Pattern(rest[0])
                };
                options_from(rest.drop_first(), OptionsView { format: f, ..o })
            }
        } else if a == "--interval"@ {
            if rest.len() == 0 {
                Err(MISSING_INTERVAL@)
            } else {
                match unsigned_number(rest[0], u64::MAX as int) {
                    Some(n) => options_from(rest.drop_first(), OptionsView { interval_secs: n as u64, ..o }),
                    None => Err(INVALID_INTERVAL@),
                }
            }
        } else if a == "--help"@ || a == "-h"@ {
            Err(HELP_REQUESTED@)
        } else {
            Err(UNKNOWN_ARGUMENT@ + a)
        }
    }
}

pub open spec fn args_view(args: Seq<String>) -> Seq<Seq<char>> {
    args.map_values(|s: String| s@)
}

/// Reads the command-line arguments (without the program name).
pub fn parse_args(args: Vec<String>) -> (r: Result<Options, String>)
    ensures
        match (r, options_from(args_view(args@), default_options())) {
            (Ok(o), Ok(w)) => o@ == w,
            (Err(e), Err(f)) => e@ == f,
            _ => false,
        },
{
    let ghost av = args_view(args@);
    let mut opts = Options { format: OutputFormat::Plain, once: false, interval_secs: 1 };
    let mut i: usize = 0;
    assert(av.skip(0) =~= av);
    while i < args.len()
        invariant
            i <= args@.len(),
            av == args_view(args@),
            av.len() == args@.len(),
            options_from(av, default_options()) == options_from(av.skip(i as int), opts@),
        decreases args.len() - i,
    {
        let ghost rest = av.skip(i as int);
        proof {
            assert(rest[0] == args@[i as int]@);
            assert(rest.drop_first() =~= av.skip(i + 1));
            if i + 1 < args@.len() {
                assert(rest.drop_first()[0] == args@[i + 1]@);
                assert(rest.drop_first().drop_first() =~= av.skip(i + 2));
            }
        }
        let arg = args[i].as_str();
        if same_text(arg, "--once") {
            opts.once = true;
            i += 1;
        } else if same_text(arg, "--format") {
            if i + 1 >= args.len() {
                return Err(String::from_str(MISSING_FORMAT));
            }
            let value = &args[i + 1];
            if same_text(value.as_str(), "plain") {
                opts.format = OutputFormat::Plain;
            } else {
                opts.format = OutputFormat::Pattern(value.clone());
            }
            i += 2;
        } else if same_text(arg, "--interval") {
            if i + 1 >= args.len() {
                return Err(String::from_str(MISSING_INTERVAL));
            }
            let v = chars_of(args[i + 1].as_str());
            match parse_unsigned(&v, 0, v.len(), u64::MAX) {
                Some(n) => {
                    opts.interval_secs = n;
                },
                None => {
                    proof {
                        assert(v@.subrange(0, v@.len() as int) =~= v@);
                    }
                    return Err(String::from_str(INVALID_INTERVAL));
                },
            }
            proof {
                assert(v@.subrange(0, v@.len() as int) =~= v@);
            }
            i += 2;
        } else if same_text(arg, "--help") || same_text(arg, "-h") {
            return Err(String::from_str(HELP_REQUESTED));
        } else {
            let mut e = String::from_str(UNKNOWN_ARGUMENT);
            e.append(arg);
            return Err(e);
        }
    }
    proof {
        assert(av.skip(i as int) =~= seq![]);
    }
    Ok(opts)
}

/// The usage text.
pub const USAGE: &'static str = "Usage: bell [--once] [--format plain|<pattern>] [--interval <secs>]
    --once                Print once and exit
    --format plain        Default output format (with label/message)
    --format <pattern>    Line pattern with tokens: [Label] [Period] [HH] [MM] [SS]
                          Example: \"Period: [Period] | [HH]:[MM]:[SS]\"
    --interval <secs>     Refresh interval for continuous mode (default: 1)";

/// The usage text.
pub fn usage() -> (r: &'static str)
    ensures
        r@ == USAGE@,
{
    USAGE
}

} // verus!
