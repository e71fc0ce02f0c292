use vstd::prelude::*;

use vstd::string::*;

use crate::text::{chars_of, same_text};

verus! {

/// Whether `c` is an ASCII decimal digit.
pub open spec fn is_digit(c: char) -> bool {
    '0' <= c && c <= '9'
}

/// The value of a string of decimal digits.
pub open spec fn digits_value(s: Seq<char>) -> nat
    decreases s.len(),
{
    if s.len() == 0 {
        0
    } else {
        digits_value(s.drop_last()) * 10 + (s.last() as nat - '0' as nat) as nat
    }
}

/// Whether every character of `d` is a decimal digit.
pub open spec fn all_digits(d: Seq<char>) -> bool {
    forall|i: int| 0 <= i < d.len() ==> is_digit(#[trigger] d[i])
}

/// `s` without one leading `+`.
pub open spec fn unsigned_part(s: Seq<char>) -> Seq<char> {
    if s.len() > 0 && s[0] == '+' {
        s.subrange(1, s.len() as int)
    } else {
        s
    }
}

/// The port number that `s` writes: one or more decimal digits, after an
/// optional `+`, of value at most 65535.
pub open spec fn port_value(s: Seq<char>) -> Option<u16> {
    let d = unsigned_part(s);
    if d.len() > 0 && all_digits(d) && digits_value(d) <= 65535 {
        Some(digits_value(d) as u16)
    } else {
        None
    }
}

/// Reads a port number as `u16::from_str` does.
pub fn parse_port(s: &str) -> (r: Option<u16>)
    ensures
        r == port_value(s@),
{
    let cs = chars_of(s);
    let ghost d = unsigned_part(s@);
    let start: usize = if cs.len() > 0 && cs[0] == '+' { 1 } else { 0 };
    if start >= cs.len() {
        return None;
    }
    let mut value: u64 = 0;
    let mut i: usize = start;
    while i < cs.len()
        invariant
            start <= i <= cs.len(),
            cs@ == s@,
            d == unsigned_part(s@),
            d == cs@.subrange(start as int, cs.len() as int),
            forall|k: int| start <= k < i ==> is_digit(#[trigger] cs@[k]),
            value == digits_value(cs@.subrange(start as int, i as int)),
            value <= 65535,
        decreases cs.len() - i,
    {
        let c = cs[i];
        assert(cs@.subrange(start as int, i + 1).drop_last() =~= cs@.subrange(start as int, i as int));
        if !('0' <= c && c <= '9') {
            assert(d[i - start] == cs@[i as int]);
            assert(!is_digit(d[i - start]));
            return None;
        }
        let next = value * 10 + (c as u64 - '0' as u64);
        if next > 65535 {
            proof {
                assert(d.take(i + 1 - start) =~= cs@.subrange(start as int, i + 1));
                if all_digits(d) {
                    lemma_digits_value_prefix(d, (i + 1 - start) as int);
                }
            }
            return None;
        }
        value = next;
        i = i + 1;
    }
    assert(cs@.subrange(start as int, cs.len() as int) =~= d);
    Some(value as u16)
}

/// A longer string of digits never has a smaller value than its prefix.
proof fn lemma_digits_value_prefix(s: Seq<char>, n: int)
    requires
        0 <= n <= s.len(),
        all_digits(s),
    ensures
        digits_value(s.take(n)) <= digits_value(s),
    decreases s.len(),
{
    if n < s.len() {
        assert(s.drop_last().take(n) =~= s.take(n));
        lemma_digits_value_prefix(s.drop_last(), n);
    } else {
        assert(s.take(n) =~= s);
    }
}

/// The settings that the command line gives.
#[derive(Debug, Clone)]
pub struct Args {
    pub transport: String,
    pub port: u16,
    pub hook_port: Option<u16>,
    pub db_path: Option<String>,
    pub model_dir: String,
    pub debug: bool,
}

/// [`Args`] with its text as character sequences.
pub struct ArgsView {
    pub transport: Seq<char>,
    pub port: u16,
    pub hook_port: Option<u16>,
    pub db_path: Option<Seq<char>>,
    pub model_dir: Seq<char>,
    pub debug: bool,
}

impl View for Args {
    type V = ArgsView;

    open spec fn view(&self) -> ArgsView {
        ArgsView {
            transport: self.transport@,
            port: self.port,
            hook_port: self.hook_port,
            db_path: match self.db_path {
                Some(p) => Some(p@),
                None => None,
            },
            model_dir: self.model_dir@,
            debug: self.debug,
        }
    }
}

/// The port the server listens on unless told otherwise.
pub const DEFAULT_PORT: u16 = 19532;

/// What the command line asks for.
#[derive(Debug, Clone)]
pub enum CliOutcome {
    /// Run the server with these settings.
    Run(Args),
    /// Print the usage text and exit successfully.
    Help,
    /// An argument that is not an option; exit with an error.
    Unknown(String),
}

/// A port option whose value is not a port number.
#[derive(Debug, Clone)]
pub enum ArgError {
    InvalidPort(String),
    InvalidHookPort(String),
}

/// What reading the command line gives, over character sequences.
pub enum CliView {
    Run(ArgsView),
    Help,
    Unknown(Seq<char>),
    InvalidPort(Seq<char>),
    InvalidHookPort(Seq<char>),
}

pub open spec fn cli_view(r: Result<CliOutcome, ArgError>) -> CliView {
    match r {
        Ok(CliOutcome::Run(a)) => CliView::Run(a@),
        Ok(CliOutcome::Help) => CliView::Help,
        Ok(CliOutcome::Unknown(a)) => CliView::Unknown(a@),
        Err(ArgError::InvalidPort(v)) => CliView::InvalidPort(v@),
        Err(ArgError::InvalidHookPort(v)) => CliView::InvalidHookPort(v@),
    }
}

/// Reading the arguments from position `i` on, with the settings `st` so far.
/// An option that takes a value and stands last is ignored.
pub open spec fn read_args(args: Seq<Seq<char>>, i: int, st: ArgsView) -> CliView
    decreases args.len() - i,
{
    if i < 0 || i >= args.len() {
        CliView::Run(st)
    } else {
        let a = args[i];
        let has_value = i + 1 < args.len();
        if a == "--transport"@ {
            if has_value {
                read_args(args, i + 2, ArgsView { transport: args[i + 1], ..st })
            } else {
                CliView::Run(st)
            }
        } else if a == "--port"@ {
            if has_value {
                match port_value(args[i + 1]) {
                    Some(p) => read_args(args, i + 2, ArgsView { port: p, ..st }),
                    None => CliView::InvalidPort(args[i + 1]),
                }
            } else {
                CliView::Run(st)
            }
        } else if a == "--hook-port"@ {
            if has_value {
                match port_value(args[i + 1]) {
                    Some(p) => read_args(args, i + 2, ArgsView { hook_port: Some(p), ..st }),
                    None => CliView::InvalidHookPort(args[i + 1]),
                }
            } else {
                CliView::Run(st)
            }
        } else if a == "--db-path"@ {
            if has_value {
                read_args(args, i + 2, ArgsView { db_path: Some(args[i + 1]), ..st })
            } else {
                CliView::Run(st)
            }
        } else if a == "--model-dir"@ {
            if has_value {
                read_args(args, i + 2, ArgsView { model_dir: args[i + 1], ..st })
            } else {
                CliView::Run(st)
            }
        } else if a == "--debug"@ {
            read_args(args, i + 1, ArgsView { debug: true, ..st })
        } else if a == "--help"@ || a == "-h"@ {
            CliView::Help
        } else {
            CliView::Unknown(a)
        }
    }
}

/// The settings before any option is read.
pub open spec fn default_args(default_model_dir: Seq<char>) -> ArgsView {
    ArgsView {
        transport: "stdio"@,
        port: DEFAULT_PORT,
        hook_port: None,
        db_path: None,
        model_dir: default_model_dir,
        debug: false,
    }
}

pub open spec fn texts(args: Seq<String>) -> Seq<Seq<char>> {
    args.map_values(|a: String| a@)
}

/// Reads the command line; `args[0]` is the program's name and is skipped.
pub fn parse_args(args: &Vec<String>, default_model_dir: String) -> (r: Result<CliOutcome, ArgError>)
    ensures
        cli_view(r) == read_args(texts(args@), 1, default_args(default_model_dir@)),
{
    let ghost xs = texts(args@);
    let mut st = Args {
        transport: String::from_str("stdio"),
        port: DEFAULT_PORT,
        hook_port: None,
        db_path: None,
        model_dir: default_model_dir,
        debug: false,
    };
    let mut i: usize = 1;
    while i < args.len()
        invariant
            1 <= i,
            xs == texts(args@),
            read_args(xs, i as int, st@) == read_args(xs, 1, default_args(default_model_dir@)),
        decreases args.len() - i,
    {
        let a = args[i].as_str();
        let has_value = i + 1 < args.len();
        if same_text(a, "--transport") {
            if !has_value {
                return Ok(CliOutcome::Run(st));
            }
            st.transport = args[i + 1].clone();
            i = i + 2;
        } else if same_text(a, "--port") {
            if !has_value {
                return Ok(CliOutcome::Run(st));
            }
            match parse_port(args[i + 1].as_str()) {
                Some(p) => st.port = p,
                None => return Err(ArgError::InvalidPort(args[i + 1].clone())),
            }
            i = i + 2;
        } else if same_text(a, "--hook-port") {
            if !has_value {
                return Ok(CliOutcome::Run(st));
            }
            match parse_port(args[i + 1].as_str()) {
                Some(p) => st.hook_port = Some(p),
                None => return Err(ArgError::InvalidHookPort(args[i + 1].clone())),
            }
            i = i + 2;
        } else if same_text(a, "--db-path") {
            if !has_value {
                return Ok(CliOutcome::Run(st));
            }
            st.db_path = Some(args[i + 1].clone());
            i = i + 2;
        } else if same_text(a, "--model-dir") {
            if !has_value {
                return Ok(CliOutcome::Run(st));
            }
            st.model_dir = args[i + 1].clone();
            i = i + 2;
        } else if same_text(a, "--debug") {
            st.debug = true;
            i = i + 1;
        } else if same_text(a, "--help") || same_text(a, "-h") {
            return Ok(CliOutcome::Help);
        } else {
            return Ok(CliOutcome::Unknown(args[i].clone()));
        }
    }
    Ok(CliOutcome::Run(st))
}

} // verus!
