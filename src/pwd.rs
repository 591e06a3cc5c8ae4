//! The `pwd` command: its options and what it prints.

use vstd::prelude::*;
use crate::path::views;

verus! {

/// What the arguments of `pwd` ask for.
#[derive(Clone, Copy, Debug, PartialEq, Eq, Structural)]
pub enum PwdRequest {
    /// Print the working directory; with `physical`, with symbolic links resolved.
    Print { physical: bool },
    Help,
}

#[derive(Debug)]
pub enum PwdError {
    /// An option that `pwd` does not know, as the argument that held it.
    UnknownOption(String),
    /// `pwd` takes no operands; this many arguments were given.
    TooManyArguments(usize),
    /// The working directory could not be resolved to a path free of symbolic links.
    RealpathFailed,
    /// There is no working directory to print.
    EmptyPath,
}

pub ghost enum PwdErrorView {
    UnknownOption(Seq<char>),
    TooManyArguments(nat),
    RealpathFailed,
    EmptyPath,
}

impl View for PwdError {
    type V = PwdErrorView;

    open spec fn view(&self) -> PwdErrorView {
        match self {
            PwdError::UnknownOption(a) => PwdErrorView::UnknownOption(a@),
            PwdError::TooManyArguments(n) => PwdErrorView::TooManyArguments(*n as nat),
            PwdError::RealpathFailed => PwdErrorView::RealpathFailed,
            PwdError::EmptyPath => PwdErrorView::EmptyPath,
        }
    }
}

pub ghost enum ShortScan {
    Help,
    Unknown,
    Mode(bool),
}

/// The letters of a cluster of short options from position `j` on; `physical`
/// is the mode chosen before it. `h` stops the scan.
pub open spec fn scan_short(a: Seq<char>, j: int, physical: bool) -> ShortScan
    decreases a.len() - j,
{
    if j >= a.len() {
        ShortScan::Mode(physical)
    } else if a[j] == 'h' {
        ShortScan::Help
    } else if a[j] == 'L' {
        scan_short(a, j + 1, false)
    } else if a[j] == 'P' {
        scan_short(a, j + 1, true)
    } else {
        ShortScan::Unknown
    }
}

pub open spec fn is_option(a: Seq<char>) -> bool {
    a.len() >= 2 && a[0] == '-'
}

/// Why reading the arguments stopped early: help was asked for, or an
/// argument held an unknown option.
pub ghost enum ScanStop {
    Help,
    Unknown(Seq<char>),
}

/// The outcome of reading the arguments from index `i` on: `physical` is the
/// mode chosen so far, `operands` the number of operands met, and `ended`
/// whether `--` was met. Options and operands may come in any order.
pub open spec fn scan_args(args: Seq<Seq<char>>, i: int, physical: bool, operands: nat, ended: bool) -> Result<
    (bool, nat),
    ScanStop,
>
    decreases args.len() - i,
{
    if i >= args.len() {
        Ok((physical, operands))
    } else {
        let a = args[i];
        if ended || !is_option(a) {
            scan_args(args, i + 1, physical, operands + 1, ended)
        } else if a == "--"@ {
            scan_args(args, i + 1, physical, operands, true)
        } else if a == "--help"@ {
            Err(ScanStop::Help)
        } else if a == "--logical"@ {
            scan_args(args, i + 1, false, operands, ended)
        } else if a == "--physical"@ {
            scan_args(args, i + 1, true, operands, ended)
        } else if a[1] == '-' {
            Err(ScanStop::Unknown(a))
        } else {
            match scan_short(a, 1, physical) {
                ShortScan::Help => Err(ScanStop::Help),
                ShortScan::Unknown => Err(ScanStop::Unknown(a)),
                ShortScan::Mode(p) => scan_args(args, i + 1, p, operands, ended),
            }
        }
    }
}

/// What arguments `args` (the command's name left out) ask of `pwd`: `-L` or
/// `--logical` and `-P` or `--physical` choose the mode, the last one wins;
/// `-h` or `--help` asks for help; no operand is taken.
pub open spec fn pwd_request_of(args: Seq<Seq<char>>) -> Result<PwdRequest, PwdErrorView> {
    match scan_args(args, 0, false, 0, false) {
        Err(ScanStop::Help) => Ok(PwdRequest::Help),
        Err(ScanStop::Unknown(a)) => Err(PwdErrorView::UnknownOption(a)),
        Ok((physical, operands)) => if operands > 0 {
            Err(PwdErrorView::TooManyArguments(args.len()))
        } else {
            Ok(PwdRequest::Print { physical })
        },
    }
}

pub open spec fn request_view(r: Result<PwdRequest, PwdError>) -> Result<PwdRequest, PwdErrorView> {
    match r {
        Ok(q) => Ok(q),
        Err(e) => Err(e@),
    }
}

fn equals_literal(a: &str, lit: &str) -> (r: bool)
    ensures
        r == (a@ == lit@),
{
    let n = a.unicode_len();
    if n != lit.unicode_len() {
        return false;
    }
    let mut j: usize = 0;
    while j < n
        invariant
            n == a@.len(),
            n == lit@.len(),
            j <= n,
            a@.subrange(0, j as int) == lit@.subrange(0, j as int),
        decreases n - j,
    {
        if a.get_char(j) != lit.get_char(j) {
            return false;
        }
        assert(a@.subrange(0, j + 1) =~= a@.subrange(0, j as int).push(a@[j as int]));
        assert(lit@.subrange(0, j + 1) =~= lit@.subrange(0, j as int).push(lit@[j as int]));
        j = j + 1;
    }
    assert(a@ =~= a@.subrange(0, n as int));
    assert(lit@ =~= lit@.subrange(0, n as int));
    true
}

fn scan_short_exec(a: &str, physical: bool) -> (r: Result<bool, bool>)
    requires
        a@.len() >= 1,
    ensures
        match scan_short(a@, 1, physical) {
            ShortScan::Help => r == Err::<bool, bool>(true),
            ShortScan::Unknown => r == Err::<bool, bool>(false),
            ShortScan::Mode(p) => r == Ok::<bool, bool>(p),
        },
{
    let n = a.unicode_len();
    let mut p = physical;
    let mut j: usize = 1;
    while j < n
        invariant
            n == a@.len(),
            1 <= j <= n,
            scan_short(a@, 1, physical) == scan_short(a@, j as int, p),
        decreases n - j,
    {
        let c = a.get_char(j);
        if c == 'h' {
            return Err(true);
        } else if c == 'L' {
            p = false;
        } else if c == 'P' {
            p = true;
        } else {
            return Err(false);
        }
        j = j + 1;
    }
    Ok(p)
}

/// Reads the arguments of `pwd`, its own name left out.
pub fn pwd_request(args: &Vec<String>) -> (r: Result<PwdRequest, PwdError>)
    ensures
        request_view(r) == pwd_request_of(views(args@)),
{
    let ghost v = views(args@);
    let mut physical = false;
    let mut operands: usize = 0;
    let mut ended = false;
    let mut i: usize = 0;
    while i < args.len()
        invariant
            v == views(args@),
            i <= args@.len(),
            operands <= i,
            scan_args(v, 0, false, 0, false) == scan_args(v, i as int, physical, operands as nat, ended),
        decreases args@.len() - i,
    {
        let a = args[i].as_str();
        proof {
            reveal_strlit("--");
            reveal_strlit("--help");
            reveal_strlit("--logical");
            reveal_strlit("--physical");
        }
        if ended || !(a.unicode_len() >= 2 && a.get_char(0) == '-') {
            operands = operands + 1;
        } else if equals_literal(a, "--") {
            ended = true;
        } else if equals_literal(a, "--help") {
            return Ok(PwdRequest::Help);
        } else if equals_literal(a, "--logical") {
            physical = false;
        } else if equals_literal(a, "--physical") {
            physical = true;
        } else if a.get_char(1) == '-' {
            return Err(PwdError::UnknownOption(args[i].clone()));
        } else {
            match scan_short_exec(a, physical) {
                Err(true) => {
                    return Ok(PwdRequest::Help);
                },
                Err(false) => {
                    return Err(PwdError::UnknownOption(args[i].clone()));
                },
                Ok(p) => {
                    physical = p;
                },
            }
        }
        i = i + 1;
    }
    if operands > 0 {
        return Err(PwdError::TooManyArguments(args.len()));
    }
    Ok(PwdRequest::Print { physical })
}

/// What `pwd` prints: the working-directory variable `stored`, or, when
/// `physical`, the path `resolved` free of symbolic links that it stands for, where it
/// could be resolved. Nothing to print is an error.
pub open spec fn pwd_output(stored: Seq<char>, physical: bool, resolved: Option<Seq<char>>) -> Result<Seq<char>, PwdErrorView> {
    let out = if physical {
        resolved
    } else {
        Some(stored)
    };
    match out {
        None => Err(PwdErrorView::RealpathFailed),
        Some(p) => if p.len() == 0 {
            Err(PwdErrorView::EmptyPath)
        } else {
            Ok(p)
        },
    }
}

pub open spec fn output_view(r: Result<String, PwdError>) -> Result<Seq<char>, PwdErrorView> {
    match r {
        Ok(s) => Ok(s@),
        Err(e) => Err(e@),
    }
}

/// The text that `pwd` prints; `resolved` is what the caller resolved the
/// variable `stored` to, asked for only when `physical`.
pub fn pwd(stored: &str, physical: bool, resolved: Option<String>) -> (r: Result<String, PwdError>)
    ensures
        output_view(r) == pwd_output(stored@, physical, match resolved {
            Some(p) => Some(p@),
            None => None,
        }),
{
    let out = if physical {
        match resolved {
            Some(p) => p,
            None => {
                return Err(PwdError::RealpathFailed);
            },
        }
    } else {
        String::from_str(stored)
    };
    if out.as_str().unicode_len() == 0 {
        return Err(PwdError::EmptyPath);
    }
    Ok(out)
}

} // verus!
