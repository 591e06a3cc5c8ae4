//! The text reported for each way a `cd` invocation can fail.

use vstd::prelude::*;
use crate::failure::{CdError, CdErrorView};

verus! {

/// The message for `e`, from command `cmd` with argument `input`; `os_text` is
/// the system's description of an unknown failure code.
pub open spec fn message_text(
    cmd: Seq<char>,
    input: Seq<char>,
    e: CdErrorView,
    os_text: Seq<char>,
) -> Seq<char> {
    match e {
        CdErrorView::NoHomeDirectory => cmd + ": Could not find home directory"@,
        CdErrorView::EmptyPathRejected => cmd + ": Empty directory '"@ + input + "' does not exist"@,
        CdErrorView::NoCandidateResolved => cmd + ": The directory '"@ + input + "' does not exist"@,
        CdErrorView::NotADirectory => cmd + ": '"@ + input + "' is not a directory"@,
        CdErrorView::BrokenSymlink { path, target } => cmd + ": '"@ + path
            + "' is a broken symbolic link to '"@ + target + "'"@,
        CdErrorView::TooManySymlinks => cmd + ": Too many levels of symbolic links: '"@ + input + "'"@,
        CdErrorView::NotFound => cmd + ": The directory '"@ + input + "' does not exist"@,
        CdErrorView::PermissionDenied => cmd + ": Permission denied: '"@ + input + "'"@,
        CdErrorView::UnknownOsError(_) => cmd + ": "@ + os_text + "\n"@ + cmd
            + ": Unknown error trying to locate directory '"@ + input + "'"@,
    }
}

/// Relies on errno's `Display` for `Errno`: the system's description of a
/// failure code. It depends on the locale, so nothing is stated of it.
#[verifier::external_body]
fn os_error_text(code: i32) -> (r: String) {
    errno::Errno(code).to_string()
}

fn concat3(a: &str, b: &str, c: &str) -> (r: String)
    ensures
        r@ == a@ + b@ + c@,
{
    let mut r = String::from_str(a);
    r.append(b);
    r.append(c);
    r
}

/// The message for `e` with the system's description `os_text` of the code of
/// an unknown failure.
pub fn render_message(cmd: &str, input: &str, e: &CdError, os_text: &str) -> (r: String)
    ensures
        r@ == message_text(cmd@, input@, e@, os_text@),
{
    let mut r = String::from_str(cmd);
    match e {
        CdError::NoHomeDirectory => {
            r.append(": Could not find home directory");
        },
        CdError::EmptyPathRejected => {
            r.append(concat3(": Empty directory '", input, "' does not exist").as_str());
        },
        CdError::NoCandidateResolved | CdError::NotFound => {
            r.append(concat3(": The directory '", input, "' does not exist").as_str());
        },
        CdError::NotADirectory => {
            r.append(concat3(": '", input, "' is not a directory").as_str());
        },
        CdError::BrokenSymlink { path, target } => {
            r.append(concat3(": '", path.as_str(), "' is a broken symbolic link to '").as_str());
            r.append(concat3("", target.as_str(), "'").as_str());
            proof {
                reveal_strlit("");
                assert(""@ + target@ + "'"@ =~= target@ + "'"@);
            }
        },
        CdError::TooManySymlinks => {
            r.append(concat3(": Too many levels of symbolic links: '", input, "'").as_str());
        },
        CdError::PermissionDenied => {
            r.append(concat3(": Permission denied: '", input, "'").as_str());
        },
        CdError::UnknownOsError(_) => {
            r.append(concat3(": ", os_text, "\n").as_str());
            r.append(cmd);
            r.append(concat3(": Unknown error trying to locate directory '", input, "'").as_str());
        },
    }
    proof {
        assert(r@ =~= message_text(cmd@, input@, e@, os_text@));
    }
    r
}

/// The message to report for `e`, from command `cmd` with argument `input`.
pub fn error_message(cmd: &str, input: &str, e: &CdError) -> (r: String)
    ensures
        !(e is UnknownOsError) ==> r@ == message_text(cmd@, input@, e@, Seq::empty()),
        e is UnknownOsError ==> exists|t: Seq<char>| r@ == message_text(cmd@, input@, e@, t),
{
    match e {
        CdError::UnknownOsError(code) => {
            let text = os_error_text(*code);
            render_message(cmd, input, e, text.as_str())
        },
        _ => render_message(cmd, input, e, ""),
    }
}

} // verus!
