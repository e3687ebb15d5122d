use vstd::prelude::*;
use vstd::utf8::{decode_utf8, valid_utf8};

use crate::error::{CreateStep, WFError, WFErrorView};
use crate::text::{contains, contains_str, trim, trim_str, utf8_text};

verus! {

/// What a command is run for; it decides what output reports success.
#[derive(Clone, Copy, Debug, PartialEq, Eq, Structural)]
pub enum Category {
    Connect,
    Disconnect,
    Rescan,
    List,
    Create(CreateStep),
    Up,
    Down,
}

/// How a run of the network manager ended.
#[derive(Debug)]
pub enum Outcome {
    /// It could not be started or waited for.
    LaunchFailed,
    /// It ran to completion and wrote these bytes.
    Finished { stdout: Vec<u8>, stderr: Vec<u8> },
}

/// The phrase whose presence in the output reports success, for the categories
/// that have one.
pub open spec fn success_phrase(c: Category) -> Option<Seq<char>> {
    match c {
        Category::Connect => Some("successfully activated"@),
        Category::Disconnect => Some("successfully disconnected"@),
        Category::Create(CreateStep::Add) => Some("successfully added"@),
        Category::Up => Some("Connection successfully activated"@),
        Category::Down => Some("successfully deactivated"@),
        _ => None,
    }
}

/// Whether the trimmed output `out` reports success for `c`: it holds the
/// phrase of `c`; for a listing anything goes; else it must be empty.
pub open spec fn accepts(c: Category, out: Seq<char>) -> bool {
    match success_phrase(c) {
        Some(p) => contains(out, p),
        None => c == Category::List || out.len() == 0,
    }
}

/// The error for output `out` that does not report success for `c`.
pub open spec fn unexpected(c: Category, out: Seq<char>) -> WFErrorView {
    match c {
        Category::Create(step) => WFErrorView::HotspotCreate(step, out),
        _ => WFErrorView::WifiAction(out),
    }
}

/// The verdict on a run: the trimmed output on success, else the error.
/// Diagnostics on standard error decide first, whatever standard output holds.
pub open spec fn verdict(c: Category, o: Outcome) -> Result<Seq<char>, WFErrorView> {
    match o {
        Outcome::LaunchFailed => Err(WFErrorView::CommandIO),
        Outcome::Finished { stdout, stderr } => {
            if stderr@.len() > 0 {
                if valid_utf8(stderr@) {
                    Err(WFErrorView::CommandErr(decode_utf8(stderr@)))
                } else {
                    Err(WFErrorView::CommandParse)
                }
            } else if !valid_utf8(stdout@) {
                Err(WFErrorView::CommandParse)
            } else {
                let out = trim(decode_utf8(stdout@));
                if accepts(c, out) {
                    Ok(out)
                } else {
                    Err(unexpected(c, out))
                }
            }
        },
    }
}

pub open spec fn result_view(r: Result<String, WFError>) -> Result<Seq<char>, WFErrorView> {
    match r {
        Ok(s) => Ok(s@),
        Err(e) => Err(e@),
    }
}

fn phrase(c: Category) -> (r: Option<&'static str>)
    ensures
        match r {
            Some(p) => success_phrase(c) == Some(p@),
            None => success_phrase(c) is None,
        },
{
    match c {
        Category::Connect => Some("successfully activated"),
        Category::Disconnect => Some("successfully disconnected"),
        Category::Create(CreateStep::Add) => Some("successfully added"),
        Category::Up => Some("Connection successfully activated"),
        Category::Down => Some("successfully deactivated"),
        _ => None,
    }
}

/// Whether the trimmed output `out` reports success for `c`.
pub fn accepts_output(c: Category, out: &str) -> (r: bool)
    ensures
        r == accepts(c, out@),
{
    match phrase(c) {
        Some(p) => contains_str(out, p),
        None => c == Category::List || out.unicode_len() == 0,
    }
}

/// Decides whether a run succeeded for `c`: the trimmed output if so, else the error.
pub fn classify(c: Category, o: Outcome) -> (r: Result<String, WFError>)
    ensures
        result_view(r) == verdict(c, o),
{
    let ghost o0 = o;
    match o {
        Outcome::LaunchFailed => Err(WFError::CommandIO),
        Outcome::Finished { stdout, stderr } => {
            if stderr.len() > 0 {
                match utf8_text(stderr) {
                    Some(m) => Err(WFError::CommandErr(m)),
                    None => Err(WFError::CommandParse),
                }
            } else {
                match utf8_text(stdout) {
                    None => Err(WFError::CommandParse),
                    Some(text) => {
                        let out = trim_str(text.as_str());
                        if accepts_output(c, out.as_str()) {
                            Ok(out)
                        } else {
                            match c {
                                Category::Create(step) => Err(WFError::HotspotCreate(step, out)),
                                _ => Err(WFError::WifiAction(out)),
                            }
                        }
                    },
                }
            }
        },
    }
}

/// Diagnostics on standard error make a run fail, whatever standard output
/// holds and whatever the run was for.
pub proof fn lemma_diagnostics_win(c: Category, stdout: Vec<u8>, stderr: Vec<u8>)
    requires
        stderr@.len() > 0,
        valid_utf8(stderr@),
    ensures
        verdict(c, Outcome::Finished { stdout, stderr }) == Err::<Seq<char>, WFErrorView>(
            WFErrorView::CommandErr(decode_utf8(stderr@)),
        ),
{
}

/// Without diagnostics, a run whose category has a success phrase succeeds
/// exactly when its trimmed output holds that phrase, letter for letter.
pub proof fn lemma_phrase_decides(c: Category, stdout: Vec<u8>, stderr: Vec<u8>)
    requires
        stderr@.len() == 0,
        valid_utf8(stdout@),
        success_phrase(c) is Some,
    ensures
        verdict(c, Outcome::Finished { stdout, stderr }) is Ok <==> contains(
            trim(decode_utf8(stdout@)),
            success_phrase(c)->0,
        ),
{
}

} // verus!
