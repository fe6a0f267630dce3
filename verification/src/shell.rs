//! Commands of the speaker's shell.
use vstd::prelude::*;
use crate::native;
use crate::text;

verus! {

/// What a command came to.
#[derive(Debug)]
pub struct CommandResult {
    pub stdout: String,
    pub stderr: String,
    pub exit_code: i32,
}

/// What a command came to, from what it wrote and the code that it ended with; a
/// command that was killed has none.
pub fn command_result(stdout: &[u8], stderr: &[u8], code: Option<i32>) -> (r: CommandResult)
    ensures
        r.stdout@ == native::lossy_text(stdout@),
        r.stderr@ == native::lossy_text(stderr@),
        r.exit_code == match code {
            Some(code) => code,
            None => -1i32,
        },
{
    CommandResult {
        stdout: native::text_lossy(stdout),
        stderr: native::text_lossy(stderr),
        exit_code: match code {
            Some(code) => code,
            None => -1,
        },
    }
}

/// The message for a command that failed.
pub open spec fn failure_text(what: Seq<char>, result: CommandResult) -> Seq<char> {
    what + " exit="@ + text::signed_decimal(result.exit_code as int) + " stderr="@ + text::trimmed(
        result.stderr@,
    )
}

/// Whether a command succeeded; otherwise the message says `what` failed.
pub fn check_command(result: &CommandResult, what: &str) -> (r: Result<(), String>)
    ensures
        r is Ok <==> result.exit_code == 0,
        r matches Err(e) ==> e@ == failure_text(what@, *result),
{
    if result.exit_code == 0 {
        return Ok(());
    }
    let mut out: String = what.to_owned();
    out.append(" exit=");
    out.append(text::signed_text(result.exit_code as i64).as_str());
    out.append(" stderr=");
    out.append(text::trim(result.stderr.as_str()).as_str());
    Err(out)
}

/// Text as one word of the shell.
pub uninterp spec fn shell_quoted(s: Seq<char>) -> Seq<char>;

/// `shell_words::quote`: a function of the text.
#[verifier::external_body]
pub(crate) fn quote(s: &str) -> (r: String)
    ensures
        r@ == shell_quoted(s@),
{
    shell_words::quote(s).into_owned()
}

// ----------------------------------------------------------------------- laws

/// A command that failed is reported under its name, with the code that it ended with
/// and with what it complained of; white space around the complaint does not matter.
pub proof fn law_failures_are_reported(what: Seq<char>, result: CommandResult)
    ensures
        ({
            let told = failure_text(what, result);
            let code = " exit="@ + text::signed_decimal(result.exit_code as int) + " stderr="@;
            &&& text::has_prefix(told, what)
            &&& text::contains_text(told, code)
            &&& text::has_suffix(told, text::trimmed(result.stderr@))
            &&& told.len() == what.len() + code.len() + text::trimmed(result.stderr@).len()
        }),
{
    let told = failure_text(what, result);
    let code = " exit="@ + text::signed_decimal(result.exit_code as int) + " stderr="@;
    let complaint = text::trimmed(result.stderr@);
    assert(told =~= (what + code) + complaint);
    assert(told.take(what.len() as int) =~= what);
    text::law_where_texts_stand(told, code, Seq::empty());
    text::law_where_texts_stand(told, complaint, Seq::empty());
}

} // verus!
