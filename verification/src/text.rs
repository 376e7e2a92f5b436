//! The texts that the bot posts and writes into commits.

use crate::config::RepoConfig;
use crate::state::{latest_result, results_of, BuildResult, BuildResultView, Conclusion};
use vstd::prelude::*;

verus! {

/// Whether two texts are the same, character by character. Both are
/// copied for it: equality is known of owned strings only.
pub fn same_text(a: &str, b: &str) -> (r: bool)
    ensures
        r == (a@ == b@),
{
    String::from_str(a) == String::from_str(b)
}

/// The digit `d`, for `d` from 0 to 9.
pub open spec fn digit_text(d: int) -> Seq<char> {
    if d == 0 {
        "0"@
    } else if d == 1 {
        "1"@
    } else if d == 2 {
        "2"@
    } else if d == 3 {
        "3"@
    } else if d == 4 {
        "4"@
    } else if d == 5 {
        "5"@
    } else if d == 6 {
        "6"@
    } else if d == 7 {
        "7"@
    } else if d == 8 {
        "8"@
    } else {
        "9"@
    }
}

/// `n` in decimal digits, without leading zeros.
pub open spec fn decimal_text(n: nat) -> Seq<char>
    decreases n,
{
    if n < 10 {
        digit_text(n as int)
    } else {
        decimal_text(n / 10) + digit_text((n % 10) as int)
    }
}

fn digit(d: u64) -> (r: &'static str)
    requires
        d < 10,
    ensures
        r@ == digit_text(d as int),
{
    if d == 0 {
        "0"
    } else if d == 1 {
        "1"
    } else if d == 2 {
        "2"
    } else if d == 3 {
        "3"
    } else if d == 4 {
        "4"
    } else if d == 5 {
        "5"
    } else if d == 6 {
        "6"
    } else if d == 7 {
        "7"
    } else if d == 8 {
        "8"
    } else {
        "9"
    }
}

/// `n` in decimal digits.
pub fn decimal(n: u64) -> (r: String)
    ensures
        r@ == decimal_text(n as nat),
    decreases n,
{
    if n < 10 {
        String::from_str(digit(n))
    } else {
        let mut s = decimal(n / 10);
        s.append(digit(n % 10));
        s
    }
}

/// The first seven characters of a commit id, or all of a shorter one.
pub open spec fn short_text(oid: Seq<char>) -> Seq<char> {
    if oid.len() > 7 {
        oid.subrange(0, 7)
    } else {
        oid
    }
}

pub fn short_oid(oid: &str) -> (r: &str)
    ensures
        r@ == short_text(oid@),
{
    if oid.unicode_len() > 7 {
        oid.substring_char(0, 7)
    } else {
        oid
    }
}

/// What the author of a fork is told where maintainers cannot edit.
pub open spec fn maintainer_edits_text() -> Seq<char> {
    ":exclamation: before this PR can be merged please make sure that you enable [\"Allow edits from maintainers\"](https://help.github.com/en/github/collaborating-with-issues-and-pull-requests/allowing-changes-to-a-pull-request-branch-created-from-a-fork).\n\nThis is needed for tooling to be able to update this PR in-place so that Github can properly recognize and mark it as merged once its merged into the upstream branch"@
}

pub fn maintainer_edits() -> (r: String)
    ensures
        r@ == maintainer_edits_text(),
{
    String::from_str(
        ":exclamation: before this PR can be merged please make sure that you enable [\"Allow edits from maintainers\"](https://help.github.com/en/github/collaborating-with-issues-and-pull-requests/allowing-changes-to-a-pull-request-branch-created-from-a-fork).\n\nThis is needed for tooling to be able to update this PR in-place so that Github can properly recognize and mark it as merged once its merged into the upstream branch",
    )
}

/// The list of commands.
pub open spec fn help_text() -> Seq<char> {
    "Commands:\n- `r+`, `approve`: approve the pull request and queue it\n- `r-`: withdraw the approval\n- `retry`: queue the pull request again after a failed test\n- `try`: test without merging\n- `p=<int>`: set the priority\n- `cancel`: stop the running test\n- `ping`: check that the bot is alive\n- `help`: show this text\n"@
}

pub fn help() -> (r: String)
    ensures
        r@ == help_text(),
{
    String::from_str(
        "Commands:\n- `r+`, `approve`: approve the pull request and queue it\n- `r-`: withdraw the approval\n- `retry`: queue the pull request again after a failed test\n- `try`: test without merging\n- `p=<int>`: set the priority\n- `cancel`: stop the running test\n- `ping`: check that the bot is alive\n- `help`: show this text\n",
    )
}

/// The answer to a comment that addresses the bot with no valid command.
pub open spec fn invalid_command_text() -> Seq<char> {
    ":exclamation: Invalid command\n\n"@ + help_text()
}

pub fn invalid_command() -> (r: String)
    ensures
        r@ == invalid_command_text(),
{
    let mut s = String::from_str(":exclamation: Invalid command\n\n");
    s.append(help().as_str());
    s
}

/// The answer to a command on a pull request that is not open.
pub open spec fn closed_text(sender: Seq<char>) -> Seq<char> {
    "@"@ + sender + " :exclamation: Unable to run the provided command on a closed PR"@
}

pub fn closed(sender: &str) -> (r: String)
    ensures
        r@ == closed_text(sender@),
{
    let mut s = String::from_str("@");
    s.append(sender);
    s.append(" :exclamation: Unable to run the provided command on a closed PR");
    s
}

/// The answer to `ping`.
pub open spec fn pong_text() -> Seq<char> {
    ":heartbeat: pong"@
}

pub fn pong() -> (r: String)
    ensures
        r@ == pong_text(),
{
    String::from_str(":heartbeat: pong")
}

/// The note that the merge commit `oid` is under test.
pub open spec fn testing_text(oid: Seq<char>) -> Seq<char> {
    "Testing "@ + short_text(oid)
}

pub fn testing(oid: &str) -> (r: String)
    ensures
        r@ == testing_text(oid@),
{
    let mut s = String::from_str("Testing ");
    s.append(short_oid(oid));
    s
}

/// The note to the author that the merge did not go through.
pub open spec fn conflict_text(author: Seq<char>) -> Seq<char> {
    "@"@ + author + " :lock: Merge conflict"@
}

pub fn conflict(author: &str) -> (r: String)
    ensures
        r@ == conflict_text(author@),
{
    let mut s = String::from_str("@");
    s.append(author);
    s.append(" :lock: Merge conflict");
    s
}

/// The note that the forge refused the merge, with its reason.
pub open spec fn merge_failed_text(error: Seq<char>) -> Seq<char> {
    ":boom: Merge failed: "@ + error
}

pub fn merge_failed(error: &str) -> (r: String)
    ensures
        r@ == merge_failed_text(error@),
{
    let mut s = String::from_str(":boom: Merge failed: ");
    s.append(error);
    s
}

/// The message of the commit that merges pull request `number`.
pub open spec fn merge_message_text(number: u64, title: Seq<char>) -> Seq<char> {
    "Merge pull request #"@ + decimal_text(number as nat) + "\n\n"@ + title
}

pub fn merge_message(number: u64, title: &str) -> (r: String)
    ensures
        r@ == merge_message_text(number, title@),
{
    let mut s = String::from_str("Merge pull request #");
    s.append(decimal(number).as_str());
    s.append("\n\n");
    s.append(title);
    s
}

/// How a conclusion reads in a report.
pub open spec fn conclusion_text(c: Conclusion) -> Seq<char> {
    match c {
        Conclusion::Success => "success"@,
        Conclusion::Failure => "failure"@,
        Conclusion::Neutral => "neutral"@,
        Conclusion::Cancelled => "cancelled"@,
        Conclusion::TimedOut => "timed out"@,
        Conclusion::ActionRequired => "action required"@,
        Conclusion::Skipped => "skipped"@,
    }
}

fn conclusion_word(c: Conclusion) -> (r: &'static str)
    ensures
        r@ == conclusion_text(c),
{
    match c {
        Conclusion::Success => "success",
        Conclusion::Failure => "failure",
        Conclusion::Neutral => "neutral",
        Conclusion::Cancelled => "cancelled",
        Conclusion::TimedOut => "timed out",
        Conclusion::ActionRequired => "action required",
        Conclusion::Skipped => "skipped",
    }
}

/// One line of a test report: the check, how it stands, and for a check
/// that did not succeed the page that shows why.
pub open spec fn report_line(name: Seq<char>, results: Map<Seq<char>, BuildResultView>) -> Seq<char> {
    if !results.contains_key(name) {
        "- "@ + name + ": pending\n"@
    } else if results[name].conclusion == Conclusion::Success {
        "- "@ + name + ": success\n"@
    } else {
        "- "@ + name + ": "@ + conclusion_text(results[name].conclusion) + " "@ + results[name].url
            + "\n"@
    }
}

/// The lines for the first `k` of the checks `required`.
pub open spec fn report_lines(
    required: Seq<Seq<char>>,
    results: Map<Seq<char>, BuildResultView>,
    k: nat,
) -> Seq<char>
    decreases k,
{
    if k == 0 {
        Seq::empty()
    } else {
        report_lines(required, results, (k - 1) as nat) + report_line(
            required[k - 1],
            results,
        )
    }
}

/// The report on a test that failed.
pub open spec fn failed_text(
    required: Seq<Seq<char>>,
    results: Map<Seq<char>, BuildResultView>,
) -> Seq<char> {
    ":broken_heart: Test failed\n\n"@ + report_lines(required, results, required.len())
}

/// The report on a test that ran out of time.
pub open spec fn timed_out_text(
    required: Seq<Seq<char>>,
    results: Map<Seq<char>, BuildResultView>,
) -> Seq<char> {
    ":boom: Test timed out\n\n"@ + report_lines(required, results, required.len())
}

/// Appends the report on every required check to `s`.
fn append_report(s: &mut String, config: &RepoConfig, results: &Vec<BuildResult>)
    ensures
        final(s)@ == old(s)@ + report_lines(
            config.required_checks(),
            results_of(results@),
            config.required_checks().len(),
        ),
{
    let names = config.checks();
    let ghost required = config.required_checks();
    let ghost found = results_of(results@);
    let mut i: usize = 0;
    assert(s@ =~= old(s)@ + report_lines(required, found, 0));
    while i < names.len()
        invariant
            i <= names.len(),
            names@.len() == required.len(),
            forall|k: int| 0 <= k < names@.len() ==> names@[k]@ == #[trigger] required[k],
            found == results_of(results@),
            s@ == old(s)@ + report_lines(required, found, i as nat),
        decreases names.len() - i,
    {
        let ghost before = s@;
        let name = names[i];
        assert(name@ == required[i as int]);
        s.append("- ");
        s.append(name);
        match latest_result(results, name) {
            None => {
                s.append(": pending\n");
            },
            Some(result) => {
                match result.conclusion {
                    Conclusion::Success => {
                        s.append(": success\n");
                    },
                    _ => {
                        s.append(": ");
                        s.append(conclusion_word(result.conclusion));
                        s.append(" ");
                        s.append(result.url.as_str());
                        s.append("\n");
                    },
                }
            },
        }
        assert(s@ =~= before + report_line(required[i as int], found));
        assert(s@ =~= old(s)@ + report_lines(required, found, (i + 1) as nat));
        i = i + 1;
    }
}

pub fn failed(config: &RepoConfig, results: &Vec<BuildResult>) -> (r: String)
    ensures
        r@ == failed_text(config.required_checks(), results_of(results@)),
{
    let mut s = String::from_str(":broken_heart: Test failed\n\n");
    append_report(&mut s, config, results);
    s
}

pub fn timed_out(config: &RepoConfig, results: &Vec<BuildResult>) -> (r: String)
    ensures
        r@ == timed_out_text(config.required_checks(), results_of(results@)),
{
    let mut s = String::from_str(":boom: Test timed out\n\n");
    append_report(&mut s, config, results);
    s
}

} // verus!
