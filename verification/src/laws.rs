//! Properties of the message patcher, stated and proved over the same
//! specification functions that [`crate::patch_commit_msg::patch_commit_msg`]
//! is verified against.

use vstd::prelude::*;

use crate::patch_commit_msg::PatchDecision;
use crate::patch_commit_msg::spec_comment_line;
use crate::patch_commit_msg::spec_empty_line;
use crate::patch_commit_msg::spec_insert_with_separation;
use crate::patch_commit_msg::spec_key_char;
use crate::patch_commit_msg::spec_patch;
use crate::patch_commit_msg::spec_plan_from;
use crate::patch_commit_msg::spec_prepared_prefix;
use crate::patch_commit_msg::spec_recordable_line;
use crate::patch_commit_msg::spec_service_data_line;
use crate::patch_commit_msg::spec_target;
use crate::patch_commit_msg::spec_ticket_body;
use crate::patch_commit_msg::spec_ticket_number_line;
use crate::patch_commit_msg::spec_ticket_tail_char;
use crate::patch_commit_msg::spec_upper_char;

verus! {

/// A line the scan records — a service-data line or a prefixed ticket
/// identifier — always holds at least one character.
proof fn lemma_recordable_nonempty(prefix: Seq<char>, line: Seq<char>)
    requires
        spec_recordable_line(prefix, line),
    ensures
        line.len() > 0,
{
    if spec_service_data_line(line) {
        let i = choose|i: int|
            1 <= i < line.len() && line[i] == ':' && (forall|j: int|
                0 <= j < i ==> spec_key_char(line[j]));
        assert(line.len() > i);
    } else {
        assert(spec_ticket_number_line(prefix, line));
        let s = line.skip(prefix.len() as int);
        assert(spec_ticket_body(s));
        let m = choose|m: int|
            1 <= m && m + 1 < s.len() && s[m] == '-' && (forall|j: int|
                0 <= j < m ==> spec_upper_char(s[j])) && (forall|j: int|
                m < j < s.len() ==> spec_ticket_tail_char(s[j]));
        assert(s.len() > 2);
    }
}

/// Without a ticket identifier, patching is the identity on the message.
pub proof fn lemma_patch_without_ticket(lines: Seq<Seq<char>>, prefix: Option<Seq<char>>)
    ensures
        spec_patch(lines, None, prefix) == lines,
{
}

/// Blank lines and comments at the very bottom of the message, below the
/// first recordable line the scan meets, are skipped before anything is
/// recorded: scanning from `i` is scanning from `b`.
proof fn lemma_plan_skips_trailing_padding(
    lines: Seq<Seq<char>>,
    prefix: Seq<char>,
    target: Seq<char>,
    b: int,
    i: int,
)
    requires
        0 <= b <= i < lines.len(),
        forall|j: int| b < j <= i ==> spec_comment_line(lines[j]) || spec_empty_line(lines[j]),
    ensures
        spec_plan_from(lines, prefix, target, i, None) == spec_plan_from(
            lines,
            prefix,
            target,
            b,
            None,
        ),
    decreases i - b,
{
    if i > b {
        lemma_plan_skips_trailing_padding(lines, prefix, target, b, i - 1);
    }
}

/// Scanning downward through comments and recordable lines, the scan runs
/// into the line at `k` that spells the target exactly, and reports that
/// nothing is to be done.
proof fn lemma_plan_reaches_target(
    lines: Seq<Seq<char>>,
    prefix: Seq<char>,
    target: Seq<char>,
    k: int,
    i: int,
    found: Option<usize>,
)
    requires
        0 <= k <= i < lines.len(),
        lines[k] == target,
        target.len() > 0,
        !spec_comment_line(target),
        forall|j: int|
            k < j <= i ==> spec_comment_line(lines[j]) || spec_recordable_line(prefix, lines[j]),
    ensures
        spec_plan_from(lines, prefix, target, i, found) == PatchDecision::DoNothing,
    decreases i - k,
{
    let line = lines[i];
    if i == k {
        assert(!spec_empty_line(line));
    } else {
        if spec_comment_line(line) {
            lemma_plan_reaches_target(lines, prefix, target, k, i - 1, found);
        } else if line == target {
        } else {
            assert(spec_recordable_line(prefix, line));
            lemma_recordable_nonempty(prefix, line);
            lemma_plan_reaches_target(lines, prefix, target, k, i - 1, Some(i as usize));
        }
    }
}

/// When the exact `prefix + ticket` line already stands inside the final
/// trailer block — every line between it (at `k`) and the block's bottom
/// (at `b`) is a comment or a further trailer line, and below `b` only
/// comments and blank lines follow — the message is left unchanged.  The
/// formatted ticket line must itself be non-empty and no comment; a line
/// equal to it but standing above the final trailer block does not keep
/// the patch away, so the law asks for a position inside that block.
pub proof fn lemma_patch_already_present(
    lines: Seq<Seq<char>>,
    ticket: Seq<char>,
    prefix: Option<Seq<char>>,
    k: int,
    b: int,
)
    requires
        0 <= k <= b < lines.len(),
        lines[k] == spec_target(ticket, prefix),
        spec_target(ticket, prefix).len() > 0,
        !spec_comment_line(spec_target(ticket, prefix)),
        forall|j: int|
            k < j <= b ==> spec_comment_line(lines[j]) || spec_recordable_line(
                spec_prepared_prefix(prefix),
                lines[j],
            ),
        forall|j: int|
            b < j < lines.len() ==> spec_comment_line(lines[j]) || spec_empty_line(lines[j]),
    ensures
        spec_patch(lines, Some(ticket), prefix) == lines,
{
    lemma_plan_skips_trailing_padding(
        lines,
        spec_prepared_prefix(prefix),
        spec_target(ticket, prefix),
        b,
        lines.len() as int - 1,
    );
    lemma_plan_reaches_target(
        lines,
        spec_prepared_prefix(prefix),
        spec_target(ticket, prefix),
        k,
        b,
        None,
    );
}

/// Scanning a message that holds no recordable line and no line equal to
/// the target never records anything and ends in the decision to append.
proof fn lemma_plan_no_trailer(lines: Seq<Seq<char>>, prefix: Seq<char>, target: Seq<char>, i: int)
    requires
        i < lines.len(),
        forall|j: int|
            0 <= j <= i ==> !spec_recordable_line(prefix, lines[j]) && lines[j] != target,
    ensures
        spec_plan_from(lines, prefix, target, i, None) == PatchDecision::Append,
    decreases i + 1,
{
    if i >= 0 {
        let line = lines[i];
        if spec_comment_line(line) || spec_empty_line(line) {
            lemma_plan_no_trailer(lines, prefix, target, i - 1);
        }
    }
}

/// When no trailer-like line and no exact ticket line stands anywhere in
/// the message, the result is the original lines followed by one blank
/// line and the ticket line.
pub proof fn lemma_patch_appends(lines: Seq<Seq<char>>, ticket: Seq<char>, prefix: Option<Seq<char>>)
    requires
        forall|j: int|
            0 <= j < lines.len() ==> !spec_recordable_line(spec_prepared_prefix(prefix), lines[j])
                && lines[j] != spec_target(ticket, prefix),
    ensures
        spec_patch(lines, Some(ticket), prefix) == lines.push(Seq::<char>::empty()).push(
            spec_target(ticket, prefix),
        ),
{
    lemma_plan_no_trailer(
        lines,
        spec_prepared_prefix(prefix),
        spec_target(ticket, prefix),
        lines.len() as int - 1,
    );
}

/// Scanning downward through the final trailer run — recordable lines
/// interleaved with comments, none equal to the target — records its
/// topmost line `t0` and stops just above it, whatever was recorded below.
proof fn lemma_plan_run(
    lines: Seq<Seq<char>>,
    prefix: Seq<char>,
    target: Seq<char>,
    t0: int,
    i: int,
    found: Option<usize>,
)
    requires
        0 <= t0 <= i < lines.len(),
        spec_recordable_line(prefix, lines[t0]),
        !spec_comment_line(lines[t0]),
        forall|j: int|
            t0 < j <= i ==> spec_comment_line(lines[j]) || spec_recordable_line(prefix, lines[j]),
        forall|j: int| t0 <= j <= i ==> lines[j] != target,
        t0 > 0 ==> spec_empty_line(lines[t0 - 1]) || (!spec_comment_line(lines[t0 - 1])
            && !spec_recordable_line(prefix, lines[t0 - 1]) && lines[t0 - 1] != target),
    ensures
        spec_plan_from(lines, prefix, target, i, found) == PatchDecision::InsertAt(t0 as usize),
    decreases i - t0,
{
    let line = lines[i];
    if i == t0 {
        lemma_recordable_nonempty(prefix, line);
        assert(spec_plan_from(lines, prefix, target, i, found) == spec_plan_from(
            lines,
            prefix,
            target,
            t0 - 1,
            Some(t0 as usize),
        ));
    } else {
        if spec_comment_line(line) {
            lemma_plan_run(lines, prefix, target, t0, i - 1, found);
        } else {
            assert(spec_recordable_line(prefix, line));
            lemma_recordable_nonempty(prefix, line);
            lemma_plan_run(lines, prefix, target, t0, i - 1, Some(i as usize));
        }
    }
}

/// When the message ends with a contiguous run of trailer lines — from its
/// topmost line `t0` down to `b`, comments interleaved and no blank line
/// inside the run, with only comments and blank lines below `b` — and no
/// line of the run spells the target exactly, the ticket line is inserted
/// immediately before `t0`, behind one fresh blank line exactly when the
/// line just above the insertion point is non-empty.
pub proof fn lemma_patch_inserts_before_final_block(
    lines: Seq<Seq<char>>,
    ticket: Seq<char>,
    prefix: Option<Seq<char>>,
    t0: int,
    b: int,
)
    requires
        lines.len() <= usize::MAX,
        0 <= t0 <= b < lines.len(),
        spec_recordable_line(spec_prepared_prefix(prefix), lines[t0]),
        !spec_comment_line(lines[t0]),
        forall|j: int|
            t0 < j <= b ==> spec_comment_line(lines[j]) || spec_recordable_line(
                spec_prepared_prefix(prefix),
                lines[j],
            ),
        forall|j: int|
            b < j < lines.len() ==> spec_comment_line(lines[j]) || spec_empty_line(lines[j]),
        forall|j: int| t0 <= j <= b ==> lines[j] != spec_target(ticket, prefix),
        t0 > 0 ==> spec_empty_line(lines[t0 - 1]) || (!spec_comment_line(lines[t0 - 1])
            && !spec_recordable_line(spec_prepared_prefix(prefix), lines[t0 - 1]) && lines[t0 - 1]
            != spec_target(ticket, prefix)),
    ensures
        spec_patch(lines, Some(ticket), prefix) == spec_insert_with_separation(
            lines,
            t0,
            spec_target(ticket, prefix),
        ),
{
    lemma_plan_skips_trailing_padding(
        lines,
        spec_prepared_prefix(prefix),
        spec_target(ticket, prefix),
        b,
        lines.len() as int - 1,
    );
    lemma_plan_run(
        lines,
        spec_prepared_prefix(prefix),
        spec_target(ticket, prefix),
        t0,
        b,
        None,
    );
}

} // verus!
