//! The message patcher: classify the lines of a commit message, find the
//! final service-data (trailer) block, and place a prefixed ticket line.

use vstd::prelude::*;

verus! {

// ---------------------------------------------------------------------------
// Line classification, stated over character sequences.
// ---------------------------------------------------------------------------

/// A character allowed in the key of a service-data line: a letter, a digit,
/// an underscore or a hyphen.
pub open spec fn spec_key_char(c: char) -> bool {
    ('A' <= c && c <= 'Z') || ('a' <= c && c <= 'z') || ('0' <= c && c <= '9') || c == '_' || c
        == '-'
}

/// An empty line.
pub open spec fn spec_empty_line(line: Seq<char>) -> bool {
    line.len() == 0
}

/// A comment line: it starts with `#`.
pub open spec fn spec_comment_line(line: Seq<char>) -> bool {
    line.len() > 0 && line[0] == '#'
}

/// A service-data (trailer) line: one or more key characters, then a colon,
/// then arbitrary content.
pub open spec fn spec_service_data_line(line: Seq<char>) -> bool {
    exists|i: int|
        1 <= i < line.len() && line[i] == ':' && (forall|j: int|
            0 <= j < i ==> spec_key_char(line[j]))
}

/// An uppercase ASCII letter.
pub open spec fn spec_upper_char(c: char) -> bool {
    'A' <= c && c <= 'Z'
}

/// A character allowed after the dash of a ticket identifier: a digit or a
/// further hyphen.
pub open spec fn spec_ticket_tail_char(c: char) -> bool {
    ('0' <= c && c <= '9') || c == '-'
}

/// The shape of a bare ticket identifier: one or more uppercase letters, a
/// hyphen, then one or more digits or hyphens.
pub open spec fn spec_ticket_body(s: Seq<char>) -> bool {
    exists|m: int|
        1 <= m && m + 1 < s.len() && s[m] == '-' && (forall|j: int|
            0 <= j < m ==> spec_upper_char(s[j])) && (forall|j: int|
            m < j < s.len() ==> spec_ticket_tail_char(s[j]))
}

/// A line that spells the given prefix followed by a bare ticket identifier
/// and nothing else.
pub open spec fn spec_ticket_number_line(prefix: Seq<char>, line: Seq<char>) -> bool {
    &&& prefix.len() <= line.len()
    &&& line.subrange(0, prefix.len() as int) == prefix
    &&& spec_ticket_body(line.skip(prefix.len() as int))
}

/// A carriage return or a line feed.
pub open spec fn spec_crlf_char(c: char) -> bool {
    c == '\r' || c == '\n'
}

/// `s` with every trailing carriage return and line feed removed; all other
/// content, internal whitespace included, is preserved.
pub open spec fn spec_strip_trailing_crlf(s: Seq<char>) -> Seq<char>
    decreases s.len(),
{
    if s.len() > 0 && spec_crlf_char(s[s.len() - 1]) {
        spec_strip_trailing_crlf(s.drop_last())
    } else {
        s
    }
}

// ---------------------------------------------------------------------------
// The insertion planner, stated over sequences of lines.
// ---------------------------------------------------------------------------

/// What the patcher is to do with the message: leave it alone, insert the
/// ticket line at the given index, or append it at the end.
#[derive(Clone, Copy, PartialEq, Eq, Structural, Debug)]
pub enum PatchDecision {
    DoNothing,
    InsertAt(usize),
    Append,
}

/// The decision once the scan has stopped: insert before the topmost trailer
/// line found, or append when none was.
pub open spec fn spec_decide(found: Option<usize>) -> PatchDecision {
    match found {
        None => PatchDecision::Append,
        Some(k) => PatchDecision::InsertAt(k),
    }
}

/// A line the scan records as part of the trailer block: a service-data
/// line, or a line spelling the prefix and a bare ticket identifier.
pub open spec fn spec_recordable_line(prefix: Seq<char>, line: Seq<char>) -> bool {
    spec_service_data_line(line) || spec_ticket_number_line(prefix, line)
}

/// One step of the bottom-up scan, looking at line `i` with `found` holding
/// the topmost trailer index recorded so far.  Comments are transparent; a
/// blank line bounds the trailer block once a trailer has been seen; a line
/// exactly equal to `target` stops everything; a service-data or
/// ticket-number line is recorded and the scan goes on upward; any other
/// line ends the scan.
pub open spec fn spec_plan_from(
    lines: Seq<Seq<char>>,
    prefix: Seq<char>,
    target: Seq<char>,
    i: int,
    found: Option<usize>,
) -> PatchDecision
    decreases i + 1,
{
    if i < 0 {
        spec_decide(found)
    } else {
        let line = lines[i];
        if spec_comment_line(line) {
            spec_plan_from(lines, prefix, target, i - 1, found)
        } else if spec_empty_line(line) {
            if found is Some {
                spec_decide(found)
            } else {
                spec_plan_from(lines, prefix, target, i - 1, found)
            }
        } else if line == target {
            PatchDecision::DoNothing
        } else if spec_recordable_line(prefix, line) {
            spec_plan_from(lines, prefix, target, i - 1, Some(i as usize))
        } else {
            spec_decide(found)
        }
    }
}

/// The planner's decision for a whole message: scan from the last line up.
pub open spec fn spec_plan(lines: Seq<Seq<char>>, prefix: Seq<char>, target: Seq<char>) -> PatchDecision {
    spec_plan_from(lines, prefix, target, lines.len() as int - 1, None)
}

/// `target` placed at index `i`, preceded by one fresh blank line whenever
/// the line just above the insertion point is non-empty.
pub open spec fn spec_insert_with_separation(
    lines: Seq<Seq<char>>,
    i: int,
    target: Seq<char>,
) -> Seq<Seq<char>>
    recommends
        0 <= i <= lines.len(),
{
    if i > 0 && lines[i - 1].len() != 0 {
        lines.insert(i, target).insert(i, Seq::<char>::empty())
    } else {
        lines.insert(i, target)
    }
}

/// The prefix as it is actually used: absent means empty, and trailing
/// carriage returns and line feeds are stripped.
pub open spec fn spec_prepared_prefix(prefix: Option<Seq<char>>) -> Seq<char> {
    spec_strip_trailing_crlf(
        match prefix {
            None => Seq::<char>::empty(),
            Some(pr) => pr,
        },
    )
}

/// The fully formatted line the patcher wants the message to carry: the
/// prepared prefix followed by the ticket identifier.
pub open spec fn spec_target(ticket: Seq<char>, prefix: Option<Seq<char>>) -> Seq<char> {
    spec_prepared_prefix(prefix) + ticket
}

/// The whole patch operation over a message's lines.  Without a ticket the
/// message is left exactly as it was; otherwise the normalized prefix and
/// the ticket form the target line, and the planner's decision is carried
/// out.
pub open spec fn spec_patch(
    lines: Seq<Seq<char>>,
    ticket: Option<Seq<char>>,
    prefix: Option<Seq<char>>,
) -> Seq<Seq<char>> {
    match ticket {
        None => lines,
        Some(t) => {
            let p = spec_prepared_prefix(prefix);
            let target = spec_target(t, prefix);
            match spec_plan(lines, p, target) {
                PatchDecision::DoNothing => lines,
                PatchDecision::InsertAt(k) => spec_insert_with_separation(lines, k as int, target),
                PatchDecision::Append => lines.push(Seq::<char>::empty()).push(target),
            }
        },
    }
}

/// An insertion index reported by the scan always points at a line of the
/// message.
proof fn lemma_plan_from_bound(
    lines: Seq<Seq<char>>,
    prefix: Seq<char>,
    target: Seq<char>,
    i: int,
    found: Option<usize>,
)
    requires
        i < lines.len(),
        found matches Some(k) ==> k < lines.len(),
    ensures
        spec_plan_from(lines, prefix, target, i, found) matches PatchDecision::InsertAt(k)
            ==> k < lines.len(),
    decreases i + 1,
{
    if i >= 0 {
        let line = lines[i];
        if spec_comment_line(line) {
            lemma_plan_from_bound(lines, prefix, target, i - 1, found);
        } else if spec_empty_line(line) {
            if found is None {
                lemma_plan_from_bound(lines, prefix, target, i - 1, found);
            }
        } else if line == target {
        } else if spec_recordable_line(prefix, line) {
            lemma_plan_from_bound(lines, prefix, target, i - 1, Some(i as usize));
        }
    }
}

// ---------------------------------------------------------------------------
// The executable line classifier.
// ---------------------------------------------------------------------------

/// Classifies single lines of a commit message against a fixed ticket prefix.
pub struct LineDetector {
    pub prefix: String,
}

impl LineDetector {
    pub fn new(prefix: &str) -> (r: LineDetector)
        ensures
            r.prefix@ == prefix@,
    {
        LineDetector { prefix: prefix.to_owned() }
    }

    pub fn is_empty_line(&self, line: &str) -> (r: bool)
        ensures
            r == spec_empty_line(line@),
    {
        line.is_empty()
    }

    pub fn is_comment_line(&self, line: &str) -> (r: bool)
        ensures
            r == spec_comment_line(line@),
    {
        if line.is_empty() {
            false
        } else {
            line.get_char(0) == '#'
        }
    }

    pub fn is_service_data_line(&self, line: &str) -> (r: bool)
        ensures
            r == spec_service_data_line(line@),
    {
        let len = line.unicode_len();
        let mut i: usize = 0;
        while i < len && is_key_char(line.get_char(i))
            invariant
                0 <= i <= len,
                len == line@.len(),
                forall|j: int| 0 <= j < i ==> spec_key_char(line@[j]),
            decreases len - i,
        {
            i = i + 1;
        }
        if i >= 1 && i < len && line.get_char(i) == ':' {
            assert(spec_service_data_line(line@));
            true
        } else {
            assert(!spec_service_data_line(line@)) by {
                if exists|k: int|
                    1 <= k < line@.len() && line@[k] == ':' && (forall|j: int|
                        0 <= j < k ==> spec_key_char(line@[j])) {
                    let k = choose|k: int|
                        1 <= k < line@.len() && line@[k] == ':' && (forall|j: int|
                            0 <= j < k ==> spec_key_char(line@[j]));
                    // Every position before `k` holds a key character and the
                    // colon itself is not one, so the scan stopped exactly at
                    // `k`; the run-time test would then have succeeded.
                    assert(!spec_key_char(':'));
                    if k < i {
                        assert(spec_key_char(line@[k]));
                    } else if k > i {
                        assert(i < line@.len());
                        assert(spec_key_char(line@[i as int]));
                        assert(!(i < len && spec_key_char(line@[i as int])));
                    }
                }
            }
            false
        }
    }

    pub fn is_ticket_number_line(&self, line: &str) -> (r: bool)
        ensures
            r == spec_ticket_number_line(self.prefix@, line@),
    {
        let prefix = self.prefix.as_str();
        let plen = prefix.unicode_len();
        let llen = line.unicode_len();
        if llen < plen {
            return false;
        }
        let mut i: usize = 0;
        while i < plen
            invariant
                0 <= i <= plen,
                plen == self.prefix@.len(),
                llen == line@.len(),
                plen <= llen,
                prefix@ == self.prefix@,
                forall|j: int| 0 <= j < i ==> line@[j] == self.prefix@[j],
            decreases plen - i,
        {
            if line.get_char(i) != prefix.get_char(i) {
                assert(line@.subrange(0, plen as int)[i as int] == line@[i as int]);
                return false;
            }
            i = i + 1;
        }
        assert(line@.subrange(0, plen as int) =~= self.prefix@);
        let ghost s = line@.skip(plen as int);
        assert(forall|x: int| 0 <= x < s.len() ==> s[x] == line@[x + plen]);
        let mut j: usize = plen;
        while j < llen && is_upper_char(line.get_char(j))
            invariant
                plen <= j <= llen,
                llen == line@.len(),
                plen == self.prefix@.len(),
                forall|x: int| plen <= x < j ==> spec_upper_char(line@[x]),
            decreases llen - j,
        {
            j = j + 1;
        }
        proof {
            assert(forall|x: int| 0 <= x < s.len() ==> s[x] == line@[x + plen]);
            lemma_ticket_body_shape(s, j - plen);
        }
        if j == plen || j >= llen {
            return false;
        }
        if line.get_char(j) != '-' {
            return false;
        }
        let mut k: usize = j + 1;
        if k >= llen {
            return false;
        }
        while k < llen && is_ticket_tail_char(line.get_char(k))
            invariant
                j + 1 <= k <= llen,
                llen == line@.len(),
                forall|x: int| j < x < k ==> spec_ticket_tail_char(line@[x]),
            decreases llen - k,
        {
            k = k + 1;
        }
        if k == llen {
            assert(spec_ticket_body(s));
            true
        } else {
            assert(!spec_ticket_tail_char(s[k - plen]));
            false
        }
    }
}

/// Whether `c` may appear in the key of a service-data line.
fn is_key_char(c: char) -> (r: bool)
    ensures
        r == spec_key_char(c),
{
    ('A' <= c && c <= 'Z') || ('a' <= c && c <= 'z') || ('0' <= c && c <= '9') || c == '_' || c
        == '-'
}

/// Whether `c` is an uppercase ASCII letter.
fn is_upper_char(c: char) -> (r: bool)
    ensures
        r == spec_upper_char(c),
{
    'A' <= c && c <= 'Z'
}

/// Whether `c` may follow the dash of a ticket identifier.
fn is_ticket_tail_char(c: char) -> (r: bool)
    ensures
        r == spec_ticket_tail_char(c),
{
    ('0' <= c && c <= '9') || c == '-'
}

/// A ticket body is an uppercase run, a dash, then a digit-or-dash run.  The
/// dash after the uppercase run is forced to sit at the first non-uppercase
/// position, so the shape can be decided by a single left-to-right scan.
proof fn lemma_ticket_body_shape(s: Seq<char>, u: int)
    requires
        0 <= u <= s.len(),
        forall|x: int| 0 <= x < u ==> spec_upper_char(s[x]),
        u < s.len() ==> !spec_upper_char(s[u]),
    ensures
        spec_ticket_body(s) <==> (1 <= u && u + 1 < s.len() && s[u] == '-' && (forall|x: int|
            u < x < s.len() ==> spec_ticket_tail_char(s[x]))),
{
    assert(!spec_upper_char('-'));
    if spec_ticket_body(s) {
        let m = choose|m: int|
            1 <= m && m + 1 < s.len() && s[m] == '-' && (forall|j: int|
                0 <= j < m ==> spec_upper_char(s[j])) && (forall|j: int|
                m < j < s.len() ==> spec_ticket_tail_char(s[j]));
        if m < u {
            assert(spec_upper_char(s[m]));
        } else if m > u {
            assert(spec_upper_char(s[u]));
        }
        assert(m == u);
    }
}

/// Whether `c` is a carriage return or a line feed.
fn is_crlf_char(c: char) -> (r: bool)
    ensures
        r == spec_crlf_char(c),
{
    c == '\r' || c == '\n'
}

/// Exact equality of two strings, decided character by character.
fn str_eq(a: &str, b: &str) -> (r: bool)
    ensures
        r == (a@ == b@),
{
    let alen = a.unicode_len();
    let blen = b.unicode_len();
    if alen != blen {
        return false;
    }
    let mut i: usize = 0;
    while i < alen
        invariant
            0 <= i <= alen,
            alen == a@.len(),
            alen == b@.len(),
            forall|j: int| 0 <= j < i ==> a@[j] == b@[j],
        decreases alen - i,
    {
        if a.get_char(i) != b.get_char(i) {
            return false;
        }
        i = i + 1;
    }
    assert(a@ =~= b@);
    true
}

/// Normalizes a configured prefix: any trailing carriage-return or line-feed
/// characters, as left behind by external tool output, are stripped; all
/// other content is kept as it is.
pub fn prepare_prefix(prefix: String) -> (r: String)
    ensures
        r@ == spec_strip_trailing_crlf(prefix@),
{
    let p = prefix.as_str();
    let len = p.unicode_len();
    let mut end: usize = len;
    assert(prefix@.subrange(0, len as int) =~= prefix@);
    while end > 0 && is_crlf_char(p.get_char(end - 1))
        invariant
            0 <= end <= len,
            len == prefix@.len(),
            p@ == prefix@,
            spec_strip_trailing_crlf(prefix@) == spec_strip_trailing_crlf(
                prefix@.subrange(0, end as int),
            ),
        decreases end,
    {
        proof {
            let sub = prefix@.subrange(0, end as int);
            assert(sub.last() == prefix@[end - 1]);
            assert(sub.drop_last() =~= prefix@.subrange(0, end - 1));
        }
        end = end - 1;
    }
    proof {
        let sub = prefix@.subrange(0, end as int);
        if end > 0 {
            assert(sub.last() == prefix@[end - 1]);
        }
        assert(spec_strip_trailing_crlf(sub) == sub);
    }
    p.substring_char(0, end).to_owned()
}

/// Scans the message from its last line toward the first and decides where
/// the ticket line belongs.  `ticket_number` is the fully formatted
/// `prefix + ticket` line that would be inserted.
#[verifier::loop_isolation(false)]
pub fn try_patch(lines: &Vec<String>, prefix: &str, ticket_number: &str) -> (r: PatchDecision)
    ensures
        r == spec_plan(lines.deep_view(), prefix@, ticket_number@),
        r matches PatchDecision::InsertAt(k) ==> k < lines.len(),
{
    let ghost lv = lines.deep_view();
    proof {
        lemma_plan_from_bound(lv, prefix@, ticket_number@, lv.len() as int - 1, None);
    }
    let line_detector = LineDetector::new(prefix);
    let mut index: usize = lines.len();
    let mut service_info_line: Option<usize> = None;
    while index > 0
        invariant
            index <= lines.len(),
            service_info_line matches Some(k) ==> k < lines.len(),
            spec_plan(lv, prefix@, ticket_number@) == spec_plan_from(
                lv,
                prefix@,
                ticket_number@,
                index as int - 1,
                service_info_line,
            ),
        decreases index,
    {
        let line = &lines[index - 1];
        proof {
            assert(lv[index - 1] == line@);
        }
        if line_detector.is_comment_line(line.as_str()) {
            index = index - 1;
        } else if line_detector.is_empty_line(line.as_str()) {
            match service_info_line {
                Some(k) => {
                    return PatchDecision::InsertAt(k);
                },
                None => {
                    index = index - 1;
                },
            }
        } else if str_eq(line.as_str(), ticket_number) {
            return PatchDecision::DoNothing;
        } else if line_detector.is_service_data_line(line.as_str())
            || line_detector.is_ticket_number_line(line.as_str()) {
            service_info_line = Some(index - 1);
            index = index - 1;
        } else {
            match service_info_line {
                Some(k) => {
                    return PatchDecision::InsertAt(k);
                },
                None => {
                    return PatchDecision::Append;
                },
            }
        }
    }
    match service_info_line {
        Some(k) => PatchDecision::InsertAt(k),
        None => PatchDecision::Append,
    }
}

/// A fresh copy of the message's lines.
fn clone_lines(lines: &Vec<String>) -> (r: Vec<String>)
    ensures
        r@ == lines@,
{
    let mut out: Vec<String> = Vec::new();
    let mut i: usize = 0;
    while i < lines.len()
        invariant
            i <= lines.len(),
            out@.len() == i,
            forall|j: int| 0 <= j < i ==> out@[j] == lines@[j],
        decreases lines.len() - i,
    {
        out.push(lines[i].clone());
        i = i + 1;
    }
    assert(out@ =~= lines@);
    out
}

/// Patches a commit message: when a ticket identifier is given, make sure
/// the message carries the line `prefix + ticket`, inserting it before the
/// final service-data block or appending it behind one separating blank
/// line; without a ticket the message is returned unchanged.
pub fn patch_commit_msg(
    commit_msg: &Vec<String>,
    ticket_number: &Option<String>,
    ticket_prefix: &Option<String>,
) -> (r: Vec<String>)
    ensures
        r.deep_view() == spec_patch(
            commit_msg.deep_view(),
            ticket_number.deep_view(),
            ticket_prefix.deep_view(),
        ),
        ticket_number.deep_view() is None ==> r.deep_view() == commit_msg.deep_view(),
{
    let ghost dv = commit_msg.deep_view();
    let mut lines = clone_lines(commit_msg);
    assert(lines.deep_view() =~= dv);
    match ticket_number {
        None => {},
        Some(ticket) => {
            let prepared_prefix = match ticket_prefix {
                None => String::new(),
                Some(pr) => prepare_prefix(pr.clone()),
            };
            let mut new_line = prepared_prefix.clone();
            new_line.append(ticket.as_str());
            let ghost target = new_line@;
            let patch_result = try_patch(&lines, prepared_prefix.as_str(), new_line.as_str());
            match patch_result {
                PatchDecision::DoNothing => {},
                PatchDecision::InsertAt(index) => {
                    lines.insert(index, new_line);
                    if index > 0 && !lines[index - 1].as_str().is_empty() {
                        lines.insert(index, String::new());
                    }
                    assert(lines.deep_view() =~= spec_insert_with_separation(
                        dv,
                        index as int,
                        target,
                    ));
                },
                PatchDecision::Append => {
                    lines.push(String::new());
                    lines.push(new_line);
                    assert(lines.deep_view() =~= dv.push(Seq::<char>::empty()).push(target));
                },
            }
        },
    }
    lines
}

} // verus!
