//! One task, its enumerated fields, and their canonical text forms.
use vstd::prelude::*;

use crate::error::TaskError;

verus! {

/// How urgent a task is.
#[derive(Debug, Clone, Copy, PartialEq, Eq, Structural)]
pub enum Priority {
    Low,
    Medium,
    High,
}

/// Whether a task is still open.
#[derive(Debug, Clone, Copy, PartialEq, Eq, Structural)]
pub enum Status {
    Pending,
    Done,
}

/// One to-do record.
#[derive(Debug, Clone)]
pub struct Task {
    pub id: u32,
    pub description: String,
    pub priority: Option<Priority>,
    pub due_date: Option<String>,
    pub status: Status,
    pub created_at: String,
}

/// What `str::to_lowercase` makes of a string.
pub uninterp spec fn lower_of(s: Seq<char>) -> Seq<char>;

/// Relies on `str::to_lowercase`: its result depends on the characters alone.
#[verifier::external_body]
fn lowercase(s: &str) -> (r: String)
    ensures
        r@ == lower_of(s@),
{
    s.to_lowercase()
}

/// The decimal digit for `d < 10`.
pub open spec fn digit_char(d: nat) -> char {
    seq!['0', '1', '2', '3', '4', '5', '6', '7', '8', '9'][d as int]
}

/// The decimal form of `n`, most significant digit first, no leading zeros.
pub open spec fn decimal(n: nat) -> Seq<char>
    decreases n,
{
    if n < 10 {
        seq![digit_char(n)]
    } else {
        decimal(n / 10).push(digit_char(n % 10))
    }
}

/// The one-character text of the decimal digit `d`.
fn digit_text(d: u32) -> (r: &'static str)
    requires
        d < 10,
    ensures
        r@ == seq![digit_char(d as nat)],
{
    proof {
        reveal_strlit("0");
        reveal_strlit("1");
        reveal_strlit("2");
        reveal_strlit("3");
        reveal_strlit("4");
        reveal_strlit("5");
        reveal_strlit("6");
        reveal_strlit("7");
        reveal_strlit("8");
        reveal_strlit("9");
    }
    let r = match d {
        0 => "0",
        1 => "1",
        2 => "2",
        3 => "3",
        4 => "4",
        5 => "5",
        6 => "6",
        7 => "7",
        8 => "8",
        _ => "9",
    };
    assert(r@ =~= seq![digit_char(d as nat)]);
    r
}

/// Appends the decimal form of `n` to `out`.
fn push_decimal(out: &mut String, n: u32)
    ensures
        final(out)@ == old(out)@ + decimal(n as nat),
    decreases n,
{
    if n >= 10 {
        push_decimal(out, n / 10);
    }
    out.append(digit_text(n % 10));
    assert(out@ =~= old(out)@ + decimal(n as nat));
}

/// Canonical lowercase token of a priority.
pub open spec fn priority_token(p: Priority) -> Seq<char> {
    match p {
        Priority::Low => "low"@,
        Priority::Medium => "medium"@,
        Priority::High => "high"@,
    }
}

/// Canonical lowercase token of a status.
pub open spec fn status_token(s: Status) -> Seq<char> {
    match s {
        Status::Pending => "pending"@,
        Status::Done => "done"@,
    }
}

/// The priority whose token is exactly `t`, if any.
pub open spec fn priority_of_token(t: Seq<char>) -> Option<Priority> {
    if t == "low"@ {
        Some(Priority::Low)
    } else if t == "medium"@ {
        Some(Priority::Medium)
    } else if t == "high"@ {
        Some(Priority::High)
    } else {
        None
    }
}

/// The status whose token is exactly `t`, if any.
pub open spec fn status_of_token(t: Seq<char>) -> Option<Status> {
    if t == "pending"@ {
        Some(Status::Pending)
    } else if t == "done"@ {
        Some(Status::Done)
    } else {
        None
    }
}

/// The message for a priority token that matches no priority.
pub open spec fn invalid_priority_message(token: Seq<char>) -> Seq<char> {
    "Invalid priority: "@ + token + ". Use low, medium, or high"@
}

/// The message for a status token that matches no status.
pub open spec fn invalid_status_message(token: Seq<char>) -> Seq<char> {
    "Invalid status: "@ + token + ". Use pending or done"@
}

/// Result of parsing a priority `token` whose lowercase form is `folded`.
pub open spec fn priority_parse(folded: Seq<char>, token: Seq<char>) -> Result<Priority, Seq<char>> {
    match priority_of_token(folded) {
        Some(p) => Ok(p),
        None => Err(invalid_priority_message(token)),
    }
}

/// Result of parsing a status `token` whose lowercase form is `folded`.
pub open spec fn status_parse(folded: Seq<char>, token: Seq<char>) -> Result<Status, Seq<char>> {
    match status_of_token(folded) {
        Some(s) => Ok(s),
        None => Err(invalid_status_message(token)),
    }
}

/// `r` is the outcome that `spec` describes, with the message carried as an
/// `InvalidInput` error.
pub open spec fn parse_outcome<T>(r: Result<T, TaskError>, spec: Result<T, Seq<char>>) -> bool {
    match (r, spec) {
        (Ok(a), Ok(b)) => a == b,
        (Err(TaskError::InvalidInput(m)), Err(n)) => m@ == n,
        _ => false,
    }
}

/// The status glyph: `[ ]` while pending, `[x]` once done.
pub open spec fn status_glyph(s: Status) -> Seq<char> {
    match s {
        Status::Pending => "[ ]"@,
        Status::Done => "[x]"@,
    }
}

/// The one-line rendering of a task.
pub open spec fn render(t: Task) -> Seq<char> {
    let glyph = status_glyph(t.status);
    let priority_part = match t.priority {
        Some(p) => " ["@ + priority_token(p) + "]"@,
        None => Seq::empty(),
    };
    let due_part = match t.due_date {
        Some(d) => " (due: "@ + d@ + ")"@,
        None => Seq::empty(),
    };
    glyph + " #"@ + decimal(t.id as nat) + ": "@ + t.description@ + priority_part + due_part
}

/// A task with neither priority nor due date renders as glyph, id and
/// description alone: both suffixes are left out entirely.
pub proof fn lemma_render_without_optional_fields(t: Task)
    requires
        t.priority is None,
        t.due_date is None,
    ensures
        render(t) == status_glyph(t.status) + " #"@ + decimal(t.id as nat) + ": "@ + t.description@,
{
    assert(render(t) =~= status_glyph(t.status) + " #"@ + decimal(t.id as nat) + ": "@
        + t.description@);
}

/// Each suffix is present exactly when its field is set, priority first.
pub proof fn lemma_render_suffixes(t: Task, p: Priority, d: String)
    requires
        t.priority == Some(p),
        t.due_date == Some(d),
    ensures
        render(t) == status_glyph(t.status) + " #"@ + decimal(t.id as nat) + ": "@ + t.description@
            + " ["@ + priority_token(p) + "]"@ + " (due: "@ + d@ + ")"@,
{
    assert(render(t) =~= status_glyph(t.status) + " #"@ + decimal(t.id as nat) + ": "@
        + t.description@ + " ["@ + priority_token(p) + "]"@ + " (due: "@ + d@ + ")"@);
}

fn text_equals(a: &String, b: &str) -> (r: bool)
    ensures
        r == (a@ == b@),
{
    let b_owned = String::from_str(b);
    *a == b_owned
}

impl Priority {
    /// The canonical lowercase token: `low`, `medium` or `high`.
    pub fn to_string(&self) -> (r: String)
        ensures
            r@ == priority_token(*self),
    {
        match self {
            Priority::Low => String::from_str("low"),
            Priority::Medium => String::from_str("medium"),
            Priority::High => String::from_str("high"),
        }
    }

    /// Parses `token` given its lowercase form `folded`; an unknown token
    /// gives an `InvalidInput` error that names `token` and the valid tokens.
    pub fn from_folded(folded: &str, token: &str) -> (r: Result<Priority, TaskError>)
        ensures
            parse_outcome(r, priority_parse(folded@, token@)),
    {
        let f = String::from_str(folded);
        if text_equals(&f, "low") {
            Ok(Priority::Low)
        } else if text_equals(&f, "medium") {
            Ok(Priority::Medium)
        } else if text_equals(&f, "high") {
            Ok(Priority::High)
        } else {
            let mut m = String::from_str("Invalid priority: ");
            m.append(token);
            m.append(". Use low, medium, or high");
            Err(TaskError::InvalidInput(m))
        }
    }

    /// Parses a priority token, ignoring case.
    pub fn from_token(token: &str) -> (r: Result<Priority, TaskError>)
        ensures
            parse_outcome(r, priority_parse(lower_of(token@), token@)),
    {
        let folded = lowercase(token);
        Priority::from_folded(folded.as_str(), token)
    }
}

impl Status {
    /// The canonical lowercase token: `pending` or `done`.
    pub fn to_string(&self) -> (r: String)
        ensures
            r@ == status_token(*self),
    {
        match self {
            Status::Pending => String::from_str("pending"),
            Status::Done => String::from_str("done"),
        }
    }

    /// Parses `token` given its lowercase form `folded`; an unknown token
    /// gives an `InvalidInput` error that names `token` and the valid tokens.
    pub fn from_folded(folded: &str, token: &str) -> (r: Result<Status, TaskError>)
        ensures
            parse_outcome(r, status_parse(folded@, token@)),
    {
        let f = String::from_str(folded);
        if text_equals(&f, "pending") {
            Ok(Status::Pending)
        } else if text_equals(&f, "done") {
            Ok(Status::Done)
        } else {
            let mut m = String::from_str("Invalid status: ");
            m.append(token);
            m.append(". Use pending or done");
            Err(TaskError::InvalidInput(m))
        }
    }

    /// Parses a status token, ignoring case.
    pub fn from_token(token: &str) -> (r: Result<Status, TaskError>)
        ensures
            parse_outcome(r, status_parse(lower_of(token@), token@)),
    {
        let folded = lowercase(token);
        Status::from_folded(folded.as_str(), token)
    }
}

impl Task {
    /// The one-line rendering: status glyph, `#id: description`, then
    /// ` [priority]` and ` (due: date)` where those fields are set.
    pub fn to_string(&self) -> (r: String)
        ensures
            r@ == render(*self),
    {
        let mut out = match self.status {
            Status::Pending => String::from_str("[ ]"),
            Status::Done => String::from_str("[x]"),
        };
        out.append(" #");
        push_decimal(&mut out, self.id);
        out.append(": ");
        out.append(self.description.as_str());
        match &self.priority {
            Some(p) => {
                out.append(" [");
                let p_text = p.to_string();
                out.append(p_text.as_str());
                out.append("]");
            },
            None => {},
        }
        match &self.due_date {
            Some(d) => {
                out.append(" (due: ");
                out.append(d.as_str());
                out.append(")");
            },
            None => {},
        }
        assert(out@ =~= render(*self));
        out
    }
}

/// Parsing ignores case: two tokens with the same lowercase form give the
/// same priority or both fail. Each canonical token parses to its own
/// priority, and a token whose lowercase form is none of them fails with a
/// message that holds the token itself.
pub proof fn lemma_priority_parse(token: Seq<char>, other: Seq<char>)
    ensures
        lower_of(token) == lower_of(other) ==> (priority_parse(lower_of(token), token) is Ok
            <==> priority_parse(lower_of(other), other) is Ok),
        lower_of(token) == lower_of(other) && priority_parse(lower_of(token), token) is Ok
            ==> priority_parse(lower_of(token), token) == priority_parse(lower_of(other), other),
        forall|p: Priority| lower_of(token) == priority_token(p) ==> priority_parse(lower_of(token), token) == Ok::<Priority, Seq<char>>(p),
        forall|p: Priority| #[trigger] priority_of_token(priority_token(p)) == Some(p),
        priority_of_token(lower_of(token)) is None ==> (priority_parse(lower_of(token), token) matches Err(m)
            && m.subrange(18, 18 + token.len() as int) == token),
{
    reveal_strlit("low");
    reveal_strlit("medium");
    reveal_strlit("high");
    reveal_strlit("Invalid priority: ");
    assert("low"@.len() == 3 && "medium"@.len() == 6 && "high"@.len() == 4);
    assert forall|p: Priority| #[trigger] priority_of_token(priority_token(p)) == Some(p) by {
        match p {
            Priority::Low => {},
            Priority::Medium => {},
            Priority::High => {},
        }
    }
    let m = invalid_priority_message(token);
    assert(m.subrange(18, 18 + token.len() as int) =~= token);
}

/// Parsing ignores case: two tokens with the same lowercase form give the
/// same status or both fail. Each canonical token parses to its own status,
/// and a token whose lowercase form is neither fails with a message that
/// holds the token itself.
pub proof fn lemma_status_parse(token: Seq<char>, other: Seq<char>)
    ensures
        lower_of(token) == lower_of(other) ==> (status_parse(lower_of(token), token) is Ok
            <==> status_parse(lower_of(other), other) is Ok),
        lower_of(token) == lower_of(other) && status_parse(lower_of(token), token) is Ok
            ==> status_parse(lower_of(token), token) == status_parse(lower_of(other), other),
        forall|s: Status| lower_of(token) == status_token(s) ==> status_parse(lower_of(token), token) == Ok::<Status, Seq<char>>(s),
        forall|s: Status| #[trigger] status_of_token(status_token(s)) == Some(s),
        status_of_token(lower_of(token)) is None ==> (status_parse(lower_of(token), token) matches Err(m)
            && m.subrange(16, 16 + token.len() as int) == token),
{
    reveal_strlit("pending");
    reveal_strlit("done");
    reveal_strlit("Invalid status: ");
    assert("pending"@.len() == 7 && "done"@.len() == 4);
    assert forall|s: Status| #[trigger] status_of_token(status_token(s)) == Some(s) by {
        match s {
            Status::Pending => {},
            Status::Done => {},
        }
    }
    let m = invalid_status_message(token);
    assert(m.subrange(16, 16 + token.len() as int) =~= token);
}

impl std::str::FromStr for Priority {
    type Err = TaskError;

    /// Parses a priority token, ignoring case.
    fn from_str(s: &str) -> (r: Result<Priority, TaskError>)
        ensures
            parse_outcome(r, priority_parse(lower_of(s@), s@)),
    {
        Priority::from_token(s)
    }
}

impl std::str::FromStr for Status {
    type Err = TaskError;

    /// Parses a status token, ignoring case.
    fn from_str(s: &str) -> (r: Result<Status, TaskError>)
        ensures
            parse_outcome(r, status_parse(lower_of(s@), s@)),
    {
        Status::from_token(s)
    }
}

} // verus!
