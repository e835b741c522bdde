//! The task collection: id assignment, the mutations that commands apply,
//! filtering, and what loading makes of the stored text.
use vstd::prelude::*;

use crate::error::TaskError;
use crate::task::{Priority, Status, Task};

verus! {

/// The largest id in the collection, or 0 when it is empty.
pub open spec fn max_id(s: Seq<Task>) -> nat
    decreases s.len(),
{
    if s.len() == 0 {
        0
    } else {
        let m = max_id(s.drop_last());
        if s.last().id as nat > m {
            s.last().id as nat
        } else {
            m
        }
    }
}

/// No two tasks share an id.
pub open spec fn ids_unique(s: Seq<Task>) -> bool {
    forall|i: int, j: int| 0 <= i < j < s.len() ==> s[i].id != s[j].id
}

/// Some task carries `id`.
pub open spec fn has_id(s: Seq<Task>, id: u32) -> bool {
    exists|i: int| 0 <= i < s.len() && s[i].id == id
}

/// `i` is the first position whose task carries `id`.
pub open spec fn first_with_id(s: Seq<Task>, id: u32, i: int) -> bool {
    &&& 0 <= i < s.len()
    &&& s[i].id == id
    &&& forall|j: int| 0 <= j < i ==> s[j].id != id
}

/// Every id is below the largest `u32`, so one more than any of them fits.
pub open spec fn ids_below_max(s: Seq<Task>) -> bool {
    forall|i: int| 0 <= i < s.len() ==> s[i].id < u32::MAX
}

/// `max_id` bounds every id, and is one of them when the collection is not empty.
pub proof fn lemma_max_id(s: Seq<Task>)
    ensures
        forall|i: int| 0 <= i < s.len() ==> s[i].id <= max_id(s),
        s.len() > 0 ==> exists|i: int| 0 <= i < s.len() && s[i].id == max_id(s),
        s.len() == 0 ==> max_id(s) == 0,
    decreases s.len(),
{
    if s.len() > 0 {
        let t = s.drop_last();
        lemma_max_id(t);
        assert forall|i: int| 0 <= i < s.len() implies s[i].id <= max_id(s) by {
            if i < s.len() - 1 {
                assert(s[i] == t[i]);
            }
        }
        if s.last().id as nat <= max_id(t) && t.len() > 0 {
            let k = choose|k: int| 0 <= k < t.len() && t[k].id == max_id(t);
            assert(s[k] == t[k]);
        }
    }
}

/// The next id depends only on which ids occur, not on their order or on
/// the order in which the tasks were added: two collections holding the
/// same ids get the same next id.
pub proof fn lemma_next_id_order_independent(a: Seq<Task>, b: Seq<Task>)
    requires
        forall|id: u32| has_id(a, id) <==> has_id(b, id),
    ensures
        max_id(a) == max_id(b),
{
    lemma_max_id(a);
    lemma_max_id(b);
    if a.len() > 0 {
        let i = choose|i: int| 0 <= i < a.len() && a[i].id == max_id(a);
        assert(has_id(a, a[i].id));
        let j = choose|j: int| 0 <= j < b.len() && b[j].id == a[i].id;
        assert(max_id(a) <= max_id(b));
    }
    if b.len() > 0 {
        let i = choose|i: int| 0 <= i < b.len() && b[i].id == max_id(b);
        assert(has_id(b, b[i].id));
        let j = choose|j: int| 0 <= j < a.len() && a[j].id == b[i].id;
        assert(max_id(b) <= max_id(a));
    }
    if a.len() == 0 && b.len() > 0 {
        assert(has_id(b, b[0].id));
    }
    if b.len() == 0 && a.len() > 0 {
        assert(has_id(a, a[0].id));
    }
}

/// The ids of the collection, in stored order.
pub open spec fn id_seq(s: Seq<Task>) -> Seq<u32> {
    s.map_values(|t: Task| t.id)
}

/// The next id is independent of insertion order: when the ids of `b` are
/// a rearrangement of the ids of `a`, both get the same next id.
pub proof fn lemma_next_id_permutation(a: Seq<Task>, b: Seq<Task>)
    requires
        id_seq(a).to_multiset() == id_seq(b).to_multiset(),
    ensures
        max_id(a) + 1 == max_id(b) + 1,
{
    assert forall|id: u32| has_id(a, id) <==> has_id(b, id) by {
        vstd::seq_lib::to_multiset_contains(id_seq(a), id);
        vstd::seq_lib::to_multiset_contains(id_seq(b), id);
        if has_id(a, id) {
            let i = choose|i: int| 0 <= i < a.len() && a[i].id == id;
            assert(id_seq(a)[i] == id);
            let j = choose|j: int| 0 <= j < id_seq(b).len() && id_seq(b)[j] == id;
            assert(b[j].id == id);
        }
        if has_id(b, id) {
            let i = choose|i: int| 0 <= i < b.len() && b[i].id == id;
            assert(id_seq(b)[i] == id);
            let j = choose|j: int| 0 <= j < id_seq(a).len() && id_seq(a)[j] == id;
            assert(a[j].id == id);
        }
    }
    lemma_next_id_order_independent(a, b);
}

/// The id for a new task: one more than the largest id, or 1 when the
/// collection is empty.
pub fn get_next_id(tasks: &[Task]) -> (r: u32)
    requires
        ids_below_max(tasks@),
    ensures
        r == max_id(tasks@) + 1,
        tasks@.len() == 0 ==> r == 1,
        forall|i: int| 0 <= i < tasks@.len() ==> tasks@[i].id < r,
{
    proof {
        lemma_max_id(tasks@);
    }
    let mut m: u32 = 0;
    let mut i: usize = 0;
    while i < tasks.len()
        invariant
            0 <= i <= tasks@.len(),
            m == max_id(tasks@.subrange(0, i as int)),
            max_id(tasks@) < u32::MAX,
        decreases tasks@.len() - i,
    {
        assert(tasks@.subrange(0, i + 1).drop_last() =~= tasks@.subrange(0, i as int));
        if tasks[i].id > m {
            m = tasks[i].id;
        }
        i += 1;
    }
    assert(tasks@.subrange(0, tasks@.len() as int) =~= tasks@);
    m + 1
}

/// The task as marked done.
pub open spec fn completed(t: Task) -> Task {
    Task { status: Status::Done, ..t }
}

/// The task with each supplied field replaced and every other field kept.
pub open spec fn edited(
    t: Task,
    description: Option<String>,
    priority: Option<Priority>,
    due_date: Option<String>,
) -> Task {
    Task {
        description: match description {
            Some(d) => d,
            None => t.description,
        },
        priority: match priority {
            Some(p) => Some(p),
            None => t.priority,
        },
        due_date: match due_date {
            Some(d) => Some(d),
            None => t.due_date,
        },
        ..t
    }
}

/// Appends a new pending task with the next id, and returns that id.
pub fn add_task(
    tasks: &mut Vec<Task>,
    description: String,
    priority: Option<Priority>,
    due_date: Option<String>,
    created_at: String,
) -> (id: u32)
    requires
        ids_below_max(old(tasks)@),
    ensures
        id == max_id(old(tasks)@) + 1,
        final(tasks)@ == old(tasks)@.push(
            (Task { id, description, priority, due_date, status: Status::Pending, created_at }),
        ),
        ids_unique(old(tasks)@) ==> ids_unique(final(tasks)@),
{
    let id = get_next_id(tasks.as_slice());
    let task = Task { id, description, priority, due_date, status: Status::Pending, created_at };
    tasks.push(task);
    id
}

/// The first position of a task carrying `id`, if there is one.
pub fn position_of(tasks: &[Task], id: u32) -> (r: Option<usize>)
    ensures
        match r {
            Some(i) => first_with_id(tasks@, id, i as int),
            None => !has_id(tasks@, id),
        },
{
    let mut i: usize = 0;
    while i < tasks.len()
        invariant
            0 <= i <= tasks@.len(),
            forall|j: int| 0 <= j < i ==> tasks@[j].id != id,
        decreases tasks@.len() - i,
    {
        if tasks[i].id == id {
            return Some(i);
        }
        i += 1;
    }
    None
}

/// Marks the first task carrying `id` as done; fails with `NotFound` and
/// changes nothing when no task carries it.
pub fn mark_done(tasks: &mut Vec<Task>, id: u32) -> (r: Result<(), TaskError>)
    ensures
        r is Ok <==> has_id(old(tasks)@, id),
        match r {
            Ok(_) => exists|i: int|
                first_with_id(old(tasks)@, id, i) && final(tasks)@ == old(tasks)@.update(
                    i,
                    completed(old(tasks)@[i]),
                ),
            Err(TaskError::NotFound(n)) => n == id && final(tasks)@ == old(tasks)@,
            Err(_) => false,
        },
        ids_unique(old(tasks)@) ==> ids_unique(final(tasks)@),
{
    match position_of(tasks.as_slice(), id) {
        Some(i) => {
            tasks[i].status = Status::Done;
            assert(tasks@ =~= old(tasks)@.update(i as int, completed(old(tasks)@[i as int])));
            Ok(())
        },
        None => Err(TaskError::NotFound(id)),
    }
}

/// Overwrites the supplied fields of the first task carrying `id` and keeps
/// the others; fails with `NotFound` and changes nothing when no task
/// carries it.
pub fn edit_task(
    tasks: &mut Vec<Task>,
    id: u32,
    description: Option<String>,
    priority: Option<Priority>,
    due_date: Option<String>,
) -> (r: Result<(), TaskError>)
    ensures
        r is Ok <==> has_id(old(tasks)@, id),
        match r {
            Ok(_) => exists|i: int|
                first_with_id(old(tasks)@, id, i) && final(tasks)@ == old(tasks)@.update(
                    i,
                    edited(old(tasks)@[i], description, priority, due_date),
                ),
            Err(TaskError::NotFound(n)) => n == id && final(tasks)@ == old(tasks)@,
            Err(_) => false,
        },
        ids_unique(old(tasks)@) ==> ids_unique(final(tasks)@),
{
    match position_of(tasks.as_slice(), id) {
        Some(i) => {
            match description {
                Some(d) => {
                    tasks[i].description = d;
                },
                None => {},
            }
            match priority {
                Some(p) => {
                    tasks[i].priority = Some(p);
                },
                None => {},
            }
            match due_date {
                Some(d) => {
                    tasks[i].due_date = Some(d);
                },
                None => {},
            }
            assert(tasks@ =~= old(tasks)@.update(
                i as int,
                edited(old(tasks)@[i as int], description, priority, due_date),
            ));
            Ok(())
        },
        None => Err(TaskError::NotFound(id)),
    }
}

/// Editing only the description keeps the id, priority, due date, status
/// and creation time of the task.
pub proof fn lemma_edit_description_keeps_rest(t: Task, description: String)
    ensures
        edited(t, Some(description), None, None).description == description,
        edited(t, Some(description), None, None).id == t.id,
        edited(t, Some(description), None, None).priority == t.priority,
        edited(t, Some(description), None, None).due_date == t.due_date,
        edited(t, Some(description), None, None).status == t.status,
        edited(t, Some(description), None, None).created_at == t.created_at,
{
}

/// The collection without the tasks that carry `id`.
pub open spec fn without_id(s: Seq<Task>, id: u32) -> Seq<Task> {
    s.filter(|t: Task| t.id != id)
}

/// Removes every task carrying `id`, keeping the others in order; fails with
/// `NotFound` and changes nothing when no task carries it.
pub fn delete_task(tasks: &mut Vec<Task>, id: u32) -> (r: Result<(), TaskError>)
    ensures
        r is Ok <==> has_id(old(tasks)@, id),
        match r {
            Ok(_) => final(tasks)@ == without_id(old(tasks)@, id),
            Err(TaskError::NotFound(n)) => n == id && final(tasks)@ == old(tasks)@,
            Err(_) => false,
        },
        r is Ok ==> !has_id(final(tasks)@, id),
        ids_unique(old(tasks)@) ==> ids_unique(final(tasks)@),
{
    if position_of(tasks.as_slice(), id).is_none() {
        return Err(TaskError::NotFound(id));
    }
    let ghost orig = tasks@;
    let ghost keep = |t: Task| t.id != id;
    let ghost mut k: int = 0;
    let mut i: usize = 0;
    while i < tasks.len()
        invariant
            0 <= i <= tasks@.len(),
            0 <= k <= orig.len(),
            keep == (|t: Task| t.id != id),
            ids_unique(orig) ==> ids_unique(tasks@),
            forall|j: int| 0 <= j < i ==> tasks@[j].id != id,
            tasks@.subrange(0, i as int) == orig.subrange(0, k).filter(keep),
            tasks@.subrange(i as int, tasks@.len() as int) == orig.subrange(k, orig.len() as int),
        decreases tasks@.len() - i,
    {
        let ghost before = tasks@;
        proof {
            let rest = before.subrange(i as int, before.len() as int);
            assert(rest.len() == orig.len() - k);
            assert(orig[k] == before[i as int]) by {
                assert(rest[0] == before[i as int]);
                assert(orig.subrange(k, orig.len() as int)[0] == orig[k]);
            }
            assert(orig.subrange(0, k + 1).drop_last() =~= orig.subrange(0, k));
            assert(orig.subrange(0, k + 1).last() == orig[k]);
            reveal(Seq::filter);
        }
        if tasks[i].id == id {
            tasks.remove(i);
            proof {
                if ids_unique(orig) {
                    assert forall|a: int, b: int| 0 <= a < b < tasks@.len() implies tasks@[a].id != tasks@[b].id by {
                        let a0 = if a < i { a } else { a + 1 };
                        let b0 = if b < i { b } else { b + 1 };
                        assert(tasks@[a] == before[a0]);
                        assert(tasks@[b] == before[b0]);
                    }
                }
                assert(tasks@.subrange(0, i as int) =~= before.subrange(0, i as int));
                assert(tasks@.subrange(i as int, tasks@.len() as int) =~= before.subrange(
                    i + 1,
                    before.len() as int,
                ));
                assert(orig.subrange(k + 1, orig.len() as int) =~= orig.subrange(
                    k,
                    orig.len() as int,
                ).subrange(1, orig.len() - k));
                k = k + 1;
            }
        } else {
            i += 1;
            proof {
                assert(tasks@.subrange(0, i as int) =~= before.subrange(0, i - 1).push(
                    before[i - 1],
                ));
                assert(orig.subrange(k + 1, orig.len() as int) =~= orig.subrange(
                    k,
                    orig.len() as int,
                ).subrange(1, orig.len() - k));
                k = k + 1;
            }
        }
    }
    proof {
        assert(tasks@ =~= tasks@.subrange(0, i as int));
        assert(orig.subrange(k, orig.len() as int).len() == 0);
        assert(orig.subrange(0, k) =~= orig);
    }
    Ok(())
}

/// The task passes the optional status and priority filters; an absent
/// filter lets every task through.
pub open spec fn selected(t: Task, status: Option<Status>, priority: Option<Priority>) -> bool {
    &&& match status {
        Some(s) => t.status == s,
        None => true,
    }
    &&& match priority {
        Some(p) => t.priority == Some(p),
        None => true,
    }
}

/// The positions, in stored order, of the tasks that pass the filters.
pub fn list_tasks(tasks: &[Task], status: Option<Status>, priority: Option<Priority>) -> (r: Vec<
    usize,
>)
    ensures
        forall|k: int| 0 <= k < r@.len() ==> r@[k] < tasks@.len() && selected(tasks@[r@[k] as int], status, priority),
        forall|k: int, l: int| 0 <= k < l < r@.len() ==> r@[k] < r@[l],
        forall|i: int| 0 <= i < tasks@.len() && selected(tasks@[i], status, priority) ==> r@.contains(i as usize),
{
    let mut r: Vec<usize> = Vec::new();
    let mut i: usize = 0;
    while i < tasks.len()
        invariant
            0 <= i <= tasks@.len(),
            forall|k: int| 0 <= k < r@.len() ==> r@[k] < i && selected(tasks@[r@[k] as int], status, priority),
            forall|k: int, l: int| 0 <= k < l < r@.len() ==> r@[k] < r@[l],
            forall|j: int| 0 <= j < i && selected(tasks@[j], status, priority) ==> r@.contains(j as usize),
        decreases tasks@.len() - i,
    {
        let t = &tasks[i];
        let status_ok = match status {
            Some(s) => t.status == s,
            None => true,
        };
        let priority_ok = match priority {
            Some(p) => match t.priority {
                Some(q) => q == p,
                None => false,
            },
            None => true,
        };
        if status_ok && priority_ok {
            let ghost prev = r@;
            r.push(i);
            proof {
                assert forall|j: int| 0 <= j < i && selected(tasks@[j], status, priority) implies r@.contains(j as usize) by {
                    let m = choose|m: int| 0 <= m < prev.len() && prev[m] == j as usize;
                    assert(r@[m] == prev[m]);
                }
                assert(r@[r@.len() - 1] == i);
            }
        }
        i += 1;
    }
    r
}

/// A character with Unicode's `White_Space` property.
pub open spec fn is_whitespace(c: char) -> bool {
    let u = c as u32;
    ||| 0x9 <= u <= 0xd
    ||| u == 0x20
    ||| u == 0x85
    ||| u == 0xa0
    ||| u == 0x1680
    ||| 0x2000 <= u <= 0x200a
    ||| u == 0x2028
    ||| u == 0x2029
    ||| u == 0x202f
    ||| u == 0x205f
    ||| u == 0x3000
}

/// The text with its leading and trailing whitespace removed.
pub open spec fn trim_whitespace(s: Seq<char>) -> Seq<char>
    decreases s.len(),
{
    if s.len() > 0 && is_whitespace(s[0]) {
        trim_whitespace(s.drop_first())
    } else if s.len() > 0 && is_whitespace(s.last()) {
        trim_whitespace(s.drop_last())
    } else {
        s
    }
}

/// Every character of the text is whitespace (the empty text included).
pub open spec fn is_blank(s: Seq<char>) -> bool {
    forall|i: int| 0 <= i < s.len() ==> is_whitespace(s[i])
}

/// Trimming leaves nothing exactly when the text is blank.
pub proof fn lemma_trim_empty_iff_blank(s: Seq<char>)
    ensures
        trim_whitespace(s).len() == 0 <==> is_blank(s),
    decreases s.len(),
{
    if s.len() > 0 && is_whitespace(s[0]) {
        let t = s.drop_first();
        lemma_trim_empty_iff_blank(t);
        if is_blank(t) {
            assert forall|i: int| 0 <= i < s.len() implies is_whitespace(s[i]) by {
                if i > 0 {
                    assert(s[i] == t[i - 1]);
                }
            }
        }
        if is_blank(s) {
            assert forall|i: int| 0 <= i < t.len() implies is_whitespace(t[i]) by {
                assert(t[i] == s[i + 1]);
            }
        }
    } else if s.len() > 0 && is_whitespace(s.last()) {
        let t = s.drop_last();
        lemma_trim_empty_iff_blank(t);
        if is_blank(t) {
            assert forall|i: int| 0 <= i < s.len() implies is_whitespace(s[i]) by {
                if i < s.len() - 1 {
                    assert(s[i] == t[i]);
                }
            }
        }
        if is_blank(s) {
            assert forall|i: int| 0 <= i < t.len() implies is_whitespace(t[i]) by {
                assert(t[i] == s[i]);
            }
        }
    }
}

/// Relies on `str::trim`: the text with leading and trailing `White_Space`
/// characters removed.
#[verifier::external_body]
fn trimmed(s: &str) -> (r: &str)
    ensures
        r@ == trim_whitespace(s@),
{
    s.trim()
}

/// The stored text holds a collection to decode: it exists and is not blank.
pub open spec fn holds_tasks(content: Option<&str>) -> bool {
    match content {
        Some(c) => !is_blank(c@),
        None => false,
    }
}

/// Whether the stored text, `None` when there is none, needs decoding.
pub fn has_stored_content(content: Option<&str>) -> (r: bool)
    ensures
        r == holds_tasks(content),
        content is None ==> !r,
        (content matches Some(c) && is_blank(c@)) ==> !r,
{
    match content {
        Some(c) => {
            let t = trimmed(c);
            proof {
                lemma_trim_empty_iff_blank(c@);
            }
            !t.is_empty()
        },
        None => false,
    }
}

/// The collection that loading yields from the stored text `content`
/// (`None` when there is none) and from `decoded`, the outcome of decoding
/// that text: empty when there is no text or it is blank, the decoded
/// collection in stored order, or a `CorruptData` error carrying the
/// decoder's message.
pub fn resolve_load(content: Option<&str>, decoded: Result<Vec<Task>, String>) -> (r: Result<
    Vec<Task>,
    TaskError,
>)
    ensures
        !holds_tasks(content) ==> (r matches Ok(v) && v@.len() == 0),
        content is None ==> (r matches Ok(v) && v@.len() == 0),
        (content matches Some(c) && is_blank(c@)) ==> (r matches Ok(v) && v@.len() == 0),
        holds_tasks(content) ==> match decoded {
            Ok(v) => (r matches Ok(w) && w@ == v@),
            Err(e) => (r matches Err(TaskError::CorruptData(m)) && m@ == e@),
        },
{
    if !has_stored_content(content) {
        return Ok(Vec::new());
    }
    match decoded {
        Ok(v) => Ok(v),
        Err(e) => Err(TaskError::CorruptData(e)),
    }
}

} // verus!
