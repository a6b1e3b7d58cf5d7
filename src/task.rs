use vstd::prelude::*;

verus! {

#[verifier::external_type_specification]
#[verifier::external_body]
pub struct ExSqliteError(rusqlite::Error);

#[verifier::external_type_specification]
#[verifier::external_body]
pub struct ExIoError(std::io::Error);

/// Why an operation on the task list failed.
#[derive(Debug)]
pub enum TodoAppError {
    /// The backing storage could not be read or written.
    Io(std::io::Error),
    /// An argument had the wrong type.
    InvalidType,
    /// A command that needs one or more operands got none.
    InvalidNumberOfArgs,
    /// The given index names no task.
    IncorrectIndex(usize),
    /// The default storage location could not be resolved.
    HomeNotFound,
    /// A stored record cannot be read as a task.
    CorruptFormat,
    /// The embedded database reported an error.
    SqliteErr(rusqlite::Error),
}

/// One todo item: its 1-based index, its text and whether it is done.
pub struct Task {
    pub id: usize,
    pub name: String,
    pub done: bool,
}

impl Task {
    pub open spec fn model(&self) -> (Seq<char>, bool) {
        (self.name@, self.done)
    }

    pub fn new(id: usize, name: String, done: bool) -> (r: Task)
        ensures
            r.id == id,
            r.name@ == name@,
            r.done == done,
    {
        Task { id, name, done }
    }

    /// The same task under another index.
    pub fn from(task: Task, id: usize) -> (r: Task)
        ensures
            r.id == id,
            r.name@ == task.name@,
            r.done == task.done,
    {
        Task { id, name: task.name, done: task.done }
    }
}

/// Rows read back from the store are valid when their ids run densely from 1.
pub open spec fn rows_valid(rows: Seq<(i64, String, bool)>) -> bool {
    forall|i: int| 0 <= i < rows.len() ==> (#[trigger] rows[i]).0 == i + 1
}

/// Turns the rows of the store, in id order, into tasks.
/// Fails with `CorruptFormat` exactly when the ids are not `1..=n`.
pub fn tasks_from_rows(rows: Vec<(i64, String, bool)>) -> (r: Result<Vec<Task>, TodoAppError>)
    ensures
        r is Ok <==> rows_valid(rows@),
        r is Err ==> r->Err_0 is CorruptFormat,
        r matches Ok(tasks) ==> tasks@.len() == rows@.len() && forall|i: int|
            0 <= i < tasks@.len() ==> (#[trigger] tasks@[i]).id == i + 1
                && tasks@[i].name@ == rows@[i].1@ && tasks@[i].done == rows@[i].2,
{
    let n = rows.len();
    let mut tasks: Vec<Task> = Vec::new();
    let mut i: usize = 0;
    while i < n
        invariant
            n == rows@.len(),
            i <= n,
            tasks@.len() == i,
            forall|j: int| 0 <= j < i ==> (#[trigger] rows@[j]).0 == j + 1,
            forall|j: int|
                0 <= j < i ==> (#[trigger] tasks@[j]).id == j + 1
                    && tasks@[j].name@ == rows@[j].1@ && tasks@[j].done == rows@[j].2,
        decreases n - i,
    {
        let row = &rows[i];
        if row.0 < 1 || row.0 as u64 != i as u64 + 1 {
            return Err(TodoAppError::CorruptFormat);
        }
        let name = row.1.clone();
        tasks.push(Task::new(i + 1, name, row.2));
        i = i + 1;
    }
    Ok(tasks)
}

} // verus!
