use vstd::prelude::*;

use crate::laws::lemma_kept_concat;
use crate::render::{is_blank, is_blank_text, line_of, render_line};
use crate::store::{execute, insert_params, open_connection, select_rows, update_params, StoreWrite};
use crate::task::{tasks_from_rows, Task, TodoAppError};

verus! {

const CREATE_TABLE: &'static str =
    "CREATE TABLE IF NOT EXISTS todo (id INTEGER PRIMARY KEY, name TEXT NOT NULL, done BOOLEAN NOT NULL)";

const SELECT_ALL: &'static str = "SELECT id, name, done FROM todo ORDER BY id";

const INSERT_ROW: &'static str = "INSERT INTO todo (id, name, done) VALUES (?1, ?2, ?3)";

const UPDATE_ROW: &'static str = "UPDATE todo SET name = ?1, done = ?2 WHERE id = ?3";

const DELETE_ALL: &'static str = "DELETE FROM todo";

const BEGIN: &'static str = "BEGIN IMMEDIATE";

const COMMIT: &'static str = "COMMIT";

const ROLLBACK: &'static str = "ROLLBACK";

/// The texts that `add` keeps: those that are not blank, in order.
pub open spec fn kept(texts: Seq<Seq<char>>) -> Seq<Seq<char>>
    decreases texts.len(),
{
    if texts.len() == 0 {
        Seq::empty()
    } else {
        let rest = kept(texts.drop_last());
        if is_blank(texts.last()) {
            rest
        } else {
            rest.push(texts.last())
        }
    }
}

/// The list after adding `texts`: each kept text becomes a pending task at the end.
pub open spec fn added(v: Seq<(Seq<char>, bool)>, texts: Seq<Seq<char>>) -> Seq<(Seq<char>, bool)> {
    v + kept(texts).map_values(|t: Seq<char>| (t, false))
}

/// An index that names a task of a list of `n` tasks.
pub open spec fn in_range(i: usize, n: nat) -> bool {
    1 <= i && i <= n
}

/// The list after marking the tasks at `idxs` as done.
pub open spec fn marked(v: Seq<(Seq<char>, bool)>, idxs: Seq<usize>) -> Seq<(Seq<char>, bool)> {
    Seq::new(v.len(), |k: int| (v[k].0, v[k].1 || idxs.contains((k + 1) as usize)))
}

/// The list after giving the task at `index` the text `text`.
pub open spec fn edited(v: Seq<(Seq<char>, bool)>, index: usize, text: Seq<char>) -> Seq<(Seq<char>, bool)> {
    v.update(index - 1, (text, v[index - 1].1))
}

/// The tasks that `remove` keeps: those whose index is not in `idxs`, in order.
pub open spec fn survivors(v: Seq<(Seq<char>, bool)>, idxs: Seq<usize>) -> Seq<(Seq<char>, bool)>
    decreases v.len(),
{
    if v.len() == 0 {
        Seq::empty()
    } else {
        let rest = survivors(v.drop_last(), idxs);
        if idxs.contains(v.len() as usize) {
            rest
        } else {
            rest.push(v.last())
        }
    }
}

/// The texts of a list of string slices.
pub open spec fn texts_of(todos: Seq<&str>) -> Seq<Seq<char>> {
    todos.map_values(|s: &str| s@)
}

/// The inserts that write `v` as rows numbered on from `start`.
pub open spec fn inserts(start: nat, v: Seq<(Seq<char>, bool)>) -> Seq<StoreWrite> {
    Seq::new(v.len(), |k: int| StoreWrite::Insert((start + k + 1) as nat, v[k].0, v[k].1))
}

/// The pending tasks that adding `texts` creates.
pub open spec fn fresh(texts: Seq<Seq<char>>) -> Seq<(Seq<char>, bool)> {
    kept(texts).map_values(|t: Seq<char>| (t, false))
}

/// The updates that marking the tasks of `v` at `idxs` writes, one per index in order.
pub open spec fn mark_writes(v: Seq<(Seq<char>, bool)>, idxs: Seq<usize>) -> Seq<StoreWrite> {
    Seq::new(idxs.len(), |m: int| StoreWrite::Update(idxs[m] as nat, v[idxs[m] - 1].0, true))
}

/// The writes that replace the whole table by `v`, numbered from 1, in one transaction.
pub open spec fn rewrite(v: Seq<(Seq<char>, bool)>) -> Seq<StoreWrite> {
    seq![StoreWrite::Begin, StoreWrite::DeleteAll] + inserts(0, v) + seq![StoreWrite::Commit]
}

/// Every index in `idxs` names a task of a list of `n` tasks.
pub open spec fn all_in_range(idxs: Seq<usize>, n: nat) -> bool {
    forall|k: int| 0 <= k < idxs.len() ==> in_range(#[trigger] idxs[k], n)
}

/// `j` is the first index in `idxs` that names no task of a list of `n` tasks.
pub open spec fn first_out_of_range(idxs: Seq<usize>, n: nat, j: usize) -> bool {
    exists|k: int|
        0 <= k < idxs.len() && #[trigger] idxs[k] == j && !in_range(j, n)
            && forall|m: int| 0 <= m < k ==> in_range(#[trigger] idxs[m], n)
}

/// `t` between the escape codes that start struck-out style and reset it.
pub open spec fn struck(t: Seq<char>) -> Seq<char> {
    seq!['\u{1b}', '[', '9', 'm'] + t + seq!['\u{1b}', '[', '0', 'm']
}

/// `s` can show the done task text `t`: `t` itself, or some text in
/// struck-out style, which is `t` itself where `t` holds no escape character.
pub open spec fn shown_done(t: Seq<char>, s: Seq<char>) -> bool {
    s == t || ((exists|m: Seq<char>| s == #[trigger] struck(m)) && ((forall|i: int|
        0 <= i < t.len() ==> #[trigger] t[i] != '\u{1b}') ==> s == struck(t)))
}

/// `lines` is a listing of `v`: one line per task in order, the line of a
/// pending task being exactly its index and text, that of a done task its
/// index and its text in struck-out style.
pub open spec fn listed(v: Seq<(Seq<char>, bool)>, lines: Seq<Seq<char>>) -> bool {
    &&& lines.len() == v.len()
    &&& forall|i: int|
        0 <= i < v.len() && !v[i].1 ==> #[trigger] lines[i] == line_of((i + 1) as nat, v[i].0)
    &&& forall|i: int|
        0 <= i < v.len() && v[i].1 ==> exists|s: Seq<char>|
            lines[i] == #[trigger] line_of((i + 1) as nat, s) && shown_done(v[i].0, s)
}

/// The first index in `idxs` that names no task of a list of `n` tasks.
fn first_bad_index(idxs: &Vec<usize>, n: usize) -> (r: Option<usize>)
    ensures
        r is None <==> all_in_range(idxs@, n as nat),
        r matches Some(j) ==> first_out_of_range(idxs@, n as nat, j),
{
    let mut k: usize = 0;
    while k < idxs.len()
        invariant
            k <= idxs@.len(),
            forall|m: int| 0 <= m < k ==> in_range(#[trigger] idxs@[m], n as nat),
        decreases idxs@.len() - k,
    {
        let j = idxs[k];
        if j == 0 || j > n {
            return Some(j);
        }
        k = k + 1;
    }
    None
}

/// Whether `x` occurs in `idxs`.
fn contains_index(idxs: &Vec<usize>, x: usize) -> (r: bool)
    ensures
        r == idxs@.contains(x),
{
    let mut k: usize = 0;
    while k < idxs.len()
        invariant
            k <= idxs@.len(),
            forall|m: int| 0 <= m < k ==> #[trigger] idxs@[m] != x,
        decreases idxs@.len() - k,
    {
        if idxs[k] == x {
            return true;
        }
        k = k + 1;
    }
    false
}

/// The tasks in memory, backed by the database they were loaded from.
pub struct Todo {
    todos: Vec<Task>,
    db: rusqlite::Connection,
    /// Every write handed to the store since the tasks were loaded, in order.
    log: Ghost<Seq<StoreWrite>>,
}

impl View for Todo {
    type V = Seq<(Seq<char>, bool)>;

    closed spec fn view(&self) -> Seq<(Seq<char>, bool)> {
        self.todos@.map_values(|t: Task| t.model())
    }
}

/// Relies on colored's `Colorize::strikethrough` and its `Display`: either the
/// text as it is (when the environment or the terminal turns colours off), or
/// the text between the escape codes of struck-out style and of reset, with
/// each reset code inside it followed by the struck-out code again.
#[verifier::external_body]
fn strike(text: &str) -> (r: String)
    ensures
        shown_done(text@, r@),
{
    colored::Colorize::strikethrough(text).to_string()
}

impl Todo {
    /// The ids of the tasks run densely from 1 in list order.
    pub closed spec fn wf(&self) -> bool {
        forall|i: int| 0 <= i < self.todos@.len() ==> (#[trigger] self.todos@[i]).id == i + 1
    }

    /// Opens the database at `path`, creating it and its table if absent,
    /// and loads every task in id order.
    pub fn new(path: &str) -> (r: Result<Todo, TodoAppError>)
        ensures
            r matches Ok(t) ==> t.wf() && t.writes() == Seq::<StoreWrite>::empty(),
            r matches Err(e) ==> e is SqliteErr || e is CorruptFormat,
    {
        let mut db = match open_connection(path) {
            Ok(c) => c,
            Err(e) => return Err(TodoAppError::SqliteErr(e)),
        };
        if let Err(e) = execute(&mut db, CREATE_TABLE, Vec::new()) {
            return Err(TodoAppError::SqliteErr(e));
        }
        let rows = match select_rows(&db, SELECT_ALL) {
            Ok(rows) => rows,
            Err(e) => return Err(TodoAppError::SqliteErr(e)),
        };
        let todos = tasks_from_rows(rows)?;
        Ok(Todo { todos, db, log: Ghost(Seq::empty()) })
    }

    /// The number of tasks.
    pub fn len(&self) -> (r: usize)
        ensures
            r == self@.len(),
    {
        self.todos.len()
    }

    /// The tasks in index order.
    pub fn tasks(&self) -> (r: &Vec<Task>)
        ensures
            r@.map_values(|t: Task| t.model()) == self@,
            self.wf() ==> forall|i: int| 0 <= i < r@.len() ==> (#[trigger] r@[i]).id == i + 1,
    {
        &self.todos
    }

    /// The writes handed to the store since the tasks were loaded.
    pub closed spec fn writes(&self) -> Seq<StoreWrite> {
        self.log@
    }

    /// Writes the fields of the task at position `i` to its row.
    fn persist_update(&mut self, i: usize) -> (r: Result<(), TodoAppError>)
        requires
            i < old(self).todos@.len(),
            old(self).todos@[i as int].id <= i64::MAX,
        ensures
            final(self).todos == old(self).todos,
            final(self).log@ == old(self).log@.push(
                StoreWrite::Update(
                    old(self).todos@[i as int].id as nat,
                    old(self).todos@[i as int].name@,
                    old(self).todos@[i as int].done,
                ),
            ),
            r matches Err(e) ==> e is SqliteErr,
    {
        let task = &self.todos[i];
        let params = update_params(task.id, task.name.as_str(), task.done);
        proof {
            self.log@ = self.log@.push(StoreWrite::Update(task.id as nat, task.name@, task.done));
        }
        match execute(&mut self.db, UPDATE_ROW, params) {
            Ok(_) => Ok(()),
            Err(e) => Err(TodoAppError::SqliteErr(e)),
        }
    }

    /// Writes a new row.
    fn persist_insert(&mut self, id: usize, name: &str, done: bool) -> (r: Result<(), TodoAppError>)
        requires
            id <= i64::MAX,
        ensures
            final(self).todos == old(self).todos,
            final(self).log@ == old(self).log@.push(StoreWrite::Insert(id as nat, name@, done)),
            r matches Err(e) ==> e is SqliteErr,
    {
        let params = insert_params(id, name, done);
        proof {
            self.log@ = self.log@.push(StoreWrite::Insert(id as nat, name@, done));
        }
        match execute(&mut self.db, INSERT_ROW, params) {
            Ok(_) => Ok(()),
            Err(e) => Err(TodoAppError::SqliteErr(e)),
        }
    }

    /// Runs a statement without parameters: a transaction boundary or
    /// clearing the table.
    fn persist_plain(&mut self, sql: &'static str, Ghost(w): Ghost<StoreWrite>) -> (r: Result<(), TodoAppError>)
        requires
            (w is Begin && sql == BEGIN) || (w is Commit && sql == COMMIT) || (w is Rollback && sql == ROLLBACK)
                || (w is DeleteAll && sql == DELETE_ALL),
        ensures
            final(self).todos == old(self).todos,
            final(self).log@ == old(self).log@.push(w),
            r matches Err(e) ==> e is SqliteErr,
    {
        proof {
            self.log@ = self.log@.push(w);
        }
        match execute(&mut self.db, sql, Vec::new()) {
            Ok(_) => Ok(()),
            Err(e) => Err(TodoAppError::SqliteErr(e)),
        }
    }

    /// Appends each text that is not blank as a new pending task, in order.
    /// An empty `todos` fails with `InvalidNumberOfArgs` and changes nothing.
    pub fn add(&mut self, todos: Vec<&str>) -> (r: Result<(), TodoAppError>)
        requires
            old(self).wf(),
            old(self)@.len() + todos@.len() <= i64::MAX,
            old(self)@.len() + todos@.len() < usize::MAX,
        ensures
            final(self).wf(),
            (r matches Err(e) && e is InvalidNumberOfArgs) <==> todos@.len() == 0,
            todos@.len() == 0 ==> *final(self) == *old(self),
            r matches Err(e) ==> e is InvalidNumberOfArgs || e is SqliteErr,
            r is Ok ==> final(self)@ == added(old(self)@, texts_of(todos@)),
            old(self)@.len() <= final(self)@.len(),
            forall|k: int| 0 <= k < old(self)@.len() ==> #[trigger] final(self)@[k] == old(self)@[k],
            r is Ok ==> final(self).writes() == old(self).writes() + inserts(old(self)@.len(), fresh(texts_of(todos@))),
            (todos@.len() > 0 && kept(texts_of(todos@)).len() == 0) ==> r is Ok && *final(self) == *old(self),
    {
        if todos.len() == 0 {
            return Err(TodoAppError::InvalidNumberOfArgs);
        }
        let ghost v0 = self@;
        let ghost log0 = self.log@;
        let ghost texts = texts_of(todos@);
        let n = todos.len();
        let mut i: usize = 0;
        while i < n
            invariant
                n == todos@.len(),
                i <= n,
                texts == texts_of(todos@),
                self.wf(),
                v0 == old(self)@,
                v0.len() + n <= i64::MAX,
                v0.len() + n < usize::MAX,
                self@ == added(v0, texts.take(i as int)),
                self@.len() <= v0.len() + i,
                self.todos@.len() == self@.len(),
                v0.len() <= self@.len(),
                forall|k: int| 0 <= k < v0.len() ==> #[trigger] self@[k] == v0[k],
                log0 == old(self).log@,
                self.log@ == log0 + inserts(v0.len(), fresh(texts.take(i as int))),
                kept(texts.take(i as int)).len() == 0 ==> *self == *old(self),
            decreases n - i,
        {
            let text = todos[i];
            proof {
                assert(texts.take(i + 1).drop_last() =~= texts.take(i as int));
                assert(texts.take(i + 1).last() == text@);
            }
            if !is_blank_text(text) {
                let id = self.todos.len() + 1;
                let ghost kb = kept(texts.take(i as int));
                proof {
                    assert(kept(texts.take(i + 1)) == kb.push(text@));
                    assert(self@.len() == v0.len() + kb.len());
                    let fa = fresh(texts.take(i + 1));
                    let fb = fresh(texts.take(i as int)).push((text@, false));
                    let kp = kept(texts.take(i + 1));
                    assert(kp.len() == kb.len() + 1);
                    assert(fa.len() == kp.len());
                    assert(fb.len() == kb.len() + 1);
                    assert forall|j: int| 0 <= j < fa.len() implies #[trigger] fa[j] == fb[j] by {
                        assert(kp[j] == kb.push(text@)[j]);
                        assert(fa[j] == (kp[j], false));
                        if j < kb.len() {
                            assert(fb[j] == fresh(texts.take(i as int))[j]);
                        }
                    }
                    assert(fa =~= fb);
                    assert(inserts(v0.len(), fresh(texts.take(i + 1))) =~= inserts(v0.len(), fresh(texts.take(i as int))).push(
                        StoreWrite::Insert(id as nat, text@, false),
                    ));
                }
                if let Err(e) = self.persist_insert(id, text, false) {
                    proof {
                        lemma_kept_concat(texts.take(i + 1), texts.skip(i + 1));
                        assert(texts.take(i + 1) + texts.skip(i + 1) =~= texts);
                    }
                    return Err(e);
                }
                let ghost prev = self@;
                let name = String::from_str(text);
                self.todos.push(Task::new(id, name, false));
                proof {
                    assert(self.log@ =~= log0 + inserts(v0.len(), fresh(texts.take(i + 1))));
                    assert(kept(texts.take(i + 1)) == kept(texts.take(i as int)).push(text@));
                    assert(self@ =~= prev.push((text@, false)));
                    assert(self@ =~= added(v0, texts.take(i + 1)));
                }
            } else {
                proof {
                    assert(is_blank(texts.take(i + 1).last()));
                    assert(kept(texts.take(i + 1)) == kept(texts.take(i as int)));
                    assert(self@ =~= added(v0, texts.take(i + 1)));
                    assert(fresh(texts.take(i + 1)) == fresh(texts.take(i as int)));
                }
            }
            i = i + 1;
        }
        proof {
            assert(texts.take(n as int) =~= texts);
        }
        Ok(())
    }

    /// Marks the tasks at `indexs` as done. Fails with `InvalidNumberOfArgs`
    /// on no index, and with `IncorrectIndex` naming the first index outside
    /// `1..=len`; in both cases before anything is changed.
    pub fn done(&mut self, indexs: Vec<usize>) -> (r: Result<(), TodoAppError>)
        requires
            old(self).wf(),
            old(self)@.len() <= i64::MAX,
        ensures
            final(self).wf(),
            (r matches Err(e) && e is InvalidNumberOfArgs) <==> indexs@.len() == 0,
            (r matches Err(e) && e is IncorrectIndex) <==> (indexs@.len() > 0 && !all_in_range(
                indexs@,
                old(self)@.len(),
            )),
            r matches Err(TodoAppError::IncorrectIndex(j)) ==> first_out_of_range(indexs@, old(self)@.len(), j),
            (indexs@.len() == 0 || !all_in_range(indexs@, old(self)@.len())) ==> *final(self) == *old(self),
            r matches Err(e) ==> e is InvalidNumberOfArgs || e is IncorrectIndex || e is SqliteErr,
            r is Ok ==> final(self)@ == marked(old(self)@, indexs@),
            r is Ok ==> final(self).writes() == old(self).writes() + mark_writes(old(self)@, indexs@),
            final(self)@.len() == old(self)@.len(),
            forall|k: int|
                0 <= k < old(self)@.len() ==> (#[trigger] final(self)@[k]).0 == old(self)@[k].0 && (old(
                    self,
                )@[k].1 ==> final(self)@[k].1),
    {
        if indexs.len() == 0 {
            return Err(TodoAppError::InvalidNumberOfArgs);
        }
        if let Some(j) = first_bad_index(&indexs, self.todos.len()) {
            return Err(TodoAppError::IncorrectIndex(j));
        }
        let ghost v0 = self@;
        let n = indexs.len();
        let mut i: usize = 0;
        proof {
            assert(self@ =~= marked(v0, indexs@.take(0)));
            assert(self.log@ =~= old(self).log@ + mark_writes(v0, indexs@.take(0)));
        }
        while i < n
            invariant
                n == indexs@.len(),
                i <= n,
                v0 == old(self)@,
                v0.len() <= i64::MAX,
                all_in_range(indexs@, v0.len()),
                self.wf(),
                self.todos@.len() == v0.len(),
                self@.len() == v0.len(),
                self@ == marked(v0, indexs@.take(i as int)),
                self.log@ == old(self).log@ + mark_writes(v0, indexs@.take(i as int)),
            decreases n - i,
        {
            let ind = indexs[i];
            assert(in_range(indexs@[i as int], v0.len()));
            let k = ind - 1;
            let name = self.todos[k].name.clone();
            let ghost prev = self@;
            self.todos.set(k, Task::new(ind, name, true));
            proof {
                let pa = indexs@.take(i as int);
                let pb = indexs@.take(i + 1);
                assert forall|q: int| 0 <= q < v0.len() implies #[trigger] self@[q] == marked(v0, pb)[q] by {
                    if q == k {
                        assert(pb[i as int] == ind);
                        assert(pb.contains((q + 1) as usize));
                        assert(self.todos@[q].name@ == prev[q].0);
                        assert(prev[q].0 == v0[q].0);
                        assert(self@[q] == (v0[q].0, true));
                    } else {
                        assert(self@[q] == prev[q]);
                        assert(prev[q] == marked(v0, pa)[q]);
                        if pb.contains((q + 1) as usize) {
                            let m = choose|m: int| 0 <= m < pb.len() && pb[m] == (q + 1) as usize;
                            assert(m < i);
                            assert(pa[m] == pb[m]);
                            assert(pa.contains((q + 1) as usize));
                        }
                        if pa.contains((q + 1) as usize) {
                            let m = choose|m: int| 0 <= m < pa.len() && pa[m] == (q + 1) as usize;
                            assert(pb[m] == pa[m]);
                        }
                    }
                }
                assert(self@ =~= marked(v0, pb));
            }
            proof {
                assert(self.todos@[k as int].name@ == prev[k as int].0);
                assert(prev[k as int] == marked(v0, indexs@.take(i as int))[k as int]);
                assert(self.todos@[k as int].name@ == v0[k as int].0);
                assert(indexs@.take(i + 1)[i as int] == ind);
            }
            if let Err(e) = self.persist_update(k) {
                return Err(e);
            }
            proof {
                assert(mark_writes(v0, indexs@.take(i + 1)) =~= mark_writes(v0, indexs@.take(i as int)).push(
                    StoreWrite::Update(ind as nat, v0[k as int].0, true),
                ));
                assert(self.log@ =~= old(self).log@ + mark_writes(v0, indexs@.take(i + 1)));
            }
            i = i + 1;
        }
        proof {
            assert(indexs@.take(n as int) =~= indexs@);
        }
        Ok(())
    }

    /// Replaces the text of the task at `index`, keeping its done flag.
    /// Fails with `IncorrectIndex` when `index` is outside `1..=len`,
    /// before anything is changed.
    pub fn edit(&mut self, index: usize, replacement_todo: String) -> (r: Result<(), TodoAppError>)
        requires
            old(self).wf(),
            old(self)@.len() <= i64::MAX,
        ensures
            final(self).wf(),
            (r matches Err(e) && e is IncorrectIndex) <==> !in_range(index, old(self)@.len()),
            r matches Err(TodoAppError::IncorrectIndex(j)) ==> j == index,
            !in_range(index, old(self)@.len()) ==> *final(self) == *old(self),
            in_range(index, old(self)@.len()) ==> final(self)@ == edited(old(self)@, index, replacement_todo@),
            in_range(index, old(self)@.len()) ==> final(self).writes() == old(self).writes().push(
                StoreWrite::Update(index as nat, replacement_todo@, old(self)@[index - 1].1),
            ),
            r matches Err(e) ==> e is IncorrectIndex || e is SqliteErr,
    {
        if index == 0 || index > self.todos.len() {
            return Err(TodoAppError::IncorrectIndex(index));
        }
        let k = index - 1;
        let done = self.todos[k].done;
        let ghost prev = self@;
        self.todos.set(k, Task::new(index, replacement_todo, done));
        proof {
            assert(self@ =~= edited(prev, index, replacement_todo@));
        }
        self.persist_update(k)
    }

    /// Drops the tasks whose index is in `args` and numbers the rest afresh
    /// from 1, in their order; indexes that name no task are ignored. In one
    /// transaction, the table is cleared and refilled with the survivors; if a
    /// write fails the transaction is rolled back. Fails with
    /// `InvalidNumberOfArgs` on no index, before anything is changed.
    pub fn remove(&mut self, args: Vec<usize>) -> (r: Result<(), TodoAppError>)
        requires
            old(self).wf(),
            old(self)@.len() <= i64::MAX,
        ensures
            final(self).wf(),
            (r matches Err(e) && e is InvalidNumberOfArgs) <==> args@.len() == 0,
            args@.len() == 0 ==> *final(self) == *old(self),
            r matches Err(e) ==> e is InvalidNumberOfArgs || e is SqliteErr,
            r is Ok ==> final(self)@ == survivors(old(self)@, args@),
            r is Ok ==> final(self).writes() == old(self).writes() + rewrite(survivors(old(self)@, args@)),
            r is Err ==> final(self)@ == old(self)@,
            (r is Err && args@.len() > 0) ==> final(self).writes() == old(self).writes().push(StoreWrite::Begin)
                || (final(self).writes().len() > old(self).writes().len() + 1
                && final(self).writes()[old(self).writes().len() as int] is Begin
                && final(self).writes().last() is Rollback),
    {
        if args.len() == 0 {
            return Err(TodoAppError::InvalidNumberOfArgs);
        }
        let ghost v0 = self@;
        let ghost log0 = self.log@;
        let n = self.todos.len();
        let mut rest: Vec<Task> = Vec::new();
        let mut i: usize = 0;
        while i < n
            invariant
                n == self.todos@.len(),
                v0 == self@,
                args@.len() > 0,
                *self == *old(self),
                self.wf(),
                i <= n,
                rest@.len() <= i,
                forall|k: int| 0 <= k < rest@.len() ==> (#[trigger] rest@[k]).id == k + 1,
                rest@.map_values(|t: Task| t.model()) == survivors(v0.take(i as int), args@),
            decreases n - i,
        {
            let ghost prev = rest@;
            proof {
                assert(v0.take(i + 1).drop_last() =~= v0.take(i as int));
            }
            if !contains_index(&args, self.todos[i].id) {
                let name = self.todos[i].name.clone();
                let id = rest.len() + 1;
                rest.push(Task::new(id, name, self.todos[i].done));
                proof {
                    assert(rest@.map_values(|t: Task| t.model()) =~= prev.map_values(|t: Task| t.model()).push(v0[i as int]));
                }
            }
            i = i + 1;
        }
        let ghost sv = survivors(v0, args@);
        proof {
            assert(v0.take(n as int) =~= v0);
        }
        self.persist_plain(BEGIN, Ghost(StoreWrite::Begin))?;
        if let Err(e) = self.persist_plain(DELETE_ALL, Ghost(StoreWrite::DeleteAll)) {
            let _ = self.persist_plain(ROLLBACK, Ghost(StoreWrite::Rollback));
            return Err(e);
        }
        let m = rest.len();
        let mut j: usize = 0;
        proof {
            assert(inserts(0, sv.take(0)) =~= Seq::<StoreWrite>::empty());
            assert(self.log@ =~= log0 + seq![StoreWrite::Begin, StoreWrite::DeleteAll] + inserts(0, sv.take(0)));
        }
        while j < m
            invariant
                m == rest@.len(),
                m <= i64::MAX,
                args@.len() > 0,
                j <= m,
                self.wf(),
                self@ == v0,
                self.todos == old(self).todos,
                log0 == old(self).log@,
                forall|k: int| 0 <= k < rest@.len() ==> (#[trigger] rest@[k]).id == k + 1,
                rest@.map_values(|t: Task| t.model()) == sv,
                self.log@ == log0 + seq![StoreWrite::Begin, StoreWrite::DeleteAll] + inserts(0, sv.take(j as int)),
            decreases m - j,
        {
            if let Err(e) = self.persist_insert(rest[j].id, rest[j].name.as_str(), rest[j].done) {
                let _ = self.persist_plain(ROLLBACK, Ghost(StoreWrite::Rollback));
                return Err(e);
            }
            proof {
                assert(sv[j as int] == rest@[j as int].model());
                assert(inserts(0, sv.take(j + 1)) =~= inserts(0, sv.take(j as int)).push(
                    StoreWrite::Insert((j + 1) as nat, sv[j as int].0, sv[j as int].1),
                ));
                assert(self.log@ =~= log0 + seq![StoreWrite::Begin, StoreWrite::DeleteAll] + inserts(0, sv.take(j + 1)));
            }
            j = j + 1;
        }
        if let Err(e) = self.persist_plain(COMMIT, Ghost(StoreWrite::Commit)) {
            let _ = self.persist_plain(ROLLBACK, Ghost(StoreWrite::Rollback));
            return Err(e);
        }
        proof {
            assert(sv.take(m as int) =~= sv);
            assert(self.log@ =~= log0 + rewrite(sv));
        }
        self.todos = rest;
        proof {
            assert(self@ =~= sv);
        }
        Ok(())
    }

    /// The listing, one line per task in index order: `"{id}. {text}"`, the
    /// text of a done task struck out.
    pub fn list(&self) -> (r: Vec<String>)
        ensures
            listed(self@, r@.map_values(|s: String| s@)),
    {
        let n = self.todos.len();
        let mut lines: Vec<String> = Vec::new();
        let mut i: usize = 0;
        while i < n
            invariant
                n == self.todos@.len(),
                n == self@.len(),
                i <= n,
                lines@.len() == i,
                forall|k: int|
                    0 <= k < i && !self@[k].1 ==> #[trigger] lines@[k]@ == line_of((k + 1) as nat, self@[k].0),
                forall|k: int|
                    0 <= k < i && self@[k].1 ==> exists|s: Seq<char>|
                        lines@[k]@ == #[trigger] line_of((k + 1) as nat, s) && shown_done(self@[k].0, s),
            decreases n - i,
        {
            let task = &self.todos[i];
            let shown = if task.done {
                strike(task.name.as_str())
            } else {
                task.name.clone()
            };
            let line = render_line(i + 1, shown.as_str());
            let ghost prev = lines@;
            lines.push(line);
            proof {
                assert forall|k: int| 0 <= k < i + 1 && self@[k].1 implies exists|s: Seq<char>|
                    lines@[k]@ == #[trigger] line_of((k + 1) as nat, s) && shown_done(self@[k].0, s) by {
                    if k == i {
                        assert(lines@[k]@ == line_of((k + 1) as nat, shown@));
                    } else {
                        assert(lines@[k] == prev[k]);
                    }
                }
            }
            i = i + 1;
        }
        proof {
            let mapped = lines@.map_values(|s: String| s@);
            assert forall|k: int| 0 <= k < n implies #[trigger] mapped[k] == lines@[k]@ by {}
        }
        lines
    }
}

} // verus!
