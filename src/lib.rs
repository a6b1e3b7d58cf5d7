//! A small todo-list manager: tasks addressed by a dense 1-based index,
//! kept in memory and written through to an embedded SQLite store.

mod laws;
mod render;
mod store;
mod task;
mod todo;

pub use laws::{
    apply_write, lemma_add_rows, lemma_add_then_list, lemma_add_twice, lemma_done_monotone, lemma_done_rows,
    lemma_edit_rows, lemma_kept_concat, lemma_list_stable, lemma_remove_count, lemma_remove_keeps_order,
    lemma_remove_rows, lemma_table_concat, picks, removed_count, rows_of, table_after,
};
pub use store::{flag_value, StoreWrite};
pub use render::{decimal, decimal_string, is_blank, is_blank_text, is_white_space, line_of, render_line};
pub use task::{rows_valid, tasks_from_rows, Task, TodoAppError};
pub use todo::{
    added, all_in_range, edited, first_out_of_range, fresh, in_range, inserts, kept, listed, mark_writes, marked,
    rewrite, shown_done, struck, survivors, texts_of, Todo,
};
