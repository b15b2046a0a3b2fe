//! The per-table migration task: a small state machine driven by the
//! outcomes of target-store operations.

use vstd::prelude::*;

use crate::error::MigrationError;

verus! {

/// Per-table migration state. One task per table; tasks are
/// independent of each other.
#[derive(Debug, Clone, PartialEq, Eq)]
pub enum TaskState {
    /// Nothing has happened for this table yet.
    Pending,
    /// The target schema statement was accepted.
    SchemaCreated,
    /// Every row read from the source reached the target in a batch.
    DataMigrated,
    /// The table was abandoned with the recorded error.
    Failed(MigrationError),
}

/// Outcomes of target-store operations, as reported by the driver
/// that performs them.
#[derive(Debug, Clone, PartialEq, Eq)]
pub enum TableEvent {
    /// The schema-definition statement was accepted.
    SchemaWritten,
    /// The schema-definition statement was rejected.
    SchemaRejected,
    /// All batches for the table were committed.
    RowsLoaded,
    /// A batch was rejected even after retries; carries its row range
    /// in scan order.
    BatchFailed { first_row: usize, last_row: usize },
}

/// States from which no further transition occurs.
pub open spec fn is_terminal(s: TaskState) -> bool {
    s is DataMigrated || s is Failed
}

/// The transition relation of a task: schema creation happens once,
/// data loading happens once, and any failure is terminal.
pub open spec fn step_allowed(pre: TaskState, post: TaskState) -> bool {
    ||| (pre is Pending && (post is SchemaCreated || post is Failed))
    ||| (pre is SchemaCreated && (post is DataMigrated || post is Failed))
}

/// An event fits the state it is delivered in: schema outcomes while
/// the task is pending, load outcomes once the schema exists.
pub open spec fn event_fits(s: TaskState, ev: TableEvent) -> bool {
    match ev {
        TableEvent::SchemaWritten => s is Pending,
        TableEvent::SchemaRejected => s is Pending,
        TableEvent::RowsLoaded => s is SchemaCreated,
        TableEvent::BatchFailed { .. } => s is SchemaCreated,
    }
}

/// Advances one table's task by one observed event.
///
/// The successor is a function of the event alone: acceptance moves
/// the task forward, rejection moves it to `Failed` with an error
/// naming the table (and, for a batch, the failed row range).
pub fn step_task(table: &String, state: &TaskState, ev: &TableEvent) -> (post: TaskState)
    requires
        event_fits(*state, *ev),
    ensures
        step_allowed(*state, post),
        *ev is SchemaWritten ==> post is SchemaCreated,
        *ev is RowsLoaded ==> post is DataMigrated,
        *ev is SchemaRejected ==> (post matches TaskState::Failed(
            MigrationError::SchemaWrite { table: t },
        ) && t@ == table@),
        *ev matches TableEvent::BatchFailed { first_row, last_row } ==> (post matches TaskState::Failed(
            MigrationError::BatchWrite { table: t, first_row: f, last_row: l },
        ) && t@ == table@ && f == first_row && l == last_row),
{
    match ev {
        TableEvent::SchemaWritten => TaskState::SchemaCreated,
        TableEvent::SchemaRejected => TaskState::Failed(
            MigrationError::SchemaWrite { table: table.clone() },
        ),
        TableEvent::RowsLoaded => TaskState::DataMigrated,
        TableEvent::BatchFailed { first_row, last_row } => TaskState::Failed(
            MigrationError::BatchWrite {
                table: table.clone(),
                first_row: *first_row,
                last_row: *last_row,
            },
        ),
    }
}

/// Decides whether a rejected batch gets another attempt:
/// `attempts_made` failures so far are tolerated while they do not
/// exceed the configured retry count.
pub fn should_retry(attempts_made: usize, max_retries: usize) -> (r: bool)
    ensures
        r == (attempts_made <= max_retries),
{
    attempts_made <= max_retries
}

/// `2^n`, the backoff growth factor.
pub open spec fn doubling(n: nat) -> int
    decreases n,
{
    if n == 0 {
        1
    } else {
        2 * doubling((n - 1) as nat)
    }
}

/// How long to back off before retry number `attempt` (counting from
/// zero): the base delay doubled once per preceding attempt,
/// saturating instead of overflowing.
pub fn retry_backoff_ms(attempt: usize, base_ms: u64) -> (r: u64)
    ensures
        r as int == if doubling(attempt as nat) * base_ms <= u64::MAX as int {
            doubling(attempt as nat) * base_ms
        } else {
            u64::MAX as int
        },
{
    let mut r = base_ms;
    let half = u64::MAX / 2;
    let mut i: usize = 0;
    while i < attempt
        invariant
            half == u64::MAX as int / 2,
            i <= attempt,
            r as int == if doubling(i as nat) * base_ms <= u64::MAX as int {
                doubling(i as nat) * base_ms
            } else {
                u64::MAX as int
            },
        decreases attempt - i,
    {
        proof {
            assert(doubling((i + 1) as nat) == 2 * doubling(i as nat));
            assert(doubling((i + 1) as nat) * base_ms == 2 * (doubling(i as nat) * base_ms))
                by (nonlinear_arith)
                requires
                    doubling((i + 1) as nat) == 2 * doubling(i as nat),
            ;
            assert(doubling(i as nat) >= 1) by {
                lemma_doubling_pos(i as nat);
            }
            assert(doubling(i as nat) * base_ms >= base_ms >= 0) by (nonlinear_arith)
                requires
                    doubling(i as nat) >= 1,
                    base_ms >= 0,
            ;
        }
        if r > half {
            r = u64::MAX;
        } else {
            r = r * 2;
        }
        i = i + 1;
    }
    r
}

pub proof fn lemma_doubling_pos(n: nat)
    ensures
        doubling(n) >= 1,
    decreases n,
{
    if n > 0 {
        lemma_doubling_pos((n - 1) as nat);
    }
}

} // verus!
