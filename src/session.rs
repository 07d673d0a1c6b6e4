use vstd::prelude::*;
use crate::words::WordTranslation;

verus! {

/// Why a batch could not be served. None of them leaves a row served.
#[derive(Debug)]
pub enum StoreError {
    /// The store could not be reached; no transaction was opened.
    Unavailable(String),
    /// A statement or the commit failed; the store rolled the work back.
    Failed(String),
    /// The candidate query returned more rows than were asked for.
    Oversized { limit: u64, returned: u64 },
    /// The update touched another number of rows than were selected.
    Mismatch { expected: u64, affected: u64 },
}

/// Where one serving transaction stands.
#[derive(Clone, Copy, Debug, PartialEq, Eq, Structural)]
pub enum PickPhase {
    Idle,
    Opening,
    Selecting,
    Updating,
    Committing,
    RollingBack,
    Done,
}

/// What the store reports back to the session.
pub enum StoreEvent {
    /// A caller asks for a batch.
    Requested,
    /// A transaction is open.
    Opened,
    /// The candidate rows, locked by this transaction.
    Rows(Vec<WordTranslation>),
    /// The number of rows the update touched.
    RowsUpdated(u64),
    Committed,
    RolledBack,
    /// The last request to the store failed, with the store's words.
    Failed(String),
}

/// What the session asks of the store, or hands to the caller.
pub enum StoreAction {
    /// Open a transaction.
    Begin,
    /// Lock and read up to this many rows, least served first, skipping
    /// rows locked by others.
    SelectCandidates(u64),
    /// Serve once more exactly the rows with these words.
    ServeKeys(Vec<String>),
    Commit,
    Rollback,
    /// The batch was served: hand these rows to the caller.
    Reply(Vec<WordTranslation>),
    /// The batch was not served.
    Report(StoreError),
    /// Nothing to do for this event.
    Wait,
}

/// One call of the picker against a transactional store: it selects the
/// candidate rows once, serves exactly those rows, and replies with exactly
/// those rows after the commit.
pub struct PickSession {
    pub limit: u64,
    pub phase: PickPhase,
    pub rows: Vec<WordTranslation>,
    pub error: Option<StoreError>,
}

/// `keys` lists the words of `rows`, in order.
pub open spec fn keys_of(rows: Seq<WordTranslation>, keys: Seq<String>) -> bool {
    &&& keys.len() == rows.len()
    &&& forall|j: int| 0 <= j < rows.len() ==> #[trigger] keys[j]@ == rows[j].word@
}

/// Session `t` and action `a` are what session `s` moves to on event `e`.
pub open spec fn step_spec(s: PickSession, e: StoreEvent, t: PickSession, a: StoreAction) -> bool {
    &&& t.limit == s.limit
    &&& match s.phase {
        PickPhase::Idle => match e {
            StoreEvent::Requested => t.phase == PickPhase::Opening && a == StoreAction::Begin,
            _ => t.phase == PickPhase::Idle && a == StoreAction::Wait,
        },
        PickPhase::Opening => match e {
            StoreEvent::Opened => t.phase == PickPhase::Selecting && a
                == StoreAction::SelectCandidates(s.limit),
            StoreEvent::Failed(d) => t.phase == PickPhase::Done && a == StoreAction::Report(
                StoreError::Unavailable(d),
            ),
            _ => t.phase == PickPhase::Opening && a == StoreAction::Wait,
        },
        PickPhase::Selecting => match e {
            StoreEvent::Rows(rows) => if rows.len() <= s.limit {
                &&& t.phase == PickPhase::Updating
                &&& t.rows == rows
                &&& match a {
                    StoreAction::ServeKeys(keys) => keys_of(rows@, keys@),
                    _ => false,
                }
            } else {
                &&& t.phase == PickPhase::RollingBack
                &&& a == StoreAction::Rollback
                &&& t.error == Some(
                    StoreError::Oversized { limit: s.limit, returned: rows.len() as u64 },
                )
            },
            StoreEvent::Failed(d) => t.phase == PickPhase::RollingBack && a == StoreAction::Rollback
                && t.error == Some(StoreError::Failed(d)),
            _ => t.phase == PickPhase::Selecting && a == StoreAction::Wait,
        },
        PickPhase::Updating => match e {
            StoreEvent::RowsUpdated(k) => if k == s.rows.len() {
                t.phase == PickPhase::Committing && a == StoreAction::Commit && t.rows == s.rows
            } else {
                &&& t.phase == PickPhase::RollingBack
                &&& a == StoreAction::Rollback
                &&& t.error == Some(
                    StoreError::Mismatch { expected: s.rows.len() as u64, affected: k },
                )
            },
            StoreEvent::Failed(d) => t.phase == PickPhase::RollingBack && a == StoreAction::Rollback
                && t.error == Some(StoreError::Failed(d)),
            _ => t.phase == PickPhase::Updating && a == StoreAction::Wait && t.rows == s.rows,
        },
        PickPhase::Committing => match e {
            StoreEvent::Committed => t.phase == PickPhase::Done && a == StoreAction::Reply(s.rows),
            StoreEvent::Failed(d) => t.phase == PickPhase::Done && a == StoreAction::Report(
                StoreError::Failed(d),
            ),
            _ => t.phase == PickPhase::Committing && a == StoreAction::Wait && t.rows == s.rows,
        },
        PickPhase::RollingBack => match e {
            StoreEvent::RolledBack | StoreEvent::Failed(_) => t.phase == PickPhase::Done && match s.error {
                Some(err) => a == StoreAction::Report(err),
                None => a == StoreAction::Wait,
            },
            _ => t.phase == PickPhase::RollingBack && a == StoreAction::Wait && t.error == s.error,
        },
        PickPhase::Done => t.phase == PickPhase::Done && a == StoreAction::Wait,
    }
}

impl PickSession {
    /// A session that will ask for up to `limit` rows.
    pub fn new(limit: u64) -> (s: PickSession)
        ensures
            s.limit == limit,
            s.phase == PickPhase::Idle,
            s.rows@.len() == 0,
            s.error.is_none(),
    {
        PickSession { limit, phase: PickPhase::Idle, rows: Vec::new(), error: None }
    }

    /// Takes the store's report `e` and says what to do next.
    pub fn step(&mut self, e: StoreEvent) -> (a: StoreAction)
        ensures
            step_spec(*old(self), e, *final(self), a),
    {
        match self.phase {
            PickPhase::Idle => match e {
                StoreEvent::Requested => {
                    self.phase = PickPhase::Opening;
                    StoreAction::Begin
                },
                _ => StoreAction::Wait,
            },
            PickPhase::Opening => match e {
                StoreEvent::Opened => {
                    self.phase = PickPhase::Selecting;
                    StoreAction::SelectCandidates(self.limit)
                },
                StoreEvent::Failed(d) => {
                    self.phase = PickPhase::Done;
                    StoreAction::Report(StoreError::Unavailable(d))
                },
                _ => StoreAction::Wait,
            },
            PickPhase::Selecting => match e {
                StoreEvent::Rows(rows) => {
                    if rows.len() as u64 <= self.limit {
                        let keys = words_of(&rows);
                        self.rows = rows;
                        self.phase = PickPhase::Updating;
                        StoreAction::ServeKeys(keys)
                    } else {
                        self.error = Some(
                            StoreError::Oversized { limit: self.limit, returned: rows.len() as u64 },
                        );
                        self.phase = PickPhase::RollingBack;
                        StoreAction::Rollback
                    }
                },
                StoreEvent::Failed(d) => {
                    self.error = Some(StoreError::Failed(d));
                    self.phase = PickPhase::RollingBack;
                    StoreAction::Rollback
                },
                _ => StoreAction::Wait,
            },
            PickPhase::Updating => match e {
                StoreEvent::RowsUpdated(k) => {
                    if k == self.rows.len() as u64 {
                        self.phase = PickPhase::Committing;
                        StoreAction::Commit
                    } else {
                        self.error = Some(
                            StoreError::Mismatch { expected: self.rows.len() as u64, affected: k },
                        );
                        self.phase = PickPhase::RollingBack;
                        StoreAction::Rollback
                    }
                },
                StoreEvent::Failed(d) => {
                    self.error = Some(StoreError::Failed(d));
                    self.phase = PickPhase::RollingBack;
                    StoreAction::Rollback
                },
                _ => StoreAction::Wait,
            },
            PickPhase::Committing => match e {
                StoreEvent::Committed => {
                    let mut rows: Vec<WordTranslation> = Vec::new();
                    std::mem::swap(&mut rows, &mut self.rows);
                    self.phase = PickPhase::Done;
                    StoreAction::Reply(rows)
                },
                StoreEvent::Failed(d) => {
                    self.phase = PickPhase::Done;
                    StoreAction::Report(StoreError::Failed(d))
                },
                _ => StoreAction::Wait,
            },
            PickPhase::RollingBack => match e {
                StoreEvent::RolledBack | StoreEvent::Failed(_) => {
                    self.phase = PickPhase::Done;
                    match self.error.take() {
                        Some(err) => StoreAction::Report(err),
                        None => StoreAction::Wait,
                    }
                },
                _ => StoreAction::Wait,
            },
            PickPhase::Done => StoreAction::Wait,
        }
    }
}

/// The words of `rows`, in order: the exact identities of the selected rows.
pub fn words_of(rows: &Vec<WordTranslation>) -> (keys: Vec<String>)
    ensures
        keys_of(rows@, keys@),
{
    let mut keys: Vec<String> = Vec::new();
    let mut j: usize = 0;
    while j < rows.len()
        invariant
            j <= rows.len(),
            keys.len() == j,
            forall|k: int| 0 <= k < j ==> #[trigger] keys[k]@ == rows[k].word@,
        decreases rows.len() - j,
    {
        keys.push(rows[j].word.clone());
        j = j + 1;
    }
    keys
}

} // verus!
