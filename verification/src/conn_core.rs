//! The state of a session: what has to be known of a connection to build
//! the next request and to take in the next reply.

use crate::error::{EvaluationError, HdbError};
use crate::parts::option_part::{OptionPart, Options};
use crate::parts::statement_context::{processing_time_of, ssi_of, StatementContext};
use crate::parts::transaction_flags::{flag_of, TaFlag, TransactionFlags};
use vstd::prelude::*;

verus! {

/// The packet sequence number of a connection on which nothing was sent.
pub const INITIAL_SEQ_NUMBER: i32 = -1;

/// How many units of a large object are asked for at once, unless the
/// caller says otherwise.
pub const DEFAULT_LOB_READ_LENGTH: i32 = 1_000_000;

/// How many rows are fetched at once, unless the caller says otherwise.
pub const DEFAULT_FETCH_SIZE: u32 = 32;

/// Where the transaction of a session stands.
#[derive(Clone, Copy, Debug, PartialEq, Eq, Structural)]
pub enum TransactionState {
    Initial,
    RolledBack,
    Committed,
    OpenWithoutWrite,
    OpenWithWrite,
}

/// The state of a session as the model sees it.
pub struct ConnectionView {
    pub session_id: i64,
    /// The sequence number of the packet that was sent last.
    pub seq_number: i32,
    /// What the server wants echoed with the next request.
    pub ssi: Option<Seq<u8>>,
    pub transaction_state: TransactionState,
    pub isolation_level: i32,
    pub ddl_commit_mode_changed: bool,
    pub auto_commit: bool,
    /// The time that the server says it has spent, in microseconds.
    pub server_proc_time: i64,
    pub lob_read_length: i32,
    pub fetch_size: u32,
    /// Number of requests that were built for sending.
    pub call_count: u64,
    /// The connection has failed, and is no longer used.
    pub poisoned: bool,
    /// The user that has logged on, if one has.
    pub authenticated_user: Option<Seq<char>>,
    /// What the server has said of its version and its capabilities, if it
    /// has.
    pub connect_options: Option<Options>,
}

/// The state of a session.
#[derive(Debug, PartialEq, Eq)]
pub struct ConnectionState {
    session_id: i64,
    seq_number: i32,
    ssi: Option<Vec<u8>>,
    transaction_state: TransactionState,
    isolation_level: i32,
    ddl_commit_mode_changed: bool,
    auto_commit: bool,
    server_proc_time: i64,
    lob_read_length: i32,
    fetch_size: u32,
    call_count: u64,
    poisoned: bool,
    authenticated_user: Option<String>,
    connect_options: Option<OptionPart>,
}

/// The bytes as the contracts see them.
pub open spec fn bytes_of(o: Option<Vec<u8>>) -> Option<Seq<u8>> {
    match o {
        Some(v) => Some(v@),
        None => None,
    }
}

impl View for ConnectionState {
    type V = ConnectionView;

    closed spec fn view(&self) -> ConnectionView {
        ConnectionView {
            session_id: self.session_id,
            seq_number: self.seq_number,
            ssi: bytes_of(self.ssi),
            transaction_state: self.transaction_state,
            isolation_level: self.isolation_level,
            ddl_commit_mode_changed: self.ddl_commit_mode_changed,
            auto_commit: self.auto_commit,
            server_proc_time: self.server_proc_time,
            lob_read_length: self.lob_read_length,
            fetch_size: self.fetch_size,
            call_count: self.call_count,
            poisoned: self.poisoned,
            authenticated_user: match self.authenticated_user {
                Some(u) => Some(u@),
                None => None,
            },
            connect_options: match self.connect_options {
                Some(o) => Some(o@),
                None => None,
            },
        }
    }
}

/// A sum of microseconds that stays within 64 bits.
pub open spec fn clamped(t: int) -> i64 {
    if t > i64::MAX {
        i64::MAX
    } else if t < i64::MIN {
        i64::MIN
    } else {
        t as i64
    }
}

/// The state after a statement context was taken in: its statement sequence
/// info replaces the one that was stored, and its processing time is added
/// to the account.
pub open spec fn with_statement_context(c: ConnectionView, ctx: Options) -> ConnectionView {
    ConnectionView {
        ssi: ssi_of(ctx),
        server_proc_time: clamped(c.server_proc_time + processing_time_of(ctx)),
        ..c
    }
}

/// The state after one transaction flag was taken in, or the error that the
/// flag stands for.
pub open spec fn with_flag(c: ConnectionView, flag: TaFlag) -> Result<ConnectionView, HdbError> {
    match flag {
        TaFlag::RolledBack => Ok(
            ConnectionView { transaction_state: TransactionState::RolledBack, ..c },
        ),
        TaFlag::Committed => Ok(
            ConnectionView { transaction_state: TransactionState::Committed, ..c },
        ),
        TaFlag::NewIsolationLevel(i) => Ok(ConnectionView { isolation_level: i, ..c }),
        TaFlag::DdlCommitModeChanged => Ok(ConnectionView { ddl_commit_mode_changed: true, ..c }),
        TaFlag::WriteTransactionStarted => Ok(
            ConnectionView { transaction_state: TransactionState::OpenWithWrite, ..c },
        ),
        TaFlag::TransactionClosed => Ok(
            ConnectionView { transaction_state: TransactionState::OpenWithoutWrite, ..c },
        ),
        TaFlag::SessionClosingTransactionError => Err(
            HdbError::Evaluation(EvaluationError::SessionClosingTransaction),
        ),
        TaFlag::Nothing => Ok(c),
    }
}

/// The state after the first `k` transaction flags were taken in, one after
/// the other, or the first error with the state that the flags before it
/// have led to.
pub open spec fn with_flags(c: ConnectionView, flags: Options, k: nat) -> Result<
    ConnectionView,
    (HdbError, ConnectionView),
>
    decreases k,
{
    if k == 0 {
        Ok(c)
    } else {
        match with_flags(c, flags, (k - 1) as nat) {
            Err(x) => Err(x),
            Ok(d) => match with_flag(d, flag_of(flags[k - 1])) {
                Ok(x) => Ok(x),
                Err(e) => Err((e, d)),
            },
        }
    }
}

/// Once a flag fails, the flags fail the same way.
pub proof fn lemma_flags_failure(c: ConnectionView, flags: Options, i: nat, n: nat)
    requires
        i <= n,
        with_flags(c, flags, i) is Err,
    ensures
        with_flags(c, flags, n) == with_flags(c, flags, i),
    decreases n - i,
{
    if i < n {
        lemma_flags_failure(c, flags, i, (n - 1) as nat);
    }
}

/// The state after a request was built for sending.
pub open spec fn after_request(c: ConnectionView) -> ConnectionView {
    ConnectionView {
        seq_number: (c.seq_number + 1) as i32,
        call_count: if c.call_count < u64::MAX {
            (c.call_count + 1) as u64
        } else {
            c.call_count
        },
        ..c
    }
}

impl ConnectionState {
    /// The state of a connection on which nothing was sent.
    pub fn new() -> (r: ConnectionState)
        ensures
            r@ == (ConnectionView {
                session_id: 0,
                seq_number: INITIAL_SEQ_NUMBER,
                ssi: None,
                transaction_state: TransactionState::Initial,
                isolation_level: 0,
                ddl_commit_mode_changed: false,
                auto_commit: true,
                server_proc_time: 0,
                lob_read_length: DEFAULT_LOB_READ_LENGTH,
                fetch_size: DEFAULT_FETCH_SIZE,
                call_count: 0,
                poisoned: false,
                authenticated_user: None,
                connect_options: None,
            }),
    {
        ConnectionState {
            session_id: 0,
            seq_number: INITIAL_SEQ_NUMBER,
            ssi: None,
            transaction_state: TransactionState::Initial,
            isolation_level: 0,
            ddl_commit_mode_changed: false,
            auto_commit: true,
            server_proc_time: 0,
            lob_read_length: DEFAULT_LOB_READ_LENGTH,
            fetch_size: DEFAULT_FETCH_SIZE,
            call_count: 0,
            poisoned: false,
            authenticated_user: None,
            connect_options: None,
        }
    }

    /// The session the server assigned, 0 before that.
    pub fn session_id(&self) -> (r: i64)
        ensures
            r == self@.session_id,
    {
        self.session_id
    }

    /// Takes the session that the server assigned.
    pub fn set_session_id(&mut self, session_id: i64)
        ensures
            final(self)@ == (ConnectionView { session_id, ..old(self)@ }),
    {
        self.session_id = session_id;
    }

    /// The sequence number of the packet that was sent last.
    pub fn seq_number(&self) -> (r: i32)
        ensures
            r == self@.seq_number,
    {
        self.seq_number
    }

    /// Whether another packet can be numbered.
    pub fn has_seq_number(&self) -> (r: bool)
        ensures
            r == (self@.seq_number < i32::MAX),
    {
        self.seq_number < i32::MAX
    }

    /// The sequence number for the next packet: one above the last.
    pub fn next_seq_number(&mut self) -> (r: i32)
        requires
            old(self)@.seq_number < i32::MAX,
        ensures
            r == old(self)@.seq_number + 1,
            r > old(self)@.seq_number,
            final(self)@ == after_request(old(self)@),
    {
        self.seq_number = self.seq_number + 1;
        if self.call_count < u64::MAX {
            self.call_count = self.call_count + 1;
        }
        self.seq_number
    }

    /// What the server wants echoed with the next request.
    pub fn ssi(&self) -> (r: &Option<Vec<u8>>)
        ensures
            bytes_of(*r) == self@.ssi,
    {
        &self.ssi
    }

    /// Replaces the statement sequence info that the next request echoes.
    pub fn set_ssi(&mut self, ssi: Option<Vec<u8>>)
        ensures
            final(self)@ == (ConnectionView { ssi: bytes_of(ssi), ..old(self)@ }),
    {
        self.ssi = ssi;
    }

    /// Takes in the statement context of a reply.
    pub fn evaluate_statement_context(&mut self, ctx: &StatementContext)
        ensures
            final(self)@ == with_statement_context(old(self)@, ctx@),
    {
        let ssi: Option<Vec<u8>> = match ctx.statement_sequence_info() {
            Some(v) => Some(v.clone()),
            None => None,
        };
        self.ssi = ssi;
        let t: i32 = ctx.server_processing_time();
        let sum: i128 = self.server_proc_time as i128 + t as i128;
        self.server_proc_time = if sum > i64::MAX as i128 {
            i64::MAX
        } else if sum < i64::MIN as i128 {
            i64::MIN
        } else {
            sum as i64
        };
    }

    /// Takes in one transaction flag.
    pub fn set_transaction_state(&mut self, flag: TaFlag) -> (r: Result<(), HdbError>)
        ensures
            match r {
                Ok(()) => with_flag(old(self)@, flag) == Ok::<_, HdbError>(final(self)@),
                Err(e) => with_flag(old(self)@, flag) == Err::<ConnectionView, _>(e)
                    && final(self)@ == old(self)@,
            },
    {
        match flag {
            TaFlag::RolledBack => {
                self.transaction_state = TransactionState::RolledBack;
            },
            TaFlag::Committed => {
                self.transaction_state = TransactionState::Committed;
            },
            TaFlag::NewIsolationLevel(i) => {
                self.isolation_level = i;
            },
            TaFlag::DdlCommitModeChanged => {
                self.ddl_commit_mode_changed = true;
            },
            TaFlag::WriteTransactionStarted => {
                self.transaction_state = TransactionState::OpenWithWrite;
            },
            TaFlag::TransactionClosed => {
                self.transaction_state = TransactionState::OpenWithoutWrite;
            },
            TaFlag::SessionClosingTransactionError => {
                return Err(HdbError::Evaluation(EvaluationError::SessionClosingTransaction));
            },
            TaFlag::Nothing => {},
        }
        Ok(())
    }

    /// Takes in the transaction flags of a reply, one after the other, up to
    /// the first that stands for an error; the flags before that one stay
    /// taken in.
    pub fn evaluate_ta_flags(&mut self, flags: &TransactionFlags) -> (r: Result<(), HdbError>)
        ensures
            match r {
                Ok(()) => with_flags(old(self)@, flags@, flags@.len()) == Ok::<
                    _,
                    (HdbError, ConnectionView),
                >(final(self)@),
                Err(e) => with_flags(old(self)@, flags@, flags@.len()) == Err::<
                    ConnectionView,
                    _,
                >((e, final(self)@)),
            },
    {
        let n: usize = flags.count();
        let mut i: usize = 0;
        while i < n
            invariant
                i <= n,
                n == flags@.len(),
                with_flags(old(self)@, flags@, i as nat) == Ok::<_, (HdbError, ConnectionView)>(
                    self@,
                ),
            decreases n - i,
        {
            proof {
                assert((i + 1 - 1) as nat == i as nat);
            }
            let ghost next = with_flags(old(self)@, flags@, (i + 1) as nat);
            match self.set_transaction_state(flags.flag(i)) {
                Ok(()) => {},
                Err(e) => {
                    proof {
                        assert(next == Err::<ConnectionView, _>((e, self@)));
                        lemma_flags_failure(old(self)@, flags@, (i + 1) as nat, n as nat);
                    }
                    return Err(e);
                },
            }
            i = i + 1;
        }
        Ok(())
    }

    /// What the server last said of the transaction.
    pub fn transaction_state(&self) -> (r: TransactionState)
        ensures
            r == self@.transaction_state,
    {
        self.transaction_state
    }

    /// Whether each request asks the server to commit.
    pub fn is_auto_commit(&self) -> (r: bool)
        ensures
            r == self@.auto_commit,
    {
        self.auto_commit
    }

    /// Switches auto-commit on or off for the requests that follow.
    pub fn set_auto_commit(&mut self, auto_commit: bool)
        ensures
            final(self)@ == (ConnectionView { auto_commit, ..old(self)@ }),
    {
        self.auto_commit = auto_commit;
    }

    /// The time that the server says it has spent, in microseconds.
    pub fn server_proc_time(&self) -> (r: i64)
        ensures
            r == self@.server_proc_time,
    {
        self.server_proc_time
    }

    /// How much of a large object one request asks for.
    pub fn lob_read_length(&self) -> (r: i32)
        ensures
            r == self@.lob_read_length,
    {
        self.lob_read_length
    }

    /// Sets how many units of a large object are asked for at once; a
    /// length below 1 counts as 1.
    pub fn set_lob_read_length(&mut self, lob_read_length: i32)
        ensures
            final(self)@ == (ConnectionView {
                lob_read_length: if lob_read_length < 1 {
                    1
                } else {
                    lob_read_length
                },
                ..old(self)@
            }),
    {
        self.lob_read_length = if lob_read_length < 1 {
            1
        } else {
            lob_read_length
        };
    }

    /// How many rows one fetch asks for.
    pub fn fetch_size(&self) -> (r: u32)
        ensures
            r == self@.fetch_size,
    {
        self.fetch_size
    }

    /// Sets how many rows one fetch asks for.
    pub fn set_fetch_size(&mut self, fetch_size: u32)
        ensures
            final(self)@ == (ConnectionView { fetch_size, ..old(self)@ }),
    {
        self.fetch_size = fetch_size;
    }

    /// The user that has logged on, if one has.
    pub fn authenticated_user(&self) -> (r: Option<&String>)
        ensures
            match r {
                Some(u) => self@.authenticated_user == Some(u@),
                None => self@.authenticated_user is None,
            },
    {
        self.authenticated_user.as_ref()
    }

    /// Takes in the outcome of a logon: the user, the id of the session, and
    /// what the server has said of its version and its capabilities.
    pub fn set_authenticated(&mut self, user: String, session_id: i64, connect_options: OptionPart)
        ensures
            final(self)@ == (ConnectionView {
                authenticated_user: Some(user@),
                session_id,
                connect_options: Some(connect_options@),
                ..old(self)@
            }),
    {
        self.authenticated_user = Some(user);
        self.session_id = session_id;
        self.connect_options = Some(connect_options);
    }

    /// What the server has said of its version and its capabilities, if it
    /// has.
    pub fn connect_options(&self) -> (r: Option<&OptionPart>)
        ensures
            match r {
                Some(o) => self@.connect_options == Some(o@),
                None => self@.connect_options is None,
            },
    {
        self.connect_options.as_ref()
    }

    /// Whether the connection has failed and is no longer used.
    pub fn is_poisoned(&self) -> (r: bool)
        ensures
            r == self@.poisoned,
    {
        self.poisoned
    }

    /// Marks the connection as failed: from now on every exchange on it
    /// fails at once.
    pub fn poison(&mut self)
        ensures
            final(self)@ == (ConnectionView { poisoned: true, ..old(self)@ }),
    {
        self.poisoned = true;
    }

    /// Number of requests that were built for sending.
    pub fn call_count(&self) -> (r: u64)
        ensures
            r == self@.call_count,
    {
        self.call_count
    }
}

} // verus!
