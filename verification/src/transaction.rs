//! The transaction scope: the life of one transaction, from before it is
//! begun to its commit or rollback.
//!
//! A scope is owned by the unit of work that opened it and cannot be
//! copied. Every use takes it by exclusive borrow, so the operations that
//! share a transaction run one after the other. The scope marks the
//! statement that is under way: until its reply is handed in, no other
//! statement is sent and the transaction is not committed. A statement
//! whose reply never comes leaves the scope fit for a rollback only. A
//! failure never rolls back by itself: the scope stays open and the caller
//! decides.

use crate::descriptor::DescriptorView;
use crate::executor::{
    complete, complete_spec, prepare, prepare_spec, ExecuteError, ExecuteFault, ExecutionResult,
    Reply, ReplyView, Request, RequestView, ResultView, Statement, StatementView,
};
use crate::registry::Registry;
use vstd::prelude::*;

verus! {

/// Where a transaction stands. `Committed` and `RolledBack` are final.
#[derive(Debug, Clone, Copy, PartialEq, Eq, Structural)]
pub enum TxState {
    NotStarted,
    Open,
    Committed,
    RolledBack,
}

/// Mathematical model of a transaction scope: its state, the texts of the
/// statements that ran in it and were not rolled back, in order, and the
/// text of the statement that is under way, if one is.
pub struct ScopeView {
    pub state: TxState,
    pub statements: Seq<Seq<char>>,
    pub in_flight: Option<Seq<char>>,
}

impl ScopeView {
    /// Why the transaction cannot be rolled back, if it cannot: it is not
    /// open.
    pub open spec fn rollback_gate(self) -> Option<ExecuteFault> {
        match self.state {
            TxState::NotStarted => Some(ExecuteFault::TransactionNotStarted),
            TxState::Open => None,
            TxState::Committed => Some(ExecuteFault::TransactionClosed),
            TxState::RolledBack => Some(ExecuteFault::TransactionClosed),
        }
    }

    /// Why no statement can be sent and the transaction cannot be
    /// committed, if they cannot: the transaction is not open, or a
    /// statement is under way.
    pub open spec fn gate(self) -> Option<ExecuteFault> {
        if self.rollback_gate() is Some {
            self.rollback_gate()
        } else if self.in_flight is Some {
            Some(ExecuteFault::StatementInFlight)
        } else {
            None
        }
    }

    /// Why the reply to the statement `text` cannot be handed in, if it
    /// cannot: the transaction is not open, or that statement is not the
    /// one under way.
    pub open spec fn reply_gate(self, text: Seq<char>) -> Option<ExecuteFault> {
        if self.rollback_gate() is Some {
            self.rollback_gate()
        } else if self.in_flight != Some(text) {
            Some(ExecuteFault::StatementNotInFlight)
        } else {
            None
        }
    }

    /// Why the scope cannot be begun, if it cannot.
    pub open spec fn begin_gate(self) -> Option<ExecuteFault> {
        match self.state {
            TxState::NotStarted => None,
            TxState::Open => Some(ExecuteFault::TransactionAlreadyOpen),
            TxState::Committed => Some(ExecuteFault::TransactionClosed),
            TxState::RolledBack => Some(ExecuteFault::TransactionClosed),
        }
    }

    /// The scope after an attempt to begin it.
    pub open spec fn begun(self) -> ScopeView {
        if self.begin_gate() is None {
            ScopeView { state: TxState::Open, ..self }
        } else {
            self
        }
    }

    /// What an attempt to send `statement` gives: the request, where a
    /// statement can be sent and every parameter encodes.
    pub open spec fn execute_result(
        self,
        types: Map<Seq<char>, DescriptorView>,
        statement: StatementView,
    ) -> Result<RequestView, ExecuteFault> {
        match self.gate() {
            Some(fault) => Err(fault),
            None => prepare_spec(types, statement),
        }
    }

    /// The scope after an attempt to send `statement`: where a request
    /// came out, the statement is under way; otherwise nothing changed.
    pub open spec fn executed(
        self,
        types: Map<Seq<char>, DescriptorView>,
        statement: StatementView,
    ) -> ScopeView {
        if self.execute_result(types, statement) is Ok {
            ScopeView { in_flight: Some(statement.text), ..self }
        } else {
            self
        }
    }

    /// What handing in `reply` for `statement` gives: the result that the
    /// reply means, where the statement is the one under way.
    pub open spec fn complete_result(
        self,
        types: Map<Seq<char>, DescriptorView>,
        statement: StatementView,
        reply: ReplyView,
    ) -> Result<ResultView, ExecuteFault> {
        match self.reply_gate(statement.text) {
            Some(fault) => Err(fault),
            None => complete_spec(types, statement.returning, reply),
        }
    }

    /// The scope after `reply` was handed in for the statement `text`.
    /// Where that statement is the one under way, none is any more, and
    /// the statement counts as run unless the reply reports a failure.
    /// Otherwise nothing changed.
    pub open spec fn completed(self, text: Seq<char>, reply: ReplyView) -> ScopeView {
        if self.reply_gate(text) is Some {
            self
        } else if reply is Failed {
            ScopeView { in_flight: None, ..self }
        } else {
            ScopeView { statements: self.statements.push(text), in_flight: None, ..self }
        }
    }

    /// The scope after an attempt to commit it.
    pub open spec fn committed(self) -> ScopeView {
        if self.gate() is None {
            ScopeView { state: TxState::Committed, ..self }
        } else {
            self
        }
    }

    /// The scope after an attempt to roll it back.
    pub open spec fn rolled_back(self) -> ScopeView {
        if self.rollback_gate() is None {
            ScopeView { state: TxState::RolledBack, statements: Seq::empty(), in_flight: None }
        } else {
            self
        }
    }

    /// The statements whose effects the transaction sees: those that ran in
    /// it while it is open.
    pub open spec fn visible(self) -> Seq<Seq<char>> {
        if self.state is Open {
            self.statements
        } else {
            Seq::empty()
        }
    }

    /// The statements whose effects last: those of a committed
    /// transaction.
    pub open spec fn durable(self) -> Seq<Seq<char>> {
        if self.state is Committed {
            self.statements
        } else {
            Seq::empty()
        }
    }
}

/// One transaction. It is neither `Clone` nor `Copy`.
#[derive(Debug)]
pub struct TransactionScope {
    state: TxState,
    statements: Vec<String>,
    in_flight: Option<String>,
}

impl View for TransactionScope {
    type V = ScopeView;

    closed spec fn view(&self) -> ScopeView {
        ScopeView {
            state: self.state,
            statements: self.statements@.map_values(|s: String| s@),
            in_flight: match self.in_flight {
                None => None,
                Some(text) => Some(text@),
            },
        }
    }
}

impl TransactionScope {
    /// A scope whose transaction was not begun yet.
    pub fn new() -> (r: TransactionScope)
        ensures
            r@ == (ScopeView {
                state: TxState::NotStarted,
                statements: Seq::empty(),
                in_flight: None,
            }),
    {
        let statements: Vec<String> = Vec::new();
        assert(statements@.map_values(|s: String| s@) =~= Seq::<Seq<char>>::empty());
        TransactionScope { state: TxState::NotStarted, statements, in_flight: None }
    }

    /// Where the transaction stands.
    pub fn state(&self) -> (r: TxState)
        ensures
            r == self@.state,
    {
        self.state
    }

    /// The number of statements that ran in the transaction and were not
    /// rolled back.
    pub fn statement_count(&self) -> (r: usize)
        ensures
            r == self@.statements.len(),
    {
        self.statements.len()
    }

    /// Whether a statement is under way.
    pub fn statement_in_flight(&self) -> (r: bool)
        ensures
            r == self@.in_flight is Some,
    {
        self.in_flight.is_some()
    }

    fn check_open(&self) -> (r: Result<(), ExecuteError>)
        ensures
            r is Ok <==> self@.rollback_gate() is None,
            r matches Err(e) ==> self@.rollback_gate() == Some(e@),
    {
        match self.state {
            TxState::NotStarted => Err(ExecuteError::TransactionNotStarted),
            TxState::Open => Ok(()),
            TxState::Committed => Err(ExecuteError::TransactionClosed),
            TxState::RolledBack => Err(ExecuteError::TransactionClosed),
        }
    }

    /// Whether the transaction can be committed now: it is open and no
    /// statement is under way. A caller asks before it commits on the
    /// connection.
    pub fn can_commit(&self) -> (r: Result<(), ExecuteError>)
        ensures
            r is Ok <==> self@.gate() is None,
            r matches Err(e) ==> self@.gate() == Some(e@),
    {
        match self.check_open() {
            Err(e) => Err(e),
            Ok(()) => {
                if self.in_flight.is_some() {
                    Err(ExecuteError::StatementInFlight)
                } else {
                    Ok(())
                }
            },
        }
    }

    /// Begins the transaction. The caller has begun it on the connection.
    /// Only a scope that was not begun can be; any other stays as it is.
    pub fn begin(&mut self) -> (r: Result<(), ExecuteError>)
        ensures
            r is Ok <==> old(self)@.begin_gate() is None,
            r matches Err(e) ==> old(self)@.begin_gate() == Some(e@),
            final(self)@ == old(self)@.begun(),
    {
        match self.state {
            TxState::NotStarted => {
                self.state = TxState::Open;
                Ok(())
            },
            TxState::Open => Err(ExecuteError::TransactionAlreadyOpen),
            TxState::Committed => Err(ExecuteError::TransactionClosed),
            TxState::RolledBack => Err(ExecuteError::TransactionClosed),
        }
    }

    /// The request to send for `statement` inside the transaction. A scope
    /// that is not open, or in which a statement is under way, gives no
    /// request. Where a request comes out, the statement is under way
    /// until its reply is handed to `complete`; where none comes out, the
    /// scope stays as it is.
    pub fn execute(&mut self, registry: &Registry, statement: &Statement) -> (r: Result<
        Request,
        ExecuteError,
    >)
        ensures
            r matches Ok(request) ==> old(self)@.execute_result(registry@, statement@) == Ok::<
                RequestView,
                ExecuteFault,
            >(request@),
            r matches Err(e) ==> old(self)@.execute_result(registry@, statement@) == Err::<
                RequestView,
                ExecuteFault,
            >(e@),
            final(self)@ == old(self)@.executed(registry@, statement@),
    {
        match self.can_commit() {
            Err(e) => Err(e),
            Ok(()) => match prepare(registry, statement) {
                Err(e) => Err(e),
                Ok(request) => {
                    self.in_flight = Some(statement.text.clone());
                    Ok(request)
                },
            },
        }
    }

    /// Hands in the reply to the request of `statement` and gives the
    /// result. The statement must be the one under way; then none is under
    /// way any more, and the statement counts as run unless the reply
    /// reports a failure. The scope stays open whatever the reply.
    pub fn complete(&mut self, registry: &Registry, statement: &Statement, reply: Reply) -> (r:
        Result<ExecutionResult, ExecuteError>)
        ensures
            r matches Ok(result) ==> old(self)@.complete_result(registry@, statement@, reply@)
                == Ok::<ResultView, ExecuteFault>(result@),
            r matches Err(e) ==> old(self)@.complete_result(registry@, statement@, reply@) == Err::<
                ResultView,
                ExecuteFault,
            >(e@),
            final(self)@ == old(self)@.completed(statement@.text, reply@),
    {
        match self.check_open() {
            Err(e) => {
                return Err(e);
            },
            Ok(()) => {},
        }
        let under_way = match &self.in_flight {
            None => false,
            Some(text) => *text == statement.text,
        };
        if !under_way {
            return Err(ExecuteError::StatementNotInFlight);
        }
        self.in_flight = None;
        let ran = match &reply {
            Reply::Failed(_) => false,
            _ => true,
        };
        if ran {
            let ghost before = self.statements@.map_values(|s: String| s@);
            self.statements.push(statement.text.clone());
            assert(self.statements@.map_values(|s: String| s@) =~= before.push(statement@.text));
        }
        complete(registry, statement, reply)
    }

    /// Commits the transaction. The caller has committed it on the
    /// connection. Only an open scope without a statement under way can be
    /// committed; any other stays as it is.
    pub fn commit(&mut self) -> (r: Result<(), ExecuteError>)
        ensures
            r is Ok <==> old(self)@.gate() is None,
            r matches Err(e) ==> old(self)@.gate() == Some(e@),
            final(self)@ == old(self)@.committed(),
    {
        match self.can_commit() {
            Err(e) => Err(e),
            Ok(()) => {
                self.state = TxState::Committed;
                Ok(())
            },
        }
    }

    /// Rolls the transaction back. The caller rolls it back on the
    /// connection. Every open scope can be rolled back, also one with a
    /// statement under way; any other stays as it is.
    pub fn rollback(&mut self) -> (r: Result<(), ExecuteError>)
        ensures
            r is Ok <==> old(self)@.rollback_gate() is None,
            r matches Err(e) ==> old(self)@.rollback_gate() == Some(e@),
            final(self)@ == old(self)@.rolled_back(),
    {
        match self.check_open() {
            Err(e) => Err(e),
            Ok(()) => {
                self.state = TxState::RolledBack;
                self.statements.clear();
                self.in_flight = None;
                assert(self.statements@.map_values(|s: String| s@) =~= Seq::<Seq<char>>::empty());
                Ok(())
            },
        }
    }
}

/// After a commit or a rollback the scope is closed for good: a statement,
/// a reply, a commit, a rollback or a begin fails with
/// `TransactionClosed`, and none of them changes the scope any more.
pub proof fn lemma_closed_scope_stays_closed(
    scope: ScopeView,
    types: Map<Seq<char>, DescriptorView>,
    statement: StatementView,
    reply: ReplyView,
)
    requires
        scope.state is Committed || scope.state is RolledBack,
    ensures
        scope.execute_result(types, statement) == Err::<RequestView, ExecuteFault>(
            ExecuteFault::TransactionClosed,
        ),
        scope.complete_result(types, statement, reply) == Err::<ResultView, ExecuteFault>(
            ExecuteFault::TransactionClosed,
        ),
        scope.gate() == Some(ExecuteFault::TransactionClosed),
        scope.rollback_gate() == Some(ExecuteFault::TransactionClosed),
        scope.begin_gate() == Some(ExecuteFault::TransactionClosed),
        scope.executed(types, statement) == scope,
        scope.completed(statement.text, reply) == scope,
        scope.committed() == scope,
        scope.rolled_back() == scope,
        scope.begun() == scope,
{
}

/// A commit closes an open scope without a statement under way, and a
/// rollback closes every open scope.
pub proof fn lemma_commit_and_rollback_close(scope: ScopeView)
    requires
        scope.state is Open,
    ensures
        scope.in_flight is None ==> scope.committed().state is Committed,
        scope.in_flight is Some ==> scope.committed() == scope,
        scope.rolled_back().state is RolledBack,
{
}

/// At most one statement is under way. Once a statement was sent, no
/// other is sent and the transaction is not committed until the reply to
/// that statement was handed in; a reply to another statement is refused.
/// With the reply handed in, the scope is free again. A rollback is
/// accepted all the while.
pub proof fn lemma_one_statement_in_flight(
    scope: ScopeView,
    types: Map<Seq<char>, DescriptorView>,
    statement: StatementView,
    other: StatementView,
    reply: ReplyView,
)
    requires
        scope.execute_result(types, statement) is Ok,
    ensures
        scope.executed(types, statement).in_flight == Some(statement.text),
        scope.executed(types, statement).execute_result(types, other) == Err::<
            RequestView,
            ExecuteFault,
        >(ExecuteFault::StatementInFlight),
        scope.executed(types, statement).gate() == Some(ExecuteFault::StatementInFlight),
        scope.executed(types, statement).committed() == scope.executed(types, statement),
        scope.executed(types, statement).rollback_gate() is None,
        other.text != statement.text ==> scope.executed(types, statement).complete_result(
            types,
            other,
            reply,
        ) == Err::<ResultView, ExecuteFault>(ExecuteFault::StatementNotInFlight),
        scope.executed(types, statement).completed(statement.text, reply).gate() is None,
        scope.complete_result(types, statement, reply) == Err::<ResultView, ExecuteFault>(
            ExecuteFault::StatementNotInFlight,
        ),
{
}

/// Statements leave an open scope open, whatever their replies.
pub proof fn lemma_statement_keeps_scope_open(
    scope: ScopeView,
    types: Map<Seq<char>, DescriptorView>,
    statement: StatementView,
    reply: ReplyView,
)
    requires
        scope.state is Open,
    ensures
        scope.executed(types, statement).state is Open,
        scope.completed(statement.text, reply).state is Open,
        scope.executed(types, statement).completed(statement.text, reply).state is Open,
{
}

/// Operations that share one open scope work on one transaction: the
/// second sees what the first ran, a commit makes the work of both last,
/// and a rollback discards the work of both.
pub proof fn lemma_shared_scope(
    scope: ScopeView,
    types: Map<Seq<char>, DescriptorView>,
    first: StatementView,
    first_reply: ReplyView,
    second: StatementView,
    second_reply: ReplyView,
)
    requires
        scope.gate() is None,
        prepare_spec(types, first) is Ok,
        prepare_spec(types, second) is Ok,
        !(first_reply is Failed),
        !(second_reply is Failed),
    ensures
        ({
            let after_first = scope.executed(types, first).completed(first.text, first_reply);
            let after_both = after_first.executed(types, second).completed(
                second.text,
                second_reply,
            );
            &&& after_first.visible() == scope.visible().push(first.text)
            &&& after_first.execute_result(types, second) is Ok
            &&& after_both.visible() == scope.visible().push(first.text).push(second.text)
            &&& after_both.durable() == Seq::<Seq<char>>::empty()
            &&& after_both.committed().durable() == scope.statements.push(first.text).push(
                second.text,
            )
            &&& after_both.rolled_back().durable() == Seq::<Seq<char>>::empty()
            &&& after_both.rolled_back().statements == Seq::<Seq<char>>::empty()
        }),
{
}

} // verus!
