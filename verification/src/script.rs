//! Scripts: statements that run one after the other inside one
//! transaction, and stop at the first that fails.
//!
//! A script does no I/O. It hands out the request of the statement whose
//! turn it is; the caller sends it and hands the reply back, and gets the
//! request of the next statement, or word that the script is done.

use crate::descriptor::DescriptorView;
use crate::executor::{
    ExecuteError, ExecuteFault, Reply, ReplyView, Request, RequestView, Statement, StatementView,
};
use crate::registry::Registry;
use crate::transaction::{ScopeView, TransactionScope};
use vstd::prelude::*;

verus! {

/// What the caller of a script does next.
#[derive(Debug, Clone, PartialEq, Eq)]
pub enum Step {
    /// Send this request and hand the reply to `advance`.
    Send(Request),
    /// Every statement ran.
    Done,
}

/// Mathematical model of a step.
pub enum StepView {
    Send(RequestView),
    Done,
}

impl View for Step {
    type V = StepView;

    open spec fn view(&self) -> StepView {
        match self {
            Step::Send(request) => StepView::Send(request@),
            Step::Done => StepView::Done,
        }
    }
}

/// Mathematical model of a script: its statements, and how many of them
/// ran.
pub struct ScriptView {
    pub statements: Seq<StatementView>,
    pub position: nat,
}

impl ScriptView {
    /// The script with one more statement run.
    pub open spec fn next(self) -> ScriptView {
        ScriptView { statements: self.statements, position: self.position + 1 }
    }

    /// What sending the statement whose turn it is gives in `scope`: its
    /// request, or its failure, or word that no statement is left.
    pub open spec fn send(self, scope: ScopeView, types: Map<Seq<char>, DescriptorView>) -> Result<
        StepView,
        ExecuteFault,
    > {
        if self.position < self.statements.len() {
            match scope.execute_result(types, self.statements[self.position as int]) {
                Ok(request) => Ok(StepView::Send(request)),
                Err(e) => Err(e),
            }
        } else {
            Ok(StepView::Done)
        }
    }

    /// The scope after the statement whose turn it is was sent, or was
    /// refused.
    pub open spec fn scope_after_send(
        self,
        scope: ScopeView,
        types: Map<Seq<char>, DescriptorView>,
    ) -> ScopeView {
        if self.position < self.statements.len() {
            scope.executed(types, self.statements[self.position as int])
        } else {
            scope
        }
    }

    /// Whether `reply` settles the statement whose turn it is: there is
    /// such a statement, it is the one under way in `scope`, and the reply
    /// gives it a result.
    pub open spec fn settles(
        self,
        scope: ScopeView,
        types: Map<Seq<char>, DescriptorView>,
        reply: ReplyView,
    ) -> bool {
        &&& self.position < self.statements.len()
        &&& scope.complete_result(types, self.statements[self.position as int], reply) is Ok
    }

    /// What handing in `reply` gives. Where the reply settles the
    /// statement whose turn it is, the next statement is sent. Otherwise
    /// the script stops with the failure: that of the statement, or
    /// `StatementNotInFlight` where no statement of the script is left.
    pub open spec fn advance(
        self,
        scope: ScopeView,
        types: Map<Seq<char>, DescriptorView>,
        reply: ReplyView,
    ) -> Result<StepView, ExecuteFault> {
        if self.position >= self.statements.len() {
            Err(ExecuteFault::StatementNotInFlight)
        } else {
            let statement = self.statements[self.position as int];
            match scope.complete_result(types, statement, reply) {
                Err(e) => Err(e),
                Ok(_) => self.next().send(scope.completed(statement.text, reply), types),
            }
        }
    }

    /// The script after `reply` was handed in: one statement further
    /// where the reply settles the statement whose turn it is, and as it
    /// was otherwise.
    pub open spec fn advanced(
        self,
        scope: ScopeView,
        types: Map<Seq<char>, DescriptorView>,
        reply: ReplyView,
    ) -> ScriptView {
        if self.settles(scope, types, reply) {
            self.next()
        } else {
            self
        }
    }

    /// The scope after `reply` was handed in: the reply is handed to the
    /// scope for the statement whose turn it is, and where it settles that
    /// statement, the next one is sent.
    pub open spec fn scope_after_advance(
        self,
        scope: ScopeView,
        types: Map<Seq<char>, DescriptorView>,
        reply: ReplyView,
    ) -> ScopeView {
        if self.position >= self.statements.len() {
            scope
        } else {
            let handed_in = scope.completed(self.statements[self.position as int].text, reply);
            if self.settles(scope, types, reply) {
                self.next().scope_after_send(handed_in, types)
            } else {
                handed_in
            }
        }
    }
}

/// Statements to run in order inside one transaction.
#[derive(Debug)]
pub struct Script {
    statements: Vec<Statement>,
    position: usize,
}

impl View for Script {
    type V = ScriptView;

    closed spec fn view(&self) -> ScriptView {
        ScriptView {
            statements: self.statements@.map_values(|s: Statement| s@),
            position: self.position as nat,
        }
    }
}

impl Script {
    /// The script of `statements`, none of which ran yet.
    pub fn new(statements: Vec<Statement>) -> (r: Script)
        ensures
            r@ == (ScriptView {
                statements: statements@.map_values(|s: Statement| s@),
                position: 0,
            }),
    {
        Script { statements, position: 0 }
    }

    /// The statements of the script.
    pub fn statements(&self) -> (r: &Vec<Statement>)
        ensures
            r@.map_values(|s: Statement| s@) == self@.statements,
    {
        &self.statements
    }

    /// The number of statements that ran.
    pub fn position(&self) -> (r: usize)
        ensures
            r == self@.position,
    {
        self.position
    }

    /// Sends the statement whose turn it is: gives its request and marks
    /// it as under way in `scope`, or gives `Done` where no statement is
    /// left. The script itself stays as it is.
    pub fn start(&self, scope: &mut TransactionScope, registry: &Registry) -> (r: Result<
        Step,
        ExecuteError,
    >)
        ensures
            r matches Ok(step) ==> self@.send(old(scope)@, registry@) == Ok::<
                StepView,
                ExecuteFault,
            >(step@),
            r matches Err(e) ==> self@.send(old(scope)@, registry@) == Err::<
                StepView,
                ExecuteFault,
            >(e@),
            final(scope)@ == self@.scope_after_send(old(scope)@, registry@),
    {
        if self.position < self.statements.len() {
            match scope.execute(registry, &self.statements[self.position]) {
                Ok(request) => Ok(Step::Send(request)),
                Err(e) => Err(e),
            }
        } else {
            Ok(Step::Done)
        }
    }

    /// Hands in the reply to the statement whose turn it is and goes on
    /// to the next: gives its request, or `Done` after the last. Where the
    /// statement fails, the script stops there: the failure comes out, no
    /// further statement is sent, and the scope is left open for the
    /// caller to decide.
    pub fn advance(&mut self, scope: &mut TransactionScope, registry: &Registry, reply: Reply) -> (r:
        Result<Step, ExecuteError>)
        ensures
            r matches Ok(step) ==> old(self)@.advance(old(scope)@, registry@, reply@) == Ok::<
                StepView,
                ExecuteFault,
            >(step@),
            r matches Err(e) ==> old(self)@.advance(old(scope)@, registry@, reply@) == Err::<
                StepView,
                ExecuteFault,
            >(e@),
            final(self)@ == old(self)@.advanced(old(scope)@, registry@, reply@),
            final(scope)@ == old(self)@.scope_after_advance(old(scope)@, registry@, reply@),
    {
        if self.position >= self.statements.len() {
            return Err(ExecuteError::StatementNotInFlight);
        }
        match scope.complete(registry, &self.statements[self.position], reply) {
            Err(e) => Err(e),
            Ok(_) => {
                self.position = self.position + 1;
                self.start(scope, registry)
            },
        }
    }
}

/// A script runs its statements in order and stops at the first failure:
/// a reply that does not settle the statement whose turn it is leaves the
/// script where it was and sends nothing further, and a reply that
/// settles it moves the script on by exactly one statement.
pub proof fn lemma_script_stops_at_first_failure(
    script: ScriptView,
    scope: ScopeView,
    types: Map<Seq<char>, DescriptorView>,
    reply: ReplyView,
)
    ensures
        !script.settles(scope, types, reply) ==> {
            &&& script.advance(scope, types, reply) is Err
            &&& script.advanced(scope, types, reply) == script
            &&& script.scope_after_advance(scope, types, reply).in_flight is None
                || script.scope_after_advance(scope, types, reply) == scope
        },
        script.settles(scope, types, reply) ==> {
            &&& script.advanced(scope, types, reply).position == script.position + 1
            &&& script.advance(scope, types, reply) == script.next().send(
                scope.completed(script.statements[script.position as int].text, reply),
                types,
            )
        },
{
}

/// One step of a script whose statement is under way in an open scope,
/// on a reply that settles it: the scope counts that statement as the
/// last that ran, and what comes out is the request of the statement that
/// follows it in the script, which is then under way, or `Done` only
/// after the last statement.
pub proof fn lemma_script_runs_in_order(
    script: ScriptView,
    scope: ScopeView,
    types: Map<Seq<char>, DescriptorView>,
    reply: ReplyView,
)
    requires
        script.position < script.statements.len(),
        scope.state is Open,
        scope.in_flight == Some(script.statements[script.position as int].text),
        script.settles(scope, types, reply),
    ensures
        script.scope_after_advance(scope, types, reply).statements.len() == scope.statements.len()
            + 1,
        script.scope_after_advance(scope, types, reply).statements.last()
            == script.statements[script.position as int].text,
        script.advance(scope, types, reply) matches Ok(StepView::Done) ==> script.position + 1
            == script.statements.len(),
        script.advance(scope, types, reply) matches Ok(StepView::Send(request)) ==> {
            &&& script.position + 1 < script.statements.len()
            &&& request.text == script.statements[(script.position + 1) as int].text
            &&& script.scope_after_advance(scope, types, reply).in_flight == Some(request.text)
        },
{
    let statement = script.statements[script.position as int];
    assert(!(reply is Failed));
}

} // verus!
