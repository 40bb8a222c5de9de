//! What comes of each step of a query, told by what has to be done next, and how errors are
//! reported.
use crate::errors;
use crate::errors::ErrorV;
use crate::handlers;
use crate::handlers::{Action, Event, ExtendedPhase, ExtendedQuery, ParseQuery, Reply, SimpleQuery};
use vstd::prelude::*;

verus! {

/// True of a query that stands where an event has brought another one.
pub open spec fn follows(q: SimpleQuery, event: Event, later: SimpleQuery) -> bool {
    later.inserts == q.inserts && later.hooks == q.hooks && later.state() == q.after(event)
}

/// What has to be done with a statement after `asked` hooks have passed: the next hook is
/// asked, and after the last one the statement is run.
pub open spec fn after_hooks(statement: int, asked: int, hooks: int, a: Action) -> bool {
    if asked < hooks {
        a matches Action::CallHook { statement: s, hook } && s == statement && hook == asked
    } else {
        a matches Action::Execute { statement: s } && s == statement
    }
}

/// What has to be done after a statement is answered: the next statement is taken up, and
/// after the last one the answers are sent.
pub open spec fn after_statement(statement: int, statements: int, a: Action) -> bool {
    if statement + 1 < statements {
        a matches Action::RewriteInsert { statement: s } && s == statement + 1
    } else {
        a == Action::Finish
    }
}

/// A statement is rewritten, the hooks are asked one after the other, and where all of them
/// pass it is run. Its rows are counted where it is an insertion, and sent otherwise. The
/// first hook with an answer ends the statement with it.
pub proof fn law_statements_are_run(q: SimpleQuery, event: Event, later: SimpleQuery)
    requires
        q.valid(),
        follows(q, event, later),
    ensures
        ({
            let n = q.inserts@.len() as int;
            let kept = later.replies@ == q.replies@;
            match q.spec_action() {
                Action::RewriteInsert { statement } => {
                    &&& statement == q.replies@.len()
                    &&& event == Event::Done ==> kept && after_hooks(
                        statement as int,
                        0,
                        q.hooks as int,
                        later.spec_action(),
                    )
                },
                Action::CallHook { statement, hook } => {
                    &&& statement == q.replies@.len() && hook < q.hooks
                    &&& event == Event::HookPassed ==> kept && after_hooks(
                        statement as int,
                        hook + 1,
                        q.hooks as int,
                        later.spec_action(),
                    )
                    &&& event == Event::HookAnswered ==> later.replies@ == q.replies@.push(
                        Reply::Hook,
                    ) && after_statement(statement as int, n, later.spec_action())
                },
                Action::Execute { statement } => {
                    &&& statement == q.replies@.len()
                    &&& event == Event::Done ==> kept && later.spec_action() == (
                    if q.inserts@[statement as int] {
                        Action::CountRows { statement }
                    } else {
                        Action::EncodeRows { statement }
                    })
                    &&& event == Event::TimedOut ==> kept && later.spec_action() == Action::Cancel
                },
                Action::CountRows { statement } => {
                    &&& statement == q.replies@.len() && q.inserts@[statement as int]
                    &&& event == Event::Done ==> later.replies@ == q.replies@.push(
                        Reply::Inserted,
                    ) && after_statement(statement as int, n, later.spec_action())
                },
                Action::EncodeRows { statement } => {
                    &&& statement == q.replies@.len() && !q.inserts@[statement as int]
                    &&& event == Event::Done ==> later.replies@ == q.replies@.push(Reply::Rows)
                        && after_statement(statement as int, n, later.spec_action())
                },
                Action::Finish => q.replies@.len() == if n == 0 {
                    1
                } else {
                    n
                },
                Action::Fail | Action::Cancel => true,
                Action::Plan { .. } | Action::Decode => false,
            }
        }),
{
    if q.inserts@.len() == 0 {
        assert(q.replies@.len() == 1);
    }
}

/// What fails ends a query with the error, what is finished stays so, and what cannot come
/// of an action changes nothing.
pub proof fn law_failures_end_queries(q: SimpleQuery, event: Event, later: SimpleQuery)
    requires
        q.valid(),
        follows(q, event, later),
    ensures
        ({
            let a = q.spec_action();
            let ended = a == Action::Finish || a == Action::Fail || a == Action::Cancel;
            let takes = match event {
                Event::Done => !(a is CallHook),
                Event::HookAnswered | Event::HookPassed => a is CallHook,
                Event::Failed => true,
                Event::TimedOut => a is Execute,
            };
            &&& ended || !takes ==> later.state() == q.state()
            &&& !ended && event == Event::Failed ==> later.spec_action() == Action::Fail
                && later.replies@ == q.replies@
        }),
{
}

/// A prepared statement is rewritten, the hooks are asked one after the other, and where
/// none has an answer it is planned. One with an answer of a hook needs no plan.
pub proof fn law_statements_are_parsed(q: ParseQuery, event: Event)
    requires
        q.valid(),
    ensures
        ({
            let a = q.spec_action();
            let later = ParseQuery { hooks: q.hooks, phase: q.after(event) };
            let next = later.spec_action();
            let after = |asked: int|
                if asked < q.hooks {
                    next matches Action::CallHook { statement: 0, hook } && hook == asked
                } else {
                    next == Action::Plan { statement: 0 }
                };
            match (a, event) {
                (Action::Finish, _) | (Action::Fail, _) => later == q,
                (_, Event::Failed) => next == Action::Fail,
                (Action::RewriteInsert { statement }, Event::Done) => statement == 0 && after(0),
                (Action::CallHook { statement, hook }, Event::HookPassed) => statement == 0
                    && after(hook + 1),
                (Action::CallHook { .. }, Event::HookAnswered) => next == Action::Finish,
                (Action::Plan { statement }, Event::Done) => statement == 0 && next
                    == Action::Finish,
                _ => later == q,
            }
        }),
{
}

/// The parameters of a prepared statement are decoded for the hooks, which are asked one
/// after the other. Where all of them pass the parameters are decoded for the statement,
/// and it is run. Its rows are counted where it is an insertion, and sent otherwise.
pub proof fn law_prepared_statements_are_run(q: ExtendedQuery, event: Event)
    requires
        q.valid(),
    ensures
        ({
            let a = q.spec_action();
            let later = ExtendedQuery { insert: q.insert, hooks: q.hooks, phase: q.after(event) };
            let next = later.spec_action();
            let after = |asked: int|
                if asked < q.hooks {
                    next matches Action::CallHook { statement: 0, hook } && hook == asked
                } else {
                    next == Action::Decode && later.phase != ExtendedPhase::DecodeForHooks
                };
            match (a, event) {
                (Action::Finish, _) | (Action::Fail, _) | (Action::Cancel, _) => later == q,
                (_, Event::Failed) => next == Action::Fail,
                (Action::Decode, Event::Done) => if q.phase == ExtendedPhase::DecodeForHooks {
                    after(0)
                } else {
                    next == Action::Execute { statement: 0 }
                },
                (Action::CallHook { statement, hook }, Event::HookPassed) => statement == 0
                    && after(hook + 1),
                (Action::CallHook { .. }, Event::HookAnswered) => next == Action::Finish
                    && later.phase == ExtendedPhase::Finished(Reply::Hook),
                (Action::Execute { statement }, Event::Done) => statement == 0 && next == (
                if q.insert {
                    Action::CountRows { statement: 0 }
                } else {
                    Action::EncodeRows { statement: 0 }
                }),
                (Action::Execute { .. }, Event::TimedOut) => next == Action::Cancel,
                (Action::CountRows { .. }, Event::Done) => q.insert && later.phase
                    == ExtendedPhase::Finished(Reply::Inserted) && next == Action::Finish,
                (Action::EncodeRows { .. }, Event::Done) => !q.insert && later.phase
                    == ExtendedPhase::Finished(Reply::Rows) && next == Action::Finish,
                _ => later == q,
            }
        }),
{
}

/// A type that Postgres has no type for is an internal error. What cannot be decoded is
/// reported without a code, and every other refusal is that of an invalid parameter.
pub proof fn law_error_codes(e: ErrorV)
    ensures
        errors::state_of(e) == Some("XX000"@) <==> (e is UnsupportedType || e
            is UnsupportedListType),
        errors::state_of(e) is None <==> (e is Malformed || e is Wire),
        errors::state_of(e) == Some("22023"@) <==> (e is OutOfRange || e is NotFinite || e
            is CannotCoerce || e is IntervalHasDays || e is IntervalHasMonths || e
            is IntervalTooPrecise || e is VectorDimension || e is Overflow || e is NoType),
{
    reveal_strlit("XX000");
    reveal_strlit("22023");
    assert("XX000"@[0] == 'X' && "22023"@[0] == '2');
}

/// A statement that takes too long is reported as one that was cancelled, for that reason.
pub proof fn law_cancelled_statements()
    ensures
        handlers::QUERY_CANCELED@ == "57014"@,
        handlers::TIMEOUT_MESSAGE@ == "canceling statement due to statement timeout"@,
{
}

} // verus!
