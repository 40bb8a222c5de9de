//! What is done with a query, step by step.
//!
//! Each type here holds how far a query has come. `action` says what has to be done
//! next, and `advance` takes what came of it.
use crate::datatypes;
use crate::datatypes::{FieldInfo, FieldInfoV, Format};
use crate::errors::{Error, ErrorV};
use crate::schema;
use crate::schema::Field;
use vstd::prelude::*;

verus! {

/// The SQLSTATE of a statement that was cancelled.
pub const QUERY_CANCELED: &'static str = "57014";

/// What is said of a statement that took too long.
pub const TIMEOUT_MESSAGE: &'static str = "canceling statement due to statement timeout";

/// What is answered to a statement.
#[derive(Clone, Copy, Debug, PartialEq, Eq, Structural)]
pub enum Reply {
    /// There was no statement.
    EmptyQuery,
    /// The answer of a hook.
    Hook,
    /// The number of rows that were inserted.
    Inserted,
    /// The rows of a result.
    Rows,
}

/// What has to be done next.
#[derive(Clone, Copy, Debug, PartialEq, Eq, Structural)]
pub enum Action {
    /// Look up the table of an insertion and rewrite the statement.
    RewriteInsert { statement: usize },
    /// Ask a hook.
    CallHook { statement: usize, hook: usize },
    /// Make a plan of the statement.
    Plan { statement: usize },
    /// Decode the parameters.
    Decode,
    /// Bring the statement to the point where its rows can be asked for, within the time
    /// that it may take.
    Execute { statement: usize },
    /// Run the insertion to its end and answer with the number of rows.
    CountRows { statement: usize },
    /// Answer with the rows.
    EncodeRows { statement: usize },
    /// Send what was answered.
    Finish,
    /// Report the error.
    Fail,
    /// Report that the statement took too long.
    Cancel,
}

/// What came of an action.
#[derive(Clone, Copy, Debug, PartialEq, Eq, Structural)]
pub enum Event {
    /// It was done.
    Done,
    /// The hook has an answer.
    HookAnswered,
    /// The hook has none.
    HookPassed,
    /// It failed.
    Failed,
    /// It took too long.
    TimedOut,
}

/// Where a query stands.
#[derive(Clone, Copy, Debug, PartialEq, Eq, Structural)]
pub enum Phase {
    Rewrite,
    Hook { next: usize },
    Execute,
    Answer,
    Finished,
    Failed,
    Canceled,
}

/// A query of the simple protocol: any number of statements.
#[derive(Debug)]
pub struct SimpleQuery {
    /// Of each statement, whether it is an insertion.
    pub inserts: Vec<bool>,
    /// The number of hooks.
    pub hooks: usize,
    /// The number of statements that are answered.
    pub answered: usize,
    pub phase: Phase,
    /// The answers to the statements before.
    pub replies: Vec<Reply>,
}

/// The answer to a statement that no hook answers.
pub open spec fn own_reply(insert: bool) -> Reply {
    if insert {
        Reply::Inserted
    } else {
        Reply::Rows
    }
}

/// Where a statement stands when hook number `hook` is to be asked.
pub open spec fn at_hook(hook: int, hooks: usize) -> Phase {
    if hook < hooks {
        Phase::Hook { next: hook as usize }
    } else {
        Phase::Execute
    }
}

impl SimpleQuery {
    /// What holds of every query: the statements before have one answer each, in their
    /// order, and a query is finished when all of its statements are answered.
    pub open spec fn valid(self) -> bool {
        let n = self.inserts@.len();
        if n == 0 {
            &&& self.phase == Phase::Finished
            &&& self.replies@ == seq![Reply::EmptyQuery]
            &&& self.answered == 0
        } else {
            &&& self.answered <= n
            &&& self.replies@.len() == self.answered
            &&& self.answered == n <==> self.phase == Phase::Finished
            &&& self.phase matches Phase::Hook { next } ==> next < self.hooks
            &&& forall|i: int|
                0 <= i < self.answered ==> (#[trigger] self.replies@[i] == Reply::Hook
                    && self.hooks > 0 || self.replies@[i] == own_reply(self.inserts@[i]))
        }
    }

    /// The query after the answer to a statement.
    pub open spec fn after_answer(self, reply: Reply) -> SimpleQueryV {
        SimpleQueryV {
            answered: self.answered + 1,
            phase: if self.answered + 1 < self.inserts@.len() {
                Phase::Rewrite
            } else {
                Phase::Finished
            },
            replies: self.replies@.push(reply),
        }
    }

    /// The query as it stands.
    pub open spec fn state(self) -> SimpleQueryV {
        SimpleQueryV { answered: self.answered as int, phase: self.phase, replies: self.replies@ }
    }

    /// The query after an event.
    pub open spec fn after(self, event: Event) -> SimpleQueryV {
        let here = self.state();
        match (self.phase, event) {
            (Phase::Finished, _) | (Phase::Failed, _) | (Phase::Canceled, _) => here,
            (Phase::Execute, Event::TimedOut) => SimpleQueryV { phase: Phase::Canceled, ..here },
            (_, Event::Failed) => SimpleQueryV { phase: Phase::Failed, ..here },
            (Phase::Rewrite, Event::Done) => SimpleQueryV { phase: at_hook(0, self.hooks), ..here },
            (Phase::Hook { next }, Event::HookPassed) => SimpleQueryV {
                phase: at_hook(next + 1, self.hooks),
                ..here
            },
            (Phase::Hook { .. }, Event::HookAnswered) => self.after_answer(Reply::Hook),
            (Phase::Execute, Event::Done) => SimpleQueryV { phase: Phase::Answer, ..here },
            (Phase::Answer, Event::Done) => self.after_answer(
                own_reply(self.inserts@[self.answered as int]),
            ),
            _ => here,
        }
    }

    /// A query with the statements.
    pub fn start(inserts: Vec<bool>, hooks: usize) -> (r: SimpleQuery)
        ensures
            r.valid(),
            r.inserts == inserts,
            r.hooks == hooks,
            r.state() == (if inserts@.len() == 0 {
                SimpleQueryV {
                    answered: 0,
                    phase: Phase::Finished,
                    replies: seq![Reply::EmptyQuery],
                }
            } else {
                SimpleQueryV { answered: 0, phase: Phase::Rewrite, replies: Seq::empty() }
            }),
    {
        if inserts.len() == 0 {
            let replies: Vec<Reply> = vec![Reply::EmptyQuery];
            assert(replies@ == seq![Reply::EmptyQuery]);
            SimpleQuery { inserts, hooks, answered: 0, phase: Phase::Finished, replies }
        } else {
            SimpleQuery {
                inserts,
                hooks,
                answered: 0,
                phase: Phase::Rewrite,
                replies: Vec::new(),
            }
        }
    }

    /// What has to be done next.
    pub open spec fn spec_action(self) -> Action {
        match self.phase {
            Phase::Rewrite => Action::RewriteInsert { statement: self.answered },
            Phase::Hook { next } => Action::CallHook { statement: self.answered, hook: next },
            Phase::Execute => Action::Execute { statement: self.answered },
            Phase::Answer => if self.inserts@[self.answered as int] {
                Action::CountRows { statement: self.answered }
            } else {
                Action::EncodeRows { statement: self.answered }
            },
            Phase::Finished => Action::Finish,
            Phase::Failed => Action::Fail,
            Phase::Canceled => Action::Cancel,
        }
    }

    /// What has to be done next.
    pub fn action(&self) -> (r: Action)
        requires
            self.valid(),
        ensures
            r == self.spec_action(),
    {
        match self.phase {
            Phase::Rewrite => Action::RewriteInsert { statement: self.answered },
            Phase::Hook { next } => Action::CallHook { statement: self.answered, hook: next },
            Phase::Execute => Action::Execute { statement: self.answered },
            Phase::Answer => if self.inserts[self.answered] {
                Action::CountRows { statement: self.answered }
            } else {
                Action::EncodeRows { statement: self.answered }
            },
            Phase::Finished => Action::Finish,
            Phase::Failed => Action::Fail,
            Phase::Canceled => Action::Cancel,
        }
    }

    fn answer(&mut self, reply: Reply)
        requires
            old(self).valid(),
            old(self).answered < old(self).inserts@.len(),
            reply == Reply::Hook && old(self).hooks > 0 || reply == own_reply(
                old(self).inserts@[old(self).answered as int],
            ),
        ensures
            final(self).valid(),
            final(self).state() == old(self).after_answer(reply),
            final(self).inserts == old(self).inserts,
            final(self).hooks == old(self).hooks,
    {
        let statements: usize = self.inserts.len();
        self.replies.push(reply);
        self.answered += 1;
        self.phase = if self.answered < statements {
            Phase::Rewrite
        } else {
            Phase::Finished
        };
    }

    /// Takes what came of the action. What cannot come of it is passed over.
    pub fn advance(&mut self, event: Event)
        requires
            old(self).valid(),
        ensures
            final(self).valid(),
            final(self).state() == old(self).after(event),
            final(self).inserts == old(self).inserts,
            final(self).hooks == old(self).hooks,
    {
        match (self.phase, event) {
            (Phase::Finished, _) | (Phase::Failed, _) | (Phase::Canceled, _) => {},
            (Phase::Execute, Event::TimedOut) => {
                self.phase = Phase::Canceled;
            },
            (_, Event::Failed) => {
                self.phase = Phase::Failed;
            },
            (Phase::Rewrite, Event::Done) => {
                self.phase = if self.hooks > 0 {
                    Phase::Hook { next: 0 }
                } else {
                    Phase::Execute
                };
            },
            (Phase::Hook { next }, Event::HookPassed) => {
                self.phase = if next + 1 < self.hooks {
                    Phase::Hook { next: next + 1 }
                } else {
                    Phase::Execute
                };
            },
            (Phase::Hook { .. }, Event::HookAnswered) => {
                self.answer(Reply::Hook);
            },
            (Phase::Execute, Event::Done) => {
                self.phase = Phase::Answer;
            },
            (Phase::Answer, Event::Done) => {
                let reply = if self.inserts[self.answered] {
                    Reply::Inserted
                } else {
                    Reply::Rows
                };
                self.answer(reply);
            },
            _ => {},
        }
    }
}

/// How far a query of the simple protocol has come.
#[verifier::ext_equal]
pub struct SimpleQueryV {
    pub answered: int,
    pub phase: Phase,
    pub replies: Seq<Reply>,
}

/// The steps that are left to a query, if none fails.
pub open spec fn steps_left(q: SimpleQuery) -> int {
    let each = q.hooks + 3;
    let after = (q.inserts@.len() - q.answered - 1) * each;
    match q.phase {
        Phase::Rewrite => after + each,
        Phase::Hook { next } => after + (q.hooks - next) + 2,
        Phase::Execute => after + 2,
        Phase::Answer => after + 1,
        _ => 0,
    }
}

/// The answer of a hook is the answer to one statement: the statements after it are
/// still run.
pub proof fn law_hook_answers_one_statement(q: SimpleQuery)
    requires
        q.valid(),
        q.phase is Hook,
        q.answered + 1 < q.inserts@.len(),
    ensures
        ({
            let next = q.after(Event::HookAnswered);
            &&& next.phase == Phase::Rewrite
            &&& next.answered == q.answered + 1
            &&& next.replies == q.replies@.push(Reply::Hook)
        }),
{
}

/// When a query is finished, each of its statements has one answer, in its order: that of
/// a hook, or the number of rows for an insertion, or else rows. A query without
/// statements is answered as empty.
pub proof fn law_one_reply_each(q: SimpleQuery)
    requires
        q.valid(),
        q.spec_action() == Action::Finish,
    ensures
        q.inserts@.len() == 0 ==> q.replies@ == seq![Reply::EmptyQuery],
        q.inserts@.len() > 0 ==> q.replies@.len() == q.inserts@.len() && forall|i: int|
            0 <= i < q.replies@.len() ==> (#[trigger] q.replies@[i] == Reply::Hook || q.replies@[i]
                == own_reply(q.inserts@[i])),
{
}

/// The hooks are asked in their order, and the statement is run only when all of them
/// have passed.
pub proof fn law_hooks_come_first(q: SimpleQuery, event: Event)
    requires
        q.valid(),
        q.phase != Phase::Execute,
        q.after(event).phase == Phase::Execute,
    ensures
        q.hooks == 0 && q.phase == Phase::Rewrite || q.phase == (Phase::Hook {
            next: (q.hooks - 1) as usize,
        }) && event == Event::HookPassed,
{
}

/// Nothing follows an error.
pub proof fn law_errors_are_final(q: SimpleQuery, event: Event)
    requires
        q.phase == Phase::Failed || q.phase == Phase::Canceled || q.phase == Phase::Finished,
    ensures
        q.after(event) == q.state(),
{
}

/// Every event that can come of an action brings the query nearer to its end.
pub proof fn law_query_comes_to_an_end(q: SimpleQuery, later: SimpleQuery, event: Event)
    requires
        q.valid(),
        later.inserts == q.inserts,
        later.hooks == q.hooks,
        later.state() == q.after(event),
        match q.phase {
            Phase::Hook { .. } => event == Event::HookPassed || event == Event::HookAnswered
                || event == Event::Failed,
            Phase::Execute => event == Event::Done || event == Event::Failed || event
                == Event::TimedOut,
            Phase::Rewrite | Phase::Answer => event == Event::Done || event == Event::Failed,
            _ => false,
        },
    ensures
        0 <= steps_left(later) < steps_left(q),
{
    let each = q.hooks + 3;
    let n = q.inserts@.len() - q.answered - 1;
    assert(n * each >= 0) by (nonlinear_arith)
        requires
            n >= 0,
            each >= 0,
    ;
    if n > 0 {
        assert((n - 1) * each + each == n * each) by (nonlinear_arith);
        assert((n - 1) * each >= 0) by (nonlinear_arith)
            requires
                n >= 1,
                each >= 0,
        ;
    }
}

/// Where the parsing of a prepared statement stands.
#[derive(Clone, Copy, Debug, PartialEq, Eq, Structural)]
pub enum ParsePhase {
    Rewrite,
    Hook { next: usize },
    Plan,
    /// There is a statement with a plan.
    Planned,
    /// There is no statement.
    Empty,
    Failed,
}

/// The parsing of a prepared statement. Of several statements the first one counts.
#[derive(Clone, Copy, Debug)]
pub struct ParseQuery {
    pub hooks: usize,
    pub phase: ParsePhase,
}

impl ParseQuery {
    /// What holds of every parsing.
    pub open spec fn valid(self) -> bool {
        self.phase matches ParsePhase::Hook { next } ==> next < self.hooks
    }

    /// The parsing of a text with that many statements.
    pub fn start(statements: usize, hooks: usize) -> (r: ParseQuery)
        ensures
            r.valid(),
            r == (ParseQuery {
                hooks,
                phase: if statements == 0 {
                    ParsePhase::Empty
                } else {
                    ParsePhase::Rewrite
                },
            }),
    {
        ParseQuery {
            hooks,
            phase: if statements == 0 {
                ParsePhase::Empty
            } else {
                ParsePhase::Rewrite
            },
        }
    }

    /// What has to be done next.
    pub open spec fn spec_action(self) -> Action {
        match self.phase {
            ParsePhase::Rewrite => Action::RewriteInsert { statement: 0 },
            ParsePhase::Hook { next } => Action::CallHook { statement: 0, hook: next },
            ParsePhase::Plan => Action::Plan { statement: 0 },
            ParsePhase::Planned | ParsePhase::Empty => Action::Finish,
            ParsePhase::Failed => Action::Fail,
        }
    }

    /// What has to be done next.
    pub fn action(&self) -> (r: Action)
        ensures
            r == self.spec_action(),
    {
        match self.phase {
            ParsePhase::Rewrite => Action::RewriteInsert { statement: 0 },
            ParsePhase::Hook { next } => Action::CallHook { statement: 0, hook: next },
            ParsePhase::Plan => Action::Plan { statement: 0 },
            ParsePhase::Planned | ParsePhase::Empty => Action::Finish,
            ParsePhase::Failed => Action::Fail,
        }
    }

    /// Where the parsing stands when hook number `hook` is to be asked.
    pub open spec fn at_hook(self, hook: int) -> ParsePhase {
        if hook < self.hooks {
            ParsePhase::Hook { next: hook as usize }
        } else {
            ParsePhase::Plan
        }
    }

    /// Where the parsing stands after an event.
    pub open spec fn after(self, event: Event) -> ParsePhase {
        match (self.phase, event) {
            (ParsePhase::Planned, _) | (ParsePhase::Empty, _) | (ParsePhase::Failed, _) => self.phase,
            (_, Event::Failed) => ParsePhase::Failed,
            (ParsePhase::Rewrite, Event::Done) => self.at_hook(0),
            (ParsePhase::Hook { next }, Event::HookPassed) => self.at_hook(next + 1),
            (ParsePhase::Hook { .. }, Event::HookAnswered) => ParsePhase::Planned,
            (ParsePhase::Plan, Event::Done) => ParsePhase::Planned,
            _ => self.phase,
        }
    }

    /// Takes what came of the action. What cannot come of it is passed over.
    pub fn advance(self, event: Event) -> (r: ParseQuery)
        requires
            self.valid(),
        ensures
            r.valid(),
            r == (ParseQuery { hooks: self.hooks, phase: self.after(event) }),
    {
        let phase = match (self.phase, event) {
            (ParsePhase::Planned, _) | (ParsePhase::Empty, _) | (ParsePhase::Failed, _) => self.phase,
            (_, Event::Failed) => ParsePhase::Failed,
            (ParsePhase::Rewrite, Event::Done) => if self.hooks > 0 {
                ParsePhase::Hook { next: 0 }
            } else {
                ParsePhase::Plan
            },
            (ParsePhase::Hook { next }, Event::HookPassed) => if next + 1 < self.hooks {
                ParsePhase::Hook { next: next + 1 }
            } else {
                ParsePhase::Plan
            },
            (ParsePhase::Hook { .. }, Event::HookAnswered) => ParsePhase::Planned,
            (ParsePhase::Plan, Event::Done) => ParsePhase::Planned,
            _ => self.phase,
        };
        ParseQuery { hooks: self.hooks, phase }
    }
}

/// Where the running of a prepared statement stands.
#[derive(Clone, Copy, Debug, PartialEq, Eq, Structural)]
pub enum ExtendedPhase {
    /// The parameters are decoded for the hooks.
    DecodeForHooks,
    Hook { next: usize },
    Decode,
    Execute,
    Answer,
    Finished(Reply),
    Failed,
    Canceled,
}

/// The running of a prepared statement.
#[derive(Clone, Copy, Debug)]
pub struct ExtendedQuery {
    /// Whether the statement is an insertion.
    pub insert: bool,
    pub hooks: usize,
    pub phase: ExtendedPhase,
}

impl ExtendedQuery {
    /// What holds of every running.
    pub open spec fn valid(self) -> bool {
        self.phase matches ExtendedPhase::Hook { next } ==> next < self.hooks
    }

    /// The running of a statement. `insert` says whether it is an insertion, and is absent
    /// where there is no statement.
    pub fn start(insert: Option<bool>, hooks: usize) -> (r: ExtendedQuery)
        ensures
            r.valid(),
            r == (match insert {
                None => ExtendedQuery {
                    insert: false,
                    hooks,
                    phase: ExtendedPhase::Finished(Reply::EmptyQuery),
                },
                Some(insert) => ExtendedQuery {
                    insert,
                    hooks,
                    phase: if hooks > 0 {
                        ExtendedPhase::DecodeForHooks
                    } else {
                        ExtendedPhase::Decode
                    },
                },
            }),
    {
        match insert {
            None => ExtendedQuery {
                insert: false,
                hooks,
                phase: ExtendedPhase::Finished(Reply::EmptyQuery),
            },
            Some(insert) => ExtendedQuery {
                insert,
                hooks,
                phase: if hooks > 0 {
                    ExtendedPhase::DecodeForHooks
                } else {
                    ExtendedPhase::Decode
                },
            },
        }
    }

    /// What has to be done next.
    pub open spec fn spec_action(self) -> Action {
        match self.phase {
            ExtendedPhase::DecodeForHooks | ExtendedPhase::Decode => Action::Decode,
            ExtendedPhase::Hook { next } => Action::CallHook { statement: 0, hook: next },
            ExtendedPhase::Execute => Action::Execute { statement: 0 },
            ExtendedPhase::Answer => if self.insert {
                Action::CountRows { statement: 0 }
            } else {
                Action::EncodeRows { statement: 0 }
            },
            ExtendedPhase::Finished(_) => Action::Finish,
            ExtendedPhase::Failed => Action::Fail,
            ExtendedPhase::Canceled => Action::Cancel,
        }
    }

    /// What has to be done next.
    pub fn action(&self) -> (r: Action)
        ensures
            r == self.spec_action(),
    {
        match self.phase {
            ExtendedPhase::DecodeForHooks | ExtendedPhase::Decode => Action::Decode,
            ExtendedPhase::Hook { next } => Action::CallHook { statement: 0, hook: next },
            ExtendedPhase::Execute => Action::Execute { statement: 0 },
            ExtendedPhase::Answer => if self.insert {
                Action::CountRows { statement: 0 }
            } else {
                Action::EncodeRows { statement: 0 }
            },
            ExtendedPhase::Finished(_) => Action::Finish,
            ExtendedPhase::Failed => Action::Fail,
            ExtendedPhase::Canceled => Action::Cancel,
        }
    }

    /// Where the running stands when hook number `hook` is to be asked.
    pub open spec fn at_hook(self, hook: int) -> ExtendedPhase {
        if hook < self.hooks {
            ExtendedPhase::Hook { next: hook as usize }
        } else {
            ExtendedPhase::Decode
        }
    }

    /// Where the running stands after an event.
    pub open spec fn after(self, event: Event) -> ExtendedPhase {
        match (self.phase, event) {
            (ExtendedPhase::Finished(_), _) | (ExtendedPhase::Failed, _) | (
                ExtendedPhase::Canceled,
                _,
            ) => self.phase,
            (ExtendedPhase::Execute, Event::TimedOut) => ExtendedPhase::Canceled,
            (_, Event::Failed) => ExtendedPhase::Failed,
            (ExtendedPhase::DecodeForHooks, Event::Done) => self.at_hook(0),
            (ExtendedPhase::Hook { next }, Event::HookPassed) => self.at_hook(next + 1),
            (ExtendedPhase::Hook { .. }, Event::HookAnswered) => ExtendedPhase::Finished(
                Reply::Hook,
            ),
            (ExtendedPhase::Decode, Event::Done) => ExtendedPhase::Execute,
            (ExtendedPhase::Execute, Event::Done) => ExtendedPhase::Answer,
            (ExtendedPhase::Answer, Event::Done) => ExtendedPhase::Finished(own_reply(self.insert)),
            _ => self.phase,
        }
    }

    /// Takes what came of the action. What cannot come of it is passed over.
    pub fn advance(self, event: Event) -> (r: ExtendedQuery)
        requires
            self.valid(),
        ensures
            r.valid(),
            r == (ExtendedQuery {
                insert: self.insert,
                hooks: self.hooks,
                phase: self.after(event),
            }),
    {
        let phase = match (self.phase, event) {
            (ExtendedPhase::Finished(_), _) | (ExtendedPhase::Failed, _) | (
                ExtendedPhase::Canceled,
                _,
            ) => self.phase,
            (ExtendedPhase::Execute, Event::TimedOut) => ExtendedPhase::Canceled,
            (_, Event::Failed) => ExtendedPhase::Failed,
            (ExtendedPhase::DecodeForHooks, Event::Done) => if self.hooks > 0 {
                ExtendedPhase::Hook { next: 0 }
            } else {
                ExtendedPhase::Decode
            },
            (ExtendedPhase::Hook { next }, Event::HookPassed) => if next + 1 < self.hooks {
                ExtendedPhase::Hook { next: next + 1 }
            } else {
                ExtendedPhase::Decode
            },
            (ExtendedPhase::Hook { .. }, Event::HookAnswered) => ExtendedPhase::Finished(
                Reply::Hook,
            ),
            (ExtendedPhase::Decode, Event::Done) => ExtendedPhase::Execute,
            (ExtendedPhase::Execute, Event::Done) => ExtendedPhase::Answer,
            (ExtendedPhase::Answer, Event::Done) => ExtendedPhase::Finished(
                if self.insert {
                    Reply::Inserted
                } else {
                    Reply::Rows
                },
            ),
            _ => self.phase,
        };
        ExtendedQuery { insert: self.insert, hooks: self.hooks, phase }
    }
}

/// The steps that are left to a running, if none fails.
pub open spec fn extended_steps_left(q: ExtendedQuery) -> int {
    match q.phase {
        ExtendedPhase::DecodeForHooks => q.hooks + 4,
        ExtendedPhase::Hook { next } => (q.hooks - next) + 3,
        ExtendedPhase::Decode => 3,
        ExtendedPhase::Execute => 2,
        ExtendedPhase::Answer => 1,
        _ => 0,
    }
}

/// A prepared statement is run only when its parameters are decoded, and they are decoded
/// for it only when all hooks have passed.
pub proof fn law_decoded_before_run(q: ExtendedQuery, event: Event)
    requires
        q.valid(),
        q.after(event) != q.phase,
    ensures
        q.after(event) == ExtendedPhase::Execute ==> q.phase == ExtendedPhase::Decode,
        q.after(event) == ExtendedPhase::Decode ==> q.phase == (ExtendedPhase::Hook {
            next: (q.hooks - 1) as usize,
        }) && event == Event::HookPassed || q.hooks == 0,
{
}

/// Every event that can come of an action brings the running of a prepared statement
/// nearer to its end.
pub proof fn law_running_comes_to_an_end(q: ExtendedQuery, event: Event)
    requires
        q.valid(),
        match q.phase {
            ExtendedPhase::Hook { .. } => event == Event::HookPassed || event
                == Event::HookAnswered || event == Event::Failed,
            ExtendedPhase::Execute => event == Event::Done || event == Event::Failed || event
                == Event::TimedOut,
            ExtendedPhase::DecodeForHooks | ExtendedPhase::Decode | ExtendedPhase::Answer => event
                == Event::Done || event == Event::Failed,
            _ => false,
        },
    ensures
        0 <= extended_steps_left(ExtendedQuery { phase: q.after(event), ..q })
            < extended_steps_left(q),
{
}

/// What is said of a statement that has run to its end.
#[derive(Clone, Copy, Debug, PartialEq, Eq)]
pub struct CommandTag {
    pub command: &'static str,
    pub oid: u32,
    pub rows: u64,
}

/// What is said of an insertion. The number of rows is the first value of the column
/// `count` of the first batch of its result, and zero where there is none.
pub fn map_rows_affected_for_insert(count: Option<u64>) -> (r: CommandTag)
    ensures
        r.command@ == "INSERT"@,
        r.oid == 0,
        r.rows == (match count {
            Some(n) => n,
            None => 0,
        }),
{
    CommandTag {
        command: "INSERT",
        oid: 0,
        rows: match count {
            Some(n) => n,
            None => 0,
        },
    }
}

/// What the client is told of the columns of a statement's result. Nothing of a statement
/// that changes the schema or the data. All columns are texts where the client asks for
/// no format.
pub fn get_result_schema(changes: bool, fields: &Vec<Field>, format: Option<&Format>) -> (r: Result<
    Vec<FieldInfo>,
    Error,
>)
    requires
        !changes ==> (format matches Some(f) ==> forall|i: int|
            0 <= i < fields@.len() && !datatypes::is_vector((#[trigger] fields@[i])@)
                && datatypes::row_types(schema::fields_view(fields@).take(i + 1)) is Ok
                ==> f.covers(i)),
    ensures
        ({
            let expected = if changes {
                Ok(Seq::empty())
            } else {
                datatypes::pg_fields(
                    schema::fields_view(fields@),
                    match format {
                        Some(f) => *f,
                        None => Format::UnifiedText,
                    },
                )
            };
            match r {
                Ok(infos) => expected == Ok::<Seq<FieldInfoV>, ErrorV>(
                    datatypes::infos_view(infos@),
                ),
                Err(e) => expected == Err::<Seq<FieldInfoV>, ErrorV>(e@),
            }
        }),
{
    if changes {
        let none: Vec<FieldInfo> = Vec::new();
        assert(datatypes::infos_view(none@) == Seq::<FieldInfoV>::empty());
        return Ok(none);
    }
    match format {
        Some(f) => datatypes::arrow_schema_to_pg_fields(fields, f),
        None => datatypes::arrow_schema_to_pg_fields(fields, &Format::UnifiedText),
    }
}

} // verus!
