use datafusion_postgres::datatypes::{FieldFormat, Format};
use datafusion_postgres::handlers::{
    get_result_schema, map_rows_affected_for_insert, Action, Event, ExtendedPhase, ExtendedQuery,
    ParsePhase, ParseQuery, Phase, Reply, SimpleQuery,
};
use datafusion_postgres::schema::{DataType, Field};
use datafusion_postgres::sql::parser::PostgresCompatibilityParser;
use datafusion_postgres::sql::parts::Part;

/// The statements of a SQL text, as they are written.
fn statements(sql: &str) -> Vec<String> {
    let parser = PostgresCompatibilityParser::new().unwrap();
    let parsed = parser.parse(sql).unwrap();
    let written = |tag: u64| match &parsed.parts[tag as usize - parser.lookup_parts().len() - 1] {
        Part::Statement(statement) => statement.to_string(),
        other => panic!("{other:?}"),
    };
    parsed.trees.iter().map(|tree| written(tree.tag)).collect()
}

/// Runs a query where `hook` says what a hook answers and `run` what comes of running a
/// statement. Gives the actions.
fn drive(
    query: &mut SimpleQuery,
    hook: &dyn Fn(usize, usize) -> Event,
    run: &dyn Fn(usize) -> Event,
) -> Vec<Action> {
    let mut actions = Vec::new();
    loop {
        let action = query.action();
        actions.push(action);
        let event = match action {
            Action::CallHook { statement, hook: n } => hook(statement, n),
            Action::Execute { statement } => run(statement),
            Action::Finish | Action::Fail | Action::Cancel => return actions,
            _ => Event::Done,
        };
        query.advance(event);
    }
}

#[test]
fn test_multiple_statements_with_hook_continue() {
    let texts = statements("SELECT magic; SELECT 1; SELECT magic; SELECT 1");
    let mut query = SimpleQuery::start(vec![false; texts.len()], 1);
    let hook = |statement: usize, _: usize| {
        if texts[statement].contains("magic") {
            Event::HookAnswered
        } else {
            Event::HookPassed
        }
    };
    drive(&mut query, &hook, &|_| Event::Done);
    assert_eq!(query.replies.len(), 4, "Expected 4 responses");
    assert_eq!(
        query.replies,
        vec![Reply::Hook, Reply::Rows, Reply::Hook, Reply::Rows]
    );
}

#[test]
fn hooks_are_asked_in_order() {
    let mut query = SimpleQuery::start(vec![true], 2);
    let actions = drive(&mut query, &|_, _| Event::HookPassed, &|_| Event::Done);
    assert_eq!(
        actions,
        vec![
            Action::RewriteInsert { statement: 0 },
            Action::CallHook { statement: 0, hook: 0 },
            Action::CallHook { statement: 0, hook: 1 },
            Action::Execute { statement: 0 },
            Action::CountRows { statement: 0 },
            Action::Finish,
        ]
    );
    assert_eq!(query.replies, vec![Reply::Inserted]);
}

#[test]
fn an_empty_query_is_answered_as_empty() {
    let mut query = SimpleQuery::start(vec![], 3);
    let actions = drive(&mut query, &|_, _| Event::HookPassed, &|_| Event::Done);
    assert_eq!(actions, vec![Action::Finish]);
    assert_eq!(query.replies, vec![Reply::EmptyQuery]);
}

#[test]
fn errors_end_a_query() {
    let mut query = SimpleQuery::start(vec![false, false], 0);
    let run = |statement: usize| if statement == 0 { Event::Done } else { Event::Failed };
    let actions = drive(&mut query, &|_, _| Event::HookPassed, &run);
    assert_eq!(actions.last(), Some(&Action::Fail));
    query.advance(Event::Done);
    assert_eq!(query.phase, Phase::Failed);

    let mut query = SimpleQuery::start(vec![false], 0);
    let actions = drive(&mut query, &|_, _| Event::HookPassed, &|_| Event::TimedOut);
    assert_eq!(actions.last(), Some(&Action::Cancel));
}

#[test]
fn only_running_can_take_too_long() {
    let mut query = SimpleQuery::start(vec![false], 0);
    query.advance(Event::TimedOut);
    assert_eq!(query.phase, Phase::Rewrite);
}

#[test]
fn prepared_statements_are_planned_or_left_to_hooks() {
    assert_eq!(ParseQuery::start(0, 1).phase, ParsePhase::Empty);
    let parsing = ParseQuery::start(2, 1);
    assert_eq!(parsing.action(), Action::RewriteInsert { statement: 0 });
    let parsing = parsing.advance(Event::Done);
    assert_eq!(parsing.action(), Action::CallHook { statement: 0, hook: 0 });
    assert_eq!(parsing.advance(Event::HookAnswered).action(), Action::Finish);
    let parsing = parsing.advance(Event::HookPassed);
    assert_eq!(parsing.action(), Action::Plan { statement: 0 });
    assert_eq!(parsing.advance(Event::Done).phase, ParsePhase::Planned);
    assert_eq!(parsing.advance(Event::Failed).action(), Action::Fail);
}

#[test]
fn prepared_statements_are_run() {
    let query = ExtendedQuery::start(None, 2);
    assert_eq!(query.phase, ExtendedPhase::Finished(Reply::EmptyQuery));

    let mut query = ExtendedQuery::start(Some(true), 1);
    let mut actions = Vec::new();
    while query.action() != Action::Finish {
        actions.push(query.action());
        query = query.advance(match query.action() {
            Action::CallHook { .. } => Event::HookPassed,
            _ => Event::Done,
        });
    }
    assert_eq!(
        actions,
        vec![
            Action::Decode,
            Action::CallHook { statement: 0, hook: 0 },
            Action::Decode,
            Action::Execute { statement: 0 },
            Action::CountRows { statement: 0 },
        ]
    );
    assert_eq!(query.phase, ExtendedPhase::Finished(Reply::Inserted));
    let query = ExtendedQuery::start(Some(false), 0).advance(Event::Done);
    assert_eq!(query.advance(Event::TimedOut).action(), Action::Cancel);
}

#[test]
fn insertions_are_counted() {
    let tag = map_rows_affected_for_insert(Some(7));
    assert_eq!((tag.command, tag.oid, tag.rows), ("INSERT", 0, 7));
    assert_eq!(map_rows_affected_for_insert(None).rows, 0);
}

#[test]
fn changes_have_no_result_columns() {
    let fields = vec![Field::new("a", DataType::Int32, true)];
    assert!(get_result_schema(true, &fields, None).unwrap().is_empty());
    let infos = get_result_schema(false, &fields, None).unwrap();
    assert_eq!(infos.len(), 1);
    assert_eq!(infos[0].name, "a");
    assert_eq!(infos[0].format, FieldFormat::Text);
    let infos = get_result_schema(false, &fields, Some(&Format::UnifiedBinary)).unwrap();
    assert_eq!(infos[0].format, FieldFormat::Binary);
}
