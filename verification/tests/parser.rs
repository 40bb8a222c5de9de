use datafusion_postgres::sql::parser::PostgresCompatibilityParser;
use sqlparser::dialect::PostgreSqlDialect;
use sqlparser::parser::Parser;
use sqlparser::tokenizer::Token;

fn new_parser() -> PostgresCompatibilityParser {
    PostgresCompatibilityParser::new().unwrap()
}

#[test]
fn test_empty_query() {
    let parser = new_parser();
    let result = parser.parse(" ").expect("failed to parse sql");
    assert!(result.trees.is_empty());

    let result = parser.parse("").expect("failed to parse sql");
    assert!(result.trees.is_empty());

    let result = parser.parse(";").expect("failed to parse sql");
    assert!(result.trees.is_empty());
}

#[test]
fn test_full_match() {
    let sql = "SELECT pol.polname, pol.polpermissive,
              CASE WHEN pol.polroles = '{0}' THEN NULL ELSE pg_catalog.array_to_string(array(select rolname from pg_catalog.pg_roles where oid = any (pol.polroles) order by 1),',') END,
              pg_catalog.pg_get_expr(pol.polqual, pol.polrelid),
              pg_catalog.pg_get_expr(pol.polwithcheck, pol.polrelid),
              CASE pol.polcmd
                WHEN 'r' THEN 'SELECT'
                WHEN 'a' THEN 'INSERT'
                WHEN 'w' THEN 'UPDATE'
                WHEN 'd' THEN 'DELETE'
                END AS cmd
            FROM pg_catalog.pg_policy pol
            WHERE pol.polrelid = '16384' ORDER BY 1;";

    let parser = new_parser();
    let actual_tokens = parser
        .maybe_replace_tokens(sql)
        .expect("failed to parse sql")
        .iter()
        .map(|t| t.raw().clone())
        .filter(|t| !matches!(t, Token::Whitespace(_) | Token::SemiColon))
        .collect::<Vec<_>>();

    let expected_sql = r#"SELECT
   NULL::TEXT AS polname,
   NULL::TEXT AS polpermissive,
   NULL::TEXT AS array_to_string,
   NULL::TEXT AS pg_get_expr_1,
   NULL::TEXT AS pg_get_expr_2,
   NULL::TEXT AS cmd
 WHERE false"#;

    let expected_tokens = Parser::new(&PostgreSqlDialect {})
        .try_with_sql(expected_sql)
        .unwrap()
        .into_tokens()
        .into_iter()
        .map(|t| t.token)
        .filter(|t| !matches!(t, Token::Whitespace(_) | Token::SemiColon))
        .collect::<Vec<_>>();

    assert_eq!(actual_tokens, expected_tokens);

    let sql = "SELECT n.nspname schema_name,
                                       t.typname type_name
                                FROM   pg_catalog.pg_type t
                                       INNER JOIN pg_catalog.pg_namespace n
                                          ON n.oid = t.typnamespace
                                WHERE ( t.typrelid = 0  -- non-composite types
                                        OR (  -- composite type, but not a table
                                              SELECT c.relkind = 'c'
                                              FROM pg_catalog.pg_class c
                                              WHERE c.oid = t.typrelid
                                            )
                                      )
                                      AND NOT EXISTS( -- ignore array types
                                            SELECT  1
                                            FROM    pg_catalog.pg_type el
                                            WHERE   el.oid = t.typelem AND el.typarray = t.oid
                                          )
                                      AND n.nspname <> 'pg_catalog'
                                      AND n.nspname <> 'information_schema'
                                ORDER BY 1, 2";

    let parser = new_parser();

    let actual_tokens = parser
        .maybe_replace_tokens(sql)
        .expect("failed to parse sql")
        .iter()
        .map(|t| t.raw().clone())
        .filter(|t| !matches!(t, Token::Whitespace(_) | Token::SemiColon))
        .collect::<Vec<_>>();

    let expected_sql =
        r#"SELECT NULL::TEXT AS schema_name, NULL::TEXT AS type_name WHERE false"#;

    let expected_tokens = Parser::new(&PostgreSqlDialect {})
        .try_with_sql(expected_sql)
        .unwrap()
        .into_tokens()
        .into_iter()
        .map(|t| t.token)
        .filter(|t| !matches!(t, Token::Whitespace(_) | Token::SemiColon))
        .collect::<Vec<_>>();

    assert_eq!(actual_tokens, expected_tokens);

    let sql = "SELECT pubname
             , NULL
             , NULL
        FROM pg_catalog.pg_publication p
             JOIN pg_catalog.pg_publication_namespace pn ON p.oid = pn.pnpubid
             JOIN pg_catalog.pg_class pc ON pc.relnamespace = pn.pnnspid
        WHERE pc.oid ='16384' and pg_catalog.pg_relation_is_publishable('16384')
        UNION
        SELECT pubname
             , pg_get_expr(pr.prqual, c.oid)
             , (CASE WHEN pr.prattrs IS NOT NULL THEN
                 (SELECT string_agg(attname, ', ')
                   FROM pg_catalog.generate_series(0, pg_catalog.array_upper(pr.prattrs::pg_catalog.int2[], 1)) s,
                        pg_catalog.pg_attribute
                  WHERE attrelid = pr.prrelid AND attnum = prattrs[s])
                ELSE NULL END) FROM pg_catalog.pg_publication p
             JOIN pg_catalog.pg_publication_rel pr ON p.oid = pr.prpubid
             JOIN pg_catalog.pg_class c ON c.oid = pr.prrelid
        WHERE pr.prrelid = '16384'
        UNION
        SELECT pubname
             , NULL
             , NULL
        FROM pg_catalog.pg_publication p
        WHERE p.puballtables AND pg_catalog.pg_relation_is_publishable('16384')
        ORDER BY 1;";

    let parser = new_parser();

    let actual_tokens = parser
        .maybe_replace_tokens(sql)
        .expect("failed to parse sql")
        .iter()
        .map(|t| t.raw().clone())
        .filter(|t| !matches!(t, Token::Whitespace(_) | Token::SemiColon))
        .collect::<Vec<_>>();

    let expected_sql = r#"SELECT
   NULL::TEXT AS pubname,
   NULL::TEXT AS _1,
   NULL::TEXT AS _2
 WHERE false"#;

    let expected_tokens = Parser::new(&PostgreSqlDialect {})
        .try_with_sql(expected_sql)
        .unwrap()
        .into_tokens()
        .into_iter()
        .map(|t| t.token)
        .filter(|t| !matches!(t, Token::Whitespace(_) | Token::SemiColon))
        .collect::<Vec<_>>();

    assert_eq!(actual_tokens, expected_tokens);
}


#[test]
fn test_partial_match() {
    let parser = new_parser();

    // Test partial match where the beginning matches a blacklisted query
    // Using a simpler query that doesn't have placeholders for easier testing
    let sql = r#"SELECT
        CASE WHEN
              quote_ident(table_schema) IN (
              SELECT
                CASE WHEN trim(s[i]) = '"$user"' THEN user ELSE trim(s[i]) END
              FROM
                generate_series(
                  array_lower(string_to_array(current_setting('search_path'),','),1),
                  array_upper(string_to_array(current_setting('search_path'),','),1)
                ) as i,
                string_to_array(current_setting('search_path'),',') s
              )
          THEN quote_ident(table_name)
          ELSE quote_ident(table_schema) || '.' || quote_ident(table_name)
        END AS "table"
        FROM information_schema.tables
        WHERE quote_ident(table_schema) NOT IN ('information_schema',
                                 'pg_catalog',
                                 '_timescaledb_cache',
                                 '_timescaledb_catalog',
                                 '_timescaledb_internal',
                                 '_timescaledb_config',
                                 'timescaledb_information',
                                 'timescaledb_experimental')
        ORDER BY CASE WHEN
              quote_ident(table_schema) IN (
              SELECT
                CASE WHEN trim(s[i]) = '"$user"' THEN user ELSE trim(s[i]) END
              FROM
                generate_series(
                  array_lower(string_to_array(current_setting('search_path'),','),1),
                  array_upper(string_to_array(current_setting('search_path'),','),1)
                ) as i,
                string_to_array(current_setting('search_path'),',') s
              ) THEN 0 ELSE 1 END, 1"#;

    let tokens = parser
        .maybe_replace_tokens(sql)
        .expect("failed to parse sql");
    // Should have the beginning replaced with 'SELECT' and the rest preserved
    assert!(tokens.len() > 0);

    let expected_sql = r#"SELECT
        CASE WHEN
              quote_ident(table_schema) IN (
              '')
          THEN quote_ident(table_name)
          ELSE quote_ident(table_schema) || '.' || quote_ident(table_name)
        END AS "table"
        FROM information_schema.tables
        WHERE quote_ident(table_schema) NOT IN ('information_schema',
                                 'pg_catalog',
                                 '_timescaledb_cache',
                                 '_timescaledb_catalog',
                                 '_timescaledb_internal',
                                 '_timescaledb_config',
                                 'timescaledb_information',
                                 'timescaledb_experimental')
        ORDER BY CASE WHEN
              quote_ident(table_schema) IN (
              ''
              ) THEN 0 ELSE 1 END, 1"#;

    let expected_tokens = Parser::new(&PostgreSqlDialect {})
        .try_with_sql(expected_sql)
        .unwrap()
        .into_tokens();

    // Compare token values (ignoring spans and whitespace)
    let actual_tokens: Vec<_> = tokens
        .iter()
        .map(|t| t.raw())
        .filter(|t| !matches!(t, Token::Whitespace(_) | Token::SemiColon))
        .collect();
    let expected_token_values: Vec<_> = expected_tokens
        .iter()
        .map(|t| &t.token)
        .filter(|t| !matches!(t, Token::Whitespace(_) | Token::SemiColon))
        .collect();

    assert_eq!(actual_tokens, expected_token_values);
}


#[test]
fn a_query_that_is_unknown_is_kept() {
    let parser = new_parser();
    let tokens = parser.maybe_replace_tokens("SELECT a  FROM t").unwrap();
    let kept: Vec<String> = tokens.iter().map(|t| t.raw().to_string()).collect();
    assert_eq!(kept, vec!["SELECT", "a", "FROM", "t"]);
}

#[test]
fn what_cannot_be_parsed_is_an_error() {
    let parser = new_parser();
    assert!(parser.parse("SELECT ( FROM").is_err());
    assert!(parser.parse("SELECT 'open").is_err());
}
