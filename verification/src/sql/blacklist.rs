//! Client queries that are replaced as a whole before they are parsed.
use vstd::prelude::*;

verus! {

/// pgcli: the columns of foreign keys.
pub const PGCLI_FOREIGN_KEYS: &'static str = "SELECT s_p.nspname AS parentschema,
                               t_p.relname AS parenttable,
                               unnest((
                                select
                                    array_agg(attname ORDER BY i)
                                from
                                    (select unnest(confkey) as attnum, generate_subscripts(confkey, 1) as i) x
                                    JOIN pg_catalog.pg_attribute c USING(attnum)
                                    WHERE c.attrelid = fk.confrelid
                                )) AS parentcolumn,
                               s_c.nspname AS childschema,
                               t_c.relname AS childtable,
                               unnest((
                                select
                                    array_agg(attname ORDER BY i)
                                from
                                    (select unnest(conkey) as attnum, generate_subscripts(conkey, 1) as i) x
                                    JOIN pg_catalog.pg_attribute c USING(attnum)
                                    WHERE c.attrelid = fk.conrelid
                                )) AS childcolumn
                        FROM pg_catalog.pg_constraint fk
                        JOIN pg_catalog.pg_class      t_p ON t_p.oid = fk.confrelid
                        JOIN pg_catalog.pg_namespace  s_p ON s_p.oid = t_p.relnamespace
                        JOIN pg_catalog.pg_class      t_c ON t_c.oid = fk.conrelid
                        JOIN pg_catalog.pg_namespace  s_c ON s_c.oid = t_c.relnamespace
                        WHERE fk.contype = 'f'";

/// What [`PGCLI_FOREIGN_KEYS`] is replaced with.
pub const PGCLI_FOREIGN_KEYS_REPLACEMENT: &'static str = "SELECT
   NULL::TEXT AS parentschema,
   NULL::TEXT AS parenttable,
   NULL::TEXT AS parentcolumn,
   NULL::TEXT AS childschema,
   NULL::TEXT AS childtable,
   NULL::TEXT AS childcolumn
 WHERE false";

/// pgcli: user-defined types.
pub const PGCLI_USER_TYPES: &'static str = "SELECT n.nspname schema_name,
                                       t.typname type_name
                                FROM   pg_catalog.pg_type t
                                       INNER JOIN pg_catalog.pg_namespace n
                                          ON n.oid = t.typnamespace
                                WHERE ( t.typrelid = 0  -- non-composite types
                                        OR (  -- composite type, but not a table
                                              SELECT c.relkind = 'c'
                                              FROM pg_catalog.pg_class c
                                              WHERE c.oid = t.typrelid
                                            )
                                      )
                                      AND NOT EXISTS( -- ignore array types
                                            SELECT  1
                                            FROM    pg_catalog.pg_type el
                                            WHERE   el.oid = t.typelem AND el.typarray = t.oid
                                          )
                                      AND n.nspname <> 'pg_catalog'
                                      AND n.nspname <> 'information_schema'
                                ORDER BY 1, 2;";

/// What [`PGCLI_USER_TYPES`] is replaced with.
pub const PGCLI_USER_TYPES_REPLACEMENT: &'static str = "SELECT NULL::TEXT AS schema_name, NULL::TEXT AS type_name WHERE false";

/// psql `\d`: row policies of a table.
pub const PSQL_ROW_POLICIES: &'static str = "SELECT pol.polname, pol.polpermissive,
          CASE WHEN pol.polroles = '{0}' THEN NULL ELSE pg_catalog.array_to_string(array(select rolname from pg_catalog.pg_roles where oid = any (pol.polroles) order by 1),',') END,
          pg_catalog.pg_get_expr(pol.polqual, pol.polrelid),
          pg_catalog.pg_get_expr(pol.polwithcheck, pol.polrelid),
          CASE pol.polcmd
            WHEN 'r' THEN 'SELECT'
            WHEN 'a' THEN 'INSERT'
            WHEN 'w' THEN 'UPDATE'
            WHEN 'd' THEN 'DELETE'
            END AS cmd
        FROM pg_catalog.pg_policy pol
        WHERE pol.polrelid = $1 ORDER BY 1;";

/// What [`PSQL_ROW_POLICIES`] is replaced with.
pub const PSQL_ROW_POLICIES_REPLACEMENT: &'static str = "SELECT
   NULL::TEXT AS polname,
   NULL::TEXT AS polpermissive,
   NULL::TEXT AS array_to_string,
   NULL::TEXT AS pg_get_expr_1,
   NULL::TEXT AS pg_get_expr_2,
   NULL::TEXT AS cmd
 WHERE false";

/// psql `\d`: extended statistics of a table.
pub const PSQL_EXTENDED_STATISTICS: &'static str = "SELECT oid, stxrelid::pg_catalog.regclass, stxnamespace::pg_catalog.regnamespace::pg_catalog.text AS nsp, stxname,
        pg_catalog.pg_get_statisticsobjdef_columns(oid) AS columns,
          'd' = any(stxkind) AS ndist_enabled,
          'f' = any(stxkind) AS deps_enabled,
          'm' = any(stxkind) AS mcv_enabled,
        stxstattarget
        FROM pg_catalog.pg_statistic_ext
        WHERE stxrelid = $1
        ORDER BY nsp, stxname;";

/// What [`PSQL_EXTENDED_STATISTICS`] is replaced with.
pub const PSQL_EXTENDED_STATISTICS_REPLACEMENT: &'static str = "SELECT
   NULL::INT AS oid,
   NULL::TEXT AS stxrelid,
   NULL::TEXT AS nsp,
   NULL::TEXT AS stxname,
   NULL::TEXT AS columns,
   NULL::BOOLEAN AS ndist_enabled,
   NULL::BOOLEAN AS deps_enabled,
   NULL::BOOLEAN AS mcv_enabled,
   NULL::TEXT AS stxstattarget
 WHERE false";

/// psql `\d`: publications of a table.
pub const PSQL_PUBLICATIONS: &'static str = "SELECT pubname
             , NULL
             , NULL
        FROM pg_catalog.pg_publication p
             JOIN pg_catalog.pg_publication_namespace pn ON p.oid = pn.pnpubid
             JOIN pg_catalog.pg_class pc ON pc.relnamespace = pn.pnnspid
        WHERE pc.oid = $1 and pg_catalog.pg_relation_is_publishable($1)
        UNION
        SELECT pubname
             , pg_get_expr(pr.prqual, c.oid)
             , (CASE WHEN pr.prattrs IS NOT NULL THEN
                 (SELECT string_agg(attname, ', ')
                   FROM pg_catalog.generate_series(0, pg_catalog.array_upper(pr.prattrs::pg_catalog.int2[], 1)) s,
                        pg_catalog.pg_attribute
                  WHERE attrelid = pr.prrelid AND attnum = prattrs[s])
                ELSE NULL END) FROM pg_catalog.pg_publication p
             JOIN pg_catalog.pg_publication_rel pr ON p.oid = pr.prpubid
             JOIN pg_catalog.pg_class c ON c.oid = pr.prrelid
        WHERE pr.prrelid = $1
        UNION
        SELECT pubname
             , NULL
             , NULL
        FROM pg_catalog.pg_publication p
        WHERE p.puballtables AND pg_catalog.pg_relation_is_publishable($1)
        ORDER BY 1;";

/// What [`PSQL_PUBLICATIONS`] is replaced with.
pub const PSQL_PUBLICATIONS_REPLACEMENT: &'static str = "SELECT
   NULL::TEXT AS pubname,
   NULL::TEXT AS _1,
   NULL::TEXT AS _2
 WHERE false";

/// dbeaver: sizes of relations.
pub const DBEAVER_RELATION_SIZES: &'static str = "select c.oid,pg_catalog.pg_total_relation_size(c.oid) as total_rel_size,pg_catalog.pg_relation_size(c.oid) as rel_size\n     FROM pg_class c\n     WHERE c.relnamespace='public'";

/// What [`DBEAVER_RELATION_SIZES`] is replaced with.
pub const DBEAVER_RELATION_SIZES_REPLACEMENT: &'static str = "SELECT\n   NULL::INT AS oid,\n   NULL::INT AS total_rel_size,\n   NULL::INT AS rel_size\n WHERE false";

/// grafana: the search path. Only this subquery is replaced.
pub const GRAFANA_SEARCH_PATH: &'static str = r#"SELECT
            CASE WHEN trim(s[i]) = '"$user"' THEN user ELSE trim(s[i]) END
        FROM
            generate_series(
                array_lower(string_to_array(current_setting('search_path'),','),1),
                array_upper(string_to_array(current_setting('search_path'),','),1)
            ) as i,
            string_to_array(current_setting('search_path'),',') s"#;

/// What [`GRAFANA_SEARCH_PATH`] is replaced with.
pub const GRAFANA_SEARCH_PATH_REPLACEMENT: &'static str = "''";

/// The replaced queries, each with its replacement.
pub open spec fn replaced_queries() -> Seq<(Seq<char>, Seq<char>)> {
    seq![
        (PGCLI_FOREIGN_KEYS@, PGCLI_FOREIGN_KEYS_REPLACEMENT@),
        (PGCLI_USER_TYPES@, PGCLI_USER_TYPES_REPLACEMENT@),
        (PSQL_ROW_POLICIES@, PSQL_ROW_POLICIES_REPLACEMENT@),
        (PSQL_EXTENDED_STATISTICS@, PSQL_EXTENDED_STATISTICS_REPLACEMENT@),
        (PSQL_PUBLICATIONS@, PSQL_PUBLICATIONS_REPLACEMENT@),
        (DBEAVER_RELATION_SIZES@, DBEAVER_RELATION_SIZES_REPLACEMENT@),
        (GRAFANA_SEARCH_PATH@, GRAFANA_SEARCH_PATH_REPLACEMENT@),
    ]
}

/// The replaced queries, each with its replacement.
///
/// The two are compared with a client's query token by token, so white space
/// makes no difference. A placeholder in a replaced query stands for any one
/// token.
pub fn blacklist_sql_mapping() -> (r: Vec<(&'static str, &'static str)>)
    ensures
        r@.len() == replaced_queries().len(),
        forall|i: int|
            0 <= i < r@.len() ==> ((#[trigger] r@[i]).0@, r@[i].1@) == replaced_queries()[i],
{
    vec![
        (PGCLI_FOREIGN_KEYS, PGCLI_FOREIGN_KEYS_REPLACEMENT),
        (PGCLI_USER_TYPES, PGCLI_USER_TYPES_REPLACEMENT),
        (PSQL_ROW_POLICIES, PSQL_ROW_POLICIES_REPLACEMENT),
        (PSQL_EXTENDED_STATISTICS, PSQL_EXTENDED_STATISTICS_REPLACEMENT),
        (PSQL_PUBLICATIONS, PSQL_PUBLICATIONS_REPLACEMENT),
        (DBEAVER_RELATION_SIZES, DBEAVER_RELATION_SIZES_REPLACEMENT),
        (GRAFANA_SEARCH_PATH, GRAFANA_SEARCH_PATH_REPLACEMENT),
    ]
}

} // verus!
