use xepak::sql_key_args::{
    build_pos_query, query_to_pos_args, ParametrizedQuery, ParametrizedQueryRef, SqlLexer,
};

#[test]
fn lexer_next_none() {
    let mut lexer = SqlLexer::new("SELECT * FROM table WHERE id = '1'");
    let karg = lexer.next_key_arg();
    assert!(karg.is_none(), "{karg:?}");

    let mut lexer =
        SqlLexer::new("SELECT * FROM table WHERE test = '{{notkey1}}' OR \"{{notkey2}}\"");
    let karg = lexer.next_key_arg();
    assert!(karg.is_none(), "{karg:?}");

    let mut lexer = SqlLexer::new("SELECT '\\'{{notkey1}}\\'' OR \"\\\"{{notkey2}}\\\"\"");
    let karg = lexer.next_key_arg();
    assert!(karg.is_none(), "{karg:?}");

    let mut lexer =
        SqlLexer::new("SELECT '\\'''{{notkey1}}''\\'' OR \"\\\"\"\"{{notkey2}}\"\"\\\"\"");
    let karg = lexer.next_key_arg();
    assert!(karg.is_none(), "{karg:?}");

    let mut lexer = SqlLexer::new(
        "{{not a key}} OR {{not/akey}} {{ not_key1 }} {{ not_key2}} {{not_key3 }} { {not_key4} } { {not_key5}} {{not_key6} }",
    );
    let karg = lexer.next_key_arg();
    assert!(karg.is_none(), "{karg:?}");

    let mut lexer = SqlLexer::new("{{notkey1},{notkey2}} {{notkey3} {{notkey4} {notkey5}");
    let karg = lexer.next_key_arg();
    assert!(karg.is_none(), "{karg:?}");
}

#[test]
fn lexer_next_ok() {
    let mut lexer = SqlLexer::new("SELECT 'it''s a text' {{key1}}");
    let (key, range) = lexer.next_key_arg().unwrap();
    assert_eq!(key, "key1");
    assert_eq!(range, 22..=29);

    let mut lexer =
        SqlLexer::new("SELECT {{key1}} WHERE x={{key_2}} {{notkey1},{notkey2}} y={{key-3}}");

    let (key, range) = lexer.next_key_arg().unwrap();
    assert_eq!(key, "key1");
    assert_eq!(range, 7..=14);

    let (key, range) = lexer.next_key_arg().unwrap();
    assert_eq!(key, "key_2");
    assert_eq!(range, 24..=32);

    let (key, range) = lexer.next_key_arg().unwrap();
    assert_eq!(key, "key-3");
    assert_eq!(range, 58..=66);

    assert!(lexer.next_key_arg().is_none());

    let mut lexer =
        SqlLexer::new("SELECT * FROM users LIMIT {{--LIMIT--}} OFFSET {{__OFFSET__}}");

    let (key, range) = lexer.next_key_arg().unwrap();
    assert_eq!(key, "--LIMIT--");
    assert_eq!(range, 26..=38);

    let (key, range) = lexer.next_key_arg().unwrap();
    assert_eq!(key, "__OFFSET__");
    assert_eq!(range, 47..=60);

    assert!(lexer.next_key_arg().is_none());
}

#[test]
fn parametrized_query() {
    let query = "SELECT {{key1}} WHERE x={{key2}} {{notkey1},{notkey2}} y={{key3}}";
    let query_simple = "SELECT * FROM table WHERE id = '1'";

    let qa = ParametrizedQueryRef::new(query);
    let pos_query = qa.build_query("?");

    assert_eq!(
        pos_query.to_string(),
        "SELECT ? WHERE x=? {{notkey1},{notkey2}} y=?"
    );

    let qa = ParametrizedQueryRef::new(query_simple);
    let pos_query = qa.build_query("?");

    assert_eq!(pos_query.to_string(), query_simple);
}

fn names(sql: &str) -> Vec<String> {
    SqlLexer::new(sql)
        .into_key_args()
        .into_iter()
        .map(|(name, _)| name.to_string())
        .collect()
}

#[test]
fn lexer_scenario_three_keys() {
    let query = "SELECT {{key1}} WHERE x={{key2}} {{notkey1},{notkey2}} y={{key3}}";
    assert_eq!(names(query), vec!["key1", "key2", "key3"]);
    let owned = ParametrizedQuery::new(query.to_string());
    assert!(owned.has_args());
    assert_eq!(owned.get_args(), &["key1", "key2", "key3"]);
    assert_eq!(owned.get_query(), query);
    assert_eq!(
        owned.build_query("?"),
        "SELECT ? WHERE x=? {{notkey1},{notkey2}} y=?"
    );
}

#[test]
fn lexer_doubled_quote_does_not_end_literal() {
    let found = SqlLexer::new("SELECT 'it''s a text' {{key1}}").into_key_args();
    assert_eq!(found.len(), 1);
    assert_eq!(found[0].0, "key1");
}

#[test]
fn build_query_without_placeholders_is_borrowed() {
    let query = "SELECT 1 FROM t WHERE a = '{{x}}'";
    let parsed = ParametrizedQueryRef::new(query);
    assert!(!parsed.has_args());
    assert!(parsed.get_args().is_empty());
    assert_eq!(parsed.get_query(), query);
    match parsed.build_query("?") {
        std::borrow::Cow::Borrowed(text) => assert_eq!(text, query),
        std::borrow::Cow::Owned(_) => panic!("a template without placeholders was copied"),
    }
    let owned = ParametrizedQuery::new(query.to_string());
    assert!(!owned.has_args());
    assert_eq!(owned.build_query("?"), query);
}

#[test]
fn key_args_come_in_ascending_order() {
    let query = "{{a}}{{b}} '{{c}}' {{d}} \"{{e}}\" {{f}}";
    let found = SqlLexer::new(query).into_key_args();
    assert_eq!(
        found.iter().map(|(name, _)| *name).collect::<Vec<_>>(),
        vec!["a", "b", "d", "f"]
    );
    for pair in found.windows(2) {
        assert!(pair[0].1.end() < pair[1].1.start());
    }
    for (name, range) in &found {
        assert_eq!(&query[*range.start() + 2..=*range.end() - 2], *name);
    }
}

#[test]
fn rewritten_query_has_no_placeholders() {
    for query in [
        "SELECT {{key1}} WHERE x={{key2}} {{notkey1},{notkey2}} y={{key3}}",
        "{{a{{b}}}}",
        "'x'{{a}} '{{b}}'",
        "{{a}}{x}}",
        "SELECT * FROM users LIMIT {{--LIMIT--}} OFFSET {{__OFFSET__}}",
    ] {
        for token in ["?", "$1", ":p"] {
            let built = ParametrizedQueryRef::new(query).build_query(token).to_string();
            assert!(names(&built).is_empty(), "{query} -> {built}");
        }
    }
}

#[test]
fn placeholders_in_literals_are_not_found() {
    assert!(names("'{{a}}'").is_empty());
    assert!(names("\"{{a}}\"").is_empty());
    assert!(names("'\\'{{a}}'").is_empty());
    assert!(names("'''{{a}}'").is_empty());
    assert!(names("\"\\\"{{a}}\"").is_empty());
    assert!(names("\"\"\"{{a}}\"").is_empty());
    assert_eq!(names("'\\''{{a}}"), vec!["a"]);
    assert_eq!(names("''{{a}}"), vec!["a"]);
    assert_eq!(names("'x'\"{{a}}"), vec!["a"]);
}

#[test]
fn malformed_placeholders_are_plain_text() {
    assert!(names("{{{a}}").is_empty());
    assert!(names("{{a b}}").is_empty());
    assert!(names("{{a}").is_empty());
    assert!(names("{a}}").is_empty());
    assert!(names("{{a\\}}").is_empty());
    assert_eq!(names("{{a{{b}}"), vec!["b"]);
    assert_eq!(names("{{}}"), vec![""]);
    assert_eq!(names("{{a}}{{a}}"), vec!["a", "a"]);
}

#[test]
fn positions_count_characters() {
    let query = "SELECT 'é' || {{name}} -- ü";
    let found = SqlLexer::new(query).into_key_args();
    assert_eq!(found.len(), 1);
    assert_eq!(found[0].0, "name");
    assert_eq!(found[0].1, 14..=21);
    assert_eq!(
        ParametrizedQueryRef::new(query).build_query("?"),
        "SELECT 'é' || ? -- ü"
    );
}

#[test]
fn builders_replace_the_given_ranges() {
    let query = "a {{x}} b {{y}} c";
    let found = SqlLexer::new(query).into_key_args();
    assert_eq!(query_to_pos_args(query, "?", &found), "a ? b ? c");
    let ranges: Vec<_> = found.iter().map(|(_, range)| range.clone()).collect();
    assert_eq!(build_pos_query(query, &ranges, "$"), "a $ b $ c");
    assert_eq!(build_pos_query(query, &[], "$"), query);
}
