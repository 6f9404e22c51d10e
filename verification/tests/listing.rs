use ssmtui::models::{Parameter, ParameterMeta};
use ssmtui::ssm_data::{
    LOOKUP_BATCH, LookupStep, ParamKind, batch_lookup_step, batches, fetched_value, finish_full_load,
    plan_full_load, single_lookup_step, finish_name_listing, key_id_for_write, map_parameter_type, merge_parameters,
    round_robin, sort_parameters_by_name, sort_strings, text_less, worker_count_for,
};

fn param(name: &str, value: Option<&str>) -> Parameter {
    Parameter {
        name: name.to_string(),
        value: value.map(|v| v.to_string()),
        meta: ParameterMeta::default(),
    }
}

fn strings(v: &[&str]) -> Vec<String> {
    v.iter().map(|s| s.to_string()).collect()
}

#[test]
fn text_less_is_lexicographic_by_character() {
    assert!(text_less("a", "b"));
    assert!(!text_less("b", "a"));
    assert!(!text_less("a", "a"));
    assert!(text_less("a", "ab"));
    assert!(!text_less("ab", "a"));
    assert!(text_less("", "a"));
    assert!(text_less("B", "a"));
    assert!(text_less("/a/b", "/a/c"));
    assert!(text_less("z", "é"));
}

#[test]
fn sort_strings_orders_names() {
    let sorted = sort_strings(strings(&["/b", "/a", "/c", "/a/x"]));
    assert_eq!(sorted, strings(&["/a", "/a/x", "/b", "/c"]));
    assert!(sort_strings(vec![]).is_empty());
}

#[test]
fn sort_strings_matches_std_sort() {
    let input = strings(&["zeta", "Alpha", "alpha", "beta", "", "béta", "beta2"]);
    let mut expected = input.clone();
    expected.sort();
    assert_eq!(sort_strings(input), expected);
}

#[test]
fn sort_parameters_is_stable() {
    let params = vec![param("/b", Some("1")), param("/a", Some("2")), param("/b", Some("3"))];
    let sorted = sort_parameters_by_name(params);
    let got: Vec<(String, Option<String>)> = sorted.into_iter().map(|p| (p.name, p.value)).collect();
    assert_eq!(
        got,
        vec![
            ("/a".to_string(), Some("2".to_string())),
            ("/b".to_string(), Some("1".to_string())),
            ("/b".to_string(), Some("3".to_string())),
        ]
    );
}

#[test]
fn worker_count_is_one_per_thirty_plus_one() {
    assert_eq!(worker_count_for(0), 1);
    assert_eq!(worker_count_for(29), 1);
    assert_eq!(worker_count_for(30), 2);
    assert_eq!(worker_count_for(61), 3);
}

#[test]
fn finish_name_listing_sorts_and_counts() {
    let params: Vec<Parameter> = (0..31).rev().map(|i| param(&format!("/p{i:02}"), None)).collect();
    let (sorted, count, workers) = finish_name_listing(params);
    assert_eq!(count, 31);
    assert_eq!(workers, 2);
    assert_eq!(sorted[0].name, "/p00");
    assert_eq!(sorted[30].name, "/p30");
}

#[test]
fn round_robin_deals_names_in_turn() {
    let buckets = round_robin(&strings(&["a", "b", "c", "d", "e"]), 2);
    assert_eq!(buckets, vec![strings(&["a", "c", "e"]), strings(&["b", "d"])]);
    let buckets = round_robin(&strings(&["a"]), 3);
    assert_eq!(buckets, vec![strings(&["a"]), vec![], vec![]]);
    let buckets = round_robin(&vec![], 1);
    assert_eq!(buckets, vec![Vec::<String>::new()]);
}

#[test]
fn merge_takes_last_report_and_first_occurrence() {
    let mut m1 = ParameterMeta::default();
    m1.version = Some(1);
    let mut m2 = ParameterMeta::default();
    m2.version = Some(2);
    let names = strings(&["/a", "/b", "/a", "/c"]);
    let metas = vec![("/a".to_string(), m1), ("/a".to_string(), m2)];
    let values = vec![
        ("/b".to_string(), "vb".to_string()),
        ("/a".to_string(), "va1".to_string()),
        ("/a".to_string(), "va2".to_string()),
    ];
    let merged = merge_parameters(&names, &metas, &values);
    assert_eq!(merged.len(), 4);
    assert_eq!(merged[0].name, "/a");
    assert_eq!(merged[0].value.as_deref(), Some("va2"));
    assert_eq!(merged[0].meta.version, Some(2));
    assert_eq!(merged[1].value.as_deref(), Some("vb"));
    assert_eq!(merged[1].meta.version, None);
    assert_eq!(merged[2].name, "/a");
    assert_eq!(merged[2].value, None);
    assert_eq!(merged[2].meta.version, None);
    assert_eq!(merged[3].value, None);
}

#[test]
fn parameter_type_for_writes() {
    assert!(map_parameter_type(Some("String")) == ParamKind::Plain);
    assert!(map_parameter_type(Some("StringList")) == ParamKind::List);
    assert!(map_parameter_type(Some("SecureString")) == ParamKind::Secure);
    assert!(map_parameter_type(Some("securestring")) == ParamKind::Plain);
    assert!(map_parameter_type(None) == ParamKind::Plain);
}

#[test]
fn key_id_only_for_secure_strings() {
    let mut meta = ParameterMeta::default();
    meta.key_id = Some("alias/k".to_string());
    assert_eq!(key_id_for_write(&meta), None);
    meta.param_type = Some("String".to_string());
    assert_eq!(key_id_for_write(&meta), None);
    meta.param_type = Some("SecureString".to_string());
    assert_eq!(key_id_for_write(&meta), Some("alias/k".to_string()));
    meta.key_id = None;
    assert_eq!(key_id_for_write(&meta), None);
}

#[test]
fn fetched_value_of_a_lookup() {
    assert_eq!(
        fetched_value(None),
        Err("parameter missing in get_parameter response".to_string())
    );
    assert_eq!(fetched_value(Some(None)), Ok(String::new()));
    assert_eq!(fetched_value(Some(Some("v".to_string()))), Ok("v".to_string()));
}

#[test]
fn law_round_robin_loses_and_repeats_nothing() {
    let names: Vec<String> = (0..7).map(|i| format!("/n{i}")).collect();
    let buckets = round_robin(&names, 3);
    let mut total = 0;
    for (b, bucket) in buckets.iter().enumerate() {
        for (j, name) in bucket.iter().enumerate() {
            assert_eq!(name, &names[b + j * 3]);
        }
        total += bucket.len();
    }
    assert_eq!(total, names.len());
    assert_eq!(buckets.iter().map(|b| b.len()).collect::<Vec<_>>(), vec![3, 2, 2]);
}

#[test]
fn batches_cut_like_chunks() {
    let names: Vec<String> = (0..23).map(|i| format!("/n{i}")).collect();
    let got = batches(&names, LOOKUP_BATCH);
    let expected: Vec<Vec<String>> = names.chunks(10).map(|c| c.to_vec()).collect();
    assert_eq!(got, expected);
    assert_eq!(got.iter().map(|b| b.len()).collect::<Vec<_>>(), vec![10, 10, 3]);
    assert!(batches(&vec![], 10).is_empty());
    assert_eq!(batches(&strings(&["a", "b"]), 1), vec![strings(&["a"]), strings(&["b"])]);
    assert_eq!(batches(&strings(&["a", "b"]), 5), vec![strings(&["a", "b"])]);
}

#[test]
fn batch_lookup_steps() {
    let reply = Ok(vec![
        (Some("/a".to_string()), Some("1".to_string())),
        (None, Some("x".to_string())),
        (Some("/b".to_string()), None),
    ]);
    match batch_lookup_step(true, reply) {
        LookupStep::Done(pairs) => assert_eq!(
            pairs,
            vec![("/a".to_string(), "1".to_string()), ("/b".to_string(), String::new())]
        ),
        _ => panic!("expected values"),
    }
    assert!(matches!(batch_lookup_step(true, Err("kms".to_string())), LookupStep::RetryWithoutDecryption));
    assert!(matches!(
        batch_lookup_step(false, Err("kms".to_string())),
        LookupStep::Failed(e) if e == "get_parameters failed: kms"
    ));
}

#[test]
fn single_lookup_steps() {
    assert!(matches!(single_lookup_step(true, Ok(Some(Some("v".to_string())))), LookupStep::Done(v) if v == "v"));
    assert!(matches!(single_lookup_step(false, Ok(Some(None))), LookupStep::Done(v) if v.is_empty()));
    assert!(matches!(
        single_lookup_step(true, Ok(None)),
        LookupStep::Failed(e) if e == "parameter missing in get_parameter response"
    ));
    assert!(matches!(single_lookup_step(true, Err("x".to_string())), LookupStep::RetryWithoutDecryption));
    assert!(matches!(
        single_lookup_step(false, Err("x".to_string())),
        LookupStep::Failed(e) if e == "get_parameter failed: x"
    ));
}

#[test]
fn full_load_plan_and_finish() {
    let mut m = ParameterMeta::default();
    m.version = Some(4);
    let listed: Vec<(String, ParameterMeta)> = (0..31)
        .rev()
        .map(|i| (format!("/p{i:02}"), if i == 0 { m.clone() } else { ParameterMeta::default() }))
        .collect();
    let (names, buckets) = plan_full_load(&listed);
    assert_eq!(names[0], "/p00");
    assert_eq!(names[30], "/p30");
    assert_eq!(buckets.len(), 2);
    assert_eq!(buckets[0].len(), 16);
    assert_eq!(buckets[1][0], "/p01");
    let results = vec![
        Ok(vec![("/p00".to_string(), "zero".to_string())]),
        Ok(vec![("/p01".to_string(), "one".to_string())]),
    ];
    let (params, count, workers) = finish_full_load(&names, &listed, results).unwrap();
    assert_eq!(count, 31);
    assert_eq!(workers, 2);
    assert_eq!(params[0].value.as_deref(), Some("zero"));
    assert_eq!(params[0].meta.version, Some(4));
    assert_eq!(params[1].value.as_deref(), Some("one"));
    assert_eq!(params[2].value, None);
    let failing = vec![Ok(vec![]), Err("boom".to_string()), Err("later".to_string())];
    assert_eq!(finish_full_load(&names, &listed, failing).err(), Some("boom".to_string()));
}
