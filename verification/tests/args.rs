use minihttp::arghelper::ArgHelper;
use minihttp::cache::{Cache, CacheValue};

fn strings(v: &[&str]) -> Vec<String> {
    v.iter().map(|s| s.to_string()).collect()
}

#[test]
fn parse_single_flag_with_value() {
    let a = ArgHelper::parse(strings(&["prog", "--port", "9090"]));
    assert_eq!(a.get_value("port"), Some("9090".to_string()));
}

#[test]
fn parse_joins_multiple_values_with_spaces() {
    let a = ArgHelper::parse(strings(&["prog", "--hosts", "a", "b", "c"]));
    assert_eq!(a.get_value("hosts"), Some("a b c".to_string()));
}

#[test]
fn parse_flag_without_values_is_empty_string() {
    let a = ArgHelper::parse(strings(&["prog", "--quiet"]));
    assert_eq!(a.get_value("quiet"), Some(String::new()));
}

#[test]
fn parse_unknown_flag_is_none() {
    let a = ArgHelper::parse(strings(&["prog", "--port", "9090"]));
    assert_eq!(a.get_value("method"), None);
}

#[test]
fn parse_skips_program_name() {
    // the first token is the program name even when it looks like a flag
    let a = ArgHelper::parse(strings(&["--port", "8080"]));
    assert_eq!(a.get_value("port"), None);
}

#[test]
fn parse_drops_values_before_any_flag() {
    let a = ArgHelper::parse(strings(&["prog", "stray", "--port", "1"]));
    assert_eq!(a.get_value("port"), Some("1".to_string()));
    assert_eq!(a.args.len(), 1);
}

#[test]
fn parse_strips_repeated_leading_dashes() {
    let a = ArgHelper::parse(strings(&["prog", "----flag", "v"]));
    assert_eq!(a.get_value("flag"), Some("v".to_string()));
}

#[test]
fn parse_two_flags() {
    let a = ArgHelper::parse(strings(&["prog", "--host", "h", "--port", "p"]));
    assert_eq!(a.get_value("host"), Some("h".to_string()));
    assert_eq!(a.get_value("port"), Some("p".to_string()));
}

#[test]
fn get_returns_first_match() {
    let a = ArgHelper::parse(strings(&["prog", "--k", "1", "--k", "2"]));
    let arg = a.get("k").unwrap();
    assert_eq!(arg.value, vec!["1".to_string()]);
}

#[test]
fn cache_stores_typed_values_last_write_wins() {
    let mut c = Cache::new("/tmp".to_string());
    c.add_int32("a", 1);
    c.add_i64("b".to_string(), 2);
    c.add_str("a", "text");
    let mut last_a = None;
    for (k, v) in &c.cache {
        if k == "a" {
            last_a = Some(v);
        }
    }
    match last_a {
        Some(CacheValue::Str(s)) => assert_eq!(s, "text"),
        _ => panic!("the later write to the key should win"),
    }
}

#[test]
fn cache_stores_vectors() {
    let mut c = Cache::new(String::new());
    c.add_vec_str("s", vec!["x", "y"]);
    c.add_vec_int("i", vec![1, 2, 3]);
    c.add_vec_i64("l", vec![4]);
    c.add_vec_string("t", vec!["z".to_string()]);
    assert_eq!(c.cache.len(), 4);
    match &c.cache[0].1 {
        CacheValue::StrVec(v) => assert_eq!(v, &vec!["x".to_string(), "y".to_string()]),
        _ => panic!("string vector expected"),
    }
}
