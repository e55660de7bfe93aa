use traffic::metrics::{basic_authorization, metrics_line, write_path};

#[test]
fn line_with_tags() {
    let tags = vec!["host=r1".to_string(), "env=prod".to_string()];
    assert_eq!(metrics_line(123, &tags), "traffic,host=r1,env=prod month_cumulative=123");
}

#[test]
fn line_without_tags() {
    assert_eq!(metrics_line(123, &Vec::new()), "traffic month_cumulative=123");
}

#[test]
fn line_with_negative_and_extreme_totals() {
    let tags = vec!["a=b".to_string()];
    assert_eq!(metrics_line(-5, &tags), "traffic,a=b month_cumulative=-5");
    assert_eq!(
        metrics_line(i64::MIN, &Vec::new()),
        "traffic month_cumulative=-9223372036854775808"
    );
    assert_eq!(metrics_line(0, &Vec::new()), "traffic month_cumulative=0");
}

#[test]
fn write_path_names_database() {
    assert_eq!(write_path("home"), "/write?db=home");
}

#[test]
fn basic_authorization_encodes_credentials() {
    assert_eq!(basic_authorization("user", "pass"), "Basic dXNlcjpwYXNz");
    assert_eq!(basic_authorization("", ""), "Basic Og==");
}
