use container_control::http::{
    healthcheck_response, hello_response, missing_param_response, read_params, restart_response,
    start_response, stop_response,
};
use container_control::query::{parse_query, percent_decode};
use container_control::runtime::{healthcheck, ContainerSummary};

fn cv(s: &str) -> Vec<char> {
    s.chars().collect()
}

fn summary(names: &[&str], status: Option<&str>) -> ContainerSummary {
    ContainerSummary {
        names: names.iter().map(|n| cv(n)).collect(),
        status: status.map(cv),
    }
}

#[test]
fn hello_is_greeting() {
    let r = hello_response();
    assert_eq!(r.status, 200);
    assert_eq!(r.body, cv("Hello world!"));
}

#[test]
fn missing_param_reply_is_fixed() {
    let r = missing_param_response();
    assert_eq!(r.status, 400);
    assert_eq!(r.body, cv("Missing container parameter"));
}

#[test]
fn empty_query_is_rejected() {
    let r = read_params("");
    let resp = r.err().expect("an empty query names no container");
    assert_eq!(resp.status, 400);
    assert_eq!(resp.body, cv("Missing container parameter"));
}

#[test]
fn unrelated_params_are_rejected() {
    let resp = read_params("foo=bar&baz=1").err().expect("no container named");
    assert_eq!(resp.status, 400);
    assert_eq!(resp.body, cv("Missing container parameter"));
}

#[test]
fn misspelled_key_is_rejected() {
    assert!(read_params("containe=web").is_err());
    assert!(read_params("containerr=web").is_err());
}

#[test]
fn duplicate_container_is_rejected() {
    assert!(read_params("container=a&container=b").is_err());
}

#[test]
fn malformed_escape_is_rejected() {
    assert!(read_params("container=%zz").is_err());
    assert!(read_params("container=%4").is_err());
    assert!(read_params("container=web&junk=%").is_err());
}

#[test]
fn container_param_is_read() {
    let p = read_params("container=web").ok().expect("the container is named");
    assert_eq!(p.container, cv("web"));
}

#[test]
fn container_param_among_others() {
    let p = read_params("a=1&container=web&b=2").ok().expect("the container is named");
    assert_eq!(p.container, cv("web"));
}

#[test]
fn container_key_without_value() {
    let p = read_params("container").ok().expect("the key alone still counts");
    assert_eq!(p.container, cv(""));
}

#[test]
fn empty_value_is_still_named() {
    let p = read_params("container=").ok().expect("an empty name is still named");
    assert_eq!(p.container, cv(""));
}

#[test]
fn encoded_key_still_counts() {
    let p = read_params("%63ontainer=web").ok().expect("the key decodes first");
    assert_eq!(p.container, cv("web"));
}

#[test]
fn empty_target_matches_first_container() {
    let containers = vec![summary(&["/a"], Some("up")), summary(&["/b"], Some("down"))];
    let r = healthcheck_response(&containers, &cv(""));
    assert_eq!(r.status, 200);
    assert_eq!(r.body, cv("up"));
}

#[test]
fn percent_and_plus_decode() {
    let p = read_params("container=w%65b").ok().expect("the escape decodes");
    assert_eq!(p.container, cv("web"));
    let q = read_params("container=my+app").ok().expect("plus decodes to a space");
    assert_eq!(q.container, cv("my app"));
}

#[test]
fn decode_handles_upper_and_lower_hex() {
    let d = percent_decode(&cv("%41%6a%6A")).expect("all escapes decode");
    assert_eq!(d, cv("Ajj"));
}

#[test]
fn parse_query_rejects_without_container() {
    assert!(parse_query(&cv("x=y")).is_none());
}

#[test]
fn healthcheck_not_found() {
    let containers = vec![
        summary(&["/db-1"], Some("running")),
        summary(&["/cache"], Some("exited")),
    ];
    let r = healthcheck_response(&containers, &cv("web"));
    assert_eq!(r.status, 500);
    assert_eq!(r.body, cv("Container web not found"));
}

#[test]
fn healthcheck_empty_daemon_not_found() {
    let containers: Vec<ContainerSummary> = Vec::new();
    let r = healthcheck_response(&containers, &cv("web"));
    assert_eq!(r.status, 500);
    assert_eq!(r.body, cv("Container web not found"));
}

#[test]
fn healthcheck_substring_match() {
    let containers = vec![summary(&["/web-1"], Some("running"))];
    let r = healthcheck_response(&containers, &cv("web"));
    assert_eq!(r.status, 200);
    assert_eq!(r.body, cv("running"));
}

#[test]
fn healthcheck_strips_leading_character() {
    // The delinked form of "/web" is "web"; the delinked form of "web"
    // is "eb", which no longer holds the target.
    let containers = vec![summary(&["web"], Some("running"))];
    let r = healthcheck_response(&containers, &cv("web"));
    assert_eq!(r.status, 500);
    assert_eq!(r.body, cv("Container web not found"));
}

#[test]
fn healthcheck_first_match_wins() {
    let containers = vec![
        summary(&["/db"], Some("paused")),
        summary(&["/web-1"], Some("running")),
        summary(&["/web-2"], Some("exited")),
    ];
    let r = healthcheck_response(&containers, &cv("web"));
    assert_eq!(r.status, 200);
    assert_eq!(r.body, cv("running"));
}

#[test]
fn healthcheck_any_name_counts() {
    let containers = vec![summary(&["/db", "/my-web-app"], Some("restarting"))];
    let r = healthcheck_response(&containers, &cv("web"));
    assert_eq!(r.status, 200);
    assert_eq!(r.body, cv("restarting"));
}

#[test]
fn healthcheck_no_status() {
    let containers = vec![summary(&["/web-1"], None)];
    let r = healthcheck_response(&containers, &cv("web"));
    assert_eq!(r.status, 500);
    assert_eq!(r.body, cv("Container web has no status"));
}

#[test]
fn healthcheck_result_shape() {
    let containers = vec![summary(&["/web-1"], Some("running"))];
    assert_eq!(healthcheck(&containers, &cv("web")), Ok(cv("running")));
    assert_eq!(
        healthcheck(&containers, &cv("db")),
        Err(cv("Container db not found"))
    );
}

#[test]
fn healthcheck_repeats_identically() {
    let containers = vec![
        summary(&["/web-1"], Some("running")),
        summary(&["/db"], None),
    ];
    let first = healthcheck_response(&containers, &cv("web"));
    let second = healthcheck_response(&containers, &cv("web"));
    assert_eq!(first.status, second.status);
    assert_eq!(first.body, second.body);
}

#[test]
fn start_accepted() {
    let r = start_response(&cv("web"), true);
    assert_eq!(r.status, 200);
    assert_eq!(r.body, cv("Container started"));
}

#[test]
fn start_rejected() {
    let r = start_response(&cv("web"), false);
    assert_eq!(r.status, 500);
    assert_eq!(r.body, cv("Container web failed to start"));
}

#[test]
fn stop_accepted() {
    let r = stop_response(&cv("web"), true);
    assert_eq!(r.status, 200);
    assert_eq!(r.body, cv("Container stopped"));
}

#[test]
fn stop_rejected() {
    let r = stop_response(&cv("web"), false);
    assert_eq!(r.status, 500);
    assert_eq!(r.body, cv("Container web failed to stop"));
}

#[test]
fn restart_accepted() {
    let r = restart_response(&cv("web"), true);
    assert_eq!(r.status, 200);
    assert_eq!(r.body, cv("Container restarted"));
}

#[test]
fn restart_rejected_reuses_start_wording() {
    let r = restart_response(&cv("web"), false);
    assert_eq!(r.status, 500);
    assert_eq!(r.body, cv("Container web failed to start"));
}
