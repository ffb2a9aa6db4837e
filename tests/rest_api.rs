use github_bot::rest_api::{
    authorization, check_hook_created, check_hook_removed, hook_request_body, hook_url, hooks_url,
    repository_url, HookError,
};
use github_bot::webhook::{self, check_created};

#[test]
fn request_addresses() {
    assert_eq!(
        repository_url("Septias", "testrepo"),
        "https://api.github.com/repos/Septias/testrepo"
    );
    assert_eq!(
        hooks_url("Septias", "testrepo"),
        "https://api.github.com/repos/Septias/testrepo/hooks"
    );
    assert_eq!(
        hook_url("Septias", "testrepo", 405),
        "https://api.github.com/repos/Septias/testrepo/hooks/405"
    );
    assert_eq!(authorization("abc"), "Bearer abc");
}

#[test]
fn hook_request_body_names_the_receiver() {
    let body = hook_request_body("10.0.0.2");
    let v: serde_json::Value = serde_json::from_str(&body).unwrap();
    assert_eq!(v["name"], "web");
    assert_eq!(v["active"], true);
    assert_eq!(v["events"][0], "issues");
    assert_eq!(v["events"][1], "pull_request");
    assert_eq!(v["config"]["url"], "http://10.0.0.2:8080/receive");
    assert_eq!(v["config"]["content_type"], "json");
    assert_eq!(v["config"]["insecure_ssl"], "0");
}

#[test]
fn creation_status_codes() {
    assert_eq!(check_hook_created(201, "201 Created".to_string()), Ok(()));
    assert_eq!(
        check_hook_created(422, "422 Unprocessable Entity".to_string()),
        Err(HookError::ValidationError)
    );
    assert_eq!(
        check_hook_created(404, "404 Not Found".to_string()),
        Err(HookError::Server("404 Not Found".to_string()))
    );
    assert_eq!(
        HookError::Server("404".to_string()).message(),
        "Server error: 404"
    );
    assert_eq!(
        HookError::ValidationError.message(),
        "Validation failed, or the endpoint has been spammed."
    );
}

#[test]
fn removal_status_codes() {
    assert_eq!(check_hook_removed(204, "204 No Content".to_string()), Ok(()));
    assert_eq!(
        check_hook_removed(200, "200 OK".to_string()),
        Err(HookError::Server("200 OK".to_string()))
    );
}

#[test]
fn plain_creation_status_codes() {
    assert_eq!(check_created(201), Ok(()));
    assert_eq!(check_created(422), Err(webhook::HookError::AlreadyExists));
    assert_eq!(check_created(500), Err(webhook::HookError::Unknown));
    assert_eq!(webhook::HookError::AlreadyExists.message(), "The hook already exists");
    assert_eq!(webhook::HookError::Unknown.message(), "Unknown error");
}
