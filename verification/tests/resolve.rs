use tfswitch::args::Args;
use tfswitch::error::Error;
use tfswitch::http::{get_http, Reply};
use tfswitch::resolve::{
    get_terraform_versions, get_version_from_user_prompt, get_version_to_install,
    prompt_version_to_user, resolve_from_index, Prompt, Step, ARCHIVE_URL, PROMPT,
};

const INDEX: &str = "<a href=\"/terraform/1.3.0/\">terraform_1.3.0</a>
<a href=\"/terraform/1.3.0-rc1/\">terraform_1.3.0-rc1</a>
<a href=\"/terraform/1.2.0/\">terraform_1.2.0</a>
<a href=\"/terraform/0.15.0/\">terraform_0.15.0</a>
";

fn args(list_all: bool) -> Args {
    Args {
        list_all,
        version: None,
    }
}

fn ok(body: &str) -> Reply<String> {
    Reply {
        status: 200,
        body: body.to_string(),
    }
}

fn list(versions: &[&str]) -> Vec<String> {
    versions.iter().map(|v| v.to_string()).collect()
}

#[test]
fn explicit_version_is_installed_as_it_stands() {
    let step = get_version_to_install(Args {
        list_all: false,
        version: Some("1.2.3".to_string()),
    });
    assert_eq!(
        step,
        Step::Install {
            version: "1.2.3".to_string()
        }
    );
    let step = get_version_to_install(Args {
        list_all: true,
        version: Some("whatever the caller says".to_string()),
    });
    assert_eq!(
        step,
        Step::Install {
            version: "whatever the caller says".to_string()
        }
    );
}

#[test]
fn without_explicit_version_the_index_is_fetched() {
    assert_eq!(ARCHIVE_URL, "https://releases.hashicorp.com/terraform");
    assert_eq!(
        get_version_to_install(args(false)),
        Step::FetchIndex {
            url: "https://releases.hashicorp.com/terraform".to_string()
        }
    );
}

#[test]
fn status_decides_whether_a_reply_is_read() {
    for status in [200u16, 201, 204, 299] {
        assert_eq!(get_http(Reply { status, body: 7u8 }), Ok(7u8));
    }
    for status in [0u16, 100, 199, 300, 301, 304, 404, 500, 599, u16::MAX] {
        assert_eq!(
            get_http(Reply { status, body: 7u8 }),
            Err(Error::HttpStatus { status })
        );
    }
}

#[test]
fn index_is_listed_in_the_mode_asked_for() {
    assert_eq!(
        get_terraform_versions(args(false), ok(INDEX)),
        Ok(list(&["1.3.0", "1.2.0", "0.15.0"]))
    );
    assert_eq!(
        get_terraform_versions(args(true), ok(INDEX)),
        Ok(list(&["1.3.0", "1.3.0-rc1", "1.2.0", "0.15.0"]))
    );
}

#[test]
fn failed_index_request_is_an_error() {
    let reply = Reply {
        status: 404,
        body: INDEX.to_string(),
    };
    assert_eq!(
        get_terraform_versions(args(false), reply),
        Err(Error::HttpStatus { status: 404 })
    );
    let reply = Reply {
        status: 503,
        body: String::new(),
    };
    assert_eq!(
        resolve_from_index(args(false), reply, Some("1.0.0".to_string())),
        Err(Error::HttpStatus { status: 503 })
    );
}

#[test]
fn constraint_selects_from_the_index() {
    assert_eq!(
        resolve_from_index(args(false), ok(INDEX), Some("<1.3.0".to_string())),
        Ok(Step::Install {
            version: "1.2.0".to_string()
        })
    );
    assert_eq!(
        resolve_from_index(args(true), ok(INDEX), Some(">=1.3.0-alpha".to_string())),
        Ok(Step::Install {
            version: "1.3.0".to_string()
        })
    );
}

#[test]
fn without_constraint_the_user_is_asked() {
    let expected = Ok(Step::Select {
        prompt: Prompt {
            message: "select a terraform version to install".to_string(),
            choices: list(&["1.3.0", "1.2.0", "0.15.0"]),
            default: 0,
        },
    });
    assert_eq!(resolve_from_index(args(false), ok(INDEX), None), expected);
}

#[test]
fn constraint_that_matches_nothing_leaves_it_to_the_user() {
    let step = resolve_from_index(args(true), ok(INDEX), Some(">=2.0.0".to_string()));
    assert_eq!(
        step,
        Ok(Step::Select {
            prompt: Prompt {
                message: PROMPT.to_string(),
                choices: list(&["1.3.0", "1.3.0-rc1", "1.2.0", "0.15.0"]),
                default: 0,
            },
        })
    );
}

#[test]
fn resolver_errors_end_the_resolution() {
    let reason = semver::VersionReq::parse("not a range").unwrap_err().to_string();
    assert_eq!(
        resolve_from_index(args(false), ok(INDEX), Some("not a range".to_string())),
        Err(Error::InvalidConstraint {
            constraint: "not a range".to_string(),
            reason,
        })
    );
    let reason = semver::Version::parse("01.2.3").unwrap_err().to_string();
    assert_eq!(
        resolve_from_index(args(false), ok("/01.2.3/\""), Some("*".to_string())),
        Err(Error::InvalidVersion {
            version: "01.2.3".to_string(),
            reason,
        })
    );
}

#[test]
fn prompt_offers_the_versions_with_the_first_highlighted() {
    let prompt = prompt_version_to_user(list(&["1.3.0", "1.2.0"]));
    assert_eq!(prompt.message, "select a terraform version to install");
    assert_eq!(prompt.choices, list(&["1.3.0", "1.2.0"]));
    assert_eq!(prompt.default, 0);
}

#[test]
fn the_pick_of_the_user_is_the_version() {
    let versions = list(&["1.3.0", "1.2.0", "0.15.0"]);
    assert_eq!(
        get_version_from_user_prompt(&versions, Some(0)),
        Ok("1.3.0".to_string())
    );
    assert_eq!(
        get_version_from_user_prompt(&versions, Some(2)),
        Ok("0.15.0".to_string())
    );
}

#[test]
fn no_pick_is_an_error() {
    let versions = list(&["1.3.0", "1.2.0", "0.15.0"]);
    assert_eq!(
        get_version_from_user_prompt(&versions, None),
        Err(Error::NoSelection)
    );
    assert_eq!(
        get_version_from_user_prompt(&versions, Some(3)),
        Err(Error::NoSelection)
    );
    assert_eq!(
        get_version_from_user_prompt(&[], Some(0)),
        Err(Error::NoSelection)
    );
}
