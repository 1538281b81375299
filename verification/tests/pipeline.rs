use std::sync::Arc;

use acr::datetime::parse_created_time;
use acr::StageError;
use acr::req::{
    api_version_param, build_bearer_header, build_data_url, build_exchange_params,
    build_exchange_url, build_login_params, build_login_url, build_scoped_token_params,
    build_scoped_token_url,
};
use acr::setting::{
    AcrAuth, AzureAuth, Config, DefaultRule, Filter, ImageRule, KeepRule, Rule, TagRule,
};
use acr::workflow::{
    plan_tag_deletion, process_repositories, process_tag_list, record_deletion, stage_step,
    PipelineEvent, PipelineState, QueueEvent, StageStep,
};
use acr::{
    build_delete_tag_path, build_delete_tag_scope, build_repos_path, build_repos_scope,
    build_tag_path, build_tag_scope, FinalToken, GrantType, LoginToken, Primary, RefreshToken,
    RepositoriesList, Tag, TagList, Timestamp, Token,
};

fn config() -> Arc<Config> {
    Arc::new(Config {
        azure: AzureAuth { tenant_id: "tenant_id".to_string() },
        acr: AcrAuth {
            image_manager_id: "image_manager_id".to_string(),
            image_manager_pwd: "image_manager_pwd".to_string(),
            endpoint: "registry.example.net".to_string(),
        },
        filter: Some(Filter {
            image_name: ImageRule {
                keep: KeepRule {
                    default: None,
                    rules: Some(vec![Rule { keyword: "internal".to_string(), num: None }]),
                },
            },
            tag: TagRule {
                keep: KeepRule { default: Some(DefaultRule { num: 1 }), rules: None },
            },
        }),
    })
}

#[test]
fn test_tokens_round_trip() {
    assert_eq!(Primary.token(), "");
    assert_eq!(LoginToken::new("lt".to_string()).token(), "lt");
    assert_eq!(RefreshToken::new("rt".to_string()).token(), "rt");
    assert_eq!(FinalToken::new("ft".to_string()).token(), "ft");
}

#[test]
fn test_grant_type_keywords() {
    assert_eq!(GrantType::ClientCredentials.as_grant_str(), "client_credentials");
    assert_eq!(GrantType::AccessToken.as_grant_str(), "access_token");
    assert_eq!(GrantType::RefreshToken.as_grant_str(), "refresh_token");
    assert_eq!(GrantType::Unknown.as_grant_str(), "unknown");
    assert_eq!(GrantType::from_grant_str("client_credentials"), GrantType::ClientCredentials);
    assert_eq!(GrantType::from_grant_str("access_token"), GrantType::AccessToken);
    assert_eq!(GrantType::from_grant_str("refresh_token"), GrantType::RefreshToken);
    assert_eq!(GrantType::from_grant_str("whatever"), GrantType::Unknown);
}

#[test]
fn test_scope_and_path_builders() {
    assert_eq!(build_repos_scope(), "registry:catalog:*");
    assert_eq!(build_repos_path(), "/acr/v1/_catalog");
    assert_eq!(build_tag_scope("app"), "repository:app:metadata_read");
    assert_eq!(build_tag_path("app"), "/acr/v1/app/_tags");
    assert_eq!(build_delete_tag_scope("app"), "repository:app:delete");
    assert_eq!(build_delete_tag_path("app", "v1"), "/acr/v1/app/_tags/v1");
}

#[test]
fn test_login_request_parts() {
    let cfg = config();
    assert_eq!(
        build_login_url(&cfg),
        "https://login.microsoftonline.com/tenant_id/oauth2/v2.0/token"
    );
    let params = build_login_params(&cfg);
    assert_eq!(params.len(), 4);
    assert_eq!(params[0], ("grant_type".to_string(), "client_credentials".to_string()));
    assert_eq!(params[1], ("client_id".to_string(), "image_manager_id".to_string()));
    assert_eq!(params[2], ("client_secret".to_string(), "image_manager_pwd".to_string()));
    assert_eq!(
        params[3],
        (
            "scope".to_string(),
            "https://containerregistry.azure.net/.default openid offline_access profile"
                .to_string()
        )
    );
}

#[test]
fn test_exchange_request_parts() {
    let cfg = config();
    assert_eq!(build_exchange_url(&cfg), "https://registry.example.net/oauth2/exchange");
    let login = LoginToken::new("login-token".to_string());
    let params = build_exchange_params(&login, &cfg);
    assert_eq!(params.len(), 3);
    assert_eq!(params[0], ("grant_type".to_string(), "access_token".to_string()));
    assert_eq!(params[1], ("access_token".to_string(), "login-token".to_string()));
    assert_eq!(params[2], ("service".to_string(), "registry.example.net".to_string()));
}

#[test]
fn test_scoped_token_request_parts() {
    let cfg = config();
    assert_eq!(build_scoped_token_url(&cfg), "https://registry.example.net/oauth2/token");
    let refresh = RefreshToken::new("refresh-token".to_string());
    let params = build_scoped_token_params(&refresh, &cfg, "registry:catalog:*");
    assert_eq!(params.len(), 4);
    assert_eq!(params[0], ("grant_type".to_string(), "refresh_token".to_string()));
    assert_eq!(params[1], ("refresh_token".to_string(), "refresh-token".to_string()));
    assert_eq!(params[2], ("service".to_string(), "registry.example.net".to_string()));
    assert_eq!(params[3], ("scope".to_string(), "registry:catalog:*".to_string()));
}

#[test]
fn test_data_request_parts() {
    let cfg = config();
    assert_eq!(
        build_data_url(&cfg, "/acr/v1/_catalog"),
        "https://registry.example.net/acr/v1/_catalog"
    );
    let token = FinalToken::new("scoped".to_string());
    assert_eq!(build_bearer_header(&token), "Bearer scoped");
    let (k, v) = api_version_param();
    assert_eq!(k, "api-version");
    assert_eq!(v, "2021-07-01");
}

#[test]
fn test_parse_created_time() {
    assert_eq!(
        parse_created_time("2023-08-23T06:08:46.7423121Z"),
        Some(Timestamp { secs: 1692770926, nanos: 742312100 })
    );
    assert_eq!(
        parse_created_time("2023-08-24T18:18:01.1123121Z"),
        Some(Timestamp { secs: 1692901081, nanos: 112312100 })
    );
    assert_eq!(
        parse_created_time("2023-07-28T02:22:06.3574487Z"),
        Some(Timestamp { secs: 1690510926, nanos: 357448700 })
    );
}

#[test]
fn test_parse_created_time_edges() {
    // No dot, or more than one: refused.
    assert_eq!(parse_created_time("2023-08-23T06:08:46Z"), None);
    assert_eq!(parse_created_time("2023-08-23T06:08:46.74.23Z"), None);
    // A non-digit inside the fraction: refused.
    assert_eq!(parse_created_time("2023-08-23T06:08:46.74a23Z"), None);
    // An empty fraction after trimming denotes zero nanoseconds.
    assert_eq!(
        parse_created_time("2023-08-23T06:08:46.Z"),
        Some(Timestamp { secs: 1692770926, nanos: 0 })
    );
    // A fraction too large for a nanosecond field: refused.
    assert_eq!(parse_created_time("2023-08-23T06:08:46.99999999999Z"), None);
    // A date-time part that does not parse: refused.
    assert_eq!(parse_created_time("2023-08-23T06:08.7423121Z"), None);
    assert_eq!(parse_created_time("not a date.123Z"), None);
}

#[test]
fn test_stage_step() {
    assert!(matches!(
        stage_step(QueueEvent::Received("repo".to_string())),
        StageStep::Work(s) if s == "repo"
    ));
    assert!(matches!(stage_step(QueueEvent::<String>::Empty), StageStep::Pause));
    assert!(matches!(stage_step(QueueEvent::<String>::Closed), StageStep::Finish));
}

#[test]
fn test_process_repositories_empty_catalog() {
    // An empty catalog gives zero emitted names, not an error.
    let out = process_repositories(RepositoriesList { repositories: vec![] }, config());
    assert_eq!(out, Some(vec![]));
    // Without any configured policy the stage emits nothing.
    let bare = Arc::new(Config {
        azure: AzureAuth { tenant_id: "t".to_string() },
        acr: AcrAuth {
            image_manager_id: "i".to_string(),
            image_manager_pwd: "p".to_string(),
            endpoint: "e".to_string(),
        },
        filter: None,
    });
    let none = process_repositories(RepositoriesList { repositories: vec!["r".to_string()] }, bare);
    assert_eq!(none, None);
}

#[test]
fn test_process_tag_list() {
    let mk = |tags: Vec<Tag>| TagList {
        registry: "reg".to_string(),
        image_name: "img".to_string(),
        tags,
    };
    let t = |name: &str, secs: i64| Tag {
        name: name.to_string(),
        digest: format!("d-{}", name),
        created_time: Timestamp { secs, nanos: 0 },
    };
    // Keep-newest 1 of two tags: the older is a candidate, so the batch
    // is delivered.
    let out = process_tag_list(mk(vec![t("new", 20), t("old", 10)]), config()).unwrap();
    assert_eq!(out.image_name, "img");
    assert_eq!(out.tags.len(), 1);
    assert_eq!(out.tags[0].name, "old");
    // A single tag is retained in full: no candidates, nothing delivered.
    assert!(process_tag_list(mk(vec![t("only", 10)]), config()).is_none());
    // No policy configured: nothing delivered.
    let bare = Arc::new(Config {
        azure: AzureAuth { tenant_id: "t".to_string() },
        acr: AcrAuth {
            image_manager_id: "i".to_string(),
            image_manager_pwd: "p".to_string(),
            endpoint: "e".to_string(),
        },
        filter: None,
    });
    assert!(process_tag_list(mk(vec![t("x", 1)]), bare).is_none());
}

#[test]
fn test_plan_tag_deletion() {
    let tag = Tag {
        name: "v1".to_string(),
        digest: "sha256:abc".to_string(),
        created_time: Timestamp { secs: 1, nanos: 0 },
    };
    let plan = plan_tag_deletion("app", &tag);
    assert_eq!(plan.scope, "repository:app:delete");
    assert_eq!(plan.tag_path, "/acr/v1/app/_tags/v1");
    assert_eq!(plan.digest_path, "/acr/v1/app/_tags/sha256:abc");
}

#[test]
fn test_record_deletion() {
    let ok = record_deletion("r".to_string(), "t".to_string(), "d".to_string(), Some(202));
    assert!(ok.success);
    assert_eq!(ok.status, Some(202));
    assert_eq!(ok.repository, "r");
    assert_eq!(ok.tag_name, "t");
    assert_eq!(ok.digest, "d");
    let failed = record_deletion("r".to_string(), "t".to_string(), "d".to_string(), None);
    assert!(!failed.success);
    assert_eq!(failed.status, None);
}

#[test]
fn test_pipeline_state_machine() {
    let s = PipelineState::Idle;
    let s = s.step(PipelineEvent::Started);
    assert_eq!(s, PipelineState::Authenticating);
    let running = s.step(PipelineEvent::AuthSucceeded);
    assert_eq!(running, PipelineState::Running);
    let done = running.step(PipelineEvent::StagesFinished);
    assert_eq!(done, PipelineState::Completed);
    assert!(done.exit_success());
    let failed_auth = PipelineState::Authenticating.step(PipelineEvent::AuthFailed);
    assert_eq!(failed_auth, PipelineState::Failed);
    assert!(!failed_auth.exit_success());
    let failed_stage = PipelineState::Running.step(PipelineEvent::StageFailed);
    assert_eq!(failed_stage, PipelineState::Failed);
    // An event out of place changes nothing.
    assert_eq!(PipelineState::Idle.step(PipelineEvent::StageFailed), PipelineState::Idle);
    assert_eq!(done.step(PipelineEvent::Started), PipelineState::Completed);
}

#[test]
fn test_contains_keyword() {
    assert!(acr::text::contains_keyword("app/web", "/"));
    assert!(!acr::text::contains_keyword("infra-db", "/"));
    assert!(acr::text::contains_keyword("anything", ""));
    assert!(acr::text::contains_keyword("", ""));
    assert!(!acr::text::contains_keyword("", "x"));
    assert!(acr::text::contains_keyword("release-stable-1", "stable"));
}

#[test]
fn test_error_messages() {
    assert_eq!(StageError::AuthError.message(), "credential exchange failed");
    assert_eq!(StageError::FetchError.message(), "catalog or tag list fetch failed");
    assert_eq!(StageError::DeleteError.message(), "delete call failed");
}

#[test]
fn test_config_getters() {
    let cfg = config();
    assert_eq!(cfg.azure_tenant_id(), "tenant_id");
    assert_eq!(cfg.azure_acr_image_manager_id(), "image_manager_id");
    assert_eq!(cfg.azure_acr_image_manager_pwd(), "image_manager_pwd");
    assert_eq!(cfg.azure_acr_endpoint(), "registry.example.net");
}
