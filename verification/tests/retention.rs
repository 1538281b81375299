use std::sync::Arc;

use acr::error::StageError;
use acr::setting::{AcrAuth, AzureAuth, Config, DefaultRule, Filter, ImageRule, KeepRule, Rule, TagRule};
use acr::{RepositoriesList, Tag, TagList, Timestamp};

fn tag(name: &str, digest: &str, secs: i64) -> Tag {
    Tag {
        name: name.to_string(),
        digest: digest.to_string(),
        created_time: Timestamp { secs, nanos: 0 },
    }
}

fn tag_list(tags: Vec<Tag>) -> TagList {
    TagList {
        registry: "example_registry".to_string(),
        image_name: "example_image".to_string(),
        tags,
    }
}

fn keep_rule(keywords: &[&str], num: Option<usize>) -> KeepRule {
    let rules = if keywords.is_empty() {
        None
    } else {
        Some(
            keywords
                .iter()
                .map(|k| Rule { keyword: k.to_string(), num: None })
                .collect(),
        )
    };
    KeepRule {
        default: num.map(|n| DefaultRule { num: n }),
        rules,
    }
}

fn config_with(filter: Option<Filter>) -> Arc<Config> {
    Arc::new(Config {
        azure: AzureAuth { tenant_id: "tenant_id".to_string() },
        acr: AcrAuth {
            image_manager_id: "image_manager_id".to_string(),
            image_manager_pwd: "image_manager_pwd".to_string(),
            endpoint: "endpoint".to_string(),
        },
        filter,
    })
}

fn filter_of(image_keywords: &[&str], tag_keywords: &[&str], keep_newest: Option<usize>) -> Filter {
    Filter {
        image_name: ImageRule { keep: keep_rule(image_keywords, None) },
        tag: TagRule { keep: keep_rule(tag_keywords, keep_newest) },
    }
}

fn names(tags: &[Tag]) -> Vec<String> {
    tags.iter().map(|t| t.name.clone()).collect()
}

#[test]
fn test_keyword_rule_idempotent() {
    let mk = || {
        vec![
            tag("v1", "d1", 10),
            tag("stable", "d1", 10),
            tag("v2", "d2", 20),
            tag("old-stable", "d3", 5),
        ]
    };
    let once = tag_list(mk()).filter_tag_by_mark("stable");
    let twice = tag_list(mk()).filter_tag_by_mark("stable").filter_tag_by_mark("stable");
    assert_eq!(names(&once.tags), names(&twice.tags));
    assert_eq!(names(&once.tags), vec!["v2".to_string()]);
}

#[test]
fn test_keyword_rule_alias_scenario() {
    // Three tags; v1 and stable alias the same digest, and the keyword
    // marks stable: both are deletion candidates together; v2 survives.
    let tags = vec![tag("v1", "d1", 10), tag("stable", "d1", 10), tag("v2", "d2", 20)];
    let cfg = config_with(Some(filter_of(&[], &["stable"], None)));
    let out = tag_list(tags.iter().map(|t| t.duplicate()).collect())
        .filter_by_tag_rule(cfg)
        .unwrap();
    assert_eq!(names(&out.tags), vec!["v1".to_string(), "stable".to_string()]);
    let survivors: Vec<String> = tags
        .iter()
        .filter(|t| !out.tags.iter().any(|o| o.name == t.name))
        .map(|t| t.name.clone())
        .collect();
    assert_eq!(survivors, vec!["v2".to_string()]);
    assert_eq!(out.registry, "example_registry");
    assert_eq!(out.image_name, "example_image");
}

#[test]
fn test_count_rule_scenario() {
    // Creation times 5, 10, 15, 20, 25 and keep-newest 3: the deletion
    // candidates are the two oldest, newest first.
    let tags = vec![
        tag("t5", "a", 5),
        tag("t10", "b", 10),
        tag("t15", "c", 15),
        tag("t20", "d", 20),
        tag("t25", "e", 25),
    ];
    let cfg = config_with(Some(filter_of(&[], &[], Some(3))));
    let out = tag_list(tags).filter_by_tag_rule(cfg).unwrap();
    assert_eq!(names(&out.tags), vec!["t10".to_string(), "t5".to_string()]);
}

#[test]
fn test_count_rule_sizes() {
    // With N tags and keep-newest num, the candidate set has
    // max(0, N - num) tags.
    let mk = || vec![tag("a", "1", 1), tag("b", "2", 2), tag("c", "3", 3)];
    let n2 = tag_list(mk()).filter_by_tag_rule(config_with(Some(filter_of(&[], &[], Some(2))))).unwrap();
    assert_eq!(n2.tags.len(), 1);
    let n3 = tag_list(mk()).filter_by_tag_rule(config_with(Some(filter_of(&[], &[], Some(3))))).unwrap();
    assert_eq!(n3.tags.len(), 0);
    let n7 = tag_list(mk()).filter_by_tag_rule(config_with(Some(filter_of(&[], &[], Some(7))))).unwrap();
    assert_eq!(n7.tags.len(), 0);
    let n0 = tag_list(mk()).filter_by_tag_rule(config_with(Some(filter_of(&[], &[], Some(0))))).unwrap();
    assert_eq!(n0.tags.len(), 3);
}

#[test]
fn test_keyword_then_count() {
    // Keyword rules run first; the count rule then works on the
    // survivors. The marked tag is a candidate, and of the survivors
    // v1, v2, v3 the newest two are kept, so the oldest joins it.
    let tags = vec![
        tag("stable", "s", 100),
        tag("v1", "1", 10),
        tag("v2", "2", 20),
        tag("v3", "3", 30),
    ];
    let cfg = config_with(Some(filter_of(&[], &["stable"], Some(2))));
    let out = tag_list(tags).filter_by_tag_rule(cfg).unwrap();
    assert_eq!(names(&out.tags), vec!["stable".to_string(), "v1".to_string()]);
}

#[test]
fn test_no_rules_policy_error() {
    // No policy configured: both the catalog and the tag call sites
    // answer with the policy error.
    let tags = vec![tag("v1", "d1", 10)];
    let t = tag_list(tags).filter_by_tag_rule(config_with(None));
    assert!(matches!(t, Err(StageError::PolicyError)));
    let repos = RepositoriesList { repositories: vec!["r1".to_string()] };
    let r = repos.filter_by_image_rule(config_with(None));
    assert!(matches!(r, Err(StageError::PolicyError)));
    // A policy with neither a count clause nor keyword clauses for tags
    // is refused too.
    let t2 = tag_list(vec![tag("v1", "d1", 10)])
        .filter_by_tag_rule(config_with(Some(filter_of(&[], &[], None))));
    assert!(matches!(t2, Err(StageError::PolicyError)));
    assert_eq!(StageError::PolicyError.message(), "no rules configured");
}

#[test]
fn test_empty_tag_list() {
    // An empty tag list is a no-op, not an error.
    let cfg = config_with(Some(filter_of(&[], &["stable"], Some(3))));
    let out = tag_list(vec![]).filter_by_tag_rule(cfg).unwrap();
    assert_eq!(out.tags.len(), 0);
}

#[test]
fn test_repository_filter_scenario() {
    // No survivor contains the configured substring.
    let catalog = || RepositoriesList {
        repositories: vec![
            "app/web".to_string(),
            "app/web/base".to_string(),
            "infra/db".to_string(),
        ],
    };
    let all_marked = catalog()
        .filter_by_image_rule(config_with(Some(filter_of(&["/"], &[], None))))
        .unwrap();
    assert!(all_marked.repositories.is_empty());
    let survivors = catalog()
        .filter_by_image_rule(config_with(Some(filter_of(&["web"], &[], None))))
        .unwrap();
    assert_eq!(survivors.repositories, vec!["infra/db".to_string()]);
    assert!(survivors.repositories.iter().all(|r| !r.contains("web")));
}

#[test]
fn test_repository_filter_without_rules_is_policy_error() {
    // A policy whose repository rule list is absent configures no rule
    // for the catalog site: the policy error comes there too.
    let repos = RepositoriesList { repositories: vec!["a".to_string(), "b".to_string()] };
    let out = repos.filter_by_image_rule(config_with(Some(filter_of(&[], &[], Some(1)))));
    assert!(matches!(out, Err(StageError::PolicyError)));
}

#[test]
fn test_filter_image_name_by_mark() {
    let repos = RepositoriesList {
        repositories: vec!["keep-me".to_string(), "drop-staging".to_string()],
    };
    let out = repos.filter_image_name_by_mark("staging");
    assert_eq!(out.repositories, vec!["keep-me".to_string()]);
}

#[test]
fn test_sort_by_tag_createdtime_desc() {
    let tags = vec![
        tag("b", "2", 20),
        tag("a", "1", 10),
        tag("c", "3", 30),
    ];
    let out = tag_list(tags).sort_by_tag_createdtime_desc();
    assert_eq!(names(&out.tags), vec!["c".to_string(), "b".to_string(), "a".to_string()]);
}

#[test]
fn test_sort_is_stable() {
    // Equal creation times keep their original order.
    let tags = vec![
        tag("first", "1", 10),
        tag("newest", "n", 20),
        tag("second", "2", 10),
        tag("third", "3", 10),
    ];
    let out = tag_list(tags).sort_by_tag_createdtime_desc();
    assert_eq!(
        names(&out.tags),
        vec![
            "newest".to_string(),
            "first".to_string(),
            "second".to_string(),
            "third".to_string()
        ]
    );
}

#[test]
fn test_sort_orders_by_nanos() {
    let mut t1 = tag("low", "1", 10);
    t1.created_time.nanos = 100;
    let mut t2 = tag("high", "2", 10);
    t2.created_time.nanos = 900;
    let out = tag_list(vec![t1, t2]).sort_by_tag_createdtime_desc();
    assert_eq!(names(&out.tags), vec!["high".to_string(), "low".to_string()]);
}

#[test]
fn test_filter_tag_by_place() {
    let mk = || {
        vec![
            tag("n1", "1", 40),
            tag("n2", "2", 30),
            tag("n3", "3", 20),
            tag("n4", "4", 10),
        ]
    };
    let rest = tag_list(mk()).filter_tag_by_place(1);
    assert_eq!(names(&rest.tags), vec!["n2".to_string(), "n3".to_string(), "n4".to_string()]);
    let none_left = tag_list(mk()).filter_tag_by_place(4);
    assert!(none_left.tags.is_empty());
    let beyond = tag_list(mk()).filter_tag_by_place(9);
    assert!(beyond.tags.is_empty());
    let all = tag_list(mk()).filter_tag_by_place(0);
    assert_eq!(all.tags.len(), 4);
}

#[test]
fn test_filter_tag_by_mark_no_match() {
    let tags = vec![tag("v1", "d1", 10), tag("v2", "d2", 20)];
    let out = tag_list(tags).filter_tag_by_mark("absent");
    assert_eq!(names(&out.tags), vec!["v1".to_string(), "v2".to_string()]);
}

#[test]
fn test_tags_joined() {
    let list = tag_list(vec![tag("v1", "d1", 10), tag("v2", "d2", 20)]);
    assert_eq!(list.tags(), "v1,v2");
    let empty = tag_list(vec![]);
    assert_eq!(empty.tags(), "");
    let single = tag_list(vec![tag("only", "d", 1)]);
    assert_eq!(single.tags(), "only");
}

#[test]
fn test_repositories_getter() {
    let repos = RepositoriesList { repositories: vec!["a".to_string()] };
    assert_eq!(repos.repositories(), vec!["a".to_string()]);
}
