use repo_deleter::creds::{token_from_flag_or_env, token_from_prompt};
use repo_deleter::executor::Executor;
use repo_deleter::gate::{gate, planned_urls, GateDecision};
use repo_deleter::lister::{clamp_per_page, Lister};
use repo_deleter::repo::{filter_repos, Repo};

fn mk(full_name: &str, fork: bool, archived: bool) -> Repo {
    Repo {
        name: full_name.rsplit('/').next().unwrap().to_string(),
        full_name: full_name.to_string(),
        private: false,
        archived,
        fork,
    }
}

fn names(repos: &[Repo]) -> Vec<String> {
    repos.iter().map(|r| r.full_name.clone()).collect()
}

#[test]
fn filter_drops_forks_and_archived_by_default() {
    let repos = vec![
        mk("me/plain", false, false),
        mk("me/fork", true, false),
        mk("me/archived", false, true),
        mk("me/both", true, true),
    ];
    let kept = filter_repos(&repos, false, false);
    assert_eq!(names(&kept), vec!["me/plain"]);
}

#[test]
fn filter_keeps_forks_when_included() {
    let repos = vec![
        mk("me/plain", false, false),
        mk("me/fork", true, false),
        mk("me/archived", false, true),
        mk("me/both", true, true),
    ];
    let kept = filter_repos(&repos, true, false);
    assert_eq!(names(&kept), vec!["me/plain", "me/fork"]);
}

#[test]
fn filter_keeps_archived_when_included() {
    let repos = vec![
        mk("me/plain", false, false),
        mk("me/fork", true, false),
        mk("me/archived", false, true),
        mk("me/both", true, true),
    ];
    let kept = filter_repos(&repos, false, true);
    assert_eq!(names(&kept), vec!["me/plain", "me/archived"]);
}

#[test]
fn filter_keeps_everything_when_both_included() {
    let repos = vec![
        mk("me/plain", false, false),
        mk("me/fork", true, false),
        mk("me/archived", false, true),
        mk("me/both", true, true),
    ];
    let kept = filter_repos(&repos, true, true);
    assert_eq!(kept.len(), 4);
}

#[test]
fn filter_preserves_order() {
    let repos = vec![
        mk("me/a", false, false),
        mk("me/b", true, false),
        mk("me/c", false, false),
        mk("me/d", false, false),
    ];
    let kept = filter_repos(&repos, false, false);
    assert_eq!(names(&kept), vec!["me/a", "me/c", "me/d"]);
}

fn page(prefix: &str, count: usize) -> Vec<Repo> {
    (0..count)
        .map(|i| mk(&format!("me/{}-{}", prefix, i), false, false))
        .collect()
}

#[test]
fn pagination_stops_after_short_page() {
    let mut lister = Lister::new(100);
    assert_eq!(lister.per_page, 100);
    assert!(!lister.finished);
    assert_eq!(lister.page, 1);

    lister.on_page(page("a", 100));
    assert!(!lister.finished);
    assert_eq!(lister.page, 2);

    lister.on_page(page("b", 100));
    assert!(!lister.finished);
    assert_eq!(lister.page, 3);

    lister.on_page(page("c", 37));
    assert!(lister.finished);
    assert_eq!(lister.repos.len(), 237);
}

#[test]
fn pagination_stops_on_empty_page() {
    let mut lister = Lister::new(100);
    lister.on_page(page("a", 100));
    lister.on_page(Vec::new());
    assert!(lister.finished);
    assert_eq!(lister.repos.len(), 100);
}

#[test]
fn pagination_error_keeps_partial_result() {
    let mut lister = Lister::new(100);
    lister.on_page(page("a", 100));
    lister.on_error();
    assert!(lister.finished);
    assert_eq!(lister.repos.len(), 100);
}

#[test]
fn page_size_is_clamped() {
    assert_eq!(clamp_per_page(0), 1);
    assert_eq!(clamp_per_page(1), 1);
    assert_eq!(clamp_per_page(55), 55);
    assert_eq!(clamp_per_page(100), 100);
    assert_eq!(clamp_per_page(1000), 100);
    assert_eq!(Lister::new(0).per_page, 1);
    assert_eq!(Lister::new(250).per_page, 100);
}

#[test]
fn listing_urls_advance_with_the_page() {
    let mut lister = Lister::new(100);
    assert_eq!(
        lister.next_url(),
        "https://api.github.com/user/repos?per_page=100&page=1"
    );
    lister.on_page(page("a", 100));
    assert_eq!(
        lister.next_url(),
        "https://api.github.com/user/repos?per_page=100&page=2"
    );
}

#[test]
fn dry_run_plans_no_deletions() {
    let selected = vec![mk("me/a", false, false), mk("me/b", false, false)];
    let g = gate(true, true, Some(&"DELETE".to_string()));
    assert_eq!(g, GateDecision::DryRun);
    assert!(planned_urls(g, &selected).is_empty());
}

#[test]
fn bypass_flag_proceeds_without_prompt() {
    let g = gate(false, true, None);
    assert_eq!(g, GateDecision::Proceed);
}

#[test]
fn exact_confirmation_proceeds() {
    let g = gate(false, false, Some(&"DELETE".to_string()));
    assert_eq!(g, GateDecision::Proceed);
    let g = gate(false, false, Some(&"  DELETE\n".to_string()));
    assert_eq!(g, GateDecision::Proceed);
}

#[test]
fn anything_else_aborts_with_no_deletions() {
    let selected = vec![mk("me/a", false, false)];
    for line in ["delete", "DELETE!", "yes", "", "DEL ETE"] {
        let g = gate(false, false, Some(&line.to_string()));
        assert_eq!(g, GateDecision::Abort);
        assert!(planned_urls(g, &selected).is_empty());
    }
    let g = gate(false, false, None);
    assert_eq!(g, GateDecision::Abort);
    assert!(planned_urls(g, &selected).is_empty());
}

#[test]
fn proceed_plans_one_url_per_selection() {
    let selected = vec![mk("me/a", false, false), mk("me/b", false, false)];
    let urls = planned_urls(GateDecision::Proceed, &selected);
    assert_eq!(
        urls,
        vec![
            "https://api.github.com/repos/me/a",
            "https://api.github.com/repos/me/b"
        ]
    );
}

#[test]
fn executor_never_exceeds_its_limit() {
    let selected = page("d", 10);
    let mut exec = Executor::new(selected, 4);
    let mut launched = Vec::new();
    while let Some(repo) = exec.launch() {
        launched.push(repo);
        assert!(exec.in_flight <= 4);
    }
    assert_eq!(exec.in_flight, 4);
    assert_eq!(launched.len(), 4);
    assert_eq!(exec.pending.len(), 6);
    assert!(exec.launch().is_none());

    let mut completed = 0;
    while !exec.done() {
        exec.complete(completed % 2 == 0);
        completed += 1;
        while let Some(repo) = exec.launch() {
            launched.push(repo);
            assert!(exec.in_flight <= 4);
        }
    }
    assert_eq!(completed, 10);
    assert_eq!(launched.len(), 10);
    assert_eq!(exec.succeeded, 5);
    assert_eq!(exec.failed, 5);
}

#[test]
fn executor_raises_zero_limit_to_one() {
    let mut exec = Executor::new(page("d", 3), 0);
    assert_eq!(exec.limit, 1);
    assert!(exec.launch().is_some());
    assert!(exec.launch().is_none());
    assert_eq!(exec.in_flight, 1);
}

#[test]
fn executor_hands_out_in_selection_order() {
    let mut exec = Executor::new(vec![mk("me/x", false, false), mk("me/y", false, false)], 8);
    assert_eq!(exec.launch().unwrap().full_name, "me/x");
    assert_eq!(exec.launch().unwrap().full_name, "me/y");
    assert!(exec.launch().is_none());
}

#[test]
fn token_prefers_the_flag() {
    let flag = "  abc  ".to_string();
    let env = "def".to_string();
    assert_eq!(
        token_from_flag_or_env(Some(&flag), Some(&env)),
        Some("abc".to_string())
    );
}

#[test]
fn blank_flag_falls_back_to_environment() {
    let flag = "   ".to_string();
    let env = " def\n".to_string();
    assert_eq!(
        token_from_flag_or_env(Some(&flag), Some(&env)),
        Some("def".to_string())
    );
    assert_eq!(token_from_flag_or_env(None, Some(&env)), Some("def".to_string()));
}

#[test]
fn no_usable_token_from_flag_or_env() {
    let blank = "  ".to_string();
    assert_eq!(token_from_flag_or_env(Some(&blank), Some(&blank)), None);
    assert_eq!(token_from_flag_or_env(None, None), None);
}

#[test]
fn prompted_token_is_trimmed_and_blank_is_fatal() {
    assert_eq!(token_from_prompt(" tok\n"), Some("tok".to_string()));
    assert_eq!(token_from_prompt("\n"), None);
    assert_eq!(token_from_prompt(""), None);
}
