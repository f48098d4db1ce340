use scut_ai_proxy::config::Config;

fn some(text: &str) -> Option<String> {
    Some(text.to_string())
}

#[test]
fn has_defaults() {
    let config = Config::from_vars(None, None, None, None);
    assert_eq!(config.bind_addr, "127.0.0.1:3000");
    assert_eq!(config.chat3_base_url, "https://chat3.scut.edu.cn/api");
    assert_eq!(config.request_timeout_secs, 120);
    assert_eq!(config.planner_repair_attempts, 1);
}

#[test]
fn takes_what_is_set() {
    let config = Config::from_vars(some("[::]:80"), some("http://h/api//"), some("+5"), some("0"));
    assert_eq!(config.bind_addr, "[::]:80");
    assert_eq!(config.chat3_base_url, "http://h/api");
    assert_eq!(config.request_timeout_secs, 5);
    assert_eq!(config.planner_repair_attempts, 0);
}

#[test]
fn ignores_numbers_that_are_none() {
    for text in ["", "-1", " 1", "1s", "18446744073709551616", "+"] {
        let config = Config::from_vars(None, None, some(text), some(text));
        assert_eq!(config.request_timeout_secs, 120);
        assert_eq!(config.planner_repair_attempts, 1);
    }
    let config = Config::from_vars(None, None, some("18446744073709551615"), None);
    assert_eq!(config.request_timeout_secs, u64::MAX);
}

#[test]
fn drops_every_last_slash() {
    for text in ["/", "//", "a/", "a/b///", "a"] {
        let config = Config::from_vars(None, some(text), None, None);
        assert_eq!(config.chat3_base_url, text.trim_end_matches('/'));
        assert!(!config.chat3_base_url.ends_with('/'));
    }
}
