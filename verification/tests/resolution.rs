use doxcer::discovery::{
    build_candidates, first_existing, is_dotenv_name, load_env_robust, DiscoveryError,
};
use doxcer::envmap::{EnvMap, EnvValue};
use doxcer::secret::{env_path_opt, env_plain, EnvError};

fn text_of(v: &EnvValue) -> &str {
    match v {
        EnvValue::Text(s) => s.as_str(),
        EnvValue::Raw(_) => panic!("expected a text value"),
    }
}

#[test]
fn candidates_full_order() {
    let c = build_candidates(
        Some("/x/own.env".to_string()),
        Some("/y/e.env".to_string()),
        Some("/cwd".to_string()),
        Some("/a/b/c".to_string()),
    );
    let got: Vec<&str> = c.iter().map(|s| s.as_str()).collect();
    assert_eq!(
        got,
        vec![
            "/x/own.env",
            "/y/e.env",
            "/cwd/config/.env",
            "/cwd/.env",
            "/a/b/c/config/.env",
            "/a/b/c/.env",
            "/a/b/config/.env",
            "/a/b/.env",
            "/a/config/.env",
            "/a/.env",
        ]
    );
}

#[test]
fn candidates_empty_without_roots() {
    let c = build_candidates(None, None, None, None);
    assert!(c.is_empty());
}

#[test]
fn candidates_root_without_parent() {
    let c = build_candidates(None, None, None, Some("rel".to_string()));
    let got: Vec<&str> = c.iter().map(|s| s.as_str()).collect();
    assert_eq!(got, vec!["rel/config/.env", "rel/.env"]);
}

#[test]
fn first_existing_picks_earliest() {
    assert_eq!(first_existing(&vec![false, true, false, true]), Some(1));
}

#[test]
fn first_existing_picks_sole_candidate() {
    assert_eq!(first_existing(&vec![false, false, true]), Some(2));
}

#[test]
fn first_existing_none() {
    assert_eq!(first_existing(&vec![false, false]), None);
}

#[test]
fn not_found_lists_every_candidate() {
    let mut env = EnvMap::new();
    let candidates = vec!["/p/one".to_string(), "/p/two".to_string(), "/p/three".to_string()];
    let exists = vec![false, false, false];
    let r = load_env_robust(&mut env, &candidates, &exists, &None);
    match r {
        Err(DiscoveryError::NotFound { tried }) => assert_eq!(tried, candidates),
        other => panic!("expected NotFound, got {:?}", other),
    }
}

#[test]
fn cwd_copy_beats_exe_dir_copy() {
    let mut env = EnvMap::new();
    let candidates = build_candidates(None, None, Some("/cwd".to_string()), Some("/exe".to_string()));
    // config/.env exists under both the working directory and the
    // executable's directory; the working directory's copy must win.
    let exists: Vec<bool> = candidates.iter().map(|p| p.as_str() == "/cwd/config/.env" || p.as_str() == "/exe/config/.env").collect();
    let contents = Some("A=1".to_string());
    let r = load_env_robust(&mut env, &candidates, &exists, &contents);
    assert_eq!(r.unwrap(), "/cwd/config/.env");
}

#[test]
fn load_is_additive() {
    let mut env = EnvMap::new();
    env.set_text("NAME", "keep");
    let candidates = vec!["/f".to_string()];
    let exists = vec![true];
    let contents = Some("NAME=new\nOTHER=x".to_string());
    let r = load_env_robust(&mut env, &candidates, &exists, &contents);
    assert_eq!(r.unwrap(), "/f");
    assert_eq!(text_of(env.lookup("NAME").unwrap()), "keep");
    assert_eq!(text_of(env.lookup("OTHER").unwrap()), "x");
}

#[test]
fn load_reports_offending_line() {
    let mut env = EnvMap::new();
    env.set_text("KEEP", "old");
    let candidates = vec!["/f".to_string()];
    let exists = vec![true];
    let contents = Some("A=1\nno equals sign\nB=2".to_string());
    let r = load_env_robust(&mut env, &candidates, &exists, &contents);
    match r {
        Err(DiscoveryError::LoadFailed { path, line }) => {
            assert_eq!(path, "/f");
            assert_eq!(line, 1);
        },
        other => panic!("expected LoadFailed, got {:?}", other),
    }
    // the failed load changed nothing
    assert_eq!(text_of(env.lookup("KEEP").unwrap()), "old");
    assert!(env.lookup("A").is_none());
}

#[test]
fn first_file_binding_wins() {
    let mut env = EnvMap::new();
    let candidates = vec!["/f".to_string()];
    let exists = vec![true];
    let contents = Some("X=1\nX=2".to_string());
    load_env_robust(&mut env, &candidates, &exists, &contents).unwrap();
    assert_eq!(text_of(env.lookup("X").unwrap()), "1");
}

#[test]
fn value_may_carry_equals_sign() {
    let mut env = EnvMap::new();
    let candidates = vec!["/f".to_string()];
    let exists = vec![true];
    let contents = Some("K=a=b".to_string());
    load_env_robust(&mut env, &candidates, &exists, &contents).unwrap();
    assert_eq!(text_of(env.lookup("K").unwrap()), "a=b");
}

#[test]
fn blank_lines_are_skipped() {
    let mut env = EnvMap::new();
    let candidates = vec!["/f".to_string()];
    let exists = vec![true];
    let contents = Some("\nA=1\n\nB=2\n".to_string());
    load_env_robust(&mut env, &candidates, &exists, &contents).unwrap();
    assert_eq!(text_of(env.lookup("A").unwrap()), "1");
    assert_eq!(text_of(env.lookup("B").unwrap()), "2");
}

#[test]
fn dotenv_name_check() {
    assert!(is_dotenv_name(".env"));
    assert!(!is_dotenv_name("env"));
    assert!(!is_dotenv_name(".env2"));
    assert!(!is_dotenv_name(""));
}

#[test]
fn path_variable_unset() {
    let env = EnvMap::new();
    assert!(matches!(env_path_opt(&env, "DOXCER_ENV_PATH"), Ok(None)));
}

#[test]
fn path_variable_set() {
    let mut env = EnvMap::new();
    env.set_text("DOXCER_ENV_PATH", "/etc/app/.env");
    let r = env_path_opt(&env, "DOXCER_ENV_PATH").unwrap();
    assert_eq!(r.unwrap(), "/etc/app/.env");
}

#[test]
fn path_variable_not_text() {
    let mut env = EnvMap::new();
    env.set("DOXCER_ENV_PATH".to_string(), EnvValue::Raw(vec![0xff, 0xfe]));
    match env_path_opt(&env, "DOXCER_ENV_PATH") {
        Err(EnvError::NotText { name }) => assert_eq!(name, "DOXCER_ENV_PATH"),
        other => panic!("expected NotText, got {:?}", other),
    }
}

#[test]
fn plain_variable_present() {
    let mut env = EnvMap::new();
    env.set_text("MODEL", "small");
    assert_eq!(env_plain(&env, "MODEL").unwrap(), "small");
}

#[test]
fn plain_variable_missing() {
    let env = EnvMap::new();
    match env_plain(&env, "MODEL") {
        Err(EnvError::Missing { name }) => assert_eq!(name, "MODEL"),
        other => panic!("expected Missing, got {:?}", other),
    }
}
