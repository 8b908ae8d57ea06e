use std::path::PathBuf;

use flowstate::args::{
    bind_error_message, build_run_settings, env_flag_set, next_value, parse_player_ids,
    resolve_bind, scan_args, ArgScan, EnvValues,
};
use flowstate::config::ServerConfig;

const DEFAULT_BIND: &str = "0.0.0.0:6060";
const DEFAULT_REPLAY_DIR: &str = "replays";

enum Action {
    Help,
    Run(String, PathBuf, ServerConfig),
}

fn no_env() -> EnvValues {
    EnvValues { bind: None, seed: None, replay_dir: None, test_mode: None, test_player_ids: None }
}

/// The server binary's argument handling, with the environment given.
fn parse_with_env(items: &[&str], env: EnvValues) -> Result<Action, String> {
    let args: Vec<String> = items.iter().map(|s| s.to_string()).collect();
    match scan_args(&args)? {
        ArgScan::Help => Ok(Action::Help),
        ArgScan::Values(values) => {
            let bind = resolve_bind(&values, &env);
            let settings = build_run_settings(&values, &env)?;
            Ok(Action::Run(bind, PathBuf::from(settings.replay_dir), settings.config))
        }
    }
}

fn parse_args(items: &[&str]) -> Result<Action, String> {
    parse_with_env(items, no_env())
}

#[test]
fn test_defaults_when_nothing_provided() {
    let Ok(Action::Run(addr, replay_dir, config)) = parse_args(&[]) else {
        panic!("expected Action::Run");
    };
    assert_eq!(addr, DEFAULT_BIND);
    assert_eq!(replay_dir, PathBuf::from(DEFAULT_REPLAY_DIR));
    assert_eq!(config.seed, 0);
    assert!(!config.test_mode);
    assert_eq!(config.test_player_ids, None);
}

#[test]
fn test_cli_flags_set_config() {
    let Ok(Action::Run(addr, replay_dir, config)) = parse_args(&[
        "--bind",
        "127.0.0.1:7777",
        "--seed",
        "42",
        "--replay-dir",
        "/tmp/replays",
        "--test-player-ids",
        "17,99",
    ]) else {
        panic!("expected Action::Run");
    };
    assert_eq!(addr, "127.0.0.1:7777");
    assert_eq!(replay_dir, PathBuf::from("/tmp/replays"));
    assert_eq!(config.seed, 42);
    assert!(config.test_mode, "--test-player-ids must imply test_mode");
    assert_eq!(config.test_player_ids, Some(vec![17, 99]));
}

#[test]
fn test_help_flag_short_circuits() {
    assert!(matches!(parse_args(&["--help"]), Ok(Action::Help)));
    assert!(matches!(parse_args(&["-h"]), Ok(Action::Help)));
}

#[test]
fn test_invalid_seed_is_an_error_not_a_panic() {
    let Err(err) = parse_args(&["--seed", "not-a-number"]) else {
        panic!("expected an error");
    };
    assert!(err.contains("--seed"), "error should name the flag: {err}");
}

/// The address text is parsed by the binary; the library resolves it and
/// words the error.
#[test]
fn test_invalid_bind_is_an_error_not_a_panic() {
    let Ok(Action::Run(bind, _, _)) = parse_args(&["--bind", "not-an-address"]) else {
        panic!("expected the address text");
    };
    assert_eq!(bind, "not-an-address");
    let err = bind_error_message(&bind, "invalid socket address syntax");
    assert!(err.contains("--bind"), "error should name the flag: {err}");
    assert_eq!(err, "invalid --bind value \"not-an-address\": invalid socket address syntax");
}

#[test]
fn test_missing_flag_value_is_an_error() {
    let Err(err) = parse_args(&["--seed"]) else {
        panic!("expected an error");
    };
    assert!(err.contains("--seed"), "error should name the flag: {err}");
}

#[test]
fn test_unrecognized_flag_is_an_error() {
    let Err(err) = parse_args(&["--nonsense"]) else {
        panic!("expected an error");
    };
    assert!(err.contains("--nonsense"));
}

#[test]
fn test_bare_test_mode_flag_without_player_ids() {
    let Ok(Action::Run(_, _, config)) = parse_args(&["--test-mode"]) else {
        panic!("expected Action::Run");
    };
    assert!(config.test_mode);
    assert_eq!(config.test_player_ids, None);
}

#[test]
fn exact_error_messages() {
    let Err(err) = parse_args(&["--seed", "not-a-number"]) else { panic!() };
    assert_eq!(err, "invalid --seed value \"not-a-number\": invalid digit found in string");
    let Err(err) = parse_args(&["--replay-dir"]) else { panic!() };
    assert_eq!(err, "--replay-dir requires a value");
    let Err(err) = parse_args(&["--nonsense"]) else { panic!() };
    assert_eq!(err, "unrecognized argument: --nonsense");
}

#[test]
fn help_wins_only_before_an_error() {
    assert!(matches!(parse_args(&["--seed", "1", "--help", "--nonsense"]), Ok(Action::Help)));
    assert!(parse_args(&["--nonsense", "--help"]).is_err());
}

#[test]
fn a_flag_value_may_look_like_a_flag_and_later_flags_win() {
    let Ok(Action::Run(_, replay_dir, config)) =
        parse_args(&["--replay-dir", "--seed", "--seed", "7", "--seed", "+8"])
    else {
        panic!("expected Action::Run");
    };
    assert_eq!(replay_dir, PathBuf::from("--seed"));
    assert_eq!(config.seed, 8);
}

#[test]
fn seed_range_is_checked() {
    let Ok(Action::Run(_, _, config)) = parse_args(&["--seed", "18446744073709551615"]) else {
        panic!("expected Action::Run");
    };
    assert_eq!(config.seed, u64::MAX);
    let Err(err) = parse_args(&["--seed", "18446744073709551616"]) else { panic!() };
    assert_eq!(
        err,
        "invalid --seed value \"18446744073709551616\": number too large to fit in target type"
    );
    let Err(err) = parse_args(&["--seed", " 1"]) else { panic!() };
    assert!(err.contains("--seed"));
}

#[test]
fn environment_fills_in_for_missing_flags() {
    let env = EnvValues {
        bind: Some("127.0.0.1:9000".to_string()),
        seed: Some("5".to_string()),
        replay_dir: Some("/var/replays".to_string()),
        test_mode: Some("yes".to_string()),
        test_player_ids: None,
    };
    let Ok(Action::Run(addr, replay_dir, config)) = parse_with_env(&[], env) else {
        panic!("expected Action::Run");
    };
    assert_eq!(addr, "127.0.0.1:9000");
    assert_eq!(replay_dir, PathBuf::from("/var/replays"));
    assert_eq!(config.seed, 5);
    assert!(config.test_mode);
}

#[test]
fn flags_take_precedence_over_environment() {
    let env = EnvValues {
        bind: Some("127.0.0.1:9000".to_string()),
        seed: Some("5".to_string()),
        replay_dir: None,
        test_mode: Some("0".to_string()),
        test_player_ids: Some("3,4".to_string()),
    };
    let Ok(Action::Run(addr, _, config)) =
        parse_with_env(&["--bind", "127.0.0.1:7000", "--seed", "6", "--test-player-ids", "8"], env)
    else {
        panic!("expected Action::Run");
    };
    assert_eq!(addr, "127.0.0.1:7000");
    assert_eq!(config.seed, 6);
    assert_eq!(config.test_player_ids, Some(vec![8]));
    assert!(config.test_mode);
}

#[test]
fn environment_player_ids_imply_test_mode() {
    let env = EnvValues { test_player_ids: Some("1".to_string()), ..no_env() };
    let Ok(Action::Run(_, _, config)) = parse_with_env(&[], env) else { panic!() };
    assert!(config.test_mode);
    assert_eq!(config.test_player_ids, Some(vec![1]));
}

#[test]
fn seed_error_comes_before_player_id_error() {
    let Err(err) = parse_args(&["--test-player-ids", "x", "--seed", "y"]) else { panic!() };
    assert!(err.contains("--seed"), "{err}");
}

#[test]
fn env_flag_values() {
    for on in ["1", "true", "TRUE", "yes"] {
        assert!(env_flag_set(&Some(on.to_string())), "{on}");
    }
    for off in ["0", "false", "True", "YES", "", " 1"] {
        assert!(!env_flag_set(&Some(off.to_string())), "{off}");
    }
    assert!(!env_flag_set(&None));
}

#[test]
fn next_value_takes_the_following_argument() {
    let args: Vec<String> = vec!["--seed".to_string(), "3".to_string()];
    assert_eq!(next_value(&args, 1, "--seed"), Ok("3".to_string()));
    assert_eq!(next_value(&args, 2, "--seed"), Err("--seed requires a value".to_string()));
}

#[test]
fn player_id_lists() {
    assert_eq!(parse_player_ids("17,99"), Ok(vec![17, 99]));
    assert_eq!(parse_player_ids(" 17 ,\t99\n"), Ok(vec![17, 99]));
    assert_eq!(parse_player_ids("+0,255"), Ok(vec![0, 255]));
    assert_eq!(parse_player_ids("5"), Ok(vec![5]));
    assert_eq!(
        parse_player_ids("1,x,300"),
        Err("invalid --test-player-ids entry \"x\": invalid digit found in string".to_string())
    );
    assert_eq!(
        parse_player_ids("1, 256"),
        Err("invalid --test-player-ids entry \" 256\": number too large to fit in target type"
            .to_string())
    );
    assert_eq!(
        parse_player_ids("1,,2"),
        Err("invalid --test-player-ids entry \"\": cannot parse integer from empty string"
            .to_string())
    );
    assert_eq!(
        parse_player_ids(""),
        Err("invalid --test-player-ids entry \"\": cannot parse integer from empty string"
            .to_string())
    );
    assert_eq!(
        parse_player_ids("-1"),
        Err("invalid --test-player-ids entry \"-1\": invalid digit found in string".to_string())
    );
}
