//! Command-line and environment settings of the server binary.
//!
//! Flags take precedence over the matching environment variable, which
//! takes precedence over the built-in default.
use vstd::prelude::*;
use vstd::string::StringExecFns;

use crate::config::ServerConfig;
use crate::text::{
    comma_parts, debug_quote, debug_quoted, parse_u64, parse_u8, split_commas, trim, trimmed,
    u64_parse_error_text, u8_parse_error_text, unsigned_text_value,
};

verus! {

/// Raw values of the recognised flags, as given on the command line.
pub struct ArgValues {
    pub bind: Option<String>,
    pub seed: Option<String>,
    pub replay_dir: Option<String>,
    pub test_mode: bool,
    pub test_player_ids: Option<String>,
}

/// The model of [`ArgValues`].
pub struct ArgModel {
    pub bind: Option<Seq<char>>,
    pub seed: Option<Seq<char>>,
    pub replay_dir: Option<Seq<char>>,
    pub test_mode: bool,
    pub test_player_ids: Option<Seq<char>>,
}

impl View for ArgValues {
    type V = ArgModel;

    open spec fn view(&self) -> ArgModel {
        ArgModel {
            bind: self.bind.deep_view(),
            seed: self.seed.deep_view(),
            replay_dir: self.replay_dir.deep_view(),
            test_mode: self.test_mode,
            test_player_ids: self.test_player_ids.deep_view(),
        }
    }
}

/// Values of the environment variables `FLOWSTATE_BIND`, `FLOWSTATE_SEED`,
/// `FLOWSTATE_REPLAY_DIR`, `FLOWSTATE_TEST_MODE` and
/// `FLOWSTATE_TEST_PLAYER_IDS`, where set.
pub struct EnvValues {
    pub bind: Option<String>,
    pub seed: Option<String>,
    pub replay_dir: Option<String>,
    pub test_mode: Option<String>,
    pub test_player_ids: Option<String>,
}

/// Outcome of reading the command line: print the usage, or go on with the
/// values given.
pub enum ArgScan {
    Help,
    Values(ArgValues),
}

/// Settings of a run: where replays go and the server configuration.
pub struct RunSettings {
    pub replay_dir: String,
    pub config: ServerConfig,
}

pub open spec fn no_args() -> ArgModel {
    ArgModel { bind: None, seed: None, replay_dir: None, test_mode: false, test_player_ids: None }
}

pub open spec fn missing_value_message(flag: Seq<char>) -> Seq<char> {
    flag + " requires a value"@
}

pub open spec fn unrecognized_message(arg: Seq<char>) -> Seq<char> {
    "unrecognized argument: "@ + arg
}

/// Reads `args` from position `i` on, with `acc` the values read so far:
/// `Ok(None)` asks for the usage, `Ok(Some(values))` gives the values, `Err`
/// the message of the first malformed argument.
pub open spec fn scan_from(args: Seq<Seq<char>>, i: int, acc: ArgModel) -> Result<
    Option<ArgModel>,
    Seq<char>,
>
    decreases args.len() - i,
{
    if i < 0 || i >= args.len() {
        Ok(Some(acc))
    } else {
        let a = args[i];
        if a == "-h"@ || a == "--help"@ {
            Ok(None)
        } else if a == "--test-mode"@ {
            scan_from(args, i + 1, ArgModel { test_mode: true, ..acc })
        } else if a == "--bind"@ || a == "--seed"@ || a == "--replay-dir"@ || a
            == "--test-player-ids"@ {
            if i + 1 >= args.len() {
                Err(missing_value_message(a))
            } else {
                let v = Some(args[i + 1]);
                let acc2 = if a == "--bind"@ {
                    ArgModel { bind: v, ..acc }
                } else if a == "--seed"@ {
                    ArgModel { seed: v, ..acc }
                } else if a == "--replay-dir"@ {
                    ArgModel { replay_dir: v, ..acc }
                } else {
                    ArgModel { test_player_ids: v, ..acc }
                };
                scan_from(args, i + 2, acc2)
            }
        } else {
            Err(unrecognized_message(a))
        }
    }
}

/// The value that wins: the flag's, else the environment's, else `default`.
pub open spec fn first_given(flag: Option<Seq<char>>, env: Option<Seq<char>>, default: Seq<char>) -> Seq<char> {
    match flag {
        Some(f) => f,
        None => match env {
            Some(e) => e,
            None => default,
        },
    }
}

pub open spec fn either(flag: Option<Seq<char>>, env: Option<Seq<char>>) -> Option<Seq<char>> {
    match flag {
        Some(f) => Some(f),
        None => env,
    }
}

/// The values of an environment variable that switch a flag on.
pub open spec fn is_flag_on(v: Option<Seq<char>>) -> bool {
    match v {
        Some(s) => s == "1"@ || s == "true"@ || s == "TRUE"@ || s == "yes"@,
        None => false,
    }
}

pub open spec fn player_id_error(part: Seq<char>) -> Seq<char> {
    "invalid --test-player-ids entry "@ + debug_quoted(part) + ": "@ + u8_parse_error_text(
        trimmed(part),
    )
}

/// What the parts of a `--test-player-ids` list give: each part, trimmed,
/// is a PlayerId; the first part that is not gives the error.
pub open spec fn player_ids_from(parts: Seq<Seq<char>>) -> Result<Seq<u8>, Seq<char>>
    decreases parts.len(),
{
    if parts.len() == 0 {
        Ok(Seq::empty())
    } else {
        match unsigned_text_value(trimmed(parts[0])) {
            Some(v) if v <= 255 => match player_ids_from(parts.drop_first()) {
                Ok(rest) => Ok(seq![v as u8] + rest),
                Err(e) => Err(e),
            },
            _ => Err(player_id_error(parts[0])),
        }
    }
}

/// The PlayerIds of a comma-separated list such as `17,99`.
pub open spec fn player_ids_of(s: Seq<char>) -> Result<Seq<u8>, Seq<char>> {
    player_ids_from(comma_parts(s))
}

/// Test mode: `--test-mode`, a set `FLOWSTATE_TEST_MODE`, or a PlayerId
/// list from either source.
pub open spec fn test_mode_of(values: ArgModel, env_test_mode: Option<Seq<char>>, ids_src: Option<Seq<char>>) -> bool {
    values.test_mode || is_flag_on(env_test_mode) || ids_src is Some
}

pub open spec fn seed_error(s: Seq<char>) -> Seq<char> {
    "invalid --seed value "@ + debug_quoted(s) + ": "@ + u64_parse_error_text(s)
}

pub open spec fn seed_ok(s: Seq<char>) -> bool {
    unsigned_text_value(s) matches Some(v) && v <= u64::MAX
}

/// The environment variable names whose values [`EnvValues`] holds.
pub open spec fn bind_default() -> Seq<char> {
    "0.0.0.0:6060"@
}

pub open spec fn replay_dir_default() -> Seq<char> {
    "replays"@
}

/// Takes the value that follows a flag at position `pos`, or reports that
/// the flag has none.
pub fn next_value(args: &Vec<String>, pos: usize, flag: &str) -> (r: Result<String, String>)
    ensures
        pos < args@.len() ==> r == Ok::<String, String>(args@[pos as int]),
        pos >= args@.len() ==> r is Err && r->Err_0@ == missing_value_message(flag@),
{
    if pos < args.len() {
        Ok(args[pos].clone())
    } else {
        Err(String::from_str(flag).concat(" requires a value"))
    }
}

fn is(arg: &String, lit: &str) -> (r: bool)
    ensures
        r == (arg@ == lit@),
{
    <str as PartialEq>::eq(arg.as_str(), lit)
}

/// Reads the command line (without the program name). `-h`/`--help` asks
/// for the usage; `--bind`, `--seed`, `--replay-dir` and
/// `--test-player-ids` take the next argument as their value (a later
/// occurrence wins); `--test-mode` switches test mode on; anything else is
/// an error.
pub fn scan_args(args: &Vec<String>) -> (r: Result<ArgScan, String>)
    ensures
        match scan_from(args.deep_view(), 0, no_args()) {
            Ok(None) => r matches Ok(ArgScan::Help),
            Ok(Some(m)) => r matches Ok(ArgScan::Values(v)) && v@ == m,
            Err(e) => r is Err && r->Err_0@ == e,
        },
{
    let mut acc = ArgValues {
        bind: None,
        seed: None,
        replay_dir: None,
        test_mode: false,
        test_player_ids: None,
    };
    let ghost all = args.deep_view();
    let mut i: usize = 0;
    while i < args.len()
        invariant
            all == args.deep_view(),
            i <= args@.len(),
            scan_from(all, i as int, acc@) == scan_from(all, 0, no_args()),
        decreases args@.len() - i,
    {
        let arg = &args[i];
        proof {
            assert(all[i as int] == arg@);
        }
        if is(arg, "-h") || is(arg, "--help") {
            return Ok(ArgScan::Help);
        } else if is(arg, "--test-mode") {
            acc.test_mode = true;
            i = i + 1;
        } else if is(arg, "--bind") || is(arg, "--seed") || is(arg, "--replay-dir") || is(
            arg,
            "--test-player-ids",
        ) {
            let v = next_value(args, i + 1, arg.as_str())?;
            proof {
                assert(all[i + 1] == v@);
            }
            if is(arg, "--bind") {
                acc.bind = Some(v);
            } else if is(arg, "--seed") {
                acc.seed = Some(v);
            } else if is(arg, "--replay-dir") {
                acc.replay_dir = Some(v);
            } else {
                acc.test_player_ids = Some(v);
            }
            i = i + 2;
        } else {
            return Err(String::from_str("unrecognized argument: ").concat(arg.as_str()));
        }
    }
    Ok(ArgScan::Values(acc))
}

/// Whether an environment variable's value switches a flag on: `1`, `true`,
/// `TRUE` or `yes`.
pub fn env_flag_set(value: &Option<String>) -> (r: bool)
    ensures
        r == is_flag_on(value.deep_view()),
{
    match value {
        Some(s) => is(s, "1") || is(s, "true") || is(s, "TRUE") || is(s, "yes"),
        None => false,
    }
}

fn pick(flag: &Option<String>, env: &Option<String>) -> (r: Option<String>)
    ensures
        r.deep_view() == either(flag.deep_view(), env.deep_view()),
{
    match flag {
        Some(f) => Some(f.clone()),
        None => match env {
            Some(e) => Some(e.clone()),
            None => None,
        },
    }
}

/// The address text to listen on: `--bind`, else `FLOWSTATE_BIND`, else
/// `0.0.0.0:6060`.
pub fn resolve_bind(values: &ArgValues, env: &EnvValues) -> (r: String)
    ensures
        r@ == first_given(values@.bind, env.bind.deep_view(), bind_default()),
{
    match pick(&values.bind, &env.bind) {
        Some(b) => b,
        None => String::from_str("0.0.0.0:6060"),
    }
}

/// Comma-separated PlayerIds, e.g. `17,99` gives `[17, 99]`; each entry may
/// be surrounded by white space.
pub fn parse_player_ids(s: &str) -> (r: Result<Vec<u8>, String>)
    ensures
        match player_ids_of(s@) {
            Ok(ids) => r is Ok && r->Ok_0@ == ids,
            Err(e) => r is Err && r->Err_0@ == e,
        },
{
    let parts = split_commas(s);
    let ghost all = parts.deep_view();
    let mut ids: Vec<u8> = Vec::new();
    let mut i: usize = 0;
    proof {
        assert(all.skip(0) =~= all);
        assert(ids@ + Seq::<u8>::empty() =~= Seq::<u8>::empty());
    }
    while i < parts.len()
        invariant
            all == parts.deep_view(),
            all == comma_parts(s@),
            i <= all.len(),
            match player_ids_from(all) {
                Ok(whole) => player_ids_from(all.skip(i as int)) matches Ok(rest) && whole
                    == ids@ + rest,
                Err(e) => player_ids_from(all.skip(i as int)) == Err::<Seq<u8>, Seq<char>>(e),
            },
        decreases all.len() - i,
    {
        let part = &parts[i];
        proof {
            assert(all.skip(i as int)[0] == part@);
            assert(all.skip(i as int).drop_first() =~= all.skip(i + 1));
        }
        match parse_u8(trim(part.as_str())) {
            Ok(v) => {
                ids.push(v);
                i = i + 1;
            },
            Err(e) => {
                let msg = String::from_str("invalid --test-player-ids entry ").concat(
                    debug_quote(part.as_str()).as_str(),
                ).concat(": ").concat(e.as_str());
                return Err(msg);
            },
        }
    }
    proof {
        assert(all.skip(i as int) =~= Seq::<Seq<char>>::empty());
    }
    Ok(ids)
}

/// The message for an address that does not parse: names the flag, quotes
/// the text and gives the parser's reason.
pub fn bind_error_message(bind: &str, reason: &str) -> (m: String)
    ensures
        m@ == "invalid --bind value "@ + debug_quoted(bind@) + ": "@ + reason@,
{
    String::from_str("invalid --bind value ").concat(debug_quote(bind).as_str()).concat(": ").concat(
        reason,
    )
}

/// Settles the run from the flags read and the environment: the seed
/// (`--seed`, else `FLOWSTATE_SEED`, else 0), the replay directory, test
/// mode (`--test-mode`, a set `FLOWSTATE_TEST_MODE`, or any PlayerId list)
/// and the PlayerIds (`--test-player-ids`, else `FLOWSTATE_TEST_PLAYER_IDS`).
/// A malformed seed is reported before a malformed PlayerId list.
pub fn build_run_settings(values: &ArgValues, env: &EnvValues) -> (r: Result<RunSettings, String>)
    ensures
        ({
            let seed_src = either(values@.seed, env.seed.deep_view());
            let ids_src = either(values@.test_player_ids, env.test_player_ids.deep_view());
            if seed_src matches Some(s) && !seed_ok(s) {
                r is Err && r->Err_0@ == seed_error(seed_src->0)
            } else if ids_src matches Some(s) && player_ids_of(s) is Err {
                r is Err && r->Err_0@ == player_ids_of(ids_src->0)->Err_0
            } else {
                r matches Ok(settings) && {
                    &&& settings.replay_dir@ == first_given(
                        values@.replay_dir,
                        env.replay_dir.deep_view(),
                        replay_dir_default(),
                    )
                    &&& settings.config.defaults_with(
                        match seed_src {
                            Some(s) => unsigned_text_value(s)->0 as u64,
                            None => 0,
                        },
                        test_mode_of(values@, env.test_mode.deep_view(), ids_src),
                        match ids_src {
                            Some(s) => Some(player_ids_of(s)->Ok_0),
                            None => None,
                        },
                    )
                }
            }
        }),
{
    let seed = match pick(&values.seed, &env.seed) {
        Some(s) => match parse_u64(s.as_str()) {
            Ok(v) => v,
            Err(e) => {
                let msg = String::from_str("invalid --seed value ").concat(
                    debug_quote(s.as_str()).as_str(),
                ).concat(": ").concat(e.as_str());
                return Err(msg);
            },
        },
        None => 0,
    };
    let replay_dir = match pick(&values.replay_dir, &env.replay_dir) {
        Some(d) => d,
        None => String::from_str("replays"),
    };
    let mut test_mode = values.test_mode;
    if !test_mode && env_flag_set(&env.test_mode) {
        test_mode = true;
    }
    let test_player_ids = match pick(&values.test_player_ids, &env.test_player_ids) {
        Some(s) => {
            test_mode = true;
            Some(parse_player_ids(s.as_str())?)
        },
        None => None,
    };
    let mut config = ServerConfig::default();
    config.seed = seed;
    config.test_mode = test_mode;
    config.test_player_ids = test_player_ids;
    Ok(RunSettings { replay_dir, config })
}

/// A flag takes precedence over the matching environment variable, which
/// takes precedence over the default.
pub proof fn law_flag_beats_env_beats_default(
    flag: Seq<char>,
    env: Seq<char>,
    default: Seq<char>,
)
    ensures
        first_given(Some(flag), Some(env), default) == flag,
        first_given(Some(flag), None, default) == flag,
        first_given(None, Some(env), default) == env,
        first_given(None, None, default) == default,
        either(Some(flag), Some(env)) == Some(flag),
        either(None, Some(env)) == Some(env),
{
}

/// `-h` or `--help` as the first argument asks for the usage, whatever
/// follows.
pub proof fn law_help_short_circuits(rest: Seq<Seq<char>>)
    ensures
        scan_from(seq!["--help"@] + rest, 0, no_args()) == Ok::<Option<ArgModel>, Seq<char>>(
            None,
        ),
        scan_from(seq!["-h"@] + rest, 0, no_args()) == Ok::<Option<ArgModel>, Seq<char>>(None),
{
    assert((seq!["--help"@] + rest)[0] == "--help"@);
    assert((seq!["-h"@] + rest)[0] == "-h"@);
}

/// A flag that takes a value, given last without one, is reported as
/// missing its value, naming the flag.
pub proof fn law_missing_value_names_flag(flag: Seq<char>)
    requires
        flag == "--bind"@ || flag == "--seed"@ || flag == "--replay-dir"@ || flag
            == "--test-player-ids"@,
    ensures
        scan_from(seq![flag], 0, no_args()) == Err::<Option<ArgModel>, Seq<char>>(
            missing_value_message(flag),
        ),
{
    reveal_strlit("--bind");
    reveal_strlit("--seed");
    reveal_strlit("--replay-dir");
    reveal_strlit("--test-player-ids");
    reveal_strlit("-h");
    reveal_strlit("--help");
    reveal_strlit("--test-mode");
    assert(seq![flag][0] == flag);
    assert("-h"@.len() == 2 && "--help"@[2] == 'h' && "--test-mode"@.len() == 11);
    assert(flag.len() > 2 && flag[2] != 'h' && flag.len() != 11) by {
        if flag == "--bind"@ {
            assert(flag.len() == 6 && flag[2] == 'b');
        } else if flag == "--seed"@ {
            assert(flag.len() == 6 && flag[2] == 's');
        } else if flag == "--replay-dir"@ {
            assert(flag.len() == 12 && flag[2] == 'r');
        } else {
            assert(flag.len() == 17 && flag[2] == 't');
        }
    }
}

/// A PlayerId list, given by flag or by environment, switches test mode on
/// whatever else is set.
pub proof fn law_player_ids_imply_test_mode(
    values: ArgModel,
    env_test_mode: Option<Seq<char>>,
    env_ids: Option<Seq<char>>,
)
    requires
        either(values.test_player_ids, env_ids) is Some,
    ensures
        test_mode_of(values, env_test_mode, either(values.test_player_ids, env_ids)),
{
}

/// Without `--test-mode` and without a PlayerId list, test mode is on
/// exactly when `FLOWSTATE_TEST_MODE` is set to `1`, `true`, `TRUE` or
/// `yes`; any other value, `0` and `false` among them, leaves it off, as
/// does an unset variable. `--test-mode` switches it on whatever the
/// variable holds.
pub proof fn law_env_test_mode_values(values: ArgModel, env_test_mode: Option<Seq<char>>)
    ensures
        test_mode_of(values, env_test_mode, None) == (values.test_mode || (env_test_mode matches Some(
            s,
        ) && (s == "1"@ || s == "true"@ || s == "TRUE"@ || s == "yes"@))),
        !values.test_mode && env_test_mode is None ==> !test_mode_of(values, env_test_mode, None),
        forall|s: Seq<char>|
            !values.test_mode && s != "1"@ && s != "true"@ && s != "TRUE"@ && s != "yes"@
                ==> !#[trigger] test_mode_of(values, Some(s), None),
        values.test_mode ==> test_mode_of(values, env_test_mode, None),
{
}

/// The values that switch a flag on are short, non-empty words; the unset
/// variable switches nothing on.
pub proof fn law_flag_on_values(v: Option<Seq<char>>)
    ensures
        is_flag_on(v) ==> (v matches Some(s) && 1 <= s.len() <= 4),
        !is_flag_on(None),
{
    reveal_strlit("1");
    reveal_strlit("true");
    reveal_strlit("TRUE");
    reveal_strlit("yes");
}

/// An argument that is not a known flag is refused, and the message quotes
/// it after `unrecognized argument: `.
pub proof fn law_unknown_argument_refused(a: Seq<char>, rest: Seq<Seq<char>>)
    requires
        a != "-h"@,
        a != "--help"@,
        a != "--test-mode"@,
        a != "--bind"@,
        a != "--seed"@,
        a != "--replay-dir"@,
        a != "--test-player-ids"@,
    ensures
        scan_from(seq![a] + rest, 0, no_args()) == Err::<Option<ArgModel>, Seq<char>>(
            "unrecognized argument: "@ + a,
        ),
{
    assert((seq![a] + rest)[0] == a);
}

/// A flag given twice keeps the later value, and `--test-mode` between them
/// switches test mode on.
pub proof fn law_later_value_wins(x: Seq<char>, y: Seq<char>)
    ensures
        scan_from(seq!["--seed"@, x, "--test-mode"@, "--seed"@, y], 0, no_args()) == Ok::<
            Option<ArgModel>,
            Seq<char>,
        >(Some(ArgModel { seed: Some(y), test_mode: true, ..no_args() })),
{
    reveal_strlit("--seed");
    reveal_strlit("--test-mode");
    reveal_strlit("-h");
    reveal_strlit("--help");
    let args = seq!["--seed"@, x, "--test-mode"@, "--seed"@, y];
    assert(args[0] == "--seed"@ && args[2] == "--test-mode"@ && args[3] == "--seed"@);
    assert("--seed"@ != "-h"@ && "--seed"@ != "--help"@ && "--seed"@ != "--test-mode"@) by {
        assert("--seed"@.len() == 6 && "--help"@[2] == 'h' && "--seed"@[2] == 's');
    }
    assert("--test-mode"@ != "-h"@ && "--test-mode"@ != "--help"@) by {
        assert("--test-mode"@.len() == 11);
    }
    reveal_strlit("--bind");
    assert("--seed"@ != "--bind"@) by {
        assert("--bind"@[2] == 'b');
    }
    let a1 = ArgModel { seed: Some(x), ..no_args() };
    let a2 = ArgModel { test_mode: true, ..a1 };
    let a3 = ArgModel { seed: Some(y), ..a2 };
    assert(scan_from(args, 5, a3) == Ok::<Option<ArgModel>, Seq<char>>(Some(a3)));
    assert(scan_from(args, 3, a2) == scan_from(args, 5, a3));
    assert(scan_from(args, 2, a1) == scan_from(args, 3, a2));
    assert(scan_from(args, 0, no_args()) == scan_from(args, 2, a1));
}

} // verus!
