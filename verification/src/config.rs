//! How the arguments of the command line and the environment settle what is
//! searched for, where, and with or without regard to case.

use vstd::prelude::*;

verus! {

/// The environment variable whose presence, whatever its value, makes the
/// search disregard case unless a flag says otherwise.
pub const CASE_INSENSITIVE: &'static str = "CASE_INSENSITIVE";

/// What to search for, in which file, and how.
#[derive(Debug, PartialEq, Eq)]
pub struct Config {
    /// The text that a line must hold.
    pub query: String,
    /// The path of the file whose lines are searched.
    pub filename: String,
    /// Whether upper and lower case differ in the search.
    pub case_sensitive: bool,
}

/// A `Config` as plain values.
pub ghost struct ConfigView {
    pub query: Seq<char>,
    pub filename: Seq<char>,
    pub case_sensitive: bool,
}

impl View for Config {
    type V = ConfigView;

    open spec fn view(&self) -> ConfigView {
        ConfigView {
            query: self.query@,
            filename: self.filename@,
            case_sensitive: self.case_sensitive,
        }
    }
}

impl Clone for Config {
    /// A configuration with the same query, file name and setting.
    fn clone(&self) -> (copy: Config)
        ensures
            copy@ == self@,
    {
        Config {
            query: self.query.clone(),
            filename: self.filename.clone(),
            case_sensitive: self.case_sensitive,
        }
    }
}

/// Why no `Config` could be made of the arguments.
#[derive(Debug, Clone, Copy, PartialEq, Eq)]
pub enum ConfigError {
    /// The arguments do not hold a query.
    MissingQuery,
    /// The arguments hold a query and no file name after it.
    MissingFilename,
}

/// The flag `-i`: from here on, disregard case.
pub open spec fn insensitive_flag() -> Seq<char> {
    seq!['-', 'i']
}

/// The flag `-I`: from here on, regard case.
pub open spec fn sensitive_flag() -> Seq<char> {
    seq!['-', 'I']
}

/// `token` is one of the two flags.
pub open spec fn is_flag(token: Seq<char>) -> bool {
    token == insensitive_flag() || token == sensitive_flag()
}

/// Whether the search regards case, given the arguments that follow the file
/// name and the setting that holds where none of them is a flag: the last flag
/// among them decides.
pub open spec fn resolved_case(flags: Seq<Seq<char>>, default: bool) -> bool
    decreases flags.len(),
{
    if flags.len() == 0 {
        default
    } else if flags.last() == sensitive_flag() {
        true
    } else if flags.last() == insensitive_flag() {
        false
    } else {
        resolved_case(flags.drop_last(), default)
    }
}

/// What the arguments `args` resolve to, the program's name not among them:
/// the first is the query, the second the file name, the others are read as
/// flags. `in_environment` says whether the variable `CASE_INSENSITIVE` is set.
pub open spec fn resolution(args: Seq<Seq<char>>, in_environment: bool) -> Result<
    ConfigView,
    ConfigError,
> {
    if args.len() == 0 {
        Err(ConfigError::MissingQuery)
    } else if args.len() == 1 {
        Err(ConfigError::MissingFilename)
    } else {
        Ok(
            ConfigView {
                query: args[0],
                filename: args[1],
                case_sensitive: resolved_case(args.skip(2), !in_environment),
            },
        )
    }
}

/// `resolved` is `expected`, a `Config` taken by its view.
pub open spec fn resolves_to(
    resolved: Result<Config, ConfigError>,
    expected: Result<ConfigView, ConfigError>,
) -> bool {
    match expected {
        Ok(view) => resolved is Ok && resolved->Ok_0@ == view,
        Err(error) => resolved == Err::<Config, ConfigError>(error),
    }
}

/// Where none of the arguments after the file name is a flag, the setting of
/// the environment stands.
pub proof fn lemma_default_stands_without_flags(flags: Seq<Seq<char>>, default: bool)
    requires
        forall|i: int| 0 <= i < flags.len() ==> !is_flag(#[trigger] flags[i]),
    ensures
        resolved_case(flags, default) == default,
    decreases flags.len(),
{
    if flags.len() > 0 {
        let front = flags.drop_last();
        assert(!is_flag(flags[flags.len() - 1]));
        assert forall|i: int| 0 <= i < front.len() implies !is_flag(#[trigger] front[i]) by {
            assert(front[i] == flags[i]);
        }
        lemma_default_stands_without_flags(front, default);
    }
}

/// The last flag decides: where `flags[last]` is a flag and none follows it,
/// the search regards case exactly if that flag is `-I`, whatever the setting
/// of the environment and whatever flags stand before it.
pub proof fn lemma_last_flag_decides(flags: Seq<Seq<char>>, default: bool, last: int)
    requires
        0 <= last < flags.len(),
        is_flag(flags[last]),
        forall|j: int| last < j < flags.len() ==> !is_flag(#[trigger] flags[j]),
    ensures
        resolved_case(flags, default) == (flags[last] == sensitive_flag()),
    decreases flags.len(),
{
    if last < flags.len() - 1 {
        let front = flags.drop_last();
        assert(!is_flag(flags[flags.len() - 1]));
        assert forall|j: int| last < j < front.len() implies !is_flag(#[trigger] front[j]) by {
            assert(front[j] == flags[j]);
        }
        lemma_last_flag_decides(front, default, last);
    }
}

/// The order of precedence in a resolution that has its query and file name.
/// With no flag among the arguments, the search regards case exactly if the
/// variable is not set. One more argument `-I` at the end makes it regard case
/// and one more `-i` disregard it, whatever the environment and the arguments
/// before say.
pub proof fn lemma_resolution_precedence(args: Seq<Seq<char>>, in_environment: bool)
    requires
        args.len() >= 2,
    ensures
        (forall|i: int| 2 <= i < args.len() ==> !is_flag(#[trigger] args[i])) ==> resolution(
            args,
            in_environment,
        )->Ok_0.case_sensitive == !in_environment,
        resolution(args.push(sensitive_flag()), in_environment)->Ok_0.case_sensitive,
        !resolution(args.push(insensitive_flag()), in_environment)->Ok_0.case_sensitive,
{
    if forall|i: int| 2 <= i < args.len() ==> !is_flag(#[trigger] args[i]) {
        let flags = args.skip(2);
        assert forall|i: int| 0 <= i < flags.len() implies !is_flag(#[trigger] flags[i]) by {
            assert(flags[i] == args[i + 2]);
        }
        lemma_default_stands_without_flags(flags, !in_environment);
    }
    assert(args.push(sensitive_flag()).skip(2).last() == sensitive_flag());
    assert(args.push(insensitive_flag()).skip(2).last() == insensitive_flag());
}

/// Without arguments the query is missing, with one argument the file name,
/// whatever the environment holds.
pub proof fn lemma_missing_arguments(args: Seq<Seq<char>>, in_environment: bool)
    ensures
        args.len() == 0 ==> resolution(args, in_environment) == Err::<ConfigView, ConfigError>(
            ConfigError::MissingQuery,
        ),
        args.len() == 1 ==> resolution(args, in_environment) == Err::<ConfigView, ConfigError>(
            ConfigError::MissingFilename,
        ),
        args.len() >= 2 ==> resolution(args, in_environment) is Ok,
{
}

/// Whether `token` is a hyphen followed by `letter`, and nothing else.
fn is_hyphen_and(token: &str, letter: char) -> (yes: bool)
    ensures
        yes == (token@ == seq!['-', letter]),
{
    let yes = token.unicode_len() == 2 && token.get_char(0) == '-' && token.get_char(1) == letter;
    assert(yes ==> token@ =~= seq!['-', letter]);
    yes
}

impl ConfigError {
    /// The message for the user.
    pub fn message(&self) -> (text: &'static str)
        ensures
            text@ == match *self {
                ConfigError::MissingQuery => "Didn't get a query string"@,
                ConfigError::MissingFilename => "Didn't get a file name"@,
            },
    {
        match self {
            ConfigError::MissingQuery => "Didn't get a query string",
            ConfigError::MissingFilename => "Didn't get a file name",
        }
    }
}

impl Config {
    /// Resolves the arguments `args`, the program's name not among them, and
    /// asks `env_lookup` for the variable `CASE_INSENSITIVE` to learn the
    /// setting that holds where no flag is given. Without a query the result is
    /// `MissingQuery`, without a file name `MissingFilename`, and `env_lookup`
    /// is then not asked.
    pub fn new<F: Fn(&str) -> Option<String>>(args: &[String], env_lookup: F) -> (resolved: Result<
        Config,
        ConfigError,
    >)
        requires
            call_requires(env_lookup, (CASE_INSENSITIVE,)),
        ensures
            args@.len() == 0 ==> resolved == Err::<Config, ConfigError>(ConfigError::MissingQuery),
            args@.len() == 1 ==> resolved == Err::<Config, ConfigError>(
                ConfigError::MissingFilename,
            ),
            args@.len() >= 2 ==> exists|found: Option<String>|
                call_ensures(env_lookup, (CASE_INSENSITIVE,), found) && resolves_to(
                    resolved,
                    resolution(args.deep_view(), found is Some),
                ),
    {
        if args.len() < 2 {
            Config::resolve(args, None)
        } else {
            let found = env_lookup(CASE_INSENSITIVE);
            Config::resolve(args, found)
        }
    }

    /// Resolves the arguments `args`, the program's name not among them, given
    /// what the environment holds for the variable `CASE_INSENSITIVE`. The
    /// first argument is the query and the second the file name. The search
    /// regards case unless the variable is set, whatever its value; of the
    /// arguments after the file name each `-i` then makes it disregard case and
    /// each `-I` regard it, in the order in which they stand, and any other is
    /// passed over.
    pub fn resolve(args: &[String], in_environment: Option<String>) -> (resolved: Result<
        Config,
        ConfigError,
    >)
        ensures
            resolves_to(resolved, resolution(args.deep_view(), in_environment is Some)),
    {
        if args.len() == 0 {
            return Err(ConfigError::MissingQuery);
        }
        if args.len() == 1 {
            return Err(ConfigError::MissingFilename);
        }
        let query = args[0].clone();
        let filename = args[1].clone();
        let ghost flags = args.deep_view().skip(2);
        let ghost default = in_environment is None;
        let mut case_sensitive = in_environment.is_none();
        let mut at: usize = 2;
        while at < args.len()
            invariant
                2 <= at <= args.len(),
                flags == args.deep_view().skip(2),
                case_sensitive == resolved_case(flags.take(at - 2), default),
            decreases args.len() - at,
        {
            let token = args[at].as_str();
            assert(flags.take(at - 1).drop_last() == flags.take(at - 2));
            assert(flags.take(at - 1).last() == token@);
            if is_hyphen_and(token, 'i') {
                case_sensitive = false;
            } else if is_hyphen_and(token, 'I') {
                case_sensitive = true;
            }
            at += 1;
        }
        assert(flags.take(at - 2) == flags);
        Ok(Config { query, filename, case_sensitive })
    }
}

} // verus!
