use vstd::prelude::*;
use clap::{App, Arg, ArgGroup};
use vstd::string::StringExecFns;
use crate::config::{available_cpus, CliValues};
use crate::text::{decimal_digits, decimal_text};

verus! {

// ---------------------------------------------------------------------------
// The command-line grammar
// ---------------------------------------------------------------------------

/// The program name the command line reports.
pub const CLI_PROGRAM: &'static str = "oppai";

/// The version the command line reports.
pub const CLI_VERSION: &'static str = "0.1.0";

pub const USAGE_SOLVER: &'static str = "-s, --solver=[solver] 'Engine type for position estimation and the best move choosing'";
pub const USAGE_TIME_GAP: &'static str = "-g, --time-gap=[time-gap] 'Number of milliseconds that is given to IO plus internal delay'";
pub const USAGE_THREADS_COUNT: &'static str = "-t, --threads-count=[threads-count] 'Number of threads to use. Best performance is achieved by specifying the number of physical CPU cores on the target computer. Will be determined automatically if not specified, but automatic resolution is prone to errors for multithreaded CPU-s'";
pub const USAGE_MOVES_ORDER: &'static str = "--moves-order=[moves-order] 'Moves sorting method for NegaScout'";
pub const USAGE_RADIUS: &'static str = "--radius=[radius] 'Radius for points that will be considered by UCT search algorithm. The initial points are fixed once the UCT search algorithm starts. After that, only points that are close enough to staring ones are considered. Points that are more distant to any of the starting points are discarted'";
pub const USAGE_DEPTH: &'static str = "--depth=[depth] 'Maximum depth of the UCT tree'";
pub const USAGE_WHEN_CREATE_CHILDREN: &'static str = "--when-create-children=[when-create-children] 'Child nodes in the UTC tree will be created only after this number of node visits.'";
pub const USAGE_UCB_TYPE: &'static str = "--ucb-type=[ucb-type] 'Formula of the UCT value'";
pub const USAGE_FINAL_UCB_TYPE: &'static str = "--final-ucb-type=[final-ucb-type] 'Formula of the UCT value that will be used for best move choosing'";
pub const USAGE_UCTK: &'static str = "--uctk=[uctk] 'UCT constant. Larger values give uniform search. Smaller values give very selective search'";
pub const USAGE_DRAW_WEIGHT: &'static str = "--draw-weight=[draw-weight] 'Draw weight for UCT formula. Should be fractional number between 0 (weight of the defeat) and 1 (weight of the win). Smaller values give more aggressive game'";
pub const USAGE_RED: &'static str = "--red=[red] 'Red zone for dynamic komi for UCT. Should be fractional number between 0 and 1. Should also be less than green zone'";
pub const USAGE_GREEN: &'static str = "--green=[green] 'Green zone for dynamic komi for UCT. Should be fractional number between 0 and 1. Should also be more than red zone.'";
pub const USAGE_KOMI_TYPE: &'static str = "--komi-type=[komi-type] 'Type of komi evaluation for UTC during the game'";
pub const USAGE_KOMI_MIN_ITERATIONS: &'static str = "--komi-min-iterations=[komi-min-iterations] 'Dynamic komi for UCT will be updated after this number of iterations'";

/// The options without a fixed set of values, one line each in clap's usage syntax
/// (short and long form, value, help), in declaration order.
pub open spec fn cli_plain_usage() -> Seq<Seq<char>> {
    seq![
        USAGE_TIME_GAP@,
        USAGE_THREADS_COUNT@,
        USAGE_RADIUS@,
        USAGE_DEPTH@,
        USAGE_WHEN_CREATE_CHILDREN@,
        USAGE_UCTK@,
        USAGE_DRAW_WEIGHT@,
        USAGE_RED@,
        USAGE_GREEN@,
        USAGE_KOMI_MIN_ITERATIONS@,
    ]
}

/// The default value of each option of [`cli_plain_usage`]; the thread count
/// defaults to the text `cpus`.
pub open spec fn cli_plain_defaults(cpus: Seq<char>) -> Seq<Seq<char>> {
    seq!["100"@, cpus, "3"@, "8"@, "2"@, "1.0"@, "0.4"@, "0.45"@, "0.5"@, "3000"@]
}

/// The choice options, one line each in clap's usage syntax, in declaration order.
pub open spec fn cli_choice_usage() -> Seq<Seq<char>> {
    seq![USAGE_SOLVER@, USAGE_MOVES_ORDER@, USAGE_UCB_TYPE@, USAGE_FINAL_UCB_TYPE@, USAGE_KOMI_TYPE@]
}

/// The default value of each option of [`cli_choice_usage`].
pub open spec fn cli_choice_defaults() -> Seq<Seq<char>> {
    seq!["Uct"@, "TrajectoriesCount"@, "Ucb1Tuned"@, "Winrate"@, "Dynamic"@]
}

/// The values each option of [`cli_choice_usage`] accepts: the names of its
/// variants, exactly.
pub open spec fn cli_choice_values() -> Seq<Seq<Seq<char>>> {
    seq![
        seq!["Uct"@, "NegaScout"@, "Heuristic"@],
        seq!["None"@, "Random"@, "TrajectoriesCount"@],
        seq!["Winrate"@, "Ucb1"@, "Ucb1Tuned"@],
        seq!["Winrate"@, "Ucb1"@, "Ucb1Tuned"@],
        seq!["None"@, "Static"@, "Dynamic"@],
    ]
}

/// The name of the option group of the search settings.
pub open spec fn cli_group_name() -> Seq<char> {
    "NegaScout"@
}

/// The options of the group: no two of them may be given together, and as each has
/// a default value, clap counts any one given as conflicting with the others.
pub open spec fn cli_group_args() -> Seq<Seq<char>> {
    seq![
        "moves-order"@,
        "radius"@,
        "depth"@,
        "when-create-children"@,
        "ucb-type"@,
        "final-ucb-type"@,
        "uctk"@,
        "draw-weight"@,
        "red"@,
        "green"@,
        "komi-type"@,
        "komi-min-iterations"@,
    ]
}

/// The names (long forms) of all options, in declaration order.
pub open spec fn cli_option_names() -> Seq<Seq<char>> {
    seq![
        "solver"@,
        "time-gap"@,
        "threads-count"@,
        "moves-order"@,
        "radius"@,
        "depth"@,
        "when-create-children"@,
        "ucb-type"@,
        "final-ucb-type"@,
        "uctk"@,
        "draw-weight"@,
        "red"@,
        "green"@,
        "komi-type"@,
        "komi-min-iterations"@,
    ]
}

/// The texts of string slices.
pub open spec fn str_views(s: Seq<&str>) -> Seq<Seq<char>> {
    s.map_values(|x: &str| x@)
}

/// The texts of strings.
pub open spec fn string_views(s: Seq<String>) -> Seq<Seq<char>> {
    s.map_values(|x: String| x@)
}

/// The texts of lists of string slices.
pub open spec fn str_list_views(s: Seq<Vec<&str>>) -> Seq<Seq<Seq<char>>> {
    s.map_values(|x: Vec<&str>| str_views(x@))
}

/// The text of an optional string.
pub open spec fn opt_view(o: Option<String>) -> Option<Seq<char>> {
    match o {
        Some(s) => Some(s@),
        None => None,
    }
}

/// The texts of matched options.
pub open spec fn match_views(v: Seq<(Option<String>, u64)>) -> Seq<(Option<Seq<char>>, u64)> {
    v.map_values(|p: (Option<String>, u64)| (opt_view(p.0), p.1))
}

/// The command-line grammar handed to clap, as texts.
pub struct CliGrammar {
    pub program: Seq<char>,
    pub version: Seq<char>,
    pub group_name: Seq<char>,
    pub group_args: Seq<Seq<char>>,
    pub plain_usage: Seq<Seq<char>>,
    pub plain_defaults: Seq<Seq<char>>,
    pub choice_usage: Seq<Seq<char>>,
    pub choice_defaults: Seq<Seq<char>>,
    pub choice_values: Seq<Seq<Seq<char>>>,
}

/// The library's grammar, with `cpus` as the default thread count.
pub open spec fn cli_grammar(cpus: Seq<char>) -> CliGrammar {
    CliGrammar {
        program: CLI_PROGRAM@,
        version: CLI_VERSION@,
        group_name: cli_group_name(),
        group_args: cli_group_args(),
        plain_usage: cli_plain_usage(),
        plain_defaults: cli_plain_defaults(cpus),
        choice_usage: cli_choice_usage(),
        choice_defaults: cli_choice_defaults(),
        choice_values: cli_choice_values(),
    }
}

/// What clap's parser makes of the arguments `args` (the program name first) for a
/// program called `program` with `version`, with the option group `group_name` of
/// `group_args`, the options `plain_usage` with `plain_defaults`, and the options
/// `choice_usage` with `choice_defaults` accepting `choice_values`: for each of
/// `names`, the value the option has (given or default) and how many times it was
/// given; `None` where clap refuses the arguments or is asked for help or the
/// version.
pub uninterp spec fn clap_matches(
    program: Seq<char>,
    version: Seq<char>,
    group_name: Seq<char>,
    group_args: Seq<Seq<char>>,
    plain_usage: Seq<Seq<char>>,
    plain_defaults: Seq<Seq<char>>,
    choice_usage: Seq<Seq<char>>,
    choice_defaults: Seq<Seq<char>>,
    choice_values: Seq<Seq<Seq<char>>>,
    names: Seq<Seq<char>>,
    args: Seq<Seq<char>>,
) -> Option<Seq<(Option<Seq<char>>, u64)>>;

/// What clap makes of `args` under the library's grammar, for the library's option
/// names in declaration order.
pub open spec fn cli_matches(cpus: Seq<char>, args: Seq<Seq<char>>) -> Option<Seq<(Option<Seq<char>>, u64)>> {
    let g = cli_grammar(cpus);
    clap_matches(
        g.program,
        g.version,
        g.group_name,
        g.group_args,
        g.plain_usage,
        g.plain_defaults,
        g.choice_usage,
        g.choice_defaults,
        g.choice_values,
        cli_option_names(),
        args,
    )
}

#[verifier::external_type_specification]
#[verifier::external_body]
pub struct ExClapError(clap::Error);

/// Calls clap's `App::get_matches_from_safe` on `args` for an `App` named `program`
/// with `version` and the `ArgGroup` `group_name` of `group_args`; its options are
/// read by `Arg::from_usage`, those of `plain_usage` with their `plain_defaults`
/// (`Arg::default_value`), those of `choice_usage` with their `choice_defaults` and
/// `choice_values` (`Arg::possible_values`). Then it reads `ArgMatches::value_of`
/// and `ArgMatches::occurrences_of` for each of `names`. The outcome is named by
/// [`clap_matches`]; it has one entry per name. The error (refused arguments, or
/// help or version asked for) is clap's own and is not looked into. The grammar is
/// required to be the library's, which clap reads without panicking.
#[verifier::external_body]
fn clap_option_matches(
    program: &str,
    version: &str,
    group_name: &str,
    group_args: &Vec<&str>,
    plain_usage: &Vec<&str>,
    plain_defaults: &Vec<String>,
    choice_usage: &Vec<&str>,
    choice_defaults: &Vec<&str>,
    choice_values: &Vec<Vec<&str>>,
    names: &Vec<&str>,
    args: &Vec<String>,
) -> (r: Result<Vec<(Option<String>, u64)>, clap::Error>)
    requires
        exists|cpus: Seq<char>|
            cli_grammar(cpus) == (CliGrammar {
                program: program@,
                version: version@,
                group_name: group_name@,
                group_args: str_views(group_args@),
                plain_usage: str_views(plain_usage@),
                plain_defaults: string_views(plain_defaults@),
                choice_usage: str_views(choice_usage@),
                choice_defaults: str_views(choice_defaults@),
                choice_values: str_list_views(choice_values@),
            }),
    ensures
        r is Ok <==> clap_matches(
            program@,
            version@,
            group_name@,
            str_views(group_args@),
            str_views(plain_usage@),
            string_views(plain_defaults@),
            str_views(choice_usage@),
            str_views(choice_defaults@),
            str_list_views(choice_values@),
            str_views(names@),
            string_views(args@),
        ) is Some,
        r matches Ok(v) ==> v@.len() == names@.len() && Some(match_views(v@)) == clap_matches(
            program@,
            version@,
            group_name@,
            str_views(group_args@),
            str_views(plain_usage@),
            string_views(plain_defaults@),
            str_views(choice_usage@),
            str_views(choice_defaults@),
            str_list_views(choice_values@),
            str_views(names@),
            string_views(args@),
        ),
{
    let mut app = App::new(program).version(version).group(ArgGroup::with_name(group_name).args(group_args));
    for (line, default) in plain_usage.iter().zip(plain_defaults.iter()) {
        app = app.arg(Arg::from_usage(line).default_value(default));
    }
    for ((line, default), values) in choice_usage.iter().zip(choice_defaults.iter()).zip(choice_values.iter()) {
        app = app.arg(Arg::from_usage(line).default_value(default).possible_values(values));
    }
    app.get_matches_from_safe(args.iter())
        .map(|m| names.iter().map(|n| (m.value_of(*n).map(String::from), m.occurrences_of(*n))).collect())
}

fn strs3(a: &'static str, b: &'static str, c: &'static str) -> (v: Vec<&'static str>)
    ensures
        str_views(v@) == seq![a@, b@, c@],
{
    let mut v: Vec<&'static str> = Vec::new();
    v.push(a);
    v.push(b);
    v.push(c);
    assert(str_views(v@) =~= seq![a@, b@, c@]);
    v
}

/// The library's grammar and option names, ready for clap, with `cpus` as the
/// default thread count.
fn cli_matches_of(args: &Vec<String>, cpus: usize) -> (r: Result<Vec<(Option<String>, u64)>, clap::Error>)
    ensures
        r is Ok <==> cli_matches(decimal_digits(cpus as nat), string_views(args@)) is Some,
        r matches Ok(v) ==> v@.len() == 15 && Some(match_views(v@)) == cli_matches(
            decimal_digits(cpus as nat),
            string_views(args@),
        ),
{
    let mut group_args: Vec<&'static str> = Vec::new();
    group_args.push("moves-order");
    group_args.push("radius");
    group_args.push("depth");
    group_args.push("when-create-children");
    group_args.push("ucb-type");
    group_args.push("final-ucb-type");
    group_args.push("uctk");
    group_args.push("draw-weight");
    group_args.push("red");
    group_args.push("green");
    group_args.push("komi-type");
    group_args.push("komi-min-iterations");
    assert(str_views(group_args@) =~= cli_group_args());

    let mut plain_usage: Vec<&'static str> = Vec::new();
    plain_usage.push(USAGE_TIME_GAP);
    plain_usage.push(USAGE_THREADS_COUNT);
    plain_usage.push(USAGE_RADIUS);
    plain_usage.push(USAGE_DEPTH);
    plain_usage.push(USAGE_WHEN_CREATE_CHILDREN);
    plain_usage.push(USAGE_UCTK);
    plain_usage.push(USAGE_DRAW_WEIGHT);
    plain_usage.push(USAGE_RED);
    plain_usage.push(USAGE_GREEN);
    plain_usage.push(USAGE_KOMI_MIN_ITERATIONS);
    assert(str_views(plain_usage@) =~= cli_plain_usage());

    let mut plain_defaults: Vec<String> = Vec::new();
    plain_defaults.push(String::from_str("100"));
    plain_defaults.push(decimal_text(cpus));
    plain_defaults.push(String::from_str("3"));
    plain_defaults.push(String::from_str("8"));
    plain_defaults.push(String::from_str("2"));
    plain_defaults.push(String::from_str("1.0"));
    plain_defaults.push(String::from_str("0.4"));
    plain_defaults.push(String::from_str("0.45"));
    plain_defaults.push(String::from_str("0.5"));
    plain_defaults.push(String::from_str("3000"));
    assert(string_views(plain_defaults@) =~= cli_plain_defaults(decimal_digits(cpus as nat)));

    let mut choice_usage: Vec<&'static str> = Vec::new();
    choice_usage.push(USAGE_SOLVER);
    choice_usage.push(USAGE_MOVES_ORDER);
    choice_usage.push(USAGE_UCB_TYPE);
    choice_usage.push(USAGE_FINAL_UCB_TYPE);
    choice_usage.push(USAGE_KOMI_TYPE);
    assert(str_views(choice_usage@) =~= cli_choice_usage());

    let mut choice_defaults: Vec<&'static str> = Vec::new();
    choice_defaults.push("Uct");
    choice_defaults.push("TrajectoriesCount");
    choice_defaults.push("Ucb1Tuned");
    choice_defaults.push("Winrate");
    choice_defaults.push("Dynamic");
    assert(str_views(choice_defaults@) =~= cli_choice_defaults());

    let mut choice_values: Vec<Vec<&'static str>> = Vec::new();
    choice_values.push(strs3("Uct", "NegaScout", "Heuristic"));
    choice_values.push(strs3("None", "Random", "TrajectoriesCount"));
    choice_values.push(strs3("Winrate", "Ucb1", "Ucb1Tuned"));
    choice_values.push(strs3("Winrate", "Ucb1", "Ucb1Tuned"));
    choice_values.push(strs3("None", "Static", "Dynamic"));
    assert(str_list_views(choice_values@) =~= cli_choice_values());

    let mut names: Vec<&'static str> = Vec::new();
    names.push("solver");
    names.push("time-gap");
    names.push("threads-count");
    names.push("moves-order");
    names.push("radius");
    names.push("depth");
    names.push("when-create-children");
    names.push("ucb-type");
    names.push("final-ucb-type");
    names.push("uctk");
    names.push("draw-weight");
    names.push("red");
    names.push("green");
    names.push("komi-type");
    names.push("komi-min-iterations");
    assert(str_views(names@) =~= cli_option_names());
    assert(cli_grammar(decimal_digits(cpus as nat)) == (CliGrammar {
        program: CLI_PROGRAM@,
        version: CLI_VERSION@,
        group_name: "NegaScout"@,
        group_args: str_views(group_args@),
        plain_usage: str_views(plain_usage@),
        plain_defaults: string_views(plain_defaults@),
        choice_usage: str_views(choice_usage@),
        choice_defaults: str_views(choice_defaults@),
        choice_values: str_list_views(choice_values@),
    }));
    clap_option_matches(
        CLI_PROGRAM,
        CLI_VERSION,
        "NegaScout",
        &group_args,
        &plain_usage,
        &plain_defaults,
        &choice_usage,
        &choice_defaults,
        &choice_values,
        &names,
        args,
    )
}

/// The command-line values are the matched values, option by option, in
/// declaration order.
pub open spec fn values_from_matches(v: CliValues, ms: Seq<(Option<Seq<char>>, u64)>) -> bool {
    &&& opt_view(v.solver) == ms[0].0
    &&& opt_view(v.time_gap) == ms[1].0
    &&& opt_view(v.threads_count) == ms[2].0
    &&& opt_view(v.moves_order) == ms[3].0
    &&& opt_view(v.radius) == ms[4].0
    &&& opt_view(v.depth) == ms[5].0
    &&& opt_view(v.when_create_children) == ms[6].0
    &&& opt_view(v.ucb_type) == ms[7].0
    &&& opt_view(v.final_ucb_type) == ms[8].0
    &&& opt_view(v.uctk) == ms[9].0
    &&& opt_view(v.draw_weight) == ms[10].0
    &&& opt_view(v.red) == ms[11].0
    &&& opt_view(v.green) == ms[12].0
    &&& opt_view(v.komi_type) == ms[13].0
    &&& opt_view(v.komi_min_iterations) == ms[14].0
}

fn opt_clone(o: &Option<String>) -> (r: Option<String>)
    ensures
        opt_view(r) == opt_view(*o),
{
    match o {
        Some(s) => Some(s.clone()),
        None => None,
    }
}

/// The option values from what clap matched: one entry per option, in declaration
/// order, each the option's value (given or default), if any.
pub fn cli_values_from_matches(ms: &Vec<(Option<String>, u64)>) -> (v: CliValues)
    requires
        ms@.len() == 15,
    ensures
        values_from_matches(v, match_views(ms@)),
{
    CliValues {
        solver: opt_clone(&ms[0].0),
        time_gap: opt_clone(&ms[1].0),
        threads_count: opt_clone(&ms[2].0),
        moves_order: opt_clone(&ms[3].0),
        radius: opt_clone(&ms[4].0),
        depth: opt_clone(&ms[5].0),
        when_create_children: opt_clone(&ms[6].0),
        ucb_type: opt_clone(&ms[7].0),
        final_ucb_type: opt_clone(&ms[8].0),
        uctk: opt_clone(&ms[9].0),
        draw_weight: opt_clone(&ms[10].0),
        red: opt_clone(&ms[11].0),
        green: opt_clone(&ms[12].0),
        komi_type: opt_clone(&ms[13].0),
        komi_min_iterations: opt_clone(&ms[14].0),
    }
}

/// `r` is what reading the arguments `args` gives, with `cpus` as the thread count's
/// default: clap's refusal where clap refuses them (or is asked for help or the
/// version), else the values of all options.
pub open spec fn spec_args_outcome(args: Seq<Seq<char>>, cpus: usize, r: Result<CliValues, clap::Error>) -> bool {
    match cli_matches(decimal_digits(cpus as nat), args) {
        None => r is Err,
        Some(ms) => r matches Ok(v) && values_from_matches(v, ms),
    }
}

/// Reads the command line `args` (the program name first) into the option values,
/// with `cpus` as the default thread count. clap pairs the arguments with the
/// options, refuses a choice that is not exactly one of its names, and refuses any
/// option of the `NegaScout` group given (each has a default, so any one given
/// conflicts with the others).
pub fn cli_values_from_args_with_cpus(args: &Vec<String>, cpus: usize) -> (r: Result<CliValues, clap::Error>)
    ensures
        spec_args_outcome(string_views(args@), cpus, r),
{
    match cli_matches_of(args, cpus) {
        Ok(ms) => Ok(cli_values_from_matches(&ms)),
        Err(e) => Err(e),
    }
}

/// Reads the command line `args` (the program name first) into the option values;
/// the default thread count is the number of CPUs of this machine, at least one.
pub fn cli_values_from_args(args: &Vec<String>) -> (r: Result<CliValues, clap::Error>)
    ensures
        exists|cpus: usize| cpus >= 1 && spec_args_outcome(string_views(args@), cpus, r),
{
    let cpus = available_cpus();
    cli_values_from_args_with_cpus(args, cpus)
}

} // verus!
