use vstd::prelude::*;
use vstd::string::StringExecFns;
use crate::text::{eq_ignore_ascii_case, parse_bounded, spec_eq_ignore_ascii_case, spec_parse_bounded, str_eq};

verus! {

/// Formula of the UCT value.
#[derive(Clone, Copy, Debug, PartialEq, Eq, Structural)]
pub enum UcbType {
    Winrate,
    Ucb1,
    Ucb1Tuned,
}

impl UcbType {
    /// The name of a variant, as the command line writes it.
    pub open spec fn spec_name(self) -> Seq<char> {
        match self {
            UcbType::Winrate => "Winrate"@,
            UcbType::Ucb1 => "Ucb1"@,
            UcbType::Ucb1Tuned => "Ucb1Tuned"@,
        }
    }

    /// The error text for a name that is none of the variants.
    pub open spec fn spec_parse_error() -> Seq<char> {
        "valid values: Winrate, Ucb1, Ucb1Tuned"@
    }

    /// The variant that `s` names, ignoring the case of ASCII letters; the
    /// first in declaration order where several would match.
    pub open spec fn spec_from_str(s: Seq<char>) -> Option<UcbType> {
        if spec_eq_ignore_ascii_case(s, UcbType::Winrate.spec_name()) {
            Some(UcbType::Winrate)
        } else if spec_eq_ignore_ascii_case(s, UcbType::Ucb1.spec_name()) {
            Some(UcbType::Ucb1)
        } else if spec_eq_ignore_ascii_case(s, UcbType::Ucb1Tuned.spec_name()) {
            Some(UcbType::Ucb1Tuned)
        } else {
            None
        }
    }

    /// The names of all variants, in declaration order.
    pub fn variants() -> (r: [&'static str; 3])
        ensures
            r[0]@ == UcbType::Winrate.spec_name(),
            r[1]@ == UcbType::Ucb1.spec_name(),
            r[2]@ == UcbType::Ucb1Tuned.spec_name(),
    {
        ["Winrate", "Ucb1", "Ucb1Tuned"]
    }

    /// The name of this variant.
    pub fn name(&self) -> (r: &'static str)
        ensures
            r@ == self.spec_name(),
    {
        match self {
            UcbType::Winrate => "Winrate",
            UcbType::Ucb1 => "Ucb1",
            UcbType::Ucb1Tuned => "Ucb1Tuned",
        }
    }

    /// The variant whose name is exactly `s`, as the command line accepts it.
    pub open spec fn spec_from_name(s: Seq<char>) -> Option<UcbType> {
        if s == UcbType::Winrate.spec_name() {
            Some(UcbType::Winrate)
        } else if s == UcbType::Ucb1.spec_name() {
            Some(UcbType::Ucb1)
        } else if s == UcbType::Ucb1Tuned.spec_name() {
            Some(UcbType::Ucb1Tuned)
        } else {
            None
        }
    }

    /// Reads a variant from exactly its name.
    pub fn from_name(s: &str) -> (r: Option<UcbType>)
        ensures
            r == Self::spec_from_name(s@),
    {
        if str_eq(s, "Winrate") {
            Some(UcbType::Winrate)
        } else if str_eq(s, "Ucb1") {
            Some(UcbType::Ucb1)
        } else if str_eq(s, "Ucb1Tuned") {
            Some(UcbType::Ucb1Tuned)
        } else {
            None
        }
    }

    /// Reads a variant from its name, ignoring the case of ASCII letters.
    pub fn from_str(s: &str) -> (r: Result<UcbType, String>)
        ensures
            match r {
                Ok(v) => Self::spec_from_str(s@) == Some(v),
                Err(e) => Self::spec_from_str(s@) is None && e@ == Self::spec_parse_error(),
            },
    {
        if eq_ignore_ascii_case(s, "Winrate") {
            Ok(UcbType::Winrate)
        } else if eq_ignore_ascii_case(s, "Ucb1") {
            Ok(UcbType::Ucb1)
        } else if eq_ignore_ascii_case(s, "Ucb1Tuned") {
            Ok(UcbType::Ucb1Tuned)
        } else {
            Err(String::from_str("valid values: Winrate, Ucb1, Ucb1Tuned"))
        }
    }
}

/// How komi is evaluated for UCT during the game.
#[derive(Clone, Copy, Debug, PartialEq, Eq, Structural)]
pub enum UctKomiType {
    NoKomi,
    Static,
    Dynamic,
}

impl UctKomiType {
    /// The name of a variant, as the command line writes it.
    pub open spec fn spec_name(self) -> Seq<char> {
        match self {
            UctKomiType::NoKomi => "None"@,
            UctKomiType::Static => "Static"@,
            UctKomiType::Dynamic => "Dynamic"@,
        }
    }

    /// The error text for a name that is none of the variants.
    pub open spec fn spec_parse_error() -> Seq<char> {
        "valid values: None, Static, Dynamic"@
    }

    /// The variant that `s` names, ignoring the case of ASCII letters; the
    /// first in declaration order where several would match.
    pub open spec fn spec_from_str(s: Seq<char>) -> Option<UctKomiType> {
        if spec_eq_ignore_ascii_case(s, UctKomiType::NoKomi.spec_name()) {
            Some(UctKomiType::NoKomi)
        } else if spec_eq_ignore_ascii_case(s, UctKomiType::Static.spec_name()) {
            Some(UctKomiType::Static)
        } else if spec_eq_ignore_ascii_case(s, UctKomiType::Dynamic.spec_name()) {
            Some(UctKomiType::Dynamic)
        } else {
            None
        }
    }

    /// The names of all variants, in declaration order.
    pub fn variants() -> (r: [&'static str; 3])
        ensures
            r[0]@ == UctKomiType::NoKomi.spec_name(),
            r[1]@ == UctKomiType::Static.spec_name(),
            r[2]@ == UctKomiType::Dynamic.spec_name(),
    {
        ["None", "Static", "Dynamic"]
    }

    /// The name of this variant.
    pub fn name(&self) -> (r: &'static str)
        ensures
            r@ == self.spec_name(),
    {
        match self {
            UctKomiType::NoKomi => "None",
            UctKomiType::Static => "Static",
            UctKomiType::Dynamic => "Dynamic",
        }
    }

    /// The variant whose name is exactly `s`, as the command line accepts it.
    pub open spec fn spec_from_name(s: Seq<char>) -> Option<UctKomiType> {
        if s == UctKomiType::NoKomi.spec_name() {
            Some(UctKomiType::NoKomi)
        } else if s == UctKomiType::Static.spec_name() {
            Some(UctKomiType::Static)
        } else if s == UctKomiType::Dynamic.spec_name() {
            Some(UctKomiType::Dynamic)
        } else {
            None
        }
    }

    /// Reads a variant from exactly its name.
    pub fn from_name(s: &str) -> (r: Option<UctKomiType>)
        ensures
            r == Self::spec_from_name(s@),
    {
        if str_eq(s, "None") {
            Some(UctKomiType::NoKomi)
        } else if str_eq(s, "Static") {
            Some(UctKomiType::Static)
        } else if str_eq(s, "Dynamic") {
            Some(UctKomiType::Dynamic)
        } else {
            None
        }
    }

    /// Reads a variant from its name, ignoring the case of ASCII letters.
    pub fn from_str(s: &str) -> (r: Result<UctKomiType, String>)
        ensures
            match r {
                Ok(v) => Self::spec_from_str(s@) == Some(v),
                Err(e) => Self::spec_from_str(s@) is None && e@ == Self::spec_parse_error(),
            },
    {
        if eq_ignore_ascii_case(s, "None") {
            Ok(UctKomiType::NoKomi)
        } else if eq_ignore_ascii_case(s, "Static") {
            Ok(UctKomiType::Static)
        } else if eq_ignore_ascii_case(s, "Dynamic") {
            Ok(UctKomiType::Dynamic)
        } else {
            Err(String::from_str("valid values: None, Static, Dynamic"))
        }
    }
}

/// Moves sorting method for NegaScout.
#[derive(Clone, Copy, Debug, PartialEq, Eq, Structural)]
pub enum MinimaxMovesSorting {
    NoSorting,
    Random,
    TrajectoriesCount,
}

impl MinimaxMovesSorting {
    /// The name of a variant, as the command line writes it.
    pub open spec fn spec_name(self) -> Seq<char> {
        match self {
            MinimaxMovesSorting::NoSorting => "None"@,
            MinimaxMovesSorting::Random => "Random"@,
            MinimaxMovesSorting::TrajectoriesCount => "TrajectoriesCount"@,
        }
    }

    /// The error text for a name that is none of the variants.
    pub open spec fn spec_parse_error() -> Seq<char> {
        "valid values: None, Random, TrajectoriesCount"@
    }

    /// The variant that `s` names, ignoring the case of ASCII letters; the
    /// first in declaration order where several would match.
    pub open spec fn spec_from_str(s: Seq<char>) -> Option<MinimaxMovesSorting> {
        if spec_eq_ignore_ascii_case(s, MinimaxMovesSorting::NoSorting.spec_name()) {
            Some(MinimaxMovesSorting::NoSorting)
        } else if spec_eq_ignore_ascii_case(s, MinimaxMovesSorting::Random.spec_name()) {
            Some(MinimaxMovesSorting::Random)
        } else if spec_eq_ignore_ascii_case(s, MinimaxMovesSorting::TrajectoriesCount.spec_name()) {
            Some(MinimaxMovesSorting::TrajectoriesCount)
        } else {
            None
        }
    }

    /// The names of all variants, in declaration order.
    pub fn variants() -> (r: [&'static str; 3])
        ensures
            r[0]@ == MinimaxMovesSorting::NoSorting.spec_name(),
            r[1]@ == MinimaxMovesSorting::Random.spec_name(),
            r[2]@ == MinimaxMovesSorting::TrajectoriesCount.spec_name(),
    {
        ["None", "Random", "TrajectoriesCount"]
    }

    /// The name of this variant.
    pub fn name(&self) -> (r: &'static str)
        ensures
            r@ == self.spec_name(),
    {
        match self {
            MinimaxMovesSorting::NoSorting => "None",
            MinimaxMovesSorting::Random => "Random",
            MinimaxMovesSorting::TrajectoriesCount => "TrajectoriesCount",
        }
    }

    /// The variant whose name is exactly `s`, as the command line accepts it.
    pub open spec fn spec_from_name(s: Seq<char>) -> Option<MinimaxMovesSorting> {
        if s == MinimaxMovesSorting::NoSorting.spec_name() {
            Some(MinimaxMovesSorting::NoSorting)
        } else if s == MinimaxMovesSorting::Random.spec_name() {
            Some(MinimaxMovesSorting::Random)
        } else if s == MinimaxMovesSorting::TrajectoriesCount.spec_name() {
            Some(MinimaxMovesSorting::TrajectoriesCount)
        } else {
            None
        }
    }

    /// Reads a variant from exactly its name.
    pub fn from_name(s: &str) -> (r: Option<MinimaxMovesSorting>)
        ensures
            r == Self::spec_from_name(s@),
    {
        if str_eq(s, "None") {
            Some(MinimaxMovesSorting::NoSorting)
        } else if str_eq(s, "Random") {
            Some(MinimaxMovesSorting::Random)
        } else if str_eq(s, "TrajectoriesCount") {
            Some(MinimaxMovesSorting::TrajectoriesCount)
        } else {
            None
        }
    }

    /// Reads a variant from its name, ignoring the case of ASCII letters.
    pub fn from_str(s: &str) -> (r: Result<MinimaxMovesSorting, String>)
        ensures
            match r {
                Ok(v) => Self::spec_from_str(s@) == Some(v),
                Err(e) => Self::spec_from_str(s@) is None && e@ == Self::spec_parse_error(),
            },
    {
        if eq_ignore_ascii_case(s, "None") {
            Ok(MinimaxMovesSorting::NoSorting)
        } else if eq_ignore_ascii_case(s, "Random") {
            Ok(MinimaxMovesSorting::Random)
        } else if eq_ignore_ascii_case(s, "TrajectoriesCount") {
            Ok(MinimaxMovesSorting::TrajectoriesCount)
        } else {
            Err(String::from_str("valid values: None, Random, TrajectoriesCount"))
        }
    }
}

/// Engine used for position estimation and best move choosing.
#[derive(Clone, Copy, Debug, PartialEq, Eq, Structural)]
pub enum Solver {
    Uct,
    NegaScout,
    Heuristic,
}

impl Solver {
    /// The name of a variant, as the command line writes it.
    pub open spec fn spec_name(self) -> Seq<char> {
        match self {
            Solver::Uct => "Uct"@,
            Solver::NegaScout => "NegaScout"@,
            Solver::Heuristic => "Heuristic"@,
        }
    }

    /// The error text for a name that is none of the variants.
    pub open spec fn spec_parse_error() -> Seq<char> {
        "valid values: Uct, NegaScout, Heuristic"@
    }

    /// The variant that `s` names, ignoring the case of ASCII letters; the
    /// first in declaration order where several would match.
    pub open spec fn spec_from_str(s: Seq<char>) -> Option<Solver> {
        if spec_eq_ignore_ascii_case(s, Solver::Uct.spec_name()) {
            Some(Solver::Uct)
        } else if spec_eq_ignore_ascii_case(s, Solver::NegaScout.spec_name()) {
            Some(Solver::NegaScout)
        } else if spec_eq_ignore_ascii_case(s, Solver::Heuristic.spec_name()) {
            Some(Solver::Heuristic)
        } else {
            None
        }
    }

    /// The names of all variants, in declaration order.
    pub fn variants() -> (r: [&'static str; 3])
        ensures
            r[0]@ == Solver::Uct.spec_name(),
            r[1]@ == Solver::NegaScout.spec_name(),
            r[2]@ == Solver::Heuristic.spec_name(),
    {
        ["Uct", "NegaScout", "Heuristic"]
    }

    /// The name of this variant.
    pub fn name(&self) -> (r: &'static str)
        ensures
            r@ == self.spec_name(),
    {
        match self {
            Solver::Uct => "Uct",
            Solver::NegaScout => "NegaScout",
            Solver::Heuristic => "Heuristic",
        }
    }

    /// The variant whose name is exactly `s`, as the command line accepts it.
    pub open spec fn spec_from_name(s: Seq<char>) -> Option<Solver> {
        if s == Solver::Uct.spec_name() {
            Some(Solver::Uct)
        } else if s == Solver::NegaScout.spec_name() {
            Some(Solver::NegaScout)
        } else if s == Solver::Heuristic.spec_name() {
            Some(Solver::Heuristic)
        } else {
            None
        }
    }

    /// Reads a variant from exactly its name.
    pub fn from_name(s: &str) -> (r: Option<Solver>)
        ensures
            r == Self::spec_from_name(s@),
    {
        if str_eq(s, "Uct") {
            Some(Solver::Uct)
        } else if str_eq(s, "NegaScout") {
            Some(Solver::NegaScout)
        } else if str_eq(s, "Heuristic") {
            Some(Solver::Heuristic)
        } else {
            None
        }
    }

    /// Reads a variant from its name, ignoring the case of ASCII letters.
    pub fn from_str(s: &str) -> (r: Result<Solver, String>)
        ensures
            match r {
                Ok(v) => Self::spec_from_str(s@) == Some(v),
                Err(e) => Self::spec_from_str(s@) is None && e@ == Self::spec_parse_error(),
            },
    {
        if eq_ignore_ascii_case(s, "Uct") {
            Ok(Solver::Uct)
        } else if eq_ignore_ascii_case(s, "NegaScout") {
            Ok(Solver::NegaScout)
        } else if eq_ignore_ascii_case(s, "Heuristic") {
            Ok(Solver::Heuristic)
        } else {
            Err(String::from_str("valid values: Uct, NegaScout, Heuristic"))
        }
    }
}

/// Settings of the UCT search that are whole numbers or choices.
#[derive(Clone, Copy, Debug, PartialEq, Eq, Structural)]
pub struct UctConfig {
    pub radius: u32,
    pub ucb_type: UcbType,
    pub final_ucb_type: UcbType,
    pub when_create_children: usize,
    pub depth: u32,
    pub komi_type: UctKomiType,
    pub komi_min_iterations: usize,
}

/// Settings of the NegaScout search.
#[derive(Clone, Copy, Debug, PartialEq, Eq, Structural)]
pub struct MinimaxConfig {
    pub minimax_moves_sorting: MinimaxMovesSorting,
}

/// Settings of the bot as a whole.
#[derive(Clone, Copy, Debug, PartialEq, Eq, Structural)]
pub struct BotConfig {
    pub threads_count: usize,
    pub time_gap: u32,
    pub solver: Solver,
}

/// The engine configuration (its fractional settings are kept by the program).
#[derive(Clone, Copy, Debug, PartialEq, Eq, Structural)]
pub struct Config {
    pub uct: UctConfig,
    pub minimax: MinimaxConfig,
    pub bot: BotConfig,
}

impl Config {
    /// The configuration in force before the command line is read.
    pub open spec fn spec_default() -> Config {
        Config {
            uct: UctConfig {
                radius: 3,
                ucb_type: UcbType::Ucb1Tuned,
                final_ucb_type: UcbType::Winrate,
                when_create_children: 2,
                depth: 8,
                komi_type: UctKomiType::Dynamic,
                komi_min_iterations: 3000,
            },
            minimax: MinimaxConfig { minimax_moves_sorting: MinimaxMovesSorting::Random },
            bot: BotConfig { threads_count: 4, time_gap: 100, solver: Solver::Uct },
        }
    }
}

impl Default for Config {
    fn default() -> (r: Config)
        ensures
            r == Config::spec_default(),
    {
        Config {
            uct: UctConfig {
                radius: 3,
                ucb_type: UcbType::Ucb1Tuned,
                final_ucb_type: UcbType::Winrate,
                when_create_children: 2,
                depth: 8,
                komi_type: UctKomiType::Dynamic,
                komi_min_iterations: 3000,
            },
            minimax: MinimaxConfig { minimax_moves_sorting: MinimaxMovesSorting::Random },
            bot: BotConfig { threads_count: 4, time_gap: 100, solver: Solver::Uct },
        }
    }
}

/// Radius for points considered by the UCT search.
pub fn uct_radius(config: &Config) -> (r: u32)
    ensures
        r == config.uct.radius,
{
    config.uct.radius
}

/// Formula of the UCT value.
pub fn ucb_type(config: &Config) -> (r: UcbType)
    ensures
        r == config.uct.ucb_type,
{
    config.uct.ucb_type
}

/// Formula of the UCT value used to choose the best move.
pub fn final_ucb_type(config: &Config) -> (r: UcbType)
    ensures
        r == config.uct.final_ucb_type,
{
    config.uct.final_ucb_type
}

/// Number of visits after which children of a UCT node are created.
pub fn uct_when_create_children(config: &Config) -> (r: usize)
    ensures
        r == config.uct.when_create_children,
{
    config.uct.when_create_children
}

/// Maximum depth of the UCT tree.
pub fn uct_depth(config: &Config) -> (r: u32)
    ensures
        r == config.uct.depth,
{
    config.uct.depth
}

/// Number of threads to use.
pub fn threads_count(config: &Config) -> (r: usize)
    ensures
        r == config.bot.threads_count,
{
    config.bot.threads_count
}

/// Type of komi evaluation for UCT.
pub fn uct_komi_type(config: &Config) -> (r: UctKomiType)
    ensures
        r == config.uct.komi_type,
{
    config.uct.komi_type
}

/// Number of iterations after which dynamic komi is updated.
pub fn uct_komi_min_iterations(config: &Config) -> (r: usize)
    ensures
        r == config.uct.komi_min_iterations,
{
    config.uct.komi_min_iterations
}

/// Moves sorting method for NegaScout.
pub fn minimax_moves_sorting(config: &Config) -> (r: MinimaxMovesSorting)
    ensures
        r == config.minimax.minimax_moves_sorting,
{
    config.minimax.minimax_moves_sorting
}

/// Milliseconds given to input, output and internal delay.
pub fn time_gap(config: &Config) -> (r: u32)
    ensures
        r == config.bot.time_gap,
{
    config.bot.time_gap
}

/// Engine used for position estimation.
pub fn solver(config: &Config) -> (r: Solver)
    ensures
        r == config.bot.solver,
{
    config.bot.solver
}

/// The options as given on the command line: the text of each, or `None` where
/// the option was left out. The fractional options (`uctk`, `draw_weight`, `red`,
/// `green`) are carried as text and read by the program.
pub struct CliValues {
    pub solver: Option<String>,
    pub time_gap: Option<String>,
    pub threads_count: Option<String>,
    pub moves_order: Option<String>,
    pub radius: Option<String>,
    pub depth: Option<String>,
    pub when_create_children: Option<String>,
    pub ucb_type: Option<String>,
    pub final_ucb_type: Option<String>,
    pub komi_type: Option<String>,
    pub komi_min_iterations: Option<String>,
    pub uctk: Option<String>,
    pub draw_weight: Option<String>,
    pub red: Option<String>,
    pub green: Option<String>,
}

/// A command-line option whose value may be refused.
#[derive(Clone, Copy, Debug, PartialEq, Eq, Structural)]
pub enum ConfigArg {
    Radius,
    UcbType,
    FinalUcbType,
    WhenCreateChildren,
    Depth,
    KomiType,
    KomiMinIterations,
    MovesOrder,
    ThreadsCount,
    TimeGap,
    Solver,
}

/// A refused option value: which option, and the text it had.
#[derive(Debug)]
pub struct ConfigError {
    pub arg: ConfigArg,
    pub value: String,
}

/// The text of an option, or its default where it was left out.
pub open spec fn spec_text_or(v: Option<String>, default: Seq<char>) -> Seq<char> {
    match v {
        Some(s) => s@,
        None => default,
    }
}

/// The text that the command line gives an option (the default text where it
/// was left out).
pub open spec fn spec_arg_text(args: CliValues, arg: ConfigArg) -> Seq<char> {
    match arg {
        ConfigArg::Radius => spec_text_or(args.radius, "3"@),
        ConfigArg::UcbType => spec_text_or(args.ucb_type, "Ucb1Tuned"@),
        ConfigArg::FinalUcbType => spec_text_or(args.final_ucb_type, "Winrate"@),
        ConfigArg::WhenCreateChildren => spec_text_or(args.when_create_children, "2"@),
        ConfigArg::Depth => spec_text_or(args.depth, "8"@),
        ConfigArg::KomiType => spec_text_or(args.komi_type, "Dynamic"@),
        ConfigArg::KomiMinIterations => spec_text_or(args.komi_min_iterations, "3000"@),
        ConfigArg::MovesOrder => spec_text_or(args.moves_order, "TrajectoriesCount"@),
        ConfigArg::ThreadsCount => spec_text_or(args.threads_count, Seq::empty()),
        ConfigArg::TimeGap => spec_text_or(args.time_gap, "100"@),
        ConfigArg::Solver => spec_text_or(args.solver, "Uct"@),
    }
}

/// The value an unsigned option reads as, if it is a valid `u32`.
pub open spec fn spec_u32_arg(args: CliValues, arg: ConfigArg) -> Option<nat> {
    spec_parse_bounded(spec_arg_text(args, arg), u32::MAX as nat)
}

/// The value an unsigned option reads as, if it is a valid `usize`.
pub open spec fn spec_usize_arg(args: CliValues, arg: ConfigArg) -> Option<nat> {
    spec_parse_bounded(spec_arg_text(args, arg), usize::MAX as nat)
}

/// The thread count: the given value, or the number of CPUs where none was given.
pub open spec fn spec_threads_arg(args: CliValues, cpus: usize) -> Option<nat> {
    match args.threads_count {
        Some(s) => spec_parse_bounded(s@, usize::MAX as nat),
        None => Some(cpus as nat),
    }
}

/// The configuration that the command line asks for, or the first option (in the
/// order the options are read) whose value is refused; `cpus` is the number of CPUs
/// that stands for a thread count left out.
pub open spec fn spec_from_cli(args: CliValues, cpus: usize) -> Result<Config, ConfigArg> {
    let radius = spec_u32_arg(args, ConfigArg::Radius);
    let ucb = UcbType::spec_from_name(spec_arg_text(args, ConfigArg::UcbType));
    let final_ucb = UcbType::spec_from_name(spec_arg_text(args, ConfigArg::FinalUcbType));
    let children = spec_usize_arg(args, ConfigArg::WhenCreateChildren);
    let depth = spec_u32_arg(args, ConfigArg::Depth);
    let komi = UctKomiType::spec_from_name(spec_arg_text(args, ConfigArg::KomiType));
    let komi_iterations = spec_usize_arg(args, ConfigArg::KomiMinIterations);
    let sorting = MinimaxMovesSorting::spec_from_name(spec_arg_text(args, ConfigArg::MovesOrder));
    let threads = spec_threads_arg(args, cpus);
    let gap = spec_u32_arg(args, ConfigArg::TimeGap);
    let solver = Solver::spec_from_name(spec_arg_text(args, ConfigArg::Solver));
    if radius is None {
        Err(ConfigArg::Radius)
    } else if ucb is None {
        Err(ConfigArg::UcbType)
    } else if final_ucb is None {
        Err(ConfigArg::FinalUcbType)
    } else if children is None {
        Err(ConfigArg::WhenCreateChildren)
    } else if depth is None {
        Err(ConfigArg::Depth)
    } else if komi is None {
        Err(ConfigArg::KomiType)
    } else if komi_iterations is None {
        Err(ConfigArg::KomiMinIterations)
    } else if sorting is None {
        Err(ConfigArg::MovesOrder)
    } else if threads is None {
        Err(ConfigArg::ThreadsCount)
    } else if gap is None {
        Err(ConfigArg::TimeGap)
    } else if solver is None {
        Err(ConfigArg::Solver)
    } else {
        Ok(
            Config {
                uct: UctConfig {
                    radius: radius.unwrap() as u32,
                    ucb_type: ucb.unwrap(),
                    final_ucb_type: final_ucb.unwrap(),
                    when_create_children: children.unwrap() as usize,
                    depth: depth.unwrap() as u32,
                    komi_type: komi.unwrap(),
                    komi_min_iterations: komi_iterations.unwrap() as usize,
                },
                minimax: MinimaxConfig { minimax_moves_sorting: sorting.unwrap() },
                bot: BotConfig {
                    threads_count: threads.unwrap() as usize,
                    time_gap: gap.unwrap() as u32,
                    solver: solver.unwrap(),
                },
            },
        )
    }
}

/// `r` is what reading the command line gives: the configuration, or the refused
/// option together with its text.
pub open spec fn spec_cli_outcome(args: CliValues, cpus: usize, r: Result<Config, ConfigError>) -> bool {
    match spec_from_cli(args, cpus) {
        Ok(c) => r == Ok::<Config, ConfigError>(c),
        Err(a) => r matches Err(e) && e.arg == a && e.value@ == spec_arg_text(args, a),
    }
}

fn text_or<'a>(v: &'a Option<String>, default: &'a str) -> (r: &'a str)
    ensures
        r@ == spec_text_or(*v, default@),
{
    match v {
        Some(s) => s.as_str(),
        None => default,
    }
}

fn refused(arg: ConfigArg, text: &str) -> (e: ConfigError)
    ensures
        e.arg == arg,
        e.value@ == text@,
{
    ConfigError { arg, value: String::from_str(text) }
}

fn parse_u32_arg(text: &str) -> (r: Option<u32>)
    ensures
        match r {
            Some(v) => spec_parse_bounded(text@, u32::MAX as nat) == Some(v as nat),
            None => spec_parse_bounded(text@, u32::MAX as nat) is None,
        },
{
    match parse_bounded(text, u32::MAX as u64) {
        Some(v) => Some(v as u32),
        None => None,
    }
}

fn parse_usize_arg(text: &str) -> (r: Option<usize>)
    ensures
        match r {
            Some(v) => spec_parse_bounded(text@, usize::MAX as nat) == Some(v as nat),
            None => spec_parse_bounded(text@, usize::MAX as nat) is None,
        },
{
    match parse_bounded(text, usize::MAX as u64) {
        Some(v) => Some(v as usize),
        None => None,
    }
}

impl ConfigError {
    /// The message shown for a refused value.
    pub open spec fn spec_message(self) -> Seq<char> {
        "The argument '"@ + self.value@ + "' isn't a valid value"@
    }

    /// The message shown for a refused value.
    pub fn message(&self) -> (m: String)
        ensures
            m@ == self.spec_message(),
    {
        let mut m = String::from_str("The argument '");
        m.append(self.value.as_str());
        m.append("' isn't a valid value");
        m
    }
}

impl Config {
    /// Reads the configuration from the command-line values, with `cpus` standing for
    /// a thread count that was left out.
    pub fn from_cli_values(args: &CliValues, cpus: usize) -> (r: Result<Config, ConfigError>)
        ensures
            spec_cli_outcome(*args, cpus, r),
    {
        let t = text_or(&args.radius, "3");
        let radius = match parse_u32_arg(t) {
            Some(v) => v,
            None => return Err(refused(ConfigArg::Radius, t)),
        };
        let t = text_or(&args.ucb_type, "Ucb1Tuned");
        let ucb_type = match UcbType::from_name(t) {
            Some(v) => v,
            None => return Err(refused(ConfigArg::UcbType, t)),
        };
        let t = text_or(&args.final_ucb_type, "Winrate");
        let final_ucb_type = match UcbType::from_name(t) {
            Some(v) => v,
            None => return Err(refused(ConfigArg::FinalUcbType, t)),
        };
        let t = text_or(&args.when_create_children, "2");
        let when_create_children = match parse_usize_arg(t) {
            Some(v) => v,
            None => return Err(refused(ConfigArg::WhenCreateChildren, t)),
        };
        let t = text_or(&args.depth, "8");
        let depth = match parse_u32_arg(t) {
            Some(v) => v,
            None => return Err(refused(ConfigArg::Depth, t)),
        };
        let t = text_or(&args.komi_type, "Dynamic");
        let komi_type = match UctKomiType::from_name(t) {
            Some(v) => v,
            None => return Err(refused(ConfigArg::KomiType, t)),
        };
        let t = text_or(&args.komi_min_iterations, "3000");
        let komi_min_iterations = match parse_usize_arg(t) {
            Some(v) => v,
            None => return Err(refused(ConfigArg::KomiMinIterations, t)),
        };
        let t = text_or(&args.moves_order, "TrajectoriesCount");
        let minimax_moves_sorting = match MinimaxMovesSorting::from_name(t) {
            Some(v) => v,
            None => return Err(refused(ConfigArg::MovesOrder, t)),
        };
        let threads_count = match &args.threads_count {
            Some(s) => match parse_usize_arg(s.as_str()) {
                Some(v) => v,
                None => return Err(refused(ConfigArg::ThreadsCount, s.as_str())),
            },
            None => cpus,
        };
        let t = text_or(&args.time_gap, "100");
        let time_gap = match parse_u32_arg(t) {
            Some(v) => v,
            None => return Err(refused(ConfigArg::TimeGap, t)),
        };
        let t = text_or(&args.solver, "Uct");
        let solver = match Solver::from_name(t) {
            Some(v) => v,
            None => return Err(refused(ConfigArg::Solver, t)),
        };
        Ok(
            Config {
                uct: UctConfig {
                    radius,
                    ucb_type,
                    final_ucb_type,
                    when_create_children,
                    depth,
                    komi_type,
                    komi_min_iterations,
                },
                minimax: MinimaxConfig { minimax_moves_sorting },
                bot: BotConfig { threads_count, time_gap, solver },
            },
        )
    }

    /// Reads the configuration from the command-line values; a thread count left out
    /// stands for the number of CPUs of this machine, which is at least one.
    pub fn from_cli(args: &CliValues) -> (r: Result<Config, ConfigError>)
        ensures
            exists|cpus: usize| cpus >= 1 && spec_cli_outcome(*args, cpus, r),
    {
        let cpus = available_cpus();
        Config::from_cli_values(args, cpus)
    }
}

/// Calls `num_cpus::get`, the number of logical CPUs this process may use. Its
/// documentation promises a result of at least one; nothing else is stated, as the
/// value depends on the machine.
#[verifier::external_body]
pub(crate) fn available_cpus() -> (n: usize)
    ensures
        n >= 1,
{
    num_cpus::get()
}

/// A fractional option (read by the program, as the library holds no
/// floating-point values).
#[derive(Clone, Copy, Debug, PartialEq, Eq, Structural)]
pub enum FractionalArg {
    DrawWeight,
    Uctk,
    Red,
    Green,
}

/// The option whose refused value is reported.
#[derive(Clone, Copy, Debug, PartialEq, Eq, Structural)]
pub enum Refusal {
    Fractional(FractionalArg),
    Whole(ConfigArg),
}

/// The place of a whole-number or choice option in the order the options are read.
pub open spec fn whole_place(a: ConfigArg) -> int {
    match a {
        ConfigArg::Radius => 0,
        ConfigArg::UcbType => 1,
        ConfigArg::FinalUcbType => 2,
        ConfigArg::WhenCreateChildren => 5,
        ConfigArg::Depth => 6,
        ConfigArg::KomiType => 7,
        ConfigArg::KomiMinIterations => 10,
        ConfigArg::MovesOrder => 11,
        ConfigArg::ThreadsCount => 12,
        ConfigArg::TimeGap => 13,
        ConfigArg::Solver => 14,
    }
}

/// The place of a fractional option in the order the options are read.
pub open spec fn fractional_place(f: FractionalArg) -> int {
    match f {
        FractionalArg::DrawWeight => 3,
        FractionalArg::Uctk => 4,
        FractionalArg::Red => 8,
        FractionalArg::Green => 9,
    }
}

/// The place of a refusal's option in the order the options are read.
pub open spec fn refusal_place(r: Refusal) -> int {
    match r {
        Refusal::Fractional(f) => fractional_place(f),
        Refusal::Whole(a) => whole_place(a),
    }
}

/// The option of `r` was refused: a fractional one whose text did not read as a
/// number, or the whole-number or choice option that [`Config::from_cli`] refused.
pub open spec fn is_refused(
    r: Refusal,
    draw_weight_ok: bool,
    uctk_ok: bool,
    red_ok: bool,
    green_ok: bool,
    whole: Option<ConfigArg>,
) -> bool {
    match r {
        Refusal::Fractional(FractionalArg::DrawWeight) => !draw_weight_ok,
        Refusal::Fractional(FractionalArg::Uctk) => !uctk_ok,
        Refusal::Fractional(FractionalArg::Red) => !red_ok,
        Refusal::Fractional(FractionalArg::Green) => !green_ok,
        Refusal::Whole(a) => whole == Some(a),
    }
}

fn whole_place_of(a: ConfigArg) -> (p: u32)
    ensures
        p == whole_place(a),
{
    match a {
        ConfigArg::Radius => 0,
        ConfigArg::UcbType => 1,
        ConfigArg::FinalUcbType => 2,
        ConfigArg::WhenCreateChildren => 5,
        ConfigArg::Depth => 6,
        ConfigArg::KomiType => 7,
        ConfigArg::KomiMinIterations => 10,
        ConfigArg::MovesOrder => 11,
        ConfigArg::ThreadsCount => 12,
        ConfigArg::TimeGap => 13,
        ConfigArg::Solver => 14,
    }
}

fn fractional_place_of(f: FractionalArg) -> (p: u32)
    ensures
        p == fractional_place(f),
{
    match f {
        FractionalArg::DrawWeight => 3,
        FractionalArg::Uctk => 4,
        FractionalArg::Red => 8,
        FractionalArg::Green => 9,
    }
}

/// The refusal to report, the one read first: given whether each fractional option
/// read as a number, and the option [`Config::from_cli`] refused, if any. `None`
/// where nothing was refused.
pub fn first_refusal(
    draw_weight_ok: bool,
    uctk_ok: bool,
    red_ok: bool,
    green_ok: bool,
    whole: Option<ConfigArg>,
) -> (r: Option<Refusal>)
    ensures
        match r {
            None => forall|x: Refusal| !is_refused(x, draw_weight_ok, uctk_ok, red_ok, green_ok, whole),
            Some(x) => is_refused(x, draw_weight_ok, uctk_ok, red_ok, green_ok, whole) && forall|y: Refusal|
                #[trigger] is_refused(y, draw_weight_ok, uctk_ok, red_ok, green_ok, whole) ==> refusal_place(x)
                    <= refusal_place(y),
        },
{
    let first_fractional = if !draw_weight_ok {
        Some(FractionalArg::DrawWeight)
    } else if !uctk_ok {
        Some(FractionalArg::Uctk)
    } else if !red_ok {
        Some(FractionalArg::Red)
    } else if !green_ok {
        Some(FractionalArg::Green)
    } else {
        None
    };
    match (first_fractional, whole) {
        (Some(f), Some(a)) => if fractional_place_of(f) < whole_place_of(a) {
            Some(Refusal::Fractional(f))
        } else {
            Some(Refusal::Whole(a))
        },
        (Some(f), None) => Some(Refusal::Fractional(f)),
        (None, Some(a)) => Some(Refusal::Whole(a)),
        (None, None) => None,
    }
}

// ---------------------------------------------------------------------------
// Laws
// ---------------------------------------------------------------------------

proof fn lemma_eq_ignore_case_trans(a: Seq<char>, b: Seq<char>, c: Seq<char>)
    requires
        spec_eq_ignore_ascii_case(a, b),
    ensures
        spec_eq_ignore_ascii_case(a, c) == spec_eq_ignore_ascii_case(b, c),
{
    if spec_eq_ignore_ascii_case(b, c) {
        assert forall|i: int| 0 <= i < a.len() implies crate::text::ascii_lower_code(#[trigger] a[i])
            == crate::text::ascii_lower_code(c[i]) by {
            assert(crate::text::ascii_lower_code(b[i]) == crate::text::ascii_lower_code(c[i]));
        }
    }
    if spec_eq_ignore_ascii_case(a, c) {
        assert forall|i: int| 0 <= i < b.len() implies crate::text::ascii_lower_code(#[trigger] b[i])
            == crate::text::ascii_lower_code(c[i]) by {
            assert(crate::text::ascii_lower_code(a[i]) == crate::text::ascii_lower_code(c[i]));
        }
    }
}

/// The stand-alone reader `from_str` of each kind of choice ignores the case of
/// ASCII letters: two texts equal up to that case read as the same choice. (The
/// command line does not use this reader; it takes exact names only, see
/// [`law_cli_choices_are_exact`].)
pub proof fn law_choice_ignores_ascii_case(s: Seq<char>, t: Seq<char>)
    requires
        spec_eq_ignore_ascii_case(s, t),
    ensures
        UcbType::spec_from_str(s) == UcbType::spec_from_str(t),
        UctKomiType::spec_from_str(s) == UctKomiType::spec_from_str(t),
        MinimaxMovesSorting::spec_from_str(s) == MinimaxMovesSorting::spec_from_str(t),
        Solver::spec_from_str(s) == Solver::spec_from_str(t),
{
    lemma_eq_ignore_case_trans(s, t, "Winrate"@);
    lemma_eq_ignore_case_trans(s, t, "Ucb1"@);
    lemma_eq_ignore_case_trans(s, t, "Ucb1Tuned"@);
    lemma_eq_ignore_case_trans(s, t, "None"@);
    lemma_eq_ignore_case_trans(s, t, "Static"@);
    lemma_eq_ignore_case_trans(s, t, "Dynamic"@);
    lemma_eq_ignore_case_trans(s, t, "Random"@);
    lemma_eq_ignore_case_trans(s, t, "TrajectoriesCount"@);
    lemma_eq_ignore_case_trans(s, t, "Uct"@);
    lemma_eq_ignore_case_trans(s, t, "NegaScout"@);
    lemma_eq_ignore_case_trans(s, t, "Heuristic"@);
}

/// Every choice reads back from its own name, for each kind of choice, with the
/// exact reader and with the case-ignoring one.
pub proof fn law_choice_names_read_back()
    ensures
        forall|v: UcbType| UcbType::spec_from_name(#[trigger] v.spec_name()) == Some(v),
        forall|v: UctKomiType| UctKomiType::spec_from_name(#[trigger] v.spec_name()) == Some(v),
        forall|v: MinimaxMovesSorting|
            MinimaxMovesSorting::spec_from_name(#[trigger] v.spec_name()) == Some(v),
        forall|v: Solver| Solver::spec_from_name(#[trigger] v.spec_name()) == Some(v),
        forall|v: UcbType| UcbType::spec_from_str(#[trigger] v.spec_name()) == Some(v),
        forall|v: UctKomiType| UctKomiType::spec_from_str(#[trigger] v.spec_name()) == Some(v),
        forall|v: MinimaxMovesSorting|
            MinimaxMovesSorting::spec_from_str(#[trigger] v.spec_name()) == Some(v),
        forall|v: Solver| Solver::spec_from_str(#[trigger] v.spec_name()) == Some(v),
{
    reveal_strlit("Winrate");
    reveal_strlit("Ucb1");
    reveal_strlit("Ucb1Tuned");
    reveal_strlit("None");
    reveal_strlit("Static");
    reveal_strlit("Dynamic");
    reveal_strlit("Random");
    reveal_strlit("TrajectoriesCount");
    reveal_strlit("Uct");
    reveal_strlit("NegaScout");
    reveal_strlit("Heuristic");
    assert(!spec_eq_ignore_ascii_case("Ucb1"@, "Winrate"@));
    assert(!spec_eq_ignore_ascii_case("Ucb1Tuned"@, "Winrate"@));
    assert(!spec_eq_ignore_ascii_case("Ucb1Tuned"@, "Ucb1"@));
    assert(!spec_eq_ignore_ascii_case("Static"@, "None"@));
    assert(!spec_eq_ignore_ascii_case("Dynamic"@, "None"@));
    assert(!spec_eq_ignore_ascii_case("Dynamic"@, "Static"@));
    assert(!spec_eq_ignore_ascii_case("Random"@, "None"@));
    assert(!spec_eq_ignore_ascii_case("TrajectoriesCount"@, "None"@));
    assert(!spec_eq_ignore_ascii_case("TrajectoriesCount"@, "Random"@));
    assert(!spec_eq_ignore_ascii_case("NegaScout"@, "Uct"@));
    assert(!spec_eq_ignore_ascii_case("Heuristic"@, "Uct"@));
    assert(crate::text::ascii_lower_code("Heuristic"@[0]) != crate::text::ascii_lower_code(
        "NegaScout"@[0],
    ));
    assert(!spec_eq_ignore_ascii_case("Heuristic"@, "NegaScout"@));
}

proof fn lemma_parse_literal(s: Seq<char>, v: nat)
    requires
        1 <= s.len() <= 4,
        forall|i: int| 0 <= i < s.len() ==> crate::text::is_ascii_digit(#[trigger] s[i]),
        s[0] != '+',
        crate::text::decimal_value(s) == v,
    ensures
        crate::text::spec_parse_unsigned(s) == Some(v),
{
}

/// With no option given, the command line asks for the defaults it documents: radius
/// 3, `Ucb1Tuned`, final `Winrate`, children after 2 visits, depth 8, `Dynamic` komi
/// after 3000 iterations, `TrajectoriesCount` moves order, one thread per CPU, a
/// time gap of 100 ms and the `Uct` solver.
pub proof fn law_cli_defaults(args: CliValues, cpus: usize)
    requires
        args.solver is None,
        args.time_gap is None,
        args.threads_count is None,
        args.moves_order is None,
        args.radius is None,
        args.depth is None,
        args.when_create_children is None,
        args.ucb_type is None,
        args.final_ucb_type is None,
        args.komi_type is None,
        args.komi_min_iterations is None,
    ensures
        spec_from_cli(args, cpus) == Ok::<Config, ConfigArg>(
            Config {
                uct: UctConfig {
                    radius: 3,
                    ucb_type: UcbType::Ucb1Tuned,
                    final_ucb_type: UcbType::Winrate,
                    when_create_children: 2,
                    depth: 8,
                    komi_type: UctKomiType::Dynamic,
                    komi_min_iterations: 3000,
                },
                minimax: MinimaxConfig { minimax_moves_sorting: MinimaxMovesSorting::TrajectoriesCount },
                bot: BotConfig { threads_count: cpus, time_gap: 100, solver: Solver::Uct },
            },
        ),
{
    law_choice_names_read_back();
    assert(UcbType::spec_from_str(UcbType::Ucb1Tuned.spec_name()) == Some(UcbType::Ucb1Tuned));
    assert(UcbType::spec_from_str(UcbType::Winrate.spec_name()) == Some(UcbType::Winrate));
    assert(UctKomiType::spec_from_str(UctKomiType::Dynamic.spec_name()) == Some(UctKomiType::Dynamic));
    assert(MinimaxMovesSorting::spec_from_str(MinimaxMovesSorting::TrajectoriesCount.spec_name())
        == Some(MinimaxMovesSorting::TrajectoriesCount));
    assert(Solver::spec_from_str(Solver::Uct.spec_name()) == Some(Solver::Uct));
    reveal_strlit("3");
    reveal_strlit("2");
    reveal_strlit("8");
    reveal_strlit("100");
    reveal_strlit("3000");
    reveal_with_fuel(crate::text::decimal_value, 5);
    lemma_parse_literal("3"@, 3);
    lemma_parse_literal("2"@, 2);
    lemma_parse_literal("8"@, 8);
    assert("100"@.drop_last().drop_last() =~= seq!['1']);
    lemma_parse_literal("100"@, 100);
    assert("3000"@.drop_last().drop_last().drop_last() =~= seq!['3']);
    lemma_parse_literal("3000"@, 3000);
}

/// The command line takes a choice only from exactly its name: where it gives a
/// configuration, the text of each choice option is the name of the variant chosen.
pub proof fn law_cli_choices_are_exact(args: CliValues, cpus: usize)
    requires
        spec_from_cli(args, cpus) is Ok,
    ensures
        ({
            let c = spec_from_cli(args, cpus).unwrap();
            &&& spec_arg_text(args, ConfigArg::UcbType) == c.uct.ucb_type.spec_name()
            &&& spec_arg_text(args, ConfigArg::FinalUcbType) == c.uct.final_ucb_type.spec_name()
            &&& spec_arg_text(args, ConfigArg::KomiType) == c.uct.komi_type.spec_name()
            &&& spec_arg_text(args, ConfigArg::MovesOrder) == c.minimax.minimax_moves_sorting.spec_name()
            &&& spec_arg_text(args, ConfigArg::Solver) == c.bot.solver.spec_name()
        }),
{
}

} // verus!
