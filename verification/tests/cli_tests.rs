use clap::ErrorKind;
use oppai::cli::{cli_values_from_args, cli_values_from_args_with_cpus, cli_values_from_matches};
use oppai::config::{Config, MinimaxMovesSorting, Solver, UcbType};

fn argv(a: &[&str]) -> Vec<String> {
    a.iter().map(|s| s.to_string()).collect()
}

#[test]
fn no_arguments_give_the_defaults() {
    let v = cli_values_from_args_with_cpus(&argv(&["oppai"]), 7).ok().unwrap();
    assert_eq!(v.solver.as_deref(), Some("Uct"));
    assert_eq!(v.time_gap.as_deref(), Some("100"));
    assert_eq!(v.threads_count.as_deref(), Some("7"));
    assert_eq!(v.moves_order.as_deref(), Some("TrajectoriesCount"));
    assert_eq!(v.radius.as_deref(), Some("3"));
    assert_eq!(v.depth.as_deref(), Some("8"));
    assert_eq!(v.when_create_children.as_deref(), Some("2"));
    assert_eq!(v.ucb_type.as_deref(), Some("Ucb1Tuned"));
    assert_eq!(v.final_ucb_type.as_deref(), Some("Winrate"));
    assert_eq!(v.uctk.as_deref(), Some("1.0"));
    assert_eq!(v.draw_weight.as_deref(), Some("0.4"));
    assert_eq!(v.red.as_deref(), Some("0.45"));
    assert_eq!(v.green.as_deref(), Some("0.5"));
    assert_eq!(v.komi_type.as_deref(), Some("Dynamic"));
    assert_eq!(v.komi_min_iterations.as_deref(), Some("3000"));
    let c = Config::from_cli_values(&v, 1).unwrap();
    assert_eq!(c.bot.threads_count, 7);
    assert_eq!(c.minimax.minimax_moves_sorting, MinimaxMovesSorting::TrajectoriesCount);
    assert_eq!(c.uct.ucb_type, UcbType::Ucb1Tuned);
}

#[test]
fn bot_options_are_read() {
    let v = cli_values_from_args_with_cpus(&argv(&["oppai", "-s", "NegaScout", "-g", "5", "-t", "2"]), 3).ok().unwrap();
    assert_eq!(v.solver.as_deref(), Some("NegaScout"));
    assert_eq!(v.time_gap.as_deref(), Some("5"));
    assert_eq!(v.threads_count.as_deref(), Some("2"));
    let v = cli_values_from_args_with_cpus(&argv(&["oppai", "--solver=Heuristic", "-g5", "--threads-count", "12"]), 3)
        .ok()
        .unwrap();
    let c = Config::from_cli_values(&v, 1).unwrap();
    assert_eq!(c.bot.solver, Solver::Heuristic);
    assert_eq!(c.bot.time_gap, 5);
    assert_eq!(c.bot.threads_count, 12);
}

#[test]
fn option_without_value_at_the_end_takes_its_default() {
    let v = cli_values_from_args_with_cpus(&argv(&["oppai", "-t"]), 9).ok().unwrap();
    assert_eq!(v.threads_count.as_deref(), Some("9"));
}

fn refusal(args: &[&str]) -> ErrorKind {
    match cli_values_from_args_with_cpus(&argv(args), 2) {
        Err(e) => e.kind,
        Ok(_) => panic!("expected a refusal"),
    }
}

#[test]
fn wrong_case_or_unknown_choice_is_refused() {
    assert_eq!(refusal(&["oppai", "-s", "uct"]), ErrorKind::InvalidValue);
    assert_eq!(refusal(&["oppai", "--solver", "Minimax"]), ErrorKind::InvalidValue);
}

#[test]
fn negascout_group_options_conflict() {
    assert_eq!(refusal(&["oppai", "--radius", "5"]), ErrorKind::ArgumentConflict);
    assert_eq!(refusal(&["oppai", "--radius", "5", "--depth", "9"]), ErrorKind::ArgumentConflict);
    assert_eq!(refusal(&["oppai", "--komi-type", "static"]), ErrorKind::ArgumentConflict);
    assert_eq!(refusal(&["oppai", "--uctk", "2.0"]), ErrorKind::ArgumentConflict);
    assert_eq!(refusal(&["oppai", "--moves-order", "None"]), ErrorKind::ArgumentConflict);
}

#[test]
fn refusals_come_in_clap_order() {
    assert_eq!(refusal(&["oppai", "--radius", "1", "--radius", "2"]), ErrorKind::ArgumentConflict);
    assert_eq!(refusal(&["oppai", "--solver", "x", "--solver", "y"]), ErrorKind::InvalidValue);
    assert_eq!(refusal(&["oppai", "-g", "1", "-g", "2"]), ErrorKind::UnexpectedMultipleUsage);
}

#[test]
fn clap_refusals_and_help() {
    assert_eq!(refusal(&["oppai", "x"]), ErrorKind::UnknownArgument);
    assert_eq!(refusal(&["oppai", "--help"]), ErrorKind::HelpDisplayed);
    assert_eq!(refusal(&["oppai", "-V"]), ErrorKind::VersionDisplayed);
    assert_eq!(refusal(&["oppai", "--time-gap", "-5"]), ErrorKind::UnknownArgument);
    assert_eq!(refusal(&["oppai", "--unknown", "1"]), ErrorKind::UnknownArgument);
}

#[test]
fn cli_values_from_matches_reads_each_option() {
    let mut ms: Vec<(Option<String>, u64)> = (0..15).map(|i| (Some(format!("v{}", i)), 0)).collect();
    ms[2] = (None, 0);
    let v = cli_values_from_matches(&ms);
    assert_eq!(v.solver.as_deref(), Some("v0"));
    assert_eq!(v.time_gap.as_deref(), Some("v1"));
    assert_eq!(v.threads_count, None);
    assert_eq!(v.moves_order.as_deref(), Some("v3"));
    assert_eq!(v.uctk.as_deref(), Some("v9"));
    assert_eq!(v.komi_min_iterations.as_deref(), Some("v14"));
}

#[test]
fn machine_cpus_are_the_default_thread_count() {
    let v = cli_values_from_args(&argv(&["oppai"])).ok().unwrap();
    let c = Config::from_cli_values(&v, 1).unwrap();
    assert!(c.bot.threads_count >= 1);
}
