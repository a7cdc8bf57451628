use oppai::config::{first_refusal, FractionalArg, Refusal};
use oppai::config::{
    final_ucb_type, minimax_moves_sorting, solver, threads_count, time_gap, ucb_type, uct_depth,
    uct_komi_min_iterations, uct_komi_type, uct_radius, uct_when_create_children, BotConfig, CliValues,
    Config, ConfigArg, MinimaxConfig, MinimaxMovesSorting, Solver, UcbType, UctConfig, UctKomiType,
};

fn no_values() -> CliValues {
    CliValues {
        solver: None,
        time_gap: None,
        threads_count: None,
        moves_order: None,
        radius: None,
        depth: None,
        when_create_children: None,
        ucb_type: None,
        final_ucb_type: None,
        komi_type: None,
        komi_min_iterations: None,
        uctk: None,
        draw_weight: None,
        red: None,
        green: None,
    }
}

#[test]
fn enum_names_and_variants() {
    assert_eq!(UcbType::variants(), ["Winrate", "Ucb1", "Ucb1Tuned"]);
    assert_eq!(UctKomiType::variants(), ["None", "Static", "Dynamic"]);
    assert_eq!(MinimaxMovesSorting::variants(), ["None", "Random", "TrajectoriesCount"]);
    assert_eq!(Solver::variants(), ["Uct", "NegaScout", "Heuristic"]);
    assert_eq!(UcbType::Ucb1Tuned.name(), "Ucb1Tuned");
    assert_eq!(UctKomiType::NoKomi.name(), "None");
    assert_eq!(MinimaxMovesSorting::NoSorting.name(), "None");
    assert_eq!(Solver::NegaScout.name(), "NegaScout");
}

#[test]
fn enum_from_str_exact_and_ignoring_case() {
    assert_eq!(UcbType::from_str("Winrate"), Ok(UcbType::Winrate));
    assert_eq!(UcbType::from_str("ucb1"), Ok(UcbType::Ucb1));
    assert_eq!(UcbType::from_str("UCB1TUNED"), Ok(UcbType::Ucb1Tuned));
    assert_eq!(UctKomiType::from_str("none"), Ok(UctKomiType::NoKomi));
    assert_eq!(UctKomiType::from_str("dynamic"), Ok(UctKomiType::Dynamic));
    assert_eq!(MinimaxMovesSorting::from_str("trajectoriesCOUNT"), Ok(MinimaxMovesSorting::TrajectoriesCount));
    assert_eq!(Solver::from_str("heuristic"), Ok(Solver::Heuristic));
    for v in [UcbType::Winrate, UcbType::Ucb1, UcbType::Ucb1Tuned] {
        assert_eq!(UcbType::from_str(v.name()), Ok(v));
    }
}

#[test]
fn enum_from_str_errors() {
    assert_eq!(UcbType::from_str("Ucb2"), Err("valid values: Winrate, Ucb1, Ucb1Tuned".to_string()));
    assert_eq!(UcbType::from_str(""), Err("valid values: Winrate, Ucb1, Ucb1Tuned".to_string()));
    assert_eq!(UcbType::from_str(" Ucb1"), Err("valid values: Winrate, Ucb1, Ucb1Tuned".to_string()));
    assert_eq!(UctKomiType::from_str("off"), Err("valid values: None, Static, Dynamic".to_string()));
    assert_eq!(
        MinimaxMovesSorting::from_str("x"),
        Err("valid values: None, Random, TrajectoriesCount".to_string())
    );
    assert_eq!(Solver::from_str("Ucté"), Err("valid values: Uct, NegaScout, Heuristic".to_string()));
}

#[test]
fn default_config_values() {
    let c = Config::default();
    assert_eq!(
        c,
        Config {
            uct: UctConfig {
                radius: 3,
                ucb_type: UcbType::Ucb1Tuned,
                final_ucb_type: UcbType::Winrate,
                when_create_children: 2,
                depth: 8,
                komi_type: UctKomiType::Dynamic,
                komi_min_iterations: 3000,
            },
            minimax: MinimaxConfig { minimax_moves_sorting: MinimaxMovesSorting::Random },
            bot: BotConfig { threads_count: 4, time_gap: 100, solver: Solver::Uct },
        }
    );
}

#[test]
fn getters_read_the_config() {
    let c = Config::default();
    assert_eq!(uct_radius(&c), 3);
    assert_eq!(ucb_type(&c), UcbType::Ucb1Tuned);
    assert_eq!(final_ucb_type(&c), UcbType::Winrate);
    assert_eq!(uct_when_create_children(&c), 2);
    assert_eq!(uct_depth(&c), 8);
    assert_eq!(threads_count(&c), 4);
    assert_eq!(uct_komi_type(&c), UctKomiType::Dynamic);
    assert_eq!(uct_komi_min_iterations(&c), 3000);
    assert_eq!(minimax_moves_sorting(&c), MinimaxMovesSorting::Random);
    assert_eq!(time_gap(&c), 100);
    assert_eq!(solver(&c), Solver::Uct);
}

#[test]
fn cli_defaults_use_cpus_and_trajectories() {
    let c = Config::from_cli_values(&no_values(), 6).unwrap();
    assert_eq!(c.bot.threads_count, 6);
    assert_eq!(c.minimax.minimax_moves_sorting, MinimaxMovesSorting::TrajectoriesCount);
    assert_eq!(c.uct.radius, 3);
    assert_eq!(c.uct.depth, 8);
    assert_eq!(c.uct.when_create_children, 2);
    assert_eq!(c.uct.komi_min_iterations, 3000);
    assert_eq!(c.uct.komi_type, UctKomiType::Dynamic);
    assert_eq!(c.bot.time_gap, 100);
    assert_eq!(c.bot.solver, Solver::Uct);
}

#[test]
fn cli_from_system_cpus() {
    let c = Config::from_cli(&no_values()).unwrap();
    assert!(c.bot.threads_count >= 1);
}

#[test]
fn cli_given_values() {
    let mut v = no_values();
    v.radius = Some("+5".to_string());
    v.depth = Some("0012".to_string());
    v.threads_count = Some("3".to_string());
    v.time_gap = Some("4294967295".to_string());
    v.solver = Some("NegaScout".to_string());
    v.ucb_type = Some("Winrate".to_string());
    v.moves_order = Some("None".to_string());
    v.komi_type = Some("Static".to_string());
    let c = Config::from_cli_values(&v, 8).unwrap();
    assert_eq!(c.uct.radius, 5);
    assert_eq!(c.uct.depth, 12);
    assert_eq!(c.bot.threads_count, 3);
    assert_eq!(c.bot.time_gap, u32::MAX);
    assert_eq!(c.bot.solver, Solver::NegaScout);
    assert_eq!(c.uct.ucb_type, UcbType::Winrate);
    assert_eq!(c.minimax.minimax_moves_sorting, MinimaxMovesSorting::NoSorting);
    assert_eq!(c.uct.komi_type, UctKomiType::Static);
}

#[test]
fn cli_refused_values() {
    let mut v = no_values();
    v.time_gap = Some("4294967296".to_string());
    let e = Config::from_cli_values(&v, 1).unwrap_err();
    assert_eq!(e.arg, ConfigArg::TimeGap);
    assert_eq!(e.value, "4294967296");
    assert_eq!(e.message(), "The argument '4294967296' isn't a valid value");

    for bad in ["-5", "+", "", " 5", "5 ", "1e3", "٣"] {
        let mut v = no_values();
        v.radius = Some(bad.to_string());
        let e = Config::from_cli_values(&v, 1).unwrap_err();
        assert_eq!(e.arg, ConfigArg::Radius);
        assert_eq!(e.value, bad);
    }

    let mut v = no_values();
    v.threads_count = Some("many".to_string());
    assert_eq!(Config::from_cli_values(&v, 2).unwrap_err().arg, ConfigArg::ThreadsCount);

    let mut v = no_values();
    v.final_ucb_type = Some("best".to_string());
    assert_eq!(Config::from_cli_values(&v, 2).unwrap_err().arg, ConfigArg::FinalUcbType);

    let mut v = no_values();
    v.komi_min_iterations = Some("18446744073709551616".to_string());
    assert_eq!(Config::from_cli_values(&v, 2).unwrap_err().arg, ConfigArg::KomiMinIterations);
}

#[test]
fn cli_first_refused_value_is_reported() {
    let mut v = no_values();
    v.solver = Some("x".to_string());
    v.depth = Some("y".to_string());
    v.radius = Some("z".to_string());
    let e = Config::from_cli_values(&v, 2).unwrap_err();
    assert_eq!(e.arg, ConfigArg::Radius);
    v.radius = None;
    assert_eq!(Config::from_cli_values(&v, 2).unwrap_err().arg, ConfigArg::Depth);
    v.depth = None;
    assert_eq!(Config::from_cli_values(&v, 2).unwrap_err().arg, ConfigArg::Solver);
}

#[test]
fn cli_defaults_given_explicitly_read_the_same() {
    let v = CliValues {
        solver: Some("Uct".to_string()),
        time_gap: Some("100".to_string()),
        threads_count: Some("6".to_string()),
        moves_order: Some("TrajectoriesCount".to_string()),
        radius: Some("3".to_string()),
        depth: Some("8".to_string()),
        when_create_children: Some("2".to_string()),
        ucb_type: Some("Ucb1Tuned".to_string()),
        final_ucb_type: Some("Winrate".to_string()),
        komi_type: Some("Dynamic".to_string()),
        komi_min_iterations: Some("3000".to_string()),
        uctk: Some("1.0".to_string()),
        draw_weight: Some("0.4".to_string()),
        red: Some("0.45".to_string()),
        green: Some("0.5".to_string()),
    };
    assert_eq!(Config::from_cli_values(&v, 1).unwrap(), Config::from_cli_values(&no_values(), 6).unwrap());
}

#[test]
fn cli_values_take_exact_choice_names_only() {
    let mut v = no_values();
    v.solver = Some("uct".to_string());
    let e = Config::from_cli_values(&v, 2).unwrap_err();
    assert_eq!(e.arg, ConfigArg::Solver);
    assert_eq!(e.value, "uct");
    let mut v = no_values();
    v.ucb_type = Some("ucb1".to_string());
    assert_eq!(Config::from_cli_values(&v, 2).unwrap_err().arg, ConfigArg::UcbType);
    assert_eq!(Solver::from_name("Uct"), Some(Solver::Uct));
    assert_eq!(Solver::from_name("uct"), None);
    assert_eq!(UctKomiType::from_name("None"), Some(UctKomiType::NoKomi));
    assert_eq!(MinimaxMovesSorting::from_name("none"), None);
}

#[test]
fn first_refusal_is_the_one_read_first() {
    assert_eq!(first_refusal(true, true, true, true, None), None);
    assert_eq!(
        first_refusal(false, true, false, true, Some(ConfigArg::Depth)),
        Some(Refusal::Fractional(FractionalArg::DrawWeight))
    );
    assert_eq!(
        first_refusal(false, true, true, true, Some(ConfigArg::FinalUcbType)),
        Some(Refusal::Whole(ConfigArg::FinalUcbType))
    );
    assert_eq!(
        first_refusal(true, true, false, false, Some(ConfigArg::Depth)),
        Some(Refusal::Whole(ConfigArg::Depth))
    );
    assert_eq!(
        first_refusal(true, true, false, true, Some(ConfigArg::Solver)),
        Some(Refusal::Fractional(FractionalArg::Red))
    );
    assert_eq!(first_refusal(true, true, true, false, None), Some(Refusal::Fractional(FractionalArg::Green)));
}
