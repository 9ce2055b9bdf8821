use warp_parse::gen_cli::{Cmd, ConfCmd, SampleRunOpts};
use warp_parse::proj_cli::{CommonFiltArgs, DataCmd, DataValidateArgs, WProj, WProjCli};

#[test]
fn sample_run_opts_bundle_their_fields() {
    let opts = SampleRunOpts::new(true, Some(100), None, 2);
    assert!(opts.print_stat);
    assert_eq!(opts.line_cnt, Some(100));
    assert_eq!(opts.gen_speed, None);
    assert_eq!(opts.stat_sec, 2);
}

#[test]
fn generator_commands_carry_their_arguments() {
    let cmd = Cmd::Rule {
        work_root: String::from("."),
        wpl_dir: None,
        conf_name: String::from("wpgen.toml"),
        stat_print: false,
        line_cnt: None,
        gen_speed: Some(10),
        stat_sec: 1,
    };
    match cmd {
        Cmd::Rule { work_root, conf_name, gen_speed, .. } => {
            assert_eq!(work_root, ".");
            assert_eq!(conf_name, "wpgen.toml");
            assert_eq!(gen_speed, Some(10));
        }
        _ => panic!("expected the rule command"),
    }
    match (ConfCmd::Check { work_root: String::from("/w") }) {
        ConfCmd::Check { work_root } => assert_eq!(work_root, "/w"),
        _ => panic!("expected the check command"),
    }
}

#[test]
fn project_cli_nests_its_subcommands() {
    let cli = WProjCli {
        quiet: false,
        cmd: WProj::Data(DataCmd::Validate(DataValidateArgs {
            work_root: String::from("."),
            input_cnt: Some(1000),
        })),
    };
    match cli.cmd {
        WProj::Data(DataCmd::Validate(args)) => {
            assert_eq!(args.work_root, ".");
            assert_eq!(args.input_cnt, Some(1000));
        }
        _ => panic!("expected the data validate command"),
    }
    let filt = CommonFiltArgs {
        work_root: String::from("."),
        group_names: vec![String::from("g")],
        sink_names: Vec::new(),
        path_like: None,
        json: true,
    };
    assert_eq!(filt.group_names.len(), 1);
}
