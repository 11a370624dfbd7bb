use wallgen::Gradiant;
use wallgen::cli::Cli;
use wallgen::cli::Commands;
use wallgen::cli::FillArgs;
use wallgen::cli::GenerateArgs;
use wallgen::cli::RunArgs;

#[test]
fn effective_gradiant_prefers_the_flag() {
    let args = RunArgs {
        image: String::from("wall.png"),
        config: None,
        gradiant: Some(Gradiant::Pastel),
        size: None,
    };
    assert_eq!(args.effective_gradiant(Gradiant::Mono), Gradiant::Pastel);
}

#[test]
fn effective_gradiant_falls_back_to_config() {
    let args = RunArgs {
        image: String::from("wall.png"),
        config: None,
        gradiant: None,
        size: Some(128),
    };
    assert_eq!(args.effective_gradiant(Gradiant::Vibrant), Gradiant::Vibrant);
}

#[test]
fn command_data_round_trips() {
    let cli = Cli {
        command: Commands::Generate(GenerateArgs {
            path: String::from("wall.png"),
            size: None,
            gradiant: Gradiant::Auto,
            output: String::from("./colors.toml"),
        }),
    };
    match cli.command {
        Commands::Generate(args) => {
            assert_eq!(args.path, "wall.png");
            assert_eq!(args.output, "./colors.toml");
        },
        _ => unreachable!(),
    }
    let fill = FillArgs {
        template: Some(String::from("tmpl.conf")),
        palette: String::from("colors.toml"),
        output: None,
    };
    assert_eq!(fill.palette, "colors.toml");
}
