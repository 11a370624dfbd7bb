//! The command surface, as plain data: what each command needs to run.
//! Argument parsing and the commands' I/O live with the caller.

use vstd::prelude::*;

use crate::gradiant::Gradiant;

verus! {

/// The command line: one command per invocation.
#[derive(Debug)]
pub struct Cli {
    /// Wallgen command.
    pub command: Commands,
}

/// The supported commands.
#[derive(Debug)]
pub enum Commands {
    /// Generate a palette from an image and apply it.
    Run(RunArgs),
    /// Render a palette definition to a template.
    Fill(FillArgs),
    /// Generate a new color palette.
    Generate(GenerateArgs),
}

/// Arguments of the run command.
#[derive(Debug)]
pub struct RunArgs {
    /// Image to analyze, or an already derived palette file.
    pub image: String,
    /// Configuration source.
    pub config: Option<String>,
    /// Default gradiant to use.
    pub gradiant: Option<Gradiant>,
    /// Shrink image to dimension before analysis.
    pub size: Option<u32>,
}

/// Arguments of the fill command.
#[derive(Debug)]
pub struct FillArgs {
    /// Template to render.
    pub template: Option<String>,
    /// Palette definition used to render the template.
    pub palette: String,
    /// Output destination.
    pub output: Option<String>,
}

/// Arguments of the generate command.
#[derive(Debug)]
pub struct GenerateArgs {
    /// Filepath of the wallpaper.
    pub path: String,
    /// Shrink image to dimension before analysis.
    pub size: Option<u32>,
    /// Color palette assignment.
    pub gradiant: Gradiant,
    /// Output for the palette.
    pub output: String,
}

impl RunArgs {
    /// The gradiant a run works with: the one given on the command line,
    /// or the configuration's default.
    pub fn effective_gradiant(&self, config_default: Gradiant) -> (g: Gradiant)
        ensures
            g == (match self.gradiant {
                Some(chosen) => chosen,
                None => config_default,
            }),
    {
        match &self.gradiant {
            Some(chosen) => *chosen,
            None => config_default,
        }
    }
}

} // verus!
