use vstd::prelude::*;

verus! {

/// Command-line arguments of the screencasting program.
pub struct CliArgs {
    /// The URL of the website to screencast
    pub url: String,
    /// The address of the target flaschentaschen server, e.g. localhost:1337
    pub ft_endpoint: String,
    /// The width of the LED screen (in pixels)
    pub screen_width: u32,
    /// The height of the LED screen (in pixels)
    pub screen_height: u32,
    /// The level of verbosity
    pub verbosity: u64,
}

} // verus!
