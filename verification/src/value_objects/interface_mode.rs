use vstd::prelude::*;

verus! {

/// How the program talks to its user: a terminal interface or plain
/// command-line output.
#[derive(Debug, Clone, Copy, Default, PartialEq, Eq, Structural)]
pub enum InterfaceMode {
    #[default]
    Tui,
    Cli,
}

} // verus!
