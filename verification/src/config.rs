use vstd::prelude::*;

verus! {

/// Which kind of input device a controller-port configuration binds.
#[derive(Clone, Copy, Debug, PartialEq, Eq, Structural)]
pub enum ControllerType {
    Controller,
    Keyboard,
}

/// The path of the configuration file: an explicitly given path is used
/// as is; otherwise the file `neso-gui/neso-gui.toml` under the given
/// configuration home directory.
pub fn get_config_path(config_path_opt: Option<String>, config_home: String) -> (path: String)
    ensures
        config_path_opt matches Some(p) ==> path@ == p@,
        config_path_opt is None ==> path@ == config_home@ + "/neso-gui/neso-gui.toml"@,
{
    match config_path_opt {
        Option::Some(p) => p,
        Option::None => config_home.concat("/neso-gui/neso-gui.toml"),
    }
}

/// The default directory for program data: `neso-gui` under the given
/// data home directory.
pub fn get_default_data_path(data_home: String) -> (path: String)
    ensures
        path@ == data_home@ + "/neso-gui"@,
{
    data_home.concat("/neso-gui")
}

} // verus!
