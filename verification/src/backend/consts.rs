//! Names and defaults shared by the back end.

use vstd::prelude::*;

verus! {

/// The default content of the basic clash configuration file.
pub const DEFAULT_BASIC_CLASH_CFG_CONTENT: &'static str =
    "mixed-port: 7890\nmode: rule\nlog-level: info\nexternal-controller: 127.0.0.1:9090";

/// The file name of the basic clash configuration.
pub const BASIC_FILE: &'static str = "basic_clash_config.yaml";

/// The address of the local host.
pub const HOST: &'static str = "127.0.0.1";

/// The file name of the application configuration.
pub const CONFIG_FILE: &'static str = "config.yaml";

/// The file name of the application data.
pub const DATA_FILE: &'static str = "clashtui.conf";

/// The temporary path of a generated mihomo configuration.
pub const TMP_PATH: &'static str = "/tmp/clashtui_mihomo_config_file.tmp";

/// The message of an error on a path that is not UTF-8.
pub const ERR_PATH_UTF_8: &'static str = "path is not utf-8 form";

} // verus!
