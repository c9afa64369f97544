//! Service definitions: the systemd unit and the launchd property list.
use vstd::prelude::*;

use crate::geoip::{path_join, path_push};
use crate::text::push_str;

verus! {

/// Where the systemd unit is installed.
pub const UNIT_PATH: &'static str = "/etc/systemd/system/atlasip.service";

/// The launchd label of the service.
pub const LABEL: &'static str = "com.atlasip.service";

/// The text of the unit before the executable path.
pub const UNIT_HEAD: &'static str = "[Unit]\nDescription=AtlasIP headless backend service\nDocumentation=https://github.com/Absol3m/atlasip\nAfter=network-online.target\nWants=network-online.target\n\n[Service]\nType=simple\nExecStart=";

/// The text of the unit after the executable path.
pub const UNIT_TAIL: &'static str = " serve\nRestart=always\nRestartSec=5\n# Never expose the API beyond localhost.\n# The --headless flag is handled via config; `serve` binds 127.0.0.1 only.\nEnvironment=RUST_LOG=atlasip=info\nStandardOutput=journal\nStandardError=journal\nSyslogIdentifier=atlasip\n\n# Hardening\nNoNewPrivileges=true\nPrivateTmp=true\nProtectSystem=strict\nProtectHome=read-only\nReadWritePaths=/etc/atlasip /var/lib/atlasip\n\n[Install]\nWantedBy=multi-user.target\n";

/// The property list before the executable path.
pub const PLIST_HEAD: &'static str = "<?xml version=\"1.0\" encoding=\"UTF-8\"?>\n<!DOCTYPE plist PUBLIC \"-//Apple//DTD PLIST 1.0//EN\"\n  \"http://www.apple.com/DTDs/PropertyList-1.0.dtd\">\n<plist version=\"1.0\">\n<dict>\n    <key>Label</key>\n    <string>com.atlasip.service</string>\n\n    <key>ProgramArguments</key>\n    <array>\n        <string>";

/// The property list between the executable path and the user key.
pub const PLIST_MID: &'static str = "</string>\n        <string>serve</string>\n    </array>\n\n    <!-- Keep the service alive if it crashes. -->\n    <key>KeepAlive</key>\n    <true/>\n\n    <!-- Start at boot / login. -->\n    <key>RunAtLoad</key>\n    <true/>\n\n    <!-- Logging -->\n    <key>StandardOutPath</key>\n    <string>/var/log/atlasip.log</string>\n    <key>StandardErrorPath</key>\n    <string>/var/log/atlasip.error.log</string>\n\n    <!-- Environment -->\n    <key>EnvironmentVariables</key>\n    <dict>\n        <key>RUST_LOG</key>\n        <string>atlasip=info</string>\n    </dict>\n";

/// The user key of a system daemon (which runs as `nobody`).
pub const PLIST_USER: &'static str = "    <key>UserName</key>\n    <string>nobody</string>\n";

/// The end of the property list.
pub const PLIST_TAIL: &'static str = "\n    <!-- Throttle rapid restarts (seconds). -->\n    <key>ThrottleInterval</key>\n    <integer>10</integer>\n</dict>\n</plist>\n";

/// Generates the systemd unit file, which runs `<exe_path> serve`.
pub fn generate_unit_file(exe_path: &str) -> (r: String)
    ensures
        r@ == UNIT_HEAD@ + exe_path@ + UNIT_TAIL@,
{
    let mut s = UNIT_HEAD.to_string();
    push_str(&mut s, exe_path);
    push_str(&mut s, UNIT_TAIL);
    s
}

/// Generates the launchd property list, which runs `<exe_path> serve`; a
/// system daemon (`user_mode` false) runs as `nobody`.
pub fn generate_plist(exe_path: &str, user_mode: bool) -> (r: String)
    ensures
        r@ == PLIST_HEAD@ + exe_path@ + PLIST_MID@ + (if user_mode {
            Seq::<char>::empty()
        } else {
            PLIST_USER@
        }) + PLIST_TAIL@,
{
    let mut s = PLIST_HEAD.to_string();
    push_str(&mut s, exe_path);
    push_str(&mut s, PLIST_MID);
    if !user_mode {
        push_str(&mut s, PLIST_USER);
    }
    push_str(&mut s, PLIST_TAIL);
    proof {
        if user_mode {
            assert(PLIST_HEAD@ + exe_path@ + PLIST_MID@ + Seq::<char>::empty() =~= PLIST_HEAD@ + exe_path@ + PLIST_MID@);
        }
    }
    s
}

/// Why a service definition could not be placed.
#[derive(Clone, Copy, PartialEq, Eq, Structural, Debug)]
pub enum ServiceError {
    /// `$HOME` is not set, so the LaunchAgents directory is unknown.
    HomeNotSet,
}

/// Where the property list goes: the user's LaunchAgents directory for a
/// user agent, `/Library/LaunchDaemons` for a system daemon. `home` is the
/// value of `$HOME` (absent when unset).
pub fn plist_path(user_mode: bool, home: Option<&str>) -> (r: Result<String, ServiceError>)
    ensures
        user_mode ==> match home {
            Some(h) => r matches Ok(p) && p@ == path_join(
                path_join(h@, "Library/LaunchAgents"@),
                "com.atlasip.service.plist"@,
            ),
            None => r matches Err(ServiceError::HomeNotSet),
        },
        !user_mode ==> (r matches Ok(p) && p@ == path_join(
            "/Library/LaunchDaemons"@,
            "com.atlasip.service.plist"@,
        )),
{
    let mut file = LABEL.to_string();
    push_str(&mut file, ".plist");
    proof {
        reveal_strlit("com.atlasip.service");
        reveal_strlit(".plist");
        reveal_strlit("com.atlasip.service.plist");
        assert(file@ =~= "com.atlasip.service.plist"@);
    }
    if user_mode {
        match home {
            Some(h) => {
                let mut p = h.to_string();
                path_push(&mut p, "Library/LaunchAgents");
                path_push(&mut p, file.as_str());
                Ok(p)
            },
            None => Err(ServiceError::HomeNotSet),
        }
    } else {
        let mut p = "/Library/LaunchDaemons".to_string();
        path_push(&mut p, file.as_str());
        Ok(p)
    }
}

} // verus!
