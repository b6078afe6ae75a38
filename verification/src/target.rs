//! Which ssh session, and which remote directory, a pane talks to.
//!
//! The file browser, drops, and one-key downloads all need the same answer.

use crate::overlay::{ConfigModel, SftpOverlayConfig};
use crate::paths::{home_dir, opt};
use crate::text::same;
use crate::types::SftpPalette;
use vstd::prelude::*;
use vstd::string::*;

verus! {

/// How the remote side of a pane is reached.
#[derive(Debug)]
pub struct RemoteTarget {
    /// Handle of a live, authenticated session, when one exists.
    pub session: Option<u64>,
    /// `user@host` (or the domain label) for messages.
    pub label: String,
    /// Directory to land in: the remote shell's reported one when there is
    /// one, otherwise the remote home (resolved by the caller).
    pub cwd: Option<String>,
    /// Target to dial when there is no live session yet.
    pub connect_target: Option<String>,
    /// Target to redial when a pooled session dies mid-session.
    pub reconnect_target: Option<String>,
}

/// A target, with its texts as characters.
pub struct TargetModel {
    pub session: Option<u64>,
    pub label: Seq<char>,
    pub cwd: Option<Seq<char>>,
    pub connect_target: Option<Seq<char>>,
    pub reconnect_target: Option<Seq<char>>,
}

impl View for RemoteTarget {
    type V = TargetModel;

    open spec fn view(&self) -> TargetModel {
        TargetModel {
            session: self.session,
            label: self.label@,
            cwd: opt(self.cwd),
            connect_target: opt(self.connect_target),
            reconnect_target: opt(self.reconnect_target),
        }
    }
}

/// A session with its label, as characters.
pub open spec fn labeled(s: Option<(u64, String)>) -> Option<(u64, Seq<char>)> {
    match s {
        Some((id, label)) => Some((id, label@)),
        None => None,
    }
}

/// How the remote side is reached: over the session of the pane's own
/// domain, else over this app run's pooled session for the login the pane's
/// ssh command names, else over a live domain session for the same host,
/// else by dialing that login. A pane with none of these is local.
pub open spec fn resolved(
    domain: Option<(u64, Seq<char>)>,
    login: Option<Seq<char>>,
    pooled: Option<u64>,
    live: Option<(u64, Seq<char>)>,
    cwd: Option<Seq<char>>,
) -> Option<TargetModel> {
    match (domain, login) {
        (Some((session, label)), _) => Some(
            TargetModel {
                session: Some(session),
                label,
                cwd,
                connect_target: None,
                reconnect_target: None,
            },
        ),
        (None, None) => None,
        (None, Some(target)) => match (pooled, live) {
            (Some(session), _) => Some(
                TargetModel {
                    session: Some(session),
                    label: target,
                    cwd,
                    connect_target: None,
                    reconnect_target: Some(target),
                },
            ),
            (None, Some((session, label))) => Some(
                TargetModel {
                    session: Some(session),
                    label,
                    cwd,
                    connect_target: None,
                    reconnect_target: None,
                },
            ),
            (None, None) => Some(
                TargetModel {
                    session: None,
                    label: target,
                    cwd,
                    connect_target: Some(target),
                    reconnect_target: Some(target),
                },
            ),
        },
    }
}

/// Resolve the remote side of a pane; None when the pane is local.
pub fn resolve(
    domain: Option<(u64, String)>,
    login: Option<String>,
    pooled: Option<u64>,
    live: Option<(u64, String)>,
    cwd: Option<String>,
) -> (r: Option<RemoteTarget>)
    ensures
        match (r, resolved(labeled(domain), opt(login), pooled, labeled(live), opt(cwd))) {
            (Some(a), Some(b)) => a@ == b,
            (None, None) => true,
            _ => false,
        },
{
    if let Some((session, label)) = domain {
        return Some(
            RemoteTarget {
                session: Some(session),
                label,
                cwd,
                connect_target: None,
                reconnect_target: None,
            },
        );
    }
    let target = match login {
        Some(target) => target,
        None => return None,
    };
    if let Some(session) = pooled {
        // Keep the target so a dead pooled session can be redialed.
        return Some(
            RemoteTarget {
                session: Some(session),
                label: target.clone(),
                cwd,
                connect_target: None,
                reconnect_target: Some(target),
            },
        );
    }
    if let Some((session, label)) = live {
        return Some(
            RemoteTarget {
                session: Some(session),
                label,
                cwd,
                connect_target: None,
                reconnect_target: None,
            },
        );
    }
    Some(
        RemoteTarget {
            session: None,
            label: target.clone(),
            cwd,
            connect_target: Some(target.clone()),
            reconnect_target: Some(target),
        },
    )
}

/// A working directory as a shell reports it.
#[derive(Debug)]
pub struct ReportedDir {
    pub scheme: String,
    /// The host it names is this machine.
    pub local: bool,
    pub path: String,
}

/// The directory is a path on another machine, or, with `here`, on this one.
pub open spec fn on_side(d: ReportedDir, here: bool) -> bool {
    d.scheme@ == "file"@ && d.local == here
}

/// Remote working directory reported by the shell in a pane, when it is a
/// path on another machine. A local path means either the pane is local or
/// the remote shell never reported one, so there is nothing to trust.
pub fn remote_cwd(reported: &Option<ReportedDir>) -> (r: Option<String>)
    ensures
        opt(r) == match *reported {
            Some(d) => if on_side(d, false) {
                Some(d.path@)
            } else {
                None
            },
            None => None,
        },
{
    match reported {
        Some(d) => if same(d.scheme.as_str(), "file") && !d.local {
            Some(d.path.clone())
        } else {
            None
        },
        None => None,
    }
}

/// Where the local panel starts, for a home directory.
pub open spec fn local_start(reported: Option<ReportedDir>, home: Option<Seq<char>>) -> Seq<char> {
    let fallback = match home {
        Some(h) => h,
        None => "/"@,
    };
    match reported {
        Some(d) => if on_side(d, true) {
            d.path@
        } else {
            fallback
        },
        None => fallback,
    }
}

/// Where the local panel starts, for a home directory.
pub fn local_panel_path_from(reported: &Option<ReportedDir>, home: Option<String>) -> (r: String)
    ensures
        r@ == local_start(*reported, opt(home)),
{
    if let Some(d) = reported {
        if same(d.scheme.as_str(), "file") && d.local {
            return d.path.clone();
        }
    }
    match home {
        Some(h) => h,
        None => "/".to_owned(),
    }
}

/// Local panel start directory: the pane's directory when it is on this
/// machine, otherwise the user's home.
pub fn local_panel_path(reported: &Option<ReportedDir>) -> (r: String)
    ensures
        exists|home: Option<Seq<char>>| r@ == #[trigger] local_start(*reported, home),
{
    let home = home_dir();
    let ghost h = opt(home);
    let r = local_panel_path_from(reported, home);
    proof {
        assert(r@ == local_start(*reported, h));
    }
    r
}

/// How the overlay reaches the remote side. It always opens at the remote
/// home directory: starting from the shell's directory reads as "my files
/// are gone", for that is often somewhere with nothing visible in it. The
/// shell's directory is still where drops land.
pub fn overlay_config(
    target: RemoteTarget,
    local_path: String,
    palette: SftpPalette,
    clipboard: bool,
) -> (r: SftpOverlayConfig)
    ensures
        r@ == (ConfigModel {
            session: target.session is Some,
            connect_target: target@.connect_target,
            reconnect_target: target@.reconnect_target,
            remote_label: target@.label,
            local_path: local_path@,
            remote_start: None,
            palette,
            clipboard,
        }),
{
    SftpOverlayConfig {
        session: target.session.is_some(),
        connect_target: target.connect_target,
        reconnect_target: target.reconnect_target,
        remote_label: target.label,
        local_path,
        remote_start: None,
        palette,
        clipboard,
    }
}

/// A pane of a live domain is never dialed anew, and a target is dialed
/// only where no session for it is live.
pub proof fn a_live_session_is_reused(
    domain: Option<(u64, Seq<char>)>,
    login: Option<Seq<char>>,
    pooled: Option<u64>,
    live: Option<(u64, Seq<char>)>,
    cwd: Option<Seq<char>>,
)
    ensures
        match resolved(domain, login, pooled, live, cwd) {
            Some(t) => (t.connect_target is Some <==> domain is None && pooled is None && live
                is None) && (t.connect_target is Some <==> t.session is None),
            None => domain is None && login is None,
        },
{
}

/// The pane's own session comes first, then the pooled one of its login,
/// then another live one for the same host; the session used is the one
/// that was found, under its own label, and only a login is ever dialed.
pub proof fn the_nearest_session_is_used(
    domain: Option<(u64, Seq<char>)>,
    login: Option<Seq<char>>,
    pooled: Option<u64>,
    live: Option<(u64, Seq<char>)>,
    cwd: Option<Seq<char>>,
)
    ensures
        match resolved(domain, login, pooled, live, cwd) {
            Some(t) => {
                &&& t.cwd == cwd
                &&& domain matches Some((session, label)) ==> t.session == Some(session) && t.label
                    == label && t.reconnect_target is None
                &&& domain is None && pooled is Some ==> t.session == pooled && Some(t.label)
                    == login && t.reconnect_target == login
                &&& domain is None && pooled is None ==> match live {
                    Some((session, label)) => t.session == Some(session) && t.label == label
                        && t.reconnect_target is None,
                    None => t.session is None,
                }
                &&& t.session is None ==> t.connect_target == login && t.reconnect_target == login
                    && Some(t.label) == login
            },
            None => domain is None && login is None,
        },
{
}

/// The local panel starts in the directory that the shell reported for this
/// machine, else at home, else at the root.
pub proof fn the_local_panel_starts_on_this_machine(
    reported: Option<ReportedDir>,
    home: Option<Seq<char>>,
)
    ensures
        match reported {
            Some(d) => if d.scheme@ == "file"@ && d.local {
                local_start(reported, home) == d.path@
            } else {
                local_start(reported, home) == local_start(None, home)
            },
            None => match home {
                Some(h) => local_start(reported, home) == h,
                None => local_start(reported, home) == "/"@,
            },
        },
{
}

} // verus!
