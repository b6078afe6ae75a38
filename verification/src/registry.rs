//! Live overlays, keyed by the pane that hosts them.
//!
//! Lets drag-and-drop reach an overlay's transfers and its remote
//! directory without access to the overlay's state.

use vstd::prelude::*;
use vstd::string::*;
use std::collections::HashMap;

verus! {

broadcast use vstd::std_specs::hash::group_hash_axioms;

/// What is known of an open overlay.
#[derive(Debug)]
pub struct OverlayHandle {
    /// Handle of the transfer manager, present once a session (domain,
    /// pooled, or freshly connected) is available.
    pub transfers: Option<u64>,
    pub remote_cwd: String,
    pub connected: bool,
}

/// An overlay's handle, with its text as characters.
pub struct HandleModel {
    pub transfers: Option<u64>,
    pub remote_cwd: Seq<char>,
    pub connected: bool,
}

impl View for OverlayHandle {
    type V = HandleModel;

    open spec fn view(&self) -> HandleModel {
        HandleModel {
            transfers: self.transfers,
            remote_cwd: self.remote_cwd@,
            connected: self.connected,
        }
    }
}

impl OverlayHandle {
    fn copy(&self) -> (r: Self)
        ensures
            r == *self,
    {
        OverlayHandle {
            transfers: self.transfers,
            remote_cwd: self.remote_cwd.clone(),
            connected: self.connected,
        }
    }
}

/// The open overlays.
pub struct Registry {
    handles: HashMap<u64, OverlayHandle>,
}

impl View for Registry {
    type V = Map<u64, HandleModel>;

    closed spec fn view(&self) -> Map<u64, HandleModel> {
        Map::new(|k: u64| self.handles@.contains_key(k), |k: u64| self.handles@[k]@)
    }
}

/// The registry with one overlay's handle changed; a pane without an
/// overlay stays without one.
pub open spec fn changed(m: Map<u64, HandleModel>, pane: u64, handle: HandleModel) -> Map<
    u64,
    HandleModel,
> {
    if m.contains_key(pane) {
        m.insert(pane, handle)
    } else {
        m
    }
}

/// Where a drop on a pane goes: the transfers and the remote directory of
/// its overlay, once that is connected.
pub open spec fn drop_place(m: Map<u64, HandleModel>, pane: u64) -> Option<(u64, Seq<char>)> {
    if m.contains_key(pane) && m[pane].connected {
        match m[pane].transfers {
            Some(t) => Some((t, m[pane].remote_cwd)),
            None => None,
        }
    } else {
        None
    }
}

impl Registry {
    pub fn new() -> (r: Self)
        ensures
            r@ == Map::<u64, HandleModel>::empty(),
    {
        let r = Registry { handles: HashMap::new() };
        proof {
            assert(r@ =~= Map::<u64, HandleModel>::empty());
        }
        r
    }

    /// An overlay opened over a pane.
    pub fn register(&mut self, pane_id: u64)
        ensures
            final(self)@ == old(self)@.insert(
                pane_id,
                HandleModel { transfers: None, remote_cwd: Seq::empty(), connected: false },
            ),
    {
        let ghost before = self@;
        let handle = OverlayHandle {
            transfers: None,
            remote_cwd: String::new(),
            connected: false,
        };
        let ghost seen = handle@;
        self.handles.insert(pane_id, handle);
        proof {
            assert(seen.remote_cwd =~= Seq::empty());
            assert(self@ =~= before.insert(pane_id, seen));
        }
    }

    /// The overlay over a pane closed.
    pub fn unregister(&mut self, pane_id: u64)
        ensures
            final(self)@ == old(self)@.remove(pane_id),
    {
        let ghost before = self@;
        self.handles.remove(&pane_id);
        proof {
            assert(self@ =~= before.remove(pane_id));
        }
    }

    fn put(&mut self, pane_id: u64, handle: OverlayHandle)
        requires
            old(self)@.contains_key(pane_id),
        ensures
            final(self)@ == changed(old(self)@, pane_id, handle@),
    {
        let ghost before = self@;
        self.handles.insert(pane_id, handle);
        proof {
            assert(self@ =~= before.insert(pane_id, handle@));
        }
    }

    fn handle(&self, pane_id: u64) -> (r: Option<OverlayHandle>)
        ensures
            match r {
                Some(h) => self@.contains_key(pane_id) && h@ == self@[pane_id],
                None => !self@.contains_key(pane_id),
            },
    {
        match self.handles.get(&pane_id) {
            Some(h) => Some(h.copy()),
            None => None,
        }
    }

    /// The overlay has a session to transfer over.
    pub fn set_transfers(&mut self, pane_id: u64, transfers: u64)
        ensures
            final(self)@ == changed(
                old(self)@,
                pane_id,
                HandleModel { transfers: Some(transfers), ..old(self)@[pane_id] },
            ),
    {
        if let Some(mut handle) = self.handle(pane_id) {
            handle.transfers = Some(transfers);
            self.put(pane_id, handle);
        }
    }

    pub fn mark_connected(&mut self, pane_id: u64)
        ensures
            final(self)@ == changed(
                old(self)@,
                pane_id,
                HandleModel { connected: true, ..old(self)@[pane_id] },
            ),
    {
        if let Some(mut handle) = self.handle(pane_id) {
            handle.connected = true;
            self.put(pane_id, handle);
        }
    }

    pub fn mark_disconnected(&mut self, pane_id: u64)
        ensures
            final(self)@ == changed(
                old(self)@,
                pane_id,
                HandleModel { connected: false, ..old(self)@[pane_id] },
            ),
    {
        if let Some(mut handle) = self.handle(pane_id) {
            handle.connected = false;
            self.put(pane_id, handle);
        }
    }

    /// The overlay's remote panel went to another directory.
    pub fn update_cwd(&mut self, pane_id: u64, cwd: &str)
        ensures
            final(self)@ == changed(
                old(self)@,
                pane_id,
                HandleModel { remote_cwd: cwd@, ..old(self)@[pane_id] },
            ),
    {
        if let Some(mut handle) = self.handle(pane_id) {
            handle.remote_cwd = cwd.to_owned();
            self.put(pane_id, handle);
        }
    }

    /// Where a drop on a pane goes, if the pane has a connected overlay.
    pub fn drop_target(&self, pane_id: u64) -> (r: Option<(u64, String)>)
        ensures
            match (r, drop_place(self@, pane_id)) {
                (Some((t, cwd)), Some((u, dir))) => t == u && cwd@ == dir,
                (None, None) => true,
                _ => false,
            },
    {
        match self.handle(pane_id) {
            Some(handle) => if handle.connected {
                match handle.transfers {
                    Some(t) => Some((t, handle.remote_cwd)),
                    None => None,
                }
            } else {
                None
            },
            None => None,
        }
    }
}

/// A drop goes to the transfers that were set last and the directory that
/// was reported last, and nowhere while the overlay is disconnected.
pub proof fn a_drop_goes_where_the_overlay_is(
    m: Map<u64, HandleModel>,
    pane: u64,
    transfers: u64,
    cwd: Seq<char>,
)
    requires
        m.contains_key(pane),
    ensures
        ({
            let t = changed(m, pane, HandleModel { transfers: Some(transfers), ..m[pane] });
            let c = changed(t, pane, HandleModel { connected: true, ..t[pane] });
            let w = changed(c, pane, HandleModel { remote_cwd: cwd, ..c[pane] });
            let d = changed(w, pane, HandleModel { connected: false, ..w[pane] });
            &&& drop_place(w, pane) == Some((transfers, cwd))
            &&& drop_place(d, pane) is None
        }),
{
}

/// What is reported for one pane changes no other, and opens nothing for a
/// pane without an overlay.
pub proof fn panes_do_not_mix(m: Map<u64, HandleModel>, pane: u64, other: u64, handle: HandleModel)
    ensures
        other != pane ==> drop_place(changed(m, pane, handle), other) == drop_place(m, other),
        !m.contains_key(pane) ==> drop_place(changed(m, pane, handle), pane) is None && changed(
            m,
            pane,
            handle,
        ) == m,
        m.contains_key(pane) ==> changed(m, pane, handle)[pane] == handle,
{
}

} // verus!
