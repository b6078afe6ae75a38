//! Files dropped on a pane: which uploads they become, and what the user is
//! told about them.

use crate::paths::{file_name, file_name_of, join_path, path_in};
use crate::state::{scanned_list, ScanFile, ScanFileModel};
use crate::text::{cat, cat3, decimal, number, texts};
use crate::transfer::{
    a_request_is_queued, numbered, unclaimed, Direction, JobModel, ManagerModel, StateModel, StatusModel, TransferManager, TransferState,
    TransferStatus,
};
use vstd::prelude::*;
use vstd::string::*;

verus! {

/// What a dropped path is.
#[derive(Debug)]
pub enum DropKind {
    /// A folder, with the files below it where it could be read.
    Folder(Result<Vec<ScanFile>, String>),
    File,
    /// Nothing that can be uploaded.
    Other,
}

/// A dropped path.
#[derive(Debug)]
pub struct Dropped {
    pub path: String,
    pub kind: DropKind,
}

/// What a dropped path is, with its texts as characters.
pub enum DropKindModel {
    Folder(Result<Seq<ScanFileModel>, Seq<char>>),
    File,
    Other,
}

/// A dropped path, with its texts as characters.
pub struct DropModel {
    pub path: Seq<char>,
    pub kind: DropKindModel,
}

impl View for Dropped {
    type V = DropModel;

    open spec fn view(&self) -> DropModel {
        DropModel {
            path: self.path@,
            kind: match self.kind {
                DropKind::Folder(Ok(files)) => DropKindModel::Folder(Ok(scanned_list(files@))),
                DropKind::Folder(Err(e)) => DropKindModel::Folder(Err(e@)),
                DropKind::File => DropKindModel::File,
                DropKind::Other => DropKindModel::Other,
            },
        }
    }
}

pub open spec fn drop_list(v: Seq<Dropped>) -> Seq<DropModel> {
    v.map_values(|d: Dropped| d@)
}

/// The manager with an upload that replaces nothing.
#[verifier::opaque]
pub open spec fn sent(m: ManagerModel, local: Seq<char>, remote: Seq<char>) -> ManagerModel {
    m.requested(
        Direction::Upload,
        local,
        remote,
        JobModel::Upload { local, remote, resume: false, overwrite: false },
    )
}

fn send(manager: &mut TransferManager, local: &str, remote: &str)
    ensures
        final(manager)@ == sent(old(manager)@, local@, remote@),
{
    proof {
        reveal(sent);
    }
    manager.upload(local, remote, false, false);
}

/// The manager with the first `n` files of a folder sent below `dest`.
pub open spec fn folder_sent(
    m: ManagerModel,
    files: Seq<ScanFileModel>,
    dest: Seq<char>,
    n: int,
) -> ManagerModel
    decreases n,
{
    if n <= 0 {
        m
    } else {
        sent(
            folder_sent(m, files, dest, n - 1),
            files[n - 1].abs,
            path_in(dest, files[n - 1].rel),
        )
    }
}

/// The manager with a dropped path sent into `cwd`: a folder with all the
/// files below it, exactly like a transfer of the folder in the browser.
pub open spec fn drop_sent(m: ManagerModel, d: DropModel, cwd: Seq<char>) -> ManagerModel {
    match file_name_of(d.path) {
        None => m,
        Some(name) => match d.kind {
            DropKindModel::Folder(Ok(files)) => folder_sent(
                m,
                files,
                path_in(cwd, name),
                files.len() as int,
            ),
            DropKindModel::File => sent(m, d.path, path_in(cwd, name)),
            _ => m,
        },
    }
}

/// Uploads that a dropped path becomes.
pub open spec fn drop_count(d: DropModel) -> nat {
    match file_name_of(d.path) {
        None => 0,
        Some(_) => match d.kind {
            DropKindModel::Folder(Ok(files)) => files.len(),
            DropKindModel::File => 1,
            _ => 0,
        },
    }
}

/// What the user is told of a folder that cannot be read.
pub open spec fn drop_notice(d: DropModel) -> Seq<Seq<char>> {
    match (file_name_of(d.path), d.kind) {
        (Some(_), DropKindModel::Folder(Err(e))) => seq!["cannot read "@ + d.path + ": "@ + e],
        _ => Seq::empty(),
    }
}

/// The manager with the first `n` dropped paths sent.
pub open spec fn drops_sent(
    m: ManagerModel,
    list: Seq<DropModel>,
    cwd: Seq<char>,
    n: int,
) -> ManagerModel
    decreases n,
{
    if n <= 0 {
        m
    } else {
        drop_sent(drops_sent(m, list, cwd, n - 1), list[n - 1], cwd)
    }
}

/// Uploads that the first `n` dropped paths become.
pub open spec fn drops_count(list: Seq<DropModel>, n: int) -> nat
    decreases n,
{
    if n <= 0 {
        0
    } else {
        drops_count(list, n - 1) + drop_count(list[n - 1])
    }
}

/// What the user is told of the first `n` dropped paths.
pub open spec fn drops_notices(list: Seq<DropModel>, n: int) -> Seq<Seq<char>>
    decreases n,
{
    if n <= 0 {
        Seq::empty()
    } else {
        drops_notices(list, n - 1) + drop_notice(list[n - 1])
    }
}

fn send_folder(manager: &mut TransferManager, files: &Vec<ScanFile>, dest: &str)
    ensures
        final(manager)@ == folder_sent(
            old(manager)@,
            scanned_list(files@),
            dest@,
            files@.len() as int,
        ),
{
    let ghost start = manager@;
    let ghost list = scanned_list(files@);
    let mut i: usize = 0;
    while i < files.len()
        invariant
            i <= files@.len(),
            list == scanned_list(files@),
            manager@ == folder_sent(start, list, dest@, i as int),
        decreases files@.len() - i,
    {
        proof {
            assert(list[i as int] == files@[i as int]@);
        }
        let to = join_path(dest, files[i].rel.as_str());
        send(manager, files[i].abs.as_str(), to.as_str());
        i += 1;
    }
}

fn send_drop(
    manager: &mut TransferManager,
    d: &Dropped,
    cwd: &str,
    notices: &mut Vec<String>,
) -> (r: usize)
    ensures
        final(manager)@ == drop_sent(old(manager)@, d@, cwd@),
        texts(final(notices)@) == texts(old(notices)@) + drop_notice(d@),
        r == drop_count(d@),
{
    let ghost before = texts(notices@);
    proof {
        assert(before + Seq::<Seq<char>>::empty() =~= before);
    }
    match file_name(d.path.as_str()) {
        None => 0,
        Some(name) => {
            let dest = join_path(cwd, name.as_str());
            match &d.kind {
                DropKind::Folder(Ok(files)) => {
                    let n: usize = files.len();
                    send_folder(manager, files, dest.as_str());
                    n
                },
                DropKind::Folder(Err(e)) => {
                    let mut text = cat3("cannot read ", d.path.as_str(), ": ");
                    text.append(e.as_str());
                    let ghost shown = text@;
                    notices.push(text);
                    proof {
                        assert(texts(notices@) =~= before + seq![shown]);
                    }
                    0
                },
                DropKind::File => {
                    send(manager, d.path.as_str(), dest.as_str());
                    1
                },
                DropKind::Other => 0,
            }
        },
    }
}

/// What came of a drop.
#[derive(Debug)]
pub struct DropOutcome {
    /// Uploads that were queued.
    pub queued: u64,
    /// What the user is told of folders that cannot be read.
    pub notices: Vec<String>,
}

/// The number of uploads, held at the largest number there is.
pub open spec fn held_count(n: nat) -> u64 {
    if n > u64::MAX {
        u64::MAX
    } else {
        n as u64
    }
}

/// Queue an upload into `cwd` for everything that was dropped. Nothing that
/// is there already is replaced.
pub fn queue_dropped(manager: &mut TransferManager, cwd: &str, dropped: &Vec<Dropped>) -> (r:
    DropOutcome)
    ensures
        final(manager)@ == drops_sent(
            old(manager)@,
            drop_list(dropped@),
            cwd@,
            dropped@.len() as int,
        ),
        r.queued == held_count(drops_count(drop_list(dropped@), dropped@.len() as int)),
        texts(r.notices@) == drops_notices(drop_list(dropped@), dropped@.len() as int),
{
    let ghost start = manager@;
    let ghost list = drop_list(dropped@);
    let mut queued: u64 = 0;
    let mut notices: Vec<String> = Vec::new();
    let mut i: usize = 0;
    proof {
        assert(texts(notices@) =~= Seq::empty());
    }
    while i < dropped.len()
        invariant
            i <= dropped@.len(),
            list == drop_list(dropped@),
            manager@ == drops_sent(start, list, cwd@, i as int),
            queued == held_count(drops_count(list, i as int)),
            texts(notices@) == drops_notices(list, i as int),
        decreases dropped@.len() - i,
    {
        proof {
            assert(list[i as int] == dropped@[i as int]@);
        }
        let n: usize = send_drop(manager, &dropped[i], cwd, &mut notices);
        queued = queued.saturating_add(n as u64);
        i += 1;
    }
    DropOutcome { queued, notices }
}

/// Upload dropped files into the directory `cwd` of an open browser. None
/// where nothing was queued, which lets the caller fall back to its default
/// behavior.
pub fn upload_dropped(manager: &mut TransferManager, cwd: &str, dropped: &Vec<Dropped>) -> (r:
    Option<(u64, String)>)
    ensures
        final(manager)@ == drops_sent(
            old(manager)@,
            drop_list(dropped@),
            cwd@,
            dropped@.len() as int,
        ),
        match r {
            Some((n, dir)) => n > 0 && n == held_count(
                drops_count(drop_list(dropped@), dropped@.len() as int),
            ) && dir@ == cwd@,
            None => drops_count(drop_list(dropped@), dropped@.len() as int) == 0,
        },
{
    let outcome = queue_dropped(manager, cwd, dropped);
    if outcome.queued == 0 {
        None
    } else {
        Some((outcome.queued, cwd.to_owned()))
    }
}

/// Last notice of a drop on a pane whose browser is closed.
pub open spec fn upload_notice(label: Seq<char>, cwd: Seq<char>, queued: u64) -> Seq<char> {
    if queued == 0 {
        "nothing to upload to "@ + label
    } else {
        "uploading "@ + decimal(queued as nat) + " file(s) to "@ + label + ":"@ + cwd
    }
}

/// Upload dropped files to the remote directory of a pane whose browser is
/// closed. The helpers dial the pane's own label. The last notice says what
/// was queued.
pub fn upload(manager: &mut TransferManager, label: &str, cwd: &str, dropped: &Vec<Dropped>) -> (r:
    DropOutcome)
    ensures
        final(manager)@ == drops_sent(
            (ManagerModel { helper_target: Some(label@), ..old(manager)@ }),
            drop_list(dropped@),
            cwd@,
            dropped@.len() as int,
        ),
        r.queued == held_count(drops_count(drop_list(dropped@), dropped@.len() as int)),
        texts(r.notices@) == drops_notices(drop_list(dropped@), dropped@.len() as int).push(
            upload_notice(label@, cwd@, r.queued),
        ),
{
    manager.set_helper_target(label.to_owned());
    let mut outcome = queue_dropped(manager, cwd, dropped);
    let text = if outcome.queued == 0 {
        cat("nothing to upload to ", label)
    } else {
        let mut text = cat3("uploading ", number(outcome.queued).as_str(), " file(s) to ");
        text.append(label);
        text.append(":");
        text.append(cwd);
        text
    };
    let ghost before = texts(outcome.notices@);
    let ghost shown = text@;
    outcome.notices.push(text);
    proof {
        assert(texts(outcome.notices@) =~= before.push(shown));
    }
    outcome
}

/// What the user is told where the remote home cannot be resolved.
pub fn unresolved_notice(label: &str, err: &str) -> (r: String)
    ensures
        r@ == "upload to "@ + label@ + " failed: "@ + err@,
{
    let mut text = cat3("upload to ", label, " failed: ");
    text.append(err);
    text
}

/// What the user is told of a finished background transfer.
pub open spec fn finish_notice(s: StatusModel) -> Option<Seq<char>> {
    let verb = match s.direction {
        Direction::Upload => "uploaded"@,
        Direction::Download => "downloaded"@,
        Direction::Copy => "copied"@,
    };
    match s.state {
        StateModel::Done => Some(verb + " "@ + s.dest),
        StateModel::Cancelled => Some(verb + " "@ + s.dest + " cancelled"@),
        StateModel::Failed(e) => Some("failed to transfer "@ + s.source + ": "@ + e),
        _ => None,
    }
}

/// Transfers started outside the browser, where nothing else drains events:
/// they are waited for, and each completion is announced.
#[derive(Debug)]
pub struct Background {
    /// Transfers that have not finished yet.
    pub remaining: u64,
}

impl Background {
    pub fn new(expected: u64) -> (r: Self)
        ensures
            r.remaining == expected,
    {
        Background { remaining: expected }
    }

    /// A transfer has finished; the notice to show.
    pub fn finished(&mut self, status: &TransferStatus) -> (r: Option<String>)
        requires
            old(self).remaining > 0,
        ensures
            final(self).remaining == old(self).remaining - 1,
            crate::paths::opt(r) == finish_notice(status@),
    {
        self.remaining = self.remaining - 1;
        let verb = match status.direction {
            Direction::Upload => "uploaded",
            Direction::Download => "downloaded",
            Direction::Copy => "copied",
        };
        match &status.state {
            TransferState::Done => Some(cat3(verb, " ", status.dest.as_str())),
            TransferState::Cancelled => {
                let mut text = cat3(verb, " ", status.dest.as_str());
                text.append(" cancelled");
                Some(text)
            },
            TransferState::Failed(e) => {
                let mut text = cat3("failed to transfer ", status.source.as_str(), ": ");
                text.append(e.as_str());
                Some(text)
            },
            _ => None,
        }
    }
}

/// An upload of `pair.0` to `pair.1` that replaces nothing.
pub open spec fn careful(pair: (Seq<char>, Seq<char>)) -> JobModel {
    JobModel::Upload { local: pair.0, remote: pair.1, resume: false, overwrite: false }
}

/// `u` is `t` with exactly one upload more for each pair, in their order,
/// none of which may replace a file.
pub open spec fn uploads_all(
    t: ManagerModel,
    u: ManagerModel,
    pairs: Seq<(Seq<char>, Seq<char>)>,
) -> bool {
    &&& u.statuses == t.statuses + Seq::new(
        pairs.len(),
        |i: int|
            StatusModel {
                id: (t.next_id + i) as u64,
                direction: Direction::Upload,
                source: pairs[i].0,
                dest: pairs[i].1,
                state: StateModel::Queued,
            },
    )
    &&& u.jobs == t.jobs + Seq::new(
        pairs.len(),
        |i: int| ((t.next_id + i) as u64, careful(pairs[i])),
    )
    &&& u.next_id == t.next_id + pairs.len()
    &&& u.queue == t.queue
    &&& u.running == t.running
}

/// What a dropped path is uploaded as: a file to its own name in `cwd`, and
/// every file of a folder to its own place below the folder's name there.
pub open spec fn drop_pairs(d: DropModel, cwd: Seq<char>) -> Seq<(Seq<char>, Seq<char>)> {
    match (file_name_of(d.path), d.kind) {
        (Some(name), DropKindModel::File) => seq![(d.path, path_in(cwd, name))],
        (Some(name), DropKindModel::Folder(Ok(files))) => Seq::new(
            files.len(),
            |i: int| (files[i].abs, path_in(path_in(cwd, name), files[i].rel)),
        ),
        _ => Seq::empty(),
    }
}

/// No two pairs have a destination in common, and no unfinished transfer
/// writes one of them.
pub open spec fn separate(t: ManagerModel, pairs: Seq<(Seq<char>, Seq<char>)>) -> bool {
    &&& forall|i: int| 0 <= i < pairs.len() ==> unclaimed(t.statuses, (#[trigger] pairs[i]).1)
    &&& forall|i: int, j: int|
        0 <= i < j < pairs.len() ==> (#[trigger] pairs[i]).1 != (#[trigger] pairs[j]).1
}

proof fn lemma_upload_added(
    t: ManagerModel,
    u: ManagerModel,
    pairs: Seq<(Seq<char>, Seq<char>)>,
    pair: (Seq<char>, Seq<char>),
)
    requires
        uploads_all(t, u, pairs),
        numbered(t.statuses, t.next_id),
        t.next_id + pairs.len() < u64::MAX,
        separate(t, pairs.push(pair)),
    ensures
        uploads_all(t, sent(u, pair.0, pair.1), pairs.push(pair)),
{
    reveal(sent);
    let more = pairs.push(pair);
    let k = t.statuses.len() as int;
    let n = pairs.len() as int;
    assert(more[n] == pair);
    assert forall|i: int|
        0 <= i < u.statuses.len() && !(#[trigger] u.statuses[i]).state.terminal() implies u.statuses[i].dest
        != pair.1 by {
        if i < k {
            assert(u.statuses[i] == t.statuses[i]);
            assert(unclaimed(t.statuses, more[n].1));
        } else {
            assert(u.statuses[i].dest == pairs[i - k].1);
            assert(more[i - k] == pairs[i - k]);
        }
    }
    assert forall|i: int| 0 <= i < u.statuses.len() implies (#[trigger] u.statuses[i]).id
        < u.next_id by {
        if i < k {
            assert(u.statuses[i] == t.statuses[i]);
        }
    }
    assert forall|i: int, j: int| 0 <= i < j < u.statuses.len() implies (#[trigger] u.statuses[i]).id
        < (#[trigger] u.statuses[j]).id by {
        if j < k {
            assert(u.statuses[i] == t.statuses[i] && u.statuses[j] == t.statuses[j]);
        } else if i < k {
            assert(u.statuses[i] == t.statuses[i]);
        }
    }
    a_request_is_queued(u, Direction::Upload, pair.0, pair.1, careful(pair));
    let v = sent(u, pair.0, pair.1);
    assert(v.statuses =~= t.statuses + Seq::new(
        more.len(),
        |i: int|
            StatusModel {
                id: (t.next_id + i) as u64,
                direction: Direction::Upload,
                source: more[i].0,
                dest: more[i].1,
                state: StateModel::Queued,
            },
    ));
    assert(v.jobs =~= t.jobs + Seq::new(
        more.len(),
        |i: int| ((t.next_id + i) as u64, careful(more[i])),
    ));
}

proof fn lemma_folder_sent(
    t: ManagerModel,
    files: Seq<ScanFileModel>,
    dest: Seq<char>,
    pairs: Seq<(Seq<char>, Seq<char>)>,
    n: int,
)
    requires
        0 <= n <= files.len(),
        pairs.len() == files.len(),
        forall|i: int|
            0 <= i < files.len() ==> #[trigger] pairs[i] == (files[i].abs, path_in(
                dest,
                files[i].rel,
            )),
        numbered(t.statuses, t.next_id),
        t.next_id + pairs.len() < u64::MAX,
        separate(t, pairs),
    ensures
        uploads_all(t, folder_sent(t, files, dest, n), pairs.take(n)),
    decreases n,
{
    if n <= 0 {
        let none = pairs.take(0);
        assert(t.statuses =~= t.statuses + Seq::new(
            none.len(),
            |i: int|
                StatusModel {
                    id: (t.next_id + i) as u64,
                    direction: Direction::Upload,
                    source: none[i].0,
                    dest: none[i].1,
                    state: StateModel::Queued,
                },
        ));
        assert(t.jobs =~= t.jobs + Seq::new(
            none.len(),
            |i: int| ((t.next_id + i) as u64, careful(none[i])),
        ));
    } else {
        lemma_folder_sent(t, files, dest, pairs, n - 1);
        assert(pairs.take(n) =~= pairs.take(n - 1).push(pairs[n - 1]));
        let some = pairs.take(n);
        assert forall|i: int| 0 <= i < some.len() implies unclaimed(
            t.statuses,
            (#[trigger] some[i]).1,
        ) by {
            assert(some[i] == pairs[i]);
        }
        assert forall|i: int, j: int| 0 <= i < j < some.len() implies (#[trigger] some[i]).1 != (
        #[trigger] some[j]).1 by {
            assert(some[i] == pairs[i] && some[j] == pairs[j]);
        }
        lemma_upload_added(
            t,
            folder_sent(t, files, dest, n - 1),
            pairs.take(n - 1),
            pairs[n - 1],
        );
    }
}

/// A dropped file is uploaded to its own name in the directory it was
/// dropped on, and a dropped folder with everything below it under the
/// folder's name there; nothing that is there already is replaced, and
/// what is neither is not uploaded.
pub proof fn a_drop_uploads_what_was_dropped(t: ManagerModel, d: DropModel, cwd: Seq<char>)
    requires
        numbered(t.statuses, t.next_id),
        t.next_id + drop_pairs(d, cwd).len() < u64::MAX,
        separate(t, drop_pairs(d, cwd)),
    ensures
        uploads_all(t, drop_sent(t, d, cwd), drop_pairs(d, cwd)),
        drop_count(d) == drop_pairs(d, cwd).len(),
{
    let pairs = drop_pairs(d, cwd);
    let n = pairs.len() as int;
    lemma_folder_sent(t, Seq::empty(), cwd, Seq::empty(), 0);
    assert(Seq::<(Seq<char>, Seq<char>)>::empty().take(0) =~= Seq::empty());
    match (file_name_of(d.path), d.kind) {
        (Some(name), DropKindModel::File) => {
            lemma_upload_added(t, t, Seq::empty(), pairs[0]);
            assert(Seq::<(Seq<char>, Seq<char>)>::empty().push(pairs[0]) =~= pairs);
        },
        (Some(name), DropKindModel::Folder(Ok(files))) => {
            lemma_folder_sent(t, files, path_in(cwd, name), pairs, n);
            assert(pairs.take(n) =~= pairs);
        },
        _ => {
            assert(pairs =~= Seq::empty());
        },
    }
}

/// Drops are dealt with one after the other: one more adds its uploads, its
/// count and its notice to what the others made.
pub proof fn drops_are_taken_in_order(
    t: ManagerModel,
    list: Seq<DropModel>,
    d: DropModel,
    cwd: Seq<char>,
    n: int,
)
    requires
        0 <= n <= list.len(),
    ensures
        drops_sent(t, list.push(d), cwd, n) == drops_sent(t, list, cwd, n),
        drops_count(list.push(d), n) == drops_count(list, n),
        drops_notices(list.push(d), n) == drops_notices(list, n),
        n == list.len() ==> {
            &&& drops_sent(t, list.push(d), cwd, n + 1) == drop_sent(
                drops_sent(t, list, cwd, n),
                d,
                cwd,
            )
            &&& drops_count(list.push(d), n + 1) == drops_count(list, n) + drop_count(d)
            &&& drops_notices(list.push(d), n + 1) == drops_notices(list, n) + drop_notice(d)
        },
        drops_sent(t, list, cwd, 0) == t,
        drops_count(list, 0) == 0,
    decreases n,
{
    if n > 0 {
        drops_are_taken_in_order(t, list, d, cwd, n - 1);
        assert(list.push(d)[n - 1] == list[n - 1]);
    }
    assert(list.push(d)[list.len() as int] == d);
}

} // verus!
