//! The sync engine's decisions: which local and remote entries take part in a run, where
//! each goes, and how every item's outcome enters the run's record. The caller walks the
//! directories and makes the requests; one item's failure never stops the others.

use vstd::prelude::*;
use vstd::utf8::encode_utf8;
use crate::json::{is_json, json_accepts};
use crate::listing::{entries_view, ListingEntry};
use crate::model::{texts, CodexSyncConfig, SyncResult, SyncResultView, WebDavConfig, WebDavConfigView};
use crate::text::{chars_of, push_text, string_of};
use crate::webdav::{child_config, child_view, dav_error_text, normalize_remote_path, normalized_path, DavError};

verus! {

/// An entry of a local directory.
pub struct LocalEntry {
    pub name: String,
    pub is_dir: bool,
}

impl View for LocalEntry {
    type V = (Seq<char>, bool);

    open spec fn view(&self) -> (Seq<char>, bool) {
        (self.name@, self.is_dir)
    }
}

/// The views of a sequence of local entries.
pub open spec fn local_view(es: Seq<LocalEntry>) -> Seq<(Seq<char>, bool)> {
    es.map_values(|e: LocalEntry| e@)
}

/// Names that an upload leaves out: dot-names and names starting with `__`.
pub open spec fn is_hidden_name(n: Seq<char>) -> bool {
    (n.len() > 0 && n[0] == '.') || (n.len() >= 2 && n[0] == '_' && n[1] == '_')
}

/// Whether an upload leaves the name out.
pub fn is_hidden(name: &str) -> (r: bool)
    ensures
        r == is_hidden_name(name@),
{
    let n = chars_of(name);
    (n.len() > 0 && n[0] == '.') || (n.len() >= 2 && n[0] == '_' && n[1] == '_')
}

/// One thing to do for an entry of a directory being synced.
pub enum SyncStep {
    /// Sync the sub-directory `name` with the remote directory `remote`.
    Descend { name: String, remote: WebDavConfig },
    /// Transfer the file `name`, recorded as `item` when it succeeds.
    Transfer { name: String, item: String },
}

/// The abstract value of a step.
pub enum SyncStepView {
    Descend { name: Seq<char>, remote: WebDavConfigView },
    Transfer { name: Seq<char>, item: Seq<char> },
}

impl View for SyncStep {
    type V = SyncStepView;

    open spec fn view(&self) -> SyncStepView {
        match self {
            SyncStep::Descend { name, remote } => SyncStepView::Descend { name: name@, remote: remote@ },
            SyncStep::Transfer { name, item } => SyncStepView::Transfer { name: name@, item: item@ },
        }
    }
}

/// The views of a sequence of steps.
pub open spec fn steps_view(ss: Seq<SyncStep>) -> Seq<SyncStepView> {
    ss.map_values(|s: SyncStep| s@)
}

/// The step for the entry `name` of the directory synced with `c`: a sub-directory goes to
/// the child endpoint named after it, a file is recorded under the normalised remote
/// directory followed by its name.
pub open spec fn step_for(c: WebDavConfigView, name: Seq<char>, is_dir: bool) -> SyncStepView {
    if is_dir {
        SyncStepView::Descend { name, remote: child_view(c, name) }
    } else {
        SyncStepView::Transfer { name, item: normalized_path(c.remote_path) + name }
    }
}

/// The steps of an upload of a local directory with entries `es` to `c`, in listing order:
/// one for each entry that is not hidden.
pub open spec fn upload_steps(c: WebDavConfigView, es: Seq<(Seq<char>, bool)>) -> Seq<SyncStepView>
    decreases es.len(),
{
    if es.len() == 0 {
        Seq::empty()
    } else {
        let rest = upload_steps(c, es.drop_last());
        let (n, d) = es.last();
        if is_hidden_name(n) {
            rest
        } else {
            rest.push(step_for(c, n, d))
        }
    }
}

/// The steps of a download of the remote directory of `c` with entries `es`, in listing
/// order: one for each entry.
pub open spec fn download_steps(c: WebDavConfigView, es: Seq<(Seq<char>, bool)>) -> Seq<SyncStepView>
    decreases es.len(),
{
    if es.len() == 0 {
        Seq::empty()
    } else {
        download_steps(c, es.drop_last()).push(step_for(c, es.last().0, es.last().1))
    }
}

fn step_of(c: &WebDavConfig, name: &String, is_dir: bool) -> (r: SyncStep)
    ensures
        r@ == step_for(c@, name@, is_dir),
{
    if is_dir {
        SyncStep::Descend { name: name.clone(), remote: child_config(c, name.as_str()) }
    } else {
        let mut item = chars_of(normalize_remote_path(c.remote_path.as_str()).as_str());
        push_text(&mut item, name.as_str());
        SyncStep::Transfer { name: name.clone(), item: string_of(item.as_slice()) }
    }
}

/// The steps of uploading a local directory with entries `entries` to `c`.
pub fn plan_upload(c: &WebDavConfig, entries: &Vec<LocalEntry>) -> (r: Vec<SyncStep>)
    ensures
        steps_view(r@) == upload_steps(c@, local_view(entries@)),
{
    let mut out: Vec<SyncStep> = Vec::new();
    let mut i: usize = 0;
    while i < entries.len()
        invariant
            i <= entries@.len(),
            steps_view(out@) == upload_steps(c@, local_view(entries@).take(i as int)),
        decreases entries@.len() - i,
    {
        let ghost before = out@;
        proof {
            assert(local_view(entries@).take(i + 1).drop_last() =~= local_view(entries@).take(i as int));
        }
        let e = &entries[i];
        if !is_hidden(e.name.as_str()) {
            out.push(step_of(c, &e.name, e.is_dir));
            proof {
                assert(steps_view(out@) =~= steps_view(before).push(step_for(c@, e.name@, e.is_dir)));
            }
        }
        i = i + 1;
    }
    proof {
        assert(local_view(entries@).take(i as int) =~= local_view(entries@));
    }
    out
}

/// The steps of downloading the remote directory of `c`, listed as `entries`.
pub fn plan_download(c: &WebDavConfig, entries: &Vec<ListingEntry>) -> (r: Vec<SyncStep>)
    ensures
        steps_view(r@) == download_steps(c@, entries_view(entries@)),
{
    let mut out: Vec<SyncStep> = Vec::new();
    let mut i: usize = 0;
    while i < entries.len()
        invariant
            i <= entries@.len(),
            steps_view(out@) == download_steps(c@, entries_view(entries@).take(i as int)),
        decreases entries@.len() - i,
    {
        let ghost before = out@;
        proof {
            assert(entries_view(entries@).take(i + 1).drop_last() =~= entries_view(entries@).take(i as int));
        }
        let e = &entries[i];
        out.push(step_of(c, &e.name, e.is_collection));
        proof {
            assert(steps_view(out@) =~= steps_view(before).push(step_for(c@, e.name@, e.is_collection)));
        }
        i = i + 1;
    }
    proof {
        assert(entries_view(entries@).take(i as int) =~= entries_view(entries@));
    }
    out
}

/// What became of one file of an upload.
pub enum UploadOutcome {
    /// The local file could not be read, for the reason given.
    Unreadable(String),
    /// The server accepted it.
    Uploaded,
    /// The request failed.
    Rejected(DavError),
}

/// The record after one file of an upload: an accepted file adds its item, a failure adds
/// an error that starts with the file's name.
pub open spec fn after_upload(
    v: SyncResultView,
    name: Seq<char>,
    item: Seq<char>,
    o: UploadOutcome,
) -> SyncResultView {
    match o {
        UploadOutcome::Uploaded => SyncResultView { uploaded: v.uploaded.push(item), ..v },
        UploadOutcome::Unreadable(reason) => SyncResultView {
            errors: v.errors.push(name + ": 读取失败 "@ + reason@),
            ..v
        },
        UploadOutcome::Rejected(e) => SyncResultView {
            errors: v.errors.push(name + ": "@ + dav_error_text(e)),
            ..v
        },
    }
}

/// The record after the files of `evs` (name, item, outcome), in order.
pub open spec fn upload_run(
    v: SyncResultView,
    evs: Seq<(Seq<char>, Seq<char>, UploadOutcome)>,
) -> SyncResultView
    decreases evs.len(),
{
    if evs.len() == 0 {
        v
    } else {
        let (n, i, o) = evs.last();
        after_upload(upload_run(v, evs.drop_last()), n, i, o)
    }
}

/// The items of a sequence of upload events.
pub open spec fn event_items(evs: Seq<(Seq<char>, Seq<char>, UploadOutcome)>) -> Seq<Seq<char>> {
    evs.map_values(|e: (Seq<char>, Seq<char>, UploadOutcome)| e.1)
}

fn labelled(name: &str, label: &str, detail: &str) -> (r: String)
    ensures
        r@ == name@ + label@ + detail@,
{
    let mut out: Vec<char> = Vec::new();
    push_text(&mut out, name);
    push_text(&mut out, label);
    push_text(&mut out, detail);
    proof {
        assert(out@ =~= name@ + label@ + detail@);
    }
    string_of(out.as_slice())
}

/// Enters the outcome of uploading the file `name` (recorded as `item`) into the record.
pub fn record_upload(r: &mut SyncResult, name: &str, item: String, o: UploadOutcome)
    ensures
        final(r)@ == after_upload(old(r)@, name@, item@, o),
{
    match o {
        UploadOutcome::Uploaded => r.add_uploaded(item),
        UploadOutcome::Unreadable(reason) => r.add_error(labelled(name, ": 读取失败 ", reason.as_str())),
        UploadOutcome::Rejected(e) => {
            let t = e.text();
            r.add_error(labelled(name, ": ", t.as_str()))
        },
    }
}

proof fn lemma_all_uploaded(v: SyncResultView, evs: Seq<(Seq<char>, Seq<char>, UploadOutcome)>)
    requires
        forall|i: int| 0 <= i < evs.len() ==> (#[trigger] evs[i]).2 is Uploaded,
    ensures
        upload_run(v, evs) == (SyncResultView { uploaded: v.uploaded + event_items(evs), ..v }),
    decreases evs.len(),
{
    if evs.len() > 0 {
        let front = evs.drop_last();
        assert forall|i: int| 0 <= i < front.len() implies (#[trigger] front[i]).2 is Uploaded by {
            assert(front[i] == evs[i]);
        }
        lemma_all_uploaded(v, front);
        assert(evs.last().2 is Uploaded);
        assert(v.uploaded + event_items(evs) =~= (v.uploaded + event_items(front)).push(evs.last().1));
    } else {
        assert(v.uploaded + event_items(evs) =~= v.uploaded);
    }
}

/// Partial failure stays partial: in an upload run where the `k`th file cannot be read and
/// every other file is accepted, the record gains the items of all the other files, in
/// order (those after the `k`th included), and exactly one error, which names the `k`th file.
pub proof fn lemma_unreadable_file_isolated(
    v: SyncResultView,
    evs: Seq<(Seq<char>, Seq<char>, UploadOutcome)>,
    k: int,
    reason: String,
)
    requires
        0 <= k < evs.len(),
        evs[k].2 == UploadOutcome::Unreadable(reason),
        forall|i: int| 0 <= i < evs.len() && i != k ==> (#[trigger] evs[i]).2 is Uploaded,
    ensures
        upload_run(v, evs).uploaded == v.uploaded + event_items(evs.remove(k)),
        upload_run(v, evs).errors == v.errors.push(evs[k].0 + ": 读取失败 "@ + reason@),
        upload_run(v, evs).downloaded == v.downloaded,
    decreases evs.len(),
{
    let front = evs.drop_last();
    if k == evs.len() - 1 {
        assert forall|i: int| 0 <= i < front.len() implies (#[trigger] front[i]).2 is Uploaded by {
            assert(front[i] == evs[i]);
        }
        lemma_all_uploaded(v, front);
        assert(evs.remove(k) =~= front);
    } else {
        assert forall|i: int| 0 <= i < front.len() && i != k implies (#[trigger] front[i]).2 is Uploaded by {
            assert(front[i] == evs[i]);
        }
        assert(front[k] == evs[k]);
        lemma_unreadable_file_isolated(v, front, k, reason);
        assert(evs.last().2 is Uploaded);
        assert(evs.remove(k) =~= front.remove(k).push(evs.last()));
        assert(event_items(evs.remove(k)) =~= event_items(front.remove(k)).push(evs.last().1));
        assert(v.uploaded + event_items(evs.remove(k)) =~= (v.uploaded + event_items(front.remove(k))).push(
            evs.last().1,
        ));
    }
}

/// What became of one file of a download.
pub enum DownloadOutcome {
    /// The request failed.
    Failed(DavError),
    /// The content had to be JSON and was not; nothing was written.
    Invalid,
    /// The content was written to the local file.
    Written,
    /// Writing the local file failed, for the reason given.
    WriteFailed(String),
}

/// The record after one file of a download: a written file adds its item, anything else
/// adds an error that starts with the file's name.
pub open spec fn after_download(
    v: SyncResultView,
    name: Seq<char>,
    item: Seq<char>,
    o: DownloadOutcome,
) -> SyncResultView {
    match o {
        DownloadOutcome::Written => SyncResultView { downloaded: v.downloaded.push(item), ..v },
        DownloadOutcome::Failed(e) => SyncResultView {
            errors: v.errors.push(name + ": "@ + dav_error_text(e)),
            ..v
        },
        DownloadOutcome::Invalid => SyncResultView {
            errors: v.errors.push(name + ": 无效的 JSON"@),
            ..v
        },
        DownloadOutcome::WriteFailed(reason) => SyncResultView {
            errors: v.errors.push(name + ": 写入失败 "@ + reason@),
            ..v
        },
    }
}

/// Enters the outcome of downloading the file `name` (recorded as `item`) into the record.
pub fn record_download(r: &mut SyncResult, name: &str, item: String, o: DownloadOutcome)
    ensures
        final(r)@ == after_download(old(r)@, name@, item@, o),
{
    match o {
        DownloadOutcome::Written => r.add_downloaded(item),
        DownloadOutcome::Failed(e) => {
            let t = e.text();
            r.add_error(labelled(name, ": ", t.as_str()))
        },
        DownloadOutcome::Invalid => {
            proof {
                reveal_strlit("");
            }
            r.add_error(labelled(name, ": 无效的 JSON", ""))
        },
        DownloadOutcome::WriteFailed(reason) => r.add_error(labelled(name, ": 写入失败 ", reason.as_str())),
    }
}

/// Decides what to do with a downloaded file: write its content, unless the request failed
/// or the content had to be JSON and is not.
pub fn vet_download(fetched: Result<String, DavError>, require_json: bool) -> (r: Result<
    String,
    DownloadOutcome,
>)
    ensures
        match fetched {
            Err(e) => r == Err::<String, DownloadOutcome>(DownloadOutcome::Failed(e)),
            Ok(t) => if !require_json || json_accepts(encode_utf8(t@)) {
                r matches Ok(c) && c@ == t@
            } else {
                r == Err::<String, DownloadOutcome>(DownloadOutcome::Invalid)
            },
        },
{
    match fetched {
        Err(e) => Err(DownloadOutcome::Failed(e)),
        Ok(t) => {
            if !require_json || is_json(t.as_str()) {
                Ok(t)
            } else {
                Err(DownloadOutcome::Invalid)
            }
        },
    }
}

/// A 404: the thing asked for is not there.
pub open spec fn is_absent(e: DavError) -> bool {
    e == DavError::Status(404)
}

/// The record after an optional file could not be fetched: absence is no failure, anything
/// else is recorded under the file's name.
pub open spec fn after_optional_failure(v: SyncResultView, name: Seq<char>, e: DavError) -> SyncResultView {
    if is_absent(e) {
        v
    } else {
        SyncResultView { errors: v.errors.push(name + ": "@ + dav_error_text(e)), ..v }
    }
}

/// Enters the failure to fetch an optional file into the record.
pub fn record_optional_failure(r: &mut SyncResult, name: &str, e: DavError)
    ensures
        final(r)@ == after_optional_failure(old(r)@, name@, e),
{
    match e {
        DavError::Status(404) => {},
        _ => {
            let t = e.text();
            r.add_error(labelled(name, ": ", t.as_str()))
        },
    }
}

/// The record after a directory could not be listed: a directory that is not there has
/// nothing to sync, anything else is recorded.
pub open spec fn after_listing_failure(v: SyncResultView, e: DavError) -> SyncResultView {
    if is_absent(e) {
        v
    } else {
        SyncResultView { errors: v.errors.push("列目录失败: "@ + dav_error_text(e)), ..v }
    }
}

/// Enters the failure to list a directory into the record.
pub fn record_listing_failure(r: &mut SyncResult, e: DavError)
    ensures
        final(r)@ == after_listing_failure(old(r)@, e),
{
    match e {
        DavError::Status(404) => {},
        _ => {
            let t = e.text();
            proof {
                reveal_strlit("");
            }
            r.add_error(labelled("列目录失败: ", "", t.as_str()))
        },
    }
}

/// A credential file name: something followed by `.json`.
pub open spec fn is_json_name(n: Seq<char>) -> bool {
    n.len() > 5 && n.subrange(n.len() - 5, n.len() as int) == seq!['.', 'j', 's', 'o', 'n']
}

/// Whether the name is a credential file name.
pub fn is_json_file_name(name: &str) -> (r: bool)
    ensures
        r == is_json_name(name@),
{
    let n = chars_of(name);
    let l = n.len();
    if l <= 5 {
        return false;
    }
    let r = n[l - 5] == '.' && n[l - 4] == 'j' && n[l - 3] == 's' && n[l - 2] == 'o' && n[l - 1] == 'n';
    proof {
        let tail = n@.subrange(l - 5, l as int);
        if r {
            assert(tail =~= seq!['.', 'j', 's', 'o', 'n']);
        } else {
            assert(tail[0] != '.' || tail[1] != 'j' || tail[2] != 's' || tail[3] != 'o' || tail[4] != 'n');
        }
    }
    r
}

/// The credential files among entries: files with a credential file name, hidden names
/// left out where `skip_hidden` holds.
pub open spec fn account_files(es: Seq<(Seq<char>, bool)>, skip_hidden: bool) -> Seq<Seq<char>>
    decreases es.len(),
{
    if es.len() == 0 {
        Seq::empty()
    } else {
        let rest = account_files(es.drop_last(), skip_hidden);
        let (n, d) = es.last();
        if !d && is_json_name(n) && !(skip_hidden && is_hidden_name(n)) {
            rest.push(n)
        } else {
            rest
        }
    }
}

/// The views of named flags.
pub open spec fn pairs_view(ps: Seq<(String, bool)>) -> Seq<(Seq<char>, bool)> {
    ps.map_values(|e: (String, bool)| (e.0@, e.1))
}

fn select_account_files(es: &Vec<(String, bool)>, skip_hidden: bool) -> (r: Vec<String>)
    ensures
        texts(r@) == account_files(
            pairs_view(es@),
            skip_hidden,
        ),
{
    let ghost ev = pairs_view(es@);
    let mut out: Vec<String> = Vec::new();
    let mut i: usize = 0;
    while i < es.len()
        invariant
            i <= es@.len(),
            ev == pairs_view(es@),
            texts(out@) == account_files(ev.take(i as int), skip_hidden),
        decreases es@.len() - i,
    {
        let ghost before = out@;
        proof {
            assert(ev.take(i + 1).drop_last() =~= ev.take(i as int));
        }
        let (n, d) = (&es[i].0, es[i].1);
        if !d && is_json_file_name(n.as_str()) && !(skip_hidden && is_hidden(n.as_str())) {
            out.push(n.clone());
            proof {
                assert(texts(out@) =~= texts(before).push(n@));
            }
        }
        i = i + 1;
    }
    proof {
        assert(ev.take(i as int) =~= ev);
    }
    out
}

/// The local credential files to upload: files of the accounts directory with a
/// credential file name, hidden names left out.
pub fn local_account_files(entries: &Vec<LocalEntry>) -> (r: Vec<String>)
    ensures
        texts(r@) == account_files(local_view(entries@), true),
{
    let mut pairs: Vec<(String, bool)> = Vec::new();
    let mut i: usize = 0;
    while i < entries.len()
        invariant
            i <= entries@.len(),
            pairs_view(pairs@) == local_view(entries@).take(i as int),
        decreases entries@.len() - i,
    {
        let ghost before = pairs@;
        let nm = entries[i].name.clone();
        pairs.push((nm, entries[i].is_dir));
        proof {
            assert(pairs_view(pairs@) =~= pairs_view(before).push((entries@[i as int].name@, entries@[i as int].is_dir)));
            assert(local_view(entries@).take(i + 1) =~= local_view(entries@).take(i as int).push(local_view(entries@)[i as int]));
        }
        i = i + 1;
        proof {
            assert(pairs_view(pairs@) =~= local_view(entries@).take(i as int));
        }
    }
    proof {
        assert(local_view(entries@).take(i as int) =~= local_view(entries@));
    }
    select_account_files(&pairs, true)
}

/// The remote credential files to download: listed files with a credential file name.
pub fn remote_account_files(entries: &Vec<ListingEntry>) -> (r: Vec<String>)
    ensures
        texts(r@) == account_files(entries_view(entries@), false),
{
    let mut pairs: Vec<(String, bool)> = Vec::new();
    let mut i: usize = 0;
    while i < entries.len()
        invariant
            i <= entries@.len(),
            pairs_view(pairs@) == entries_view(entries@).take(i as int),
        decreases entries@.len() - i,
    {
        let ghost before = pairs@;
        let nm = entries[i].name.clone();
        pairs.push((nm, entries[i].is_collection));
        proof {
            assert(entries_view(entries@)[i as int] == (entries@[i as int].name@, entries@[i as int].is_collection));
            assert(pairs_view(pairs@) =~= pairs_view(before).push((entries@[i as int].name@, entries@[i as int].is_collection)));
            assert(entries_view(entries@).take(i + 1) =~= entries_view(entries@).take(i as int).push(entries_view(entries@)[i as int]));
        }
        i = i + 1;
        proof {
            assert(pairs_view(pairs@) =~= entries_view(entries@).take(i as int));
        }
    }
    proof {
        assert(entries_view(entries@).take(i as int) =~= entries_view(entries@));
    }
    select_account_files(&pairs, false)
}

/// The skill directories to upload from the skills directory: sub-directories whose name
/// neither starts with a dot nor is `dist`, each to the child endpoint named after it.
pub open spec fn skill_steps(c: WebDavConfigView, es: Seq<(Seq<char>, bool)>) -> Seq<SyncStepView>
    decreases es.len(),
{
    if es.len() == 0 {
        Seq::empty()
    } else {
        let rest = skill_steps(c, es.drop_last());
        let (n, d) = es.last();
        if d && !(n.len() > 0 && n[0] == '.') && n != seq!['d', 'i', 's', 't'] {
            rest.push(step_for(c, n, true))
        } else {
            rest
        }
    }
}

/// The steps of uploading the skills directory with entries `entries` to `c`.
pub fn plan_skills(c: &WebDavConfig, entries: &Vec<LocalEntry>) -> (r: Vec<SyncStep>)
    ensures
        steps_view(r@) == skill_steps(c@, local_view(entries@)),
{
    let mut out: Vec<SyncStep> = Vec::new();
    let mut i: usize = 0;
    while i < entries.len()
        invariant
            i <= entries@.len(),
            steps_view(out@) == skill_steps(c@, local_view(entries@).take(i as int)),
        decreases entries@.len() - i,
    {
        let ghost before = out@;
        proof {
            assert(local_view(entries@).take(i + 1).drop_last() =~= local_view(entries@).take(i as int));
        }
        let e = &entries[i];
        let n = chars_of(e.name.as_str());
        let is_dist = n.len() == 4 && n[0] == 'd' && n[1] == 'i' && n[2] == 's' && n[3] == 't';
        proof {
            if is_dist {
                assert(n@ =~= seq!['d', 'i', 's', 't']);
            } else if n@.len() == 4 {
                assert(n@[0] != 'd' || n@[1] != 'i' || n@[2] != 's' || n@[3] != 't');
            }
        }
        if e.is_dir && !(n.len() > 0 && n[0] == '.') && !is_dist {
            out.push(step_of(c, &e.name, true));
            proof {
                assert(steps_view(out@) =~= steps_view(before).push(step_for(c@, e.name@, true)));
            }
        }
        i = i + 1;
    }
    proof {
        assert(local_view(entries@).take(i as int) =~= local_view(entries@));
    }
    out
}

/// Where each part of the configuration directory goes in one direction of a sync; a part
/// that the policy leaves out has no endpoint.
pub struct SyncTargets {
    /// The endpoint of the agents document.
    pub agents_md: Option<WebDavConfig>,
    /// The endpoint of the configuration document.
    pub config_toml: Option<WebDavConfig>,
    /// The endpoint of the prompts directory.
    pub prompts: Option<WebDavConfig>,
    /// The endpoint of the skills directory.
    pub skills: Option<WebDavConfig>,
}

/// The view of an optional endpoint.
pub open spec fn opt_view(o: Option<WebDavConfig>) -> Option<WebDavConfigView> {
    match o {
        Some(c) => Some(c@),
        None => None,
    }
}

/// Where each part goes, given the endpoint of the documents: the documents there, the
/// prompts and skills in its sub-directories `prompts` and `skills`, each only where the
/// policy asks for it.
pub open spec fn targets_at(t: SyncTargets, docs: WebDavConfigView, p: CodexSyncConfig) -> bool {
    &&& opt_view(t.agents_md) == (if p.sync_agents_md { Some(docs) } else { None })
    &&& opt_view(t.config_toml) == (if p.sync_config_toml { Some(docs) } else { None })
    &&& opt_view(t.prompts) == (if p.sync_prompts { Some(child_view(docs, seq!['p', 'r', 'o', 'm', 'p', 't', 's'])) } else { None })
    &&& opt_view(t.skills) == (if p.sync_skills { Some(child_view(docs, seq!['s', 'k', 'i', 'l', 'l', 's'])) } else { None })
}

fn copy_config(c: &WebDavConfig) -> (r: WebDavConfig)
    ensures
        r@ == c@,
{
    WebDavConfig {
        url: c.url.clone(),
        username: c.username.clone(),
        password: c.password.clone(),
        remote_path: c.remote_path.clone(),
    }
}

fn targets_for(docs: &WebDavConfig, p: &CodexSyncConfig) -> (r: SyncTargets)
    ensures
        targets_at(r, docs@, *p),
{
    proof {
        reveal_strlit("prompts");
        reveal_strlit("skills");
        assert("prompts"@ =~= seq!['p', 'r', 'o', 'm', 'p', 't', 's']);
        assert("skills"@ =~= seq!['s', 'k', 'i', 'l', 'l', 's']);
    }
    SyncTargets {
        agents_md: if p.sync_agents_md { Some(copy_config(docs)) } else { None },
        config_toml: if p.sync_config_toml { Some(copy_config(docs)) } else { None },
        prompts: if p.sync_prompts { Some(child_config(docs, "prompts")) } else { None },
        skills: if p.sync_skills { Some(child_config(docs, "skills")) } else { None },
    }
}

/// Where an upload of the configuration directory puts each part: the documents in the
/// endpoint's own directory.
pub fn upload_targets(c: &WebDavConfig, p: &CodexSyncConfig) -> (r: SyncTargets)
    ensures
        targets_at(r, c@, *p),
{
    targets_for(c, p)
}

/// Where a download of the configuration directory takes each part from: the same places
/// an upload puts them, the documents in the endpoint's own directory.
pub fn download_targets(c: &WebDavConfig, p: &CodexSyncConfig) -> (r: SyncTargets)
    ensures
        targets_at(r, c@, *p),
{
    targets_for(c, p)
}

/// Upload and download of the configuration directory use one tree: for the same endpoint
/// and policy, every part is downloaded from where it was uploaded.
pub proof fn lemma_upload_download_same_tree(up: SyncTargets, down: SyncTargets, c: WebDavConfigView, p: CodexSyncConfig)
    requires
        targets_at(up, c, p),
        targets_at(down, c, p),
    ensures
        opt_view(up.agents_md) == opt_view(down.agents_md),
        opt_view(up.config_toml) == opt_view(down.config_toml),
        opt_view(up.prompts) == opt_view(down.prompts),
        opt_view(up.skills) == opt_view(down.skills),
{
}

/// The endpoint of the credential files: the endpoint's sub-directory `accounts`.
pub fn accounts_endpoint(c: &WebDavConfig) -> (r: WebDavConfig)
    ensures
        r@ == child_view(c@, seq!['a', 'c', 'c', 'o', 'u', 'n', 't', 's']),
{
    proof {
        reveal_strlit("accounts");
        assert("accounts"@ =~= seq!['a', 'c', 'c', 'o', 'u', 'n', 't', 's']);
    }
    child_config(c, "accounts")
}

} // verus!
