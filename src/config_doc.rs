//! The configuration document: a line-oriented file of top-level `key = value` lines
//! followed by bracketed sections. Filtering keeps the parts that a sync policy shares;
//! merging takes the remote model settings into the local document and leaves every other
//! local line alone.

use vstd::prelude::*;
use crate::model::{texts, CodexSyncConfig};
use crate::text::{chars_of, has_prefix, same_chars, starts_with_chars, string_of, trim_text, trimmed};

verus! {

/// The lines of `s`, split at each newline; the text after the last newline is the last
/// line, empty if `s` ends with a newline.
pub open spec fn split_lines(s: Seq<char>) -> Seq<Seq<char>>
    decreases s.len(),
{
    if s.len() == 0 {
        seq![Seq::empty()]
    } else if s.last() == '\n' {
        split_lines(s.drop_last()).push(Seq::empty())
    } else {
        let p = split_lines(s.drop_last());
        p.update(p.len() - 1, p.last().push(s.last()))
    }
}

/// The lines joined with newlines between them.
pub open spec fn join_lines(ls: Seq<Seq<char>>) -> Seq<char>
    decreases ls.len(),
{
    if ls.len() == 0 {
        Seq::empty()
    } else if ls.len() == 1 {
        ls[0]
    } else {
        join_lines(ls.drop_last()) + seq!['\n'] + ls.last()
    }
}

/// A text without newlines.
pub open spec fn is_line(l: Seq<char>) -> bool {
    forall|i: int| 0 <= i < l.len() ==> #[trigger] l[i] != '\n'
}

/// Texts without newlines.
pub open spec fn are_lines(ls: Seq<Seq<char>>) -> bool {
    forall|i: int| 0 <= i < ls.len() ==> is_line(#[trigger] ls[i])
}

proof fn lemma_split_len(s: Seq<char>)
    ensures
        split_lines(s).len() >= 1,
        are_lines(split_lines(s)),
    decreases s.len(),
{
    if s.len() > 0 {
        lemma_split_len(s.drop_last());
        let p = split_lines(s.drop_last());
        if s.last() != '\n' {
            let q = p.update(p.len() - 1, p.last().push(s.last()));
            assert forall|i: int| 0 <= i < q.len() implies is_line(#[trigger] q[i]) by {
                if i == q.len() - 1 {
                    assert(is_line(p[i]));
                    assert forall|j: int| 0 <= j < q[i].len() implies #[trigger] q[i][j] != '\n' by {
                        if j < p[i].len() {
                            assert(q[i][j] == p[i][j]);
                        }
                    }
                }
            }
        } else {
            let q = p.push(Seq::<char>::empty());
            assert forall|i: int| 0 <= i < q.len() implies is_line(#[trigger] q[i]) by {
                if i < p.len() {
                    assert(q[i] == p[i]);
                }
            }
        }
    }
}

proof fn lemma_split_after_newline(x: Seq<char>, l: Seq<char>)
    requires
        is_line(l),
    ensures
        split_lines(x + seq!['\n'] + l) == split_lines(x).push(l),
    decreases l.len(),
{
    if l.len() == 0 {
        assert(x + seq!['\n'] + l =~= x.push('\n'));
        assert((x + seq!['\n'] + l).drop_last() =~= x);
        assert(l =~= Seq::<char>::empty());
    } else {
        let l0 = l.drop_last();
        assert(is_line(l0)) by {
            assert forall|i: int| 0 <= i < l0.len() implies #[trigger] l0[i] != '\n' by {
                assert(l0[i] == l[i]);
            }
        }
        lemma_split_after_newline(x, l0);
        assert((x + seq!['\n'] + l).drop_last() =~= x + seq!['\n'] + l0);
        assert(l.last() != '\n');
        assert(l0.push(l.last()) =~= l);
        assert(split_lines(x).push(l0).update(split_lines(x).len() as int, l0.push(l.last())) =~= split_lines(
            x,
        ).push(l));
        assert(l0.push(l.last()) =~= l);
    }
}

proof fn lemma_split_single(l: Seq<char>)
    requires
        is_line(l),
    ensures
        split_lines(l) == seq![l],
    decreases l.len(),
{
    if l.len() > 0 {
        let l0 = l.drop_last();
        assert(is_line(l0)) by {
            assert forall|i: int| 0 <= i < l0.len() implies #[trigger] l0[i] != '\n' by {
                assert(l0[i] == l[i]);
            }
        }
        lemma_split_single(l0);
        assert(l.last() != '\n');
        assert(l0.push(l.last()) =~= l);
        assert(seq![l0].update(0, l0.push(l.last())) =~= seq![l]);
        assert(l0.push(l.last()) =~= l);
    } else {
        assert(l =~= Seq::<char>::empty());
    }
}

/// Splitting joined lines gives the lines back.
pub proof fn lemma_split_join(ls: Seq<Seq<char>>)
    requires
        ls.len() >= 1,
        are_lines(ls),
    ensures
        split_lines(join_lines(ls)) == ls,
    decreases ls.len(),
{
    if ls.len() == 1 {
        assert(is_line(ls[0]));
        lemma_split_single(ls[0]);
        assert(seq![ls[0]] =~= ls);
    } else {
        let front = ls.drop_last();
        assert(are_lines(front)) by {
            assert forall|i: int| 0 <= i < front.len() implies is_line(#[trigger] front[i]) by {
                assert(front[i] == ls[i]);
            }
        }
        lemma_split_join(front);
        assert(is_line(ls[ls.len() - 1]));
        lemma_split_after_newline(join_lines(front), ls.last());
        assert(front.push(ls.last()) =~= ls);
    }
}

/// A blank or comment line, given its trimmed text.
pub open spec fn is_filler(t: Seq<char>) -> bool {
    t.len() == 0 || t[0] == '#'
}

/// A section header, given its trimmed text.
pub open spec fn is_header(t: Seq<char>) -> bool {
    t.len() > 0 && t[0] == '['
}

/// A character that ends a key.
pub open spec fn ends_key(c: char) -> bool {
    c == '=' || c == ' ' || c == '\t'
}

/// The length of the key that starts at `i`: up to the first `=`, space or tab.
pub open spec fn key_end(t: Seq<char>, i: int) -> int
    decreases t.len() - i,
{
    if i < 0 || i >= t.len() {
        t.len() as int
    } else if ends_key(t[i]) {
        i
    } else {
        key_end(t, i + 1)
    }
}

/// The key of a `key = value` line, given its trimmed text.
pub open spec fn key_of(t: Seq<char>) -> Seq<char> {
    t.take(key_end(t, 0))
}

/// The prefix of the model settings' keys.
pub open spec fn model_prefix() -> Seq<char> {
    seq!['m', 'o', 'd', 'e', 'l']
}

/// The prefix of the MCP server registry's section names.
pub open spec fn mcp_prefix() -> Seq<char> {
    seq!['m', 'c', 'p', '_', 's', 'e', 'r', 'v', 'e', 'r', 's']
}

/// The prefix of the notices section's name.
pub open spec fn notice_prefix() -> Seq<char> {
    seq!['n', 'o', 't', 'i', 'c', 'e']
}

/// Whether the policy shares the section with header `t`: the MCP server registry by its
/// own flag, notices never (they record what this machine has shown), any other section by
/// the flag for other settings.
pub open spec fn section_shared(t: Seq<char>, p: CodexSyncConfig) -> bool {
    let name = t.drop_first();
    if has_prefix(name, mcp_prefix()) {
        p.sync_mcp_servers
    } else if has_prefix(name, notice_prefix()) {
        false
    } else {
        p.sync_other_config
    }
}

/// Whether the policy shares the top-level line `t`: model settings by their flag, any
/// other by the flag for other settings.
pub open spec fn entry_shared(t: Seq<char>, p: CodexSyncConfig) -> bool {
    if has_prefix(key_of(t), model_prefix()) {
        p.sync_model_config
    } else {
        p.sync_other_config
    }
}

/// Where the filter stands: inside a section or not, whether that section is kept, and
/// whether anything has been kept yet.
pub struct FilterState {
    pub in_section: bool,
    pub keep: bool,
    pub started: bool,
}

/// The state before the first line.
pub open spec fn initial_state() -> FilterState {
    FilterState { in_section: false, keep: false, started: false }
}

/// The text of a line that its kind is read from: the line trimmed.
pub open spec fn line_text(l: Seq<char>) -> Seq<char> {
    if l.len() == 0 {
        l
    } else {
        trimmed(l)
    }
}

/// Whether the filter keeps line `l` in state `st`: a header if its section is shared; a
/// blank or comment line once something is kept and unless it is inside a dropped
/// section; any other line with its section, or at top level if it is shared.
pub open spec fn line_kept(st: FilterState, l: Seq<char>, p: CodexSyncConfig) -> bool {
    let t = line_text(l);
    if is_header(t) {
        section_shared(t, p)
    } else if is_filler(t) {
        st.started && (!st.in_section || st.keep)
    } else if st.in_section {
        st.keep
    } else {
        entry_shared(t, p)
    }
}

/// The state after line `l`.
pub open spec fn next_state(st: FilterState, l: Seq<char>, p: CodexSyncConfig) -> FilterState {
    let t = line_text(l);
    if is_header(t) {
        FilterState { in_section: true, keep: section_shared(t, p), started: st.started || section_shared(t, p) }
    } else {
        FilterState { started: st.started || line_kept(st, l, p), ..st }
    }
}

/// The state after the lines `ls`.
pub open spec fn state_after(ls: Seq<Seq<char>>, p: CodexSyncConfig) -> FilterState
    decreases ls.len(),
{
    if ls.len() == 0 {
        initial_state()
    } else {
        next_state(state_after(ls.drop_last(), p), ls.last(), p)
    }
}

/// The lines that the filter keeps, in order.
pub open spec fn filter_lines(ls: Seq<Seq<char>>, p: CodexSyncConfig) -> Seq<Seq<char>>
    decreases ls.len(),
{
    if ls.len() == 0 {
        Seq::empty()
    } else {
        let prev = filter_lines(ls.drop_last(), p);
        if line_kept(state_after(ls.drop_last(), p), ls.last(), p) {
            prev.push(ls.last())
        } else {
            prev
        }
    }
}

/// The document that the policy shares of `doc`.
pub open spec fn filtered_document(doc: Seq<char>, p: CodexSyncConfig) -> Seq<char> {
    join_lines(filter_lines(split_lines(doc), p))
}

/// The states of a first and a second filtering pass agree where it matters.
pub open spec fn passes_agree(s1: FilterState, s2: FilterState) -> bool {
    &&& s1.started == s2.started
    &&& !s1.in_section ==> !s2.in_section
    &&& (s1.in_section && s1.keep) ==> (s2.in_section && s2.keep)
    &&& (s1.in_section && s1.keep) ==> s1.started
}

proof fn lemma_filter_twice(ls: Seq<Seq<char>>, p: CodexSyncConfig)
    ensures
        filter_lines(filter_lines(ls, p), p) == filter_lines(ls, p),
        passes_agree(state_after(ls, p), state_after(filter_lines(ls, p), p)),
    decreases ls.len(),
{
    if ls.len() > 0 {
        let front = ls.drop_last();
        let l = ls.last();
        lemma_filter_twice(front, p);
        let o = filter_lines(front, p);
        if line_kept(state_after(front, p), l, p) {
            assert(o.push(l).drop_last() =~= o);
            assert(o.push(l).last() == l);
        }
    }
}

/// Filtering is idempotent: filtering an already filtered line sequence with the same
/// policy gives it back unchanged.
pub proof fn lemma_filter_lines_idempotent(ls: Seq<Seq<char>>, p: CodexSyncConfig)
    ensures
        filter_lines(filter_lines(ls, p), p) == filter_lines(ls, p),
{
    lemma_filter_twice(ls, p);
}

proof fn lemma_filter_keeps_lines(ls: Seq<Seq<char>>, p: CodexSyncConfig)
    requires
        are_lines(ls),
    ensures
        are_lines(filter_lines(ls, p)),
    decreases ls.len(),
{
    if ls.len() > 0 {
        let front = ls.drop_last();
        assert(are_lines(front)) by {
            assert forall|i: int| 0 <= i < front.len() implies is_line(#[trigger] front[i]) by {
                assert(front[i] == ls[i]);
            }
        }
        lemma_filter_keeps_lines(front, p);
        let o = filter_lines(front, p);
        assert(is_line(ls[ls.len() - 1]));
        assert forall|i: int| 0 <= i < o.push(ls.last()).len() implies is_line(#[trigger] o.push(ls.last())[i]) by {
            if i < o.len() {
                assert(o.push(ls.last())[i] == o[i]);
            }
        }
    }
}

/// Filtering a document is idempotent: filtering an already filtered document with the
/// same policy yields the same document.
pub proof fn lemma_filter_idempotent(doc: Seq<char>, p: CodexSyncConfig)
    ensures
        filtered_document(filtered_document(doc, p), p) == filtered_document(doc, p),
{
    let ls = split_lines(doc);
    lemma_split_len(doc);
    lemma_filter_keeps_lines(ls, p);
    let o = filter_lines(ls, p);
    lemma_filter_twice(ls, p);
    if o.len() > 0 {
        lemma_split_join(o);
    } else {
        let e = Seq::<char>::empty();
        assert(join_lines(o) =~= e);
        assert(split_lines(e) == seq![e]);
        assert(seq![e].drop_last() =~= Seq::<Seq<char>>::empty());
        assert(filter_lines(seq![e], p) =~= Seq::<Seq<char>>::empty());
    }
}

/// The lines of a document.
pub fn split_document(doc: &str) -> (r: Vec<String>)
    ensures
        texts(r@) == split_lines(doc@),
{
    let d = chars_of(doc);
    let mut done: Vec<String> = Vec::new();
    let mut cur: Vec<char> = Vec::new();
    let mut i: usize = 0;
    proof {
        assert(d@.take(0) =~= Seq::<char>::empty());
        assert(texts(done@).push(cur@) =~= seq![Seq::<char>::empty()]);
    }
    while i < d.len()
        invariant
            i <= d@.len(),
            texts(done@).push(cur@) == split_lines(d@.take(i as int)),
        decreases d@.len() - i,
    {
        let ghost before = texts(done@);
        let ghost cur0 = cur@;
        proof {
            assert(d@.take(i + 1).drop_last() =~= d@.take(i as int));
        }
        if d[i] == '\n' {
            let line = string_of(cur.as_slice());
            done.push(line);
            cur = Vec::new();
            proof {
                assert(texts(done@) =~= before.push(cur0));
                assert(texts(done@).push(cur@) =~= before.push(cur0).push(Seq::<char>::empty()));
            }
        } else {
            cur.push(d[i]);
            proof {
                assert(texts(done@).push(cur@) =~= before.push(cur0).update(before.len() as int, cur0.push(d@[i as int])));
            }
        }
        i = i + 1;
    }
    proof {
        assert(d@.take(i as int) =~= d@);
    }
    let ghost before = texts(done@);
    done.push(string_of(cur.as_slice()));
    proof {
        assert(texts(done@) =~= before.push(cur@));
    }
    done
}

/// The lines joined with newlines between them.
pub fn join_document(lines: &Vec<String>) -> (r: String)
    ensures
        r@ == join_lines(texts(lines@)),
{
    let mut out: Vec<char> = Vec::new();
    let mut i: usize = 0;
    while i < lines.len()
        invariant
            i <= lines@.len(),
            out@ == join_lines(texts(lines@).take(i as int)),
        decreases lines@.len() - i,
    {
        let ghost o = out@;
        proof {
            assert(texts(lines@).take(i + 1).drop_last() =~= texts(lines@).take(i as int));
            assert(texts(lines@).take(i + 1).last() == lines@[i as int]@);
        }
        if i > 0 {
            out.push('\n');
        }
        let mut l = chars_of(lines[i].as_str());
        out.append(&mut l);
        proof {
            if i == 0 {
                assert(o =~= Seq::<char>::empty());
                assert(out@ =~= texts(lines@).take(1)[0]);
            } else {
                assert(out@ =~= o + seq!['\n'] + lines@[i as int]@);
            }
        }
        i = i + 1;
    }
    proof {
        assert(texts(lines@).take(i as int) =~= texts(lines@));
    }
    string_of(out.as_slice())
}

fn line_text_of(l: &str) -> (r: Vec<char>)
    ensures
        r@ == line_text(l@),
{
    if l.is_empty() {
        Vec::new()
    } else {
        chars_of(trim_text(l))
    }
}

fn key_chars(t: &Vec<char>) -> (r: Vec<char>)
    ensures
        r@ == key_of(t@),
{
    let mut i: usize = 0;
    while i < t.len() && !(t[i] == '=' || t[i] == ' ' || t[i] == '\t')
        invariant
            i <= t@.len(),
            key_end(t@, 0) == key_end(t@, i as int),
        decreases t@.len() - i,
    {
        i = i + 1;
    }
    let mut key: Vec<char> = Vec::new();
    let mut j: usize = 0;
    while j < i
        invariant
            i <= t@.len(),
            j <= i,
            key@ == t@.take(j as int),
        decreases i - j,
    {
        key.push(t[j]);
        j = j + 1;
        proof {
            assert(key@ =~= t@.take(j as int));
        }
    }
    key
}

fn key_prefix_is_model(t: &Vec<char>) -> (r: bool)
    ensures
        r == has_prefix(key_of(t@), model_prefix()),
{
    let key = key_chars(t);
    let model: Vec<char> = vec!['m', 'o', 'd', 'e', 'l'];
    starts_with_chars(key.as_slice(), model.as_slice())
}

fn section_shared_of(t: &Vec<char>, p: &CodexSyncConfig) -> (r: bool)
    requires
        is_header(t@),
    ensures
        r == section_shared(t@, *p),
{
    let mut name: Vec<char> = Vec::new();
    let mut j: usize = 1;
    while j < t.len()
        invariant
            1 <= j <= t@.len(),
            name@ == t@.subrange(1, j as int),
        decreases t@.len() - j,
    {
        name.push(t[j]);
        j = j + 1;
        proof {
            assert(name@ =~= t@.subrange(1, j as int));
        }
    }
    proof {
        assert(name@ =~= t@.drop_first());
    }
    let mcp: Vec<char> = vec!['m', 'c', 'p', '_', 's', 'e', 'r', 'v', 'e', 'r', 's'];
    let notice: Vec<char> = vec!['n', 'o', 't', 'i', 'c', 'e'];
    if starts_with_chars(name.as_slice(), mcp.as_slice()) {
        p.sync_mcp_servers
    } else if starts_with_chars(name.as_slice(), notice.as_slice()) {
        false
    } else {
        p.sync_other_config
    }
}

/// The lines of `lines` that the policy shares.
pub fn filter_config_lines(lines: &Vec<String>, p: &CodexSyncConfig) -> (r: Vec<String>)
    ensures
        texts(r@) == filter_lines(texts(lines@), *p),
{
    let mut out: Vec<String> = Vec::new();
    let mut in_section = false;
    let mut keep = false;
    let mut started = false;
    let mut i: usize = 0;
    while i < lines.len()
        invariant
            i <= lines@.len(),
            texts(out@) == filter_lines(texts(lines@).take(i as int), *p),
            state_after(texts(lines@).take(i as int), *p) == (FilterState { in_section, keep, started }),
        decreases lines@.len() - i,
    {
        let ghost before = texts(out@);
        proof {
            assert(texts(lines@).take(i + 1).drop_last() =~= texts(lines@).take(i as int));
            assert(texts(lines@).take(i + 1).last() == lines@[i as int]@);
        }
        let t = line_text_of(lines[i].as_str());
        let kept: bool;
        if t.len() > 0 && t[0] == '[' {
            let shared = section_shared_of(&t, p);
            kept = shared;
            in_section = true;
            keep = shared;
        } else if t.len() == 0 || t[0] == '#' {
            kept = started && (!in_section || keep);
        } else if in_section {
            kept = keep;
        } else {
            kept = if key_prefix_is_model(&t) {
                p.sync_model_config
            } else {
                p.sync_other_config
            };
        }
        started = started || kept;
        if kept {
            out.push(lines[i].clone());
            proof {
                assert(texts(out@) =~= before.push(lines@[i as int]@));
            }
        }
        i = i + 1;
    }
    proof {
        assert(texts(lines@).take(i as int) =~= texts(lines@));
    }
    out
}

/// The part of the configuration document that the policy shares: section by section and
/// line by line, with blank and comment lines kept only once something is kept.
pub fn filter_config(doc: &str, p: &CodexSyncConfig) -> (r: String)
    ensures
        r@ == filtered_document(doc@, *p),
{
    let lines = split_document(doc);
    let kept = filter_config_lines(&lines, p);
    join_document(&kept)
}

/// The first line from `j` on that is at top level and has the key `key`; none is at top
/// level after the first header.
pub open spec fn find_entry(ls: Seq<Seq<char>>, key: Seq<char>, j: int) -> Option<int>
    decreases ls.len() - j,
{
    if j < 0 || j >= ls.len() {
        None
    } else {
        let t = line_text(ls[j]);
        if is_header(t) {
            None
        } else if !is_filler(t) && key_of(t) == key {
            Some(j)
        } else {
            find_entry(ls, key, j + 1)
        }
    }
}

/// The lines `ls` with the remote line `r` taken in: it replaces the top-level line with
/// the same key, or goes in front when there is none. A local line matches when its
/// trimmed text starts with the remote key and the key ends there (at `=`, a space, a tab
/// or the end of the line), so that `model` never replaces `model_provider`.
pub open spec fn merge_line(ls: Seq<Seq<char>>, r: Seq<char>) -> Seq<Seq<char>> {
    match find_entry(ls, key_of(line_text(r)), 0) {
        Some(j) => ls.update(j, r),
        None => seq![r] + ls,
    }
}

/// The top-level model settings of `rs` from line `j` on, in order.
pub open spec fn model_lines(rs: Seq<Seq<char>>, j: int) -> Seq<Seq<char>>
    decreases rs.len() - j,
{
    if j < 0 || j >= rs.len() {
        Seq::empty()
    } else {
        let t = line_text(rs[j]);
        if is_header(t) {
            Seq::empty()
        } else if !is_filler(t) && has_prefix(key_of(t), model_prefix()) {
            seq![rs[j]] + model_lines(rs, j + 1)
        } else {
            model_lines(rs, j + 1)
        }
    }
}

/// The lines `ls` with the lines `ms` taken in one after the other.
pub open spec fn merge_all(ls: Seq<Seq<char>>, ms: Seq<Seq<char>>) -> Seq<Seq<char>>
    decreases ms.len(),
{
    if ms.len() == 0 {
        ls
    } else {
        merge_all(merge_line(ls, ms[0]), ms.drop_first())
    }
}

/// The local document after a merge with the remote one: where the policy shares model
/// settings, each top-level model setting of the remote document replaces the local line
/// with its key or goes in front; otherwise the local document as it is.
pub open spec fn merged_document(local: Seq<char>, remote: Seq<char>, p: CodexSyncConfig) -> Seq<char> {
    if p.sync_model_config {
        join_lines(merge_all(split_lines(local), model_lines(split_lines(remote), 0)))
    } else {
        local
    }
}

fn model_lines_of(rs: &Vec<String>) -> (r: Vec<String>)
    ensures
        texts(r@) == model_lines(texts(rs@), 0),
{
    let ghost v = texts(rs@);
    let mut out: Vec<String> = Vec::new();
    let mut j: usize = 0;
    while j < rs.len()
        invariant
            j <= rs@.len(),
            v == texts(rs@),
            texts(out@) + model_lines(v, j as int) == model_lines(v, 0),
        decreases rs@.len() - j,
    {
        let ghost before = texts(out@);
        let t = line_text_of(rs[j].as_str());
        assert(v[j as int] == rs@[j as int]@);
        if t.len() > 0 && t[0] == '[' {
            proof {
                assert(model_lines(v, j as int) =~= Seq::<Seq<char>>::empty());
                assert(before + Seq::<Seq<char>>::empty() =~= before);
            }
            return out;
        }
        if !(t.len() == 0 || t[0] == '#') && key_prefix_is_model(&t) {
            out.push(rs[j].clone());
            proof {
                assert(texts(out@) =~= before.push(v[j as int]));
                assert(before + model_lines(v, j as int) =~= texts(out@) + model_lines(v, j + 1));
            }
        }
        j = j + 1;
    }
    proof {
        assert(texts(out@) + Seq::<Seq<char>>::empty() =~= texts(out@));
    }
    out
}

fn find_entry_of(ls: &Vec<String>, key: &Vec<char>) -> (r: Option<usize>)
    ensures
        match r {
            Some(j) => find_entry(texts(ls@), key@, 0) == Some(j as int) && j < ls@.len(),
            None => find_entry(texts(ls@), key@, 0) is None,
        },
{
    let ghost v = texts(ls@);
    let mut j: usize = 0;
    while j < ls.len()
        invariant
            j <= ls@.len(),
            v == texts(ls@),
            find_entry(v, key@, 0) == find_entry(v, key@, j as int),
        decreases ls@.len() - j,
    {
        let t = line_text_of(ls[j].as_str());
        assert(v[j as int] == ls@[j as int]@);
        if t.len() > 0 && t[0] == '[' {
            return None;
        }
        if !(t.len() == 0 || t[0] == '#') {
            let k = key_chars(&t);
            if same_chars(k.as_slice(), key.as_slice()) {
                return Some(j);
            }
        }
        j = j + 1;
    }
    None
}

/// The lines of the local document after a merge with the lines of the remote one.
pub fn merge_config_lines(local: &Vec<String>, remote: &Vec<String>) -> (r: Vec<String>)
    ensures
        texts(r@) == merge_all(texts(local@), model_lines(texts(remote@), 0)),
{
    let ms = model_lines_of(remote);
    let mut ls: Vec<String> = Vec::new();
    let mut k: usize = 0;
    while k < local.len()
        invariant
            k <= local@.len(),
            texts(ls@) == texts(local@).take(k as int),
        decreases local@.len() - k,
    {
        let ghost before = texts(ls@);
        let c = local[k].clone();
        ls.push(c);
        proof {
            assert(texts(ls@) =~= before.push(local@[k as int]@));
            assert(texts(local@).take(k + 1) =~= texts(local@).take(k as int).push(local@[k as int]@));
        }
        k = k + 1;
    }
    proof {
        assert(texts(local@).take(k as int) =~= texts(local@));
        assert(texts(ms@).skip(0) =~= texts(ms@));
    }
    let mut i: usize = 0;
    while i < ms.len()
        invariant
            i <= ms@.len(),
            merge_all(texts(local@), texts(ms@)) == merge_all(texts(ls@), texts(ms@).skip(i as int)),
        decreases ms@.len() - i,
    {
        let ghost before = texts(ls@);
        proof {
            assert(texts(ms@).skip(i as int)[0] == ms@[i as int]@);
            assert(texts(ms@).skip(i as int).drop_first() =~= texts(ms@).skip(i + 1));
        }
        let t = line_text_of(ms[i].as_str());
        let key = key_chars(&t);
        match find_entry_of(&ls, &key) {
            Some(j) => {
                ls.set(j, ms[i].clone());
                proof {
                    assert(texts(ls@) =~= before.update(j as int, ms@[i as int]@));
                }
            },
            None => {
                ls.insert(0, ms[i].clone());
                proof {
                    assert(texts(ls@) =~= seq![ms@[i as int]@] + before);
                }
            },
        }
        i = i + 1;
    }
    proof {
        assert(texts(ms@).skip(i as int) =~= Seq::<Seq<char>>::empty());
        assert(texts(ms@).skip(0) =~= texts(ms@));
    }
    ls
}

/// The local configuration document after a merge with the remote one: where the policy
/// shares model settings, each top-level model setting of the remote document replaces the
/// local top-level line with the same key in place (a longer key that merely starts with
/// it, as `model_provider` with `model`, is a different setting and is left alone), or goes in front when there is none;
/// every other local line stays as it is. Otherwise the local document is unchanged.
pub fn merge_config(local: &str, remote: &str, p: &CodexSyncConfig) -> (r: String)
    ensures
        r@ == merged_document(local@, remote@, *p),
{
    if !p.sync_model_config {
        return local.to_owned();
    }
    let ls = split_document(local);
    let rs = split_document(remote);
    let merged = merge_config_lines(&ls, &rs);
    join_document(&merged)
}

} // verus!
