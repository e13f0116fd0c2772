use vstd::prelude::*;

verus! {

/// What happened to a watched path.
#[derive(Clone, Copy, Debug, PartialEq, Eq, Structural)]
pub enum ChangeKind {
    Created,
    Modified,
    Removed,
}

/// One filesystem change, as delivered by the watch source.
#[derive(Clone, Debug)]
pub struct ChangeEvent {
    pub path: String,
    pub kind: ChangeKind,
}

/// Why a watch target could not be registered, or why watching ended.
#[derive(Clone, Copy, Debug, PartialEq, Eq, Structural)]
pub enum WatchError {
    /// The path does not exist.
    PathNotFound,
    /// The notification facility refused the path.
    Unsupported,
    /// The event channel closed; watching cannot go on.
    Disconnected,
}

/// A filesystem path to watch, and whether its subdirectories are watched too.
#[derive(Clone, Debug)]
pub struct WatchTarget {
    pub path: String,
    pub recursive: bool,
}

/// The last segment of `p`: what follows its last `/` (all of `p` when it has
/// none).
pub open spec fn file_name_of(p: Seq<char>) -> Seq<char>
    decreases p.len(),
{
    if p.len() == 0 {
        p
    } else if p.last() == '/' {
        Seq::empty()
    } else {
        file_name_of(p.drop_last()).push(p.last())
    }
}

/// `p` names a file whose name carries `suffix` after at least one other
/// character (so `.log` itself does not count for the suffix `.log`).
pub open spec fn has_log_suffix(p: Seq<char>, suffix: Seq<char>) -> bool {
    let name = file_name_of(p);
    &&& name.len() > suffix.len()
    &&& name.subrange(name.len() - suffix.len(), name.len() as int) == suffix
}

/// An event leads to an upload exactly when its path was created or modified
/// and carries the configured suffix.
pub open spec fn triggers_upload(e: ChangeEvent, suffix: Seq<char>) -> bool {
    &&& (e.kind == ChangeKind::Created || e.kind == ChangeKind::Modified)
    &&& has_log_suffix(e.path@, suffix)
}

/// A file whose name ends in one suffix is not taken for a different suffix of
/// the same length: with `.log` configured, no event on a `.txt` file leads
/// to an upload.
pub proof fn lemma_other_suffix_ignored(e: ChangeEvent, other: Seq<char>, suffix: Seq<char>)
    requires
        other.len() == suffix.len(),
        other != suffix,
        has_log_suffix(e.path@, other),
    ensures
        !triggers_upload(e, suffix),
{
}

/// The case of a `.txt` file under the `.log` suffix.
pub proof fn lemma_txt_not_uploaded_under_log(e: ChangeEvent)
    requires
        has_log_suffix(e.path@, ".txt"@),
    ensures
        !triggers_upload(e, ".log"@),
{
    reveal_strlit(".txt");
    reveal_strlit(".log");
    assert(".txt"@[1] != ".log"@[1]);
    lemma_other_suffix_ignored(e, ".txt"@, ".log"@);
}

proof fn lemma_file_name_from(p: Seq<char>, i: int)
    requires
        0 <= i <= p.len(),
        i == 0 || p[i - 1] == '/',
        forall|j: int| i <= j < p.len() ==> p[j] != '/',
    ensures
        file_name_of(p) == p.subrange(i, p.len() as int),
    decreases p.len(),
{
    if p.len() == i {
        if i > 0 {
            assert(p.last() == '/');
        }
        assert(p.subrange(i, p.len() as int) =~= Seq::<char>::empty());
    } else {
        lemma_file_name_from(p.drop_last(), i);
        assert(p.subrange(i, p.len() as int) =~= p.drop_last().subrange(
            i,
            p.len() - 1,
        ).push(p.last()));
    }
}

/// The last segment of `path` (see `file_name_of`).
pub fn file_name(path: &str) -> (r: String)
    ensures
        r@ == file_name_of(path@),
{
    let n = path.unicode_len();
    let mut i: usize = n;
    while i > 0 && path.get_char(i - 1) != '/'
        invariant
            n == path@.len(),
            i <= n,
            forall|j: int| i <= j < n ==> path@[j] != '/',
        decreases i,
    {
        i = i - 1;
    }
    proof {
        lemma_file_name_from(path@, i as int);
    }
    String::from_str(path.substring_char(i, n))
}

/// Whether `path` names a file with the given suffix (see `has_log_suffix`).
pub fn matches_suffix(path: &str, suffix: &str) -> (r: bool)
    ensures
        r == has_log_suffix(path@, suffix@),
{
    let name = file_name(path);
    let nlen = name.as_str().unicode_len();
    let slen = suffix.unicode_len();
    if nlen <= slen {
        return false;
    }
    let start = nlen - slen;
    let mut k: usize = 0;
    while k < slen
        invariant
            name@ == file_name_of(path@),
            nlen == name@.len(),
            slen == suffix@.len(),
            start + slen == nlen,
            k <= slen,
            forall|j: int| 0 <= j < k ==> name@[start + j] == suffix@[j],
        decreases slen - k,
    {
        let c = name.as_str().get_char(start + k);
        if c != suffix.get_char(k) {
            assert(name@.subrange(start as int, nlen as int)[k as int] == c);
            assert(name@.subrange(start as int, nlen as int) != suffix@);
            return false;
        }
        k = k + 1;
    }
    assert(name@.subrange(start as int, nlen as int) =~= suffix@);
    true
}

/// Whether `event` calls for an upload under the configured `suffix`: only
/// creations and modifications of files with that suffix do.
pub fn is_relevant(event: &ChangeEvent, suffix: &str) -> (r: bool)
    ensures
        r == triggers_upload(*event, suffix@),
{
    match event.kind {
        ChangeKind::Created | ChangeKind::Modified => matches_suffix(event.path.as_str(), suffix),
        ChangeKind::Removed => false,
    }
}

/// The targets to register among the configured `paths`: those that exist
/// (`exists[i]` tells of `paths[i]`), watched non-recursively, in order.
pub fn select_watch_targets(paths: &Vec<String>, exists: &Vec<bool>) -> (r: Vec<WatchTarget>)
    requires
        paths@.len() == exists@.len(),
    ensures
        r@.len() <= paths@.len(),
        forall|k: int| 0 <= k < r@.len() ==> !(#[trigger] r@[k]).recursive,
        r@.map_values(|t: WatchTarget| t.path@) == existing_paths(paths@, exists@),
{
    let mut out: Vec<WatchTarget> = Vec::new();
    let mut i: usize = 0;
    while i < paths.len()
        invariant
            paths@.len() == exists@.len(),
            i <= paths@.len(),
            out@.len() <= i,
            forall|k: int| 0 <= k < out@.len() ==> !(#[trigger] out@[k]).recursive,
            out@.map_values(|t: WatchTarget| t.path@) == existing_paths(
                paths@.subrange(0, i as int),
                exists@.subrange(0, i as int),
            ),
        decreases paths@.len() - i,
    {
        let ghost before = out@;
        if exists[i] {
            out.push(WatchTarget { path: paths[i].clone(), recursive: false });
        }
        proof {
            let ps = paths@.subrange(0, i + 1);
            let es = exists@.subrange(0, i + 1);
            assert(ps.drop_last() =~= paths@.subrange(0, i as int));
            assert(es.drop_last() =~= exists@.subrange(0, i as int));
            if exists@[i as int] {
                assert(out@.map_values(|t: WatchTarget| t.path@) =~= before.map_values(
                    |t: WatchTarget| t.path@,
                ).push(paths@[i as int]@));
            } else {
                assert(out@ == before);
            }
        }
        i = i + 1;
    }
    assert(paths@.subrange(0, paths@.len() as int) =~= paths@);
    assert(exists@.subrange(0, exists@.len() as int) =~= exists@);
    out
}

/// The strings of `paths` whose flag in `exists` is set, in order.
pub open spec fn existing_paths(paths: Seq<String>, exists: Seq<bool>) -> Seq<Seq<char>>
    decreases paths.len(),
{
    if paths.len() == 0 || exists.len() == 0 {
        Seq::empty()
    } else {
        let prev = existing_paths(paths.drop_last(), exists.drop_last());
        if exists.last() {
            prev.push(paths.last()@)
        } else {
            prev
        }
    }
}

} // verus!
