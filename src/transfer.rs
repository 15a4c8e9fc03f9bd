use vstd::prelude::*;

verus! {

/// What `Path::join` yields for a base path and a path to append.
pub uninterp spec fn path_joined(base: Seq<char>, part: Seq<char>) -> Seq<char>;

/// What `Path::file_name` yields for a path: its last normal component, if any.
pub uninterp spec fn base_name_of(path: Seq<char>) -> Option<Seq<char>>;

/// Relies on `std::path::Path::join`: the result depends on the two paths alone.
#[verifier::external_body]
fn join_path(base: &String, part: &String) -> (r: String)
    ensures
        r@ == path_joined(base@, part@),
{
    std::path::Path::new(base).join(part).to_string_lossy().into_owned()
}

/// Relies on `std::path::Path::file_name`: the result depends on the path alone.
#[verifier::external_body]
fn base_name(path: &String) -> (r: Option<String>)
    ensures
        match r {
            Some(n) => base_name_of(path@) == Some(n@),
            None => base_name_of(path@) is None,
        },
{
    std::path::Path::new(path).file_name().map(|n| n.to_string_lossy().into_owned())
}

/// The kind of a filesystem entry met during a walk.
#[derive(Debug, Clone, Copy, PartialEq, Eq, Structural)]
pub enum EntryKind {
    Dir,
    File,
    /// Anything else (symbolic links, devices, sockets): neither counted nor copied.
    Other,
}

/// One entry of a source tree walk: its full path, its path relative to the
/// walked root (empty for the root itself), its kind and its byte length.
#[derive(Debug, Clone, PartialEq, Eq)]
pub struct WalkEntry {
    pub path: String,
    pub rel: String,
    pub kind: EntryKind,
    pub len: u64,
}

/// What was found at the source path before copying.
#[derive(Debug, Clone, PartialEq, Eq)]
pub enum SourceScan {
    /// The source could not be read at all (it does not exist, or access failed).
    Unreadable(String),
    /// A single regular file of the given byte length.
    File { len: u64 },
    /// A directory, walked parent before children.
    Tree(Vec<WalkEntry>),
    /// The walk of a directory could not continue.
    WalkFailed(String),
}

/// Why a transfer could not be planned or carried out.
#[derive(Debug, Clone, PartialEq, Eq)]
pub enum TransferError {
    SourceUnreadable(String),
    DestinationUnwritable(String),
    WalkFailed(String),
    /// The byte sizes of the source files add up to more than 64 bits hold.
    TooLarge,
}

/// The byte length of the regular files among the entries.
pub open spec fn file_bytes(es: Seq<WalkEntry>) -> nat
    decreases es.len(),
{
    if es.len() == 0 {
        0
    } else {
        file_bytes(es.drop_last()) + if es.last().kind == EntryKind::File {
            es.last().len as nat
        } else {
            0
        }
    }
}

proof fn lemma_file_bytes_prefix(es: Seq<WalkEntry>, i: int, j: int)
    requires
        0 <= i <= j <= es.len(),
    ensures
        file_bytes(es.subrange(0, i)) <= file_bytes(es.subrange(0, j)),
    decreases j - i,
{
    if i < j {
        lemma_file_bytes_prefix(es, i, j - 1);
        assert(es.subrange(0, j).drop_last() =~= es.subrange(0, j - 1));
    }
}

/// Sums the byte lengths of the regular files of a walk: `None` when the sum
/// does not fit in 64 bits.
pub fn total_size(entries: &Vec<WalkEntry>) -> (r: Option<u64>)
    ensures
        match r {
            Some(t) => t == file_bytes(entries@),
            None => file_bytes(entries@) > u64::MAX,
        },
{
    let mut total: u64 = 0;
    let mut i: usize = 0;
    while i < entries.len()
        invariant
            i <= entries@.len(),
            total == file_bytes(entries@.subrange(0, i as int)),
        decreases entries@.len() - i,
    {
        let e = &entries[i];
        proof {
            assert(entries@.subrange(0, i as int + 1).drop_last() =~= entries@.subrange(0, i as int));
            lemma_file_bytes_prefix(entries@, i as int + 1, entries@.len() as int);
            assert(entries@.subrange(0, entries@.len() as int) =~= entries@);
        }
        if e.kind == EntryKind::File {
            if total > u64::MAX - e.len {
                return None;
            }
            total = total + e.len;
        }
        i = i + 1;
    }
    assert(entries@.subrange(0, i as int) =~= entries@);
    Some(total)
}

/// One step of a copy: create the directory `dest`, or copy the regular file
/// `src` of `len` bytes to `dest`; entries of kind `Other` are left alone.
#[derive(Debug, Clone, PartialEq, Eq)]
pub struct PlannedEntry {
    pub kind: EntryKind,
    pub src: String,
    pub dest: String,
    pub len: u64,
}

/// A copy worked out before any byte is written: the destination root, the
/// number of bytes to transfer and the steps, in the order they are taken.
#[derive(Debug, Clone, PartialEq, Eq)]
pub struct TransferPlan {
    pub root: String,
    pub total_bytes: u64,
    pub entries: Vec<PlannedEntry>,
}

/// Where the copy lands: under a destination directory the source keeps its
/// name; any other destination path is taken as the target itself.
pub open spec fn target_root(name: Seq<char>, dest: Seq<char>, dest_is_dir: bool) -> Seq<char> {
    if dest_is_dir {
        path_joined(dest, name)
    } else {
        dest
    }
}

/// The step `p` handles the walked entry `e` of a tree copied to `root`.
pub open spec fn mirrors(p: PlannedEntry, e: WalkEntry, root: Seq<char>) -> bool {
    &&& p.kind == e.kind
    &&& p.src@ == e.path@
    &&& p.dest@ == path_joined(root, e.rel@)
    &&& p.len == e.len
}

/// The steps of a tree copy: the root directory first, then one step for each
/// walked entry, in walk order.
pub open spec fn tree_plan(es: Seq<WalkEntry>, source: Seq<char>, root: Seq<char>, ps: Seq<PlannedEntry>) -> bool {
    &&& ps.len() == es.len() + 1
    &&& ps[0].kind == EntryKind::Dir
    &&& ps[0].src@ == source
    &&& ps[0].dest@ == root
    &&& ps[0].len == 0
    &&& forall|i: int| 0 <= i < es.len() ==> mirrors(ps[i + 1], #[trigger] es[i], root)
}

/// The steps of a single-file copy: the file itself, to `root`.
pub open spec fn file_plan(source: Seq<char>, len: u64, root: Seq<char>, ps: Seq<PlannedEntry>) -> bool {
    &&& ps.len() == 1
    &&& ps[0].kind == EntryKind::File
    &&& ps[0].src@ == source
    &&& ps[0].dest@ == root
    &&& ps[0].len == len
}

/// Plans the copy of `source`, found as `scan`, to `dest`; `dest_is_dir` tells
/// whether `dest` is an existing directory. Nothing is planned on disk when the
/// source cannot be read, its walk failed, its size overflows or it has no name.
pub fn plan_copy(source: &String, scan: SourceScan, dest: &String, dest_is_dir: bool) -> (r: Result<
    TransferPlan,
    TransferError,
>)
    ensures
        match scan {
            SourceScan::Unreadable(e) => r == Err::<TransferPlan, TransferError>(
                TransferError::SourceUnreadable(e),
            ),
            SourceScan::WalkFailed(e) => r == Err::<TransferPlan, TransferError>(
                TransferError::WalkFailed(e),
            ),
            SourceScan::File { len } => match base_name_of(source@) {
                None => r == Err::<TransferPlan, TransferError>(
                    TransferError::SourceUnreadable(*source),
                ),
                Some(n) => r is Ok && r->Ok_0.total_bytes == len && r->Ok_0.root@ == target_root(
                    n,
                    dest@,
                    dest_is_dir,
                ) && file_plan(source@, len, r->Ok_0.root@, r->Ok_0.entries@),
            },
            SourceScan::Tree(es) => if file_bytes(es@) > u64::MAX {
                r == Err::<TransferPlan, TransferError>(TransferError::TooLarge)
            } else {
                match base_name_of(source@) {
                    None => r == Err::<TransferPlan, TransferError>(
                        TransferError::SourceUnreadable(*source),
                    ),
                    Some(n) => r is Ok && r->Ok_0.total_bytes == file_bytes(es@)
                        && r->Ok_0.root@ == target_root(n, dest@, dest_is_dir) && tree_plan(
                        es@,
                        source@,
                        r->Ok_0.root@,
                        r->Ok_0.entries@,
                    ),
                }
            },
        },
{
    let (total, walk) = match scan {
        SourceScan::Unreadable(e) => {
            return Err(TransferError::SourceUnreadable(e));
        },
        SourceScan::WalkFailed(e) => {
            return Err(TransferError::WalkFailed(e));
        },
        SourceScan::File { len } => (len, None),
        SourceScan::Tree(es) => match total_size(&es) {
            None => {
                return Err(TransferError::TooLarge);
            },
            Some(t) => (t, Some(es)),
        },
    };
    let name = match base_name(source) {
        None => {
            return Err(TransferError::SourceUnreadable(source.clone()));
        },
        Some(n) => n,
    };
    let root = if dest_is_dir {
        join_path(dest, &name)
    } else {
        dest.clone()
    };
    match walk {
        None => {
            let step = PlannedEntry { kind: EntryKind::File, src: source.clone(), dest: root.clone(), len: total };
            let entries = vec![step];
            Ok(TransferPlan { root, total_bytes: total, entries })
        },
        Some(es) => {
            let mut entries: Vec<PlannedEntry> = Vec::new();
            entries.push(PlannedEntry { kind: EntryKind::Dir, src: source.clone(), dest: root.clone(), len: 0 });
            let mut i: usize = 0;
            while i < es.len()
                invariant
                    i <= es@.len(),
                    entries@.len() == i + 1,
                    entries@[0].kind == EntryKind::Dir,
                    entries@[0].src@ == source@,
                    entries@[0].dest@ == root@,
                    entries@[0].len == 0,
                    forall|k: int| 0 <= k < i ==> mirrors(entries@[k + 1], #[trigger] es@[k], root@),
                decreases es@.len() - i,
            {
                let e = &es[i];
                let dest_path = join_path(&root, &e.rel);
                entries.push(PlannedEntry { kind: e.kind, src: e.path.clone(), dest: dest_path, len: e.len });
                i = i + 1;
            }
            Ok(TransferPlan { root, total_bytes: total, entries })
        },
    }
}

/// The byte length of the file-copying steps of a plan.
pub open spec fn planned_bytes(ps: Seq<PlannedEntry>) -> nat
    decreases ps.len(),
{
    if ps.len() == 0 {
        0
    } else {
        planned_bytes(ps.drop_last()) + if ps.last().kind == EntryKind::File {
            ps.last().len as nat
        } else {
            0
        }
    }
}

/// The destinations of the steps of a given kind.
pub open spec fn dests_of_kind(ps: Seq<PlannedEntry>, kind: EntryKind) -> Set<Seq<char>> {
    Set::new(|d: Seq<char>| exists|i: int| 0 <= i < ps.len() && ps[i].kind == kind && #[trigger] ps[i].dest@ == d)
}

/// Where the walked entries of a given kind land under `root`.
pub open spec fn landing_of_kind(es: Seq<WalkEntry>, root: Seq<char>, kind: EntryKind) -> Set<Seq<char>> {
    Set::new(
        |d: Seq<char>|
            exists|i: int| 0 <= i < es.len() && es[i].kind == kind && path_joined(root, #[trigger] es[i].rel@) == d,
    )
}

/// A single-file plan moves exactly the file's bytes.
pub proof fn lemma_file_plan_bytes(source: Seq<char>, len: u64, root: Seq<char>, ps: Seq<PlannedEntry>)
    requires
        file_plan(source, len, root, ps),
    ensures
        planned_bytes(ps) == len,
{
    assert(planned_bytes(ps.drop_last()) == 0);
    assert(ps.last() == ps[0]);
}

/// The file steps of a tree plan carry exactly the bytes that the size pass
/// counted, so progress fed with every copied chunk ends at the total.
pub proof fn lemma_tree_plan_bytes(es: Seq<WalkEntry>, source: Seq<char>, root: Seq<char>, ps: Seq<PlannedEntry>)
    requires
        tree_plan(es, source, root, ps),
    ensures
        planned_bytes(ps) == file_bytes(es),
    decreases es.len(),
{
    if es.len() == 0 {
        assert(planned_bytes(ps.drop_last()) == 0);
        assert(ps.last() == ps[0]);
    } else {
        let es1 = es.drop_last();
        let ps1 = ps.drop_last();
        assert(ps1[0] == ps[0]);
        assert forall|i: int| 0 <= i < es1.len() implies mirrors(ps1[i + 1], #[trigger] es1[i], root) by {
            assert(es1[i] == es[i]);
        }
        lemma_tree_plan_bytes(es1, source, root, ps1);
        assert(mirrors(ps[es.len() as int], es[es.len() - 1], root));
        assert(ps.last() == ps[es.len() as int]);
        assert(es.last() == es[es.len() - 1]);
    }
}

/// A tree copy mirrors the source: the files it writes are exactly the source's
/// regular files placed under the root by their relative paths, and it creates
/// the root and every directory of the source, empty ones included.
pub proof fn lemma_tree_plan_mirrors(es: Seq<WalkEntry>, source: Seq<char>, root: Seq<char>, ps: Seq<PlannedEntry>)
    requires
        tree_plan(es, source, root, ps),
    ensures
        dests_of_kind(ps, EntryKind::File) == landing_of_kind(es, root, EntryKind::File),
        dests_of_kind(ps, EntryKind::Dir) == landing_of_kind(es, root, EntryKind::Dir).insert(root),
{
    assert forall|kind: EntryKind, d: Seq<char>| #[trigger] landing_of_kind(es, root, kind).contains(d) implies dests_of_kind(ps, kind).contains(d) by {
        let i = choose|i: int| 0 <= i < es.len() && es[i].kind == kind && path_joined(root, #[trigger] es[i].rel@) == d;
        assert(mirrors(ps[i + 1], es[i], root));
        assert(ps[i + 1].dest@ == d);
    }
    assert forall|kind: EntryKind, d: Seq<char>| #[trigger] dests_of_kind(ps, kind).contains(d) implies d == root && kind == EntryKind::Dir || landing_of_kind(es, root, kind).contains(d) by {
        let j = choose|j: int| 0 <= j < ps.len() && ps[j].kind == kind && #[trigger] ps[j].dest@ == d;
        if j > 0 {
            assert(mirrors(ps[j], es[j - 1], root));
            assert(path_joined(root, es[j - 1].rel@) == d);
        }
    }
    assert(ps[0].dest@ == root);
    assert(dests_of_kind(ps, EntryKind::Dir).contains(root));
    assert(dests_of_kind(ps, EntryKind::File) =~= landing_of_kind(es, root, EntryKind::File));
    assert(dests_of_kind(ps, EntryKind::Dir) =~= landing_of_kind(es, root, EntryKind::Dir).insert(root));
}

/// Bytes transferred so far against the total found by the size pass.
#[derive(Debug, Clone, PartialEq, Eq)]
pub struct Progress {
    pub total: u64,
    pub copied: u64,
}

impl Progress {
    /// Starts a transfer of `total` bytes with nothing copied.
    pub fn new(total: u64) -> (r: Progress)
        ensures
            r.total == total,
            r.copied == 0,
    {
        Progress { total, copied: 0 }
    }

    /// Records `n` more bytes written; the counter only grows.
    pub fn advance(&mut self, n: u64)
        requires
            old(self).copied + n <= u64::MAX,
        ensures
            final(self).copied == old(self).copied + n,
            final(self).total == old(self).total,
    {
        self.copied = self.copied + n;
    }

    /// Whether the bytes recorded so far reach the total exactly.
    pub fn is_complete(&self) -> (r: bool)
        ensures
            r == (self.copied == self.total),
    {
        self.copied == self.total
    }
}

/// The size of the buffer each file is streamed through.
pub const CHUNK_SIZE: usize = 8192;

/// Why a system command (buffer sync, unmount) did not do its work.
#[derive(Debug, Clone, PartialEq, Eq)]
pub enum ExternalCommandError {
    /// The command could not be started; the text says why.
    LaunchFailed(String),
    /// The command ran and reported failure.
    Failed,
}

/// The verdict on one run of a system command: `launch` is whether it exited
/// successfully, or why it could not be started.
pub fn command_outcome(launch: Result<bool, String>) -> (r: Result<(), ExternalCommandError>)
    ensures
        match launch {
            Err(e) => r == Err::<(), ExternalCommandError>(ExternalCommandError::LaunchFailed(e)),
            Ok(true) => r is Ok,
            Ok(false) => r == Err::<(), ExternalCommandError>(ExternalCommandError::Failed),
        },
{
    match launch {
        Err(e) => Err(ExternalCommandError::LaunchFailed(e)),
        Ok(true) => Ok(()),
        Ok(false) => Err(ExternalCommandError::Failed),
    }
}

} // verus!
