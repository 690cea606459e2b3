//! The file transfer protocol: the metadata that opens each file, where a
//! received file goes, and the per-file state machines of the receiving and
//! the sending side, with the receiver-cancelled close code between them.
use vstd::prelude::*;
use crate::path::{
    flat_name, flat_name_of, lemma_traversal_refused, raw_components, sanitize_relative_path,
    sanitized,
};
use crate::text::starts_with_text;

verus! {

/// TCP port of the transfer listener.
pub const TRANSFER_PORT: u16 = 7878;

/// Close status that the receiver sends when it cancels a transfer.
pub const CLOSE_CANCELLED_BY_RECEIVER: u16 = 4001;

/// Size of the chunks a sender reads and sends.
pub const CHUNK_SIZE: u64 = 262144;

/// The receiver reports progress at least once per this many bytes.
pub const PROGRESS_INTERVAL: u64 = 102400;

/// The text frame that precedes the bytes of one file.
pub struct FileMeta {
    pub name: String,
    /// Announced length in bytes; zero where the sender announced none.
    pub size: u64,
    /// Position of the file in its batch, from zero.
    pub index: u32,
    /// Number of files in the batch.
    pub total: u32,
    /// Path of the file below the folder that is being sent.
    pub relative_path: Option<String>,
}

pub open spec fn opt_view(o: Option<String>) -> Option<Seq<char>> {
    match o {
        Some(s) => Some(s@),
        None => None,
    }
}

impl FileMeta {
    /// Metadata for the file at `index` of a batch of `count` files.
    pub fn for_batch(
        name: String,
        size: u64,
        index: usize,
        count: usize,
        relative_path: Option<String>,
    ) -> (r: FileMeta)
        requires
            index < count,
            count <= u32::MAX,
        ensures
            r.name == name,
            r.size == size,
            r.index == index,
            r.total == count,
            r.relative_path == relative_path,
    {
        FileMeta { name, size, index: index as u32, total: count as u32, relative_path }
    }
}

/// A file of a local folder to send.
pub struct FolderFile {
    /// Where it is read from.
    pub path: String,
    pub name: String,
    /// Its path below the folder's parent, starting with the folder's name.
    pub relative_path: String,
    pub size: u64,
}

/// A file of a folder in document storage, as the storage provider lists it.
pub struct AndroidFolderFile {
    pub uri: String,
    pub name: String,
    pub relative_path: String,
    pub size: u64,
}

/// A file of a folder in document storage that the user chose to send.
pub struct FolderFileToSend {
    pub uri: String,
    pub name: String,
    pub relative_path: String,
    pub size: u64,
}

/// The relative path of the entry `name` in the folder whose relative path
/// is `base`.
pub fn nested_path(base: &str, name: &str) -> (r: String)
    ensures
        r@ == base@ + seq!['/'] + name@,
{
    let mut out = String::from_str(base);
    out.append("/");
    out.append(name);
    proof {
        reveal_strlit("/");
    }
    out
}

impl FolderFile {
    /// The entry `name`, read from `path`, of the folder whose relative
    /// path is `base`.
    pub fn in_folder(path: String, name: String, base: &str, size: u64) -> (r: FolderFile)
        ensures
            r.path == path,
            r.name == name,
            r.relative_path@ == base@ + seq!['/'] + name@,
            r.size == size,
    {
        let relative_path = nested_path(base, name.as_str());
        FolderFile { path, name, relative_path, size }
    }
}

/// Where received files go by default: the user's download directory,
/// else the home directory.
pub fn choose_download_dir(download: Option<String>, home: Option<String>) -> (r: Result<
    String,
    String,
>)
    ensures
        download matches Some(d) ==> r == Ok::<String, String>(d),
        download is None && home is Some ==> r == Ok::<String, String>(home->Some_0),
        download is None && home is None ==> r is Err,
{
    match download {
        Some(d) => Ok(d),
        None => match home {
            Some(h) => Ok(h),
            None => Err(String::from_str("Cannot determine the download directory")),
        },
    }
}

/// `rel` placed in the directory `dir`.
pub open spec fn join_dir(dir: Seq<char>, rel: Seq<char>) -> Seq<char> {
    if dir.len() == 0 {
        rel
    } else if dir.last() == '/' {
        dir + rel
    } else {
        dir + seq!['/'] + rel
    }
}

/// Index of the last `/` in `q`, or -1.
pub open spec fn last_slash(q: Seq<char>) -> int
    decreases q.len(),
{
    if q.len() == 0 {
        -1
    } else if q.last() == '/' {
        q.len() - 1
    } else {
        last_slash(q.drop_last())
    }
}

/// The directory part of a sanitized relative path; empty for a bare name.
pub open spec fn parent_text(q: Seq<char>) -> Seq<char> {
    if last_slash(q) < 0 {
        Seq::empty()
    } else {
        q.subrange(0, last_slash(q))
    }
}

/// The relative path of `meta` once sanitized, where it has one that passes.
pub open spec fn accepted_relative(meta: FileMeta) -> Option<Seq<char>> {
    match meta.relative_path {
        Some(p) => sanitized(p@),
        None => None,
    }
}

/// A save location in document storage rather than in the file system.
pub open spec fn is_document_tree(dir: Seq<char>) -> bool {
    dir.len() >= 10 && dir.subrange(0, 10) == "content://"@
}

/// Where a received file is written.
pub enum Destination {
    /// A file at `path`; `create_dir` is made first, with its parents.
    File { path: String, create_dir: Option<String> },
    /// A document named `name`, created through the storage provider in the
    /// tree `tree`, or in its `subdirectory` (made where missing).
    Document { tree: String, subdirectory: Option<String>, name: String },
}

pub struct ReceiveTarget {
    /// `None` where the file would have to be stored under its name and
    /// the name gives no safe flat name.
    pub destination: Option<Destination>,
    /// The metadata carried a relative path that was refused; the flat name
    /// is used instead.
    pub path_rejected: bool,
}

/// The destination, in the file system, of a file described by `meta` under
/// `save_dir`.
pub open spec fn file_destination_ok(
    save_dir: Seq<char>,
    meta: FileMeta,
    path: Seq<char>,
    create_dir: Option<Seq<char>>,
) -> bool {
    match accepted_relative(meta) {
        Some(q) => path == join_dir(save_dir, q) && create_dir == Some(
            if parent_text(q).len() > 0 {
                join_dir(save_dir, parent_text(q))
            } else {
                save_dir
            },
        ),
        None => create_dir is None && match flat_name(meta.name@) {
            Some(f) => path == join_dir(save_dir, f),
            None => false,
        },
    }
}

/// The destination, in document storage, of a file described by `meta` in
/// the tree `save_dir`.
pub open spec fn document_destination_ok(
    save_dir: Seq<char>,
    meta: FileMeta,
    tree: Seq<char>,
    subdirectory: Option<Seq<char>>,
    name: Seq<char>,
) -> bool {
    &&& tree == save_dir
    &&& flat_name(meta.name@) == Some(name)
    &&& subdirectory == match accepted_relative(meta) {
        Some(q) => if parent_text(q).len() > 0 {
            Some(parent_text(q))
        } else {
            None
        },
        None => None,
    }
}

pub open spec fn target_ok(save_dir: Seq<char>, meta: FileMeta, r: ReceiveTarget) -> bool {
    &&& r.path_rejected == (meta.relative_path is Some && accepted_relative(meta) is None)
    &&& match r.destination {
        None => flat_name(meta.name@) is None && (is_document_tree(save_dir) || accepted_relative(
            meta,
        ) is None),
        Some(Destination::File { path, create_dir }) => !is_document_tree(save_dir)
            && file_destination_ok(save_dir, meta, path@, opt_view(create_dir)),
        Some(Destination::Document { tree, subdirectory, name }) => is_document_tree(save_dir)
            && document_destination_ok(save_dir, meta, tree@, opt_view(subdirectory), name@),
    }
}

fn join_dir_text(dir: &str, rel: &str) -> (r: String)
    ensures
        r@ == join_dir(dir@, rel@),
{
    let n = dir.unicode_len();
    let mut out = String::from_str(dir);
    proof {
        reveal_strlit("/");
    }
    if n > 0 && dir.get_char(n - 1) != '/' {
        out.append("/");
    }
    out.append(rel);
    out
}

fn parent_of(q: &str) -> (r: String)
    ensures
        r@ == parent_text(q@),
{
    let n = q.unicode_len();
    let mut last: usize = 0;
    let mut found = false;
    let mut i: usize = 0;
    while i < n
        invariant
            n == q@.len(),
            i <= n,
            found ==> last < i && last_slash(q@.subrange(0, i as int)) == last,
            !found ==> last_slash(q@.subrange(0, i as int)) == -1,
        decreases n - i,
    {
        let ghost next = q@.subrange(0, i + 1);
        assert(next.drop_last() =~= q@.subrange(0, i as int));
        if q.get_char(i) == '/' {
            last = i;
            found = true;
        }
        i += 1;
    }
    assert(q@.subrange(0, n as int) =~= q@);
    if found {
        String::from_str(q.substring_char(0, last))
    } else {
        String::new()
    }
}

/// Where the file that `meta` announces is written under `save_dir`. A
/// relative path is sanitized; where it is refused, the flat file name is
/// used and `path_rejected` is set. A `content://` save location is a
/// document tree: the file becomes a document there, in the directory part
/// of the relative path.
pub fn resolve_target(save_dir: &str, meta: &FileMeta) -> (r: ReceiveTarget)
    ensures
        target_ok(save_dir@, *meta, r),
{
    let accepted = match &meta.relative_path {
        Some(p) => sanitize_relative_path(p.as_str()),
        None => None,
    };
    let path_rejected = meta.relative_path.is_some() && accepted.is_none();
    proof {
        reveal_strlit("content://");
    }
    let flat = flat_name_of(meta.name.as_str());
    let destination = if starts_with_text(save_dir, "content://") {
        let subdirectory = match &accepted {
            Some(q) => {
                let d = parent_of(q.as_str());
                if d.unicode_len() > 0 {
                    Some(d)
                } else {
                    None
                }
            },
            None => None,
        };
        match flat {
            Some(name) => Some(
                Destination::Document { tree: String::from_str(save_dir), subdirectory, name },
            ),
            None => None,
        }
    } else {
        match &accepted {
            Some(q) => {
                let d = parent_of(q.as_str());
                let create_dir = if d.unicode_len() > 0 {
                    join_dir_text(save_dir, d.as_str())
                } else {
                    String::from_str(save_dir)
                };
                Some(
                    Destination::File {
                        path: join_dir_text(save_dir, q.as_str()),
                        create_dir: Some(create_dir),
                    },
                )
            },
            None => match flat {
                Some(name) => {
                    let path = join_dir_text(save_dir, name.as_str());
                    Some(Destination::File { path, create_dir: None })
                },
                None => None,
            },
        }
    };
    ReceiveTarget { destination, path_rejected }
}

/// A relative path with a `..` component or a null byte never decides where
/// a file goes: it is reported as refused, and the file is stored directly
/// in the save location under its flat name, or not at all where the name
/// gives none.
pub proof fn lemma_refused_path_falls_back(save_dir: Seq<char>, meta: FileMeta, r: ReceiveTarget)
    requires
        target_ok(save_dir, meta, r),
        meta.relative_path matches Some(p) && ((exists|i: int|
            0 <= i < raw_components(p@).len() && #[trigger] raw_components(p@)[i] == seq![
                '.',
                '.',
            ]) || p@.contains('\0')),
    ensures
        r.path_rejected,
        r.destination is None ==> flat_name(meta.name@) is None,
        r.destination matches Some(Destination::File { path, create_dir }) ==> (flat_name(
            meta.name@,
        ) matches Some(f) && path@ == join_dir(save_dir, f) && create_dir is None),
        r.destination matches Some(Destination::Document { tree, subdirectory, name }) ==> tree@
            == save_dir && flat_name(meta.name@) == Some(name@) && subdirectory is None,
{
    let p = meta.relative_path->Some_0;
    lemma_traversal_refused(p@);
}

} // verus!
