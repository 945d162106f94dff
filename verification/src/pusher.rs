//! Writing one file into the device's file system through the raw console:
//! the commands to run, in order. Each is one round trip; the first failure
//! ends the push.

use vstd::prelude::*;
use vstd::string::StringExecFns;
use base64::Engine;
use crate::bytes::{chunk, chunk_count, split_chunks};
use crate::text::{texts, to_chars};

verus! {

/// File content goes to the device in pieces of this many bytes.
pub const UPLOAD_CHUNK: usize = 1024;

/// The separator of path segments.
pub const SEPARATOR: char = '/';

/// The indices of the separators in `path`, in ascending order.
pub open spec fn separators(path: Seq<char>) -> Seq<int>
    decreases path.len(),
{
    if path.len() == 0 {
        Seq::empty()
    } else if path.last() == SEPARATOR {
        separators(path.drop_last()).push(path.len() - 1)
    } else {
        separators(path.drop_last())
    }
}

/// The directories above the file at `path`, outermost first: for every
/// separator after the first, the path from the first separator up to it.
/// So `/a/b/c.py` lies under `/a` and `/a/b`, and a path with fewer than two
/// separators lies under none.
pub open spec fn ancestor_dirs(path: Seq<char>) -> Seq<Seq<char>> {
    let cuts = separators(path);
    Seq::new(
        if cuts.len() >= 2 {
            (cuts.len() - 1) as nat
        } else {
            0
        },
        |k: int| path.subrange(cuts[0], cuts[k + 1]),
    )
}

/// The separators of a path are indices into it, in strictly ascending order.
pub proof fn lemma_separators_ascend(path: Seq<char>)
    ensures
        forall|j: int|
            0 <= j < separators(path).len() ==> 0 <= #[trigger] separators(path)[j] < path.len(),
        forall|i: int, j: int|
            0 <= i < j < separators(path).len() ==> separators(path)[i] < separators(path)[j],
    decreases path.len(),
{
    if path.len() > 0 {
        let prev = separators(path.drop_last());
        let cuts = separators(path);
        lemma_separators_ascend(path.drop_last());
        assert forall|j: int| 0 <= j < cuts.len() implies 0 <= #[trigger] cuts[j] < path.len() by {
            if j < prev.len() {
                assert(cuts[j] == prev[j]);
            }
        }
        assert forall|i: int, j: int| 0 <= i < j < cuts.len() implies cuts[i] < cuts[j] by {
            assert(cuts[i] == prev[i]);
            if j < prev.len() {
                assert(cuts[j] == prev[j]);
            }
        }
    }
}

/// The directories above the file at `path`, outermost first.
pub fn parent_dirs(path: &str) -> (r: Vec<String>)
    ensures
        texts(r@) == ancestor_dirs(path@),
{
    let chars = to_chars(path);
    let mut dirs: Vec<String> = Vec::new();
    let mut first: Option<usize> = None;
    let ghost mut cuts: Seq<int> = Seq::empty();
    let mut i: usize = 0;
    while i < chars.len()
        invariant
            chars@ == path@,
            i <= chars@.len(),
            cuts == separators(path@.take(i as int)),
            first is Some == (cuts.len() > 0),
            first is Some ==> first->0 == cuts[0],
            dirs@.len() == if cuts.len() >= 2 {
                cuts.len() - 1
            } else {
                0
            },
            forall|k: int|
                0 <= k < dirs@.len() ==> (#[trigger] dirs@[k])@ == path@.subrange(
                    cuts[0],
                    cuts[k + 1],
                ),
        decreases chars@.len() - i,
    {
        proof {
            lemma_separators_ascend(path@.take(i as int));
            assert(path@.take(i + 1).drop_last() =~= path@.take(i as int));
        }
        if chars[i] == SEPARATOR {
            match first {
                None => {
                    first = Some(i);
                },
                Some(from) => {
                    let dir = path.substring_char(from, i);
                    dirs.push(dir.to_owned());
                },
            }
            proof {
                cuts = cuts.push(i as int);
            }
        }
        i += 1;
    }
    proof {
        assert(path@.take(i as int) =~= path@);
    }
    dirs
}

/// The standard base64 text of `data`: the alphabet `A-Z a-z 0-9 + /`, padded
/// with `=`.
pub uninterp spec fn base64_standard(data: Seq<u8>) -> Seq<char>;

/// `base64::Engine::encode` on the engine `base64::prelude::BASE64_STANDARD`.
/// The contract claims that the text returned is a function of the bytes
/// alone, and names it. The call panics where the length of the text does
/// not fit a `usize`; `requires` keeps such inputs out.
#[verifier::external_body]
fn encode_base64(data: &[u8]) -> (r: String)
    requires
        (data@.len() / 3 + 1) * 4 <= usize::MAX,
    ensures
        r@ == base64_standard(data@),
{
    base64::prelude::BASE64_STANDARD.encode(data)
}

/// The command that creates the directory `dir` on the device. It swallows
/// every failure of the creation, that of a directory that exists already
/// among them.
pub open spec fn mkdir_text(dir: Seq<char>) -> Seq<char> {
    "import os\ntry:\n os.mkdir('"@ + dir + "')\nexcept:\n pass"@
}

/// The command that brings in the device's base64 decoder.
pub open spec fn import_text() -> Seq<char> {
    "import ubinascii"@
}

/// The command that opens `path` on the device for binary writing.
pub open spec fn open_text(path: Seq<char>) -> Seq<char> {
    "f=open('"@ + path + "','wb');w=f.write"@
}

/// The command that decodes one piece of content and appends it to the open
/// file.
pub open spec fn write_text(piece: Seq<u8>) -> Seq<char> {
    "w(ubinascii.a2b_base64('"@ + base64_standard(piece) + "'))"@
}

/// The command that closes the file.
pub open spec fn close_text() -> Seq<char> {
    "f.close()"@
}

/// All commands that push `content` to `path`, in order: one directory
/// creation for each directory above the file, outermost first; the import;
/// the open; one write for each piece of [`UPLOAD_CHUNK`] bytes; the close.
pub open spec fn push_texts(path: Seq<char>, content: Seq<u8>) -> Seq<Seq<char>> {
    ancestor_dirs(path).map_values(|dir: Seq<char>| mkdir_text(dir)) + seq![
        import_text(),
        open_text(path),
    ] + Seq::new(
        chunk_count(content.len(), UPLOAD_CHUNK as nat),
        |k: int| write_text(chunk(content, UPLOAD_CHUNK as nat, k)),
    ) + seq![close_text()]
}

/// Every push has commands: the import, the open and the close at least.
pub proof fn lemma_push_has_commands(path: Seq<char>, content: Seq<u8>)
    ensures
        push_texts(path, content).len() >= 3,
{
}

/// The command that creates the directory `dir`.
pub fn mkdir_command(dir: &str) -> (r: String)
    ensures
        r@ == mkdir_text(dir@),
{
    let mut command = String::from_str("import os\ntry:\n os.mkdir('");
    command.append(dir);
    command.append("')\nexcept:\n pass");
    command
}

/// The command that opens `path` for binary writing.
pub fn open_command(path: &str) -> (r: String)
    ensures
        r@ == open_text(path@),
{
    let mut command = String::from_str("f=open('");
    command.append(path);
    command.append("','wb');w=f.write");
    command
}

/// The command that appends `piece` to the open file.
pub fn write_command(piece: &[u8]) -> (r: String)
    requires
        piece@.len() <= UPLOAD_CHUNK,
    ensures
        r@ == write_text(piece@),
{
    let encoded = encode_base64(piece);
    let mut command = String::from_str("w(ubinascii.a2b_base64('");
    command.append(encoded.as_str());
    command.append("'))");
    command
}

/// All commands that push `content` to `path`, in order.
pub fn push_commands(path: &str, content: &[u8]) -> (r: Vec<String>)
    ensures
        texts(r@) == push_texts(path@, content@),
{
    let dirs = parent_dirs(path);
    let ghost above = texts(dirs@);
    let mut commands: Vec<String> = Vec::new();
    let mut d: usize = 0;
    while d < dirs.len()
        invariant
            d <= dirs@.len(),
            texts(dirs@) == above,
            commands@.len() == d,
            forall|k: int|
                0 <= k < d ==> (#[trigger] commands@[k])@ == mkdir_text(above[k]),
        decreases dirs@.len() - d,
    {
        commands.push(mkdir_command(dirs[d].as_str()));
        d += 1;
    }
    commands.push(String::from_str("import ubinascii"));
    commands.push(open_command(path));
    let pieces = split_chunks(content, UPLOAD_CHUNK);
    let ghost base: int = (above.len() + 2) as int;
    let mut p: usize = 0;
    while p < pieces.len()
        invariant
            p <= pieces@.len(),
            base == above.len() + 2,
            pieces@.len() == chunk_count(content@.len(), UPLOAD_CHUNK as nat),
            forall|k: int|
                0 <= k < pieces@.len() ==> (#[trigger] pieces@[k])@ == chunk(
                    content@,
                    UPLOAD_CHUNK as nat,
                    k,
                ),
            commands@.len() == base + p,
            forall|k: int|
                0 <= k < above.len() ==> (#[trigger] commands@[k])@ == mkdir_text(above[k]),
            commands@[base - 2]@ == import_text(),
            commands@[base - 1]@ == open_text(path@),
            forall|k: int|
                0 <= k < p ==> (#[trigger] commands@[base + k])@ == write_text(
                    chunk(content@, UPLOAD_CHUNK as nat, k),
                ),
        decreases pieces@.len() - p,
    {
        commands.push(write_command(pieces[p].as_slice()));
        p += 1;
    }
    commands.push(String::from_str("f.close()"));
    proof {
        let got = texts(commands@);
        let want = push_texts(path@, content@);
        assert forall|k: int| 0 <= k < got.len() implies got[k] == want[k] by {
            if base <= k < base + pieces@.len() {
                assert(got[k] == commands@[base + (k - base)]@);
            }
        }
    }
    commands
}

} // verus!
