use crate::digest::{is_digest, object_digest, sha1_hex_of, MAX_HASHED_CHARS};
use crate::name::{is_entry_name, valid_entry_name};
use vstd::prelude::*;
use vstd::string::*;

verus! {

/// Why an object could not be built.
#[derive(Clone, Copy, Debug, PartialEq, Eq, Structural)]
pub enum ValidationError {
    /// An entry name is empty or holds a path separator or a line break.
    MalformedName,
    /// Two entries of one tree share a name.
    DuplicateName,
}

/// How a blob is to be checked out.
#[derive(Clone, Copy, Debug, PartialEq, Eq, Structural)]
pub enum FileType {
    NormalFile,
    Executable,
    SymbolicLink,
}

/// The view of a tree entry: role tag, digest of the child, name.
pub type EntryView = (Seq<char>, Seq<char>, Seq<char>);

/// The view of a commit: digest of its tree, digest of its parent if any.
pub type CommitView = (Seq<char>, Option<Seq<char>>);

pub open spec fn file_type_tag(t: FileType) -> Seq<char> {
    match t {
        FileType::NormalFile => seq!['f', 'i', 'l', 'e'],
        FileType::Executable => seq!['e', 'x', 'e', 'c'],
        FileType::SymbolicLink => seq!['l', 'i', 'n', 'k'],
    }
}

pub open spec fn tree_tag() -> Seq<char> {
    seq!['t', 'r', 'e', 'e']
}

pub open spec fn is_role_tag(t: Seq<char>) -> bool {
    t == file_type_tag(FileType::NormalFile) || t == file_type_tag(FileType::Executable)
        || t == file_type_tag(FileType::SymbolicLink) || t == tree_tag()
}

pub open spec fn entry_wf(e: EntryView) -> bool {
    &&& is_role_tag(e.0)
    &&& is_digest(e.1)
    &&& is_entry_name(e.2)
}

/// No two entries share a name.
pub open spec fn names_unique(es: Seq<EntryView>) -> bool {
    forall|i: int, j: int| 0 <= i < j < es.len() ==> #[trigger] es[i].2 != #[trigger] es[j].2
}

pub open spec fn tree_wf(es: Seq<EntryView>) -> bool {
    &&& forall|i: int| 0 <= i < es.len() ==> #[trigger] entry_wf(es[i])
    &&& names_unique(es)
}

/// `blob\n` followed by the contents verbatim.
pub open spec fn blob_text(contents: Seq<char>) -> Seq<char> {
    seq!['b', 'l', 'o', 'b', '\n'] + contents
}

/// `<role-tag> <child-digest> <name>\n`
pub open spec fn entry_line(e: EntryView) -> Seq<char> {
    e.0 + seq![' '] + e.1 + seq![' '] + e.2 + seq!['\n']
}

/// The entry lines, one after another in order.
pub open spec fn tree_lines(es: Seq<EntryView>) -> Seq<char>
    decreases es.len(),
{
    if es.len() == 0 {
        Seq::empty()
    } else {
        tree_lines(es.drop_last()) + entry_line(es.last())
    }
}

pub open spec fn tree_header() -> Seq<char> {
    seq!['t', 'r', 'e', 'e', '\n']
}

/// `tree\n` followed by one line per entry, in insertion order.
pub open spec fn tree_text(es: Seq<EntryView>) -> Seq<char> {
    tree_header() + tree_lines(es)
}

pub open spec fn commit_head() -> Seq<char> {
    seq!['c', 'o', 'm', 'm', 'i', 't', '\n', 't', 'r', 'e', 'e', ' ']
}

pub open spec fn parent_prefix() -> Seq<char> {
    seq!['p', 'a', 'r', 'e', 'n', 't', ' ']
}

/// `parent <digest>\n`
pub open spec fn parent_line(p: Seq<char>) -> Seq<char> {
    parent_prefix() + p + seq!['\n']
}

/// `commit\ntree <tree-digest>\n`, then the parent line if there is a parent.
pub open spec fn commit_text(c: CommitView) -> Seq<char> {
    match c.1 {
        Some(p) => commit_head() + c.0 + seq!['\n'] + parent_line(p),
        None => commit_head() + c.0 + seq!['\n'],
    }
}

pub open spec fn blob_id(contents: Seq<char>) -> Seq<char> {
    object_digest(blob_text(contents))
}

pub open spec fn tree_id(es: Seq<EntryView>) -> Seq<char> {
    object_digest(tree_text(es))
}

pub open spec fn commit_id(c: CommitView) -> Seq<char> {
    object_digest(commit_text(c))
}

/// A file's contents at one point in time.
pub struct Blob {
    contents: String,
}

impl View for Blob {
    type V = Seq<char>;

    closed spec fn view(&self) -> Seq<char> {
        self.contents@
    }
}

impl Blob {
    pub fn new(contents: String) -> (b: Blob)
        ensures
            b@ == contents@,
    {
        Blob { contents }
    }

    pub fn contents(&self) -> (r: &str)
        ensures
            r@ == self@,
    {
        self.contents.as_str()
    }

    /// The canonical serialization.
    pub fn serialize(&self) -> (r: String)
        ensures
            r@ == blob_text(self@),
    {
        let mut out = String::from_str("blob\n");
        proof {
            reveal_strlit("blob\n");
        }
        assert(out@ =~= seq!['b', 'l', 'o', 'b', '\n']);
        out.append(self.contents.as_str());
        out
    }

    /// The identifier: the digest of the canonical serialization.
    pub fn to_hash(&self) -> (r: String)
        requires
            blob_text(self@).len() <= MAX_HASHED_CHARS,
        ensures
            r@ == blob_id(self@),
            is_digest(r@),
    {
        let text = self.serialize();
        sha1_hex_of(text.as_str())
    }
}

/// What a tree entry refers to, by digest.
pub enum TreeEntryData {
    Blob { hash: String, filetype: FileType },
    Tree { hash: String },
}

impl View for TreeEntryData {
    type V = (Seq<char>, Seq<char>);

    open spec fn view(&self) -> (Seq<char>, Seq<char>) {
        match self {
            TreeEntryData::Blob { hash, filetype } => (file_type_tag(*filetype), hash@),
            TreeEntryData::Tree { hash } => (tree_tag(), hash@),
        }
    }
}

/// A named slot of a tree.
pub struct TreeEntry {
    name: String,
    data: TreeEntryData,
}

impl View for TreeEntry {
    type V = EntryView;

    closed spec fn view(&self) -> EntryView {
        (self.data@.0, self.data@.1, self.name@)
    }
}

impl TreeEntry {
    #[verifier::type_invariant]
    spec fn inv(&self) -> bool {
        entry_wf(self@)
    }

    /// An entry that refers to `blob` with the given file type.
    pub fn blob(name: String, blob: &Blob, filetype: FileType) -> (r: Result<TreeEntry, ValidationError>)
        requires
            blob_text(blob@).len() <= MAX_HASHED_CHARS,
        ensures
            is_entry_name(name@) <==> r is Ok,
            !is_entry_name(name@) ==> r == Err::<TreeEntry, ValidationError>(ValidationError::MalformedName),
            r matches Ok(e) ==> e@ == (file_type_tag(filetype), blob_id(blob@), name@),
    {
        if !valid_entry_name(name.as_str()) {
            return Err(ValidationError::MalformedName);
        }
        let hash = blob.to_hash();
        Ok(TreeEntry { name, data: TreeEntryData::Blob { hash, filetype } })
    }

    /// An entry that refers to the subtree `tree`.
    pub fn tree(name: String, tree: &Tree) -> (r: Result<TreeEntry, ValidationError>)
        requires
            tree_text(tree@).len() <= MAX_HASHED_CHARS,
        ensures
            is_entry_name(name@) <==> r is Ok,
            !is_entry_name(name@) ==> r == Err::<TreeEntry, ValidationError>(ValidationError::MalformedName),
            r matches Ok(e) ==> e@ == (tree_tag(), tree_id(tree@), name@),
    {
        if !valid_entry_name(name.as_str()) {
            return Err(ValidationError::MalformedName);
        }
        let hash = tree.to_hash();
        Ok(TreeEntry { name, data: TreeEntryData::Tree { hash } })
    }

    pub fn name(&self) -> (r: &str)
        ensures
            r@ == self@.2,
    {
        self.name.as_str()
    }

    pub fn data(&self) -> (r: &TreeEntryData)
        ensures
            r@ == (self@.0, self@.1),
    {
        &self.data
    }

    /// The role tag: `file`, `exec`, `link` or `tree`.
    pub fn role_tag(&self) -> (r: &str)
        ensures
            r@ == self@.0,
    {
        proof {
            reveal_strlit("file");
            reveal_strlit("exec");
            reveal_strlit("link");
            reveal_strlit("tree");
        }
        match &self.data {
            TreeEntryData::Blob { filetype, .. } => match filetype {
                FileType::NormalFile => {
                    assert("file"@ =~= file_type_tag(FileType::NormalFile));
                    "file"
                },
                FileType::Executable => {
                    assert("exec"@ =~= file_type_tag(FileType::Executable));
                    "exec"
                },
                FileType::SymbolicLink => {
                    assert("link"@ =~= file_type_tag(FileType::SymbolicLink));
                    "link"
                },
            },
            TreeEntryData::Tree { .. } => {
                assert("tree"@ =~= tree_tag());
                "tree"
            },
        }
    }

    /// The digest of the object the entry refers to.
    pub fn hash(&self) -> (r: &str)
        ensures
            r@ == self@.1,
    {
        match &self.data {
            TreeEntryData::Blob { hash, .. } => hash.as_str(),
            TreeEntryData::Tree { hash } => hash.as_str(),
        }
    }

    /// This entry's line of its tree's serialization, appended to `out`.
    fn write_line(&self, out: &mut String)
        ensures
            final(out)@ == old(out)@ + entry_line(self@),
    {
        proof {
            reveal_strlit(" ");
            reveal_strlit("\n");
        }
        out.append(self.role_tag());
        out.append(" ");
        out.append(self.hash());
        out.append(" ");
        out.append(self.name.as_str());
        out.append("\n");
        assert(final(out)@ =~= old(out)@ + entry_line(self@));
    }
}


/// A directory snapshot: entries in insertion order, with unique names.
pub struct Tree {
    entries: Vec<TreeEntry>,
}

impl View for Tree {
    type V = Seq<EntryView>;

    closed spec fn view(&self) -> Seq<EntryView> {
        self.entries@.map_values(|e: TreeEntry| e@)
    }
}

impl Tree {
    #[verifier::type_invariant]
    spec fn inv(&self) -> bool {
        tree_wf(self@)
    }

    /// Builds a tree from its entries, kept in the given order.
    pub fn new(entries: Vec<TreeEntry>) -> (r: Result<Tree, ValidationError>)
        ensures
            names_unique(entries@.map_values(|e: TreeEntry| e@)) <==> r is Ok,
            !names_unique(entries@.map_values(|e: TreeEntry| e@)) ==> r == Err::<Tree, ValidationError>(ValidationError::DuplicateName),
            r matches Ok(t) ==> t@ == entries@.map_values(|e: TreeEntry| e@),
    {
        let ghost vs = entries@.map_values(|e: TreeEntry| e@);
        let n = entries.len();
        let mut i: usize = 0;
        while i < n
            invariant
                n == entries.len(),
                vs == entries@.map_values(|e: TreeEntry| e@),
                i <= n,
                forall|a: int, b: int| 0 <= a < b < n && a < i ==> #[trigger] vs[a].2 != #[trigger] vs[b].2,
                forall|a: int| 0 <= a < i ==> #[trigger] entry_wf(vs[a]),
            decreases n - i,
        {
            let e = &entries[i];
            proof {
                use_type_invariant(e);
            }
            let mut j: usize = i + 1;
            while j < n
                invariant
                    n == entries.len(),
                    vs == entries@.map_values(|e: TreeEntry| e@),
                    i < j <= n,
                    forall|a: int, b: int| 0 <= a < b < n && a < i ==> #[trigger] vs[a].2 != #[trigger] vs[b].2,
                    forall|b: int| i < b < j ==> vs[i as int].2 != #[trigger] vs[b].2,
                decreases n - j,
            {
                if entries[i].name == entries[j].name {
                    assert(vs[i as int].2 == vs[j as int].2);
                    return Err(ValidationError::DuplicateName);
                }
                j = j + 1;
            }
            i = i + 1;
        }
        Ok(Tree { entries })
    }

    pub fn entries(&self) -> (r: &Vec<TreeEntry>)
        ensures
            r@.map_values(|e: TreeEntry| e@) == self@,
    {
        &self.entries
    }

    /// The canonical serialization.
    pub fn serialize(&self) -> (r: String)
        ensures
            r@ == tree_text(self@),
    {
        let mut out = String::from_str("tree\n");
        proof {
            reveal_strlit("tree\n");
        }
        assert(out@ =~= tree_header());
        let n = self.entries.len();
        let mut i: usize = 0;
        while i < n
            invariant
                n == self.entries.len(),
                i <= n,
                out@ == tree_header() + tree_lines(self@.take(i as int)),
            decreases n - i,
        {
            self.entries[i].write_line(&mut out);
            proof {
                let s = self@.take(i as int + 1);
                assert(s.drop_last() =~= self@.take(i as int));
                assert(s.last() == self@[i as int]);
                assert(out@ =~= tree_header() + tree_lines(s));
            }
            i = i + 1;
        }
        assert(self@.take(n as int) =~= self@);
        out
    }

    /// The identifier: the digest of the canonical serialization.
    pub fn to_hash(&self) -> (r: String)
        requires
            tree_text(self@).len() <= MAX_HASHED_CHARS,
        ensures
            r@ == tree_id(self@),
            is_digest(r@),
    {
        let text = self.serialize();
        sha1_hex_of(text.as_str())
    }
}

/// One point in history: a tree and at most one parent, both by digest.
pub struct Commit {
    tree: String,
    parent: Option<String>,
}

impl View for Commit {
    type V = CommitView;

    closed spec fn view(&self) -> CommitView {
        (
            self.tree@,
            match self.parent {
                Some(p) => Some(p@),
                None => None,
            },
        )
    }
}

/// Both digests of a commit are well formed.
pub open spec fn commit_wf(c: CommitView) -> bool {
    &&& is_digest(c.0)
    &&& c.1 matches Some(p) ==> is_digest(p)
}

impl Commit {
    #[verifier::type_invariant]
    spec fn inv(&self) -> bool {
        commit_wf(self@)
    }

    /// A commit of `tree` whose parent is `parent`; a root commit without one.
    pub fn new(tree: &Tree, parent: Option<&Commit>) -> (c: Commit)
        requires
            tree_text(tree@).len() <= MAX_HASHED_CHARS,
        ensures
            c@.0 == tree_id(tree@),
            c@.1 == (match parent {
                Some(p) => Some(commit_id(p@)),
                None => None,
            }),
    {
        let tree_hash = tree.to_hash();
        let parent_hash = match parent {
            Some(p) => Some(p.to_hash()),
            None => None,
        };
        Commit { tree: tree_hash, parent: parent_hash }
    }

    pub fn tree(&self) -> (r: &str)
        ensures
            r@ == self@.0,
    {
        self.tree.as_str()
    }

    pub fn parent(&self) -> (r: Option<&str>)
        ensures
            r matches Some(p) ==> self@.1 == Some(p@),
            r is None ==> self@.1 is None,
    {
        match &self.parent {
            Some(p) => Some(p.as_str()),
            None => None,
        }
    }

    /// The canonical serialization.
    pub fn serialize(&self) -> (r: String)
        ensures
            r@ == commit_text(self@),
    {
        proof {
            reveal_strlit("commit\ntree ");
            reveal_strlit("parent ");
            reveal_strlit("\n");
        }
        let mut out = String::from_str("commit\ntree ");
        assert(out@ =~= commit_head());
        out.append(self.tree.as_str());
        out.append("\n");
        match &self.parent {
            Some(p) => {
                out.append("parent ");
                out.append(p.as_str());
                out.append("\n");
            },
            None => {},
        }
        assert(out@ =~= commit_text(self@));
        out
    }

    /// The identifier: the digest of the canonical serialization.
    pub fn to_hash(&self) -> (r: String)
        ensures
            r@ == commit_id(self@),
            is_digest(r@),
    {
        proof {
            use_type_invariant(self);
        }
        let text = self.serialize();
        sha1_hex_of(text.as_str())
    }
}

} // verus!
