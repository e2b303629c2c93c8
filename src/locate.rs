use crate::name::{is_path_segment, valid_path_segment};
use crate::object::ValidationError;
use vstd::prelude::*;
use vstd::string::*;

verus! {

/// The name of the repository's metadata directory: `.lucid`.
pub open spec fn reserved_name() -> Seq<char> {
    seq!['.', 'l', 'u', 'c', 'i', 'd']
}

/// Every component is a path segment.
pub open spec fn components_wf(cs: Seq<Seq<char>>) -> bool {
    forall|i: int| 0 <= i < cs.len() ==> #[trigger] is_path_segment(cs[i])
}

/// `/c1/c2/.../cn`, or `/` for the root.
pub open spec fn path_text(cs: Seq<Seq<char>>) -> Seq<char> {
    if cs.len() == 0 {
        seq!['/']
    } else {
        joined(cs)
    }
}

pub open spec fn joined(cs: Seq<Seq<char>>) -> Seq<char>
    decreases cs.len(),
{
    if cs.len() == 0 {
        Seq::empty()
    } else {
        joined(cs.drop_last()) + seq!['/'] + cs.last()
    }
}

/// Where the metadata directory would stand inside `dir`.
pub open spec fn candidate_of(dir: Seq<Seq<char>>) -> Seq<Seq<char>> {
    dir.push(reserved_name())
}

/// The metadata directory found by walking up from `dir`: the candidate of
/// the nearest ancestor (`dir` itself included) whose candidate exists.
pub open spec fn search(dir: Seq<Seq<char>>, existing: Set<Seq<Seq<char>>>) -> Option<Seq<Seq<char>>>
    decreases dir.len(),
{
    if existing.contains(candidate_of(dir)) {
        Some(candidate_of(dir))
    } else if dir.len() == 0 {
        None
    } else {
        search(dir.drop_last(), existing)
    }
}

/// The paths of a filesystem snapshot.
pub open spec fn path_set(existing: Seq<AbsPath>) -> Set<Seq<Seq<char>>> {
    existing.map_values(|p: AbsPath| p@).to_set()
}

/// A canonical absolute path, held as its components from the root down.
pub struct AbsPath {
    components: Vec<String>,
}

impl View for AbsPath {
    type V = Seq<Seq<char>>;

    closed spec fn view(&self) -> Seq<Seq<char>> {
        self.components@.map_values(|c: String| c@)
    }
}

/// Why no repository was located.
#[derive(Clone, Copy, Debug, PartialEq, Eq, Structural)]
pub enum LocateError {
    /// No ancestor up to the root holds the metadata directory.
    NotFound,
}

/// One decision of the upward walk.
pub enum LocateStep {
    /// The metadata directory, and the worktree root that holds it.
    Found { repository: AbsPath, worktree: AbsPath },
    /// Look next in this directory.
    Ascend(AbsPath),
    /// The root was reached without a match.
    NotFound,
}

impl AbsPath {
    #[verifier::type_invariant]
    spec fn inv(&self) -> bool {
        components_wf(self@)
    }

    /// The filesystem root, `/`.
    pub fn root() -> (r: AbsPath)
        ensures
            r@ == Seq::<Seq<char>>::empty(),
    {
        let r = AbsPath { components: Vec::new() };
        assert(r@ =~= Seq::<Seq<char>>::empty());
        r
    }

    /// The path with the given components, each of which must be a segment.
    pub fn from_components(components: Vec<String>) -> (r: Result<AbsPath, ValidationError>)
        ensures
            components_wf(components@.map_values(|c: String| c@)) <==> r is Ok,
            !components_wf(components@.map_values(|c: String| c@)) ==> r == Err::<AbsPath, ValidationError>(ValidationError::MalformedName),
            r matches Ok(p) ==> p@ == components@.map_values(|c: String| c@),
    {
        let ghost vs = components@.map_values(|c: String| c@);
        let n = components.len();
        let mut i: usize = 0;
        while i < n
            invariant
                n == components.len(),
                vs == components@.map_values(|c: String| c@),
                i <= n,
                forall|k: int| 0 <= k < i ==> #[trigger] is_path_segment(vs[k]),
            decreases n - i,
        {
            if !valid_path_segment(components[i].as_str()) {
                assert(!is_path_segment(vs[i as int]));
                return Err(ValidationError::MalformedName);
            }
            i = i + 1;
        }
        Ok(AbsPath { components })
    }

    pub fn components(&self) -> (r: &Vec<String>)
        ensures
            r@.map_values(|c: String| c@) == self@,
    {
        &self.components
    }

    /// A copy of the first `len` components.
    fn prefix_components(&self, len: usize) -> (r: Vec<String>)
        requires
            len <= self@.len(),
        ensures
            r@.map_values(|c: String| c@) == self@.take(len as int),
    {
        let mut out: Vec<String> = Vec::new();
        let mut i: usize = 0;
        while i < len
            invariant
                i <= len <= self.components.len(),
                out@.len() == i,
                forall|k: int| 0 <= k < i ==> #[trigger] out@[k]@ == self@[k],
            decreases len - i,
        {
            out.push(self.components[i].clone());
            i = i + 1;
        }
        assert(out@.map_values(|c: String| c@) =~= self@.take(len as int));
        out
    }

    /// The path made of the first `len` components.
    fn prefix(&self, len: usize) -> (r: AbsPath)
        requires
            len <= self@.len(),
        ensures
            r@ == self@.take(len as int),
    {
        proof {
            use_type_invariant(self);
        }
        AbsPath { components: self.prefix_components(len) }
    }

    /// The containing directory; none for the root.
    pub fn parent(&self) -> (r: Option<AbsPath>)
        ensures
            self@.len() == 0 <==> r is None,
            r matches Some(p) ==> p@ == self@.drop_last(),
    {
        let n = self.components.len();
        if n == 0 {
            None
        } else {
            let p = self.prefix(n - 1);
            assert(self@.take(n - 1) =~= self@.drop_last());
            Some(p)
        }
    }

    /// The child of this directory named `name`.
    pub fn join(&self, name: String) -> (r: Result<AbsPath, ValidationError>)
        ensures
            is_path_segment(name@) <==> r is Ok,
            !is_path_segment(name@) ==> r == Err::<AbsPath, ValidationError>(ValidationError::MalformedName),
            r matches Ok(p) ==> p@ == self@.push(name@),
    {
        if !valid_path_segment(name.as_str()) {
            return Err(ValidationError::MalformedName);
        }
        proof {
            use_type_invariant(self);
        }
        let mut cs = self.prefix_components(self.components.len());
        assert(self@.take(self@.len() as int) =~= self@);
        cs.push(name);
        assert(cs@.map_values(|c: String| c@) =~= self@.push(name@));
        Ok(AbsPath { components: cs })
    }

    /// The path as text: `/` for the root, `/a/b` below it.
    pub fn to_path_string(&self) -> (r: String)
        ensures
            r@ == path_text(self@),
    {
        proof {
            reveal_strlit("/");
        }
        let n = self.components.len();
        if n == 0 {
            let r = String::from_str("/");
            assert(r@ =~= seq!['/']);
            return r;
        }
        let mut out = String::new();
        let mut i: usize = 0;
        while i < n
            invariant
                n == self.components.len(),
                i <= n,
                out@ == joined(self@.take(i as int)),
            decreases n - i,
        {
            proof {
                reveal_strlit("/");
            }
            out.append("/");
            out.append(self.components[i].as_str());
            proof {
                let s = self@.take(i as int + 1);
                assert(s.drop_last() =~= self@.take(i as int));
                assert(s.last() == self.components@[i as int]@);
                assert(out@ =~= joined(s));
            }
            i = i + 1;
        }
        assert(self@.take(n as int) =~= self@);
        out
    }

    /// Whether the two paths are the same.
    pub fn same_as(&self, other: &AbsPath) -> (r: bool)
        ensures
            r == (self@ == other@),
    {
        let n = self.components.len();
        assert(self@.len() == n && other@.len() == other.components.len());
        if n != other.components.len() {
            return false;
        }
        let mut i: usize = 0;
        while i < n
            invariant
                n == self.components.len(),
                n == other.components.len(),
                i <= n,
                forall|k: int| 0 <= k < i ==> self@[k] == other@[k],
            decreases n - i,
        {
            if self.components[i] != other.components[i] {
                assert(self@[i as int] != other@[i as int]);
                return false;
            }
            i = i + 1;
        }
        assert(self@ =~= other@);
        true
    }
}

/// Where the metadata directory would stand inside `dir`.
pub fn candidate(dir: &AbsPath) -> (r: AbsPath)
    ensures
        r@ == candidate_of(dir@),
{
    let name = String::from_str(".lucid");
    proof {
        reveal_strlit(".lucid");
        reveal_strlit("/");
    }
    assert(name@ =~= reserved_name());
    assert(is_path_segment(name@));
    match dir.join(name) {
        Ok(p) => p,
        Err(_) => {
            assert(false);
            AbsPath::root()
        },
    }
}

/// What the walk does in `dir`, given whether its candidate exists.
///
/// An existing entry of the reserved name is taken as the metadata
/// directory whatever kind of filesystem object it is.
pub fn locate_step(dir: &AbsPath, candidate_exists: bool) -> (r: LocateStep)
    ensures
        candidate_exists <==> r is Found,
        r matches LocateStep::Found { repository, worktree } ==> repository@ == candidate_of(dir@)
            && worktree@ == dir@,
        !candidate_exists && dir@.len() == 0 ==> r is NotFound,
        !candidate_exists && dir@.len() > 0 ==> (r matches LocateStep::Ascend(p) && p@ == dir@.drop_last()),
{
    if candidate_exists {
        let repository = candidate(dir);
        let worktree = dir.prefix(dir.components.len());
        assert(dir@.take(dir@.len() as int) =~= dir@);
        LocateStep::Found { repository, worktree }
    } else {
        match dir.parent() {
            Some(p) => LocateStep::Ascend(p),
            None => LocateStep::NotFound,
        }
    }
}

/// Whether `p` is among the `existing` paths.
fn contains_path(existing: &Vec<AbsPath>, p: &AbsPath) -> (r: bool)
    ensures
        r == path_set(existing@).contains(p@),
{
    let ghost vs = existing@.map_values(|q: AbsPath| q@);
    let n = existing.len();
    let mut i: usize = 0;
    while i < n
        invariant
            n == existing.len(),
            vs == existing@.map_values(|q: AbsPath| q@),
            i <= n,
            forall|k: int| 0 <= k < i ==> vs[k] != p@,
        decreases n - i,
    {
        if existing[i].same_as(p) {
            assert(vs[i as int] == p@);
            assert(vs.to_set().contains(p@));
            return true;
        }
        i = i + 1;
    }
    assert(!vs.to_set().contains(p@)) by {
        if vs.to_set().contains(p@) {
            let k = choose|k: int| 0 <= k < vs.len() && vs[k] == p@;
        }
    }
    false
}

/// The metadata directory found by walking up from `start` in a filesystem
/// whose existing paths are `existing`.
pub fn locate_repository_directory(start: &AbsPath, existing: &Vec<AbsPath>) -> (r: Result<AbsPath, LocateError>)
    ensures
        search(start@, path_set(existing@)) is None <==> r is Err,
        r is Err ==> r == Err::<AbsPath, LocateError>(LocateError::NotFound),
        r matches Ok(p) ==> search(start@, path_set(existing@)) == Some(p@),
{
    let ghost s = path_set(existing@);
    let mut dir = start.prefix(start.components.len());
    assert(start@.take(start@.len() as int) =~= start@);
    loop
        invariant
            search(start@, s) == search(dir@, s),
            s == path_set(existing@),
        decreases dir@.len(),
    {
        let c = candidate(&dir);
        let found = contains_path(existing, &c);
        match locate_step(&dir, found) {
            LocateStep::Found { repository, .. } => {
                return Ok(repository);
            },
            LocateStep::Ascend(p) => {
                dir = p;
            },
            LocateStep::NotFound => {
                return Err(LocateError::NotFound);
            },
        }
    }
}

/// The worktree root: the directory that holds the metadata directory found
/// by walking up from `start`.
pub fn worktree_root(start: &AbsPath, existing: &Vec<AbsPath>) -> (r: Result<AbsPath, LocateError>)
    ensures
        search(start@, path_set(existing@)) is None <==> r is Err,
        r is Err ==> r == Err::<AbsPath, LocateError>(LocateError::NotFound),
        r matches Ok(p) ==> search(start@, path_set(existing@)) == Some(p@.push(reserved_name())),
{
    match locate_repository_directory(start, existing) {
        Ok(repository) => match repository.parent() {
            Some(p) => {
                proof {
                    lemma_search_is_candidate(start@, path_set(existing@));
                    assert(repository@ =~= p@.push(reserved_name()));
                }
                Ok(p)
            },
            None => {
                proof {
                    lemma_search_is_candidate(start@, path_set(existing@));
                }
                Err(LocateError::NotFound)
            },
        },
        Err(e) => Err(e),
    }
}

/// A located metadata directory is the candidate of some ancestor.
pub proof fn lemma_search_is_candidate(dir: Seq<Seq<char>>, existing: Set<Seq<Seq<char>>>)
    ensures
        search(dir, existing) matches Some(p) ==> p.len() > 0 && p.last() == reserved_name()
            && existing.contains(p),
    decreases dir.len(),
{
    if !existing.contains(candidate_of(dir)) && dir.len() > 0 {
        lemma_search_is_candidate(dir.drop_last(), existing);
    }
}

/// When no ancestor of `start` up to the root, `start` and the root included,
/// holds the reserved name, the walk ends without a repository.
pub proof fn no_candidate_means_not_found(start: Seq<Seq<char>>, existing: Set<Seq<Seq<char>>>)
    requires
        forall|k: int| 0 <= k <= start.len() ==> !existing.contains(#[trigger] candidate_of(start.take(k))),
    ensures
        search(start, existing) is None,
    decreases start.len(),
{
    assert(start.take(start.len() as int) =~= start);
    if start.len() > 0 {
        let d = start.drop_last();
        assert forall|k: int| 0 <= k <= d.len() implies !existing.contains(
            #[trigger] candidate_of(d.take(k)),
        ) by {
            assert(d.take(k) =~= start.take(k));
        }
        no_candidate_means_not_found(d, existing);
    }
}

/// The walk returns the metadata directory of the deepest ancestor of
/// `start` (`start` itself included) that holds one.
pub proof fn nearest_candidate_is_found(start: Seq<Seq<char>>, existing: Set<Seq<Seq<char>>>, k: int)
    requires
        0 <= k <= start.len(),
        existing.contains(candidate_of(start.take(k))),
        forall|m: int| k < m <= start.len() ==> !existing.contains(#[trigger] candidate_of(start.take(m))),
    ensures
        search(start, existing) == Some(candidate_of(start.take(k))),
    decreases start.len(),
{
    assert(start.take(start.len() as int) =~= start);
    if k < start.len() {
        let d = start.drop_last();
        assert(d.take(k) =~= start.take(k));
        assert forall|m: int| k < m <= d.len() implies !existing.contains(
            #[trigger] candidate_of(d.take(m)),
        ) by {
            assert(d.take(m) =~= start.take(m));
        }
        nearest_candidate_is_found(d, existing, k);
    }
}

} // verus!
