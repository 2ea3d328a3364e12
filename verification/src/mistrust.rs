//! Permission checks for filesystem objects, over a plain model of their
//! metadata.  The walking of the filesystem itself happens outside the
//! library; the policy that judges what was found is verified here.

use vstd::prelude::*;

verus! {

/// The sticky bit: contents of such a directory may only be renamed or
/// deleted by their owner, as for shared temporary directories.
pub const STICKY_BIT: u32 = 0o1000;

/// What kind of object a path is required to be.
#[derive(Clone, Copy, PartialEq, Eq, Structural, Debug)]
pub enum Type {
    /// A directory.
    Dir,
    /// A regular file.
    File,
    /// A directory or a regular file.
    DirOrFile,
    /// Anything at all.
    Anything,
}

/// What kind of object a path turned out to be.
#[derive(Clone, Copy, PartialEq, Eq, Structural, Debug)]
pub enum FsType {
    /// A directory.
    Dir,
    /// A regular file.
    File,
    /// Something else.
    Other,
}

/// Where a checked path stands relative to the target of the check.
#[derive(Clone, Copy, PartialEq, Eq, Structural, Debug)]
pub enum PathType {
    /// A symbolic link crossed while resolving the target.
    Symlink,
    /// A directory on the way to the target.
    Intermediate,
    /// The target itself.
    Final,
    /// An object contained in the target directory.
    Content,
}

/// The metadata of one filesystem object, as plain values.
#[derive(Clone, Copy, PartialEq, Eq, Structural, Debug)]
pub struct MetaModel {
    /// What kind of object it is.
    pub fs_type: FsType,
    /// The owning user id.
    pub uid: u32,
    /// The owning group id.
    pub gid: u32,
    /// The permission bits.
    pub mode: u32,
}

/// A security problem found with a checked object.
#[derive(Clone, Copy, PartialEq, Eq, Structural, Debug)]
pub enum FsError {
    /// The object is not of the required kind.
    BadType,
    /// The object is owned by this untrusted user.
    BadOwner(u32),
    /// The object carries these forbidden permission bits.
    BadPermission(u32),
}

/// The checking policy: whom to trust and what to require of the target.
#[derive(Clone, Copy, PartialEq, Eq, Structural, Debug)]
pub struct Verifier {
    /// A user id trusted besides root, if any.
    pub trust_uid: Option<u32>,
    /// A group id whose access is tolerated, if any.
    pub trust_gid: Option<u32>,
    /// Whether the target may be readable by others.
    pub readable_okay: bool,
    /// Whether objects inside the target directory are checked too.
    pub check_contents: bool,
    /// What the target itself must be.
    pub enforce_type: Type,
}

/// True when the required kind accepts the found kind.
pub open spec fn spec_type_matches(want: Type, have: FsType) -> bool {
    match want {
        Type::Dir => have is Dir,
        Type::File => have is File,
        Type::DirOrFile => have is Dir || have is File,
        Type::Anything => true,
    }
}

impl Type {
    /// True when this required kind accepts the found kind.
    pub fn matches(&self, have: FsType) -> (r: bool)
        ensures
            r == spec_type_matches(*self, have),
    {
        match self {
            Type::Dir => matches!(have, FsType::Dir),
            Type::File => matches!(have, FsType::File),
            Type::DirOrFile => matches!(have, FsType::Dir | FsType::File),
            Type::Anything => true,
        }
    }
}

/// What kind each position along the path must be: directories on the
/// way, the enforced kind at the target, directory-or-file inside it.
pub open spec fn spec_want_type(v: Verifier, pt: PathType) -> Type {
    match pt {
        PathType::Symlink => Type::Anything,
        PathType::Intermediate => Type::Dir,
        PathType::Final => v.enforce_type,
        PathType::Content => Type::DirOrFile,
    }
}

/// The permission bits forbidden at this position: everything beyond the
/// owner when the object must not be readable; nothing for sticky-bit
/// intermediate directories; group and world write bits otherwise.  Group
/// bits are tolerated when the group is trusted.
pub open spec fn spec_forbidden_bits(v: Verifier, pt: PathType, m: MetaModel) -> u32 {
    let base: u32 = if !v.readable_okay && (pt is Final || pt is Content) {
        0o077
    } else if m.fs_type is Dir && m.mode & STICKY_BIT != 0 && pt is Intermediate {
        0o000
    } else {
        0o022
    };
    if v.trust_gid == Some(m.gid) {
        base & !0o070u32
    } else {
        base
    }
}

/// The problems one object has: the wrong kind, an untrusted owner, and
/// forbidden permission bits, in that order.  Symbolic links crossed on
/// the way are never a problem by themselves.
pub open spec fn spec_check_one(v: Verifier, pt: PathType, m: MetaModel) -> Seq<FsError> {
    if pt is Symlink {
        Seq::empty()
    } else {
        let type_errs: Seq<FsError> = if !spec_type_matches(spec_want_type(v, pt), m.fs_type) {
            seq![FsError::BadType]
        } else {
            Seq::empty()
        };
        let owner_errs: Seq<FsError> = if m.uid != 0 && Some(m.uid) != v.trust_uid {
            seq![FsError::BadOwner(m.uid)]
        } else {
            Seq::empty()
        };
        let bad = m.mode & spec_forbidden_bits(v, pt, m);
        let perm_errs: Seq<FsError> = if bad != 0 {
            seq![FsError::BadPermission(bad)]
        } else {
            Seq::empty()
        };
        type_errs + owner_errs + perm_errs
    }
}

/// The problems of a whole sequence of resolved objects, in order.
pub open spec fn spec_check_entries(v: Verifier, items: Seq<(PathType, MetaModel)>) -> Seq<
    FsError,
>
    decreases items.len(),
{
    if items.len() == 0 {
        Seq::empty()
    } else {
        spec_check_entries(v, items.drop_last()) + spec_check_one(
            v,
            items.last().0,
            items.last().1,
        )
    }
}

impl Verifier {
    /// Check a single object against this policy.
    pub fn check_one(&self, path_type: PathType, meta: &MetaModel) -> (r: Vec<FsError>)
        ensures
            r@ == spec_check_one(*self, path_type, *meta),
    {
        let mut errors: Vec<FsError> = Vec::new();
        if matches!(path_type, PathType::Symlink) {
            proof {
                assert(errors@ =~= spec_check_one(*self, path_type, *meta));
            }
            return errors;
        }
        let want = match path_type {
            PathType::Symlink => Type::Anything,
            PathType::Intermediate => Type::Dir,
            PathType::Final => self.enforce_type,
            PathType::Content => Type::DirOrFile,
        };
        if !want.matches(meta.fs_type) {
            errors.push(FsError::BadType);
        }
        if meta.uid != 0 && Some(meta.uid) != self.trust_uid {
            errors.push(FsError::BadOwner(meta.uid));
        }
        let base: u32 = if !self.readable_okay && (matches!(path_type, PathType::Final)
            || matches!(path_type, PathType::Content)) {
            0o077
        } else if matches!(meta.fs_type, FsType::Dir) && meta.mode & STICKY_BIT != 0 && matches!(
            path_type,
            PathType::Intermediate,
        ) {
            0o000
        } else {
            0o022
        };
        let forbidden: u32 = if self.trust_gid == Some(meta.gid) {
            base & !0o070u32
        } else {
            base
        };
        let bad = meta.mode & forbidden;
        if bad != 0 {
            errors.push(FsError::BadPermission(bad));
        }
        proof {
            assert(errors@ =~= spec_check_one(*self, path_type, *meta));
        }
        errors
    }

    /// Check a sequence of resolved objects against this policy, in order.
    pub fn check_entries(&self, items: &Vec<(PathType, MetaModel)>) -> (r: Vec<FsError>)
        ensures
            r@ == spec_check_entries(*self, items@),
    {
        let mut errors: Vec<FsError> = Vec::new();
        let n = items.len();
        let mut i: usize = 0;
        while i < n
            invariant
                i <= n,
                n == items@.len(),
                errors@ == spec_check_entries(*self, items@.take(i as int)),
            decreases n - i,
        {
            proof {
                assert(items@.take(i + 1 as int).drop_last() =~= items@.take(i as int));
                assert(items@.take(i + 1 as int).last() == items@[i as int]);
            }
            let (path_type, meta) = items[i];
            let mut one = self.check_one(path_type, &meta);
            let m = one.len();
            let mut j: usize = 0;
            while j < m
                invariant
                    j <= m,
                    m == one@.len(),
                    errors@ == spec_check_entries(*self, items@.take(i as int)) + one@.take(
                        j as int,
                    ),
                decreases m - j,
            {
                errors.push(one[j]);
                proof {
                    assert(one@.take(j + 1 as int) =~= one@.take(j as int).push(one@[j as int]));
                    assert(spec_check_entries(*self, items@.take(i as int)) + one@.take(
                        j + 1 as int,
                    ) =~= (spec_check_entries(*self, items@.take(i as int)) + one@.take(
                        j as int,
                    )).push(one@[j as int]));
                }
                j = j + 1;
            }
            proof {
                assert(one@.take(m as int) =~= one@);
            }
            i = i + 1;
        }
        proof {
            assert(items@.take(n as int) =~= items@);
        }
        errors
    }
}

/// The components of a path, as character sequences.
pub open spec fn spec_component_views(v: Seq<String>) -> Seq<Seq<char>> {
    v.map_values(|s: String| s@)
}

/// True when every component of `a` appears, in order, at the start of
/// `b`.
pub open spec fn spec_components_prefix(a: Seq<Seq<char>>, b: Seq<Seq<char>>) -> bool {
    a.len() <= b.len() && (forall|i: int| 0 <= i < a.len() ==> a[i] == #[trigger] b[i])
}

/// Whether a resolved path should be checked at all: paths that are a
/// prefix of the configured ignore prefix are skipped, so that nothing
/// above that directory is judged.
pub fn should_retain(path: &Vec<String>, ignore_prefix: &Option<Vec<String>>) -> (r: bool)
    ensures
        (match ignore_prefix {
            Some(pre) => r == !spec_components_prefix(
                spec_component_views(path@),
                spec_component_views(pre@),
            ),
            None => r,
        }),
{
    match ignore_prefix {
        Some(pre) => {
            let ghost pv = spec_component_views(path@);
            let ghost bv = spec_component_views(pre@);
            if path.len() > pre.len() {
                return true;
            }
            let n = path.len();
            let mut i: usize = 0;
            while i < n
                invariant
                    i <= n,
                    n == path@.len(),
                    n <= pre@.len(),
                    ignore_prefix is Some,
                    pre@ == ignore_prefix->Some_0@,
                    pv == spec_component_views(path@),
                    bv == spec_component_views(pre@),
                    forall|j: int| 0 <= j < i ==> pv[j] == #[trigger] bv[j],
                decreases n - i,
            {
                if !path[i].eq(&pre[i]) {
                    proof {
                        assert(pv.len() == path@.len());
                        assert(bv.len() == pre@.len());
                        assert(pv[i as int] == path@[i as int]@);
                        assert(bv[i as int] == pre@[i as int]@);
                        assert(pv[i as int] != bv[i as int]);
                        assert(!spec_components_prefix(pv, bv));
                    }
                    return true;
                }
                proof {
                    assert(pv[i as int] == path@[i as int]@);
                    assert(bv[i as int] == pre@[i as int]@);
                }
                i = i + 1;
            }
            false
        },
        None => true,
    }
}

} // verus!
