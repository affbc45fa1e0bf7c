//! The decisions of the repository's operations, apart from the file system:
//! what the file system showed comes in as plain values.
use vstd::prelude::*;
use crate::clock::{Instant, clock_now, rfc3339_of, rfc3339_text};
use crate::error::AltsError;
use crate::index::{Config, has_name};
use crate::naming::{opt_view, resolve_name, resolved_name};

verus! {

pub open spec fn component_names(v: Seq<String>) -> Seq<Seq<char>> {
    Seq::new(v.len(), |i: int| v[i]@)
}

/// `target` lies strictly below `base`: `base` is a proper prefix of it, and
/// no component after that prefix is `..`.
pub open spec fn strictly_inside(base: Seq<Seq<char>>, target: Seq<Seq<char>>) -> bool {
    &&& base.len() < target.len()
    &&& target.take(base.len() as int) == base
    &&& forall|k: int| base.len() <= k < target.len() ==> #[trigger] target[k] != seq!['.', '.']
}

/// Whether the path with components `target` lies strictly inside the one
/// with components `base` (both canonical).
pub fn is_strictly_inside(base: &Vec<String>, target: &Vec<String>) -> (r: bool)
    ensures
        r == strictly_inside(component_names(base@), component_names(target@)),
{
    let ghost b = component_names(base@);
    let ghost t = component_names(target@);
    if base.len() >= target.len() {
        return false;
    }
    let mut i: usize = 0;
    while i < base.len()
        invariant
            i <= base@.len() < target@.len(),
            b == component_names(base@),
            t == component_names(target@),
            forall|k: int| 0 <= k < i ==> t[k] == b[k],
        decreases base@.len() - i,
    {
        if base[i] != target[i] {
            assert(t.take(b.len() as int)[i as int] != b[i as int]);
            return false;
        }
        i = i + 1;
    }
    assert(t.take(b.len() as int) =~= b);
    let parent = String::from_str("..");
    proof {
        reveal_strlit("..");
        assert(parent@ =~= seq!['.', '.']);
    }
    let mut j: usize = base.len();
    while j < target.len()
        invariant
            base@.len() <= j <= target@.len(),
            t == component_names(target@),
            parent@ == seq!['.', '.'],
            forall|k: int| base@.len() <= k < j ==> #[trigger] t[k] != seq!['.', '.'],
        decreases target@.len() - j,
    {
        if target[j] == parent {
            assert(t[j as int] == seq!['.', '.']);
            return false;
        }
        j = j + 1;
    }
    true
}

/// Decides whether a repository may be initialized to track a directory, and
/// builds its first state. What the file system showed: whether the directory
/// exists and is one, the components of the canonical working directory
/// (`cwd`) and of the canonical directory (`target`), and whether the control
/// directory exists already.
pub fn plan_init(
    target_exists: bool,
    target_is_dir: bool,
    cwd: &Vec<String>,
    target: &Vec<String>,
    control_exists: bool,
) -> (r: Result<Config, AltsError>)
    ensures
        !target_exists ==> r == Err::<Config, AltsError>(AltsError::TargetMissing),
        target_exists && !target_is_dir ==> r == Err::<Config, AltsError>(AltsError::InvalidTarget),
        target_exists && target_is_dir && !strictly_inside(
            component_names(cwd@),
            component_names(target@),
        ) ==> r == Err::<Config, AltsError>(AltsError::InvalidTarget),
        target_exists && target_is_dir && strictly_inside(
            component_names(cwd@),
            component_names(target@),
        ) && control_exists ==> r == Err::<Config, AltsError>(AltsError::AlreadyInitialized),
        r is Ok <==> target_exists && target_is_dir && strictly_inside(
            component_names(cwd@),
            component_names(target@),
        ) && !control_exists,
        match r {
            Ok(c) => c.wf() && c.entries().len() == 0 && c.target() == component_names(
                target@,
            ).last(),
            Err(_) => true,
        },
{
    if !target_exists {
        return Err(AltsError::TargetMissing);
    }
    if !target_is_dir {
        return Err(AltsError::InvalidTarget);
    }
    if !is_strictly_inside(cwd, target) {
        return Err(AltsError::InvalidTarget);
    }
    if control_exists {
        return Err(AltsError::AlreadyInitialized);
    }
    let name = target[target.len() - 1].clone();
    Ok(Config::new(name))
}

/// Takes `name` for a new checkpoint, unless the index holds it already.
pub fn claim_name(config: &Config, name: String) -> (r: Result<String, AltsError>)
    ensures
        match r {
            Ok(n) => n@ == name@ && !has_name(config.entries(), name@),
            Err(AltsError::NameCollision(n)) => n@ == name@ && has_name(config.entries(), name@),
            Err(_) => false,
        },
{
    if config.contains(&name) {
        Err(AltsError::NameCollision(name))
    } else {
        Ok(name)
    }
}

/// One directory name that stays where it is put: not empty, without a
/// separator, and neither `.` nor `..`.
pub open spec fn plain_name(n: Seq<char>) -> bool {
    &&& n.len() > 0
    &&& !n.contains('/')
    &&& n != seq!['.']
    &&& n != seq!['.', '.']
}

/// Whether `n` is one plain directory name.
pub fn is_plain_name(n: &str) -> (r: bool)
    ensures
        r == plain_name(n@),
{
    let len = n.unicode_len();
    if len == 0 {
        return false;
    }
    if n.get_char(0) == '.' && (len == 1 || (len == 2 && n.get_char(1) == '.')) {
        assert(len == 1 ==> n@ =~= seq!['.']);
        assert(len == 2 ==> n@ =~= seq!['.', '.']);
        return false;
    }
    let mut i: usize = 0;
    while i < len
        invariant
            len == n@.len(),
            i <= len,
            forall|k: int| 0 <= k < i ==> n@[k] != '/',
        decreases len - i,
    {
        if n.get_char(i) == '/' {
            return false;
        }
        i = i + 1;
    }
    assert(n@.len() == 1 ==> n@ != seq!['.']) by {
        if n@.len() == 1 && n@ == seq!['.'] {
            assert(n@[0] == '.');
        }
    }
    assert(n@.len() == 2 ==> n@ != seq!['.', '.']) by {
        if n@.len() == 2 && n@ == seq!['.', '.'] {
            assert(n@[0] == '.' && n@[1] == '.');
        }
    }
    true
}

/// What planning a checkpoint of an existing, non-empty tracked directory
/// gives, once the name `resolved` is known.
pub open spec fn planned(config: Config, resolved: Option<Seq<char>>, r: Result<String, AltsError>) -> bool {
    match r {
        Ok(n) => resolved == Some(n@) && plain_name(n@) && !has_name(config.entries(), n@),
        Err(AltsError::InvalidName) => match resolved {
            Some(m) => !plain_name(m),
            None => true,
        },
        Err(AltsError::NameCollision(n)) => resolved == Some(n@) && plain_name(n@) && has_name(
            config.entries(),
            n@,
        ),
        Err(_) => false,
    }
}

/// Decides whether a checkpoint may be taken at the instant `now`, and under
/// which name. What the file system showed: whether the tracked directory
/// exists, and whether it has any entry. The index is not changed. A name
/// that comes back is one plain directory name, so the checkpoint's directory
/// is a direct child of the control directory.
pub fn plan_checkpoint(
    config: &Config,
    target_exists: bool,
    target_nonempty: bool,
    requested: Option<String>,
    now: &Instant,
) -> (r: Result<String, AltsError>)
    requires
        now.wf(),
    ensures
        !target_exists ==> r == Err::<String, AltsError>(AltsError::TargetMissing),
        target_exists && !target_nonempty ==> r == Err::<String, AltsError>(
            AltsError::TargetEmpty,
        ),
        target_exists && target_nonempty ==> planned(
            *config,
            resolved_name(opt_view(requested), config.target(), *now),
            r,
        ),
        r matches Ok(n) ==> plain_name(n@),
{
    if !target_exists {
        return Err(AltsError::TargetMissing);
    }
    if !target_nonempty {
        return Err(AltsError::TargetEmpty);
    }
    match resolve_name(requested, config.target_dir().as_str(), now) {
        None => Err(AltsError::InvalidName),
        Some(name) => {
            if !is_plain_name(name.as_str()) {
                Err(AltsError::InvalidName)
            } else {
                claim_name(config, name)
            }
        },
    }
}

/// As `plan_checkpoint`, at the instant the clock gives now; that instant
/// comes back with the name.
pub fn plan_checkpoint_now(
    config: &Config,
    target_exists: bool,
    target_nonempty: bool,
    requested: Option<String>,
) -> (r: Result<(String, Instant), AltsError>)
    ensures
        !target_exists ==> r == Err::<(String, Instant), AltsError>(AltsError::TargetMissing),
        target_exists && !target_nonempty ==> r == Err::<(String, Instant), AltsError>(
            AltsError::TargetEmpty,
        ),
        target_exists && target_nonempty ==> match r {
            Ok((n, t)) => t.wf() && planned(
                *config,
                resolved_name(opt_view(requested), config.target(), t),
                Ok::<String, AltsError>(n),
            ),
            Err(e) => exists|t: Instant|
                t.wf() && #[trigger] planned(
                    *config,
                    resolved_name(opt_view(requested), config.target(), t),
                    Err::<String, AltsError>(e),
                ),
        },
        r matches Ok((n, _)) ==> plain_name(n@),
{
    let now = clock_now();
    match plan_checkpoint(config, target_exists, target_nonempty, requested, &now) {
        Ok(name) => Ok((name, now)),
        Err(e) => Err(e),
    }
}

/// Records in the index the checkpoint `name`, taken at `now`, once its
/// directory has been copied.
pub fn commit_checkpoint(config: &mut Config, name: String, now: &Instant)
    requires
        old(config).wf(),
        !has_name(old(config).entries(), name@),
        now.wf(),
    ensures
        final(config).wf(),
        final(config).target() == old(config).target(),
        final(config).entries().len() == old(config).entries().len() + 1,
        forall|x: (Seq<char>, Seq<char>)| #[trigger]
            final(config).entries().contains(x) <==> (old(config).entries().contains(x) || x == (
                name@,
                rfc3339_of(
                    now.year as int,
                    now.month as int,
                    now.day as int,
                    now.hour as int,
                    now.minute as int,
                    now.second as int,
                    now.nanosecond as int,
                ),
            )),
{
    let timestamp = rfc3339_text(now);
    config.insert_checkpoint(name, timestamp);
}

} // verus!
