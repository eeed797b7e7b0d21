use crate::text::{chars_of, push_str, string_of};
use vstd::prelude::*;

verus! {

/// One filesystem step of a write.
pub enum WriteStep {
    /// Create a directory and its parents.
    CreateDir(String),
    /// Write a whole file.
    WriteFile(String, String),
    /// Move a file over another path.
    Rename(String, String),
}

/// The files of a filesystem model: path to contents.
pub type FileMap = Map<Seq<char>, Seq<char>>;

/// The effect of one step on the files.
pub open spec fn apply_step(fs: FileMap, s: WriteStep) -> FileMap {
    match s {
        WriteStep::CreateDir(_) => fs,
        WriteStep::WriteFile(p, c) => fs.insert(p@, c@),
        WriteStep::Rename(a, b) => if fs.contains_key(a@) {
            fs.remove(a@).insert(b@, fs[a@])
        } else {
            fs
        },
    }
}

/// The files after the steps run in order.
pub open spec fn run_steps(fs: FileMap, steps: Seq<WriteStep>) -> FileMap
    decreases steps.len(),
{
    if steps.len() == 0 {
        fs
    } else {
        apply_step(run_steps(fs, steps.drop_last()), steps.last())
    }
}

/// The temporary file next to `path`.
pub open spec fn temp_path(path: Seq<char>) -> Seq<char> {
    path + ".tmp"@
}

/// A write of `contents` to `path` that creates `dir` and then goes through a
/// temporary file and a rename.
pub open spec fn is_atomic_plan(
    steps: Seq<WriteStep>,
    dir: Seq<char>,
    path: Seq<char>,
    contents: Seq<char>,
) -> bool {
    &&& steps.len() == 3
    &&& match steps[0] {
        WriteStep::CreateDir(d) => d@ == dir,
        _ => false,
    }
    &&& match steps[1] {
        WriteStep::WriteFile(p, c) => p@ == temp_path(path) && c@ == contents,
        _ => false,
    }
    &&& match steps[2] {
        WriteStep::Rename(a, b) => a@ == temp_path(path) && b@ == path,
        _ => false,
    }
}

/// Plans a write of `contents` to `path`: create `dir` (the parent directory), write a
/// temporary sibling, rename it over `path`.
pub fn atomic_write_plan(dir: String, path: String, contents: String) -> (r: Vec<WriteStep>)
    ensures
        is_atomic_plan(r@, dir@, path@, contents@),
{
    let mut t = chars_of(path.as_str());
    push_str(&mut t, ".tmp");
    let tmp = string_of(&t);
    let tmp2 = tmp.clone();
    vec![
        WriteStep::CreateDir(dir),
        WriteStep::WriteFile(tmp, contents),
        WriteStep::Rename(tmp2, path),
    ]
}

/// Whatever prefix of an atomic write plan has run when the process stops, `path`
/// holds either exactly what it held before (or is still absent) or the complete new
/// contents; once the whole plan has run it holds the new contents.
pub proof fn atomic_write_never_partial(
    fs: FileMap,
    steps: Seq<WriteStep>,
    dir: Seq<char>,
    path: Seq<char>,
    contents: Seq<char>,
    k: int,
)
    requires
        is_atomic_plan(steps, dir, path, contents),
        0 <= k <= steps.len(),
    ensures
        ({
            let after = run_steps(fs, steps.subrange(0, k));
            (after.contains_key(path) == fs.contains_key(path) && (fs.contains_key(path)
                ==> after[path] == fs[path])) || (after.contains_key(path) && after[path]
                == contents)
        }),
        run_steps(fs, steps).contains_key(path) && run_steps(fs, steps)[path] == contents,
{
    assert(temp_path(path) != path) by {
        reveal_strlit(".tmp");
        assert(temp_path(path).len() == path.len() + 4);
    }
    let s0 = steps.subrange(0, 0);
    let s1 = steps.subrange(0, 1);
    let s2 = steps.subrange(0, 2);
    assert(s1.drop_last() =~= s0);
    assert(s2.drop_last() =~= s1);
    assert(steps.drop_last() =~= s2);
    assert(steps.subrange(0, 3) =~= steps);
    assert(s0.len() == 0);
    assert(run_steps(fs, s0) == fs);
    assert(s1.last() == steps[0]);
    assert(s2.last() == steps[1]);
    assert(steps.last() == steps[2]);
    let f1 = run_steps(fs, s1);
    let f2 = run_steps(fs, s2);
    assert(f1 == fs);
    assert(f2 == fs.insert(temp_path(path), contents));
    assert(f2.contains_key(temp_path(path)));
    assert(run_steps(fs, steps) == f2.remove(temp_path(path)).insert(path, contents));
}

/// The backups taken so far: target path to the contents saved for it.
pub type BackupMap = Map<Seq<char>, Seq<char>>;

/// Backs up `current` for `path` unless a backup of `path` exists or there is nothing
/// to back up.
pub open spec fn backup_step(b: BackupMap, path: Seq<char>, current: Option<Seq<char>>) -> BackupMap {
    match current {
        Some(c) => if b.contains_key(path) {
            b
        } else {
            b.insert(path, c)
        },
        None => b,
    }
}

/// Should the target be copied aside? Only when it exists and no backup of it does.
pub fn needs_backup(backup_exists: bool, target_exists: bool) -> (r: bool)
    ensures
        r == (target_exists && !backup_exists),
{
    target_exists && !backup_exists
}

/// The backups taken in one session, in the order they were taken.
pub struct BackupLedger {
    pub saved: Vec<(String, String)>,
}

/// The backup map of a ledger: the first backup of each path.
pub open spec fn ledger_map(s: Seq<(String, String)>) -> BackupMap
    decreases s.len(),
{
    if s.len() == 0 {
        Map::empty()
    } else {
        let m = ledger_map(s.drop_last());
        if m.contains_key(s.last().0@) {
            m
        } else {
            m.insert(s.last().0@, s.last().1@)
        }
    }
}

impl BackupLedger {
    pub open spec fn view(&self) -> BackupMap {
        ledger_map(self.saved@)
    }

    /// A ledger with no backups.
    pub fn new() -> (r: BackupLedger)
        ensures
            r.view() == Map::<Seq<char>, Seq<char>>::empty(),
    {
        BackupLedger { saved: Vec::new() }
    }

    /// Has `path` been backed up?
    pub fn has_backup(&self, path: &String) -> (r: bool)
        ensures
            r == self.view().contains_key(path@),
    {
        let mut i: usize = 0;
        while i < self.saved.len()
            invariant
                i <= self.saved@.len(),
                forall|j: int| 0 <= j < i ==> self.saved@[j].0@ != path@,
            decreases self.saved@.len() - i,
        {
            if self.saved[i].0 == *path {
                proof {
                    lemma_ledger_has(self.saved@, i as int);
                }
                return true;
            }
            i = i + 1;
        }
        proof {
            lemma_ledger_lacks(self.saved@, path@);
        }
        false
    }

    /// Records `current` (the target's contents, `None` where it does not exist) as the
    /// backup of `path` unless one is recorded already; says whether it recorded one.
    pub fn backup_once(&mut self, path: String, current: Option<String>) -> (made: bool)
        ensures
            final(self).view() == backup_step(
                old(self).view(),
                path@,
                match current {
                    Some(c) => Some(c@),
                    None => None,
                },
            ),
            made == (current is Some && !old(self).view().contains_key(path@)),
    {
        let exists = self.has_backup(&path);
        match current {
            Some(c) => {
                if needs_backup(exists, true) {
                    self.saved.push((path, c));
                    proof {
                        assert(self.saved@.drop_last() == old(self).saved@);
                    }
                    true
                } else {
                    false
                }
            },
            None => false,
        }
    }
}

proof fn lemma_ledger_has(s: Seq<(String, String)>, i: int)
    requires
        0 <= i < s.len(),
    ensures
        ledger_map(s).contains_key(s[i].0@),
    decreases s.len(),
{
    if i < s.len() - 1 {
        lemma_ledger_has(s.drop_last(), i);
    }
}

proof fn lemma_ledger_lacks(s: Seq<(String, String)>, p: Seq<char>)
    requires
        forall|j: int| 0 <= j < s.len() ==> s[j].0@ != p,
    ensures
        !ledger_map(s).contains_key(p),
    decreases s.len(),
{
    if s.len() > 0 {
        lemma_ledger_lacks(s.drop_last(), p);
    }
}

/// Backing up a target twice in a row keeps what it held at the first call: the
/// second call never overwrites the first backup.
pub proof fn backup_once_keeps_first(
    b: BackupMap,
    path: Seq<char>,
    first: Seq<char>,
    second: Seq<char>,
)
    requires
        !b.contains_key(path),
    ensures
        backup_step(backup_step(b, path, Some(first)), path, Some(second))[path] == first,
        backup_step(backup_step(b, path, Some(first)), path, Some(second)) == backup_step(
            b,
            path,
            Some(first),
        ),
{
}

} // verus!
