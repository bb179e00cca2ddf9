//! How the store reaches disk: the whole document is written to a temporary file
//! beside the destination, flushed, and then renamed over the destination, so
//! that the destination holds either the old document or the new one, never a
//! part of one. This module plans those steps; the caller performs them in order.

use vstd::prelude::*;

use crate::text::push_str;

verus! {

/// One step against the file system.
#[derive(Debug)]
pub enum FsOp {
    /// Create or truncate `path` and write `contents` to it.
    Write { path: String, contents: Vec<u8> },
    /// Flush `path` to stable storage.
    Sync { path: String },
    /// Atomically replace `to` by `from`.
    Rename { from: String, to: String },
}

pub ghost enum FsOpModel {
    Write(Seq<char>, Seq<u8>),
    Sync(Seq<char>),
    Rename(Seq<char>, Seq<char>),
}

impl View for FsOp {
    type V = FsOpModel;

    open spec fn view(&self) -> FsOpModel {
        match self {
            FsOp::Write { path, contents } => FsOpModel::Write(path@, contents@),
            FsOp::Sync { path } => FsOpModel::Sync(path@),
            FsOp::Rename { from, to } => FsOpModel::Rename(from@, to@),
        }
    }
}

/// The effect of one step on the files' contents, by path.
pub open spec fn apply_op(fs: Map<Seq<char>, Seq<u8>>, op: FsOpModel) -> Map<Seq<char>, Seq<u8>> {
    match op {
        FsOpModel::Write(p, c) => fs.insert(p, c),
        FsOpModel::Sync(_) => fs,
        FsOpModel::Rename(from, to) => if fs.contains_key(from) {
            fs.remove(from).insert(to, fs[from])
        } else {
            fs
        },
    }
}

/// The effect of steps taken in order.
pub open spec fn apply_ops(fs: Map<Seq<char>, Seq<u8>>, ops: Seq<FsOpModel>) -> Map<
    Seq<char>,
    Seq<u8>,
>
    decreases ops.len(),
{
    if ops.len() == 0 {
        fs
    } else {
        apply_op(apply_ops(fs, ops.drop_last()), ops.last())
    }
}

pub open spec fn temp_suffix() -> Seq<char> {
    seq!['.', 't', 'm', 'p']
}

/// The temporary file for `dest`: the same name with a suffix, so in the same directory.
pub open spec fn temp_path_spec(dest: Seq<char>) -> Seq<char> {
    dest + temp_suffix()
}

/// The steps that replace `dest` by `contents`.
pub open spec fn plan_spec(dest: Seq<char>, contents: Seq<u8>) -> Seq<FsOpModel> {
    let tmp = temp_path_spec(dest);
    seq![FsOpModel::Write(tmp, contents), FsOpModel::Sync(tmp), FsOpModel::Rename(tmp, dest)]
}

/// Whether `dest` is present with the same contents in both states, or absent in both.
pub open spec fn same_at(a: Map<Seq<char>, Seq<u8>>, b: Map<Seq<char>, Seq<u8>>, p: Seq<char>) -> bool {
    a.contains_key(p) == b.contains_key(p) && (a.contains_key(p) ==> a[p] == b[p])
}

/// A crash after any proper prefix of the steps (after the temporary file is
/// written, or flushed, but before the rename) leaves the destination exactly as
/// it was; all the steps leave it holding the new contents, and no other file
/// than the temporary one is touched.
pub proof fn lemma_persist_is_atomic(fs: Map<Seq<char>, Seq<u8>>, dest: Seq<char>, contents: Seq<u8>)
    ensures
        forall|k: int|
            0 <= k < plan_spec(dest, contents).len() ==> same_at(
                #[trigger] apply_ops(fs, plan_spec(dest, contents).take(k)),
                fs,
                dest,
            ),
        apply_ops(fs, plan_spec(dest, contents)).contains_key(dest),
        apply_ops(fs, plan_spec(dest, contents))[dest] == contents,
        !apply_ops(fs, plan_spec(dest, contents)).contains_key(temp_path_spec(dest)),
        forall|p: Seq<char>|
            p != dest && p != temp_path_spec(dest) ==> same_at(
                #[trigger] apply_ops(fs, plan_spec(dest, contents)),
                fs,
                p,
            ),
{
    let plan = plan_spec(dest, contents);
    let tmp = temp_path_spec(dest);
    assert(tmp.len() == dest.len() + 4);
    assert(tmp != dest);
    assert(plan.take(0).len() == 0);
    assert(plan.take(1).drop_last() =~= plan.take(0));
    assert(plan.take(2).drop_last() =~= plan.take(1));
    assert(plan.drop_last() =~= plan.take(2));
    assert(plan.take(1).last() == plan[0]);
    assert(plan.take(2).last() == plan[1]);
    let s1 = apply_ops(fs, plan.take(1));
    let s2 = apply_ops(fs, plan.take(2));
    let s3 = apply_ops(fs, plan);
    assert(apply_ops(fs, plan.take(0)) == fs);
    assert(plan[0] == FsOpModel::Write(tmp, contents));
    assert(plan[1] == FsOpModel::Sync(tmp));
    assert(plan.last() == FsOpModel::Rename(tmp, dest));
    assert(s1 =~= fs.insert(tmp, contents));
    assert(s2 =~= s1);
    assert(s2.contains_key(tmp));
    assert(s3 =~= s2.remove(tmp).insert(dest, contents));
}

/// The temporary file used when writing `dest`.
pub fn temp_path(dest: &str) -> (r: String)
    ensures
        r@ == temp_path_spec(dest@),
{
    let mut r = dest.to_owned();
    push_str(&mut r, ".tmp");
    proof {
        reveal_strlit(".tmp");
        assert(".tmp"@ =~= temp_suffix());
    }
    r
}

/// The steps that replace the file at `dest` by `contents` without ever leaving
/// a partly written destination: write a temporary file, flush it, rename it.
pub fn persist_plan(dest: &str, contents: Vec<u8>) -> (plan: Vec<FsOp>)
    ensures
        plan@.map_values(|op: FsOp| op@) == plan_spec(dest@, contents@),
{
    let tmp = temp_path(dest);
    let ghost c = contents@;
    let write = FsOp::Write { path: tmp.clone(), contents };
    let sync = FsOp::Sync { path: tmp.clone() };
    let rename = FsOp::Rename { from: tmp, to: dest.to_owned() };
    let plan = vec![write, sync, rename];
    assert(plan@.map_values(|op: FsOp| op@) =~= plan_spec(dest@, c));
    plan
}

} // verus!
