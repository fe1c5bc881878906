//! Git worktree records, and the parser for the porcelain worktree listing.
//! The host runs the Git subprocess and hands in its raw output lines; what
//! the listing means is decided and verified here.

use vstd::prelude::*;

use vstd::slice::slice_index_get;
use vstd::utf8::encode_utf8;

verus! {

/// One Git worktree: a secondary working directory linked to a shared
/// repository, checked out to a branch.
#[derive(Debug, Clone)]
pub struct Worktree {
    pub id: String,
    pub project_id: String,
    pub branch: String,
    pub path: String,
    pub is_active: bool,
    pub has_uncommitted_changes: bool,
    pub created_at: String,
}

/// One record of the porcelain worktree listing: the worktree's path and the
/// branch it is checked out to, both as raw bytes of the listing.
#[derive(Debug, Clone)]
pub struct WorktreeListing {
    pub path: Vec<u8>,
    pub branch: Vec<u8>,
}

impl View for WorktreeListing {
    type V = (Seq<u8>, Seq<u8>);

    open spec fn view(&self) -> (Seq<u8>, Seq<u8>) {
        (self.path@, self.branch@)
    }
}

/// True when `s` starts with `prefix`.
pub open spec fn spec_starts_with(s: Seq<u8>, prefix: Seq<u8>) -> bool {
    s.len() >= prefix.len() && s.subrange(0, prefix.len() as int) == prefix
}

/// Whether the byte string `s` starts with `prefix`.
pub fn bytes_start_with(s: &[u8], prefix: &[u8]) -> (r: bool)
    ensures
        r == spec_starts_with(s@, prefix@),
{
    let m = prefix.len();
    if s.len() < m {
        return false;
    }
    let mut i: usize = 0;
    while i < m
        invariant
            0 <= i <= m,
            m <= s@.len(),
            m == prefix@.len(),
            forall|k: int| 0 <= k < i ==> s@[k] == prefix@[k],
        decreases m - i,
    {
        if *slice_index_get(s, i) != *slice_index_get(prefix, i) {
            proof {
                if spec_starts_with(s@, prefix@) {
                    assert(s@.subrange(0, m as int)[i as int] == prefix@[i as int]);
                }
            }
            return false;
        }
        i = i + 1;
    }
    proof {
        assert(s@.subrange(0, m as int) =~= prefix@);
    }
    true
}

/// A copy of `s` from position `k` on.
pub fn bytes_from(s: &[u8], k: usize) -> (r: Vec<u8>)
    requires
        k <= s@.len(),
    ensures
        r@ == s@.skip(k as int),
{
    let mut out: Vec<u8> = Vec::new();
    let mut i: usize = k;
    while i < s.len()
        invariant
            k <= i <= s@.len(),
            out@.len() == i - k,
            forall|j: int| 0 <= j < out@.len() ==> out@[j] == s@[k + j],
        decreases s@.len() - i,
    {
        out.push(*slice_index_get(s, i));
        i = i + 1;
    }
    proof {
        assert(out@ =~= s@.skip(k as int));
    }
    out
}

/// Appends `s` to `out`.
pub fn append_bytes(out: &mut Vec<u8>, s: &[u8])
    ensures
        final(out)@ == old(out)@ + s@,
{
    let ghost pre = out@;
    let mut i: usize = 0;
    while i < s.len()
        invariant
            0 <= i <= s@.len(),
            out@ == pre + s@.subrange(0, i as int),
        decreases s@.len() - i,
    {
        let ghost before = out@;
        out.push(*slice_index_get(s, i));
        proof {
            assert(out@ =~= pre + s@.subrange(0, i + 1));
        }
        i = i + 1;
    }
    proof {
        assert(s@.subrange(0, s@.len() as int) =~= s@);
    }
}

/// True when `cut` and `end` bound the last path segment of `path`: `end`
/// cuts the trailing separators off, and `cut` stands right after the last
/// separator before it (or at the start, when there is none).
pub open spec fn spec_name_cut(path: Seq<u8>, cut: int, end: int) -> bool {
    &&& 0 <= cut <= end <= path.len()
    &&& forall|k: int| end <= k < path.len() ==> path[k] == 47
    &&& (end == 0 || path[end - 1] != 47)
    &&& (cut == 0 || path[cut - 1] == 47)
    &&& forall|k: int| cut <= k < end ==> path[k] != 47
}

/// The name of the directory a path points at: its last segment, ignoring
/// trailing `/` separators; `unknown` when nothing is left (an empty path or
/// only separators).
pub fn project_name_of(path: &[u8]) -> (r: Vec<u8>)
    ensures
        exists|cut: int, end: int|
            spec_name_cut(path@, cut, end) && if cut == end {
                r@ == vstd::utf8::encode_utf8("unknown"@)
            } else {
                r@ == path@.subrange(cut, end)
            },
{
    let mut end: usize = path.len();
    while end > 0 && *slice_index_get(path, end - 1) == 47
        invariant
            0 <= end <= path@.len(),
            forall|k: int| end <= k < path@.len() ==> path@[k] == 47,
        decreases end,
    {
        end = end - 1;
    }
    let mut cut: usize = 0;
    let mut i: usize = 0;
    while i < end
        invariant
            0 <= cut <= i <= end,
            cut == 0 || path@[cut - 1] == 47,
            forall|k: int| cut <= k < i ==> path@[k] != 47,
            end <= path@.len(),
        decreases end - i,
    {
        if *slice_index_get(path, i) == 47 {
            cut = i + 1;
        }
        i = i + 1;
    }
    proof {
        assert(spec_name_cut(path@, cut as int, end as int));
    }
    if cut == end {
        let fallback = bytes_from("unknown".as_bytes(), 0);
        proof {
            assert(fallback@ =~= encode_utf8("unknown"@));
        }
        fallback
    } else {
        let mut out: Vec<u8> = Vec::new();
        let mut j: usize = cut;
        while j < end
            invariant
                cut <= j <= end <= path@.len(),
                out@.len() == j - cut,
                forall|k: int| 0 <= k < out@.len() ==> out@[k] == path@[cut + k],
            decreases end - j,
        {
            out.push(*slice_index_get(path, j));
            j = j + 1;
        }
        proof {
            assert(out@ =~= path@.subrange(cut as int, end as int));
        }
        out
    }
}

/// Where a new worktree lives: `<home>/.worktrees/<project_name>/<branch>`.
pub fn worktree_path_for(home: &[u8], project_name: &[u8], branch: &[u8]) -> (r: Vec<u8>)
    ensures
        r@ == home@ + encode_utf8("/.worktrees/"@) + project_name@ + encode_utf8("/"@)
            + branch@,
{
    let mut out: Vec<u8> = Vec::new();
    append_bytes(&mut out, home);
    append_bytes(&mut out, "/.worktrees/".as_bytes());
    append_bytes(&mut out, project_name);
    append_bytes(&mut out, "/".as_bytes());
    append_bytes(&mut out, branch);
    proof {
        assert(out@ =~= home@ + encode_utf8("/.worktrees/"@) + project_name@ + encode_utf8(
            "/"@,
        ) + branch@);
    }
    out
}

/// The porcelain listing, one record per `worktree` line: a `worktree` line
/// opens a record with its path, a `branch` line fills the open record's
/// branch (with the `refs/heads/` part taken off where it is there), any
/// other line is ignored, and the record is closed by the next `worktree`
/// line or by the end of the listing.
pub open spec fn spec_parse_worktrees(
    lines: Seq<Seq<u8>>,
    current: Option<(Seq<u8>, Seq<u8>)>,
) -> Seq<(Seq<u8>, Seq<u8>)>
    decreases lines.len(),
{
    if lines.len() == 0 {
        match current {
            Some(c) => seq![c],
            None => Seq::empty(),
        }
    } else {
        let line = lines.first();
        let wt = encode_utf8("worktree "@);
        let branch_full = encode_utf8("branch refs/heads/"@);
        let branch_bare = encode_utf8("branch "@);
        if spec_starts_with(line, wt) {
            let rest = spec_parse_worktrees(
                lines.drop_first(),
                Some((line.skip(wt.len() as int), Seq::empty())),
            );
            match current {
                Some(c) => seq![c] + rest,
                None => rest,
            }
        } else if spec_starts_with(line, branch_full) && current is Some {
            spec_parse_worktrees(
                lines.drop_first(),
                Some((current->Some_0.0, line.skip(branch_full.len() as int))),
            )
        } else if spec_starts_with(line, branch_bare) && current is Some {
            spec_parse_worktrees(
                lines.drop_first(),
                Some((current->Some_0.0, line.skip(branch_bare.len() as int))),
            )
        } else {
            spec_parse_worktrees(lines.drop_first(), current)
        }
    }
}

/// The records of a listing as pairs of byte strings.
pub open spec fn listing_models(out: Seq<WorktreeListing>) -> Seq<(Seq<u8>, Seq<u8>)> {
    out.map_values(|w: WorktreeListing| w@)
}

spec fn current_model(c: Option<WorktreeListing>) -> Option<(Seq<u8>, Seq<u8>)> {
    match c {
        Some(w) => Some(w@),
        None => None,
    }
}

/// Parses the porcelain worktree listing, handed in as its raw output lines.
pub fn parse_worktree_list(lines: &Vec<Vec<u8>>) -> (r: Vec<WorktreeListing>)
    ensures
        listing_models(r@) == spec_parse_worktrees(lines.deep_view(), None),
{
    let ghost all = lines.deep_view();
    let mut out: Vec<WorktreeListing> = Vec::new();
    let mut current: Option<WorktreeListing> = None;
    let mut i: usize = 0;
    proof {
        assert(all.skip(0) =~= all);
        assert(listing_models(out@) =~= Seq::<(Seq<u8>, Seq<u8>)>::empty());
        assert(listing_models(out@) + spec_parse_worktrees(all, None) =~= spec_parse_worktrees(
            all,
            None,
        ));
    }
    while i < lines.len()
        invariant
            0 <= i <= all.len(),
            all.len() == lines@.len(),
            all == lines.deep_view(),
            spec_parse_worktrees(all, None) == listing_models(out@) + spec_parse_worktrees(
                all.skip(i as int),
                current_model(current),
            ),
        decreases all.len() - i,
    {
        let ghost pre_out = listing_models(out@);
        let ghost pre_cur = current_model(current);
        let ghost remaining = all.skip(i as int);
        proof {
            assert(all[i as int] == lines@[i as int]@);
            assert(remaining.first() == all[i as int]);
            assert(remaining.drop_first() =~= all.skip(i + 1));
        }
        let line: &Vec<u8> = &lines[i];
        let wt = "worktree ".as_bytes();
        let branch_full = "branch refs/heads/".as_bytes();
        let branch_bare = "branch ".as_bytes();
        if bytes_start_with(line.as_slice(), wt) {
            let path = bytes_from(line.as_slice(), wt.len());
            let opened = WorktreeListing { path, branch: Vec::new() };
            let ghost opened_model = opened@;
            match current {
                Some(closed) => {
                    out.push(closed);
                    proof {
                        assert(listing_models(out@) =~= pre_out.push(pre_cur->Some_0));
                        assert(spec_parse_worktrees(remaining, pre_cur) =~= seq![pre_cur->Some_0]
                            + spec_parse_worktrees(all.skip(i + 1), Some(opened_model)));
                        assert(pre_out + (seq![pre_cur->Some_0] + spec_parse_worktrees(
                            all.skip(i + 1),
                            Some(opened_model),
                        )) =~= pre_out.push(pre_cur->Some_0) + spec_parse_worktrees(
                            all.skip(i + 1),
                            Some(opened_model),
                        ));
                    }
                },
                None => {},
            }
            current = Some(opened);
        } else if bytes_start_with(line.as_slice(), branch_full) {
            match current {
                Some(mut open_record) => {
                    open_record.branch = bytes_from(line.as_slice(), branch_full.len());
                    current = Some(open_record);
                },
                None => {},
            }
        } else if bytes_start_with(line.as_slice(), branch_bare) {
            match current {
                Some(mut open_record) => {
                    open_record.branch = bytes_from(line.as_slice(), branch_bare.len());
                    current = Some(open_record);
                },
                None => {},
            }
        }
        i = i + 1;
    }
    proof {
        assert(all.skip(i as int) =~= Seq::<Seq<u8>>::empty());
    }
    match current {
        Some(last) => {
            let ghost pre_out = listing_models(out@);
            let ghost last_model = last@;
            out.push(last);
            proof {
                assert(listing_models(out@) =~= pre_out.push(last_model));
                assert(pre_out + seq![last_model] =~= pre_out.push(last_model));
            }
        },
        None => {
            proof {
                assert(listing_models(out@) + Seq::<(Seq<u8>, Seq<u8>)>::empty()
                    =~= listing_models(out@));
            }
        },
    }
    out
}

} // verus!
