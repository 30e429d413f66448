//! File system paths as text: joining components, and asking the disk
//! whether something is there.

use vstd::prelude::*;

verus! {

/// `c` separates path components on some platform: `/` everywhere, `\` on
/// Windows.
pub open spec fn is_separator(c: char) -> bool {
    c == '/' || c == '\\'
}

/// `base` can be joined onto alike on every platform: it is empty or does
/// not start with `\` (no Windows verbatim or network prefix).
pub open spec fn joinable_base(base: Seq<char>) -> bool {
    base.len() == 0 || base[0] != '\\'
}

/// `part` is relative on every platform: it does not start with a
/// separator and holds no `:` (no drive).
pub open spec fn relative_part(part: Seq<char>) -> bool {
    &&& (part.len() == 0 || !is_separator(part[0]))
    &&& forall|i: int| 0 <= i < part.len() ==> part[i] != ':'
}

/// What stands between `base` and `part` in `r`.
pub open spec fn join_gap(base: Seq<char>, part: Seq<char>, r: Seq<char>) -> Seq<char> {
    r.subrange(base.len() as int, r.len() - part.len())
}

/// `gap` may stand between `base` and `part` when `part` is joined onto
/// `base`: nothing or one separator; nothing when `base` is empty or ends
/// with `/`; one separator when `base` ends with anything but a separator
/// or `:` and `part` is not empty. (Which separator, and what stands there
/// after a `\` or a `:`, depends on the platform.)
pub open spec fn gap_fits(base: Seq<char>, part: Seq<char>, gap: Seq<char>) -> bool {
    &&& gap.len() <= 1
    &&& gap.len() == 1 ==> is_separator(gap[0])
    &&& base.len() == 0 || base.last() == '/' ==> gap.len() == 0
    &&& base.len() > 0 && part.len() > 0 && !is_separator(base.last()) && base.last() != ':'
        ==> gap.len() == 1
}

/// `r` is `part` joined onto `base`: `base`, a gap that fits, `part`.
pub open spec fn join_of(base: Seq<char>, part: Seq<char>, r: Seq<char>) -> bool {
    &&& r.len() >= base.len() + part.len()
    &&& r == base + join_gap(base, part, r) + part
    &&& gap_fits(base, part, join_gap(base, part, r))
}

/// Calls `std::path::Path::join` on `base` and `part` and gives the result
/// back as text. Where `base` has no verbatim or network prefix and `part`
/// is relative on every platform, `part` is appended to `base` with at most
/// one separator between them (see `join_of`); absolute parts and drives
/// are not stated, nor which separator the platform uses.
#[verifier::external_body]
pub(crate) fn join_path(base: &str, part: &str) -> (r: String)
    ensures
        joinable_base(base@) && relative_part(part@) ==> join_of(base@, part@, r@),
{
    std::path::Path::new(base).join(part).to_string_lossy().into_owned()
}

/// Calls `std::path::Path::exists`: whether something is on disk at `path`
/// at the time of the call. Nothing is stated of the answer, which depends
/// on the disk.
#[verifier::external_body]
pub(crate) fn path_exists(path: &str) -> (r: bool) {
    std::path::Path::new(path).exists()
}

/// The components `parts` with the gaps `gaps` between neighbours.
pub open spec fn join_with_gaps(parts: Seq<Seq<char>>, gaps: Seq<Seq<char>>) -> Seq<char>
    decreases parts.len(),
{
    if parts.len() <= 1 {
        if parts.len() == 1 {
            parts[0]
        } else {
            seq![]
        }
    } else {
        join_with_gaps(parts.drop_last(), gaps.drop_last()) + gaps.last() + parts.last()
    }
}

/// Every gap fits where it stands.
pub open spec fn gaps_fit(parts: Seq<Seq<char>>, gaps: Seq<Seq<char>>) -> bool
    decreases parts.len(),
{
    if parts.len() <= 1 {
        true
    } else {
        gaps_fit(parts.drop_last(), gaps.drop_last()) && gap_fits(
            join_with_gaps(parts.drop_last(), gaps.drop_last()),
            parts.last(),
            gaps.last(),
        )
    }
}

/// `r` is the components `parts` joined one after another, as repeated
/// `Path::join` calls join them: with a fitting gap between neighbours (see
/// `gap_fits`).
pub open spec fn joined_path(r: Seq<char>, parts: Seq<Seq<char>>) -> bool {
    &&& parts.len() >= 1
    &&& exists|gaps: Seq<Seq<char>>|
        gaps.len() + 1 == parts.len() && gaps_fit(parts, gaps) && r == #[trigger] join_with_gaps(
            parts,
            gaps,
        )
}

/// The components can be joined alike on every platform: the first is a
/// joinable base and the others are relative.
pub open spec fn relative_parts(parts: Seq<Seq<char>>) -> bool {
    &&& parts.len() >= 1
    &&& joinable_base(parts[0])
    &&& forall|i: int| 1 <= i < parts.len() ==> relative_part(#[trigger] parts[i])
}

/// A path joined of such components can be joined onto again.
pub proof fn lemma_joined_joinable(parts: Seq<Seq<char>>, gaps: Seq<Seq<char>>)
    requires
        gaps.len() + 1 == parts.len(),
        gaps_fit(parts, gaps),
        relative_parts(parts),
    ensures
        joinable_base(join_with_gaps(parts, gaps)),
    decreases parts.len(),
{
    if parts.len() > 1 {
        let t = parts.drop_last();
        let pre = join_with_gaps(t, gaps.drop_last());
        assert forall|i: int| 1 <= i < t.len() implies relative_part(#[trigger] t[i]) by {
            assert(t[i] == parts[i]);
        }
        assert(t[0] == parts[0]);
        lemma_joined_joinable(t, gaps.drop_last());
        assert(relative_part(parts[parts.len() - 1]));
        let r = join_with_gaps(parts, gaps);
        if pre.len() > 0 {
            assert(r[0] == pre[0]);
        } else {
            assert(gaps.last().len() == 0);
            assert(r =~= parts.last());
        }
    }
}

/// `base` with the components `parts` joined onto it one after another, as
/// repeated `Path::join` calls give it.
pub fn join_all(base: &str, parts: &Vec<&str>) -> (r: String)
    ensures
        ({
            let all = seq![base@] + parts@.map_values(|p: &str| p@);
            relative_parts(all) ==> joined_path(r@, all)
        }),
{
    let ghost all = seq![base@] + parts@.map_values(|p: &str| p@);
    let mut r = base.to_owned();
    let n = parts.len();
    let mut i: usize = 0;
    proof {
        assert(all.take(1) =~= seq![base@]);
        let none: Seq<Seq<char>> = seq![];
        assert(join_with_gaps(all.take(1), none) == base@);
    }
    while i < n
        invariant
            n == parts@.len(),
            i <= n,
            all == seq![base@] + parts@.map_values(|p: &str| p@),
            relative_parts(all) ==> joined_path(r@, all.take(i + 1)),
        decreases n - i,
    {
        let next = join_path(r.as_str(), parts[i]);
        proof {
            if relative_parts(all) {
                let done = all.take(i + 1);
                let gaps = choose|gaps: Seq<Seq<char>>|
                    gaps.len() + 1 == done.len() && gaps_fit(done, gaps) && r@ == #[trigger] join_with_gaps(
                        done,
                        gaps,
                    );
                assert forall|k: int| 1 <= k < done.len() implies relative_part(#[trigger] done[k]) by {
                    assert(done[k] == all[k]);
                }
                assert(done[0] == all[0]);
                lemma_joined_joinable(done, gaps);
                assert(all[i + 1] == parts@[i as int]@);
                assert(relative_part(all[i + 1]));
                let part = parts@[i as int]@;
                let gap = join_gap(r@, part, next@);
                let more = all.take(i + 2);
                let more_gaps = gaps.push(gap);
                assert(more.drop_last() =~= done);
                assert(more_gaps.drop_last() =~= gaps);
                assert(more.last() == part);
                assert(join_with_gaps(more, more_gaps) == next@);
                assert(gaps_fit(more, more_gaps));
                assert(joined_path(next@, more));
            }
        }
        r = next;
        i = i + 1;
    }
    proof {
        assert(all.take(n + 1) =~= all);
    }
    r
}

} // verus!
