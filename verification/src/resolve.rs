use vstd::prelude::*;

verus! {

/// The paths flagged as files, in input order. Duplicates are kept:
/// a path given twice is resolved twice.
pub open spec fn spec_filter_files(paths: Seq<Seq<char>>, is_file: Seq<bool>) -> Seq<Seq<char>>
    decreases paths.len(),
{
    if paths.len() == 0 {
        Seq::empty()
    } else {
        let prev = spec_filter_files(paths.drop_last(), is_file.drop_last());
        if is_file.last() {
            prev.push(paths.last())
        } else {
            prev
        }
    }
}

/// The paths not flagged as files, in input order: the directories to
/// be walked.
pub open spec fn spec_filter_dirs(paths: Seq<Seq<char>>, is_file: Seq<bool>) -> Seq<Seq<char>>
    decreases paths.len(),
{
    if paths.len() == 0 {
        Seq::empty()
    } else {
        let prev = spec_filter_dirs(paths.drop_last(), is_file.drop_last());
        if is_file.last() {
            prev
        } else {
            prev.push(paths.last())
        }
    }
}

/// What path resolution returns: the direct files first, in input
/// order, then the files discovered by walking the directories, in
/// traversal order.
pub open spec fn spec_resolve(
    paths: Seq<Seq<char>>,
    is_file: Seq<bool>,
    discovered: Seq<Seq<char>>,
) -> Seq<Seq<char>> {
    spec_filter_files(paths, is_file) + discovered
}

/// Splits the input paths by the given file flags into the direct
/// files and the directories still to be walked, each in input order.
pub fn partition_paths(paths: &Vec<String>, is_file: &Vec<bool>) -> (r: (Vec<String>, Vec<String>))
    requires
        paths@.len() == is_file@.len(),
    ensures
        r.0.deep_view() == spec_filter_files(paths.deep_view(), is_file@),
        r.1.deep_view() == spec_filter_dirs(paths.deep_view(), is_file@),
{
    let ghost pv = paths.deep_view();
    let ghost fv = is_file@;
    let mut files: Vec<String> = Vec::new();
    let mut dirs: Vec<String> = Vec::new();
    proof {
        assert(pv.take(0) =~= Seq::<Seq<char>>::empty());
        assert(fv.take(0) =~= Seq::<bool>::empty());
        assert(files.deep_view() =~= spec_filter_files(pv.take(0), fv.take(0)));
        assert(dirs.deep_view() =~= spec_filter_dirs(pv.take(0), fv.take(0)));
    }
    let n = paths.len();
    for i in 0..n
        invariant
            n == paths.len(),
            n == is_file.len(),
            pv == paths.deep_view(),
            fv == is_file@,
            pv.len() == n,
            fv.len() == n,
            files.deep_view() == spec_filter_files(pv.take(i as int), fv.take(i as int)),
            dirs.deep_view() == spec_filter_dirs(pv.take(i as int), fv.take(i as int)),
    {
        let ghost old_files = files.deep_view();
        let ghost old_dirs = dirs.deep_view();
        if is_file[i] {
            files.push(paths[i].clone());
        } else {
            dirs.push(paths[i].clone());
        }
        proof {
            assert(pv[i as int] == paths@[i as int]@);
            assert(pv.take(i as int + 1).drop_last() =~= pv.take(i as int));
            assert(fv.take(i as int + 1).drop_last() =~= fv.take(i as int));
            assert(pv.take(i as int + 1).last() == pv[i as int]);
            assert(fv.take(i as int + 1).last() == fv[i as int]);
            if fv[i as int] {
                assert(files.deep_view() =~= old_files.push(pv[i as int]));
            } else {
                assert(dirs.deep_view() =~= old_dirs.push(pv[i as int]));
            }
        }
    }
    proof {
        assert(pv.take(n as int) =~= pv);
        assert(fv.take(n as int) =~= fv);
    }
    (files, dirs)
}

/// Resolves the input paths: paths flagged as files pass through
/// unchanged and come first, then the files discovered under the
/// directories, in traversal order. Nothing is deduplicated.
pub fn resolve_paths(paths: &Vec<String>, is_file: &Vec<bool>, discovered: Vec<String>) -> (r:
    Vec<String>)
    requires
        paths@.len() == is_file@.len(),
    ensures
        r.deep_view() == spec_resolve(paths.deep_view(), is_file@, discovered.deep_view()),
{
    let ghost dv = discovered.deep_view();
    let (mut files, _dirs) = partition_paths(paths, is_file);
    let ghost filesv = files.deep_view();
    let mut rest = discovered;
    files.append(&mut rest);
    proof {
        assert(files.deep_view() =~= filesv + dv);
    }
    files
}

} // verus!
