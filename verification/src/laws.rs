use vstd::prelude::*;

use crate::classify::LoadErrorV;
use crate::compose::ServiceV;
use crate::convert::spec_convert;
use crate::convert::spec_convert_containers;
use crate::convert::spec_service_of;
use crate::convert::ConvertErrorV;
use crate::model::ContainerV;
use crate::load::spec_classify_docs;
use crate::load::spec_load;
use crate::load::spec_parse_texts;
use crate::model::ObjectV;
use crate::classify::spec_classify;
use crate::parse::parsed_docs;
use crate::pipeline::spec_run;
use crate::pipeline::RunErrorV;
use crate::resolve::spec_filter_files;
use crate::resolve::spec_resolve;
use crate::yaml::YamlVal;

verus! {

/// Where no input path is a file and walking the directories found
/// nothing, path resolution returns the empty list. In particular a
/// directory holding no YAML-typed files resolves to nothing.
pub proof fn lemma_resolve_nothing(paths: Seq<Seq<char>>, is_file: Seq<bool>)
    requires
        is_file.len() == paths.len(),
        forall|i: int| 0 <= i < is_file.len() ==> !is_file[i],
    ensures
        spec_resolve(paths, is_file, Seq::empty()) == Seq::<Seq<char>>::empty(),
{
    lemma_filter_files_nothing(paths, is_file);
    assert(spec_filter_files(paths, is_file) + Seq::<Seq<char>>::empty() =~= Seq::<
        Seq<char>,
    >::empty());
}

proof fn lemma_filter_files_nothing(paths: Seq<Seq<char>>, is_file: Seq<bool>)
    requires
        is_file.len() == paths.len(),
        forall|i: int| 0 <= i < is_file.len() ==> !is_file[i],
    ensures
        spec_filter_files(paths, is_file) == Seq::<Seq<char>>::empty(),
    decreases paths.len(),
{
    if paths.len() > 0 {
        assert(!is_file.last());
        assert(forall|i: int|
            0 <= i < is_file.drop_last().len() ==> !(#[trigger] is_file.drop_last()[i]));
        lemma_filter_files_nothing(paths.drop_last(), is_file.drop_last());
    }
}

/// Classification distributes over concatenation of document lists:
/// each document contributes its objects independently, in order.
pub proof fn lemma_classify_docs_concat(a: Seq<YamlVal>, b: Seq<YamlVal>, x: Seq<ObjectV>, y: Seq<
    ObjectV,
>)
    requires
        spec_classify_docs(a) == Ok::<Seq<ObjectV>, LoadErrorV>(x),
        spec_classify_docs(b) == Ok::<Seq<ObjectV>, LoadErrorV>(y),
    ensures
        spec_classify_docs(a + b) == Ok::<Seq<ObjectV>, LoadErrorV>(x + y),
    decreases b.len(),
{
    if b.len() == 0 {
        assert(a + b =~= a);
        assert(x + y =~= x);
    } else {
        let yp = match spec_classify_docs(b.drop_last()) {
            Ok(o) => o,
            Err(_) => Seq::empty(),
        };
        lemma_classify_docs_concat(a, b.drop_last(), x, yp);
        assert((a + b).drop_last() =~= a + b.drop_last());
        assert((a + b).last() == b.last());
        match spec_classify(b.last()) {
            Ok(Some(o)) => {
                assert(y =~= yp.push(o));
                assert(x + y =~= (x + yp).push(o));
            },
            Ok(None) => {
                assert(y =~= yp);
            },
            Err(_) => {},
        }
    }
}

/// A file path given twice is loaded and classified twice: appending
/// the same text again appends its documents, and their objects, again.
/// Nothing is deduplicated.
pub proof fn lemma_duplicate_input_processed_twice(
    texts: Seq<Seq<char>>,
    t: Seq<char>,
    docs: Seq<YamlVal>,
    d: Seq<YamlVal>,
    objs: Seq<ObjectV>,
    o: Seq<ObjectV>,
)
    requires
        spec_parse_texts(texts) == Ok::<Seq<YamlVal>, int>(docs),
        parsed_docs(t) == Some(d),
        spec_classify_docs(docs) == Ok::<Seq<ObjectV>, LoadErrorV>(objs),
        spec_classify_docs(d) == Ok::<Seq<ObjectV>, LoadErrorV>(o),
    ensures
        spec_parse_texts(texts.push(t).push(t)) == Ok::<Seq<YamlVal>, int>(docs + d + d),
        spec_load(texts.push(t).push(t)) == Ok::<Seq<ObjectV>, LoadErrorV>(objs + o + o),
{
    let once = texts.push(t);
    let twice = once.push(t);
    assert(once.drop_last() =~= texts);
    assert(once.last() == t);
    assert(spec_parse_texts(once) == Ok::<Seq<YamlVal>, int>(docs + d));
    assert(twice.drop_last() =~= once);
    assert(twice.last() == t);
    assert(spec_parse_texts(twice) == Ok::<Seq<YamlVal>, int>(docs + d + d));
    lemma_classify_docs_concat(docs, d, objs, o);
    lemma_classify_docs_concat(docs + d, d, objs + o, o);
}

/// A pod's containers convert without error as long as each declares
/// an image.
proof fn lemma_convert_containers_all_ok(
    acc: Seq<(Seq<char>, ServiceV)>,
    workload: Seq<char>,
    cs: Seq<ContainerV>,
    multi: bool,
)
    requires
        forall|l: int| 0 <= l < cs.len() ==> (#[trigger] spec_service_of(cs[l])) is Some,
    ensures
        spec_convert_containers(acc, workload, cs, multi).0 is Ok,
    decreases cs.len(),
{
    if cs.len() > 0 {
        let prefix = cs.drop_last();
        assert(forall|l: int| 0 <= l < prefix.len() ==> prefix[l] == cs[l]);
        lemma_convert_containers_all_ok(acc, workload, prefix, multi);
        assert(cs.last() == cs[cs.len() - 1]);
    }
}

/// The first container without an image stops the conversion of its
/// pod with an error naming that container and its workload.
pub proof fn lemma_missing_image_aborts(
    acc: Seq<(Seq<char>, ServiceV)>,
    workload: Seq<char>,
    cs: Seq<ContainerV>,
    multi: bool,
    j: int,
)
    requires
        0 <= j < cs.len(),
        cs[j].image is None,
        forall|l: int| 0 <= l < j ==> (#[trigger] cs[l].image) is Some,
    ensures
        spec_convert_containers(acc, workload, cs, multi).0 == Err::<(), ConvertErrorV>(
            ConvertErrorV::MissingImage { workload, container: cs[j].name },
        ),
{
    let prefix = cs.take(j);
    assert forall|l: int|
        0 <= l < prefix.len() implies (#[trigger] spec_service_of(prefix[l])) is Some by {
        assert(prefix[l] == cs[l]);
        assert(cs[l].image is Some);
    }
    lemma_convert_containers_all_ok(acc, workload, prefix, multi);
    crate::convert::lemma_convert_containers_prefix_err(acc, workload, cs, multi, j);
}

/// A conversion error aborts the whole run: the run's result is that
/// error, and no output text exists.
pub proof fn lemma_convert_error_aborts_run(
    texts: Seq<Seq<char>>,
    objs: Seq<crate::model::ObjectV>,
    e: ConvertErrorV,
)
    requires
        spec_load(texts) == Ok::<Seq<crate::model::ObjectV>, LoadErrorV>(objs),
        spec_convert(objs, Seq::<(Seq<char>, ServiceV)>::empty()).0 == Err::<(), ConvertErrorV>(
            e,
        ),
    ensures
        spec_run(texts) == Err::<Seq<char>, RunErrorV>(RunErrorV::Convert(e)),
{
}

/// Running the pipeline twice over the same unchanged input set gives
/// byte-identical output: the whole run is a function of the texts.
pub proof fn lemma_run_idempotent(
    texts: Seq<Seq<char>>,
    r1: Result<Seq<char>, RunErrorV>,
    r2: Result<Seq<char>, RunErrorV>,
)
    requires
        r1 == spec_run(texts),
        r2 == spec_run(texts),
    ensures
        r1 == r2,
{
}

} // verus!
