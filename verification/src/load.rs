use vstd::prelude::*;

use crate::classify::res_view;
use crate::classify::spec_classify;
use crate::classify::spec_envelope;
use crate::classify::LoadError;
use crate::classify::LoadErrorV;
use crate::model::Object;
use crate::model::ObjectV;
use crate::parse::parse_stream;
use crate::parse::parsed_docs;
use crate::yaml::YamlNode;
use crate::yaml::YamlVal;

verus! {

/// The documents of a list of YAML texts, concatenated in order, or the
/// position of the first text that is not valid YAML.
pub open spec fn spec_parse_texts(texts: Seq<Seq<char>>) -> Result<Seq<YamlVal>, int>
    decreases texts.len(),
{
    if texts.len() == 0 {
        Ok(Seq::empty())
    } else {
        match spec_parse_texts(texts.drop_last()) {
            Err(i) => Err(i),
            Ok(docs) => match parsed_docs(texts.last()) {
                Some(d) => Ok(docs + d),
                None => Err(texts.len() - 1),
            },
        }
    }
}

/// A classification error, carrying the position of the document it
/// arose on: an envelope error names the document, since nothing else
/// locates it; the other errors already carry their own context.
pub open spec fn located(e: LoadErrorV, doc: int) -> LoadErrorV {
    match e {
        LoadErrorV::MalformedEnvelope { .. } => LoadErrorV::MalformedEnvelope { doc },
        other => other,
    }
}

/// The workload objects of a document sequence, in order, or the error
/// of the first document that fails classification, located at that
/// document's position. Documents of unrecognized kinds contribute
/// nothing.
pub open spec fn spec_classify_docs(docs: Seq<YamlVal>) -> Result<Seq<ObjectV>, LoadErrorV>
    decreases docs.len(),
{
    if docs.len() == 0 {
        Ok(Seq::empty())
    } else {
        match spec_classify_docs(docs.drop_last()) {
            Err(e) => Err(e),
            Ok(objs) => match spec_classify(docs.last()) {
                Ok(Some(o)) => Ok(objs.push(o)),
                Ok(None) => Ok(objs),
                Err(e) => Err(located(e, docs.len() - 1)),
            },
        }
    }
}

/// What loading a list of YAML texts produces: every document of every
/// text, in order, classified in order.
pub open spec fn spec_load(texts: Seq<Seq<char>>) -> Result<Seq<ObjectV>, LoadErrorV> {
    match spec_parse_texts(texts) {
        Err(i) => Err(LoadErrorV::InvalidYaml { index: i }),
        Ok(docs) => spec_classify_docs(docs),
    }
}

proof fn lemma_parse_texts_prefix_err(texts: Seq<Seq<char>>, i: int)
    requires
        0 <= i < texts.len(),
        spec_parse_texts(texts.take(i)) is Ok,
        parsed_docs(texts[i]) is None,
    ensures
        spec_parse_texts(texts) == Err::<Seq<YamlVal>, int>(i),
    decreases texts.len(),
{
    if texts.len() == i + 1 {
        assert(texts.drop_last() =~= texts.take(i));
    } else {
        assert(texts.drop_last().take(i) =~= texts.take(i));
        assert(texts.drop_last()[i] == texts[i]);
        lemma_parse_texts_prefix_err(texts.drop_last(), i);
    }
}

proof fn lemma_classify_docs_prefix_err(docs: Seq<YamlVal>, i: int, e: LoadErrorV)
    requires
        0 <= i < docs.len(),
        spec_classify_docs(docs.take(i)) is Ok,
        spec_classify(docs[i]) == Err::<Option<ObjectV>, LoadErrorV>(e),
    ensures
        spec_classify_docs(docs) == Err::<Seq<ObjectV>, LoadErrorV>(located(e, i)),
    decreases docs.len(),
{
    if docs.len() == i + 1 {
        assert(docs.drop_last() =~= docs.take(i));
    } else {
        assert(docs.drop_last().take(i) =~= docs.take(i));
        assert(docs.drop_last()[i] == docs[i]);
        lemma_classify_docs_prefix_err(docs.drop_last(), i, e);
    }
}

/// Decodes one file's text as a YAML document stream, in stream order.
/// `None` means the text is not valid YAML.
pub fn load_documents(text: &str) -> (r: Option<Vec<YamlNode>>)
    ensures
        r matches Some(docs) ==> parsed_docs(text@) == Some(docs.deep_view()),
        r is None <==> parsed_docs(text@) is None,
{
    match parse_stream(text) {
        Ok(docs) => Some(docs),
        Err(_) => None,
    }
}

/// The declared metadata name and kind of a document whose envelope is
/// well formed; `None` where the envelope is malformed. Provided so a
/// caller can trace every classified document, recognized or skipped.
pub fn envelope_name_kind(doc: &YamlNode) -> (r: Option<(String, String)>)
    ensures
        match r {
            Some(t) => spec_envelope(doc.deep_view()) matches Some(env) && env.2 == t.0@
                && env.1 == t.1@,
            None => spec_envelope(doc.deep_view()) is None,
        },
{
    match crate::classify::decode_envelope(doc) {
        Some(t) => Some((t.2, t.1)),
        None => None,
    }
}

/// Loads workload objects from the given YAML texts: every document of
/// every text, in order, classified in order. The first failure aborts
/// the whole load.
pub fn load(texts: &Vec<String>) -> (r: Result<Vec<Object>, LoadError>)
    ensures
        res_view(r) == spec_load(texts.deep_view()),
{
    let ghost tv = texts.deep_view();
    let mut docs: Vec<YamlNode> = Vec::new();
    proof {
        assert(tv.take(0) =~= Seq::<Seq<char>>::empty());
        assert(docs.deep_view() =~= Seq::<YamlVal>::empty());
    }
    let n = texts.len();
    for i in 0..n
        invariant
            n == texts.len(),
            tv == texts.deep_view(),
            tv.len() == n,
            spec_parse_texts(tv.take(i as int)) == Ok::<Seq<YamlVal>, int>(docs.deep_view()),
    {
        proof {
            assert(tv[i as int] == texts@[i as int]@);
        }
        match parse_stream(texts[i].as_str()) {
            Ok(mut d) => {
                let ghost old_dv = docs.deep_view();
                let ghost d_dv = d.deep_view();
                docs.append(&mut d);
                proof {
                    assert(docs.deep_view() =~= old_dv + d_dv);
                    assert(tv.take(i as int + 1).drop_last() =~= tv.take(i as int));
                    assert(tv.take(i as int + 1).last() == tv[i as int]);
                }
            },
            Err(_) => {
                proof {
                    lemma_parse_texts_prefix_err(tv, i as int);
                }
                return Err(LoadError::InvalidYaml { index: i });
            },
        }
    }
    proof {
        assert(tv.take(n as int) =~= tv);
    }
    let ghost dv = docs.deep_view();
    let mut objects: Vec<Object> = Vec::new();
    proof {
        assert(dv.take(0) =~= Seq::<YamlVal>::empty());
        assert(objects.deep_view() =~= Seq::<ObjectV>::empty());
    }
    let m = docs.len();
    for i in 0..m
        invariant
            m == docs.len(),
            dv == docs.deep_view(),
            dv.len() == m,
            tv == texts.deep_view(),
            spec_parse_texts(tv) == Ok::<Seq<YamlVal>, int>(dv),
            spec_classify_docs(dv.take(i as int)) == Ok::<Seq<ObjectV>, LoadErrorV>(
                objects.deep_view(),
            ),
    {
        proof {
            assert(dv[i as int] == docs@[i as int].deep_view());
            assert(dv.take(i as int + 1).drop_last() =~= dv.take(i as int));
            assert(dv.take(i as int + 1).last() == dv[i as int]);
        }
        match Object::from_yaml(&docs[i]) {
            Ok(Some(o)) => {
                let ghost old_ov = objects.deep_view();
                objects.push(o);
                proof {
                    assert(objects.deep_view() =~= old_ov.push(o.deep_view()));
                }
            },
            Ok(None) => {},
            Err(e) => {
                proof {
                    lemma_classify_docs_prefix_err(dv, i as int, e.deep_view());
                }
                let e = match e {
                    LoadError::MalformedEnvelope { .. } => LoadError::MalformedEnvelope {
                        doc: i,
                    },
                    other => other,
                };
                return Err(e);
            },
        }
    }
    proof {
        assert(dv.take(m as int) =~= dv);
    }
    Ok(objects)
}

} // verus!
